use basic_compiler::token::Token;
use basic_compiler::tokenizer::tokenize;

#[test]
fn keywords_symbols_and_literals_are_tokenized_in_order() {
    let tokens = tokenize("VAR MSG = \"hi\"").expect("tokenization should succeed");
    assert_eq!(tokens.len(), 4);
    match &tokens[0] {
        Token::Ident(i) => {
            assert_eq!(i.name, "VAR");
            assert_eq!(i.location.stringify(), "1:1-1:3");
        }
        other => panic!("expected an identifier, got {:?}", other),
    }
    match &tokens[1] {
        Token::Ident(i) => {
            assert_eq!(i.name, "MSG");
            assert_eq!(i.location.stringify(), "1:5-1:7");
        }
        other => panic!("expected an identifier, got {:?}", other),
    }
    match &tokens[2] {
        Token::Equal(e) => assert_eq!(e.loc.stringify(), "1:9"),
        other => panic!("expected an equal sign, got {:?}", other),
    }
    match &tokens[3] {
        Token::StrLit(s) => {
            assert_eq!(s.value, "hi");
            assert_eq!(s.location.stringify(), "1:11-1:14");
        }
        other => panic!("expected a string literal, got {:?}", other),
    }
}

#[test]
fn line_breaks_reset_the_column_and_advance_the_line() {
    let tokens = tokenize("A\nB").expect("tokenization should succeed");
    assert_eq!(tokens.len(), 3);
    match &tokens[0] {
        Token::Ident(i) => assert_eq!(i.location.stringify(), "1:1-1:1"),
        other => panic!("expected an identifier, got {:?}", other),
    }
    match &tokens[1] {
        Token::LineBreak(b) => assert_eq!(b.loc.stringify(), "1:2"),
        other => panic!("expected a line break, got {:?}", other),
    }
    match &tokens[2] {
        Token::Ident(i) => assert_eq!(i.location.stringify(), "2:1-2:1"),
        other => panic!("expected an identifier, got {:?}", other),
    }
}

#[test]
fn commas_split_identifiers() {
    let tokens = tokenize("A,B").expect("tokenization should succeed");
    assert_eq!(tokens.len(), 3);
    assert!(matches!(&tokens[0], Token::Ident(i) if i.name == "A"));
    match &tokens[1] {
        Token::Comma(c) => assert_eq!(c.loc.stringify(), "1:2"),
        other => panic!("expected a comma, got {:?}", other),
    }
    assert!(matches!(&tokens[2], Token::Ident(i) if i.name == "B"));
}

#[test]
fn whitespace_other_than_newline_is_discarded() {
    let tokens = tokenize("  A \t B  ").expect("tokenization should succeed");
    assert_eq!(tokens.len(), 2);
    assert!(matches!(&tokens[0], Token::Ident(i) if i.name == "A"));
    assert!(matches!(&tokens[1], Token::Ident(i) if i.name == "B"));
}

#[test]
fn string_literals_keep_their_text_verbatim() {
    let tokens = tokenize("\"a = b, c\\\"").expect("tokenization should succeed");
    assert_eq!(tokens.len(), 1);
    match &tokens[0] {
        Token::StrLit(s) => assert_eq!(s.value, "a = b, c\\"),
        other => panic!("expected a string literal, got {:?}", other),
    }
}

#[test]
fn empty_string_literal() {
    let tokens = tokenize("\"\"").expect("tokenization should succeed");
    assert_eq!(tokens.len(), 1);
    match &tokens[0] {
        Token::StrLit(s) => {
            assert_eq!(s.value, "");
            assert_eq!(s.location.stringify(), "1:1-1:2");
        }
        other => panic!("expected a string literal, got {:?}", other),
    }
}

#[test]
fn unterminated_literal_at_end_of_input() {
    let err = tokenize("PRINT \"oops").expect_err("the literal never closes");
    assert_eq!(err.opened_at.stringify(), "1:7");
}

#[test]
fn unterminated_literal_at_a_line_break() {
    let err = tokenize("X = \"oops\nY").expect_err("the literal never closes");
    assert_eq!(err.opened_at.stringify(), "1:5");
}

#[test]
fn trailing_identifier_is_flushed_at_end_of_input() {
    let tokens = tokenize("PRINT MSG").expect("tokenization should succeed");
    assert_eq!(tokens.len(), 2);
    assert!(matches!(&tokens[1], Token::Ident(i) if i.name == "MSG"));
}

#[test]
fn multibyte_characters_count_as_one_column() {
    let tokens = tokenize("héllo wörld").expect("tokenization should succeed");
    assert_eq!(tokens.len(), 2);
    match &tokens[0] {
        Token::Ident(i) => {
            assert_eq!(i.name, "héllo");
            assert_eq!(i.location.stringify(), "1:1-1:5");
        }
        other => panic!("expected an identifier, got {:?}", other),
    }
    match &tokens[1] {
        Token::Ident(i) => {
            assert_eq!(i.name, "wörld");
            assert_eq!(i.location.stringify(), "1:7-1:11");
        }
        other => panic!("expected an identifier, got {:?}", other),
    }
}

#[test]
fn empty_input_yields_no_tokens() {
    let tokens = tokenize("").expect("tokenization should succeed");
    assert_eq!(tokens.len(), 0);
}
