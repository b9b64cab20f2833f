use basic_compiler::ast::{ExprAst, StmtAst};
use basic_compiler::errors::SyntaxError;
use basic_compiler::parser::{parse, parse_argument_list, parse_expr, validate_var_ident};
use basic_compiler::token::Token;
use basic_compiler::tokenizer::tokenize;

fn parse_src(src: &str) -> Result<Vec<StmtAst>, SyntaxError> {
    parse(&tokenize(src).expect("tokenization should succeed"))
}

#[test]
fn var_decl_assignment_and_call_parse() {
    let stmts = parse_src("VAR A = \"x\"\nA = \"y\"\nPRINT A").expect("parsing should succeed");
    assert_eq!(stmts.len(), 3);
    assert!(matches!(&stmts[0], StmtAst::VarDecl(i, _) if i.name == "A"));
    assert!(matches!(&stmts[1], StmtAst::VarAssign(i, _) if i.name == "A"));
    match &stmts[2] {
        StmtAst::ProcCall(i, args) => {
            assert_eq!(i.name, "PRINT");
            assert_eq!(args.len(), 1);
            assert!(matches!(&args[0], ExprAst::Ident(a) if a.name == "A"));
        }
        other => panic!("expected a call, got {:?}", other),
    }
}

#[test]
fn call_with_several_arguments_parses() {
    let stmts = parse_src("SHOW \"a\", \"b\", \"c\"").expect("parsing should succeed");
    match &stmts[0] {
        StmtAst::ProcCall(i, args) => {
            assert_eq!(i.name, "SHOW");
            assert_eq!(args.len(), 3);
        }
        other => panic!("expected a call, got {:?}", other),
    }
}

#[test]
fn bare_identifier_parses_as_a_call_without_arguments() {
    let stmts = parse_src("PRINT").expect("parsing should succeed");
    match &stmts[0] {
        StmtAst::ProcCall(i, args) => {
            assert_eq!(i.name, "PRINT");
            assert_eq!(args.len(), 0);
        }
        other => panic!("expected a call, got {:?}", other),
    }
}

#[test]
fn trailing_comma_ends_the_argument_list_silently() {
    let stmts = parse_src("PRINT \"a\",\n").expect("parsing should succeed");
    match &stmts[0] {
        StmtAst::ProcCall(i, args) => {
            assert_eq!(i.name, "PRINT");
            assert_eq!(args.len(), 1);
        }
        other => panic!("expected a call, got {:?}", other),
    }
}

#[test]
fn reserved_words_cannot_name_variables() {
    let err = parse_src("VAR VAR = \"x\"").expect_err("VAR is reserved");
    assert!(matches!(err, SyntaxError::ReservedName(i) if i.name == "VAR"));

    let err = parse_src("VAR PRINT = \"x\"").expect_err("PRINT is reserved");
    assert!(matches!(err, SyntaxError::ReservedName(i) if i.name == "PRINT"));

    let err = parse_src("X = PRINT").expect_err("PRINT cannot be referenced");
    assert!(matches!(err, SyntaxError::ReservedName(i) if i.name == "PRINT"));
}

#[test]
fn reservation_is_case_sensitive() {
    // VARIABLE shares a prefix with VAR but is an ordinary name
    let stmts = parse_src("VAR VARIABLE = \"v\"\nPRINT VARIABLE").expect("VARIABLE is ordinary");
    assert_eq!(stmts.len(), 2);
    // lower-case print and var are ordinary names too
    let stmts = parse_src("VAR print = \"v\"\nVAR var = \"w\"").expect("lower case is ordinary");
    assert_eq!(stmts.len(), 2);
}

#[test]
fn missing_identifier_after_var() {
    let err = parse_src("VAR = \"x\"").expect_err("a name is required");
    assert!(matches!(err, SyntaxError::IdentifierExpected(Some(Token::Equal(_)))));

    let err = parse_src("VAR").expect_err("a name is required");
    assert!(matches!(err, SyntaxError::IdentifierExpected(None)));

    let err = parse_src("VAR\nX = \"x\"").expect_err("a name is required");
    assert!(matches!(err, SyntaxError::IdentifierExpected(Some(Token::LineBreak(_)))));
}

#[test]
fn missing_equal_sign_in_declaration() {
    let err = parse_src("VAR X \"hi\"").expect_err("an equal sign is required");
    assert!(matches!(err, SyntaxError::EqualExpected(Some(Token::StrLit(_)))));

    let err = parse_src("VAR X").expect_err("an equal sign is required");
    assert!(matches!(err, SyntaxError::EqualExpected(None)));
}

#[test]
fn missing_expression_after_equal_sign() {
    let err = parse_src("VAR X = ,").expect_err("an expression is required");
    assert!(matches!(err, SyntaxError::ExpressionExpected(Some(Token::Comma(_)))));

    let err = parse_src("VAR X =").expect_err("an expression is required");
    assert!(matches!(err, SyntaxError::ExpressionExpected(None)));
}

#[test]
fn statement_must_end_at_the_line_break() {
    let err = parse_src("X = \"a\" \"b\"").expect_err("the line must end");
    assert!(matches!(err, SyntaxError::EndOfLineExpected(Token::StrLit(_))));
}

#[test]
fn statement_cannot_start_with_a_symbol() {
    let err = parse_src("= \"a\"").expect_err("a statement starts with a name");
    assert!(matches!(err, SyntaxError::IdentifierExpected(Some(Token::Equal(_)))));
}

#[test]
fn empty_and_blank_input_parse_to_no_statements() {
    assert_eq!(parse_src("").expect("empty input is fine").len(), 0);
    assert_eq!(parse_src("\n\n\n").expect("blank input is fine").len(), 0);
}

#[test]
fn parse_expr_returns_the_rest_of_the_tokens() {
    let tokens = tokenize("\"a\", \"b\"").expect("tokenization should succeed");
    let (expr, rest) = parse_expr(&tokens).expect("an expression leads");
    assert!(matches!(expr, ExprAst::StrLit(s) if s.value == "a"));
    assert_eq!(rest.len(), 2);
}

#[test]
fn parse_argument_list_collects_comma_separated_expressions() {
    let tokens = tokenize("\"a\", B, \"c\"\nX").expect("tokenization should succeed");
    let (args, rest) = parse_argument_list(&tokens).expect("arguments lead");
    assert_eq!(args.len(), 3);
    assert_eq!(rest.len(), 2);
}

#[test]
fn validate_var_ident_rejects_only_the_reserved_words() {
    let tokens = tokenize("PRINT VAR VARIABLE").expect("tokenization should succeed");
    for (i, reserved) in [(0, true), (1, true), (2, false)] {
        match &tokens[i] {
            Token::Ident(ident) => {
                assert_eq!(validate_var_ident(ident).is_err(), reserved);
            }
            other => panic!("expected an identifier, got {:?}", other),
        }
    }
}
