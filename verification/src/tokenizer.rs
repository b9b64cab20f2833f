//! The lexical scanner: converts raw source text into a sequence of located
//! tokens.
//!
//! The scanner is a single-pass character automaton with three states:
//! ready, accumulating an identifier, and accumulating a string literal.
//! [`spec_tokenize`] is its mathematical statement, and [`tokenize`] is
//! proved to return exactly its result.

use crate::errors::TokenizationError;
use crate::location::{Location, LocationV, Point, PointV};
use crate::text::{is_space, is_space_char, push_char};
use crate::token::{
    Comma, Equal, Identifier, IdentifierV, LineBreak, StringLiteral, StringLiteralV, Token, TokenV,
    tokens_view,
};
use vstd::prelude::*;

verus! {

/// The scanner state between two characters.
#[verifier::ext_equal]
pub enum TokMode {
    /// Not inside any multi-character token.
    Ready,
    /// Inside an identifier that began at column `start`.
    InIdent { start: int, acc: Seq<char> },
    /// Inside a string literal whose opening quote stands at column `start`.
    InStr { start: int, acc: Seq<char> },
}

/// The whole scanner configuration: position, mode and tokens emitted so
/// far.
#[verifier::ext_equal]
pub struct TokState {
    pub line: int,
    pub col: int,
    pub mode: TokMode,
    pub toks: Seq<TokenV>,
}

/// The configuration the scanner starts in.
pub open spec fn init_tok_state() -> TokState {
    TokState { line: 0, col: 0, mode: TokMode::Ready, toks: Seq::empty() }
}

/// The span from column `sc` to column `ec` on line `line`.
pub open spec fn line_span(line: int, sc: int, ec: int) -> LocationV {
    LocationV {
        start: PointV { line, column: sc },
        end: PointV { line, column: ec },
    }
}

/// If an identifier is in progress, emits it with end column `end_col`;
/// otherwise changes nothing.
pub open spec fn flush_ident(st: TokState, end_col: int) -> TokState {
    match st.mode {
        TokMode::InIdent { start, acc } => TokState {
            line: st.line,
            col: st.col,
            mode: TokMode::Ready,
            toks: st.toks.push(
                TokenV::Ident(
                    IdentifierV { name: acc, location: line_span(st.line, start, end_col) },
                ),
            ),
        },
        _ => st,
    }
}

/// One step of the scanner on character `c`. A line break inside a string
/// literal fails, reported at the opening quote.
pub open spec fn tok_step(st: TokState, c: char) -> Result<TokState, PointV> {
    if c == '\n' {
        match st.mode {
            TokMode::InStr { start, acc } => Err(PointV { line: st.line, column: start }),
            _ => {
                let st1 = flush_ident(st, st.col - 1);
                Ok(
                    TokState {
                        line: st.line + 1,
                        col: 0,
                        mode: TokMode::Ready,
                        toks: st1.toks.push(
                            TokenV::LineBreak(PointV { line: st.line, column: st.col }),
                        ),
                    },
                )
            },
        }
    } else {
        match st.mode {
            TokMode::InStr { start, acc } => {
                if c == '"' {
                    Ok(
                        TokState {
                            line: st.line,
                            col: st.col + 1,
                            mode: TokMode::Ready,
                            toks: st.toks.push(
                                TokenV::StrLit(
                                    StringLiteralV {
                                        value: acc,
                                        location: line_span(st.line, start, st.col),
                                    },
                                ),
                            ),
                        },
                    )
                } else {
                    Ok(
                        TokState {
                            line: st.line,
                            col: st.col + 1,
                            mode: TokMode::InStr { start, acc: acc.push(c) },
                            toks: st.toks,
                        },
                    )
                }
            },
            _ => {
                if is_space_char(c) {
                    let st1 = flush_ident(st, st.col - 1);
                    Ok(TokState { line: st1.line, col: st.col + 1, mode: st1.mode, toks: st1.toks })
                } else if c == '"' {
                    let st1 = flush_ident(st, st.col - 1);
                    Ok(
                        TokState {
                            line: st1.line,
                            col: st.col + 1,
                            mode: TokMode::InStr { start: st.col, acc: Seq::empty() },
                            toks: st1.toks,
                        },
                    )
                } else if c == ',' {
                    let st1 = flush_ident(st, st.col - 1);
                    Ok(
                        TokState {
                            line: st1.line,
                            col: st.col + 1,
                            mode: st1.mode,
                            toks: st1.toks.push(
                                TokenV::Comma(PointV { line: st.line, column: st.col }),
                            ),
                        },
                    )
                } else if c == '=' {
                    let st1 = flush_ident(st, st.col - 1);
                    Ok(
                        TokState {
                            line: st1.line,
                            col: st.col + 1,
                            mode: st1.mode,
                            toks: st1.toks.push(
                                TokenV::Equal(PointV { line: st.line, column: st.col }),
                            ),
                        },
                    )
                } else {
                    match st.mode {
                        TokMode::InIdent { start, acc } => Ok(
                            TokState {
                                line: st.line,
                                col: st.col + 1,
                                mode: TokMode::InIdent { start, acc: acc.push(c) },
                                toks: st.toks,
                            },
                        ),
                        _ => Ok(
                            TokState {
                                line: st.line,
                                col: st.col + 1,
                                mode: TokMode::InIdent { start: st.col, acc: seq![c] },
                                toks: st.toks,
                            },
                        ),
                    }
                }
            },
        }
    }
}

/// Runs the scanner over `s` from index `i` in configuration `st`. At end of
/// input a trailing identifier is flushed, and an open string literal fails,
/// reported at its opening quote.
pub open spec fn tok_run(s: Seq<char>, i: int, st: TokState) -> Result<TokState, PointV>
    decreases s.len() - i,
{
    if i < 0 || i >= s.len() {
        match st.mode {
            TokMode::InStr { start, acc } => Err(PointV { line: st.line, column: start }),
            _ => Ok(flush_ident(st, st.col - 1)),
        }
    } else {
        match tok_step(st, s[i]) {
            Ok(st2) => tok_run(s, i + 1, st2),
            Err(p) => Err(p),
        }
    }
}

/// What tokenization returns for source text `s`: the token sequence, or
/// the opening-quote position of an unterminated string literal.
pub open spec fn spec_tokenize(s: Seq<char>) -> Result<Seq<TokenV>, PointV> {
    match tok_run(s, 0, init_tok_state()) {
        Ok(st) => Ok(st.toks),
        Err(p) => Err(p),
    }
}

/// How many tokens the scanner may still emit for characters it has
/// already consumed: one for an identifier or string literal in progress.
pub open spec fn mode_pending(m: TokMode) -> int {
    match m {
        TokMode::Ready => 0,
        TokMode::InIdent { start, acc } => 1,
        TokMode::InStr { start, acc } => 1,
    }
}

proof fn lemma_tok_run_count(s: Seq<char>, i: int, st: TokState)
    requires
        0 <= i <= s.len(),
        st.toks.len() + mode_pending(st.mode) <= i,
    ensures
        tok_run(s, i, st) matches Ok(stf) ==> stf.toks.len() <= s.len(),
    decreases s.len() - i,
{
    if i < s.len() {
        match tok_step(st, s[i]) {
            Ok(st2) => {
                lemma_tok_run_count(s, i + 1, st2);
            },
            Err(_) => {},
        }
    }
}

/// Every token of the scanner's output consumes at least one source
/// character, so there are never more tokens than characters.
pub proof fn lemma_tokenize_count(s: Seq<char>)
    ensures
        spec_tokenize(s) matches Ok(ts) ==> ts.len() <= s.len(),
{
    lemma_tok_run_count(s, 0, init_tok_state());
}

/// The executable scanner's mode tag; the shared `start` column and
/// accumulator complete the state.
#[derive(Clone, Copy)]
enum LexKind {
    Ready,
    InIdent,
    InStr,
}

/// The model of the executable state triple.
spec fn mode_view(kind: LexKind, start: i32, acc: Seq<char>) -> TokMode {
    match kind {
        LexKind::Ready => TokMode::Ready,
        LexKind::InIdent => TokMode::InIdent { start: start as int, acc },
        LexKind::InStr => TokMode::InStr { start: start as int, acc },
    }
}

proof fn lemma_tokens_view_push(s: Seq<Token>, t: Token)
    ensures
        tokens_view(s.push(t)) =~= tokens_view(s).push(t@),
{
}

/// If an identifier is being accumulated, emits it, ending at column
/// `column`; the mirror of [`flush_ident`].
fn try_tokenizing_ident(
    tokens: &mut Vec<Token>,
    kind: &mut LexKind,
    start: i32,
    acc: &String,
    line: i32,
    column: i32,
)
    ensures
        ({
            let st0 = TokState {
                line: line as int,
                col: 0,
                mode: mode_view(*old(kind), start, acc@),
                toks: tokens_view(old(tokens)@),
            };
            let st1 = flush_ident(st0, column as int);
            mode_view(*final(kind), start, acc@) == st1.mode && tokens_view(final(tokens)@)
                == st1.toks
        }),
{
    if let LexKind::InIdent = *kind {
        let location = Location { start: Point::new(line, start), end: Point::new(line, column) };
        let tok = Token::Ident(Identifier { name: acc.clone(), location });
        proof {
            lemma_tokens_view_push(tokens@, tok);
        }
        tokens.push(tok);
        *kind = LexKind::Ready;
    }
}

/// Converts source text into tokens, or reports the opening quote of an
/// unterminated string literal.
pub fn tokenize(src: &str) -> (r: Result<Vec<Token>, TokenizationError>)
    requires
        src@.len() <= 0x0FFF_FFFF,
    ensures
        match r {
            Ok(tokens) => spec_tokenize(src@) == Ok::<Seq<TokenV>, PointV>(tokens_view(tokens@)),
            Err(e) => spec_tokenize(src@) == Err::<Seq<TokenV>, PointV>(e.opened_at@),
        },
{
    let n = src.unicode_len();
    let mut tokens: Vec<Token> = Vec::new();
    let mut kind = LexKind::Ready;
    let mut start: i32 = 0;
    let mut acc = String::new();
    let mut line: i32 = 0;
    let mut col: i32 = 0;
    let mut i: usize = 0;

    proof {
        assert(tokens_view(tokens@) =~= Seq::<TokenV>::empty());
        assert(TokState {
            line: line as int,
            col: col as int,
            mode: mode_view(kind, start, acc@),
            toks: tokens_view(tokens@),
        } =~= init_tok_state());
    }

    while i < n
        invariant
            n == src@.len(),
            n <= 0x0FFF_FFFF,
            i <= n,
            0 <= col <= i,
            0 <= line <= i,
            tok_run(src@, 0, init_tok_state()) == tok_run(
                src@,
                i as int,
                TokState {
                    line: line as int,
                    col: col as int,
                    mode: mode_view(kind, start, acc@),
                    toks: tokens_view(tokens@),
                },
            ),
        decreases n - i,
    {
        let ghost st0 = TokState {
            line: line as int,
            col: col as int,
            mode: mode_view(kind, start, acc@),
            toks: tokens_view(tokens@),
        };
        let c = src.get_char(i);

        if c == '\n' {
            try_tokenizing_ident(&mut tokens, &mut kind, start, &acc, line, col - 1);
            if let LexKind::InStr = kind {
                proof {
                    assert(tok_step(st0, c) == Err::<TokState, PointV>(
                        PointV { line: line as int, column: start as int },
                    ));
                }
                return Err(TokenizationError { opened_at: Point::new(line, start) });
            }
            let tok = Token::LineBreak(LineBreak { loc: Point::new(line, col) });
            proof {
                lemma_tokens_view_push(tokens@, tok);
            }
            tokens.push(tok);
            line = line + 1;
            col = 0;
        } else if let LexKind::InStr = kind {
            if c == '"' {
                let location = Location {
                    start: Point::new(line, start),
                    end: Point::new(line, col),
                };
                let tok = Token::StrLit(StringLiteral { value: acc.clone(), location });
                proof {
                    lemma_tokens_view_push(tokens@, tok);
                }
                tokens.push(tok);
                kind = LexKind::Ready;
            } else {
                push_char(&mut acc, c);
            }
            col = col + 1;
        } else if is_space(c) {
            try_tokenizing_ident(&mut tokens, &mut kind, start, &acc, line, col - 1);
            col = col + 1;
        } else if c == '"' {
            try_tokenizing_ident(&mut tokens, &mut kind, start, &acc, line, col - 1);
            kind = LexKind::InStr;
            start = col;
            acc = String::new();
            col = col + 1;
        } else if c == ',' {
            try_tokenizing_ident(&mut tokens, &mut kind, start, &acc, line, col - 1);
            let tok = Token::Comma(Comma { loc: Point::new(line, col) });
            proof {
                lemma_tokens_view_push(tokens@, tok);
            }
            tokens.push(tok);
            col = col + 1;
        } else if c == '=' {
            try_tokenizing_ident(&mut tokens, &mut kind, start, &acc, line, col - 1);
            let tok = Token::Equal(Equal { loc: Point::new(line, col) });
            proof {
                lemma_tokens_view_push(tokens@, tok);
            }
            tokens.push(tok);
            col = col + 1;
        } else {
            if let LexKind::InIdent = kind {
                push_char(&mut acc, c);
            } else {
                kind = LexKind::InIdent;
                start = col;
                acc = String::new();
                push_char(&mut acc, c);
            }
            col = col + 1;
        }

        proof {
            let st1 = TokState {
                line: line as int,
                col: col as int,
                mode: mode_view(kind, start, acc@),
                toks: tokens_view(tokens@),
            };
            let stepped = tok_step(st0, c);
            assert(stepped is Ok && stepped->Ok_0 =~= st1);
            assert(stepped == Ok::<TokState, PointV>(st1));
        }
        i = i + 1;
    }

    let ghost st_end = TokState {
        line: line as int,
        col: col as int,
        mode: mode_view(kind, start, acc@),
        toks: tokens_view(tokens@),
    };
    try_tokenizing_ident(&mut tokens, &mut kind, start, &acc, line, col - 1);
    if let LexKind::InStr = kind {
        proof {
            assert(tok_run(src@, n as int, st_end) == Err::<TokState, PointV>(
                PointV { line: line as int, column: start as int },
            ));
        }
        return Err(TokenizationError { opened_at: Point::new(line, start) });
    }
    proof {
        assert(tok_run(src@, n as int, st_end) == Ok::<TokState, PointV>(
            flush_ident(st_end, col as int - 1),
        ));
        assert(tokens_view(tokens@) == flush_ident(st_end, col as int - 1).toks);
    }
    Ok(tokens)
}

} // verus!
