//! The recursive-descent parser: consumes the token sequence and produces
//! an ordered sequence of statements.
//!
//! Statements are line-oriented and delimited by line breaks; blank lines
//! are ignored. A leading identifier other than `VAR` is first tried as a
//! procedure call and only then as an assignment: an identifier immediately
//! followed by an expression-shaped token is a call argument, never a
//! misparsed assignment. [`spec_parse`] is the grammar's mathematical
//! statement, and [`parse`] is proved to return exactly its result.

use crate::ast::{ExprAst, ExprV, StmtAst, StmtV, exprs_view, stmts_view};
use crate::errors::{SyntaxError, SyntaxErrorV};
use crate::text::str_eq;
use crate::token::{Identifier, IdentifierV, Token, TokenV, tokens_view};
use vstd::prelude::*;
use vstd::slice::slice_subrange;

verus! {

/// The reserved words that may not be used as variable names.
pub open spec fn is_reserved(name: Seq<char>) -> bool {
    name == "PRINT"@ || name == "VAR"@
}

/// What parsing an expression returns: the leading string literal or
/// non-reserved identifier, with the tokens that follow it.
pub open spec fn spec_parse_expr(ts: Seq<TokenV>) -> Result<
    (ExprV, Seq<TokenV>),
    SyntaxErrorV,
> {
    if ts.len() == 0 {
        Err(SyntaxErrorV::ExpressionExpected(None))
    } else {
        match ts[0] {
            TokenV::StrLit(str_lit) => Ok((ExprV::StrLit(str_lit), ts.drop_first())),
            TokenV::Ident(ident) => if is_reserved(ident.name) {
                Err(SyntaxErrorV::ReservedName(ident))
            } else {
                Ok((ExprV::Ident(ident), ts.drop_first()))
            },
            t => Err(SyntaxErrorV::ExpressionExpected(Some(t))),
        }
    }
}

/// Continues an argument list after its first expression: consumes
/// `, expr` pairs, and stops silently at a comma not followed by an
/// expression, leaving that comma consumed.
pub open spec fn spec_parse_more_args(args: Seq<ExprV>, ts: Seq<TokenV>) -> (
    Seq<ExprV>,
    Seq<TokenV>,
)
    decreases ts.len(),
{
    if ts.len() > 0 && ts[0] is Comma {
        let after = ts.drop_first();
        match spec_parse_expr(after) {
            Ok(p) => spec_parse_more_args(args.push(p.0), after.drop_first()),
            Err(_) => (args, after),
        }
    } else {
        (args, ts)
    }
}

/// What parsing an argument list returns: one or more comma-separated
/// expressions.
pub open spec fn spec_parse_args(ts: Seq<TokenV>) -> Result<
    (Seq<ExprV>, Seq<TokenV>),
    SyntaxErrorV,
> {
    match spec_parse_expr(ts) {
        Ok(p) => Ok(spec_parse_more_args(seq![p.0], p.1)),
        Err(e) => Err(e),
    }
}

/// What parsing a procedure call returns, given the called identifier and
/// the tokens after it: a call with no arguments at end of line, otherwise
/// a call with a parsed argument list.
pub open spec fn spec_parse_proc_call(ident: IdentifierV, ts: Seq<TokenV>) -> Result<
    (StmtV, Seq<TokenV>),
    SyntaxErrorV,
> {
    if ts.len() == 0 || ts[0] is LineBreak {
        Ok((StmtV::ProcCall(ident, Seq::empty()), ts))
    } else {
        match spec_parse_args(ts) {
            Ok(p) => Ok((StmtV::ProcCall(ident, p.0), p.1)),
            Err(e) => Err(e),
        }
    }
}

/// What parsing an assignment returns, given the assigned identifier and
/// the tokens after it: `= expr`, with the reserved words rejected as
/// variable names.
pub open spec fn spec_parse_var_assign(ident: IdentifierV, ts: Seq<TokenV>) -> Result<
    (StmtV, Seq<TokenV>),
    SyntaxErrorV,
> {
    if is_reserved(ident.name) {
        Err(SyntaxErrorV::ReservedName(ident))
    } else if ts.len() == 0 {
        Err(SyntaxErrorV::EqualExpected(None))
    } else {
        match ts[0] {
            TokenV::Equal(_) => match spec_parse_expr(ts.drop_first()) {
                Ok(p) => Ok((StmtV::VarAssign(ident, p.0), p.1)),
                Err(e) => Err(e),
            },
            t => Err(SyntaxErrorV::EqualExpected(Some(t))),
        }
    }
}

/// What parsing a declaration returns, given tokens that begin with the
/// `VAR` keyword: `VAR ident = expr`.
pub open spec fn spec_parse_var_decl(ts: Seq<TokenV>) -> Result<
    (StmtV, Seq<TokenV>),
    SyntaxErrorV,
> {
    if ts.len() < 2 {
        Err(SyntaxErrorV::IdentifierExpected(None))
    } else {
        match ts[1] {
            TokenV::Ident(vid) => if is_reserved(vid.name) {
                Err(SyntaxErrorV::ReservedName(vid))
            } else if ts.len() < 3 {
                Err(SyntaxErrorV::EqualExpected(None))
            } else {
                match ts[2] {
                    TokenV::Equal(_) => match spec_parse_expr(ts.skip(3)) {
                        Ok(p) => Ok((StmtV::VarDecl(vid, p.0), p.1)),
                        Err(e) => Err(e),
                    },
                    t => Err(SyntaxErrorV::EqualExpected(Some(t))),
                }
            },
            t => Err(SyntaxErrorV::IdentifierExpected(Some(t))),
        }
    }
}

/// What parsing one statement returns, given tokens whose head is not a
/// line break.
pub open spec fn spec_parse_stmt(ts: Seq<TokenV>) -> Result<
    (StmtV, Seq<TokenV>),
    SyntaxErrorV,
> {
    match ts[0] {
        TokenV::Ident(ident) => if ident.name == "VAR"@ {
            spec_parse_var_decl(ts)
        } else {
            match spec_parse_proc_call(ident, ts.drop_first()) {
                Ok(p) => Ok(p),
                Err(_) => spec_parse_var_assign(ident, ts.drop_first()),
            }
        },
        t => Err(SyntaxErrorV::IdentifierExpected(Some(t))),
    }
}

/// Whether a statement is followed by a line break or end of input.
pub open spec fn spec_expect_eol(ts: Seq<TokenV>) -> Result<(), SyntaxErrorV> {
    if ts.len() == 0 {
        Ok(())
    } else {
        match ts[0] {
            TokenV::LineBreak(_) => Ok(()),
            t => Err(SyntaxErrorV::EndOfLineExpected(t)),
        }
    }
}

/// Drops leading line breaks: blank lines separate statements and carry no
/// meaning.
pub open spec fn skip_breaks(ts: Seq<TokenV>) -> Seq<TokenV>
    decreases ts.len(),
{
    if ts.len() > 0 && ts[0] is LineBreak {
        skip_breaks(ts.drop_first())
    } else {
        ts
    }
}

pub(crate) proof fn lemma_skip_breaks_len(ts: Seq<TokenV>)
    ensures
        skip_breaks(ts).len() <= ts.len(),
    decreases ts.len(),
{
    if ts.len() > 0 && ts[0] is LineBreak {
        lemma_skip_breaks_len(ts.drop_first());
    }
}

pub(crate) proof fn lemma_more_args_len(args: Seq<ExprV>, ts: Seq<TokenV>)
    ensures
        spec_parse_more_args(args, ts).1.len() <= ts.len(),
    decreases ts.len(),
{
    if ts.len() > 0 && ts[0] is Comma {
        let after = ts.drop_first();
        match spec_parse_expr(after) {
            Ok(p) => {
                lemma_more_args_len(args.push(p.0), after.drop_first());
            },
            Err(_) => {},
        }
    }
}

pub(crate) proof fn lemma_parse_stmt_len(ts: Seq<TokenV>)
    requires
        ts.len() > 0,
    ensures
        spec_parse_stmt(ts) matches Ok(p) ==> p.1.len() < ts.len(),
{
    match ts[0] {
        TokenV::Ident(ident) => {
            if ident.name == "VAR"@ {
            } else {
                let after = ts.drop_first();
                if after.len() == 0 || after[0] is LineBreak {
                } else {
                    match spec_parse_expr(after) {
                        Ok(p) => {
                            lemma_more_args_len(seq![p.0], p.1);
                        },
                        Err(_) => {},
                    }
                }
            }
        },
        _ => {},
    }
}

/// What parsing returns for a token sequence: the ordered statements of the
/// program, or the first syntax error.
pub open spec fn spec_parse(ts: Seq<TokenV>) -> Result<Seq<StmtV>, SyntaxErrorV>
    decreases ts.len(),
    via spec_parse_dec
{
    let sk = skip_breaks(ts);
    if sk.len() == 0 {
        Ok(Seq::empty())
    } else {
        match spec_parse_stmt(sk) {
            Err(e) => Err(e),
            Ok(p) => match spec_expect_eol(p.1) {
                Err(e) => Err(e),
                Ok(u) => match spec_parse(p.1) {
                    Err(e) => Err(e),
                    Ok(stmts) => Ok(seq![p.0] + stmts),
                },
            },
        }
    }
}

#[via_fn]
proof fn spec_parse_dec(ts: Seq<TokenV>) {
    let sk = skip_breaks(ts);
    lemma_skip_breaks_len(ts);
    if sk.len() != 0 {
        lemma_parse_stmt_len(sk);
    }
}

proof fn lemma_tokens_view_subrange(s: Seq<Token>, a: int, b: int)
    requires
        0 <= a <= b <= s.len(),
    ensures
        tokens_view(s.subrange(a, b)) =~= tokens_view(s).subrange(a, b),
{
}

proof fn lemma_exprs_view_push(s: Seq<ExprAst>, e: ExprAst)
    ensures
        exprs_view(s.push(e)) =~= exprs_view(s).push(e@),
{
}

proof fn lemma_stmts_view_push(s: Seq<StmtAst>, st: StmtAst)
    ensures
        stmts_view(s.push(st)) =~= stmts_view(s).push(st@),
{
}

/// Rejects the reserved words as variable names; only the exact tokens
/// `PRINT` and `VAR` are reserved.
pub fn validate_var_ident(var_ident: &Identifier) -> (r: Result<(), SyntaxError>)
    ensures
        is_reserved(var_ident@.name) ==> (r matches Err(e) && e@ == SyntaxErrorV::ReservedName(
            var_ident@,
        )),
        !is_reserved(var_ident@.name) ==> r is Ok,
{
    if str_eq(var_ident.name.as_str(), "PRINT") || str_eq(var_ident.name.as_str(), "VAR") {
        Err(SyntaxError::ReservedName(var_ident.clone()))
    } else {
        Ok(())
    }
}

/// Parses one expression from the front of `tokens`.
pub fn parse_expr<'a>(tokens: &'a [Token]) -> (r: Result<(ExprAst, &'a [Token]), SyntaxError>)
    ensures
        match spec_parse_expr(tokens_view(tokens@)) {
            Ok(p) => r matches Ok(q) && q.0@ == p.0 && tokens_view(q.1@) == p.1,
            Err(e) => r matches Err(q) && q@ == e,
        },
{
    if tokens.len() == 0 {
        Err(SyntaxError::ExpressionExpected(None))
    } else {
        proof {
            lemma_tokens_view_subrange(tokens@, 1, tokens@.len() as int);
        }
        match &tokens[0] {
            Token::StrLit(str_lit) => Ok(
                (
                    ExprAst::StrLit(str_lit.clone()),
                    slice_subrange(tokens, 1, tokens.len()),
                ),
            ),
            Token::Ident(ident) => {
                match validate_var_ident(ident) {
                    Ok(u) => Ok(
                        (ExprAst::Ident(ident.clone()), slice_subrange(tokens, 1, tokens.len())),
                    ),
                    Err(e) => Err(e),
                }
            },
            t => Err(SyntaxError::ExpressionExpected(Some(t.clone()))),
        }
    }
}

/// Parses a comma-separated argument list of at least one expression from
/// the front of `tokens`. A comma not followed by an expression ends the
/// list silently, with the comma consumed.
pub fn parse_argument_list<'a>(tokens: &'a [Token]) -> (r: Result<
    (Vec<ExprAst>, &'a [Token]),
    SyntaxError,
>)
    ensures
        match spec_parse_args(tokens_view(tokens@)) {
            Ok(p) => r matches Ok(q) && exprs_view(q.0@) == p.0 && tokens_view(q.1@) == p.1,
            Err(e) => r matches Err(q) && q@ == e,
        },
{
    let first_arg = match parse_expr(tokens) {
        Ok(p) => p,
        Err(e) => {
            return Err(e);
        },
    };
    let mut args: Vec<ExprAst> = Vec::new();
    args.push(first_arg.0);
    let mut rem: &[Token] = first_arg.1;
    let ghost target = spec_parse_more_args(
        exprs_view(args@),
        tokens_view(rem@),
    );
    proof {
        assert(exprs_view(args@) =~= seq![first_arg.0@]);
    }
    let mut done = false;
    while !done
        invariant
            !done ==> spec_parse_more_args(exprs_view(args@), tokens_view(rem@)) == target,
            done ==> target == (exprs_view(args@), tokens_view(rem@)),
        decreases rem@.len(), (if done { 0int } else { 1int }),
    {
        if rem.len() > 0 && matches!(&rem[0], Token::Comma(_)) {
            let after = slice_subrange(rem, 1, rem.len());
            proof {
                lemma_tokens_view_subrange(rem@, 1, rem@.len() as int);
            }
            match parse_expr(after) {
                Ok(p) => {
                    proof {
                        lemma_exprs_view_push(args@, p.0);
                    }
                    args.push(p.0);
                    rem = p.1;
                },
                Err(_) => {
                    rem = after;
                    done = true;
                },
            }
        } else {
            done = true;
        }
    }
    Ok((args, rem))
}

/// Parses a procedure call, given the called identifier and the tokens
/// after it. At end of line the call has no arguments; otherwise the
/// argument list follows.
pub fn parse_proc_call<'a>(ident: &Identifier, tokens: &'a [Token]) -> (r: Result<
    (StmtAst, &'a [Token]),
    SyntaxError,
>)
    ensures
        match spec_parse_proc_call(ident@, tokens_view(tokens@)) {
            Ok(p) => r matches Ok(q) && q.0@ == p.0 && tokens_view(q.1@) == p.1,
            Err(e) => r matches Err(q) && q@ == e,
        },
{
    if tokens.len() == 0 || matches!(&tokens[0], Token::LineBreak(_)) {
        let stmt = StmtAst::ProcCall(ident.clone(), Vec::new());
        proof {
            assert(exprs_view(Seq::<ExprAst>::empty()) =~= Seq::<ExprV>::empty());
        }
        Ok((stmt, tokens))
    } else {
        match parse_argument_list(tokens) {
            Ok(p) => Ok((StmtAst::ProcCall(ident.clone(), p.0), p.1)),
            Err(e) => Err(e),
        }
    }
}

/// Parses an assignment, given the assigned identifier and the tokens
/// after it: `= expr`.
pub fn parse_var_assign<'a>(ident: &Identifier, tokens: &'a [Token]) -> (r: Result<
    (StmtAst, &'a [Token]),
    SyntaxError,
>)
    ensures
        match spec_parse_var_assign(ident@, tokens_view(tokens@)) {
            Ok(p) => r matches Ok(q) && q.0@ == p.0 && tokens_view(q.1@) == p.1,
            Err(e) => r matches Err(q) && q@ == e,
        },
{
    match validate_var_ident(ident) {
        Ok(u) => {},
        Err(e) => {
            return Err(e);
        },
    }
    if tokens.len() == 0 {
        return Err(SyntaxError::EqualExpected(None));
    }
    match &tokens[0] {
        Token::Equal(_) => {
            proof {
                lemma_tokens_view_subrange(tokens@, 1, tokens@.len() as int);
            }
            match parse_expr(slice_subrange(tokens, 1, tokens.len())) {
                Ok(p) => Ok((StmtAst::VarAssign(ident.clone(), p.0), p.1)),
                Err(e) => Err(e),
            }
        },
        t => Err(SyntaxError::EqualExpected(Some(t.clone()))),
    }
}

/// Checks that a statement is followed by a line break or end of input.
pub fn expect_eol(tokens: &[Token]) -> (r: Result<(), SyntaxError>)
    ensures
        match spec_expect_eol(tokens_view(tokens@)) {
            Ok(u) => r is Ok,
            Err(e) => r matches Err(q) && q@ == e,
        },
{
    if tokens.len() == 0 {
        Ok(())
    } else {
        match &tokens[0] {
            Token::LineBreak(_) => Ok(()),
            t => Err(SyntaxError::EndOfLineExpected(t.clone())),
        }
    }
}

/// Parses one statement from the front of `tokens`, whose head must not be
/// a line break.
fn parse_stmt<'a>(tokens: &'a [Token]) -> (r: Result<(StmtAst, &'a [Token]), SyntaxError>)
    requires
        tokens@.len() > 0,
        !(tokens@[0]@ is LineBreak),
    ensures
        match spec_parse_stmt(tokens_view(tokens@)) {
            Ok(p) => r matches Ok(q) && q.0@ == p.0 && tokens_view(q.1@) == p.1,
            Err(e) => r matches Err(q) && q@ == e,
        },
{
    proof {
        lemma_tokens_view_subrange(tokens@, 1, tokens@.len() as int);
    }
    match &tokens[0] {
        Token::Ident(ident) => {
            if str_eq(ident.name.as_str(), "VAR") {
                parse_var_decl(tokens)
            } else {
                let rest = slice_subrange(tokens, 1, tokens.len());
                match parse_proc_call(ident, rest) {
                    Ok(p) => Ok(p),
                    Err(u) => parse_var_assign(ident, rest),
                }
            }
        },
        t => Err(SyntaxError::IdentifierExpected(Some(t.clone()))),
    }
}

/// Parses a declaration from tokens that begin with the `VAR` keyword:
/// `VAR ident = expr`.
fn parse_var_decl<'a>(tokens: &'a [Token]) -> (r: Result<(StmtAst, &'a [Token]), SyntaxError>)
    requires
        tokens@.len() > 0,
    ensures
        match spec_parse_var_decl(tokens_view(tokens@)) {
            Ok(p) => r matches Ok(q) && q.0@ == p.0 && tokens_view(q.1@) == p.1,
            Err(e) => r matches Err(q) && q@ == e,
        },
{
    if tokens.len() < 2 {
        return Err(SyntaxError::IdentifierExpected(None));
    }
    match &tokens[1] {
        Token::Ident(var_ident) => {
            match validate_var_ident(var_ident) {
                Ok(u) => {},
                Err(e) => {
                    return Err(e);
                },
            }
            if tokens.len() < 3 {
                return Err(SyntaxError::EqualExpected(None));
            }
            match &tokens[2] {
                Token::Equal(_) => {
                    proof {
                        lemma_tokens_view_subrange(tokens@, 3, tokens@.len() as int);
                    }
                    match parse_expr(slice_subrange(tokens, 3, tokens.len())) {
                        Ok(p) => Ok((StmtAst::VarDecl(var_ident.clone(), p.0), p.1)),
                        Err(e) => Err(e),
                    }
                },
                t => Err(SyntaxError::EqualExpected(Some(t.clone()))),
            }
        },
        t => Err(SyntaxError::IdentifierExpected(Some(t.clone()))),
    }
}

/// Parses the whole token sequence into the program's ordered statements,
/// or reports the first syntax error.
#[verifier::loop_isolation(false)]
pub fn parse(tokens: &[Token]) -> (r: Result<Vec<StmtAst>, SyntaxError>)
    ensures
        spec_parse(tokens_view(tokens@)) is Ok ==> (r is Ok && stmts_view(r->Ok_0@)
            == spec_parse(tokens_view(tokens@))->Ok_0),
        spec_parse(tokens_view(tokens@)) is Err ==> (r is Err && r->Err_0@ == spec_parse(
            tokens_view(tokens@),
        )->Err_0),
{
    let ghost all = tokens_view(tokens@);
    let mut cur: &[Token] = tokens;
    let mut stmts: Vec<StmtAst> = Vec::new();
    let mut done = false;

    proof {
        assert(stmts_view(stmts@) =~= Seq::<StmtV>::empty());
    }

    while !done
        invariant
            match spec_parse(tokens_view(cur@)) {
                Ok(ss) => spec_parse(all) == Ok::<Seq<StmtV>, SyntaxErrorV>(
                    stmts_view(stmts@) + ss,
                ),
                Err(e) => spec_parse(all) == Err::<Seq<StmtV>, SyntaxErrorV>(e),
            },
            done ==> spec_parse(all) == Ok::<Seq<StmtV>, SyntaxErrorV>(stmts_view(stmts@)),
        decreases cur@.len(), (if done { 0int } else { 1int }),
    {
        let ghost len0 = cur@.len();
        while cur.len() > 0 && matches!(&cur[0], Token::LineBreak(_))
            invariant
                cur@.len() <= len0,
                match spec_parse(tokens_view(cur@)) {
                    Ok(ss) => spec_parse(all) == Ok::<Seq<StmtV>, SyntaxErrorV>(
                        stmts_view(stmts@) + ss,
                    ),
                    Err(e) => spec_parse(all) == Err::<Seq<StmtV>, SyntaxErrorV>(e),
                },
            decreases cur@.len(),
        {
            proof {
                lemma_tokens_view_subrange(cur@, 1, cur@.len() as int);
                assert(skip_breaks(tokens_view(cur@)) == skip_breaks(
                    tokens_view(cur@).drop_first(),
                ));
            }
            cur = slice_subrange(cur, 1, cur.len());
        }
        if cur.len() == 0 {
            proof {
                assert(stmts_view(stmts@) + Seq::<StmtV>::empty() =~= stmts_view(stmts@));
            }
            done = true;
        } else {
            proof {
                assert(tokens_view(cur@)[0] == cur@[0]@);
                assert(skip_breaks(tokens_view(cur@)) == tokens_view(cur@));
            }
            let p = match parse_stmt(cur) {
                Ok(p) => p,
                Err(e) => {
                    proof {
                        assert(spec_parse(tokens_view(cur@)) == Err::<Seq<StmtV>, SyntaxErrorV>(
                            e@,
                        ));
                        assert(spec_parse(all) == Err::<Seq<StmtV>, SyntaxErrorV>(e@));
                    }
                    return Err(e);
                },
            };
            match expect_eol(p.1) {
                Ok(u) => {},
                Err(e) => {
                    proof {
                        assert(spec_parse(tokens_view(cur@)) == Err::<Seq<StmtV>, SyntaxErrorV>(
                            e@,
                        ));
                        assert(spec_parse(all) == Err::<Seq<StmtV>, SyntaxErrorV>(e@));
                    }
                    return Err(e);
                },
            }
            proof {
                lemma_stmts_view_push(stmts@, p.0);
                lemma_parse_stmt_len(tokens_view(cur@));
                match spec_parse(tokens_view(p.1@)) {
                    Ok(ss2) => {
                        assert(stmts_view(stmts@) + (seq![p.0@] + ss2) =~= stmts_view(stmts@).push(
                            p.0@,
                        ) + ss2);
                    },
                    Err(e) => {},
                }
            }
            stmts.push(p.0);
            cur = p.1;
        }
    }
    Ok(stmts)
}

} // verus!

