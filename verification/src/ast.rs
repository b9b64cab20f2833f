//! The abstract syntax tree produced by the parser: pure data, no
//! behavior beyond location reporting.

use crate::location::{Locatable, Location};
use crate::token::{Identifier, IdentifierV, StringLiteral, StringLiteralV};
use vstd::prelude::*;

verus! {

/// Mathematical model of an [`ExprAst`].
#[verifier::ext_equal]
pub enum ExprV {
    Ident(IdentifierV),
    StrLit(StringLiteralV),
}

/// Mathematical model of a [`StmtAst`].
#[verifier::ext_equal]
pub enum StmtV {
    VarDecl(IdentifierV, ExprV),
    VarAssign(IdentifierV, ExprV),
    ProcCall(IdentifierV, Seq<ExprV>),
}

/// An expression: a variable reference or a string constant.
#[derive(Debug)]
pub enum ExprAst {
    Ident(Identifier),
    StrLit(StringLiteral),
}

impl View for ExprAst {
    type V = ExprV;

    open spec fn view(&self) -> ExprV {
        match self {
            ExprAst::Ident(ident) => ExprV::Ident(ident@),
            ExprAst::StrLit(str_lit) => ExprV::StrLit(str_lit@),
        }
    }
}

impl Locatable for ExprAst {
    open spec fn spec_locate(&self) -> Location {
        match self {
            ExprAst::Ident(ident) => ident.spec_locate(),
            ExprAst::StrLit(str_lit) => str_lit.spec_locate(),
        }
    }

    fn locate(&self) -> Location {
        match self {
            ExprAst::Ident(ident) => ident.locate(),
            ExprAst::StrLit(str_lit) => str_lit.locate(),
        }
    }
}

/// A statement: a declaration, an assignment, or a procedure call. A
/// program is an ordered sequence of statements.
#[derive(Debug)]
pub enum StmtAst {
    VarDecl(Identifier, ExprAst),
    VarAssign(Identifier, ExprAst),
    ProcCall(Identifier, Vec<ExprAst>),
}

impl View for StmtAst {
    type V = StmtV;

    open spec fn view(&self) -> StmtV {
        match self {
            StmtAst::VarDecl(ident, expr) => StmtV::VarDecl(ident@, expr@),
            StmtAst::VarAssign(ident, expr) => StmtV::VarAssign(ident@, expr@),
            StmtAst::ProcCall(ident, args) => StmtV::ProcCall(ident@, exprs_view(args@)),
        }
    }
}

/// The views of a sequence of expressions.
pub open spec fn exprs_view(s: Seq<ExprAst>) -> Seq<ExprV> {
    s.map_values(|e: ExprAst| e@)
}

/// The views of a sequence of statements.
pub open spec fn stmts_view(s: Seq<StmtAst>) -> Seq<StmtV> {
    s.map_values(|s: StmtAst| s@)
}

} // verus!
