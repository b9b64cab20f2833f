//! The structured compile-time errors of the pipeline.
//!
//! Every stage stops at the first error and reports a value carrying the
//! offending entity and its source location; rendering them for a terminal
//! is left to the surrounding program.

use crate::location::{Location, LocationV, Point, PointV};
use crate::token::{Identifier, IdentifierV, Token, TokenV};
use vstd::prelude::*;

verus! {

/// Mathematical model of a [`TokenizationError`].
pub struct TokenizationErrorV {
    pub opened_at: PointV,
}

/// An unterminated string literal, reported at the position of the opening
/// quote.
#[derive(Debug)]
pub struct TokenizationError {
    pub opened_at: Point,
}

impl View for TokenizationError {
    type V = TokenizationErrorV;

    open spec fn view(&self) -> TokenizationErrorV {
        TokenizationErrorV { opened_at: self.opened_at@ }
    }
}

/// The view of an optional token, used by syntax error payloads where end of
/// input may stand in place of a token.
pub open spec fn opt_token_view(t: Option<Token>) -> Option<TokenV> {
    match t {
        Some(tok) => Some(tok@),
        None => None,
    }
}

/// Mathematical model of a [`SyntaxError`].
pub enum SyntaxErrorV {
    EqualExpected(Option<TokenV>),
    IdentifierExpected(Option<TokenV>),
    EndOfLineExpected(TokenV),
    ExpressionExpected(Option<TokenV>),
    ReservedName(IdentifierV),
}

/// A malformed statement. The payload is the token found where something
/// else was expected (`None` standing for end of input), or the identifier
/// that misused a reserved word.
#[derive(Debug)]
pub enum SyntaxError {
    /// `=` was expected but the payload was found.
    EqualExpected(Option<Token>),
    /// An identifier was expected but the payload was found.
    IdentifierExpected(Option<Token>),
    /// A line break or end of input was expected but the payload was found.
    EndOfLineExpected(Token),
    /// An expression was expected but the payload was found.
    ExpressionExpected(Option<Token>),
    /// A reserved word was used as a variable name.
    ReservedName(Identifier),
}

impl View for SyntaxError {
    type V = SyntaxErrorV;

    open spec fn view(&self) -> SyntaxErrorV {
        match self {
            SyntaxError::EqualExpected(t) => SyntaxErrorV::EqualExpected(opt_token_view(*t)),
            SyntaxError::IdentifierExpected(t) => SyntaxErrorV::IdentifierExpected(
                opt_token_view(*t),
            ),
            SyntaxError::EndOfLineExpected(t) => SyntaxErrorV::EndOfLineExpected(t@),
            SyntaxError::ExpressionExpected(t) => SyntaxErrorV::ExpressionExpected(
                opt_token_view(*t),
            ),
            SyntaxError::ReservedName(i) => SyntaxErrorV::ReservedName(i@),
        }
    }
}

/// Mathematical model of a [`SemanticError`].
pub enum SemanticErrorV {
    NotDeclared(IdentifierV),
    NotDefined(IdentifierV),
    UnknownProcedure(IdentifierV),
    ArityMismatch { location: LocationV, found: int },
}

/// A name-resolution failure. Every variant carries the triggering entity
/// and its location.
#[derive(Debug)]
pub enum SemanticError {
    /// The target of an assignment was never declared.
    NotDeclared(Identifier),
    /// An identifier was referenced before its declaration.
    NotDefined(Identifier),
    /// A procedure call named something other than the one built-in.
    UnknownProcedure(Identifier),
    /// `PRINT` was called with a number of arguments other than one.
    ArityMismatch { location: Location, found: usize },
}

impl View for SemanticError {
    type V = SemanticErrorV;

    open spec fn view(&self) -> SemanticErrorV {
        match self {
            SemanticError::NotDeclared(i) => SemanticErrorV::NotDeclared(i@),
            SemanticError::NotDefined(i) => SemanticErrorV::NotDefined(i@),
            SemanticError::UnknownProcedure(i) => SemanticErrorV::UnknownProcedure(i@),
            SemanticError::ArityMismatch { location, found } => SemanticErrorV::ArityMismatch {
                location: location@,
                found: *found as int,
            },
        }
    }
}

/// Mathematical model of a [`CompileError`].
pub enum CompileErrorV {
    Tokenization(TokenizationErrorV),
    Syntax(SyntaxErrorV),
    Semantic(SemanticErrorV),
}

/// Any compile-time failure of the pipeline: the first error of whichever
/// stage failed first.
#[derive(Debug)]
pub enum CompileError {
    Tokenization(TokenizationError),
    Syntax(SyntaxError),
    Semantic(SemanticError),
}

impl View for CompileError {
    type V = CompileErrorV;

    open spec fn view(&self) -> CompileErrorV {
        match self {
            CompileError::Tokenization(e) => CompileErrorV::Tokenization(e@),
            CompileError::Syntax(e) => CompileErrorV::Syntax(e@),
            CompileError::Semantic(e) => CompileErrorV::Semantic(e@),
        }
    }
}

} // verus!
