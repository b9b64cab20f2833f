//! Lexical tokens produced by the tokenizer.

use crate::location::{Locatable, Location, LocationV, Point, PointV};
use vstd::prelude::*;

verus! {

/// Mathematical model of an [`Identifier`].
pub struct IdentifierV {
    pub name: Seq<char>,
    pub location: LocationV,
}

/// Mathematical model of a [`StringLiteral`].
pub struct StringLiteralV {
    pub value: Seq<char>,
    pub location: LocationV,
}

/// Mathematical model of a [`Token`].
pub enum TokenV {
    Ident(IdentifierV),
    StrLit(StringLiteralV),
    Comma(PointV),
    Equal(PointV),
    LineBreak(PointV),
}

/// A name appearing in the source: a variable or a procedure.
#[derive(Debug)]
pub struct Identifier {
    pub name: String,
    pub location: Location,
}

impl View for Identifier {
    type V = IdentifierV;

    open spec fn view(&self) -> IdentifierV {
        IdentifierV { name: self.name@, location: self.location@ }
    }
}

impl Clone for Identifier {
    fn clone(&self) -> (r: Self)
        ensures
            r == *self,
    {
        Identifier { name: self.name.clone(), location: self.location }
    }
}

impl Locatable for Identifier {
    open spec fn spec_locate(&self) -> Location {
        self.location
    }

    fn locate(&self) -> Location {
        self.location
    }
}

/// A quoted string constant, stored with its quotes stripped and no escape
/// processing applied.
#[derive(Debug)]
pub struct StringLiteral {
    pub value: String,
    pub location: Location,
}

impl View for StringLiteral {
    type V = StringLiteralV;

    open spec fn view(&self) -> StringLiteralV {
        StringLiteralV { value: self.value@, location: self.location@ }
    }
}

impl Clone for StringLiteral {
    fn clone(&self) -> (r: Self)
        ensures
            r == *self,
    {
        StringLiteral { value: self.value.clone(), location: self.location }
    }
}

impl Locatable for StringLiteral {
    open spec fn spec_locate(&self) -> Location {
        self.location
    }

    fn locate(&self) -> Location {
        self.location
    }
}

/// The `,` separator of argument lists.
#[derive(Debug, Clone, Copy)]
pub struct Comma {
    pub loc: Point,
}

impl Locatable for Comma {
    open spec fn spec_locate(&self) -> Location {
        Location { start: self.loc, end: self.loc }
    }

    fn locate(&self) -> Location {
        Location { start: self.loc, end: self.loc }
    }
}

/// The `=` of declarations and assignments.
#[derive(Debug, Clone, Copy)]
pub struct Equal {
    pub loc: Point,
}

impl Locatable for Equal {
    open spec fn spec_locate(&self) -> Location {
        Location { start: self.loc, end: self.loc }
    }

    fn locate(&self) -> Location {
        Location { start: self.loc, end: self.loc }
    }
}

/// The end of a source line, a statement terminator.
#[derive(Debug, Clone, Copy)]
pub struct LineBreak {
    pub loc: Point,
}

impl Locatable for LineBreak {
    open spec fn spec_locate(&self) -> Location {
        Location { start: self.loc, end: self.loc }
    }

    fn locate(&self) -> Location {
        Location { start: self.loc, end: self.loc }
    }
}

/// A lexical token together with its position in the source.
#[derive(Debug)]
pub enum Token {
    Ident(Identifier),
    StrLit(StringLiteral),
    Comma(Comma),
    Equal(Equal),
    LineBreak(LineBreak),
}

impl View for Token {
    type V = TokenV;

    open spec fn view(&self) -> TokenV {
        match self {
            Token::Ident(ident) => TokenV::Ident(ident@),
            Token::StrLit(str_lit) => TokenV::StrLit(str_lit@),
            Token::Comma(comma) => TokenV::Comma(comma.loc@),
            Token::Equal(equal) => TokenV::Equal(equal.loc@),
            Token::LineBreak(line_break) => TokenV::LineBreak(line_break.loc@),
        }
    }
}

impl Clone for Token {
    fn clone(&self) -> (r: Self)
        ensures
            r == *self,
    {
        match self {
            Token::Ident(ident) => Token::Ident(ident.clone()),
            Token::StrLit(str_lit) => Token::StrLit(str_lit.clone()),
            Token::Comma(comma) => Token::Comma(*comma),
            Token::Equal(equal) => Token::Equal(*equal),
            Token::LineBreak(line_break) => Token::LineBreak(*line_break),
        }
    }
}

impl Locatable for Token {
    open spec fn spec_locate(&self) -> Location {
        match self {
            Token::Ident(ident) => ident.spec_locate(),
            Token::StrLit(str_lit) => str_lit.spec_locate(),
            Token::Comma(comma) => comma.spec_locate(),
            Token::Equal(equal) => equal.spec_locate(),
            Token::LineBreak(line_break) => line_break.spec_locate(),
        }
    }

    fn locate(&self) -> Location {
        match self {
            Token::Ident(ident) => ident.locate(),
            Token::StrLit(str_lit) => str_lit.locate(),
            Token::Comma(comma) => comma.locate(),
            Token::Equal(equal) => equal.locate(),
            Token::LineBreak(line_break) => line_break.locate(),
        }
    }
}

/// The views of a sequence of tokens.
pub open spec fn tokens_view(s: Seq<Token>) -> Seq<TokenV> {
    s.map_values(|t: Token| t@)
}

} // verus!
