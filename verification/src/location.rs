//! Source positions used by every lexical and syntactic entity for
//! diagnostics.

use crate::text::{dec_str, int_to_string, push_char};
use vstd::prelude::*;

verus! {

/// Mathematical model of a [`Point`]: a position with unbounded coordinates.
pub struct PointV {
    pub line: int,
    pub column: int,
}

/// Mathematical model of a [`Location`]: a span of two [`PointV`]s.
pub struct LocationV {
    pub start: PointV,
    pub end: PointV,
}

/// A single character position in the source text, zero-indexed internally
/// and displayed one-indexed.
#[derive(Clone, Copy, Debug)]
pub struct Point {
    line: i32,
    column: i32,
}

impl View for Point {
    type V = PointV;

    closed spec fn view(&self) -> PointV {
        PointV { line: self.line as int, column: self.column as int }
    }
}

/// How a [`PointV`] is displayed: one-indexed `line:column`.
pub open spec fn point_text(p: PointV) -> Seq<char> {
    dec_str(p.line + 1) + seq![':'] + dec_str(p.column + 1)
}

/// How a [`LocationV`] is displayed: `start-end`.
pub open spec fn location_text(l: LocationV) -> Seq<char> {
    point_text(l.start) + seq!['-'] + point_text(l.end)
}

impl Point {
    pub fn new(line: i32, column: i32) -> (p: Point)
        ensures
            p@ == (PointV { line: line as int, column: column as int }),
    {
        Point { line, column }
    }

    /// Renders the position one-indexed, as `line:column`.
    pub fn stringify(&self) -> (s: String)
        ensures
            s@ == point_text(self@),
    {
        let mut s = int_to_string(self.line as i64 + 1);
        push_char(&mut s, ':');
        let col = int_to_string(self.column as i64 + 1);
        s.append(col.as_str());
        s
    }
}

/// A span over one or more characters of the source text, inclusive at both
/// ends. Never mutated after creation.
#[derive(Clone, Copy, Debug)]
pub struct Location {
    pub start: Point,
    pub end: Point,
}

impl View for Location {
    type V = LocationV;

    open spec fn view(&self) -> LocationV {
        LocationV { start: self.start@, end: self.end@ }
    }
}

impl Location {
    /// Renders the span as `start-end`.
    pub fn stringify(&self) -> (s: String)
        ensures
            s@ == location_text(self@),
    {
        let mut s = self.start.stringify();
        push_char(&mut s, '-');
        let e = self.end.stringify();
        s.append(e.as_str());
        s
    }
}

/// Anything that owns a [`Location`] for diagnostics.
pub trait Locatable {
    /// The location this entity reports, as seen by specifications.
    spec fn spec_locate(&self) -> Location;

    /// Returns the location of this entity in the source text.
    fn locate(&self) -> (l: Location)
        ensures
            l == self.spec_locate(),
    ;
}

} // verus!
