//! Positions and spans in source text.

use vstd::prelude::*;

verus! {

/// A position in source text: zero-based line and column.
#[derive(PartialEq, Eq, Structural, Clone, Copy, Debug)]
pub struct SourcePoint {
    pub line: usize,
    pub col: usize,
}

/// A span of source text, from its first position to the position just
/// behind its last character.
#[derive(PartialEq, Eq, Structural, Clone, Copy, Debug)]
pub struct SourceRange {
    pub from: SourcePoint,
    pub to: SourcePoint,
}

/// Where a token stands: a single position for punctuation, a span for a
/// token of several characters.
#[derive(PartialEq, Eq, Structural, Clone, Copy, Debug)]
pub enum SourceLocation {
    Point(SourcePoint),
    Range(SourceRange),
}

/// Values that mark a place in source text.
pub trait ToLocation: Sized {
    /// The location that `to_location` returns.
    spec fn location(self) -> SourceLocation;

    fn to_location(self) -> (loc: SourceLocation)
        ensures
            loc == self.location(),
    ;
}

impl SourcePoint {
    /// Lexicographic order on (line, column): `self` is at or before `other`.
    pub open spec fn at_or_before(self, other: SourcePoint) -> bool {
        self.line < other.line || (self.line == other.line && self.col <= other.col)
    }

    pub fn zero() -> (p: SourcePoint)
        ensures
            p == (SourcePoint { line: 0, col: 0 }),
    {
        SourcePoint { line: 0, col: 0 }
    }

    pub fn new(line: usize, col: usize) -> (p: SourcePoint)
        ensures
            p == (SourcePoint { line, col }),
    {
        SourcePoint { line, col }
    }

    /// The position one column to the right, on the same line.
    pub fn next_pos(&self) -> (p: SourcePoint)
        requires
            self.col < usize::MAX,
        ensures
            p.line == self.line,
            p.col == self.col + 1,
    {
        SourcePoint { line: self.line, col: self.col + 1 }
    }

    /// The first position of the following line.
    pub fn next_line(&self) -> (p: SourcePoint)
        requires
            self.line < usize::MAX,
        ensures
            p.line == self.line + 1,
            p.col == 0,
    {
        SourcePoint { line: self.line + 1, col: 0 }
    }

    /// The span that starts here and ends at `to`.
    pub fn range_to(&self, to: SourcePoint) -> (r: SourceRange)
        ensures
            r == (SourceRange { from: *self, to }),
            r.well_formed() == self.at_or_before(to),
    {
        SourceRange { from: *self, to }
    }
}

impl SourceRange {
    /// A span does not end before it starts.
    pub open spec fn well_formed(self) -> bool {
        self.from.at_or_before(self.to)
    }

    pub fn new(from: SourcePoint, to: SourcePoint) -> (r: SourceRange)
        ensures
            r == (SourceRange { from, to }),
            r.well_formed() == from.at_or_before(to),
    {
        SourceRange { from, to }
    }
}

impl SourceLocation {
    /// The position at which the location begins.
    pub open spec fn start(self) -> SourcePoint {
        match self {
            SourceLocation::Point(p) => p,
            SourceLocation::Range(r) => r.from,
        }
    }

    /// A point is always well formed; a span must not end before it starts.
    pub open spec fn well_formed(self) -> bool {
        match self {
            SourceLocation::Point(_) => true,
            SourceLocation::Range(r) => r.well_formed(),
        }
    }
}

impl ToLocation for SourcePoint {
    open spec fn location(self) -> SourceLocation {
        SourceLocation::Point(self)
    }

    fn to_location(self) -> (loc: SourceLocation) {
        SourceLocation::Point(self)
    }
}

impl ToLocation for SourceRange {
    open spec fn location(self) -> SourceLocation {
        SourceLocation::Range(self)
    }

    fn to_location(self) -> (loc: SourceLocation) {
        SourceLocation::Range(self)
    }
}

} // verus!
