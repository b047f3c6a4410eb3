//! Source positions, regions and located values.

use vstd::prelude::*;

verus! {

/// A place in a source text: a zero-based line and a zero-based byte column.
#[derive(Clone, Copy, Debug, PartialEq, Eq, Structural)]
pub struct Position {
    pub line: u32,
    pub column: u16,
}

impl Position {
    /// `self` comes no later than `other` in (line, column) order.
    pub open spec fn le(self, other: Position) -> bool {
        self.line < other.line || (self.line == other.line && self.column <= other.column)
    }

    /// `self` comes strictly before `other` in (line, column) order.
    pub open spec fn lt(self, other: Position) -> bool {
        self.line < other.line || (self.line == other.line && self.column < other.column)
    }

    pub fn new(line: u32, column: u16) -> (p: Position)
        ensures
            p.line == line,
            p.column == column,
    {
        Position { line, column }
    }

    /// Decides `le`.
    pub fn at_or_before(&self, other: &Position) -> (b: bool)
        ensures
            b == self.le(*other),
    {
        self.line < other.line || (self.line == other.line && self.column <= other.column)
    }
}

/// A half-open span of source text, from its first position up to the
/// position just past its last byte.
#[derive(Clone, Copy, Debug, PartialEq, Eq, Structural)]
pub struct Region {
    pub start_line: u32,
    pub end_line: u32,
    pub start_col: u16,
    pub end_col: u16,
}

impl Region {
    pub open spec fn start(self) -> Position {
        Position { line: self.start_line, column: self.start_col }
    }

    pub open spec fn end(self) -> Position {
        Position { line: self.end_line, column: self.end_col }
    }

    /// The start does not come after the end.
    pub open spec fn valid(self) -> bool {
        self.start().le(self.end())
    }

    /// `inner` lies inside `self`: it starts no earlier and ends no later.
    pub open spec fn encloses(self, inner: Region) -> bool {
        self.start().le(inner.start()) && inner.end().le(self.end())
    }

    /// The region that runs from `from` to `to`.
    pub open spec fn between(from: Position, to: Position) -> Region {
        Region { start_line: from.line, end_line: to.line, start_col: from.column, end_col: to.column }
    }

    pub fn new(start_line: u32, end_line: u32, start_col: u16, end_col: u16) -> (r: Region)
        ensures
            r == (Region { start_line, end_line, start_col, end_col }),
    {
        Region { start_line, end_line, start_col, end_col }
    }

    /// The empty region at the very start of a text.
    pub fn zero() -> (r: Region)
        ensures
            r == (Region { start_line: 0, end_line: 0, start_col: 0, end_col: 0 }),
            r.valid(),
    {
        Region { start_line: 0, end_line: 0, start_col: 0, end_col: 0 }
    }

    /// The region from one position to another.
    pub fn from_positions(from: Position, to: Position) -> (r: Region)
        ensures
            r == Region::between(from, to),
    {
        Region { start_line: from.line, end_line: to.line, start_col: from.column, end_col: to.column }
    }

    /// The region that starts where `first` starts and ends where `last` ends.
    pub fn span_across(first: &Region, last: &Region) -> (r: Region)
        ensures
            r == Region::between(first.start(), last.end()),
            first.valid() && last.valid() && first.start().le(last.start()) && first.end().le(last.end())
                ==> r.valid() && r.encloses(*first) && r.encloses(*last),
    {
        Region {
            start_line: first.start_line,
            end_line: last.end_line,
            start_col: first.start_col,
            end_col: last.end_col,
        }
    }

    /// Decides `encloses`.
    pub fn contains(&self, inner: &Region) -> (b: bool)
        ensures
            b == self.encloses(*inner),
    {
        let starts_inside = self.start_line < inner.start_line || (self.start_line
            == inner.start_line && self.start_col <= inner.start_col);
        let ends_inside = inner.end_line < self.end_line || (inner.end_line == self.end_line
            && inner.end_col <= self.end_col);
        starts_inside && ends_inside
    }

    pub fn is_empty(&self) -> (b: bool)
        ensures
            b == (self.start() == self.end()),
    {
        self.start_line == self.end_line && self.start_col == self.end_col
    }
}

/// Enclosure is reflexive and transitive, and an enclosing region of a
/// region is valid whenever the inner one is.
pub proof fn lemma_encloses_transitive(a: Region, b: Region, c: Region)
    requires
        a.encloses(b),
        b.encloses(c),
    ensures
        a.encloses(c),
        a.encloses(a),
        c.valid() ==> b.valid() && a.valid(),
{
}

/// A value together with the region of source text it was read from.
#[derive(Clone, Copy, Debug, PartialEq, Eq)]
pub struct Located<T> {
    pub region: Region,
    pub value: T,
}

impl<T> Located<T> {
    pub fn new(start_line: u32, end_line: u32, start_col: u16, end_col: u16, value: T) -> (l: Located<T>)
        ensures
            l.region == (Region { start_line, end_line, start_col, end_col }),
            l.value == value,
    {
        Located { region: Region { start_line, end_line, start_col, end_col }, value }
    }

    pub fn at(region: Region, value: T) -> (l: Located<T>)
        ensures
            l.region == region,
            l.value == value,
    {
        Located { region, value }
    }

    pub fn at_zero(value: T) -> (l: Located<T>)
        ensures
            l.region == (Region { start_line: 0, end_line: 0, start_col: 0, end_col: 0 }),
            l.value == value,
    {
        Located { region: Region::zero(), value }
    }
}

} // verus!
