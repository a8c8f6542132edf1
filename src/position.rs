use vstd::prelude::*;

verus! {

/// A point in a document: zero-based line and character offset.
#[derive(Clone, Copy, PartialEq, Eq, Debug, Structural)]
pub struct Position {
    pub line: u32,
    pub character: u32,
}

/// A span of a document, from `start` to `end`.
#[derive(Clone, Copy, PartialEq, Eq, Debug, Structural)]
pub struct Range {
    pub start: Position,
    pub end: Position,
}

/// The cursor `p` lies inside `r`: its line is between the two bounds, and on
/// a bounding line its character is on the inner side of that bound. Every
/// edge counts as inside.
pub open spec fn range_contains(r: Range, p: Position) -> bool {
    &&& r.start.line <= p.line <= r.end.line
    &&& (p.line == r.start.line ==> r.start.character <= p.character)
    &&& (p.line == r.end.line ==> p.character <= r.end.character)
}

impl Position {
    pub fn new(line: u32, character: u32) -> (r: Position)
        ensures
            r.line == line,
            r.character == character,
    {
        Position { line, character }
    }
}

impl Range {
    pub fn new(start: Position, end: Position) -> (r: Range)
        ensures
            r.start == start,
            r.end == end,
    {
        Range { start, end }
    }

    /// Whether the cursor `p` lies inside this range, edges included.
    pub fn contains(&self, p: Position) -> (r: bool)
        ensures
            r == range_contains(*self, p),
    {
        self.start.line <= p.line && p.line <= self.end.line && (p.line != self.start.line
            || self.start.character <= p.character) && (p.line != self.end.line || p.character
            <= self.end.character)
    }
}

} // verus!
