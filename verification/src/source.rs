//! Positions in source text, as the syntax tree records them.
use vstd::prelude::*;

verus! {

/// A position in source text: its line and column, counted from 1.
#[derive(Debug, Clone, Copy, PartialEq, Eq, Structural)]
pub struct SourceLocation {
    pub line: usize,
    pub column: usize,
}

impl SourceLocation {
    /// The position of a given line and column
    pub fn new(line: usize, column: usize) -> (l: Self)
        ensures
            l.line == line,
            l.column == column,
    {
        SourceLocation { line, column }
    }

    /// The start of a text: line 1, column 1
    pub fn initial() -> (l: Self)
        ensures
            l.line == 1,
            l.column == 1,
    {
        SourceLocation { line: 1, column: 1 }
    }
}

/// A region of source text, from its first to its last position.
#[derive(Debug, Clone, Copy, PartialEq, Eq, Structural)]
pub struct Span {
    pub start: SourceLocation,
    pub end: SourceLocation,
}

impl Span {
    /// The region between two positions
    pub fn new(start: SourceLocation, end: SourceLocation) -> (s: Self)
        ensures
            s.start == start,
            s.end == end,
    {
        Span { start, end }
    }

    /// The region of a single position
    pub fn single(at: SourceLocation) -> (s: Self)
        ensures
            s.start == at,
            s.end == at,
    {
        Span { start: at, end: at }
    }
}

} // verus!
