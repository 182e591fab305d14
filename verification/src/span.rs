use vstd::prelude::*;

verus! {

/// Source location of a token or an AST node: from (`start_line`,
/// `start_column`) to (`end_line`, `end_column`).
#[derive(Copy, Clone, Debug, PartialEq, Eq)]
pub struct Span {
    pub start_line: usize,
    pub start_column: usize,
    pub end_line: usize,
    pub end_column: usize,
}

impl Span {
    pub fn new(start_line: usize, start_column: usize, end_line: usize, end_column: usize) -> (s: Self)
        ensures
            s == (Span { start_line, start_column, end_line, end_column }),
    {
        Span { start_line, start_column, end_line, end_column }
    }

    /// The span that starts where `self` starts and ends where `other` ends.
    pub open spec fn spec_extend(self, other: Span) -> Span {
        Span {
            start_line: self.start_line,
            start_column: self.start_column,
            end_line: other.end_line,
            end_column: other.end_column,
        }
    }

    /// Extends the span to start at `self` and end at `other`.
    pub fn extend(self, other: Span) -> (s: Span)
        ensures
            s == self.spec_extend(other),
    {
        let mut s = self;
        s.end_line = other.end_line;
        s.end_column = other.end_column;
        s
    }
}

} // verus!
