use vstd::prelude::*;

verus! {

/// A byte offset together with its line and column.
#[derive(Debug, Clone, Copy, PartialEq, Eq, PartialOrd, Ord, Hash, Structural)]
pub struct Position {
    offset: usize,
    line: usize,
    column: usize,
}

impl Position {
    pub closed spec fn offset_view(self) -> usize {
        self.offset
    }

    pub closed spec fn line_view(self) -> usize {
        self.line
    }

    pub closed spec fn column_view(self) -> usize {
        self.column
    }

    pub fn new(offset: usize, line: usize, column: usize) -> (r: Position)
        ensures
            r.offset_view() == offset,
            r.line_view() == line,
            r.column_view() == column,
    {
        Position { offset, line, column }
    }

    pub fn offset(self) -> (r: usize)
        ensures
            r == self.offset_view(),
    {
        self.offset
    }

    pub fn line(self) -> (r: usize)
        ensures
            r == self.line_view(),
    {
        self.line
    }

    pub fn column(self) -> (r: usize)
        ensures
            r == self.column_view(),
    {
        self.column
    }
}

/// Positions are plain values: two are equal exactly when their offsets,
/// lines and columns are.
pub proof fn law_positions_equal_iff_same_components(a: Position, b: Position)
    ensures
        (a == b) <==> (a.offset_view() == b.offset_view() && a.line_view() == b.line_view()
            && a.column_view() == b.column_view()),
{
}

} // verus!
