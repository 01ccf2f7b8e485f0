use vstd::prelude::*;
use std::ops::Range;

verus! {

/// A half-open byte range `start..end` with `start <= end`.
#[derive(Debug, Clone, Copy, PartialEq, Eq, PartialOrd, Ord, Hash, Structural)]
pub struct Span {
    start: usize,
    end: usize,
}

impl Span {
    #[verifier::type_invariant]
    spec fn ordered(self) -> bool {
        self.start <= self.end
    }

    /// The first offset covered by the span.
    pub closed spec fn start_view(self) -> usize {
        self.start
    }

    /// The first offset after the span.
    pub closed spec fn end_view(self) -> usize {
        self.end
    }

    /// Builds `start..end`; there is no span whose start lies after its end.
    pub fn new(start: usize, end: usize) -> (r: Option<Span>)
        ensures
            r is Some <==> start <= end,
            r matches Some(s) ==> s.start_view() == start && s.end_view() == end,
    {
        if start <= end {
            Some(Span { start, end })
        } else {
            None
        }
    }

    pub fn start(self) -> (r: usize)
        ensures
            r == self.start_view(),
            self.start_view() <= self.end_view(),
    {
        proof { use_type_invariant(&self); }
        self.start
    }

    pub fn end(self) -> (r: usize)
        ensures
            r == self.end_view(),
            self.start_view() <= self.end_view(),
    {
        proof { use_type_invariant(&self); }
        self.end
    }

    /// Number of offsets covered.
    pub fn len(self) -> (r: usize)
        ensures
            self.start_view() <= self.end_view(),
            r == self.end_view() - self.start_view(),
    {
        proof { use_type_invariant(&self); }
        self.end - self.start
    }

    pub fn is_empty(self) -> (r: bool)
        ensures
            r == (self.start_view() == self.end_view()),
    {
        self.start == self.end
    }

    pub fn range(self) -> (r: Range<usize>)
        ensures
            r.start == self.start_view(),
            r.end == self.end_view(),
    {
        self.start..self.end
    }

    /// Half-open membership: `start <= offset < end`.
    pub fn contains(self, offset: usize) -> (r: bool)
        ensures
            r == (self.start_view() <= offset && offset < self.end_view()),
    {
        self.start <= offset && offset < self.end
    }

    /// True when `other` lies entirely inside `self`.
    pub fn contains_span(self, other: Span) -> (r: bool)
        ensures
            r == (self.start_view() <= other.start_view() && other.end_view() <= self.end_view()),
    {
        self.start <= other.start && other.end <= self.end
    }
}

/// Spans are plain values: two are equal exactly when their starts and ends are.
pub proof fn law_spans_equal_iff_same_bounds(a: Span, b: Span)
    ensures
        (a == b) <==> (a.start_view() == b.start_view() && a.end_view() == b.end_view()),
{
}

/// A span nested in another covers only offsets that the outer one covers.
pub proof fn law_nested_span_contains(outer: Span, inner: Span, offset: int)
    requires
        outer.start_view() <= inner.start_view(),
        inner.end_view() <= outer.end_view(),
        inner.start_view() <= offset < inner.end_view(),
    ensures
        outer.start_view() <= offset < outer.end_view(),
{
}

} // verus!
