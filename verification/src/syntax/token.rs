use vstd::prelude::*;
use crate::span::Span;
use crate::syntax::kind::SyntaxKind;

verus! {

/// A token: its kind and the byte span it covers.
#[derive(Debug, Clone, Copy, PartialEq, Eq, Structural)]
pub struct SyntaxToken {
    kind: SyntaxKind,
    span: Span,
}

impl SyntaxToken {
    /// The token as (kind, start offset, end offset).
    pub closed spec fn token_view(self) -> (SyntaxKind, int, int) {
        (self.kind, self.span.start_view() as int, self.span.end_view() as int)
    }

    pub fn new(kind: SyntaxKind, span: Span) -> (r: SyntaxToken)
        ensures
            r.token_view() == (kind, span.start_view() as int, span.end_view() as int),
    {
        SyntaxToken { kind, span }
    }

    pub fn kind(&self) -> (r: SyntaxKind)
        ensures
            r == self.token_view().0,
    {
        self.kind
    }

    pub fn span(&self) -> (r: Span)
        ensures
            r.start_view() == self.token_view().1,
            r.end_view() == self.token_view().2,
    {
        self.span
    }
}

} // verus!
