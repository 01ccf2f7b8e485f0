use vstd::prelude::*;
use crate::source::SourceText;

verus! {

/// A lexer front that holds the source it reads.
pub struct Lexer<'a> {
    source: &'a SourceText,
}

impl<'a> Lexer<'a> {
    pub closed spec fn source_view(self) -> SourceText {
        *self.source
    }

    pub fn new(source: &'a SourceText) -> (r: Lexer<'a>)
        ensures
            r.source_view() == *source,
    {
        Lexer { source }
    }

    pub fn source(&self) -> (r: &'a SourceText)
        ensures
            *r == self.source_view(),
    {
        self.source
    }
}

} // verus!
