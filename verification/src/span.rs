use vstd::prelude::*;

verus! {

/// Byte-offset span in source code.
#[derive(Debug, Clone, Copy, PartialEq, Eq, Structural)]
pub struct Span {
    pub start: usize,
    pub end: usize,
    pub file_id: u32,
}

impl Span {
    pub fn new(start: usize, end: usize) -> (s: Self)
        ensures
            s == (Span { start, end, file_id: 0 }),
    {
        Self { start, end, file_id: 0 }
    }

    pub fn with_file(start: usize, end: usize, file_id: u32) -> (s: Self)
        ensures
            s == (Span { start, end, file_id }),
    {
        Self { start, end, file_id }
    }

    pub open spec fn spec_dummy() -> Span {
        Span { start: 0, end: 0, file_id: 0 }
    }

    pub fn dummy() -> (s: Self)
        ensures
            s == Span::spec_dummy(),
    {
        Self { start: 0, end: 0, file_id: 0 }
    }
}

/// A value annotated with its source span.
#[derive(Debug, Clone, PartialEq)]
pub struct Spanned<T> {
    pub node: T,
    pub span: Span,
}

impl<T> Spanned<T> {
    pub fn new(node: T, span: Span) -> (s: Self)
        ensures
            s == (Spanned { node, span }),
    {
        Self { node, span }
    }

    pub fn dummy(node: T) -> (s: Self)
        ensures
            s == (Spanned { node, span: Span::spec_dummy() }),
    {
        Self { node, span: Span::dummy() }
    }
}

} // verus!
