use vstd::prelude::*;

verus! {

/// A half-open range `[start, end)`.
///
/// Spans produced by the lexer are byte ranges into the source text. Spans
/// produced by the parser are token-index ranges into the token sequence, so
/// that a parse result is a function of the token sequence alone and an edit
/// that only moves tokens around in the source never changes a parse result.
#[derive(PartialEq, Eq, Structural, Debug, Hash, Clone, Copy)]
pub struct Span {
    pub start: usize,
    pub end: usize,
}

impl Span {
    pub fn new(start: usize, end: usize) -> (r: Self)
        ensures
            r == (Span { start, end }),
    {
        Span { start, end }
    }

    /// The smallest span covering both `self` and `other`.
    pub fn merge(self, other: Self) -> (r: Self)
        ensures
            r.start == if self.start <= other.start {
                self.start
            } else {
                other.start
            },
            r.end == if self.end >= other.end {
                self.end
            } else {
                other.end
            },
    {
        Span {
            start: if self.start <= other.start {
                self.start
            } else {
                other.start
            },
            end: if self.end >= other.end {
                self.end
            } else {
                other.end
            },
        }
    }
}

/// A value together with the span of the region it was read from.
#[derive(Debug)]
pub struct Spanned<T> {
    pub span: Span,
    pub inner: T,
}

impl<T> Spanned<T> {
    pub fn new(inner: T, span: Span) -> (r: Self)
        ensures
            r.span == span,
            r.inner == inner,
    {
        Spanned { span, inner }
    }

    pub fn into_inner(self) -> (r: T)
        ensures
            r == self.inner,
    {
        self.inner
    }
}

/// The mathematical image of a [`Spanned`] value whose payload has the
/// mathematical type `V`.
pub struct SpannedV<V> {
    pub span: Span,
    pub inner: V,
}

impl<T: View> View for Spanned<T> {
    type V = SpannedV<T::V>;

    open spec fn view(&self) -> SpannedV<T::V> {
        SpannedV { span: self.span, inner: self.inner.view() }
    }
}

/// The span covering positions `i` (inclusive) to `j` (exclusive).
pub open spec fn sp_span(i: int, j: int) -> Span {
    Span { start: i as usize, end: j as usize }
}

} // verus!
