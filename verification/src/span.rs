//! Source positions.

use vstd::prelude::*;

verus! {

/// A range of bytes in a source file, used to anchor a diagnostic.
///
/// The scope stack never computes a span; it only hands back the one its
/// caller supplied.
#[derive(Clone, Copy, Debug, PartialEq, Eq, Structural, Hash)]
pub struct Span {
    /// Offset of the first byte.
    pub start: u32,
    /// Offset one past the last byte.
    pub end: u32,
}

impl Span {
    /// The span from `start` up to `end`.
    pub fn new(start: u32, end: u32) -> (span: Span)
        ensures
            span == (Span { start, end }),
    {
        Span { start, end }
    }

    /// The empty span at the start of the source.
    pub fn empty() -> (span: Span)
        ensures
            span == (Span { start: 0, end: 0 }),
    {
        Span { start: 0, end: 0 }
    }
}

/// Something that stands at a known place in the source.
///
/// Every fallible operation of the compiler takes one of these to anchor the
/// error it may report.
pub trait Spanned {
    /// The place of the item in the source, as contracts speak of it. An
    /// implementation gives it the body of [`Spanned::span`].
    spec fn spanned(&self) -> Span;

    /// Get the span of the item.
    fn span(&self) -> (span: Span)
        ensures
            span == self.spanned(),
    ;
}

impl Spanned for Span {
    open spec fn spanned(&self) -> Span {
        *self
    }

    fn span(&self) -> (span: Span) {
        *self
    }
}

impl<T: Spanned> Spanned for &T {
    open spec fn spanned(&self) -> Span {
        (**self).spanned()
    }

    fn span(&self) -> (span: Span) {
        (**self).span()
    }
}

} // verus!
