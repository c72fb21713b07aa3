//! Internal compiler errors.

use vstd::prelude::*;
use crate::span::{Span, Spanned};

verus! {

/// An internal invariant violation: a defect in the calling compiler pass,
/// never in the script being compiled.
///
/// It carries the span the caller was working on and a fixed description, and
/// is kept apart from the diagnostics that are reported to script authors.
#[derive(Debug)]
pub struct Internal {
    /// Where the compiler was when the invariant broke.
    span: Span,
    /// What was expected.
    message: &'static str,
}

impl Internal {
    /// Model of [`Internal::span`].
    pub closed spec fn spec_span(&self) -> Span {
        self.span
    }

    /// Model of [`Internal::message`].
    pub closed spec fn spec_message(&self) -> &'static str {
        self.message
    }

    /// An internal error at the place of `spanned`, described by `message`.
    pub fn new<S: Spanned>(spanned: S, message: &'static str) -> (error: Internal)
        ensures
            error.span() == spanned.spanned(),
            error.message() == message,
    {
        Internal { span: spanned.span(), message }
    }

    /// The span the error is anchored at.
    #[verifier::when_used_as_spec(spec_span)]
    pub fn span(&self) -> (span: Span)
        ensures
            span == self.span(),
    {
        self.span
    }

    /// The fixed description of the broken invariant.
    #[verifier::when_used_as_spec(spec_message)]
    pub fn message(&self) -> (message: &'static str)
        ensures
            message == self.message(),
    {
        self.message
    }
}

impl Spanned for Internal {
    open spec fn spanned(&self) -> Span {
        self.span()
    }

    fn span(&self) -> (span: Span) {
        self.span
    }
}

} // verus!
