//! Deferred context generation for performance-critical paths.
//!
//! [`LazyContext`] and [`LazyGroupContext`] hold a generator closure that is
//! called only when the context is actually attached to an error.
use crate::traits::IntoErrorContext;
use crate::types::error_context::{ContextView, ErrorContext};
use vstd::prelude::*;

verus! {

/// A lazily-evaluated error context that defers string generation until needed.
pub struct LazyContext<F> {
    generator: F,
}

impl<F> LazyContext<F> {
    /// The generator closure this context was made with.
    pub closed spec fn producer(&self) -> F {
        self.generator
    }

    /// Creates a new `LazyContext` from a closure.
    pub fn new(generator: F) -> (r: Self)
        ensures
            r.producer() == generator,
    {
        LazyContext { generator }
    }
}

/// A lazily-evaluated grouped error context.
pub struct LazyGroupContext<F> {
    generator: F,
}

impl<F> LazyGroupContext<F> {
    /// The generator closure this context was made with.
    pub closed spec fn producer(&self) -> F {
        self.generator
    }

    /// Creates a new `LazyGroupContext` from a closure.
    pub fn new(generator: F) -> (r: Self)
        ensures
            r.producer() == generator,
    {
        LazyGroupContext { generator }
    }
}

impl<F: FnOnce() -> ErrorContext> IntoErrorContext for LazyGroupContext<F> {
    open spec fn convert_ready(&self) -> bool {
        self.producer().requires(())
    }

    open spec fn converts_to(&self, ctx: ContextView) -> bool {
        exists|c: ErrorContext| #[trigger] self.producer().ensures((), c) && ctx == c@
    }

    /// Evaluates the lazy closure and returns the resulting [`ErrorContext`].
    fn into_error_context(self) -> (r: ErrorContext) {
        let c = (self.generator)();
        assert(self.producer().ensures((), c));
        c
    }
}

impl<F: FnOnce() -> String> IntoErrorContext for LazyContext<F> {
    open spec fn convert_ready(&self) -> bool {
        self.producer().requires(())
    }

    open spec fn converts_to(&self, ctx: ContextView) -> bool {
        exists|s: String| #[trigger] self.producer().ensures((), s) && ctx == ContextView::Simple(s@)
    }

    /// Evaluates the lazy closure and converts the result into an [`ErrorContext`].
    fn into_error_context(self) -> (r: ErrorContext) {
        let s = (self.generator)();
        assert(self.producer().ensures((), s));
        ErrorContext::Simple(s)
    }
}

} // verus!
