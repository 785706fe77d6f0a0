//! The async counterpart of the error pipeline: a future and its combinators.
use crate::async_ext::context_future::ContextFuture;
use vstd::prelude::*;

verus! {

/// A future being built into an error-handling chain.
pub struct AsyncErrorPipeline<Fut> {
    future: Fut,
}

impl<Fut> AsyncErrorPipeline<Fut> {
    /// The future built so far.
    pub closed spec fn future_value(&self) -> Fut {
        self.future
    }

    /// Starts a pipeline from `future`.
    pub fn new(future: Fut) -> (r: Self)
        ensures
            r.future_value() == future,
    {
        AsyncErrorPipeline { future }
    }

    /// Returns the built future.
    pub fn finish(self) -> (r: Fut)
        ensures
            r == self.future_value(),
    {
        self.future
    }

    /// Attaches context produced by `f` to the future's error.
    pub fn with_context_fn<F>(self, f: F) -> (r: AsyncErrorPipeline<ContextFuture<Fut, F>>)
        ensures
            r.future_value().future_value() == self.future_value(),
            r.future_value().context_value() == Some(f),
    {
        AsyncErrorPipeline { future: ContextFuture::new(self.future, f) }
    }
}

} // verus!
