//! A future wrapper that attaches context only when its future fails.
use crate::traits::IntoErrorContext;
use crate::types::composable_error::ComposableError;
use vstd::prelude::*;

verus! {

/// A future paired with the closure producing the context for its error.
pub struct ContextFuture<Fut, F> {
    future: Fut,
    context_fn: Option<F>,
}

impl<Fut, F> ContextFuture<Fut, F> {
    /// The wrapped future.
    pub closed spec fn future_value(&self) -> Fut {
        self.future
    }

    /// The context closure, until it has been used.
    pub closed spec fn context_value(&self) -> Option<F> {
        self.context_fn
    }

    /// Wraps `future`, with `context_fn` to describe its error.
    pub fn new(future: Fut, context_fn: F) -> (r: Self)
        ensures
            r.future_value() == future,
            r.context_value() == Some(context_fn),
    {
        ContextFuture { future, context_fn: Some(context_fn) }
    }

    /// Splits into the future and the context closure (if not used yet).
    pub fn into_parts(self) -> (r: (Fut, Option<F>))
        ensures
            r.0 == self.future_value(),
            r.1 == self.context_value(),
    {
        (self.future, self.context_fn)
    }

    /// Whether the future has finished: its context was used, or the inner
    /// future reports itself finished.
    pub fn is_terminated(&self, inner_terminated: bool) -> (r: bool)
        ensures
            r == (self.context_value() is None || inner_terminated),
    {
        self.context_fn.is_none() || inner_terminated
    }
}

impl<Fut, F: FnOnce() -> C, C: IntoErrorContext> ContextFuture<Fut, F> {
    /// What the wrapper yields when the inner future yields `output`: a
    /// success unchanged, an error wrapped with the context the closure makes
    /// (the closure is used up).
    pub fn complete<T, E>(&mut self, output: Result<T, E>) -> (r: Result<T, ComposableError<E>>)
        requires
            output is Err ==> (old(self).context_value() matches Some(f) && f.requires(())
                && forall|c: C| #[trigger] f.ensures((), c) ==> c.convert_ready()),
        ensures
            final(self).future_value() == old(self).future_value(),
            match output {
                Ok(t) => r == Ok::<T, ComposableError<E>>(t) && final(self).context_value() == old(self).context_value(),
                Err(e) => final(self).context_value() is None && (r matches Err(ce) && ce.core_value() == e
                    && ce.code() == None::<u32> && ce.contexts().len() == 1
                    && exists|c: C| #[trigger] old(self).context_value()->0.ensures((), c) && c.converts_to(ce.contexts()[0])),
            },
    {
        match output {
            Ok(t) => Ok(t),
            Err(e) => {
                let f = self.context_fn.take().unwrap();
                let c = f();
                let ce = ComposableError::new(e).with_context(c);
                assert(ce.contexts()[0] == ce.contexts().last());
                Err(ce)
            },
        }
    }
}

} // verus!
