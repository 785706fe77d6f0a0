//! The error handling behind a service middleware layer: a layer holding a
//! context, the service it wraps around an inner service, and the future
//! that attaches the context to the inner service's error.
//!
//! Polling, readiness and the service call itself are the caller's; these
//! types decide what becomes of each outcome.
use crate::traits::IntoErrorContext;
use crate::types::composable_error::ComposableError;
use crate::types::error_context::ContextView;
use vstd::prelude::*;

verus! {

/// A layer that wraps services so that their errors carry `context`.
#[derive(Debug)]
pub struct ErrorRailLayer<C> {
    context: C,
}

impl<C> ErrorRailLayer<C> {
    /// The context this layer attaches.
    pub closed spec fn context_value(&self) -> C {
        self.context
    }

    /// A layer attaching `context` to the errors of the services it wraps.
    pub fn new(context: C) -> (r: Self)
        ensures
            r.context_value() == context,
    {
        ErrorRailLayer { context }
    }

    /// The context this layer attaches.
    pub fn context(&self) -> (r: &C)
        ensures
            *r == self.context_value(),
    {
        &self.context
    }
}

impl<C: Clone> ErrorRailLayer<C> {
    /// Wraps `inner` in a service carrying a clone of this layer's context.
    pub fn layer<S>(&self, inner: S) -> (r: ErrorRailService<S, C>)
        ensures
            r.inner_value() == inner,
            cloned::<C>(self.context_value(), r.context_value()),
    {
        ErrorRailService { inner, context: self.context.clone() }
    }
}

impl<C: Clone> Clone for ErrorRailLayer<C> {
    fn clone(&self) -> (r: Self)
        ensures
            cloned::<C>(self.context_value(), r.context_value()),
    {
        ErrorRailLayer { context: self.context.clone() }
    }
}

/// A service whose errors carry a context.
#[derive(Debug)]
pub struct ErrorRailService<S, C> {
    inner: S,
    context: C,
}

/// Whether `ce` is `error` with one context, one that converting some clone
/// of `context` may produce.
pub open spec fn wrapped_with_clone<E, C: Clone + IntoErrorContext>(ce: ComposableError<E>, error: E, context: C) -> bool {
    &&& ce.core_value() == error
    &&& ce.code() == None::<u32>
    &&& ce.contexts().len() == 1
    &&& exists|c: C| #[trigger] cloned::<C>(context, c) && c.converts_to(ce.contexts()[0])
}

impl<S, C> ErrorRailService<S, C> {
    /// The wrapped service.
    pub closed spec fn inner_value(&self) -> S {
        self.inner
    }

    /// The context attached to errors.
    pub closed spec fn context_value(&self) -> C {
        self.context
    }

    /// Wraps `inner`, attaching `context` to its errors.
    pub fn new(inner: S, context: C) -> (r: Self)
        ensures
            r.inner_value() == inner,
            r.context_value() == context,
    {
        ErrorRailService { inner, context }
    }

    /// The wrapped service.
    pub fn inner(&self) -> (r: &S)
        ensures
            *r == self.inner_value(),
    {
        &self.inner
    }

    /// The wrapped service, mutably; the context stays as it is.
    pub fn inner_mut(&mut self) -> (r: &mut S)
        ensures
            *r == old(self).inner_value(),
            final(self).inner_value() == *final(r),
            final(self).context_value() == old(self).context_value(),
    {
        &mut self.inner
    }

    /// Gives back the wrapped service.
    pub fn into_inner(self) -> (r: S)
        ensures
            r == self.inner_value(),
    {
        self.inner
    }

    /// The context attached to errors.
    pub fn context(&self) -> (r: &C)
        ensures
            *r == self.context_value(),
    {
        &self.context
    }
}

impl<S: Clone, C: Clone> Clone for ErrorRailService<S, C> {
    fn clone(&self) -> (r: Self)
        ensures
            cloned::<S>(self.inner_value(), r.inner_value()),
            cloned::<C>(self.context_value(), r.context_value()),
    {
        ErrorRailService { inner: self.inner.clone(), context: self.context.clone() }
    }
}

impl<S, C: Clone + IntoErrorContext> ErrorRailService<S, C> {
    /// What the service reports for the readiness answer `ready` of its
    /// inner service: readiness unchanged, an error with a clone of the
    /// context attached.
    pub fn map_ready<E>(&self, ready: Result<(), E>) -> (r: Result<(), ComposableError<E>>)
        requires
            ready is Err ==> forall|c: C| cloned::<C>(self.context_value(), c) ==> #[trigger] c.convert_ready(),
        ensures
            match ready {
                Ok(_) => r == Ok::<(), ComposableError<E>>(()),
                Err(e) => r matches Err(ce) && wrapped_with_clone(ce, e, self.context_value()),
            },
    {
        match ready {
            Ok(()) => Ok(()),
            Err(e) => {
                let c = self.context.clone();
                assert(cloned::<C>(self.context, c));
                let ce = ComposableError::new(e).with_context(c);
                assert(ce.contexts()[0] == ce.contexts().last());
                Err(ce)
            },
        }
    }

    /// The future for a call of the inner service whose future is `inner`:
    /// it carries a clone of the context.
    pub fn wrap_call<F>(&self, inner: F) -> (r: ErrorRailFuture<F, C>)
        ensures
            r.inner_value() == inner,
            r.context_value() matches Some(c) && cloned::<C>(self.context_value(), c),
    {
        ErrorRailFuture::new(inner, self.context.clone())
    }
}

/// The future of a wrapped service call: the inner future, and the context
/// until the future has completed with an error.
#[derive(Debug)]
pub struct ErrorRailFuture<F, C> {
    inner: F,
    context: Option<C>,
}

impl<F, C> ErrorRailFuture<F, C> {
    /// The inner future.
    pub closed spec fn inner_value(&self) -> F {
        self.inner
    }

    /// The context, until it has been attached to an error.
    pub closed spec fn context_value(&self) -> Option<C> {
        self.context
    }

    /// Pairs `inner` with `context`.
    pub fn new(inner: F, context: C) -> (r: Self)
        ensures
            r.inner_value() == inner,
            r.context_value() == Some(context),
    {
        ErrorRailFuture { inner, context: Some(context) }
    }

    /// The inner future, mutably (to poll it); the context stays as it is.
    pub fn inner_mut(&mut self) -> (r: &mut F)
        ensures
            *r == old(self).inner_value(),
            final(self).inner_value() == *final(r),
            final(self).context_value() == old(self).context_value(),
    {
        &mut self.inner
    }

    /// Whether the future has finished: its context was used, or the inner
    /// future reports itself finished.
    pub fn is_terminated(&self, inner_terminated: bool) -> (r: bool)
        ensures
            r == (self.context_value() is None || inner_terminated),
    {
        self.context.is_none() || inner_terminated
    }
}

impl<F, C: IntoErrorContext> ErrorRailFuture<F, C> {
    /// What the future yields when the inner future yields `output`: a
    /// success unchanged, an error with the context attached (the context is
    /// used up). An error is only owed while the context is still held.
    pub fn complete<T, E>(&mut self, output: Result<T, E>) -> (r: Result<T, ComposableError<E>>)
        requires
            output is Err ==> (old(self).context_value() matches Some(c) && c.convert_ready()),
        ensures
            final(self).inner_value() == old(self).inner_value(),
            match output {
                Ok(t) => r == Ok::<T, ComposableError<E>>(t) && final(self).context_value() == old(self).context_value(),
                Err(e) => final(self).context_value() is None && (r matches Err(ce) && ce.core_value() == e
                    && ce.code() == None::<u32> && ce.contexts().len() == 1
                    && old(self).context_value()->0.converts_to(ce.contexts()[0])),
            },
    {
        match output {
            Ok(t) => Ok(t),
            Err(e) => {
                let c = self.context.take().unwrap();
                let ce = ComposableError::new(e).with_context(c);
                assert(ce.contexts()[0] == ce.contexts().last());
                Err(ce)
            },
        }
    }
}

} // verus!
