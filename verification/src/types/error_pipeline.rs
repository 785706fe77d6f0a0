//! A builder for composing error transformations with deferred context.
//!
//! An [`ErrorPipeline`] carries a `Result` and a stack of pending contexts.
//! Contexts are recorded only while the result is an error, are dropped when
//! the error is recovered from, and are attached to a [`ComposableError`]
//! when the pipeline is finished.
use crate::text::u32_to_decimal;
use crate::traits::{IntoErrorContext, TransientError};
use crate::types::accumulator::Accumulator;
use crate::types::composable_error::{context_views, ComposableError};
use crate::types::error_context::{empty_group, ContextView, ErrorContext, GroupView};
use crate::types::marked_error::MarkedError;
use crate::types::retry::RetryOps;
use crate::text::decimal;
use vstd::prelude::*;

verus! {

/// `"retry_attempt"`
pub open spec fn retry_attempt_key() -> Seq<char> {
    seq!['r', 'e', 't', 'r', 'y', '_', 'a', 't', 't', 'e', 'm', 'p', 't']
}

/// The group context holding the single metadata pair `key=value`.
pub open spec fn metadata_context(key: Seq<char>, value: Seq<char>) -> ContextView {
    ContextView::Group(GroupView { metadata: seq![(key, value)], ..empty_group() })
}

/// A result together with the contexts pending for its error.
pub struct ErrorPipeline<T, E> {
    result: Result<T, E>,
    pending_contexts: Accumulator<ErrorContext>,
}

impl<T, E> ErrorPipeline<T, E> {
    /// The current result.
    pub closed spec fn outcome(&self) -> Result<T, E> {
        self.result
    }

    /// The contexts pending for the error, oldest first.
    pub closed spec fn pending(&self) -> Seq<ContextView> {
        context_views(self.pending_contexts@)
    }

    /// Creates a pipeline from an existing `Result`.
    pub fn new(result: Result<T, E>) -> (r: Self)
        ensures
            r.outcome() == result,
            r.pending() == Seq::<ContextView>::empty(),
    {
        let r = ErrorPipeline { result, pending_contexts: Accumulator::new() };
        assert(r.pending() =~= Seq::<ContextView>::empty());
        r
    }

    /// Records a context for the error; does nothing on success.
    pub fn with_context<C: IntoErrorContext>(self, context: C) -> (r: Self)
        requires
            self.outcome() is Err ==> context.convert_ready(),
        ensures
            r.outcome() == self.outcome(),
            self.outcome() is Ok ==> r.pending() == self.pending(),
            self.outcome() is Err ==> r.pending().len() == self.pending().len() + 1
                && r.pending().drop_last() == self.pending()
                && context.converts_to(r.pending().last()),
    {
        if self.result.is_ok() {
            return self;
        }
        let mut s = self;
        let ctx = context.into_error_context();
        s.pending_contexts.push(ctx);
        assert(s.pending().drop_last() =~= self.pending());
        s
    }

    /// Alias for [`with_context`](Self::with_context).
    pub fn context<C: IntoErrorContext>(self, context: C) -> (r: Self)
        requires
            self.outcome() is Err ==> context.convert_ready(),
        ensures
            r.outcome() == self.outcome(),
            self.outcome() is Ok ==> r.pending() == self.pending(),
            self.outcome() is Err ==> r.pending().len() == self.pending().len() + 1
                && r.pending().drop_last() == self.pending()
                && context.converts_to(r.pending().last()),
    {
        self.with_context(context)
    }

    /// Switches to the retry-hint operations for this pipeline.
    pub fn retry(self) -> (r: RetryOps<T, E>)
        ensures
            r.pipeline_value() == self,
    {
        RetryOps::new(self)
    }

    /// Marks the error as transient or permanent according to `classifier`.
    pub fn mark_transient_if<F: Fn(&E) -> bool>(self, classifier: F) -> (r: ErrorPipeline<T, MarkedError<E, F>>)
        ensures
            r.pending() == self.pending(),
            match self.outcome() {
                Ok(v) => r.outcome() == Ok::<T, MarkedError<E, F>>(v),
                Err(e) => r.outcome() matches Err(m) && m.inner_value() == e && m.classifier_value() == classifier,
            },
    {
        let result = match self.result {
            Ok(v) => Ok(v),
            Err(e) => Err(MarkedError::new(e, classifier)),
        };
        ErrorPipeline { result, pending_contexts: self.pending_contexts }
    }

    /// Chains a fallible step on the success value (like [`and_then`](Self::and_then)).
    pub fn step<U, F: FnOnce(T) -> Result<U, E>>(self, f: F) -> (r: ErrorPipeline<U, E>)
        requires
            self.outcome() matches Ok(v) ==> f.requires((v,)),
        ensures
            r.pending() == self.pending(),
            match self.outcome() {
                Ok(v) => f.ensures((v,), r.outcome()),
                Err(e) => r.outcome() == Err::<U, E>(e),
            },
    {
        self.and_then(f)
    }

    /// Transforms the error with `f`; success and pending contexts are kept.
    pub fn map_error<F: FnOnce(E) -> NewE, NewE>(self, f: F) -> (r: ErrorPipeline<T, NewE>)
        requires
            self.outcome() matches Err(e) ==> f.requires((e,)),
        ensures
            r.pending() == self.pending(),
            match self.outcome() {
                Ok(v) => r.outcome() == Ok::<T, NewE>(v),
                Err(e) => r.outcome() matches Err(e2) && f.ensures((e,), e2),
            },
    {
        let result = match self.result {
            Ok(v) => Ok(v),
            Err(e) => Err(f(e)),
        };
        ErrorPipeline { result, pending_contexts: self.pending_contexts }
    }

    /// Tries to recover from the error with `recovery`. A successful recovery
    /// discards the pending contexts; a failed one keeps them.
    pub fn recover<F: FnOnce(E) -> Result<T, E>>(self, recovery: F) -> (r: Self)
        requires
            self.outcome() matches Err(e) ==> recovery.requires((e,)),
        ensures
            match self.outcome() {
                Ok(v) => r.outcome() == Ok::<T, E>(v) && r.pending() == self.pending(),
                Err(e) => recovery.ensures((e,), r.outcome())
                    && (r.outcome() is Ok ==> r.pending() == Seq::<ContextView>::empty())
                    && (r.outcome() is Err ==> r.pending() == self.pending()),
            },
    {
        match self.result {
            Ok(v) => ErrorPipeline { result: Ok(v), pending_contexts: self.pending_contexts },
            Err(e) => match recovery(e) {
                Ok(v) => ErrorPipeline::new(Ok(v)),
                Err(e2) => ErrorPipeline { result: Err(e2), pending_contexts: self.pending_contexts },
            },
        }
    }

    /// Replaces an error by `Ok(value)`, discarding the pending contexts.
    pub fn fallback(self, value: T) -> (r: Self)
        ensures
            match self.outcome() {
                Ok(v) => r.outcome() == Ok::<T, E>(v) && r.pending() == self.pending(),
                Err(_) => r.outcome() == Ok::<T, E>(value) && r.pending() == Seq::<ContextView>::empty(),
            },
    {
        match self.result {
            Ok(v) => ErrorPipeline { result: Ok(v), pending_contexts: self.pending_contexts },
            Err(_) => ErrorPipeline::new(Ok(value)),
        }
    }

    /// Replaces an error by `Ok(f(error))`, discarding the pending contexts.
    pub fn recover_safe<F: FnOnce(E) -> T>(self, f: F) -> (r: Self)
        requires
            self.outcome() matches Err(e) ==> f.requires((e,)),
        ensures
            match self.outcome() {
                Ok(v) => r.outcome() == Ok::<T, E>(v) && r.pending() == self.pending(),
                Err(e) => r.outcome() matches Ok(v) && f.ensures((e,), v) && r.pending() == Seq::<ContextView>::empty(),
            },
    {
        match self.result {
            Ok(v) => ErrorPipeline { result: Ok(v), pending_contexts: self.pending_contexts },
            Err(e) => ErrorPipeline::new(Ok(f(e))),
        }
    }

    /// Chains a fallible operation on the success value.
    pub fn and_then<U, F: FnOnce(T) -> Result<U, E>>(self, f: F) -> (r: ErrorPipeline<U, E>)
        requires
            self.outcome() matches Ok(v) ==> f.requires((v,)),
        ensures
            r.pending() == self.pending(),
            match self.outcome() {
                Ok(v) => f.ensures((v,), r.outcome()),
                Err(e) => r.outcome() == Err::<U, E>(e),
            },
    {
        let result = match self.result {
            Ok(v) => f(v),
            Err(e) => Err(e),
        };
        ErrorPipeline { result, pending_contexts: self.pending_contexts }
    }

    /// Transforms the success value.
    pub fn map<U, F: FnOnce(T) -> U>(self, f: F) -> (r: ErrorPipeline<U, E>)
        requires
            self.outcome() matches Ok(v) ==> f.requires((v,)),
        ensures
            r.pending() == self.pending(),
            match self.outcome() {
                Ok(v) => r.outcome() matches Ok(u) && f.ensures((v,), u),
                Err(e) => r.outcome() == Err::<U, E>(e),
            },
    {
        let result = match self.result {
            Ok(v) => Ok(f(v)),
            Err(e) => Err(e),
        };
        ErrorPipeline { result, pending_contexts: self.pending_contexts }
    }

    /// Finishes into a boxed composable result: the error carries the pending
    /// contexts in the order they were added, and no code.
    pub fn finish_boxed(self) -> (r: Result<T, Box<ComposableError<E>>>)
        ensures
            match self.outcome() {
                Ok(v) => r == Ok::<T, Box<ComposableError<E>>>(v),
                Err(e) => r matches Err(c) && c.core_value() == e && c.contexts() == self.pending()
                    && c.code() == None::<u32>,
            },
    {
        match self.finish() {
            Ok(v) => Ok(v),
            Err(c) => Err(Box::new(c)),
        }
    }

    /// Finishes into a composable result: the error carries the pending
    /// contexts in the order they were added, and no code.
    pub fn finish(self) -> (r: Result<T, ComposableError<E>>)
        ensures
            match self.outcome() {
                Ok(v) => r == Ok::<T, ComposableError<E>>(v),
                Err(e) => r matches Err(c) && c.core_value() == e && c.contexts() == self.pending()
                    && c.code() == None::<u32>,
            },
    {
        match self.result {
            Ok(v) => Ok(v),
            Err(e) => {
                let c = ComposableError::new(e).with_contexts(self.pending_contexts.into_inner());
                assert(c.contexts() =~= self.pending());
                Err(c)
            },
        }
    }
}

impl<T, E: TransientError> ErrorPipeline<T, E> {
    /// Whether the pipeline holds a transient error (false on success).
    pub fn is_transient(&self) -> (r: bool)
        requires
            self.outcome() matches Err(e) ==> e.classify_ready(),
        ensures
            match self.outcome() {
                Ok(_) => !r,
                Err(e) => e.transient_outcome(r),
            },
    {
        match &self.result {
            Ok(_) => false,
            Err(e) => e.is_transient(),
        }
    }

    /// Tries `recovery` only when the error is transient; a permanent error
    /// is kept as it is.
    pub fn recover_transient<F: FnOnce(E) -> Result<T, E>>(self, recovery: F) -> (r: Self)
        requires
            self.outcome() matches Err(e) ==> e.classify_ready() && recovery.requires((e,)),
        ensures
            match self.outcome() {
                Ok(v) => r.outcome() == Ok::<T, E>(v) && r.pending() == self.pending(),
                Err(e) => {
                    ||| (e.transient_outcome(false) && r.outcome() == Err::<T, E>(e) && r.pending() == self.pending())
                    ||| (e.transient_outcome(true) && recovery.ensures((e,), r.outcome())
                        && (r.outcome() is Ok ==> r.pending() == Seq::<ContextView>::empty())
                        && (r.outcome() is Err ==> r.pending() == self.pending()))
                },
            },
    {
        match self.result {
            Ok(v) => ErrorPipeline { result: Ok(v), pending_contexts: self.pending_contexts },
            Err(e) => {
                if e.is_transient() {
                    match recovery(e) {
                        Ok(v) => ErrorPipeline::new(Ok(v)),
                        Err(e2) => ErrorPipeline { result: Err(e2), pending_contexts: self.pending_contexts },
                    }
                } else {
                    ErrorPipeline { result: Err(e), pending_contexts: self.pending_contexts }
                }
            },
        }
    }

    /// `Some(self)` when the error is transient (worth retrying); `None` on
    /// success or for a permanent error.
    pub fn should_retry(self) -> (r: Option<Self>)
        requires
            self.outcome() matches Err(e) ==> e.classify_ready(),
        ensures
            match self.outcome() {
                Ok(_) => r is None,
                Err(e) => (r is None && e.transient_outcome(false)) || (r == Some(self) && e.transient_outcome(true)),
            },
    {
        let transient = match &self.result {
            Ok(_) => false,
            Err(e) => e.is_transient(),
        };
        if transient { Some(self) } else { None }
    }

    /// The error's retry-after hint (what its `retry_after_hint` gives);
    /// `None` on success.
    pub fn retry_after_hint(&self) -> (r: Option<core::time::Duration>)
        ensures
            match self.outcome() {
                Ok(_) => r is None,
                Err(e) => call_ensures(E::retry_after_hint, (&e,), r),
            },
    {
        match &self.result {
            Ok(_) => None,
            Err(e) => e.retry_after_hint(),
        }
    }
}

impl<T, E> ErrorPipeline<T, E> {
    /// On error, records the retry attempt as the metadata `retry_attempt=N`.
    pub fn with_retry_context(self, attempt: u32) -> (r: Self)
        ensures
            r.outcome() == self.outcome(),
            self.outcome() is Ok ==> r.pending() == self.pending(),
            self.outcome() is Err ==> r.pending() == self.pending().push(
                metadata_context(retry_attempt_key(), decimal(attempt as nat))),
    {
        if self.result.is_err() {
            let attempt_str = u32_to_decimal(attempt);
            let ghost value = attempt_str@;
            let r = self.with_context(retry_attempt_context(attempt_str));
            assert(r.pending() =~= self.pending().push(metadata_context(retry_attempt_key(), value)));
            r
        } else {
            self
        }
    }
}

fn retry_attempt_context(attempt: String) -> (c: ErrorContext)
    ensures
        c@ == metadata_context(retry_attempt_key(), attempt@),
{
    proof { reveal_strlit("retry_attempt"); }
    let c = ErrorContext::metadata("retry_attempt", attempt.as_str());
    assert("retry_attempt"@ =~= retry_attempt_key());
    c
}

} // verus!
