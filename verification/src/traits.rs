//! Core traits for error handling and composition.
use crate::types::composable_error::ComposableError;
use crate::types::error_context::{ContextView, ErrorContext};
use crate::text::string_of;
use vstd::prelude::*;

verus! {

/// Converts a type into an [`ErrorContext`] for error annotation.
///
/// `convert_ready` says when the conversion may run (for a deferred context,
/// when its generator may be called), and `converts_to` which contexts the
/// conversion may produce; an implementation that does not say allows any.
pub trait IntoErrorContext: Sized {
    open spec fn convert_ready(&self) -> bool {
        true
    }

    open spec fn converts_to(&self, ctx: ContextView) -> bool {
        true
    }

    /// Converts `self` into an [`ErrorContext`].
    fn into_error_context(self) -> (r: ErrorContext)
        requires
            self.convert_ready(),
        ensures
            self.converts_to(r@),
    ;
}

impl IntoErrorContext for String {
    open spec fn convert_ready(&self) -> bool {
        true
    }

    open spec fn converts_to(&self, ctx: ContextView) -> bool {
        ctx == ContextView::Simple(self@)
    }

    fn into_error_context(self) -> (r: ErrorContext) {
        ErrorContext::Simple(self)
    }
}

impl IntoErrorContext for &'static str {
    open spec fn convert_ready(&self) -> bool {
        true
    }

    open spec fn converts_to(&self, ctx: ContextView) -> bool {
        ctx == ContextView::Simple(self@)
    }

    fn into_error_context(self) -> (r: ErrorContext) {
        ErrorContext::Simple(string_of(self))
    }
}

impl IntoErrorContext for std::borrow::Cow<'static, str> {
    open spec fn convert_ready(&self) -> bool {
        true
    }

    open spec fn converts_to(&self, ctx: ContextView) -> bool {
        ctx == ContextView::Simple(self@)
    }

    fn into_error_context(self) -> (r: ErrorContext) {
        match self {
            std::borrow::Cow::Borrowed(s) => ErrorContext::Simple(string_of(s)),
            std::borrow::Cow::Owned(s) => ErrorContext::Simple(s),
        }
    }
}

impl IntoErrorContext for ErrorContext {
    open spec fn convert_ready(&self) -> bool {
        true
    }

    open spec fn converts_to(&self, ctx: ContextView) -> bool {
        ctx == self@
    }

    fn into_error_context(self) -> (r: ErrorContext) {
        self
    }
}

/// Classification of errors as transient or permanent.
///
/// `transient_outcome(answer)` says which answers `is_transient` may give,
/// and `classify_ready` when it may be asked; an implementation that does not
/// say allows either answer, at any time.
pub trait TransientError {
    open spec fn transient_outcome(&self, answer: bool) -> bool {
        true
    }

    open spec fn classify_ready(&self) -> bool {
        true
    }

    /// Returns `true` if this error is transient and may succeed on retry.
    fn is_transient(&self) -> (r: bool)
        requires
            self.classify_ready(),
        ensures
            self.transient_outcome(r),
    ;

    /// Returns `true` if this error is permanent and should not be retried.
    fn is_permanent(&self) -> (r: bool)
        requires
            self.classify_ready(),
        ensures
            self.transient_outcome(!r),
    {
        !self.is_transient()
    }

    /// Which retry-after hints, besides none, `retry_after_hint` may give
    /// (any, unless an implementation says).
    open spec fn hint_outcome(&self, hint: Option<core::time::Duration>) -> bool {
        true
    }

    /// Which retry counts, besides none, `max_retries_hint` may give (any,
    /// unless an implementation says).
    open spec fn max_retries_outcome(&self, count: Option<u32>) -> bool {
        true
    }

    /// Optional hint for how long to wait before retrying.
    fn retry_after_hint(&self) -> (r: Option<core::time::Duration>)
        ensures
            r is None || self.hint_outcome(r),
        default_ensures
            r is None,
    {
        None
    }

    /// Returns the maximum number of retry attempts for this error.
    fn max_retries_hint(&self) -> (r: Option<u32>)
        ensures
            r is None || self.max_retries_outcome(r),
        default_ensures
            r is None,
    {
        None
    }
}

/// Extension methods for working with transient errors.
pub trait TransientErrorExt<T, E: TransientError>: Sized {
    /// The result this value stands for.
    spec fn as_result(&self) -> Result<T, E>;

    /// `Some(self)` for a transient error (worth retrying); `None` on success
    /// or for a permanent error.
    fn retry_if_transient(self) -> (r: Option<Result<T, E>>)
        requires
            self.as_result() matches Err(e) ==> e.classify_ready(),
        ensures
            match self.as_result() {
                Ok(_) => r is None,
                Err(e) => (r is None && e.transient_outcome(false))
                    || (r == Some(self.as_result()) && e.transient_outcome(true)),
            },
    ;
}

impl<T, E: TransientError> TransientErrorExt<T, E> for Result<T, E> {
    open spec fn as_result(&self) -> Result<T, E> {
        *self
    }

    fn retry_if_transient(self) -> (r: Option<Result<T, E>>) {
        let transient = match &self {
            Ok(_) => false,
            Err(e) => e.is_transient(),
        };
        if transient { Some(self) } else { None }
    }
}

/// Types that carry a success value or errors, convertible to `Result`.
pub trait WithError<E>: Sized {
    type Success;

    /// Whether the first error can be taken (an error list is never empty).
    spec fn first_ready(&self) -> bool;

    /// What `to_result_first` gives.
    spec fn first_result(&self) -> Result<Self::Success, E>;

    /// Which results `to_result_all` may give.
    spec fn all_result(&self, r: Result<Self::Success, Vec<E>>) -> bool;

    /// Converts into a `Result`, keeping only the first error.
    fn to_result_first(self) -> (r: Result<Self::Success, E>)
        requires
            self.first_ready(),
        ensures
            r == self.first_result(),
    ;

    /// Converts into a `Result`, keeping all errors.
    fn to_result_all(self) -> (r: Result<Self::Success, Vec<E>>)
        ensures
            self.all_result(r),
    ;
}

impl<T, E> WithError<E> for Result<T, E> {
    type Success = T;

    open spec fn first_ready(&self) -> bool {
        true
    }

    open spec fn first_result(&self) -> Result<T, E> {
        *self
    }

    open spec fn all_result(&self, r: Result<T, Vec<E>>) -> bool {
        match *self {
            Ok(t) => r == Ok::<T, Vec<E>>(t),
            Err(e) => r matches Err(es) && es@ == seq![e],
        }
    }

    fn to_result_first(self) -> (r: Result<T, E>) {
        self
    }

    fn to_result_all(self) -> (r: Result<T, Vec<E>>) {
        match self {
            Ok(t) => Ok(t),
            Err(e) => {
                let mut error_vec = Vec::new();
                error_vec.push(e);
                assert(error_vec@ =~= seq![e]);
                Err(error_vec)
            },
        }
    }
}

/// Maps the error values of a container with a function `F` to a new error type `G`.
pub trait FmapError<E, G, F: Fn(E) -> G>: Sized {
    type ErrorOutput;

    /// Whether `f` may be applied to every error held.
    spec fn fmap_ready(&self, f: F) -> bool;

    /// Whether `out` is `self` with every error mapped by `f`.
    spec fn fmap_result(&self, f: F, out: Self::ErrorOutput) -> bool;

    /// Maps every error with `f`.
    fn fmap_error(self, f: F) -> (r: Self::ErrorOutput)
        requires
            self.fmap_ready(f),
        ensures
            self.fmap_result(f, r),
    ;
}

impl<T, E, G, F: Fn(E) -> G> FmapError<E, G, F> for Result<T, E> {
    type ErrorOutput = Result<T, G>;

    open spec fn fmap_ready(&self, f: F) -> bool {
        *self matches Err(e) ==> f.requires((e,))
    }

    open spec fn fmap_result(&self, f: F, out: Result<T, G>) -> bool {
        match *self {
            Ok(t) => out == Ok::<T, G>(t),
            Err(e) => out matches Err(g) && f.ensures((e,), g),
        }
    }

    fn fmap_error(self, f: F) -> (r: Result<T, G>) {
        match self {
            Ok(t) => Ok(t),
            Err(e) => Err(f(e)),
        }
    }
}

/// Operations for error recovery and bidirectional mapping.
pub trait ErrorOps<E>: WithError<E> {
    /// The result this value stands for.
    spec fn outcome_of(&self) -> Result<Self::Success, E>;

    /// Recovers from an error with `recovery`; a success is kept.
    fn recover<F: FnOnce(E) -> Self>(self, recovery: F) -> (r: Self)
        requires
            self.outcome_of() matches Err(e) ==> recovery.requires((e,)),
        ensures
            match self.outcome_of() {
                Ok(_) => r == self,
                Err(e) => recovery.ensures((e,), r),
            },
    ;

    /// Maps the success with `success_f` and the error with `error_f`.
    fn bimap_result<B, G, SuccessF: FnOnce(Self::Success) -> B, ErrorF: FnOnce(E) -> G>(
        self,
        success_f: SuccessF,
        error_f: ErrorF,
    ) -> (r: Result<B, G>)
        requires
            self.outcome_of() matches Ok(t) ==> success_f.requires((t,)),
            self.outcome_of() matches Err(e) ==> error_f.requires((e,)),
        ensures
            match self.outcome_of() {
                Ok(t) => r matches Ok(b) && success_f.ensures((t,), b),
                Err(e) => r matches Err(g) && error_f.ensures((e,), g),
            },
    ;
}

impl<T, E> ErrorOps<E> for Result<T, E> {
    open spec fn outcome_of(&self) -> Result<T, E> {
        *self
    }

    fn recover<F: FnOnce(E) -> Self>(self, recovery: F) -> (r: Self) {
        match self {
            Ok(value) => Ok(value),
            Err(error) => recovery(error),
        }
    }

    fn bimap_result<B, G, SuccessF: FnOnce(T) -> B, ErrorF: FnOnce(E) -> G>(
        self,
        success_f: SuccessF,
        error_f: ErrorF,
    ) -> (r: Result<B, G>) {
        match self {
            Ok(value) => Ok(success_f(value)),
            Err(error) => Err(error_f(error)),
        }
    }
}

/// Extension trait for adding context to `Result` errors.
pub trait ResultExt<T, E>: Sized {
    /// The result this value stands for.
    spec fn as_result(&self) -> Result<T, E>;

    /// Wraps the error in a boxed [`ComposableError`] carrying `msg`.
    fn ctx<C: IntoErrorContext>(self, msg: C) -> (r: Result<T, Box<ComposableError<E>>>)
        requires
            self.as_result() is Err ==> msg.convert_ready(),
        ensures
            match self.as_result() {
                Ok(t) => r == Ok::<T, Box<ComposableError<E>>>(t),
                Err(e) => r matches Err(c) && c.core_value() == e && c.code() == None::<u32>
                    && c.contexts().len() == 1 && msg.converts_to(c.contexts()[0]),
            },
    ;

    /// Like [`ctx`](Self::ctx), with the message produced by `f` only on error.
    fn ctx_with<F: FnOnce() -> String>(self, f: F) -> (r: Result<T, Box<ComposableError<E>>>)
        requires
            self.as_result() is Err ==> f.requires(()),
        ensures
            match self.as_result() {
                Ok(t) => r == Ok::<T, Box<ComposableError<E>>>(t),
                Err(e) => r matches Err(c) && c.core_value() == e && c.code() == None::<u32>
                    && c.contexts().len() == 1
                    && exists|s: String| #[trigger] f.ensures((), s) && c.contexts()[0] == ContextView::Simple(s@),
            },
    ;
}

impl<T, E> ResultExt<T, E> for Result<T, E> {
    open spec fn as_result(&self) -> Result<T, E> {
        *self
    }

    fn ctx<C: IntoErrorContext>(self, msg: C) -> (r: Result<T, Box<ComposableError<E>>>) {
        match self {
            Ok(t) => Ok(t),
            Err(e) => {
                let c = ComposableError::new(e).with_context(msg);
                Err(Box::new(c))
            },
        }
    }

    fn ctx_with<F: FnOnce() -> String>(self, f: F) -> (r: Result<T, Box<ComposableError<E>>>) {
        match self {
            Ok(t) => Ok(t),
            Err(e) => {
                let s = f();
                let c = ComposableError::new(e).with_context(s);
                Err(Box::new(c))
            },
        }
    }
}

/// Extension trait for adding context to already-boxed composable errors.
pub trait BoxedResultExt<T, E>: Sized {
    /// The result this value stands for.
    spec fn as_boxed(&self) -> Result<T, Box<ComposableError<E>>>;

    /// Adds `msg` to the boxed error; a success is kept.
    fn ctx_boxed<C: IntoErrorContext>(self, msg: C) -> (r: Self)
        requires
            self.as_boxed() is Err ==> msg.convert_ready(),
        ensures
            match self.as_boxed() {
                Ok(t) => r.as_boxed() == Ok::<T, Box<ComposableError<E>>>(t),
                Err(c) => r.as_boxed() matches Err(c2) && c2.core_value() == c.core_value() && c2.code() == c.code()
                    && c2.contexts().drop_last() == c.contexts() && c2.contexts().len() == c.contexts().len() + 1
                    && msg.converts_to(c2.contexts().last()),
            },
    ;

    /// Like [`ctx_boxed`](Self::ctx_boxed), with the message produced by `f` only on error.
    fn ctx_boxed_with<F: FnOnce() -> String>(self, f: F) -> (r: Self)
        requires
            self.as_boxed() is Err ==> f.requires(()),
        ensures
            match self.as_boxed() {
                Ok(t) => r.as_boxed() == Ok::<T, Box<ComposableError<E>>>(t),
                Err(c) => r.as_boxed() matches Err(c2) && c2.core_value() == c.core_value() && c2.code() == c.code()
                    && c2.contexts().drop_last() == c.contexts() && c2.contexts().len() == c.contexts().len() + 1
                    && exists|s: String| #[trigger] f.ensures((), s) && c2.contexts().last() == ContextView::Simple(s@),
            },
    ;
}

impl<T, E> BoxedResultExt<T, E> for Result<T, Box<ComposableError<E>>> {
    open spec fn as_boxed(&self) -> Result<T, Box<ComposableError<E>>> {
        *self
    }

    fn ctx_boxed<C: IntoErrorContext>(self, msg: C) -> (r: Self) {
        match self {
            Ok(t) => Ok(t),
            Err(e) => {
                let inner = *e;
                Err(Box::new(inner.with_context(msg)))
            },
        }
    }

    fn ctx_boxed_with<F: FnOnce() -> String>(self, f: F) -> (r: Self) {
        match self {
            Ok(t) => Ok(t),
            Err(e) => {
                let inner = *e;
                let s = f();
                Err(Box::new(inner.with_context(s)))
            },
        }
    }
}

/// Lifting values and errors into an error-handling container.
pub trait ErrorCategory<E, T> {
    type ErrorFunctor;

    /// Whether `r` holds `value` as a success.
    spec fn lifted(value: T, r: Self::ErrorFunctor) -> bool;

    /// Whether `r` holds `error` as its failure.
    spec fn failed_with(error: E, r: Self::ErrorFunctor) -> bool;

    /// Lifts a value into a success.
    fn lift(value: T) -> (r: Self::ErrorFunctor)
        ensures
            Self::lifted(value, r),
    ;

    /// Wraps an error into a failure.
    fn handle_error(error: E) -> (r: Self::ErrorFunctor)
        ensures
            Self::failed_with(error, r),
    ;
}

impl<E, T> ErrorCategory<E, T> for Result<(), E> {
    type ErrorFunctor = Result<T, E>;

    open spec fn lifted(value: T, r: Result<T, E>) -> bool {
        r == Ok::<T, E>(value)
    }

    open spec fn failed_with(error: E, r: Result<T, E>) -> bool {
        r == Err::<T, E>(error)
    }

    fn lift(value: T) -> (r: Result<T, E>) {
        Ok(value)
    }

    fn handle_error(error: E) -> (r: Result<T, E>) {
        Err(error)
    }
}

} // verus!
