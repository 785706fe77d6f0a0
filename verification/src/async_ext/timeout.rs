//! Reporting the outcome of a future run under a timeout.
use crate::text::{duration_debug, duration_debug_text, string_of};
use crate::types::composable_error::ComposableError;
use crate::types::error_context::ContextView;
use core::time::Duration;
use vstd::prelude::*;
use vstd::std_specs::convert::FromSpec;

verus! {

/// The outcome of an operation run under a timeout.
#[derive(Debug)]
pub enum TimeoutResult<T, E> {
    /// The operation succeeded in time
    Success(T),
    /// The operation failed in time
    Failure(Box<ComposableError<E>>),
    /// The operation did not finish within the duration
    Timeout(Duration),
}

/// The error recorded when an operation times out.
#[derive(Debug)]
pub struct TimeoutError(pub Duration);

impl Clone for TimeoutError {
    fn clone(&self) -> (r: Self)
        ensures
            r == *self,
    {
        TimeoutError(self.0)
    }
}

impl TimeoutError {
    /// `"operation timed out after <duration>"`, the duration in its `Debug` rendering.
    pub fn message(&self) -> (r: String)
        ensures
            r@ == seq!['o', 'p', 'e', 'r', 'a', 't', 'i', 'o', 'n', ' ', 't', 'i', 'm', 'e',
                'd', ' ', 'o', 'u', 't', ' ', 'a', 'f', 't', 'e', 'r', ' '] + duration_debug(self.0),
    {
        proof { reveal_strlit("operation timed out after "); }
        let mut s = string_of("operation timed out after ");
        let d = duration_debug_text(self.0);
        s.append(d.as_str());
        proof {
            let prefix = seq!['o', 'p', 'e', 'r', 'a', 't', 'i', 'o', 'n', ' ', 't', 'i', 'm', 'e',
                'd', ' ', 'o', 'u', 't', ' ', 'a', 'f', 't', 'e', 'r', ' '];
            assert("operation timed out after "@ =~= prefix);
            assert(s@ == prefix + d@);
        }
        s
    }
}

impl<T, E> TimeoutResult<T, E> {
    /// Whether the operation succeeded in time.
    pub fn is_ok(&self) -> (r: bool)
        ensures
            r == (*self is Success),
    {
        match self {
            TimeoutResult::Success(_) => true,
            _ => false,
        }
    }

    /// Whether the operation failed in time.
    pub fn is_err(&self) -> (r: bool)
        ensures
            r == (*self is Failure),
    {
        match self {
            TimeoutResult::Failure(_) => true,
            _ => false,
        }
    }

    /// Whether the operation timed out.
    pub fn is_timeout(&self) -> (r: bool)
        ensures
            r == (*self is Timeout),
    {
        match self {
            TimeoutResult::Timeout(_) => true,
            _ => false,
        }
    }

    /// The report for an operation given `duration`: `outcome` is its result
    /// when it finished in time, `None` when the time ran out.
    pub fn from_outcome(duration: Duration, outcome: Option<Result<T, E>>) -> (r: Self)
        ensures
            match outcome {
                Some(Ok(t)) => r == TimeoutResult::<T, E>::Success(t),
                Some(Err(e)) => r matches TimeoutResult::Failure(c) && c.core_value() == e
                    && c.contexts() == Seq::<ContextView>::empty() && c.code() == None::<u32>,
                None => r == TimeoutResult::<T, E>::Timeout(duration),
            },
    {
        match outcome {
            Some(Ok(value)) => TimeoutResult::Success(value),
            Some(Err(e)) => TimeoutResult::Failure(Box::new(ComposableError::new(e))),
            None => TimeoutResult::Timeout(duration),
        }
    }

    /// Converts into a result; a timeout becomes a composable error around the
    /// error converted from the [`TimeoutError`].
    pub fn into_result(self) -> (r: Result<T, Box<ComposableError<E>>>)
        where
            E: From<TimeoutError>,
        ensures
            match self {
                TimeoutResult::Success(t) => r == Ok::<T, Box<ComposableError<E>>>(t),
                TimeoutResult::Failure(c) => r == Err::<T, Box<ComposableError<E>>>(c),
                TimeoutResult::Timeout(d) => r matches Err(c)
                    && (E::obeys_from_spec() ==> c.core_value() == E::from_spec(TimeoutError(d)))
                    && c.contexts() == Seq::<ContextView>::empty() && c.code() == None::<u32>,
            },
    {
        match self {
            TimeoutResult::Success(v) => Ok(v),
            TimeoutResult::Failure(e) => Err(e),
            TimeoutResult::Timeout(d) => Err(Box::new(ComposableError::new(E::from(TimeoutError(d))))),
        }
    }
}

} // verus!
