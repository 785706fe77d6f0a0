//! Retry policies and the decision taken after each attempt.
//!
//! A retry loop runs an operation; after each failed attempt [`retry_step`]
//! decides whether to give up (permanent error, or the policy allows no more
//! attempts) or to wait for the delay the policy gives and try again.
use crate::text::{decimal, string_of, u32_to_decimal};
use crate::traits::TransientError;
use crate::types::composable_error::ComposableError;
use crate::types::error_context::{ContextView, ErrorContext};
use core::time::Duration;
use vstd::prelude::*;

verus! {

/// A policy deciding how long to wait before each retry, and when to stop.
///
/// `allows(attempt, delay)` says which answers `next_delay` may give for a
/// zero-based attempt number; a policy that does not say allows any.
pub trait RetryPolicy: Clone {
    open spec fn allows(&self, attempt: u32, delay: Option<Duration>) -> bool {
        true
    }

    /// The delay before the next attempt, or `None` to stop.
    fn next_delay(&mut self, attempt: u32) -> (r: Option<Duration>)
        ensures
            old(self).allows(attempt, r),
    ;

    /// Resets any internal state before a new retry sequence.
    fn reset(&mut self) {
    }
}

/// A constant delay between attempts, up to a maximum number of retries.
#[derive(Clone, Copy, Debug)]
pub struct FixedDelay {
    pub delay: Duration,
    pub max_attempts: u32,
}

impl FixedDelay {
    /// A policy waiting `delay` before each retry, at most `max_attempts` times.
    pub fn new(delay: Duration, max_attempts: u32) -> (r: Self)
        ensures
            r.delay == delay,
            r.max_attempts == max_attempts,
    {
        FixedDelay { delay, max_attempts }
    }
}

impl RetryPolicy for FixedDelay {
    open spec fn allows(&self, attempt: u32, delay: Option<Duration>) -> bool {
        delay == if attempt >= self.max_attempts { None } else { Some(self.delay) }
    }

    /// `None` once `attempt` reaches the maximum, the fixed delay before that.
    fn next_delay(&mut self, attempt: u32) -> (r: Option<Duration>) {
        if attempt >= self.max_attempts {
            None
        } else {
            Some(self.delay)
        }
    }
}

/// A fixed-delay policy allows exactly one answer for attempt `a`: the
/// delay while `a` is below the maximum number of attempts, and stopping
/// from then on.
pub proof fn lemma_fixed_delay_answers(p: FixedDelay, a: u32, answer: Option<Duration>)
    ensures
        a < p.max_attempts ==> (p.allows(a, answer) <==> answer == Some(p.delay)),
        a >= p.max_attempts ==> (p.allows(a, answer) <==> answer is None),
{
}

/// What to do after an attempt.
pub enum RetryStep<T, E> {
    /// The loop ends with this result.
    Done(Result<T, ComposableError<E>>),
    /// Sleep for `delay`, then make attempt number `next_attempt`.
    Wait { delay: Duration, next_attempt: u32 },
}

/// `"permanent error, no retry"`
pub open spec fn permanent_text() -> Seq<char> {
    seq!['p', 'e', 'r', 'm', 'a', 'n', 'e', 'n', 't', ' ', 'e', 'r', 'r', 'o', 'r', ',', ' ', 'n', 'o', ' ', 'r',
        'e', 't', 'r', 'y']
}

/// `"exhausted after N attempts"`
pub open spec fn exhausted_text(attempts: nat) -> Seq<char> {
    seq!['e', 'x', 'h', 'a', 'u', 's', 't', 'e', 'd', ' ', 'a', 'f', 't', 'e', 'r', ' '] + decimal(attempts)
        + seq![' ', 'a', 't', 't', 'e', 'm', 'p', 't', 's']
}

/// Whether `c` is the error `e` with the single simple context `text`.
pub open spec fn failed_with_context<E>(c: ComposableError<E>, e: E, text: Seq<char>) -> bool {
    c.core_value() == e && c.code() == None::<u32> && c.contexts() == seq![ContextView::Simple(text)]
}

/// The decision after attempt number `attempt` (zero-based) ended with `outcome`.
///
/// A success ends the loop with it. A permanent error ends the loop with the
/// error and the context `permanent error, no retry`. A transient error asks
/// the policy: with a delay the loop waits and makes the next attempt; without
/// one it ends with the error and the context `exhausted after N attempts`,
/// `N` being `attempt + 1`.
pub fn retry_step<T, E: TransientError, P: RetryPolicy>(policy: &mut P, attempt: u32, outcome: Result<T, E>) -> (r: RetryStep<T, E>)
    requires
        attempt < u32::MAX,
        outcome matches Err(e) ==> e.classify_ready(),
    ensures
        match outcome {
            Ok(t) => r matches RetryStep::Done(res) && res == Ok::<T, ComposableError<E>>(t) && *final(policy) == *old(policy),
            Err(e) => {
                ||| {
                    &&& e.transient_outcome(false)
                    &&& *final(policy) == *old(policy)
                    &&& r matches RetryStep::Done(res) && res matches Err(c)
                        && failed_with_context(c, e, permanent_text())
                }
                ||| {
                    &&& e.transient_outcome(true)
                    &&& r matches RetryStep::Wait { delay, next_attempt }
                        && old(policy).allows(attempt, Some(delay)) && next_attempt == attempt + 1
                }
                ||| {
                    &&& e.transient_outcome(true)
                    &&& old(policy).allows(attempt, None)
                    &&& r matches RetryStep::Done(res) && res matches Err(c)
                        && failed_with_context(c, e, exhausted_text((attempt + 1) as nat))
                }
            },
        },
{
    match outcome {
        Ok(value) => RetryStep::Done(Ok(value)),
        Err(e) => {
            if !e.is_transient() {
                proof { reveal_strlit("permanent error, no retry"); }
                let text = string_of("permanent error, no retry");
                assert(text@ =~= permanent_text());
                let c = ComposableError::new(e).with_context(text);
                assert(c.contexts() =~= seq![ContextView::Simple(permanent_text())]);
                return RetryStep::Done(Err(c));
            }
            match policy.next_delay(attempt) {
                Some(delay) => RetryStep::Wait { delay, next_attempt: attempt + 1 },
                None => {
                    proof { reveal_strlit("exhausted after "); reveal_strlit(" attempts"); }
                    let mut text = string_of("exhausted after ");
                    let n = u32_to_decimal(attempt + 1);
                    text.append(n.as_str());
                    text.append(" attempts");
                    assert(text@ =~= exhausted_text((attempt + 1) as nat));
                    let c = ComposableError::new(e).with_context(text);
                    assert(c.contexts() =~= seq![ContextView::Simple(exhausted_text((attempt + 1) as nat))]);
                    RetryStep::Done(Err(c))
                },
            }
        },
    }
}

/// The outcome of a retry loop, with how many attempts it made and how long
/// it waited in total.
#[derive(Debug)]
pub struct RetryResult<T, E> {
    /// The final result
    pub result: Result<T, ComposableError<E>>,
    /// Number of attempts made (at least one)
    pub attempts: u32,
    /// Total time spent waiting between attempts
    pub total_wait_time: Duration,
}

impl<T, E> RetryResult<T, E> {
    /// Whether the loop ended in success.
    pub fn is_ok(&self) -> (r: bool)
        ensures
            r == (self.result is Ok),
    {
        self.result.is_ok()
    }

    /// Whether the loop ended in failure.
    pub fn is_err(&self) -> (r: bool)
        ensures
            r == (self.result is Err),
    {
        self.result.is_err()
    }

    /// Whether more than one attempt was made.
    pub fn had_retries(&self) -> (r: bool)
        ensures
            r == (self.attempts > 1),
    {
        self.attempts > 1
    }
}

} // verus!
