//! The bookkeeping of a retry loop: how many attempts were made and how long
//! was spent waiting between them.
use crate::async_ext::retry::RetryResult;
use crate::types::composable_error::ComposableError;
use core::time::Duration;
use vstd::prelude::*;

verus! {

/// Nanoseconds in a second.
pub const NANOS_PER_SEC: u32 = 1_000_000_000u32;

/// The whole seconds `Duration::as_secs` reports for `d`.
pub uninterp spec fn duration_secs_of(d: Duration) -> u64;

/// The nanoseconds past the whole seconds `Duration::subsec_nanos` reports for `d`.
pub uninterp spec fn duration_subsec_of(d: Duration) -> u32;

/// The length of `d` in nanoseconds.
pub open spec fn duration_nanos(d: Duration) -> int {
    duration_secs_of(d) * NANOS_PER_SEC + duration_subsec_of(d)
}

/// `Duration::as_secs`. Trusted: the result is [`duration_secs_of`] of `d`.
#[verifier::external_body]
fn duration_as_secs(d: Duration) -> (r: u64)
    ensures
        r == duration_secs_of(d),
{
    d.as_secs()
}

/// `Duration::subsec_nanos`. Trusted: the result is [`duration_subsec_of`]
/// of `d`, which the documentation says is always under one billion.
#[verifier::external_body]
fn duration_subsec_nanos(d: Duration) -> (r: u32)
    ensures
        r == duration_subsec_of(d),
        r < NANOS_PER_SEC,
{
    d.subsec_nanos()
}

/// `Duration::new`. Trusted: with fewer than a billion nanoseconds there is
/// no carry, so the duration reports back `secs` and `nanos`.
#[verifier::external_body]
fn duration_new(secs: u64, nanos: u32) -> (r: Duration)
    requires
        nanos < NANOS_PER_SEC,
    ensures
        duration_secs_of(r) == secs,
        duration_subsec_of(r) == nanos,
{
    Duration::new(secs, nanos)
}

/// The attempt being made and the time waited so far.
pub struct RetryTally {
    attempt: u32,
    wait_secs: u64,
    wait_nanos: u32,
}

impl RetryTally {
    #[verifier::type_invariant]
    spec fn nanos_below_a_second(self) -> bool {
        self.wait_nanos < NANOS_PER_SEC
    }

    /// The zero-based number of the attempt being made.
    pub closed spec fn attempt_number(self) -> u32 {
        self.attempt
    }

    /// The time waited so far, in nanoseconds.
    pub closed spec fn waited(self) -> int {
        self.wait_secs * NANOS_PER_SEC + self.wait_nanos
    }

    /// Before the first attempt: attempt 0, nothing waited.
    pub fn new() -> (r: Self)
        ensures
            r.attempt_number() == 0,
            r.waited() == 0,
    {
        RetryTally { attempt: 0, wait_secs: 0, wait_nanos: 0 }
    }

    /// The zero-based number of the attempt being made.
    pub fn attempt(&self) -> (r: u32)
        ensures
            r == self.attempt_number(),
    {
        self.attempt
    }

    /// Whether waiting `delay` more keeps the total waited within what a
    /// `Duration` holds.
    pub fn can_wait(&self, delay: Duration) -> (r: bool)
        ensures
            r == (self.waited() + duration_nanos(delay) < (u64::MAX + 1) * NANOS_PER_SEC),
    {
        proof { use_type_invariant(self); }
        let ds = duration_as_secs(delay);
        let dn = duration_subsec_nanos(delay);
        let carry: u64 = if self.wait_nanos + dn >= NANOS_PER_SEC { 1 } else { 0 };
        assert(self.waited() + duration_nanos(delay)
            == (self.wait_secs + ds + carry) * NANOS_PER_SEC + (self.wait_nanos + dn - carry * NANOS_PER_SEC))
            by (nonlinear_arith)
            requires
                self.waited() == self.wait_secs * NANOS_PER_SEC + self.wait_nanos,
                duration_nanos(delay) == ds * NANOS_PER_SEC + dn,
        ;
        if self.wait_secs > u64::MAX - ds {
            assert(self.waited() + duration_nanos(delay) >= (u64::MAX + 1) * NANOS_PER_SEC) by (nonlinear_arith)
                requires
                    self.wait_secs + ds >= u64::MAX + 1,
                    self.waited() + duration_nanos(delay) >= (self.wait_secs + ds) * NANOS_PER_SEC,
            ;
            false
        } else if self.wait_secs + ds > u64::MAX - carry {
            assert(self.waited() + duration_nanos(delay) >= (u64::MAX + 1) * NANOS_PER_SEC) by (nonlinear_arith)
                requires
                    self.wait_secs + ds + carry >= u64::MAX + 1,
                    self.waited() + duration_nanos(delay) >= (self.wait_secs + ds + carry) * NANOS_PER_SEC,
            ;
            false
        } else {
            assert(self.waited() + duration_nanos(delay) < (u64::MAX + 1) * NANOS_PER_SEC) by (nonlinear_arith)
                requires
                    self.wait_secs + ds + carry <= u64::MAX,
                    self.waited() + duration_nanos(delay) < (self.wait_secs + ds + carry + 1) * NANOS_PER_SEC,
            ;
            true
        }
    }

    /// Records a wait of `delay` before the next attempt.
    pub fn record_wait(&mut self, delay: Duration)
        requires
            old(self).attempt_number() < u32::MAX,
            old(self).waited() + duration_nanos(delay) < (u64::MAX + 1) * NANOS_PER_SEC,
        ensures
            final(self).attempt_number() == old(self).attempt_number() + 1,
            final(self).waited() == old(self).waited() + duration_nanos(delay),
    {
        proof { use_type_invariant(&*self); }
        let ds = duration_as_secs(delay);
        let dn = duration_subsec_nanos(delay);
        let carry: u64 = if self.wait_nanos + dn >= NANOS_PER_SEC { 1 } else { 0 };
        let nanos: u32 = (self.wait_nanos + dn - (carry as u32) * NANOS_PER_SEC) as u32;
        assert(self.waited() + duration_nanos(delay)
            == (self.wait_secs + ds + carry) * NANOS_PER_SEC + nanos)
            by (nonlinear_arith)
            requires
                self.waited() == self.wait_secs * NANOS_PER_SEC + self.wait_nanos,
                duration_nanos(delay) == ds * NANOS_PER_SEC + dn,
                nanos == self.wait_nanos + dn - carry * NANOS_PER_SEC,
        ;
        assert(self.wait_secs + ds + carry <= u64::MAX) by (nonlinear_arith)
            requires
                self.waited() + duration_nanos(delay) == (self.wait_secs + ds + carry) * NANOS_PER_SEC + nanos,
                nanos >= 0,
                self.waited() + duration_nanos(delay) < (u64::MAX + 1) * NANOS_PER_SEC,
        ;
        let secs = self.wait_secs + ds + carry;
        *self = RetryTally { attempt: self.attempt + 1, wait_secs: secs, wait_nanos: nanos };
    }

    /// The time waited so far.
    pub fn total_wait(&self) -> (r: Duration)
        ensures
            duration_nanos(r) == self.waited(),
    {
        proof { use_type_invariant(self); }
        duration_new(self.wait_secs, self.wait_nanos)
    }

    /// The outcome of the loop: `result`, the number of attempts made (one
    /// more than the number of the last attempt), and the time waited.
    pub fn finish<T, E>(self, result: Result<T, ComposableError<E>>) -> (r: RetryResult<T, E>)
        requires
            self.attempt_number() < u32::MAX,
        ensures
            r.result == result,
            r.attempts == self.attempt_number() + 1,
            duration_nanos(r.total_wait_time) == self.waited(),
    {
        let total_wait_time = self.total_wait();
        RetryResult { result, attempts: self.attempt + 1, total_wait_time }
    }
}

} // verus!
