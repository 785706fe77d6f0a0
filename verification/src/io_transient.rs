//! Which I/O errors are worth retrying: those from a refused, reset or
//! aborted connection, a timeout, an interruption, or an operation that
//! would block.
use crate::traits::TransientError;
use std::io::ErrorKind;
use vstd::prelude::*;

verus! {

/// `std::io::Error`, carried through opaquely.
#[verifier::external_type_specification]
#[verifier::external_body]
pub struct ExIoError(std::io::Error);

/// `std::io::ErrorKind`, with its variants.
#[verifier::external_type_specification]
pub struct ExIoErrorKind(ErrorKind);

/// The kind `std::io::Error::kind` reports for `e`.
pub uninterp spec fn io_error_kind_of(e: std::io::Error) -> ErrorKind;

/// `std::io::Error::kind`. Trusted: the kind is claimed to be
/// [`io_error_kind_of`] of `e`, a function of `e` alone.
#[verifier::external_body]
fn io_error_kind(e: &std::io::Error) -> (k: ErrorKind)
    ensures
        k == io_error_kind_of(*e),
{
    e.kind()
}

/// Whether an error of kind `k` may succeed on retry: a refused, reset or
/// aborted connection, a timeout, an interruption, or an operation that
/// would block.
pub open spec fn io_kind_is_transient(k: ErrorKind) -> bool {
    ||| k is ConnectionRefused
    ||| k is ConnectionReset
    ||| k is ConnectionAborted
    ||| k is TimedOut
    ||| k is Interrupted
    ||| k is WouldBlock
}

/// Whether an error of kind `k` may succeed on retry.
pub fn io_kind_transient(k: ErrorKind) -> (r: bool)
    ensures
        r == io_kind_is_transient(k),
{
    match k {
        ErrorKind::ConnectionRefused => true,
        ErrorKind::ConnectionReset => true,
        ErrorKind::ConnectionAborted => true,
        ErrorKind::TimedOut => true,
        ErrorKind::Interrupted => true,
        ErrorKind::WouldBlock => true,
        _ => false,
    }
}

impl TransientError for std::io::Error {
    open spec fn transient_outcome(&self, answer: bool) -> bool {
        answer == io_kind_is_transient(io_error_kind_of(*self))
    }

    /// Transient for refused, reset or aborted connections, timeouts,
    /// interruptions and operations that would block.
    fn is_transient(&self) -> (r: bool) {
        io_kind_transient(io_error_kind(self))
    }
}

/// An I/O error is transient exactly when its kind is a refused, reset or
/// aborted connection, a timeout, an interruption, or an operation that
/// would block: `is_transient` answers `true` for those kinds and `false`
/// for every other kind.
pub proof fn lemma_io_transient_kinds(e: std::io::Error, answer: bool)
    ensures
        e.transient_outcome(answer) <==> answer == (
            io_error_kind_of(e) == ErrorKind::ConnectionRefused
            || io_error_kind_of(e) == ErrorKind::ConnectionReset
            || io_error_kind_of(e) == ErrorKind::ConnectionAborted
            || io_error_kind_of(e) == ErrorKind::TimedOut
            || io_error_kind_of(e) == ErrorKind::Interrupted
            || io_error_kind_of(e) == ErrorKind::WouldBlock),
{
}

/// The kinds worth retrying, and some that are not.
pub proof fn lemma_io_kind_examples()
    ensures
        io_kind_is_transient(ErrorKind::ConnectionRefused),
        io_kind_is_transient(ErrorKind::ConnectionReset),
        io_kind_is_transient(ErrorKind::ConnectionAborted),
        io_kind_is_transient(ErrorKind::TimedOut),
        io_kind_is_transient(ErrorKind::Interrupted),
        io_kind_is_transient(ErrorKind::WouldBlock),
        !io_kind_is_transient(ErrorKind::NotFound),
        !io_kind_is_transient(ErrorKind::PermissionDenied),
        !io_kind_is_transient(ErrorKind::BrokenPipe),
        !io_kind_is_transient(ErrorKind::InvalidInput),
        !io_kind_is_transient(ErrorKind::Other),
{
}

} // verus!
