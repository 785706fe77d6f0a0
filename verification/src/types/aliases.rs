//! Short names for the result and collection types used throughout.
use crate::types::composable_error::ComposableError;
use vstd::prelude::*;

verus! {

/// The collection errors are accumulated in.
pub type ErrorVec<E> = Vec<E>;

/// A result whose error is a [`ComposableError`].
pub type ComposableResult<T, E> = Result<T, ComposableError<E>>;

/// A boxed [`ComposableError`].
pub type BoxedComposableError<E> = Box<ComposableError<E>>;

/// A result whose error is a boxed [`ComposableError`].
pub type BoxedComposableResult<T, E> = Result<T, BoxedComposableError<E>>;

/// The result most functions of this library return.
pub type BoxedResult<T, E> = Result<T, Box<ComposableError<E>>>;

} // verus!
