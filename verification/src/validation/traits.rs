//! Error-handling trait implementations for [`Validation`].
use crate::traits::{ErrorCategory, FmapError, WithError};
use crate::validation::model::{errors_of, map_vec, Validation};
use vstd::prelude::*;

verus! {

impl<E, T> ErrorCategory<E, T> for Validation<E, ()> {
    type ErrorFunctor = Validation<E, T>;

    open spec fn lifted(value: T, r: Validation<E, T>) -> bool {
        r == Validation::<E, T>::Valid(value)
    }

    open spec fn failed_with(error: E, r: Validation<E, T>) -> bool {
        r matches Validation::Invalid(es) && es@ == seq![error]
    }

    /// Lifts a value into a valid validation.
    fn lift(value: T) -> (r: Validation<E, T>) {
        Validation::Valid(value)
    }

    /// Wraps an error into an invalid validation with that single error.
    fn handle_error(error: E) -> (r: Validation<E, T>) {
        Validation::invalid(error)
    }
}

impl<T, E> WithError<E> for Validation<E, T> {
    type Success = T;

    open spec fn first_ready(&self) -> bool {
        *self is Invalid ==> errors_of(*self).len() > 0
    }

    open spec fn first_result(&self) -> Result<T, E> {
        match *self {
            Validation::Valid(t) => Ok(t),
            Validation::Invalid(es) => Err(es@[0]),
        }
    }

    open spec fn all_result(&self, r: Result<T, Vec<E>>) -> bool {
        match *self {
            Validation::Valid(t) => r == Ok::<T, Vec<E>>(t),
            Validation::Invalid(es) => r == Err::<T, Vec<E>>(es),
        }
    }

    /// Converts into a `Result`, keeping only the first error.
    fn to_result_first(self) -> (r: Result<T, E>) {
        match self {
            Validation::Valid(t) => Ok(t),
            Validation::Invalid(e) => {
                let mut e = e;
                Err(e.remove(0))
            },
        }
    }

    /// Converts into a `Result`, keeping all errors.
    fn to_result_all(self) -> (r: Result<T, Vec<E>>) {
        match self {
            Validation::Valid(t) => Ok(t),
            Validation::Invalid(e) => Err(e),
        }
    }
}

impl<T, E, G, F: Fn(E) -> G> FmapError<E, G, F> for Validation<E, T> {
    type ErrorOutput = Validation<G, T>;

    open spec fn fmap_ready(&self, f: F) -> bool {
        forall|i: int| 0 <= i < errors_of(*self).len() ==> f.requires((#[trigger] errors_of(*self)[i],))
    }

    open spec fn fmap_result(&self, f: F, out: Validation<G, T>) -> bool {
        match *self {
            Validation::Valid(t) => out == Validation::<G, T>::Valid(t),
            Validation::Invalid(es) => out matches Validation::Invalid(gs) && gs@.len() == es@.len()
                && forall|i: int| 0 <= i < es@.len() ==> f.ensures((es@[i],), #[trigger] gs@[i]),
        }
    }

    /// Maps every error with `f`, keeping all of them.
    fn fmap_error(self, f: F) -> (r: Validation<G, T>) {
        match self {
            Validation::Valid(t) => Validation::Valid(t),
            Validation::Invalid(e) => {
                assert(errors_of(self) == e@);
                Validation::Invalid(map_vec(e, f))
            },
        }
    }
}

} // verus!
