//! Conversions between `Result`, [`Validation`] and [`ComposableError`].
use crate::types::composable_error::ComposableError;
use crate::types::error_context::ContextView;
use crate::validation::model::{errors_of, Validation};
use vstd::prelude::*;

verus! {

/// Converts a validation into a `Result`, keeping the first error.
pub fn validation_to_result<T, E>(validation: Validation<E, T>) -> (r: Result<T, E>)
    requires
        validation is Invalid ==> errors_of(validation).len() > 0,
    ensures
        match validation {
            Validation::Valid(t) => r == Ok::<T, E>(t),
            Validation::Invalid(es) => r == Err::<T, E>(es@[0]),
        },
{
    match validation {
        Validation::Valid(value) => Ok(value),
        Validation::Invalid(errors) => {
            let mut errors = errors;
            Err(errors.remove(0))
        },
    }
}

/// Converts a `Result` into a validation with at most one error.
pub fn result_to_validation<T, E>(result: Result<T, E>) -> (r: Validation<E, T>)
    ensures
        match result {
            Ok(t) => r == Validation::<E, T>::Valid(t),
            Err(e) => r matches Validation::Invalid(es) && es@ == seq![e],
        },
{
    match result {
        Ok(value) => Validation::Valid(value),
        Err(error) => Validation::invalid(error),
    }
}

/// Extracts the core error, discarding contexts and code.
pub fn composable_to_core<E>(composable: ComposableError<E>) -> (r: E)
    ensures
        r == composable.core_value(),
{
    composable.into_core()
}

/// Wraps a core error with no context and no code.
pub fn core_to_composable<E>(error: E) -> (r: ComposableError<E>)
    ensures
        r.core_value() == error,
        r.contexts() == Seq::<ContextView>::empty(),
        r.code() == None::<u32>,
{
    ComposableError::new(error)
}

/// Strips contexts and code from the error of a result.
pub fn flatten_composable_result<T, E>(result: Result<T, ComposableError<E>>) -> (r: Result<T, E>)
    ensures
        match result {
            Ok(t) => r == Ok::<T, E>(t),
            Err(c) => r == Err::<T, E>(c.core_value()),
        },
{
    match result {
        Ok(t) => Ok(t),
        Err(c) => Err(composable_to_core(c)),
    }
}

/// Wraps the error of a result into a composable error with no context.
pub fn wrap_in_composable_result<T, E>(result: Result<T, E>) -> (r: Result<T, ComposableError<E>>)
    ensures
        match result {
            Ok(t) => r == Ok::<T, ComposableError<E>>(t),
            Err(e) => r matches Err(c) && c.core_value() == e && c.contexts() == Seq::<ContextView>::empty()
                && c.code() == None::<u32>,
        },
{
    match result {
        Ok(t) => Ok(t),
        Err(e) => Err(core_to_composable(e)),
    }
}

/// Like [`wrap_in_composable_result`], boxing the error.
pub fn wrap_in_composable_result_boxed<T, E>(result: Result<T, E>) -> (r: Result<T, Box<ComposableError<E>>>)
    ensures
        match result {
            Ok(t) => r == Ok::<T, Box<ComposableError<E>>>(t),
            Err(e) => r matches Err(c) && c.core_value() == e && c.contexts() == Seq::<ContextView>::empty()
                && c.code() == None::<u32>,
        },
{
    match result {
        Ok(t) => Ok(t),
        Err(e) => Err(Box::new(core_to_composable(e))),
    }
}

/// Valid when there are no errors, otherwise invalid with all of them.
pub fn collect_errors<E>(errors: Vec<E>) -> (r: Validation<E, ()>)
    ensures
        errors@.len() == 0 ==> r == Validation::<E, ()>::Valid(()),
        errors@.len() > 0 ==> (r matches Validation::Invalid(es) && es@ == errors@),
{
    if errors.len() == 0 {
        Validation::Valid(())
    } else {
        Validation::invalid_many(errors)
    }
}

/// The results a validation splits into: `Ok(value)`, or one `Err` per error.
pub enum SplitValidationIter<T, E> {
    Valid(Option<T>),
    /// The errors still to come, last one first.
    Invalid(Vec<E>),
}

impl<T, E> SplitValidationIter<T, E> {
    /// The results still to be yielded, in order.
    pub open spec fn remaining(&self) -> Seq<Result<T, E>> {
        match self {
            SplitValidationIter::Valid(Some(t)) => seq![Ok(*t)],
            SplitValidationIter::Valid(None) => Seq::empty(),
            SplitValidationIter::Invalid(rest) => rest@.reverse().map_values(|e: E| Err(e)),
        }
    }

    /// Yields the next result, if any.
    pub fn next(&mut self) -> (r: Option<Result<T, E>>)
        ensures
            old(self).remaining().len() == 0 ==> r is None && final(self).remaining() == old(self).remaining(),
            old(self).remaining().len() > 0 ==> r == Some(old(self).remaining()[0])
                && final(self).remaining() == old(self).remaining().drop_first(),
    {
        match self {
            SplitValidationIter::Valid(opt) => {
                match opt.take() {
                    Some(t) => {
                        assert(Seq::<Result<T, E>>::empty() =~= seq![Ok::<T, E>(t)].drop_first());
                        Some(Ok(t))
                    },
                    None => None,
                }
            },
            SplitValidationIter::Invalid(rest) => {
                let ghost before = rest@;
                match rest.pop() {
                    Some(e) => {
                        assert(before =~= rest@.push(e));
                        assert(before.reverse() =~= seq![e] + rest@.reverse());
                        assert(before.reverse().map_values(|e: E| Err::<T, E>(e)).drop_first()
                            =~= rest@.reverse().map_values(|e: E| Err::<T, E>(e)));
                        Some(Err(e))
                    },
                    None => {
                        assert(before.reverse() =~= Seq::<E>::empty());
                        None
                    },
                }
            },
        }
    }

    /// Lower and upper bound of the number of results still to come (both exact).
    pub fn size_hint(&self) -> (r: (usize, Option<usize>))
        ensures
            r.0 == self.remaining().len(),
            r.1 == Some(r.0),
    {
        match self {
            SplitValidationIter::Valid(opt) => {
                let len: usize = if opt.is_some() { 1 } else { 0 };
                (len, Some(len))
            },
            SplitValidationIter::Invalid(rest) => (rest.len(), Some(rest.len())),
        }
    }
}

/// Splits a validation into `Ok(value)`, or one `Err` per error in order.
pub fn split_validation_errors<T, E>(validation: Validation<E, T>) -> (r: SplitValidationIter<T, E>)
    ensures
        match validation {
            Validation::Valid(t) => r.remaining() == seq![Ok::<T, E>(t)],
            Validation::Invalid(es) => r.remaining() == es@.map_values(|e: E| Err::<T, E>(e)),
        },
{
    match validation {
        Validation::Valid(value) => {
            let r = SplitValidationIter::Valid(Some(value));
            assert(r.remaining() =~= seq![Ok::<T, E>(value)]);
            r
        },
        Validation::Invalid(errors) => {
            let ghost orig = errors@;
            let mut errors = errors;
            let mut rev: Vec<E> = Vec::new();
            while errors.len() > 0
                invariant
                    orig == errors@ + rev@.reverse(),
                decreases errors@.len(),
            {
                let ghost before = errors@;
                let ghost rev_before = rev@;
                let x = errors.pop().unwrap();
                rev.push(x);
                assert(before =~= errors@.push(x));
                assert(rev@.reverse() =~= seq![x] + rev_before.reverse());
                assert(orig =~= errors@ + rev@.reverse());
            }
            assert(orig =~= rev@.reverse());
            let r = SplitValidationIter::Invalid(rev);
            assert(r.remaining() =~= orig.map_values(|e: E| Err::<T, E>(e)));
            r
        },
    }
}

} // verus!
