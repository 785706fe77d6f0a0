//! The accumulation behind running several validations one after another.
use crate::validation::model::{errors_of, Validation};
use vstd::prelude::*;

verus! {

/// All errors of the validations seen, in order.
pub open spec fn all_errors<E, T>(vs: Seq<Validation<E, T>>) -> Seq<E>
    decreases vs.len(),
{
    if vs.len() == 0 { Seq::empty() } else { all_errors(vs.drop_last()) + errors_of(vs.last()) }
}

/// The values of the valid validations seen before the first error.
pub open spec fn leading_values<E, T>(vs: Seq<Validation<E, T>>) -> Seq<T>
    decreases vs.len(),
{
    if vs.len() == 0 {
        Seq::empty()
    } else {
        let prev = leading_values(vs.drop_last());
        match vs.last() {
            Validation::Valid(t) => if all_errors(vs.drop_last()).len() == 0 { prev.push(t) } else { prev },
            Validation::Invalid(_) => prev,
        }
    }
}

/// The values a collector holds after recording `v`, given the values and
/// errors it held before.
pub open spec fn values_after<E, T>(values: Seq<T>, errors: Seq<E>, v: Validation<E, T>) -> Seq<T> {
    match v {
        Validation::Valid(t) => if errors.len() == 0 { values.push(t) } else { values },
        Validation::Invalid(_) => values,
    }
}

/// The errors a collector holds after recording `v`, given the errors it
/// held before.
pub open spec fn errors_after<E, T>(errors: Seq<E>, v: Validation<E, T>) -> Seq<E> {
    errors + errors_of(v)
}

/// A collector that recorded `vs`, in order, from empty holds every error of
/// every validation, in order, and the values of the validations before the
/// first error; each further recording keeps that so.
pub proof fn lemma_collector_keeps_every_error<E, T>(vs: Seq<Validation<E, T>>, v: Validation<E, T>)
    ensures
        all_errors(Seq::<Validation<E, T>>::empty()) == Seq::<E>::empty(),
        leading_values(Seq::<Validation<E, T>>::empty()) == Seq::<T>::empty(),
        errors_after(all_errors(vs), v) == all_errors(vs.push(v)),
        values_after(leading_values(vs), all_errors(vs), v) == leading_values(vs.push(v)),
{
    assert(vs.push(v).drop_last() =~= vs);
}

/// Collects the outcomes of several validations: the values while no error
/// has been seen, and every error.
pub struct ValidationCollector<T, E> {
    values: Vec<T>,
    errors: Vec<E>,
}

impl<T, E> ValidationCollector<T, E> {
    /// The values collected.
    pub closed spec fn values_seen(&self) -> Seq<T> {
        self.values@
    }

    /// The errors collected.
    pub closed spec fn errors_seen(&self) -> Seq<E> {
        self.errors@
    }

    /// An empty collector.
    pub fn new() -> (r: Self)
        ensures
            r.values_seen() == Seq::<T>::empty(),
            r.errors_seen() == Seq::<E>::empty(),
    {
        ValidationCollector { values: Vec::new(), errors: Vec::new() }
    }

    /// Records one validation: its value while no error has been seen, its errors always.
    pub fn push(&mut self, v: Validation<E, T>)
        ensures
            final(self).errors_seen() == errors_after(old(self).errors_seen(), v),
            final(self).values_seen() == values_after(old(self).values_seen(), old(self).errors_seen(), v),
    {
        match v {
            Validation::Valid(t) => {
                if self.errors.len() == 0 {
                    self.values.push(t);
                }
                assert(self.errors@ =~= old(self).errors_seen() + Seq::<E>::empty());
            },
            Validation::Invalid(errs) => {
                let mut errs = errs;
                self.errors.append(&mut errs);
            },
        }
    }

    /// Valid with all values when no error was seen, otherwise invalid with all errors.
    pub fn finish(self) -> (r: Validation<E, Vec<T>>)
        ensures
            self.errors_seen().len() == 0 ==> (r matches Validation::Valid(vs) && vs@ == self.values_seen()),
            self.errors_seen().len() > 0 ==> (r matches Validation::Invalid(es) && es@ == self.errors_seen()),
    {
        if self.errors.len() == 0 {
            Validation::Valid(self.values)
        } else {
            Validation::invalid_many(self.errors)
        }
    }
}

/// One step of a sequence of validators: the value to continue with, or the
/// invalid validation that ends the sequence.
pub fn validation_step<E, T>(v: Validation<E, T>) -> (r: Result<T, Validation<E, T>>)
    ensures
        match v {
            Validation::Valid(t) => r == Ok::<T, Validation<E, T>>(t),
            Validation::Invalid(_) => r == Err::<T, Validation<E, T>>(v),
        },
{
    match v {
        Validation::Valid(t) => Ok(t),
        invalid => Err(invalid),
    }
}

} // verus!
