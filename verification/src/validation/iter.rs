//! Iteration over the value or the errors of a validation.
use crate::validation::model::Validation;
use vstd::prelude::*;

verus! {

/// Borrowing iterator over the valid value (zero or one item).
pub struct Iter<'a, A> {
    inner: Option<&'a A>,
}

impl<'a, A> Iter<'a, A> {
    /// The item still to be yielded, if any.
    pub closed spec fn remaining(&self) -> Option<&'a A> {
        self.inner
    }

    /// Yields the value once, then `None`.
    pub fn next(&mut self) -> (r: Option<&'a A>)
        ensures
            r == old(self).remaining(),
            final(self).remaining() is None,
    {
        self.inner.take()
    }
}

/// Mutably borrowing iterator over the valid value (zero or one item).
pub struct IterMut<'a, A> {
    inner: Option<&'a mut A>,
}

impl<'a, A> IterMut<'a, A> {
    /// Whether an item is still to be yielded.
    pub closed spec fn has_remaining(&self) -> bool {
        self.inner is Some
    }

    /// Yields the value once, then `None`.
    pub fn next(&mut self) -> (r: Option<&'a mut A>)
        ensures
            r is Some == old(self).has_remaining(),
            !final(self).has_remaining(),
    {
        self.inner.take()
    }
}

/// Borrowing iterator over the errors.
pub enum ErrorsIter<'a, E> {
    Empty,
    Multi(&'a [E], usize),
}

impl<'a, E> ErrorsIter<'a, E> {
    /// The errors still to be yielded.
    pub open spec fn remaining(&self) -> Seq<E> {
        match self {
            ErrorsIter::Empty => Seq::empty(),
            ErrorsIter::Multi(items, pos) => items@.skip(*pos as int),
        }
    }

    /// The position never runs past the end.
    pub open spec fn well_formed(&self) -> bool {
        match self {
            ErrorsIter::Empty => true,
            ErrorsIter::Multi(items, pos) => *pos <= items@.len(),
        }
    }

    /// Yields the next error, if any.
    pub fn next(&mut self) -> (r: Option<&'a E>)
        requires
            old(self).well_formed(),
        ensures
            final(self).well_formed(),
            old(self).remaining().len() == 0 ==> r is None && final(self).remaining() == old(self).remaining(),
            old(self).remaining().len() > 0 ==> (r matches Some(e) && *e == old(self).remaining()[0]
                && final(self).remaining() == old(self).remaining().drop_first()),
    {
        match self {
            ErrorsIter::Empty => None,
            ErrorsIter::Multi(items, pos) => {
                if *pos < items.len() {
                    let e = &items[*pos];
                    let ghost before = items@.skip(*pos as int);
                    *pos = *pos + 1;
                    assert(before.drop_first() =~= items@.skip(*pos as int));
                    Some(e)
                } else {
                    None
                }
            },
        }
    }
}

/// Mutably borrowing access to the errors.
pub enum ErrorsIterMut<'a, E> {
    Empty,
    Multi(&'a mut [E]),
}

impl<'a, E> ErrorsIterMut<'a, E> {
    /// The errors, to change in place (none for a valid validation).
    pub fn into_slice(self) -> (r: &'a mut [E])
        ensures
            match self {
                ErrorsIterMut::Empty => r@.len() == 0,
                ErrorsIterMut::Multi(s) => r@ == s@,
            },
    {
        match self {
            ErrorsIterMut::Empty => &mut [],
            ErrorsIterMut::Multi(s) => s,
        }
    }
}

/// Owning iterator over the valid value (zero or one item).
pub struct IntoIter<A> {
    inner: Option<A>,
}

impl<A> IntoIter<A> {
    /// The item still to be yielded, if any.
    pub closed spec fn remaining(&self) -> Option<A> {
        self.inner
    }

    /// Yields the value once, then `None`.
    pub fn next(&mut self) -> (r: Option<A>)
        ensures
            r == old(self).remaining(),
            final(self).remaining() is None,
    {
        self.inner.take()
    }
}

impl<E, A> Validation<E, A> {
    /// Consumes the validation into an iterator over its value.
    pub fn into_iter(self) -> (r: IntoIter<A>)
        ensures
            match self {
                Validation::Valid(a) => r.remaining() == Some(a),
                Validation::Invalid(_) => r.remaining() is None,
            },
    {
        match self {
            Validation::Valid(a) => IntoIter { inner: Some(a) },
            Validation::Invalid(_) => IntoIter { inner: None },
        }
    }

    /// An iterator over the valid value.
    pub fn iter(&self) -> (r: Iter<'_, A>)
        ensures
            match self {
                Validation::Valid(a) => r.remaining() == Some(a),
                Validation::Invalid(_) => r.remaining() is None,
            },
    {
        match self {
            Validation::Valid(a) => Iter { inner: Some(a) },
            Validation::Invalid(_) => Iter { inner: None },
        }
    }

    /// A mutable iterator over the valid value.
    pub fn iter_mut(&mut self) -> (r: IterMut<'_, A>)
        ensures
            r.has_remaining() == (*old(self) is Valid),
    {
        match self {
            Validation::Valid(a) => IterMut { inner: Some(a) },
            Validation::Invalid(_) => IterMut { inner: None },
        }
    }

    /// An iterator over the errors.
    pub fn iter_errors(&self) -> (r: ErrorsIter<'_, E>)
        ensures
            r.well_formed(),
            r.remaining() == crate::validation::model::errors_of(*self),
    {
        match self {
            Validation::Valid(_) => ErrorsIter::Empty,
            Validation::Invalid(errors) => {
                assert(errors@.skip(0) =~= errors@);
                ErrorsIter::Multi(errors.as_slice(), 0)
            },
        }
    }

    /// Mutable access to the errors.
    pub fn iter_errors_mut(&mut self) -> (r: ErrorsIterMut<'_, E>)
        ensures
            match *old(self) {
                Validation::Valid(_) => r is Empty,
                Validation::Invalid(es) => r matches ErrorsIterMut::Multi(s) && s@ == es@,
            },
    {
        match self {
            Validation::Invalid(es) => ErrorsIterMut::Multi(es.as_mut_slice()),
            Validation::Valid(_) => ErrorsIterMut::Empty,
        }
    }
}

} // verus!
