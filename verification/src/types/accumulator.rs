//! A common abstraction for accumulating items (errors or contexts).
use vstd::prelude::*;

verus! {

/// A growable collection of accumulated items, in insertion order.
#[derive(Debug, PartialEq, Eq, PartialOrd, Ord, Hash, Default)]
pub struct Accumulator<T> {
    items: Vec<T>,
}

impl<T> View for Accumulator<T> {
    type V = Seq<T>;

    closed spec fn view(&self) -> Seq<T> {
        self.items@
    }
}

impl<T> Accumulator<T> {
    /// Creates a new empty accumulator.
    pub fn new() -> (r: Self)
        ensures
            r@ == Seq::<T>::empty(),
    {
        Accumulator { items: Vec::new() }
    }

    /// Adds a single item at the end.
    pub fn push(&mut self, item: T)
        ensures
            final(self)@ == old(self)@.push(item),
    {
        self.items.push(item);
    }

    /// Removes and returns the last item, or `None` if empty.
    pub fn pop(&mut self) -> (r: Option<T>)
        ensures
            old(self)@.len() == 0 ==> r is None && final(self)@ == old(self)@,
            old(self)@.len() > 0 ==> r == Some(old(self)@.last()) && final(self)@ == old(self)@.drop_last(),
    {
        self.items.pop()
    }

    /// Appends every item of `items`, in order.
    pub fn extend(&mut self, items: Vec<T>)
        ensures
            final(self)@ == old(self)@ + items@,
    {
        let mut more = items;
        self.items.append(&mut more);
    }

    /// Returns `true` if the accumulator contains no items.
    pub fn is_empty(&self) -> (r: bool)
        ensures
            r == (self@.len() == 0),
    {
        self.items.len() == 0
    }

    /// Returns the number of items.
    pub fn len(&self) -> (r: usize)
        ensures
            r == self@.len(),
    {
        self.items.len()
    }

    /// The items, in insertion order.
    pub fn iter(&self) -> (r: &[T])
        ensures
            r@ == self@,
    {
        self.items.as_slice()
    }

    /// The items, in insertion order, to change in place.
    pub fn iter_mut(&mut self) -> (r: &mut [T])
        ensures
            r@ == old(self)@,
            final(self)@ == final(r)@,
    {
        self.items.as_mut_slice()
    }

    /// An accumulator holding `items`, in order.
    pub fn from_vec(items: Vec<T>) -> (r: Self)
        ensures
            r@ == items@,
    {
        Accumulator { items }
    }

    /// Consumes the accumulator and returns its items.
    pub fn into_inner(self) -> (r: Vec<T>)
        ensures
            r@ == self@,
    {
        self.items
    }

    /// An accumulator with a single item.
    pub fn single(item: T) -> (r: Self)
        ensures
            r@ == seq![item],
    {
        let mut acc = Self::new();
        acc.push(item);
        acc
    }

    /// Appends all items of `other`, consuming it.
    pub fn merge(&mut self, other: Self)
        ensures
            final(self)@ == old(self)@ + other@,
    {
        self.extend(other.items);
    }

    /// Maps each item with `f`, keeping the order.
    pub fn map<F: Fn(T) -> U, U>(self, f: F) -> (r: Accumulator<U>)
        requires
            forall|i: int| 0 <= i < self@.len() ==> f.requires((#[trigger] self@[i],)),
        ensures
            r@.len() == self@.len(),
            forall|i: int| 0 <= i < self@.len() ==> f.ensures((self@[i],), #[trigger] r@[i]),
    {
        let ghost orig = self@;
        let mut items = self.items;
        let mut out: Vec<U> = Vec::new();
        let mut rest: Vec<T> = Vec::new();
        // move the items out back to front, then map front to back
        while items.len() > 0
            invariant
                orig == items@ + rest@.reverse(),
            decreases items@.len(),
        {
            let ghost before = items@;
            let ghost rest_before = rest@;
            let x = items.pop().unwrap();
            rest.push(x);
            assert(before =~= items@.push(x));
            assert(rest@.reverse() =~= seq![x] + rest_before.reverse());
            assert(orig =~= items@ + rest@.reverse());
        }
        assert(orig =~= rest@.reverse());
        let n = rest.len();
        assert(rest@.reverse() =~= orig.subrange(0, n as int));
        while rest.len() > 0
            invariant
                n == orig.len(),
                out@.len() + rest@.len() == n,
                forall|i: int| 0 <= i < orig.len() ==> f.requires((#[trigger] orig[i],)),
                forall|i: int| 0 <= i < out@.len() ==> f.ensures((orig[i],), #[trigger] out@[i]),
                rest@.reverse() =~= orig.subrange(out@.len() as int, n as int),
            decreases rest@.len(),
        {
            let ghost k = out@.len();
            let ghost rest_before = rest@;
            let x = rest.pop().unwrap();
            assert(x == orig[k as int]) by {
                assert(rest_before.reverse()[0] == rest_before.last());
            }
            let y = f(x);
            out.push(y);
            assert(rest@.reverse() =~= orig.subrange(out@.len() as int, n as int)) by {
                assert(rest_before =~= rest@.push(x));
                assert(rest_before.reverse() =~= seq![x] + rest@.reverse());
                assert(orig.subrange(k as int, n as int).drop_first() =~= orig.subrange(k + 1int, n as int));
                assert(rest@.reverse() =~= rest_before.reverse().drop_first());
            }
        }
        Accumulator { items: out }
    }
}

impl<T> From<Vec<T>> for Accumulator<T> {
    /// An accumulator holding `items`, in order.
    fn from(items: Vec<T>) -> (r: Self)
        ensures
            r@ == items@,
    {
        Accumulator { items }
    }
}

/// Contracts learn what `from` gives from its own `ensures` above; the
/// generic conversion spec is declared as not followed.
impl<T> vstd::std_specs::convert::FromSpecImpl<Vec<T>> for Accumulator<T> {
    open spec fn obeys_from_spec() -> bool {
        false
    }

    open spec fn from_spec(v: Vec<T>) -> Self {
        vstd::pervasive::arbitrary()
    }
}

} // verus!
