//! Inline-storage collections for the tags and metadata of a group context.
//!
//! Both hold their items in a `smallvec::SmallVec` with room for two items
//! before spilling to the heap, and are reached only through the wrappers
//! below, whose contracts speak of the items they hold; the fields of both
//! structs are private to these wrappers.
use smallvec::SmallVec;
use vstd::prelude::*;

verus! {

/// Tags of a group context, kept inline for up to two entries.
#[verifier::external_body]
#[derive(Debug, PartialEq, Eq, Hash)]
pub struct TagVec {
    items: SmallVec<[String; 2]>,
}

/// Key/value metadata of a group context, kept inline for up to two entries.
#[verifier::external_body]
#[derive(Debug, PartialEq, Eq, Hash)]
pub struct MetaVec {
    items: SmallVec<[(String, String); 2]>,
}

/// The tags a `TagVec` holds, in insertion order.
pub uninterp spec fn tag_items(v: TagVec) -> Seq<Seq<char>>;

/// The key/value pairs a `MetaVec` holds, in insertion order.
pub uninterp spec fn meta_items(v: MetaVec) -> Seq<(Seq<char>, Seq<char>)>;

impl View for TagVec {
    type V = Seq<Seq<char>>;

    open spec fn view(&self) -> Seq<Seq<char>> {
        tag_items(*self)
    }
}

impl View for MetaVec {
    type V = Seq<(Seq<char>, Seq<char>)>;

    open spec fn view(&self) -> Seq<(Seq<char>, Seq<char>)> {
        meta_items(*self)
    }
}

impl TagVec {
    /// `SmallVec::new`: an empty collection.
    #[verifier::external_body]
    pub(crate) fn new() -> (r: Self)
        ensures
            tag_items(r) == Seq::<Seq<char>>::empty(),
    {
        TagVec { items: SmallVec::new() }
    }

    /// `SmallVec::push`: appends `tag` at the end.
    #[verifier::external_body]
    pub(crate) fn push(&mut self, tag: String)
        ensures
            tag_items(*final(self)) == tag_items(*old(self)).push(tag@),
    {
        self.items.push(tag)
    }

    /// `SmallVec::len`: the number of tags held.
    #[verifier::external_body]
    pub(crate) fn len(&self) -> (n: usize)
        ensures
            n == tag_items(*self).len(),
    {
        self.items.len()
    }

    /// Indexing a `SmallVec`: the tag at position `i`.
    #[verifier::external_body]
    pub(crate) fn get(&self, i: usize) -> (t: &String)
        requires
            i < tag_items(*self).len(),
        ensures
            t@ == tag_items(*self)[i as int],
    {
        &self.items[i]
    }

    /// `SmallVec::clone`: a collection holding clones of the same tags.
    #[verifier::external_body]
    pub(crate) fn duplicate(&self) -> (r: Self)
        ensures
            tag_items(r) == tag_items(*self),
    {
        TagVec { items: self.items.clone() }
    }
}

impl MetaVec {
    /// `SmallVec::new`: an empty collection.
    #[verifier::external_body]
    pub(crate) fn new() -> (r: Self)
        ensures
            meta_items(r) == Seq::<(Seq<char>, Seq<char>)>::empty(),
    {
        MetaVec { items: SmallVec::new() }
    }

    /// `SmallVec::push`: appends the pair `(key, value)` at the end.
    #[verifier::external_body]
    pub(crate) fn push(&mut self, key: String, value: String)
        ensures
            meta_items(*final(self)) == meta_items(*old(self)).push((key@, value@)),
    {
        self.items.push((key, value))
    }

    /// `SmallVec::len`: the number of pairs held.
    #[verifier::external_body]
    pub(crate) fn len(&self) -> (n: usize)
        ensures
            n == meta_items(*self).len(),
    {
        self.items.len()
    }

    /// Indexing a `SmallVec`: the key and value at position `i`.
    #[verifier::external_body]
    pub(crate) fn get(&self, i: usize) -> (kv: (&String, &String))
        requires
            i < meta_items(*self).len(),
        ensures
            kv.0@ == meta_items(*self)[i as int].0,
            kv.1@ == meta_items(*self)[i as int].1,
    {
        let (k, v) = &self.items[i];
        (k, v)
    }

    /// `SmallVec::clone`: a collection holding clones of the same pairs.
    #[verifier::external_body]
    pub(crate) fn duplicate(&self) -> (r: Self)
        ensures
            meta_items(r) == meta_items(*self),
    {
        MetaVec { items: self.items.clone() }
    }
}

} // verus!
