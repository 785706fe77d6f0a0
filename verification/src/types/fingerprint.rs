//! Stable fingerprints of composable errors.
//!
//! A fingerprint is the 64-bit FNV-1a hash of a byte stream built from the
//! error's tags (sorted, each prefixed with `tag:`), its code (`code:` and the
//! four little-endian bytes), its core message (`msg:` and the UTF-8 bytes) and
//! its metadata (sorted by key, each as `meta:key=value`), each part included
//! as configured.
use crate::types::composable_error::{context_views, ComposableError};
use crate::types::error_context::{ContextView, ErrorContext};
use crate::text::{hex16, u64_to_hex16};
use vstd::prelude::*;
use vstd::utf8::encode_utf8;

verus! {

/// FNV-1a 64-bit offset basis.
pub const FNV_OFFSET: u64 = 0xcbf29ce484222325u64;

/// FNV-1a 64-bit prime.
pub const FNV_PRIME: u64 = 0x100000001b3u64;

/// One FNV-1a step: xor in the byte, then multiply by the prime (wrapping).
pub open spec fn fnv_step(h: u64, b: u8) -> u64 {
    (h ^ (b as u64)).wrapping_mul(FNV_PRIME)
}

/// FNV-1a over `bytes`, starting from the running hash `h`.
pub open spec fn fnv_fold(h: u64, bytes: Seq<u8>) -> u64
    decreases bytes.len(),
{
    if bytes.len() == 0 {
        h
    } else {
        fnv_step(fnv_fold(h, bytes.drop_last()), bytes.last())
    }
}

/// Hashing `a + b` is hashing `a`, then `b`.
pub proof fn lemma_fnv_fold_append(h: u64, a: Seq<u8>, b: Seq<u8>)
    ensures
        fnv_fold(h, a + b) == fnv_fold(fnv_fold(h, a), b),
    decreases b.len(),
{
    if b.len() == 0 {
        assert(a + b =~= a);
    } else {
        lemma_fnv_fold_append(h, a, b.drop_last());
        assert((a + b).drop_last() =~= a + b.drop_last());
    }
}

/// FNV-1a 64-bit hasher.
pub struct FnvHasher {
    hash: u64,
}

impl View for FnvHasher {
    type V = u64;

    closed spec fn view(&self) -> u64 {
        self.hash
    }
}

impl FnvHasher {
    /// A hasher at the offset basis.
    pub fn new() -> (r: Self)
        ensures
            r@ == FNV_OFFSET,
    {
        FnvHasher { hash: FNV_OFFSET }
    }

    /// Feeds `bytes` into the hash.
    pub fn write(&mut self, bytes: &[u8])
        ensures
            final(self)@ == fnv_fold(old(self)@, bytes@),
    {
        let ghost start = self.hash;
        let mut i: usize = 0;
        while i < bytes.len()
            invariant
                i <= bytes@.len(),
                self.hash == fnv_fold(start, bytes@.take(i as int)),
            decreases bytes@.len() - i,
        {
            assert(bytes@.take(i + 1).drop_last() =~= bytes@.take(i as int));
            self.hash = (self.hash ^ (bytes[i] as u64)).wrapping_mul(FNV_PRIME);
            i = i + 1;
        }
        assert(bytes@.take(bytes@.len() as int) =~= bytes@);
    }

    /// The hash of everything written so far.
    pub fn finish(self) -> (r: u64)
        ensures
            r == self@,
    {
        self.hash
    }
}

/// Lexicographic order on byte strings (the order of `str`).
pub open spec fn bytes_le(a: Seq<u8>, b: Seq<u8>) -> bool
    decreases a.len(),
{
    if a.len() == 0 {
        true
    } else if b.len() == 0 {
        false
    } else if a[0] < b[0] {
        true
    } else if a[0] > b[0] {
        false
    } else {
        bytes_le(a.drop_first(), b.drop_first())
    }
}

/// Inserts `x` into `sorted` after every element whose key is at most `x`'s key.
pub open spec fn insert_by<A>(sorted: Seq<A>, x: A, key: spec_fn(A) -> Seq<u8>) -> Seq<A>
    decreases sorted.len(),
{
    if sorted.len() == 0 {
        seq![x]
    } else if bytes_le(key(sorted.last()), key(x)) {
        sorted.push(x)
    } else {
        insert_by(sorted.drop_last(), x, key).push(sorted.last())
    }
}

/// `s` sorted by `key` (stable: items with equal keys keep their order).
pub open spec fn sort_by<A>(s: Seq<A>, key: spec_fn(A) -> Seq<u8>) -> Seq<A>
    decreases s.len(),
{
    if s.len() == 0 {
        s
    } else {
        insert_by(sort_by(s.drop_last(), key), s.last(), key)
    }
}

/// The identity key.
pub open spec fn whole_key() -> spec_fn(Seq<u8>) -> Seq<u8> {
    |b: Seq<u8>| b
}

/// The first component as key.
pub open spec fn first_key() -> spec_fn((Seq<u8>, Seq<u8>)) -> Seq<u8> {
    |kv: (Seq<u8>, Seq<u8>)| kv.0
}

/// The tags of one context (none for a simple one).
pub open spec fn tags_of(c: ContextView) -> Seq<Seq<char>> {
    match c {
        ContextView::Group(g) => g.tags,
        ContextView::Simple(_) => Seq::empty(),
    }
}

/// The metadata of one context (none for a simple one).
pub open spec fn metadata_of(c: ContextView) -> Seq<(Seq<char>, Seq<char>)> {
    match c {
        ContextView::Group(g) => g.metadata,
        ContextView::Simple(_) => Seq::empty(),
    }
}

/// All tags of the contexts, context by context in order.
pub open spec fn all_tags(cs: Seq<ContextView>) -> Seq<Seq<char>>
    decreases cs.len(),
{
    if cs.len() == 0 {
        Seq::empty()
    } else {
        all_tags(cs.drop_last()) + tags_of(cs.last())
    }
}

/// All metadata pairs of the contexts, context by context in order.
pub open spec fn all_metadata(cs: Seq<ContextView>) -> Seq<(Seq<char>, Seq<char>)>
    decreases cs.len(),
{
    if cs.len() == 0 {
        Seq::empty()
    } else {
        all_metadata(cs.drop_last()) + metadata_of(cs.last())
    }
}

/// UTF-8 bytes of each string.
pub open spec fn encode_all(s: Seq<Seq<char>>) -> Seq<Seq<u8>> {
    s.map_values(|t: Seq<char>| encode_utf8(t))
}

/// UTF-8 bytes of each key and value.
pub open spec fn encode_pairs(s: Seq<(Seq<char>, Seq<char>)>) -> Seq<(Seq<u8>, Seq<u8>)> {
    s.map_values(|kv: (Seq<char>, Seq<char>)| (encode_utf8(kv.0), encode_utf8(kv.1)))
}

/// `tag:`
pub open spec fn tag_prefix() -> Seq<u8> {
    seq![116u8, 97u8, 103u8, 58u8]
}

/// `code:`
pub open spec fn code_prefix() -> Seq<u8> {
    seq![99u8, 111u8, 100u8, 101u8, 58u8]
}

/// `msg:`
pub open spec fn msg_prefix() -> Seq<u8> {
    seq![109u8, 115u8, 103u8, 58u8]
}

/// `meta:`
pub open spec fn meta_prefix() -> Seq<u8> {
    seq![109u8, 101u8, 116u8, 97u8, 58u8]
}

/// `=`
pub open spec fn eq_sign() -> Seq<u8> {
    seq![61u8]
}

/// The four little-endian bytes of `code`.
pub open spec fn le_bytes(code: u32) -> Seq<u8> {
    seq![
        (code % 256) as u8,
        ((code / 256) % 256) as u8,
        ((code / 65536) % 256) as u8,
        ((code / 16777216) % 256) as u8,
    ]
}

/// `tag:t1tag:t2...` for the given (already sorted) tag bytes.
pub open spec fn tags_stream(tags: Seq<Seq<u8>>) -> Seq<u8>
    decreases tags.len(),
{
    if tags.len() == 0 {
        Seq::empty()
    } else {
        tags_stream(tags.drop_last()) + tag_prefix() + tags.last()
    }
}

/// `meta:k1=v1meta:k2=v2...` for the given (already sorted) pairs.
pub open spec fn meta_stream(meta: Seq<(Seq<u8>, Seq<u8>)>) -> Seq<u8>
    decreases meta.len(),
{
    if meta.len() == 0 {
        Seq::empty()
    } else {
        meta_stream(meta.drop_last()) + meta_prefix() + meta.last().0 + eq_sign() + meta.last().1
    }
}

/// Whether a metadata key takes part: it is in the allow_list list (when there
/// is one) and not in the deny_list list (when there is one).
pub open spec fn key_allowed(allow_list: Option<Seq<Seq<char>>>, deny_list: Option<Seq<Seq<char>>>, key: Seq<char>) -> bool {
    (match allow_list {
        Some(keys) => keys.contains(key),
        None => true,
    }) && !(match deny_list {
        Some(keys) => keys.contains(key),
        None => false,
    })
}

/// The metadata pairs whose keys are allowed, in order.
pub open spec fn filter_metadata(
    meta: Seq<(Seq<char>, Seq<char>)>,
    allow_list: Option<Seq<Seq<char>>>,
    deny_list: Option<Seq<Seq<char>>>,
) -> Seq<(Seq<char>, Seq<char>)>
    decreases meta.len(),
{
    if meta.len() == 0 {
        Seq::empty()
    } else {
        let rest = filter_metadata(meta.drop_last(), allow_list, deny_list);
        if key_allowed(allow_list, deny_list, meta.last().0) {
            rest.push(meta.last())
        } else {
            rest
        }
    }
}

/// Which parts of an error a fingerprint covers.
pub struct FingerprintView {
    pub include_tags: bool,
    pub include_code: bool,
    pub include_message: bool,
    pub include_metadata: bool,
    pub include_keys: Option<Seq<Seq<char>>>,
    pub exclude_keys: Option<Seq<Seq<char>>>,
}

/// The byte stream hashed for an error with contexts `cs`, code `code` and
/// rendered core message `core`.
pub open spec fn fingerprint_stream(f: FingerprintView, cs: Seq<ContextView>, code: Option<u32>, core: Seq<char>) -> Seq<u8> {
    (if f.include_tags { tags_stream(sort_by(encode_all(all_tags(cs)), whole_key())) } else { Seq::empty() })
    + (if f.include_code && code is Some { code_prefix() + le_bytes(code->0) } else { Seq::empty() })
    + (if f.include_message { msg_prefix() + encode_utf8(core) } else { Seq::empty() })
    + (if f.include_metadata {
        meta_stream(sort_by(encode_pairs(filter_metadata(all_metadata(cs), f.include_keys, f.exclude_keys)), first_key()))
    } else {
        Seq::empty()
    })
}

/// The fingerprint of an error with contexts `cs`, code `code` and rendered
/// core message `core`.
pub open spec fn fingerprint_of(f: FingerprintView, cs: Seq<ContextView>, code: Option<u32>, core: Seq<char>) -> u64 {
    fnv_fold(FNV_OFFSET, fingerprint_stream(f, cs, code, core))
}

/// The configuration used by default: tags, code and message, no metadata.
pub open spec fn default_fingerprint() -> FingerprintView {
    FingerprintView {
        include_tags: true,
        include_code: true,
        include_message: true,
        include_metadata: false,
        include_keys: None,
        exclude_keys: None,
    }
}

/// Whether `a <= b` in byte order.
fn bytes_le_exec(a: &[u8], b: &[u8]) -> (r: bool)
    ensures
        r == bytes_le(a@, b@),
{
    let mut i: usize = 0;
    assert(a@.skip(0) =~= a@);
    assert(b@.skip(0) =~= b@);
    while i < a.len() && i < b.len()
        invariant
            i <= a@.len(),
            i <= b@.len(),
            a@.take(i as int) == b@.take(i as int),
            bytes_le(a@, b@) == bytes_le(a@.skip(i as int), b@.skip(i as int)),
        decreases a@.len() - i,
    {
        if a[i] < b[i] {
            assert(a@.skip(i as int)[0] == a@[i as int]);
            assert(b@.skip(i as int)[0] == b@[i as int]);
            return true;
        }
        if a[i] > b[i] {
            assert(a@.skip(i as int)[0] == a@[i as int]);
            assert(b@.skip(i as int)[0] == b@[i as int]);
            return false;
        }
        assert(a@.skip(i as int).drop_first() =~= a@.skip(i + 1));
        assert(b@.skip(i as int).drop_first() =~= b@.skip(i + 1));
        assert(a@.take(i + 1) =~= a@.take(i as int).push(a@[i as int]));
        assert(b@.take(i + 1) =~= b@.take(i as int).push(b@[i as int]));
        i = i + 1;
    }
    i == a.len()
}

/// The byte views of a vector of byte slices.
pub open spec fn slice_views(v: Seq<&[u8]>) -> Seq<Seq<u8>> {
    v.map_values(|s: &[u8]| s@)
}

/// The byte views of a vector of byte-slice pairs.
pub open spec fn pair_views(v: Seq<(&[u8], &[u8])>) -> Seq<(Seq<u8>, Seq<u8>)> {
    v.map_values(|p: (&[u8], &[u8])| (p.0@, p.1@))
}

/// Inserts `x` into the sorted vector, after every element at most `x`.
fn insert_bytes<'a>(sorted: &mut Vec<&'a [u8]>, x: &'a [u8])
    ensures
        slice_views(final(sorted)@) == insert_by(slice_views(old(sorted)@), x@, whole_key()),
{
    let ghost target = insert_by(slice_views(sorted@), x@, whole_key());
    let mut moved: Vec<&'a [u8]> = Vec::new();
    loop
        invariant_except_break
            target == insert_by(slice_views(sorted@), x@, whole_key()) + slice_views(moved@).reverse(),
        ensures
            target == slice_views(sorted@).push(x@) + slice_views(moved@).reverse(),
        decreases sorted@.len(),
    {
        let n = sorted.len();
        if n == 0 || bytes_le_exec(sorted[n - 1], x) {
            assert(insert_by(slice_views(sorted@), x@, whole_key()) == slice_views(sorted@).push(x@));
            break;
        }
        let ghost before = slice_views(sorted@);
        let ghost moved_before = slice_views(moved@);
        let last = sorted.pop().unwrap();
        moved.push(last);
        assert(before.drop_last() =~= slice_views(sorted@));
        assert(slice_views(moved@) =~= moved_before.push(last@));
        assert(slice_views(moved@).reverse() =~= seq![last@] + moved_before.reverse());
        assert(insert_by(before, x@, whole_key()) == insert_by(slice_views(sorted@), x@, whole_key()).push(last@));
        assert(target =~= insert_by(slice_views(sorted@), x@, whole_key()) + slice_views(moved@).reverse());
    }
    let ghost base = slice_views(sorted@);
    sorted.push(x);
    assert(slice_views(sorted@) =~= base.push(x@));
    while moved.len() > 0
        invariant
            target == slice_views(sorted@) + slice_views(moved@).reverse(),
        decreases moved@.len(),
    {
        let ghost s0 = slice_views(sorted@);
        let ghost m0 = slice_views(moved@);
        let y = moved.pop().unwrap();
        sorted.push(y);
        assert(slice_views(sorted@) =~= s0.push(y@));
        assert(m0 =~= slice_views(moved@).push(y@));
        assert(m0.reverse() =~= seq![y@] + slice_views(moved@).reverse());
        assert(target =~= slice_views(sorted@) + slice_views(moved@).reverse());
    }
    assert(slice_views(moved@).reverse() =~= Seq::<Seq<u8>>::empty());
    assert(target =~= slice_views(sorted@));
}

/// Inserts `x` into the vector sorted by key, after every pair whose key is at most `x`'s.
fn insert_pair<'a>(sorted: &mut Vec<(&'a [u8], &'a [u8])>, x: (&'a [u8], &'a [u8]))
    ensures
        pair_views(final(sorted)@) == insert_by(pair_views(old(sorted)@), (x.0@, x.1@), first_key()),
{
    let ghost xv = (x.0@, x.1@);
    let ghost target = insert_by(pair_views(sorted@), xv, first_key());
    let mut moved: Vec<(&'a [u8], &'a [u8])> = Vec::new();
    loop
        invariant_except_break
            xv == (x.0@, x.1@),
            target == insert_by(pair_views(sorted@), xv, first_key()) + pair_views(moved@).reverse(),
        ensures
            target == pair_views(sorted@).push(xv) + pair_views(moved@).reverse(),
        decreases sorted@.len(),
    {
        let n = sorted.len();
        assert(first_key()(xv) == xv.0);
        if n > 0 {
            assert(pair_views(sorted@).last() == (sorted@[n - 1].0@, sorted@[n - 1].1@));
            assert(first_key()(pair_views(sorted@).last()) == sorted@[n - 1].0@);
        }
        if n == 0 {
            assert(insert_by(pair_views(sorted@), xv, first_key()) =~= pair_views(sorted@).push(xv));
            break;
        }
        let a = sorted[n - 1].0;
        assert(a@ == sorted@[n - 1].0@);
        let le = bytes_le_exec(a, x.0);
        assert(pair_views(sorted@).last().0 == sorted@[n - 1].0@);
        assert(le == bytes_le(first_key()(pair_views(sorted@).last()), first_key()(xv)));
        if le {
            assert(insert_by(pair_views(sorted@), xv, first_key()) == pair_views(sorted@).push(xv));
            break;
        }
        let ghost before = pair_views(sorted@);
        let ghost moved_before = pair_views(moved@);
        let last = sorted.pop().unwrap();
        moved.push(last);
        assert(before.drop_last() =~= pair_views(sorted@));
        assert(pair_views(moved@) =~= moved_before.push((last.0@, last.1@)));
        assert(pair_views(moved@).reverse() =~= seq![(last.0@, last.1@)] + moved_before.reverse());
        assert(insert_by(before, xv, first_key()) == insert_by(pair_views(sorted@), xv, first_key()).push((last.0@, last.1@)));
        assert(target =~= insert_by(pair_views(sorted@), xv, first_key()) + pair_views(moved@).reverse());
    }
    let ghost base = pair_views(sorted@);
    sorted.push(x);
    assert(pair_views(sorted@) =~= base.push(xv));
    while moved.len() > 0
        invariant
            target == pair_views(sorted@) + pair_views(moved@).reverse(),
        decreases moved@.len(),
    {
        let ghost s0 = pair_views(sorted@);
        let ghost m0 = pair_views(moved@);
        let y = moved.pop().unwrap();
        sorted.push(y);
        assert(pair_views(sorted@) =~= s0.push((y.0@, y.1@)));
        assert(m0 =~= pair_views(moved@).push((y.0@, y.1@)));
        assert(m0.reverse() =~= seq![(y.0@, y.1@)] + pair_views(moved@).reverse());
        assert(target =~= pair_views(sorted@) + pair_views(moved@).reverse());
    }
    assert(pair_views(moved@).reverse() =~= Seq::<(Seq<u8>, Seq<u8>)>::empty());
    assert(target =~= pair_views(sorted@));
}

/// The string views of an optional key list.
pub open spec fn keys_view(keys: Option<&[&str]>) -> Option<Seq<Seq<char>>> {
    match keys {
        Some(k) => Some(k@.map_values(|s: &str| s@)),
        None => None,
    }
}

/// Configuration builder for customizing fingerprint generation.
pub struct FingerprintConfig<'a, E> {
    pub(crate) error: &'a ComposableError<E>,
    pub(crate) include_tags: bool,
    pub(crate) include_code: bool,
    pub(crate) include_message: bool,
    pub(crate) include_metadata: bool,
    pub(crate) include_keys: Option<&'a [&'a str]>,
    pub(crate) exclude_keys: Option<&'a [&'a str]>,
}

impl<'a, E> FingerprintConfig<'a, E> {
    /// Which parts the fingerprint covers.
    pub closed spec fn settings(&self) -> FingerprintView {
        FingerprintView {
            include_tags: self.include_tags,
            include_code: self.include_code,
            include_message: self.include_message,
            include_metadata: self.include_metadata,
            include_keys: keys_view(self.include_keys),
            exclude_keys: keys_view(self.exclude_keys),
        }
    }

    /// The error being fingerprinted.
    pub closed spec fn target(&self) -> ComposableError<E> {
        *self.error
    }

    /// The default configuration for `error`: tags, code and message.
    pub(crate) fn new(error: &'a ComposableError<E>) -> (r: Self)
        ensures
            r.settings() == default_fingerprint(),
            r.target() == *error,
    {
        FingerprintConfig {
            error,
            include_tags: true,
            include_code: true,
            include_message: true,
            include_metadata: false,
            include_keys: None,
            exclude_keys: None,
        }
    }

    /// Whether to include tags in the fingerprint (default: true).
    pub fn include_tags(self, include_flag: bool) -> (r: Self)
        ensures
            r.settings() == (FingerprintView { include_tags: include_flag, ..self.settings() }),
            r.target() == self.target(),
    {
        let mut s = self;
        s.include_tags = include_flag;
        s
    }

    /// Whether to include the error code in the fingerprint (default: true).
    pub fn include_code(self, include_flag: bool) -> (r: Self)
        ensures
            r.settings() == (FingerprintView { include_code: include_flag, ..self.settings() }),
            r.target() == self.target(),
    {
        let mut s = self;
        s.include_code = include_flag;
        s
    }

    /// Whether to include the core error message in the fingerprint (default: true).
    pub fn include_message(self, include_flag: bool) -> (r: Self)
        ensures
            r.settings() == (FingerprintView { include_message: include_flag, ..self.settings() }),
            r.target() == self.target(),
    {
        let mut s = self;
        s.include_message = include_flag;
        s
    }

    /// Whether to include metadata in the fingerprint (default: false).
    pub fn include_metadata(self, include_flag: bool) -> (r: Self)
        ensures
            r.settings() == (FingerprintView { include_metadata: include_flag, ..self.settings() }),
            r.target() == self.target(),
    {
        let mut s = self;
        s.include_metadata = include_flag;
        s
    }

    /// Includes metadata, restricted to the given keys.
    pub fn include_metadata_keys(self, keys: &'a [&'a str]) -> (r: Self)
        ensures
            r.settings() == (FingerprintView {
                include_metadata: true,
                include_keys: Some(keys@.map_values(|s: &str| s@)),
                ..self.settings()
            }),
            r.target() == self.target(),
    {
        let mut s = self;
        s.include_metadata = true;
        s.include_keys = Some(keys);
        s
    }

    /// Includes metadata, leaving out the given keys.
    pub fn exclude_metadata_keys(self, keys: &'a [&'a str]) -> (r: Self)
        ensures
            r.settings() == (FingerprintView {
                include_metadata: true,
                exclude_keys: Some(keys@.map_values(|s: &str| s@)),
                ..self.settings()
            }),
            r.target() == self.target(),
    {
        let mut s = self;
        s.include_metadata = true;
        s.exclude_keys = Some(keys);
        s
    }

    /// Computes the fingerprint; `core_message` is the rendered core error.
    pub fn compute(&self, core_message: &str) -> (r: u64)
        ensures
            r == fingerprint_of(self.settings(), self.target().contexts(), self.target().code(), core_message@),
    {
        proof { self.error.lemma_parts(); }
        let mut hasher = FnvHasher::new();
        let ghost f = self.settings();
        let ghost cs = self.target().contexts();
        let ghost code = self.target().code();
        let ghost p1: Seq<u8> = if f.include_tags { tags_stream(sort_by(encode_all(all_tags(cs)), whole_key())) } else { Seq::empty() };
        let ghost p2: Seq<u8> = if f.include_code && code is Some { code_prefix() + le_bytes(code->0) } else { Seq::empty() };
        let ghost p3: Seq<u8> = if f.include_message { msg_prefix() + encode_utf8(core_message@) } else { Seq::empty() };
        let ghost p4: Seq<u8> = if f.include_metadata {
            meta_stream(sort_by(encode_pairs(filter_metadata(all_metadata(cs), f.include_keys, f.exclude_keys)), first_key()))
        } else {
            Seq::empty()
        };
        if self.include_tags {
            self.hash_tags(&mut hasher);
        }
        assert(hasher@ == fnv_fold(FNV_OFFSET, p1)) by {
            if !f.include_tags {
                assert(p1 =~= Seq::<u8>::empty());
            }
        }
        if self.include_code {
            self.hash_code(&mut hasher);
        }
        proof {
            lemma_fnv_fold_append(FNV_OFFSET, p1, p2);
            if !f.include_code {
                assert(p2 =~= Seq::<u8>::empty());
                assert(p1 + p2 =~= p1);
            }
        }
        if self.include_message {
            self.hash_message(&mut hasher, core_message);
        }
        proof {
            lemma_fnv_fold_append(FNV_OFFSET, p1 + p2, p3);
            if !f.include_message {
                assert(p3 =~= Seq::<u8>::empty());
                assert(p1 + p2 + p3 =~= p1 + p2);
            }
        }
        if self.include_metadata {
            self.hash_metadata(&mut hasher);
        }
        proof {
            lemma_fnv_fold_append(FNV_OFFSET, p1 + p2 + p3, p4);
            if !f.include_metadata {
                assert(p4 =~= Seq::<u8>::empty());
                assert(p1 + p2 + p3 + p4 =~= p1 + p2 + p3);
            }
            assert(fingerprint_stream(f, cs, code, core_message@) == p1 + p2 + p3 + p4);
        }
        hasher.finish()
    }

    /// Computes the fingerprint as sixteen lower-case hexadecimal digits.
    pub fn compute_hex(&self, core_message: &str) -> (r: String)
        ensures
            r@ == hex16(fingerprint_of(self.settings(), self.target().contexts(), self.target().code(), core_message@)),
    {
        let fp = self.compute(core_message);
        u64_to_hex16(fp)
    }

    fn hash_tags(&self, hasher: &mut FnvHasher)
        ensures
            final(hasher)@ == fnv_fold(old(hasher)@, tags_stream(sort_by(encode_all(all_tags(self.target().contexts())), whole_key()))),
    {
        proof { self.error.lemma_parts(); }
        let ctxs = &self.error.context;
        let ghost all = context_views(ctxs@);
        let mut tags: Vec<&[u8]> = Vec::new();
        let mut i: usize = 0;
        while i < ctxs.len()
            invariant
                i <= ctxs@.len(),
                all == context_views(ctxs@),
                slice_views(tags@) == encode_all(all_tags(all.take(i as int))),
            decreases ctxs@.len() - i,
        {
            assert(all.take(i + 1).drop_last() =~= all.take(i as int));
            match &ctxs[i] {
                ErrorContext::Group(g) => {
                    let ghost base = slice_views(tags@);
                    let mut j: usize = 0;
                    while j < g.tags.len()
                        invariant
                            j <= g.tags@.len(),
                            slice_views(tags@) == base + encode_all(g.tags@.take(j as int)),
                        decreases g.tags@.len() - j,
                    {
                        let t = g.tags.get(j).as_str().as_bytes();
                        let ghost before = slice_views(tags@);
                        tags.push(t);
                        assert(slice_views(tags@) =~= before.push(t@));
                        assert(encode_all(g.tags@.take(j + 1)) =~= encode_all(g.tags@.take(j as int)).push(encode_utf8(g.tags@[j as int])));
                        j = j + 1;
                    }
                    assert(g.tags@.take(g.tags@.len() as int) =~= g.tags@);
                    assert(all.take(i + 1).last() == ctxs@[i as int]@);
                    assert(encode_all(all_tags(all.take(i + 1))) =~= encode_all(all_tags(all.take(i as int))) + encode_all(g.tags@));
                },
                ErrorContext::Simple(_) => {
                    assert(all.take(i + 1).last() == ctxs@[i as int]@);
                    assert(encode_all(all_tags(all.take(i + 1))) =~= encode_all(all_tags(all.take(i as int))));
                },
            }
            i = i + 1;
        }
        assert(all.take(ctxs@.len() as int) =~= all);
        let ghost unsorted = slice_views(tags@);
        let mut sorted: Vec<&[u8]> = Vec::new();
        let mut k: usize = 0;
        while k < tags.len()
            invariant
                k <= tags@.len(),
                unsorted == slice_views(tags@),
                slice_views(sorted@) == sort_by(unsorted.take(k as int), whole_key()),
            decreases tags@.len() - k,
        {
            assert(unsorted.take(k + 1).drop_last() =~= unsorted.take(k as int));
            insert_bytes(&mut sorted, tags[k]);
            k = k + 1;
        }
        assert(unsorted.take(tags@.len() as int) =~= unsorted);
        let ghost order = slice_views(sorted@);
        let ghost start = hasher@;
        let prefix: [u8; 4] = [116u8, 97u8, 103u8, 58u8];
        let mut m: usize = 0;
        while m < sorted.len()
            invariant
                m <= sorted@.len(),
                order == slice_views(sorted@),
                prefix@ == tag_prefix(),
                hasher@ == fnv_fold(start, tags_stream(order.take(m as int))),
            decreases sorted@.len() - m,
        {
            let ghost h0 = hasher@;
            hasher.write(prefix.as_slice());
            hasher.write(sorted[m]);
            proof {
                lemma_fnv_fold_append(start, tags_stream(order.take(m as int)), tag_prefix());
                lemma_fnv_fold_append(start, tags_stream(order.take(m as int)) + tag_prefix(), order[m as int]);
                assert(order.take(m + 1).drop_last() =~= order.take(m as int));
            }
            m = m + 1;
        }
        assert(order.take(sorted@.len() as int) =~= order);
    }

    fn hash_code(&self, hasher: &mut FnvHasher)
        ensures
            final(hasher)@ == fnv_fold(old(hasher)@,
                if self.target().code() is Some { code_prefix() + le_bytes(self.target().code()->0) } else { Seq::empty() }),
    {
        proof { self.error.lemma_parts(); }
        match self.error.error_code {
            Some(code) => {
                let ghost start = hasher@;
                let prefix: [u8; 5] = [99u8, 111u8, 100u8, 101u8, 58u8];
                assert(prefix@ =~= code_prefix());
                hasher.write(prefix.as_slice());
                let bytes: [u8; 4] = [
                    (code % 256) as u8,
                    ((code / 256) % 256) as u8,
                    ((code / 65536) % 256) as u8,
                    ((code / 16777216) % 256) as u8,
                ];
                assert(bytes@ =~= le_bytes(code));
                hasher.write(bytes.as_slice());
                proof { lemma_fnv_fold_append(start, code_prefix(), le_bytes(code)); }
            },
            None => {
                assert(fnv_fold(hasher@, Seq::<u8>::empty()) == hasher@);
            },
        }
    }

    fn hash_message(&self, hasher: &mut FnvHasher, core_message: &str)
        ensures
            final(hasher)@ == fnv_fold(old(hasher)@, msg_prefix() + encode_utf8(core_message@)),
    {
        let ghost start = hasher@;
        let prefix: [u8; 4] = [109u8, 115u8, 103u8, 58u8];
        assert(prefix@ =~= msg_prefix());
        hasher.write(prefix.as_slice());
        hasher.write(core_message.as_bytes());
        proof { lemma_fnv_fold_append(start, msg_prefix(), encode_utf8(core_message@)); }
    }

    fn should_include_key(&self, key: &String) -> (r: bool)
        ensures
            r == key_allowed(self.settings().include_keys, self.settings().exclude_keys, key@),
    {
        let included = match self.include_keys {
            Some(keys) => key_in(keys, key),
            None => true,
        };
        let excluded = match self.exclude_keys {
            Some(keys) => key_in(keys, key),
            None => false,
        };
        included && !excluded
    }

    fn hash_metadata(&self, hasher: &mut FnvHasher)
        ensures
            final(hasher)@ == fnv_fold(old(hasher)@, meta_stream(sort_by(encode_pairs(filter_metadata(
                all_metadata(self.target().contexts()), self.settings().include_keys, self.settings().exclude_keys)), first_key()))),
    {
        proof { self.error.lemma_parts(); }
        let ghost f = self.settings();
        let ctxs = &self.error.context;
        let ghost all = context_views(ctxs@);
        let mut meta: Vec<(&[u8], &[u8])> = Vec::new();
        let mut i: usize = 0;
        while i < ctxs.len()
            invariant
                i <= ctxs@.len(),
                all == context_views(ctxs@),
                f == self.settings(),
                pair_views(meta@) == encode_pairs(filter_metadata(all_metadata(all.take(i as int)), f.include_keys, f.exclude_keys)),
            decreases ctxs@.len() - i,
        {
            assert(all.take(i + 1).drop_last() =~= all.take(i as int));
            match &ctxs[i] {
                ErrorContext::Group(g) => {
                    let ghost prev = all_metadata(all.take(i as int));
                    let mut j: usize = 0;
                    while j < g.metadata.len()
                        invariant
                            j <= g.metadata@.len(),
                            f == self.settings(),
                            pair_views(meta@) == encode_pairs(filter_metadata(prev + g.metadata@.take(j as int), f.include_keys, f.exclude_keys)),
                        decreases g.metadata@.len() - j,
                    {
                        let (k, v) = g.metadata.get(j);
                        assert((prev + g.metadata@.take(j + 1)).drop_last() =~= prev + g.metadata@.take(j as int));
                        assert((prev + g.metadata@.take(j + 1)).last() == g.metadata@[j as int]);
                        if self.should_include_key(k) {
                            let ghost before = pair_views(meta@);
                            meta.push((k.as_str().as_bytes(), v.as_str().as_bytes()));
                            assert(pair_views(meta@) =~= before.push((encode_utf8(k@), encode_utf8(v@))));
                            assert(encode_pairs(filter_metadata(prev + g.metadata@.take(j + 1), f.include_keys, f.exclude_keys))
                                =~= encode_pairs(filter_metadata(prev + g.metadata@.take(j as int), f.include_keys, f.exclude_keys)).push((encode_utf8(k@), encode_utf8(v@))));
                        }
                        j = j + 1;
                    }
                    assert(g.metadata@.take(g.metadata@.len() as int) =~= g.metadata@);
                    assert(all.take(i + 1).last() == ctxs@[i as int]@);
                    assert(all_metadata(all.take(i + 1)) =~= prev + g.metadata@);
                },
                ErrorContext::Simple(_) => {
                    assert(all.take(i + 1).last() == ctxs@[i as int]@);
                    assert(all_metadata(all.take(i + 1)) =~= all_metadata(all.take(i as int)));
                },
            }
            i = i + 1;
        }
        assert(all.take(ctxs@.len() as int) =~= all);
        let ghost unsorted = pair_views(meta@);
        let mut sorted: Vec<(&[u8], &[u8])> = Vec::new();
        let mut k: usize = 0;
        while k < meta.len()
            invariant
                k <= meta@.len(),
                unsorted == pair_views(meta@),
                pair_views(sorted@) == sort_by(unsorted.take(k as int), first_key()),
            decreases meta@.len() - k,
        {
            assert(unsorted.take(k + 1).drop_last() =~= unsorted.take(k as int));
            insert_pair(&mut sorted, meta[k]);
            k = k + 1;
        }
        assert(unsorted.take(meta@.len() as int) =~= unsorted);
        let ghost order = pair_views(sorted@);
        let ghost start = hasher@;
        let prefix: [u8; 5] = [109u8, 101u8, 116u8, 97u8, 58u8];
        let eq: [u8; 1] = [61u8];
        let mut m: usize = 0;
        while m < sorted.len()
            invariant
                m <= sorted@.len(),
                order == pair_views(sorted@),
                prefix@ == meta_prefix(),
                eq@ == eq_sign(),
                hasher@ == fnv_fold(start, meta_stream(order.take(m as int))),
            decreases sorted@.len() - m,
        {
            let (key, value) = sorted[m];
            hasher.write(prefix.as_slice());
            hasher.write(key);
            hasher.write(eq.as_slice());
            hasher.write(value);
            proof {
                let s0 = meta_stream(order.take(m as int));
                lemma_fnv_fold_append(start, s0, meta_prefix());
                lemma_fnv_fold_append(start, s0 + meta_prefix(), key@);
                lemma_fnv_fold_append(start, s0 + meta_prefix() + key@, eq_sign());
                lemma_fnv_fold_append(start, s0 + meta_prefix() + key@ + eq_sign(), value@);
                assert(order.take(m + 1).drop_last() =~= order.take(m as int));
            }
            m = m + 1;
        }
        assert(order.take(sorted@.len() as int) =~= order);
    }
}

/// Whether `key` is one of `keys`.
fn key_in(keys: &[&str], key: &String) -> (r: bool)
    ensures
        r == keys@.map_values(|s: &str| s@).contains(key@),
{
    let ghost ks = keys@.map_values(|s: &str| s@);
    let mut i: usize = 0;
    while i < keys.len()
        invariant
            i <= keys@.len(),
            ks == keys@.map_values(|s: &str| s@),
            forall|j: int| 0 <= j < i ==> ks[j] != key@,
        decreases keys@.len() - i,
    {
        let candidate = keys[i].to_owned();
        if candidate == *key {
            assert(ks[i as int] == key@);
            return true;
        }
        i = i + 1;
    }
    false
}

} // verus!
