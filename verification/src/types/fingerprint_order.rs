//! Why the order of tags does not matter to a fingerprint: byte order is a
//! total order, sorting by it gives the one sorted arrangement of the tags,
//! and that arrangement depends only on which tags occur and how often.
use crate::types::error_context::ContextView;
use crate::types::fingerprint::{
    all_metadata, all_tags, bytes_le, default_fingerprint, encode_all, encode_pairs, filter_metadata, fingerprint_of, fingerprint_stream,
    first_key, insert_by, key_allowed, metadata_of, sort_by, tags_of, whole_key, FingerprintView,
};
use vstd::prelude::*;
use vstd::relations::{sorted_by, total_ordering};
use vstd::seq_lib::lemma_sorted_unique;

verus! {

broadcast use vstd::seq_lib::group_to_multiset_ensures, vstd::multiset::group_multiset_axioms;

/// Byte order as a relation.
pub open spec fn byte_order() -> spec_fn(Seq<u8>, Seq<u8>) -> bool {
    |a: Seq<u8>, b: Seq<u8>| bytes_le(a, b)
}

proof fn lemma_bytes_le_reflexive(a: Seq<u8>)
    ensures
        bytes_le(a, a),
    decreases a.len(),
{
    if a.len() > 0 {
        lemma_bytes_le_reflexive(a.drop_first());
    }
}

proof fn lemma_bytes_le_total(a: Seq<u8>, b: Seq<u8>)
    ensures
        bytes_le(a, b) || bytes_le(b, a),
    decreases a.len(),
{
    if a.len() > 0 && b.len() > 0 && a[0] == b[0] {
        lemma_bytes_le_total(a.drop_first(), b.drop_first());
    }
}

proof fn lemma_bytes_le_antisymmetric(a: Seq<u8>, b: Seq<u8>)
    requires
        bytes_le(a, b),
        bytes_le(b, a),
    ensures
        a == b,
    decreases a.len(),
{
    assert(a.to_multiset().len() == a.len());
    assert(b.to_multiset().len() == b.len());
    if a.len() == 0 {
        assert(b.len() == 0);
        assert(a =~= b);
    } else {
        lemma_bytes_le_antisymmetric(a.drop_first(), b.drop_first());
        assert(a =~= seq![a[0]] + a.drop_first());
        assert(b =~= seq![b[0]] + b.drop_first());
    }
}

proof fn lemma_bytes_le_transitive(a: Seq<u8>, b: Seq<u8>, c: Seq<u8>)
    requires
        bytes_le(a, b),
        bytes_le(b, c),
    ensures
        bytes_le(a, c),
    decreases a.len(),
{
    if a.len() > 0 && a[0] == c[0] {
        lemma_bytes_le_transitive(a.drop_first(), b.drop_first(), c.drop_first());
    }
}

/// Byte order is a total order.
pub proof fn lemma_byte_order_total()
    ensures
        total_ordering(byte_order()),
{
    let r = byte_order();
    assert forall|x: Seq<u8>| #[trigger] r(x, x) by {
        lemma_bytes_le_reflexive(x);
    }
    assert forall|x: Seq<u8>, y: Seq<u8>| #[trigger] r(x, y) && #[trigger] r(y, x) implies x == y by {
        lemma_bytes_le_antisymmetric(x, y);
    }
    assert forall|x: Seq<u8>, y: Seq<u8>, z: Seq<u8>| #[trigger] r(x, y) && #[trigger] r(y, z) implies r(x, z) by {
        lemma_bytes_le_transitive(x, y, z);
    }
    assert forall|x: Seq<u8>, y: Seq<u8>| #[trigger] r(x, y) || #[trigger] r(y, x) by {
        lemma_bytes_le_total(x, y);
    }
}

/// Whether `s` is in byte order of `key`.
pub open spec fn sorted_by_key<A>(s: Seq<A>, key: spec_fn(A) -> Seq<u8>) -> bool {
    forall|i: int, j: int| 0 <= i < j < s.len() ==> #[trigger] bytes_le(key(s[i]), key(s[j]))
}

/// Inserting adds exactly the inserted item.
proof fn lemma_insert_keeps_items<A>(sorted: Seq<A>, x: A, key: spec_fn(A) -> Seq<u8>)
    ensures
        insert_by(sorted, x, key).to_multiset() == sorted.to_multiset().insert(x),
    decreases sorted.len(),
{
    if sorted.len() == 0 {
        assert(seq![x] =~= Seq::<A>::empty().push(x));
    } else if bytes_le(key(sorted.last()), key(x)) {
    } else {
        lemma_insert_keeps_items(sorted.drop_last(), x, key);
        assert(sorted =~= sorted.drop_last().push(sorted.last()));
        assert(sorted.drop_last().to_multiset().insert(x).insert(sorted.last())
            =~= sorted.drop_last().to_multiset().insert(sorted.last()).insert(x));
    }
}

/// Inserting into a sequence in key order keeps it in key order.
proof fn lemma_insert_keeps_order<A>(sorted: Seq<A>, x: A, key: spec_fn(A) -> Seq<u8>)
    requires
        sorted_by_key(sorted, key),
    ensures
        sorted_by_key(insert_by(sorted, x, key), key),
    decreases sorted.len(),
{
    let out = insert_by(sorted, x, key);
    if sorted.len() == 0 {
    } else if bytes_le(key(sorted.last()), key(x)) {
        assert forall|i: int, j: int| 0 <= i < j < out.len() implies #[trigger] bytes_le(key(out[i]), key(out[j])) by {
            if j == out.len() - 1 && i < sorted.len() - 1 {
                assert(bytes_le(key(sorted[i]), key(sorted[sorted.len() - 1])));
                lemma_bytes_le_transitive(key(sorted[i]), key(sorted.last()), key(x));
            }
        }
    } else {
        let last = sorted.last();
        let front = sorted.drop_last();
        lemma_bytes_le_total(key(last), key(x));
        assert forall|i: int, j: int| 0 <= i < j < front.len() implies #[trigger] bytes_le(key(front[i]), key(front[j])) by {
            assert(bytes_le(key(sorted[i]), key(sorted[j])));
        }
        lemma_insert_keeps_order(front, x, key);
        lemma_insert_keeps_items(front, x, key);
        let inner = insert_by(front, x, key);
        assert(out == inner.push(last));
        assert forall|i: int, j: int| 0 <= i < j < out.len() implies #[trigger] bytes_le(key(out[i]), key(out[j])) by {
            if j == out.len() - 1 {
                let y = inner[i];
                assert(inner.to_multiset().count(y) > 0);
                if y != x {
                    assert(front.to_multiset().count(y) > 0);
                    let k = choose|k: int| 0 <= k < front.len() && front[k] == y;
                    assert(sorted[k] == y);
                    assert(bytes_le(key(sorted[k]), key(sorted[sorted.len() - 1])));
                }
            } else {
                assert(bytes_le(key(inner[i]), key(inner[j])));
            }
        }
    }
}

/// Sorting keeps the items and puts them in key order.
proof fn lemma_sort_sorts<A>(s: Seq<A>, key: spec_fn(A) -> Seq<u8>)
    ensures
        sort_by(s, key).to_multiset() == s.to_multiset(),
        sorted_by_key(sort_by(s, key), key),
    decreases s.len(),
{
    if s.len() > 0 {
        lemma_sort_sorts(s.drop_last(), key);
        lemma_insert_keeps_items(sort_by(s.drop_last(), key), s.last(), key);
        lemma_insert_keeps_order(sort_by(s.drop_last(), key), s.last(), key);
        assert(s =~= s.drop_last().push(s.last()));
    }
}

/// Sequences with the same items in any order sort to the same sequence.
pub proof fn lemma_sort_ignores_order(a: Seq<Seq<u8>>, b: Seq<Seq<u8>>)
    requires
        a.to_multiset() == b.to_multiset(),
    ensures
        sort_by(a, whole_key()) == sort_by(b, whole_key()),
{
    lemma_sort_sorts(a, whole_key());
    lemma_sort_sorts(b, whole_key());
    lemma_byte_order_total();
    let sa = sort_by(a, whole_key());
    let sb = sort_by(b, whole_key());
    assert forall|i: int, j: int| 0 <= i < j < sa.len() implies #[trigger] byte_order()(sa[i], sa[j]) by {
        assert(bytes_le(whole_key()(sa[i]), whole_key()(sa[j])));
    }
    assert forall|i: int, j: int| 0 <= i < j < sb.len() implies #[trigger] byte_order()(sb[i], sb[j]) by {
        assert(bytes_le(whole_key()(sb[i]), whole_key()(sb[j])));
    }
    lemma_sorted_unique(sa, sb, byte_order());
}

/// Mapping each item keeps "same items, any order".
pub proof fn lemma_map_keeps_items<A, B>(a: Seq<A>, b: Seq<A>, f: spec_fn(A) -> B)
    requires
        a.to_multiset() == b.to_multiset(),
    ensures
        a.map_values(f).to_multiset() == b.map_values(f).to_multiset(),
    decreases a.len(),
{
    assert(a.to_multiset().len() == a.len());
    assert(b.to_multiset().len() == b.len());
    if a.len() == 0 {
        assert(b.len() == 0);
        assert(a.map_values(f) =~= b.map_values(f));
    } else {
        let x = a.last();
        let front = a.drop_last();
        assert(a =~= front.push(x));
        assert(b.to_multiset().count(x) > 0);
        let j = choose|j: int| 0 <= j < b.len() && b[j] == x;
        let rest = b.remove(j);
        assert(rest.to_multiset() == b.to_multiset().remove(x));
        assert(front.to_multiset() =~= rest.to_multiset());
        lemma_map_keeps_items(front, rest, f);
        assert(a.map_values(f) =~= front.map_values(f).push(f(x)));
        assert(b.map_values(f) =~= rest.map_values(f).insert(j, f(x)));
        assert(rest.map_values(f).insert(j, f(x)).to_multiset() == rest.map_values(f).to_multiset().insert(f(x)));
    }
}

/// The order in which tags were attached, within a context or across
/// contexts, does not change a fingerprint: only which tags occur, and how
/// often, counts. (Everything else about the errors is the same.)
pub proof fn lemma_fingerprint_ignores_tag_order(
    f: FingerprintView,
    cs1: Seq<ContextView>,
    cs2: Seq<ContextView>,
    code: Option<u32>,
    core: Seq<char>,
)
    requires
        all_tags(cs1).to_multiset() == all_tags(cs2).to_multiset(),
        all_metadata(cs1) == all_metadata(cs2),
    ensures
        fingerprint_of(f, cs1, code, core) == fingerprint_of(f, cs2, code, core),
{
    let enc = |t: Seq<char>| vstd::utf8::encode_utf8(t);
    lemma_map_keeps_items(all_tags(cs1), all_tags(cs2), enc);
    assert(encode_all(all_tags(cs1)) == all_tags(cs1).map_values(enc));
    assert(encode_all(all_tags(cs2)) == all_tags(cs2).map_values(enc));
    lemma_sort_ignores_order(encode_all(all_tags(cs1)), encode_all(all_tags(cs2)));
    assert(fingerprint_stream(f, cs1, code, core) == fingerprint_stream(f, cs2, code, core));
}

/// Byte order on pairs: by first component, then by second.
pub open spec fn pair_order() -> spec_fn((Seq<u8>, Seq<u8>), (Seq<u8>, Seq<u8>)) -> bool {
    |a: (Seq<u8>, Seq<u8>), b: (Seq<u8>, Seq<u8>)| bytes_le(a.0, b.0) && (a.0 != b.0 || bytes_le(a.1, b.1))
}

/// Byte order on pairs is a total order.
proof fn lemma_pair_order_total()
    ensures
        total_ordering(pair_order()),
{
    let r = pair_order();
    assert forall|x: (Seq<u8>, Seq<u8>)| #[trigger] r(x, x) by {
        lemma_bytes_le_reflexive(x.0);
        lemma_bytes_le_reflexive(x.1);
    }
    assert forall|x: (Seq<u8>, Seq<u8>), y: (Seq<u8>, Seq<u8>)| #[trigger] r(x, y) && #[trigger] r(y, x) implies x == y by {
        lemma_bytes_le_antisymmetric(x.0, y.0);
        lemma_bytes_le_antisymmetric(x.1, y.1);
    }
    assert forall|x: (Seq<u8>, Seq<u8>), y: (Seq<u8>, Seq<u8>), z: (Seq<u8>, Seq<u8>)|
        #[trigger] r(x, y) && #[trigger] r(y, z) implies r(x, z) by {
        lemma_bytes_le_transitive(x.0, y.0, z.0);
        if x.0 == z.0 {
            lemma_bytes_le_antisymmetric(x.0, y.0);
            lemma_bytes_le_transitive(x.1, y.1, z.1);
        }
    }
    assert forall|x: (Seq<u8>, Seq<u8>), y: (Seq<u8>, Seq<u8>)| #[trigger] r(x, y) || #[trigger] r(y, x) by {
        lemma_bytes_le_total(x.0, y.0);
        lemma_bytes_le_total(x.1, y.1);
        if bytes_le(x.0, y.0) && bytes_le(y.0, x.0) {
            lemma_bytes_le_antisymmetric(x.0, y.0);
        }
    }
}

/// No two pairs of `s` share their first component.
pub open spec fn distinct_keys<K, V>(s: Seq<(K, V)>) -> bool {
    forall|i: int, j: int| 0 <= i < j < s.len() ==> #[trigger] s[i].0 != #[trigger] s[j].0
}

/// Keys stay distinct under any reordering.
proof fn lemma_distinct_keys_transfer<K, V>(a: Seq<(K, V)>, b: Seq<(K, V)>)
    requires
        a.to_multiset() == b.to_multiset(),
        distinct_keys(a),
    ensures
        distinct_keys(b),
{
    assert(a.no_duplicates()) by {
        assert forall|i: int, j: int| 0 <= i < a.len() && 0 <= j < a.len() && i != j implies a[i] != a[j] by {
            if i < j {
                assert(a[i].0 != a[j].0);
            } else {
                assert(a[j].0 != a[i].0);
            }
        }
    }
    a.lemma_multiset_has_no_duplicates();
    b.lemma_multiset_has_no_duplicates_conv();
    assert forall|p: int, q: int| 0 <= p < q < b.len() implies #[trigger] b[p].0 != #[trigger] b[q].0 by {
        assert(b.to_multiset().count(b[p]) > 0);
        assert(b.to_multiset().count(b[q]) > 0);
        let i = choose|i: int| 0 <= i < a.len() && a[i] == b[p];
        let j = choose|j: int| 0 <= j < a.len() && a[j] == b[q];
        assert(b[p] != b[q]);
        if i < j {
            assert(a[i].0 != a[j].0);
        } else {
            assert(a[j].0 != a[i].0);
        }
    }
}

/// Encoding keeps distinct keys distinct.
proof fn lemma_encoding_keeps_keys_distinct(meta: Seq<(Seq<char>, Seq<char>)>)
    requires
        distinct_keys(meta),
    ensures
        distinct_keys(encode_pairs(meta)),
{
    broadcast use vstd::utf8::encode_utf8_decode_utf8;

    let enc = encode_pairs(meta);
    assert forall|i: int, j: int| 0 <= i < j < enc.len() implies #[trigger] enc[i].0 != #[trigger] enc[j].0 by {
        assert(meta[i].0 != meta[j].0);
        assert(vstd::utf8::decode_utf8(enc[i].0) == meta[i].0);
        assert(vstd::utf8::decode_utf8(enc[j].0) == meta[j].0);
    }
}

/// Reorderings of pairs with distinct keys sort by key to the same sequence.
pub proof fn lemma_key_sort_ignores_order(a: Seq<(Seq<u8>, Seq<u8>)>, b: Seq<(Seq<u8>, Seq<u8>)>)
    requires
        a.to_multiset() == b.to_multiset(),
        distinct_keys(a),
    ensures
        sort_by(a, first_key()) == sort_by(b, first_key()),
{
    lemma_sort_sorts(a, first_key());
    lemma_sort_sorts(b, first_key());
    lemma_pair_order_total();
    let sa = sort_by(a, first_key());
    let sb = sort_by(b, first_key());
    lemma_distinct_keys_transfer(a, sa);
    lemma_distinct_keys_transfer(a, b);
    lemma_distinct_keys_transfer(b, sb);
    assert forall|i: int, j: int| 0 <= i < j < sa.len() implies #[trigger] pair_order()(sa[i], sa[j]) by {
        assert(bytes_le(first_key()(sa[i]), first_key()(sa[j])));
        assert(sa[i].0 != sa[j].0);
    }
    assert forall|i: int, j: int| 0 <= i < j < sb.len() implies #[trigger] pair_order()(sb[i], sb[j]) by {
        assert(bytes_le(first_key()(sb[i]), first_key()(sb[j])));
        assert(sb[i].0 != sb[j].0);
    }
    lemma_sorted_unique(sa, sb, pair_order());
}

/// A fingerprint depends on tags and metadata only as collections: tags
/// reordered (within or across contexts), and metadata entries reordered
/// while no key repeats among those the configuration takes in, leave it
/// unchanged. (Everything else about the errors is the same.)
pub proof fn lemma_fingerprint_ignores_order(
    f: FingerprintView,
    cs1: Seq<ContextView>,
    cs2: Seq<ContextView>,
    code: Option<u32>,
    core: Seq<char>,
)
    requires
        all_tags(cs1).to_multiset() == all_tags(cs2).to_multiset(),
        filter_metadata(all_metadata(cs1), f.include_keys, f.exclude_keys).to_multiset()
            == filter_metadata(all_metadata(cs2), f.include_keys, f.exclude_keys).to_multiset(),
        distinct_keys(filter_metadata(all_metadata(cs1), f.include_keys, f.exclude_keys)),
    ensures
        fingerprint_of(f, cs1, code, core) == fingerprint_of(f, cs2, code, core),
{
    let enc = |t: Seq<char>| vstd::utf8::encode_utf8(t);
    lemma_map_keeps_items(all_tags(cs1), all_tags(cs2), enc);
    assert(encode_all(all_tags(cs1)) == all_tags(cs1).map_values(enc));
    assert(encode_all(all_tags(cs2)) == all_tags(cs2).map_values(enc));
    lemma_sort_ignores_order(encode_all(all_tags(cs1)), encode_all(all_tags(cs2)));

    let m1 = filter_metadata(all_metadata(cs1), f.include_keys, f.exclude_keys);
    let m2 = filter_metadata(all_metadata(cs2), f.include_keys, f.exclude_keys);
    let enc_pair = |kv: (Seq<char>, Seq<char>)| (vstd::utf8::encode_utf8(kv.0), vstd::utf8::encode_utf8(kv.1));
    lemma_map_keeps_items(m1, m2, enc_pair);
    assert(encode_pairs(m1) == m1.map_values(enc_pair));
    assert(encode_pairs(m2) == m2.map_values(enc_pair));
    lemma_encoding_keeps_keys_distinct(m1);
    lemma_key_sort_ignores_order(encode_pairs(m1), encode_pairs(m2));
    assert(fingerprint_stream(f, cs1, code, core) == fingerprint_stream(f, cs2, code, core));
}

/// Tags of contexts side by side are the tags of each, in order.
proof fn lemma_all_tags_append(p: Seq<ContextView>, q: Seq<ContextView>)
    ensures
        all_tags(p + q) == all_tags(p) + all_tags(q),
    decreases q.len(),
{
    if q.len() == 0 {
        assert(p + q =~= p);
        assert(all_tags(p) + all_tags(q) =~= all_tags(p));
    } else {
        lemma_all_tags_append(p, q.drop_last());
        assert((p + q).drop_last() =~= p + q.drop_last());
        assert(all_tags(p) + all_tags(q) =~= all_tags(p) + all_tags(q.drop_last()) + tags_of(q.last()));
    }
}

/// Metadata of contexts side by side is the metadata of each, in order.
proof fn lemma_all_metadata_append(p: Seq<ContextView>, q: Seq<ContextView>)
    ensures
        all_metadata(p + q) == all_metadata(p) + all_metadata(q),
    decreases q.len(),
{
    if q.len() == 0 {
        assert(p + q =~= p);
        assert(all_metadata(p) + all_metadata(q) =~= all_metadata(p));
    } else {
        lemma_all_metadata_append(p, q.drop_last());
        assert((p + q).drop_last() =~= p + q.drop_last());
        assert(all_metadata(p) + all_metadata(q)
            =~= all_metadata(p) + all_metadata(q.drop_last()) + metadata_of(q.last()));
    }
}

/// Filtering pairs side by side filters each, in order.
proof fn lemma_filter_append(
    a: Seq<(Seq<char>, Seq<char>)>,
    b: Seq<(Seq<char>, Seq<char>)>,
    allow_list: Option<Seq<Seq<char>>>,
    deny_list: Option<Seq<Seq<char>>>,
)
    ensures
        filter_metadata(a + b, allow_list, deny_list)
            == filter_metadata(a, allow_list, deny_list) + filter_metadata(b, allow_list, deny_list),
    decreases b.len(),
{
    if b.len() == 0 {
        assert(a + b =~= a);
        assert(filter_metadata(a, allow_list, deny_list) + filter_metadata(b, allow_list, deny_list)
            =~= filter_metadata(a, allow_list, deny_list));
    } else {
        lemma_filter_append(a, b.drop_last(), allow_list, deny_list);
        assert((a + b).drop_last() =~= a + b.drop_last());
        assert((a + b).last() == b.last());
        let fa = filter_metadata(a, allow_list, deny_list);
        let fb = filter_metadata(b.drop_last(), allow_list, deny_list);
        assert((fa + fb).push(b.last()) =~= fa + fb.push(b.last()));
    }
}

/// Whether context `c` adds nothing that a fingerprint with settings `f`
/// takes in: no tags, and only metadata whose keys the settings leave out.
pub open spec fn ignored_by(f: FingerprintView, c: ContextView) -> bool {
    &&& tags_of(c).len() == 0
    &&& forall|i: int| 0 <= i < metadata_of(c).len()
        ==> !key_allowed(f.include_keys, f.exclude_keys, (#[trigger] metadata_of(c)[i]).0)
}

proof fn lemma_ignored_contexts_add_nothing(f: FingerprintView, extra: Seq<ContextView>)
    requires
        forall|i: int| 0 <= i < extra.len() ==> ignored_by(f, #[trigger] extra[i]),
    ensures
        all_tags(extra) == Seq::<Seq<char>>::empty(),
        filter_metadata(all_metadata(extra), f.include_keys, f.exclude_keys)
            == Seq::<(Seq<char>, Seq<char>)>::empty(),
    decreases extra.len(),
{
    if extra.len() > 0 {
        let front = extra.drop_last();
        assert forall|i: int| 0 <= i < front.len() implies ignored_by(f, #[trigger] front[i]) by {
            assert(front[i] == extra[i]);
        }
        lemma_ignored_contexts_add_nothing(f, front);
        let last = extra.last();
        assert(ignored_by(f, extra[extra.len() - 1]));
        assert(all_tags(extra) =~= Seq::<Seq<char>>::empty());
        lemma_filter_append(all_metadata(front), metadata_of(last), f.include_keys, f.exclude_keys);
        assert(filter_metadata(metadata_of(last), f.include_keys, f.exclude_keys) =~= Seq::empty()) by {
            lemma_nothing_allowed(metadata_of(last), f);
        }
        assert(filter_metadata(all_metadata(extra), f.include_keys, f.exclude_keys) =~= Seq::empty());
    }
}

proof fn lemma_nothing_allowed(m: Seq<(Seq<char>, Seq<char>)>, f: FingerprintView)
    requires
        forall|i: int| 0 <= i < m.len() ==> !key_allowed(f.include_keys, f.exclude_keys, (#[trigger] m[i]).0),
    ensures
        filter_metadata(m, f.include_keys, f.exclude_keys) == Seq::<(Seq<char>, Seq<char>)>::empty(),
    decreases m.len(),
{
    if m.len() > 0 {
        let front = m.drop_last();
        assert forall|i: int| 0 <= i < front.len() implies !key_allowed(f.include_keys, f.exclude_keys, (#[trigger] front[i]).0) by {
            assert(front[i] == m[i]);
        }
        lemma_nothing_allowed(front, f);
        assert(!key_allowed(f.include_keys, f.exclude_keys, m[m.len() - 1].0));
    }
}

/// Contexts that carry no tags and only metadata whose keys the settings
/// leave out (excluded, or not among those included) do not change a
/// fingerprint, wherever among the other contexts they are attached.
pub proof fn lemma_fingerprint_ignores_filtered_contexts(
    f: FingerprintView,
    before: Seq<ContextView>,
    extra: Seq<ContextView>,
    after: Seq<ContextView>,
    code: Option<u32>,
    core: Seq<char>,
)
    requires
        forall|i: int| 0 <= i < extra.len() ==> ignored_by(f, #[trigger] extra[i]),
    ensures
        fingerprint_of(f, before + extra + after, code, core) == fingerprint_of(f, before + after, code, core),
{
    lemma_ignored_contexts_add_nothing(f, extra);
    lemma_all_tags_append(before + extra, after);
    lemma_all_tags_append(before, extra);
    lemma_all_tags_append(before, after);
    lemma_all_metadata_append(before + extra, after);
    lemma_all_metadata_append(before, extra);
    lemma_all_metadata_append(before, after);
    let ik = f.include_keys;
    let ek = f.exclude_keys;
    lemma_filter_append(all_metadata(before) + all_metadata(extra), all_metadata(after), ik, ek);
    lemma_filter_append(all_metadata(before), all_metadata(extra), ik, ek);
    lemma_filter_append(all_metadata(before), all_metadata(after), ik, ek);
    assert(all_tags(before + extra + after) =~= all_tags(before + after));
    assert(filter_metadata(all_metadata(before + extra + after), ik, ek)
        =~= filter_metadata(all_metadata(before + after), ik, ek));
    assert(fingerprint_stream(f, before + extra + after, code, core) == fingerprint_stream(f, before + after, code, core));
}

/// The default fingerprint leaves metadata out: errors whose contexts carry
/// the same tags (in any order), with the same code and core message, get
/// the same default fingerprint whatever metadata their contexts carry.
pub proof fn lemma_default_fingerprint_ignores_metadata(
    cs1: Seq<ContextView>,
    cs2: Seq<ContextView>,
    code: Option<u32>,
    core: Seq<char>,
)
    requires
        all_tags(cs1).to_multiset() == all_tags(cs2).to_multiset(),
    ensures
        fingerprint_of(default_fingerprint(), cs1, code, core) == fingerprint_of(default_fingerprint(), cs2, code, core),
{
    let enc = |t: Seq<char>| vstd::utf8::encode_utf8(t);
    lemma_map_keeps_items(all_tags(cs1), all_tags(cs2), enc);
    assert(encode_all(all_tags(cs1)) == all_tags(cs1).map_values(enc));
    assert(encode_all(all_tags(cs2)) == all_tags(cs2).map_values(enc));
    lemma_sort_ignores_order(encode_all(all_tags(cs1)), encode_all(all_tags(cs2)));
    assert(fingerprint_stream(default_fingerprint(), cs1, code, core)
        == fingerprint_stream(default_fingerprint(), cs2, code, core));
}

} // verus!
