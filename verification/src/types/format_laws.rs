//! What the layouts of a format configuration produce, stated over the
//! configuration's fields and the items alone.
use crate::text::{concat_all, join};
use crate::types::error_formatter::{
    cascade_piece, cascade_text, config_chain_text, linear_piece, linear_text, opt_text, repeat, FormatConfigView,
};
use vstd::prelude::*;

verus! {

/// Pieces that are the parts, each after the first preceded by `sep`,
/// concatenate to the parts joined by `sep`.
proof fn lemma_concat_separated(pieces: Seq<Seq<char>>, parts: Seq<Seq<char>>, sep: Seq<char>)
    requires
        pieces.len() == parts.len(),
        parts.len() > 0,
        pieces[0] == parts[0],
        forall|i: int| 1 <= i < parts.len() ==> #[trigger] pieces[i] == sep + parts[i],
    ensures
        concat_all(pieces) == join(parts, sep),
    decreases parts.len(),
{
    if parts.len() == 1 {
        assert(pieces.drop_last() =~= Seq::<Seq<char>>::empty());
        assert(concat_all(pieces) == concat_all(pieces.drop_last()) + pieces.last());
        assert(concat_all(pieces) =~= parts[0]);
    } else {
        let pf = pieces.drop_last();
        let qf = parts.drop_last();
        assert forall|i: int| 1 <= i < qf.len() implies #[trigger] pf[i] == sep + qf[i] by {
            assert(pieces[i] == sep + parts[i]);
        }
        lemma_concat_separated(pf, qf, sep);
        assert(pieces.last() == sep + parts.last());
        assert(concat_all(pieces) == concat_all(pf) + pieces.last());
        assert(join(parts, sep) == join(qf, sep) + sep + parts.last());
        assert(concat_all(pieces) =~= join(parts, sep));
    }
}

/// The prefix the last item gets: the root prefix when one is set,
/// otherwise the context prefix.
pub open spec fn last_prefix(c: FormatConfigView) -> Seq<char> {
    match c.root_prefix {
        Some(p) => p,
        None => opt_text(c.context_prefix),
    }
}

/// The suffix the last item gets: the root suffix when one is set,
/// otherwise the context suffix.
pub open spec fn last_suffix(c: FormatConfigView) -> Seq<char> {
    match c.root_suffix {
        Some(s) => s,
        None => opt_text(c.context_suffix),
    }
}

/// In the linear layout every item but the last sits between the context
/// prefix and suffix; the last sits between the root prefix and suffix,
/// each falling back to the context one when not set; items are joined by
/// the separator.
pub proof fn lemma_linear_layout(c: FormatConfigView, items: Seq<Seq<char>>)
    requires
        items.len() > 0,
        !(c.multiline && c.context_prefix is Some),
        !c.cascade,
    ensures
        config_chain_text(c, items) == join(
            Seq::new(items.len(), |i: int|
                if i < items.len() - 1 {
                    opt_text(c.context_prefix) + items[i] + opt_text(c.context_suffix)
                } else {
                    last_prefix(c) + items[i] + last_suffix(c)
                }),
            c.separator,
        ),
{
    let n = items.len();
    let parts = Seq::new(n, |i: int|
        if i < n - 1 {
            opt_text(c.context_prefix) + items[i] + opt_text(c.context_suffix)
        } else {
            last_prefix(c) + items[i] + last_suffix(c)
        });
    let pieces = Seq::new(n, |i: int| linear_piece(c, items, i));
    assert(pieces[0] =~= parts[0]);
    assert forall|i: int| 1 <= i < n implies #[trigger] pieces[i] == c.separator + parts[i] by {
        assert(pieces[i] =~= c.separator + parts[i]);
    }
    lemma_concat_separated(pieces, parts, c.separator);
    assert(config_chain_text(c, items) == linear_text(c, items));
}

/// With no root prefix or suffix, the linear layout is every item between
/// the context prefix and suffix, joined by the separator.
pub proof fn lemma_linear_layout_without_root(c: FormatConfigView, items: Seq<Seq<char>>)
    requires
        items.len() > 0,
        !(c.multiline && c.context_prefix is Some),
        !c.cascade,
        c.root_prefix is None,
        c.root_suffix is None,
    ensures
        config_chain_text(c, items) == join(
            items.map_values(|it: Seq<char>| opt_text(c.context_prefix) + it + opt_text(c.context_suffix)),
            c.separator,
        ),
{
    lemma_linear_layout(c, items);
    let n = items.len();
    let a = Seq::new(n, |i: int|
        if i < n - 1 {
            opt_text(c.context_prefix) + items[i] + opt_text(c.context_suffix)
        } else {
            last_prefix(c) + items[i] + last_suffix(c)
        });
    assert(a =~= items.map_values(|it: Seq<char>| opt_text(c.context_prefix) + it + opt_text(c.context_suffix)));
}

/// In the cascade layout the first item stands alone, and each later item
/// follows the separator and as many indents as its position: appending an
/// item at position `n` adds the separator, `n` indents and the item.
pub proof fn lemma_cascade_indents_by_position(c: FormatConfigView, items: Seq<Seq<char>>, x: Seq<char>)
    requires
        c.cascade,
        !(c.multiline && c.context_prefix is Some),
    ensures
        config_chain_text(c, seq![x]) == x,
        items.len() > 0 ==> config_chain_text(c, items.push(x))
            == config_chain_text(c, items) + c.separator + repeat(c.indent, items.len()) + x,
{
    let one = Seq::new(1, |i: int| cascade_piece(c, seq![x], i));
    assert(one.drop_last() =~= Seq::<Seq<char>>::empty());
    assert(concat_all(one) == concat_all(one.drop_last()) + one.last());
    assert(concat_all(one) =~= x);
    if items.len() > 0 {
        let n = items.len();
        let more = items.push(x);
        let pieces = Seq::new(n + 1, |i: int| cascade_piece(c, more, i));
        let front = Seq::new(n, |i: int| cascade_piece(c, items, i));
        assert(pieces.drop_last() =~= front);
        assert(pieces.last() == c.separator + repeat(c.indent, n) + x);
        assert(concat_all(pieces) == concat_all(front) + pieces.last());
        assert(config_chain_text(c, more) == cascade_text(c, more));
        assert(config_chain_text(c, items) == cascade_text(c, items));
        assert(concat_all(pieces) =~= concat_all(front) + c.separator + repeat(c.indent, n) + x);
    }
}

/// `s` repeated `k` times is `k` copies of `s` back to back.
pub proof fn lemma_repeat_copies(s: Seq<char>, k: nat)
    ensures
        repeat(s, k).len() == k * s.len(),
        forall|j: int| 0 <= j < k ==> #[trigger] repeat(s, k).subrange(j * s.len(), (j + 1) * s.len()) == s,
    decreases k,
{
    if k == 0 {
        assert(0 * s.len() == 0) by (nonlinear_arith);
    } else {
        lemma_repeat_copies(s, (k - 1) as nat);
        let prev = repeat(s, (k - 1) as nat);
        let r = repeat(s, k);
        assert(r == prev + s);
        assert(r.len() == k * s.len()) by (nonlinear_arith)
            requires
                r.len() == prev.len() + s.len(),
                prev.len() == (k - 1) * s.len(),
        ;
        assert forall|j: int| 0 <= j < k implies #[trigger] r.subrange(j * s.len(), (j + 1) * s.len()) == s by {
            assert((j + 1) * s.len() == j * s.len() + s.len()) by (nonlinear_arith);
            if j < k - 1 {
                assert((j + 1) * s.len() <= (k - 1) * s.len()) by (nonlinear_arith)
                    requires
                        j < k - 1,
                ;
                assert(0 <= j * s.len()) by (nonlinear_arith)
                    requires
                        0 <= j,
                ;
                assert(r.subrange(j * s.len(), (j + 1) * s.len()) =~= prev.subrange(j * s.len(), (j + 1) * s.len()));
            } else {
                assert(j * s.len() == prev.len());
                assert(r.subrange(j * s.len(), (j + 1) * s.len()) =~= s);
            }
        }
    }
}

} // verus!
