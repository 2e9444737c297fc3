use vstd::prelude::*;

use crate::color::{channel_le, exec_channel_le, CylindricalColor};
use vstd::pervasive::VecAdditionalExecFns;

verus! {

/// The perceptual attribute by which a palette is ordered, or `Unsorted`
/// for no reordering.
#[derive(Clone, Copy, PartialEq, Eq, Structural, Debug)]
pub enum SortKey {
    Hue,
    Saturation,
    Lightness,
    Unsorted,
}

/// The channel a sort key selects. For `Unsorted` no channel is ever
/// consulted; the value here is arbitrary.
pub open spec fn channel(c: CylindricalColor, key: SortKey) -> u32 {
    match key {
        SortKey::Hue => c.hue,
        SortKey::Saturation => c.sat,
        SortKey::Lightness => c.light,
        SortKey::Unsorted => 0,
    }
}

fn exec_channel(c: &CylindricalColor, key: SortKey) -> (k: u32)
    ensures
        k == channel(*c, key),
{
    match key {
        SortKey::Hue => c.hue,
        SortKey::Saturation => c.sat,
        SortKey::Lightness => c.light,
        SortKey::Unsorted => 0,
    }
}

/// Adjacent colors are in non-decreasing order of the selected channel.
pub open spec fn sorted_by_channel(s: Seq<CylindricalColor>, key: SortKey) -> bool {
    forall|a: int, b: int|
        0 <= a < b < s.len() ==> channel_le(
            #[trigger] channel(s[a], key),
            #[trigger] channel(s[b], key),
        )
}

/// Adjacent colors are in non-increasing order of the selected channel.
pub open spec fn sorted_desc_by_channel(s: Seq<CylindricalColor>, key: SortKey) -> bool {
    forall|a: int, b: int|
        0 <= a < b < s.len() ==> channel_le(
            #[trigger] channel(s[b], key),
            #[trigger] channel(s[a], key),
        )
}

/// The colors whose selected channel equals `k`, in order.
pub open spec fn same_channel(key: SortKey, k: u32) -> spec_fn(CylindricalColor) -> bool {
    |c: CylindricalColor| channel(c, key) == k
}

/// `out` is a permutation of `input` in which, for every channel value, the
/// colors carrying that value keep the relative order they had in `input`:
/// the characterization of a stable reordering.
pub open spec fn stable_permutation_by(
    key: SortKey,
    input: Seq<CylindricalColor>,
    out: Seq<CylindricalColor>,
) -> bool {
    forall|k: u32|
        #[trigger] out.filter(same_channel(key, k)) == input.filter(same_channel(key, k))
}

/// Filtering ignores the order of a pair of which at most one member is
/// kept, so swapping such a pair does not change the filtered sequence.
proof fn lemma_filter_pair(
    x: CylindricalColor,
    y: CylindricalColor,
    pred: spec_fn(CylindricalColor) -> bool,
)
    requires
        !(pred(x) && pred(y)),
    ensures
        seq![x, y].filter(pred) == seq![y, x].filter(pred),
{
    reveal_with_fuel(Seq::filter, 3);
    assert(seq![x, y].drop_last() =~= seq![x]);
    assert(seq![y, x].drop_last() =~= seq![y]);
    assert(seq![x].drop_last() =~= Seq::<CylindricalColor>::empty());
    assert(seq![y].drop_last() =~= Seq::<CylindricalColor>::empty());
    if pred(x) {
        assert(seq![x, y].filter(pred) =~= seq![x]);
        assert(seq![y, x].filter(pred) =~= seq![x]);
    } else if pred(y) {
        assert(seq![x, y].filter(pred) =~= seq![y]);
        assert(seq![y, x].filter(pred) =~= seq![y]);
    } else {
        assert(seq![x, y].filter(pred) =~= Seq::<CylindricalColor>::empty());
        assert(seq![y, x].filter(pred) =~= Seq::<CylindricalColor>::empty());
    }
}

/// Swapping two adjacent elements of which at most one satisfies `pred`
/// leaves the filtered sequence unchanged.
proof fn lemma_swap_adjacent_filter(
    s: Seq<CylindricalColor>,
    i: int,
    pred: spec_fn(CylindricalColor) -> bool,
)
    requires
        0 <= i,
        i + 1 < s.len(),
        !(pred(s[i]) && pred(s[i + 1])),
    ensures
        s.update(i, s[i + 1]).update(i + 1, s[i]).filter(pred) == s.filter(pred),
{
    let t = s.update(i, s[i + 1]).update(i + 1, s[i]);
    let a = s.subrange(0, i);
    let m1 = s.subrange(i, i + 2);
    let m2 = t.subrange(i, i + 2);
    let b = s.subrange(i + 2, s.len() as int);
    assert(s =~= a + (m1 + b));
    assert(t =~= a + (m2 + b));
    Seq::filter_distributes_over_add(a, m1 + b, pred);
    Seq::filter_distributes_over_add(m1, b, pred);
    Seq::filter_distributes_over_add(a, m2 + b, pred);
    Seq::filter_distributes_over_add(m2, b, pred);
    assert(m1 =~= seq![s[i], s[i + 1]]);
    assert(m2 =~= seq![s[i + 1], s[i]]);
    lemma_filter_pair(s[i], s[i + 1], pred);
}

/// Move the color at position `i` down into the sorted prefix of length
/// `i`, by adjacent swaps, so that the prefix of length `i + 1` is sorted.
/// Each swap exchanges colors with distinct channel values, so the relative
/// order of colors with equal channel values is preserved.
fn insert_sorted(v: &mut Vec<CylindricalColor>, key: SortKey, i: usize)
    requires
        0 < i < old(v)@.len(),
        sorted_by_channel(old(v)@.take(i as int), key),
    ensures
        final(v)@.len() == old(v)@.len(),
        sorted_by_channel(final(v)@.take(i as int + 1), key),
        stable_permutation_by(key, old(v)@, final(v)@),
{
    let n = v.len();
    let mut j: usize = i;
    proof {
        assert forall|a: int, bb: int|
            0 <= a < bb <= i as int && bb != j as int implies channel_le(
            #[trigger] channel(v@[a], key),
            #[trigger] channel(v@[bb], key),
        ) by {
            assert(v@.take(i as int)[a] == v@[a]);
            assert(v@.take(i as int)[bb] == v@[bb]);
        }
    }
    while j > 0
        invariant
            j <= i < n,
            n == v@.len(),
            n == old(v)@.len(),
            forall|a: int, b: int|
                0 <= a < b <= i as int && b != j as int ==> channel_le(
                    #[trigger] channel(v@[a], key),
                    #[trigger] channel(v@[b], key),
                ),
            forall|b: int|
                (j as int) < b <= i as int ==> !channel_le(
                    #[trigger] channel(v@[b], key),
                    channel(v@[j as int], key),
                ),
            stable_permutation_by(key, old(v)@, v@),
        decreases j,
    {
        let prev = v[j - 1];
        let cur = v[j];
        if exec_channel_le(exec_channel(&prev, key), exec_channel(&cur, key)) {
            proof {
                assert forall|a: int, b: int|
                    0 <= a < b < i as int + 1 implies channel_le(
                    #[trigger] channel(v@.take(i as int + 1)[a], key),
                    #[trigger] channel(v@.take(i as int + 1)[b], key),
                ) by {
                    assert(v@.take(i as int + 1)[a] == v@[a]);
                    assert(v@.take(i as int + 1)[b] == v@[b]);
                    if b == j as int && a < j as int - 1 {
                        assert(channel_le(channel(v@[a], key), channel(v@[j as int - 1], key)));
                    }
                }
            }
            return;
        }
        let ghost before = v@;
        v.set(j - 1, cur);
        v.set(j, prev);
        proof {
            assert(v@ =~= before.update(j as int - 1, cur).update(j as int, prev));
            assert forall|k: u32|
                #[trigger] v@.filter(same_channel(key, k)) == old(v)@.filter(same_channel(key, k)) by {
                let pred = same_channel(key, k);
                assert(!(pred(before[j as int - 1]) && pred(before[j as int])));
                lemma_swap_adjacent_filter(before, j as int - 1, pred);
                assert(before.filter(pred) == old(v)@.filter(pred));
            }
        }
        j = j - 1;
    }
    proof {
        assert forall|a: int, b: int|
            0 <= a < b < i as int + 1 implies channel_le(
            #[trigger] channel(v@.take(i as int + 1)[a], key),
            #[trigger] channel(v@.take(i as int + 1)[b], key),
        ) by {
            assert(v@.take(i as int + 1)[a] == v@[a]);
            assert(v@.take(i as int + 1)[b] == v@[b]);
        }
    }
}

/// Stable ascending sort of the palette by the selected channel, under the
/// total order on channel bit patterns.
fn sort_vec_by_channel(v: &mut Vec<CylindricalColor>, key: SortKey)
    ensures
        final(v)@.len() == old(v)@.len(),
        sorted_by_channel(final(v)@, key),
        stable_permutation_by(key, old(v)@, final(v)@),
{
    let n = v.len();
    if n < 2 {
        return;
    }
    let mut i: usize = 1;
    while i < n
        invariant
            1 <= i <= n,
            n == v@.len(),
            n == old(v)@.len(),
            sorted_by_channel(v@.take(i as int), key),
            stable_permutation_by(key, old(v)@, v@),
        decreases n - i,
    {
        let ghost mid = v@;
        insert_sorted(v, key, i);
        proof {
            assert forall|k: u32|
                #[trigger] v@.filter(same_channel(key, k)) == old(v)@.filter(same_channel(key, k)) by {
                assert(v@.filter(same_channel(key, k)) == mid.filter(same_channel(key, k)));
                assert(mid.filter(same_channel(key, k)) == old(v)@.filter(same_channel(key, k)));
            }
        }
        i = i + 1;
    }
    proof {
        assert(v@.take(n as int) =~= v@);
    }
}

/// A copy of the palette in reverse order.
fn reversed(v: &Vec<CylindricalColor>) -> (out: Vec<CylindricalColor>)
    ensures
        out@ == v@.reverse(),
{
    let n = v.len();
    let mut out: Vec<CylindricalColor> = Vec::new();
    let mut i: usize = 0;
    while i < n
        invariant
            i <= n,
            n == v@.len(),
            out@.len() == i,
            forall|a: int| 0 <= a < i as int ==> out@[a] == v@[n as int - 1 - a],
        decreases n - i,
    {
        out.push(v[n - 1 - i]);
        i = i + 1;
    }
    proof {
        assert(out@ =~= v@.reverse());
    }
    out
}

/// What ordering the palette for output means, clause by clause.
///
/// For a key other than `Unsorted`, `out` is the stable ascending sort of
/// `input` by the selected channel, reversed (descending) when the
/// `reverse` flag is set. For `Unsorted` nothing is sorted and the
/// effective reversal is the negation of the flag: the palette arrives
/// ordered by ascending frequency, so the default presentation (flag
/// unset) is its exact reversal, most frequent color first, while a set
/// flag keeps the sequence exactly as it arrived. This asymmetry is
/// deliberate and part of the contract.
pub open spec fn sorted_output(
    key: SortKey,
    reverse: bool,
    input: Seq<CylindricalColor>,
    out: Seq<CylindricalColor>,
) -> bool {
    &&& out.len() == input.len()
    &&& key == SortKey::Unsorted && !reverse ==> out == input.reverse()
    &&& key == SortKey::Unsorted && reverse ==> out == input
    &&& key != SortKey::Unsorted && !reverse ==> sorted_by_channel(out, key)
        && stable_permutation_by(key, input, out)
    &&& key != SortKey::Unsorted && reverse ==> sorted_desc_by_channel(out, key)
        && sorted_by_channel(out.reverse(), key) && stable_permutation_by(
        key,
        input,
        out.reverse(),
    )
}

/// Order the palette for output, as `sorted_output` describes.
pub fn sorted_colors(palette: Vec<CylindricalColor>, key: SortKey, reverse: bool) -> (out: Vec<
    CylindricalColor,
>)
    ensures
        sorted_output(key, reverse, palette@, out@),
{
    let mut palette = palette;
    let ghost input = palette@;
    if key != SortKey::Unsorted {
        sort_vec_by_channel(&mut palette, key);
    }
    let effective_reverse = if key == SortKey::Unsorted {
        !reverse
    } else {
        reverse
    };
    if effective_reverse {
        let rev = reversed(&palette);
        proof {
            assert(rev@.reverse() =~= palette@);
            if key != SortKey::Unsorted {
                assert forall|a: int, b: int|
                    0 <= a < b < rev@.len() implies channel_le(
                    #[trigger] channel(rev@[b], key),
                    #[trigger] channel(rev@[a], key),
                ) by {
                    let n = palette@.len() as int;
                    assert(rev@[a] == palette@[n - 1 - a]);
                    assert(rev@[b] == palette@[n - 1 - b]);
                }
            }
        }
        rev
    } else {
        palette
    }
}

} // verus!
