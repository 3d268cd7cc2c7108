//! Ordering laws of the compaction and depth-sort stages.
//!
//! These are the invariants the rasterizer's correctness rests on: the
//! compact-to-original map is injective and bounded, compact ids are
//! depth-ascending, culled splats leave no trace, and the sorted order
//! depends only on the visible depths — not on how the input array happened
//! to be arranged.

use vstd::prelude::*;
use vstd::relations::{sorted_by, total_ordering};
use vstd::seq_lib::lemma_sorted_unique;
use crate::sort::{sorted_keyed, KeyedId};
use crate::visibility::{count_true, lemma_visible_entries_props, visible_entries};

verus! {

/// The depth keys of a sequence of entries, in order.
pub open spec fn keys_of(s: Seq<KeyedId>) -> Seq<u32> {
    Seq::new(s.len(), |i: int| s[i].key)
}

/// Law: for all inputs, `0 <= visible_count <= total_splats`, and the
/// compact-to-original map — the entry ids after the depth sort — is
/// injective, each id naming a distinct visible splat of the input.
///
/// `sorted` is any reordering of the emitted entries, which is all the
/// depth sort's contract guarantees about its output.
pub proof fn lemma_visible_count_and_injectivity(
    visible: Seq<bool>,
    depth_keys: Seq<u32>,
    sorted: Seq<KeyedId>,
)
    requires
        visible.len() == depth_keys.len(),
        visible.len() <= u32::MAX,
        sorted.to_multiset() == visible_entries(visible, depth_keys).to_multiset(),
    ensures
        0 <= sorted.len() <= visible.len(),
        forall|p: int, q: int| 0 <= p < q < sorted.len() ==> sorted[p].id != sorted[q].id,
        forall|p: int|
            0 <= p < sorted.len() ==> (#[trigger] sorted[p].id as int) < visible.len()
                && visible[sorted[p].id as int] && sorted[p].key == depth_keys[sorted[p].id as int],
{
    broadcast use vstd::seq_lib::group_to_multiset_ensures;
    broadcast use vstd::multiset::group_multiset_axioms;

    let entries = visible_entries(visible, depth_keys);
    let n = visible.len() as int;
    lemma_visible_entries_props(visible, depth_keys, n);
    sorted.to_multiset_ensures();
    entries.to_multiset_ensures();
    assert(sorted.len() == entries.len());
    assert forall|i: int, j: int|
        0 <= i < entries.len() && 0 <= j < entries.len() && i != j implies entries[i]
        != entries[j] by {
        if i < j {
            assert(entries[i].id < entries[j].id);
        } else {
            assert(entries[j].id < entries[i].id);
        }
    }
    assert(entries.no_duplicates());
    entries.lemma_multiset_has_no_duplicates();
    sorted.lemma_multiset_has_no_duplicates_conv();
    assert forall|p: int| 0 <= p < sorted.len() implies (#[trigger] sorted[p].id as int)
        < visible.len() && visible[sorted[p].id as int] && sorted[p].key
        == depth_keys[sorted[p].id as int] by {
        assert(sorted.contains(sorted[p]));
        assert(entries.to_multiset().count(sorted[p]) > 0);
        assert(entries.contains(sorted[p]));
        let e = choose|e: int| 0 <= e < entries.len() && entries[e] == sorted[p];
        assert(entries[e] == sorted[p]);
    }
    assert forall|p: int, q: int|
        0 <= p < q < sorted.len() implies sorted[p].id != sorted[q].id by {
        assert(sorted[p] != sorted[q]);
        if sorted[p].id == sorted[q].id {
            assert(entries.contains(sorted[p]));
            assert(entries.contains(sorted[q]));
            let ep = choose|e: int| 0 <= e < entries.len() && entries[e] == sorted[p];
            let eq = choose|e: int| 0 <= e < entries.len() && entries[e] == sorted[q];
            assert(ep != eq);
            if ep < eq {
                assert(entries[ep].id < entries[eq].id);
            } else {
                assert(entries[eq].id < entries[ep].id);
            }
        }
    }
}

/// Law: compact ids are depth-ascending after the depth sort — never
/// decreasing in key, and strictly ascending whenever no two visible splats
/// share a depth key (duplicate depths tie, and the sort breaks ties by id).
pub proof fn lemma_depth_ascending(visible: Seq<bool>, depth_keys: Seq<u32>, sorted: Seq<KeyedId>)
    requires
        visible.len() == depth_keys.len(),
        visible.len() <= u32::MAX,
        sorted.to_multiset() == visible_entries(visible, depth_keys).to_multiset(),
        sorted_keyed(sorted),
        forall|i: int, j: int|
            0 <= i < j < visible.len() && visible[i] && visible[j] ==> depth_keys[i]
                != depth_keys[j],
    ensures
        forall|p: int, q: int| 0 <= p < q < sorted.len() ==> sorted[p].key < sorted[q].key,
{
    lemma_visible_count_and_injectivity(visible, depth_keys, sorted);
    assert forall|p: int, q: int|
        0 <= p < q < sorted.len() implies sorted[p].key < sorted[q].key by {
        let ip = sorted[p].id as int;
        let iq = sorted[q].id as int;
        assert(ip < visible.len() && visible[ip] && sorted[p].key == depth_keys[ip]);
        assert(iq < visible.len() && visible[iq] && sorted[q].key == depth_keys[iq]);
        assert(crate::sort::keyed_le(sorted[p], sorted[q]));
        if sorted[p].key == sorted[q].key {
            assert(ip != iq);
            if ip < iq {
                assert(depth_keys[ip] != depth_keys[iq]);
            } else {
                assert(depth_keys[iq] != depth_keys[ip]);
            }
            assert(false);
        }
    }
}

/// Law: a culled splat — one the projection stage found degenerate,
/// transparent, or behind the camera — contributes nothing: it is counted in
/// no visible count and referenced by no emitted entry, so no downstream
/// stage can ever reach it.
pub proof fn lemma_culled_contributes_nothing(visible: Seq<bool>, depth_keys: Seq<u32>, j: int)
    requires
        visible.len() == depth_keys.len(),
        visible.len() <= u32::MAX,
        0 <= j < visible.len(),
        !visible[j],
    ensures
        visible_entries(visible, depth_keys).len() == count_true(visible, visible.len() as int),
        forall|p: int|
            0 <= p < visible_entries(visible, depth_keys).len() ==> (#[trigger] visible_entries(
                visible,
                depth_keys,
            )[p]).id != j,
{
    lemma_visible_entries_props(visible, depth_keys, visible.len() as int);
}

proof fn lemma_keys_of_remove(s: Seq<KeyedId>, i: int)
    requires
        0 <= i < s.len(),
    ensures
        keys_of(s.remove(i)) =~= keys_of(s).remove(i),
{
}

/// Reordering entries reorders their keys: equal entry multisets have equal
/// key multisets.
proof fn lemma_keys_multiset_invariant(s1: Seq<KeyedId>, s2: Seq<KeyedId>)
    requires
        s1.to_multiset() == s2.to_multiset(),
    ensures
        keys_of(s1).to_multiset() == keys_of(s2).to_multiset(),
    decreases s1.len(),
{
    broadcast use vstd::seq_lib::group_to_multiset_ensures;
    broadcast use vstd::multiset::group_multiset_axioms;

    if s1.len() == 0 {
        s1.to_multiset_ensures();
        s2.to_multiset_ensures();
        assert(s2.len() == 0);
        assert(keys_of(s1) =~= keys_of(s2));
    } else {
        let l = s1.len() as int - 1;
        let x = s1[l];
        assert(s1.contains(x));
        assert(s2.to_multiset().count(x) > 0);
        assert(s2.contains(x));
        let i = choose|i: int| 0 <= i < s2.len() && s2[i] == x;
        assert(s1.remove(l).to_multiset() == s1.to_multiset().remove(x));
        assert(s2.remove(i).to_multiset() == s2.to_multiset().remove(x));
        lemma_keys_multiset_invariant(s1.remove(l), s2.remove(i));
        lemma_keys_of_remove(s1, l);
        lemma_keys_of_remove(s2, i);
        let k1 = keys_of(s1);
        let k2 = keys_of(s2);
        assert(k1.remove(l).to_multiset() == k1.to_multiset().remove(k1[l]));
        assert(k2.remove(i).to_multiset() == k2.to_multiset().remove(k2[i]));
        assert(k1[l] == x.key);
        assert(k2[i] == x.key);
        assert(k1.to_multiset().remove(x.key) == k2.to_multiset().remove(x.key));
        assert(k1.contains(k1[l]));
        assert(k1.to_multiset().count(x.key) > 0);
        assert(k2.contains(k2[i]));
        assert(k2.to_multiset().count(x.key) > 0);
        assert forall|y: u32| true implies k1.to_multiset().count(y) == k2.to_multiset().count(
            y,
        ) by {
            if y == x.key {
                assert(k1.to_multiset().count(y) == k1.to_multiset().remove(x.key).count(y) + 1);
                assert(k2.to_multiset().count(y) == k2.to_multiset().remove(x.key).count(y) + 1);
            } else {
                assert(k1.to_multiset().count(y) == k1.to_multiset().remove(x.key).count(y));
                assert(k2.to_multiset().count(y) == k2.to_multiset().remove(x.key).count(y));
            }
        }
        assert(k1.to_multiset() =~= k2.to_multiset());
    }
}

/// Law: the rendering order is invariant under permutation of the input
/// splat array. Downstream stages order work by depth and tile membership
/// alone, so two inputs whose visible splats carry the same multiset of
/// depth keys — one being a reshuffling of the other — yield the same
/// front-to-back depth sequence after the depth sort.
pub proof fn lemma_order_permutation_invariant(
    vis1: Seq<bool>,
    keys1: Seq<u32>,
    sorted1: Seq<KeyedId>,
    vis2: Seq<bool>,
    keys2: Seq<u32>,
    sorted2: Seq<KeyedId>,
)
    requires
        vis1.len() == keys1.len(),
        vis1.len() <= u32::MAX,
        vis2.len() == keys2.len(),
        vis2.len() <= u32::MAX,
        sorted1.to_multiset() == visible_entries(vis1, keys1).to_multiset(),
        sorted2.to_multiset() == visible_entries(vis2, keys2).to_multiset(),
        sorted_keyed(sorted1),
        sorted_keyed(sorted2),
        keys_of(visible_entries(vis1, keys1)).to_multiset() == keys_of(
            visible_entries(vis2, keys2),
        ).to_multiset(),
    ensures
        keys_of(sorted1) == keys_of(sorted2),
{
    lemma_keys_multiset_invariant(sorted1, visible_entries(vis1, keys1));
    lemma_keys_multiset_invariant(sorted2, visible_entries(vis2, keys2));
    let k1 = keys_of(sorted1);
    let k2 = keys_of(sorted2);
    let leq = |a: u32, b: u32| a <= b;
    assert(total_ordering(leq));
    assert forall|i: int, j: int| 0 <= i < j < k1.len() implies leq(k1[i], k1[j]) by {
        assert(crate::sort::keyed_le(sorted1[i], sorted1[j]));
    }
    assert forall|i: int, j: int| 0 <= i < j < k2.len() implies leq(k2[i], k2[j]) by {
        assert(crate::sort::keyed_le(sorted2[i], sorted2[j]));
    }
    assert(sorted_by(k1, leq));
    assert(sorted_by(k2, leq));
    assert(k1.to_multiset() == k2.to_multiset());
    lemma_sorted_unique(k1, k2, leq);
    assert(k1 == k2);
}

} // verus!
