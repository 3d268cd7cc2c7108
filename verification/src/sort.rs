//! Stable keyed sorting, the backbone of both device sorts.
//!
//! The pipeline sorts twice: visible splats by depth (keys are depth values
//! reinterpreted as unsigned integers, valid because culling retains only
//! positive depths) and intersections by tile id. Both are argsorts over a
//! `(key, payload id)` record. The device runs a stable radix sort; this
//! model sorts by key with ties broken by payload id, which agrees with a
//! stable sort wherever the payloads of equal-key records arrive in
//! ascending order — as they do in both uses.

use vstd::prelude::*;
use vstd::seq_lib::lemma_multiset_commutative;

verus! {

/// One sortable record: a radix key and its payload id.
#[derive(Clone, Copy, Debug, PartialEq, Eq, Structural)]
pub struct KeyedId {
    /// Sort key: depth bits for the depth sort, tile id for the tile sort.
    pub key: u32,
    /// Payload carried through the sort: a splat id.
    pub id: u32,
}

/// Total order on records: by key, ties by payload id.
pub open spec fn keyed_le(a: KeyedId, b: KeyedId) -> bool {
    a.key < b.key || (a.key == b.key && a.id <= b.id)
}

/// Sorted under [`keyed_le`].
pub open spec fn sorted_keyed(s: Seq<KeyedId>) -> bool {
    forall|i: int, j: int| 0 <= i < j < s.len() ==> keyed_le(s[i], s[j])
}

/// Inserting anywhere into a sequence inserts into its multiset.
proof fn lemma_insert_to_multiset(s: Seq<KeyedId>, i: int, x: KeyedId)
    requires
        0 <= i <= s.len(),
    ensures
        s.insert(i, x).to_multiset() == s.to_multiset().insert(x),
{
    broadcast use vstd::seq_lib::group_to_multiset_ensures;
    broadcast use vstd::multiset::group_multiset_axioms;

    let a = s.take(i);
    let b = s.skip(i);
    assert(s.insert(i, x) =~= a.push(x) + b);
    assert(s =~= a + b);
    lemma_multiset_commutative(a.push(x), b);
    lemma_multiset_commutative(a, b);
    assert(a.push(x).to_multiset() =~= a.to_multiset().insert(x));
    assert(a.to_multiset().insert(x).add(b.to_multiset()) =~= a.to_multiset().add(
        b.to_multiset(),
    ).insert(x));
}

fn keyed_le_exec(a: KeyedId, b: KeyedId) -> (r: bool)
    ensures
        r == keyed_le(a, b),
{
    a.key < b.key || (a.key == b.key && a.id <= b.id)
}

/// Sort records by key, ties by payload id: the model of one device argsort.
///
/// The result holds exactly the input records, ordered by [`keyed_le`].
pub fn sort_keyed(entries: &Vec<KeyedId>) -> (r: Vec<KeyedId>)
    ensures
        r@.len() == entries@.len(),
        r@.to_multiset() == entries@.to_multiset(),
        sorted_keyed(r@),
{
    let mut out: Vec<KeyedId> = Vec::new();
    proof {
        broadcast use vstd::seq_lib::group_to_multiset_ensures;

        assert(entries@.take(0) =~= Seq::<KeyedId>::empty());
        assert(out@.to_multiset() =~= entries@.take(0).to_multiset());
    }
    let mut i: usize = 0;
    while i < entries.len()
        invariant
            i <= entries@.len(),
            out@.len() == i,
            out@.to_multiset() == entries@.take(i as int).to_multiset(),
            sorted_keyed(out@),
        decreases entries@.len() - i,
    {
        let x = entries[i];
        let mut pos: usize = 0;
        while pos < out.len() && keyed_le_exec(out[pos], x)
            invariant
                pos <= out@.len(),
                forall|k: int| 0 <= k < pos ==> keyed_le(out@[k], x),
            decreases out@.len() - pos,
        {
            pos = pos + 1;
        }
        let ghost prev = out@;
        out.insert(pos, x);
        proof {
            broadcast use vstd::seq_lib::group_to_multiset_ensures;

            lemma_insert_to_multiset(prev, pos as int, x);
            assert(entries@.take(i + 1) =~= entries@.take(i as int).push(entries@[i as int]));
            assert forall|a: int, b: int|
                0 <= a < b < out@.len() implies keyed_le(out@[a], out@[b]) by {
                assert(out@ == prev.insert(pos as int, x));
                prev.insert_ensures(pos as int, x);
                assert(out@[pos as int] == x);
                if b < pos {
                    assert(out@[a] == prev[a]);
                    assert(out@[b] == prev[b]);
                } else if a == pos && b > pos {
                    assert(pos < prev.len());
                    assert(!keyed_le(prev[pos as int], x));
                    assert(keyed_le(x, prev[pos as int]));
                    assert(out@[b] == prev[b - 1]);
                    assert(keyed_le(prev[pos as int], prev[b - 1]));
                } else if a < pos && b == pos {
                    assert(out@[a] == prev[a]);
                    assert(keyed_le(prev[a], x));
                } else if a < pos && b > pos {
                    assert(out@[a] == prev[a]);
                    assert(out@[b] == prev[b - 1]);
                    assert(keyed_le(prev[a], x));
                    if pos < prev.len() {
                        assert(keyed_le(x, prev[pos as int]));
                        assert(keyed_le(prev[pos as int], prev[b - 1]));
                    }
                } else {
                    assert(a > pos);
                    assert(out@[a] == prev[a - 1]);
                    assert(out@[b] == prev[b - 1]);
                }
            }
        }
        i = i + 1;
    }
    proof {
        assert(entries@.take(entries@.len() as int) =~= entries@);
    }
    out
}

} // verus!
