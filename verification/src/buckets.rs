//! Ranges of the tile-sorted intersection list.
//!
//! After the tile sort, all intersections of one tile sit contiguously, and
//! the exclusive prefix sums over the per-tile counts locate each tile's
//! half-open range. The tile sort's stability is load-bearing: intersections
//! enter in ascending compact-id order, so inside every range the compact
//! ids — and with them the depths — still ascend, which is exactly the order
//! the rasterizer composites in.

use vstd::prelude::*;
use crate::bins::{lemma_sum_counts_push, sum_counts};
use crate::laws::keys_of;
use crate::sort::{keyed_le, sorted_keyed, KeyedId};

verus! {

/// Number of entries whose key is below `t`.
pub open spec fn count_key_lt(s: Seq<KeyedId>, t: u32) -> int
    decreases s.len(),
{
    if s.len() == 0 {
        0
    } else {
        count_key_lt(s.drop_last(), t) + if s.last().key < t {
            1int
        } else {
            0int
        }
    }
}

proof fn lemma_count_key_lt_bounds(s: Seq<KeyedId>, t: u32)
    ensures
        0 <= count_key_lt(s, t) <= s.len(),
    decreases s.len(),
{
    if s.len() > 0 {
        lemma_count_key_lt_bounds(s.drop_last(), t);
    }
}

/// In a key-sorted sequence the entries with key below `t` are exactly the
/// prefix of length `count_key_lt`.
proof fn lemma_sorted_lt_prefix(s: Seq<KeyedId>, t: u32)
    requires
        sorted_keyed(s),
    ensures
        forall|p: int| 0 <= p < s.len() ==> (s[p].key < t <==> p < count_key_lt(s, t)),
    decreases s.len(),
{
    lemma_count_key_lt_bounds(s, t);
    if s.len() > 0 {
        let s0 = s.drop_last();
        assert(sorted_keyed(s0)) by {
            assert forall|i: int, j: int|
                0 <= i < j < s0.len() implies keyed_le(s0[i], s0[j]) by {
                assert(keyed_le(s[i], s[j]));
            }
        }
        lemma_sorted_lt_prefix(s0, t);
        lemma_count_key_lt_bounds(s0, t);
        if s.last().key < t {
            assert forall|p: int| 0 <= p < s0.len() implies s0[p].key < t by {
                assert(keyed_le(s[p], s[s.len() - 1]));
            }
            if count_key_lt(s0, t) < s0.len() {
                let p0 = count_key_lt(s0, t);
                assert(s0[p0].key < t);
                assert(false);
            }
            assert(count_key_lt(s, t) == s.len());
            assert forall|p: int|
                0 <= p < s.len() implies (s[p].key < t <==> p < count_key_lt(s, t)) by {
                if p < s0.len() {
                    assert(s[p] == s0[p]);
                    assert(s0[p].key < t);
                }
            }
        } else {
            assert(count_key_lt(s, t) == count_key_lt(s0, t));
            assert forall|p: int|
                0 <= p < s.len() implies (s[p].key < t <==> p < count_key_lt(s, t)) by {
                if p < s0.len() {
                    assert(s[p] == s0[p]);
                    assert(s0[p].key < t <==> p < count_key_lt(s0, t));
                } else {
                    assert(p == s.len() - 1);
                    assert(!(s[p].key < t));
                    assert(count_key_lt(s0, t) <= s0.len());
                }
            }
        }
    }
}

/// `count_key_lt` is the prefix sum of the per-key counts: entries with key
/// below `t` are counted once under each key.
proof fn lemma_count_key_lt_is_sum_counts(s: Seq<KeyedId>, t: int)
    requires
        0 <= t <= u32::MAX,
    ensures
        count_key_lt(s, t as u32) == sum_counts(keys_of(s), t),
    decreases s.len(),
{
    if s.len() == 0 {
        assert(keys_of(s) =~= Seq::<u32>::empty());
        crate::bins::lemma_sum_counts_total(keys_of(s), t);
    } else {
        let s0 = s.drop_last();
        lemma_count_key_lt_is_sum_counts(s0, t);
        assert(keys_of(s) =~= keys_of(s0).push(s.last().key));
        lemma_sum_counts_push(keys_of(s0), s.last().key, t);
        assert((s.last().key as int) < t <==> s.last().key < (t as u32));
    }
}

/// Law: tile offsets bracket exactly their tile's bucket, still depth-
/// ordered. In the tile-sorted intersection list, the entries of tile `t`
/// are exactly the half-open index range `[offsets(t), offsets(t + 1))`,
/// where `offsets` is the exclusive prefix sum of the per-tile counts, and
/// inside that range the compact ids ascend — the front-to-back order the
/// rasterizer composites in, preserved by the stable tile sort.
pub proof fn lemma_tile_bucket_ranges(s: Seq<KeyedId>, t: u32)
    requires
        sorted_keyed(s),
        t < u32::MAX,
    ensures
        forall|p: int|
            0 <= p < s.len() ==> (s[p].key == t <==> sum_counts(keys_of(s), t as int) <= p
                < sum_counts(keys_of(s), t as int + 1)),
        forall|p: int, q: int|
            0 <= p < q < s.len() && s[p].key == t && s[q].key == t ==> s[p].id <= s[q].id,
{
    lemma_sorted_lt_prefix(s, t);
    lemma_sorted_lt_prefix(s, (t + 1) as u32);
    lemma_count_key_lt_is_sum_counts(s, t as int);
    lemma_count_key_lt_is_sum_counts(s, t as int + 1);
    assert forall|p: int|
        0 <= p < s.len() implies (s[p].key == t <==> sum_counts(keys_of(s), t as int) <= p
        < sum_counts(keys_of(s), t as int + 1)) by {
        assert(s[p].key < t <==> p < count_key_lt(s, t));
        assert(s[p].key < t + 1 <==> p < count_key_lt(s, (t + 1) as u32));
    }
    assert forall|p: int, q: int|
        0 <= p < q < s.len() && s[p].key == t && s[q].key == t implies s[p].id <= s[q].id by {
        assert(keyed_le(s[p], s[q]));
    }
}

} // verus!
