//! Per-tile binning of the flat intersection list.
//!
//! After the intersection mapper runs, every intersection carries a tile id.
//! Binning counts the intersections per tile; an exclusive prefix sum over
//! those counts then gives each tile its half-open range into the tile-sorted
//! intersection list. The partition law at the bottom is what the rasterizer
//! relies on: the per-tile counts sum to the total intersection count, and
//! the derived offsets start at zero and never decrease.

use vstd::prelude::*;
use crate::scan::{lemma_sum_prefix_mono, sum_prefix};

verus! {

/// Occurrences of tile id `t` in `s`.
pub open spec fn count_eq(s: Seq<u32>, t: u32) -> int
    decreases s.len(),
{
    if s.len() == 0 {
        0
    } else {
        count_eq(s.drop_last(), t) + if s.last() == t {
            1int
        } else {
            0int
        }
    }
}

/// Appending one id raises exactly that id's count by one.
pub proof fn lemma_count_eq_push(s: Seq<u32>, x: u32, t: u32)
    ensures
        count_eq(s.push(x), t) == count_eq(s, t) + if x == t {
            1int
        } else {
            0int
        },
{
    assert(s.push(x).drop_last() =~= s);
}

/// A count is at least zero and at most the sequence length.
pub proof fn lemma_count_eq_bounds(s: Seq<u32>, t: u32)
    ensures
        0 <= count_eq(s, t) <= s.len(),
    decreases s.len(),
{
    if s.len() > 0 {
        lemma_count_eq_bounds(s.drop_last(), t);
    }
}

/// Sum of `count_eq(s, k)` over all tile ids `k < t`.
pub open spec fn sum_counts(s: Seq<u32>, t: int) -> int
    decreases t,
{
    if t <= 0 {
        0
    } else {
        sum_counts(s, t - 1) + count_eq(s, (t - 1) as u32)
    }
}

proof fn lemma_sum_counts_empty(t: int)
    ensures
        sum_counts(Seq::<u32>::empty(), t) == 0,
    decreases t,
{
    if t > 0 {
        lemma_sum_counts_empty(t - 1);
    }
}

pub proof fn lemma_sum_counts_push(s: Seq<u32>, x: u32, t: int)
    requires
        0 <= t <= u32::MAX + 1,
    ensures
        sum_counts(s.push(x), t) == sum_counts(s, t) + if (x as int) < t {
            1int
        } else {
            0int
        },
    decreases t,
{
    if t > 0 {
        lemma_sum_counts_push(s, x, t - 1);
        lemma_count_eq_push(s, x, (t - 1) as u32);
    }
}

/// When every id is below `t`, the per-id counts sum to the length: binning
/// loses nothing and invents nothing.
pub proof fn lemma_sum_counts_total(s: Seq<u32>, t: int)
    requires
        forall|i: int| 0 <= i < s.len() ==> (s[i] as int) < t,
        0 <= t <= u32::MAX + 1,
    ensures
        sum_counts(s, t) == s.len(),
    decreases s.len(),
{
    if s.len() == 0 {
        assert(s =~= Seq::<u32>::empty());
        lemma_sum_counts_empty(t);
    } else {
        let s0 = s.drop_last();
        lemma_sum_counts_total(s0, t);
        lemma_sum_counts_push(s0, s.last(), t);
        assert(s0.push(s.last()) =~= s);
    }
}

/// Count the intersections landing in each tile.
pub fn count_per_tile(tile_ids: &Vec<u32>, num_tiles: u32) -> (r: Vec<u32>)
    requires
        forall|i: int| 0 <= i < tile_ids@.len() ==> tile_ids@[i] < num_tiles,
        tile_ids@.len() <= u32::MAX,
    ensures
        r@.len() == num_tiles,
        forall|t: int| 0 <= t < num_tiles ==> r@[t] == count_eq(tile_ids@, t as u32),
{
    let mut r: Vec<u32> = Vec::new();
    let mut t: usize = 0;
    while t < num_tiles as usize
        invariant
            r@.len() == t,
            t <= num_tiles as usize,
            forall|k: int| 0 <= k < t ==> r@[k] == 0,
        decreases num_tiles as usize - t,
    {
        r.push(0);
        t = t + 1;
    }
    let mut i: usize = 0;
    while i < tile_ids.len()
        invariant
            forall|k: int| 0 <= k < tile_ids@.len() ==> tile_ids@[k] < num_tiles,
            tile_ids@.len() <= u32::MAX,
            i <= tile_ids@.len(),
            r@.len() == num_tiles,
            forall|k: int|
                0 <= k < num_tiles ==> r@[k] == count_eq(tile_ids@.take(i as int), k as u32),
        decreases tile_ids@.len() - i,
    {
        let tid = tile_ids[i];
        proof {
            lemma_count_eq_bounds(tile_ids@.take(i as int), tid);
        }
        let c = r[tid as usize];
        r.set(tid as usize, c + 1);
        proof {
            assert(tile_ids@.take(i + 1) =~= tile_ids@.take(i as int).push(tile_ids@[i as int]));
            assert forall|k: int|
                0 <= k < num_tiles implies r@[k] == count_eq(
                tile_ids@.take(i + 1),
                k as u32,
            ) by {
                lemma_count_eq_push(tile_ids@.take(i as int), tid, k as u32);
            }
        }
        i = i + 1;
    }
    proof {
        assert(tile_ids@.take(tile_ids@.len() as int) =~= tile_ids@);
    }
    r
}

pub proof fn lemma_sum_prefix_is_sum_counts(tile_ids: Seq<u32>, counts: Seq<u32>, n: int)
    requires
        0 <= n <= counts.len(),
        counts.len() <= u32::MAX,
        forall|t: int| 0 <= t < counts.len() ==> counts[t] == count_eq(tile_ids, t as u32),
    ensures
        sum_prefix(counts, n) == sum_counts(tile_ids, n),
    decreases n,
{
    if n > 0 {
        lemma_sum_prefix_is_sum_counts(tile_ids, counts, n - 1);
    }
}

/// Law: per-tile binning partitions the intersection list. When every
/// recorded intersection carries a valid tile id, the per-tile counts sum to
/// the total intersection count, and the exclusive prefix sums over them —
/// the tile offsets — start at zero and are non-decreasing.
pub proof fn lemma_tile_partition(tile_ids: Seq<u32>, counts: Seq<u32>, num_tiles: u32)
    requires
        forall|i: int| 0 <= i < tile_ids.len() ==> tile_ids[i] < num_tiles,
        counts.len() == num_tiles,
        forall|t: int| 0 <= t < num_tiles ==> counts[t] == count_eq(tile_ids, t as u32),
    ensures
        sum_prefix(counts, num_tiles as int) == tile_ids.len(),
        sum_prefix(counts, 0) == 0,
        forall|i: int, j: int|
            0 <= i <= j <= num_tiles ==> sum_prefix(counts, i) <= sum_prefix(counts, j),
{
    lemma_sum_prefix_is_sum_counts(tile_ids, counts, num_tiles as int);
    lemma_sum_counts_total(tile_ids, num_tiles as int);
    assert forall|i: int, j: int|
        0 <= i <= j <= num_tiles implies sum_prefix(counts, i) <= sum_prefix(counts, j) by {
        lemma_sum_prefix_mono(counts, i, j);
    }
}

} // verus!
