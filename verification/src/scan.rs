//! Exclusive prefix sums over non-negative counts.
//!
//! The pipeline uses the same cumulative-sum primitive twice: over per-splat
//! tile-hit counts, to turn data-dependent output sizes into fixed write
//! offsets for the intersection mapper, and over per-tile intersection
//! counts, to give each tile its half-open range into the tile-sorted
//! intersection list.

use vstd::prelude::*;

verus! {

/// Sum of the first `n` entries of `s`.
pub open spec fn sum_prefix(s: Seq<u32>, n: int) -> int
    decreases n,
{
    if n <= 0 {
        0
    } else {
        sum_prefix(s, n - 1) + s[n - 1]
    }
}

/// Prefix sums of a sequence of non-negative counts grow monotonically.
pub proof fn lemma_sum_prefix_mono(s: Seq<u32>, i: int, j: int)
    requires
        0 <= i <= j,
    ensures
        sum_prefix(s, i) <= sum_prefix(s, j),
    decreases j - i,
{
    if i < j {
        lemma_sum_prefix_mono(s, i, j - 1);
    }
}

/// Exclusive cumulative sum: entry `i` of the result is the sum of the first
/// `i` counts, so the result has one entry more than the input and its last
/// entry is the total. The result starts at zero and is non-decreasing.
pub fn exclusive_prefix_sum(counts: &Vec<u32>) -> (r: Vec<u32>)
    requires
        sum_prefix(counts@, counts@.len() as int) <= u32::MAX,
    ensures
        r@.len() == counts@.len() + 1,
        forall|i: int| 0 <= i <= counts@.len() ==> r@[i] == sum_prefix(counts@, i),
        r@[0] == 0,
        r@[counts@.len() as int] == sum_prefix(counts@, counts@.len() as int),
        forall|i: int, j: int| 0 <= i <= j < r@.len() ==> r@[i] <= r@[j],
{
    let n = counts.len();
    let mut r: Vec<u32> = Vec::new();
    let mut acc: u32 = 0;
    r.push(0);
    let mut k: usize = 0;
    while k < n
        invariant
            n == counts@.len(),
            k <= n,
            sum_prefix(counts@, n as int) <= u32::MAX,
            r@.len() == k + 1,
            acc == sum_prefix(counts@, k as int),
            forall|i: int| 0 <= i <= k ==> r@[i] == sum_prefix(counts@, i),
        decreases n - k,
    {
        proof {
            lemma_sum_prefix_mono(counts@, k + 1, n as int);
        }
        acc = acc + counts[k];
        r.push(acc);
        k = k + 1;
    }
    proof {
        assert forall|i: int, j: int| 0 <= i <= j < r@.len() implies r@[i] <= r@[j] by {
            lemma_sum_prefix_mono(counts@, i, j);
        }
    }
    r
}

} // verus!
