//! Visibility compaction: from per-splat cull verdicts to sortable entries.
//!
//! The projection kernel decides, per splat, whether it is visible (positive
//! finite depth, non-degenerate footprint, non-zero opacity) and emits a
//! depth key for it; those verdicts and keys are this model's inputs. Each
//! visible splat becomes one entry carrying its depth key and its original
//! splat id; culled splats leave no trace. The depth sort then orders these
//! entries front to back and the entry ids become the compact-to-original
//! map.

use vstd::prelude::*;
use crate::sort::KeyedId;

verus! {

/// Number of `true` verdicts among the first `n`.
pub open spec fn count_true(visible: Seq<bool>, n: int) -> int
    decreases n,
{
    if n <= 0 {
        0
    } else {
        count_true(visible, n - 1) + if visible[n - 1] {
            1int
        } else {
            0int
        }
    }
}

/// Entries emitted for the first `n` splats, in splat-index order.
pub open spec fn visible_entries_prefix(visible: Seq<bool>, depth_keys: Seq<u32>, n: int) -> Seq<
    KeyedId,
>
    decreases n,
{
    if n <= 0 {
        Seq::empty()
    } else {
        let rest = visible_entries_prefix(visible, depth_keys, n - 1);
        if visible[n - 1] {
            rest.push(KeyedId { key: depth_keys[n - 1], id: (n - 1) as u32 })
        } else {
            rest
        }
    }
}

/// One entry per visible splat: its depth key and its original splat id.
pub open spec fn visible_entries(visible: Seq<bool>, depth_keys: Seq<u32>) -> Seq<KeyedId> {
    visible_entries_prefix(visible, depth_keys, visible.len() as int)
}

/// Shape of the emitted entries: one per visible splat, ids strictly
/// ascending (hence distinct), every id a visible splat's, keys copied from
/// that splat, and no visible splat missing.
pub proof fn lemma_visible_entries_props(visible: Seq<bool>, depth_keys: Seq<u32>, n: int)
    requires
        0 <= n <= visible.len(),
        visible.len() == depth_keys.len(),
        visible.len() <= u32::MAX,
    ensures
        visible_entries_prefix(visible, depth_keys, n).len() == count_true(visible, n),
        count_true(visible, n) <= n,
        forall|p: int|
            0 <= p < visible_entries_prefix(visible, depth_keys, n).len() ==> {
                let e = #[trigger] visible_entries_prefix(visible, depth_keys, n)[p];
                (e.id as int) < n && visible[e.id as int] && e.key == depth_keys[e.id as int]
            },
        forall|p: int, q: int|
            0 <= p < q < visible_entries_prefix(visible, depth_keys, n).len()
                ==> visible_entries_prefix(visible, depth_keys, n)[p].id
                < visible_entries_prefix(visible, depth_keys, n)[q].id,
        forall|j: int|
            0 <= j < n && visible[j] ==> exists|p: int|
                0 <= p < visible_entries_prefix(visible, depth_keys, n).len()
                    && #[trigger] visible_entries_prefix(visible, depth_keys, n)[p].id == j,
    decreases n,
{
    if n > 0 {
        lemma_visible_entries_props(visible, depth_keys, n - 1);
        let rest = visible_entries_prefix(visible, depth_keys, n - 1);
        let s = visible_entries_prefix(visible, depth_keys, n);
        if visible[n - 1] {
            assert(s == rest.push(KeyedId { key: depth_keys[n - 1], id: (n - 1) as u32 }));
            assert(s[s.len() - 1].id == n - 1);
            assert forall|j: int| 0 <= j < n && visible[j] implies exists|p: int|
                0 <= p < s.len() && #[trigger] s[p].id == j by {
                if j == n - 1 {
                    assert(s[s.len() - 1].id == j);
                } else {
                    let p = choose|p: int| 0 <= p < rest.len() && #[trigger] rest[p].id == j;
                    assert(s[p].id == j);
                }
            }
        }
    }
}

/// Project-and-cull bookkeeping: collect one entry per visible splat, in
/// splat-index order, and count the visible splats.
///
/// `visible[i]` is the cull verdict for splat `i` and `depth_keys[i]` its
/// view-space depth reinterpreted as an unsigned key; culling retains only
/// positive depths, so retained keys must have the sign bit clear — that is
/// what makes unsigned radix order agree with depth order downstream.
pub fn collect_visible(visible: &Vec<bool>, depth_keys: &Vec<u32>) -> (r: (Vec<KeyedId>, u32))
    requires
        visible@.len() == depth_keys@.len(),
        visible@.len() <= u32::MAX,
        forall|i: int| 0 <= i < visible@.len() && visible@[i] ==> depth_keys@[i] < 0x8000_0000,
    ensures
        r.0@ == visible_entries(visible@, depth_keys@),
        r.1 == r.0@.len(),
        r.1 <= visible@.len(),
{
    let mut out: Vec<KeyedId> = Vec::new();
    let mut num_visible: u32 = 0;
    let mut i: usize = 0;
    while i < visible.len()
        invariant
            visible@.len() == depth_keys@.len(),
            visible@.len() <= u32::MAX,
            i <= visible@.len(),
            out@ == visible_entries_prefix(visible@, depth_keys@, i as int),
            num_visible == out@.len(),
            out@.len() <= i,
        decreases visible@.len() - i,
    {
        proof {
            lemma_visible_entries_props(visible@, depth_keys@, i + 1);
            lemma_visible_entries_props(visible@, depth_keys@, i as int);
        }
        if visible[i] {
            out.push(KeyedId { key: depth_keys[i], id: i as u32 });
            num_visible = num_visible + 1;
        }
        i = i + 1;
    }
    (out, num_visible)
}

} // verus!
