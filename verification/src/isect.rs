//! Intersection mapping: per-splat tile hits become one flat list.
//!
//! Each visible splat overlaps a data-dependent number of tiles, so the
//! device converts per-splat hit counts into fixed write offsets with an
//! exclusive prefix sum and lets each splat write its own slice. The result,
//! modeled here, is one flat list of (tile id, compact id) records in
//! compact-id order — already depth-ascending per tile, which is what lets
//! the stable tile sort keep every tile's bucket front-to-back.

use vstd::prelude::*;
use crate::sort::KeyedId;

verus! {

/// Intersection records for the tiles one splat overlaps.
pub open spec fn splat_isects(tiles: Seq<u32>, compact_id: u32) -> Seq<KeyedId> {
    Seq::new(tiles.len(), |i: int| KeyedId { key: tiles[i], id: compact_id })
}

/// Flat intersection list of the first `n` splats, in compact-id order.
pub open spec fn flat_isects_prefix(lists: Seq<Seq<u32>>, n: int) -> Seq<KeyedId>
    decreases n,
{
    if n <= 0 {
        Seq::empty()
    } else {
        flat_isects_prefix(lists, n - 1) + splat_isects(lists[n - 1], (n - 1) as u32)
    }
}

/// Flat intersection list of all splats, in compact-id order.
pub open spec fn flat_isects(lists: Seq<Seq<u32>>) -> Seq<KeyedId> {
    flat_isects_prefix(lists, lists.len() as int)
}

/// Total number of tile hits over the first `n` splats.
pub open spec fn total_isects(lists: Seq<Seq<u32>>, n: int) -> int
    decreases n,
{
    if n <= 0 {
        0
    } else {
        total_isects(lists, n - 1) + lists[n - 1].len()
    }
}

/// Shape of the flat list: one record per tile hit, each naming its splat's
/// compact id and one of that splat's tiles, with compact ids non-decreasing
/// along the list — the order the stable tile sort relies on.
pub proof fn lemma_flat_isects_props(lists: Seq<Seq<u32>>, n: int)
    requires
        0 <= n <= lists.len(),
        lists.len() <= u32::MAX,
    ensures
        flat_isects_prefix(lists, n).len() == total_isects(lists, n),
        forall|p: int|
            0 <= p < flat_isects_prefix(lists, n).len() ==> {
                let e = #[trigger] flat_isects_prefix(lists, n)[p];
                (e.id as int) < n && exists|j: int|
                    0 <= j < lists[e.id as int].len() && lists[e.id as int][j] == e.key
            },
        forall|p: int, q: int|
            0 <= p < q < flat_isects_prefix(lists, n).len() ==> flat_isects_prefix(
                lists,
                n,
            )[p].id <= flat_isects_prefix(lists, n)[q].id,
    decreases n,
{
    if n > 0 {
        lemma_flat_isects_props(lists, n - 1);
        let rest = flat_isects_prefix(lists, n - 1);
        let s = flat_isects_prefix(lists, n);
        assert forall|p: int| 0 <= p < s.len() implies {
            let e = #[trigger] s[p];
            (e.id as int) < n && exists|j: int|
                0 <= j < lists[e.id as int].len() && lists[e.id as int][j] == e.key
        } by {
            if p >= rest.len() {
                let j = p - rest.len();
                assert(s[p] == splat_isects(lists[n - 1], (n - 1) as u32)[j]);
                assert(lists[n - 1][j] == s[p].key);
            }
        }
    }
}

/// Expand per-splat tile lists into the flat intersection list, in
/// compact-id order: the host model of the intersection-mapper dispatch.
pub fn map_intersections(tile_lists: &Vec<Vec<u32>>) -> (r: Vec<KeyedId>)
    requires
        tile_lists@.len() <= u32::MAX,
    ensures
        r@ == flat_isects(tile_lists@.map_values(|v: Vec<u32>| v@)),
{
    let ghost lists = tile_lists@.map_values(|v: Vec<u32>| v@);
    let mut out: Vec<KeyedId> = Vec::new();
    let mut c: usize = 0;
    proof {
        assert(out@ =~= flat_isects_prefix(lists, 0));
    }
    while c < tile_lists.len()
        invariant
            tile_lists@.len() <= u32::MAX,
            lists == tile_lists@.map_values(|v: Vec<u32>| v@),
            c <= tile_lists@.len(),
            out@ == flat_isects_prefix(lists, c as int),
        decreases tile_lists@.len() - c,
    {
        let tiles = &tile_lists[c];
        let mut j: usize = 0;
        proof {
            assert(splat_isects(lists[c as int].take(0), c as u32) =~= Seq::<KeyedId>::empty());
            assert(out@ =~= flat_isects_prefix(lists, c as int) + splat_isects(
                lists[c as int].take(0),
                c as u32,
            ));
        }
        while j < tiles.len()
            invariant
                tile_lists@.len() <= u32::MAX,
                lists == tile_lists@.map_values(|v: Vec<u32>| v@),
                c < tile_lists@.len(),
                tiles@ == lists[c as int],
                j <= tiles@.len(),
                out@ == flat_isects_prefix(lists, c as int) + splat_isects(
                    tiles@.take(j as int),
                    c as u32,
                ),
            decreases tiles@.len() - j,
        {
            out.push(KeyedId { key: tiles[j], id: c as u32 });
            proof {
                assert(splat_isects(tiles@.take(j + 1), c as u32) =~= splat_isects(
                    tiles@.take(j as int),
                    c as u32,
                ).push(KeyedId { key: tiles@[j as int], id: c as u32 }));
            }
            j = j + 1;
        }
        proof {
            assert(tiles@.take(tiles@.len() as int) =~= tiles@);
            assert(flat_isects_prefix(lists, c as int + 1) == flat_isects_prefix(lists, c as int)
                + splat_isects(lists[c as int], c as u32));
        }
        c = c + 1;
    }
    out
}

} // verus!
