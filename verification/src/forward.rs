//! The forward pass, end to end, over the host-visible data.
//!
//! One render call validates its inputs, compacts the visible splats, sorts
//! them front to back, expands their tile hits into the flat intersection
//! list (clamped at the planned capacity, exactly as the device drops excess
//! writes), sorts that list by tile, bins it, and derives the tile offsets.
//! The per-splat cull verdicts, depth keys, and overlapped-tile lists stand
//! in for what the projection kernels compute from the splat parameters on
//! the device; everything that coordinates those kernels' outputs is here,
//! with its ordering and counting guarantees proved.

use vstd::prelude::*;
use vstd::math::min;
use vstd::arithmetic::power2::pow2;
use crate::bins::{count_eq, count_per_tile, lemma_tile_partition};
use crate::isect::{flat_isects_prefix, lemma_flat_isects_props, splat_isects, total_isects};
use crate::laws::{keys_of, lemma_visible_count_and_injectivity};
use crate::plan::{plan_render, shapes_consistent, RenderError, RenderPlan, SplatShapes};
use crate::scan::{exclusive_prefix_sum, sum_prefix};
use crate::sh::{spec_sh_degree, valid_coeff_count};
use crate::sort::{sort_keyed, sorted_keyed, KeyedId};
use crate::tiles::tiles_along;
use crate::visibility::{collect_visible, count_true, visible_entries};

verus! {

/// The tile lists reordered by compact id: entry `c` is the tile list of the
/// splat the depth sort placed at compact slot `c`.
pub open spec fn compact_tile_lists(lists: Seq<Seq<u32>>, sorted: Seq<KeyedId>) -> Seq<Seq<u32>> {
    Seq::new(sorted.len(), |c: int| lists[sorted[c].id as int])
}

/// Everything one forward pass leaves behind for the rasterizer and the
/// backward pass: the plan, the counters, the compact-to-original map, both
/// sorted lists, and the per-tile counts and offsets.
#[derive(Clone, Debug)]
pub struct FrameModel {
    /// The validated per-frame plan.
    pub plan: RenderPlan,
    /// Number of splats that survived culling.
    pub num_visible: u32,
    /// Original splat id of each compact id, in depth order.
    pub global_from_compact_gid: Vec<u32>,
    /// Depth-sorted visible entries: depth key and original id per compact id.
    pub depth_sorted: Vec<KeyedId>,
    /// Total tile hits counted, before any capacity clamp.
    pub num_intersections: u64,
    /// Tile-sorted intersections: tile id as key, compact id as payload.
    pub isects_sorted: Vec<KeyedId>,
    /// Intersections recorded per tile.
    pub tile_counts: Vec<u32>,
    /// Exclusive prefix sums of `tile_counts`: each tile's half-open range.
    pub tile_offsets: Vec<u32>,
}

/// One forward render pass over host-visible data.
///
/// `visible[i]`, `depth_keys[i]` and `tile_lists[i]` are the projection
/// kernels' per-splat outputs: the cull verdict, the view-space depth as an
/// unsigned key (sign bit clear, since culling keeps only positive depths),
/// and the ids of the tiles splat `i`'s footprint overlaps.
pub fn render_forward(
    shapes: SplatShapes,
    img_size: (u32, u32),
    raster_u32: bool,
    visible: &Vec<bool>,
    depth_keys: &Vec<u32>,
    tile_lists: &Vec<Vec<u32>>,
) -> (r: Result<FrameModel, RenderError>)
    requires
        visible@.len() == shapes.means.0,
        depth_keys@.len() == shapes.means.0,
        tile_lists@.len() == shapes.means.0,
        forall|i: int|
            0 <= i < visible@.len() && visible@[i] ==> depth_keys@[i] < 0x8000_0000,
        tiles_along(img_size.0 as int) * tiles_along(img_size.1 as int) <= u32::MAX,
        forall|i: int, j: int|
            0 <= i < tile_lists@.len() && 0 <= j < tile_lists@[i]@.len()
                ==> (#[trigger] tile_lists@[i]@[j]) < tiles_along(img_size.0 as int)
                * tiles_along(img_size.1 as int),
    ensures
        r is Ok <==> img_size.0 > 0 && img_size.1 > 0 && shapes_consistent(shapes)
            && valid_coeff_count(shapes.sh_coeffs.1 as int),
        r == Err::<FrameModel, RenderError>(RenderError::ZeroSizedImage) <==> (img_size.0 == 0
            || img_size.1 == 0),
        r == Err::<FrameModel, RenderError>(RenderError::MismatchedShapes) <==> (img_size.0 > 0
            && img_size.1 > 0 && !shapes_consistent(shapes)),
        r == Err::<FrameModel, RenderError>(RenderError::UnsupportedCoeffCount) <==> (img_size.0
            > 0 && img_size.1 > 0 && shapes_consistent(shapes) && !valid_coeff_count(
            shapes.sh_coeffs.1 as int,
        )),
        r matches Ok(m) ==> {
            let lists = tile_lists@.map_values(|v: Vec<u32>| v@);
            let clists = compact_tile_lists(lists, m.depth_sorted@);
            &&& m.plan.total_splats == shapes.means.0
            &&& Some(m.plan.sh_degree as int) == spec_sh_degree(shapes.sh_coeffs.1 as int)
            &&& m.plan.img_size == img_size
            &&& m.plan.out_channels == (if raster_u32 { 1u32 } else { 4u32 })
            &&& m.plan.out_img_dims == (img_size.1, img_size.0, m.plan.out_channels)
            &&& m.plan.num_tiles == tiles_along(img_size.0 as int) * tiles_along(img_size.1 as int)
            &&& m.plan.max_intersects == crate::tiles::spec_max_intersections(
                img_size.0 as int,
                img_size.1 as int,
                shapes.means.0 as int,
            )
            &&& (m.plan.num_tiles as nat) < pow2(m.plan.tile_sort_bits as nat)
            &&& m.num_visible == count_true(visible@, visible@.len() as int)
            &&& m.num_visible <= shapes.means.0
            &&& m.depth_sorted@.len() == m.num_visible
            &&& m.depth_sorted@.to_multiset() == visible_entries(
                visible@,
                depth_keys@,
            ).to_multiset()
            &&& sorted_keyed(m.depth_sorted@)
            &&& m.global_from_compact_gid@.len() == m.num_visible
            &&& (forall|c: int|
                0 <= c < m.depth_sorted@.len() ==> m.global_from_compact_gid@[c]
                    == (#[trigger] m.depth_sorted@[c]).id)
            &&& m.num_intersections == total_isects(clists, m.num_visible as int)
            &&& m.isects_sorted@.len() == min(
                m.num_intersections as int,
                m.plan.max_intersects as int,
            )
            &&& m.isects_sorted@.to_multiset() == flat_isects_prefix(
                clists,
                m.num_visible as int,
            ).take(min(m.num_intersections as int, m.plan.max_intersects as int)).to_multiset()
            &&& sorted_keyed(m.isects_sorted@)
            &&& m.tile_counts@.len() == m.plan.num_tiles
            &&& (forall|t: int|
                0 <= t < m.tile_counts@.len() ==> m.tile_counts@[t] == count_eq(
                    keys_of(m.isects_sorted@),
                    t as u32,
                ))
            &&& m.tile_offsets@.len() == m.plan.num_tiles + 1
            &&& m.tile_offsets@[0] == 0
            &&& (forall|t: int|
                0 <= t <= m.tile_counts@.len() ==> m.tile_offsets@[t] == sum_prefix(
                    m.tile_counts@,
                    t,
                ))
            &&& m.tile_offsets@[m.tile_counts@.len() as int] == m.isects_sorted@.len()
            &&& (forall|i: int, j: int|
                0 <= i <= j < m.tile_offsets@.len() ==> m.tile_offsets@[i] <= m.tile_offsets@[j])
        },
{
    let plan = match plan_render(shapes, img_size, raster_u32) {
        Err(e) => {
            return Err(e);
        },
        Ok(p) => p,
    };
    let n = shapes.means.0;
    let ghost lists = tile_lists@.map_values(|v: Vec<u32>| v@);

    // Project-and-cull bookkeeping, then the depth sort.
    let (entries, num_visible) = collect_visible(visible, depth_keys);
    let depth_sorted = sort_keyed(&entries);
    proof {
        lemma_visible_count_and_injectivity(visible@, depth_keys@, depth_sorted@);
        crate::visibility::lemma_visible_entries_props(
            visible@,
            depth_keys@,
            visible@.len() as int,
        );
    }
    let ghost clists = compact_tile_lists(lists, depth_sorted@);

    // The compact-to-original map the backward pass replays through.
    let mut gids: Vec<u32> = Vec::new();
    let mut c: usize = 0;
    while c < depth_sorted.len()
        invariant
            c <= depth_sorted@.len(),
            gids@.len() == c,
            forall|k: int| 0 <= k < c ==> gids@[k] == (#[trigger] depth_sorted@[k]).id,
        decreases depth_sorted@.len() - c,
    {
        gids.push(depth_sorted[c].id);
        c = c + 1;
    }

    // Expand each compact splat's tile hits, in compact order: the flat
    // intersection list the device's mapper produces.
    let mut flat: Vec<KeyedId> = Vec::new();
    proof {
        assert(flat@ =~= flat_isects_prefix(clists, 0));
    }
    let mut c: usize = 0;
    while c < depth_sorted.len()
        invariant
            depth_sorted@.len() <= u32::MAX,
            tile_lists@.len() == shapes.means.0,
            lists == tile_lists@.map_values(|v: Vec<u32>| v@),
            clists == compact_tile_lists(lists, depth_sorted@),
            forall|p: int|
                0 <= p < depth_sorted@.len() ==> ((#[trigger] depth_sorted@[p]).id as int)
                    < tile_lists@.len(),
            c <= depth_sorted@.len(),
            flat@ == flat_isects_prefix(clists, c as int),
        decreases depth_sorted@.len() - c,
    {
        let gid = depth_sorted[c].id as usize;
        let tiles = &tile_lists[gid];
        let mut j: usize = 0;
        proof {
            assert(splat_isects(clists[c as int].take(0), c as u32) =~= Seq::<KeyedId>::empty());
            assert(flat@ =~= flat_isects_prefix(clists, c as int) + splat_isects(
                clists[c as int].take(0),
                c as u32,
            ));
        }
        while j < tiles.len()
            invariant
                c < depth_sorted@.len() <= u32::MAX,
                clists[c as int] == tiles@,
                j <= tiles@.len(),
                flat@ == flat_isects_prefix(clists, c as int) + splat_isects(
                    tiles@.take(j as int),
                    c as u32,
                ),
            decreases tiles@.len() - j,
        {
            flat.push(KeyedId { key: tiles[j], id: c as u32 });
            proof {
                assert(splat_isects(tiles@.take(j + 1), c as u32) =~= splat_isects(
                    tiles@.take(j as int),
                    c as u32,
                ).push(KeyedId { key: tiles@[j as int], id: c as u32 }));
            }
            j = j + 1;
        }
        proof {
            assert(tiles@.take(tiles@.len() as int) =~= tiles@);
            assert(flat_isects_prefix(clists, c as int + 1) == flat_isects_prefix(clists, c as int)
                + splat_isects(clists[c as int], c as u32));
        }
        c = c + 1;
    }
    proof {
        lemma_flat_isects_props(clists, depth_sorted@.len() as int);
    }
    let num_intersections: u64 = flat.len() as u64;

    // Capacity clamp: hits past the planned scratch capacity are dropped,
    // with no signal beyond the counter exceeding the capacity.
    let ghost flat_full = flat@;
    let cap = plan.max_intersects as usize;
    if flat.len() > cap {
        flat.truncate(cap);
    }
    proof {
        assert(flat@ =~= flat_full.take(
            min(num_intersections as int, plan.max_intersects as int),
        ));
    }

    // Tile sort, binning, and the tile offsets.
    let num_tiles_u32 = plan.num_tiles as u32;
    let isects_sorted = sort_keyed(&flat);
    proof {
        broadcast use vstd::seq_lib::group_to_multiset_ensures;

        assert forall|p: int|
            0 <= p < isects_sorted@.len() implies (#[trigger] isects_sorted@[p]).key
            < num_tiles_u32 by {
            assert(isects_sorted@.contains(isects_sorted@[p]));
            assert(flat@.to_multiset().count(isects_sorted@[p]) > 0);
            assert(flat@.contains(isects_sorted@[p]));
            let q = choose|q: int| 0 <= q < flat@.len() && flat@[q] == isects_sorted@[p];
            assert(flat_full[q] == flat@[q]);
        }
    }
    let mut tile_ids: Vec<u32> = Vec::new();
    let mut p: usize = 0;
    while p < isects_sorted.len()
        invariant
            p <= isects_sorted@.len(),
            tile_ids@.len() == p,
            forall|k: int| 0 <= k < p ==> tile_ids@[k] == (#[trigger] isects_sorted@[k]).key,
            forall|k: int|
                0 <= k < isects_sorted@.len() ==> (#[trigger] isects_sorted@[k]).key
                    < num_tiles_u32,
        decreases isects_sorted@.len() - p,
    {
        tile_ids.push(isects_sorted[p].key);
        p = p + 1;
    }
    proof {
        assert(tile_ids@ =~= keys_of(isects_sorted@));
    }
    let tile_counts = count_per_tile(&tile_ids, num_tiles_u32);
    proof {
        lemma_tile_partition(tile_ids@, tile_counts@, num_tiles_u32);
    }
    let tile_offsets = exclusive_prefix_sum(&tile_counts);

    Ok(
        FrameModel {
            plan,
            num_visible,
            global_from_compact_gid: gids,
            depth_sorted,
            num_intersections,
            isects_sorted,
            tile_counts,
            tile_offsets,
        },
    )
}

} // verus!
