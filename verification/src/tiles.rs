//! Tile-grid geometry and the intersection capacity heuristic.
//!
//! The output image is divided into square tiles; every splat/tile overlap
//! becomes one intersection record. The intersection list's true size is only
//! known on the device, so the host sizes its scratch buffers by a heuristic
//! upper bound: every visible splat could touch every tile, clamped to a hard
//! ceiling. The tile sort later keys on the tile id, so the minimal key
//! bit-width covering the tile-id range is computed here as well.

use vstd::prelude::*;
use vstd::arithmetic::power2::{pow2, lemma_pow2_unfold, lemma_pow2_strictly_increases, lemma2_to64, lemma2_to64_rest};
use vstd::math::min;

verus! {

/// Side length, in pixels, of one square screen tile.
pub const TILE_WIDTH: u32 = 16;

/// Hard ceiling on the intersection buffer: the largest element count one
/// dynamically sized dispatch can cover (65535 workgroups of 256 threads).
pub const INTERSECTS_UPPER_BOUND: u32 = 65535 * 256;

/// Number of tiles needed to cover `pixels` pixels along one axis.
pub open spec fn tiles_along(pixels: int) -> int {
    (pixels + TILE_WIDTH - 1) / (TILE_WIDTH as int)
}

/// Heuristic intersection capacity: splats times tiles, clamped to the ceiling.
pub open spec fn spec_max_intersections(w: int, h: int, num_splats: int) -> int {
    min(num_splats * (tiles_along(w) * tiles_along(h)), INTERSECTS_UPPER_BOUND as int)
}

/// Tiles needed along one image axis of `pixels` pixels.
fn tiles_for_axis(pixels: u32) -> (r: u32)
    ensures
        r == tiles_along(pixels as int),
        r <= 0x1000_0000,
{
    let q = pixels / TILE_WIDTH;
    let m = pixels % TILE_WIDTH;
    if m == 0 {
        q
    } else {
        q + 1
    }
}

/// Tile-grid bounds `(columns, rows)` covering an image of `img_size` pixels.
pub fn calc_tile_bounds(img_size: (u32, u32)) -> (r: (u32, u32))
    ensures
        r.0 == tiles_along(img_size.0 as int),
        r.1 == tiles_along(img_size.1 as int),
        r.0 <= 0x1000_0000 && r.1 <= 0x1000_0000,
{
    (tiles_for_axis(img_size.0), tiles_for_axis(img_size.1))
}

/// Capacity of the per-frame intersection buffers: an upper bound on how many
/// (tile, splat) overlaps the pipeline will record before clamping.
///
/// Overlaps past this capacity are dropped on the device with no signal other
/// than the final intersection counter exceeding the capacity.
pub fn max_intersections(img_size: (u32, u32), num_splats: u32) -> (r: u32)
    ensures
        r == spec_max_intersections(img_size.0 as int, img_size.1 as int, num_splats as int),
{
    let tile_bounds = calc_tile_bounds(img_size);
    proof {
        assert(tile_bounds.0 as int * tile_bounds.1 as int <= 0x100_0000_0000_0000int)
            by (nonlinear_arith)
            requires
                0 <= tile_bounds.0 as int <= 0x1000_0000,
                0 <= tile_bounds.1 as int <= 0x1000_0000,
        ;
    }
    let num_tiles: u64 = tile_bounds.0 as u64 * tile_bounds.1 as u64;
    if num_splats == 0 || num_tiles == 0 {
        proof {
            assert(num_splats as int * (num_tiles as int) == 0) by (nonlinear_arith)
                requires
                    num_splats as int == 0 || num_tiles as int == 0,
            ;
        }
        return 0;
    }
    if num_tiles > INTERSECTS_UPPER_BOUND as u64 {
        proof {
            assert(num_splats as int * (num_tiles as int) >= num_tiles as int)
                by (nonlinear_arith)
                requires
                    num_splats as int >= 1,
                    num_tiles as int >= 0,
            ;
        }
        return INTERSECTS_UPPER_BOUND;
    }
    proof {
        assert(num_splats as int * (num_tiles as int) <= 0xffff_ffffint * 0x100_0000int)
            by (nonlinear_arith)
            requires
                0 <= num_splats as int <= 0xffff_ffffint,
                0 <= num_tiles as int <= 0x100_0000int,
        ;
    }
    let prod: u64 = num_splats as u64 * num_tiles;
    if prod > INTERSECTS_UPPER_BOUND as u64 {
        INTERSECTS_UPPER_BOUND
    } else {
        prod as u32
    }
}

/// Minimal key bit-width for the tile sort: the smallest `b` with
/// `num_tiles < 2^b`. Sorting on only these bits spares radix passes over
/// bits that are zero for every tile id.
pub fn tile_sort_bits(num_tiles: u64) -> (r: u32)
    requires
        num_tiles <= 0x7fff_ffff_ffff_ffff,
    ensures
        (num_tiles as nat) < pow2(r as nat),
        r > 0 ==> pow2((r - 1) as nat) <= num_tiles as nat,
        r <= 63,
{
    let mut bits: u32 = 0;
    let mut p: u64 = 1;
    proof {
        lemma2_to64();
        lemma2_to64_rest();
    }
    while p <= num_tiles
        invariant
            num_tiles <= 0x7fff_ffff_ffff_ffff,
            p as nat == pow2(bits as nat),
            bits > 0 ==> pow2((bits - 1) as nat) <= num_tiles as nat,
            bits <= 63,
        decreases 2 * (num_tiles as int) + 2 - (p as int),
    {
        proof {
            lemma_pow2_unfold((bits + 1) as nat);
            lemma2_to64();
            lemma2_to64_rest();
            if bits >= 63 {
                assert(pow2(63) == 0x8000_0000_0000_0000);
                if bits > 63 {
                    lemma_pow2_strictly_increases(63, bits as nat);
                }
                assert(p as nat >= 0x8000_0000_0000_0000);
                assert(false);
            }
        }
        p = p * 2;
        bits = bits + 1;
    }
    proof {
        if bits > 0 {
            lemma2_to64();
            lemma2_to64_rest();
            if bits > 64 {
                lemma_pow2_strictly_increases(64, (bits - 1) as nat);
            }
            assert(pow2((bits - 1) as nat) <= num_tiles as nat);
            if bits - 1 >= 63 {
                if bits - 1 > 63 {
                    lemma_pow2_strictly_increases(63, (bits - 1) as nat);
                }
                assert(pow2((bits - 1) as nat) >= 0x8000_0000_0000_0000);
                assert(false);
            }
        }
    }
    bits
}

} // verus!
