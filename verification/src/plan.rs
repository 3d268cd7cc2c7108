//! Per-frame render planning and input validation.
//!
//! One render call first validates its inputs — a zero-area image, per-splat
//! arrays that disagree on their leading dimension, or an unsupported
//! spherical-harmonic block size are rejected synchronously, before any device
//! work is issued — and then fixes every host-side decision the dispatch chain
//! depends on: the tile grid, the intersection capacity, the tile-sort key
//! width, and the exact dimensions of the output buffers.

use vstd::prelude::*;
use vstd::arithmetic::power2::pow2;
use crate::sh::{sh_degree_for_coeff_count, spec_sh_degree, valid_coeff_count};
use crate::tiles::{calc_tile_bounds, max_intersections, spec_max_intersections, tile_sort_bits, tiles_along};

verus! {

/// Dimensions of the five per-splat input arrays, as `(rows, columns, ...)`.
///
/// All arrays must share one leading count of splats; `sh_coeffs` is
/// `(splats, coefficients per channel, 3 color channels)`.
#[derive(Clone, Copy, Debug)]
pub struct SplatShapes {
    pub means: (u32, u32),
    pub log_scales: (u32, u32),
    pub quats: (u32, u32),
    pub sh_coeffs: (u32, u32, u32),
    pub raw_opacities: u32,
}

/// The shapes agree: positions and log-scales are `splats x 3`, quaternions
/// `splats x 4`, opacities `splats`, and the coefficient block is
/// `splats x C x 3`, all with one shared leading count.
pub open spec fn shapes_consistent(s: SplatShapes) -> bool {
    let n = s.means.0;
    &&& s.means.1 == 3
    &&& s.log_scales.0 == n
    &&& s.log_scales.1 == 3
    &&& s.quats.0 == n
    &&& s.quats.1 == 4
    &&& s.sh_coeffs.0 == n
    &&& s.sh_coeffs.2 == 3
    &&& s.raw_opacities == n
}

/// A precondition failure, reported before any device work begins.
#[derive(Clone, Copy, Debug, PartialEq, Eq, Structural)]
pub enum RenderError {
    /// The requested image has zero width or zero height.
    ZeroSizedImage,
    /// The per-splat arrays disagree on their dimensions.
    MismatchedShapes,
    /// The coefficient block size maps to no spherical-harmonic degree.
    UnsupportedCoeffCount,
}

/// Every host-side decision of one render call, fixed before dispatching.
#[derive(Clone, Copy, Debug)]
pub struct RenderPlan {
    /// Leading count shared by the per-splat arrays.
    pub total_splats: u32,
    /// Spherical-harmonic degree inferred from the coefficient block size.
    pub sh_degree: u32,
    /// Requested output size as `(width, height)` in pixels.
    pub img_size: (u32, u32),
    /// Color channels of the output image: 4 floats, or 1 packed word.
    pub out_channels: u32,
    /// Output image dimensions as `(rows, columns, channels)`.
    pub out_img_dims: (u32, u32, u32),
    /// Dimensions of the per-pixel final-contributor index, `(rows, columns)`.
    pub final_index_dims: (u32, u32),
    /// Tile-grid bounds as `(columns, rows)` of tiles.
    pub tile_bounds: (u32, u32),
    /// Total number of screen tiles.
    pub num_tiles: u64,
    /// Capacity of the intersection buffers.
    pub max_intersects: u32,
    /// Key bit-width of the tile sort: the minimum covering every tile id.
    pub tile_sort_bits: u32,
}

/// Validate one render request and fix its plan.
///
/// Fails fast, before any dispatch would be issued: a zero-area image, then
/// mismatched per-splat shapes, then an unsupported coefficient count, in
/// that order of precedence.
pub fn plan_render(shapes: SplatShapes, img_size: (u32, u32), raster_u32: bool) -> (r: Result<
    RenderPlan,
    RenderError,
>)
    ensures
        r is Ok <==> img_size.0 > 0 && img_size.1 > 0 && shapes_consistent(shapes)
            && valid_coeff_count(shapes.sh_coeffs.1 as int),
        r == Err::<RenderPlan, RenderError>(RenderError::ZeroSizedImage) <==> (img_size.0 == 0
            || img_size.1 == 0),
        r == Err::<RenderPlan, RenderError>(RenderError::MismatchedShapes) <==> (img_size.0 > 0
            && img_size.1 > 0 && !shapes_consistent(shapes)),
        r == Err::<RenderPlan, RenderError>(RenderError::UnsupportedCoeffCount) <==> (img_size.0
            > 0 && img_size.1 > 0 && shapes_consistent(shapes) && !valid_coeff_count(
            shapes.sh_coeffs.1 as int,
        )),
        r matches Ok(p) ==> p.total_splats == shapes.means.0,
        r matches Ok(p) ==> Some(p.sh_degree as int) == spec_sh_degree(shapes.sh_coeffs.1 as int),
        r matches Ok(p) ==> p.img_size == img_size,
        r matches Ok(p) ==> p.out_channels == (if raster_u32 { 1u32 } else { 4u32 }),
        r matches Ok(p) ==> p.out_img_dims == (img_size.1, img_size.0, p.out_channels),
        r matches Ok(p) ==> p.final_index_dims == (img_size.1, img_size.0),
        r matches Ok(p) ==> p.tile_bounds.0 == tiles_along(img_size.0 as int)
            && p.tile_bounds.1 == tiles_along(img_size.1 as int),
        r matches Ok(p) ==> p.num_tiles == tiles_along(img_size.0 as int) * tiles_along(
            img_size.1 as int,
        ),
        r matches Ok(p) ==> p.max_intersects == spec_max_intersections(
            img_size.0 as int,
            img_size.1 as int,
            shapes.means.0 as int,
        ),
        r matches Ok(p) ==> (p.num_tiles as nat) < pow2(p.tile_sort_bits as nat),
        r matches Ok(p) ==> p.tile_sort_bits > 0 ==> pow2((p.tile_sort_bits - 1) as nat)
            <= p.num_tiles as nat,
{
    if img_size.0 == 0 || img_size.1 == 0 {
        return Err(RenderError::ZeroSizedImage);
    }
    let total_splats = shapes.means.0;
    let shapes_ok = shapes.means.1 == 3 && shapes.log_scales.0 == total_splats
        && shapes.log_scales.1 == 3 && shapes.quats.0 == total_splats && shapes.quats.1 == 4
        && shapes.sh_coeffs.0 == total_splats && shapes.sh_coeffs.2 == 3
        && shapes.raw_opacities == total_splats;
    if !shapes_ok {
        return Err(RenderError::MismatchedShapes);
    }
    let sh_degree = match sh_degree_for_coeff_count(shapes.sh_coeffs.1) {
        None => {
            return Err(RenderError::UnsupportedCoeffCount);
        },
        Some(d) => d,
    };
    let tile_bounds = calc_tile_bounds(img_size);
    proof {
        assert(tile_bounds.0 as int * tile_bounds.1 as int <= 0x100_0000_0000_0000int)
            by (nonlinear_arith)
            requires
                0 <= tile_bounds.0 as int <= 0x1000_0000,
                0 <= tile_bounds.1 as int <= 0x1000_0000,
        ;
    }
    let num_tiles: u64 = tile_bounds.0 as u64 * tile_bounds.1 as u64;
    let max_intersects = max_intersections(img_size, total_splats);
    let sort_bits = tile_sort_bits(num_tiles);
    let out_channels: u32 = if raster_u32 {
        1
    } else {
        4
    };
    Ok(
        RenderPlan {
            total_splats,
            sh_degree,
            img_size,
            out_channels,
            out_img_dims: (img_size.1, img_size.0, out_channels),
            final_index_dims: (img_size.1, img_size.0),
            tile_bounds,
            num_tiles,
            max_intersects,
            tile_sort_bits: sort_bits,
        },
    )
}

} // verus!
