//! Host-side core of a tiled Gaussian-splat renderer.
//!
//! A scene of anisotropic 3D Gaussian primitives ("splats") is rendered by a
//! pipeline of device dispatches: project and cull, sort by depth, project the
//! visible splats per tile, expand per-splat tile hits into a flat
//! intersection list, sort it by tile, and composite each pixel front to back.
//! The kernels themselves run on the device; what is verified here is the
//! host-side logic that the pipeline's correctness hangs on: spherical-harmonic
//! degree inference, tile-grid geometry and the intersection capacity, the
//! per-frame render plan with its validation, and models of the coordination
//! stages (visibility compaction, stable keyed sorting, exclusive prefix sums,
//! per-tile binning) together with the ordering laws they guarantee.

pub mod bins;
pub mod buckets;
pub mod forward;
pub mod isect;
pub mod laws;
pub mod plan;
pub mod scan;
pub mod sh;
pub mod sort;
pub mod tiles;
pub mod visibility;
