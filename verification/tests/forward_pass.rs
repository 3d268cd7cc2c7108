use brush_render::forward::render_forward;
use brush_render::plan::{RenderError, SplatShapes};
use brush_render::sort::KeyedId;

fn consistent_shapes(n: u32, c: u32) -> SplatShapes {
    SplatShapes {
        means: (n, 3),
        log_scales: (n, 3),
        quats: (n, 4),
        sh_coeffs: (n, c, 3),
        raw_opacities: n,
    }
}

#[test]
fn forward_pass_small_scene() {
    // Four splats on a 32x32 image (2x2 tiles); splat 1 is culled.
    let visible = vec![true, false, true, true];
    let depth_keys = vec![30, 99, 10, 20];
    let tile_lists: Vec<Vec<u32>> = vec![vec![0, 1], vec![3], vec![1], vec![1, 2]];
    let m = render_forward(
        consistent_shapes(4, 1),
        (32, 32),
        false,
        &visible,
        &depth_keys,
        &tile_lists,
    )
    .unwrap();

    assert_eq!(m.num_visible, 3);
    // Depth order 10 < 20 < 30 maps compact ids to originals 2, 3, 0.
    assert_eq!(m.global_from_compact_gid, vec![2, 3, 0]);
    assert_eq!(
        m.depth_sorted,
        vec![
            KeyedId { key: 10, id: 2 },
            KeyedId { key: 20, id: 3 },
            KeyedId { key: 30, id: 0 },
        ]
    );
    // Tile hits of the compact splats: [1], [1, 2], [0, 1] -> five records.
    assert_eq!(m.num_intersections, 5);
    assert_eq!(
        m.isects_sorted,
        vec![
            KeyedId { key: 0, id: 2 },
            KeyedId { key: 1, id: 0 },
            KeyedId { key: 1, id: 1 },
            KeyedId { key: 1, id: 2 },
            KeyedId { key: 2, id: 1 },
        ]
    );
    assert_eq!(m.plan.num_tiles, 4);
    assert_eq!(m.tile_counts, vec![1, 3, 1, 0]);
    assert_eq!(m.tile_offsets, vec![0, 1, 4, 5, 5]);
    // The counts sum to the recorded intersections.
    assert_eq!(*m.tile_offsets.last().unwrap() as usize, m.isects_sorted.len());
}

#[test]
fn forward_pass_clamps_at_capacity() {
    // One splat on a one-tile image: the heuristic capacity is one record,
    // so the second hit is dropped while the counter still reports it.
    let m = render_forward(
        consistent_shapes(1, 1),
        (16, 16),
        false,
        &vec![true],
        &vec![5],
        &vec![vec![0, 0]],
    )
    .unwrap();
    assert_eq!(m.plan.max_intersects, 1);
    assert_eq!(m.num_intersections, 2);
    assert_eq!(m.isects_sorted, vec![KeyedId { key: 0, id: 0 }]);
    assert_eq!(m.tile_counts, vec![1]);
    assert_eq!(m.tile_offsets, vec![0, 1]);
}

#[test]
fn forward_pass_empty_scene() {
    let m = render_forward(
        consistent_shapes(0, 25),
        (64, 48),
        true,
        &vec![],
        &vec![],
        &vec![],
    )
    .unwrap();
    assert_eq!(m.plan.sh_degree, 4);
    assert_eq!(m.plan.out_channels, 1);
    assert_eq!(m.num_visible, 0);
    assert_eq!(m.num_intersections, 0);
    assert_eq!(m.global_from_compact_gid, Vec::<u32>::new());
    assert_eq!(m.tile_counts, vec![0; 12]);
    assert_eq!(m.tile_offsets, vec![0; 13]);
}

#[test]
fn forward_pass_fails_fast() {
    let err = render_forward(
        consistent_shapes(2, 9),
        (0, 32),
        false,
        &vec![true, true],
        &vec![1, 2],
        &vec![vec![], vec![]],
    )
    .unwrap_err();
    assert_eq!(err, RenderError::ZeroSizedImage);
    let mut shapes = consistent_shapes(2, 9);
    shapes.log_scales = (3, 3);
    let err = render_forward(
        shapes,
        (32, 32),
        false,
        &vec![true, true],
        &vec![1, 2],
        &vec![vec![], vec![]],
    )
    .unwrap_err();
    assert_eq!(err, RenderError::MismatchedShapes);
}

#[test]
fn single_splat_owns_its_pixel_range() {
    // One visible splat covering the only tile: the rasterizer's iteration
    // range for that tile is exactly one record, and the compact id it ends
    // on — the final contributing index — is that splat's.
    let m = render_forward(
        consistent_shapes(1, 4),
        (16, 16),
        false,
        &vec![true],
        &vec![1],
        &vec![vec![0]],
    )
    .unwrap();
    assert_eq!(m.num_visible, 1);
    assert_eq!(m.tile_offsets, vec![0, 1]);
    let bucket = &m.isects_sorted[m.tile_offsets[0] as usize..m.tile_offsets[1] as usize];
    assert_eq!(bucket, &[KeyedId { key: 0, id: 0 }]);
    assert_eq!(m.global_from_compact_gid[bucket[0].id as usize], 0);
}
