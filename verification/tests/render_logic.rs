use brush_render::bins::count_per_tile;
use brush_render::plan::{plan_render, RenderError, SplatShapes};
use brush_render::scan::exclusive_prefix_sum;
use brush_render::sh::{sh_coeffs_for_degree, sh_degree_for_coeff_count, sh_degree_from_coeffs};
use brush_render::sort::{sort_keyed, KeyedId};
use brush_render::tiles::{calc_tile_bounds, max_intersections, tile_sort_bits, INTERSECTS_UPPER_BOUND};

#[test]
fn sh_coeff_counts_per_degree() {
    assert_eq!(sh_coeffs_for_degree(0), 1);
    assert_eq!(sh_coeffs_for_degree(1), 4);
    assert_eq!(sh_coeffs_for_degree(2), 9);
    assert_eq!(sh_coeffs_for_degree(3), 16);
    assert_eq!(sh_coeffs_for_degree(4), 25);
}

#[test]
fn sh_degree_inference_inverts_coeff_count() {
    for degree in 0..=4u32 {
        assert_eq!(sh_degree_from_coeffs(sh_coeffs_for_degree(degree)), degree);
        assert_eq!(
            sh_degree_for_coeff_count(sh_coeffs_for_degree(degree)),
            Some(degree)
        );
    }
}

#[test]
fn sh_degree_inference_rejects_other_counts() {
    for c in [0u32, 2, 3, 5, 8, 10, 15, 17, 24, 26, 100] {
        assert_eq!(sh_degree_for_coeff_count(c), None);
    }
}

#[test]
fn tile_bounds_cover_image() {
    assert_eq!(calc_tile_bounds((1, 1)), (1, 1));
    assert_eq!(calc_tile_bounds((16, 16)), (1, 1));
    assert_eq!(calc_tile_bounds((17, 31)), (2, 2));
    assert_eq!(calc_tile_bounds((1920, 1080)), (120, 68));
    assert_eq!(calc_tile_bounds((0, 32)), (0, 2));
}

#[test]
fn max_intersections_exact_and_clamped() {
    // 32x32 pixels -> 2x2 tiles; 10 splats could hit each of the 4 tiles.
    assert_eq!(max_intersections((32, 32), 10), 40);
    assert_eq!(max_intersections((32, 32), 0), 0);
    // 4096x4096 pixels -> 256x256 tiles; the product exceeds the ceiling.
    assert_eq!(
        max_intersections((4096, 4096), 4_000_000),
        INTERSECTS_UPPER_BOUND
    );
    assert_eq!(INTERSECTS_UPPER_BOUND, 65535 * 256);
}

#[test]
fn tile_sort_bits_minimal_cover() {
    assert_eq!(tile_sort_bits(0), 0);
    assert_eq!(tile_sort_bits(1), 1);
    assert_eq!(tile_sort_bits(2), 2);
    assert_eq!(tile_sort_bits(3), 2);
    assert_eq!(tile_sort_bits(4), 3);
    assert_eq!(tile_sort_bits(255), 8);
    assert_eq!(tile_sort_bits(256), 9);
    assert_eq!(tile_sort_bits(65536), 17);
}

fn consistent_shapes(n: u32, c: u32) -> SplatShapes {
    SplatShapes {
        means: (n, 3),
        log_scales: (n, 3),
        quats: (n, 4),
        sh_coeffs: (n, c, 3),
        raw_opacities: n,
    }
}

#[test]
fn plan_fixes_output_dimensions() {
    let plan = plan_render(consistent_shapes(5, 9), (100, 60), false).unwrap();
    assert_eq!(plan.total_splats, 5);
    assert_eq!(plan.sh_degree, 2);
    assert_eq!(plan.img_size, (100, 60));
    // The output image is exactly the requested height x width x channels.
    assert_eq!(plan.out_channels, 4);
    assert_eq!(plan.out_img_dims, (60, 100, 4));
    assert_eq!(plan.final_index_dims, (60, 100));
    assert_eq!(plan.tile_bounds, (7, 4));
    assert_eq!(plan.num_tiles, 28);
    assert_eq!(plan.max_intersects, 5 * 28);
    // 28 tiles need 5 key bits: 16 <= 28 < 32.
    assert_eq!(plan.tile_sort_bits, 5);
}

#[test]
fn plan_packed_output_has_one_channel() {
    let plan = plan_render(consistent_shapes(2, 1), (16, 16), true).unwrap();
    assert_eq!(plan.out_channels, 1);
    assert_eq!(plan.out_img_dims, (16, 16, 1));
    assert_eq!(plan.sh_degree, 0);
}

#[test]
fn plan_rejects_zero_sized_image() {
    assert_eq!(
        plan_render(consistent_shapes(5, 9), (0, 60), false).unwrap_err(),
        RenderError::ZeroSizedImage
    );
    assert_eq!(
        plan_render(consistent_shapes(5, 9), (100, 0), false).unwrap_err(),
        RenderError::ZeroSizedImage
    );
}

#[test]
fn plan_rejects_mismatched_shapes() {
    let mut shapes = consistent_shapes(5, 9);
    shapes.quats = (5, 3);
    assert_eq!(
        plan_render(shapes, (100, 60), false).unwrap_err(),
        RenderError::MismatchedShapes
    );
    let mut shapes = consistent_shapes(5, 9);
    shapes.raw_opacities = 4;
    assert_eq!(
        plan_render(shapes, (100, 60), false).unwrap_err(),
        RenderError::MismatchedShapes
    );
}

#[test]
fn plan_rejects_unsupported_coeff_count() {
    assert_eq!(
        plan_render(consistent_shapes(5, 7), (100, 60), false).unwrap_err(),
        RenderError::UnsupportedCoeffCount
    );
}

#[test]
fn plan_error_precedence_image_first() {
    // A zero-sized image wins over every later check.
    let mut shapes = consistent_shapes(5, 7);
    shapes.quats = (5, 3);
    assert_eq!(
        plan_render(shapes, (0, 0), false).unwrap_err(),
        RenderError::ZeroSizedImage
    );
}

#[test]
fn exclusive_prefix_sum_exact() {
    assert_eq!(exclusive_prefix_sum(&vec![3, 0, 2, 5]), vec![0, 3, 3, 5, 10]);
    assert_eq!(exclusive_prefix_sum(&vec![]), vec![0]);
    assert_eq!(exclusive_prefix_sum(&vec![7]), vec![0, 7]);
}

#[test]
fn per_tile_counts_partition_the_intersections() {
    let tile_ids: Vec<u32> = vec![0, 1, 1, 3, 0];
    let counts = count_per_tile(&tile_ids, 4);
    assert_eq!(counts, vec![2, 2, 0, 1]);
    // The counts sum to the intersection count, and the offsets start at
    // zero and never decrease.
    let offsets = exclusive_prefix_sum(&counts);
    assert_eq!(offsets, vec![0, 2, 4, 4, 5]);
    assert_eq!(*offsets.last().unwrap() as usize, tile_ids.len());
}

#[test]
fn count_per_tile_empty() {
    assert_eq!(count_per_tile(&vec![], 3), vec![0, 0, 0]);
}

#[test]
fn sort_orders_by_key_then_id() {
    let entries = vec![
        KeyedId { key: 5, id: 0 },
        KeyedId { key: 1, id: 1 },
        KeyedId { key: 5, id: 2 },
        KeyedId { key: 0, id: 3 },
    ];
    let sorted = sort_keyed(&entries);
    assert_eq!(
        sorted,
        vec![
            KeyedId { key: 0, id: 3 },
            KeyedId { key: 1, id: 1 },
            KeyedId { key: 5, id: 0 },
            KeyedId { key: 5, id: 2 },
        ]
    );
}

#[test]
fn sort_empty_and_single() {
    assert_eq!(sort_keyed(&vec![]), vec![]);
    let one = vec![KeyedId { key: 9, id: 4 }];
    assert_eq!(sort_keyed(&one), one);
}
