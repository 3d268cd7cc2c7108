use brush_render::bins::count_per_tile;
use brush_render::isect::map_intersections;
use brush_render::scan::exclusive_prefix_sum;
use brush_render::sort::{sort_keyed, KeyedId};
use brush_render::visibility::collect_visible;

#[test]
fn collect_visible_compacts_in_index_order() {
    let visible = vec![true, false, true, true, false];
    let depth_keys = vec![10, 99, 5, 7, 1];
    let (entries, num_visible) = collect_visible(&visible, &depth_keys);
    assert_eq!(num_visible, 3);
    assert_eq!(
        entries,
        vec![
            KeyedId { key: 10, id: 0 },
            KeyedId { key: 5, id: 2 },
            KeyedId { key: 7, id: 3 },
        ]
    );
}

#[test]
fn culled_splat_leaves_no_trace() {
    // A splat the projection stage culls — zero opacity or a degenerate
    // footprint — is marked invisible and must appear nowhere downstream.
    let visible = vec![true, false, true];
    let depth_keys = vec![4, 2, 8];
    let (entries, num_visible) = collect_visible(&visible, &depth_keys);
    assert_eq!(num_visible, 2);
    assert!(entries.iter().all(|e| e.id != 1));
}

#[test]
fn depth_sort_yields_ascending_compact_map() {
    let visible = vec![true, true, true, true];
    let depth_keys = vec![40, 10, 30, 20];
    let (entries, _) = collect_visible(&visible, &depth_keys);
    let sorted = sort_keyed(&entries);
    // Strictly depth-ascending, and the ids map each compact slot back to
    // its original splat.
    assert_eq!(
        sorted,
        vec![
            KeyedId { key: 10, id: 1 },
            KeyedId { key: 20, id: 3 },
            KeyedId { key: 30, id: 2 },
            KeyedId { key: 40, id: 0 },
        ]
    );
}

#[test]
fn sorted_depths_invariant_under_input_permutation() {
    // The same splats handed over in a different order: the visible depth
    // multiset is unchanged, so the sorted depth sequence is identical.
    let (e1, _) = collect_visible(&vec![true, true, false, true], &vec![30, 10, 77, 20]);
    let (e2, _) = collect_visible(&vec![true, false, true, true], &vec![10, 77, 20, 30]);
    let k1: Vec<u32> = sort_keyed(&e1).iter().map(|e| e.key).collect();
    let k2: Vec<u32> = sort_keyed(&e2).iter().map(|e| e.key).collect();
    assert_eq!(k1, vec![10, 20, 30]);
    assert_eq!(k1, k2);
}

#[test]
fn map_intersections_flattens_in_compact_order() {
    let tile_lists: Vec<Vec<u32>> = vec![vec![0, 1], vec![], vec![2]];
    let flat = map_intersections(&tile_lists);
    assert_eq!(
        flat,
        vec![
            KeyedId { key: 0, id: 0 },
            KeyedId { key: 1, id: 0 },
            KeyedId { key: 2, id: 2 },
        ]
    );
}

#[test]
fn tile_buckets_are_contiguous_and_depth_ordered() {
    // Three splats, already in compact (depth) order, each hitting tiles of
    // a 2x2 grid.
    let tile_lists: Vec<Vec<u32>> = vec![vec![0, 1], vec![1, 3], vec![1]];
    let flat = map_intersections(&tile_lists);
    let sorted = sort_keyed(&flat);
    let tile_ids: Vec<u32> = sorted.iter().map(|e| e.key).collect();
    let counts = count_per_tile(&tile_ids, 4);
    assert_eq!(counts, vec![1, 3, 0, 1]);
    let offsets = exclusive_prefix_sum(&counts);
    assert_eq!(offsets, vec![0, 1, 4, 4, 5]);
    // Every tile's bucket is exactly its offset range, compact ids still
    // ascending inside it.
    for t in 0..4usize {
        let bucket = &sorted[offsets[t] as usize..offsets[t + 1] as usize];
        assert!(bucket.iter().all(|e| e.key == t as u32));
        assert!(bucket.windows(2).all(|w| w[0].id <= w[1].id));
    }
    assert_eq!(
        sorted[1..4]
            .iter()
            .map(|e| e.id)
            .collect::<Vec<u32>>(),
        vec![0, 1, 2]
    );
}
