use flock_lab::simulation::SpatialHash;

/// The grid cell of a point, for a grid of `cell_size` cells.
fn cell(p: [f32; 3], cell_size: f32) -> [i32; 3] {
    [
        (p[0] / cell_size).floor() as i32,
        (p[1] / cell_size).floor() as i32,
        (p[2] / cell_size).floor() as i32,
    ]
}

#[test]
fn hash_is_consistent_for_same_cell() {
    let a = SpatialHash::hash_cell([3, -2, 9]);
    let b = SpatialHash::hash_cell([3, -2, 9]);
    let c = SpatialHash::hash_cell([3, -2, 10]);
    assert_eq!(a, b);
    assert_ne!(a, c);
}

#[test]
fn query_returns_adjacent_cell_indices() {
    let mut hash = SpatialHash::new();
    hash.insert(7, cell([1.0, 0.0, 0.0], 5.0));
    hash.insert(9, cell([6.0, 0.0, 0.0], 5.0));
    hash.insert(11, cell([25.0, 0.0, 0.0], 5.0));

    let mut found = hash.nearby_indices(cell([0.0, 0.0, 0.0], 5.0));
    found.sort_unstable();
    assert_eq!(found, vec![7, 9]);
}

#[test]
fn limited_query_caps_results() {
    let mut hash = SpatialHash::new();
    for index in 0..8 {
        hash.insert(index, cell([index as f32 * 0.1, 0.0, 0.0], 5.0));
    }
    // A radius of one cell size reaches one cell in every direction.
    assert_eq!(hash.nearby_indices_limited(cell([0.0, 0.0, 0.0], 5.0), 1, 3).len(), 3);
}

#[test]
fn hash_cell_matches_formula() {
    let expected = (3u64.wrapping_mul(73_856_093))
        ^ ((-2i64 as u64).wrapping_mul(19_349_663))
        ^ (9u64.wrapping_mul(83_492_791));
    assert_eq!(SpatialHash::hash_cell([3, -2, 9]), expected);
    assert_eq!(SpatialHash::hash_cell([0, 0, 0]), 0);
    assert_eq!(SpatialHash::hash_cell([1, 0, 0]), 73_856_093);
}

#[test]
fn insert_groups_indices_by_cell_in_order() {
    let mut hash = SpatialHash::new();
    assert_eq!(hash.cell_count(), 0);
    hash.insert(4, [0, 0, 0]);
    hash.insert(2, [0, 0, 0]);
    hash.insert(5, [-1, 0, 0]);
    assert_eq!(hash.cell_count(), 2);
    assert_eq!(hash.nearby_indices_limited([0, 0, 0], 0, usize::MAX), vec![4, 2]);
    assert_eq!(hash.nearby_indices_limited([-1, 0, 0], 0, usize::MAX), vec![5]);
}

#[test]
fn query_walks_cells_in_axis_order() {
    let mut hash = SpatialHash::new();
    hash.insert(1, [1, 1, 1]);
    hash.insert(2, [-1, -1, -1]);
    hash.insert(3, [0, 0, 1]);
    hash.insert(4, [0, 0, -1]);
    // x first, then y, then z, from low to high.
    assert_eq!(hash.nearby_indices([0, 0, 0]), vec![2, 4, 3, 1]);
}

#[test]
fn query_reaches_only_within_radius() {
    let mut hash = SpatialHash::new();
    hash.insert(1, [2, 0, 0]);
    hash.insert(2, [3, 0, 0]);
    hash.insert(3, [0, -2, 2]);
    assert_eq!(hash.nearby_indices([0, 0, 0]), Vec::<usize>::new());
    let mut found = hash.nearby_indices_limited([0, 0, 0], 2, usize::MAX);
    found.sort_unstable();
    assert_eq!(found, vec![1, 3]);
    assert_eq!(hash.nearby_indices_limited([0, 0, 0], -1, usize::MAX), Vec::<usize>::new());
}

#[test]
fn query_handles_negative_cells_and_limit_zero() {
    let mut hash = SpatialHash::new();
    hash.insert(10, [-5, -5, -5]);
    hash.insert(11, [-6, -4, -5]);
    assert_eq!(hash.nearby_indices([-5, -5, -5]), vec![11, 10]);
    assert_eq!(hash.nearby_indices_limited([-5, -5, -5], 1, 0), Vec::<usize>::new());
    assert_eq!(hash.nearby_indices_limited([-5, -5, -5], 1, 1), vec![11]);
}

#[test]
fn extreme_cells_do_not_collide() {
    let mut hash = SpatialHash::new();
    hash.insert(1, [i32::MIN, i32::MAX, 0]);
    hash.insert(2, [i32::MAX, i32::MIN, 0]);
    hash.insert(3, [0, 0, i32::MIN]);
    assert_eq!(hash.cell_count(), 3);
    assert_eq!(hash.nearby_indices_limited([i32::MIN, i32::MAX, 0], 0, usize::MAX), vec![1]);
}

#[test]
fn rebuild_replaces_everything() {
    let mut hash = SpatialHash::new();
    hash.insert(99, [7, 7, 7]);
    hash.rebuild(&[(0, [0, 0, 0]), (1, [1, 0, 0]), (2, [0, 0, 0])]);
    assert_eq!(hash.cell_count(), 2);
    assert_eq!(hash.nearby_indices_limited([7, 7, 7], 0, usize::MAX), Vec::<usize>::new());
    assert_eq!(hash.nearby_indices_limited([0, 0, 0], 0, usize::MAX), vec![0, 2]);
    hash.clear();
    assert_eq!(hash.cell_count(), 0);
}

#[test]
fn clone_keeps_contents() {
    let mut hash = SpatialHash::new();
    hash.insert(3, [1, 2, 3]);
    let copy = hash.clone();
    hash.clear();
    assert_eq!(copy.nearby_indices_limited([1, 2, 3], 0, usize::MAX), vec![3]);
    assert_eq!(hash.cell_count(), 0);
}
