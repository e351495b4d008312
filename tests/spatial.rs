use panopaea::spatial::BoundedGrid;

#[test]
fn keys_of_cells() {
    let grid = BoundedGrid::new((4, 3));
    assert_eq!(grid.get_key(Some((0, 0))), 0);
    assert_eq!(grid.get_key(Some((3, 0))), 3);
    assert_eq!(grid.get_key(Some((1, 2))), 9);
    assert_eq!(grid.get_key(Some((4, 0))), usize::MAX);
    assert_eq!(grid.get_key(Some((0, 3))), usize::MAX);
    assert_eq!(grid.get_key(None), usize::MAX);
}

#[test]
fn ranges_follow_sorted_keys() {
    let mut grid = BoundedGrid::new((2, 2));
    grid.construct_ranges(&[0, 0, 2, 2, 2, 3]);
    assert_eq!(grid.get_range((0, 0)), Some((0, 2)));
    assert_eq!(grid.get_range((1, 0)), Some((0, 0)));
    assert_eq!(grid.get_range((0, 1)), Some((2, 5)));
    assert_eq!(grid.get_range((1, 1)), Some((5, 6)));
    assert_eq!(grid.get_range((2, 0)), None);
    assert_eq!(grid.get_range((0, 2)), None);
    assert_eq!(grid.get_range_unchecked((0, 1)), (2, 5));
}

#[test]
fn ranges_stop_at_keys_outside_the_grid() {
    let mut grid = BoundedGrid::new((2, 2));
    grid.construct_ranges(&[1, 1, 3, usize::MAX, usize::MAX]);
    assert_eq!(grid.get_range((1, 0)), Some((0, 2)));
    assert_eq!(grid.get_range((1, 1)), Some((2, 3)));
    assert_eq!(grid.get_range((0, 0)), Some((0, 0)));

    // rebuilding forgets the old ranges
    grid.construct_ranges(&[usize::MAX]);
    assert_eq!(grid.get_range((1, 0)), Some((0, 0)));
    grid.construct_ranges(&[]);
    assert_eq!(grid.get_range((1, 1)), Some((0, 0)));
}

#[test]
fn neighbor_ranges_cover_the_window() {
    let mut grid = BoundedGrid::new((3, 3));
    // one particle per cell, keys 0..9
    grid.construct_ranges(&[0, 1, 2, 3, 4, 5, 6, 7, 8]);
    assert_eq!(grid.neighbor_ranges((1, 1), 1).len(), 9);
    assert_eq!(grid.neighbor_ranges((0, 0), 1), vec![(0, 1), (1, 2), (3, 4), (4, 5)]);
    assert_eq!(grid.neighbor_ranges((2, 2), 0), vec![(8, 9)]);
    assert_eq!(grid.neighbor_ranges((2, 0), usize::MAX).len(), 9);
    assert!(grid.neighbor_ranges((5, 5), 1).is_empty());
}
