use particle_life::grid::{wrapped, SpatialGrid};

#[test]
fn neighbour_of_the_first_column_is_the_last() {
    assert_eq!(wrapped(0, -1, 42), 41);
    assert_eq!(wrapped(41, 1, 42), 0);
    assert_eq!(wrapped(5, 0, 42), 5);
    assert_eq!(wrapped(5, 1, 42), 6);
    assert_eq!(wrapped(5, -1, 42), 4);
}

#[test]
fn cells_outside_the_torus_are_brought_onto_it() {
    assert_eq!(wrapped(-3, 0, 42), 39);
    assert_eq!(wrapped(42, 0, 42), 0);
    assert_eq!(wrapped(85, 1, 42), 2);
    assert_eq!(wrapped(-43, 0, 42), 41);
}

#[test]
fn wrapping_by_a_negative_count_is_not_negative() {
    assert_eq!(wrapped(-1, 0, -42), 41);
    assert_eq!(wrapped(5, 0, -42), 5);
    assert_eq!(wrapped(0, -1, -3), 2);
    assert_eq!(wrapped(7, 1, -1), 0);
}

#[test]
fn wrapping_at_the_ends_of_the_machine_integers() {
    let top = (isize::MAX as i128 + 1).rem_euclid(42) as isize;
    assert_eq!(wrapped(isize::MAX, 1, 42), top);
    let bottom = (isize::MIN as i128 - 1).rem_euclid(7) as isize;
    assert_eq!(wrapped(isize::MIN, -1, 7), bottom);
    assert_eq!(wrapped(isize::MIN, 0, -1), 0);
    assert_eq!(wrapped(isize::MAX, 0, isize::MAX), 0);
    assert_eq!(wrapped(isize::MAX, 1, isize::MAX), 1);
    assert_eq!(wrapped(isize::MIN, 0, isize::MIN), 0);
    assert_eq!(wrapped(isize::MIN, -1, isize::MIN), isize::MAX);
}

#[test]
fn new_grid_is_empty() {
    let grid = SpatialGrid::new();
    assert!(grid.get(0, 0).is_none());
    assert!(grid.get(-1, 5).is_none());
    assert_eq!(grid.neighbors(0, 0, 42, 24), Vec::<usize>::new());
}

#[test]
fn indices_stay_in_the_order_in_which_they_were_put() {
    let mut grid = SpatialGrid::new();
    grid.insert(3, 4, 7);
    grid.insert(3, 4, 2);
    grid.insert(4, 3, 9);
    grid.insert(3, 4, 7);
    assert_eq!(grid.get(3, 4), Some(&vec![7, 2, 7]));
    assert_eq!(grid.get(4, 3), Some(&vec![9]));
    assert!(grid.get(3, 3).is_none());
}

#[test]
fn cells_with_negative_coordinates_are_cells_of_their_own() {
    let mut grid = SpatialGrid::new();
    grid.insert(-1, 0, 1);
    grid.insert(0, -1, 2);
    grid.insert(-1, -1, 3);
    grid.insert(1, 1, 4);
    grid.insert(0, 0, 5);
    assert_eq!(grid.get(-1, 0), Some(&vec![1]));
    assert_eq!(grid.get(0, -1), Some(&vec![2]));
    assert_eq!(grid.get(-1, -1), Some(&vec![3]));
    assert_eq!(grid.get(1, 1), Some(&vec![4]));
    assert_eq!(grid.get(0, 0), Some(&vec![5]));
    assert!(grid.get(1, 0).is_none());
    assert!(grid.get(0, 1).is_none());
}

#[test]
fn cells_at_the_ends_of_the_machine_integers_do_not_collide() {
    let mut grid = SpatialGrid::new();
    let ends = [isize::MIN, -1, 0, 1, isize::MAX];
    let mut idx = 0;
    for cx in ends {
        for cy in ends {
            grid.insert(cx, cy, idx);
            idx += 1;
        }
    }
    let mut idx = 0;
    for cx in ends {
        for cy in ends {
            assert_eq!(grid.get(cx, cy), Some(&vec![idx]));
            idx += 1;
        }
    }
    assert!(grid.get(isize::MIN + 1, isize::MAX).is_none());
    assert!(grid.get(isize::MIN, isize::MAX - 1).is_none());
}

#[test]
fn clear_empties_every_cell() {
    let mut grid = SpatialGrid::new();
    grid.insert(3, 4, 7);
    grid.insert(-3, 4, 8);
    grid.clear();
    assert!(grid.get(3, 4).is_none());
    assert!(grid.get(-3, 4).is_none());
    grid.insert(3, 4, 1);
    assert_eq!(grid.get(3, 4), Some(&vec![1]));
}

#[test]
fn neighbours_come_column_by_column() {
    let mut grid = SpatialGrid::new();
    let mut idx = 0;
    for cy in 4..7 {
        for cx in 9..12 {
            grid.insert(cx, cy, idx);
            idx += 1;
        }
    }
    grid.insert(20, 20, 99);
    assert_eq!(grid.neighbors(10, 5, 42, 24), vec![0, 3, 6, 1, 4, 7, 2, 5, 8]);
}

#[test]
fn neighbours_of_a_corner_cell_lie_across_the_edges() {
    let mut grid = SpatialGrid::new();
    grid.insert(41, 23, 0);
    grid.insert(41, 0, 1);
    grid.insert(41, 1, 2);
    grid.insert(0, 23, 3);
    grid.insert(0, 0, 4);
    grid.insert(0, 1, 5);
    grid.insert(1, 23, 6);
    grid.insert(1, 0, 7);
    grid.insert(1, 1, 8);
    grid.insert(2, 0, 9);
    grid.insert(40, 0, 10);
    grid.insert(0, 2, 11);
    grid.insert(0, 22, 12);
    grid.insert(-1, 0, 13);
    grid.insert(42, 0, 14);
    assert_eq!(grid.neighbors(0, 0, 42, 24), vec![0, 1, 2, 3, 4, 5, 6, 7, 8]);
    assert_eq!(grid.neighbors(41, 23, 42, 24), vec![10, 0, 1, 12, 3, 4]);
}

#[test]
fn neighbours_keep_the_order_inside_a_cell() {
    let mut grid = SpatialGrid::new();
    grid.insert(5, 5, 3);
    grid.insert(4, 5, 8);
    grid.insert(5, 5, 1);
    grid.insert(4, 5, 2);
    assert_eq!(grid.neighbors(5, 5, 42, 24), vec![8, 2, 3, 1]);
}

#[test]
fn a_torus_of_one_cell_is_walked_nine_times() {
    let mut grid = SpatialGrid::new();
    grid.insert(0, 0, 4);
    grid.insert(0, 0, 6);
    assert_eq!(grid.neighbors(0, 0, 1, 1).len(), 18);
    assert_eq!(grid.neighbors(17, -5, 1, 1).len(), 18);
    assert_eq!(grid.neighbors(0, 0, 3, 1), vec![4, 6, 4, 6, 4, 6]);
    assert_eq!(grid.neighbors(0, 0, 3, 3), vec![4, 6]);
}

#[test]
fn a_cell_outside_the_torus_is_not_looked_at() {
    let mut grid = SpatialGrid::new();
    grid.insert(42, 5, 1);
    grid.insert(-1, 5, 2);
    assert_eq!(grid.neighbors(41, 5, 42, 24), Vec::<usize>::new());
    assert_eq!(grid.neighbors(0, 5, 42, 24), Vec::<usize>::new());
}

#[test]
fn a_ring_of_no_cells_does_not_wrap() {
    assert_eq!(wrapped(5, 1, 0), 6);
    assert_eq!(wrapped(0, -1, 0), -1);
    assert_eq!(wrapped(-7, 0, 0), -7);
    assert_eq!(wrapped(isize::MAX, 1, 0), isize::MAX);
    assert_eq!(wrapped(isize::MIN, -1, 0), isize::MIN);
}

#[test]
fn neighbours_without_columns_or_rows_are_the_plain_block() {
    let mut grid = SpatialGrid::new();
    grid.insert(0, 0, 4);
    grid.insert(-1, 1, 6);
    grid.insert(1, -1, 8);
    grid.insert(2, 0, 9);
    assert_eq!(grid.neighbors(0, 0, 0, 0), vec![6, 4, 8]);
    assert_eq!(grid.neighbors(1, 0, 0, 0), vec![4, 8, 9]);
    assert_eq!(grid.neighbors(0, 0, 0, 1), vec![4, 4, 4]);
}
