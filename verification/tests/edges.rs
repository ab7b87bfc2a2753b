use ameda::GridIndex;

fn sizes() -> Vec<(usize, usize)> {
    vec![(2, 2), (5, 3), (8, 8), (12, 10), (3, 40), (123, 115)]
}

#[test]
fn edges_of_eight_by_eight() {
    let grid = GridIndex::new(8, 8).unwrap();
    assert_eq!(grid.top_row_indices(), &vec![0, 1, 2, 3, 4, 5, 6, 7]);
    assert_eq!(
        grid.bottom_row_indices(),
        &vec![56, 57, 58, 59, 60, 61, 62, 63]
    );
    assert_eq!(
        grid.left_column_indices(),
        &vec![0, 8, 16, 24, 32, 40, 48, 56]
    );
    assert_eq!(
        grid.right_column_indices(),
        &vec![7, 15, 23, 31, 39, 47, 55, 63]
    );
}

#[test]
fn edges_of_five_by_three() {
    let grid = GridIndex::new(5, 3).unwrap();
    assert_eq!(grid.top_row_indices(), &vec![0, 1, 2, 3, 4]);
    assert_eq!(grid.bottom_row_indices(), &vec![10, 11, 12, 13, 14]);
    assert_eq!(grid.left_column_indices(), &vec![0, 5, 10]);
    assert_eq!(grid.right_column_indices(), &vec![4, 9, 14]);
}

#[test]
fn interior_of_small_grids() {
    assert_eq!(GridIndex::new(5, 3).unwrap().interior_indices(), &vec![6, 7, 8]);
    assert_eq!(
        GridIndex::new(4, 4).unwrap().interior_indices(),
        &vec![5, 6, 9, 10]
    );
    assert!(GridIndex::new(2, 2).unwrap().interior_indices().is_empty());
    assert!(GridIndex::new(2, 9).unwrap().interior_indices().is_empty());
    assert!(GridIndex::new(9, 2).unwrap().interior_indices().is_empty());
}

#[test]
fn interior_counts_the_inner_rectangle() {
    for (length, height) in sizes() {
        let grid = GridIndex::new(length, height).unwrap();
        assert_eq!(
            grid.interior_indices().len(),
            (length - 2) * (height - 2)
        );
    }
}

#[test]
fn edges_and_interior_cover_the_grid() {
    for (length, height) in sizes() {
        let grid = GridIndex::new(length, height).unwrap();
        let mut seen: Vec<usize> = vec![0; grid.cell_count()];
        let edges = [
            grid.top_row_indices(),
            grid.bottom_row_indices(),
            grid.left_column_indices(),
            grid.right_column_indices(),
        ];
        for edge in edges {
            for i in edge {
                assert!(*i < grid.cell_count());
                seen[*i] += 1;
            }
        }
        for i in grid.interior_indices() {
            assert!(*i < grid.cell_count());
            assert_eq!(seen[*i], 0);
            seen[*i] = 1;
        }
        assert!(seen.iter().all(|n| *n >= 1));
        assert_eq!(seen[grid.top_left_corner()], 2);
        assert_eq!(seen[grid.top_right_corner()], 2);
        assert_eq!(seen[grid.bottom_left_corner()], 2);
        assert_eq!(seen[grid.bottom_right_corner()], 2);
    }
}

#[test]
fn rows_by_number() {
    let grid = GridIndex::new(5, 3).unwrap();
    assert_eq!(grid.row_cell_indexes(0), Some(vec![0, 1, 2, 3, 4]));
    assert_eq!(grid.row_cell_indexes(1), Some(vec![5, 6, 7, 8, 9]));
    assert_eq!(grid.row_cell_indexes(2), Some(vec![10, 11, 12, 13, 14]));
    assert_eq!(grid.row_cell_indexes(3), None);
    assert_eq!(grid.row_cell_indexes(usize::MAX), None);
}

#[test]
fn columns_by_number() {
    let grid = GridIndex::new(5, 3).unwrap();
    assert_eq!(grid.col_cell_indexes(0), Some(vec![0, 5, 10]));
    assert_eq!(grid.col_cell_indexes(2), Some(vec![2, 7, 12]));
    assert_eq!(grid.col_cell_indexes(4), Some(vec![4, 9, 14]));
    assert_eq!(grid.col_cell_indexes(5), None);
    assert_eq!(grid.col_cell_indexes(usize::MAX), None);
}

#[test]
fn first_and_last_by_number_are_the_edges() {
    for (length, height) in sizes() {
        let grid = GridIndex::new(length, height).unwrap();
        assert_eq!(grid.row_cell_indexes(height), None);
        assert_eq!(grid.col_cell_indexes(length), None);
        assert_eq!(
            grid.row_cell_indexes(0).as_ref(),
            Some(grid.top_row_indices())
        );
        assert_eq!(
            grid.row_cell_indexes(height - 1).as_ref(),
            Some(grid.bottom_row_indices())
        );
        assert_eq!(
            grid.col_cell_indexes(0).as_ref(),
            Some(grid.left_column_indices())
        );
        assert_eq!(
            grid.col_cell_indexes(length - 1).as_ref(),
            Some(grid.right_column_indices())
        );
    }
}

#[test]
fn interior_is_ascending() {
    for (length, height) in sizes() {
        let grid = GridIndex::new(length, height).unwrap();
        let interior = grid.interior_indices();
        for pair in interior.windows(2) {
            assert!(pair[0] < pair[1]);
        }
    }
}

#[test]
fn interior_is_the_inner_rectangle() {
    for (length, height) in sizes() {
        let grid = GridIndex::new(length, height).unwrap();
        let mut expected: Vec<usize> = Vec::new();
        for row in 1..height - 1 {
            for col in 1..length - 1 {
                expected.push(row * length + col);
            }
        }
        assert_eq!(grid.interior_indices(), &expected);
    }
}

#[test]
fn edges_share_only_their_corners() {
    for (length, height) in sizes() {
        let grid = GridIndex::new(length, height).unwrap();
        let top = grid.top_row_indices();
        let bottom = grid.bottom_row_indices();
        let left = grid.left_column_indices();
        let right = grid.right_column_indices();
        for i in 0..grid.cell_count() {
            assert_eq!(
                top.contains(&i) && left.contains(&i),
                i == grid.top_left_corner()
            );
            assert_eq!(
                top.contains(&i) && right.contains(&i),
                i == grid.top_right_corner()
            );
            assert_eq!(
                bottom.contains(&i) && left.contains(&i),
                i == grid.bottom_left_corner()
            );
            assert_eq!(
                bottom.contains(&i) && right.contains(&i),
                i == grid.bottom_right_corner()
            );
            assert!(!(top.contains(&i) && bottom.contains(&i)));
            assert!(!(left.contains(&i) && right.contains(&i)));
        }
    }
}
