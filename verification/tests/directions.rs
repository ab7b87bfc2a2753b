use ameda::{Direction, GridIndex};

fn all_directions() -> [Direction; 8] {
    [
        Direction::Right,
        Direction::DownRight,
        Direction::Down,
        Direction::DownLeft,
        Direction::Left,
        Direction::UpLeft,
        Direction::Up,
        Direction::UpRight,
    ]
}

fn step(direction: Direction) -> (isize, isize) {
    match direction {
        Direction::Right => (0, 1),
        Direction::DownRight => (1, 1),
        Direction::Down => (1, 0),
        Direction::DownLeft => (1, -1),
        Direction::Left => (0, -1),
        Direction::UpLeft => (-1, -1),
        Direction::Up => (-1, 0),
        Direction::UpRight => (-1, 1),
    }
}

#[test]
fn neighbors_of_an_inner_cell() {
    let grid = GridIndex::new(8, 8).unwrap();
    assert_eq!(grid.rt_i(27), Some(28));
    assert_eq!(grid.dr_i(27), Some(36));
    assert_eq!(grid.dn_i(27), Some(35));
    assert_eq!(grid.dl_i(27), Some(34));
    assert_eq!(grid.lt_i(27), Some(26));
    assert_eq!(grid.ul_i(27), Some(18));
    assert_eq!(grid.up_i(27), Some(19));
    assert_eq!(grid.ur_i(27), Some(20));
}

#[test]
fn neighbors_of_edge_cells() {
    let grid = GridIndex::new(5, 3).unwrap();
    // middle of the top row
    assert_eq!(grid.rt_i(2), Some(3));
    assert_eq!(grid.dr_i(2), Some(8));
    assert_eq!(grid.dn_i(2), Some(7));
    assert_eq!(grid.dl_i(2), Some(6));
    assert_eq!(grid.lt_i(2), Some(1));
    assert_eq!(grid.ul_i(2), None);
    assert_eq!(grid.up_i(2), None);
    assert_eq!(grid.ur_i(2), None);
    // left column, second row
    assert_eq!(grid.rt_i(5), Some(6));
    assert_eq!(grid.dr_i(5), Some(11));
    assert_eq!(grid.dn_i(5), Some(10));
    assert_eq!(grid.dl_i(5), None);
    assert_eq!(grid.lt_i(5), None);
    assert_eq!(grid.ul_i(5), None);
    assert_eq!(grid.up_i(5), Some(0));
    assert_eq!(grid.ur_i(5), Some(1));
    // right column, second row
    assert_eq!(grid.rt_i(9), None);
    assert_eq!(grid.dr_i(9), None);
    assert_eq!(grid.dn_i(9), Some(14));
    assert_eq!(grid.dl_i(9), Some(13));
    assert_eq!(grid.lt_i(9), Some(8));
    assert_eq!(grid.ul_i(9), Some(3));
    assert_eq!(grid.up_i(9), Some(4));
    assert_eq!(grid.ur_i(9), None);
    // middle of the bottom row
    assert_eq!(grid.rt_i(12), Some(13));
    assert_eq!(grid.dr_i(12), None);
    assert_eq!(grid.dn_i(12), None);
    assert_eq!(grid.dl_i(12), None);
    assert_eq!(grid.lt_i(12), Some(11));
    assert_eq!(grid.ul_i(12), Some(6));
    assert_eq!(grid.up_i(12), Some(7));
    assert_eq!(grid.ur_i(12), Some(8));
}

#[test]
fn no_neighbor_outside_the_grid() {
    let grid = GridIndex::new(5, 3).unwrap();
    for src in [15, 16, 20, 1000, usize::MAX - 1, usize::MAX] {
        for direction in all_directions() {
            assert_eq!(grid.neighbor_index(src, direction), None);
        }
        assert_eq!(grid.rt_i(src), None);
        assert_eq!(grid.dr_i(src), None);
        assert_eq!(grid.dn_i(src), None);
        assert_eq!(grid.dl_i(src), None);
        assert_eq!(grid.lt_i(src), None);
        assert_eq!(grid.ul_i(src), None);
        assert_eq!(grid.up_i(src), None);
        assert_eq!(grid.ur_i(src), None);
    }
}

#[test]
fn named_lookups_agree_with_neighbor_index() {
    let grid = GridIndex::new(12, 10).unwrap();
    for src in 0..grid.cell_count() + 3 {
        assert_eq!(grid.rt_i(src), grid.neighbor_index(src, Direction::Right));
        assert_eq!(grid.dr_i(src), grid.neighbor_index(src, Direction::DownRight));
        assert_eq!(grid.dn_i(src), grid.neighbor_index(src, Direction::Down));
        assert_eq!(grid.dl_i(src), grid.neighbor_index(src, Direction::DownLeft));
        assert_eq!(grid.lt_i(src), grid.neighbor_index(src, Direction::Left));
        assert_eq!(grid.ul_i(src), grid.neighbor_index(src, Direction::UpLeft));
        assert_eq!(grid.up_i(src), grid.neighbor_index(src, Direction::Up));
        assert_eq!(grid.ur_i(src), grid.neighbor_index(src, Direction::UpRight));
    }
}

#[test]
fn boundary_neighbors_stay_in_the_grid() {
    for (length, height) in [(2, 2), (5, 3), (8, 8), (12, 10), (123, 115)] {
        let grid = GridIndex::new(length, height).unwrap();
        let mut boundary: Vec<usize> = Vec::new();
        boundary.extend(grid.top_row_indices());
        boundary.extend(grid.bottom_row_indices());
        boundary.extend(grid.left_column_indices());
        boundary.extend(grid.right_column_indices());
        for src in boundary {
            for direction in all_directions() {
                if let Some(neighbor) = grid.neighbor_index(src, direction) {
                    assert!(neighbor < grid.cell_count());
                }
            }
        }
    }
}

#[test]
fn neighbors_are_one_step_away_by_row_and_column() {
    for (length, height) in [(2, 2), (5, 3), (8, 8), (3, 40)] {
        let grid = GridIndex::new(length, height).unwrap();
        for src in 0..grid.cell_count() {
            let row = (src / length) as isize;
            let col = (src % length) as isize;
            for direction in all_directions() {
                let (row_step, col_step) = step(direction);
                let r = row + row_step;
                let c = col + col_step;
                let expected = if 0 <= r && r < height as isize && 0 <= c && c < length as isize {
                    Some(r as usize * length + c as usize)
                } else {
                    None
                };
                assert_eq!(grid.neighbor_index(src, direction), expected);
            }
        }
    }
}
