use crate::direction::Direction;
use crate::shape::GridShape;
use vstd::prelude::*;
use vstd::set_lib::set_int_range;

verus! {

/// A lookup by edge membership and offset finds the cell one step away by
/// row and column, and finds none exactly where that step would leave the
/// grid: no neighbour ever lies in a row or column that is not adjacent.
pub proof fn lemma_neighbor_is_step(s: GridShape, dir: Direction, i: int)
    requires
        s.valid(),
    ensures
        s.neighbor(dir, i) == s.step(dir, i),
{
    if s.in_grid(i) {
        s.lemma_index_coordinates(i);
        s.lemma_edge_contains(i);
        let l = s.length as int;
        let q = s.row_of(i);
        assert((q + 1) * l == q * l + l && (q - 1) * l == q * l - l && q * l >= 0 && (q >= 1
            ==> q * l >= l)) by (nonlinear_arith)
            requires
                q >= 0,
                l > 0,
        ;
    }
}

/// Every neighbour that a lookup reports is a cell of the grid, and differs
/// from the source by the direction's offset.
pub proof fn lemma_neighbor_in_grid(s: GridShape, dir: Direction, i: int)
    requires
        s.valid(),
    ensures
        s.neighbor(dir, i) matches Some(j) ==> s.in_grid(j) && j == i + s.offset(dir),
{
    lemma_neighbor_is_step(s, dir, i);
    if s.step(dir, i) is Some {
        s.lemma_cell_coordinates(s.row_of(i) + dir.row_step(), s.col_of(i) + dir.col_step());
    }
}

/// The four edges, written out: the top row counts up from 0, the bottom row
/// counts up to the last index, the left column holds the multiples of the
/// length, and the right column the indices just before them.
pub proof fn lemma_edge_sets(s: GridShape)
    requires
        s.valid(),
    ensures
        s.top_row() == Seq::new(s.length, |k: int| k),
        s.bottom_row() == Seq::new(s.length, |k: int| s.total() - s.length + k),
        s.left_column() == Seq::new(s.height, |k: int| k * s.length),
        s.right_column() == Seq::new(s.height, |k: int| (k + 1) * s.length - 1),
{
    let l = s.length as int;
    let h = s.height as int;
    assert(0 * l == 0 && (h - 1) * l == l * h - l) by (nonlinear_arith);
    assert forall|k: int| #[trigger] ((k + 1) * l) == k * l + l by {
        assert((k + 1) * l == k * l + l) by (nonlinear_arith);
    }
    assert(s.top_row() =~= Seq::new(s.length, |k: int| k));
    assert(s.bottom_row() =~= Seq::new(s.length, |k: int| s.total() - s.length + k));
    assert(s.left_column() =~= Seq::new(s.height, |k: int| k * s.length));
    assert(s.right_column() =~= Seq::new(s.height, |k: int| (k + 1) * s.length - 1));
}

/// The row and column of each corner; a grid has at least two rows of cells.
proof fn lemma_corner_coordinates(s: GridShape)
    requires
        s.valid(),
    ensures
        s.top_left_corner() == s.cell(0, 0),
        s.top_right_corner() == s.cell(0, s.length - 1),
        s.bottom_left_corner() == s.cell(s.height - 1, 0),
        s.bottom_right_corner() == s.cell(s.height - 1, s.length - 1),
        s.total() >= 2 * s.length,
{
    let l = s.length as int;
    let h = s.height as int;
    assert(0 * l == 0 && (h - 1) * l == l * h - l) by (nonlinear_arith);
    assert(l * h >= 2 * l) by (nonlinear_arith)
        requires
            l >= 0,
            h >= 2,
    ;
}

/// Two edges share an index only where they meet: a row and a column share
/// their corner, and opposite edges share nothing.
pub proof fn lemma_edges_meet_at_corners(s: GridShape, i: int)
    requires
        s.valid(),
    ensures
        s.top_row().contains(i) && s.left_column().contains(i) <==> i == s.top_left_corner(),
        s.top_row().contains(i) && s.right_column().contains(i) <==> i == s.top_right_corner(),
        s.bottom_row().contains(i) && s.left_column().contains(i) <==> i
            == s.bottom_left_corner(),
        s.bottom_row().contains(i) && s.right_column().contains(i) <==> i
            == s.bottom_right_corner(),
        !(s.top_row().contains(i) && s.bottom_row().contains(i)),
        !(s.left_column().contains(i) && s.right_column().contains(i)),
{
    lemma_corner_coordinates(s);
    s.lemma_cell_coordinates(0, 0);
    s.lemma_cell_coordinates(0, s.length - 1);
    s.lemma_cell_coordinates(s.height - 1, 0);
    s.lemma_cell_coordinates(s.height - 1, s.length - 1);
    s.lemma_edge_contains(i);
    if s.in_grid(i) {
        s.lemma_index_coordinates(i);
    }
}

/// From each corner, the three neighbours that lie inside the grid are found
/// at the corner plus the direction's offset, and the five others are absent.
pub proof fn lemma_corner_neighbors(s: GridShape)
    requires
        s.valid(),
    ensures
        ({
            let c = s.top_left_corner();
            &&& s.neighbor(Direction::Right, c) == Some(c + 1)
            &&& s.neighbor(Direction::DownRight, c) == Some(c + s.length + 1)
            &&& s.neighbor(Direction::Down, c) == Some(c + s.length)
            &&& s.neighbor(Direction::DownLeft, c) is None
            &&& s.neighbor(Direction::Left, c) is None
            &&& s.neighbor(Direction::UpLeft, c) is None
            &&& s.neighbor(Direction::Up, c) is None
            &&& s.neighbor(Direction::UpRight, c) is None
        }),
        ({
            let c = s.top_right_corner();
            &&& s.neighbor(Direction::Right, c) is None
            &&& s.neighbor(Direction::DownRight, c) is None
            &&& s.neighbor(Direction::Down, c) == Some(c + s.length)
            &&& s.neighbor(Direction::DownLeft, c) == Some(c + s.length - 1)
            &&& s.neighbor(Direction::Left, c) == Some(c - 1)
            &&& s.neighbor(Direction::UpLeft, c) is None
            &&& s.neighbor(Direction::Up, c) is None
            &&& s.neighbor(Direction::UpRight, c) is None
        }),
        ({
            let c = s.bottom_left_corner();
            &&& s.neighbor(Direction::Right, c) == Some(c + 1)
            &&& s.neighbor(Direction::DownRight, c) is None
            &&& s.neighbor(Direction::Down, c) is None
            &&& s.neighbor(Direction::DownLeft, c) is None
            &&& s.neighbor(Direction::Left, c) is None
            &&& s.neighbor(Direction::UpLeft, c) is None
            &&& s.neighbor(Direction::Up, c) == Some(c - s.length)
            &&& s.neighbor(Direction::UpRight, c) == Some(c - s.length + 1)
        }),
        ({
            let c = s.bottom_right_corner();
            &&& s.neighbor(Direction::Right, c) is None
            &&& s.neighbor(Direction::DownRight, c) is None
            &&& s.neighbor(Direction::Down, c) is None
            &&& s.neighbor(Direction::DownLeft, c) is None
            &&& s.neighbor(Direction::Left, c) == Some(c - 1)
            &&& s.neighbor(Direction::UpLeft, c) == Some(c - s.length - 1)
            &&& s.neighbor(Direction::Up, c) == Some(c - s.length)
            &&& s.neighbor(Direction::UpRight, c) is None
        }),
{
    lemma_corner_coordinates(s);
    s.lemma_cell_coordinates(0, 0);
    s.lemma_cell_coordinates(0, s.length - 1);
    s.lemma_cell_coordinates(s.height - 1, 0);
    s.lemma_cell_coordinates(s.height - 1, s.length - 1);
    s.lemma_edge_contains(s.top_left_corner());
    s.lemma_edge_contains(s.top_right_corner());
    s.lemma_edge_contains(s.bottom_left_corner());
    s.lemma_edge_contains(s.bottom_right_corner());
}

/// A cell of the interior has all eight neighbours, each at the cell's index
/// plus the direction's offset.
pub proof fn lemma_interior_neighbors(s: GridShape, i: int)
    requires
        s.valid(),
        s.middle().contains(i),
    ensures
        forall|dir: Direction| #[trigger] s.neighbor(dir, i) == Some(i + s.offset(dir)),
        s.neighbor(Direction::Right, i) == Some(i + 1),
        s.neighbor(Direction::DownRight, i) == Some(i + s.length + 1),
        s.neighbor(Direction::Down, i) == Some(i + s.length),
        s.neighbor(Direction::DownLeft, i) == Some(i + s.length - 1),
        s.neighbor(Direction::Left, i) == Some(i - 1),
        s.neighbor(Direction::UpLeft, i) == Some(i - s.length - 1),
        s.neighbor(Direction::Up, i) == Some(i - s.length),
        s.neighbor(Direction::UpRight, i) == Some(i - s.length + 1),
{
    s.lemma_middle_contains(i);
    s.lemma_edge_contains(i);
    s.lemma_index_coordinates(i);
    assert forall|dir: Direction| #[trigger] s.neighbor(dir, i) == Some(i + s.offset(dir)) by {
        lemma_neighbor_is_step(s, dir, i);
    }
}

/// The four edges and the interior together hold every index of the grid and
/// no other, and the interior shares no index with any edge.
pub proof fn lemma_partition(s: GridShape)
    requires
        s.valid(),
    ensures
        s.top_row().to_set() + s.bottom_row().to_set() + s.left_column().to_set()
            + s.right_column().to_set() + s.middle().to_set() == set_int_range(
            0,
            s.total() as int,
        ),
        s.middle().to_set().disjoint(s.top_row().to_set()),
        s.middle().to_set().disjoint(s.bottom_row().to_set()),
        s.middle().to_set().disjoint(s.left_column().to_set()),
        s.middle().to_set().disjoint(s.right_column().to_set()),
        forall|i: int| s.in_grid(i) <==> s.on_edge(i) || s.middle().contains(i),
        forall|i: int| s.middle().contains(i) ==> !s.on_edge(i),
{
    assert forall|i: int| s.in_grid(i) <==> s.on_edge(i) || s.middle().contains(i) by {
        s.lemma_middle_contains(i);
        s.lemma_edge_contains(i);
    }
    assert forall|i: int| s.middle().contains(i) implies !s.on_edge(i) by {
        s.lemma_middle_contains(i);
    }
    let edges = s.top_row().to_set() + s.bottom_row().to_set() + s.left_column().to_set()
        + s.right_column().to_set();
    assert forall|i: int| #[trigger]
        (edges + s.middle().to_set()).contains(i) <==> set_int_range(0, s.total() as int).contains(
            i,
        ) by {
        s.lemma_middle_contains(i);
        s.lemma_edge_contains(i);
    }
    assert(edges + s.middle().to_set() =~= set_int_range(0, s.total() as int));
    assert forall|i: int| s.middle().to_set().contains(i) implies !s.on_edge(i) by {
        s.lemma_middle_contains(i);
    }
}

/// Asking for the row or column one past the last gives nothing; the first
/// and last row and column by number are the four edges.
pub proof fn lemma_rows_and_columns_by_number(s: GridShape)
    requires
        s.valid(),
    ensures
        s.row_cells(s.height as int) is None,
        s.column_cells(s.length as int) is None,
        s.row_cells(0) == Some(s.top_row()),
        s.row_cells(s.height - 1) == Some(s.bottom_row()),
        s.column_cells(0) == Some(s.left_column()),
        s.column_cells(s.length - 1) == Some(s.right_column()),
{
}

/// The interior is the inner rectangle: the cells that are neither in the
/// first or last row nor in the first or last column.
pub proof fn lemma_middle_is_inner_rectangle(s: GridShape, i: int)
    requires
        s.valid(),
    ensures
        s.middle().contains(i) <==> s.in_grid(i) && 0 < s.row_of(i) < s.height - 1 && 0
            < s.col_of(i) < s.length - 1,
{
    s.lemma_middle_contains(i);
    s.lemma_edge_contains(i);
    if s.in_grid(i) {
        s.lemma_index_coordinates(i);
    }
}

/// The thresholds that guard the subtraction of an offset never decide a
/// lookup: a cell of the grid that no blocking edge holds is beyond them.
pub proof fn lemma_room_before_unblocked(s: GridShape, dir: Direction, i: int)
    requires
        s.valid(),
        s.in_grid(i),
        !s.blocked(dir, i),
    ensures
        s.room_before(dir, i),
        s.neighbor(dir, i) == Some(i + s.offset(dir)),
{
    lemma_neighbor_is_step(s, dir, i);
    s.lemma_index_coordinates(i);
    s.lemma_edge_contains(i);
}

/// The interior of the first `n` indices is in ascending order and below `n`.
proof fn lemma_prefix_ascending(s: GridShape, n: nat)
    requires
        n <= s.total(),
    ensures
        ({
            let m = s.all_cells().take(n as int).filter(s.off_edge());
            &&& forall|a: int| 0 <= a < m.len() ==> #[trigger] m[a] < n
            &&& forall|a: int, b: int| 0 <= a < b < m.len() ==> m[a] < m[b]
        }),
    decreases n,
{
    if n == 0 {
        assert(s.all_cells().take(0).len() == 0);
        s.all_cells().take(0).lemma_filter_len(s.off_edge());
    } else {
        lemma_prefix_ascending(s, (n - 1) as nat);
        let prefix = s.all_cells().take(n - 1);
        assert(s.all_cells().take(n as int) =~= prefix.push(n - 1));
        prefix.lemma_filter_push(n - 1, s.off_edge());
    }
}

/// The interior is listed in ascending order, so no index occurs twice.
pub proof fn lemma_middle_ascending(s: GridShape)
    ensures
        forall|a: int, b: int| 0 <= a < b < s.middle().len() ==> s.middle()[a] < s.middle()[b],
{
    lemma_prefix_ascending(s, s.total());
    assert(s.all_cells().take(s.total() as int) =~= s.all_cells());
}

} // verus!
