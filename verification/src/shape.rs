use crate::direction::Direction;
use vstd::arithmetic::div_mod::{
    lemma_fundamental_div_mod, lemma_fundamental_div_mod_converse, lemma_mod_bound,
};
use vstd::prelude::*;

verus! {

/// The dimensions of a grid, the mathematical model of a `GridIndex`.
///
/// Cells are numbered row by row: the cell in row `r` and column `c` has the
/// index `r * length + c`.
pub ghost struct GridShape {
    /// Number of columns.
    pub length: nat,
    /// Number of rows.
    pub height: nat,
}

/// The indices of a vector as mathematical integers.
pub open spec fn as_ints(s: Seq<usize>) -> Seq<int> {
    s.map_values(|x: usize| x as int)
}

/// Whether the vector contents `v` are, index by index, the integers of `s`.
pub open spec fn same_indices(v: Seq<usize>, s: Seq<int>) -> bool {
    &&& as_ints(v) == s
    &&& v.len() == s.len()
    &&& forall|k: int| 0 <= k < v.len() ==> #[trigger] v[k] == s[k]
}

/// Contents whose integers are those of `s` are the same as `s` index by index.
pub proof fn lemma_same_indices(v: Seq<usize>, s: Seq<int>)
    requires
        as_ints(v) =~= s,
    ensures
        same_indices(v, s),
{
    assert forall|k: int| 0 <= k < v.len() implies #[trigger] v[k] == s[k] by {
        assert(as_ints(v)[k] == v[k] as int);
    }
}

/// An optional index as an optional mathematical integer.
pub open spec fn as_int(o: Option<usize>) -> Option<int> {
    match o {
        Some(x) => Some(x as int),
        None => None,
    }
}

impl GridShape {
    /// A grid is at least two cells wide and high, and less than 512 cells wide.
    pub open spec fn valid(self) -> bool {
        2 <= self.length < 512 && 2 <= self.height
    }

    /// The number of cells.
    pub open spec fn total(self) -> nat {
        self.length * self.height
    }

    /// The index of the cell in row `row` and column `col`.
    pub open spec fn cell(self, row: int, col: int) -> int {
        row * self.length + col
    }

    /// The row in which the cell of index `i` lies.
    pub open spec fn row_of(self, i: int) -> int {
        i / (self.length as int)
    }

    /// The column in which the cell of index `i` lies.
    pub open spec fn col_of(self, i: int) -> int {
        i % (self.length as int)
    }

    /// Whether `i` is the index of a cell.
    pub open spec fn in_grid(self, i: int) -> bool {
        0 <= i < self.total()
    }

    /// The indices of row `r`, from left to right.
    pub open spec fn row(self, r: int) -> Seq<int> {
        Seq::new(self.length, |k: int| self.cell(r, k))
    }

    /// The indices of column `c`, from top to bottom.
    pub open spec fn column(self, c: int) -> Seq<int> {
        Seq::new(self.height, |k: int| self.cell(k, c))
    }

    /// Row `r` if the grid has such a row.
    pub open spec fn row_cells(self, r: int) -> Option<Seq<int>> {
        if 0 <= r < self.height {
            Some(self.row(r))
        } else {
            None
        }
    }

    /// Column `c` if the grid has such a column.
    pub open spec fn column_cells(self, c: int) -> Option<Seq<int>> {
        if 0 <= c < self.length {
            Some(self.column(c))
        } else {
            None
        }
    }

    /// The first row.
    pub open spec fn top_row(self) -> Seq<int> {
        self.row(0)
    }

    /// The last row.
    pub open spec fn bottom_row(self) -> Seq<int> {
        self.row(self.height - 1)
    }

    /// The first column.
    pub open spec fn left_column(self) -> Seq<int> {
        self.column(0)
    }

    /// The last column.
    pub open spec fn right_column(self) -> Seq<int> {
        self.column(self.length - 1)
    }

    /// The first index of the top row.
    pub open spec fn top_left_corner(self) -> int {
        0
    }

    /// The last index of the top row.
    pub open spec fn top_right_corner(self) -> int {
        self.length - 1
    }

    /// The first index of the bottom row.
    pub open spec fn bottom_left_corner(self) -> int {
        self.total() - self.length
    }

    /// The last index of the bottom row.
    pub open spec fn bottom_right_corner(self) -> int {
        self.total() - 1
    }

    /// Whether `i` belongs to one of the four edges.
    pub open spec fn on_edge(self, i: int) -> bool {
        self.top_row().contains(i) || self.bottom_row().contains(i) || self.left_column().contains(
            i,
        ) || self.right_column().contains(i)
    }

    /// Every index of the grid, in ascending order.
    pub open spec fn all_cells(self) -> Seq<int> {
        Seq::new(self.total(), |i: int| i)
    }

    /// The test that an index passes when it belongs to no edge.
    pub open spec fn off_edge(self) -> spec_fn(int) -> bool {
        |i: int| !self.on_edge(i)
    }

    /// The indices of the grid that belong to no edge, in ascending order.
    pub open spec fn middle(self) -> Seq<int> {
        self.all_cells().filter(self.off_edge())
    }

    /// What is added to an index to reach its neighbour in direction `dir`.
    pub open spec fn offset(self, dir: Direction) -> int {
        let l = self.length as int;
        match dir {
            Direction::Right => 1,
            Direction::DownRight => l + 1,
            Direction::Down => l,
            Direction::DownLeft => l - 1,
            Direction::Left => -1,
            Direction::UpLeft => -l - 1,
            Direction::Up => -l,
            Direction::UpRight => -l + 1,
        }
    }

    /// Whether `i` lies on an edge beyond which direction `dir` would lead.
    pub open spec fn blocked(self, dir: Direction, i: int) -> bool {
        match dir {
            Direction::Right => self.right_column().contains(i),
            Direction::DownRight => self.right_column().contains(i) || self.bottom_row().contains(
                i,
            ),
            Direction::Down => self.bottom_row().contains(i),
            Direction::DownLeft => self.left_column().contains(i) || self.bottom_row().contains(i),
            Direction::Left => self.left_column().contains(i),
            Direction::UpLeft => self.left_column().contains(i) || self.top_row().contains(i),
            Direction::Up => self.top_row().contains(i),
            Direction::UpRight => self.right_column().contains(i) || self.top_row().contains(i),
        }
    }

    /// Whether `i` is large enough for the offset of direction `dir`: the
    /// threshold below which a lookup towards the start of the sequence gives up.
    pub open spec fn room_before(self, dir: Direction, i: int) -> bool {
        match dir {
            Direction::Left => i != 0,
            Direction::UpLeft => i >= self.length + 1,
            Direction::Up => i >= self.length,
            Direction::UpRight => i >= self.length,
            _ => true,
        }
    }

    /// The neighbour of cell `i` in direction `dir`: absent where `i` is no
    /// cell of the grid or lies on a blocking edge, else `i` plus the offset.
    pub open spec fn neighbor(self, dir: Direction, i: int) -> Option<int> {
        if self.in_grid(i) && !self.blocked(dir, i) && self.room_before(dir, i) {
            Some(i + self.offset(dir))
        } else {
            None
        }
    }

    /// The cell one step from `i` in direction `dir`, found by row and
    /// column: absent where the step would leave the grid.
    pub open spec fn step(self, dir: Direction, i: int) -> Option<int> {
        let r = self.row_of(i) + dir.row_step();
        let c = self.col_of(i) + dir.col_step();
        if self.in_grid(i) && 0 <= r < self.height && 0 <= c < self.length {
            Some(self.cell(r, c))
        } else {
            None
        }
    }

    /// A cell's index lies in the grid, and its row and column are found
    /// again by division.
    pub proof fn lemma_cell_coordinates(self, r: int, c: int)
        requires
            self.valid(),
            0 <= r < self.height,
            0 <= c < self.length,
        ensures
            self.in_grid(self.cell(r, c)),
            self.row_of(self.cell(r, c)) == r,
            self.col_of(self.cell(r, c)) == c,
    {
        let l = self.length as int;
        let h = self.height as int;
        assert(0 <= r * l && r * l + l <= l * h) by (nonlinear_arith)
            requires
                0 < l,
                0 <= r < h,
        ;
        lemma_fundamental_div_mod_converse(self.cell(r, c), l, r, c);
    }

    /// An index of the grid is the index of the cell in its row and column.
    pub proof fn lemma_index_coordinates(self, i: int)
        requires
            self.valid(),
            self.in_grid(i),
        ensures
            0 <= self.row_of(i) < self.height,
            0 <= self.col_of(i) < self.length,
            self.cell(self.row_of(i), self.col_of(i)) == i,
    {
        let l = self.length as int;
        let h = self.height as int;
        let q = i / l;
        let m = i % l;
        lemma_fundamental_div_mod(i, l);
        lemma_mod_bound(i, l);
        assert(0 <= q < h && q * l == l * q) by (nonlinear_arith)
            requires
                0 < l,
                0 <= i < l * h,
                i == l * q + m,
                0 <= m < l,
        ;
    }

    /// Row `r` holds exactly the indices of the grid whose row is `r`.
    pub proof fn lemma_row_contains(self, r: int, i: int)
        requires
            self.valid(),
            0 <= r < self.height,
        ensures
            self.row(r).contains(i) <==> self.in_grid(i) && self.row_of(i) == r,
    {
        if self.row(r).contains(i) {
            let k = choose|k: int| 0 <= k < self.row(r).len() && self.row(r)[k] == i;
            self.lemma_cell_coordinates(r, k);
        }
        if self.in_grid(i) && self.row_of(i) == r {
            self.lemma_index_coordinates(i);
            assert(self.row(r)[self.col_of(i)] == i);
        }
    }

    /// Column `c` holds exactly the indices of the grid whose column is `c`.
    pub proof fn lemma_column_contains(self, c: int, i: int)
        requires
            self.valid(),
            0 <= c < self.length,
        ensures
            self.column(c).contains(i) <==> self.in_grid(i) && self.col_of(i) == c,
    {
        if self.column(c).contains(i) {
            let k = choose|k: int| 0 <= k < self.column(c).len() && self.column(c)[k] == i;
            self.lemma_cell_coordinates(k, c);
        }
        if self.in_grid(i) && self.col_of(i) == c {
            self.lemma_index_coordinates(i);
            assert(self.column(c)[self.row_of(i)] == i);
        }
    }

    /// Membership in each of the four edges, by row and column.
    pub proof fn lemma_edge_contains(self, i: int)
        requires
            self.valid(),
        ensures
            self.top_row().contains(i) <==> self.in_grid(i) && self.row_of(i) == 0,
            self.bottom_row().contains(i) <==> self.in_grid(i) && self.row_of(i) == self.height
                - 1,
            self.left_column().contains(i) <==> self.in_grid(i) && self.col_of(i) == 0,
            self.right_column().contains(i) <==> self.in_grid(i) && self.col_of(i) == self.length
                - 1,
    {
        self.lemma_row_contains(0, i);
        self.lemma_row_contains(self.height - 1, i);
        self.lemma_column_contains(0, i);
        self.lemma_column_contains(self.length - 1, i);
    }

    /// The interior holds exactly the indices of the grid that are on no edge.
    pub proof fn lemma_middle_contains(self, i: int)
        ensures
            self.middle().contains(i) <==> self.in_grid(i) && !self.on_edge(i),
    {
        let off_edge = self.off_edge();
        let all = self.all_cells();
        if self.middle().contains(i) {
            all.lemma_filter_contains_rev(off_edge, i);
            let k = choose|k: int| 0 <= k < all.filter(off_edge).len() && all.filter(off_edge)[k]
                == i;
            all.lemma_filter_pred(off_edge, k);
        }
        if self.in_grid(i) && !self.on_edge(i) {
            assert(all[i] == i);
            all.lemma_filter_contains(off_edge, i);
        }
    }
}

} // verus!
