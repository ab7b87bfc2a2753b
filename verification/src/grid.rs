use crate::direction::Direction;
use crate::laws::lemma_neighbor_in_grid;
use crate::shape::{as_int, as_ints, lemma_same_indices, same_indices, GridShape};
use vstd::prelude::*;

verus! {

/// The indices of a rectangular grid of cells, numbered row by row.
///
/// All edge and interior indices are computed once, on construction; a value
/// never changes afterwards.
#[derive(Debug, PartialEq)]
pub struct GridIndex {
    grid_length: usize,
    grid_height: usize,
    total_indices: usize,
    top_left_corner: usize,
    top_right_corner: usize,
    bottom_left_corner: usize,
    bottom_right_corner: usize,
    left_column_indices: Vec<usize>,
    right_column_indices: Vec<usize>,
    top_row_indices: Vec<usize>,
    bottom_row_indices: Vec<usize>,
    middle_indices: Vec<usize>,
}

impl View for GridIndex {
    type V = GridShape;

    closed spec fn view(&self) -> GridShape {
        GridShape { length: self.grid_length as nat, height: self.grid_height as nat }
    }
}

/// Whether the grid of this shape can be indexed by `usize`.
pub open spec fn fits(s: GridShape) -> bool {
    s.valid() && s.total() <= usize::MAX
}

/// The shape of a grid `grid_length` cells wide and `grid_height` cells high.
pub open spec fn shape_of(grid_length: usize, grid_height: usize) -> GridShape {
    GridShape { length: grid_length as nat, height: grid_height as nat }
}

/// Tells whether `x` occurs in `v`.
fn holds(v: &Vec<usize>, x: usize) -> (found: bool)
    ensures
        found == as_ints(v@).contains(x as int),
{
    let mut k: usize = 0;
    while k < v.len()
        invariant
            k <= v.len(),
            forall|j: int| 0 <= j < k ==> v@[j] != x,
        decreases v.len() - k,
    {
        if v[k] == x {
            assert(as_ints(v@)[k as int] == x as int);
            return true;
        }
        k += 1;
    }
    false
}

impl GridIndex {
    /// The invariant of every grid: a valid shape whose cell count fits in
    /// `usize`, and each stored field equal to what the shape gives for it.
    #[verifier::type_invariant]
    pub closed spec fn wf(&self) -> bool {
        &&& fits(self@)
        &&& self.total_indices == self@.total()
        &&& self.top_left_corner == self@.top_left_corner()
        &&& self.top_right_corner == self@.top_right_corner()
        &&& self.bottom_left_corner == self@.bottom_left_corner()
        &&& self.bottom_right_corner == self@.bottom_right_corner()
        &&& same_indices(self.left_column_indices@, self@.left_column())
        &&& same_indices(self.right_column_indices@, self@.right_column())
        &&& same_indices(self.top_row_indices@, self@.top_row())
        &&& same_indices(self.bottom_row_indices@, self@.bottom_row())
        &&& same_indices(self.middle_indices@, self@.middle())
    }

    /// Builds the grid `grid_length` cells wide and `grid_height` cells high.
    ///
    /// A grid is at least two cells wide and two cells high, and at most 511
    /// cells wide. The height has no bound of its own, but the number of cells
    /// must fit in `usize`. For any other dimensions there is no grid.
    pub fn new(grid_length: usize, grid_height: usize) -> (grid: Option<GridIndex>)
        ensures
            grid is Some <==> 1 < grid_length < 512 && 1 < grid_height && grid_length
                * grid_height <= usize::MAX,
            grid matches Some(g) ==> g@ == shape_of(grid_length, grid_height) && g.wf(),
    {
        if !(grid_length > 1 && grid_height > 1 && grid_length < 512) {
            return None;
        }
        let total_indices: usize = match grid_length.checked_mul(grid_height) {
            Some(n) => n,
            None => {
                return None;
            },
        };
        let ghost s = shape_of(grid_length, grid_height);
        assert(grid_length <= total_indices) by (nonlinear_arith)
            requires
                total_indices == grid_length * grid_height,
                1 < grid_height,
        ;
        let top_row_indices = Self::row_indices(grid_length, grid_height, 0);
        let bottom_row_indices = Self::row_indices(grid_length, grid_height, grid_height - 1);
        let left_column_indices = Self::column_indices(grid_length, grid_height, 0);
        let right_column_indices = Self::column_indices(grid_length, grid_height, grid_length - 1);
        let middle_indices = Self::middle_indices(
            total_indices,
            Ghost(s),
            &left_column_indices,
            &right_column_indices,
            &top_row_indices,
            &bottom_row_indices,
        );
        Some(
            GridIndex {
                grid_length,
                grid_height,
                total_indices,
                top_left_corner: 0,
                top_right_corner: grid_length - 1,
                bottom_left_corner: total_indices - grid_length,
                bottom_right_corner: total_indices - 1,
                left_column_indices,
                right_column_indices,
                top_row_indices,
                bottom_row_indices,
                middle_indices,
            },
        )
    }

    /// Every grid has a valid shape, and its cells can be counted in `usize`.
    pub proof fn lemma_wf_fits(&self)
        requires
            self.wf(),
        ensures
            fits(self@),
    {
    }

    /// The number of columns.
    pub fn grid_length(&self) -> (n: usize)
        ensures
            n == self@.length,
    {
        self.grid_length
    }

    /// The number of rows.
    pub fn grid_height(&self) -> (n: usize)
        ensures
            n == self@.height,
    {
        self.grid_height
    }

    /// The number of cells in the grid.
    pub fn cell_count(&self) -> (n: usize)
        ensures
            n == self@.total(),
    {
        proof {
            use_type_invariant(self);
        }
        self.total_indices
    }

    /// The index of the first cell of the top row.
    pub fn top_left_corner(&self) -> (i: usize)
        ensures
            i == self@.top_left_corner(),
    {
        proof {
            use_type_invariant(self);
        }
        self.top_left_corner
    }

    /// The index of the last cell of the top row.
    pub fn top_right_corner(&self) -> (i: usize)
        ensures
            i == self@.top_right_corner(),
    {
        proof {
            use_type_invariant(self);
        }
        self.top_right_corner
    }

    /// The index of the first cell of the bottom row.
    pub fn bottom_left_corner(&self) -> (i: usize)
        ensures
            i == self@.bottom_left_corner(),
    {
        proof {
            use_type_invariant(self);
        }
        self.bottom_left_corner
    }

    /// The index of the last cell of the bottom row.
    pub fn bottom_right_corner(&self) -> (i: usize)
        ensures
            i == self@.bottom_right_corner(),
    {
        proof {
            use_type_invariant(self);
        }
        self.bottom_right_corner
    }

    /// The indices of row `row`, counted from 0 at the top, from left to
    /// right; none where the grid has no such row.
    pub fn row_cell_indexes(&self, row: usize) -> (cells: Option<Vec<usize>>)
        ensures
            match cells {
                Some(v) => self@.row_cells(row as int) == Some(as_ints(v@)) && same_indices(
                    v@,
                    self@.row(row as int),
                ),
                None => self@.row_cells(row as int) is None,
            },
    {
        proof {
            use_type_invariant(self);
        }
        if row >= self.grid_height {
            None
        } else {
            Some(Self::row_indices(self.grid_length, self.grid_height, row))
        }
    }

    /// The indices of column `column`, counted from 0 at the left, from top
    /// to bottom; none where the grid has no such column.
    pub fn col_cell_indexes(&self, column: usize) -> (cells: Option<Vec<usize>>)
        ensures
            match cells {
                Some(v) => self@.column_cells(column as int) == Some(as_ints(v@)) && same_indices(
                    v@,
                    self@.column(column as int),
                ),
                None => self@.column_cells(column as int) is None,
            },
    {
        proof {
            use_type_invariant(self);
        }
        if column >= self.grid_length {
            None
        } else {
            Some(Self::column_indices(self.grid_length, self.grid_height, column))
        }
    }

    /// The indices of the top row, from left to right.
    pub fn top_row_indices(&self) -> (v: &Vec<usize>)
        ensures
            same_indices(v@, self@.top_row()),
    {
        proof {
            use_type_invariant(self);
        }
        &self.top_row_indices
    }

    /// The indices of the left column, from top to bottom.
    pub fn left_column_indices(&self) -> (v: &Vec<usize>)
        ensures
            same_indices(v@, self@.left_column()),
    {
        proof {
            use_type_invariant(self);
        }
        &self.left_column_indices
    }

    /// The indices of the right column, from top to bottom.
    pub fn right_column_indices(&self) -> (v: &Vec<usize>)
        ensures
            same_indices(v@, self@.right_column()),
    {
        proof {
            use_type_invariant(self);
        }
        &self.right_column_indices
    }

    /// The indices of the bottom row, from left to right.
    pub fn bottom_row_indices(&self) -> (v: &Vec<usize>)
        ensures
            same_indices(v@, self@.bottom_row()),
    {
        proof {
            use_type_invariant(self);
        }
        &self.bottom_row_indices
    }

    /// The indices that belong to none of the four edges, in ascending order.
    pub fn interior_indices(&self) -> (v: &Vec<usize>)
        ensures
            same_indices(v@, self@.middle()),
    {
        proof {
            use_type_invariant(self);
        }
        &self.middle_indices
    }

    /// The neighbour to the right.
    pub fn rt_i(&self, src_index: usize) -> (neighbor: Option<usize>)
        ensures
            as_int(neighbor) == self@.neighbor(Direction::Right, src_index as int),
            neighbor matches Some(j) ==> j < self@.total(),
    {
        self.neighbor_index(src_index, Direction::Right)
    }

    /// The neighbour down and to the right.
    pub fn dr_i(&self, src_index: usize) -> (neighbor: Option<usize>)
        ensures
            as_int(neighbor) == self@.neighbor(Direction::DownRight, src_index as int),
            neighbor matches Some(j) ==> j < self@.total(),
    {
        self.neighbor_index(src_index, Direction::DownRight)
    }

    /// The neighbour below.
    pub fn dn_i(&self, src_index: usize) -> (neighbor: Option<usize>)
        ensures
            as_int(neighbor) == self@.neighbor(Direction::Down, src_index as int),
            neighbor matches Some(j) ==> j < self@.total(),
    {
        self.neighbor_index(src_index, Direction::Down)
    }

    /// The neighbour down and to the left.
    pub fn dl_i(&self, src_index: usize) -> (neighbor: Option<usize>)
        ensures
            as_int(neighbor) == self@.neighbor(Direction::DownLeft, src_index as int),
            neighbor matches Some(j) ==> j < self@.total(),
    {
        self.neighbor_index(src_index, Direction::DownLeft)
    }

    /// The neighbour to the left.
    pub fn lt_i(&self, src_index: usize) -> (neighbor: Option<usize>)
        ensures
            as_int(neighbor) == self@.neighbor(Direction::Left, src_index as int),
            neighbor matches Some(j) ==> j < self@.total(),
    {
        self.neighbor_index(src_index, Direction::Left)
    }

    /// The neighbour up and to the left.
    pub fn ul_i(&self, src_index: usize) -> (neighbor: Option<usize>)
        ensures
            as_int(neighbor) == self@.neighbor(Direction::UpLeft, src_index as int),
            neighbor matches Some(j) ==> j < self@.total(),
    {
        self.neighbor_index(src_index, Direction::UpLeft)
    }

    /// The neighbour above.
    pub fn up_i(&self, src_index: usize) -> (neighbor: Option<usize>)
        ensures
            as_int(neighbor) == self@.neighbor(Direction::Up, src_index as int),
            neighbor matches Some(j) ==> j < self@.total(),
    {
        self.neighbor_index(src_index, Direction::Up)
    }

    /// The neighbour up and to the right.
    pub fn ur_i(&self, src_index: usize) -> (neighbor: Option<usize>)
        ensures
            as_int(neighbor) == self@.neighbor(Direction::UpRight, src_index as int),
            neighbor matches Some(j) ==> j < self@.total(),
    {
        self.neighbor_index(src_index, Direction::UpRight)
    }

    /// The indices of row `row` of a grid of the given dimensions.
    fn row_indices(grid_length: usize, grid_height: usize, row: usize) -> (v: Vec<usize>)
        requires
            fits(shape_of(grid_length, grid_height)),
            row < grid_height,
        ensures
            same_indices(v@, shape_of(grid_length, grid_height).row(row as int)),
    {
        let ghost s = shape_of(grid_length, grid_height);
        proof {
            s.lemma_cell_coordinates(row as int, 0);
            s.lemma_cell_coordinates(row as int, grid_length - 1);
        }
        let start_index: usize = row * grid_length;
        let end_index: usize = start_index + grid_length - 1;
        let mut v: Vec<usize> = Vec::new();
        let mut i: usize = start_index;
        while i < end_index + 1
            invariant
                start_index <= i <= end_index + 1,
                end_index + 1 <= usize::MAX,
                v@.len() == i - start_index,
                forall|k: int| 0 <= k < v@.len() ==> v@[k] == start_index + k,
            decreases end_index + 1 - i,
        {
            v.push(i);
            i += 1;
        }
        proof {
            lemma_same_indices(v@, s.row(row as int));
        }
        v
    }

    /// The indices of column `column` of a grid of the given dimensions.
    fn column_indices(grid_length: usize, grid_height: usize, column: usize) -> (v: Vec<usize>)
        requires
            fits(shape_of(grid_length, grid_height)),
            column < grid_length,
        ensures
            same_indices(v@, shape_of(grid_length, grid_height).column(column as int)),
    {
        let ghost s = shape_of(grid_length, grid_height);
        let mut v: Vec<usize> = Vec::new();
        let mut i: usize = 0;
        while i < grid_height
            invariant
                i <= grid_height,
                column < grid_length,
                s == shape_of(grid_length, grid_height),
                fits(s),
                v@.len() == i,
                forall|k: int| 0 <= k < v@.len() ==> v@[k] == s.cell(k, column as int),
            decreases grid_height - i,
        {
            proof {
                s.lemma_cell_coordinates(i as int, column as int);
                s.lemma_cell_coordinates(i as int, 0);
            }
            v.push(i * grid_length + column);
            i += 1;
        }
        proof {
            lemma_same_indices(v@, s.column(column as int));
        }
        v
    }

    /// The indices below `total_indices` that none of the four edges holds.
    fn middle_indices(
        total_indices: usize,
        Ghost(s): Ghost<GridShape>,
        left_column_indices: &Vec<usize>,
        right_column_indices: &Vec<usize>,
        top_row_indices: &Vec<usize>,
        bottom_row_indices: &Vec<usize>,
    ) -> (v: Vec<usize>)
        requires
            total_indices == s.total(),
            as_ints(left_column_indices@) == s.left_column(),
            as_ints(right_column_indices@) == s.right_column(),
            as_ints(top_row_indices@) == s.top_row(),
            as_ints(bottom_row_indices@) == s.bottom_row(),
        ensures
            same_indices(v@, s.middle()),
    {
        let mut v: Vec<usize> = Vec::new();
        let mut i: usize = 0;
        assert(s.all_cells().take(0) =~= Seq::<int>::empty());
        assert(as_ints(v@) =~= Seq::<int>::empty().filter(s.off_edge())) by {
            reveal(Seq::filter);
        }
        while i < total_indices
            invariant
                i <= total_indices,
                total_indices == s.total(),
                as_ints(left_column_indices@) == s.left_column(),
                as_ints(right_column_indices@) == s.right_column(),
                as_ints(top_row_indices@) == s.top_row(),
                as_ints(bottom_row_indices@) == s.bottom_row(),
                as_ints(v@) == s.all_cells().take(i as int).filter(s.off_edge()),
            decreases total_indices - i,
        {
            let ghost before = as_ints(v@);
            let ghost prefix = s.all_cells().take(i as int);
            if !holds(left_column_indices, i) && !holds(right_column_indices, i) && !holds(
                top_row_indices,
                i,
            ) && !holds(bottom_row_indices, i) {
                v.push(i);
                assert(as_ints(v@) =~= before.push(i as int));
            }
            proof {
                assert(s.all_cells().take(i + 1) =~= prefix.push(i as int));
                prefix.lemma_filter_push(i as int, s.off_edge());
            }
            i += 1;
        }
        proof {
            assert(s.all_cells().take(total_indices as int) =~= s.all_cells());
            lemma_same_indices(v@, s.middle());
        }
        v
    }

    /// The neighbour of the cell `src_index` in the given direction.
    ///
    /// There is none where `src_index` is no cell of the grid, or lies on an
    /// edge beyond which the direction leads. Edge membership is looked up in
    /// the stored edge indices.
    pub fn neighbor_index(&self, src_index: usize, direction: Direction) -> (neighbor: Option<
        usize,
    >)
        ensures
            as_int(neighbor) == self@.neighbor(direction, src_index as int),
            neighbor matches Some(j) ==> j < self@.total(),
    {
        proof {
            use_type_invariant(self);
            lemma_neighbor_in_grid(self@, direction, src_index as int);
        }
        if src_index >= self.total_indices {
            return None;
        }
        let blocked = match direction {
            Direction::Right => holds(&self.right_column_indices, src_index),
            Direction::DownRight => holds(&self.right_column_indices, src_index) || holds(
                &self.bottom_row_indices,
                src_index,
            ),
            Direction::Down => holds(&self.bottom_row_indices, src_index),
            Direction::DownLeft => holds(&self.left_column_indices, src_index) || holds(
                &self.bottom_row_indices,
                src_index,
            ),
            Direction::Left => holds(&self.left_column_indices, src_index),
            Direction::UpLeft => holds(&self.left_column_indices, src_index) || holds(
                &self.top_row_indices,
                src_index,
            ),
            Direction::Up => holds(&self.top_row_indices, src_index),
            Direction::UpRight => holds(&self.right_column_indices, src_index) || holds(
                &self.top_row_indices,
                src_index,
            ),
        };
        if blocked {
            return None;
        }
        match direction {
            Direction::Right => Some(src_index + 1),
            Direction::DownRight => Some(src_index + self.grid_length + 1),
            Direction::Down => Some(src_index + self.grid_length),
            Direction::DownLeft => Some(src_index + self.grid_length - 1),
            Direction::Left => {
                if src_index != 0 {
                    Some(src_index - 1)
                } else {
                    None
                }
            },
            Direction::UpLeft => {
                if src_index < self.grid_length + 1 {
                    None
                } else {
                    Some(src_index - self.grid_length - 1)
                }
            },
            Direction::Up => {
                if src_index < self.grid_length {
                    None
                } else {
                    Some(src_index - self.grid_length)
                }
            },
            Direction::UpRight => {
                if src_index < self.grid_length {
                    None
                } else {
                    Some(src_index - self.grid_length + 1)
                }
            },
        }
    }
}

} // verus!
