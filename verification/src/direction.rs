use vstd::prelude::*;

verus! {

/// One of the eight compass directions in which a cell can have a neighbour.
#[derive(Clone, Copy, Debug, PartialEq, Eq)]
pub enum Direction {
    Right,
    DownRight,
    Down,
    DownLeft,
    Left,
    UpLeft,
    Up,
    UpRight,
}

impl Direction {
    /// How many rows a step in this direction moves down (negative: up).
    pub open spec fn row_step(self) -> int {
        match self {
            Direction::DownRight | Direction::Down | Direction::DownLeft => 1,
            Direction::UpLeft | Direction::Up | Direction::UpRight => -1,
            Direction::Right | Direction::Left => 0,
        }
    }

    /// How many columns a step in this direction moves right (negative: left).
    pub open spec fn col_step(self) -> int {
        match self {
            Direction::Right | Direction::DownRight | Direction::UpRight => 1,
            Direction::Left | Direction::DownLeft | Direction::UpLeft => -1,
            Direction::Down | Direction::Up => 0,
        }
    }
}

} // verus!
