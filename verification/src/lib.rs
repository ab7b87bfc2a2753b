//! A rectangular grid of cells laid out as one row-major sequence of indices.
//!
//! [`GridIndex`] precomputes the indices of the four edges and of the interior
//! of a grid and answers, for any cell, which cell lies next to it in each of
//! the eight compass directions. A neighbour that would lie beyond an edge is
//! reported as absent; an index never wraps into another row or column.
//!
//! The mathematical model of a grid is [`GridShape`]; every contract of
//! [`GridIndex`] is stated over it, and the module `laws` proves what holds of
//! every valid shape.

pub mod direction;
pub mod grid;
pub mod laws;
pub mod shape;

pub use direction::Direction;
pub use grid::GridIndex;
pub use shape::GridShape;
