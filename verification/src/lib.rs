//! Conway's Game of Life on a fixed-size grid with closed boundaries.
//!
//! The crate holds the cell grid, the rule that computes one generation from
//! the previous one, the comparison of two generations that tells a renderer
//! which cells to redraw, and a small driver that ties the three together.
//! Every function carries a contract over a mathematical model of the grid:
//! a width, a height and a row-major sequence of cell states.

pub mod cell;
pub mod diff;
pub mod grid;
pub mod rules;
pub mod simulation;
pub mod source;

pub use cell::{CellState, GridError};
pub use diff::{diff, DiffEntry};
pub use grid::{idx_to_xy, xy_to_idx, CellGrid};
pub use rules::{apply_rule, count_live_neighbors, step};
pub use simulation::Simulation;
