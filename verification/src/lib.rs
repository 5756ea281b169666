//! Conway's Game of Life on a fixed-size toroidal grid.
//!
//! `rules` holds the mathematical model: the cell states, the B3/S23
//! transition rule, toroidal wraparound, neighbor sums, and the
//! whole-grid step function, together with the laws proved about them.
//! `universe` holds the executable engine built on that model.

pub mod rules;
pub mod universe;
