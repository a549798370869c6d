//! A verified core for Conway's Game of Life on a fixed, hard-edged grid.
//!
//! The grid is the square coordinate range `[-HALF_LEN, HALF_LEN)` on both
//! axes. Each cell is `Dead` or `Alive`; a generation step applies the
//! classic Life rule synchronously to every cell, driven by a snapshot of
//! the live coordinates taken before any cell changes.

pub mod grid;
pub mod neighbor;
pub mod seeding;
pub mod stepper;

pub use grid::Grid;
pub use grid::State;
pub use grid::HALF_LEN;
pub use neighbor::alive_neighbor_count;
pub use seeding::seed;
pub use seeding::INIT_ALIVE_COUNT;
pub use stepper::dead_or_alive;
pub use stepper::Dashboard;
