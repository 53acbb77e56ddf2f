//! Conway's Game of Life on a bounded rectangular grid.
//!
//! The crate holds the grid container, the neighbour count, the
//! birth/survival rule, a fixed-rate stepper and the seeding patterns, each
//! with a machine-checked contract.

pub mod app;
pub mod cell;
pub mod grid;
pub mod random;
pub mod rules;
pub mod seed;
pub mod table;
