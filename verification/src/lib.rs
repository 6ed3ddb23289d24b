//! A verified engine for a single-player mine-clearing puzzle.
//!
//! The engine owns a rectangular grid of cells, places mines at random,
//! computes the adjacency hints, and implements the reveal, cascade, flag
//! and reset operations together with win and loss detection.

pub mod board;
pub mod cascade;
pub mod cell;
pub mod chance;
pub mod deal;
pub mod grid;
pub mod hints;
pub mod laws;
pub mod model;
pub mod params;
pub mod tally;
pub mod timer;
