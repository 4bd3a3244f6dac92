//! A finite two-dimensional cellular automaton.
//!
//! The grid holds two-valued cells and advances generation by generation
//! under one of several named neighbor-counting rule sets, with no
//! wrap-around at the edges. Besides stepping, the grid can be inverted,
//! doubled in size with cell replication, and filled at random.

pub mod cell;
pub mod world;

pub use cell::Cell;
pub use cell::Ruleset;
pub use world::World;
