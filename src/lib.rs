//! A small snake game: a segmented body moving on a grid, food to collect,
//! growth on each meal and a terminal state when the head leaves the arena.
use vstd::prelude::*;

pub mod geometry;
pub mod random;
pub mod snake;
pub mod food;
pub mod game;

verus! {

} // verus!
