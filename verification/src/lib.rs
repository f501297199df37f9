//! A randomized self-avoiding walk over a rectangular grid.
//!
//! Starting from a fixed cell, the traversal engine repeatedly advances the
//! head (the "snail") into a randomly chosen unvisited orthogonal neighbor,
//! laying down a box-drawing glyph on the cell it leaves, and backtracks along
//! the recorded trail whenever it hits a dead end. The run ends when the trail
//! is exhausted and no unvisited neighbor remains; every cell has then been
//! visited exactly once.

pub mod cell;
pub mod geometry;
pub mod glyph;
pub mod grid;
pub mod neighbors;
pub mod traversal;
