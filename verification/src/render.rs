//! From crossings to colors, and the grid the colors are written to.

pub mod world;
pub mod canvas;
