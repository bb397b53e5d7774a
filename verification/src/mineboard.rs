//! The board model: the grids it is layered from and the frame it renders.

pub mod board;
pub mod cells;
pub mod config;
pub mod field;
pub mod laws;
pub mod layers;
pub mod marks;
pub mod numbers;
