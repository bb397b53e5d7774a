//! Minesweeper for the terminal. The board is layered from grids of mines,
//! flags, opened cells and neighbour counts and renders into a frame of
//! symbols with a border; the game decides what keys and mouse clicks do to
//! it; the menu holds the widgets of a settings screen.

pub mod gameloop;
pub mod menu;
pub mod mineboard;
pub mod random;
pub mod utils;
