//! Conway's Game of Life on a bounded rectangular grid.
//!
//! Cells are `0` (dead) or `1` (alive). The grid is clipped at its edges:
//! positions outside it never count as neighbours. Every executable function
//! carries a contract over the mathematical model in [`grid`].

pub mod board;
pub mod config;
pub mod count;
pub mod engine;
pub mod error;
pub mod grid;
pub mod laws;
pub mod loader;
pub mod random;
pub mod render;

pub use board::{Board, RunState};
pub use config::Cli;
pub use count::count_alive_cells;
pub use engine::{compute_cell_state, next_generation, next_iteration};
pub use error::GameError;
pub use loader::load_from_text;
pub use random::{board_from_cells, initalize_board};
pub use render::{print_cell, render, render_with};
