//! A verified engine for the game of Connect Four on a board of six rows and
//! seven columns.

pub mod game;
pub mod grid;
pub mod lines;
pub mod player;
pub mod rules;

pub use game::Game;
pub use grid::{Board, BOARD_CELLS, BOARD_HEIGHT, BOARD_WIDTH};
pub use lines::evaluate;
pub use player::{MoveError, Player};
