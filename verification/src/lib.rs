//! Rules engine for a tile-drafting board game: shared offers, personal staging
//! rows, a scoring grid, and agents that pick moves.

pub mod agent;
pub mod api;
pub mod board;
pub mod board_laws;
pub mod colors;
pub mod game;
pub mod game_laws;
pub mod game_state;
pub mod grid;
pub mod planning;
pub mod player_move;
pub mod player_state;
pub mod random;
pub mod ranking;
pub mod text;
