//! Noughts and crosses on a three-by-three board: the state of a game, the
//! rules for placing marks, the test for a finished game, and the text form
//! of a board.

pub mod game;
pub mod grid;
pub mod input;
pub mod message;
pub mod rules;
pub mod state;
pub mod theorems;
