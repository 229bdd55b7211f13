//! Rules engine of a Minesweeper game: board geometry and generation,
//! cascading reveal, flagging and chording, the mouse-button state machine
//! and the game session that ties them together.

pub mod board;
pub mod cell;
pub mod face;
pub mod game;
pub mod geometry;
pub mod mouse_state;
pub mod cascade;
pub mod settings;
pub mod type_traits;
