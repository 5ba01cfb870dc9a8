//! A Tetris engine: the play-field, the falling piece, and the rules that move,
//! settle and clear, each with a machine-checked contract.

pub mod board;
pub mod laws;
pub mod model;
pub mod piece;
pub mod random;
pub mod session;

pub use board::Board;
pub use model::{Command, Session};
pub use piece::{Color, Piece, Tetromino};
pub use session::State;
