//! A chess rules engine: the board, the movement pattern of each piece, and the
//! turn and check state machine that decides which moves may be played.

pub mod board;
pub mod laws;
pub mod lines;
pub mod movegen;
pub mod moves;
pub mod pieces;
pub mod rules;
