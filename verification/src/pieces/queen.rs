//! The queen.

use vstd::prelude::*;

use crate::board::Board;
use crate::movegen::{all_dirs, seal, sweep_moves};
use crate::moves::MoveSet;
use crate::pieces::{Colour, Piece, PieceType, Position};
use crate::rules::lemma_candidates_fair;

verus! {

/// What a queen is worth when captured.
pub const POINTS: u8 = 9;

/// A queen: its side and the square it stands on.
#[derive(Clone, Copy, PartialEq, Eq, Structural, Debug)]
pub struct Queen {
    pub colour: Colour,
    pub pos: Position,
}

impl Queen {
    /// A queen of side `colour` on the square `(row, col)`.
    pub fn config(row: usize, col: usize, colour: Colour) -> (piece: Self)
        ensures
            piece == (Queen { colour, pos: Position { row, col } }),
    {
        Queen { colour, pos: Position { row, col } }
    }
}

impl Piece for Queen {
    open spec fn as_piece(&self) -> PieceType {
        PieceType::Queen(*self)
    }

    fn colour(&self) -> (c: Colour) {
        self.colour
    }

    fn position(&self) -> (p: Position) {
        self.pos
    }

    /// The queen moves along ranks, files and diagonals.
    fn evaluate_moves(&self, board: &Board) -> (set: MoveSet) {
        let dirs = all_dirs();
        let moves = sweep_moves(board, self.colour, self.pos, &dirs, 7);
        proof {
            lemma_candidates_fair(board@.grid, self.as_piece());
        }
        seal(board, moves)
    }
}

} // verus!
