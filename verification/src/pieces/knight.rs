//! The knight.

use vstd::prelude::*;

use crate::board::Board;
use crate::movegen::{knight_dirs, seal, sweep_moves};
use crate::moves::MoveSet;
use crate::pieces::{Colour, Piece, PieceType, Position};
use crate::rules::lemma_candidates_fair;

verus! {

/// What a knight is worth when captured.
pub const POINTS: u8 = 3;

/// A knight: its side and the square it stands on.
#[derive(Clone, Copy, PartialEq, Eq, Structural, Debug)]
pub struct Knight {
    pub colour: Colour,
    pub pos: Position,
}

impl Knight {
    /// A knight of side `colour` on the square `(row, col)`.
    pub fn config(row: usize, col: usize, colour: Colour) -> (piece: Self)
        ensures
            piece == (Knight { colour, pos: Position { row, col } }),
    {
        Knight { colour, pos: Position { row, col } }
    }
}

impl Piece for Knight {
    open spec fn as_piece(&self) -> PieceType {
        PieceType::Knight(*self)
    }

    fn colour(&self) -> (c: Colour) {
        self.colour
    }

    fn position(&self) -> (p: Position) {
        self.pos
    }

    /// The knight moves by one of its eight jumps.
    fn evaluate_moves(&self, board: &Board) -> (set: MoveSet) {
        let dirs = knight_dirs();
        let moves = sweep_moves(board, self.colour, self.pos, &dirs, 1);
        proof {
            lemma_candidates_fair(board@.grid, self.as_piece());
        }
        seal(board, moves)
    }
}

} // verus!
