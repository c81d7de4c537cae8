//! The bishop.

use vstd::prelude::*;

use crate::board::Board;
use crate::movegen::{diagonal_dirs, seal, sweep_moves};
use crate::moves::MoveSet;
use crate::pieces::{Colour, Piece, PieceType, Position};
use crate::rules::lemma_candidates_fair;

verus! {

/// What a bishop is worth when captured.
pub const POINTS: u8 = 3;

/// A bishop: its side and the square it stands on.
#[derive(Clone, Copy, PartialEq, Eq, Structural, Debug)]
pub struct Bishop {
    pub colour: Colour,
    pub pos: Position,
}

impl Bishop {
    /// A bishop of side `colour` on the square `(row, col)`.
    pub fn config(row: usize, col: usize, colour: Colour) -> (piece: Self)
        ensures
            piece == (Bishop { colour, pos: Position { row, col } }),
    {
        Bishop { colour, pos: Position { row, col } }
    }
}

impl Piece for Bishop {
    open spec fn as_piece(&self) -> PieceType {
        PieceType::Bishop(*self)
    }

    fn colour(&self) -> (c: Colour) {
        self.colour
    }

    fn position(&self) -> (p: Position) {
        self.pos
    }

    /// The bishop moves along diagonals.
    fn evaluate_moves(&self, board: &Board) -> (set: MoveSet) {
        let dirs = diagonal_dirs();
        let moves = sweep_moves(board, self.colour, self.pos, &dirs, 7);
        proof {
            lemma_candidates_fair(board@.grid, self.as_piece());
        }
        seal(board, moves)
    }
}

} // verus!
