//! The rook.

use vstd::prelude::*;

use crate::board::Board;
use crate::movegen::{straight_dirs, seal, sweep_moves};
use crate::moves::MoveSet;
use crate::pieces::{Colour, Piece, PieceType, Position};
use crate::rules::lemma_candidates_fair;

verus! {

/// What a rook is worth when captured.
pub const POINTS: u8 = 5;

/// A rook: its side and the square it stands on.
#[derive(Clone, Copy, PartialEq, Eq, Structural, Debug)]
pub struct Rook {
    pub colour: Colour,
    pub pos: Position,
}

impl Rook {
    /// A rook of side `colour` on the square `(row, col)`.
    pub fn config(row: usize, col: usize, colour: Colour) -> (piece: Self)
        ensures
            piece == (Rook { colour, pos: Position { row, col } }),
    {
        Rook { colour, pos: Position { row, col } }
    }
}

impl Piece for Rook {
    open spec fn as_piece(&self) -> PieceType {
        PieceType::Rook(*self)
    }

    fn colour(&self) -> (c: Colour) {
        self.colour
    }

    fn position(&self) -> (p: Position) {
        self.pos
    }

    /// The rook moves along ranks and files.
    fn evaluate_moves(&self, board: &Board) -> (set: MoveSet) {
        let dirs = straight_dirs();
        let moves = sweep_moves(board, self.colour, self.pos, &dirs, 7);
        proof {
            lemma_candidates_fair(board@.grid, self.as_piece());
        }
        seal(board, moves)
    }
}

} // verus!
