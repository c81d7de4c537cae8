//! The king.

use vstd::prelude::*;

use crate::board::Board;
use crate::movegen::{all_dirs, seal, sweep_moves};
use crate::moves::MoveSet;
use crate::pieces::{Colour, Piece, PieceType, Position};
use crate::rules::lemma_candidates_fair;

verus! {

/// A king: its side and the square it stands on.
#[derive(Clone, Copy, PartialEq, Eq, Structural, Debug)]
pub struct King {
    pub colour: Colour,
    pub pos: Position,
}

impl King {
    /// A king of side `colour` on the square `(row, col)`.
    pub fn config(row: usize, col: usize, colour: Colour) -> (piece: Self)
        ensures
            piece == (King { colour, pos: Position { row, col } }),
    {
        King { colour, pos: Position { row, col } }
    }
}

impl Piece for King {
    open spec fn as_piece(&self) -> PieceType {
        PieceType::King(*self)
    }

    fn colour(&self) -> (c: Colour) {
        self.colour
    }

    fn position(&self) -> (p: Position) {
        self.pos
    }

    /// The king moves one square in any direction.
    fn evaluate_moves(&self, board: &Board) -> (set: MoveSet) {
        let dirs = all_dirs();
        let moves = sweep_moves(board, self.colour, self.pos, &dirs, 1);
        proof {
            lemma_candidates_fair(board@.grid, self.as_piece());
        }
        seal(board, moves)
    }
}

} // verus!
