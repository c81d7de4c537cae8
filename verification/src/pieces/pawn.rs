//! The pawn.

use vstd::prelude::*;

use crate::board::Board;
use crate::movegen::seal;
use crate::moves::{Move, MoveSet};
use crate::pieces::{Colour, Piece, PieceType, Position};
use crate::rules::{lemma_candidates_fair, pawn_advance, pawn_capture, pawn_moves};

verus! {

/// What a pawn is worth when captured.
pub const POINTS: u8 = 1;

/// A pawn: its side and the square it stands on.
#[derive(Clone, Copy, PartialEq, Eq, Structural, Debug)]
pub struct Pawn {
    pub colour: Colour,
    pub pos: Position,
}

impl Pawn {
    /// A pawn of side `colour` on the square `(row, col)`.
    pub fn config(row: usize, col: usize, colour: Colour) -> (piece: Self)
        ensures
            piece == (Pawn { colour, pos: Position { row, col } }),
    {
        Pawn { colour, pos: Position { row, col } }
    }
}

impl Piece for Pawn {
    open spec fn as_piece(&self) -> PieceType {
        PieceType::Pawn(*self)
    }

    fn colour(&self) -> (c: Colour) {
        self.colour
    }

    fn position(&self) -> (p: Position) {
        self.pos
    }

    /// The pawn steps one square straight ahead onto an empty square, and
    /// captures one square diagonally ahead. On the last rank of its march it
    /// has no move.
    fn evaluate_moves(&self, board: &Board) -> (set: MoveSet) {
        let o = self.pos.as_tuple();
        let mut moves: Vec<Move> = Vec::new();
        let ahead: Option<usize> = match self.colour {
            Colour::White => if o.0 + 1 < 8 {
                Some(o.0 + 1)
            } else {
                None
            },
            Colour::Black => if o.0 >= 1 {
                Some(o.0 - 1)
            } else {
                None
            },
        };
        if let Some(row) = ahead {
            if board.get(row, o.1).is_empty() {
                moves.push(Move::construct((row, o.1), o));
            }
            assert(moves@ == pawn_advance(board@.grid, o, row as int, o.1 as int));
            if o.1 + 1 < 8 {
                let there = board.get(row, o.1 + 1);
                if !there.is_empty() && !there.belongs_to(self.colour) {
                    moves.push(Move::construct((row, o.1 + 1), o));
                }
            }
            assert(moves@ == pawn_advance(board@.grid, o, row as int, o.1 as int) + pawn_capture(
                board@.grid,
                self.colour,
                o,
                row as int,
                o.1 + 1,
            ));
            if o.1 >= 1 {
                let there = board.get(row, o.1 - 1);
                if !there.is_empty() && !there.belongs_to(self.colour) {
                    moves.push(Move::construct((row, o.1 - 1), o));
                }
            }
        }
        assert(moves@ == pawn_moves(board@.grid, self.colour, self.pos));
        proof {
            lemma_candidates_fair(board@.grid, self.as_piece());
        }
        seal(board, moves)
    }
}

} // verus!
