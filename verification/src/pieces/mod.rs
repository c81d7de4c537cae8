//! The two sides, the squares of the board, and the tagged union of the six
//! piece kinds that a square can hold.

pub mod bishop;
pub mod king;
pub mod knight;
pub mod pawn;
pub mod queen;
pub mod rook;

use vstd::prelude::*;

use crate::board::Board;
use crate::movegen::seal;
use crate::moves::MoveSet;
use crate::rules::move_set;

pub use bishop::Bishop;
pub use king::King;
pub use knight::Knight;
pub use pawn::Pawn;
pub use queen::Queen;
pub use rook::Rook;

verus! {

/// What every piece can do: say whose it is, say where it stands, and list
/// the moves open to it on a given board.
pub trait Piece: Sized {
    /// The piece as what a square holds.
    spec fn as_piece(&self) -> PieceType;

    /// The side the piece belongs to.
    fn colour(&self) -> (c: Colour)
        ensures
            self.as_piece().colour() == Some(c),
    ;

    /// The square the piece stands on, as the board last told it.
    fn position(&self) -> (p: Position)
        ensures
            self.as_piece().position() == Some(p),
    ;

    /// Every move the piece could make on `board` by its pattern of movement,
    /// or the threat signal when one of them would land on the opposing king.
    /// Moves that would leave the mover's own king attacked are not removed.
    fn evaluate_moves(&self, board: &Board) -> (set: MoveSet)
        requires
            board.wf(),
            self.as_piece().position() matches Some(p) && p.on_board(),
        ensures
            set@ == move_set(board@.grid, self.as_piece()),
    ;
}

/// One of the two sides.
#[derive(Clone, Copy, PartialEq, Eq, Structural, Debug)]
pub enum Colour {
    Black,
    White,
}

impl Colour {
    /// The other side.
    pub open spec fn spec_opposite(self) -> Colour {
        match self {
            Colour::Black => Colour::White,
            Colour::White => Colour::Black,
        }
    }

    /// The other side.
    #[verifier::when_used_as_spec(spec_opposite)]
    pub fn opposite(self) -> (other: Colour)
        ensures
            other == self.spec_opposite(),
    {
        match self {
            Colour::Black => Colour::White,
            Colour::White => Colour::Black,
        }
    }
}

/// A square of the board, by rank (`row`) and file (`col`), both counted from 0.
#[derive(Clone, Copy, PartialEq, Eq, Structural, Debug)]
pub struct Position {
    pub row: usize,
    pub col: usize,
}

impl Position {
    /// Both coordinates lie on the 8x8 board.
    pub open spec fn on_board(self) -> bool {
        self.row < 8 && self.col < 8
    }

    pub open spec fn spec_as_tuple(&self) -> (usize, usize) {
        (self.row, self.col)
    }

    /// The square as a `(row, col)` pair.
    #[verifier::when_used_as_spec(spec_as_tuple)]
    pub fn as_tuple(&self) -> (t: (usize, usize))
        ensures
            t == self.spec_as_tuple(),
    {
        (self.row, self.col)
    }
}

/// What a square holds: one piece of one of the six kinds, or nothing.
#[derive(Clone, Copy, PartialEq, Eq, Structural, Debug)]
pub enum PieceType {
    Pawn(Pawn),
    Rook(Rook),
    Knight(Knight),
    Bishop(Bishop),
    Queen(Queen),
    King(King),
    Empty,
}

impl PieceType {
    pub open spec fn spec_colour(&self) -> Option<Colour> {
        match *self {
            PieceType::Empty => None,
            PieceType::Pawn(p) => Some(p.colour),
            PieceType::Knight(n) => Some(n.colour),
            PieceType::Bishop(b) => Some(b.colour),
            PieceType::Rook(r) => Some(r.colour),
            PieceType::Queen(q) => Some(q.colour),
            PieceType::King(k) => Some(k.colour),
        }
    }

    /// The side the piece belongs to; `None` for an empty square.
    #[verifier::when_used_as_spec(spec_colour)]
    pub fn colour(&self) -> (c: Option<Colour>)
        ensures
            c == self.spec_colour(),
    {
        match self {
            PieceType::Empty => None,
            PieceType::Pawn(p) => Some(p.colour),
            PieceType::Knight(n) => Some(n.colour),
            PieceType::Bishop(b) => Some(b.colour),
            PieceType::Rook(r) => Some(r.colour),
            PieceType::Queen(q) => Some(q.colour),
            PieceType::King(k) => Some(k.colour),
        }
    }

    pub open spec fn spec_position(&self) -> Option<Position> {
        match *self {
            PieceType::Empty => None,
            PieceType::Pawn(p) => Some(p.pos),
            PieceType::Knight(n) => Some(n.pos),
            PieceType::Bishop(b) => Some(b.pos),
            PieceType::Rook(r) => Some(r.pos),
            PieceType::Queen(q) => Some(q.pos),
            PieceType::King(k) => Some(k.pos),
        }
    }

    /// The square the piece believes it stands on; `None` for an empty square.
    #[verifier::when_used_as_spec(spec_position)]
    pub fn position(&self) -> (p: Option<Position>)
        ensures
            p == self.spec_position(),
    {
        match self {
            PieceType::Empty => None,
            PieceType::Pawn(p) => Some(p.pos),
            PieceType::Knight(n) => Some(n.pos),
            PieceType::Bishop(b) => Some(b.pos),
            PieceType::Rook(r) => Some(r.pos),
            PieceType::Queen(q) => Some(q.pos),
            PieceType::King(k) => Some(k.pos),
        }
    }

    pub open spec fn spec_is_empty(&self) -> bool {
        *self is Empty
    }

    /// True for an empty square.
    #[verifier::when_used_as_spec(spec_is_empty)]
    pub fn is_empty(&self) -> (b: bool)
        ensures
            b == self.spec_is_empty(),
    {
        match self {
            PieceType::Empty => true,
            _ => false,
        }
    }

    pub open spec fn spec_is_king(&self) -> bool {
        *self is King
    }

    /// True for a king of either side.
    #[verifier::when_used_as_spec(spec_is_king)]
    pub fn is_king(&self) -> (b: bool)
        ensures
            b == self.spec_is_king(),
    {
        match self {
            PieceType::King(_) => true,
            _ => false,
        }
    }

    /// True when the square holds a piece of `side`.
    pub fn belongs_to(&self, side: Colour) -> (b: bool)
        ensures
            b == (self.colour() == Some(side)),
    {
        match self.colour() {
            Some(c) => c == side,
            None => false,
        }
    }

    /// The same piece standing on `pos`; an empty square stays empty.
    pub open spec fn spec_moved_to(&self, pos: Position) -> PieceType {
        match *self {
            PieceType::Empty => PieceType::Empty,
            PieceType::Pawn(p) => PieceType::Pawn(Pawn { colour: p.colour, pos }),
            PieceType::Knight(n) => PieceType::Knight(Knight { colour: n.colour, pos }),
            PieceType::Bishop(b) => PieceType::Bishop(Bishop { colour: b.colour, pos }),
            PieceType::Rook(r) => PieceType::Rook(Rook { colour: r.colour, pos }),
            PieceType::Queen(q) => PieceType::Queen(Queen { colour: q.colour, pos }),
            PieceType::King(k) => PieceType::King(King { colour: k.colour, pos }),
        }
    }

    /// The same piece standing on `pos`: kind and colour are kept, the stored
    /// square is replaced. An empty square stays empty.
    #[verifier::when_used_as_spec(spec_moved_to)]
    pub fn moved_to(&self, pos: Position) -> (moved: PieceType)
        ensures
            moved == self.spec_moved_to(pos),
    {
        match self {
            PieceType::Empty => PieceType::Empty,
            PieceType::Pawn(p) => PieceType::Pawn(Pawn::config(pos.row, pos.col, p.colour)),
            PieceType::Knight(n) => PieceType::Knight(Knight::config(pos.row, pos.col, n.colour)),
            PieceType::Bishop(b) => PieceType::Bishop(Bishop::config(pos.row, pos.col, b.colour)),
            PieceType::Rook(r) => PieceType::Rook(Rook::config(pos.row, pos.col, r.colour)),
            PieceType::Queen(q) => PieceType::Queen(Queen::config(pos.row, pos.col, q.colour)),
            PieceType::King(k) => PieceType::King(King::config(pos.row, pos.col, k.colour)),
        }
    }

    /// The letter of `as_char` as a string of that one letter.
    pub fn as_str(&self) -> (s: &'static str)
        ensures
            s@ == seq![self.as_char()],
    {
        proof {
            reveal_strlit("P");
            reveal_strlit("p");
            reveal_strlit("R");
            reveal_strlit("r");
            reveal_strlit("N");
            reveal_strlit("n");
            reveal_strlit("B");
            reveal_strlit("b");
            reveal_strlit("Q");
            reveal_strlit("q");
            reveal_strlit("K");
            reveal_strlit("k");
            reveal_strlit(" ");
        }
        let s = match self.as_char() {
            'P' => "P",
            'p' => "p",
            'R' => "R",
            'r' => "r",
            'N' => "N",
            'n' => "n",
            'B' => "B",
            'b' => "b",
            'Q' => "Q",
            'q' => "q",
            'K' => "K",
            'k' => "k",
            _ => " ",
        };
        assert(s@ =~= seq![self.as_char()]);
        s
    }

    /// The moves of the piece on `board`: see `Piece::evaluate_moves`. An empty
    /// square has none.
    pub fn evaluate_moves(&self, board: &Board) -> (set: MoveSet)
        requires
            board.wf(),
            self.position() matches Some(p) ==> p.on_board(),
        ensures
            set@ == move_set(board@.grid, *self),
    {
        match self {
            PieceType::Pawn(p) => p.evaluate_moves(board),
            PieceType::Rook(p) => p.evaluate_moves(board),
            PieceType::Knight(p) => p.evaluate_moves(board),
            PieceType::Bishop(p) => p.evaluate_moves(board),
            PieceType::Queen(p) => p.evaluate_moves(board),
            PieceType::King(p) => p.evaluate_moves(board),
            PieceType::Empty => seal(board, Vec::new()),
        }
    }

    /// The letter that stands for the piece: one of `PRNBQK` for White, of
    /// `prnbqk` for Black, and a space for an empty square.
    pub open spec fn spec_as_char(&self) -> char {
        match *self {
            PieceType::Empty => ' ',
            PieceType::Pawn(p) => if p.colour == Colour::White { 'P' } else { 'p' },
            PieceType::Rook(p) => if p.colour == Colour::White { 'R' } else { 'r' },
            PieceType::Knight(p) => if p.colour == Colour::White { 'N' } else { 'n' },
            PieceType::Bishop(p) => if p.colour == Colour::White { 'B' } else { 'b' },
            PieceType::Queen(p) => if p.colour == Colour::White { 'Q' } else { 'q' },
            PieceType::King(p) => if p.colour == Colour::White { 'K' } else { 'k' },
        }
    }

    /// The letter that stands for the piece in a printed board.
    #[verifier::when_used_as_spec(spec_as_char)]
    pub fn as_char(&self) -> (ch: char)
        ensures
            ch == self.spec_as_char(),
    {
        match self {
            PieceType::Pawn(p) => match p.colour {
                Colour::White => 'P',
                Colour::Black => 'p',
            },
            PieceType::Rook(p) => match p.colour {
                Colour::White => 'R',
                Colour::Black => 'r',
            },
            PieceType::Knight(p) => match p.colour {
                Colour::White => 'N',
                Colour::Black => 'n',
            },
            PieceType::Bishop(p) => match p.colour {
                Colour::White => 'B',
                Colour::Black => 'b',
            },
            PieceType::Queen(p) => match p.colour {
                Colour::White => 'Q',
                Colour::Black => 'q',
            },
            PieceType::King(p) => match p.colour {
                Colour::White => 'K',
                Colour::Black => 'k',
            },
            PieceType::Empty => ' ',
        }
    }
}

} // verus!
