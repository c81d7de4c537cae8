//! The board: the grid of squares, the side to move, the cached check flag
//! and the pieces each side has captured.

use vstd::prelude::*;

use crate::laws::lemma_legal_move_keeps_kings;
use crate::moves::Move;
use crate::pieces::{Bishop, Colour, King, Knight, Pawn, PieceType, Position, Queen, Rook};
use crate::rules::{
    after_move, all_empty, all_pieces, back_rank_piece, board_text, can_move, candidates,
    empty_grid, fair_moves, first_king, foes, foes_among, game_state, has_king, in_check,
    initial_grid, initial_square, king_at, legal, lemma_after_move_placed, lemma_candidates_fair,
    lemma_foes_among, lemma_grid_equal, lemma_in_check_by_foes, move_set, on_board,
    one_king_each, placed,
    text_upto, threatens, well_shaped, with_square, Grid,
};

verus! {

/// The state of the game for the side to move.
#[derive(Clone, Copy, PartialEq, Eq, Structural, Debug)]
pub enum GameState {
    /// Nobody is in check and the side to move can move.
    Neutral,
    /// The king of this colour is in check and can be saved.
    Check(Colour),
    /// The side to move is not in check and has no move it may play.
    Stalemate,
    /// The king of this colour is in check and cannot be saved.
    Checkmate(Colour),
}

/// Why a move was turned down.
#[non_exhaustive]
#[derive(Clone, Copy, PartialEq, Eq, Structural, Debug)]
pub enum GameError {
    /// The piece may not make this move.
    InvalidMove,
    /// The piece on the origin square belongs to the side that is not to move.
    WrongTurn,
    /// The origin square holds no piece.
    EmptySpace,
}

impl GameError {
    /// The sentence that tells a player why the move was turned down.
    pub open spec fn spec_message(&self) -> Seq<char> {
        match *self {
            GameError::InvalidMove => "Invalid move for piece"@,
            GameError::WrongTurn => "Wrong colour to make turn"@,
            GameError::EmptySpace => "Space on board is empty"@,
        }
    }

    /// The sentence that tells a player why the move was turned down.
    pub fn message(&self) -> (text: &'static str)
        ensures
            text@ == self.spec_message(),
    {
        match self {
            GameError::InvalidMove => "Invalid move for piece",
            GameError::WrongTurn => "Wrong colour to make turn",
            GameError::EmptySpace => "Space on board is empty",
        }
    }

    /// The sentence of `message` as an owned string.
    pub fn to_string(&self) -> (text: String)
        ensures
            text@ == self.spec_message(),
    {
        String::from_str(self.message())
    }
}

/// What a `Board` holds, as plain mathematics.
pub struct BoardView {
    /// The squares, rank 0 first.
    pub grid: Grid,
    /// The side to move.
    pub turn: Colour,
    /// The colour whose king was last found in check, if any.
    pub check: Option<Colour>,
    /// The pieces White has captured, oldest first.
    pub white: Seq<PieceType>,
    /// The pieces Black has captured, oldest first.
    pub black: Seq<PieceType>,
}

impl BoardView {
    /// The grid is 8x8, every piece on it stores its own square, and no
    /// capture list holds an empty square.
    pub open spec fn wf(self) -> bool {
        &&& well_shaped(self.grid)
        &&& placed(self.grid)
        &&& all_pieces(self.white)
        &&& all_pieces(self.black)
    }

    /// The pieces that `side` has captured.
    pub open spec fn captures(self, side: Colour) -> Seq<PieceType> {
        match side {
            Colour::White => self.white,
            Colour::Black => self.black,
        }
    }

    /// What the origin square of `m` holds.
    pub open spec fn mover(self, m: Move) -> PieceType {
        self.grid[m.origin.0 as int][m.origin.1 as int]
    }

    /// What the target square of `m` holds.
    pub open spec fn victim(self, m: Move) -> PieceType {
        self.grid[m.target.0 as int][m.target.1 as int]
    }

    /// The first checks on a move: the origin must hold a piece, and that
    /// piece must belong to the side to move.
    pub open spec fn gate(self, m: Move) -> Result<(), GameError> {
        if self.mover(m).is_empty() {
            Err(GameError::EmptySpace)
        } else if self.mover(m).colour() != Some(self.turn) {
            Err(GameError::WrongTurn)
        } else {
            Ok(())
        }
    }

    /// The answer to a move that is played under the full rules: the first
    /// checks of `gate`, then `InvalidMove` unless the move is legal.
    pub open spec fn verdict(self, m: Move) -> Result<(), GameError> {
        if self.gate(m) is Err {
            self.gate(m)
        } else if !legal(self.grid, self.turn, m) {
            Err(GameError::InvalidMove)
        } else {
            Ok(())
        }
    }

    /// The capture list of `side` once the side to move has played `m`: the
    /// piece on the target square, if there is one, is added at the end of the
    /// list of the side to move.
    pub open spec fn captures_after(self, side: Colour, m: Move) -> Seq<PieceType> {
        if side == self.turn && !self.victim(m).is_empty() {
            self.captures(side).push(self.victim(m))
        } else {
            self.captures(side)
        }
    }

    /// The board once the side to move has played `m`: the mover stands on
    /// the target square and knows it, the origin square is empty, and what
    /// stood on the target is in the mover's capture list. The side to move
    /// and the check flag are as before.
    pub open spec fn after(self, m: Move) -> BoardView {
        BoardView {
            grid: after_move(self.grid, m),
            turn: self.turn,
            check: self.check,
            white: self.captures_after(Colour::White, m),
            black: self.captures_after(Colour::Black, m),
        }
    }
}

/// A chess board with the side to move and the captures so far.
pub struct Board {
    board: [[PieceType; 8]; 8],
    turn: Colour,
    check: Option<Colour>,
    white_cap: Vec<PieceType>,
    black_cap: Vec<PieceType>,
}

impl View for Board {
    type V = BoardView;

    closed spec fn view(&self) -> BoardView {
        BoardView {
            grid: Seq::new(8, |r: int| Seq::new(8, |c: int| self.board[r][c])),
            turn: self.turn,
            check: self.check,
            white: self.white_cap@,
            black: self.black_cap@,
        }
    }
}

impl Board {
    /// The invariant of a board: see `BoardView::wf`.
    pub open spec fn wf(&self) -> bool {
        self@.wf()
    }

    /// A board with no piece on it, White to move, nobody in check and
    /// nothing captured.
    pub fn empty() -> (b: Self)
        ensures
            b.wf(),
            b@.grid == empty_grid(),
            b@.turn == Colour::White,
            b@.check == None::<Colour>,
            b@.white == Seq::<PieceType>::empty(),
            b@.black == Seq::<PieceType>::empty(),
    {
        let b = Board {
            board: [[PieceType::Empty; 8]; 8],
            turn: Colour::White,
            check: None,
            white_cap: Vec::new(),
            black_cap: Vec::new(),
        };
        proof {
            lemma_grid_equal(b@.grid, empty_grid());
        }
        b
    }

    /// A board set up for a new game: the starting position, White to move,
    /// nobody in check and nothing captured.
    pub fn init() -> (b: Self)
        ensures
            b.wf(),
            b@.grid == initial_grid(),
            b@.turn == Colour::White,
            b@.check == None::<Colour>,
            b@.white == Seq::<PieceType>::empty(),
            b@.black == Seq::<PieceType>::empty(),
    {
        let mut board = Board::empty();
        board.reset();
        board
    }

    /// Sets every square to what it holds at the start of a game, whatever the
    /// board held before. The side to move, the check flag and the captures
    /// are left as they are.
    pub fn reset(&mut self)
        requires
            old(self).wf(),
        ensures
            final(self).wf(),
            final(self)@ == (BoardView { grid: initial_grid(), ..old(self)@ }),
    {
        let mut r: usize = 0;
        while r < 8
            invariant
                r <= 8,
                self.turn == old(self).turn,
                self.check == old(self).check,
                self.white_cap == old(self).white_cap,
                self.black_cap == old(self).black_cap,
                forall|i: int, j: int|
                    0 <= i < r && 0 <= j < 8 ==> self.board[i][j] == initial_square(i, j),
            decreases 8 - r,
        {
            let mut c: usize = 0;
            while c < 8
                invariant
                    r < 8,
                    c <= 8,
                    self.turn == old(self).turn,
                    self.check == old(self).check,
                    self.white_cap == old(self).white_cap,
                    self.black_cap == old(self).black_cap,
                    forall|i: int, j: int|
                        0 <= i < r && 0 <= j < 8 ==> self.board[i][j] == initial_square(i, j),
                    forall|j: int| 0 <= j < c ==> self.board[r as int][j] == initial_square(r as int, j),
                decreases 8 - c,
            {
                self.board[r][c] = starting_piece(r, c);
                c += 1;
            }
            r += 1;
        }
        proof {
            lemma_grid_equal(self@.grid, initial_grid());
        }
    }

    /// True when no square holds a piece.
    pub fn is_empty(&self) -> (b: bool)
        ensures
            b == all_empty(self@.grid),
    {
        let mut r: usize = 0;
        while r < 8
            invariant
                r <= 8,
                forall|i: int, j: int| 0 <= i < r && 0 <= j < 8 ==> self.board[i][j].is_empty(),
            decreases 8 - r,
        {
            let mut c: usize = 0;
            while c < 8
                invariant
                    r < 8,
                    c <= 8,
                    forall|i: int, j: int|
                        0 <= i < r && 0 <= j < 8 ==> self.board[i][j].is_empty(),
                    forall|j: int| 0 <= j < c ==> self.board[r as int][j].is_empty(),
                decreases 8 - c,
            {
                if !self.board[r][c].is_empty() {
                    assert(on_board(r as int, c as int));
                    assert(!self@.grid[r as int][c as int].is_empty());
                    return false;
                }
                c += 1;
            }
            r += 1;
        }
        true
    }

    /// True when a king of side `c` stands on the board.
    pub fn has_king(&self, c: Colour) -> (b: bool)
        ensures
            b == has_king(self@.grid, c),
    {
        let mut i: usize = 0;
        while i < 8
            invariant
                i <= 8,
                forall|r: int, k: int| 0 <= r < i && 0 <= k < 8 ==> !king_at(self@.grid, c, r, k),
            decreases 8 - i,
        {
            let mut j: usize = 0;
            while j < 8
                invariant
                    i < 8,
                    j <= 8,
                    forall|r: int, k: int|
                        0 <= r < i && 0 <= k < 8 ==> !king_at(self@.grid, c, r, k),
                    forall|k: int| 0 <= k < j ==> !king_at(self@.grid, c, i as int, k),
                decreases 8 - j,
            {
                let here = self.board[i][j];
                if here.is_king() && here.belongs_to(c) {
                    assert(king_at(self@.grid, c, i as int, j as int));
                    return true;
                }
                j += 1;
            }
            i += 1;
        }
        false
    }

    /// The square of the king of side `c`: the first one met when the board is
    /// read rank by rank from rank 0, each rank from file 0. With one king of
    /// that side on the board, that is where it stands.
    pub fn find_king(&self, c: Colour) -> (p: Position)
        requires
            self.wf(),
            has_king(self@.grid, c),
        ensures
            first_king(self@.grid, c, p.row as int, p.col as int),
            self@.grid[p.row as int][p.col as int].position() == Some(p),
    {
        let mut i: usize = 0;
        while i < 8
            invariant
                i <= 8,
                self.wf(),
                forall|r: int, k: int| 0 <= r < i && 0 <= k < 8 ==> !king_at(self@.grid, c, r, k),
            decreases 8 - i,
        {
            let mut j: usize = 0;
            while j < 8
                invariant
                    i < 8,
                    j <= 8,
                    self.wf(),
                    forall|r: int, k: int|
                        0 <= r < i && 0 <= k < 8 ==> !king_at(self@.grid, c, r, k),
                    forall|k: int| 0 <= k < j ==> !king_at(self@.grid, c, i as int, k),
                decreases 8 - j,
            {
                if let PieceType::King(k) = self.board[i][j] {
                    if k.colour == c {
                        assert(on_board(i as int, j as int));
                        assert(king_at(self@.grid, c, i as int, j as int));
                        return k.pos;
                    }
                }
                j += 1;
            }
            i += 1;
        }
        proof {
            let (r, k) = choose|r: int, k: int| king_at(self@.grid, c, r, k);
            assert(king_at(self@.grid, c, r, k));
            assert(false);
        }
        Position { row: 0, col: 0 }
    }

    /// What the square `(row, col)` holds.
    pub fn get(&self, row: usize, col: usize) -> (p: PieceType)
        requires
            row < 8,
            col < 8,
        ensures
            p == self@.grid[row as int][col as int],
    {
        self.board[row][col]
    }

    /// The eight squares of rank `idx`, file 0 first.
    pub fn row(&self, idx: usize) -> (squares: &[PieceType; 8])
        requires
            idx < 8,
        ensures
            squares@ == self@.grid[idx as int],
    {
        &self.board[idx]
    }

    /// The side to move.
    pub fn turn(&self) -> (c: Colour)
        ensures
            c == self@.turn,
    {
        self.turn
    }

    /// Puts `piece` on the square `(row, col)`, telling it where it now
    /// stands; whatever stood there is dropped. Placing `PieceType::Empty`
    /// clears the square.
    pub fn place(&mut self, row: usize, col: usize, piece: PieceType)
        requires
            old(self).wf(),
            row < 8,
            col < 8,
        ensures
            final(self).wf(),
            final(self)@ == (BoardView {
                grid: with_square(
                    old(self)@.grid,
                    row as int,
                    col as int,
                    piece.moved_to(Position { row, col }),
                ),
                ..old(self)@
            }),
    {
        self.board[row][col] = piece.moved_to(Position { row, col });
        proof {
            lemma_grid_equal(
                self@.grid,
                with_square(
                    old(self)@.grid,
                    row as int,
                    col as int,
                    piece.moved_to(Position { row, col }),
                ),
            );
        }
    }

    /// Hands the move to the other side.
    pub fn flip_turn(&mut self)
        ensures
            final(self)@ == (BoardView { turn: old(self)@.turn.opposite(), ..old(self)@ }),
    {
        if self.turn == Colour::Black {
            self.turn = Colour::White
        } else {
            self.turn = Colour::Black
        }
    }

    /// True when the last evaluation of the game found a king in check.
    pub fn is_in_check(&self) -> (b: bool)
        ensures
            b == self@.check.is_some(),
    {
        match self.check {
            Some(_) => true,
            None => false,
        }
    }

    /// Applies `mov` to the board, looking only at who owns the origin square.
    ///
    /// An empty origin is turned down with `EmptySpace` and a piece of the
    /// side that is not to move with `WrongTurn`; the board is then left as it
    /// was. Otherwise the piece is moved as `BoardView::after` says. Whether
    /// the piece can reach the target, and whether the move leaves the mover's
    /// king attacked, is not looked at: `make_move` does that. The turn is not
    /// handed over and the check flag is not refreshed.
    ///
    /// A piece of the side to move must not be sent onto a square held by its
    /// own side.
    pub fn move_piece(&mut self, mov: Move) -> (res: Result<(), GameError>)
        requires
            old(self).wf(),
            mov.on_board(),
            old(self)@.gate(mov) is Ok ==> old(self)@.victim(mov).colour() != Some(
                old(self)@.turn,
            ),
        ensures
            final(self).wf(),
            res == old(self)@.gate(mov),
            res is Ok ==> final(self)@ == old(self)@.after(mov),
            res is Err ==> final(self)@ == old(self)@,
    {
        let temp = self.board[mov.origin.0][mov.origin.1];
        let targ = self.board[mov.target.0][mov.target.1];
        match temp.colour() {
            Some(colour) => {
                if colour != self.turn {
                    return Err(GameError::WrongTurn);
                }
            },
            None => {
                return Err(GameError::EmptySpace);
            },
        }
        if !targ.is_empty() {
            self.add_to_captures(self.turn, targ);
        }
        self.board[mov.origin.0][mov.origin.1] = PieceType::Empty;
        self.board[mov.target.0][mov.target.1] = temp.moved_to(
            Position { row: mov.target.0, col: mov.target.1 },
        );
        proof {
            lemma_grid_equal(self@.grid, after_move(old(self)@.grid, mov));
        }
        self.log_move(temp, mov);
        Ok(())
    }

    /// The point at which a move that was just applied can be recorded. The
    /// board keeps no record of its own: this leaves it as it is.
    pub fn log_move(&mut self, piece: PieceType, mov: Move)
        requires
            !piece.is_empty(),
        ensures
            *final(self) == *old(self),
    {
    }

    /// The squares that hold a piece of the side that is not to move, in
    /// reading order: rank by rank from rank 0, each rank from file 0.
    pub fn enum_opposite_pieces(&self) -> (positions: Vec<Position>)
        requires
            self.wf(),
        ensures
            positions@ == foes(self@.grid, self@.turn),
    {
        let mut positions: Vec<Position> = Vec::new();
        let mut i: usize = 0;
        while i < 8
            invariant
                i <= 8,
                self.wf(),
                positions@ == foes_among(self@.grid, self@.turn, (i * 8) as nat),
            decreases 8 - i,
        {
            let mut j: usize = 0;
            while j < 8
                invariant
                    i < 8,
                    j <= 8,
                    self.wf(),
                    positions@ == foes_among(self@.grid, self@.turn, (i * 8 + j) as nat),
                decreases 8 - j,
            {
                let here = self.board[i][j];
                assert((i * 8 + j) / 8 == i && (i * 8 + j) % 8 == j);
                if let Some(colour) = here.colour() {
                    if colour != self.turn {
                        positions.push(Position { row: i, col: j });
                    }
                }
                j += 1;
            }
            i += 1;
        }
        positions
    }

    /// True when a piece of the other side attacks the king of the side to
    /// move.
    pub fn king_attacked(&self) -> (b: bool)
        requires
            self.wf(),
        ensures
            b == in_check(self@.grid, self@.turn),
    {
        let foes = self.enum_opposite_pieces();
        proof {
            lemma_foes_among(self@.grid, self@.turn, 64);
        }
        let mut i: usize = 0;
        while i < foes.len()
            invariant
                i <= foes.len(),
                self.wf(),
                foes@ == crate::rules::foes(self@.grid, self@.turn),
                forall|k: int| 0 <= k < foes@.len() ==> (#[trigger] foes@[k]).on_board(),
                forall|k: int|
                    0 <= k < i ==> !threatens(
                        self@.grid,
                        (#[trigger] foes@[k]).row as int,
                        foes@[k].col as int,
                    ),
            decreases foes.len() - i,
        {
            let at = foes[i];
            let piece = self.get(at.row, at.col);
            assert(on_board(at.row as int, at.col as int));
            if piece.evaluate_moves(self).is_checking() {
                proof {
                    lemma_in_check_by_foes(self@.grid, self@.turn);
                }
                return true;
            }
            i += 1;
        }
        proof {
            lemma_in_check_by_foes(self@.grid, self@.turn);
        }
        false
    }

    /// The board as text: see `board_text`.
    pub fn to_string(&self) -> (text: String)
        ensures
            text@ == board_text(self@.grid),
    {
        proof {
            reveal_strlit("|");
            reveal_strlit("\n");
        }
        let mut buf = String::new();
        let mut line: usize = 0;
        assert(buf@ == text_upto(self@.grid, 0));
        while line < 8
            invariant
                line <= 8,
                "|"@ == seq!['|'],
                "\n"@ == seq!['\n'],
                buf@ == text_upto(self@.grid, line * 18),
            decreases 8 - line,
        {
            let rank = 7 - line;
            buf.append("|");
            assert(buf@ == text_upto(self@.grid, line * 18 + 1));
            let mut file: usize = 0;
            while file < 8
                invariant
                    line < 8,
                    rank == 7 - line,
                    file <= 8,
                    "|"@ == seq!['|'],
                    buf@ == text_upto(self@.grid, line * 18 + 1 + 2 * file),
                decreases 8 - file,
            {
                let ghost before = buf@;
                buf.append(self.board[rank][file].as_str());
                buf.append("|");
                assert(buf@ == text_upto(self@.grid, line * 18 + 1 + 2 * (file + 1))) by {
                    let k = line * 18 + 1 + 2 * file;
                    assert(k / 18 == line as int && k % 18 == 1 + 2 * file);
                    assert((k + 1) / 18 == line as int && (k + 1) % 18 == 2 + 2 * file);
                    assert(buf@ == before.push(self.board[rank as int][file as int].as_char()).push('|'));
                }
                file += 1;
            }
            buf.append("\n");
            assert(buf@ == text_upto(self@.grid, (line + 1) * 18)) by {
                let k = line * 18 + 17;
                assert(k / 18 == line as int && k % 18 == 17);
            }
            line += 1;
        }
        buf
    }

    /// A board for looking ahead: the squares as they would stand once `mov`
    /// is made, the same side to move, and no captures.
    fn scratch(&self, mov: Move) -> (ahead: Board)
        requires
            self.wf(),
            mov.on_board(),
        ensures
            ahead.wf(),
            ahead@.grid == after_move(self@.grid, mov),
            ahead@.turn == self@.turn,
    {
        let mut grid = self.board;
        let piece = grid[mov.origin.0][mov.origin.1];
        grid[mov.origin.0][mov.origin.1] = PieceType::Empty;
        grid[mov.target.0][mov.target.1] = piece.moved_to(
            Position { row: mov.target.0, col: mov.target.1 },
        );
        let ahead = Board {
            board: grid,
            turn: self.turn,
            check: self.check,
            white_cap: Vec::new(),
            black_cap: Vec::new(),
        };
        proof {
            lemma_after_move_placed(self@.grid, mov);
            lemma_grid_equal(ahead@.grid, after_move(self@.grid, mov));
        }
        ahead
    }

    /// True when the side to move may play `mov`: the move starts from one of
    /// its pieces, is among the moves of that piece, and does not leave its
    /// king attacked. The real board is not touched: the move is tried on a
    /// copy.
    pub fn is_legal(&self, mov: Move) -> (b: bool)
        requires
            self.wf(),
            mov.on_board(),
        ensures
            b == legal(self@.grid, self@.turn, mov),
    {
        let piece = self.get(mov.origin.0, mov.origin.1);
        if !piece.belongs_to(self.turn) {
            return false;
        }
        assert(on_board(mov.origin.0 as int, mov.origin.1 as int));
        let set = piece.evaluate_moves(self);
        if !set.contains(&mov) {
            return false;
        }
        !self.scratch(mov).king_attacked()
    }

    /// True when the side to move has a move that it may play.
    pub fn has_legal_move(&self) -> (b: bool)
        requires
            self.wf(),
        ensures
            b == can_move(self@.grid, self@.turn),
    {
        let ghost g = self@.grid;
        let ghost side = self@.turn;
        let mut i: usize = 0;
        while i < 8
            invariant
                i <= 8,
                self.wf(),
                g == self@.grid,
                side == self@.turn,
                forall|m: Move| m.origin.0 < i ==> !#[trigger] legal(g, side, m),
            decreases 8 - i,
        {
            let mut j: usize = 0;
            while j < 8
                invariant
                    i < 8,
                    j <= 8,
                    self.wf(),
                    g == self@.grid,
                    side == self@.turn,
                    forall|m: Move| m.origin.0 < i ==> !#[trigger] legal(g, side, m),
                    forall|m: Move|
                        m.origin.0 == i && m.origin.1 < j ==> !#[trigger] legal(g, side, m),
                decreases 8 - j,
            {
                let piece = self.get(i, j);
                assert(on_board(i as int, j as int));
                if piece.belongs_to(self.turn) {
                    let set = piece.evaluate_moves(self);
                    proof {
                        lemma_candidates_fair(g, piece);
                    }
                    let mut k: usize = 0;
                    while k < set.len()
                        invariant
                            i < 8,
                            j < 8,
                            k <= set@.moves.len(),
                            self.wf(),
                            g == self@.grid,
                            side == self@.turn,
                            piece == g[i as int][j as int],
                            piece.colour() == Some(side),
                            piece.position() == Some(Position { row: i, col: j }),
                            set@ == move_set(g, piece),
                            fair_moves(g, side, (i, j), candidates(g, piece)),
                            forall|q: int|
                                0 <= q < k ==> in_check(after_move(g, #[trigger] set@.moves[q]), side),
                        decreases set@.moves.len() - k,
                    {
                        let m = set.get(k);
                        assert(m == candidates(g, piece)[k as int]);
                        if !self.scratch(m).king_attacked() {
                            assert(legal(g, side, m));
                            return true;
                        }
                        k += 1;
                    }
                }
                assert forall|m: Move| m.origin.0 == i && m.origin.1 == j implies !#[trigger] legal(
                    g,
                    side,
                    m,
                ) by {
                    if legal(g, side, m) {
                        let moves = move_set(g, piece).moves;
                        let q = choose|q: int| 0 <= q < moves.len() && moves[q] == m;
                        assert(in_check(after_move(g, moves[q]), side));
                    }
                }
                j += 1;
            }
            i += 1;
        }
        assert forall|m: Move| !#[trigger] legal(g, side, m) by {
            if legal(g, side, m) {
                assert(m.origin.0 < 8);
            }
        }
        false
    }

    /// Plays `mov` under the full rules.
    ///
    /// An empty origin is turned down with `EmptySpace`, a piece of the side
    /// that is not to move with `WrongTurn`, and a move that the piece cannot
    /// make, or that would leave the mover's king attacked, with
    /// `InvalidMove`; the board is then left as it was. Otherwise the piece is
    /// moved as `BoardView::after` says. The turn is not handed over and the
    /// check flag is not refreshed: call `flip_turn` and `eval_gamestate`.
    ///
    /// A board on which each side has exactly one king stays such a board:
    /// no move that is played this way takes a king.
    pub fn make_move(&mut self, mov: Move) -> (res: Result<(), GameError>)
        requires
            old(self).wf(),
            mov.on_board(),
        ensures
            final(self).wf(),
            res == old(self)@.verdict(mov),
            res is Ok ==> final(self)@ == old(self)@.after(mov),
            res is Err ==> final(self)@ == old(self)@,
            one_king_each(old(self)@.grid) ==> one_king_each(final(self)@.grid),
    {
        let piece = self.get(mov.origin.0, mov.origin.1);
        if piece.is_empty() {
            return Err(GameError::EmptySpace);
        }
        if !piece.belongs_to(self.turn) {
            return Err(GameError::WrongTurn);
        }
        if !self.is_legal(mov) {
            return Err(GameError::InvalidMove);
        }
        proof {
            let g = self@.grid;
            assert(on_board(mov.origin.0 as int, mov.origin.1 as int));
            lemma_candidates_fair(g, piece);
            let moves = move_set(g, piece).moves;
            let q = choose|q: int| 0 <= q < moves.len() && moves[q] == mov;
            assert(candidates(g, piece)[q] == mov);
            if one_king_each(g) {
                lemma_legal_move_keeps_kings(g, self@.turn, mov);
            }
        }
        self.move_piece(mov)
    }

    /// Works out the state of the game for the side to move and refreshes the
    /// check flag: it names the side to move when its king is attacked, and is
    /// cleared when it is not.
    ///
    /// The side to move must have a king on the board.
    pub fn eval_gamestate(&mut self) -> (state: GameState)
        requires
            old(self).wf(),
            has_king(old(self)@.grid, old(self)@.turn),
        ensures
            final(self).wf(),
            state == game_state(old(self)@.grid, old(self)@.turn),
            final(self)@ == (BoardView {
                check: if in_check(old(self)@.grid, old(self)@.turn) {
                    Some(old(self)@.turn)
                } else {
                    None
                },
                ..old(self)@
            }),
    {
        let attacked = self.king_attacked();
        let free = self.has_legal_move();
        if attacked {
            self.check = Some(self.turn);
            if free {
                GameState::Check(self.turn)
            } else {
                GameState::Checkmate(self.turn)
            }
        } else {
            self.check = None;
            if free {
                GameState::Neutral
            } else {
                GameState::Stalemate
            }
        }
    }

    /// The pieces Black has captured, oldest first.
    pub fn black(&self) -> (taken: &[PieceType])
        ensures
            taken@ == self@.black,
    {
        self.black_cap.as_slice()
    }

    /// The pieces White has captured, oldest first.
    pub fn white(&self) -> (taken: &[PieceType])
        ensures
            taken@ == self@.white,
    {
        self.white_cap.as_slice()
    }

    /// Adds `piece` to the pieces that `colour` has captured.
    pub fn add_to_captures(&mut self, colour: Colour, piece: PieceType)
        requires
            old(self).wf(),
            !piece.is_empty(),
            piece.colour() != Some(old(self)@.turn),
        ensures
            final(self).wf(),
            final(self)@.captures(colour) == old(self)@.captures(colour).push(piece),
            final(self)@.captures(colour.opposite()) == old(self)@.captures(colour.opposite()),
            final(self)@.grid == old(self)@.grid,
            final(self)@.turn == old(self)@.turn,
            final(self)@.check == old(self)@.check,
    {
        match colour {
            Colour::White => self.white_cap.push(piece),
            Colour::Black => self.black_cap.push(piece),
        }
        proof {
            let taken = old(self)@.captures(colour);
            assert forall|i: int| 0 <= i < taken.len() + 1 implies !(#[trigger] taken.push(
                piece,
            )[i]).is_empty() by {
                if i < taken.len() {
                    assert(!taken[i].is_empty());
                }
            }
        }
    }
}

/// The piece that starts a game on the square `(row, col)`, if any.
fn starting_piece(row: usize, col: usize) -> (p: PieceType)
    requires
        row < 8,
        col < 8,
    ensures
        p == initial_square(row as int, col as int),
{
    if row == 0 {
        back_rank(col, Colour::White, row)
    } else if row == 1 {
        PieceType::Pawn(Pawn::config(row, col, Colour::White))
    } else if row == 6 {
        PieceType::Pawn(Pawn::config(row, col, Colour::Black))
    } else if row == 7 {
        back_rank(col, Colour::Black, row)
    } else {
        PieceType::Empty
    }
}

/// The piece of side `colour` that starts on file `col` of its back rank,
/// standing on rank `row`.
fn back_rank(col: usize, colour: Colour, row: usize) -> (p: PieceType)
    requires
        col < 8,
    ensures
        p == back_rank_piece(col as int, colour, Position { row, col }),
{
    if col == 0 || col == 7 {
        PieceType::Rook(Rook::config(row, col, colour))
    } else if col == 1 || col == 6 {
        PieceType::Knight(Knight::config(row, col, colour))
    } else if col == 2 || col == 5 {
        PieceType::Bishop(Bishop::config(row, col, colour))
    } else if col == 3 {
        PieceType::Queen(Queen::config(row, col, colour))
    } else {
        PieceType::King(King::config(row, col, colour))
    }
}

} // verus!
