//! The rules of movement, as mathematics over a grid of squares.
//!
//! Nothing here runs: these are the definitions that the contracts of the
//! board and of the pieces are stated in, with the lemmas that the code that
//! runs leans on.

use vstd::prelude::*;

use crate::board::GameState;
use crate::moves::{Move, MoveSetView};
use crate::pieces::{Bishop, Colour, King, Knight, Pawn, PieceType, Position, Queen, Rook};

verus! {

/// The squares of a board: eight ranks of eight squares each, rank 0 first.
pub type Grid = Seq<Seq<PieceType>>;

/// The square `(r, c)` lies on the 8x8 board.
pub open spec fn on_board(r: int, c: int) -> bool {
    0 <= r < 8 && 0 <= c < 8
}

/// The grid has eight ranks of eight squares.
pub open spec fn well_shaped(g: Grid) -> bool {
    g.len() == 8 && forall|r: int| 0 <= r < 8 ==> (#[trigger] g[r]).len() == 8
}

/// Every piece on the grid stores the coordinates of the square it stands on.
pub open spec fn placed(g: Grid) -> bool {
    forall|r: int, c: int|
        on_board(r, c) ==> {
            let p = #[trigger] g[r][c];
            p.is_empty() || p.position() == Some(Position { row: r as usize, col: c as usize })
        }
}

/// The grid with the square `(r, c)` replaced by `p`.
pub open spec fn with_square(g: Grid, r: int, c: int, p: PieceType) -> Grid {
    g.update(r, g[r].update(c, p))
}

/// Two grids of eight by eight squares that agree square by square are the
/// same grid.
pub proof fn lemma_grid_equal(a: Grid, b: Grid)
    requires
        well_shaped(a),
        well_shaped(b),
        forall|r: int, c: int| on_board(r, c) ==> a[r][c] == b[r][c],
    ensures
        a == b,
{
    assert forall|r: int| 0 <= r < 8 implies a[r] == b[r] by {
        assert forall|c: int| 0 <= c < 8 implies a[r][c] == b[r][c] by {
            assert(on_board(r, c));
        }
        assert(a[r] =~= b[r]);
    }
    assert(a =~= b);
}

/// The grid with no piece on it.
pub open spec fn empty_grid() -> Grid {
    Seq::new(8, |r: int| Seq::new(8, |c: int| PieceType::Empty))
}

/// The piece that starts on file `c` of a back rank.
pub open spec fn back_rank_piece(c: int, colour: Colour, pos: Position) -> PieceType {
    if c == 0 || c == 7 {
        PieceType::Rook(Rook { colour, pos })
    } else if c == 1 || c == 6 {
        PieceType::Knight(Knight { colour, pos })
    } else if c == 2 || c == 5 {
        PieceType::Bishop(Bishop { colour, pos })
    } else if c == 3 {
        PieceType::Queen(Queen { colour, pos })
    } else {
        PieceType::King(King { colour, pos })
    }
}

/// What the square `(r, c)` holds when a game starts: White's back rank on
/// rank 0 and pawns on rank 1, Black's pawns on rank 6 and back rank on rank
/// 7, nothing in between.
pub open spec fn initial_square(r: int, c: int) -> PieceType {
    let pos = Position { row: r as usize, col: c as usize };
    if r == 0 {
        back_rank_piece(c, Colour::White, pos)
    } else if r == 1 {
        PieceType::Pawn(Pawn { colour: Colour::White, pos })
    } else if r == 6 {
        PieceType::Pawn(Pawn { colour: Colour::Black, pos })
    } else if r == 7 {
        back_rank_piece(c, Colour::Black, pos)
    } else {
        PieceType::Empty
    }
}

/// The grid at the start of a game.
pub open spec fn initial_grid() -> Grid {
    Seq::new(8, |r: int| Seq::new(8, |c: int| initial_square(r, c)))
}

/// The character at place `k` of the printed board. Each rank takes 18
/// characters: a bar, then for each file the letter of its square and a bar,
/// then a line feed. Rank 7 is printed first.
pub open spec fn text_char(g: Grid, k: int) -> char {
    let rank = 7 - k / 18;
    let within = k % 18;
    if within == 17 {
        '\n'
    } else if within % 2 == 0 {
        '|'
    } else {
        g[rank][within / 2].as_char()
    }
}

/// The first `n` characters of the printed board.
pub open spec fn text_upto(g: Grid, n: int) -> Seq<char> {
    Seq::new(n as nat, |k: int| text_char(g, k))
}

/// The printed board: eight lines, one per rank from rank 7 down to rank 0,
/// each square between bars, with `PRNBQK` for White's pieces, `prnbqk` for
/// Black's and a space for an empty square.
pub open spec fn board_text(g: Grid) -> Seq<char> {
    text_upto(g, 144)
}

/// The printed board at the start of a game.
pub open spec fn initial_text() -> Seq<char> {
    "|r|n|b|q|k|b|n|r|\n|p|p|p|p|p|p|p|p|\n| | | | | | | | |\n| | | | | | | | |\n| | | | | | | | |\n| | | | | | | | |\n|P|P|P|P|P|P|P|P|\n|R|N|B|Q|K|B|N|R|\n"@
}

/// No square of the grid holds a piece.
pub open spec fn all_empty(g: Grid) -> bool {
    forall|r: int, c: int| on_board(r, c) ==> (#[trigger] g[r][c]).is_empty()
}

/// None of the entries is an empty square.
pub open spec fn all_pieces(taken: Seq<PieceType>) -> bool {
    forall|i: int| 0 <= i < taken.len() ==> !(#[trigger] taken[i]).is_empty()
}

/// The square `(r, c)` holds the king of `side`.
pub open spec fn king_at(g: Grid, side: Colour, r: int, c: int) -> bool {
    on_board(r, c) && g[r][c].is_king() && g[r][c].colour() == Some(side)
}

/// Some square holds a king of `side`.
pub open spec fn has_king(g: Grid, side: Colour) -> bool {
    exists|r: int, c: int| king_at(g, side, r, c)
}

/// The square `(r1, c1)` comes before `(r2, c2)` when the board is read rank
/// by rank from rank 0, each rank from file 0.
pub open spec fn comes_before(r1: int, c1: int, r2: int, c2: int) -> bool {
    r1 < r2 || (r1 == r2 && c1 < c2)
}

/// The square `(r, c)` holds a king of `side`, and no square before it does.
pub open spec fn first_king(g: Grid, side: Colour, r: int, c: int) -> bool {
    &&& king_at(g, side, r, c)
    &&& forall|r2: int, c2: int|
        on_board(r2, c2) && comes_before(r2, c2, r, c) ==> !king_at(g, side, r2, c2)
}

/// The square `(r, c)` holds the one and only king of `side`.
pub open spec fn sole_king(g: Grid, side: Colour, r: int, c: int) -> bool {
    &&& king_at(g, side, r, c)
    &&& forall|r2: int, c2: int| king_at(g, side, r2, c2) ==> r2 == r && c2 == c
}

/// Each side has exactly one king on the grid.
pub open spec fn one_king_each(g: Grid) -> bool {
    &&& exists|r: int, c: int| sole_king(g, Colour::White, r, c)
    &&& exists|r: int, c: int| sole_king(g, Colour::Black, r, c)
}

/// The move from `origin` to the square `(r, c)`.
pub open spec fn step(origin: (usize, usize), r: int, c: int) -> Move {
    Move { origin, target: (r as usize, c as usize) }
}

/// The moves of a piece of side `colour` that travels from `(r, c)` in steps
/// of `(dr, dc)`, at most `reach` steps, nearest target first. It passes over
/// empty squares and stops at the edge of the board or at the first piece in
/// its way; that piece's square is a target when the piece is an enemy.
/// Every move carries `origin` as the square it starts from.
pub open spec fn ray_moves(
    g: Grid,
    colour: Colour,
    origin: (usize, usize),
    r: int,
    c: int,
    dr: int,
    dc: int,
    reach: nat,
) -> Seq<Move>
    decreases reach,
{
    let nr = r + dr;
    let nc = c + dc;
    if reach == 0 || !on_board(nr, nc) {
        Seq::empty()
    } else if g[nr][nc].is_empty() {
        seq![step(origin, nr, nc)] + ray_moves(
            g,
            colour,
            origin,
            nr,
            nc,
            dr,
            dc,
            (reach - 1) as nat,
        )
    } else if g[nr][nc].colour() != Some(colour) {
        seq![step(origin, nr, nc)]
    } else {
        Seq::empty()
    }
}

/// The moves of a piece of side `colour` on `at` that travels along each of
/// `dirs` in turn, up to `reach` steps along each.
pub open spec fn sweep(
    g: Grid,
    colour: Colour,
    at: Position,
    dirs: Seq<(i8, i8)>,
    reach: nat,
) -> Seq<Move>
    decreases dirs.len(),
{
    if dirs.len() == 0 {
        Seq::empty()
    } else {
        sweep(g, colour, at, dirs.drop_last(), reach) + ray_moves(
            g,
            colour,
            (at.row, at.col),
            at.row as int,
            at.col as int,
            dirs.last().0 as int,
            dirs.last().1 as int,
            reach,
        )
    }
}

/// Along the ranks and files: up, down, right, left.
pub open spec fn straight_lines() -> Seq<(i8, i8)> {
    seq![(1i8, 0i8), (-1i8, 0i8), (0i8, 1i8), (0i8, -1i8)]
}

/// Along the diagonals.
pub open spec fn diagonal_lines() -> Seq<(i8, i8)> {
    seq![(1i8, 1i8), (1i8, -1i8), (-1i8, 1i8), (-1i8, -1i8)]
}

/// Along ranks, files and diagonals.
pub open spec fn all_lines() -> Seq<(i8, i8)> {
    straight_lines() + diagonal_lines()
}

/// The eight jumps of a knight.
pub open spec fn knight_jumps() -> Seq<(i8, i8)> {
    seq![
        (2i8, 1i8),
        (2i8, -1i8),
        (-2i8, 1i8),
        (-2i8, -1i8),
        (1i8, 2i8),
        (1i8, -2i8),
        (-1i8, 2i8),
        (-1i8, -2i8),
    ]
}

/// The direction in which the pawns of `colour` advance: White up the ranks,
/// Black down.
pub open spec fn forward(colour: Colour) -> int {
    match colour {
        Colour::White => 1,
        Colour::Black => -1,
    }
}

/// The advance of a pawn from `origin` onto `(r, c)`: possible when the square
/// is on the board and empty.
pub open spec fn pawn_advance(g: Grid, origin: (usize, usize), r: int, c: int) -> Seq<Move> {
    if on_board(r, c) && g[r][c].is_empty() {
        seq![step(origin, r, c)]
    } else {
        Seq::empty()
    }
}

/// The capture by a pawn of side `colour` from `origin` onto `(r, c)`:
/// possible when the square is on the board and holds an enemy piece.
pub open spec fn pawn_capture(
    g: Grid,
    colour: Colour,
    origin: (usize, usize),
    r: int,
    c: int,
) -> Seq<Move> {
    if on_board(r, c) && !g[r][c].is_empty() && g[r][c].colour() != Some(colour) {
        seq![step(origin, r, c)]
    } else {
        Seq::empty()
    }
}

/// The moves of a pawn of side `colour` on `at`: one square straight ahead
/// when that square is empty, then the capture towards the higher file, then
/// the capture towards the lower file. A pawn on the last rank of its march
/// has none and stays a pawn.
pub open spec fn pawn_moves(g: Grid, colour: Colour, at: Position) -> Seq<Move> {
    let origin = (at.row, at.col);
    let r = at.row + forward(colour);
    pawn_advance(g, origin, r, at.col as int) + pawn_capture(g, colour, origin, r, at.col + 1)
        + pawn_capture(g, colour, origin, r, at.col - 1)
}

/// Every square that `piece` could move to by its pattern of movement on the
/// grid `g`, in the order they are generated. Whether the move would leave
/// the mover's own king attacked is not looked at.
pub open spec fn candidates(g: Grid, piece: PieceType) -> Seq<Move> {
    match piece {
        PieceType::Pawn(p) => pawn_moves(g, p.colour, p.pos),
        PieceType::Rook(p) => sweep(g, p.colour, p.pos, straight_lines(), 7),
        PieceType::Knight(p) => sweep(g, p.colour, p.pos, knight_jumps(), 1),
        PieceType::Bishop(p) => sweep(g, p.colour, p.pos, diagonal_lines(), 7),
        PieceType::Queen(p) => sweep(g, p.colour, p.pos, all_lines(), 7),
        PieceType::King(p) => sweep(g, p.colour, p.pos, all_lines(), 1),
        PieceType::Empty => Seq::empty(),
    }
}

/// Every move of the list ends on the board.
pub open spec fn targets_on_board(moves: Seq<Move>) -> bool {
    forall|i: int|
        0 <= i < moves.len() ==> (#[trigger] moves[i]).target.0 < 8 && moves[i].target.1 < 8
}

/// One of the moves ends on a square that holds a king.
pub open spec fn hits_king(g: Grid, moves: Seq<Move>) -> bool {
    exists|i: int|
        0 <= i < moves.len() && g[(#[trigger] moves[i]).target.0 as int][moves[i].target.1 as int].is_king()
}

/// Every move of the list starts from `origin`, ends on the board, and does
/// not end on a piece of side `colour`.
pub open spec fn fair_moves(
    g: Grid,
    colour: Colour,
    origin: (usize, usize),
    moves: Seq<Move>,
) -> bool {
    forall|i: int|
        0 <= i < moves.len() ==> {
            let m = #[trigger] moves[i];
            &&& m.origin == origin
            &&& m.target.0 < 8
            &&& m.target.1 < 8
            &&& g[m.target.0 as int][m.target.1 as int].colour() != Some(colour)
        }
}

/// The moves along a ray start from the ray's origin, stay on the board and
/// never end on a piece of the mover's side.
pub proof fn lemma_ray_fair(
    g: Grid,
    colour: Colour,
    origin: (usize, usize),
    r: int,
    c: int,
    dr: int,
    dc: int,
    reach: nat,
)
    ensures
        fair_moves(g, colour, origin, ray_moves(g, colour, origin, r, c, dr, dc, reach)),
    decreases reach,
{
    let nr = r + dr;
    let nc = c + dc;
    if reach > 0 && on_board(nr, nc) && g[nr][nc].is_empty() {
        lemma_ray_fair(g, colour, origin, nr, nc, dr, dc, (reach - 1) as nat);
    }
}

/// The moves of a sweep start from the piece's square, stay on the board and
/// never end on a piece of the mover's side.
pub proof fn lemma_sweep_fair(
    g: Grid,
    colour: Colour,
    at: Position,
    dirs: Seq<(i8, i8)>,
    reach: nat,
)
    ensures
        fair_moves(g, colour, (at.row, at.col), sweep(g, colour, at, dirs, reach)),
    decreases dirs.len(),
{
    if dirs.len() > 0 {
        lemma_sweep_fair(g, colour, at, dirs.drop_last(), reach);
        lemma_ray_fair(
            g,
            colour,
            (at.row, at.col),
            at.row as int,
            at.col as int,
            dirs.last().0 as int,
            dirs.last().1 as int,
            reach,
        );
    }
}

/// No candidate move of any piece leaves the board, and each candidate move
/// of a piece starts from the square the piece stores and does not end on a
/// piece of its own side.
pub proof fn lemma_candidates_fair(g: Grid, piece: PieceType)
    ensures
        targets_on_board(candidates(g, piece)),
        piece.position() matches Some(at) ==> fair_moves(
            g,
            piece.colour().unwrap(),
            (at.row, at.col),
            candidates(g, piece),
        ),
{
    match piece {
        PieceType::Pawn(p) => {},
        PieceType::Rook(p) => lemma_sweep_fair(g, p.colour, p.pos, straight_lines(), 7),
        PieceType::Knight(p) => lemma_sweep_fair(g, p.colour, p.pos, knight_jumps(), 1),
        PieceType::Bishop(p) => lemma_sweep_fair(g, p.colour, p.pos, diagonal_lines(), 7),
        PieceType::Queen(p) => lemma_sweep_fair(g, p.colour, p.pos, all_lines(), 7),
        PieceType::King(p) => lemma_sweep_fair(g, p.colour, p.pos, all_lines(), 1),
        PieceType::Empty => {},
    }
}

/// The move set made of a list of candidate moves: when one of them ends on
/// a king, the set that only signals the threat; else the candidates as they
/// are.
pub open spec fn sealed(g: Grid, moves: Seq<Move>) -> MoveSetView {
    if hits_king(g, moves) {
        MoveSetView { checking: true, moves: Seq::empty() }
    } else {
        MoveSetView { checking: false, moves }
    }
}

/// The move set of `piece` on the grid `g`.
pub open spec fn move_set(g: Grid, piece: PieceType) -> MoveSetView {
    sealed(g, candidates(g, piece))
}

/// The piece on `(r, c)` attacks a king. As a piece has no candidate move onto
/// a square held by its own side, that king is an enemy's.
pub open spec fn threatens(g: Grid, r: int, c: int) -> bool {
    hits_king(g, candidates(g, g[r][c]))
}

/// The king of `side` is attacked by a piece of the other side.
pub open spec fn in_check(g: Grid, side: Colour) -> bool {
    exists|r: int, c: int|
        on_board(r, c) && g[r][c].colour() == Some(side.opposite()) && #[trigger] threatens(
            g,
            r,
            c,
        )
}

/// The grid once the piece on the origin of `m` has been lifted and set down
/// on the target, whatever stood there before. The piece is told its new
/// square.
pub open spec fn after_move(g: Grid, m: Move) -> Grid {
    let piece = g[m.origin.0 as int][m.origin.1 as int];
    let lifted = with_square(g, m.origin.0 as int, m.origin.1 as int, PieceType::Empty);
    with_square(
        lifted,
        m.target.0 as int,
        m.target.1 as int,
        piece.moved_to(Position { row: m.target.0, col: m.target.1 }),
    )
}

/// The squares among the first `n` in reading order (rank by rank from rank
/// 0, each rank from file 0) that hold a piece of the enemy of `side`, in
/// that order.
pub open spec fn foes_among(g: Grid, side: Colour, n: nat) -> Seq<Position>
    decreases n,
{
    if n == 0 {
        Seq::empty()
    } else {
        let k = (n - 1) as nat;
        let before = foes_among(g, side, k);
        if g[k as int / 8][k as int % 8].colour() == Some(side.opposite()) {
            before.push(Position { row: (k / 8) as usize, col: (k % 8) as usize })
        } else {
            before
        }
    }
}

/// The squares that hold a piece of the enemy of `side`, in reading order.
pub open spec fn foes(g: Grid, side: Colour) -> Seq<Position> {
    foes_among(g, side, 64)
}

/// `foes_among` lists squares of the board that hold an enemy of `side`, and
/// misses none among the first `n` squares.
pub proof fn lemma_foes_among(g: Grid, side: Colour, n: nat)
    requires
        n <= 64,
    ensures
        forall|i: int|
            0 <= i < foes_among(g, side, n).len() ==> {
                let p = #[trigger] foes_among(g, side, n)[i];
                &&& p.on_board()
                &&& g[p.row as int][p.col as int].colour() == Some(side.opposite())
            },
        forall|r: int, c: int|
            on_board(r, c) && r * 8 + c < n && (#[trigger] g[r][c]).colour() == Some(
                side.opposite(),
            ) ==> foes_among(g, side, n).contains(Position { row: r as usize, col: c as usize }),
    decreases n,
{
    if n > 0 {
        let k = (n - 1) as nat;
        lemma_foes_among(g, side, k);
        let before = foes_among(g, side, k);
        let now = foes_among(g, side, n);
        let here = Position { row: (k / 8) as usize, col: (k % 8) as usize };
        assert forall|r: int, c: int|
            on_board(r, c) && r * 8 + c < n && (#[trigger] g[r][c]).colour() == Some(
                side.opposite(),
            ) implies now.contains(Position { row: r as usize, col: c as usize }) by {
            let p = Position { row: r as usize, col: c as usize };
            if r * 8 + c < k {
                let i = choose|i: int| 0 <= i < before.len() && before[i] == p;
                assert(now[i] == p);
            } else {
                assert(r == k as int / 8 && c == k as int % 8);
                assert(now == before.push(here));
                assert(now[before.len() as int] == p);
            }
        }
    }
}

/// A king is in check exactly when one of the enemy squares listed by `foes`
/// holds a piece that attacks it.
pub proof fn lemma_in_check_by_foes(g: Grid, side: Colour)
    ensures
        in_check(g, side) <==> exists|i: int|
            0 <= i < foes(g, side).len() && threatens(
                g,
                (#[trigger] foes(g, side)[i]).row as int,
                foes(g, side)[i].col as int,
            ),
{
    lemma_foes_among(g, side, 64);
    let list = foes(g, side);
    if in_check(g, side) {
        let (r, c) = choose|r: int, c: int|
            on_board(r, c) && g[r][c].colour() == Some(side.opposite()) && #[trigger] threatens(
                g,
                r,
                c,
            );
        let p = Position { row: r as usize, col: c as usize };
        assert(list.contains(p));
        let i = choose|i: int| 0 <= i < list.len() && list[i] == p;
        assert(threatens(g, list[i].row as int, list[i].col as int));
    }
    if exists|i: int|
        0 <= i < list.len() && threatens(g, (#[trigger] list[i]).row as int, list[i].col as int) {
        let i = choose|i: int|
            0 <= i < list.len() && threatens(
                g,
                (#[trigger] list[i]).row as int,
                list[i].col as int,
            );
        assert(on_board(list[i].row as int, list[i].col as int));
    }
}

/// The move `m` may be played by `side`: it starts from one of the pieces of
/// `side`, it is among the moves of that piece, and once it is made no enemy
/// piece attacks the king of `side`.
pub open spec fn legal(g: Grid, side: Colour, m: Move) -> bool {
    &&& m.on_board()
    &&& g[m.origin.0 as int][m.origin.1 as int].colour() == Some(side)
    &&& move_set(g, g[m.origin.0 as int][m.origin.1 as int]).moves.contains(m)
    &&& !in_check(after_move(g, m), side)
}

/// `side` has a move that it may play.
pub open spec fn can_move(g: Grid, side: Colour) -> bool {
    exists|m: Move| #[trigger] legal(g, side, m)
}

/// The state of the game for `side`, which is to move: in check or not, and
/// able to move or not.
pub open spec fn game_state(g: Grid, side: Colour) -> GameState {
    if in_check(g, side) {
        if can_move(g, side) {
            GameState::Check(side)
        } else {
            GameState::Checkmate(side)
        }
    } else {
        if can_move(g, side) {
            GameState::Neutral
        } else {
            GameState::Stalemate
        }
    }
}

/// Making a move on a grid keeps it 8x8 and keeps every piece aware of its
/// square.
pub proof fn lemma_after_move_placed(g: Grid, m: Move)
    requires
        well_shaped(g),
        placed(g),
        m.on_board(),
    ensures
        well_shaped(after_move(g, m)),
        placed(after_move(g, m)),
{
    let h = after_move(g, m);
    assert forall|r: int, c: int| on_board(r, c) implies {
        let p = #[trigger] h[r][c];
        p.is_empty() || p.position() == Some(Position { row: r as usize, col: c as usize })
    } by {
        assert(g[r][c].is_empty() || g[r][c].position() == Some(
            Position { row: r as usize, col: c as usize },
        ));
    }
}

} // verus!
