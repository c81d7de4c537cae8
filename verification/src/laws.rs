//! Laws of the game that follow from the rules: what always holds of kings,
//! captures, moves taken back, open lines and pawns at the end of their march.

use vstd::prelude::*;

use crate::board::{BoardView, GameState};
use crate::lines::{
    free_square, hop, lemma_ray_hits_king, lemma_sweep_hits_king, lemma_unit_hop, open_line,
    strictly_between,
};
use crate::moves::{Move, MoveSetView};
use crate::pieces::{Colour, Pawn, PieceType, Position};
use crate::rules::{
    after_move, all_lines, board_text, can_move, candidates, first_king, game_state, hits_king,
    in_check, initial_grid, initial_text, king_at, legal, lemma_candidates_fair, lemma_grid_equal,
    move_set, on_board, one_king_each, pawn_moves, placed, sole_king, straight_lines, sweep,
    threatens, well_shaped, Grid,
};

verus! {

/// Where a side has a single king, the first king met in reading order is
/// that king: looking for the king finds the square it stands on, and no
/// other.
pub proof fn lemma_sole_king_is_first(g: Grid, side: Colour, r: int, c: int)
    requires
        sole_king(g, side, r, c),
    ensures
        forall|r2: int, c2: int| first_king(g, side, r2, c2) <==> (r2 == r && c2 == c),
{
}

/// At the start of a game White's only king stands on `(0, 4)` and Black's
/// on `(7, 4)`.
pub proof fn lemma_initial_kings()
    ensures
        sole_king(initial_grid(), Colour::White, 0, 4),
        sole_king(initial_grid(), Colour::Black, 7, 4),
        one_king_each(initial_grid()),
{
    let g = initial_grid();
    assert(king_at(g, Colour::White, 0, 4));
    assert(king_at(g, Colour::Black, 7, 4));
    assert(sole_king(g, Colour::White, 0, 4));
    assert(sole_king(g, Colour::Black, 7, 4));
}

/// The board at the start of a game prints as Black's back rank and pawns,
/// four empty ranks, then White's pawns and back rank.
pub proof fn lemma_initial_text()
    ensures
        board_text(initial_grid()) == initial_text(),
{
    reveal_strlit(
        "|r|n|b|q|k|b|n|r|\n|p|p|p|p|p|p|p|p|\n| | | | | | | | |\n| | | | | | | | |\n| | | | | | | | |\n| | | | | | | | |\n|P|P|P|P|P|P|P|P|\n|R|N|B|Q|K|B|N|R|\n",
    );
    let text = board_text(initial_grid());
    assert(initial_text().len() == 144);
    assert forall|k: int| 0 <= k < 144 implies text[k] == initial_text()[k] by {
        let rank = 7 - k / 18;
        let within = k % 18;
        assert(0 <= rank < 8 && 0 <= within < 18);
    }
    assert(text =~= initial_text());
}

/// A legal move never ends on a king, nor on a piece of the mover's side.
pub proof fn lemma_legal_target(g: Grid, side: Colour, m: Move)
    requires
        placed(g),
        legal(g, side, m),
    ensures
        !g[m.target.0 as int][m.target.1 as int].is_king(),
        g[m.target.0 as int][m.target.1 as int].colour() != Some(side),
        m.origin != m.target,
{
    let piece = g[m.origin.0 as int][m.origin.1 as int];
    assert(on_board(m.origin.0 as int, m.origin.1 as int));
    lemma_candidates_fair(g, piece);
    let moves = move_set(g, piece).moves;
    let q = choose|q: int| 0 <= q < moves.len() && moves[q] == m;
    assert(candidates(g, piece)[q] == m);
}

/// A legal move on a board where each side has exactly one king leaves each
/// side with exactly one king.
pub proof fn lemma_legal_move_keeps_kings(g: Grid, side: Colour, m: Move)
    requires
        well_shaped(g),
        placed(g),
        one_king_each(g),
        legal(g, side, m),
    ensures
        one_king_each(after_move(g, m)),
{
    lemma_legal_target(g, side, m);
    lemma_king_survives(g, Colour::White, m);
    lemma_king_survives(g, Colour::Black, m);
}

/// A move that does not end on a king, and does not stay where it is, leaves
/// `whose` with a single king if it had a single king.
proof fn lemma_king_survives(g: Grid, whose: Colour, m: Move)
    requires
        well_shaped(g),
        m.on_board(),
        m.origin != m.target,
        !g[m.target.0 as int][m.target.1 as int].is_king(),
        exists|r: int, c: int| sole_king(g, whose, r, c),
    ensures
        exists|r: int, c: int| sole_king(after_move(g, m), whose, r, c),
{
    let h = after_move(g, m);
    let (kr, kc) = choose|r: int, c: int| sole_king(g, whose, r, c);
    let (or, oc) = (m.origin.0 as int, m.origin.1 as int);
    let (tr, tc) = (m.target.0 as int, m.target.1 as int);
    assert forall|r: int, c: int| on_board(r, c) && !(r == or && c == oc) && !(r == tr && c
        == tc) implies h[r][c] == g[r][c] by {}
    assert(h[or][oc] == PieceType::Empty);
    assert(h[tr][tc] == g[or][oc].moved_to(Position { row: m.target.0, col: m.target.1 }));
    if kr == or && kc == oc {
        assert(king_at(h, whose, tr, tc));
        assert forall|r2: int, c2: int| king_at(h, whose, r2, c2) implies r2 == tr && c2
            == tc by {
            if !(r2 == tr && c2 == tc) && !(r2 == or && c2 == oc) {
                assert(king_at(g, whose, r2, c2));
            }
        }
        assert(sole_king(h, whose, tr, tc));
    } else {
        assert(king_at(h, whose, kr, kc));
        assert forall|r2: int, c2: int| king_at(h, whose, r2, c2) implies r2 == kr && c2
            == kc by {
            if r2 == tr && c2 == tc {
                assert(king_at(g, whose, or, oc));
            } else if !(r2 == or && c2 == oc) {
                assert(king_at(g, whose, r2, c2));
            }
        }
        assert(sole_king(h, whose, kr, kc));
    }
}

/// After a move onto an occupied square, the piece that stood there is the
/// newest entry of the mover's capture list, the older entries are as they
/// were, the other side's list is untouched, and the target square holds the
/// mover.
pub proof fn lemma_capture_recorded(b: BoardView, m: Move)
    requires
        b.wf(),
        m.on_board(),
        !b.victim(m).is_empty(),
    ensures
        b.after(m).captures(b.turn) == b.captures(b.turn).push(b.victim(m)),
        b.after(m).captures(b.turn).last() == b.victim(m),
        b.after(m).captures(b.turn).drop_last() == b.captures(b.turn),
        b.after(m).captures(b.turn.opposite()) == b.captures(b.turn.opposite()),
        b.after(m).victim(m) == b.mover(m).moved_to(
            Position { row: m.target.0, col: m.target.1 },
        ),
{
}

/// After a move onto an empty square, both capture lists are as they were.
pub proof fn lemma_quiet_move_captures_nothing(b: BoardView, m: Move)
    requires
        b.victim(m).is_empty(),
    ensures
        b.after(m).white == b.white,
        b.after(m).black == b.black,
{
}

/// A move onto an empty square followed by the move back restores the board:
/// every square, the side to move, the check flag and both capture lists.
/// The move back passes the first checks whenever the move itself did.
pub proof fn lemma_round_trip(b: BoardView, m: Move)
    requires
        b.wf(),
        m.on_board(),
        b.victim(m).is_empty(),
    ensures
        b.after(m).after(m.inverse()) == b,
        b.gate(m) is Ok ==> b.after(m).gate(m.inverse()) is Ok,
{
    let g = b.grid;
    let back = after_move(after_move(g, m), m.inverse());
    assert(on_board(m.origin.0 as int, m.origin.1 as int));
    assert(on_board(m.target.0 as int, m.target.1 as int));
    assert forall|r: int, c: int| on_board(r, c) implies back[r][c] == g[r][c] by {}
    lemma_grid_equal(back, g);
}

/// A rook or a queen that shares a rank or a file with the enemy king, with
/// nothing standing between them, gives check: the game is then in check for
/// the king's side, or in checkmate when that side has no legal move.
pub proof fn lemma_open_line_checks(g: Grid, side: Colour, r: int, c: int, kr: int, kc: int)
    requires
        well_shaped(g),
        placed(g),
        open_line(g, r, c, kr, kc),
        g[r][c] is Rook || g[r][c] is Queen,
        g[r][c].colour() == Some(side.opposite()),
        king_at(g, side, kr, kc),
    ensures
        threatens(g, r, c),
        in_check(g, side),
        game_state(g, side) == GameState::Check(side) || game_state(g, side)
            == GameState::Checkmate(side),
        can_move(g, side) ==> game_state(g, side) == GameState::Check(side),
{
    let at = Position { row: r as usize, col: c as usize };
    let attacker = side.opposite();
    let dr: int = if kr > r { 1 } else if kr < r { -1 } else { 0 };
    let dc: int = if kc > c { 1 } else if kc < c { -1 } else { 0 };
    let k: int = if kr > r { kr - r } else if kr < r { r - kr } else if kc > c { kc - c } else { c - kc };
    assert forall|j: int| 1 <= j < k implies #[trigger] free_square(
        g,
        hop(r, dr, j),
        hop(c, dc, j),
    ) by {
        lemma_unit_hop(r, dr, j);
        lemma_unit_hop(c, dc, j);
        assert(strictly_between(hop(r, dr, j), r, kr));
        assert(strictly_between(hop(c, dc, j), c, kc));
    }
    lemma_unit_hop(r, dr, k);
    lemma_unit_hop(c, dc, k);
    assert(on_board(hop(r, dr, k), hop(c, dc, k)));
    lemma_ray_hits_king(g, attacker, (at.row, at.col), r, c, dr, dc, 7);
    let lines = if g[r][c] is Rook { straight_lines() } else { all_lines() };
    let i: int = if dr == 1 { 0 } else if dr == -1 { 1 } else if dc == 1 { 2 } else { 3 };
    assert(lines[i].0 as int == dr && lines[i].1 as int == dc);
    assert(g[r][c].position() == Some(at));
    lemma_sweep_hits_king(g, attacker, at, lines, 7);
    assert(candidates(g, g[r][c]) == sweep(g, attacker, at, lines, 7));
    assert(threatens(g, r, c));
}

/// A pawn that has reached the last rank of its march has no move and
/// threatens nothing: it stays where it is, a pawn.
pub proof fn lemma_pawn_on_last_rank(g: Grid, colour: Colour, col: usize)
    ensures
        ({
            let at = Position { row: if colour == Colour::White { 7 } else { 0 }, col };
            &&& pawn_moves(g, colour, at) == Seq::<Move>::empty()
            &&& move_set(g, PieceType::Pawn(Pawn { colour, pos: at })) == (MoveSetView {
                checking: false,
                moves: Seq::empty(),
            })
        }),
{
}

/// A move set signals check exactly when a candidate move of the piece ends
/// on a king, and it then holds no move; else it holds every candidate move.
pub proof fn lemma_threat_or_moves(g: Grid, piece: PieceType)
    ensures
        move_set(g, piece).checking <==> hits_king(g, candidates(g, piece)),
        move_set(g, piece).checking ==> move_set(g, piece).moves.len() == 0,
        !move_set(g, piece).checking ==> move_set(g, piece).moves == candidates(g, piece),
{
}

} // verus!
