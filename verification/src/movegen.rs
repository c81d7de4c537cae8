//! Move generation shared by the pieces: casting rays over the board, and
//! turning a list of candidate moves into a move set.

use vstd::prelude::*;

use crate::board::Board;
use crate::moves::{lemma_move_stands_for_itself, Move, MoveSet};
use crate::pieces::{Colour, Position};
use crate::rules::{
    all_lines, diagonal_lines, knight_jumps, on_board, ray_moves, sealed, step, straight_lines,
    sweep, targets_on_board,
};

verus! {

/// The directions along ranks and files.
pub fn straight_dirs() -> (dirs: [(i8, i8); 4])
    ensures
        dirs@ == straight_lines(),
{
    let dirs: [(i8, i8); 4] = [(1, 0), (-1, 0), (0, 1), (0, -1)];
    assert(dirs@ =~= straight_lines());
    dirs
}

/// The directions along diagonals.
pub fn diagonal_dirs() -> (dirs: [(i8, i8); 4])
    ensures
        dirs@ == diagonal_lines(),
{
    let dirs: [(i8, i8); 4] = [(1, 1), (1, -1), (-1, 1), (-1, -1)];
    assert(dirs@ =~= diagonal_lines());
    dirs
}

/// The directions along ranks, files and diagonals.
pub fn all_dirs() -> (dirs: [(i8, i8); 8])
    ensures
        dirs@ == all_lines(),
{
    let dirs: [(i8, i8); 8] = [
        (1, 0),
        (-1, 0),
        (0, 1),
        (0, -1),
        (1, 1),
        (1, -1),
        (-1, 1),
        (-1, -1),
    ];
    assert(dirs@ =~= all_lines());
    dirs
}

/// The jumps of a knight.
pub fn knight_dirs() -> (dirs: [(i8, i8); 8])
    ensures
        dirs@ == knight_jumps(),
{
    let dirs: [(i8, i8); 8] = [
        (2, 1),
        (2, -1),
        (-2, 1),
        (-2, -1),
        (1, 2),
        (1, -2),
        (-1, 2),
        (-1, -2),
    ];
    assert(dirs@ =~= knight_jumps());
    dirs
}

/// Appends to `out` the moves of a piece of side `colour` that travels from
/// `from` in steps of `(dr, dc)`, at most `reach` steps.
pub fn cast_ray(
    board: &Board,
    colour: Colour,
    from: Position,
    dr: i8,
    dc: i8,
    reach: u8,
    out: &mut Vec<Move>,
)
    requires
        board.wf(),
        from.on_board(),
    ensures
        final(out)@ == old(out)@ + ray_moves(
            board@.grid,
            colour,
            (from.row, from.col),
            from.row as int,
            from.col as int,
            dr as int,
            dc as int,
            reach as nat,
        ),
{
    let ghost g = board@.grid;
    let ghost whole = old(out)@ + ray_moves(
        g,
        colour,
        (from.row, from.col),
        from.row as int,
        from.col as int,
        dr as int,
        dc as int,
        reach as nat,
    );
    let origin = (from.row, from.col);
    let mut r: i16 = from.row as i16;
    let mut c: i16 = from.col as i16;
    let mut left: u8 = reach;
    let mut open = true;
    while open && left > 0
        invariant
            board.wf(),
            g == board@.grid,
            origin == (from.row, from.col),
            on_board(r as int, c as int),
            open ==> out@ + ray_moves(
                g,
                colour,
                origin,
                r as int,
                c as int,
                dr as int,
                dc as int,
                left as nat,
            ) == whole,
            !open ==> out@ == whole,
        decreases (if open { 1int } else { 0int }), left,
    {
        let nr: i16 = r + dr as i16;
        let nc: i16 = c + dc as i16;
        if nr < 0 || nr >= 8 || nc < 0 || nc >= 8 {
            open = false;
        } else {
            let there = board.get(nr as usize, nc as usize);
            let ghost rest = ray_moves(
                g,
                colour,
                origin,
                nr as int,
                nc as int,
                dr as int,
                dc as int,
                (left - 1) as nat,
            );
            let m = Move::construct((nr as usize, nc as usize), origin);
            assert(m == step(origin, nr as int, nc as int));
            if there.is_empty() {
                assert((out@.push(m)) + rest == out@ + (seq![m] + rest));
                out.push(m);
                r = nr;
                c = nc;
                left = left - 1;
            } else {
                if !there.belongs_to(colour) {
                    assert(out@.push(m) == out@ + seq![m]);
                    out.push(m);
                }
                open = false;
            }
        }
    }
}

/// The moves of a piece of side `colour` on `from` that travels along each of
/// `dirs` in turn, up to `reach` steps along each.
pub fn sweep_moves(
    board: &Board,
    colour: Colour,
    from: Position,
    dirs: &[(i8, i8)],
    reach: u8,
) -> (out: Vec<Move>)
    requires
        board.wf(),
        from.on_board(),
    ensures
        out@ == sweep(board@.grid, colour, from, dirs@, reach as nat),
{
    let mut out: Vec<Move> = Vec::new();
    let mut i: usize = 0;
    while i < dirs.len()
        invariant
            board.wf(),
            from.on_board(),
            i <= dirs.len(),
            out@ == sweep(board@.grid, colour, from, dirs@.take(i as int), reach as nat),
        decreases dirs.len() - i,
    {
        let d = dirs[i];
        assert(dirs@.take(i + 1).drop_last() == dirs@.take(i as int));
        assert(dirs@.take(i + 1).last() == d);
        cast_ray(board, colour, from, d.0, d.1, reach, &mut out);
        i += 1;
    }
    assert(dirs@.take(i as int) == dirs@);
    out
}

/// The move set made of the candidate moves `moves`: the threat signal when
/// one of them ends on a king, else the moves as they are.
pub fn seal(board: &Board, moves: Vec<Move>) -> (set: MoveSet)
    requires
        board.wf(),
        targets_on_board(moves@),
    ensures
        set@ == sealed(board@.grid, moves@),
{
    let mut i: usize = 0;
    while i < moves.len()
        invariant
            board.wf(),
            i <= moves.len(),
            targets_on_board(moves@),
            forall|k: int|
                0 <= k < i ==> !board@.grid[(#[trigger] moves@[k]).target.0 as int][moves@[k].target.1 as int].is_king(),
        decreases moves.len() - i,
    {
        let m = moves[i];
        if board.get(m.target.0, m.target.1).is_king() {
            return MoveSet::check();
        }
        i += 1;
    }
    let ghost candidates = moves@;
    let set = MoveSet::from(moves);
    assert forall|k: int| 0 <= k < candidates.len() implies #[trigger] set@.moves[k]
        == candidates[k] by {
        lemma_move_stands_for_itself(&candidates[k], set@.moves[k]);
    }
    assert(set@.moves =~= candidates);
    set
}

} // verus!
