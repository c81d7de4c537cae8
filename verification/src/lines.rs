//! Lines of sight: what a piece that travels in a straight line reaches, said
//! square by square, and what that means for the king at the end of the line.

use vstd::prelude::*;

use crate::moves::Move;
use crate::pieces::{Colour, Position};
use crate::rules::{hits_king, on_board, ray_moves, step, sweep, Grid};

verus! {

/// The coordinate `j` steps of size `d` away from `x`.
#[verifier::opaque]
pub open spec fn hop(x: int, d: int, j: int) -> int {
    x + j * d
}

/// One hop is one step; hopping `j` times from one step further on is
/// hopping `j + 1` times.
pub proof fn lemma_hop_on(x: int, d: int, j: int)
    ensures
        hop(x, d, 1) == x + d,
        hop(x + d, d, j) == hop(x, d, j + 1),
{
    reveal(hop);
    assert((j + 1) * d == j * d + d) by (nonlinear_arith);
}

/// Hops of size 1, 0 and -1 add `j`, nothing and `-j`.
pub proof fn lemma_unit_hop(x: int, d: int, j: int)
    requires
        -1 <= d <= 1,
    ensures
        hop(x, d, j) == if d == 1 {
            x + j
        } else if d == 0 {
            x
        } else {
            x - j
        },
{
    reveal(hop);
    assert(j * d == if d == 1 {
        j
    } else if d == 0 {
        0
    } else {
        -j
    }) by (nonlinear_arith)
        requires
            -1 <= d <= 1,
    ;
}

/// The square `(r, c)` is on the board and empty.
pub open spec fn free_square(g: Grid, r: int, c: int) -> bool {
    on_board(r, c) && g[r][c].is_empty()
}

/// From `(r, c)`, the first `k - 1` squares in steps of `(dr, dc)` are on the
/// board and empty.
pub open spec fn clear_run(g: Grid, r: int, c: int, dr: int, dc: int, k: nat) -> bool {
    forall|j: int| 1 <= j < k ==> #[trigger] free_square(g, hop(r, dr, j), hop(c, dc, j))
}

/// `x` is `a`, where `a` and `b` are the same, or lies strictly between
/// them, where they are not.
pub open spec fn strictly_between(x: int, a: int, b: int) -> bool {
    if a == b {
        x == a
    } else {
        (a < x < b) || (b < x < a)
    }
}

/// The squares `(r1, c1)` and `(r2, c2)` are two squares of one rank or of
/// one file, and every square strictly between them is empty.
pub open spec fn open_line(g: Grid, r1: int, c1: int, r2: int, c2: int) -> bool {
    &&& on_board(r1, c1)
    &&& on_board(r2, c2)
    &&& (r1 == r2) != (c1 == c2)
    &&& forall|r: int, c: int|
        strictly_between(r, r1, r2) && strictly_between(c, c1, c2) ==> (#[trigger] g[r][c]).is_empty()
}

/// What the move at place `i` of a ray is: it goes `i + 1` steps from the
/// ray's start, over squares that are all empty, onto a square of the board
/// that does not hold a piece of the mover's side.
pub proof fn lemma_ray_shape(
    g: Grid,
    colour: Colour,
    origin: (usize, usize),
    r: int,
    c: int,
    dr: int,
    dc: int,
    reach: nat,
    i: int,
)
    requires
        0 <= i < ray_moves(g, colour, origin, r, c, dr, dc, reach).len(),
    ensures
        i < reach,
        clear_run(g, r, c, dr, dc, (i + 1) as nat),
        on_board(hop(r, dr, i + 1), hop(c, dc, i + 1)),
        g[hop(r, dr, i + 1)][hop(c, dc, i + 1)].colour() != Some(colour),
        ray_moves(g, colour, origin, r, c, dr, dc, reach)[i] == step(
            origin,
            hop(r, dr, i + 1),
            hop(c, dc, i + 1),
        ),
    decreases reach,
{
    let nr = r + dr;
    let nc = c + dc;
    lemma_hop_on(r, dr, i);
    lemma_hop_on(c, dc, i);
    if i > 0 {
        lemma_ray_shape(g, colour, origin, nr, nc, dr, dc, (reach - 1) as nat, i - 1);
        assert forall|j: int| 1 <= j < i + 1 implies #[trigger] free_square(
            g,
            hop(r, dr, j),
            hop(c, dc, j),
        ) by {
            lemma_hop_on(r, dr, j - 1);
            lemma_hop_on(c, dc, j - 1);
            if j > 1 {
                assert(free_square(g, hop(nr, dr, j - 1), hop(nc, dc, j - 1)));
            }
        }
    }
}

/// A ray reaches every square of the board that lies within its reach at the
/// end of a run of empty squares and does not hold a piece of the mover's
/// side.
pub proof fn lemma_ray_reaches(
    g: Grid,
    colour: Colour,
    origin: (usize, usize),
    r: int,
    c: int,
    dr: int,
    dc: int,
    reach: nat,
    k: nat,
)
    requires
        1 <= k <= reach,
        clear_run(g, r, c, dr, dc, k),
        on_board(hop(r, dr, k as int), hop(c, dc, k as int)),
        g[hop(r, dr, k as int)][hop(c, dc, k as int)].colour() != Some(colour),
    ensures
        k <= ray_moves(g, colour, origin, r, c, dr, dc, reach).len(),
        ray_moves(g, colour, origin, r, c, dr, dc, reach)[k - 1] == step(
            origin,
            hop(r, dr, k as int),
            hop(c, dc, k as int),
        ),
    decreases k,
{
    let nr = r + dr;
    let nc = c + dc;
    lemma_hop_on(r, dr, k - 1);
    lemma_hop_on(c, dc, k - 1);
    if k > 1 {
        assert(free_square(g, hop(r, dr, 1), hop(c, dc, 1)));
        assert forall|j: int| 1 <= j < k - 1 implies #[trigger] free_square(
            g,
            hop(nr, dr, j),
            hop(nc, dc, j),
        ) by {
            lemma_hop_on(r, dr, j);
            lemma_hop_on(c, dc, j);
            assert(free_square(g, hop(r, dr, j + 1), hop(c, dc, j + 1)));
        }
        lemma_ray_reaches(g, colour, origin, nr, nc, dr, dc, (reach - 1) as nat, (k - 1) as nat);
    }
}

/// A list made of two lists holds a move onto a king exactly when one of the
/// two does.
pub proof fn lemma_hits_king_concat(g: Grid, a: Seq<Move>, b: Seq<Move>)
    ensures
        hits_king(g, a + b) <==> hits_king(g, a) || hits_king(g, b),
{
    let ab = a + b;
    if hits_king(g, a) {
        let i = choose|i: int|
            0 <= i < a.len() && g[(#[trigger] a[i]).target.0 as int][a[i].target.1 as int].is_king();
        assert(ab[i] == a[i]);
    }
    if hits_king(g, b) {
        let i = choose|i: int|
            0 <= i < b.len() && g[(#[trigger] b[i]).target.0 as int][b[i].target.1 as int].is_king();
        assert(ab[a.len() + i] == b[i]);
    }
    if hits_king(g, ab) {
        let i = choose|i: int|
            0 <= i < ab.len() && g[(#[trigger] ab[i]).target.0 as int][ab[i].target.1 as int].is_king();
        if i < a.len() {
            assert(a[i] == ab[i]);
        } else {
            assert(b[i - a.len()] == ab[i]);
        }
    }
}

/// A ray holds a move onto a king exactly when, within its reach and at the
/// end of a run of empty squares, it finds a king that is not of the mover's
/// side.
pub proof fn lemma_ray_hits_king(
    g: Grid,
    colour: Colour,
    origin: (usize, usize),
    r: int,
    c: int,
    dr: int,
    dc: int,
    reach: nat,
)
    ensures
        hits_king(g, ray_moves(g, colour, origin, r, c, dr, dc, reach)) <==> exists|k: int|
            1 <= k <= reach && clear_run(g, r, c, dr, dc, k as nat) && #[trigger] on_board(
                hop(r, dr, k),
                hop(c, dc, k),
            ) && g[hop(r, dr, k)][hop(c, dc, k)].is_king() && g[hop(r, dr, k)][hop(
                c,
                dc,
                k,
            )].colour() != Some(colour),
{
    let ray = ray_moves(g, colour, origin, r, c, dr, dc, reach);
    if hits_king(g, ray) {
        let i = choose|i: int|
            0 <= i < ray.len() && g[(#[trigger] ray[i]).target.0 as int][ray[i].target.1 as int].is_king();
        lemma_ray_shape(g, colour, origin, r, c, dr, dc, reach, i);
        assert(on_board(hop(r, dr, i + 1), hop(c, dc, i + 1)));
    }
    if exists|k: int|
        1 <= k <= reach && clear_run(g, r, c, dr, dc, k as nat) && #[trigger] on_board(
            hop(r, dr, k),
            hop(c, dc, k),
        ) && g[hop(r, dr, k)][hop(c, dc, k)].is_king() && g[hop(r, dr, k)][hop(c, dc, k)].colour()
            != Some(colour) {
        let k = choose|k: int|
            1 <= k <= reach && clear_run(g, r, c, dr, dc, k as nat) && #[trigger] on_board(
                hop(r, dr, k),
                hop(c, dc, k),
            ) && g[hop(r, dr, k)][hop(c, dc, k)].is_king() && g[hop(r, dr, k)][hop(
                c,
                dc,
                k,
            )].colour() != Some(colour);
        lemma_ray_reaches(g, colour, origin, r, c, dr, dc, reach, k as nat);
        let m = ray[k - 1];
        assert(g[m.target.0 as int][m.target.1 as int].is_king());
    }
}

/// A sweep holds a move onto a king exactly when the ray along one of its
/// directions does.
pub proof fn lemma_sweep_hits_king(
    g: Grid,
    colour: Colour,
    at: Position,
    dirs: Seq<(i8, i8)>,
    reach: nat,
)
    ensures
        hits_king(g, sweep(g, colour, at, dirs, reach)) <==> exists|i: int|
            0 <= i < dirs.len() && hits_king(
                g,
                ray_moves(
                    g,
                    colour,
                    (at.row, at.col),
                    at.row as int,
                    at.col as int,
                    (#[trigger] dirs[i]).0 as int,
                    dirs[i].1 as int,
                    reach,
                ),
            ),
    decreases dirs.len(),
{
    if dirs.len() > 0 {
        let init = dirs.drop_last();
        let last_ray = ray_moves(
            g,
            colour,
            (at.row, at.col),
            at.row as int,
            at.col as int,
            dirs.last().0 as int,
            dirs.last().1 as int,
            reach,
        );
        lemma_hits_king_concat(g, sweep(g, colour, at, init, reach), last_ray);
        lemma_sweep_hits_king(g, colour, at, init, reach);
        if hits_king(g, sweep(g, colour, at, init, reach)) {
            let i = choose|i: int|
                0 <= i < init.len() && hits_king(
                    g,
                    ray_moves(
                        g,
                        colour,
                        (at.row, at.col),
                        at.row as int,
                        at.col as int,
                        (#[trigger] init[i]).0 as int,
                        init[i].1 as int,
                        reach,
                    ),
                );
            assert(dirs[i] == init[i]);
        }
        if hits_king(g, last_ray) {
            assert(dirs[dirs.len() - 1] == dirs.last());
        }
        if exists|i: int|
            0 <= i < dirs.len() && hits_king(
                g,
                ray_moves(
                    g,
                    colour,
                    (at.row, at.col),
                    at.row as int,
                    at.col as int,
                    (#[trigger] dirs[i]).0 as int,
                    dirs[i].1 as int,
                    reach,
                ),
            ) {
            let i = choose|i: int|
                0 <= i < dirs.len() && hits_king(
                    g,
                    ray_moves(
                        g,
                        colour,
                        (at.row, at.col),
                        at.row as int,
                        at.col as int,
                        (#[trigger] dirs[i]).0 as int,
                        dirs[i].1 as int,
                        reach,
                    ),
                );
            if i < init.len() {
                assert(init[i] == dirs[i]);
            }
        }
    }
}

} // verus!
