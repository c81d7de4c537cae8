//! Moves and the set of moves that a piece can make.

use vstd::prelude::*;

verus! {

/// Marks a type as a proposed move: it can name the square it goes to and
/// the square it leaves, each as `(row, col)`.
pub trait MoveMarker {
    /// The square moved to.
    fn target(&self) -> (usize, usize);

    /// The square moved from.
    fn origin(&self) -> (usize, usize);
}

/// A proposed move from `origin` to `target`. It carries no judgement on
/// whether it may be played.
#[derive(Clone, Copy, PartialEq, Eq, Debug)]
pub struct Move {
    pub target: (usize, usize),
    pub origin: (usize, usize),
}

impl Move {
    /// The move to `t` from `o`.
    pub fn construct(t: (usize, usize), o: (usize, usize)) -> (m: Self)
        ensures
            m == (Move { target: t, origin: o }),
    {
        Move { target: t, origin: o }
    }

    /// Both squares of the move lie on the 8x8 board.
    pub open spec fn on_board(self) -> bool {
        &&& self.origin.0 < 8
        &&& self.origin.1 < 8
        &&& self.target.0 < 8
        &&& self.target.1 < 8
    }

    /// The move back: origin and target exchanged.
    pub open spec fn spec_inverse(self) -> Move {
        Move { target: self.origin, origin: self.target }
    }

    /// The move back: origin and target exchanged.
    #[verifier::when_used_as_spec(spec_inverse)]
    pub fn inverse(self) -> (back: Move)
        ensures
            back == self.spec_inverse(),
    {
        Move { target: self.origin, origin: self.target }
    }

    /// True when both moves leave the same square for the same square.
    pub fn same_as(&self, other: &Move) -> (b: bool)
        ensures
            b == (*self == *other),
    {
        self.origin.0 == other.origin.0 && self.origin.1 == other.origin.1 && self.target.0
            == other.target.0 && self.target.1 == other.target.1
    }
}

impl MoveMarker for Move {
    fn target(&self) -> (t: (usize, usize))
        ensures
            t == self.target,
    {
        self.target
    }

    fn origin(&self) -> (o: (usize, usize))
        ensures
            o == self.origin,
    {
        self.origin
    }
}

/// `m` is a plain move that `item` stands for: its squares are what `item`
/// names as its target and its origin.
pub open spec fn stands_for<T: MoveMarker>(item: &T, m: Move) -> bool {
    call_ensures(T::target, (item,), m.target) && call_ensures(T::origin, (item,), m.origin)
}

/// A `Move` stands for no other move than itself.
pub proof fn lemma_move_stands_for_itself(item: &Move, m: Move)
    requires
        stands_for(item, m),
    ensures
        m == *item,
{
}

/// What a `MoveSet` holds: the moves in the order they were generated, and
/// whether the piece that produced the set threatens the opposing king.
pub struct MoveSetView {
    pub checking: bool,
    pub moves: Seq<Move>,
}

/// The moves that one piece can make from where it stands.
///
/// A set whose `is_checking` flag is raised carries no moves: it only says
/// that the piece attacks the opposing king. Read the flag before taking an
/// empty set to mean that the piece cannot move.
pub struct MoveSet {
    is_checking: bool,
    moves: Vec<Move>,
}

impl View for MoveSet {
    type V = MoveSetView;

    closed spec fn view(&self) -> MoveSetView {
        MoveSetView { checking: self.is_checking, moves: self.moves@ }
    }
}

impl Clone for MoveSet {
    fn clone(&self) -> (copy: Self)
        ensures
            copy@ == self@,
    {
        let mut moves: Vec<Move> = Vec::new();
        let mut i: usize = 0;
        while i < self.moves.len()
            invariant
                i <= self.moves.len(),
                moves@ == self.moves@.take(i as int),
            decreases self.moves.len() - i,
        {
            moves.push(self.moves[i]);
            i += 1;
        }
        assert(self.moves@.take(i as int) == self.moves@);
        MoveSet { is_checking: self.is_checking, moves }
    }
}

impl MoveSet {
    /// Collects the moves that `items` stand for, in order, into a set that is
    /// not checking.
    pub fn from<T: MoveMarker>(items: Vec<T>) -> (set: Self)
        ensures
            !set@.checking,
            set@.moves.len() == items@.len(),
            forall|i: int|
                0 <= i < items@.len() ==> stands_for(&items@[i], #[trigger] set@.moves[i]),
    {
        let mut moves: Vec<Move> = Vec::new();
        let mut i: usize = 0;
        while i < items.len()
            invariant
                i <= items.len(),
                moves@.len() == i,
                forall|k: int| 0 <= k < i ==> stands_for(&items@[k], #[trigger] moves@[k]),
            decreases items.len() - i,
        {
            moves.push(Move::construct(items[i].target(), items[i].origin()));
            i += 1;
        }
        MoveSet { is_checking: false, moves }
    }

    /// The set that holds no move and says that the piece attacks the opposing
    /// king.
    pub fn check() -> (set: Self)
        ensures
            set@.checking,
            set@.moves == Seq::<Move>::empty(),
    {
        MoveSet { is_checking: true, moves: Vec::new() }
    }

    /// The number of moves in the set.
    pub fn len(&self) -> (n: usize)
        ensures
            n == self@.moves.len(),
    {
        self.moves.len()
    }

    /// True when the set holds no move, whatever the flag says.
    pub fn is_empty(&self) -> (b: bool)
        ensures
            b == (self@.moves.len() == 0),
    {
        self.moves.len() == 0
    }

    /// True when the piece that produced the set attacks the opposing king.
    pub fn is_checking(&self) -> (b: bool)
        ensures
            b == self@.checking,
    {
        self.is_checking
    }

    /// The move at place `i` in generation order.
    pub fn get(&self, i: usize) -> (m: Move)
        requires
            i < self@.moves.len(),
        ensures
            m == self@.moves[i as int],
    {
        self.moves[i]
    }

    /// The moves as a slice, in generation order.
    pub fn as_slice(&self) -> (s: &[Move])
        ensures
            s@ == self@.moves,
    {
        self.moves.as_slice()
    }

    /// The moves as a slice through which they can be replaced, in generation
    /// order. The number of moves and the flag stay as they are.
    pub fn as_mut_slice(&mut self) -> (s: &mut [Move])
        ensures
            s@ == old(self)@.moves,
            final(self)@ == (MoveSetView { checking: old(self)@.checking, moves: final(s)@ }),
    {
        self.moves.as_mut_slice()
    }

    /// True when `m` is one of the moves of the set.
    pub fn contains(&self, m: &Move) -> (b: bool)
        ensures
            b == self@.moves.contains(*m),
    {
        let mut i: usize = 0;
        while i < self.moves.len()
            invariant
                i <= self.moves.len(),
                forall|k: int| 0 <= k < i ==> self.moves@[k] != *m,
            decreases self.moves.len() - i,
        {
            if self.moves[i].same_as(m) {
                return true;
            }
            i += 1;
        }
        false
    }

    /// A cursor over the moves, from the first generated to the last. The set
    /// is only borrowed.
    pub fn iter(&self) -> (it: MoveSetIter<'_>)
        ensures
            it.remaining() == self@.moves,
    {
        MoveSetIter { idx: 0, inner: self.moves.as_slice() }
    }

    /// A cursor that owns the moves, from the first generated to the last.
    pub fn into_iter(self) -> (it: MoveSetIntoIter)
        ensures
            it.remaining() == self@.moves,
    {
        MoveSetIntoIter { idx: 0, inner: self.moves }
    }
}

/// A cursor over the moves of a borrowed `MoveSet`.
#[derive(Clone, Copy, Debug)]
pub struct MoveSetIter<'a> {
    idx: usize,
    inner: &'a [Move],
}

impl<'a> MoveSetIter<'a> {
    #[verifier::type_invariant]
    spec fn in_range(self) -> bool {
        self.idx <= self.inner@.len()
    }

    /// The moves that the cursor has yet to hand out, in order.
    pub closed spec fn remaining(&self) -> Seq<Move> {
        self.inner@.skip(self.idx as int)
    }

    /// Hands out the next move and steps past it; `None` once every move has
    /// been handed out.
    pub fn next(&mut self) -> (item: Option<&'a Move>)
        ensures
            old(self).remaining().len() == 0 ==> item is None && final(self).remaining()
                == old(self).remaining(),
            old(self).remaining().len() > 0 ==> item == Some(&old(self).remaining()[0])
                && final(self).remaining() == old(self).remaining().skip(1),
    {
        proof {
            use_type_invariant(&*self);
        }
        if self.idx < self.inner.len() {
            let m = &self.inner[self.idx];
            self.idx += 1;
            Some(m)
        } else {
            None
        }
    }
}

/// A cursor over the moves of a `MoveSet` that it has taken over.
#[derive(Debug)]
pub struct MoveSetIntoIter {
    idx: usize,
    inner: Vec<Move>,
}

impl MoveSetIntoIter {
    #[verifier::type_invariant]
    spec fn in_range(self) -> bool {
        self.idx <= self.inner@.len()
    }

    /// The moves that the cursor has yet to hand out, in order.
    pub closed spec fn remaining(&self) -> Seq<Move> {
        self.inner@.skip(self.idx as int)
    }

    /// Hands out the next move and steps past it; `None` once every move has
    /// been handed out.
    pub fn next(&mut self) -> (item: Option<Move>)
        ensures
            old(self).remaining().len() == 0 ==> item is None && final(self).remaining()
                == old(self).remaining(),
            old(self).remaining().len() > 0 ==> item == Some(old(self).remaining()[0])
                && final(self).remaining() == old(self).remaining().skip(1),
    {
        proof {
            use_type_invariant(&*self);
        }
        if self.idx < self.inner.len() {
            let m = self.inner[self.idx];
            self.idx += 1;
            Some(m)
        } else {
            None
        }
    }
}

} // verus!
