use vstd::prelude::*;

use crate::board::{Board, Position};
use crate::moves::{all_on_board, gen_moves, Move};

verus! {

/// The number of ways to play `depth` moves on from a position, each of them
/// legal: one where `depth` is 0.
pub open spec fn perft_nodes(pos: Position, depth: nat) -> nat
    decreases depth, 0nat, 0nat,
{
    if depth == 0 {
        1
    } else {
        perft_over(pos, pos.legal_moves(), (depth - 1) as nat)
    }
}

/// The number of ways to play one of the given moves and then `depth` legal
/// moves more.
pub open spec fn perft_over(pos: Position, moves: Seq<Move>, depth: nat) -> nat
    decreases depth, 1nat, moves.len(),
{
    if moves.len() == 0 {
        0
    } else {
        perft_over(pos, moves.drop_last(), depth) + perft_nodes(pos.after_move(moves.last()), depth)
    }
}

/// A count as a 64-bit number: the largest such number where it is too large.
pub open spec fn saturated(n: nat) -> u64 {
    if n <= u64::MAX {
        n as u64
    } else {
        u64::MAX
    }
}

impl Board {
    /// Counts the ways to play `depth` legal moves on from this position. The
    /// count stops at the largest 64-bit number.
    pub fn perft(&self, depth: usize) -> (n: u64)
        ensures
            n == saturated(perft_nodes(self@, depth as nat)),
        decreases depth,
    {
        if depth == 0 {
            return 1;
        }
        let moves = gen_moves(self);
        let len = moves.len();
        let mut total: u64 = 0;
        let mut i: usize = 0;
        assert(moves@.subrange(0, 0) =~= Seq::<Move>::empty());
        while i < len
            invariant
                depth > 0,
                len == moves.len(),
                0 <= i <= len,
                all_on_board(moves@),
                total == saturated(
                    perft_over(self@, moves@.subrange(0, i as int), (depth - 1) as nat),
                ),
            decreases len - i,
        {
            let mut next = self.clone();
            next.make_move(moves[i]);
            let below = next.perft(depth - 1);
            assert(moves@.subrange(0, i + 1).drop_last() =~= moves@.subrange(0, i as int));
            total = total.saturating_add(below);
            i += 1;
        }
        assert(moves@.subrange(0, len as int) =~= moves@);
        total
    }
    /// The count of [`Board::perft`] told apart by the first move: each legal
    /// move with the number of ways to play `depth - 1` legal moves after it.
    /// With `depth` 0 no move is played, and the list is empty.
    pub fn perft_split(&self, depth: usize) -> (split: Vec<(Move, u64)>)
        ensures
            depth == 0 ==> split@.len() == 0,
            depth > 0 ==> split@.len() == self@.legal_moves().len(),
            depth > 0 ==> forall|i: int|
                0 <= i < split@.len() ==> (#[trigger] split@[i]).0 == self@.legal_moves()[i]
                    && split@[i].1 == saturated(
                    perft_nodes(self@.after_move(self@.legal_moves()[i]), (depth - 1) as nat),
                ),
    {
        let mut split: Vec<(Move, u64)> = Vec::new();
        if depth == 0 {
            return split;
        }
        let moves = gen_moves(self);
        let len = moves.len();
        let mut i: usize = 0;
        while i < len
            invariant
                depth > 0,
                len == moves.len(),
                0 <= i <= len,
                moves@ == self@.legal_moves(),
                all_on_board(moves@),
                split@.len() == i,
                forall|j: int|
                    0 <= j < i ==> (#[trigger] split@[j]).0 == moves@[j] && split@[j].1
                        == saturated(perft_nodes(self@.after_move(moves@[j]), (depth - 1) as nat)),
            decreases len - i,
        {
            let mut next = self.clone();
            next.make_move(moves[i]);
            split.push((moves[i], next.perft(depth - 1)));
            i += 1;
        }
        split
    }
}

} // verus!
