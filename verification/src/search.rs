use vstd::prelude::*;

use crate::board::{Board, Position};
use crate::coord::Coord;
use crate::moves::{all_on_board, gen_at_coord_illegal, gen_moves, in_check, nth_square, Move};
use crate::{Color, Kind, Piece};

verus! {

/// The score of a lost game, and the bound of every score: a score lies
/// between its negative and itself. Scores count seventieths of a pawn, so
/// that every term of the evaluation is a whole number.
pub const SENTINEL: i64 = 1_000_000_000;

/// The most moves that one piece can have.
pub const MOST_MOVES: usize = 56;

impl Position {
    /// What the piece on `c` is worth to its owner: a pawn 70 and 10 more for
    /// each rank it has advanced; a knight or a bishop 210, a rook 350, a
    /// queen 630, each with 7 more for every move it has; a king 14 for each
    /// file between it and file 4, less 210 where it has left the first and
    /// the last rank.
    pub open spec fn worth(self, c: Coord) -> int {
        let piece = self.at(c);
        match piece.kind() {
            Kind::Empty => 0,
            Kind::Pawn => 70 + 10 * (if piece.color() == Color::White {
                c.rank_of()
            } else {
                7 - c.rank_of()
            }),
            Kind::Knight | Kind::Bishop => 210 + 7 * (self.pseudo_at(c).len() as int),
            Kind::Rook => 350 + 7 * (self.pseudo_at(c).len() as int),
            Kind::Queen => 630 + 7 * (self.pseudo_at(c).len() as int),
            Kind::King => 14 * (if c.file_of() >= 4 {
                c.file_of() - 4
            } else {
                4 - c.file_of()
            }) - (if c.rank_of() != 0 && c.rank_of() != 7 {
                210int
            } else {
                0int
            }),
        }
    }

    /// What the piece on `c` is worth to the side to move: its worth where it
    /// belongs to that side, the negative of its worth where it does not.
    pub open spec fn worth_to_mover(self, c: Coord) -> int {
        if self.at(c).color() == self.to_move {
            self.worth(c)
        } else {
            -self.worth(c)
        }
    }

    /// The worth to the side to move of what stands on the first `k` squares.
    pub open spec fn evaluation_upto(self, k: int) -> int
        decreases k,
    {
        if k <= 0 {
            0
        } else {
            self.evaluation_upto(k - 1) + self.worth_to_mover(nth_square(k - 1))
        }
    }

    /// The score of the position as it stands, for the side to move.
    pub open spec fn evaluation(self) -> int {
        self.evaluation_upto(64)
    }
}

/// A sliding piece has at most seven moves in one direction.
pub proof fn lemma_ray_len(pos: Position, orig: Coord, d_rank: int, d_file: int, k: int)
    requires
        1 <= k <= 8,
    ensures
        pos.ray(orig, d_rank, d_file, k).len() <= 8 - k,
    decreases 8 - k,
{
    if k < 8 {
        lemma_ray_len(pos, orig, d_rank, d_file, k + 1);
    }
}

/// A knight, a bishop, a rook or a queen has at most 56 moves.
pub proof fn lemma_most_moves(pos: Position, c: Coord)
    requires
        pos.at(c).kind() == Kind::Knight || pos.at(c).kind() == Kind::Bishop || pos.at(c).kind()
            == Kind::Rook || pos.at(c).kind() == Kind::Queen,
    ensures
        pos.pseudo_at(c).len() <= MOST_MOVES,
{
    lemma_ray_len(pos, c, 1, 0, 1);
    lemma_ray_len(pos, c, -1, 0, 1);
    lemma_ray_len(pos, c, 0, 1, 1);
    lemma_ray_len(pos, c, 0, -1, 1);
    lemma_ray_len(pos, c, 1, 1, 1);
    lemma_ray_len(pos, c, 1, -1, 1);
    lemma_ray_len(pos, c, -1, 1, 1);
    lemma_ray_len(pos, c, -1, -1, 1);
}

/// The worth of a piece stays below 1023.
pub proof fn lemma_worth_bound(pos: Position, c: Coord)
    requires
        c.on_board(),
    ensures
        -1023 < pos.worth(c) < 1023,
        -1023 < pos.worth_to_mover(c) < 1023,
{
    let kind = pos.at(c).kind();
    if kind == Kind::Knight || kind == Kind::Bishop || kind == Kind::Rook || kind == Kind::Queen {
        lemma_most_moves(pos, c);
    }
}

/// The score of the first `k` squares stays below 1023 for each of them.
pub proof fn lemma_evaluation_bound(pos: Position, k: int)
    requires
        0 <= k <= 64,
    ensures
        -1023 * k <= pos.evaluation_upto(k) <= 1023 * k,
    decreases k,
{
    if k > 0 {
        lemma_evaluation_bound(pos, k - 1);
        lemma_worth_bound(pos, nth_square(k - 1));
    }
}

/// What the piece on `c` is worth to its owner.
pub fn worth(board: &Board, c: Coord) -> (w: i64)
    requires
        c.on_board(),
    ensures
        w == board@.worth(c),
{
    let piece = board.piece_at(c);
    match piece {
        Piece::Empty => 0,
        Piece::PawnW => 70 + 10 * (c.rank() as i64),
        Piece::PawnB => 70 + 10 * (7 - c.rank() as i64),
        Piece::KingW | Piece::KingB => {
            let file = c.file() as i64;
            let away: i64 = if file >= 4 {
                file - 4
            } else {
                4 - file
            };
            let left_home: i64 = if c.rank() != 0 && c.rank() != 7 {
                210
            } else {
                0
            };
            14 * away - left_home
        },
        _ => {
            let base: i64 = match piece {
                Piece::RookW | Piece::RookB => 350,
                Piece::QueenW | Piece::QueenB => 630,
                _ => 210,
            };
            let mut found: Vec<Move> = Vec::new();
            gen_at_coord_illegal(board, c, &mut found);
            proof {
                lemma_most_moves(board@, c);
                assert(found@ =~= board@.pseudo_at(c));
            }
            base + 7 * (found.len() as i64)
        },
    }
}

/// The score of the position as it stands, for the side to move.
pub fn evaluate(board: &Board) -> (score: i64)
    ensures
        score == board@.evaluation(),
        -SENTINEL < score < SENTINEL,
{
    let mut score: i64 = 0;
    let mut k: u8 = 0;
    while k < 64
        invariant
            0 <= k <= 64,
            score == board@.evaluation_upto(k as int),
            -1023 * k <= score <= 1023 * k,
        decreases 64 - k,
    {
        let c = Coord((k / 8) * 16 + k % 8);
        proof {
            lemma_worth_bound(board@, c);
        }
        let w = worth(board, c);
        if board.piece_at(c).get_color() == board.to_move {
            score = score + w;
        } else {
            score = score - w;
        }
        k += 1;
    }
    score
}

/// A search that ran out of time. It carries no score: what was found at the
/// depth that was cut short is dropped.
#[derive(Debug)]
pub struct AbortedError;

/// A moment of the machine's clock.
#[verifier::external_type_specification]
#[verifier::external_body]
pub struct ExInstant(std::time::Instant);

/// [`std::time::Instant::elapsed`]: the time that has passed since the moment
/// was taken. Nothing is claimed of it: it is read from the clock.
pub assume_specification[ std::time::Instant::elapsed ](start: &std::time::Instant) -> (d:
    std::time::Duration)
;

/// [`std::time::Duration::as_millis`]: a span of time in whole milliseconds.
/// Nothing is claimed of the number.
pub assume_specification[ std::time::Duration::as_millis ](d: &std::time::Duration) -> (ms: u128)
;

/// The score that a search to the given depth finds for the side to move,
/// looking only for scores between `alpha` and `beta`. At depth 0 it is the
/// evaluation. A side without a legal move has lost where it is in check, and
/// has drawn where it is not. Otherwise the moves are tried in turn.
pub open spec fn search_value(pos: Position, alpha: int, beta: int, depth: nat) -> int
    decreases depth, 0nat, 0nat,
{
    if depth == 0 {
        pos.evaluation()
    } else if pos.legal_moves().len() == 0 {
        if pos.in_check(pos.to_move) {
            -SENTINEL
        } else {
            0
        }
    } else {
        search_from(pos, pos.legal_moves(), 0, alpha, beta, (depth - 1) as nat)
    }
}

/// The score found by trying the moves from number `i` on, each searched to
/// `depth` from the other side and its score negated. A move that scores
/// `beta` or more ends the search with `beta`; a move that scores more than
/// `alpha` raises `alpha` for the moves after it; at the end the score is
/// `alpha`.
pub open spec fn search_from(
    pos: Position,
    moves: Seq<Move>,
    i: int,
    alpha: int,
    beta: int,
    depth: nat,
) -> int
    decreases depth, 1nat, moves.len() - i,
{
    if i < 0 || i >= moves.len() {
        alpha
    } else {
        let value = -search_value(pos.after_move(moves[i]), -beta, -alpha, depth);
        if value >= beta {
            beta
        } else if value > alpha {
            search_from(pos, moves, i + 1, value, beta, depth)
        } else {
            search_from(pos, moves, i + 1, alpha, beta, depth)
        }
    }
}

/// The score that a search to the given depth finds for the side to move
/// when it looks at every move: at depth 0 the evaluation; for a side without
/// a legal move, a loss where it is in check and a draw where it is not;
/// otherwise the best that a move leads to.
pub open spec fn negamax_value(pos: Position, depth: nat) -> int
    decreases depth, 0nat, 0nat,
{
    if depth == 0 {
        pos.evaluation()
    } else if pos.legal_moves().len() == 0 {
        if pos.in_check(pos.to_move) {
            -SENTINEL
        } else {
            0
        }
    } else {
        best_from(pos, pos.legal_moves(), 0, (depth - 1) as nat)
    }
}

/// The best score among the moves from number `i` on, each searched to
/// `depth` from the other side and its score negated; the score of a lost
/// game where no move is left.
pub open spec fn best_from(pos: Position, moves: Seq<Move>, i: int, depth: nat) -> int
    decreases depth, 1nat, moves.len() - i,
{
    if i < 0 || i >= moves.len() {
        -SENTINEL
    } else {
        let value = -negamax_value(pos.after_move(moves[i]), depth);
        let rest = best_from(pos, moves, i + 1, depth);
        if value >= rest {
            value
        } else {
            rest
        }
    }
}

/// A score brought into a window: the nearer bound where it lies outside.
pub open spec fn clamped(score: int, alpha: int, beta: int) -> int {
    if score <= alpha {
        alpha
    } else if score >= beta {
        beta
    } else {
        score
    }
}

/// Every score of a full search lies between the score of a lost game and
/// that of a won one.
pub proof fn lemma_negamax_bounds(pos: Position, depth: nat)
    ensures
        -SENTINEL <= negamax_value(pos, depth) <= SENTINEL,
    decreases depth, 0nat, 0nat,
{
    if depth == 0 {
        lemma_evaluation_bound(pos, 64);
    } else if pos.legal_moves().len() > 0 {
        lemma_best_bounds(pos, pos.legal_moves(), 0, (depth - 1) as nat);
    }
}

/// The best score among some moves lies between the score of a lost game and
/// that of a won one.
pub proof fn lemma_best_bounds(pos: Position, moves: Seq<Move>, i: int, depth: nat)
    ensures
        -SENTINEL <= best_from(pos, moves, i, depth) <= SENTINEL,
    decreases depth, 1nat, moves.len() - i,
{
    if 0 <= i < moves.len() {
        lemma_negamax_bounds(pos.after_move(moves[i]), depth);
        lemma_best_bounds(pos, moves, i + 1, depth);
    }
}

/// Within its window the search finds what a full search finds: brought into
/// the window, the two scores are the same.
pub proof fn lemma_window(pos: Position, alpha: int, beta: int, depth: nat)
    requires
        -SENTINEL <= alpha < beta <= SENTINEL,
    ensures
        clamped(search_value(pos, alpha, beta, depth), alpha, beta) == clamped(
            negamax_value(pos, depth),
            alpha,
            beta,
        ),
    decreases depth, 0nat, 0nat,
{
    if depth > 0 && pos.legal_moves().len() > 0 {
        lemma_window_from(pos, pos.legal_moves(), 0, alpha, beta, (depth - 1) as nat);
    }
}

/// Trying the moves from number `i` on, with `alpha` the best score so far,
/// finds the best of `alpha` and their scores, and `beta` where that is more.
pub proof fn lemma_window_from(
    pos: Position,
    moves: Seq<Move>,
    i: int,
    alpha: int,
    beta: int,
    depth: nat,
)
    requires
        -SENTINEL <= alpha < beta <= SENTINEL,
        0 <= i <= moves.len(),
    ensures
        search_from(pos, moves, i, alpha, beta, depth) == clamped(
            best_from(pos, moves, i, depth),
            alpha,
            beta,
        ),
    decreases depth, 1nat, moves.len() - i,
{
    if i < moves.len() {
        let after = pos.after_move(moves[i]);
        lemma_window(after, -beta, -alpha, depth);
        lemma_best_bounds(pos, moves, i + 1, depth);
        let value = -search_value(after, -beta, -alpha, depth);
        if value >= beta {
        } else if value > alpha {
            lemma_window_from(pos, moves, i + 1, value, beta, depth);
        } else {
            lemma_window_from(pos, moves, i + 1, alpha, beta, depth);
        }
    }
}

/// Pruning never changes the score: with the widest window the search finds
/// exactly what a search that looks at every move finds.
pub proof fn lemma_pruning_keeps_score(pos: Position, depth: nat)
    ensures
        search_value(pos, -SENTINEL as int, SENTINEL as int, depth) == negamax_value(pos, depth),
{
    lemma_negamax_bounds(pos, depth);
    if depth > 0 && pos.legal_moves().len() > 0 {
        lemma_window_from(
            pos,
            pos.legal_moves(),
            0,
            -SENTINEL as int,
            SENTINEL as int,
            (depth - 1) as nat,
        );
    }
}

/// A side that has no legal move has lost where it is in check and has drawn
/// where it is not, whatever the window and however deep the search, so long
/// as it looks one move ahead.
pub proof fn lemma_no_legal_move(pos: Position, alpha: int, beta: int, depth: nat)
    requires
        depth >= 1,
        pos.legal_moves().len() == 0,
    ensures
        pos.in_check(pos.to_move) ==> search_value(pos, alpha, beta, depth) == -SENTINEL,
        !pos.in_check(pos.to_move) ==> search_value(pos, alpha, beta, depth) == 0,
        negamax_value(pos, depth) == search_value(pos, alpha, beta, depth),
{
}

/// What trying move number `i` and the moves after it comes to, by what the
/// move itself scores.
proof fn lemma_search_from_step(
    pos: Position,
    moves: Seq<Move>,
    i: int,
    alpha: int,
    beta: int,
    depth: nat,
)
    requires
        0 <= i < moves.len(),
    ensures
        ({
            let value = -search_value(pos.after_move(moves[i]), -beta, -alpha, depth);
            search_from(pos, moves, i, alpha, beta, depth) == (if value >= beta {
                beta
            } else if value > alpha {
                search_from(pos, moves, i + 1, value, beta, depth)
            } else {
                search_from(pos, moves, i + 1, alpha, beta, depth)
            })
        }),
{
}

/// With no move left to try the score is `alpha`.
proof fn lemma_search_from_end(
    pos: Position,
    moves: Seq<Move>,
    i: int,
    alpha: int,
    beta: int,
    depth: nat,
)
    requires
        i >= moves.len(),
    ensures
        search_from(pos, moves, i, alpha, beta, depth) == alpha,
{
}

/// Whether no reading of the clock can cut a search short: it has no clock,
/// or its time is the most that a reading can be.
pub open spec fn never_late(clock: Option<(&std::time::Instant, u128)>) -> bool {
    clock.is_none() || clock.unwrap().1 == u128::MAX
}

/// Whether a search with the given clock is out of time when the clock reads
/// `elapsed` milliseconds: only where it has a clock, and more time has
/// passed than it was given.
pub open spec fn is_late(elapsed: u128, clock: Option<(&std::time::Instant, u128)>) -> bool {
    clock.is_some() && elapsed > clock.unwrap().1
}

/// The score of a move for the side that plays it: the negative of what a
/// search to the given depth finds for the other side after it.
fn reply_value(
    alpha: i64,
    beta: i64,
    depth: u8,
    board: &Board,
    mov: Move,
    clock: Option<(&std::time::Instant, u128)>,
) -> (r: Result<i64, AbortedError>)
    requires
        -SENTINEL <= alpha <= SENTINEL,
        -SENTINEL <= beta <= SENTINEL,
        mov.orig.on_board(),
        mov.dst.on_board(),
    ensures
        never_late(clock) ==> r.is_ok(),
        r.is_ok() ==> r.unwrap() == -search_value(
            board@.after_move(mov),
            -(beta as int),
            -(alpha as int),
            depth as nat,
        ),
        r.is_ok() ==> -SENTINEL <= r.unwrap() <= SENTINEL,
    decreases depth, 2nat,
{
    let mut next = board.clone();
    next.make_move(mov);
    match search_within(-beta, -alpha, depth, &next, clock) {
        Ok(v) => Ok(-v),
        Err(e) => Err(e),
    }
}

/// Searches to the given depth, with a clock to stop it where one is given:
/// it reads the clock, and goes on as [`search_after`] does with the reading.
fn search_within(
    alpha: i64,
    beta: i64,
    depth: u8,
    board: &Board,
    clock: Option<(&std::time::Instant, u128)>,
) -> (r: Result<i64, AbortedError>)
    requires
        -SENTINEL <= alpha <= SENTINEL,
        -SENTINEL <= beta <= SENTINEL,
    ensures
        never_late(clock) ==> r.is_ok(),
        r.is_ok() ==> r.unwrap() == search_value(board@, alpha as int, beta as int, depth as nat),
        r.is_ok() ==> -SENTINEL <= r.unwrap() <= SENTINEL,
    decreases depth, 1nat,
{
    let elapsed: u128 = match clock {
        Some((start, _)) => start.elapsed().as_millis(),
        None => 0,
    };
    search_after(elapsed, alpha, beta, depth, board, clock)
}

/// Searches to the given depth once the clock has been read, `elapsed` being
/// the reading. A search that is out of time gives up at once. One that is
/// not evaluates the position at depth 0, and scores a side without a legal
/// move; otherwise it tries the moves in turn, each of them searched with a
/// fresh look at the clock.
fn search_after(
    elapsed: u128,
    alpha: i64,
    beta: i64,
    depth: u8,
    board: &Board,
    clock: Option<(&std::time::Instant, u128)>,
) -> (r: Result<i64, AbortedError>)
    requires
        -SENTINEL <= alpha <= SENTINEL,
        -SENTINEL <= beta <= SENTINEL,
    ensures
        is_late(elapsed, clock) ==> r.is_err(),
        !is_late(elapsed, clock) && (depth == 0 || board@.legal_moves().len() == 0) ==> r.is_ok(),
        never_late(clock) ==> r.is_ok(),
        r.is_ok() ==> r.unwrap() == search_value(board@, alpha as int, beta as int, depth as nat),
        r.is_ok() ==> -SENTINEL <= r.unwrap() <= SENTINEL,
    decreases depth, 0nat,
{
    if let Some((_, max_time)) = clock {
        if elapsed > max_time {
            return Err(AbortedError);
        }
    }
    if depth == 0 {
        return Ok(evaluate(board));
    }
    let moves = gen_moves(board);
    if moves.len() == 0 {
        return if in_check(board, board.to_move) {
            Ok(-SENTINEL)
        } else {
            Ok(0)
        };
    }
    let ghost pos = board@;
    let ghost below = (depth - 1) as nat;
    let ghost wanted = search_value(pos, alpha as int, beta as int, depth as nat);
    let mut best = alpha;
    let n = moves.len();
    let mut i: usize = 0;
    while i < n
        invariant
            depth > 0,
            below == depth - 1,
            pos == board@,
            n == moves.len(),
            0 <= i <= n,
            all_on_board(moves@),
            n > 0,
            moves@ == pos.legal_moves(),
            !is_late(elapsed, clock),
            -SENTINEL <= best <= SENTINEL,
            -SENTINEL <= beta <= SENTINEL,
            wanted == search_value(pos, alpha as int, beta as int, depth as nat),
            search_from(pos, moves@, i as int, best as int, beta as int, below) == wanted,
        decreases n - i,
    {
        let mov = moves[i];
        let value = match reply_value(best, beta, depth - 1, board, mov, clock) {
            Ok(v) => v,
            Err(e) => {
                return Err(e);
            },
        };
        proof {
            lemma_search_from_step(pos, moves@, i as int, best as int, beta as int, below);
        }
        if value >= beta {
            return Ok(beta);
        }
        if value > best {
            best = value;
        }
        i += 1;
    }
    proof {
        lemma_search_from_end(pos, moves@, i as int, best as int, beta as int, below);
    }
    Ok(best)
}

/// The score that a search to the given depth finds for the side to move,
/// looking only for scores between `alpha` and `beta`.
pub fn search(alpha: i64, beta: i64, depth: u8, board: &Board) -> (score: i64)
    requires
        -SENTINEL <= alpha <= SENTINEL,
        -SENTINEL <= beta <= SENTINEL,
    ensures
        score == search_value(board@, alpha as int, beta as int, depth as nat),
        -SENTINEL <= score <= SENTINEL,
{
    // Without a clock the search is never cut short.
    match search_within(alpha, beta, depth, board, None) {
        Ok(score) => score,
        Err(_) => vstd::pervasive::unreached(),
    }
}

/// Searches as [`search`] does while the clock allows. Each step looks at the
/// clock first, and gives up once more than `max_time` milliseconds have
/// passed since `start`; a search that ends in time gives the score that
/// [`search`] gives.
pub fn negamax(
    alpha: i64,
    beta: i64,
    depth: u8,
    board: &Board,
    start: &std::time::Instant,
    max_time: u128,
) -> (r: Result<i64, AbortedError>)
    requires
        -SENTINEL <= alpha <= SENTINEL,
        -SENTINEL <= beta <= SENTINEL,
    ensures
        max_time == u128::MAX ==> r.is_ok(),
        r.is_ok() ==> r.unwrap() == search_value(board@, alpha as int, beta as int, depth as nat),
        r.is_ok() ==> -SENTINEL <= r.unwrap() <= SENTINEL,
{
    search_within(alpha, beta, depth, board, Some((start, max_time)))
}

/// What [`negamax`] does once it has read the clock, `elapsed` being the
/// milliseconds that the clock gave. It is aborted at once where `elapsed` is
/// more than `max_time`. Where it is not, the search goes on: at depth 0, and
/// for a side without a legal move, it ends there with its score; otherwise
/// each move is searched by [`negamax`], which reads the clock anew.
pub fn negamax_after(
    elapsed: u128,
    alpha: i64,
    beta: i64,
    depth: u8,
    board: &Board,
    start: &std::time::Instant,
    max_time: u128,
) -> (r: Result<i64, AbortedError>)
    requires
        -SENTINEL <= alpha <= SENTINEL,
        -SENTINEL <= beta <= SENTINEL,
    ensures
        elapsed > max_time ==> r.is_err(),
        elapsed <= max_time && (depth == 0 || board@.legal_moves().len() == 0) ==> r.is_ok(),
        max_time == u128::MAX ==> r.is_ok(),
        r.is_ok() ==> r.unwrap() == search_value(board@, alpha as int, beta as int, depth as nat),
        r.is_ok() ==> -SENTINEL <= r.unwrap() <= SENTINEL,
{
    search_after(elapsed, alpha, beta, depth, board, Some((start, max_time)))
}

/// The score of a move at the root for the side that plays it, with the
/// other side searched to `depth` in the widest window.
pub open spec fn root_value(pos: Position, mov: Move, depth: nat) -> int {
    -search_value(pos.after_move(mov), -SENTINEL as int, SENTINEL as int, depth)
}

/// Whether `best` and `choice` are what one round at the root finds among the
/// given moves: the best score of any of them, and the last move that has it.
/// Without a move there is no choice, and the score is that of a lost game.
pub open spec fn is_root_choice(
    pos: Position,
    moves: Seq<Move>,
    depth: nat,
    best: int,
    choice: Option<Move>,
) -> bool {
    if moves.len() == 0 {
        best == -SENTINEL && choice.is_none()
    } else {
        exists|j: int|
            0 <= j < moves.len() && choice == Some(#[trigger] moves[j]) && best == root_value(
                pos,
                moves[j],
                depth,
            ) && (forall|k: int|
                0 <= k < moves.len() ==> root_value(pos, #[trigger] moves[k], depth) <= best)
                && (forall|k: int|
                j < k < moves.len() ==> root_value(pos, #[trigger] moves[k], depth) < best)
    }
}

/// One round at the root, with a clock to stop it where one is given.
fn root_within(
    board: &Board,
    moves: &Vec<Move>,
    depth: u8,
    clock: Option<(&std::time::Instant, u128)>,
) -> (r: Result<(i64, Option<Move>), AbortedError>)
    requires
        depth >= 1,
        all_on_board(moves@),
    ensures
        moves@.len() == 0 || never_late(clock) ==> r.is_ok(),
        r.is_ok() ==> is_root_choice(
            board@,
            moves@,
            (depth - 1) as nat,
            r.unwrap().0 as int,
            r.unwrap().1,
        ),
        r.is_ok() ==> -SENTINEL <= r.unwrap().0 <= SENTINEL,
{
    let ghost pos = board@;
    let ghost below = (depth - 1) as nat;
    let mut best: i64 = -SENTINEL;
    let mut choice: Option<Move> = None;
    let ghost mut at: int = 0;
    let n = moves.len();
    let mut i: usize = 0;
    while i < n
        invariant
            depth >= 1,
            below == depth - 1,
            pos == board@,
            n == moves.len(),
            0 <= i <= n,
            all_on_board(moves@),
            -SENTINEL <= best <= SENTINEL,
            i == 0 ==> best == -SENTINEL && choice.is_none(),
            i > 0 ==> 0 <= at < i && choice == Some(moves@[at]) && best == root_value(
                pos,
                moves@[at],
                below,
            ),
            forall|k: int| 0 <= k < i ==> root_value(pos, #[trigger] moves@[k], below) <= best,
            forall|k: int| at < k < i ==> root_value(pos, #[trigger] moves@[k], below) < best,
        decreases n - i,
    {
        let mov = moves[i];
        let value = match reply_value(-SENTINEL, SENTINEL, depth - 1, board, mov, clock) {
            Ok(v) => v,
            Err(e) => {
                return Err(e);
            },
        };
        if value >= best {
            best = value;
            choice = Some(mov);
            proof {
                at = i as int;
            }
        }
        i += 1;
    }
    Ok((best, choice))
}

/// One round at the root: the best score among the given moves, each searched
/// `depth - 1` deep from the other side, and the last move that has it.
pub fn choose_move(board: &Board, moves: &Vec<Move>, depth: u8) -> (r: (i64, Option<Move>))
    requires
        depth >= 1,
        all_on_board(moves@),
    ensures
        is_root_choice(board@, moves@, (depth - 1) as nat, r.0 as int, r.1),
        -SENTINEL <= r.0 <= SENTINEL,
{
    // Without a clock the round is never cut short.
    match root_within(board, moves, depth, None) {
        Ok(found) => found,
        Err(_) => vstd::pervasive::unreached(),
    }
}

/// One round at the root while the clock allows: as [`choose_move`], but it
/// gives up, with nothing found, once more than `max_time` milliseconds have
/// passed since `start`.
pub fn search_root(
    board: &Board,
    moves: &Vec<Move>,
    depth: u8,
    start: &std::time::Instant,
    max_time: u128,
) -> (r: Result<(i64, Option<Move>), AbortedError>)
    requires
        depth >= 1,
        all_on_board(moves@),
    ensures
        moves@.len() == 0 || max_time == u128::MAX ==> r.is_ok(),
        r.is_ok() ==> is_root_choice(
            board@,
            moves@,
            (depth - 1) as nat,
            r.unwrap().0 as int,
            r.unwrap().1,
        ),
        r.is_ok() ==> -SENTINEL <= r.unwrap().0 <= SENTINEL,
{
    root_within(board, moves, depth, Some((start, max_time)))
}

/// A score as it is reported: in hundredths of a pawn, or as the number of
/// moves to a mate, negative where the side to move is the one mated.
#[derive(Clone, Copy, Debug, PartialEq, Eq, Structural)]
pub enum Score {
    Cp(i64),
    Mate(i16),
}

/// What is reported of one round of the search that ran to its end.
#[derive(Clone, Copy, Debug)]
pub struct DepthReport {
    pub depth: u8,
    pub score: Score,
    pub pv: Option<Move>,
}

/// The state of a search that goes one move deeper with every round.
#[derive(Clone, Copy, Debug)]
pub struct Deepening {
    /// The depth of the round to come.
    pub depth: u8,
    /// The moves to mate that were first found, 0 while none was.
    pub mate_in: i16,
    /// The best move of the last round that ran to its end.
    pub curr_best: Option<Move>,
    /// Whether the search is over.
    pub done: bool,
}

/// A score in hundredths of a pawn, rounded towards zero.
pub open spec fn centipawns(score: int) -> int {
    if score >= 0 {
        score * 100 / 70
    } else {
        -((-score) * 100 / 70)
    }
}

impl Deepening {
    /// The moves to mate to report after a round at this state's depth with
    /// the given score: half the depth of the first round that found a mate.
    pub open spec fn mate_after(self, best: int) -> int {
        if (best == -SENTINEL || best == SENTINEL) && self.mate_in == 0 {
            self.depth as int / 2
        } else {
            self.mate_in as int
        }
    }

    /// The score to report after a round at this state's depth.
    pub open spec fn score_after(self, best: int) -> Score {
        if best == -SENTINEL {
            Score::Mate((-self.mate_after(best)) as i16)
        } else if best == SENTINEL {
            Score::Mate(self.mate_after(best) as i16)
        } else {
            Score::Cp(centipawns(best) as i64)
        }
    }

    /// Whether the state may come up in a search: the depth is at least 1,
    /// and the moves to mate lie between 0 and 127.
    pub open spec fn wf(self) -> bool {
        self.depth >= 1 && 0 <= self.mate_in <= 127
    }

    /// The state after a round that was cut short: the search is over, and
    /// nothing else has changed.
    pub open spec fn stopped(self) -> Deepening {
        Deepening { done: true, ..self }
    }

    /// The state after a round that ran to its end with the given score and
    /// choice: the choice is the answer so far, and the next round goes one
    /// move deeper. After depth 255 the search is over.
    pub open spec fn after_round(self, best: int, choice: Option<Move>) -> Deepening {
        Deepening {
            depth: if self.depth == 255 {
                255u8
            } else {
                (self.depth + 1) as u8
            },
            mate_in: self.mate_after(best) as i16,
            curr_best: choice,
            done: self.done || self.depth == 255,
        }
    }

    /// The report of a round that ran to its end with the given score and
    /// choice.
    pub open spec fn report_of(self, best: int, choice: Option<Move>) -> DepthReport {
        DepthReport { depth: self.depth, score: self.score_after(best), pv: choice }
    }

    /// The state before the first round: depth 1, nothing found.
    pub fn new() -> (state: Self)
        ensures
            state.wf(),
            state == (Deepening { depth: 1, mate_in: 0, curr_best: None, done: false }),
    {
        Self { depth: 1, mate_in: 0, curr_best: None, done: false }
    }

    /// Takes in how a round ended. A round that ran to its end gives the
    /// answer so far, its report, and a state one move deeper. A round that
    /// was cut short ends the search and changes nothing else: the answer
    /// stays that of the last round that ran to its end.
    pub fn record(&mut self, outcome: Result<(i64, Option<Move>), AbortedError>) -> (report:
        Option<DepthReport>)
        requires
            old(self).wf(),
            outcome.is_ok() ==> -SENTINEL <= outcome.unwrap().0 <= SENTINEL,
        ensures
            final(self).wf(),
            outcome.is_err() ==> report.is_none() && *final(self) == old(self).stopped(),
            outcome.is_ok() ==> report == Some(
                old(self).report_of(outcome.unwrap().0 as int, outcome.unwrap().1),
            ) && *final(self) == old(self).after_round(
                outcome.unwrap().0 as int,
                outcome.unwrap().1,
            ),
    {
        match outcome {
            Err(_) => {
                self.done = true;
                None
            },
            Ok((best, choice)) => {
                let depth = self.depth;
                let score = if best == -SENTINEL || best == SENTINEL {
                    if self.mate_in == 0 {
                        self.mate_in = (depth / 2) as i16;
                    }
                    if best == SENTINEL {
                        Score::Mate(self.mate_in)
                    } else {
                        Score::Mate(-self.mate_in)
                    }
                } else if best >= 0 {
                    Score::Cp(best * 100 / 70)
                } else {
                    Score::Cp(-((-best) * 100 / 70))
                };
                self.curr_best = choice;
                if depth == 255 {
                    self.done = true;
                } else {
                    self.depth = depth + 1;
                }
                Some(DepthReport { depth, score, pv: choice })
            },
        }
    }
}

impl Deepening {
    /// Whether another round may start: the search is not over, and fewer
    /// than `max_time` milliseconds have passed since `start`. A search that
    /// is over, or has no time at all, never starts a round; for any other the
    /// clock is read, and [`Deepening::may_start_after`] decides.
    pub fn may_start(&self, start: &std::time::Instant, max_time: u128) -> (go: bool)
        ensures
            self.done || max_time == 0 ==> !go,
    {
        if self.done || max_time == 0 {
            false
        } else {
            self.may_start_after(start.elapsed().as_millis(), max_time)
        }
    }

    /// Whether another round may start when the clock reads `elapsed`
    /// milliseconds: the search is not over, and `elapsed` is less than
    /// `max_time`.
    pub fn may_start_after(&self, elapsed: u128, max_time: u128) -> (go: bool)
        ensures
            go == (!self.done && elapsed < max_time),
    {
        !self.done && elapsed < max_time
    }

    /// Plays one round at the root among the given moves while the clock
    /// allows, and takes in how it ended, as [`Deepening::record`] does. The
    /// round runs to its end, and is reported, where no reading of the clock
    /// can cut it short: with no move to search, and with the most time that
    /// there is.
    pub fn round(
        &mut self,
        board: &Board,
        moves: &Vec<Move>,
        start: &std::time::Instant,
        max_time: u128,
    ) -> (report: Option<DepthReport>)
        requires
            old(self).wf(),
            all_on_board(moves@),
        ensures
            final(self).wf(),
            moves@.len() == 0 || max_time == u128::MAX ==> report.is_some(),
            report.is_none() ==> *final(self) == old(self).stopped(),
            report.is_some() ==> exists|best: int|
                is_root_choice(
                    board@,
                    moves@,
                    (old(self).depth - 1) as nat,
                    best,
                    final(self).curr_best,
                ) && *final(self) == old(self).after_round(best, final(self).curr_best)
                    && report.unwrap() == #[trigger] old(self).report_of(
                    best,
                    final(self).curr_best,
                ),
    {
        let outcome = search_root(board, moves, self.depth, start, max_time);
        self.record(outcome)
    }
}

/// The time to spend on one move, in milliseconds: a twentieth of the time
/// left on the clock and half of the increment for each move.
pub fn time_budget(remaining: u128, increment: u128) -> (budget: u128)
    ensures
        budget == remaining / 20 + increment / 2,
{
    remaining / 20 + increment / 2
}

} // verus!
