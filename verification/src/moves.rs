use vstd::prelude::*;
use vstd::string::*;

use crate::board::{right_index, Board, Position};
use crate::coord::{square_of_text, Coord, CoordReprView, InvalidCoordinateError};
use crate::{char_of_piece, piece_of, Color, Kind, Piece};

verus! {

/// One move: the square left, the square reached, and the piece that a pawn
/// turns into where it reaches the last rank.
#[derive(Debug, Clone, Copy, PartialEq, Eq, Hash)]
pub struct Move {
    pub orig: Coord,
    pub dst: Coord,
    pub prom_tgt: Option<Piece>,
}

impl Move {
    /// A move from `orig` to `dst`, with the piece to promote to, if any.
    pub fn new(orig: Coord, dst: Coord, prom_tgt: Option<Piece>) -> (m: Self)
        ensures
            m == (Move { orig, dst, prom_tgt }),
    {
        Self { orig, dst, prom_tgt }
    }
}

/// The kind of piece that the fifth character of a move text asks for: a
/// queen, a rook, a bishop or a knight, by its letter in either case.
pub open spec fn promotion_kind(c: char) -> Option<Kind> {
    if c == 'q' || c == 'Q' {
        Some(Kind::Queen)
    } else if c == 'r' || c == 'R' {
        Some(Kind::Rook)
    } else if c == 'b' || c == 'B' {
        Some(Kind::Bishop)
    } else if c == 'n' || c == 'N' {
        Some(Kind::Knight)
    } else {
        None
    }
}

/// The piece that a move text promotes to, for the side that moves: none
/// where the text has four characters, or its fifth names no such piece.
pub open spec fn promotion_of_text(text: Seq<char>, mover: Color) -> Option<Piece> {
    if text.len() > 4 && promotion_kind(text[4]).is_some() {
        Some(piece_of(promotion_kind(text[4]).unwrap(), mover))
    } else {
        None
    }
}

/// The move that a text names: its first two characters the origin, the next
/// two the destination, a fifth the piece to promote to.
pub open spec fn move_of_text(text: Seq<char>, mover: Color) -> Option<Move> {
    if text.len() >= 4 && square_of_text(text.subrange(0, 2)).is_some() && square_of_text(
        text.subrange(2, 4),
    ).is_some() {
        Some(
            Move {
                orig: square_of_text(text.subrange(0, 2)).unwrap(),
                dst: square_of_text(text.subrange(2, 4)).unwrap(),
                prom_tgt: promotion_of_text(text, mover),
            },
        )
    } else {
        None
    }
}

/// The part of a move text that names no square: the whole text where it is
/// too short, else its first two characters, else the two after them.
pub open spec fn bad_part(text: Seq<char>) -> Seq<char> {
    if text.len() < 4 {
        text
    } else if square_of_text(text.subrange(0, 2)).is_none() {
        text.subrange(0, 2)
    } else {
        text.subrange(2, 4)
    }
}

impl Move {
    /// The text that names the move: origin, destination, and the letter of
    /// the piece it promotes to, in lower case.
    pub open spec fn text(self) -> Seq<char> {
        self.orig.text() + self.dst.text() + (match self.prom_tgt {
            Some(p) => seq![char_of_piece(piece_of(p.kind(), Color::Black))],
            None => Seq::empty(),
        })
    }

    /// Reads a move of the side `mover` from its text. It fails where the text
    /// has fewer than four characters or one of its two squares is none, and
    /// the error then holds the part that is at fault.
    pub fn from_text(text: &str, mover: Color) -> (r: Result<Move, InvalidCoordinateError>)
        ensures
            match move_of_text(text@, mover) {
                Some(m) => r.is_ok() && r.unwrap() == m,
                None => r.is_err() && r.unwrap_err()@ == CoordReprView::Alg(bad_part(text@)),
            },
    {
        let n = text.unicode_len();
        if n < 4 {
            return Err(InvalidCoordinateError::new_alg(text));
        }
        let orig = match Coord::from_alg(text.substring_char(0, 2)) {
            Ok(c) => c,
            Err(e) => {
                return Err(e);
            },
        };
        let dst = match Coord::from_alg(text.substring_char(2, 4)) {
            Ok(c) => c,
            Err(e) => {
                return Err(e);
            },
        };
        let prom_tgt = if n > 4 {
            let c = text.get_char(4);
            if c == 'q' || c == 'Q' {
                Some(Piece::QueenW.to_color(mover))
            } else if c == 'r' || c == 'R' {
                Some(Piece::RookW.to_color(mover))
            } else if c == 'b' || c == 'B' {
                Some(Piece::BishopW.to_color(mover))
            } else if c == 'n' || c == 'N' {
                Some(Piece::KnightW.to_color(mover))
            } else {
                None
            }
        } else {
            None
        };
        Ok(Move { orig, dst, prom_tgt })
    }

    /// Writes the move as text.
    pub fn to_text(&self) -> (s: String)
        ensures
            s@ == self.text(),
    {
        let mut s = self.orig.to_alg();
        let dst = self.dst.to_alg();
        s.append(dst.as_str());
        match self.prom_tgt {
            Some(p) => {
                let letter = match p {
                    Piece::PawnW | Piece::PawnB => "p",
                    Piece::RookW | Piece::RookB => "r",
                    Piece::KnightW | Piece::KnightB => "n",
                    Piece::BishopW | Piece::BishopB => "b",
                    Piece::QueenW | Piece::QueenB => "q",
                    Piece::KingW | Piece::KingB => "k",
                    Piece::Empty => " ",
                };
                proof {
                    reveal_strlit("p");
                    reveal_strlit("r");
                    reveal_strlit("n");
                    reveal_strlit("b");
                    reveal_strlit("q");
                    reveal_strlit("k");
                    reveal_strlit(" ");
                    assert(letter@ =~= seq![char_of_piece(piece_of(p.kind(), Color::Black))]);
                }
                s.append(letter);
            },
            None => {
                assert(s@ =~= self.text());
            },
        }
        s
    }
}

/// The move from `orig` to `dst` that promotes to nothing.
pub open spec fn plain(orig: Coord, dst: Coord) -> Move {
    Move { orig, dst, prom_tgt: None }
}

impl Position {
    /// Whether the piece on `orig` may land on `dst`: the square is empty, or
    /// what stands there is of the other colour.
    pub open spec fn may_land(self, orig: Coord, dst: Coord) -> bool {
        self.at(dst) == Piece::Empty || self.at(dst).color() != self.at(orig).color()
    }

    /// The move, if there is one, that takes the piece on `orig` by the given
    /// steps in rank and file: the square reached must be on the board and the
    /// piece must be able to land there.
    pub open spec fn hop(self, orig: Coord, d_rank: int, d_file: int) -> Seq<Move> {
        match orig.offset(d_rank, d_file) {
            Some(dst) => if self.may_land(orig, dst) {
                seq![plain(orig, dst)]
            } else {
                Seq::empty()
            },
            None => Seq::empty(),
        }
    }

    /// The moves of a piece that slides from `orig` in one direction, from its
    /// `k`-th step on: square after square while they are empty, and the first
    /// occupied square too where an enemy stands on it. It ends at the edge of
    /// the board, and after seven steps.
    pub open spec fn ray(self, orig: Coord, d_rank: int, d_file: int, k: int) -> Seq<Move>
        decreases 8 - k,
    {
        if k < 1 || k >= 8 {
            Seq::empty()
        } else {
            match orig.offset(k * d_rank, k * d_file) {
                Some(dst) => if self.at(dst) == Piece::Empty {
                    seq![plain(orig, dst)] + self.ray(orig, d_rank, d_file, k + 1)
                } else if self.may_land(orig, dst) {
                    seq![plain(orig, dst)]
                } else {
                    Seq::empty()
                },
                None => Seq::empty(),
            }
        }
    }
}

impl Position {
    /// The moves of a rook on `orig`: up, down, right and left.
    pub open spec fn rook_moves(self, orig: Coord) -> Seq<Move> {
        self.ray(orig, 1, 0, 1) + self.ray(orig, -1, 0, 1) + self.ray(orig, 0, 1, 1) + self.ray(
            orig,
            0,
            -1,
            1,
        )
    }

    /// The moves of a bishop on `orig`, along the four diagonals.
    pub open spec fn bishop_moves(self, orig: Coord) -> Seq<Move> {
        self.ray(orig, 1, 1, 1) + self.ray(orig, 1, -1, 1) + self.ray(orig, -1, 1, 1) + self.ray(
            orig,
            -1,
            -1,
            1,
        )
    }

    /// The moves of a knight on `orig`.
    pub open spec fn knight_moves(self, orig: Coord) -> Seq<Move> {
        self.hop(orig, 2, 1) + self.hop(orig, 2, -1) + self.hop(orig, 1, 2) + self.hop(orig, -1, 2)
            + self.hop(orig, -2, 1) + self.hop(orig, -2, -1) + self.hop(orig, -1, -2) + self.hop(
            orig,
            1,
            -2,
        )
    }

    /// The moves of a king on `orig` to the squares next to it, rank by rank
    /// from the one below.
    pub open spec fn king_row(self, orig: Coord, d_rank: int) -> Seq<Move> {
        self.hop(orig, d_rank, -1) + self.hop(orig, d_rank, 0) + self.hop(orig, d_rank, 1)
    }

    /// The square on the given file of the rank of `orig`.
    pub open spec fn on_rank(orig: Coord, file: int) -> Coord {
        Coord((orig.rank_of() * 16 + file) as u8)
    }

    /// The kingside castling move of the king on `orig`, offered where its
    /// colour has the right, its rook stands in the corner on file 7, and
    /// files 5 and 6 of its rank are empty.
    pub open spec fn castle_kingside(self, orig: Coord) -> Seq<Move> {
        let color = self.at(orig).color();
        if self.castling[right_index(color)] && self.at(Self::on_rank(orig, 7)) == piece_of(
            Kind::Rook,
            color,
        ) && self.at(Self::on_rank(orig, 6)) == Piece::Empty && self.at(Self::on_rank(orig, 5))
            == Piece::Empty {
            self.hop(orig, 0, 2)
        } else {
            Seq::empty()
        }
    }

    /// The queenside castling move of the king on `orig`, offered where its
    /// colour has the right, its rook stands in the corner on file 0, and
    /// files 1, 2 and 3 of its rank are empty.
    pub open spec fn castle_queenside(self, orig: Coord) -> Seq<Move> {
        let color = self.at(orig).color();
        if self.castling[right_index(color) + 1] && self.at(Self::on_rank(orig, 0)) == piece_of(
            Kind::Rook,
            color,
        ) && self.at(Self::on_rank(orig, 1)) == Piece::Empty && self.at(Self::on_rank(orig, 2))
            == Piece::Empty && self.at(Self::on_rank(orig, 3)) == Piece::Empty {
            self.hop(orig, 0, -2)
        } else {
            Seq::empty()
        }
    }

    /// The moves of a king on `orig`: its steps, then castling on either side.
    pub open spec fn king_moves(self, orig: Coord) -> Seq<Move> {
        self.king_row(orig, -1) + self.king_row(orig, 0) + self.king_row(orig, 1)
            + self.castle_kingside(orig) + self.castle_queenside(orig)
    }

    /// The moves by which the pawn on `orig` lands on `dst`: one move, or on
    /// the first or the last rank four, one for each piece it may turn into
    /// (queen, knight, bishop, rook).
    pub open spec fn landing(self, orig: Coord, dst: Coord) -> Seq<Move> {
        let color = self.at(orig).color();
        if dst.rank_of() == 0 || dst.rank_of() == 7 {
            seq![
                Move { orig, dst, prom_tgt: Some(piece_of(Kind::Queen, color)) },
                Move { orig, dst, prom_tgt: Some(piece_of(Kind::Knight, color)) },
                Move { orig, dst, prom_tgt: Some(piece_of(Kind::Bishop, color)) },
                Move { orig, dst, prom_tgt: Some(piece_of(Kind::Rook, color)) },
            ]
        } else {
            seq![plain(orig, dst)]
        }
    }

    /// The direction in which the pawn on `orig` advances: up the ranks for
    /// white, down for black.
    pub open spec fn pawn_dir(self, orig: Coord) -> int {
        if self.at(orig) != Piece::Empty && self.at(orig).color() == Color::White {
            1
        } else {
            -1
        }
    }

    /// The rank on which the pawn on `orig` started.
    pub open spec fn pawn_home(self, orig: Coord) -> int {
        if self.pawn_dir(orig) == 1 {
            1
        } else {
            6
        }
    }

    /// The advances of the pawn on `orig`: one square onto an empty square,
    /// and from its home rank two squares where the second is empty as well.
    pub open spec fn pawn_pushes(self, orig: Coord) -> Seq<Move> {
        let dir = self.pawn_dir(orig);
        match orig.offset(dir, 0) {
            Some(dst) => if self.at(dst) == Piece::Empty {
                self.landing(orig, dst) + (match orig.offset(2 * dir, 0) {
                    Some(far) => if orig.rank_of() == self.pawn_home(orig) && self.at(far)
                        == Piece::Empty {
                        seq![plain(orig, far)]
                    } else {
                        Seq::empty()
                    },
                    None => Seq::empty(),
                })
            } else {
                Seq::empty()
            },
            None => Seq::empty(),
        }
    }

    /// The capture of the pawn on `orig` towards the given side: onto a square
    /// that holds an enemy, or onto the en-passant square.
    pub open spec fn pawn_capture(self, orig: Coord, d_file: int) -> Seq<Move> {
        match orig.offset(self.pawn_dir(orig), d_file) {
            Some(dst) => if (self.at(dst) != Piece::Empty && self.at(dst).color() != self.at(
                orig,
            ).color()) || self.en_passant == Some(dst) {
                self.landing(orig, dst)
            } else {
                Seq::empty()
            },
            None => Seq::empty(),
        }
    }

    /// The moves of a pawn on `orig`.
    pub open spec fn pawn_moves(self, orig: Coord) -> Seq<Move> {
        self.pawn_pushes(orig) + self.pawn_capture(orig, -1) + self.pawn_capture(orig, 1)
    }

    /// The moves of whatever stands on `c`, by its own rule of movement alone:
    /// whether its king is left in check is not looked at, nor whose turn it
    /// is.
    pub open spec fn pseudo_at(self, c: Coord) -> Seq<Move> {
        match self.at(c).kind() {
            Kind::Pawn => self.pawn_moves(c),
            Kind::Rook => self.rook_moves(c),
            Kind::Bishop => self.bishop_moves(c),
            Kind::Queen => self.rook_moves(c) + self.bishop_moves(c),
            Kind::Knight => self.knight_moves(c),
            Kind::King => self.king_moves(c),
            Kind::Empty => Seq::empty(),
        }
    }
}

/// The square with the given number, counting the 64 squares of the board
/// rank by rank from 0.
pub open spec fn nth_square(k: int) -> Coord {
    Coord(((k / 8) * 16 + k % 8) as u8)
}

/// Whether every one of the given moves starts on `c` and ends on the board.
pub open spec fn all_from(moves: Seq<Move>, c: Coord) -> bool {
    forall|i: int| 0 <= i < moves.len() ==> (#[trigger] moves[i]).orig == c && moves[i].dst.on_board()
}

/// Whether every one of the given moves starts and ends on the board.
pub open spec fn all_on_board(moves: Seq<Move>) -> bool {
    forall|i: int|
        0 <= i < moves.len() ==> (#[trigger] moves[i]).orig.on_board() && moves[i].dst.on_board()
}

impl Position {
    /// The moves of what stands on `c`, where it belongs to the side to move.
    pub open spec fn own_at(self, c: Coord) -> Seq<Move> {
        if self.at(c) != Piece::Empty && self.at(c).color() == self.to_move {
            self.pseudo_at(c)
        } else {
            Seq::empty()
        }
    }

    /// The moves of the pieces of the side to move on the first `k` squares.
    pub open spec fn pseudo_upto(self, k: int) -> Seq<Move>
        decreases k,
    {
        if k <= 0 {
            Seq::empty()
        } else {
            self.pseudo_upto(k - 1) + self.own_at(nth_square(k - 1))
        }
    }

    /// The moves of all pieces of the side to move, square by square, each by
    /// its own rule of movement alone.
    pub open spec fn pseudo_moves(self) -> Seq<Move> {
        self.pseudo_upto(64)
    }

    /// Whether the king of the given colour is attacked: a move of the other
    /// side, were it that side's turn, would end on its square.
    pub open spec fn in_check(self, color: Color) -> bool {
        self.king_attacked(self.with_turn(color.flipped()).pseudo_moves(), color)
    }

    /// Whether a move is a castling move: a king that moves two files.
    pub open spec fn is_castling(self, mov: Move) -> bool {
        self.at(mov.orig).kind() == Kind::King && (mov.orig.file_of() - mov.dst.file_of() == 2
            || mov.dst.file_of() - mov.orig.file_of() == 2)
    }

    /// The move of a castling king to the square that it passes over.
    pub open spec fn passing(mov: Move) -> Move {
        plain(
            mov.orig,
            Coord((mov.dst.rank_of() * 16 + (mov.orig.file_of() + mov.dst.file_of()) / 2) as u8),
        )
    }

    /// Whether a move is legal for the side to move: it does not leave the
    /// mover's king attacked, and a castling king is not in check and does
    /// not pass over an attacked square.
    pub open spec fn is_legal(self, mov: Move) -> bool {
        &&& self.is_castling(mov) ==> !self.in_check(self.to_move) && !self.after_move(
            Self::passing(mov),
        ).in_check(self.to_move)
        &&& !self.after_move(mov).in_check(self.to_move)
    }

    /// The test by which the legal moves are picked.
    pub open spec fn legal_pred(self) -> spec_fn(Move) -> bool {
        |mov: Move| self.is_legal(mov)
    }

    /// The legal moves of the side to move, in the order in which its pieces'
    /// moves are found.
    pub open spec fn legal_moves(self) -> Seq<Move> {
        self.pseudo_moves().filter(self.legal_pred())
    }

    /// The legal moves of what stands on `c`; none where it does not belong to
    /// the side to move.
    pub open spec fn legal_from(self, c: Coord) -> Seq<Move> {
        self.own_at(c).filter(self.legal_pred())
    }
}

/// Two sequences of moves that start on `c` and end on the board make one
/// when joined.
pub proof fn lemma_all_from_concat(a: Seq<Move>, b: Seq<Move>, c: Coord)
    requires
        all_from(a, c),
        all_from(b, c),
    ensures
        all_from(a + b, c),
{
    assert forall|i: int| 0 <= i < (a + b).len() implies (#[trigger] (a + b)[i]).orig == c && (a
        + b)[i].dst.on_board() by {
        if i < a.len() {
            assert((a + b)[i] == a[i]);
        } else {
            assert((a + b)[i] == b[i - a.len()]);
        }
    }
}

/// A single step from a square starts there and ends on the board.
pub proof fn lemma_hop_from(pos: Position, orig: Coord, d_rank: int, d_file: int)
    ensures
        all_from(pos.hop(orig, d_rank, d_file), orig),
{
}

/// The moves of a sliding piece start on its square and end on the board.
pub proof fn lemma_ray_from(pos: Position, orig: Coord, d_rank: int, d_file: int, k: int)
    ensures
        all_from(pos.ray(orig, d_rank, d_file, k), orig),
    decreases 8 - k,
{
    if 1 <= k < 8 {
        match orig.offset(k * d_rank, k * d_file) {
            Some(dst) => {
                if pos.at(dst) == Piece::Empty {
                    lemma_ray_from(pos, orig, d_rank, d_file, k + 1);
                    lemma_all_from_concat(
                        seq![plain(orig, dst)],
                        pos.ray(orig, d_rank, d_file, k + 1),
                        orig,
                    );
                }
            },
            None => {},
        }
    }
}

/// The moves of a rook start on its square and end on the board.
proof fn lemma_rook_from(pos: Position, orig: Coord)
    ensures
        all_from(pos.rook_moves(orig), orig),
{
    lemma_ray_from(pos, orig, 1, 0, 1);
    lemma_ray_from(pos, orig, -1, 0, 1);
    lemma_ray_from(pos, orig, 0, 1, 1);
    lemma_ray_from(pos, orig, 0, -1, 1);
    let a = pos.ray(orig, 1, 0, 1);
    let b = pos.ray(orig, -1, 0, 1);
    let c = pos.ray(orig, 0, 1, 1);
    let d = pos.ray(orig, 0, -1, 1);
    lemma_all_from_concat(a, b, orig);
    lemma_all_from_concat(a + b, c, orig);
    lemma_all_from_concat(a + b + c, d, orig);
}

/// The moves of a bishop start on its square and end on the board.
proof fn lemma_bishop_from(pos: Position, orig: Coord)
    ensures
        all_from(pos.bishop_moves(orig), orig),
{
    lemma_ray_from(pos, orig, 1, 1, 1);
    lemma_ray_from(pos, orig, 1, -1, 1);
    lemma_ray_from(pos, orig, -1, 1, 1);
    lemma_ray_from(pos, orig, -1, -1, 1);
    let a = pos.ray(orig, 1, 1, 1);
    let b = pos.ray(orig, 1, -1, 1);
    let c = pos.ray(orig, -1, 1, 1);
    let d = pos.ray(orig, -1, -1, 1);
    lemma_all_from_concat(a, b, orig);
    lemma_all_from_concat(a + b, c, orig);
    lemma_all_from_concat(a + b + c, d, orig);
}

/// The moves of a knight start on its square and end on the board.
proof fn lemma_knight_from(pos: Position, orig: Coord)
    ensures
        all_from(pos.knight_moves(orig), orig),
{
    let h1 = pos.hop(orig, 2, 1);
    let h2 = pos.hop(orig, 2, -1);
    let h3 = pos.hop(orig, 1, 2);
    let h4 = pos.hop(orig, -1, 2);
    let h5 = pos.hop(orig, -2, 1);
    let h6 = pos.hop(orig, -2, -1);
    let h7 = pos.hop(orig, -1, -2);
    let h8 = pos.hop(orig, 1, -2);
    lemma_hop_from(pos, orig, 2, 1);
    lemma_hop_from(pos, orig, 2, -1);
    lemma_hop_from(pos, orig, 1, 2);
    lemma_hop_from(pos, orig, -1, 2);
    lemma_hop_from(pos, orig, -2, 1);
    lemma_hop_from(pos, orig, -2, -1);
    lemma_hop_from(pos, orig, -1, -2);
    lemma_hop_from(pos, orig, 1, -2);
    lemma_all_from_concat(h1, h2, orig);
    lemma_all_from_concat(h1 + h2, h3, orig);
    lemma_all_from_concat(h1 + h2 + h3, h4, orig);
    lemma_all_from_concat(h1 + h2 + h3 + h4, h5, orig);
    lemma_all_from_concat(h1 + h2 + h3 + h4 + h5, h6, orig);
    lemma_all_from_concat(h1 + h2 + h3 + h4 + h5 + h6, h7, orig);
    lemma_all_from_concat(h1 + h2 + h3 + h4 + h5 + h6 + h7, h8, orig);
}

/// The steps of a king to one rank start on its square and end on the board.
proof fn lemma_king_row_from(pos: Position, orig: Coord, d_rank: int)
    ensures
        all_from(pos.king_row(orig, d_rank), orig),
{
    let h1 = pos.hop(orig, d_rank, -1);
    let h2 = pos.hop(orig, d_rank, 0);
    let h3 = pos.hop(orig, d_rank, 1);
    lemma_hop_from(pos, orig, d_rank, -1);
    lemma_hop_from(pos, orig, d_rank, 0);
    lemma_hop_from(pos, orig, d_rank, 1);
    lemma_all_from_concat(h1, h2, orig);
    lemma_all_from_concat(h1 + h2, h3, orig);
}

/// The moves of a king start on its square and end on the board.
proof fn lemma_king_from(pos: Position, orig: Coord)
    ensures
        all_from(pos.king_moves(orig), orig),
{
    let r1 = pos.king_row(orig, -1);
    let r2 = pos.king_row(orig, 0);
    let r3 = pos.king_row(orig, 1);
    let c1 = pos.castle_kingside(orig);
    let c2 = pos.castle_queenside(orig);
    lemma_king_row_from(pos, orig, -1);
    lemma_king_row_from(pos, orig, 0);
    lemma_king_row_from(pos, orig, 1);
    lemma_hop_from(pos, orig, 0, 2);
    lemma_hop_from(pos, orig, 0, -2);
    assert(all_from(c1, orig));
    assert(all_from(c2, orig));
    lemma_all_from_concat(r1, r2, orig);
    lemma_all_from_concat(r1 + r2, r3, orig);
    lemma_all_from_concat(r1 + r2 + r3, c1, orig);
    lemma_all_from_concat(r1 + r2 + r3 + c1, c2, orig);
}

/// The moves of a pawn start on its square and end on the board.
proof fn lemma_pawn_from(pos: Position, orig: Coord)
    ensures
        all_from(pos.pawn_moves(orig), orig),
{
    let dir = pos.pawn_dir(orig);
    let p = pos.pawn_pushes(orig);
    let c1 = pos.pawn_capture(orig, -1);
    let c2 = pos.pawn_capture(orig, 1);
    assert(all_from(p, orig)) by {
        match orig.offset(dir, 0) {
            Some(dst) => {
                if pos.at(dst) == Piece::Empty {
                    let far = match orig.offset(2 * dir, 0) {
                        Some(far) => if orig.rank_of() == pos.pawn_home(orig) && pos.at(far)
                            == Piece::Empty {
                            seq![plain(orig, far)]
                        } else {
                            Seq::empty()
                        },
                        None => Seq::empty(),
                    };
                    assert(all_from(pos.landing(orig, dst), orig));
                    assert(all_from(far, orig));
                    lemma_all_from_concat(pos.landing(orig, dst), far, orig);
                }
            },
            None => {},
        }
    }
    assert(all_from(c1, orig));
    assert(all_from(c2, orig));
    lemma_all_from_concat(p, c1, orig);
    lemma_all_from_concat(p + c1, c2, orig);
}

/// Every move found for what stands on a square starts on that square and
/// ends on the board.
pub proof fn lemma_pseudo_at_from(pos: Position, c: Coord)
    ensures
        all_from(pos.pseudo_at(c), c),
{
    match pos.at(c).kind() {
        Kind::Pawn => lemma_pawn_from(pos, c),
        Kind::Rook => lemma_rook_from(pos, c),
        Kind::Bishop => lemma_bishop_from(pos, c),
        Kind::Queen => {
            lemma_rook_from(pos, c);
            lemma_bishop_from(pos, c);
            lemma_all_from_concat(pos.rook_moves(c), pos.bishop_moves(c), c);
        },
        Kind::Knight => lemma_knight_from(pos, c),
        Kind::King => lemma_king_from(pos, c),
        Kind::Empty => {},
    }
}

/// Every move found for the side to move starts and ends on the board.
pub proof fn lemma_pseudo_upto_on_board(pos: Position, k: int)
    requires
        k <= 64,
    ensures
        all_on_board(pos.pseudo_upto(k)),
    decreases k,
{
    if k > 0 {
        lemma_pseudo_upto_on_board(pos, k - 1);
        lemma_pseudo_at_from(pos, nth_square(k - 1));
        let a = pos.pseudo_upto(k - 1);
        let b = pos.own_at(nth_square(k - 1));
        assert(nth_square(k - 1).on_board());
        assert forall|i: int| 0 <= i < (a + b).len() implies (#[trigger] (a + b)[i]).orig.on_board()
            && (a + b)[i].dst.on_board() by {
            if i < a.len() {
                assert((a + b)[i] == a[i]);
            } else {
                assert((a + b)[i] == b[i - a.len()]);
            }
        }
    }
}

/// Joining three sequences gives the same whichever two are joined first.
pub proof fn lemma_concat_assoc<A>(a: Seq<A>, b: Seq<A>, c: Seq<A>)
    ensures
        (a + b) + c == a + (b + c),
{
    assert((a + b) + c =~= a + (b + c));
}

/// Adds the move that takes the piece on `orig` by the steps `add`, where the
/// square reached is on the board and is empty or holds an enemy. It says
/// whether the move takes a piece, and fails, adding nothing, where there is
/// no such move.
pub fn add_move(board: &Board, moves: &mut Vec<Move>, orig: Coord, add: (isize, isize)) -> (r:
    Result<bool, ()>)
    requires
        orig.on_board(),
    ensures
        final(moves)@ == old(moves)@ + board@.hop(orig, add.0 as int, add.1 as int),
        r.is_ok() == (board@.hop(orig, add.0 as int, add.1 as int).len() == 1),
        r.is_ok() ==> r.unwrap() == (board@.at(orig.offset(add.0 as int, add.1 as int).unwrap())
            != Piece::Empty),
{
    match orig.add(add) {
        Ok(c) => {
            let target = board.piece_at(c);
            if target == Piece::Empty || target.get_color() != board.piece_at(orig).get_color() {
                moves.push(Move::new(orig, c, None));
                assert(moves@ =~= old(moves)@ + board@.hop(orig, add.0 as int, add.1 as int));
                Ok(target != Piece::Empty)
            } else {
                assert(moves@ =~= old(moves)@ + board@.hop(orig, add.0 as int, add.1 as int));
                Err(())
            }
        },
        Err(_) => {
            assert(moves@ =~= old(moves)@ + board@.hop(orig, add.0 as int, add.1 as int));
            Err(())
        },
    }
}

/// Adds the moves of a piece that slides from `orig` in one direction.
fn add_ray(board: &Board, moves: &mut Vec<Move>, orig: Coord, d_rank: isize, d_file: isize)
    requires
        orig.on_board(),
        -1 <= d_rank <= 1,
        -1 <= d_file <= 1,
    ensures
        final(moves)@ == old(moves)@ + board@.ray(orig, d_rank as int, d_file as int, 1),
{
    let mut k: isize = 1;
    while k < 8
        invariant
            orig.on_board(),
            -1 <= d_rank <= 1,
            -1 <= d_file <= 1,
            1 <= k <= 8,
            old(moves)@ + board@.ray(orig, d_rank as int, d_file as int, 1) == moves@ + board@.ray(
                orig,
                d_rank as int,
                d_file as int,
                k as int,
            ),
        decreases 8 - k,
    {
        let ghost before = moves@;
        let ghost rest = board@.ray(orig, d_rank as int, d_file as int, k + 1);
        assert(-8 < k * d_rank < 8 && -8 < k * d_file < 8) by (nonlinear_arith)
            requires
                1 <= k < 8,
                -1 <= d_rank <= 1,
                -1 <= d_file <= 1,
        ;
        let took = add_move(board, moves, orig, (k * d_rank, k * d_file));
        // A capture and a blocked square both end the ray.
        let stop = match took {
            Ok(capture) => capture,
            Err(_) => true,
        };
        if stop {
            assert(moves@ =~= old(moves)@ + board@.ray(orig, d_rank as int, d_file as int, 1));
            assert(board@.ray(orig, d_rank as int, d_file as int, 8) =~= Seq::<Move>::empty());
            k = 8;
        } else {
            assert(before + (seq![plain(orig, orig.offset(k * d_rank, k * d_file).unwrap())] + rest)
                =~= moves@ + rest);
            k = k + 1;
        }
    }
    assert(board@.ray(orig, d_rank as int, d_file as int, 8) =~= Seq::<Move>::empty());
    assert(moves@ =~= moves@ + Seq::<Move>::empty());
}

/// Adds the moves of a rook on `orig`.
fn add_rook_moves(board: &Board, orig: Coord, moves: &mut Vec<Move>)
    requires
        orig.on_board(),
    ensures
        final(moves)@ == old(moves)@ + board@.rook_moves(orig),
{
    add_ray(board, moves, orig, 1, 0);
    add_ray(board, moves, orig, -1, 0);
    add_ray(board, moves, orig, 0, 1);
    add_ray(board, moves, orig, 0, -1);
    assert(moves@ =~= old(moves)@ + board@.rook_moves(orig));
}

/// Adds the moves of a bishop on `orig`.
fn add_bishop_moves(board: &Board, orig: Coord, moves: &mut Vec<Move>)
    requires
        orig.on_board(),
    ensures
        final(moves)@ == old(moves)@ + board@.bishop_moves(orig),
{
    add_ray(board, moves, orig, 1, 1);
    add_ray(board, moves, orig, 1, -1);
    add_ray(board, moves, orig, -1, 1);
    add_ray(board, moves, orig, -1, -1);
    assert(moves@ =~= old(moves)@ + board@.bishop_moves(orig));
}

/// Adds the move of the piece on `orig` by the given steps, if there is one.
fn add_hop(board: &Board, moves: &mut Vec<Move>, orig: Coord, d_rank: isize, d_file: isize)
    requires
        orig.on_board(),
    ensures
        final(moves)@ == old(moves)@ + board@.hop(orig, d_rank as int, d_file as int),
{
    let _ = add_move(board, moves, orig, (d_rank, d_file));
}

/// Adds the moves of a knight on `orig`.
fn add_knight_moves(board: &Board, orig: Coord, moves: &mut Vec<Move>)
    requires
        orig.on_board(),
    ensures
        final(moves)@ == old(moves)@ + board@.knight_moves(orig),
{
    let ghost pos = board@;
    let ghost m0 = moves@;
    add_hop(board, moves, orig, 2, 1);
    let ghost s1 = pos.hop(orig, 2, 1);
    add_hop(board, moves, orig, 2, -1);
    let ghost s2 = s1 + pos.hop(orig, 2, -1);
    proof {
        lemma_concat_assoc(m0, s1, pos.hop(orig, 2, -1));
    }
    add_hop(board, moves, orig, 1, 2);
    let ghost s3 = s2 + pos.hop(orig, 1, 2);
    proof {
        lemma_concat_assoc(m0, s2, pos.hop(orig, 1, 2));
    }
    add_hop(board, moves, orig, -1, 2);
    let ghost s4 = s3 + pos.hop(orig, -1, 2);
    proof {
        lemma_concat_assoc(m0, s3, pos.hop(orig, -1, 2));
    }
    add_hop(board, moves, orig, -2, 1);
    let ghost s5 = s4 + pos.hop(orig, -2, 1);
    proof {
        lemma_concat_assoc(m0, s4, pos.hop(orig, -2, 1));
    }
    add_hop(board, moves, orig, -2, -1);
    let ghost s6 = s5 + pos.hop(orig, -2, -1);
    proof {
        lemma_concat_assoc(m0, s5, pos.hop(orig, -2, -1));
    }
    add_hop(board, moves, orig, -1, -2);
    let ghost s7 = s6 + pos.hop(orig, -1, -2);
    proof {
        lemma_concat_assoc(m0, s6, pos.hop(orig, -1, -2));
    }
    add_hop(board, moves, orig, 1, -2);
    proof {
        lemma_concat_assoc(m0, s7, pos.hop(orig, 1, -2));
    }
}

/// Adds the steps of a king to the three squares of the rank `d_rank` away.
fn add_king_row(board: &Board, orig: Coord, moves: &mut Vec<Move>, d_rank: isize)
    requires
        orig.on_board(),
    ensures
        final(moves)@ == old(moves)@ + board@.king_row(orig, d_rank as int),
{
    add_hop(board, moves, orig, d_rank, -1);
    add_hop(board, moves, orig, d_rank, 0);
    add_hop(board, moves, orig, d_rank, 1);
    assert(moves@ =~= old(moves)@ + board@.king_row(orig, d_rank as int));
}

/// Adds the kingside castling move of the king on `orig`, where it is offered.
fn add_castle_kingside(board: &Board, orig: Coord, moves: &mut Vec<Move>)
    requires
        orig.on_board(),
    ensures
        final(moves)@ == old(moves)@ + board@.castle_kingside(orig),
{
    let color = board.piece_at(orig).get_color();
    let k: usize = 2 * (color.index() as usize);
    let base: u8 = orig.rank() * 16;
    if board.castling[k] && board.piece_at(Coord(base + 7)) == Piece::RookW.to_color(color)
        && board.piece_at(Coord(base + 6)) == Piece::Empty && board.piece_at(Coord(base + 5))
        == Piece::Empty {
        add_hop(board, moves, orig, 0, 2);
    } else {
        assert(moves@ =~= old(moves)@ + board@.castle_kingside(orig));
    }
}

/// Adds the queenside castling move of the king on `orig`, where it is
/// offered.
fn add_castle_queenside(board: &Board, orig: Coord, moves: &mut Vec<Move>)
    requires
        orig.on_board(),
    ensures
        final(moves)@ == old(moves)@ + board@.castle_queenside(orig),
{
    let color = board.piece_at(orig).get_color();
    let k: usize = 2 * (color.index() as usize);
    let base: u8 = orig.rank() * 16;
    if board.castling[k + 1] && board.piece_at(Coord(base)) == Piece::RookW.to_color(color)
        && board.piece_at(Coord(base + 1)) == Piece::Empty && board.piece_at(Coord(base + 2))
        == Piece::Empty && board.piece_at(Coord(base + 3)) == Piece::Empty {
        add_hop(board, moves, orig, 0, -2);
    } else {
        assert(moves@ =~= old(moves)@ + board@.castle_queenside(orig));
    }
}

/// Adds the moves of a king on `orig`: its steps, then castling.
fn add_king_moves(board: &Board, orig: Coord, moves: &mut Vec<Move>)
    requires
        orig.on_board(),
    ensures
        final(moves)@ == old(moves)@ + board@.king_moves(orig),
{
    add_king_row(board, orig, moves, -1);
    add_king_row(board, orig, moves, 0);
    add_king_row(board, orig, moves, 1);
    add_castle_kingside(board, orig, moves);
    add_castle_queenside(board, orig, moves);
    assert(moves@ =~= old(moves)@ + board@.king_moves(orig));
}

/// Adds the moves by which the pawn on `orig` lands on `dst`.
fn add_landing(board: &Board, orig: Coord, dst: Coord, moves: &mut Vec<Move>)
    requires
        orig.on_board(),
    ensures
        final(moves)@ == old(moves)@ + board@.landing(orig, dst),
{
    if dst.rank() == 0 || dst.rank() == 7 {
        let color = board.piece_at(orig).get_color();
        moves.push(Move::new(orig, dst, Some(Piece::QueenW.to_color(color))));
        moves.push(Move::new(orig, dst, Some(Piece::KnightW.to_color(color))));
        moves.push(Move::new(orig, dst, Some(Piece::BishopW.to_color(color))));
        moves.push(Move::new(orig, dst, Some(Piece::RookW.to_color(color))));
    } else {
        moves.push(Move::new(orig, dst, None));
    }
    assert(moves@ =~= old(moves)@ + board@.landing(orig, dst));
}

/// Adds the moves of a pawn on `orig`: its advances, then its captures.
fn add_pawn_moves(board: &Board, orig: Coord, moves: &mut Vec<Move>)
    requires
        orig.on_board(),
    ensures
        final(moves)@ == old(moves)@ + board@.pawn_moves(orig),
{
    let white = board.piece_at(orig).is_white();
    let row_add: isize = if white {
        1
    } else {
        -1
    };
    let home: u8 = if white {
        1
    } else {
        6
    };
    if let Ok(c) = orig.add((row_add, 0)) {
        if board.piece_at(c) == Piece::Empty {
            add_landing(board, orig, c, moves);
            if orig.rank() == home {
                if let Ok(c2) = orig.add((row_add * 2, 0)) {
                    if board.piece_at(c2) == Piece::Empty {
                        moves.push(Move::new(orig, c2, None));
                    }
                }
            }
        }
    }
    assert(moves@ =~= old(moves)@ + board@.pawn_pushes(orig));
    add_pawn_capture(board, orig, moves, row_add, -1);
    add_pawn_capture(board, orig, moves, row_add, 1);
    assert(moves@ =~= old(moves)@ + board@.pawn_moves(orig));
}

/// Adds the capture of the pawn on `orig` towards the side `file_add`.
fn add_pawn_capture(
    board: &Board,
    orig: Coord,
    moves: &mut Vec<Move>,
    row_add: isize,
    file_add: isize,
)
    requires
        orig.on_board(),
        row_add == board@.pawn_dir(orig),
        -1 <= file_add <= 1,
    ensures
        final(moves)@ == old(moves)@ + board@.pawn_capture(orig, file_add as int),
{
    if let Ok(c) = orig.add((row_add, file_add)) {
        let target = board.piece_at(c);
        let in_passing = match board.en_pass_tgt {
            Some(tgt) => c == tgt,
            None => false,
        };
        if (target != Piece::Empty && target.get_color() != board.piece_at(orig).get_color())
            || in_passing {
            add_landing(board, orig, c, moves);
        }
    }
    assert(moves@ =~= old(moves)@ + board@.pawn_capture(orig, file_add as int));
}

/// Adds the moves of whatever stands on `coord`, by its own rule of movement
/// alone: moves that leave the mover's king in check are among them, and
/// whose turn it is plays no part.
pub fn gen_at_coord_illegal(board: &Board, coord: Coord, moves: &mut Vec<Move>)
    requires
        coord.on_board(),
    ensures
        final(moves)@ == old(moves)@ + board@.pseudo_at(coord),
{
    let piece = board.piece_at(coord);
    match piece {
        Piece::PawnW | Piece::PawnB => add_pawn_moves(board, coord, moves),
        Piece::RookW | Piece::RookB => add_rook_moves(board, coord, moves),
        Piece::BishopW | Piece::BishopB => add_bishop_moves(board, coord, moves),
        Piece::QueenW | Piece::QueenB => {
            add_rook_moves(board, coord, moves);
            add_bishop_moves(board, coord, moves);
            assert(moves@ =~= old(moves)@ + board@.pseudo_at(coord));
        },
        Piece::KnightW | Piece::KnightB => add_knight_moves(board, coord, moves),
        Piece::KingW | Piece::KingB => add_king_moves(board, coord, moves),
        Piece::Empty => {
            assert(moves@ =~= old(moves)@ + board@.pseudo_at(coord));
        },
    }
}

/// All moves of the pieces of the side to move, each by its own rule of
/// movement alone: moves that leave the mover's king in check are among them.
pub fn gen_moves_illegal(board: &Board) -> (moves: Vec<Move>)
    ensures
        moves@ == board@.pseudo_moves(),
        all_on_board(moves@),
{
    let mut moves: Vec<Move> = Vec::new();
    let mut k: u8 = 0;
    while k < 64
        invariant
            0 <= k <= 64,
            moves@ == board@.pseudo_upto(k as int),
        decreases 64 - k,
    {
        let coord = Coord((k / 8) * 16 + k % 8);
        let piece = board.piece_at(coord);
        if piece != Piece::Empty && piece.get_color() == board.to_move {
            gen_at_coord_illegal(board, coord, &mut moves);
        } else {
            assert(moves@ =~= moves@ + Seq::<Move>::empty());
        }
        k += 1;
    }
    proof {
        lemma_pseudo_upto_on_board(board@, 64);
    }
    moves
}

/// Whether the king of the given colour is attacked on the board.
pub fn in_check(board: &Board, color: Color) -> (r: bool)
    ensures
        r == board@.in_check(color),
{
    let mut other = board.clone();
    other.to_move = color.flip();
    assert(other@ == board@.with_turn(color.flipped()));
    let replies = gen_moves_illegal(&other);
    board.check_check(&replies, color)
}

/// Whether a move is legal for the side to move.
pub fn is_legal(board: &Board, mov: Move) -> (r: bool)
    requires
        mov.orig.on_board(),
        mov.dst.on_board(),
    ensures
        r == board@.is_legal(mov),
{
    let mover = board.to_move;
    let piece = board.piece_at(mov.orig);
    if piece.to_color(Color::White) == Piece::KingW {
        let orig_file = mov.orig.file();
        let dst_file = mov.dst.file();
        if (orig_file >= dst_file && orig_file - dst_file == 2) || (dst_file >= orig_file
            && dst_file - orig_file == 2) {
            if in_check(board, mover) {
                return false;
            }
            let mid = Coord(mov.dst.rank() * 16 + (orig_file + dst_file) / 2);
            let mut passed = board.clone();
            passed.make_move(Move::new(mov.orig, mid, None));
            assert(passed@.with_turn(mover.flipped()) == passed@);
            if in_check(&passed, mover) {
                return false;
            }
        }
    }
    let mut after = board.clone();
    after.make_move(mov);
    assert(after@.with_turn(mover.flipped()) == after@);
    !in_check(&after, mover)
}

/// The legal ones among the given moves, in their order.
pub fn keep_legal(board: &Board, moves: &Vec<Move>) -> (legal: Vec<Move>)
    requires
        all_on_board(moves@),
    ensures
        legal@ == moves@.filter(board@.legal_pred()),
        all_on_board(legal@),
{
    let mut legal: Vec<Move> = Vec::with_capacity(moves.len());
    let n = moves.len();
    let mut i: usize = 0;
    assert(moves@.subrange(0, 0) =~= Seq::<Move>::empty());
    proof {
        reveal(Seq::filter);
    }
    while i < n
        invariant
            n == moves.len(),
            0 <= i <= n,
            all_on_board(moves@),
            all_on_board(legal@),
            legal@ == moves@.subrange(0, i as int).filter(board@.legal_pred()),
        decreases n - i,
    {
        let mov = moves[i];
        proof {
            let done = moves@.subrange(0, i as int);
            done.lemma_filter_push(mov, board@.legal_pred());
            assert(done.push(mov) =~= moves@.subrange(0, i + 1));
        }
        if is_legal(board, mov) {
            legal.push(mov);
        }
        i += 1;
    }
    assert(moves@.subrange(0, n as int) =~= moves@);
    legal
}

/// The legal moves of the side to move.
pub fn gen_moves(board: &Board) -> (moves: Vec<Move>)
    ensures
        moves@ == board@.legal_moves(),
        all_on_board(moves@),
{
    let moves = gen_moves_illegal(board);
    keep_legal(board, &moves)
}

/// The number of a square of the board among its 64 squares, rank by rank.
pub open spec fn square_number(c: Coord) -> int {
    c.rank_of() * 8 + c.file_of()
}

impl Position {
    /// The legal moves of the pieces on the first `k` squares, square by
    /// square.
    pub open spec fn legal_upto(self, k: int) -> Seq<Move>
        decreases k,
    {
        if k <= 0 {
            Seq::empty()
        } else {
            self.legal_upto(k - 1) + self.legal_from(nth_square(k - 1))
        }
    }

    /// How many legal moves the pieces on the first `k` squares have, added up
    /// square by square.
    pub open spec fn legal_count_upto(self, k: int) -> nat
        decreases k,
    {
        if k <= 0 {
            0
        } else {
            self.legal_count_upto(k - 1) + self.legal_from(nth_square(k - 1)).len()
        }
    }

    /// The legal moves as a mapping: each square of the board with the legal
    /// moves that start on it.
    pub open spec fn legal_map(self) -> Map<Coord, Seq<Move>> {
        Map::new(|c: Coord| c.on_board(), |c: Coord| self.legal_from(c))
    }
}

/// The legal moves of a position, one row for each square of the board.
pub struct MoveDict {
    pub rows: Vec<Vec<Move>>,
}

impl MoveDict {
    /// Whether there is a row for each of the 64 squares.
    pub open spec fn wf(self) -> bool {
        self.rows.len() == 64
    }

    /// How many moves the first `k` rows hold.
    pub open spec fn count_upto(self, k: int) -> nat
        decreases k,
    {
        if k <= 0 {
            0
        } else {
            self.count_upto(k - 1) + self.rows[k - 1]@.len()
        }
    }
}

impl View for MoveDict {
    type V = Map<Coord, Seq<Move>>;

    open spec fn view(&self) -> Map<Coord, Seq<Move>> {
        Map::new(|c: Coord| c.on_board(), |c: Coord| self.rows[square_number(c)]@)
    }
}

/// The square with a given number has that number, and every square of the
/// board is the one with its number.
pub proof fn lemma_square_numbers(k: int, c: Coord)
    ensures
        0 <= k < 64 ==> nth_square(k).on_board() && square_number(nth_square(k)) == k,
        c.on_board() ==> 0 <= square_number(c) < 64 && nth_square(square_number(c)) == c,
{
}

/// The flat sequence of legal moves is the rows of the mapping joined square
/// by square.
pub proof fn lemma_legal_upto(pos: Position, k: int)
    ensures
        pos.pseudo_upto(k).filter(pos.legal_pred()) == pos.legal_upto(k),
        pos.legal_upto(k).len() == pos.legal_count_upto(k),
    decreases k,
{
    reveal(Seq::filter);
    if k > 0 {
        lemma_legal_upto(pos, k - 1);
        Seq::filter_distributes_over_add(
            pos.pseudo_upto(k - 1),
            pos.own_at(nth_square(k - 1)),
            pos.legal_pred(),
        );
    }
}

/// The two forms in which the legal moves are given agree: the flat sequence
/// holds the moves of the mapping, square by square, and as many moves as the
/// rows of the mapping hold together.
pub proof fn lemma_flat_agrees_with_mapping(pos: Position)
    ensures
        pos.legal_moves() == pos.legal_upto(64),
        pos.legal_moves().len() == pos.legal_count_upto(64),
{
    lemma_legal_upto(pos, 64);
}

impl MoveDict {
    /// The moves that start on a square.
    pub fn get(&self, c: Coord) -> (row: &Vec<Move>)
        requires
            self.wf(),
            c.on_board(),
        ensures
            row@ == self@[c],
    {
        &self.rows[c.rank() as usize * 8 + c.file() as usize]
    }

    /// How many moves the mapping holds in all; the largest number of the
    /// machine where there are more.
    pub fn total(&self) -> (n: usize)
        requires
            self.wf(),
        ensures
            n == (if self.count_upto(64) <= usize::MAX {
                self.count_upto(64)
            } else {
                usize::MAX as nat
            }),
    {
        let mut n: usize = 0;
        let mut k: usize = 0;
        while k < 64
            invariant
                self.wf(),
                0 <= k <= 64,
                n == (if self.count_upto(k as int) <= usize::MAX {
                    self.count_upto(k as int)
                } else {
                    usize::MAX as nat
                }),
            decreases 64 - k,
        {
            n = n.saturating_add(self.rows[k].len());
            k += 1;
        }
        n
    }
}

/// The legal moves of the side to move as a mapping from each square to the
/// moves that start on it.
pub fn gen_move_dict(board: &Board) -> (dict: MoveDict)
    ensures
        dict.wf(),
        dict@ == board@.legal_map(),
        dict.count_upto(64) == board@.legal_moves().len(),
{
    let mut rows: Vec<Vec<Move>> = Vec::new();
    let mut k: u8 = 0;
    while k < 64
        invariant
            0 <= k <= 64,
            rows.len() == k,
            forall|j: int| 0 <= j < k ==> (#[trigger] rows[j])@ == board@.legal_from(nth_square(j)),
        decreases 64 - k,
    {
        let coord = Coord((k / 8) * 16 + k % 8);
        let piece = board.piece_at(coord);
        let mut found: Vec<Move> = Vec::new();
        if piece != Piece::Empty && piece.get_color() == board.to_move {
            gen_at_coord_illegal(board, coord, &mut found);
            assert(found@ =~= board@.own_at(coord));
        }
        proof {
            lemma_pseudo_at_from(board@, coord);
        }
        let legal = keep_legal(board, &found);
        rows.push(legal);
        k += 1;
    }
    let dict = MoveDict { rows };
    proof {
        assert forall|c: Coord| c.on_board() implies #[trigger] dict@[c] == board@.legal_map()[c] by {
            lemma_square_numbers(0, c);
        }
        assert(dict@ =~= board@.legal_map());
        lemma_dict_count(dict, board@, 64);
        lemma_flat_agrees_with_mapping(board@);
    }
    dict
}

/// A mapping whose rows are the legal moves of the squares holds as many
/// moves as those squares have.
proof fn lemma_dict_count(dict: MoveDict, pos: Position, k: int)
    requires
        dict.wf(),
        k <= 64,
        forall|j: int| 0 <= j < 64 ==> (#[trigger] dict.rows[j])@ == pos.legal_from(nth_square(j)),
    ensures
        dict.count_upto(k) == pos.legal_count_upto(k),
    decreases k,
{
    if k > 0 {
        lemma_dict_count(dict, pos, k - 1);
    }
}

} // verus!
