use vstd::prelude::*;
use vstd::string::*;

use crate::coord::{encode, number_on_board, square_of, Coord};
use crate::fen::{
    chars_of, copy_range, empty_squares, fen_position, field, field_start, next_field,
    parse_placement, parse_rights, parse_square, parse_turn, place_from, placement, rights_of,
    skip_field, skip_spaces,
};
use crate::moves::Move;
use crate::{piece_of, Color, Kind, Piece};

verus! {

/// A text that describes no position.
#[derive(Debug)]
pub struct InvalidFenStringError {
    pub fen: String,
}

impl View for InvalidFenStringError {
    type V = Seq<char>;

    open spec fn view(&self) -> Seq<char> {
        self.fen@
    }
}

impl InvalidFenStringError {
    /// An error that holds the text that was refused.
    pub fn new(fen: &str) -> (e: Self)
        ensures
            e@ == fen@,
    {
        Self { fen: String::from_str(fen) }
    }

    /// The error in words, with the text that was refused.
    pub fn message(&self) -> (m: String)
        ensures
            m@ == "Invalid FEN String "@ + self@,
    {
        let mut m = String::from_str("Invalid FEN String ");
        m.append(self.fen.as_str());
        m
    }
}

/// A position: what stands on each of the 128 slots, whose turn it is, the
/// four castling rights (white kingside, white queenside, black kingside,
/// black queenside) and the square that a pawn may capture onto in passing.
#[derive(PartialEq, Eq, Debug)]
pub struct Board {
    pub board: [Piece; 128],
    pub to_move: Color,
    pub castling: [bool; 4],
    pub en_pass_tgt: Option<Coord>,
}

/// A position as a mathematical value.
pub struct Position {
    pub squares: Seq<Piece>,
    pub to_move: Color,
    pub castling: Seq<bool>,
    pub en_passant: Option<Coord>,
}

impl View for Board {
    type V = Position;

    open spec fn view(&self) -> Position {
        Position {
            squares: self.board@,
            to_move: self.to_move,
            castling: self.castling@,
            en_passant: self.en_pass_tgt,
        }
    }
}

/// The place of a colour's kingside right among the castling rights; its
/// queenside right follows it.
pub open spec fn right_index(color: Color) -> int {
    2 * color.index_of()
}

impl Position {
    /// Whether the position has its 128 slots and four rights, nothing stands
    /// on a slot off the board, and the en-passant square, if any, is on the
    /// board.
    pub open spec fn wf(self) -> bool {
        &&& self.squares.len() == 128
        &&& self.castling.len() == 4
        &&& forall|i: int| 0 <= i < 128 && !number_on_board(i) ==> self.squares[i] == Piece::Empty
        &&& self.en_passant.is_some() ==> self.en_passant.unwrap().on_board()
    }

    /// What stands on a square.
    pub open spec fn at(self, c: Coord) -> Piece {
        self.squares[c.0 as int]
    }

    /// The same position with the other side to move.
    pub open spec fn with_turn(self, color: Color) -> Position {
        Position { to_move: color, ..self }
    }

    /// The slots after a move, before the rook of a castling move is brought
    /// over: the piece, or the piece it promotes to, stands on the destination,
    /// the origin is empty, and where a pawn moved onto the en-passant square
    /// the slot one rank behind the destination, seen from the mover, is empty
    /// too.
    pub open spec fn squares_after_step(self, mov: Move) -> Seq<Piece> {
        let piece = self.at(mov.orig);
        let placed = self.squares.update(
            mov.dst.0 as int,
            match mov.prom_tgt {
                Some(p) => p,
                None => piece,
            },
        ).update(mov.orig.0 as int, Piece::Empty);
        let behind = if piece == Piece::PawnW {
            mov.dst.offset(-1, 0)
        } else if piece == Piece::PawnB {
            mov.dst.offset(1, 0)
        } else {
            None
        };
        if self.en_passant == Some(mov.dst) && behind.is_some() {
            placed.update(behind.unwrap().0 as int, Piece::Empty)
        } else {
            placed
        }
    }

    /// The file that the rook of a castling move leaves and the file it
    /// reaches, where the move is one: a king that leaves file 4 for file 2
    /// or file 6.
    pub open spec fn rook_files(self, mov: Move) -> Option<(int, int)> {
        if self.at(mov.orig).kind() == Kind::King && mov.orig.file_of() == 4 {
            if mov.dst.file_of() == 2 {
                Some((0, 3))
            } else if mov.dst.file_of() == 6 {
                Some((7, 5))
            } else {
                None
            }
        } else {
            None
        }
    }

    /// The slots after a move. A castling move also brings what stands in the
    /// corner of the king's rank to the square that the king passed over.
    pub open spec fn squares_after(self, mov: Move) -> Seq<Piece> {
        let step = self.squares_after_step(mov);
        match self.rook_files(mov) {
            Some((from, to)) => {
                let corner = encode(mov.orig.rank_of(), from);
                let target = encode(mov.orig.rank_of(), to);
                step.update(target, step[corner]).update(corner, Piece::Empty)
            },
            None => step,
        }
    }

    /// The castling rights after a move: a king that moves gives up both
    /// rights of its colour, a rook that leaves file 7 the kingside right of
    /// its colour, a rook that leaves file 0 the queenside right.
    pub open spec fn castling_after(self, mov: Move) -> Seq<bool> {
        let piece = self.at(mov.orig);
        let k = right_index(piece.color());
        if piece.kind() == Kind::King {
            self.castling.update(k, false).update(k + 1, false)
        } else if piece.kind() == Kind::Rook && mov.orig.file_of() == 7 {
            self.castling.update(k, false)
        } else if piece.kind() == Kind::Rook && mov.orig.file_of() == 0 {
            self.castling.update(k + 1, false)
        } else {
            self.castling
        }
    }

    /// The en-passant square after a move: the square that a pawn passed over
    /// when it advanced two ranks on its file, and none after any other move.
    pub open spec fn en_passant_after(self, mov: Move) -> Option<Coord> {
        let piece = self.at(mov.orig);
        let from = mov.orig.rank_of();
        let to = mov.dst.rank_of();
        if piece.kind() == Kind::Pawn && mov.orig.file_of() == mov.dst.file_of() && (to == from + 2
            || from == to + 2) {
            square_of((from + to) / 2, mov.orig.file_of())
        } else {
            None
        }
    }

    /// The position after a move, with the other side to move.
    pub open spec fn after_move(self, mov: Move) -> Position {
        Position {
            squares: self.squares_after(mov),
            to_move: self.to_move.flipped(),
            castling: self.castling_after(mov),
            en_passant: self.en_passant_after(mov),
        }
    }

    /// Whether one of the given moves ends on the square where the king of the
    /// given colour stands.
    pub open spec fn king_attacked(self, moves: Seq<Move>, color: Color) -> bool {
        exists|i: int|
            0 <= i < moves.len() && (#[trigger] moves[i]).dst.0 < 128 && self.at(moves[i].dst)
                == piece_of(Kind::King, color)
    }
}

/// The piece that starts on the given file of a side's first rank.
pub open spec fn back_rank(file: int, color: Color) -> Piece {
    if file == 0 || file == 7 {
        piece_of(Kind::Rook, color)
    } else if file == 1 || file == 6 {
        piece_of(Kind::Knight, color)
    } else if file == 2 || file == 5 {
        piece_of(Kind::Bishop, color)
    } else if file == 3 {
        piece_of(Kind::Queen, color)
    } else {
        piece_of(Kind::King, color)
    }
}

/// What stands on a slot when a game starts: white's pieces on rank 0 and its
/// pawns on rank 1, black's pawns on rank 6 and its pieces on rank 7.
pub open spec fn start_piece(slot: int) -> Piece {
    if slot % 16 >= 8 {
        Piece::Empty
    } else if slot / 16 == 0 {
        back_rank(slot % 16, Color::White)
    } else if slot / 16 == 1 {
        Piece::PawnW
    } else if slot / 16 == 6 {
        Piece::PawnB
    } else if slot / 16 == 7 {
        back_rank(slot % 16, Color::Black)
    } else {
        Piece::Empty
    }
}

/// The position in which a game starts: white to move, every castling right,
/// no en-passant square.
pub open spec fn start_position() -> Position {
    Position {
        squares: Seq::new(128, |i: int| start_piece(i)),
        to_move: Color::White,
        castling: seq![true, true, true, true],
        en_passant: None,
    }
}

/// The text of the position in which a game starts.
pub open spec fn start_text() -> Seq<char> {
    "rnbqkbnr/pppppppp/8/8/8/8/PPPPPPPP/RNBQKBNR w KQkq - 0 1"@
}

/// The fields of the start text lie where they are seen to lie.
proof fn lemma_start_fields()
    ensures
        field(start_text(), 0) == Some(start_text().subrange(0, 43)),
        field(start_text(), 1) == Some(start_text().subrange(44, 45)),
        field(start_text(), 2) == Some(start_text().subrange(46, 50)),
        field(start_text(), 3) == Some(start_text().subrange(51, 52)),
{
    reveal_strlit("rnbqkbnr/pppppppp/8/8/8/8/PPPPPPPP/RNBQKBNR w KQkq - 0 1");
    reveal_with_fuel(field_start, 4);
    reveal_with_fuel(skip_field, 45);
    reveal_with_fuel(skip_spaces, 3);
    let s = start_text();
    assert(skip_spaces(s, 0) == 0);
    assert(skip_field(s, 0) == 43);
    assert(skip_spaces(s, 43) == 44);
    assert(skip_field(s, 44) == 45);
    assert(skip_spaces(s, 45) == 46);
    assert(skip_field(s, 46) == 50);
    assert(skip_spaces(s, 50) == 51);
    assert(skip_field(s, 51) == 52);
}

/// The slots when a game starts from the given rank up, the ranks below it
/// empty: the board as it is while the start text is read from the top.
pub open spec fn start_from_rank(rank: int) -> Seq<Piece> {
    Seq::new(
        128,
        |i: int|
            if i / 16 >= rank {
                start_piece(i)
            } else {
                Piece::Empty
            },
    )
}

/// Reading black's pieces.
proof fn lemma_start_rank_7()
    ensures
        place_from(start_text().subrange(0, 43), 0, start_from_rank(8), 7, 0) == place_from(
            start_text().subrange(0, 43),
            9,
            start_from_rank(7),
            6,
            0,
        ),
{
    reveal_strlit("rnbqkbnr/pppppppp/8/8/8/8/PPPPPPPP/RNBQKBNR w KQkq - 0 1");
    reveal_with_fuel(place_from, 10);
    let before = start_from_rank(8);
    let after = before.update(112, Piece::RookB).update(113, Piece::KnightB).update(114, Piece::BishopB).update(115, Piece::QueenB).update(116, Piece::KingB).update(117, Piece::BishopB).update(118, Piece::KnightB).update(119, Piece::RookB);
    assert(after =~= start_from_rank(7));
    assert(place_from(start_text().subrange(0, 43), 0, before, 7, 0) == place_from(
        start_text().subrange(0, 43),
        9,
        after,
        6,
        0,
    ));
}

/// Reading black's pawns.
proof fn lemma_start_rank_6()
    ensures
        place_from(start_text().subrange(0, 43), 9, start_from_rank(7), 6, 0) == place_from(
            start_text().subrange(0, 43),
            18,
            start_from_rank(6),
            5,
            0,
        ),
{
    reveal_strlit("rnbqkbnr/pppppppp/8/8/8/8/PPPPPPPP/RNBQKBNR w KQkq - 0 1");
    reveal_with_fuel(place_from, 10);
    let before = start_from_rank(7);
    let after = before.update(96, Piece::PawnB).update(97, Piece::PawnB).update(98, Piece::PawnB).update(99, Piece::PawnB).update(100, Piece::PawnB).update(101, Piece::PawnB).update(102, Piece::PawnB).update(103, Piece::PawnB);
    assert(after =~= start_from_rank(6));
    assert(place_from(start_text().subrange(0, 43), 9, before, 6, 0) == place_from(
        start_text().subrange(0, 43),
        18,
        after,
        5,
        0,
    ));
}

/// Reading the four empty ranks.
proof fn lemma_start_ranks_between()
    ensures
        place_from(start_text().subrange(0, 43), 18, start_from_rank(6), 5, 0) == place_from(
            start_text().subrange(0, 43),
            26,
            start_from_rank(2),
            1,
            0,
        ),
{
    reveal_strlit("rnbqkbnr/pppppppp/8/8/8/8/PPPPPPPP/RNBQKBNR w KQkq - 0 1");
    reveal_with_fuel(place_from, 10);
    let before = start_from_rank(6);
    let after = before;
    assert(after =~= start_from_rank(2));
    assert(place_from(start_text().subrange(0, 43), 18, before, 5, 0) == place_from(
        start_text().subrange(0, 43),
        26,
        after,
        1,
        0,
    ));
}

/// Reading white's pawns.
proof fn lemma_start_rank_1()
    ensures
        place_from(start_text().subrange(0, 43), 26, start_from_rank(2), 1, 0) == place_from(
            start_text().subrange(0, 43),
            35,
            start_from_rank(1),
            0,
            0,
        ),
{
    reveal_strlit("rnbqkbnr/pppppppp/8/8/8/8/PPPPPPPP/RNBQKBNR w KQkq - 0 1");
    reveal_with_fuel(place_from, 10);
    let before = start_from_rank(2);
    let after = before.update(16, Piece::PawnW).update(17, Piece::PawnW).update(18, Piece::PawnW).update(19, Piece::PawnW).update(20, Piece::PawnW).update(21, Piece::PawnW).update(22, Piece::PawnW).update(23, Piece::PawnW);
    assert(after =~= start_from_rank(1));
    assert(place_from(start_text().subrange(0, 43), 26, before, 1, 0) == place_from(
        start_text().subrange(0, 43),
        35,
        after,
        0,
        0,
    ));
}

/// Reading white's pieces.
proof fn lemma_start_rank_0()
    ensures
        place_from(start_text().subrange(0, 43), 35, start_from_rank(1), 0, 0) == place_from(
            start_text().subrange(0, 43),
            43,
            start_from_rank(0),
            0,
            8,
        ),
{
    reveal_strlit("rnbqkbnr/pppppppp/8/8/8/8/PPPPPPPP/RNBQKBNR w KQkq - 0 1");
    reveal_with_fuel(place_from, 10);
    let before = start_from_rank(1);
    let after = before.update(0, Piece::RookW).update(1, Piece::KnightW).update(2, Piece::BishopW).update(3, Piece::QueenW).update(4, Piece::KingW).update(5, Piece::BishopW).update(6, Piece::KnightW).update(7, Piece::RookW);
    assert(after =~= start_from_rank(0));
    assert(place_from(start_text().subrange(0, 43), 35, before, 0, 0) == place_from(
        start_text().subrange(0, 43),
        43,
        after,
        0,
        8,
    ));
}

/// The placement field of the start text puts the pieces where a game
/// starts.
proof fn lemma_start_placement()
    ensures
        placement(start_text().subrange(0, 43)) == Some(start_position().squares),
{
    reveal_strlit("rnbqkbnr/pppppppp/8/8/8/8/PPPPPPPP/RNBQKBNR w KQkq - 0 1");
    lemma_start_rank_7();
    lemma_start_rank_6();
    lemma_start_ranks_between();
    lemma_start_rank_1();
    lemma_start_rank_0();
    assert(start_from_rank(8) =~= empty_squares());
    assert(start_from_rank(0) =~= start_position().squares);
    assert(start_text().subrange(0, 43).len() == 43);
}

/// The start text describes the position in which a game starts.
pub proof fn lemma_start_text()
    ensures
        fen_position(start_text()) == Some(start_position()),
{
    lemma_start_fields();
    lemma_start_placement();
    reveal_strlit("rnbqkbnr/pppppppp/8/8/8/8/PPPPPPPP/RNBQKBNR w KQkq - 0 1");
    let s = start_text();
    let turn = s.subrange(44, 45);
    assert(turn =~= seq!['w']);
    let rights = s.subrange(46, 50);
    assert(rights[0] == 'K' && rights[1] == 'Q' && rights[2] == 'k' && rights[3] == 'q');
    assert(rights_of(rights).unwrap() =~= seq![true, true, true, true]);
    let passing = s.subrange(51, 52);
    assert(passing.len() == 1);
}

/// A move between two squares of the board leaves a well-formed position
/// well formed.
pub proof fn lemma_after_move_wf(pos: Position, mov: Move)
    requires
        pos.wf(),
        mov.orig.on_board(),
        mov.dst.on_board(),
    ensures
        pos.after_move(mov).wf(),
{
    let step = pos.squares_after_step(mov);
    assert(step.len() == 128);
    assert forall|i: int| 0 <= i < 128 && !number_on_board(i) implies step[i] == Piece::Empty by {}
    let after = pos.squares_after(mov);
    assert(after.len() == 128);
    assert forall|i: int| 0 <= i < 128 && !number_on_board(i) implies after[i] == Piece::Empty by {}
}

impl Clone for Board {
    fn clone(&self) -> (r: Self)
        ensures
            r == *self,
    {
        Board {
            board: self.board,
            to_move: self.to_move,
            castling: self.castling,
            en_pass_tgt: self.en_pass_tgt,
        }
    }
}

impl Board {
    /// An empty board with white to move, every castling right and no
    /// en-passant square.
    pub fn new() -> (b: Self)
        ensures
            b@.wf(),
            forall|i: int| 0 <= i < 128 ==> b@.squares[i] == Piece::Empty,
            b@.to_move == Color::White,
            forall|i: int| 0 <= i < 4 ==> b@.castling[i],
            b@.en_passant.is_none(),
    {
        Self {
            board: [Piece::Empty;128],
            to_move: Color::White,
            castling: [true;4],
            en_pass_tgt: None,
        }
    }

    /// Reads a position from its text: the placement of the pieces, the side
    /// to move, the castling rights and the en-passant square, separated by
    /// white space. It fails, with an error that holds the text, where one of
    /// the first three fields is missing or malformed; an en-passant field
    /// that names no square gives none.
    pub fn from_fen(fen: &str) -> (r: Result<Self, InvalidFenStringError>)
        ensures
            match fen_position(fen@) {
                Some(p) => r.is_ok() && r.unwrap()@ == p,
                None => r.is_err() && r.unwrap_err()@ == fen@,
            },
    {
        let chars = chars_of(fen);
        let n = chars.len();
        proof {
            reveal_with_fuel(field_start, 4);
        }
        let (s0, e0) = next_field(&chars, 0);
        let (s1, e1) = next_field(&chars, e0);
        let (s2, e2) = next_field(&chars, e1);
        let (s3, e3) = next_field(&chars, e2);
        assert(s0 == field_start(fen@, 0));
        assert(s1 == field_start(fen@, 1));
        assert(s2 == field_start(fen@, 2));
        assert(s3 == field_start(fen@, 3));
        if s0 >= n || s1 >= n || s2 >= n {
            return Err(InvalidFenStringError::new(fen));
        }
        let board = match parse_placement(&copy_range(&chars, s0, e0)) {
            Some(b) => b,
            None => {
                return Err(InvalidFenStringError::new(fen));
            },
        };
        let to_move = match parse_turn(&copy_range(&chars, s1, e1)) {
            Some(c) => c,
            None => {
                return Err(InvalidFenStringError::new(fen));
            },
        };
        let castling = match parse_rights(&copy_range(&chars, s2, e2)) {
            Some(c) => c,
            None => {
                return Err(InvalidFenStringError::new(fen));
            },
        };
        let en_pass_tgt = if s3 < n {
            parse_square(&copy_range(&chars, s3, e3))
        } else {
            None
        };
        Ok(Self { board, to_move, castling, en_pass_tgt })
    }

    /// The position in which a game starts: the one that its text describes.
    pub fn start_pos() -> (b: Self)
        ensures
            b@ == start_position(),
            fen_position(start_text()) == Some(b@),
    {
        proof {
            lemma_start_text();
        }
        match Self::from_fen("rnbqkbnr/pppppppp/8/8/8/8/PPPPPPPP/RNBQKBNR w KQkq - 0 1") {
            Ok(b) => b,
            Err(_) => vstd::pervasive::unreached(),
        }
    }

    /// What stands on a square.
    pub fn piece_at(&self, c: Coord) -> (p: Piece)
        requires
            c.0 < 128,
        ensures
            p == self@.at(c),
    {
        self.board[c.0 as usize]
    }
    /// Moves the piece on the origin of `mov` to its destination, promoted
    /// where the move says so, and takes the pawn that was passed where a pawn
    /// moves onto the en-passant square. Returns the piece that moved.
    fn move_piece(&mut self, mov: Move) -> (piece: Piece)
        requires
            mov.orig.on_board(),
            mov.dst.on_board(),
        ensures
            piece == old(self)@.at(mov.orig),
            final(self).board@ == old(self)@.squares_after_step(mov),
            final(self).to_move == old(self).to_move,
            final(self).castling == old(self).castling,
            final(self).en_pass_tgt == old(self).en_pass_tgt,
    {
        let piece = self.piece_at(mov.orig);
        let placed = match mov.prom_tgt {
            Some(p) => p,
            None => piece,
        };
        self.board[mov.dst.0 as usize] = placed;
        self.board[mov.orig.0 as usize] = Piece::Empty;
        let ghost placed_squares = self.board@;
        assert(placed_squares =~= old(self)@.squares.update(mov.dst.0 as int, placed).update(
            mov.orig.0 as int,
            Piece::Empty,
        ));
        if self.en_pass_tgt == Some(mov.dst) {
            if piece == Piece::PawnW {
                if let Ok(c) = mov.dst.add((-1, 0)) {
                    self.board[c.0 as usize] = Piece::Empty;
                    assert(self.board@ =~= placed_squares.update(c.0 as int, Piece::Empty));
                }
            } else if piece == Piece::PawnB {
                if let Ok(c) = mov.dst.add((1, 0)) {
                    self.board[c.0 as usize] = Piece::Empty;
                    assert(self.board@ =~= placed_squares.update(c.0 as int, Piece::Empty));
                }
            }
        }
        piece
    }

    /// Brings what stands on file `from` of a rank to file `to` of that rank.
    fn bring_rook(&mut self, rank: u8, from: u8, to: u8)
        requires
            rank < 8,
            from < 8,
            to < 8,
        ensures
            final(self).board@ == old(self).board@.update(
                encode(rank as int, to as int),
                old(self).board@[encode(rank as int, from as int)],
            ).update(encode(rank as int, from as int), Piece::Empty),
            final(self).to_move == old(self).to_move,
            final(self).castling == old(self).castling,
            final(self).en_pass_tgt == old(self).en_pass_tgt,
    {
        let corner: usize = rank as usize * 16 + from as usize;
        let target: usize = rank as usize * 16 + to as usize;
        let rook = self.board[corner];
        self.board[target] = rook;
        self.board[corner] = Piece::Empty;
        assert(self.board@ =~= old(self).board@.update(target as int, rook).update(
            corner as int,
            Piece::Empty,
        ));
    }

    /// Takes away the castling rights that the move of `piece` from a square
    /// on file `orig_file` gives up.
    fn give_up_rights(&mut self, piece: Piece, orig_file: u8)
        ensures
            final(self).castling@ == (if piece.kind() == Kind::King {
                old(self).castling@.update(right_index(piece.color()), false).update(
                    right_index(piece.color()) + 1,
                    false,
                )
            } else if piece.kind() == Kind::Rook && orig_file == 7 {
                old(self).castling@.update(right_index(piece.color()), false)
            } else if piece.kind() == Kind::Rook && orig_file == 0 {
                old(self).castling@.update(right_index(piece.color()) + 1, false)
            } else {
                old(self).castling@
            }),
            final(self).board == old(self).board,
            final(self).to_move == old(self).to_move,
            final(self).en_pass_tgt == old(self).en_pass_tgt,
    {
        let k: usize = 2 * (piece.get_color().index() as usize);
        if piece.to_color(Color::White) == Piece::KingW {
            self.castling[k] = false;
            self.castling[k + 1] = false;
            assert(self.castling@ =~= old(self).castling@.update(k as int, false).update(
                k + 1,
                false,
            ));
        } else if piece.to_color(Color::White) == Piece::RookW {
            if orig_file == 7 {
                self.castling[k] = false;
                assert(self.castling@ =~= old(self).castling@.update(k as int, false));
            } else if orig_file == 0 {
                self.castling[k + 1] = false;
                assert(self.castling@ =~= old(self).castling@.update(k + 1, false));
            }
        }
    }

    /// Plays a move: the piece leaves its origin for the destination, or the
    /// piece it promotes to appears there; a pawn that moves onto the
    /// en-passant square takes the pawn it passed; a king that castles brings
    /// its rook over; the castling rights and the en-passant square are
    /// brought up to date, and the turn passes to the other side.
    pub fn make_move(&mut self, mov: Move)
        requires
            mov.orig.on_board(),
            mov.dst.on_board(),
        ensures
            final(self)@ == old(self)@.after_move(mov),
    {
        let orig_rank = mov.orig.rank();
        let orig_file = mov.orig.file();
        let dst_rank = mov.dst.rank();
        let dst_file = mov.dst.file();

        let piece = self.move_piece(mov);
        if piece.to_color(Color::White) == Piece::KingW && orig_file == 4 {
            if dst_file == 2 {
                self.bring_rook(orig_rank, 0, 3);
            } else if dst_file == 6 {
                self.bring_rook(orig_rank, 7, 5);
            }
        }
        self.give_up_rights(piece, orig_file);
        if piece.to_color(Color::White) == Piece::PawnW && orig_file == dst_file && (dst_rank
            == orig_rank + 2 || orig_rank == dst_rank + 2) {
            let mid: u8 = (orig_rank + dst_rank) / 2;
            self.en_pass_tgt = Some(Coord(mid * 16 + orig_file));
        } else {
            self.en_pass_tgt = None;
        }
        self.to_move = self.to_move.flip();
    }

    /// Whether one of the given moves ends on the square where the king of
    /// the given colour stands.
    pub fn check_check(&self, moves: &Vec<Move>, color: Color) -> (r: bool)
        ensures
            r == self@.king_attacked(moves@, color),
    {
        let king = Piece::KingW.to_color(color);
        let n = moves.len();
        let mut i: usize = 0;
        while i < n
            invariant
                n == moves.len(),
                0 <= i <= n,
                king == piece_of(Kind::King, color),
                forall|j: int|
                    0 <= j < i ==> !((#[trigger] moves[j]).dst.0 < 128 && self@.at(moves[j].dst)
                        == king),
            decreases n - i,
        {
            let dst = moves[i].dst;
            if dst.0 < 128 && self.board[dst.0 as usize] == king {
                return true;
            }
            i += 1;
        }
        false
    }
}

} // verus!
