use vstd::prelude::*;
use vstd::string::*;

use crate::board::Position;
use crate::coord::{number_on_board, square_of_text, Coord};
use crate::{piece_of_char, Color, Piece};

verus! {

/// Whether a character separates the fields of a position text: a blank, a
/// tab, a line feed, a form feed or a carriage return.
pub open spec fn is_space(c: char) -> bool {
    c == ' ' || c == '\t' || c == '\n' || c == '\u{c}' || c == '\r'
}

/// The first place at or after `i` that holds no separator, or the end of the
/// text.
pub open spec fn skip_spaces(s: Seq<char>, i: int) -> int
    decreases s.len() - i,
{
    if 0 <= i < s.len() && is_space(s[i]) {
        skip_spaces(s, i + 1)
    } else {
        i
    }
}

/// The first place at or after `i` that holds a separator, or the end of the
/// text.
pub open spec fn skip_field(s: Seq<char>, i: int) -> int
    decreases s.len() - i,
{
    if 0 <= i < s.len() && !is_space(s[i]) {
        skip_field(s, i + 1)
    } else {
        i
    }
}

/// Where the field with the given number starts, counting from 0: past the
/// separators that follow the field before it. It is the end of the text where
/// the text has no such field.
pub open spec fn field_start(s: Seq<char>, k: nat) -> int
    decreases k,
{
    if k == 0 {
        skip_spaces(s, 0)
    } else {
        skip_spaces(s, skip_field(s, field_start(s, (k - 1) as nat)))
    }
}

/// The field with the given number, counting from 0: a longest run of
/// characters that are no separators. `None` where the text has fewer fields.
pub open spec fn field(s: Seq<char>, k: nat) -> Option<Seq<char>> {
    let start = field_start(s, k);
    if 0 <= start < s.len() {
        Some(s.subrange(start, skip_field(s, start)))
    } else {
        None
    }
}

/// The places that the two scans reach lie between their start and the end of
/// the text.
pub proof fn lemma_scan_bounds(s: Seq<char>, i: int)
    requires
        0 <= i <= s.len(),
    ensures
        i <= skip_spaces(s, i) <= s.len(),
        i <= skip_field(s, i) <= s.len(),
    decreases s.len() - i,
{
    if i < s.len() {
        lemma_scan_bounds(s, i + 1);
    }
}

/// The slots of a board on which nothing stands.
pub open spec fn empty_squares() -> Seq<Piece> {
    Seq::new(128, |i: int| Piece::Empty)
}

/// Reads the placement field from its character `i` on, with `rank` and
/// `file` the square that the next piece goes to. A piece letter puts its
/// piece on that square, which must be on the board, and moves on by one
/// file; a digit from `0` to `8` moves on by that many files; a `/` moves to
/// the first file of the rank below. Any other character, or a piece with no
/// square left for it, gives `None`.
pub open spec fn place_from(
    field: Seq<char>,
    i: int,
    squares: Seq<Piece>,
    rank: int,
    file: int,
) -> Option<Seq<Piece>>
    decreases field.len() - i,
{
    if !(0 <= i < field.len()) {
        Some(squares)
    } else if piece_of_char(field[i]).is_some() {
        if 0 <= rank < 8 && 0 <= file < 8 {
            place_from(
                field,
                i + 1,
                squares.update(rank * 16 + file, piece_of_char(field[i]).unwrap()),
                rank,
                file + 1,
            )
        } else {
            None
        }
    } else if '0' <= field[i] <= '8' {
        place_from(field, i + 1, squares, rank, file + (field[i] as int - '0' as int))
    } else if field[i] == '/' {
        place_from(field, i + 1, squares, rank - 1, 0)
    } else {
        None
    }
}

/// The slots that a placement field describes: the ranks from the highest
/// down, each from file `a` to file `h`, on a board that is empty before.
pub open spec fn placement(field: Seq<char>) -> Option<Seq<Piece>> {
    place_from(field, 0, empty_squares(), 7, 0)
}

/// The side to move that a field names: `w` or `b`.
pub open spec fn turn_of(field: Seq<char>) -> Option<Color> {
    if field =~= seq!['w'] {
        Some(Color::White)
    } else if field =~= seq!['b'] {
        Some(Color::Black)
    } else {
        None
    }
}

/// Whether a character may stand in the castling field.
pub open spec fn is_right_char(c: char) -> bool {
    c == 'K' || c == 'Q' || c == 'k' || c == 'q' || c == '-'
}

/// The castling rights that a field names: each of the letters `K`, `Q`, `k`
/// and `q` that occurs in it gives its right. `None` where the field holds
/// any character but these and `-`.
pub open spec fn rights_of(field: Seq<char>) -> Option<Seq<bool>> {
    if forall|i: int| 0 <= i < field.len() ==> is_right_char(#[trigger] field[i]) {
        Some(seq![field.contains('K'), field.contains('Q'), field.contains('k'), field.contains('q')])
    } else {
        None
    }
}

/// The en-passant square that the fourth field names; none where the field is
/// missing or names no square.
pub open spec fn en_passant_of(field: Option<Seq<char>>) -> Option<Coord> {
    match field {
        Some(f) => square_of_text(f),
        None => None,
    }
}

/// The position that a text describes. Its first three fields must be there
/// and be well formed; whatever follows the fourth is not read.
pub open spec fn fen_position(text: Seq<char>) -> Option<Position> {
    if field(text, 0).is_some() && field(text, 1).is_some() && field(text, 2).is_some()
        && placement(field(text, 0).unwrap()).is_some() && turn_of(field(text, 1).unwrap()).is_some()
        && rights_of(field(text, 2).unwrap()).is_some() {
        Some(
            Position {
                squares: placement(field(text, 0).unwrap()).unwrap(),
                to_move: turn_of(field(text, 1).unwrap()).unwrap(),
                castling: rights_of(field(text, 2).unwrap()).unwrap(),
                en_passant: en_passant_of(field(text, 3)),
            },
        )
    } else {
        None
    }
}

/// Reading a placement field keeps the number of slots and puts nothing on a
/// slot off the board.
pub proof fn lemma_place_from_wf(
    field: Seq<char>,
    i: int,
    squares: Seq<Piece>,
    rank: int,
    file: int,
)
    requires
        squares.len() == 128,
        forall|k: int| 0 <= k < 128 && !number_on_board(k) ==> squares[k] == Piece::Empty,
        place_from(field, i, squares, rank, file).is_some(),
    ensures
        place_from(field, i, squares, rank, file).unwrap().len() == 128,
        forall|k: int|
            0 <= k < 128 && !number_on_board(k) ==> place_from(
                field,
                i,
                squares,
                rank,
                file,
            ).unwrap()[k] == Piece::Empty,
    decreases field.len() - i,
{
    if 0 <= i < field.len() {
        if piece_of_char(field[i]).is_some() {
            lemma_place_from_wf(
                field,
                i + 1,
                squares.update(rank * 16 + file, piece_of_char(field[i]).unwrap()),
                rank,
                file + 1,
            );
        } else if '0' <= field[i] <= '8' {
            lemma_place_from_wf(
                field,
                i + 1,
                squares,
                rank,
                file + (field[i] as int - '0' as int),
            );
        } else if field[i] == '/' {
            lemma_place_from_wf(field, i + 1, squares, rank - 1, 0);
        }
    }
}

/// A position that a text describes is well formed.
pub proof fn lemma_fen_position_wf(text: Seq<char>)
    requires
        fen_position(text).is_some(),
    ensures
        fen_position(text).unwrap().wf(),
{
    lemma_place_from_wf(field(text, 0).unwrap(), 0, empty_squares(), 7, 0);
}

/// Reads a placement field.
pub fn parse_placement(field: &Vec<char>) -> (r: Option<[Piece; 128]>)
    ensures
        match placement(field@) {
            Some(squares) => r.is_some() && r.unwrap()@ == squares,
            None => r.is_none(),
        },
{
    let mut board = [Piece::Empty;128];
    assert(board@ =~= empty_squares());
    let n = field.len();
    // The rank counts down and stops at -1, the file counts up and stops at
    // 16: beyond either no square is left, however far the text goes on.
    let mut rank: i8 = 7;
    let mut file: u8 = 0;
    let ghost mut true_rank: int = 7;
    let ghost mut true_file: int = 0;
    let mut i: usize = 0;
    while i < n
        invariant
            n == field.len(),
            0 <= i <= n,
            -1 <= rank <= 7,
            0 <= file <= 16,
            true_rank <= 7,
            true_file >= 0,
            true_rank >= 0 ==> rank == true_rank,
            true_rank < 0 ==> rank == -1,
            true_file < 16 ==> file == true_file,
            true_file >= 16 ==> file == 16,
            place_from(field@, i as int, board@, true_rank, true_file) == placement(field@),
        decreases n - i,
    {
        let c = field[i];
        match Piece::from_char(c) {
            Ok(p) => {
                if rank < 0 || file >= 8 {
                    return None;
                }
                board[rank as usize * 16 + file as usize] = p;
                file = file + 1;
                proof {
                    true_file = true_file + 1;
                }
            },
            Err(_) => {
                if '0' <= c && c <= '8' {
                    let d: u8 = c as u8 - 48;
                    file = if file + d > 16 {
                        16
                    } else {
                        file + d
                    };
                    proof {
                        true_file = true_file + d;
                    }
                } else if c == '/' {
                    rank = if rank < 0 {
                        -1
                    } else {
                        rank - 1
                    };
                    file = 0;
                    proof {
                        true_rank = true_rank - 1;
                        true_file = 0;
                    }
                } else {
                    return None;
                }
            },
        }
        i += 1;
    }
    Some(board)
}

/// Reads the field that names the side to move.
pub fn parse_turn(field: &Vec<char>) -> (r: Option<Color>)
    ensures
        r == turn_of(field@),
{
    if field.len() != 1 {
        return None;
    }
    if field[0] == 'w' {
        Some(Color::White)
    } else if field[0] == 'b' {
        Some(Color::Black)
    } else {
        None
    }
}

/// Reads the castling field.
pub fn parse_rights(field: &Vec<char>) -> (r: Option<[bool; 4]>)
    ensures
        match rights_of(field@) {
            Some(rights) => r.is_some() && r.unwrap()@ == rights,
            None => r.is_none(),
        },
{
    let mut rights = [false;4];
    let n = field.len();
    let mut i: usize = 0;
    while i < n
        invariant
            n == field.len(),
            0 <= i <= n,
            forall|j: int| 0 <= j < i ==> is_right_char(#[trigger] field@[j]),
            rights@[0] == exists|j: int| 0 <= j < i && field@[j] == 'K',
            rights@[1] == exists|j: int| 0 <= j < i && field@[j] == 'Q',
            rights@[2] == exists|j: int| 0 <= j < i && field@[j] == 'k',
            rights@[3] == exists|j: int| 0 <= j < i && field@[j] == 'q',
        decreases n - i,
    {
        let c = field[i];
        if c == 'K' {
            rights[0] = true;
        } else if c == 'Q' {
            rights[1] = true;
        } else if c == 'k' {
            rights[2] = true;
        } else if c == 'q' {
            rights[3] = true;
        } else if c != '-' {
            assert(!is_right_char(field@[i as int]));
            return None;
        }
        i += 1;
    }
    assert(rights@ =~= rights_of(field@).unwrap());
    Some(rights)
}

/// Reads a field that names a square.
pub fn parse_square(field: &Vec<char>) -> (r: Option<Coord>)
    ensures
        r == square_of_text(field@),
{
    if field.len() != 2 {
        return None;
    }
    let f = field[0];
    let r = field[1];
    if f < 'a' || f > 'h' || r < '1' || r > '8' {
        return None;
    }
    let file: u8 = (f as u8) - 97;
    let rank: u8 = (r as u8) - 49;
    Some(Coord(rank * 16 + file))
}

/// The characters of a text, one by one.
pub fn chars_of(text: &str) -> (v: Vec<char>)
    ensures
        v@ == text@,
{
    let n = text.unicode_len();
    let mut v: Vec<char> = Vec::new();
    let mut i: usize = 0;
    while i < n
        invariant
            n == text@.len(),
            0 <= i <= n,
            v@ == text@.subrange(0, i as int),
        decreases n - i,
    {
        v.push(text.get_char(i));
        assert(v@ =~= text@.subrange(0, i + 1));
        i += 1;
    }
    assert(v@ =~= text@);
    v
}

/// Whether a character separates fields.
pub fn is_separator(c: char) -> (r: bool)
    ensures
        r == is_space(c),
{
    c == ' ' || c == '\t' || c == '\n' || c == '\u{c}' || c == '\r'
}

/// Finds the next field at or after `from`: where it starts and where it
/// ends. Both are the end of the text where no field is left.
pub fn next_field(chars: &Vec<char>, from: usize) -> (r: (usize, usize))
    requires
        from <= chars.len(),
    ensures
        r.0 == skip_spaces(chars@, from as int),
        r.1 == skip_field(chars@, r.0 as int),
        from <= r.0 <= r.1 <= chars.len(),
{
    let n = chars.len();
    let mut start = from;
    while start < n && is_separator(chars[start])
        invariant
            n == chars.len(),
            from <= start <= n,
            skip_spaces(chars@, from as int) == skip_spaces(chars@, start as int),
        decreases n - start,
    {
        start += 1;
    }
    let mut end = start;
    while end < n && !is_separator(chars[end])
        invariant
            n == chars.len(),
            start <= end <= n,
            skip_field(chars@, start as int) == skip_field(chars@, end as int),
        decreases n - end,
    {
        end += 1;
    }
    (start, end)
}

/// Copies the characters from `start` up to `end`.
pub fn copy_range(chars: &Vec<char>, start: usize, end: usize) -> (v: Vec<char>)
    requires
        start <= end <= chars.len(),
    ensures
        v@ == chars@.subrange(start as int, end as int),
{
    let mut v: Vec<char> = Vec::new();
    let mut i = start;
    while i < end
        invariant
            start <= i <= end <= chars.len(),
            v@ == chars@.subrange(start as int, i as int),
        decreases end - i,
    {
        v.push(chars[i]);
        assert(v@ =~= chars@.subrange(start as int, i + 1));
        i += 1;
    }
    v
}

} // verus!
