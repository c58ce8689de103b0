use vstd::prelude::*;
use vstd::string::*;

verus! {

/// What an [`InvalidCoordinateError`] holds about the value that was refused.
#[derive(Debug)]
pub enum CoordRepr {
    /// Nothing: an offset left the range of the machine's integers.
    Empty,
    /// The square number that was refused.
    Num(usize),
    /// The text that was refused.
    Alg(String),
}

/// The mathematical content of a [`CoordRepr`].
pub enum CoordReprView {
    Empty,
    Num(usize),
    Alg(Seq<char>),
}

impl View for CoordRepr {
    type V = CoordReprView;

    open spec fn view(&self) -> CoordReprView {
        match self {
            CoordRepr::Empty => CoordReprView::Empty,
            CoordRepr::Num(n) => CoordReprView::Num(*n),
            CoordRepr::Alg(s) => CoordReprView::Alg(s@),
        }
    }
}

/// A square that is not on the board, or a text that names none.
#[derive(Debug)]
pub struct InvalidCoordinateError {
    pub coord: CoordRepr,
}

impl View for InvalidCoordinateError {
    type V = CoordReprView;

    open spec fn view(&self) -> CoordReprView {
        self.coord@
    }
}

impl InvalidCoordinateError {
    /// An error that names no value.
    pub fn new() -> (e: Self)
        ensures
            e@ == CoordReprView::Empty,
    {
        Self { coord: CoordRepr::Empty }
    }

    /// An error for a square number.
    pub fn new_num(coord: usize) -> (e: Self)
        ensures
            e@ == CoordReprView::Num(coord),
    {
        Self { coord: CoordRepr::Num(coord) }
    }

    /// An error for a text.
    pub fn new_alg(alg: &str) -> (e: Self)
        ensures
            e@ == CoordReprView::Alg(alg@),
    {
        Self { coord: CoordRepr::Alg(String::from_str(alg)) }
    }
}

/// A square of the board as one number, sixteen slots to a rank: the rank in
/// the high four bits, the file in the low four. A square is on the board
/// when neither the rank nor the file reaches 8.
#[derive(Clone, Copy, Debug, PartialEq, Eq, Hash, Structural)]
pub struct Coord(pub u8);

/// The number of the square with the given rank and file.
pub open spec fn encode(rank: int, file: int) -> int {
    rank * 16 + file
}

/// Whether a square number lies on the board.
pub open spec fn number_on_board(v: int) -> bool {
    0 <= v < 128 && v % 16 < 8
}

/// The square that a rank and a file encode, where the number they encode
/// lies on the board.
pub open spec fn square_of(rank: int, file: int) -> Option<Coord> {
    if number_on_board(encode(rank, file)) {
        Some(Coord(encode(rank, file) as u8))
    } else {
        None
    }
}

/// The square that a two-character text names: a file letter from `a` to `h`,
/// then a rank digit from `1` to `8`.
pub open spec fn square_of_text(text: Seq<char>) -> Option<Coord> {
    if text.len() == 2 && 'a' <= text[0] <= 'h' && '1' <= text[1] <= '8' {
        Some(Coord(encode(text[1] as int - '1' as int, text[0] as int - 'a' as int) as u8))
    } else {
        None
    }
}

impl Coord {
    /// Whether the square is on the board.
    pub open spec fn on_board(self) -> bool {
        number_on_board(self.0 as int)
    }

    /// The rank of the square, counted from 0.
    pub open spec fn rank_of(self) -> int {
        self.0 as int / 16
    }

    /// The file of the square, counted from 0.
    pub open spec fn file_of(self) -> int {
        self.0 as int % 8
    }

    /// The square reached from this one by the given steps in rank and file,
    /// where there is one.
    pub open spec fn offset(self, d_rank: int, d_file: int) -> Option<Coord> {
        if self.rank_of() + d_rank < 0 || self.file_of() + d_file < 0 {
            None
        } else {
            square_of(self.rank_of() + d_rank, self.file_of() + d_file)
        }
    }

    /// The text that names the square: the file as a letter from `a`, the rank
    /// as a character from `1`.
    pub open spec fn text(self) -> Seq<char> {
        seq![(self.file_of() + 'a' as int) as char, (self.rank_of() + '1' as int) as char]
    }

    /// The square with the given rank and file. It fails where the number that
    /// they encode, sixteen times the rank plus the file, is not on the board;
    /// the error then holds that number as the machine computes it.
    pub fn from_rf(rank: usize, file: usize) -> (r: Result<Self, InvalidCoordinateError>)
        ensures
            match square_of(rank as int, file as int) {
                Some(c) => r.is_ok() && r.unwrap() == c,
                None => r.is_err() && r.unwrap_err()@ == CoordReprView::Num(
                    rank.wrapping_mul(16).wrapping_add(file),
                ),
            },
    {
        if rank >= 8 || file >= 128 {
            return Err(InvalidCoordinateError::new_num(rank.wrapping_mul(16).wrapping_add(file)));
        }
        let val: usize = rank * 16 + file;
        if val & 0x88 != 0 || val >= 128 {
            assert(val < 128 && val & 0x88 == 0 <==> val < 128 && val % 16 < 8) by (bit_vector);
            return Err(InvalidCoordinateError::new_num(rank.wrapping_mul(16).wrapping_add(file)));
        }
        assert(val < 128 && val & 0x88 == 0 <==> val < 128 && val % 16 < 8) by (bit_vector);
        Ok(Self(val as u8))
    }

    /// The rank and the file of the square.
    pub fn to_rf(self) -> (r: (usize, usize))
        ensures
            r.0 == self.rank_of(),
            r.1 == self.file_of(),
    {
        (self.rank() as usize, self.file() as usize)
    }

    /// The rank of the square, counted from 0.
    pub fn rank(self) -> (r: u8)
        ensures
            r == self.rank_of(),
    {
        let v: u8 = self.0;
        assert(v >> 4 == v / 16) by (bit_vector);
        v >> 4
    }

    /// The file of the square, counted from 0.
    pub fn file(self) -> (r: u8)
        ensures
            r == self.file_of(),
    {
        let v: u8 = self.0;
        assert(v & 7 == v % 8) by (bit_vector);
        v & 7
    }
    /// The square that a text names. It fails on any text but a file letter
    /// from `a` to `h` followed by a rank digit from `1` to `8`, and the error
    /// then holds the text.
    pub fn from_alg(alg: &str) -> (r: Result<Self, InvalidCoordinateError>)
        ensures
            match square_of_text(alg@) {
                Some(c) => r.is_ok() && r.unwrap() == c,
                None => r.is_err() && r.unwrap_err()@ == CoordReprView::Alg(alg@),
            },
    {
        if alg.unicode_len() != 2 {
            return Err(InvalidCoordinateError::new_alg(alg));
        }
        let f: char = alg.get_char(0);
        let r: char = alg.get_char(1);
        if f < 'a' || f > 'h' || r < '1' || r > '8' {
            return Err(InvalidCoordinateError::new_alg(alg));
        }
        let file: u8 = (f as u8) - 97;
        let rank: u8 = (r as u8) - 49;
        Ok(Self(rank * 16 + file))
    }

    /// The text that names the square; [`Coord::from_alg`] reads it back.
    pub fn to_alg(self) -> (s: String)
        ensures
            s@ == self.text(),
    {
        let mut alg = String::from_str(file_letter(self.file()));
        alg.append(rank_digit(self.rank()));
        assert(alg@ =~= self.text());
        alg
    }

    /// The square reached by the given steps in rank and file. It fails where
    /// a step leads below rank or file 0, with an error that names no value,
    /// and where the number that the new rank and file encode is not on the
    /// board, as [`Coord::from_rf`] does.
    pub fn add(self, b: (isize, isize)) -> (r: Result<Self, InvalidCoordinateError>)
        ensures
            match self.offset(b.0 as int, b.1 as int) {
                Some(c) => r.is_ok() && r.unwrap() == c,
                None => r.is_err(),
            },
            r.is_err() ==> r.unwrap_err()@ == (if self.rank_of() + b.0 < 0 || self.file_of() + b.1
                < 0 {
                CoordReprView::Empty
            } else {
                CoordReprView::Num(
                    ((self.rank_of() + b.0) as usize).wrapping_mul(16).wrapping_add(
                        (self.file_of() + b.1) as usize,
                    ),
                )
            }),
    {
        let rf = self.to_rf();
        let rank = match rf.0.checked_add_signed(b.0) {
            Some(v) => v,
            None => {
                return Err(InvalidCoordinateError::new());
            },
        };
        let file = match rf.1.checked_add_signed(b.1) {
            Some(v) => v,
            None => {
                return Err(InvalidCoordinateError::new());
            },
        };
        Self::from_rf(rank, file)
    }
}

/// A square is on the board exactly when its number has neither of the two
/// bits of the mask `0x88` set.
pub proof fn lemma_on_board_mask(c: Coord)
    ensures
        c.on_board() <==> c.0 & 0x88 == 0,
{
    let v: u8 = c.0;
    assert((v < 128 && v % 16 < 8) <==> v & 0x88 == 0) by (bit_vector);
}

/// A rank and a file below 8 always encode a square of the board, and that
/// square gives the same rank and file back.
pub proof fn lemma_square_of_rank_file(rank: int, file: int)
    requires
        0 <= rank < 8,
        0 <= file < 8,
    ensures
        square_of(rank, file).is_some(),
        square_of(rank, file).unwrap().on_board(),
        square_of(rank, file).unwrap().rank_of() == rank,
        square_of(rank, file).unwrap().file_of() == file,
{
}

/// A square of the board is the one that its own rank and file encode.
pub proof fn lemma_rank_file_of_square(c: Coord)
    requires
        c.on_board(),
    ensures
        0 <= c.rank_of() < 8,
        0 <= c.file_of() < 8,
        square_of(c.rank_of(), c.file_of()) == Some(c),
{
}

/// Whatever square a rank and a file encode is on the board, and so is any
/// square that a step leads to.
pub proof fn lemma_squares_on_board(c: Coord, a: int, b: int)
    ensures
        square_of(a, b).is_some() ==> square_of(a, b).unwrap().on_board(),
        c.offset(a, b).is_some() ==> c.offset(a, b).unwrap().on_board(),
{
}

/// From a square of the board, a step leads to a square exactly when the new
/// rank and the new file both stay below 8 and do not fall below 0, and the
/// square reached has that rank and that file.
pub proof fn lemma_offset_on_board(c: Coord, d_rank: int, d_file: int)
    requires
        c.on_board(),
        -8 < d_file < 9,
    ensures
        c.offset(d_rank, d_file).is_some() <==> (0 <= c.rank_of() + d_rank < 8 && 0
            <= c.file_of() + d_file < 8),
        c.offset(d_rank, d_file).is_some() ==> c.offset(d_rank, d_file).unwrap().rank_of()
            == c.rank_of() + d_rank && c.offset(d_rank, d_file).unwrap().file_of() == c.file_of()
            + d_file,
{
}

/// Writing a square of the board as text and reading the text gives the
/// square back.
pub proof fn lemma_text_round_trip(c: Coord)
    requires
        c.on_board(),
    ensures
        square_of_text(c.text()) == Some(c),
{
}

/// Reading a text that names a square and writing the square gives the text
/// back, and the square is on the board.
pub proof fn lemma_square_round_trip(text: Seq<char>)
    requires
        square_of_text(text).is_some(),
    ensures
        square_of_text(text).unwrap().on_board(),
        square_of_text(text).unwrap().text() =~= text,
{
}

/// The one-letter text for a file: `a` for file 0.
fn file_letter(i: u8) -> (s: &'static str)
    requires
        i < 8,
    ensures
        s@ == seq![(i + 'a' as int) as char],
{
    let s = match i {
        0 => "a",
        1 => "b",
        2 => "c",
        3 => "d",
        4 => "e",
        5 => "f",
        6 => "g",
        _ => "h",
    };
    proof {
        reveal_strlit("a");
        reveal_strlit("b");
        reveal_strlit("c");
        reveal_strlit("d");
        reveal_strlit("e");
        reveal_strlit("f");
        reveal_strlit("g");
        reveal_strlit("h");
        assert(s@ =~= seq![(i + 'a' as int) as char]);
    }
    s
}

/// The one-character text for a rank: `1` for rank 0.
fn rank_digit(i: u8) -> (s: &'static str)
    requires
        i < 16,
    ensures
        s@ == seq![(i + '1' as int) as char],
{
    let s = match i {
        0 => "1",
        1 => "2",
        2 => "3",
        3 => "4",
        4 => "5",
        5 => "6",
        6 => "7",
        7 => "8",
        8 => "9",
        9 => ":",
        10 => ";",
        11 => "<",
        12 => "=",
        13 => ">",
        14 => "?",
        _ => "@",
    };
    proof {
        reveal_strlit("1");
        reveal_strlit("2");
        reveal_strlit("3");
        reveal_strlit("4");
        reveal_strlit("5");
        reveal_strlit("6");
        reveal_strlit("7");
        reveal_strlit("8");
        reveal_strlit("9");
        reveal_strlit(":");
        reveal_strlit(";");
        reveal_strlit("<");
        reveal_strlit("=");
        reveal_strlit(">");
        reveal_strlit("?");
        reveal_strlit("@");
        assert(s@ =~= seq![(i + '1' as int) as char]);
    }
    s
}

/// The character of a hexadecimal digit: `0` to `9`, then `a` to `f`.
pub open spec fn hex_digit(d: int) -> char {
    if d < 10 {
        ('0' as int + d) as char
    } else {
        ('a' as int + d - 10) as char
    }
}

/// A number in hexadecimal digits, without leading zeros.
pub open spec fn hex_text(n: nat) -> Seq<char>
    decreases n,
{
    if n < 16 {
        seq![hex_digit(n as int)]
    } else {
        hex_text(n / 16).push(hex_digit((n % 16) as int))
    }
}

/// What an error says of the value that it holds.
pub open spec fn message_of(e: CoordReprView) -> Seq<char> {
    match e {
        CoordReprView::Empty => "Invalid Coordinate"@,
        CoordReprView::Num(n) => "Invalid Coordinate: 0x"@ + hex_text(n as nat),
        CoordReprView::Alg(text) => "Invalid Coordinate: "@ + text,
    }
}

/// The one-character text of a hexadecimal digit.
fn hex_letter(d: usize) -> (s: &'static str)
    requires
        d < 16,
    ensures
        s@ == seq![hex_digit(d as int)],
{
    let s = match d {
        0 => "0",
        1 => "1",
        2 => "2",
        3 => "3",
        4 => "4",
        5 => "5",
        6 => "6",
        7 => "7",
        8 => "8",
        9 => "9",
        10 => "a",
        11 => "b",
        12 => "c",
        13 => "d",
        14 => "e",
        _ => "f",
    };
    proof {
        reveal_strlit("0");
        reveal_strlit("1");
        reveal_strlit("2");
        reveal_strlit("3");
        reveal_strlit("4");
        reveal_strlit("5");
        reveal_strlit("6");
        reveal_strlit("7");
        reveal_strlit("8");
        reveal_strlit("9");
        reveal_strlit("a");
        reveal_strlit("b");
        reveal_strlit("c");
        reveal_strlit("d");
        reveal_strlit("e");
        reveal_strlit("f");
        assert(s@ =~= seq![hex_digit(d as int)]);
    }
    s
}

/// Appends a number in hexadecimal digits.
fn push_hex(s: &mut String, n: usize)
    ensures
        final(s)@ == old(s)@ + hex_text(n as nat),
    decreases n,
{
    if n >= 16 {
        push_hex(s, n / 16);
    }
    s.append(hex_letter(n % 16));
    assert(s@ =~= old(s)@ + hex_text(n as nat));
}

impl InvalidCoordinateError {
    /// The error in words, with the value that was refused.
    pub fn message(&self) -> (m: String)
        ensures
            m@ == message_of(self@),
    {
        match &self.coord {
            CoordRepr::Empty => String::from_str("Invalid Coordinate"),
            CoordRepr::Num(n) => {
                let mut m = String::from_str("Invalid Coordinate: 0x");
                push_hex(&mut m, *n);
                m
            },
            CoordRepr::Alg(text) => {
                let mut m = String::from_str("Invalid Coordinate: ");
                m.append(text.as_str());
                m
            },
        }
    }
}

} // verus!
