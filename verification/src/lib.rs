use vstd::prelude::*;

pub mod board;
pub mod coord;
pub mod fen;
pub mod moves;
pub mod perft;
pub mod search;

pub use board::Board;
pub use coord::Coord;
pub use search::{negamax, AbortedError};

verus! {

/// The side a piece belongs to, and the side whose turn it is.
#[derive(Clone, Copy, Debug, PartialEq, Eq, Structural)]
pub enum Color {
    White,
    Black,
}

impl Color {
    /// The other side.
    pub open spec fn flipped(self) -> Color {
        match self {
            Color::White => Color::Black,
            Color::Black => Color::White,
        }
    }

    /// The number of the side: 0 for white, 1 for black.
    pub open spec fn index_of(self) -> int {
        match self {
            Color::White => 0,
            Color::Black => 1,
        }
    }

    /// Returns the other side.
    pub fn flip(self) -> (r: Color)
        ensures
            r == self.flipped(),
    {
        match self {
            Color::White => Color::Black,
            Color::Black => Color::White,
        }
    }

    /// The number of the side: 0 for white, 1 for black.
    pub fn index(self) -> (r: u8)
        ensures
            r == self.index_of(),
    {
        match self {
            Color::White => 0,
            Color::Black => 1,
        }
    }

    /// The side with the given number, which is 0 or 1.
    pub fn from_index(value: u8) -> (r: Color)
        requires
            value <= 1,
        ensures
            r.index_of() == value,
    {
        if value == 0 {
            Color::White
        } else {
            Color::Black
        }
    }
}

/// A square's content: empty, or one of six kinds of piece in one of two colours.
#[derive(Clone, Copy, PartialEq, Eq, Debug, Hash, Structural)]
pub enum Piece {
    Empty,
    PawnW,
    RookW,
    KnightW,
    BishopW,
    QueenW,
    KingW,
    PawnB,
    RookB,
    KnightB,
    BishopB,
    QueenB,
    KingB,
}

/// What a piece is, apart from its colour.
#[derive(Clone, Copy, PartialEq, Eq, Debug, Structural)]
pub enum Kind {
    Empty,
    Pawn,
    Rook,
    Knight,
    Bishop,
    Queen,
    King,
}

/// The piece of the given kind and colour; the empty kind has no colour.
pub open spec fn piece_of(kind: Kind, color: Color) -> Piece {
    match (kind, color) {
        (Kind::Empty, _) => Piece::Empty,
        (Kind::Pawn, Color::White) => Piece::PawnW,
        (Kind::Rook, Color::White) => Piece::RookW,
        (Kind::Knight, Color::White) => Piece::KnightW,
        (Kind::Bishop, Color::White) => Piece::BishopW,
        (Kind::Queen, Color::White) => Piece::QueenW,
        (Kind::King, Color::White) => Piece::KingW,
        (Kind::Pawn, Color::Black) => Piece::PawnB,
        (Kind::Rook, Color::Black) => Piece::RookB,
        (Kind::Knight, Color::Black) => Piece::KnightB,
        (Kind::Bishop, Color::Black) => Piece::BishopB,
        (Kind::Queen, Color::Black) => Piece::QueenB,
        (Kind::King, Color::Black) => Piece::KingB,
    }
}

/// The piece that a letter of a position text stands for: upper case for
/// white, lower case for black.
pub open spec fn piece_of_char(value: char) -> Option<Piece> {
    if value == 'P' {
        Some(Piece::PawnW)
    } else if value == 'R' {
        Some(Piece::RookW)
    } else if value == 'N' {
        Some(Piece::KnightW)
    } else if value == 'B' {
        Some(Piece::BishopW)
    } else if value == 'Q' {
        Some(Piece::QueenW)
    } else if value == 'K' {
        Some(Piece::KingW)
    } else if value == 'p' {
        Some(Piece::PawnB)
    } else if value == 'r' {
        Some(Piece::RookB)
    } else if value == 'n' {
        Some(Piece::KnightB)
    } else if value == 'b' {
        Some(Piece::BishopB)
    } else if value == 'q' {
        Some(Piece::QueenB)
    } else if value == 'k' {
        Some(Piece::KingB)
    } else {
        None
    }
}

impl Piece {
    /// The kind of the piece, whatever its colour.
    pub open spec fn kind(self) -> Kind {
        match self {
            Piece::Empty => Kind::Empty,
            Piece::PawnW | Piece::PawnB => Kind::Pawn,
            Piece::RookW | Piece::RookB => Kind::Rook,
            Piece::KnightW | Piece::KnightB => Kind::Knight,
            Piece::BishopW | Piece::BishopB => Kind::Bishop,
            Piece::QueenW | Piece::QueenB => Kind::Queen,
            Piece::KingW | Piece::KingB => Kind::King,
        }
    }

    /// The colour of the piece. An empty square counts as white here; callers
    /// that care test for emptiness first.
    pub open spec fn color(self) -> Color {
        match self {
            Piece::PawnB
            | Piece::RookB
            | Piece::KnightB
            | Piece::BishopB
            | Piece::QueenB
            | Piece::KingB => Color::Black,
            _ => Color::White,
        }
    }

    /// The piece for a letter of a position text, or an error for any other
    /// character.
    pub fn from_char(value: char) -> (r: Result<Piece, ()>)
        ensures
            r.is_ok() == piece_of_char(value).is_some(),
            r.is_ok() ==> Some(r.unwrap()) == piece_of_char(value),
    {
        if value == 'P' {
            Ok(Piece::PawnW)
        } else if value == 'R' {
            Ok(Piece::RookW)
        } else if value == 'N' {
            Ok(Piece::KnightW)
        } else if value == 'B' {
            Ok(Piece::BishopW)
        } else if value == 'Q' {
            Ok(Piece::QueenW)
        } else if value == 'K' {
            Ok(Piece::KingW)
        } else if value == 'p' {
            Ok(Piece::PawnB)
        } else if value == 'r' {
            Ok(Piece::RookB)
        } else if value == 'n' {
            Ok(Piece::KnightB)
        } else if value == 'b' {
            Ok(Piece::BishopB)
        } else if value == 'q' {
            Ok(Piece::QueenB)
        } else if value == 'k' {
            Ok(Piece::KingB)
        } else {
            Err(())
        }
    }

    /// The letter that stands for the piece; a blank for an empty square.
    pub fn to_char(self) -> (r: char)
        ensures
            r == char_of_piece(self),
    {
        match self {
            Piece::PawnW => 'P',
            Piece::RookW => 'R',
            Piece::KnightW => 'N',
            Piece::BishopW => 'B',
            Piece::QueenW => 'Q',
            Piece::KingW => 'K',
            Piece::PawnB => 'p',
            Piece::RookB => 'r',
            Piece::KnightB => 'n',
            Piece::BishopB => 'b',
            Piece::QueenB => 'q',
            Piece::KingB => 'k',
            Piece::Empty => ' ',
        }
    }

    /// Whether this is a white piece.
    pub fn is_white(self) -> (r: bool)
        ensures
            r == (self != Piece::Empty && self.color() == Color::White),
    {
        match self {
            Piece::PawnW
            | Piece::RookW
            | Piece::KnightW
            | Piece::BishopW
            | Piece::QueenW
            | Piece::KingW => true,
            _ => false,
        }
    }

    /// Whether this is a black piece.
    pub fn is_black(self) -> (r: bool)
        ensures
            r == (self != Piece::Empty && self.color() == Color::Black),
    {
        self != Piece::Empty && !self.is_white()
    }

    /// The colour of the piece (white for an empty square).
    pub fn get_color(self) -> (r: Color)
        ensures
            r == self.color(),
    {
        match self {
            Piece::PawnB
            | Piece::RookB
            | Piece::KnightB
            | Piece::BishopB
            | Piece::QueenB
            | Piece::KingB => Color::Black,
            _ => Color::White,
        }
    }

    /// The piece of the same kind in the given colour. An empty square stays
    /// empty.
    pub fn to_color(self, color: Color) -> (r: Piece)
        ensures
            r == piece_of(self.kind(), color),
    {
        match color {
            Color::White => match self {
                Piece::Empty => Piece::Empty,
                Piece::PawnW | Piece::PawnB => Piece::PawnW,
                Piece::RookW | Piece::RookB => Piece::RookW,
                Piece::KnightW | Piece::KnightB => Piece::KnightW,
                Piece::BishopW | Piece::BishopB => Piece::BishopW,
                Piece::QueenW | Piece::QueenB => Piece::QueenW,
                Piece::KingW | Piece::KingB => Piece::KingW,
            },
            Color::Black => match self {
                Piece::Empty => Piece::Empty,
                Piece::PawnW | Piece::PawnB => Piece::PawnB,
                Piece::RookW | Piece::RookB => Piece::RookB,
                Piece::KnightW | Piece::KnightB => Piece::KnightB,
                Piece::BishopW | Piece::BishopB => Piece::BishopB,
                Piece::QueenW | Piece::QueenB => Piece::QueenB,
                Piece::KingW | Piece::KingB => Piece::KingB,
            },
        }
    }
}

/// The piece that a number stands for: the kind in its low three bits
/// (pawn 1, rook 2, knight 3, bishop 4, queen 5, king 6), 8 added for black.
/// Every other number stands for an empty square.
pub open spec fn piece_of_code(value: u8) -> Piece {
    if value == 1 {
        Piece::PawnW
    } else if value == 2 {
        Piece::RookW
    } else if value == 3 {
        Piece::KnightW
    } else if value == 4 {
        Piece::BishopW
    } else if value == 5 {
        Piece::QueenW
    } else if value == 6 {
        Piece::KingW
    } else if value == 9 {
        Piece::PawnB
    } else if value == 10 {
        Piece::RookB
    } else if value == 11 {
        Piece::KnightB
    } else if value == 12 {
        Piece::BishopB
    } else if value == 13 {
        Piece::QueenB
    } else if value == 14 {
        Piece::KingB
    } else {
        Piece::Empty
    }
}

/// The letter that stands for a piece; a blank for an empty square.
pub open spec fn char_of_piece(value: Piece) -> char {
    match value {
        Piece::PawnW => 'P',
        Piece::RookW => 'R',
        Piece::KnightW => 'N',
        Piece::BishopW => 'B',
        Piece::QueenW => 'Q',
        Piece::KingW => 'K',
        Piece::PawnB => 'p',
        Piece::RookB => 'r',
        Piece::KnightB => 'n',
        Piece::BishopB => 'b',
        Piece::QueenB => 'q',
        Piece::KingB => 'k',
        Piece::Empty => ' ',
    }
}

impl From<u8> for Piece {
    fn from(value: u8) -> (p: Piece) {
        match value {
            1 => Piece::PawnW,
            2 => Piece::RookW,
            3 => Piece::KnightW,
            4 => Piece::BishopW,
            5 => Piece::QueenW,
            6 => Piece::KingW,
            9 => Piece::PawnB,
            10 => Piece::RookB,
            11 => Piece::KnightB,
            12 => Piece::BishopB,
            13 => Piece::QueenB,
            14 => Piece::KingB,
            _ => Piece::Empty,
        }
    }
}

impl vstd::std_specs::convert::FromSpecImpl<u8> for Piece {
    open spec fn obeys_from_spec() -> bool {
        true
    }

    open spec fn from_spec(value: u8) -> Piece {
        piece_of_code(value)
    }
}

impl From<Piece> for char {
    fn from(value: Piece) -> (c: char) {
        value.to_char()
    }
}

impl vstd::std_specs::convert::FromSpecImpl<Piece> for char {
    open spec fn obeys_from_spec() -> bool {
        true
    }

    open spec fn from_spec(value: Piece) -> char {
        char_of_piece(value)
    }
}

/// The letter of a piece is read back as that piece.
pub proof fn lemma_piece_letters(p: Piece)
    requires
        p != Piece::Empty,
    ensures
        piece_of_char(char_of_piece(p)) == Some(p),
{
}

/// Recolouring changes the colour and nothing else: the kind stays, a piece
/// takes the colour asked for, and a piece recoloured to its own colour is
/// itself.
pub proof fn lemma_recolor(p: Piece, color: Color)
    ensures
        piece_of(p.kind(), color).kind() == p.kind(),
        p != Piece::Empty ==> piece_of(p.kind(), color).color() == color,
        piece_of(p.kind(), p.color()) == p,
{
}

} // verus!
