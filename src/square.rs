use vstd::prelude::*;
use vstd::utf8::encode_utf8;
use crate::coords::{Color, File, Rank};

verus! {

/// The number of squares on the board.
pub const NUM_SQUARES: usize = 64;

/// A square of the board, numbered `8 * rank + file` from a1 (0) to h8 (63).
#[derive(PartialEq, Eq, Structural, PartialOrd, Ord, Copy, Clone, Debug, Hash)]
pub enum Square {
    A1,
    B1,
    C1,
    D1,
    E1,
    F1,
    G1,
    H1,
    A2,
    B2,
    C2,
    D2,
    E2,
    F2,
    G2,
    H2,
    A3,
    B3,
    C3,
    D3,
    E3,
    F3,
    G3,
    H3,
    A4,
    B4,
    C4,
    D4,
    E4,
    F4,
    G4,
    H4,
    A5,
    B5,
    C5,
    D5,
    E5,
    F5,
    G5,
    H5,
    A6,
    B6,
    C6,
    D6,
    E6,
    F6,
    G6,
    H6,
    A7,
    B7,
    C7,
    D7,
    E7,
    F7,
    G7,
    H7,
    A8,
    B8,
    C8,
    D8,
    E8,
    F8,
    G8,
    H8,
}

/// Every square of the board, from a1 to h8 in index order.
pub const ALL_SQUARES: [Square; 64] = [
    Square::A1, Square::B1, Square::C1, Square::D1, Square::E1, Square::F1, Square::G1, Square::H1,
    Square::A2, Square::B2, Square::C2, Square::D2, Square::E2, Square::F2, Square::G2, Square::H2,
    Square::A3, Square::B3, Square::C3, Square::D3, Square::E3, Square::F3, Square::G3, Square::H3,
    Square::A4, Square::B4, Square::C4, Square::D4, Square::E4, Square::F4, Square::G4, Square::H4,
    Square::A5, Square::B5, Square::C5, Square::D5, Square::E5, Square::F5, Square::G5, Square::H5,
    Square::A6, Square::B6, Square::C6, Square::D6, Square::E6, Square::F6, Square::G6, Square::H6,
    Square::A7, Square::B7, Square::C7, Square::D7, Square::E7, Square::F7, Square::G7, Square::H7,
    Square::A8, Square::B8, Square::C8, Square::D8, Square::E8, Square::F8, Square::G8, Square::H8,
];

/// The index of the square on the given rank and file.
pub open spec fn square_at(rank: int, file: int) -> int {
    rank * 8 + file
}

impl Square {

    /// The square's index, `8 * rank + file`, from 0 to 63.
    pub open spec fn view(self) -> int {
        match self {
            Square::A1 => 0,
            Square::B1 => 1,
            Square::C1 => 2,
            Square::D1 => 3,
            Square::E1 => 4,
            Square::F1 => 5,
            Square::G1 => 6,
            Square::H1 => 7,
            Square::A2 => 8,
            Square::B2 => 9,
            Square::C2 => 10,
            Square::D2 => 11,
            Square::E2 => 12,
            Square::F2 => 13,
            Square::G2 => 14,
            Square::H2 => 15,
            Square::A3 => 16,
            Square::B3 => 17,
            Square::C3 => 18,
            Square::D3 => 19,
            Square::E3 => 20,
            Square::F3 => 21,
            Square::G3 => 22,
            Square::H3 => 23,
            Square::A4 => 24,
            Square::B4 => 25,
            Square::C4 => 26,
            Square::D4 => 27,
            Square::E4 => 28,
            Square::F4 => 29,
            Square::G4 => 30,
            Square::H4 => 31,
            Square::A5 => 32,
            Square::B5 => 33,
            Square::C5 => 34,
            Square::D5 => 35,
            Square::E5 => 36,
            Square::F5 => 37,
            Square::G5 => 38,
            Square::H5 => 39,
            Square::A6 => 40,
            Square::B6 => 41,
            Square::C6 => 42,
            Square::D6 => 43,
            Square::E6 => 44,
            Square::F6 => 45,
            Square::G6 => 46,
            Square::H6 => 47,
            Square::A7 => 48,
            Square::B7 => 49,
            Square::C7 => 50,
            Square::D7 => 51,
            Square::E7 => 52,
            Square::F7 => 53,
            Square::G7 => 54,
            Square::H7 => 55,
            Square::A8 => 56,
            Square::B8 => 57,
            Square::C8 => 58,
            Square::D8 => 59,
            Square::E8 => 60,
            Square::F8 => 61,
            Square::G8 => 62,
            Square::H8 => 63,
        }
    }

    pub open spec fn rank_of(self) -> int {
        self@ / 8
    }

    pub open spec fn file_of(self) -> int {
        self@ % 8
    }

    /// Two squares with the same index are the same square.
    pub proof fn lemma_view_determines(a: Square, b: Square)
        ensures
            a@ == b@ ==> a == b,
    {
    }

    /// Every square's index lies between 0 and 63.
    pub proof fn lemma_view_range(a: Square)
        ensures
            0 <= a@ < 64,
    {
    }

    /// The square with the given index, taken modulo 64.
    pub fn new(sq: u8) -> (r: Square)
        ensures
            r@ == sq % 64,
    {
        proof {
            assert(sq & 63 == sq % 64) by (bit_vector);
        }
        match sq & 63 {
            0 => Square::A1,
            1 => Square::B1,
            2 => Square::C1,
            3 => Square::D1,
            4 => Square::E1,
            5 => Square::F1,
            6 => Square::G1,
            7 => Square::H1,
            8 => Square::A2,
            9 => Square::B2,
            10 => Square::C2,
            11 => Square::D2,
            12 => Square::E2,
            13 => Square::F2,
            14 => Square::G2,
            15 => Square::H2,
            16 => Square::A3,
            17 => Square::B3,
            18 => Square::C3,
            19 => Square::D3,
            20 => Square::E3,
            21 => Square::F3,
            22 => Square::G3,
            23 => Square::H3,
            24 => Square::A4,
            25 => Square::B4,
            26 => Square::C4,
            27 => Square::D4,
            28 => Square::E4,
            29 => Square::F4,
            30 => Square::G4,
            31 => Square::H4,
            32 => Square::A5,
            33 => Square::B5,
            34 => Square::C5,
            35 => Square::D5,
            36 => Square::E5,
            37 => Square::F5,
            38 => Square::G5,
            39 => Square::H5,
            40 => Square::A6,
            41 => Square::B6,
            42 => Square::C6,
            43 => Square::D6,
            44 => Square::E6,
            45 => Square::F6,
            46 => Square::G6,
            47 => Square::H6,
            48 => Square::A7,
            49 => Square::B7,
            50 => Square::C7,
            51 => Square::D7,
            52 => Square::E7,
            53 => Square::F7,
            54 => Square::G7,
            55 => Square::H7,
            56 => Square::A8,
            57 => Square::B8,
            58 => Square::C8,
            59 => Square::D8,
            60 => Square::E8,
            61 => Square::F8,
            62 => Square::G8,
            _ => Square::H8,
        }
    }

    /// The square on the given rank and file.
    pub fn make_square(rank: Rank, file: File) -> (r: Square)
        ensures
            r@ == square_at(rank@ as int, file@ as int),
            r.rank_of() == rank@,
            r.file_of() == file@,
    {
        let r = rank.to_index() as u8;
        let f = file.to_index() as u8;
        Square::new(r * 8 + f)
    }

    pub fn get_rank(self) -> (r: Rank)
        ensures
            r@ == self.rank_of(),
    {
        Rank::from_index((self.to_int() / 8) as usize)
    }

    pub fn get_file(self) -> (r: File)
        ensures
            r@ == self.file_of(),
    {
        File::from_index((self.to_int() % 8) as usize)
    }

    /// The square one rank up, if there is one.
    pub fn up(&self) -> (r: Option<Square>)
        ensures
            step_result(r, self.rank_of() < 7, self@ + 8),
    {
        if self.get_rank() == Rank::Eighth {
            None
        } else {
            Some(Square::make_square(self.get_rank().up(), self.get_file()))
        }
    }

    /// The square one rank down, if there is one.
    pub fn down(&self) -> (r: Option<Square>)
        ensures
            step_result(r, self.rank_of() > 0, self@ - 8),
    {
        if self.get_rank() == Rank::First {
            None
        } else {
            Some(Square::make_square(self.get_rank().down(), self.get_file()))
        }
    }

    /// The square one file to the left, if there is one.
    pub fn left(&self) -> (r: Option<Square>)
        ensures
            step_result(r, self.file_of() > 0, self@ - 1),
    {
        if self.get_file() == File::A {
            None
        } else {
            Some(Square::make_square(self.get_rank(), self.get_file().left()))
        }
    }

    /// The square one file to the right, if there is one.
    pub fn right(&self) -> (r: Option<Square>)
        ensures
            step_result(r, self.file_of() < 7, self@ + 1),
    {
        if self.get_file() == File::H {
            None
        } else {
            Some(Square::make_square(self.get_rank(), self.get_file().right()))
        }
    }

    /// The square one rank ahead from `color`'s point of view, if there is one.
    pub fn forward(&self, color: Color) -> (r: Option<Square>)
        ensures
            color == Color::White ==> step_result(r, self.rank_of() < 7, self@ + 8),
            color == Color::Black ==> step_result(r, self.rank_of() > 0, self@ - 8),
    {
        match color {
            Color::White => self.up(),
            Color::Black => self.down(),
        }
    }

    /// The square one rank behind from `color`'s point of view, if there is one.
    pub fn backward(&self, color: Color) -> (r: Option<Square>)
        ensures
            color == Color::White ==> step_result(r, self.rank_of() > 0, self@ - 8),
            color == Color::Black ==> step_result(r, self.rank_of() < 7, self@ + 8),
    {
        match color {
            Color::White => self.down(),
            Color::Black => self.up(),
        }
    }

    /// The square one rank up, wrapping from the eighth rank to the first.
    pub fn uup(&self) -> (r: Square)
        ensures
            r@ == square_at((self.rank_of() + 1) % 8, self.file_of()),
    {
        Square::make_square(self.get_rank().up(), self.get_file())
    }

    /// The square one rank down, wrapping from the first rank to the eighth.
    pub fn udown(&self) -> (r: Square)
        ensures
            r@ == square_at((self.rank_of() + 7) % 8, self.file_of()),
    {
        Square::make_square(self.get_rank().down(), self.get_file())
    }

    /// The square one file left, wrapping from the A file to the H file.
    pub fn uleft(&self) -> (r: Square)
        ensures
            r@ == square_at(self.rank_of(), (self.file_of() + 7) % 8),
    {
        Square::make_square(self.get_rank(), self.get_file().left())
    }

    /// The square one file right, wrapping from the H file to the A file.
    pub fn uright(&self) -> (r: Square)
        ensures
            r@ == square_at(self.rank_of(), (self.file_of() + 1) % 8),
    {
        Square::make_square(self.get_rank(), self.get_file().right())
    }

    /// The square one rank ahead from `color`'s point of view, wrapping at the board's edge.
    pub fn uforward(&self, color: Color) -> (r: Square)
        ensures
            r@ == square_at(self.ahead_rank(color), self.file_of()),
    {
        match color {
            Color::White => self.uup(),
            Color::Black => self.udown(),
        }
    }

    /// The square one rank behind from `color`'s point of view, wrapping at the board's edge.
    pub fn ubackward(&self, color: Color) -> (r: Square)
        ensures
            color == Color::White ==> r@ == square_at((self.rank_of() + 7) % 8, self.file_of()),
            color == Color::Black ==> r@ == square_at((self.rank_of() + 1) % 8, self.file_of()),
    {
        match color {
            Color::White => self.udown(),
            Color::Black => self.uup(),
        }
    }

    /// The rank one step ahead of this square for `color`, wrapping at the board's edge.
    pub open spec fn ahead_rank(self, color: Color) -> int {
        match color {
            Color::White => (self.rank_of() + 1) % 8,
            Color::Black => (self.rank_of() + 7) % 8,
        }
    }

    pub fn to_int(self) -> (r: u8)
        ensures
            r == self@,
            r < 64,
    {
        match self {
            Square::A1 => 0,
            Square::B1 => 1,
            Square::C1 => 2,
            Square::D1 => 3,
            Square::E1 => 4,
            Square::F1 => 5,
            Square::G1 => 6,
            Square::H1 => 7,
            Square::A2 => 8,
            Square::B2 => 9,
            Square::C2 => 10,
            Square::D2 => 11,
            Square::E2 => 12,
            Square::F2 => 13,
            Square::G2 => 14,
            Square::H2 => 15,
            Square::A3 => 16,
            Square::B3 => 17,
            Square::C3 => 18,
            Square::D3 => 19,
            Square::E3 => 20,
            Square::F3 => 21,
            Square::G3 => 22,
            Square::H3 => 23,
            Square::A4 => 24,
            Square::B4 => 25,
            Square::C4 => 26,
            Square::D4 => 27,
            Square::E4 => 28,
            Square::F4 => 29,
            Square::G4 => 30,
            Square::H4 => 31,
            Square::A5 => 32,
            Square::B5 => 33,
            Square::C5 => 34,
            Square::D5 => 35,
            Square::E5 => 36,
            Square::F5 => 37,
            Square::G5 => 38,
            Square::H5 => 39,
            Square::A6 => 40,
            Square::B6 => 41,
            Square::C6 => 42,
            Square::D6 => 43,
            Square::E6 => 44,
            Square::F6 => 45,
            Square::G6 => 46,
            Square::H6 => 47,
            Square::A7 => 48,
            Square::B7 => 49,
            Square::C7 => 50,
            Square::D7 => 51,
            Square::E7 => 52,
            Square::F7 => 53,
            Square::G7 => 54,
            Square::H7 => 55,
            Square::A8 => 56,
            Square::B8 => 57,
            Square::C8 => 58,
            Square::D8 => 59,
            Square::E8 => 60,
            Square::F8 => 61,
            Square::G8 => 62,
            Square::H8 => 63,
        }
    }

    pub fn to_index(self) -> (r: usize)
        ensures
            r == self@,
            r < 64,
    {
        self.to_int() as usize
    }

    /// Reads a square in coordinate notation ("e4"): a file letter `a`..`h` followed by a rank
    /// digit `1`..`8`; anything after the second character is ignored.
    pub fn parse(s: &str) -> (r: Result<Square, Error>)
        ensures
            r is Ok <==> coordinate_ok(encode_utf8(s@)),
            r matches Ok(sq) ==> sq@ == coordinate_index(encode_utf8(s@)),
    {
        let b = s.as_bytes();
        if b.len() < 2 {
            return Err(Error::InvalidSquare);
        }
        let f = b[0];
        let r = b[1];
        if f < 97 || f > 104 || r < 49 || r > 56 {
            return Err(Error::InvalidSquare);
        }
        Ok(Square::new((r - 49) * 8 + (f - 97)))
    }

    /// Reads a square in coordinate notation, as `parse` does; `None` when it is malformed.
    pub fn from_string(s: String) -> (r: Option<Square>)
        ensures
            r is Some <==> coordinate_ok(encode_utf8(s@)),
            r matches Some(sq) ==> sq@ == coordinate_index(encode_utf8(s@)),
    {
        match Square::parse(s.as_str()) {
            Ok(sq) => Some(sq),
            Err(_) => None,
        }
    }

    /// The square in coordinate notation: its file letter, then its rank digit.
    pub fn to_string(self) -> (r: String)
        ensures
            r@ == seq![(97 + self.file_of()) as char, (49 + self.rank_of()) as char],
    {
        let mut b: Vec<u8> = Vec::new();
        let i = self.to_int();
        b.push(97 + i % 8);
        b.push(49 + i / 8);
        let r = ascii_string(b);
        assert(r@ =~= seq![(97 + self.file_of()) as char, (49 + self.rank_of()) as char]);
        r
    }
}

/// A malformed square coordinate.
#[derive(PartialEq, Eq, Structural, Copy, Clone, Debug)]
pub enum Error {
    InvalidSquare,
}

impl std::str::FromStr for Square {
    type Err = Error;

    fn from_str(s: &str) -> Result<Square, Error> {
        Square::parse(s)
    }
}

/// Relies on `String::from_utf8`: ASCII bytes are valid UTF-8, each byte one character.
#[verifier::external_body]
fn ascii_string(b: Vec<u8>) -> (r: String)
    requires
        forall|i: int| 0 <= i < b.len() ==> b[i] < 128,
    ensures
        r@.len() == b.len(),
        forall|i: int| 0 <= i < b.len() ==> r@[i] == b[i] as char,
{
    match String::from_utf8(b) {
        Ok(s) => s,
        Err(_) => String::new(),
    }
}

/// `r` holds the square with index `target` when `ok`, and nothing otherwise.
pub open spec fn step_result(r: Option<Square>, ok: bool, target: int) -> bool {
    if ok {
        r matches Some(q) && q@ == target
    } else {
        r is None
    }
}

/// Whether `b` starts with a file letter and a rank digit.
pub open spec fn coordinate_ok(b: Seq<u8>) -> bool {
    &&& b.len() >= 2
    &&& 97 <= b[0] <= 104
    &&& 49 <= b[1] <= 56
}

/// The index of the square that a well-formed coordinate names.
pub open spec fn coordinate_index(b: Seq<u8>) -> int {
    square_at(b[1] - 49, b[0] - 97)
}

impl Default for Square {
    /// The square a1.
    fn default() -> (r: Square)
        ensures
            r@ == 0,
    {
        Square::new(0)
    }
}

} // verus!
