use vstd::prelude::*;

verus! {

/// A row of the board, counted from White's side.
#[derive(PartialEq, Eq, Structural, PartialOrd, Ord, Copy, Clone, Debug, Hash)]
pub enum Rank {
    First,
    Second,
    Third,
    Fourth,
    Fifth,
    Sixth,
    Seventh,
    Eighth,
}

/// A column of the board, from the queen's side.
#[derive(PartialEq, Eq, Structural, PartialOrd, Ord, Copy, Clone, Debug, Hash)]
pub enum File {
    A,
    B,
    C,
    D,
    E,
    F,
    G,
    H,
}

/// The side a piece belongs to.
#[derive(PartialEq, Eq, Structural, PartialOrd, Ord, Copy, Clone, Debug, Hash)]
pub enum Color {
    White,
    Black,
}

/// The kind of a chess piece.
#[derive(PartialEq, Eq, Structural, PartialOrd, Ord, Copy, Clone, Debug, Hash)]
pub enum Piece {
    Pawn,
    Knight,
    Bishop,
    Rook,
    Queen,
    King,
}

/// Which castling moves a side may still make.
#[derive(PartialEq, Eq, Structural, PartialOrd, Ord, Copy, Clone, Debug, Hash)]
pub enum CastleRights {
    NoRights,
    KingSide,
    QueenSide,
    Both,
}

impl Rank {
    pub open spec fn view(self) -> nat {
        match self {
            Rank::First => 0,
            Rank::Second => 1,
            Rank::Third => 2,
            Rank::Fourth => 3,
            Rank::Fifth => 4,
            Rank::Sixth => 5,
            Rank::Seventh => 6,
            Rank::Eighth => 7,
        }
    }

    /// The rank with the given index, taken modulo 8.
    pub fn from_index(i: usize) -> (r: Rank)
        ensures
            r@ == i % 8,
    {
        match i % 8 {
            0 => Rank::First,
            1 => Rank::Second,
            2 => Rank::Third,
            3 => Rank::Fourth,
            4 => Rank::Fifth,
            5 => Rank::Sixth,
            6 => Rank::Seventh,
            _ => Rank::Eighth,
        }
    }

    pub fn to_index(self) -> (r: usize)
        ensures
            r == self@,
            r < 8,
    {
        match self {
            Rank::First => 0,
            Rank::Second => 1,
            Rank::Third => 2,
            Rank::Fourth => 3,
            Rank::Fifth => 4,
            Rank::Sixth => 5,
            Rank::Seventh => 6,
            Rank::Eighth => 7,
        }
    }

    /// The next rank towards Black, wrapping from the eighth to the first.
    pub fn up(self) -> (r: Rank)
        ensures
            r@ == (self@ + 1) % 8,
    {
        Rank::from_index(self.to_index() + 1)
    }

    /// The next rank towards White, wrapping from the first to the eighth.
    pub fn down(self) -> (r: Rank)
        ensures
            r@ == (self@ + 7) % 8,
    {
        Rank::from_index(self.to_index() + 7)
    }
}

impl File {
    pub open spec fn view(self) -> nat {
        match self {
            File::A => 0,
            File::B => 1,
            File::C => 2,
            File::D => 3,
            File::E => 4,
            File::F => 5,
            File::G => 6,
            File::H => 7,
        }
    }

    /// The file with the given index, taken modulo 8.
    pub fn from_index(i: usize) -> (r: File)
        ensures
            r@ == i % 8,
    {
        match i % 8 {
            0 => File::A,
            1 => File::B,
            2 => File::C,
            3 => File::D,
            4 => File::E,
            5 => File::F,
            6 => File::G,
            _ => File::H,
        }
    }

    pub fn to_index(self) -> (r: usize)
        ensures
            r == self@,
            r < 8,
    {
        match self {
            File::A => 0,
            File::B => 1,
            File::C => 2,
            File::D => 3,
            File::E => 4,
            File::F => 5,
            File::G => 6,
            File::H => 7,
        }
    }

    /// The neighbouring file towards the A file, wrapping from A to H.
    pub fn left(self) -> (r: File)
        ensures
            r@ == (self@ + 7) % 8,
    {
        File::from_index(self.to_index() + 7)
    }

    /// The neighbouring file towards the H file, wrapping from H to A.
    pub fn right(self) -> (r: File)
        ensures
            r@ == (self@ + 1) % 8,
    {
        File::from_index(self.to_index() + 1)
    }
}

impl Color {
    pub open spec fn view(self) -> nat {
        match self {
            Color::White => 0,
            Color::Black => 1,
        }
    }

    pub fn to_index(self) -> (r: usize)
        ensures
            r == self@,
    {
        match self {
            Color::White => 0,
            Color::Black => 1,
        }
    }
}

impl Piece {
    pub open spec fn view(self) -> nat {
        match self {
            Piece::Pawn => 0,
            Piece::Knight => 1,
            Piece::Bishop => 2,
            Piece::Rook => 3,
            Piece::Queen => 4,
            Piece::King => 5,
        }
    }

    pub fn to_index(self) -> (r: usize)
        ensures
            r == self@,
    {
        match self {
            Piece::Pawn => 0,
            Piece::Knight => 1,
            Piece::Bishop => 2,
            Piece::Rook => 3,
            Piece::Queen => 4,
            Piece::King => 5,
        }
    }
}

impl CastleRights {
    pub open spec fn view(self) -> nat {
        match self {
            CastleRights::NoRights => 0,
            CastleRights::KingSide => 1,
            CastleRights::QueenSide => 2,
            CastleRights::Both => 3,
        }
    }

    pub fn to_index(self) -> (r: usize)
        ensures
            r == self@,
    {
        match self {
            CastleRights::NoRights => 0,
            CastleRights::KingSide => 1,
            CastleRights::QueenSide => 2,
            CastleRights::Both => 3,
        }
    }
}

} // verus!
