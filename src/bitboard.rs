use vstd::prelude::*;
use crate::square::Square;

verus! {

/// A set of squares: bit `i` is set when the square with index `i` is in the set.
#[derive(PartialEq, Eq, Structural, Copy, Clone, Debug, Hash)]
pub struct BitBoard(pub u64);

/// The one-square set holding the square with index `i`.
pub open spec fn square_bit(i: int) -> u64 {
    1u64 << (i as u64)
}

impl BitBoard {
    /// Whether the square with index `i` is in the set.
    pub open spec fn has(self, i: int) -> bool {
        self.0 & square_bit(i) != 0
    }

    pub fn new(b: u64) -> (r: BitBoard)
        ensures
            r.0 == b,
    {
        BitBoard(b)
    }

    /// The empty set.
    pub fn empty() -> (r: BitBoard)
        ensures
            r.0 == 0,
    {
        BitBoard(0)
    }

    /// The set holding `sq` alone.
    pub fn from_square(sq: Square) -> (r: BitBoard)
        ensures
            r.0 == square_bit(sq@),
    {
        BitBoard(1u64 << sq.to_int())
    }

    pub fn and(self, other: BitBoard) -> (r: BitBoard)
        ensures
            r.0 == self.0 & other.0,
    {
        BitBoard(self.0 & other.0)
    }

    pub fn or(self, other: BitBoard) -> (r: BitBoard)
        ensures
            r.0 == self.0 | other.0,
    {
        BitBoard(self.0 | other.0)
    }

    pub fn xor(self, other: BitBoard) -> (r: BitBoard)
        ensures
            r.0 == self.0 ^ other.0,
    {
        BitBoard(self.0 ^ other.0)
    }

    /// The squares not in this set.
    pub fn complement(self) -> (r: BitBoard)
        ensures
            r.0 == !self.0,
    {
        BitBoard(!self.0)
    }

    pub fn is_empty(self) -> (r: bool)
        ensures
            r == (self.0 == 0),
    {
        self.0 == 0
    }
}

} // verus!
