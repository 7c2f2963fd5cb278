use vstd::prelude::*;
use vstd::wrapping::u64_specs::{wrapping_add, wrapping_mul};
use crate::coords::{CastleRights, Color, File, Piece};
use crate::square::Square;

verus! {

/// Position-hashing keys: one fixed pseudo-random 64-bit value per piece placement, castling
/// state, en-passant file and side to move.
pub struct Zobrist;

/// The splitmix64 finalizer, which spreads the bits of a key number over the whole word.
pub open spec fn mix(x: u64) -> u64 {
    let z0 = wrapping_add(x, 0x9E37_79B9_7F4A_7C15);
    let z1 = wrapping_mul(z0 ^ (z0 >> 30u64), 0xBF58_476D_1CE4_E5B9);
    let z2 = wrapping_mul(z1 ^ (z1 >> 27u64), 0x94D0_49BB_1331_11EB);
    z2 ^ (z2 >> 31u64)
}

fn mix_key(x: u64) -> (r: u64)
    ensures
        r == mix(x),
{
    let z0 = x.wrapping_add(0x9E37_79B9_7F4A_7C15);
    let z1 = (z0 ^ (z0 >> 30u64)).wrapping_mul(0xBF58_476D_1CE4_E5B9);
    let z2 = (z1 ^ (z1 >> 27u64)).wrapping_mul(0x94D0_49BB_1331_11EB);
    z2 ^ (z2 >> 31u64)
}

/// Key numbers: 0..768 for piece placements, then castling states, en-passant files, and the
/// side to move, each used once.
pub open spec fn piece_key(piece: Piece, square: Square, color: Color) -> int {
    color@ * 384 + piece@ * 64 + square@
}

pub open spec fn castles_key(rights: CastleRights, color: Color) -> int {
    768 + color@ as int * 4 + rights@ as int
}

pub open spec fn en_passant_key(file: File, color: Color) -> int {
    776 + color@ as int * 8 + file@ as int
}

pub open spec fn side_key() -> int {
    792
}

impl Zobrist {
    /// The key of `piece` of `color` standing on `square`.
    pub fn piece(piece: Piece, square: Square, color: Color) -> (r: u64)
        ensures
            r == mix(piece_key(piece, square, color) as u64),
    {
        mix_key((color.to_index() * 384 + piece.to_index() * 64 + square.to_index()) as u64)
    }

    /// The key of `color`'s castling rights.
    pub fn castles(castle_rights: CastleRights, color: Color) -> (r: u64)
        ensures
            r == mix(castles_key(castle_rights, color) as u64),
    {
        mix_key((768 + color.to_index() * 4 + castle_rights.to_index()) as u64)
    }

    /// The key of an en-passant capture on `file` for `color`.
    pub fn en_passant(file: File, color: Color) -> (r: u64)
        ensures
            r == mix(en_passant_key(file, color) as u64),
    {
        mix_key((776 + color.to_index() * 8 + file.to_index()) as u64)
    }

    /// The key toggled when the side to move changes.
    pub fn color() -> (r: u64)
        ensures
            r == mix(side_key() as u64),
    {
        mix_key(792)
    }
}

} // verus!
