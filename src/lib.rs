//! Move-generation primitives for a chess engine: coordinates, bit-set boards, static attack
//! sets, and magic-bitboard lookups for sliding pieces in two interchangeable schemes.

pub mod bitboard;
pub mod bits;
pub mod coords;
pub mod geometry;
pub mod magic;
pub mod sliding;
pub mod square;
pub mod zobrist;

pub use bitboard::BitBoard;
pub use coords::{CastleRights, Color, File, Piece, Rank};
pub use geometry::{
    between, get_adjacent_files, get_castle_moves, get_file, get_king_moves, get_knight_moves,
    get_pawn_attacks, get_pawn_dest_double_moves, get_pawn_moves, get_pawn_quiets,
    get_pawn_source_double_moves, get_rank,
};
pub use magic::{
    bmi_table_access_is_sound, get_bishop_moves, get_bishop_moves_bmi, get_rook_moves,
    get_rook_moves_bmi, table_access_is_sound, BmiMagic, Magic, MagicTables,
};
pub use sliding::{get_bishop_rays, get_rook_rays, Slider};
pub use square::{Square, ALL_SQUARES, NUM_SQUARES};
pub use zobrist::Zobrist;
