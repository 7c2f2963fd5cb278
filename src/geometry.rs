use vstd::prelude::*;
use crate::bitboard::BitBoard;
use crate::coords::{Color, File, Rank};
use crate::square::Square;

verus! {

pub open spec fn rank_index(i: int) -> int {
    i / 8
}

pub open spec fn file_index(i: int) -> int {
    i % 8
}

pub open spec fn abs(v: int) -> int {
    if v < 0 {
        -v
    } else {
        v
    }
}

/// Whether two distinct squares share a rank, a file or a diagonal.
pub open spec fn aligned(a: int, b: int) -> bool {
    &&& a != b
    &&& {
        ||| rank_index(a) == rank_index(b)
        ||| file_index(a) == file_index(b)
        ||| rank_index(a) - file_index(a) == rank_index(b) - file_index(b)
        ||| rank_index(a) + file_index(a) == rank_index(b) + file_index(b)
    }
}

/// Whether `x` lies on the edge-to-edge line through the aligned squares `a` and `b`.
pub open spec fn on_line(a: int, b: int, x: int) -> bool {
    &&& aligned(a, b)
    &&& {
        ||| rank_index(a) == rank_index(b) && rank_index(x) == rank_index(a)
        ||| file_index(a) == file_index(b) && file_index(x) == file_index(a)
        ||| rank_index(a) - file_index(a) == rank_index(b) - file_index(b)
            && rank_index(x) - file_index(x) == rank_index(a) - file_index(a)
        ||| rank_index(a) + file_index(a) == rank_index(b) + file_index(b)
            && rank_index(x) + file_index(x) == rank_index(a) + file_index(a)
    }
}

pub open spec fn within(lo: int, hi: int, v: int) -> bool {
    (lo <= v <= hi) || (hi <= v <= lo)
}

/// Whether `x` lies strictly between the aligned squares `a` and `b`.
pub open spec fn strictly_between(a: int, b: int, x: int) -> bool {
    &&& on_line(a, b, x)
    &&& x != a
    &&& x != b
    &&& within(rank_index(a), rank_index(b), rank_index(x))
    &&& within(file_index(a), file_index(b), file_index(x))
}

/// The fixed square sets of the board, each a predicate on a square `x` given up to two
/// parameters `a` and `b` (square, rank or file indices).
#[derive(PartialEq, Eq, Structural, Copy, Clone, Debug)]
pub enum Shape {
    /// The squares a king on `a` steps to.
    King,
    /// The squares a knight on `a` jumps to.
    Knight,
    /// The squares a white pawn on `a` captures on.
    WhitePawnCapture,
    /// The squares a black pawn on `a` captures on.
    BlackPawnCapture,
    /// The squares a white pawn on `a` pushes to: one rank, or two from the second rank.
    WhitePawnPush,
    /// The squares a black pawn on `a` pushes to: one rank, or two from the seventh rank.
    BlackPawnPush,
    /// The line through `a` and `b`, edge to edge.
    Line,
    /// The squares strictly between `a` and `b`.
    Between,
    /// The rank with index `a`.
    RankLine,
    /// The file with index `a`.
    FileLine,
    /// The files next to the file with index `a`.
    AdjacentFiles,
    /// c1, g1, c8 and g8, where a castling king lands.
    CastleDestinations,
    /// The second and seventh ranks, where a pawn may advance two squares from.
    DoublePushSources,
    /// The fourth and fifth ranks, where a two-square pawn advance lands.
    DoublePushDestinations,
}

pub open spec fn shape_has(shape: Shape, a: int, b: int, x: int) -> bool {
    let dr = rank_index(x) - rank_index(a);
    let df = file_index(x) - file_index(a);
    match shape {
        Shape::King => x != a && abs(dr) <= 1 && abs(df) <= 1,
        Shape::Knight => (abs(dr) == 1 && abs(df) == 2) || (abs(dr) == 2 && abs(df) == 1),
        Shape::WhitePawnCapture => dr == 1 && abs(df) == 1,
        Shape::BlackPawnCapture => dr == -1 && abs(df) == 1,
        Shape::WhitePawnPush => df == 0 && (dr == 1 || (dr == 2 && rank_index(a) == 1)),
        Shape::BlackPawnPush => df == 0 && (dr == -1 || (dr == -2 && rank_index(a) == 6)),
        Shape::Line => on_line(a, b, x),
        Shape::Between => strictly_between(a, b, x),
        Shape::RankLine => rank_index(x) == a,
        Shape::FileLine => file_index(x) == a,
        Shape::AdjacentFiles => abs(file_index(x) - a) == 1,
        Shape::CastleDestinations => x == 2 || x == 6 || x == 58 || x == 62,
        Shape::DoublePushSources => rank_index(x) == 1 || rank_index(x) == 6,
        Shape::DoublePushDestinations => rank_index(x) == 3 || rank_index(x) == 4,
    }
}

/// The set of the squares below `n` that `shape` holds.
pub open spec fn shape_board(shape: Shape, a: int, b: int, n: nat) -> u64
    decreases n,
{
    if n == 0 {
        0
    } else {
        let below = shape_board(shape, a, b, (n - 1) as nat);
        if shape_has(shape, a, b, n - 1) {
            below | (1u64 << ((n - 1) as u64))
        } else {
            below
        }
    }
}

/// The full set of squares that `shape` holds.
pub open spec fn shape_set(shape: Shape, a: int, b: int) -> u64 {
    shape_board(shape, a, b, 64)
}

fn abs_i32(v: i32) -> (r: i32)
    requires
        -1000 < v < 1000,
    ensures
        r == abs(v as int),
{
    if v < 0 {
        -v
    } else {
        v
    }
}

fn within_i32(lo: i32, hi: i32, v: i32) -> (r: bool)
    ensures
        r == within(lo as int, hi as int, v as int),
{
    (lo <= v && v <= hi) || (hi <= v && v <= lo)
}

/// Decides `shape_has` for parameters and a square below 64.
fn shape_member(shape: Shape, a: u8, b: u8, x: u8) -> (r: bool)
    requires
        a < 64,
        b < 64,
        x < 64,
    ensures
        r == shape_has(shape, a as int, b as int, x as int),
{
    let ra = (a / 8) as i32;
    let fa = (a % 8) as i32;
    let rb = (b / 8) as i32;
    let fb = (b % 8) as i32;
    let rx = (x / 8) as i32;
    let fx = (x % 8) as i32;
    let dr = rx - ra;
    let df = fx - fa;
    let aligned = a != b && (ra == rb || fa == fb || ra - fa == rb - fb || ra + fa == rb + fb);
    let on_line = aligned && ((ra == rb && rx == ra) || (fa == fb && fx == fa) || (ra - fa == rb
        - fb && rx - fx == ra - fa) || (ra + fa == rb + fb && rx + fx == ra + fa));
    match shape {
        Shape::King => x != a && abs_i32(dr) <= 1 && abs_i32(df) <= 1,
        Shape::Knight => (abs_i32(dr) == 1 && abs_i32(df) == 2) || (abs_i32(dr) == 2 && abs_i32(df)
            == 1),
        Shape::WhitePawnCapture => dr == 1 && abs_i32(df) == 1,
        Shape::BlackPawnCapture => dr == -1 && abs_i32(df) == 1,
        Shape::WhitePawnPush => df == 0 && (dr == 1 || (dr == 2 && ra == 1)),
        Shape::BlackPawnPush => df == 0 && (dr == -1 || (dr == -2 && ra == 6)),
        Shape::Line => on_line,
        Shape::Between => on_line && x != a && x != b && within_i32(ra, rb, rx) && within_i32(
            fa,
            fb,
            fx,
        ),
        Shape::RankLine => rx == a as i32,
        Shape::FileLine => fx == a as i32,
        Shape::AdjacentFiles => abs_i32(fx - a as i32) == 1,
        Shape::CastleDestinations => x == 2 || x == 6 || x == 58 || x == 62,
        Shape::DoublePushSources => rx == 1 || rx == 6,
        Shape::DoublePushDestinations => rx == 3 || rx == 4,
    }
}

/// Builds the set of squares that `shape` holds, one square at a time.
fn collect(shape: Shape, a: u8, b: u8) -> (r: BitBoard)
    requires
        a < 64,
        b < 64,
    ensures
        r.0 == shape_set(shape, a as int, b as int),
{
    let mut acc: u64 = 0;
    let mut x: u8 = 0;
    while x < 64
        invariant
            x <= 64,
            a < 64,
            b < 64,
            acc == shape_board(shape, a as int, b as int, x as nat),
        decreases 64 - x,
    {
        if shape_member(shape, a, b, x) {
            acc = acc | (1u64 << x);
        }
        x = x + 1;
    }
    BitBoard(acc)
}

/// The squares a king on `sq` attacks.
pub fn get_king_moves(sq: Square) -> (r: BitBoard)
    ensures
        r.0 == shape_set(Shape::King, sq@, 0),
{
    collect(Shape::King, sq.to_int(), 0)
}

/// The squares a knight on `sq` attacks.
pub fn get_knight_moves(sq: Square) -> (r: BitBoard)
    ensures
        r.0 == shape_set(Shape::Knight, sq@, 0),
{
    collect(Shape::Knight, sq.to_int(), 0)
}

pub open spec fn pawn_capture_shape(color: Color) -> Shape {
    match color {
        Color::White => Shape::WhitePawnCapture,
        Color::Black => Shape::BlackPawnCapture,
    }
}

pub open spec fn pawn_push_shape(color: Color) -> Shape {
    match color {
        Color::White => Shape::WhitePawnPush,
        Color::Black => Shape::BlackPawnPush,
    }
}

/// The squares a pawn of `color` on `sq` captures on, given the occupied squares.
pub open spec fn pawn_attacks_set(sq: Square, color: Color, blockers: u64) -> u64 {
    shape_set(pawn_capture_shape(color), sq@, 0) & blockers
}

/// The index of the square one rank ahead of `sq` for `color`, wrapping at the board's edge.
pub open spec fn square_at_ahead(sq: Square, color: Color) -> int {
    crate::square::square_at(sq.ahead_rank(color), sq.file_of())
}

/// The squares a pawn of `color` on `sq` pushes to, given the occupied squares.
pub open spec fn pawn_quiets_set(sq: Square, color: Color, blockers: u64) -> u64 {
    if BitBoard(blockers).has(square_at_ahead(sq, color)) {
        0
    } else {
        shape_set(pawn_push_shape(color), sq@, 0) & !blockers
    }
}

/// The squares a pawn of `color` on `sq` captures on: its diagonal steps that are occupied.
pub fn get_pawn_attacks(sq: Square, color: Color, blockers: BitBoard) -> (r: BitBoard)
    ensures
        r.0 == pawn_attacks_set(sq, color, blockers.0),
{
    let shape = match color {
        Color::White => Shape::WhitePawnCapture,
        Color::Black => Shape::BlackPawnCapture,
    };
    collect(shape, sq.to_int(), 0).and(blockers)
}

/// The squares a pawn of `color` on `sq` pushes to: none when the square straight ahead
/// (wrapping at the board's edge, and used only to look that square up) is occupied, else its
/// push squares that are free.
pub fn get_pawn_quiets(sq: Square, color: Color, blockers: BitBoard) -> (r: BitBoard)
    ensures
        r.0 == pawn_quiets_set(sq, color, blockers.0),
{
    let ahead = sq.uforward(color);
    let probe = BitBoard::from_square(ahead).and(blockers);
    proof {
        let x = crate::bitboard::square_bit(ahead@);
        let k = blockers.0;
        assert(x & k == k & x) by (bit_vector);
    }
    if !probe.is_empty() {
        BitBoard(0)
    } else {
        let shape = match color {
            Color::White => Shape::WhitePawnPush,
            Color::Black => Shape::BlackPawnPush,
        };
        collect(shape, sq.to_int(), 0).and(blockers.complement())
    }
}

/// All the moves of a pawn of `color` on `sq`: its captures and its pushes. The two never
/// share a square, so their exclusive or is their union.
pub fn get_pawn_moves(sq: Square, color: Color, blockers: BitBoard) -> (r: BitBoard)
    ensures
        r.0 == pawn_attacks_set(sq, color, blockers.0) | pawn_quiets_set(sq, color, blockers.0),
{
    let a = get_pawn_attacks(sq, color, blockers);
    let q = get_pawn_quiets(sq, color, blockers);
    proof {
        pawn_moves_exclusive(sq, color, blockers.0);
        let x = a.0;
        let y = q.0;
        assert(x & y == 0 ==> x ^ y == x | y) by (bit_vector);
    }
    a.xor(q)
}

proof fn board_below(shape: Shape, a: int, b: int, n: nat)
    requires
        n < 64,
    ensures
        shape_board(shape, a, b, n) >> (n as u64) == 0,
    decreases n,
{
    if n > 0 {
        board_below(shape, a, b, (n - 1) as nat);
        let v = shape_board(shape, a, b, (n - 1) as nat);
        let m = (n - 1) as u64;
        assert(v >> m == 0 && m < 63 ==> v >> (m + 1) == 0 && (v | (1u64 << m)) >> (m + 1) == 0)
            by (bit_vector);
    } else {
        assert(0u64 >> 0u64 == 0) by (bit_vector);
    }
}

/// Two shapes that hold no common square below `n` give disjoint sets.
proof fn boards_disjoint(s1: Shape, s2: Shape, a: int, b: int, n: nat)
    requires
        n <= 64,
        forall|x: int| 0 <= x < n ==> !(shape_has(s1, a, b, x) && shape_has(s2, a, b, x)),
    ensures
        shape_board(s1, a, b, n) & shape_board(s2, a, b, n) == 0,
    decreases n,
{
    if n > 0 {
        let m = (n - 1) as nat;
        boards_disjoint(s1, s2, a, b, m);
        board_below(s1, a, b, m);
        board_below(s2, a, b, m);
        let u = shape_board(s1, a, b, m);
        let v = shape_board(s2, a, b, m);
        let k = m as u64;
        assert(u & v == 0 && u >> k == 0 && v >> k == 0 && k < 64 ==> (u | (1u64 << k)) & v == 0
            && u & (v | (1u64 << k)) == 0) by (bit_vector);
    } else {
        assert(0u64 & 0u64 == 0) by (bit_vector);
    }
}

/// A pawn never captures on a square it could push to: for every square, color and set of
/// occupied squares, its captures and its pushes are disjoint.
pub proof fn pawn_moves_exclusive(sq: Square, color: Color, blockers: u64)
    ensures
        pawn_attacks_set(sq, color, blockers) & pawn_quiets_set(sq, color, blockers) == 0,
{
    let cap = pawn_capture_shape(color);
    let push = pawn_push_shape(color);
    boards_disjoint(cap, push, sq@, 0, 64);
    let c = shape_set(cap, sq@, 0);
    let p = shape_set(push, sq@, 0);
    assert(c & p == 0 ==> (c & blockers) & (p & !blockers) == 0 && (c & blockers) & 0 == 0)
        by (bit_vector);
}

/// The edge-to-edge line through `sq1` and `sq2` when they share a rank, file or diagonal;
/// empty otherwise, and when they are the same square.
pub fn line(sq1: Square, sq2: Square) -> (r: BitBoard)
    ensures
        r.0 == shape_set(Shape::Line, sq1@, sq2@),
{
    collect(Shape::Line, sq1.to_int(), sq2.to_int())
}

/// The squares strictly between `sq1` and `sq2` when they share a rank, file or diagonal;
/// empty otherwise.
pub fn between(sq1: Square, sq2: Square) -> (r: BitBoard)
    ensures
        r.0 == shape_set(Shape::Between, sq1@, sq2@),
{
    collect(Shape::Between, sq1.to_int(), sq2.to_int())
}

/// All the squares of `rank`.
pub fn get_rank(rank: Rank) -> (r: BitBoard)
    ensures
        r.0 == shape_set(Shape::RankLine, rank@ as int, 0),
{
    collect(Shape::RankLine, rank.to_index() as u8, 0)
}

/// All the squares of `file`.
pub fn get_file(file: File) -> (r: BitBoard)
    ensures
        r.0 == shape_set(Shape::FileLine, file@ as int, 0),
{
    collect(Shape::FileLine, file.to_index() as u8, 0)
}

/// The squares of the one or two files next to `file`.
pub fn get_adjacent_files(file: File) -> (r: BitBoard)
    ensures
        r.0 == shape_set(Shape::AdjacentFiles, file@ as int, 0),
{
    collect(Shape::AdjacentFiles, file.to_index() as u8, 0)
}

/// The squares where a castling king lands, for both colors.
pub fn get_castle_moves() -> (r: BitBoard)
    ensures
        r.0 == shape_set(Shape::CastleDestinations, 0, 0),
{
    collect(Shape::CastleDestinations, 0, 0)
}

/// The ranks a pawn may advance two squares from, for both colors.
pub fn get_pawn_source_double_moves() -> (r: BitBoard)
    ensures
        r.0 == shape_set(Shape::DoublePushSources, 0, 0),
{
    collect(Shape::DoublePushSources, 0, 0)
}

/// The ranks a two-square pawn advance lands on, for both colors.
pub fn get_pawn_dest_double_moves() -> (r: BitBoard)
    ensures
        r.0 == shape_set(Shape::DoublePushDestinations, 0, 0),
{
    collect(Shape::DoublePushDestinations, 0, 0)
}

/// Two shapes that agree on every square below `n` give the same set.
proof fn boards_agree(s1: Shape, a1: int, b1: int, s2: Shape, a2: int, b2: int, n: nat)
    requires
        forall|x: int| 0 <= x < n ==> shape_has(s1, a1, b1, x) == shape_has(s2, a2, b2, x),
    ensures
        shape_board(s1, a1, b1, n) == shape_board(s2, a2, b2, n),
    decreases n,
{
    if n > 0 {
        boards_agree(s1, a1, b1, s2, a2, b2, (n - 1) as nat);
    }
}

/// `line` and `between` do not depend on the order of their two squares.
pub proof fn line_between_symmetric(a: Square, b: Square)
    ensures
        shape_set(Shape::Between, a@, b@) == shape_set(Shape::Between, b@, a@),
        shape_set(Shape::Line, a@, b@) == shape_set(Shape::Line, b@, a@),
{
    boards_agree(Shape::Between, a@, b@, Shape::Between, b@, a@, 64);
    boards_agree(Shape::Line, a@, b@, Shape::Line, b@, a@, 64);
}

} // verus!
