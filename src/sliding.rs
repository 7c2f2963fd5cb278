use vstd::prelude::*;
use crate::bitboard::{square_bit, BitBoard};
use crate::square::Square;

verus! {

/// The two sliding pieces that the magic tables serve.
#[derive(PartialEq, Eq, Structural, Copy, Clone, Debug)]
pub enum Slider {
    Rook,
    Bishop,
}

pub open spec fn on_board(r: int, f: int) -> bool {
    0 <= r < 8 && 0 <= f < 8
}

/// Rank step of direction `k` (0 to 3) of a slider.
pub open spec fn dir_rank(p: Slider, k: int) -> int {
    match p {
        Slider::Rook => if k == 0 {
            1
        } else if k == 1 {
            -1
        } else {
            0
        },
        Slider::Bishop => if k == 0 || k == 1 {
            1
        } else {
            -1
        },
    }
}

/// File step of direction `k` (0 to 3) of a slider.
pub open spec fn dir_file(p: Slider, k: int) -> int {
    match p {
        Slider::Rook => if k == 2 {
            1
        } else if k == 3 {
            -1
        } else {
            0
        },
        Slider::Bishop => if k == 0 || k == 2 {
            1
        } else {
            -1
        },
    }
}

/// The squares reached from rank `r`, file `f` by repeated steps `(dr, df)`, at most `fuel` of
/// them: each square up to and including the first one occupied in `occ`, stopping at the edge.
pub open spec fn ray(r: int, f: int, dr: int, df: int, occ: u64, fuel: nat) -> u64
    decreases fuel,
{
    if fuel == 0 {
        0
    } else {
        let nr = r + dr;
        let nf = f + df;
        if !on_board(nr, nf) {
            0
        } else {
            let b = square_bit(nr * 8 + nf);
            if occ & b != 0 {
                b
            } else {
                b | ray(nr, nf, dr, df, occ, (fuel - 1) as nat)
            }
        }
    }
}

/// The squares of a ray whose occupancy can change what the ray reaches: all but its last
/// square before the edge.
pub open spec fn inner_ray(r: int, f: int, dr: int, df: int, fuel: nat) -> u64
    decreases fuel,
{
    if fuel == 0 {
        0
    } else {
        let nr = r + dr;
        let nf = f + df;
        if !on_board(nr, nf) || !on_board(nr + dr, nf + df) {
            0
        } else {
            square_bit(nr * 8 + nf) | inner_ray(nr, nf, dr, df, (fuel - 1) as nat)
        }
    }
}

pub open spec fn slider_ray(p: Slider, s: int, k: int, occ: u64) -> u64 {
    ray(s / 8, s % 8, dir_rank(p, k), dir_file(p, k), occ, 7)
}

pub open spec fn slider_inner(p: Slider, s: int, k: int) -> u64 {
    inner_ray(s / 8, s % 8, dir_rank(p, k), dir_file(p, k), 7)
}

/// The squares a slider on square `s` attacks when the squares of `occ` are occupied.
pub open spec fn sliding_attacks(p: Slider, s: int, occ: u64) -> u64 {
    slider_ray(p, s, 0, occ) | slider_ray(p, s, 1, occ) | slider_ray(p, s, 2, occ) | slider_ray(
        p,
        s,
        3,
        occ,
    )
}

/// The rays of a slider: what it attacks on an empty board.
pub open spec fn slider_rays(p: Slider, s: int) -> u64 {
    sliding_attacks(p, s, 0)
}

/// The blocker mask of a slider on `s`: the squares whose occupancy can change its attacks.
pub open spec fn relevant_mask(p: Slider, s: int) -> u64 {
    slider_inner(p, s, 0) | slider_inner(p, s, 1) | slider_inner(p, s, 2) | slider_inner(p, s, 3)
}

proof fn step_bits(b: u64, occ: u64, m: u64, x: u64)
    by (bit_vector)
    ensures
        b | 0 == b,
        b & !m == 0 ==> (((occ & m) & b != 0) == (occ & b != 0)),
        (b | x) & !m == 0 ==> (b & !m == 0 && x & !m == 0),
        0u64 & b == 0,
        0u64 & !0u64 == 0,
        b & !(b | x) == 0,
{
}

proof fn within_step(b: u64, x: u64, y: u64)
    by (bit_vector)
    ensures
        x & !y == 0 ==> (b | x) & !(b | y) == 0,
{
}

proof fn union_bits(a0: u64, a1: u64, a2: u64, a3: u64, z0: u64, z1: u64, z2: u64, z3: u64)
    by (bit_vector)
    ensures
        a0 & !(a0 | a1 | a2 | a3) == 0,
        a1 & !(a0 | a1 | a2 | a3) == 0,
        a2 & !(a0 | a1 | a2 | a3) == 0,
        a3 & !(a0 | a1 | a2 | a3) == 0,
        (a0 & !z0 == 0 && a1 & !z1 == 0 && a2 & !z2 == 0 && a3 & !z3 == 0) ==> (a0 | a1 | a2
            | a3) & !(z0 | z1 | z2 | z3) == 0,
        (a0 | a1 | a2 | a3) & !(z0 | z1 | z2 | z3) == 0 ==> (a0 | a1 | a2 | a3) & (z0 | z1 | z2
            | z3) == (a0 | a1 | a2 | a3),
{
}

/// A ray depends only on the occupancy of its inner squares.
proof fn ray_relevance(r: int, f: int, dr: int, df: int, occ: u64, m: u64, fuel: nat)
    requires
        inner_ray(r, f, dr, df, fuel) & !m == 0,
    ensures
        ray(r, f, dr, df, occ, fuel) == ray(r, f, dr, df, occ & m, fuel),
    decreases fuel,
{
    if fuel > 0 {
        let nr = r + dr;
        let nf = f + df;
        if on_board(nr, nf) {
            let b = square_bit(nr * 8 + nf);
            let g = (fuel - 1) as nat;
            if on_board(nr + dr, nf + df) {
                step_bits(b, occ, m, inner_ray(nr, nf, dr, df, g));
                ray_relevance(nr, nf, dr, df, occ, m, g);
            } else {
                step_bits(b, occ, m, 0);
                assert(ray(nr, nf, dr, df, occ, g) == 0);
                assert(ray(nr, nf, dr, df, occ & m, g) == 0);
            }
        }
    }
}

/// A ray never reaches beyond the same ray on an empty board.
proof fn ray_within(r: int, f: int, dr: int, df: int, occ: u64, fuel: nat)
    ensures
        ray(r, f, dr, df, occ, fuel) & !ray(r, f, dr, df, 0, fuel) == 0,
    decreases fuel,
{
    step_bits(0, 0, 0, 0);
    if fuel > 0 {
        let nr = r + dr;
        let nf = f + df;
        if on_board(nr, nf) {
            let b = square_bit(nr * 8 + nf);
            let g = (fuel - 1) as nat;
            ray_within(nr, nf, dr, df, occ, g);
            step_bits(b, occ, 0, ray(nr, nf, dr, df, 0, g));
            within_step(b, ray(nr, nf, dr, df, occ, g), ray(nr, nf, dr, df, 0, g));
        }
    }
}

/// What a slider attacks depends only on the blockers inside its mask.
pub proof fn attacks_depend_on_mask(p: Slider, s: int, occ: u64)
    ensures
        sliding_attacks(p, s, occ) == sliding_attacks(p, s, occ & relevant_mask(p, s)),
{
    let m = relevant_mask(p, s);
    union_bits(
        slider_inner(p, s, 0),
        slider_inner(p, s, 1),
        slider_inner(p, s, 2),
        slider_inner(p, s, 3),
        0,
        0,
        0,
        0,
    );
    ray_relevance(s / 8, s % 8, dir_rank(p, 0), dir_file(p, 0), occ, m, 7);
    ray_relevance(s / 8, s % 8, dir_rank(p, 1), dir_file(p, 1), occ, m, 7);
    ray_relevance(s / 8, s % 8, dir_rank(p, 2), dir_file(p, 2), occ, m, 7);
    ray_relevance(s / 8, s % 8, dir_rank(p, 3), dir_file(p, 3), occ, m, 7);
}

/// A slider's attacks lie within its rays, whatever the blockers: the sliding attacks are a
/// subset of the empty-board attacks.
pub proof fn attacks_within_rays(p: Slider, s: int, occ: u64)
    ensures
        sliding_attacks(p, s, occ) & !slider_rays(p, s) == 0,
        sliding_attacks(p, s, occ) & slider_rays(p, s) == sliding_attacks(p, s, occ),
{
    ray_within(s / 8, s % 8, dir_rank(p, 0), dir_file(p, 0), occ, 7);
    ray_within(s / 8, s % 8, dir_rank(p, 1), dir_file(p, 1), occ, 7);
    ray_within(s / 8, s % 8, dir_rank(p, 2), dir_file(p, 2), occ, 7);
    ray_within(s / 8, s % 8, dir_rank(p, 3), dir_file(p, 3), occ, 7);
    union_bits(
        slider_ray(p, s, 0, occ),
        slider_ray(p, s, 1, occ),
        slider_ray(p, s, 2, occ),
        slider_ray(p, s, 3, occ),
        slider_ray(p, s, 0, 0),
        slider_ray(p, s, 1, 0),
        slider_ray(p, s, 2, 0),
        slider_ray(p, s, 3, 0),
    );
}

/// The index of the square `d` steps from rank `r`, file `f` in direction `(dr, df)`.
pub open spec fn ray_square(r: int, f: int, dr: int, df: int, d: int) -> int {
    (r + d * dr) * 8 + (f + d * df)
}

/// Whether the square with index `x` is occupied in `occ`.
pub open spec fn occupied(occ: u64, x: int) -> bool {
    occ & square_bit(x) != 0
}

proof fn one_square_bits(x: u64, y: u64, z: u64)
    by (bit_vector)
    requires
        x < 64,
        y < 64,
    ensures
        (1u64 << x) & (1u64 << x) != 0,
        ((1u64 << x) | z) & (1u64 << x) != 0,
        x != y ==> (1u64 << x) & (1u64 << y) == 0,
        x != y ==> ((((1u64 << x) | z) & (1u64 << y) != 0) == (z & (1u64 << y) != 0)),
{
}

proof fn step_reindex(r: int, f: int, dr: int, df: int, e: int)
    ensures
        ray_square(r + dr, f + df, dr, df, e) == ray_square(r, f, dr, df, e + 1),
        r + dr + e * dr == r + (e + 1) * dr,
        f + df + e * df == f + (e + 1) * df,
{
    assert(r + dr + e * dr == r + (e + 1) * dr) by (nonlinear_arith);
    assert(f + df + e * df == f + (e + 1) * df) by (nonlinear_arith);
}

proof fn unit_step(d: int, u: int)
    requires
        -1 <= u <= 1,
    ensures
        u == 1 ==> d * u == d,
        u == 0 ==> d * u == 0,
        u == -1 ==> d * u == -d,
{
    if u == 1 {
        assert(d * 1 == d);
    } else if u == -1 {
        assert(d * -1 == -d);
    }
}

/// Blocking along one direction: the square `d` steps away is on the ray exactly when none of
/// the squares before it is occupied. So the ray holds every square up to and including the
/// first occupied one, and nothing beyond it.
pub proof fn ray_blocking(r: int, f: int, dr: int, df: int, occ: u64, fuel: nat, d: int)
    requires
        on_board(r, f),
        -1 <= dr <= 1,
        -1 <= df <= 1,
        dr != 0 || df != 0,
        1 <= d <= fuel,
        on_board(r + d * dr, f + d * df),
    ensures
        (ray(r, f, dr, df, occ, fuel) & square_bit(ray_square(r, f, dr, df, d)) != 0) <==> (
        forall|e: int| 1 <= e < d ==> !occupied(occ, #[trigger] ray_square(r, f, dr, df, e))),
    decreases d,
{
    let nr = r + dr;
    let nf = f + df;
    let g = (fuel - 1) as nat;
    unit_step(d, dr);
    unit_step(d, df);
    let x = (nr * 8 + nf) as u64;
    let y = ray_square(r, f, dr, df, d) as u64;
    assert(ray_square(r, f, dr, df, 1) == nr * 8 + nf);
    if d == 1 {
        one_square_bits(x, x, ray(nr, nf, dr, df, occ, g));
    } else {
        assert(ray_square(r, f, dr, df, d) != nr * 8 + nf) by (nonlinear_arith)
            requires
                -1 <= dr <= 1,
                -1 <= df <= 1,
                dr != 0 || df != 0,
                d > 1,
                nr == r + dr,
                nf == f + df,
        ;
        one_square_bits(x, y, ray(nr, nf, dr, df, occ, g));
        step_reindex(r, f, dr, df, d - 1);
        if occupied(occ, nr * 8 + nf) {
            assert(!(forall|e: int| 1 <= e < d ==> !occupied(occ, #[trigger] ray_square(r, f, dr, df, e))));
        } else {
            ray_blocking(nr, nf, dr, df, occ, g, d - 1);
            if forall|e: int| 1 <= e < d - 1 ==> !occupied(occ, #[trigger] ray_square(nr, nf, dr, df, e)) {
                assert forall|e: int| 1 <= e < d implies !occupied(occ, #[trigger] ray_square(r, f, dr, df, e)) by {
                    if e > 1 {
                        step_reindex(r, f, dr, df, e - 1);
                    }
                }
            } else {
                let e0 = choose|e: int| 1 <= e < d - 1 && occupied(occ, #[trigger] ray_square(nr, nf, dr, df, e));
                step_reindex(r, f, dr, df, e0);
                assert(occupied(occ, ray_square(r, f, dr, df, e0 + 1)));
            }
        }
    }
}

/// Every square on a ray is some number of steps along its direction.
proof fn ray_members(r: int, f: int, dr: int, df: int, occ: u64, fuel: nat, x: int)
    requires
        0 <= x < 64,
        ray(r, f, dr, df, occ, fuel) & square_bit(x) != 0,
    ensures
        exists|e: int|
            1 <= e <= fuel && on_board(r + e * dr, f + e * df) && x == #[trigger] ray_square(
                r,
                f,
                dr,
                df,
                e,
            ),
    decreases fuel,
{
    step_bits(square_bit(x), 0, 0, 0);
    if fuel > 0 {
        let nr = r + dr;
        let nf = f + df;
        if on_board(nr, nf) {
            let g = (fuel - 1) as nat;
            assert(ray_square(r, f, dr, df, 1) == nr * 8 + nf);
            if x == nr * 8 + nf {
                assert(on_board(r + 1 * dr, f + 1 * df));
            } else {
                one_square_bits((nr * 8 + nf) as u64, x as u64, ray(nr, nf, dr, df, occ, g));
                if occ & square_bit(nr * 8 + nf) == 0 {
                    ray_members(nr, nf, dr, df, occ, g, x);
                    let e = choose|e: int|
                        1 <= e <= g && on_board(nr + e * dr, nf + e * df) && x
                            == #[trigger] ray_square(nr, nf, dr, df, e);
                    step_reindex(r, f, dr, df, e);
                    assert(x == ray_square(r, f, dr, df, e + 1));
                }
            }
        }
    }
}

/// Two different directions of a slider never reach the same square.
proof fn directions_disjoint(p: Slider, s: int, k: int, j: int, d: int, e: int)
    requires
        0 <= s < 64,
        0 <= k < 4,
        0 <= j < 4,
        k != j,
        1 <= d,
        1 <= e,
        on_board(s / 8 + d * dir_rank(p, k), s % 8 + d * dir_file(p, k)),
        on_board(s / 8 + e * dir_rank(p, j), s % 8 + e * dir_file(p, j)),
    ensures
        ray_square(s / 8, s % 8, dir_rank(p, k), dir_file(p, k), d) != ray_square(
            s / 8,
            s % 8,
            dir_rank(p, j),
            dir_file(p, j),
            e,
        ),
{
    unit_step(d, dir_rank(p, k));
    unit_step(d, dir_file(p, k));
    unit_step(e, dir_rank(p, j));
    unit_step(e, dir_file(p, j));
}

proof fn union_member(a0: u64, a1: u64, a2: u64, a3: u64, t: u64)
    by (bit_vector)
    ensures
        (a1 & t == 0 && a2 & t == 0 && a3 & t == 0) ==> (((a0 | a1 | a2 | a3) & t != 0) == (a0
            & t != 0)),
        (a0 & t == 0 && a2 & t == 0 && a3 & t == 0) ==> (((a0 | a1 | a2 | a3) & t != 0) == (a1
            & t != 0)),
        (a0 & t == 0 && a1 & t == 0 && a3 & t == 0) ==> (((a0 | a1 | a2 | a3) & t != 0) == (a2
            & t != 0)),
        (a0 & t == 0 && a1 & t == 0 && a2 & t == 0) ==> (((a0 | a1 | a2 | a3) & t != 0) == (a3
            & t != 0)),
{
}

/// A ray of direction `j` misses the square `d` steps along another direction `k`.
proof fn other_ray_misses(p: Slider, s: int, k: int, j: int, occ: u64, d: int)
    requires
        0 <= s < 64,
        0 <= k < 4,
        0 <= j < 4,
        k != j,
        1 <= d,
        on_board(s / 8 + d * dir_rank(p, k), s % 8 + d * dir_file(p, k)),
    ensures
        slider_ray(p, s, j, occ) & square_bit(
            ray_square(s / 8, s % 8, dir_rank(p, k), dir_file(p, k), d),
        ) == 0,
{
    let x = ray_square(s / 8, s % 8, dir_rank(p, k), dir_file(p, k), d);
    unit_step(d, dir_rank(p, k));
    unit_step(d, dir_file(p, k));
    if slider_ray(p, s, j, occ) & square_bit(x) != 0 {
        ray_members(s / 8, s % 8, dir_rank(p, j), dir_file(p, j), occ, 7, x);
        let e = choose|e: int|
            1 <= e <= 7 && on_board(s / 8 + e * dir_rank(p, j), s % 8 + e * dir_file(p, j)) && x
                == #[trigger] ray_square(s / 8, s % 8, dir_rank(p, j), dir_file(p, j), e);
        directions_disjoint(p, s, k, j, d, e);
    }
}

/// Blocking: a slider on `s` attacks the square `d` steps along its direction `k` exactly when
/// none of the squares before it in that direction is occupied. Along each direction the
/// attacks hold every square up to and including the first occupied one, and nothing beyond.
pub proof fn blocking_correct(p: Slider, s: int, k: int, occ: u64, d: int)
    requires
        0 <= s < 64,
        0 <= k < 4,
        1 <= d <= 7,
        on_board(s / 8 + d * dir_rank(p, k), s % 8 + d * dir_file(p, k)),
    ensures
        (sliding_attacks(p, s, occ) & square_bit(
            ray_square(s / 8, s % 8, dir_rank(p, k), dir_file(p, k), d),
        ) != 0) <==> (forall|e: int|
            1 <= e < d ==> !occupied(
                occ,
                #[trigger] ray_square(s / 8, s % 8, dir_rank(p, k), dir_file(p, k), e),
            )),
{
    let t = square_bit(ray_square(s / 8, s % 8, dir_rank(p, k), dir_file(p, k), d));
    ray_blocking(s / 8, s % 8, dir_rank(p, k), dir_file(p, k), occ, 7, d);
    if k != 0 {
        other_ray_misses(p, s, k, 0, occ, d);
    }
    if k != 1 {
        other_ray_misses(p, s, k, 1, occ, d);
    }
    if k != 2 {
        other_ray_misses(p, s, k, 2, occ, d);
    }
    if k != 3 {
        other_ray_misses(p, s, k, 3, occ, d);
    }
    union_member(
        slider_ray(p, s, 0, occ),
        slider_ray(p, s, 1, occ),
        slider_ray(p, s, 2, occ),
        slider_ray(p, s, 3, occ),
        t,
    );
}

/// Walks one ray from rank `r`, file `f`.
fn walk(r: i32, f: i32, dr: i32, df: i32, occ: u64, fuel: u32) -> (res: u64)
    requires
        0 <= r < 8,
        0 <= f < 8,
        -1 <= dr <= 1,
        -1 <= df <= 1,
    ensures
        res == ray(r as int, f as int, dr as int, df as int, occ, fuel as nat),
    decreases fuel,
{
    if fuel == 0 {
        return 0;
    }
    let nr = r + dr;
    let nf = f + df;
    if nr < 0 || nr >= 8 || nf < 0 || nf >= 8 {
        return 0;
    }
    let b = 1u64 << ((nr * 8 + nf) as u64);
    if occ & b != 0 {
        b
    } else {
        b | walk(nr, nf, dr, df, occ, fuel - 1)
    }
}

/// Walks the inner squares of one ray from rank `r`, file `f`.
fn walk_inner(r: i32, f: i32, dr: i32, df: i32, fuel: u32) -> (res: u64)
    requires
        0 <= r < 8,
        0 <= f < 8,
        -1 <= dr <= 1,
        -1 <= df <= 1,
    ensures
        res == inner_ray(r as int, f as int, dr as int, df as int, fuel as nat),
    decreases fuel,
{
    if fuel == 0 {
        return 0;
    }
    let nr = r + dr;
    let nf = f + df;
    if nr < 0 || nr >= 8 || nf < 0 || nf >= 8 || nr + dr < 0 || nr + dr >= 8 || nf + df < 0 || nf
        + df >= 8 {
        return 0;
    }
    (1u64 << ((nr * 8 + nf) as u64)) | walk_inner(nr, nf, dr, df, fuel - 1)
}

/// Computes the attacks of a slider on square `s` by walking its four rays.
pub fn attacks_of(p: Slider, s: u8, occ: u64) -> (r: u64)
    requires
        s < 64,
    ensures
        r == sliding_attacks(p, s as int, occ),
{
    let r = (s / 8) as i32;
    let f = (s % 8) as i32;
    match p {
        Slider::Rook => walk(r, f, 1, 0, occ, 7) | walk(r, f, -1, 0, occ, 7) | walk(r, f, 0, 1, occ, 7)
            | walk(r, f, 0, -1, occ, 7),
        Slider::Bishop => walk(r, f, 1, 1, occ, 7) | walk(r, f, 1, -1, occ, 7) | walk(r, f, -1, 1, occ, 7)
            | walk(r, f, -1, -1, occ, 7),
    }
}

/// Computes the blocker mask of a slider on square `s`.
pub fn mask_of(p: Slider, s: u8) -> (r: u64)
    requires
        s < 64,
    ensures
        r == relevant_mask(p, s as int),
{
    let r = (s / 8) as i32;
    let f = (s % 8) as i32;
    match p {
        Slider::Rook => walk_inner(r, f, 1, 0, 7) | walk_inner(r, f, -1, 0, 7) | walk_inner(r, f, 0, 1, 7)
            | walk_inner(r, f, 0, -1, 7),
        Slider::Bishop => walk_inner(r, f, 1, 1, 7) | walk_inner(r, f, 1, -1, 7) | walk_inner(r, f, -1, 1, 7)
            | walk_inner(r, f, -1, -1, 7),
    }
}

/// The rays of a bishop on `sq`: every square it attacks on an empty board.
pub fn get_bishop_rays(sq: Square) -> (r: BitBoard)
    ensures
        r.0 == slider_rays(Slider::Bishop, sq@),
{
    BitBoard(attacks_of(Slider::Bishop, sq.to_int(), 0))
}

/// The rays of a rook on `sq`: every square it attacks on an empty board.
pub fn get_rook_rays(sq: Square) -> (r: BitBoard)
    ensures
        r.0 == slider_rays(Slider::Rook, sq@),
{
    BitBoard(attacks_of(Slider::Rook, sq.to_int(), 0))
}

} // verus!
