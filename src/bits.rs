use vstd::prelude::*;

verus! {

/// `m` without its lowest set bit.
pub open spec fn rest(m: u64) -> u64 {
    m & ((m - 1) as u64)
}

/// The lowest set bit of a nonzero `m`.
pub open spec fn lowest(m: u64) -> u64 {
    m ^ rest(m)
}

pub open spec fn two_pow(n: nat) -> nat
    decreases n,
{
    if n == 0 {
        1
    } else {
        2 * two_pow((n - 1) as nat)
    }
}

/// The number of set bits of `m`.
pub open spec fn popcount(m: u64) -> nat
    decreases m,
{
    if m == 0 {
        0
    } else {
        proof {
            shrinks(m);
        }
        1 + popcount(rest(m))
    }
}

/// Parallel bit extract: the bits of `v` at the set positions of `m`, packed from bit 0 up.
pub open spec fn extract(v: u64, m: u64) -> nat
    decreases m,
{
    if m == 0 {
        0
    } else {
        proof {
            shrinks(m);
        }
        2 * extract(v, rest(m)) + if v & lowest(m) != 0 {
            1nat
        } else {
            0nat
        }
    }
}

/// Parallel bit deposit: the low bits of `x` spread, from bit 0 up, onto the set positions of
/// `m`.
pub open spec fn deposit(x: nat, m: u64) -> u64
    decreases m,
{
    if m == 0 {
        0
    } else {
        proof {
            shrinks(m);
        }
        (if x % 2 == 1 {
            lowest(m)
        } else {
            0u64
        }) | deposit(x / 2, rest(m))
    }
}

pub proof fn shrinks(m: u64)
    ensures
        m != 0 ==> rest(m) < m,
{
    assert(m != 0 ==> m & ((m - 1) as u64) < m) by (bit_vector);
}

proof fn lowest_facts(v: u64, m: u64)
    ensures
        m != 0 ==> (v & lowest(m) != 0 ==> v & lowest(m) == lowest(m)),
        (v & lowest(m)) | (v & rest(m)) == v & m,
        rest(m) & m == rest(m),
{
    assert(m != 0 ==> (v & (m ^ (m & ((m - 1) as u64))) != 0 ==> v & (m ^ (m & ((m - 1) as u64)))
        == m ^ (m & ((m - 1) as u64)))) by (bit_vector);
    assert((v & (m ^ (m & ((m - 1) as u64)))) | (v & (m & ((m - 1) as u64))) == v & m)
        by (bit_vector);
    assert((m & ((m - 1) as u64)) & m == m & ((m - 1) as u64)) by (bit_vector);
}

/// Depositing what was extracted from `v` under `m` gives back the bits of `v` in `m`.
pub proof fn deposit_extract(v: u64, m: u64)
    ensures
        deposit(extract(v, m), m) == v & m,
    decreases m,
{
    shrinks(m);
    if m == 0 {
        assert(v & 0 == 0) by (bit_vector);
    } else {
        deposit_extract(v, rest(m));
        lowest_facts(v, m);
        let e = extract(v, m);
        assert(e / 2 == extract(v, rest(m)));
        if v & lowest(m) == 0 {
            assert(e % 2 == 0);
            let d = v & rest(m);
            let l = v & lowest(m);
            assert(l == 0 ==> 0u64 | d == l | d) by (bit_vector);
        } else {
            assert(e % 2 == 1);
        }
    }
}

/// What is extracted under `m` has at most as many bits as `m` has.
pub proof fn extract_bound(v: u64, m: u64)
    ensures
        extract(v, m) < two_pow(popcount(m)),
    decreases m,
{
    shrinks(m);
    if m != 0 {
        extract_bound(v, rest(m));
    }
}

/// A shift of 1 by `k < 64` places is the `k`th power of two.
pub proof fn shift_is_pow(k: u64)
    requires
        k < 64,
    ensures
        (1u64 << k) as nat == two_pow(k as nat),
    decreases k,
{
    if k == 0 {
        assert(1u64 << 0u64 == 1) by (bit_vector);
    } else {
        shift_is_pow((k - 1) as u64);
        let j = (k - 1) as u64;
        assert(j < 63 ==> (1u64 << (j + 1)) as nat == 2 * (1u64 << j) as nat) by (bit_vector);
    }
}

proof fn lowest_steps(m: u64)
    by (bit_vector)
    ensures
        m != 0 ==> (m ^ (m & ((m - 1) as u64))) >= 1 && (m ^ (m & ((m - 1) as u64)))
            <= 0x8000_0000_0000_0000u64,
        m != 0 && (m & ((m - 1) as u64)) != 0 ==> (m ^ (m & ((m - 1) as u64)))
            < 0x8000_0000_0000_0000u64,
        m != 0 && (m & ((m - 1) as u64)) != 0 ==> ((m & ((m - 1) as u64)) ^ ((m & ((m - 1) as u64))
            & (((m & ((m - 1) as u64)) - 1) as u64))) >= ((m ^ (m & ((m - 1) as u64))) << 1),
        (m ^ (m & ((m - 1) as u64))) < 0x8000_0000_0000_0000u64 ==> ((m ^ (m & ((m - 1) as u64)))
            << 1) as int == 2 * (m ^ (m & ((m - 1) as u64))),
{
}

/// A nonzero mask's bits, counted from its lowest one, fit in 64 places: so its extract fits
/// in a `u64`.
proof fn count_fits(m: u64)
    ensures
        m != 0 ==> popcount(m) >= 1 && two_pow((popcount(m) - 1) as nat) <= 0x8000_0000_0000_0000,
        m != 0 ==> two_pow((popcount(m) - 1) as nat) * lowest(m) <= 0x8000_0000_0000_0000,
    decreases m,
{
    shrinks(m);
    lowest_steps(m);
    if m != 0 {
        let r = rest(m);
        let l = lowest(m) as int;
        assert(l >= 1 && l <= 0x8000_0000_0000_0000);
        if r == 0 {
            assert(popcount(r) == 0);
            assert(popcount(m) == 1);
            assert(two_pow(0) == 1);
            assert((popcount(m) - 1) as nat == 0);
            assert(two_pow((popcount(m) - 1) as nat) == 1);
            assert(1 * l == l);
        } else {
            count_fits(r);
            let k = popcount(r);
            assert(popcount(m) - 1 == k);
            assert(two_pow(k) == 2 * two_pow((k - 1) as nat));
            let lr = lowest(r) as int;
            let t = two_pow((k - 1) as nat) as int;
            assert(t * lr <= 0x8000_0000_0000_0000);
            assert(lr >= 2 * l);
            assert(2 * t * l <= 0x8000_0000_0000_0000) by (nonlinear_arith)
                requires
                    t * lr <= 0x8000_0000_0000_0000,
                    lr >= 2 * l,
                    t >= 0,
                    l >= 0,
            ;
            assert(two_pow((popcount(m) - 1) as nat) == 2 * t);
            assert(two_pow((popcount(m) - 1) as nat) * l == 2 * t * l) by (nonlinear_arith)
                requires
                    two_pow((popcount(m) - 1) as nat) == 2 * t,
            ;
        }
        let t = two_pow((popcount(m) - 1) as nat) as int;
        assert(t <= 0x8000_0000_0000_0000) by (nonlinear_arith)
            requires
                t * l <= 0x8000_0000_0000_0000,
                l >= 1,
                t >= 0,
        ;
    }
}

/// Computes `extract(v, m)`.
pub fn extract_bits(v: u64, m: u64) -> (r: u64)
    ensures
        r == extract(v, m),
{
    let mut rem: u64 = m;
    let mut res: u64 = 0;
    let mut place: u64 = 1;
    let ghost mut j: nat = 0;
    proof {
        count_fits(m);
    }
    while rem != 0
        invariant
            popcount(rem) + j == popcount(m),
            m != 0 ==> two_pow((popcount(m) - 1) as nat) <= 0x8000_0000_0000_0000,
            rem != 0 ==> m != 0,
            rem != 0 ==> place == two_pow(j),
            res < two_pow(j),
            extract(v, m) == res + two_pow(j) * extract(v, rem),
        decreases rem,
    {
        proof {
            shrinks(rem);
            assert(popcount(rem) >= 1);
            pow_mono(j, (popcount(m) - 1) as nat);
        }
        let low = rem ^ (rem & (rem - 1));
        let next = rem & (rem - 1);
        if v & low != 0 {
            res = res + place;
        }
        proof {
            let p = two_pow(j) as int;
            assert(extract(v, rem) == 2 * extract(v, next) + if v & low != 0 {
                1nat
            } else {
                0nat
            });
            assert(p * extract(v, rem) == p * 2 * extract(v, next) + if v & low != 0 {
                p
            } else {
                0
            }) by (nonlinear_arith)
                requires
                    extract(v, rem) == 2 * extract(v, next) + if v & low != 0 {
                        1nat
                    } else {
                        0nat
                    },
            ;
        }
        if next != 0 {
            proof {
                shrinks(next);
                assert(popcount(next) >= 1);
                pow_mono(j + 1, (popcount(m) - 1) as nat);
            }
            place = place * 2;
        }
        rem = next;
        proof {
            j = j + 1;
        }
    }
    proof {
        assert(extract(v, rem) == 0);
        assert(two_pow(j) * extract(v, rem) == 0) by (nonlinear_arith)
            requires
                extract(v, rem) == 0,
        ;
    }
    res
}

pub proof fn pow_mono(i: nat, j: nat)
    requires
        i <= j,
    ensures
        two_pow(i) <= two_pow(j),
    decreases j,
{
    if i < j {
        pow_mono(i, (j - 1) as nat);
    }
}

/// Computes `deposit(x, m)`.
pub fn deposit_bits(x: u64, m: u64) -> (r: u64)
    ensures
        r == deposit(x as nat, m),
{
    let mut rem: u64 = m;
    let mut left: u64 = x;
    let mut res: u64 = 0;
    proof {
        let d = deposit(x as nat, m);
        assert(0u64 | d == d) by (bit_vector);
    }
    while rem != 0
        invariant
            deposit(x as nat, m) == res | deposit(left as nat, rem),
        decreases rem,
    {
        proof {
            shrinks(rem);
        }
        let low = rem ^ (rem & (rem - 1));
        let next = rem & (rem - 1);
        let bit = if left & 1 == 1 {
            low
        } else {
            0
        };
        proof {
            assert(left & 1 == 1 <==> left % 2 == 1) by (bit_vector);
            assert(left >> 1 == left / 2) by (bit_vector);
            let d = deposit((left / 2) as nat, next);
            assert((res | bit) | d == res | (bit | d)) by (bit_vector);
        }
        res = res | bit;
        left = left >> 1;
        rem = next;
    }
    proof {
        assert(res | 0u64 == res) by (bit_vector);
    }
    res
}

proof fn popcount_le(m: u64)
    ensures
        popcount(m) <= m,
    decreases m,
{
    shrinks(m);
    if m != 0 {
        popcount_le(rest(m));
    }
}

/// Counts the set bits of `m`.
pub fn count_bits(m: u64) -> (r: u64)
    ensures
        r == popcount(m),
{
    let mut rem: u64 = m;
    let mut n: u64 = 0;
    proof {
        popcount_le(m);
    }
    while rem != 0
        invariant
            n + popcount(rem) == popcount(m),
            popcount(m) <= m,
        decreases rem,
    {
        proof {
            shrinks(rem);
        }
        rem = rem & (rem - 1);
        n = n + 1;
    }
    n
}

} // verus!
