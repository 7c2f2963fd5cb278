use vstd::prelude::*;
use vstd::wrapping::u64_specs::wrapping_mul;
use crate::bitboard::BitBoard;
use crate::square::Square;
use crate::bits::{
    count_bits, deposit, deposit_bits, deposit_extract, extract, extract_bits, extract_bound,
    popcount, shift_is_pow, two_pow,
};
use crate::sliding::{
    attacks_depend_on_mask, attacks_of, attacks_within_rays, mask_of, relevant_mask,
    slider_rays, sliding_attacks, Slider,
};

verus! {

/// The multiply-shift hash of one square: the blockers inside `mask`, times `magic_number`,
/// shifted right by `rightshift`, index the shared move table from `offset`.
#[derive(PartialEq, Eq, Structural, Copy, Clone, Debug)]
pub struct Magic {
    pub mask: u64,
    pub magic_number: u64,
    pub rightshift: u8,
    pub offset: usize,
}

/// The extract-based index of one square: the blockers inside `blockers_mask`, packed into
/// the low bits, index the compressed move table from `offset`.
#[derive(PartialEq, Eq, Structural, Copy, Clone, Debug)]
pub struct BmiMagic {
    pub blockers_mask: u64,
    pub offset: usize,
}

/// The slot of the shared move table that `occ` selects for a square.
pub open spec fn magic_slot(m: Magic, occ: u64) -> int {
    m.offset + (wrapping_mul(occ & m.mask, m.magic_number) >> (m.rightshift as u64))
}

/// A square's hash is sound and complete: its slots lie in the table, and the slot of every
/// blocker set holds exactly what the slider attacks.
pub open spec fn magic_ok(moves: Seq<u64>, m: Magic, p: Slider, s: int) -> bool {
    &&& m.mask == relevant_mask(p, s)
    &&& 1 <= m.rightshift <= 63
    &&& m.offset + two_pow((64 - m.rightshift) as nat) <= moves.len()
    &&& forall|occ: u64| #[trigger] moves[magic_slot(m, occ)] == sliding_attacks(p, s, occ)
}

proof fn and_twice(a: u64, m: u64)
    by (bit_vector)
    ensures
        (a & m) & m == a & m,
{
}

proof fn hash_bound(x: u64, sh: u64)
    requires
        1 <= sh <= 63,
    ensures
        ((x >> sh) as nat) < two_pow((64 - sh) as nat),
{
    assert(1 <= sh <= 63 ==> x >> sh < (1u64 << ((64 - sh) as u64))) by (bit_vector);
    shift_is_pow((64 - sh) as u64);
}

/// A square's hash stays sound when the table only grows past its end.
proof fn magic_ok_extends(a: Seq<u64>, b: Seq<u64>, m: Magic, p: Slider, s: int)
    requires
        magic_ok(a, m, p, s),
        a.len() <= b.len(),
        forall|i: int| 0 <= i < a.len() ==> b[i] == a[i],
    ensures
        magic_ok(b, m, p, s),
{
    assert forall|occ: u64| #[trigger] b[magic_slot(m, occ)] == sliding_attacks(p, s, occ) by {
        hash_bound(wrapping_mul(occ & m.mask, m.magic_number), m.rightshift as u64);
        assert(a[magic_slot(m, occ)] == sliding_attacks(p, s, occ));
    }
}

/// The `j`th blocker pattern of a square's mask has its slot filled with its attacks.
spec fn pattern_stored(
    moves: Seq<u64>,
    used: Seq<bool>,
    m: Magic,
    p: Slider,
    s: int,
    j: nat,
    size: int,
) -> bool {
    let o = deposit(j, m.mask);
    &&& m.offset <= magic_slot(m, o) < m.offset + size
    &&& used[magic_slot(m, o)]
    &&& moves[magic_slot(m, o)] == sliding_attacks(p, s, o)
}

/// The slot that pattern `o` hashes to, counted from the square's offset.
pub open spec fn pattern_hash(o: u64, mask: u64, magic: u64) -> int {
    (wrapping_mul(o & mask, magic) >> ((64 - popcount(mask)) as u64)) as int
}

/// Two blocker patterns of the square's mask, numbered `i` and `j` in extract order, hash to
/// the same slot but give different attacks.
pub open spec fn collides(p: Slider, s: int, magic: u64, i: nat, j: nat) -> bool {
    let mask = relevant_mask(p, s);
    &&& i < two_pow(popcount(mask))
    &&& j < two_pow(popcount(mask))
    &&& pattern_hash(deposit(i, mask), mask, magic) == pattern_hash(deposit(j, mask), mask, magic)
    &&& sliding_attacks(p, s, deposit(i, mask)) != sliding_attacks(p, s, deposit(j, mask))
}

/// A square's multiply-shift entry can be built from `magic`: the mask has 1 to 12 bits and no
/// two of its patterns collide.
pub open spec fn square_buildable(p: Slider, s: int, magic: u64) -> bool {
    &&& 1 <= popcount(relevant_mask(p, s)) <= 12
    &&& !exists|i: nat, j: nat| #[trigger] collides(p, s, magic, i, j)
}

/// A square's attacks can be packed into 16-bit entries: every pattern's attacks, extracted
/// under the rays, fit.
pub open spec fn packable(p: Slider, s: int) -> bool {
    let mask = relevant_mask(p, s);
    &&& forall|j: nat|
        j < two_pow(popcount(mask)) ==> #[trigger] extract(
            sliding_attacks(p, s, deposit(j, mask)),
            slider_rays(p, s),
        ) <= 0xffff
}

/// Tables can be built from these multipliers, one per square for each slider.
pub open spec fn buildable(rook_numbers: Seq<u64>, bishop_numbers: Seq<u64>) -> bool {
    &&& forall|s: int| 0 <= s < 64 ==> square_buildable(Slider::Rook, s, #[trigger] rook_numbers[s])
    &&& forall|s: int| 0 <= s < 64 ==> square_buildable(Slider::Bishop, s, #[trigger] bishop_numbers[s])
    &&& forall|s: int| 0 <= s < 64 ==> #[trigger] packable(Slider::Rook, s)
    &&& forall|s: int| 0 <= s < 64 ==> #[trigger] packable(Slider::Bishop, s)
}

/// Slot `k` holds the attacks of the `j`th pattern, which hashes to it.
spec fn slot_holds(moves: Seq<u64>, m: Magic, p: Slider, s: int, j: nat, k: int) -> bool {
    &&& magic_slot(m, deposit(j, m.mask)) == k
    &&& moves[k] == sliding_attacks(p, s, deposit(j, m.mask))
}

/// Fills the slots of one square, checking that no two blocker patterns with different
/// attacks share a slot.
fn fill_square(
    p: Slider,
    s: u8,
    mask: u64,
    n: u64,
    magic: u64,
    moves: &mut Vec<u64>,
    used: &mut Vec<bool>,
) -> (r: Option<Magic>)
    requires
        s < 64,
        mask == relevant_mask(p, s as int),
        n == popcount(mask),
        1 <= n <= 12,
        old(moves).len() == old(used).len(),
        old(moves).len() <= 0x100_0000,
    ensures
        final(moves).len() == final(used).len(),
        final(moves).len() == old(moves).len() + two_pow(n as nat),
        forall|i: int| 0 <= i < old(moves).len() ==> final(moves)[i] == old(moves)[i],
        r is Some <==> !exists|i: nat, j: nat| #[trigger] collides(p, s as int, magic, i, j),
        r matches Some(m) ==> magic_ok(final(moves)@, m, p, s as int),
{
    let offset = moves.len();
    proof {
        shift_is_pow(n);
        reveal_with_fuel(two_pow, 13);
        crate::bits::pow_mono(n as nat, 12);
    }
    let size = (1u64 << n) as usize;
    let mut k: usize = 0;
    while k < size
        invariant
            moves.len() == used.len(),
            moves.len() == offset + k,
            k <= size,
            size == two_pow(n as nat),
            size <= 4096,
            offset == old(moves).len(),
            offset <= 0x100_0000,
            forall|i: int| 0 <= i < offset ==> moves[i] == old(moves)[i],
            forall|i: int| offset <= i < offset + k ==> !used[i],
        decreases size - k,
    {
        moves.push(0);
        used.push(false);
        k = k + 1;
    }
    let sh: u64 = 64 - n;
    let ghost mm = Magic { mask, magic_number: magic, rightshift: sh as u8, offset };
    let mut i: usize = 0;
    while i < size
        invariant
            moves.len() == used.len(),
            moves.len() == offset + size,
            i <= size,
            size == two_pow(n as nat),
            size <= 4096,
            sh == 64 - n,
            1 <= n <= 12,
            n == popcount(mask),
            s < 64,
            mask == relevant_mask(p, s as int),
            mm == (Magic { mask, magic_number: magic, rightshift: sh as u8, offset }),
            offset == old(moves).len(),
            offset <= 0x100_0000,
            forall|t: int| 0 <= t < offset ==> moves[t] == old(moves)[t],
            forall|j: nat|
                j < i ==> #[trigger] pattern_stored(moves@, used@, mm, p, s as int, j, size as int),
            forall|k: int|
                offset <= k < offset + size && #[trigger] used[k] ==> exists|j: nat|
                    j < i && slot_holds(moves@, mm, p, s as int, j, k),
        decreases size - i,
    {
        let ghost before_moves = moves@;
        let ghost before_used = used@;
        let occ = deposit_bits(i as u64, mask);
        let att = attacks_of(p, s, occ);
        let h = (occ & mask).wrapping_mul(magic) >> sh;
        proof {
            hash_bound((occ & mask).wrapping_mul(magic), sh);
        }
        let slot = offset + h as usize;
        assert(slot == magic_slot(mm, occ));
        if used[slot] {
            if moves[slot] != att {
                proof {
                    let j = choose|j: nat| j < i && slot_holds(moves@, mm, p, s as int, j, slot as int);
                    assert(collides(p, s as int, magic, j, i as nat));
                }
                return None;
            }
        } else {
            moves.set(slot, att);
            used.set(slot, true);
        }
        proof {
            assert forall|j: nat| j < i + 1 implies #[trigger] pattern_stored(
                moves@,
                used@,
                mm,
                p,
                s as int,
                j,
                size as int,
            ) by {
                let o = deposit(j, mask);
                hash_bound(wrapping_mul(o & mask, magic), sh);
                if j < i {
                    assert(pattern_stored(before_moves, before_used, mm, p, s as int, j, size as int));
                }
            }
            assert forall|k: int|
                offset <= k < offset + size && #[trigger] used[k] implies exists|j: nat|
                    j < i + 1 && slot_holds(moves@, mm, p, s as int, j, k) by {
                if k == slot {
                    assert(slot_holds(moves@, mm, p, s as int, i as nat, k));
                } else {
                    assert(before_used[k]);
                    let j = choose|j: nat| j < i && slot_holds(before_moves, mm, p, s as int, j, k);
                    assert(slot_holds(moves@, mm, p, s as int, j, k));
                }
            }
        }
        i = i + 1;
    }
    let m = Magic { mask, magic_number: magic, rightshift: sh as u8, offset };
    proof {
        assert forall|occ: u64| #[trigger] moves@[magic_slot(m, occ)] == sliding_attacks(
            p,
            s as int,
            occ,
        ) by {
            let j = extract(occ, mask);
            extract_bound(occ, mask);
            deposit_extract(occ, mask);
            and_twice(occ, mask);
            attacks_depend_on_mask(p, s as int, occ);
            assert(pattern_stored(moves@, used@, m, p, s as int, j, size as int));
        }
        assert forall|a: nat, b: nat| !collides(p, s as int, magic, a, b) by {
            if a < size && b < size {
                assert(pattern_stored(moves@, used@, m, p, s as int, a, size as int));
                assert(pattern_stored(moves@, used@, m, p, s as int, b, size as int));
            }
        }
    }
    Some(m)
}

/// A square's extract-based index is sound and complete: its slots lie in the compressed
/// table, and depositing the slot of every blocker set onto the rays gives what the slider
/// attacks.
pub open spec fn bmi_ok(bmi: Seq<u16>, b: BmiMagic, rays: u64, p: Slider, s: int) -> bool {
    &&& b.blockers_mask == relevant_mask(p, s)
    &&& popcount(b.blockers_mask) <= 12
    &&& b.offset + two_pow(popcount(b.blockers_mask)) <= bmi.len()
    &&& forall|occ: u64|
        deposit(bmi[b.offset + #[trigger] extract(occ, b.blockers_mask)] as nat, rays)
            == sliding_attacks(p, s, occ)
}

proof fn bmi_ok_extends(a: Seq<u16>, b: Seq<u16>, m: BmiMagic, rays: u64, p: Slider, s: int)
    requires
        bmi_ok(a, m, rays, p, s),
        a.len() <= b.len(),
        forall|i: int| 0 <= i < a.len() ==> b[i] == a[i],
    ensures
        bmi_ok(b, m, rays, p, s),
{
    assert forall|occ: u64|
        deposit(b[m.offset + #[trigger] extract(occ, m.blockers_mask)] as nat, rays)
            == sliding_attacks(p, s, occ) by {
        extract_bound(occ, m.blockers_mask);
    }
}

/// Fills the compressed slots of one square: for each blocker pattern, its attacks packed
/// under the rays.
fn fill_bmi_square(p: Slider, s: u8, mask: u64, n: u64, rays: u64, bmi: &mut Vec<u16>) -> (ok:
    bool)
    requires
        s < 64,
        mask == relevant_mask(p, s as int),
        n == popcount(mask),
        1 <= n <= 12,
        rays == slider_rays(p, s as int),
        old(bmi).len() <= 0x100_0000,
    ensures
        old(bmi).len() <= final(bmi).len() <= old(bmi).len() + two_pow(n as nat),
        forall|i: int| 0 <= i < old(bmi).len() ==> final(bmi)[i] == old(bmi)[i],
        ok == packable(p, s as int),
        ok ==> bmi_ok(
            final(bmi)@,
            BmiMagic { blockers_mask: mask, offset: old(bmi).len() },
            rays,
            p,
            s as int,
        ),
{
    let offset = bmi.len();
    proof {
        shift_is_pow(n);
        reveal_with_fuel(two_pow, 13);
        crate::bits::pow_mono(n as nat, 12);
    }
    let size = (1u64 << n) as usize;
    let mut i: usize = 0;
    while i < size
        invariant
            bmi.len() == offset + i,
            i <= size,
            size == two_pow(n as nat),
            size <= 4096,
            s < 64,
            rays == slider_rays(p, s as int),
            mask == relevant_mask(p, s as int),
            n == popcount(mask),
            offset == old(bmi).len(),
            offset <= 0x100_0000,
            forall|t: int| 0 <= t < offset ==> bmi[t] == old(bmi)[t],
            forall|j: int|
                0 <= j < i ==> #[trigger] bmi[offset + j] as nat == extract(
                    sliding_attacks(p, s as int, deposit(j as nat, mask)),
                    rays,
                ),
        decreases size - i,
    {
        let occ = deposit_bits(i as u64, mask);
        let att = attacks_of(p, s, occ);
        let c = extract_bits(att, rays);
        if c > 0xffff {
            proof {
                assert(extract(
                    sliding_attacks(p, s as int, deposit(i as nat, mask)),
                    slider_rays(p, s as int),
                ) > 0xffff);
            }
            return false;
        }
        bmi.push(c as u16);
        proof {
            assert(bmi[offset + i as int] as nat == extract(
                sliding_attacks(p, s as int, deposit(i as nat, mask)),
                rays,
            ));
        }
        i = i + 1;
    }
    proof {
        let b = BmiMagic { blockers_mask: mask, offset };
        assert forall|occ: u64|
            deposit(bmi@[b.offset + #[trigger] extract(occ, b.blockers_mask)] as nat, rays)
                == sliding_attacks(p, s as int, occ) by {
            let j = extract(occ, mask);
            extract_bound(occ, mask);
            deposit_extract(occ, mask);
            attacks_depend_on_mask(p, s as int, occ);
            let att = sliding_attacks(p, s as int, occ);
            assert(bmi[offset + j as int] as nat == extract(att, rays));
            deposit_extract(att, rays);
            attacks_within_rays(p, s as int, occ);
        }
        assert forall|j: nat|
            j < two_pow(popcount(mask)) implies #[trigger] extract(
            sliding_attacks(p, s as int, deposit(j, mask)),
            slider_rays(p, s as int),
        ) <= 0xffff by {
            assert(bmi[offset + j as int] as nat == extract(
                sliding_attacks(p, s as int, deposit(j as nat, mask)),
                rays,
            ));
        }
    }
    true
}

/// Builds the multiply-shift entries of every square for one slider.
fn fill_piece(p: Slider, numbers: &Vec<u64>, moves: &mut Vec<u64>, used: &mut Vec<bool>) -> (r:
    Option<Vec<Magic>>)
    requires
        numbers.len() == 64,
        old(moves).len() == old(used).len(),
        old(moves).len() <= 0x80_0000,
    ensures
        final(moves).len() == final(used).len(),
        old(moves).len() <= final(moves).len() <= old(moves).len() + 64 * 4096,
        forall|i: int| 0 <= i < old(moves).len() ==> final(moves)[i] == old(moves)[i],
        r is Some <==> forall|s: int| 0 <= s < 64 ==> square_buildable(p, s, #[trigger] numbers[s]),
        r matches Some(v) ==> v.len() == 64 && forall|s: int|
            0 <= s < 64 ==> magic_ok(final(moves)@, #[trigger] v[s], p, s),
{
    let mut v: Vec<Magic> = Vec::new();
    let mut s: u8 = 0;
    while s < 64
        invariant
            numbers.len() == 64,
            s <= 64,
            v.len() == s,
            moves.len() == used.len(),
            old(moves).len() <= moves.len() <= old(moves).len() + s * 4096,
            old(moves).len() <= 0x80_0000,
            forall|i: int| 0 <= i < old(moves).len() ==> moves[i] == old(moves)[i],
            forall|t: int| 0 <= t < s ==> magic_ok(moves@, #[trigger] v[t], p, t),
            forall|t: int| 0 <= t < s ==> square_buildable(p, t, #[trigger] numbers[t]),
        decreases 64 - s,
    {
        let mask = mask_of(p, s);
        let n = count_bits(mask);
        if n < 1 || n > 12 {
            proof {
                assert(!square_buildable(p, s as int, numbers[s as int]));
            }
            return None;
        }
        let ghost before = moves@;
        proof {
            reveal_with_fuel(two_pow, 13);
            crate::bits::pow_mono(n as nat, 12);
        }
        match fill_square(p, s, mask, n, numbers[s as usize], moves, used) {
            Some(m) => {
                proof {
                    assert forall|t: int| 0 <= t < s implies magic_ok(
                        moves@,
                        #[trigger] v[t],
                        p,
                        t,
                    ) by {
                        magic_ok_extends(before, moves@, v[t], p, t);
                    }
                }
                v.push(m);
            },
            None => {
                proof {
                    assert(!square_buildable(p, s as int, numbers[s as int]));
                }
                return None;
            },
        }
        s = s + 1;
    }
    Some(v)
}

/// Builds the extract-based entries of every square for one slider.
fn fill_bmi_piece(p: Slider, rays: &Vec<u64>, bmi: &mut Vec<u16>) -> (r: Option<Vec<BmiMagic>>)
    requires
        rays.len() == 64,
        forall|s: int| 0 <= s < 64 ==> #[trigger] rays[s] == slider_rays(p, s),
        forall|s: int| 0 <= s < 64 ==> 1 <= #[trigger] popcount(relevant_mask(p, s)) <= 12,
        old(bmi).len() <= 0x80_0000,
    ensures
        r is Some <==> forall|s: int| 0 <= s < 64 ==> #[trigger] packable(p, s),
        old(bmi).len() <= final(bmi).len() <= old(bmi).len() + 64 * 4096,
        forall|i: int| 0 <= i < old(bmi).len() ==> final(bmi)[i] == old(bmi)[i],
        r matches Some(v) ==> v.len() == 64 && forall|s: int|
            0 <= s < 64 ==> bmi_ok(final(bmi)@, #[trigger] v[s], rays[s], p, s),
{
    let mut v: Vec<BmiMagic> = Vec::new();
    let mut s: u8 = 0;
    while s < 64
        invariant
            rays.len() == 64,
            forall|s: int| 0 <= s < 64 ==> #[trigger] rays[s] == slider_rays(p, s),
            s <= 64,
            v.len() == s,
            old(bmi).len() <= bmi.len() <= old(bmi).len() + s * 4096,
            old(bmi).len() <= 0x80_0000,
            forall|i: int| 0 <= i < old(bmi).len() ==> bmi[i] == old(bmi)[i],
            forall|t: int| 0 <= t < s ==> bmi_ok(bmi@, #[trigger] v[t], rays[t], p, t),
            forall|t: int| 0 <= t < s ==> #[trigger] packable(p, t),
            forall|s: int| 0 <= s < 64 ==> 1 <= #[trigger] popcount(relevant_mask(p, s)) <= 12,
        decreases 64 - s,
    {
        let mask = mask_of(p, s);
        let n = count_bits(mask);
        assert(1 <= popcount(relevant_mask(p, s as int)) <= 12);
        let ghost before = bmi@;
        let offset = bmi.len();
        proof {
            reveal_with_fuel(two_pow, 13);
            crate::bits::pow_mono(n as nat, 12);
        }
        if !fill_bmi_square(p, s, mask, n, rays[s as usize], bmi) {
            return None;
        }
        proof {
            assert forall|t: int| 0 <= t < s implies bmi_ok(
                bmi@,
                #[trigger] v[t],
                rays[t],
                p,
                t,
            ) by {
                bmi_ok_extends(before, bmi@, v[t], rays[t], p, t);
            }
        }
        v.push(BmiMagic { blockers_mask: mask, offset });
        s = s + 1;
    }
    Some(v)
}

/// The rays of one slider from every square.
fn rays_of(p: Slider) -> (r: Vec<u64>)
    ensures
        r.len() == 64,
        forall|s: int| 0 <= s < 64 ==> #[trigger] r[s] == slider_rays(p, s),
{
    let mut r: Vec<u64> = Vec::new();
    let mut s: u8 = 0;
    while s < 64
        invariant
            s <= 64,
            r.len() == s,
            forall|t: int| 0 <= t < s ==> #[trigger] r[t] == slider_rays(p, t),
        decreases 64 - s,
    {
        r.push(attacks_of(p, s, 0));
        s = s + 1;
    }
    r
}

/// The lookup tables of both sliders: per-square entries of both indexing schemes, the rays,
/// and the two shared move tables they index into. Built once, read-only afterwards.
pub struct MagicTables {
    rook: Vec<Magic>,
    bishop: Vec<Magic>,
    rook_bmi: Vec<BmiMagic>,
    bishop_bmi: Vec<BmiMagic>,
    rook_rays: Vec<u64>,
    bishop_rays: Vec<u64>,
    moves: Vec<u64>,
    bmi_moves: Vec<u16>,
}

impl MagicTables {
    pub closed spec fn magics(&self, p: Slider) -> Seq<Magic> {
        match p {
            Slider::Rook => self.rook@,
            Slider::Bishop => self.bishop@,
        }
    }

    pub closed spec fn bmis(&self, p: Slider) -> Seq<BmiMagic> {
        match p {
            Slider::Rook => self.rook_bmi@,
            Slider::Bishop => self.bishop_bmi@,
        }
    }

    pub closed spec fn rays(&self, p: Slider) -> Seq<u64> {
        match p {
            Slider::Rook => self.rook_rays@,
            Slider::Bishop => self.bishop_rays@,
        }
    }

    /// The number of entries of the shared multiply-shift move table.
    pub closed spec fn move_count(&self) -> int {
        self.moves.len() as int
    }

    /// The number of entries of the compressed move table.
    pub closed spec fn packed_count(&self) -> int {
        self.bmi_moves.len() as int
    }

    /// Both schemes are sound and complete for every square of one slider.
    pub closed spec fn piece_wf(&self, p: Slider) -> bool {
        &&& self.magics(p).len() == 64
        &&& self.bmis(p).len() == 64
        &&& self.rays(p).len() == 64
        &&& forall|s: int| 0 <= s < 64 ==> #[trigger] self.rays(p)[s] == slider_rays(p, s)
        &&& forall|s: int| 0 <= s < 64 ==> magic_ok(self.moves@, #[trigger] self.magics(p)[s], p, s)
        &&& forall|s: int|
            0 <= s < 64 ==> bmi_ok(self.bmi_moves@, #[trigger] self.bmis(p)[s], self.rays(p)[s], p, s)
    }

    pub closed spec fn wf(&self) -> bool {
        self.piece_wf(Slider::Rook) && self.piece_wf(Slider::Bishop)
    }

    /// Builds the tables from the multipliers found offline. `None` when the tables cannot be
    /// built from them (see `from_numbers`): the program must then not use them.
    pub fn new() -> (r: Option<MagicTables>)
        ensures
            r is Some <==> buildable(rook_numbers(), bishop_numbers()),
            r matches Some(t) ==> t.wf(),
    {
        let rook_numbers = rook_magic_numbers();
        let bishop_numbers = bishop_magic_numbers();
        MagicTables::from_numbers(&rook_numbers, &bishop_numbers)
    }

    /// Builds the tables from one multiplier per square for each slider, checking every
    /// blocker pattern of every square, then runs the soundness checks. Succeeds exactly when
    /// no two patterns of a square collide with different attacks, every mask has 1 to 12
    /// bits and every packed entry fits 16 bits.
    pub fn from_numbers(rook_numbers: &Vec<u64>, bishop_numbers: &Vec<u64>) -> (r: Option<
        MagicTables,
    >)
        requires
            rook_numbers.len() == 64,
            bishop_numbers.len() == 64,
        ensures
            r is Some <==> buildable(rook_numbers@, bishop_numbers@),
            r matches Some(t) ==> t.wf(),
    {
        let mut moves: Vec<u64> = Vec::new();
        let mut used: Vec<bool> = Vec::new();
        let rook = match fill_piece(Slider::Rook, rook_numbers, &mut moves, &mut used) {
            Some(v) => v,
            None => {
                return None;
            },
        };
        let ghost after_rook = moves@;
        let bishop = match fill_piece(Slider::Bishop, bishop_numbers, &mut moves, &mut used) {
            Some(v) => v,
            None => {
                return None;
            },
        };
        proof {
            assert forall|s: int| 0 <= s < 64 implies magic_ok(moves@, #[trigger] rook@[s], Slider::Rook, s) by {
                magic_ok_extends(after_rook, moves@, rook@[s], Slider::Rook, s);
            }
            assert forall|s: int| 0 <= s < 64 implies 1 <= #[trigger] popcount(
                relevant_mask(Slider::Rook, s),
            ) <= 12 by {
                assert(square_buildable(Slider::Rook, s, rook_numbers[s]));
            }
            assert forall|s: int| 0 <= s < 64 implies 1 <= #[trigger] popcount(
                relevant_mask(Slider::Bishop, s),
            ) <= 12 by {
                assert(square_buildable(Slider::Bishop, s, bishop_numbers[s]));
            }
        }
        let rook_rays = rays_of(Slider::Rook);
        let bishop_rays = rays_of(Slider::Bishop);
        let mut bmi_moves: Vec<u16> = Vec::new();
        let rook_bmi = match fill_bmi_piece(Slider::Rook, &rook_rays, &mut bmi_moves) {
            Some(v) => v,
            None => {
                return None;
            },
        };
        let ghost after_rook_bmi = bmi_moves@;
        let bishop_bmi = match fill_bmi_piece(Slider::Bishop, &bishop_rays, &mut bmi_moves) {
            Some(v) => v,
            None => {
                return None;
            },
        };
        proof {
            assert forall|s: int| 0 <= s < 64 implies bmi_ok(bmi_moves@, #[trigger] rook_bmi@[s], rook_rays@[s], Slider::Rook, s) by {
                bmi_ok_extends(after_rook_bmi, bmi_moves@, rook_bmi@[s], rook_rays@[s], Slider::Rook, s);
            }
        }
        let t = MagicTables {
            rook,
            bishop,
            rook_bmi,
            bishop_bmi,
            rook_rays,
            bishop_rays,
            moves,
            bmi_moves,
        };
        proof {
            assert(t.piece_wf(Slider::Rook));
            assert(t.piece_wf(Slider::Bishop));
            well_formed_tables_are_sound(&t);
        }
        if !table_access_is_sound(&t, Slider::Rook) || !table_access_is_sound(&t, Slider::Bishop)
            || !bmi_table_access_is_sound(&t, Slider::Rook) || !bmi_table_access_is_sound(
            &t,
            Slider::Bishop,
        ) {
            return None;
        }
        Some(t)
    }
}

/// The bound that the multiply-shift check holds a square to: the index of the full mask, the
/// largest one the hash is designed to give, falls inside the move table.
pub open spec fn full_mask_in_bounds(m: Magic, len: int) -> bool {
    m.rightshift < 64 && magic_slot(m, m.mask) < len
}

/// The bound that the extract-based check holds a square to: the largest packed index,
/// `2^popcount(mask) - 1`, falls inside the compressed table.
pub open spec fn packed_in_bounds(b: BmiMagic, len: int) -> bool {
    popcount(b.blockers_mask) < 64 && b.offset + two_pow(popcount(b.blockers_mask)) - 1 < len
}

proof fn and_self(a: u64)
    by (bit_vector)
    ensures
        a & a == a,
{
}

/// Checks the multiply-shift entries of one slider against the move table's length.
pub fn table_access_is_sound(t: &MagicTables, p: Slider) -> (r: bool)
    requires
        t.magics(p).len() == 64,
    ensures
        r == forall|s: int| 0 <= s < 64 ==> full_mask_in_bounds(#[trigger] t.magics(p)[s], t.move_count()),
{
    let magics = match p {
        Slider::Rook => &t.rook,
        Slider::Bishop => &t.bishop,
    };
    let mut s: usize = 0;
    while s < 64
        invariant
            s <= 64,
            magics@ == t.magics(p),
            magics.len() == 64,
            forall|u: int| 0 <= u < s ==> full_mask_in_bounds(#[trigger] t.magics(p)[u], t.move_count()),
        decreases 64 - s,
    {
        let m = magics[s];
        if m.rightshift >= 64 {
            return false;
        }
        let max_index = m.mask.wrapping_mul(m.magic_number) >> m.rightshift;
        proof {
            and_self(m.mask);
        }
        if m.offset >= t.moves.len() || max_index >= (t.moves.len() - m.offset) as u64 {
            return false;
        }
        s = s + 1;
    }
    true
}

/// Checks the extract-based entries of one slider against the compressed table's length.
pub fn bmi_table_access_is_sound(t: &MagicTables, p: Slider) -> (r: bool)
    requires
        t.bmis(p).len() == 64,
    ensures
        r == forall|s: int| 0 <= s < 64 ==> packed_in_bounds(#[trigger] t.bmis(p)[s], t.packed_count()),
{
    let bmis = match p {
        Slider::Rook => &t.rook_bmi,
        Slider::Bishop => &t.bishop_bmi,
    };
    let mut s: usize = 0;
    while s < 64
        invariant
            s <= 64,
            bmis@ == t.bmis(p),
            bmis.len() == 64,
            forall|u: int| 0 <= u < s ==> packed_in_bounds(#[trigger] t.bmis(p)[u], t.packed_count()),
        decreases 64 - s,
    {
        let b = bmis[s];
        let n = count_bits(b.blockers_mask);
        if n >= 64 {
            return false;
        }
        proof {
            shift_is_pow(n);
            crate::bits::pow_mono(0, n as nat);
        }
        let max_index = (1u64 << n) - 1;
        if b.offset >= t.bmi_moves.len() || max_index >= (t.bmi_moves.len() - b.offset) as u64 {
            return false;
        }
        s = s + 1;
    }
    true
}

/// What the multiply-shift engine reads for a slider on `s`: the slot that `b` hashes to,
/// trimmed to the rays.
pub closed spec fn magic_lookup(t: &MagicTables, p: Slider, s: int, b: u64) -> u64 {
    t.moves@[magic_slot(t.magics(p)[s], b)] & t.rays(p)[s]
}

/// What the extract-based engine reads for a slider on `s`: the packed slot that `b` selects,
/// deposited onto the rays.
pub closed spec fn bmi_lookup(t: &MagicTables, p: Slider, s: int, b: u64) -> u64 {
    let e = t.bmis(p)[s];
    deposit(t.bmi_moves@[e.offset + extract(b, e.blockers_mask)] as nat, t.rays(p)[s])
}

/// Multiply-shift lookup of a slider's attacks.
fn magic_moves(t: &MagicTables, p: Slider, sq: Square, blockers: BitBoard) -> (r: BitBoard)
    requires
        t.wf(),
    ensures
        r.0 == magic_lookup(t, p, sq@, blockers.0),
        r.0 == sliding_attacks(p, sq@, blockers.0),
{
    let s = sq.to_index();
    let (m, rays) = match p {
        Slider::Rook => (t.rook[s], t.rook_rays[s]),
        Slider::Bishop => (t.bishop[s], t.bishop_rays[s]),
    };
    proof {
        assert(t.piece_wf(p));
        assert(magic_ok(t.moves@, t.magics(p)[s as int], p, s as int));
        assert(t.rays(p)[s as int] == slider_rays(p, s as int));
        hash_bound(wrapping_mul(blockers.0 & m.mask, m.magic_number), m.rightshift as u64);
        attacks_within_rays(p, s as int, blockers.0);
    }
    let len = t.moves.len();
    let h: u64 = (blockers.0 & m.mask).wrapping_mul(m.magic_number) >> (m.rightshift as u64);
    assert(m.offset + h < len);
    let index = m.offset + h as usize;
    assert(index == magic_slot(t.magics(p)[s as int], blockers.0));
    BitBoard(t.moves[index] & rays)
}

/// Extract-based lookup of a slider's attacks.
fn bmi_moves_of(t: &MagicTables, p: Slider, sq: Square, blockers: BitBoard) -> (r: BitBoard)
    requires
        t.wf(),
    ensures
        r.0 == bmi_lookup(t, p, sq@, blockers.0),
        r.0 == sliding_attacks(p, sq@, blockers.0),
{
    let s = sq.to_index();
    let (e, rays) = match p {
        Slider::Rook => (t.rook_bmi[s], t.rook_rays[s]),
        Slider::Bishop => (t.bishop_bmi[s], t.bishop_rays[s]),
    };
    proof {
        assert(t.piece_wf(p));
        assert(bmi_ok(t.bmi_moves@, t.bmis(p)[s as int], t.rays(p)[s as int], p, s as int));
        extract_bound(blockers.0, e.blockers_mask);
    }
    let len = t.bmi_moves.len();
    let x = extract_bits(blockers.0, e.blockers_mask);
    assert(e.offset + x < len);
    let index = e.offset + x as usize;
    BitBoard(deposit_bits(t.bmi_moves[index] as u64, rays))
}

/// The squares a rook on `sq` attacks when the squares of `blockers` are occupied: along each
/// rank and file direction, every square up to and including the first occupied one.
pub fn get_rook_moves(tables: &MagicTables, sq: Square, blockers: BitBoard) -> (r: BitBoard)
    requires
        tables.wf(),
    ensures
        r.0 == sliding_attacks(Slider::Rook, sq@, blockers.0),
        r.0 == magic_lookup(tables, Slider::Rook, sq@, blockers.0),
{
    magic_moves(tables, Slider::Rook, sq, blockers)
}

/// The rook's attacks through the extract-based tables; the same result as `get_rook_moves`.
pub fn get_rook_moves_bmi(tables: &MagicTables, sq: Square, blockers: BitBoard) -> (r: BitBoard)
    requires
        tables.wf(),
    ensures
        r.0 == sliding_attacks(Slider::Rook, sq@, blockers.0),
        r.0 == bmi_lookup(tables, Slider::Rook, sq@, blockers.0),
{
    bmi_moves_of(tables, Slider::Rook, sq, blockers)
}

/// The squares a bishop on `sq` attacks when the squares of `blockers` are occupied: along
/// each diagonal direction, every square up to and including the first occupied one.
pub fn get_bishop_moves(tables: &MagicTables, sq: Square, blockers: BitBoard) -> (r: BitBoard)
    requires
        tables.wf(),
    ensures
        r.0 == sliding_attacks(Slider::Bishop, sq@, blockers.0),
        r.0 == magic_lookup(tables, Slider::Bishop, sq@, blockers.0),
{
    magic_moves(tables, Slider::Bishop, sq, blockers)
}

/// The bishop's attacks through the extract-based tables; the same result as
/// `get_bishop_moves`.
pub fn get_bishop_moves_bmi(tables: &MagicTables, sq: Square, blockers: BitBoard) -> (r:
    BitBoard)
    requires
        tables.wf(),
    ensures
        r.0 == sliding_attacks(Slider::Bishop, sq@, blockers.0),
        r.0 == bmi_lookup(tables, Slider::Bishop, sq@, blockers.0),
{
    bmi_moves_of(tables, Slider::Bishop, sq, blockers)
}

/// The two engines agree: for well-formed tables, every square and every blocker set, the
/// multiply-shift lookup and the extract-based lookup give the same board, the slider's
/// attacks.
pub proof fn engines_agree(t: &MagicTables, p: Slider, s: int, b: u64)
    requires
        t.wf(),
        0 <= s < 64,
    ensures
        magic_lookup(t, p, s, b) == bmi_lookup(t, p, s, b),
        magic_lookup(t, p, s, b) == sliding_attacks(p, s, b),
{
    assert(t.piece_wf(p));
    assert(magic_ok(t.moves@, t.magics(p)[s], p, s));
    assert(bmi_ok(t.bmi_moves@, t.bmis(p)[s], t.rays(p)[s], p, s));
    assert(t.rays(p)[s] == slider_rays(p, s));
    attacks_within_rays(p, s, b);
}

/// A lookup never leaves the slider's rays: for well-formed tables, every square and every
/// blocker set, both engines give a subset of the rays.
pub proof fn lookups_within_rays(t: &MagicTables, p: Slider, s: int, b: u64)
    requires
        t.wf(),
        0 <= s < 64,
    ensures
        magic_lookup(t, p, s, b) & !slider_rays(p, s) == 0,
        bmi_lookup(t, p, s, b) & !slider_rays(p, s) == 0,
{
    engines_agree(t, p, s, b);
    attacks_within_rays(p, s, b);
}

/// Well-formed tables pass both soundness checks for both sliders, so every index the engines
/// compute is inside its table.
pub proof fn well_formed_tables_are_sound(t: &MagicTables)
    requires
        t.wf(),
    ensures
        forall|s: int| 0 <= s < 64 ==> full_mask_in_bounds(#[trigger] t.magics(Slider::Rook)[s], t.move_count()),
        forall|s: int| 0 <= s < 64 ==> full_mask_in_bounds(#[trigger] t.magics(Slider::Bishop)[s], t.move_count()),
        forall|s: int| 0 <= s < 64 ==> packed_in_bounds(#[trigger] t.bmis(Slider::Rook)[s], t.packed_count()),
        forall|s: int| 0 <= s < 64 ==> packed_in_bounds(#[trigger] t.bmis(Slider::Bishop)[s], t.packed_count()),
{
    assert(t.piece_wf(Slider::Rook));
    assert(t.piece_wf(Slider::Bishop));
    assert forall|s: int| 0 <= s < 64 implies full_mask_in_bounds(#[trigger] t.magics(Slider::Rook)[s], t.moves.len() as int) by {
        let m = t.magics(Slider::Rook)[s];
        assert(magic_ok(t.moves@, m, Slider::Rook, s));
        hash_bound(wrapping_mul(m.mask & m.mask, m.magic_number), m.rightshift as u64);
    }
    assert forall|s: int| 0 <= s < 64 implies full_mask_in_bounds(#[trigger] t.magics(Slider::Bishop)[s], t.moves.len() as int) by {
        let m = t.magics(Slider::Bishop)[s];
        assert(magic_ok(t.moves@, m, Slider::Bishop, s));
        hash_bound(wrapping_mul(m.mask & m.mask, m.magic_number), m.rightshift as u64);
    }
    assert forall|s: int| 0 <= s < 64 implies packed_in_bounds(#[trigger] t.bmis(Slider::Rook)[s], t.bmi_moves.len() as int) by {
        let e = t.bmis(Slider::Rook)[s];
        assert(bmi_ok(t.bmi_moves@, e, t.rays(Slider::Rook)[s], Slider::Rook, s));
    }
    assert forall|s: int| 0 <= s < 64 implies packed_in_bounds(#[trigger] t.bmis(Slider::Bishop)[s], t.bmi_moves.len() as int) by {
        let e = t.bmis(Slider::Bishop)[s];
        assert(bmi_ok(t.bmi_moves@, e, t.rays(Slider::Bishop)[s], Slider::Bishop, s));
    }
}

/// The rook's multipliers, one per square, found offline.
pub open spec fn rook_numbers() -> Seq<u64> {
    seq![
        0x008004d08020c000, 0x4040100020004000, 0x0080100080200008, 0x0100200810010004,
        0x0200081005020020, 0x4100020801000400, 0x0880020000800100, 0x6600008200205401,
        0x0508800880c001a0, 0x0080402000401001, 0x0011004100102000, 0x00060010a4420008,
        0x0c00800400800800, 0x0000800400800200, 0x00c2000200040801, 0x000180088006cd00,
        0x2380004000200040, 0x000041401001a000, 0x2011050010422002, 0x0023030010008820,
        0x0000828004000800, 0x0d02880110402420, 0x0040140001b01208, 0x0000060000410884,
        0x1010401480048420, 0x0000400140201000, 0x0080110100402002, 0x0200882300100100,
        0x1109280280240080, 0x0100040080020080, 0x0400010400421008, 0x2002048200240449,
        0x8080002000400044, 0x02d0012001400040, 0x2501801001802000, 0x0000180081801000,
        0x12a4000480800800, 0x0850020080800400, 0x0000010804005042, 0x001041008a000444,
        0x0008800100450020, 0x0440412010024000, 0x0040200010008080, 0x00800a0010220040,
        0x1200040008008080, 0x0002000810020004, 0x1800021008040001, 0x0498040c50820021,
        0x4a00284102088200, 0x0000402200811200, 0x0e01002002104d00, 0x8608008110010880,
        0x0010080080040080, 0x442a004411880200, 0x2041008432004100, 0x0328010084004200,
        0x800110624b008001, 0x8201022810804202, 0x0004400a20010011, 0x8001200500100009,
        0x4412010420081002, 0x4001000400021831, 0x0408008802300104, 0x10060104044094a2,
    ]
}

/// The rook's multipliers, one per square, found offline.
pub fn rook_magic_numbers() -> (r: Vec<u64>)
    ensures
        r@ == rook_numbers(),
{
    vec![
        0x008004d08020c000, 0x4040100020004000, 0x0080100080200008, 0x0100200810010004,
        0x0200081005020020, 0x4100020801000400, 0x0880020000800100, 0x6600008200205401,
        0x0508800880c001a0, 0x0080402000401001, 0x0011004100102000, 0x00060010a4420008,
        0x0c00800400800800, 0x0000800400800200, 0x00c2000200040801, 0x000180088006cd00,
        0x2380004000200040, 0x000041401001a000, 0x2011050010422002, 0x0023030010008820,
        0x0000828004000800, 0x0d02880110402420, 0x0040140001b01208, 0x0000060000410884,
        0x1010401480048420, 0x0000400140201000, 0x0080110100402002, 0x0200882300100100,
        0x1109280280240080, 0x0100040080020080, 0x0400010400421008, 0x2002048200240449,
        0x8080002000400044, 0x02d0012001400040, 0x2501801001802000, 0x0000180081801000,
        0x12a4000480800800, 0x0850020080800400, 0x0000010804005042, 0x001041008a000444,
        0x0008800100450020, 0x0440412010024000, 0x0040200010008080, 0x00800a0010220040,
        0x1200040008008080, 0x0002000810020004, 0x1800021008040001, 0x0498040c50820021,
        0x4a00284102088200, 0x0000402200811200, 0x0e01002002104d00, 0x8608008110010880,
        0x0010080080040080, 0x442a004411880200, 0x2041008432004100, 0x0328010084004200,
        0x800110624b008001, 0x8201022810804202, 0x0004400a20010011, 0x8001200500100009,
        0x4412010420081002, 0x4001000400021831, 0x0408008802300104, 0x10060104044094a2,
    ]
}

/// The bishop's multipliers, one per square, found offline.
pub open spec fn bishop_numbers() -> Seq<u64> {
    seq![
        0x1621014200840281, 0x1042504101010080, 0x0210208200400008, 0x04982052400c0040,
        0xc00c030842300000, 0x00408820080c0000, 0x04048208a0241240, 0x0082110090042000,
        0x2148083004881b42, 0x8c00040184010200, 0x0123080095220002, 0x000004410220102c,
        0x1080045040000000, 0x04000a0910080020, 0x4a00008c30088448, 0x9082022128021010,
        0x00408220840420c0, 0x0008812002208a00, 0xa0021001020c0100, 0xb132200802004214,
        0x1214002880a00c80, 0x0001050a00820100, 0x0018801208044200, 0x8040482201440c80,
        0x0020100008500184, 0x0004046110210814, 0x1004020044080010, 0x0401004004004200,
        0x2111004024044004, 0x10100900008080c8, 0x1004004004023a80, 0x2042002300840140,
        0x0001111000082008, 0x0444042002020210, 0x1030202802040808, 0x0001200800410104,
        0x0000440400004100, 0x01488c0900481104, 0x0081080d00308c11, 0x00292e0320820100,
        0x108a080444004100, 0x0400414828082040, 0x8001040022000401, 0x0008244010452200,
        0x8061082104004040, 0x4012281002200302, 0x08200800a9004084, 0x0088011120204600,
        0x00020210020b4000, 0x081422080c142080, 0x0212492422180010, 0x00c8020084040100,
        0x0008008420820000, 0x0380400244010400, 0x0009d08426840000, 0x1004480084008009,
        0x1015010110010408, 0x0404148484412000, 0x4108008100411000, 0x10a2000008842400,
        0x0000000142d04101, 0x0000004418105440, 0x088908a008808100, 0x0020012c50840040,
    ]
}

/// The bishop's multipliers, one per square, found offline.
pub fn bishop_magic_numbers() -> (r: Vec<u64>)
    ensures
        r@ == bishop_numbers(),
{
    vec![
        0x1621014200840281, 0x1042504101010080, 0x0210208200400008, 0x04982052400c0040,
        0xc00c030842300000, 0x00408820080c0000, 0x04048208a0241240, 0x0082110090042000,
        0x2148083004881b42, 0x8c00040184010200, 0x0123080095220002, 0x000004410220102c,
        0x1080045040000000, 0x04000a0910080020, 0x4a00008c30088448, 0x9082022128021010,
        0x00408220840420c0, 0x0008812002208a00, 0xa0021001020c0100, 0xb132200802004214,
        0x1214002880a00c80, 0x0001050a00820100, 0x0018801208044200, 0x8040482201440c80,
        0x0020100008500184, 0x0004046110210814, 0x1004020044080010, 0x0401004004004200,
        0x2111004024044004, 0x10100900008080c8, 0x1004004004023a80, 0x2042002300840140,
        0x0001111000082008, 0x0444042002020210, 0x1030202802040808, 0x0001200800410104,
        0x0000440400004100, 0x01488c0900481104, 0x0081080d00308c11, 0x00292e0320820100,
        0x108a080444004100, 0x0400414828082040, 0x8001040022000401, 0x0008244010452200,
        0x8061082104004040, 0x4012281002200302, 0x08200800a9004084, 0x0088011120204600,
        0x00020210020b4000, 0x081422080c142080, 0x0212492422180010, 0x00c8020084040100,
        0x0008008420820000, 0x0380400244010400, 0x0009d08426840000, 0x1004480084008009,
        0x1015010110010408, 0x0404148484412000, 0x4108008100411000, 0x10a2000008842400,
        0x0000000142d04101, 0x0000004418105440, 0x088908a008808100, 0x0020012c50840040,
    ]
}

} // verus!
