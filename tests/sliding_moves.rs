use chess::magic::{bishop_magic_numbers, rook_magic_numbers};
use chess::sliding::{attacks_of, mask_of};
use chess::{
    bmi_table_access_is_sound, get_bishop_moves, get_bishop_moves_bmi, get_bishop_rays,
    get_rook_moves, get_rook_moves_bmi, get_rook_rays, table_access_is_sound, BitBoard,
    MagicTables, Slider, Square,
};

fn bits(squares: &[u8]) -> BitBoard {
    let mut b = 0u64;
    for s in squares {
        b |= 1u64 << s;
    }
    BitBoard(b)
}

fn tables() -> MagicTables {
    MagicTables::new().expect("the tables are built and pass the soundness checks")
}

fn samples(seed: u64, n: usize) -> Vec<u64> {
    let mut x = seed;
    let mut out = vec![0u64, !0u64];
    for _ in 0..n {
        x ^= x << 13;
        x ^= x >> 7;
        x ^= x << 17;
        out.push(x);
        out.push(x & (x >> 3));
    }
    out
}

#[test]
fn tables_pass_soundness_checks() {
    let t = tables();
    assert!(table_access_is_sound(&t, Slider::Rook));
    assert!(table_access_is_sound(&t, Slider::Bishop));
    assert!(bmi_table_access_is_sound(&t, Slider::Rook));
    assert!(bmi_table_access_is_sound(&t, Slider::Bishop));
}

#[test]
fn engines_agree_on_samples() {
    let t = tables();
    for s in 0..64u8 {
        let sq = Square::new(s);
        let mut blockers = samples(0x9e37_79b9 + s as u64, 40);
        blockers.push(mask_of(Slider::Rook, s));
        blockers.push(mask_of(Slider::Bishop, s));
        for b in blockers {
            let bb = BitBoard(b);
            let rook = get_rook_moves(&t, sq, bb);
            assert_eq!(rook, get_rook_moves_bmi(&t, sq, bb));
            assert_eq!(rook.0, attacks_of(Slider::Rook, s, b));
            let bishop = get_bishop_moves(&t, sq, bb);
            assert_eq!(bishop, get_bishop_moves_bmi(&t, sq, bb));
            assert_eq!(bishop.0, attacks_of(Slider::Bishop, s, b));
        }
    }
}

#[test]
fn attacks_stay_within_rays() {
    let t = tables();
    for s in 0..64u8 {
        let sq = Square::new(s);
        for b in samples(77 + s as u64, 20) {
            let bb = BitBoard(b);
            assert_eq!(get_rook_moves(&t, sq, bb).0 & !get_rook_rays(sq).0, 0);
            assert_eq!(get_bishop_moves(&t, sq, bb).0 & !get_bishop_rays(sq).0, 0);
        }
    }
}

#[test]
fn rook_d4_empty_board() {
    let t = tables();
    let d4 = Square::D4;
    let expected = bits(&[3, 11, 19, 35, 43, 51, 59, 24, 25, 26, 28, 29, 30, 31]);
    assert_eq!(get_rook_moves(&t, d4, BitBoard(0)), expected);
    assert_eq!(get_rook_moves_bmi(&t, d4, BitBoard(0)), expected);
    assert_eq!(get_rook_rays(d4), expected);
    assert_eq!(expected.0.count_ones(), 14);
}

#[test]
fn rook_d4_blocked_on_d6() {
    let t = tables();
    let d4 = Square::D4;
    let blockers = bits(&[43]);
    let expected = bits(&[3, 11, 19, 35, 43, 24, 25, 26, 28, 29, 30, 31]);
    assert_eq!(get_rook_moves(&t, d4, blockers), expected);
    assert_eq!(get_rook_moves_bmi(&t, d4, blockers), expected);
}

#[test]
fn blocker_stops_each_direction() {
    let t = tables();
    let d4 = Square::D4;
    // Blockers on d5 (north), b4 (west), f6 (north-east), b2 (south-west).
    let blockers = bits(&[35, 25, 45, 9]);
    let rook = get_rook_moves(&t, d4, blockers);
    assert_eq!(rook, bits(&[35, 19, 11, 3, 26, 25, 28, 29, 30, 31]));
    let bishop = get_bishop_moves(&t, d4, blockers);
    assert_eq!(bishop, bits(&[36, 45, 18, 9, 34, 41, 48, 20, 13, 6]));
}

#[test]
fn bishop_a1_empty_board() {
    let t = tables();
    let a1 = Square::A1;
    let expected = bits(&[9, 18, 27, 36, 45, 54, 63]);
    assert_eq!(get_bishop_moves(&t, a1, BitBoard(0)), expected);
    assert_eq!(get_bishop_moves_bmi(&t, a1, BitBoard(0)), expected);
    assert_eq!(get_bishop_rays(a1), expected);
}

#[test]
fn full_board_gives_adjacent_squares_only() {
    let t = tables();
    let e4 = Square::E4;
    let all = BitBoard(!0u64);
    assert_eq!(get_rook_moves(&t, e4, all), bits(&[20, 36, 27, 29]));
    assert_eq!(get_bishop_moves_bmi(&t, e4, all), bits(&[19, 21, 35, 37]));
}

#[test]
fn colliding_multipliers_are_refused() {
    // A zero multiplier sends every blocker pattern to one slot.
    assert!(MagicTables::from_numbers(&vec![0u64; 64], &vec![0u64; 64]).is_none());
    let t = tables();
    let rook = rook_magic_numbers();
    let bishop = bishop_magic_numbers();
    assert!(MagicTables::from_numbers(&rook, &vec![1u64; 64]).is_none());
    assert!(MagicTables::from_numbers(&rook, &bishop).is_some());
}
