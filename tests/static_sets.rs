use chess::{
    between, get_adjacent_files, get_castle_moves, get_file, get_king_moves, get_knight_moves,
    get_pawn_attacks, get_pawn_dest_double_moves, get_pawn_moves, get_pawn_quiets,
    get_pawn_source_double_moves, get_rank, BitBoard, Color, File, Rank, Square,
};

fn bits(squares: &[u8]) -> BitBoard {
    let mut b = 0u64;
    for s in squares {
        b |= 1u64 << s;
    }
    BitBoard(b)
}

#[test]
fn between_a1_a8_and_a1_b2() {
    let a1 = Square::A1;
    assert_eq!(between(a1, Square::A8), bits(&[8, 16, 24, 32, 40, 48]));
    assert_eq!(between(a1, Square::B2), BitBoard(0));
}

#[test]
fn line_a1_a8_is_the_a_file() {
    let l = chess::geometry::line(Square::A1, Square::A8);
    assert_eq!(l, bits(&[0, 8, 16, 24, 32, 40, 48, 56]));
    assert_eq!(l, get_file(File::A));
}

#[test]
fn line_and_between_of_unaligned_squares_are_empty() {
    assert_eq!(chess::geometry::line(Square::new(0), Square::new(17)), BitBoard(0));
    assert_eq!(between(Square::new(0), Square::new(17)), BitBoard(0));
    assert_eq!(chess::geometry::line(Square::new(5), Square::new(5)), BitBoard(0));
}

#[test]
fn line_along_a_diagonal() {
    // c1 and e3 lie on the c1-h6 diagonal.
    let l = chess::geometry::line(Square::new(2), Square::new(20));
    assert_eq!(l, bits(&[2, 11, 20, 29, 38, 47]));
    assert_eq!(between(Square::new(2), Square::new(38)), bits(&[11, 20, 29]));
}

#[test]
fn line_and_between_are_symmetric() {
    for a in 0..64u8 {
        for b in 0..64u8 {
            let (x, y) = (Square::new(a), Square::new(b));
            assert_eq!(between(x, y), between(y, x));
            assert_eq!(chess::geometry::line(x, y), chess::geometry::line(y, x));
        }
    }
}

#[test]
fn white_pawn_e2_quiets_and_attacks() {
    let e2 = Square::E2;
    assert_eq!(get_pawn_quiets(e2, Color::White, BitBoard(0)), bits(&[20, 28]));
    assert_eq!(get_pawn_quiets(e2, Color::White, bits(&[20])), BitBoard(0));
    assert_eq!(get_pawn_attacks(e2, Color::White, bits(&[19, 21])), bits(&[19, 21]));
    assert_eq!(get_pawn_attacks(e2, Color::White, BitBoard(0)), BitBoard(0));
    assert_eq!(get_pawn_moves(e2, Color::White, bits(&[19, 21])), bits(&[19, 21, 20, 28]));
}

#[test]
fn pawn_double_push_blocked_on_landing_square() {
    let e2 = Square::E2;
    assert_eq!(get_pawn_quiets(e2, Color::White, bits(&[28])), bits(&[20]));
    let d7 = Square::D7;
    assert_eq!(get_pawn_quiets(d7, Color::Black, BitBoard(0)), bits(&[43, 35]));
    assert_eq!(get_pawn_attacks(d7, Color::Black, bits(&[42, 44, 43])), bits(&[42, 44]));
}

#[test]
fn pawn_captures_and_pushes_never_overlap() {
    let mut x: u64 = 0x1234_5678_9abc_def1;
    for s in 0..64u8 {
        for _ in 0..20 {
            x ^= x << 13;
            x ^= x >> 7;
            x ^= x << 17;
            for color in [Color::White, Color::Black] {
                let sq = Square::new(s);
                let b = BitBoard(x);
                let a = get_pawn_attacks(sq, color, b);
                let q = get_pawn_quiets(sq, color, b);
                assert_eq!(a.0 & q.0, 0);
                assert_eq!(get_pawn_moves(sq, color, b).0, a.0 | q.0);
            }
        }
    }
}

#[test]
fn king_and_knight_jumps() {
    assert_eq!(get_king_moves(Square::new(0)), bits(&[1, 8, 9]));
    assert_eq!(get_king_moves(Square::new(28)).0.count_ones(), 8);
    assert_eq!(get_knight_moves(Square::new(0)), bits(&[10, 17]));
    assert_eq!(get_knight_moves(Square::new(28)).0.count_ones(), 8);
    assert_eq!(get_knight_moves(Square::new(7)), bits(&[13, 22]));
}

#[test]
fn rank_file_and_adjacent_masks() {
    assert_eq!(get_rank(Rank::First), BitBoard(0xff));
    assert_eq!(get_rank(Rank::Eighth), BitBoard(0xff00_0000_0000_0000));
    assert_eq!(get_file(File::A), BitBoard(0x0101_0101_0101_0101));
    assert_eq!(get_adjacent_files(File::A), get_file(File::B));
    assert_eq!(
        get_adjacent_files(File::E),
        BitBoard(get_file(File::D).0 | get_file(File::F).0)
    );
}

#[test]
fn castle_and_double_push_masks() {
    assert_eq!(get_castle_moves(), bits(&[2, 6, 58, 62]));
    assert_eq!(
        get_pawn_source_double_moves(),
        BitBoard(get_rank(Rank::Second).0 | get_rank(Rank::Seventh).0)
    );
    assert_eq!(
        get_pawn_dest_double_moves(),
        BitBoard(get_rank(Rank::Fourth).0 | get_rank(Rank::Fifth).0)
    );
}
