use chess::{CastleRights, Color, File, Piece, Rank, Square, Zobrist, ALL_SQUARES};

#[test]
fn make_square_and_decompose() {
    let sq = Square::make_square(Rank::Seventh, File::D);
    assert_eq!(sq.get_rank(), Rank::Seventh);
    assert_eq!(sq.get_file(), File::D);
    assert_eq!(sq.to_index(), 51);
    assert_eq!(Square::make_square(Rank::First, File::A).to_int(), 0);
    assert_eq!(Square::make_square(Rank::Second, File::A).to_int(), 8);
    assert_eq!(Square::make_square(Rank::First, File::B).to_int(), 1);
    assert_eq!(Square::make_square(Rank::Eighth, File::H).to_int(), 63);
    assert_eq!(Square::new(0), Square::default());
    assert_eq!(Square::new(64 + 5), Square::new(5));
}

#[test]
fn bounded_steps() {
    let d7 = Square::make_square(Rank::Seventh, File::D);
    assert_eq!(d7.up(), Some(Square::make_square(Rank::Eighth, File::D)));
    assert_eq!(d7.up().unwrap().up(), None);
    let d2 = Square::make_square(Rank::Second, File::D);
    assert_eq!(d2.down(), Some(Square::make_square(Rank::First, File::D)));
    assert_eq!(d2.down().unwrap().down(), None);
    let b7 = Square::make_square(Rank::Seventh, File::B);
    assert_eq!(b7.left(), Some(Square::make_square(Rank::Seventh, File::A)));
    assert_eq!(b7.left().unwrap().left(), None);
    let g7 = Square::make_square(Rank::Seventh, File::G);
    assert_eq!(g7.right(), Some(Square::make_square(Rank::Seventh, File::H)));
    assert_eq!(g7.right().unwrap().right(), None);
    assert_eq!(d7.forward(Color::White), d7.up());
    assert_eq!(d2.forward(Color::Black), d2.down());
    assert_eq!(d7.backward(Color::Black), d7.up());
    assert_eq!(d2.backward(Color::White), d2.down());
}

#[test]
fn wrapping_steps() {
    let d7 = Square::make_square(Rank::Seventh, File::D);
    assert_eq!(d7.uup().uup(), Square::make_square(Rank::First, File::D));
    let d2 = Square::make_square(Rank::Second, File::D);
    assert_eq!(d2.udown().udown(), Square::make_square(Rank::Eighth, File::D));
    let b7 = Square::make_square(Rank::Seventh, File::B);
    assert_eq!(b7.uleft().uleft(), Square::make_square(Rank::Seventh, File::H));
    let g7 = Square::make_square(Rank::Seventh, File::G);
    assert_eq!(g7.uright().uright(), Square::make_square(Rank::Seventh, File::A));
    assert_eq!(
        d7.uforward(Color::White).uforward(Color::White),
        Square::make_square(Rank::First, File::D)
    );
    assert_eq!(
        d2.uforward(Color::Black).uforward(Color::Black),
        Square::make_square(Rank::Eighth, File::D)
    );
    assert_eq!(
        d7.ubackward(Color::Black).ubackward(Color::Black),
        Square::make_square(Rank::First, File::D)
    );
    assert_eq!(
        d2.ubackward(Color::White).ubackward(Color::White),
        Square::make_square(Rank::Eighth, File::D)
    );
}

#[test]
fn coordinates_parse() {
    assert_eq!(Square::from_string("a1".to_owned()), Some(Square::default()));
    assert_eq!(
        Square::from_string("e4".to_owned()),
        Some(Square::make_square(Rank::Fourth, File::E))
    );
    assert_eq!(Square::from_string("h8x".to_owned()), Some(Square::new(63)));
    assert_eq!(Square::from_string("i1".to_owned()), None);
    assert_eq!(Square::from_string("a9".to_owned()), None);
    assert_eq!(Square::from_string("a".to_owned()), None);
    assert_eq!(Square::from_string("".to_owned()), None);
}

#[test]
fn rank_and_file_wrap() {
    assert_eq!(Rank::Eighth.up(), Rank::First);
    assert_eq!(Rank::First.down(), Rank::Eighth);
    assert_eq!(File::A.left(), File::H);
    assert_eq!(File::H.right(), File::A);
    assert_eq!(Rank::from_index(9), Rank::Second);
    assert_eq!(File::from_index(3), File::D);
}

#[test]
fn zobrist_keys_are_distinct() {
    let mut keys = Vec::new();
    for color in [Color::White, Color::Black] {
        for piece in [Piece::Pawn, Piece::Knight, Piece::Bishop, Piece::Rook, Piece::Queen, Piece::King] {
            for s in 0..64u8 {
                keys.push(Zobrist::piece(piece, Square::new(s), color));
            }
        }
        for rights in [CastleRights::NoRights, CastleRights::KingSide, CastleRights::QueenSide, CastleRights::Both] {
            keys.push(Zobrist::castles(rights, color));
        }
        for f in 0..8usize {
            keys.push(Zobrist::en_passant(File::from_index(f), color));
        }
    }
    keys.push(Zobrist::color());
    assert_eq!(keys.len(), 793);
    let mut sorted = keys.clone();
    sorted.sort();
    sorted.dedup();
    assert_eq!(sorted.len(), keys.len());
    assert_eq!(Zobrist::color(), Zobrist::color());
}

#[test]
fn zobrist_first_key_is_the_mix_of_zero() {
    // The splitmix64 finalizer applied to 0 (after adding its increment).
    assert_eq!(
        Zobrist::piece(Piece::Pawn, Square::new(0), Color::White),
        0xe220_a839_7b1d_cdaf
    );
    assert_ne!(
        Zobrist::piece(Piece::Pawn, Square::new(1), Color::White),
        0xe220_a839_7b1d_cdaf
    );
}

#[test]
fn squares_print_and_parse() {
    assert_eq!(Square::new(0).to_string(), "a1");
    assert_eq!(Square::make_square(Rank::Seventh, File::D).to_string(), "d7");
    assert_eq!(Square::new(63).to_string(), "h8");
    let e4: Square = "e4".parse().unwrap();
    assert_eq!(e4, Square::make_square(Rank::Fourth, File::E));
    assert_eq!("z4".parse::<Square>(), Err(chess::square::Error::InvalidSquare));
    assert_eq!(Square::parse("b"), Err(chess::square::Error::InvalidSquare));
    for s in 0..64u8 {
        let sq = Square::new(s);
        assert_eq!(Square::parse(&sq.to_string()), Ok(sq));
    }
}

#[test]
fn named_squares_match_indices() {
    assert_eq!(Square::new(64), Square::A1);
    assert_eq!(Square::new(27), Square::D4);
    assert_eq!(Square::H8.to_index(), 63);
    for (i, sq) in ALL_SQUARES.iter().enumerate() {
        assert_eq!(sq.to_index(), i);
        assert_eq!(Square::make_square(sq.get_rank(), sq.get_file()), *sq);
        for color in [Color::White, Color::Black] {
            assert_eq!(sq.uforward(color).ubackward(color), *sq);
            if let Some(t) = sq.forward(color) {
                assert_eq!(t.backward(color), Some(*sq));
                assert_eq!(sq.uforward(color), t);
            }
        }
    }
    assert_eq!(Square::from_string("a1".to_owned()), Some(Square::default()));
}
