use chessmarkable::player::{Player, PlayerParseError};
use chessmarkable::square::{Square, SquareFormatError, SquareIndexError};

#[test]
fn other_player_switches_sides() {
    assert_eq!(Player::White.other_player(), Player::Black);
    assert_eq!(Player::Black.other_player(), Player::White);
    assert_eq!(Player::White.other_player().other_player(), Player::White);
}

#[test]
fn player_names_read_in_any_case() {
    assert_eq!(Player::from_str("black"), Ok(Player::Black));
    assert_eq!(Player::from_str("WHITE"), Ok(Player::White));
    assert_eq!(Player::from_str("BlAcK"), Ok(Player::Black));
    assert_eq!(Player::from_str("red"), Err(PlayerParseError));
    assert_eq!(Player::from_str(""), Err(PlayerParseError));
    assert_eq!(Player::from_str(" white"), Err(PlayerParseError));
}

#[test]
fn player_name_roundtrip() {
    for p in [Player::White, Player::Black] {
        assert_eq!(Player::from_str(&p.to_string()), Ok(p));
    }
    assert_eq!(Player::White.to_string(), "White");
    assert_eq!(Player::Black.to_string(), "Black");
}

#[test]
fn player_parse_error_message() {
    assert_eq!(PlayerParseError.message(), "Specified player is neither \"Black\" nor \"White\"");
}

#[test]
fn square_from_coordinates() {
    let sq = Square::new(4, 3).unwrap();
    assert_eq!(sq, Square(28));
    assert_eq!(sq.x(), 4);
    assert_eq!(sq.y(), 3);
    assert_eq!(sq.to_string(), "E4");
    assert_eq!(Square::new(8, 0), Err(SquareIndexError::InvalidFile));
    assert_eq!(Square::new(0, 8), Err(SquareIndexError::InvalidRank));
    assert_eq!(Square::new(9, 9), Err(SquareIndexError::InvalidFile));
}

#[test]
fn square_names() {
    assert_eq!(Square::from_str("A1"), Ok(Square(0)));
    assert_eq!(Square::from_str("H8"), Ok(Square(63)));
    assert_eq!(Square::from_str("B1"), Ok(Square(1)));
    assert_eq!(Square(63).to_string(), "H8");
    assert_eq!(Square(0).to_string(), "A1");
}

#[test]
fn square_name_errors() {
    assert_eq!(
        Square::from_str("A10"),
        Err(SquareFormatError::InvalidLength { found: "A10".to_string() })
    );
    assert_eq!(
        Square::from_str(""),
        Err(SquareFormatError::InvalidLength { found: "".to_string() })
    );
    assert_eq!(
        Square::from_str("a1"),
        Err(SquareFormatError::OutOfRange { found: "a1".to_string() })
    );
    assert_eq!(
        Square::from_str("I1"),
        Err(SquareFormatError::OutOfRange { found: "I1".to_string() })
    );
    assert_eq!(
        Square::from_str("A9"),
        Err(SquareFormatError::OutOfRange { found: "A9".to_string() })
    );
}

#[test]
fn square_name_roundtrip_all() {
    for i in 0..64u8 {
        let sq = Square(i);
        assert_eq!(Square::from_str(&sq.to_string()), Ok(sq));
    }
}
