use chesscore::error::ChessError;
use chesscore::moves::Move;
use chesscore::piece::PieceType;
use chesscore::square::Square;

#[test]
fn uci_parse_plain() {
    let m = Move::from_uci("e2e4").unwrap();
    assert_eq!(m.get_source().get_name(), "e2");
    assert_eq!(m.get_dest().get_name(), "e4");
    assert!(m.get_promotion().is_none());
    assert_eq!(m.get_uci(), "e2e4");
}

#[test]
fn uci_parse_promotion() {
    let m = Move::from_uci("a2a1q").unwrap();
    assert_eq!(m.get_source().get_name(), "a2");
    assert_eq!(m.get_dest().get_name(), "a1");
    assert_eq!(m.get_promotion(), Some(PieceType::Queen));
    assert_eq!(m.get_uci(), "a2a1q");
    let n = Move::from_uci("g7g8n").unwrap();
    assert_eq!(n.get_promotion(), Some(PieceType::Knight));
}

#[test]
fn uci_case_insensitive() {
    let m = Move::from_uci("E2E4").unwrap();
    assert_eq!(m.get_uci(), "e2e4");
    let p = Move::from_uci("A7A8Q").unwrap();
    assert_eq!(p.get_uci(), "a7a8q");
}

#[test]
fn uci_rejects() {
    assert_eq!(Move::from_uci("e2"), Err(ChessError::BadUciMove));
    assert_eq!(Move::from_uci("e2e9"), Err(ChessError::BadUciMove));
    assert_eq!(Move::from_uci("e2e4k"), Err(ChessError::BadUciMove));
    assert_eq!(Move::from_uci("e2e4qq"), Err(ChessError::BadUciMove));
    assert_eq!(Move::from_uci(""), Err(ChessError::BadUciMove));
    assert_eq!(Move::from_uci("xyzw"), Err(ChessError::BadUciMove));
}

#[test]
fn uci_round_trip_constructed() {
    let m = Move::new(
        Square::from_name("a4").unwrap(),
        Square::from_name("b1").unwrap(),
        None,
    );
    assert_eq!(m.get_uci(), "a4b1");
    assert_eq!(Move::from_uci(&m.get_uci()).unwrap(), m);
    let p = Move::new(
        Square::from_name("h7").unwrap(),
        Square::from_name("h8").unwrap(),
        Some(PieceType::Rook),
    );
    assert_eq!(p.get_uci(), "h7h8r");
    assert_eq!(Move::from_uci(&p.get_uci()).unwrap(), p);
}

#[test]
fn move_equality_is_structural() {
    let a = Move::from_uci("e2e4").unwrap();
    let b = Move::new(
        Square::from_index(12).unwrap(),
        Square::from_index(28).unwrap(),
        None,
    );
    assert_eq!(a, b);
    let c = Move::from_uci("e2e4q").unwrap();
    assert_ne!(a, c);
}
