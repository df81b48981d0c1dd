use chesscore::error::ChessError;
use chesscore::piece::{Color, Piece, PieceType};
use chesscore::square::Square;

#[test]
fn square_index_round_trip_all() {
    for i in 0u8..64 {
        let s = Square::from_index(i).unwrap();
        assert_eq!(s.get_index(), i);
    }
}

#[test]
fn square_name_round_trip_all() {
    for i in 0u8..64 {
        let s = Square::from_index(i).unwrap();
        let name = s.get_name();
        let back = Square::from_name(&name).unwrap();
        assert_eq!(back, s);
    }
}

#[test]
fn square_from_name_values() {
    assert_eq!(Square::from_name("a1").unwrap().get_index(), 0);
    assert_eq!(Square::from_name("e4").unwrap().get_index(), 28);
    assert_eq!(Square::from_name("h8").unwrap().get_index(), 63);
    // upper case is accepted on input
    assert_eq!(Square::from_name("E4").unwrap().get_index(), 28);
}

#[test]
fn square_from_name_rejects() {
    assert_eq!(Square::from_name("e9"), Err(ChessError::BadSquareName));
    assert_eq!(Square::from_name("i4"), Err(ChessError::BadSquareName));
    assert_eq!(Square::from_name("e"), Err(ChessError::BadSquareName));
    assert_eq!(Square::from_name("e44"), Err(ChessError::BadSquareName));
    assert_eq!(Square::from_name(""), Err(ChessError::BadSquareName));
}

#[test]
fn square_from_index_rejects() {
    assert_eq!(Square::from_index(64), Err(ChessError::SquareIndexOutOfRange));
    assert_eq!(Square::from_index(255), Err(ChessError::SquareIndexOutOfRange));
}

#[test]
fn square_rank_file() {
    let g4 = Square::from_name("g4").unwrap();
    assert_eq!(g4.get_rank(), 3);
    assert_eq!(g4.get_file(), 6);
    let d1 = Square::from_rank_file(0, 3).unwrap();
    assert_eq!(d1.get_name(), "d1");
    assert_eq!(Square::from_rank_file(8, 0), Err(ChessError::BadRankFile));
    assert_eq!(Square::from_rank_file(0, 8), Err(ChessError::BadRankFile));
}

#[test]
fn square_neighbours() {
    let h5 = Square::from_name("h5").unwrap();
    assert_eq!(h5.up().unwrap().get_name(), "h6");
    assert_eq!(h5.down().unwrap().get_name(), "h4");
    assert_eq!(h5.left().unwrap().get_name(), "g5");
    assert!(h5.right().is_none());
    let a1 = Square::from_name("a1").unwrap();
    assert!(a1.down().is_none());
    assert!(a1.left().is_none());
    let h8 = Square::from_name("h8").unwrap();
    assert!(h8.up().is_none());
}

#[test]
fn square_colors() {
    // a1 is a dark square: file 0, rank 0, equal parity means White here
    let a1 = Square::from_name("a1").unwrap();
    assert_eq!(a1.get_color(), Color::White);
    let b1 = Square::from_name("b1").unwrap();
    assert_eq!(b1.get_color(), Color::Black);
    let b2 = Square::from_name("b2").unwrap();
    assert_eq!(b2.get_color(), Color::White);
}

#[test]
fn color_strings_and_opposite() {
    assert_eq!(Color::White.get_string(), "WHITE");
    assert_eq!(Color::Black.get_string(), "BLACK");
    assert_eq!(Color::White.opposite(), Color::Black);
    assert_eq!(Color::Black.opposite(), Color::White);
}

#[test]
fn piece_type_indices() {
    assert_eq!(PieceType::Pawn.get_index(), 0);
    assert_eq!(PieceType::Knight.get_index(), 1);
    assert_eq!(PieceType::Bishop.get_index(), 2);
    assert_eq!(PieceType::Rook.get_index(), 3);
    assert_eq!(PieceType::Queen.get_index(), 4);
    assert_eq!(PieceType::King.get_index(), 5);
    assert!(PieceType::Pawn < PieceType::Knight);
    assert!(PieceType::Queen < PieceType::King);
}

#[test]
fn piece_strings() {
    assert_eq!(PieceType::Pawn.get_string(Color::White), "P");
    assert_eq!(PieceType::Pawn.get_string(Color::Black), "p");
    assert_eq!(PieceType::King.get_string(Color::Black), "k");
    let wq = Piece::new(PieceType::Queen, Color::White);
    assert_eq!(wq.get_string(), "Q");
    assert_eq!(wq.get_piece_type(), PieceType::Queen);
    assert_eq!(wq.get_color(), Color::White);
    assert_eq!(wq.get_index(), 4);
}

#[test]
fn piece_ordering() {
    let wp = Piece::new(PieceType::Pawn, Color::White);
    let bp = Piece::new(PieceType::Pawn, Color::Black);
    let wn = Piece::new(PieceType::Knight, Color::White);
    assert!(wp < bp);
    assert!(bp < wn);
}

#[test]
fn error_messages_exist() {
    assert!(!ChessError::IllegalMove.message().is_empty());
    assert!(!ChessError::FenBadFieldCount.message().is_empty());
}
