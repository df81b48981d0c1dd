use chesscore::board::Board;
use chesscore::error::ChessError;

const START_FEN: &str = "rnbqkbnr/pppppppp/8/8/8/8/PPPPPPPP/RNBQKBNR w KQkq - 0 1";

fn round_trips(fen: &str) {
    let board = Board::from_fen(fen).unwrap();
    assert_eq!(board.get_fen(), fen);
}

#[test]
fn fen_round_trip_start() {
    round_trips(START_FEN);
}

#[test]
fn fen_round_trip_midgame() {
    round_trips("rnbqkbnr/ppp1pppp/8/3p4/2P1P3/8/PP1P1PPP/RNBQKBNR b KQkq - 0 2");
}

#[test]
fn fen_round_trip_en_passant() {
    round_trips("rnbqkbnr/pp2p1pp/2p5/3pPp2/5P2/8/PPPP2PP/RNBQKBNR w KQkq f6 0 4");
}

#[test]
fn fen_round_trip_partial_castling() {
    round_trips("r3k2r/8/8/8/8/8/8/R3K2R w Kq - 12 45");
    round_trips("r3k2r/8/8/8/8/8/8/R3K2R b - - 99 255");
}

#[test]
fn fen_round_trip_sparse() {
    round_trips("k7/8/8/8/8/8/8/7K w - - 0 1");
    round_trips("8/8/8/3k4/8/3K4/8/8 b - - 100 200");
}

#[test]
fn fen_field_count_error() {
    assert_eq!(
        Board::from_fen("rnbqkbnr/pppppppp/8/8/8/8/PPPPPPPP/RNBQKBNR w KQkq - 0").err(),
        Some(ChessError::FenBadFieldCount)
    );
    assert_eq!(Board::from_fen("").err(), Some(ChessError::FenBadFieldCount));
    assert_eq!(
        Board::from_fen("a b c d e f g").err(),
        Some(ChessError::FenBadFieldCount)
    );
}

#[test]
fn fen_placement_errors() {
    // an unknown letter in the placement
    assert_eq!(
        Board::from_fen("rnbqkbnr/ppppxppp/8/8/8/8/PPPPPPPP/RNBQKBNR w KQkq - 0 1").err(),
        Some(ChessError::FenBadPlacement)
    );
    // a rank that does not add up to 8 squares
    assert_eq!(
        Board::from_fen("rnbqkbnr/ppppppp/8/8/8/8/PPPPPPPP/RNBQKBNR w KQkq - 0 1").err(),
        Some(ChessError::FenBadPlacement)
    );
    // only 7 ranks
    assert_eq!(
        Board::from_fen("rnbqkbnr/8/8/8/8/PPPPPPPP/RNBQKBNR w KQkq - 0 1").err(),
        Some(ChessError::FenBadPlacement)
    );
    // two digits next to each other
    assert_eq!(
        Board::from_fen("rnbqkbnr/pppppppp/44/8/8/8/PPPPPPPP/RNBQKBNR w KQkq - 0 1").err(),
        Some(ChessError::FenBadPlacement)
    );
}

#[test]
fn fen_side_error() {
    assert_eq!(
        Board::from_fen("rnbqkbnr/pppppppp/8/8/8/8/PPPPPPPP/RNBQKBNR x KQkq - 0 1").err(),
        Some(ChessError::FenBadSideToMove)
    );
    assert_eq!(
        Board::from_fen("rnbqkbnr/pppppppp/8/8/8/8/PPPPPPPP/RNBQKBNR W KQkq - 0 1").err(),
        Some(ChessError::FenBadSideToMove)
    );
}

#[test]
fn fen_castling_errors() {
    assert_eq!(
        Board::from_fen("rnbqkbnr/pppppppp/8/8/8/8/PPPPPPPP/RNBQKBNR w xq - 0 1").err(),
        Some(ChessError::FenBadCastling)
    );
    // out of order
    assert_eq!(
        Board::from_fen("rnbqkbnr/pppppppp/8/8/8/8/PPPPPPPP/RNBQKBNR w qK - 0 1").err(),
        Some(ChessError::FenBadCastling)
    );
    // duplicated
    assert_eq!(
        Board::from_fen("rnbqkbnr/pppppppp/8/8/8/8/PPPPPPPP/RNBQKBNR w KK - 0 1").err(),
        Some(ChessError::FenBadCastling)
    );
}

#[test]
fn fen_en_passant_error() {
    assert_eq!(
        Board::from_fen("rnbqkbnr/pppppppp/8/8/8/8/PPPPPPPP/RNBQKBNR w KQkq z9 0 1").err(),
        Some(ChessError::FenBadEnPassant)
    );
    assert_eq!(
        Board::from_fen("rnbqkbnr/pppppppp/8/8/8/8/PPPPPPPP/RNBQKBNR w KQkq e33 0 1").err(),
        Some(ChessError::FenBadEnPassant)
    );
}

#[test]
fn fen_counter_errors() {
    assert_eq!(
        Board::from_fen("rnbqkbnr/pppppppp/8/8/8/8/PPPPPPPP/RNBQKBNR w KQkq - x 1").err(),
        Some(ChessError::FenBadHalfmoveClock)
    );
    // a leading zero is not canonical
    assert_eq!(
        Board::from_fen("rnbqkbnr/pppppppp/8/8/8/8/PPPPPPPP/RNBQKBNR w KQkq - 007 1").err(),
        Some(ChessError::FenBadHalfmoveClock)
    );
    // above the 8-bit range
    assert_eq!(
        Board::from_fen("rnbqkbnr/pppppppp/8/8/8/8/PPPPPPPP/RNBQKBNR w KQkq - 256 1").err(),
        Some(ChessError::FenBadHalfmoveClock)
    );
    assert_eq!(
        Board::from_fen("rnbqkbnr/pppppppp/8/8/8/8/PPPPPPPP/RNBQKBNR w KQkq - 0 1000").err(),
        Some(ChessError::FenBadFullmoveNumber)
    );
}

#[test]
fn fen_king_count_error() {
    assert_eq!(
        Board::from_fen("8/8/8/8/8/8/8/8 w - - 0 1").err(),
        Some(ChessError::FenBadKingCount)
    );
    assert_eq!(
        Board::from_fen("kk6/8/8/8/8/8/8/7K w - - 0 1").err(),
        Some(ChessError::FenBadKingCount)
    );
}

#[test]
fn fen_counters_kept() {
    let b = Board::from_fen("k7/8/8/8/8/8/8/7K w - - 37 142").unwrap();
    assert_eq!(b.halfmove_clock, 37);
    assert_eq!(b.fullmove_number, 142);
}
