use chesscore::board::{Board, BoardStatus};
use chesscore::moves::Move;

#[test]
fn bare_kings_insufficient() {
    let board = Board::from_fen("k7/8/8/8/8/8/8/7K w - - 0 1").unwrap();
    assert!(board.is_insufficient_material());
    assert_eq!(board.get_status(), BoardStatus::InsufficientMaterial);
}

#[test]
fn lone_knight_insufficient() {
    let board = Board::from_fen("kn6/8/8/8/8/8/8/7K w - - 0 1").unwrap();
    assert!(board.is_insufficient_material());
    assert_eq!(board.get_status(), BoardStatus::InsufficientMaterial);
}

#[test]
fn lone_bishop_insufficient() {
    let board = Board::from_fen("k7/8/8/8/8/8/8/6BK w - - 0 1").unwrap();
    assert!(board.is_insufficient_material());
}

#[test]
fn lone_rook_not_insufficient() {
    let board = Board::from_fen("kr6/8/8/8/8/8/8/7K w - - 0 1").unwrap();
    assert!(!board.is_insufficient_material());
    assert_eq!(board.get_status(), BoardStatus::Ongoing);
}

#[test]
fn two_knights_not_insufficient() {
    let board = Board::from_fen("kn6/8/8/8/8/8/8/6NK w - - 0 1").unwrap();
    assert!(!board.is_insufficient_material());
}

#[test]
fn same_color_bishops_insufficient() {
    // the bishops on b8 and g1 stand on squares of one color
    let board = Board::from_fen("kb6/8/8/8/8/8/8/6BK w - - 0 1").unwrap();
    assert!(board.is_insufficient_material());
    assert_eq!(board.get_status(), BoardStatus::InsufficientMaterial);
}

#[test]
fn opposite_color_bishops_not_insufficient() {
    // the bishops on c8 and g1 stand on squares of opposite colors
    let board = Board::from_fen("k1b5/8/8/8/8/8/8/6BK w - - 0 1").unwrap();
    assert!(!board.is_insufficient_material());
    assert_eq!(board.get_status(), BoardStatus::Ongoing);
}

#[test]
fn fifty_move_flag_is_advisory() {
    let board = Board::from_fen("kr6/8/8/8/8/8/8/6RK w - - 100 90").unwrap();
    assert!(board.is_fifty_moves());
    assert!(!board.is_seventy_five_moves());
    assert_eq!(board.get_status(), BoardStatus::Ongoing);
}

#[test]
fn seventy_five_moves_is_terminal() {
    let board = Board::from_fen("kr6/8/8/8/8/8/8/6RK w - - 150 90").unwrap();
    assert!(board.is_fifty_moves());
    assert!(board.is_seventy_five_moves());
    assert_eq!(board.get_status(), BoardStatus::SeventyFiveMoves);
}

#[test]
fn below_fifty_not_flagged() {
    let board = Board::from_fen("kr6/8/8/8/8/8/8/6RK w - - 99 90").unwrap();
    assert!(!board.is_fifty_moves());
    assert_eq!(board.get_status(), BoardStatus::Ongoing);
}

#[test]
fn fools_mate_is_checkmate() {
    let mut board = Board::new();
    board.make_move(Move::from_uci("f2f3").unwrap(), true).unwrap();
    board.make_move(Move::from_uci("e7e5").unwrap(), true).unwrap();
    board.make_move(Move::from_uci("g2g4").unwrap(), true).unwrap();
    board.make_move(Move::from_uci("d8h4").unwrap(), true).unwrap();
    assert!(board.is_check());
    assert!(board.is_checkmate());
    assert!(!board.is_stalemate());
    assert_eq!(board.get_status(), BoardStatus::Checkmate);
    assert_eq!(board.generate_legal_moves().len(), 0);
}

#[test]
fn fools_mate_from_fen() {
    let mut board =
        Board::from_fen("rnb1kbnr/pppp1ppp/8/4p3/6Pq/5P2/PPPPP2P/RNBQKBNR w KQkq - 1 3").unwrap();
    assert_eq!(board.get_status(), BoardStatus::Checkmate);
    assert_eq!(board.generate_legal_moves().len(), 0);
    assert!(board.is_check());
}

#[test]
fn stalemate_detected() {
    let board = Board::from_fen("7k/5Q2/6K1/8/8/8/8/8 b - - 0 1").unwrap();
    assert!(!board.is_check());
    assert!(board.is_stalemate());
    assert!(!board.is_checkmate());
    assert_eq!(board.get_status(), BoardStatus::Stalemate);
}

#[test]
fn check_is_not_mate_with_escape() {
    let board = Board::from_fen("rnb1kbnr/pppp1ppp/8/4p3/7q/5P2/PPPPP1PP/RNBQKBNR w KQkq - 1 3")
        .unwrap();
    assert!(board.is_check());
    assert!(!board.is_checkmate());
    assert_eq!(board.get_status(), BoardStatus::Ongoing);
}

#[test]
fn checkmate_outranks_counters() {
    // a mated position stays checkmate even with the clock at 150
    let board =
        Board::from_fen("rnb1kbnr/pppp1ppp/8/4p3/6Pq/5P2/PPPPP2P/RNBQKBNR w KQkq - 150 99")
            .unwrap();
    assert_eq!(board.get_status(), BoardStatus::Checkmate);
}

#[test]
fn fivefold_repetition_stubbed_false() {
    let board = Board::new();
    assert!(!board.is_fivefold_repetition());
}

#[test]
fn ongoing_start_position() {
    let board = Board::new();
    assert_eq!(board.get_status(), BoardStatus::Ongoing);
    assert!(!board.is_check());
    assert!(!board.is_checkmate());
    assert!(!board.is_stalemate());
    assert!(!board.is_insufficient_material());
    assert!(!board.is_fifty_moves());
}

#[test]
fn status_ordering_matches_variant_order() {
    assert!(BoardStatus::Ongoing < BoardStatus::FiveFoldRepetition);
    assert!(BoardStatus::SeventyFiveMoves < BoardStatus::InsufficientMaterial);
    assert!(BoardStatus::Stalemate < BoardStatus::Checkmate);
}
