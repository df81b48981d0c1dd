use chesscore::board::Board;
use chesscore::error::ChessError;
use chesscore::moves::Move;
use chesscore::piece::{Color, PieceType};
use chesscore::square::Square;

const START_FEN: &str = "rnbqkbnr/pppppppp/8/8/8/8/PPPPPPPP/RNBQKBNR w KQkq - 0 1";

#[test]
fn start_position_fen() {
    assert_eq!(Board::new().get_fen(), START_FEN);
}

#[test]
fn start_position_twenty_moves() {
    let mut board = Board::new();
    assert_eq!(board.generate_legal_moves().len(), 20);
}

#[test]
fn start_position_pieces() {
    let board = Board::new();
    let a1 = Square::from_name("a1").unwrap();
    assert_eq!(board.get_piece_type_on(a1), Some(PieceType::Rook));
    assert_eq!(board.get_color_on(a1), Some(Color::White));
    let e8 = Square::from_name("e8").unwrap();
    let king = board.get_piece_on(e8).unwrap();
    assert_eq!(king.get_piece_type(), PieceType::King);
    assert_eq!(king.get_color(), Color::Black);
    let e4 = Square::from_name("e4").unwrap();
    assert!(board.get_piece_on(e4).is_none());
    assert_eq!(board.get_turn(), Color::White);
    assert!(board.get_en_passant().is_none());
}

#[test]
fn e2e4_updates_fen_and_clock() {
    let mut board = Board::new();
    let m = Move::from_uci("e2e4").unwrap();
    board.make_move(m, true).unwrap();
    let fen = board.get_fen();
    assert!(fen.starts_with("rnbqkbnr/pppppppp/8/8/4P3/8/PPPP1PPP/RNBQKBNR b KQkq e3"));
    assert_eq!(board.halfmove_clock, 0);
    assert_eq!(board.fullmove_number, 1);
    assert_eq!(board.get_en_passant().unwrap().get_name(), "e3");
}

#[test]
fn make_move_new_matches_make_move() {
    let mut a = Board::new();
    let b = Board::new();
    let m = Move::from_uci("g1f3").unwrap();
    a.make_move(m, true).unwrap();
    let b2 = b.make_move_new(m, true).unwrap();
    assert_eq!(a.get_fen(), b2.get_fen());
}

#[test]
fn illegal_move_rejected_board_unchanged() {
    let mut board = Board::new();
    let m = Move::from_uci("e2e5").unwrap();
    let r = board.make_move(m, true);
    assert_eq!(r, Err(ChessError::IllegalMove));
    assert_eq!(board.get_fen(), START_FEN);
}

#[test]
fn is_legal_move_checks() {
    let board = Board::new();
    assert!(board.is_legal_move(Move::from_uci("e2e4").unwrap()));
    assert!(board.is_legal_move(Move::from_uci("b1c3").unwrap()));
    assert!(!board.is_legal_move(Move::from_uci("e2e5").unwrap()));
    assert!(!board.is_legal_move(Move::from_uci("e1e2").unwrap()));
    assert!(!board.is_legal_move(Move::from_uci("d8d1").unwrap()));
}

#[test]
fn is_zeroing_cases() {
    let board =
        Board::from_fen("rnbqkbnr/ppp1pppp/8/3p4/2P1P3/8/PP1P1PPP/RNBQKBNR b KQkq - 0 2").unwrap();
    // a pawn move zeroes
    assert!(board.is_zeroing(Move::from_uci("e7e6").unwrap()));
    // a capture zeroes
    assert!(board.is_zeroing(Move::from_uci("d5e4").unwrap()));
    // a quiet knight move does not
    assert!(!board.is_zeroing(Move::from_uci("b8c6").unwrap()));
}

#[test]
fn halfmove_clock_counts_quiet_moves() {
    let mut board = Board::new();
    board.make_move(Move::from_uci("g1f3").unwrap(), true).unwrap();
    assert_eq!(board.halfmove_clock, 1);
    board.make_move(Move::from_uci("g8f6").unwrap(), true).unwrap();
    assert_eq!(board.halfmove_clock, 2);
    assert_eq!(board.fullmove_number, 2);
    board.make_move(Move::from_uci("d2d4").unwrap(), true).unwrap();
    assert_eq!(board.halfmove_clock, 0);
}

#[test]
fn castling_kingside() {
    let mut board = Board::from_fen("r3k2r/8/8/8/8/8/8/R3K2R w KQkq - 0 1").unwrap();
    board.make_move(Move::from_uci("e1g1").unwrap(), true).unwrap();
    assert_eq!(board.get_fen(), "r3k2r/8/8/8/8/8/8/R4RK1 b kq - 1 1");
}

#[test]
fn castling_queenside() {
    let mut board = Board::from_fen("r3k2r/8/8/8/8/8/8/R3K2R b KQkq - 0 1").unwrap();
    board.make_move(Move::from_uci("e8c8").unwrap(), true).unwrap();
    assert_eq!(board.get_fen(), "2kr3r/8/8/8/8/8/8/R3K2R w KQ - 1 2");
}

#[test]
fn castling_blocked_by_attack() {
    // the rook on f3 attacks f1, so the king may not castle through it
    let board = Board::from_fen("4k3/8/8/8/8/5r2/8/R3K2R w KQ - 0 1").unwrap();
    assert!(!board.is_legal_move(Move::from_uci("e1g1").unwrap()));
    assert!(board.is_legal_move(Move::from_uci("e1c1").unwrap()));
}

#[test]
fn castling_rights_lost_after_rook_move() {
    let mut board = Board::from_fen("r3k2r/8/8/8/8/8/8/R3K2R w KQkq - 0 1").unwrap();
    board.make_move(Move::from_uci("h1g1").unwrap(), true).unwrap();
    assert!(board.get_fen().contains(" Qkq "));
}

#[test]
fn en_passant_capture_removes_pawn() {
    let mut board =
        Board::from_fen("rnbqkbnr/ppp1pppp/8/8/3pP3/8/PPPP1PP1/RNBQKBNR b KQkq e3 0 3").unwrap();
    board.make_move(Move::from_uci("d4e3").unwrap(), true).unwrap();
    // the e4 pawn is gone and the black pawn stands on e3
    assert_eq!(board.get_fen(), "rnbqkbnr/ppp1pppp/8/8/8/4p3/PPPP1PP1/RNBQKBNR w KQkq - 0 4");
}

#[test]
fn promotion_to_queen() {
    let mut board = Board::from_fen("4k3/P7/8/8/8/8/8/4K3 w - - 0 1").unwrap();
    board.make_move(Move::from_uci("a7a8q").unwrap(), true).unwrap();
    assert_eq!(board.get_fen(), "Q3k3/8/8/8/8/8/8/4K3 b - - 0 1");
}

#[test]
fn promotion_required_on_last_rank() {
    let board = Board::from_fen("4k3/P7/8/8/8/8/8/4K3 w - - 0 1").unwrap();
    assert!(!board.is_legal_move(Move::from_uci("a7a8").unwrap()));
    assert!(board.is_legal_move(Move::from_uci("a7a8n").unwrap()));
}

#[test]
fn next_move_consumes_generator() {
    let mut board = Board::new();
    let mut seen = 0;
    while let Some(m) = board.next_move() {
        assert!(board.is_legal_move(m));
        seen += 1;
    }
    assert_eq!(seen, 20);
    assert!(board.next_move().is_none());
    board.reset_move_generator();
    assert!(board.next_move().is_some());
}

#[test]
fn remove_move_skips_it() {
    let mut board = Board::new();
    board.remove_move(Move::from_uci("e2e4").unwrap());
    let moves = board.generate_legal_moves();
    assert_eq!(moves.len(), 19);
    assert!(!moves.contains(&Move::from_uci("e2e4").unwrap()));
}

#[test]
fn generator_exhausts_until_reset() {
    let mut board = Board::new();
    assert_eq!(board.generate_legal_moves().len(), 20);
    // the generator was drained; without a reset nothing is left
    assert_eq!(board.generate_legal_moves().len(), 0);
    board.reset_move_generator();
    assert_eq!(board.generate_legal_moves().len(), 20);
}

#[test]
fn generator_resets_after_move() {
    let mut board = Board::new();
    assert_eq!(board.generate_legal_moves().len(), 20);
    board.make_move(Move::from_uci("e2e4").unwrap(), true).unwrap();
    assert_eq!(board.generate_legal_moves().len(), 20);
}

#[test]
fn legal_captures_only() {
    let mut board =
        Board::from_fen("rnbqkbnr/ppp1pppp/8/3p4/2P1P3/8/PP1P1PPP/RNBQKBNR b KQkq - 0 2").unwrap();
    let captures = board.generate_legal_captures();
    // d5 may take on c4 or e4; nothing else captures
    assert_eq!(captures.len(), 2);
    assert!(captures.contains(&Move::from_uci("d5c4").unwrap()));
    assert!(captures.contains(&Move::from_uci("d5e4").unwrap()));
}

#[test]
fn captures_then_rest_share_cursor() {
    let mut board =
        Board::from_fen("rnbqkbnr/ppp1pppp/8/3p4/2P1P3/8/PP1P1PPP/RNBQKBNR b KQkq - 0 2").unwrap();
    let captures = board.generate_legal_captures();
    let rest = board.generate_legal_moves();
    // the captures were consumed; the rest excludes them
    assert!(!rest.contains(&Move::from_uci("d5c4").unwrap()));
    board.reset_move_generator();
    let total = board.generate_legal_moves().len();
    assert_eq!(captures.len() + rest.len(), total);
}

#[test]
fn unchecked_make_move_with_generator_move() {
    let mut board = Board::new();
    let m = board.next_move().unwrap();
    let mut board2 = Board::new();
    board2.make_move(m, false).unwrap();
    assert_ne!(board2.get_fen(), START_FEN);
}

#[test]
fn pinned_piece_cannot_move() {
    // the bishop on e2 shields its king from the rook on e3
    let board = Board::from_fen("4k3/8/8/8/8/4r3/4B3/4K3 w - - 0 1").unwrap();
    assert!(!board.is_legal_move(Move::from_uci("e2d3").unwrap()));
    assert!(!board.is_legal_move(Move::from_uci("e2f3").unwrap()));
    // the king itself may step aside
    assert!(board.is_legal_move(Move::from_uci("e1d1").unwrap()));
}

#[test]
fn king_cannot_step_into_check() {
    let board = Board::from_fen("4k3/8/8/8/8/8/8/4K2r w - - 0 1").unwrap();
    assert!(board.is_check());
    assert!(!board.is_legal_move(Move::from_uci("e1f1").unwrap()));
    assert!(!board.is_legal_move(Move::from_uci("e1d1").unwrap()));
    assert!(board.is_legal_move(Move::from_uci("e1e2").unwrap()));
}

#[test]
fn make_move_new_leaves_original_untouched() {
    let board = Board::new();
    let next = board.make_move_new(Move::from_uci("e2e4").unwrap(), true).unwrap();
    assert_eq!(board.get_fen(), START_FEN);
    assert_ne!(next.get_fen(), START_FEN);
}
