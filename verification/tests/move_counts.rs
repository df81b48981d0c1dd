use chesscore::board::Board;

#[test]
fn twenty_replies_to_each_opening_move() {
    let mut board = Board::new();
    let moves = board.generate_legal_moves();
    let mut total: usize = 0;
    for m in moves {
        let mut next = board.make_move_new(m, true).unwrap();
        total += next.generate_legal_moves().len();
    }
    assert_eq!(total, 400);
}

#[test]
fn rich_middlegame_move_count() {
    // a classic fixture with castling, pins and promotions available
    let mut board = Board::from_fen(
        "r3k2r/p1ppqpb1/bn2pnp1/3PN3/1p2P3/2N2Q1p/PPPBBPPP/R3K2R w KQkq - 0 1",
    )
    .unwrap();
    assert_eq!(board.generate_legal_moves().len(), 48);
}

#[test]
fn endgame_move_count() {
    // another classic fixture: a rook-and-pawns endgame
    let mut board = Board::from_fen("8/2p5/3p4/KP5r/1R3p1k/8/4P1P1/8 w - - 0 1").unwrap();
    assert_eq!(board.generate_legal_moves().len(), 14);
}

#[test]
fn promotion_heavy_move_count() {
    // a fixture dense with promotions
    let mut board =
        Board::from_fen("n1n5/PPPk4/8/8/8/8/4Kppp/5N1N b - - 0 1").unwrap();
    assert_eq!(board.generate_legal_moves().len(), 24);
}
