use chess_actix::bitboard::{BitBoard, BitIndex};
use chess_actix::bitboard_move::BitBoardMove;
use chess_actix::fen::{EncodeUserInput, Fen};
use chess_actix::gen_moves::GenMoves;
use chess_actix::game::Game;
use chess_actix::piece_move::{
    gen_moves_for_all_simple_check, gen_moves_for_bishop, gen_moves_for_king_except_castle,
    gen_moves_for_knight, gen_moves_for_pawn, gen_moves_for_queen, gen_moves_for_rook,
    CheckStatus, KingBitBoard,
};
use chess_actix::position::BitPosition;
use chess_actix::square::{Color, Switch, TypePiece, TypePiecePromotion};
use chess_actix::table::bishop_moves;

#[test]
fn piece_move_test_king_center_moves() {
    let king_position = BitIndex(27); // Somewhere in the center of the board
    let bit_board = BitBoard::default(); // No friendly pieces blocking
    let result = gen_moves_for_king_except_castle(king_position, &bit_board);
    assert_eq!(result.0, 0x1C141C0000); // Expected moves bitboard for center position
}

#[test]
fn piece_move_test_king_edge_moves() {
    let king_position = BitIndex(8); // On the edge (A file)
    let bit_board = BitBoard::default();
    let result = gen_moves_for_king_except_castle(king_position, &bit_board);
    let expected_moves = BitBoard::build(BitIndex::union(vec![0, 1, 9, 16, 17]));
    assert_eq!(result, expected_moves); // Expected moves bitboard for an edge position
}

#[test]
fn piece_move_test_king_corner_moves() {
    let king_position = BitIndex(0); // Top left corner (A1)
    let bit_board = BitBoard::default();
    let result = gen_moves_for_king_except_castle(king_position, &bit_board);
    let expected_moves = BitBoard::build(BitIndex::union(vec![1, 8, 9]));
    assert_eq!(result, expected_moves); // Expected moves bitboard for corner position
}

#[test]
fn piece_move_test_king_blocked_by_friendly_pieces() {
    let king_position = BitIndex(27); // Center of the board
    let bit_board = BitBoard::build(BitIndex::union(vec![
        18, 19, 20, 26, 28, 34, 35, 36,
    ]));
    let result = gen_moves_for_king_except_castle(king_position, &bit_board);
    assert!(result.empty()); // Expect no moves available
}

#[test]
fn piece_move_test_king_corner_h1_moves() {
    let king_position = BitIndex(7); // Top right corner (H1)
    let bit_board = BitBoard::default();
    let result = gen_moves_for_king_except_castle(king_position, &bit_board);
    let expected_moves = BitBoard::build(BitIndex::union(vec![6, 14, 15])); // Moves: G1, H2, G2
    assert_eq!(result, expected_moves);
}

// Test for the bottom-left corner (A8)
#[test]
fn piece_move_test_king_corner_a8_moves() {
    let king_position = BitIndex(56); // Bottom left corner (A8)
    let bit_board = BitBoard::default();
    let result = gen_moves_for_king_except_castle(king_position, &bit_board);
    let expected_moves = BitBoard::build(BitIndex::union(vec![48, 49, 57])); // Moves: A7, B7, B8
    assert_eq!(result, expected_moves);
}

// Test for the bottom-right corner (H8)
#[test]
fn piece_move_test_king_corner_h8_moves() {
    let king_position = BitIndex(63); // Bottom right corner (H8)
    let bit_board = BitBoard::default();
    let result = gen_moves_for_king_except_castle(king_position, &bit_board);
    let expected_moves = BitBoard::build(BitIndex::union(vec![62, 54, 55])); // Moves: G8, H7, G7
    assert_eq!(result, expected_moves);
}

// Test for an arbitrary position in row 1 (B1)
#[test]
fn piece_move_test_king_row1_b1_moves() {
    let king_position = BitIndex(1); // B1
    let bit_board = BitBoard::default();
    let result = gen_moves_for_king_except_castle(king_position, &bit_board);
    let expected_moves = BitBoard::build(BitIndex::union(vec![0, 2, 8, 9, 10])); // Moves: A1, C1, A2, B2, C2
    assert_eq!(result, expected_moves);
}

// Test for an arbitrary position in row 8 (G8)
#[test]
fn piece_move_test_king_row8_g8_moves() {
    let king_position = BitIndex(62); // G8
    let bit_board = BitBoard::default();
    let result = gen_moves_for_king_except_castle(king_position, &bit_board);
    let expected_moves =
        BitBoard::build(BitIndex::union(vec![61, 63, 53, 54, 55])); // Moves: F8, H8, F7, G7, H7
    assert_eq!(result, expected_moves);
}

////////////////////////////////////////////////////////
/// knight moves
////////////////////////////////////////////////////////    ///
#[test]
fn piece_move_knight_center_moves() {
    let knight_index = BitIndex(27); // Position at center of the board (d4)
    let empty_board = BitBoard::default();

    let moves = gen_moves_for_knight(knight_index, &empty_board).unwrap();
    // Moves from d4 are to e2, f3, f5, e6, c6, b5, b3, c2 (calculating their respective bit positions)
    let expected_moves = BitBoard::build(BitIndex::union(vec![
        10, 12, 17, 21, 33, 37, 42, 44,
    ]));
    assert_eq!(moves.moves().0, expected_moves.0);
}

#[test]
fn piece_move_knight_corner_moves() {
    let knight_index = BitIndex(0); // Position at a1
    let empty_board = BitBoard::default();

    let moves = gen_moves_for_knight(knight_index, &empty_board).unwrap();
    // Moves from a1 are to b3 and c2
    let expected_moves = BitBoard::build(BitIndex::union(vec![10, 17]));
    assert_eq!(moves.moves().0, expected_moves.0); // Moves from a1 should be limited to b3 and c2
}

#[test]
fn piece_move_knight_edge_moves() {
    let knight_index = BitIndex(8); // Position at a2
    let empty_board = BitBoard::default();

    let moves = gen_moves_for_knight(knight_index, &empty_board).unwrap();
    // Moves from a2 are to b4, c3, and c1
    let expected_moves = BitBoard::build(BitIndex::union(vec![2, 18, 25]));
    assert_eq!(moves.moves().0, expected_moves.0); // Valid moves from a2
}

#[test]
fn piece_move_knight_moves_with_blockages() {
    let knight_index = BitIndex(27); // d4 again for center moves
                                               // Block e6 and c2 with own pieces
    let own_pieces = BitBoard::build(BitIndex::union(vec![17, 44])); // Block e6 and b3

    let moves = gen_moves_for_knight(knight_index, &own_pieces).unwrap();
    // Adjusted for blockages, valid moves are to e2, f3, f5, c6, b5, b3, c2
    let expected_moves =
        BitBoard::build(BitIndex::union(vec![10, 12, 21, 33, 37, 42]));
    assert_eq!(moves.moves().value(), expected_moves.0);
}

#[test]
fn piece_move_knight_capture_moves() {
    let knight_index = BitIndex(27); // d4
    let empty_board = BitBoard::new(0);
    // Block e6 and c2 with own pieces

    let moves = gen_moves_for_knight(knight_index, &empty_board).unwrap();
    // Includes potential captures, valid moves are e2, f3, f5, e6, c6, b5, b3, c2
    let expected_moves = BitBoard::build(BitIndex::union(vec![
        10, 12, 17, 21, 33, 37, 42, 44,
    ]));
    assert_eq!(moves.moves().0, expected_moves.0); // Includes potential captures
}

////////////////////////////////////////////////////////
/// Rook moves
////////////////////////////////////////////////////////    ///
#[test]
fn piece_move_test_rook_no_blockers() {
    let index = BitIndex(8); // Position of the rook at the start of the second row
    let bit_board = index.bitboard();
    let bit_board_opponent = BitBoard::default();
    let expected = 254 << 8
        | (1 | 1u64 << 16 | 1u64 << 24 | 1u64 << 32 | 1u64 << 40 | 1u64 << 48 | 1u64 << 56);
    let result = gen_moves_for_rook(false, index, &bit_board, &bit_board_opponent)
        .unwrap()
        .moves()
        .0;
    assert_eq!(result, expected);
}

#[test]
fn piece_move_test_rook_blockers_to_left() {
    let index = BitIndex(17); // Rook on the third row, second column
    let bit_board = index.bitboard().bitor(BitIndex(16).bitboard());
    let bit_board_opponent = BitBoard(0);
    let expected = 252 << 16 | (2 | 2 << 8 | 2 << 24 | 2 << 32 | 2 << 40 | 2 << 48 | 2 << 56);
    let result = gen_moves_for_rook(false, index, &bit_board, &bit_board_opponent)
        .unwrap()
        .moves()
        .0;
    assert_eq!(result, expected);
}

#[test]
fn piece_move_test_rook_blockers_opponent_to_left() {
    let index = BitIndex(17); // Rook on the third row, second column
    let bit_board = index.bitboard();
    let bit_board_opponent = BitBoard(1u64 << 16);
    let expected = 253 << 16 | (2 | 2 << 8 | 2 << 24 | 2 << 32 | 2 << 40 | 2 << 48 | 2 << 56);
    let result = gen_moves_for_rook(false, index, &bit_board, &bit_board_opponent)
        .unwrap()
        .moves()
        .0;
    assert_eq!(result, expected);
}

#[test]
fn piece_move_test_rook_blockers_to_right() {
    let index = BitIndex(17); // Rook on the third row, second column
    let bit_board = index.bitboard().bitor(BitIndex(23).bitboard());
    let bit_board_opponent = BitBoard(0);
    let expected = 125 << 16 | (2 | 2 << 8 | 2 << 24 | 2 << 32 | 2 << 40 | 2 << 48 | 2 << 56);
    let result = gen_moves_for_rook(false, index, &bit_board, &bit_board_opponent)
        .unwrap()
        .moves()
        .0;
    assert_eq!(result, expected);
}

#[test]
fn piece_move_test_rook_blockers_to_right2() {
    let index = BitIndex(0);
    let bit_board =
        index.bitboard().bitor(BitBoard::build(BitIndex::union(vec![4, 8])));
    let bit_board_opponent = BitBoard::default();
    let expected = BitBoard::build(BitIndex::union(vec![1, 2, 3]));
    let result = gen_moves_for_rook(false, index, &bit_board, &bit_board_opponent)
        .unwrap()
        .moves()
        .0;
    assert_eq!(result, expected.0);
}

#[test]
fn piece_move_test_rook_blockers_opponent_to_right() {
    let index = BitIndex(17); // Rook on the third row, second column
    let bit_board = index.bitboard();
    let bit_board_opponent = BitIndex(23).bitboard();
    let expected = 253 << 16 | (2 | 2 << 8 | 2 << 24 | 2 << 32 | 2 << 40 | 2 << 48 | 2 << 56);
    let result = gen_moves_for_rook(false, index, &bit_board, &bit_board_opponent)
        .unwrap()
        .moves()
        .0;
    assert_eq!(result, expected);
}

#[test]
fn piece_move_test_rook_blockers_on_both_sides() {
    let index = BitIndex(18); // Rook on the third row, third column
    let bit_board =
        index.bitboard().bitor(BitBoard::build(BitIndex::union(vec![16, 23])));
    let bit_board_opponent = BitBoard::default();
    let expected = 122 << 16 | (4 | 4 << 8 | 4 << 24 | 4 << 32 | 4 << 40 | 4 << 48 | 4 << 56);
    let result = gen_moves_for_rook(false, index, &bit_board, &bit_board_opponent)
        .unwrap()
        .moves()
        .0;
    assert_eq!(result, expected);
}

#[test]
fn piece_move_test_rook_blockers_opponent_on_both_sides() {
    let index = BitIndex(18); // Rook on the third row, third column
    let bit_board = index.bitboard();
    let bit_board_opponent = BitBoard::build(BitIndex::union(vec![16, 23]));
    let expected =
        251u64 << 16 | (4 | 4 << 8 | 4 << 24 | 4 << 32 | 4 << 40 | 4 << 48 | 4 << 56);
    let result = gen_moves_for_rook(false, index, &bit_board, &bit_board_opponent)
        .unwrap()
        .moves()
        .0;
    assert_eq!(result, expected);
}

#[test]
fn piece_move_test_rook_on_first_column() {
    let index = BitIndex(24); // Rook at the start of the fourth row
    let bit_board = index.bitboard();
    let bit_board_opponent = BitBoard::default();
    let expected = BitBoard(254 << 24)
        .bitor(BitBoard::build(BitIndex::union(vec![0, 8, 16, 32, 40, 48, 56])));
    let result = gen_moves_for_rook(false, index, &bit_board, &bit_board_opponent)
        .unwrap()
        .moves()
        .0;
    assert_eq!(result, expected.0);
}

#[test]
fn piece_move_test_rook_on_last_column() {
    let index = BitIndex(31); // Rook at the end of the fourth row
    let bit_board = index.bitboard();
    let bit_board_opponent = BitBoard::default();
    let expected = 127 << 24
        | (128 | 128 << 8 | 128 << 16 | 128 << 32 | 128 << 40 | 128 << 48 | 128 << 56);
    let result = gen_moves_for_rook(false, index, &bit_board, &bit_board_opponent)
        .unwrap()
        .moves()
        .0;
    assert_eq!(result, expected);
}

#[test]
fn piece_move_test_rook_full_row_of_blockers() {
    let index = BitIndex(40); // Rook somewhere in the middle of the fifth row
    let bit_board = BitBoard(255 << 40 | 1u64 << 32 | 1u64 << 48);
    let bit_board_opponent = BitBoard::default();
    let result = gen_moves_for_rook(false, index, &bit_board, &bit_board_opponent);
    assert!(result.is_none());
}

#[test]
fn piece_move_test_rook_blockers_to_up() {
    let index = BitIndex(17); // Rook on the third row, second column
    let bit_board = index.bitboard().bitor(BitIndex(25).bitboard());
    let bit_board_opponent = BitBoard::default();
    let expected = 253 << 16 | (2 | 2 << 8);
    let result = gen_moves_for_rook(false, index, &bit_board, &bit_board_opponent)
        .unwrap()
        .moves()
        .0;
    assert_eq!(result, expected);
}

#[test]
fn piece_move_test_rook_blockers_to_down() {
    let index = BitIndex(17); // Rook on the third row, second column
    let bit_board = index.bitboard().bitor(BitIndex(9).bitboard());
    let bit_board_opponent = BitBoard::default();
    let expected = 253 << 16 | (2 << 24 | 2 << 32 | 2 << 40 | 2 << 48 | 2 << 56);
    let result = gen_moves_for_rook(false, index, &bit_board, &bit_board_opponent)
        .unwrap()
        .moves()
        .0;
    assert_eq!(result, expected);
}

#[test]
fn piece_move_test_rook_blockers_opponent_to_up() {
    let index = BitIndex(17); // Rook on the third row, second column
    let bit_board = index.bitboard();
    let bit_board_opponent = BitIndex(25).bitboard();
    let expected = 253 << 16 | (2 | 2 << 8 | 2 << 24);
    let result = gen_moves_for_rook(false, index, &bit_board, &bit_board_opponent)
        .unwrap()
        .moves()
        .0;
    assert_eq!(result, expected);
}

#[test]
fn piece_move_test_rook_blockers_opponent_to_down() {
    let index = BitIndex(17); // Rook on the third row, second column
    let bit_board = index.bitboard();
    let bit_board_opponent = BitIndex(9).bitboard();
    let expected = 253 << 16 | (2 << 8 | 2 << 24 | 2 << 32 | 2 << 40 | 2 << 48 | 2 << 56);
    let result = gen_moves_for_rook(false, index, &bit_board, &bit_board_opponent)
        .unwrap()
        .moves()
        .0;
    assert_eq!(result, expected);
}

////////////////////////////////////////////////////////
/// Bishop moves
////////////////////////////////////////////////////////    ///
#[test]
fn piece_move_test_bishop_blockers() {
    let index = BitIndex(20);
    let bit_board = index.bitboard().bitor(BitIndex(34).bitboard());
    let bit_board_opponent = BitBoard(1u64 << 6);
    let expected = BitBoard::build(BitIndex::union(vec![
        2, 6, 11, 13, 27, 29, 38, 47,
    ]));
    let result = gen_moves_for_bishop(false, index, &bit_board, &bit_board_opponent)
        .unwrap()
        .moves()
        .0;
    assert_eq!(result, expected.0);
}
#[test]
fn piece_move_test_queen_no_blockers() {
    let index = BitIndex(8); // Position of the rook at the start of the second row
    let bit_board = index.bitboard();
    let bit_board_opponent = BitBoard::default();
    let result_rook = gen_moves_for_rook(false, index, &bit_board, &bit_board_opponent)
        .unwrap()
        .moves()
        .0;
    let result_bishop = gen_moves_for_bishop(false, index, &bit_board, &bit_board_opponent)
        .unwrap()
        .moves()
        .0;
    let expected = result_rook | result_bishop;
    let result = gen_moves_for_queen(index, &bit_board, &bit_board_opponent)
        .unwrap()
        .moves()
        .0;
    assert_eq!(result, expected);
}

////////////////////////////////////////////////////////
/// Pawn moves
////////////////////////////////////////////////////////    ///
#[test]
fn piece_move_test_pawn_white_no_blockers() {
    let index = BitIndex(20);
    let capture_en_passant: Option<&BitIndex> = None;
    let bit_board = index.bitboard();
    let bit_board_opponent = BitBoard::default();
    let expected = 1u64 << 28;
    let result = gen_moves_for_pawn(
        index,
        &Color::White,
        &bit_board,
        &bit_board_opponent,
        capture_en_passant,
    )
    .unwrap()
    .moves()
    .0;
    assert_eq!(result, expected);
}

#[test]
fn piece_move_test_pawn_white_row1_no_blockers() {
    let index = BitIndex(10);
    let capture_en_passant: Option<&BitIndex> = None;
    let bit_board = index.bitboard();
    let bit_board_opponent = BitBoard(0);
    let expected = 1u64 << 18 | 1u64 << 26;
    let result = gen_moves_for_pawn(
        index,
        &Color::White,
        &bit_board,
        &bit_board_opponent,
        capture_en_passant,
    )
    .unwrap()
    .moves()
    .0;
    assert_eq!(result, expected);
}

#[test]
fn piece_move_test_pawn_white_capture() {
    let index = BitIndex(18);
    let capture_en_passant: Option<&BitIndex> = None;
    let bit_board = index.bitboard().bitor(index.up().bitboard());
    let bit_board_opponent = index.up().left().bitboard().bitor(index.up().right().bitboard());
    let expected = 1u64 << 25 | 1u64 << 27;
    let result = gen_moves_for_pawn(
        index,
        &Color::White,
        &bit_board,
        &bit_board_opponent,
        capture_en_passant,
    )
    .unwrap()
    .moves()
    .0;
    assert_eq!(result, expected);
}

#[test]
fn piece_move_test_pawn_white_row1_col_a() {
    let index = BitIndex(8);
    let capture_en_passant: Option<&BitIndex> = None;
    let bit_board = index.bitboard();
    let bit_board_opponent = BitIndex(17).bitboard();
    let expected = 1u64 << 16 | 1u64 << 17 | 1u64 << 24;
    let result = gen_moves_for_pawn(
        index,
        &Color::White,
        &bit_board,
        &bit_board_opponent,
        capture_en_passant,
    )
    .unwrap()
    .moves()
    .0;
    assert_eq!(result, expected);
}
#[test]
fn piece_move_test_pawn_black_capture() {
    let index = BitIndex(50);
    let capture_en_passant: Option<&BitIndex> = None;
    let bit_board = index.bitboard().bitor(index.down().bitboard());
    let bit_board_opponent = index.down().right().bitboard().bitor(index.down().left().bitboard());
    let expected = 1u64 << 41 | 1u64 << 43;
    // BitBoard(result)
    let result = gen_moves_for_pawn(
        index,
        &Color::Black,
        &bit_board,
        &bit_board_opponent,
        capture_en_passant,
    )
    .unwrap()
    .moves()
    .0;
    assert_eq!(result, expected);
}
#[test]
fn piece_move_test_pawn_black_row6() {
    let index = BitIndex(50);
    let capture_en_passant: Option<&BitIndex> = None;
    let bit_board = index.bitboard();
    let bit_board_opponent = BitBoard::default();
    let expected = BitBoard::build(BitIndex::union(vec![42, 34]));
    let result = gen_moves_for_pawn(
        index,
        &Color::Black,
        &bit_board,
        &bit_board_opponent,
        capture_en_passant,
    )
    .unwrap()
    .moves()
    .0;
    assert_eq!(result, expected.0);
}

////////////////////////////////////////////////////////
/// Check status
////////////////////////////////////////////////////////
#[test]
fn piece_move_test_check_rook() {
    let fen = "knbqrbnr/8/8/8/8/8/8/RNBQKBNR w KQkq - 0 1";
    let position = Fen::decode(fen).expect("Failed to decode FEN");
    let check_status = position.check_status();
    let expected = CheckStatus::Simple { attacker: TypePiece::Rook, attacker_index: BitIndex(60) };
    assert_eq!(check_status, expected);
}
#[test]
fn piece_move_test_check_bishop() {
    let fen = "bnbqkbnn/8/8/8/8/8/8/RNBQRBNK w KQkq - 0 1";
    let position = Fen::decode(fen).expect("Failed to decode FEN");
    let check_status = position.check_status();
    let expected = CheckStatus::Simple { attacker: TypePiece::Bishop, attacker_index: BitIndex(56) };
    assert_eq!(check_status, expected);
}
#[test]
fn piece_move_test_check_queen() {
    let fen = "qnbbkbnn/8/8/8/8/8/8/RNBQRBNK w KQkq - 0 1";
    let position = Fen::decode(fen).expect("Failed to decode FEN");
    let check_status = position.check_status();
    let expected = CheckStatus::Simple { attacker: TypePiece::Queen, attacker_index: BitIndex(56) };
    assert_eq!(check_status, expected);
}
#[test]
fn piece_move_test_check_knight() {
    let fen = "qnbbkbnn/8/8/8/8/8/5nPP/RNBQRBNK w KQkq - 0 1";
    let position = Fen::decode(fen).expect("Failed to decode FEN");
    let check_status = position.check_status();
    let expected = CheckStatus::Simple { attacker: TypePiece::Knight, attacker_index: BitIndex(13) };
    assert_eq!(check_status, expected);
}
#[test]
fn piece_move_test_check_pawn() {
    let fen = "qnbbkbnn/8/8/8/8/8/6pP/RNBQRBNK w KQkq - 0 1";
    let position = Fen::decode(fen).expect("Failed to decode FEN");
    let check_status = position.check_status();
    let expected = CheckStatus::Simple { attacker: TypePiece::Pawn, attacker_index: BitIndex(14) };
    assert_eq!(check_status, expected);
}
#[test]
fn piece_move_test_double_check() {
    let fen = "bnbqkbnr/8/8/8/8/8/8/RNBQRBNK w KQkq - 0 1";
    let position = Fen::decode(fen).expect("Failed to decode FEN");
    let check_status = position.check_status();
    let expected = CheckStatus::Double;
    assert_eq!(check_status, expected);
}
#[test]
fn piece_move_test_moves_check_knight() {
    let fen = "qnbbkbnn/8/8/8/8/8/5nPp/RNBQNRNK w KQkq - 0 1";
    let position = Fen::decode(fen).expect("Failed to decode FEN");
    let check_status = position.check_status();
    let bit_position = BitPosition::from(position);
    let (_attacker, attacker_index) = match check_status {
        CheckStatus::Simple { attacker, attacker_index } => (attacker, attacker_index),
        _ => panic!("Should be check"),
    };
    let moves = gen_moves_for_all_simple_check(
        &Color::White,
        attacker_index,
        bit_position.bit_boards_white_and_black().bit_board_white(),
        bit_position.bit_boards_white_and_black().bit_board_black(),
        None,
    );
    assert_eq!(moves.len(), 2);
    let move_king = moves.get(0).unwrap().moves().0;
    let move_rook = moves.get(1).unwrap().moves().0;
    let move_king_expected = 1u64 << 15;
    let move_rook_expected = 1u64 << 13;
    assert_eq!(move_rook, move_rook_expected);
    assert_eq!(move_king, move_king_expected);
}
#[test]
fn piece_move_test_moves_king_castle() {
    let fen = "qnbbkbnn/8/8/8/8/8/8/R3K2R w KQkq - 0 1";
    let position = Fen::decode(fen).expect("Failed to decode FEN");
    let bit_position = BitPosition::from(position);
    let color = &bit_position.bit_position_status().player_turn();
    let bit_board = bit_position.bit_boards_white_and_black.bit_board(color);
    let bit_board_opponent = bit_position.bit_boards_white_and_black.bit_board(&color.switch());
    let white_king_bit_board = bit_board.king();
    let moves = KingBitBoard::new(white_king_bit_board.bitboard).gen_moves_no_check(
        &Color::White,
        bit_board,
        bit_board_opponent,
        bit_position.bit_position_status().can_castle_king_side(bit_board.concat_bit_boards(), color),
        bit_position.bit_position_status().can_castle_queen_side(bit_board.concat_bit_boards(), color),
    );
    let result = moves.get(0).unwrap().moves().value();
    let expected: u64 =
        1u64 << 3 | 1u64 << 5 | 1u64 << 11 | 1u64 << 12 | 1u64 << 13 | 1u64 << 2 | 1u64 << 6;
    assert_eq!(result, expected)
}
#[test]
fn test_moves_king_cannot_castle() {
    let fen = "4kB1r/pr3ppp/p7/4P3/2K5/1P2B3/P4P1Q/2RRK3 b k - 0 1";
    let position = Fen::decode(fen).expect("Failed to decode FEN");
    let bit_position = BitPosition::from(position);
    let color = &bit_position.bit_position_status().player_turn();
    let bit_board = bit_position.bit_boards_white_and_black.bit_board(color);
    let bit_board_opponent = bit_position.bit_boards_white_and_black.bit_board(&color.switch());
    let white_king_bit_board = bit_board.king();
    let moves = KingBitBoard::new(white_king_bit_board.bitboard).gen_moves_no_check(
        &Color::White,
        bit_board,
        bit_board_opponent,
        bit_position.bit_position_status().can_castle_king_side(bit_board.concat_bit_boards(), color),
        bit_position.bit_position_status().can_castle_queen_side(bit_board.concat_bit_boards(), color),
    );
    let result = moves.get(0).unwrap().moves().value();
    assert!(result & (1 << 62) == 0);
}

fn castle_moves(bit_board_position: &BitPosition) -> Vec<BitBoardMove> {
    bit_board_position.bit_boards_white_and_black().gen_moves_for_all(
        &Color::White,
        CheckStatus::NoCheck,
        None,
        bit_board_position.bit_position_status(),
    )
}

fn play_castle(via_game: bool) {
    let fen = "qnbbkbnn/8/8/8/8/8/8/R3K2R w KQkq - 0 1";
    let position = Fen::decode(fen).expect("Failed to decode FEN");
    let bit_board_position = BitPosition::from(position);
    let moves = castle_moves(&bit_board_position);
    let mut m: Vec<(u8, u8)> = moves.iter().map(|v| (v.start().value(), v.end().value())).collect();
    let mut expected = vec![
        (0, 1), (0, 2), (0, 3), (0, 8), (0, 16), (0, 24), (0, 32), (0, 40), (0, 48), (0, 56),
        (7, 5), (7, 6), (7, 15), (7, 23), (7, 31), (7, 39), (7, 47), (7, 55), (7, 63),
        (4, 2), (4, 3), (4, 5), (4, 6), (4, 11), (4, 12), (4, 13),
    ];
    m.sort();
    expected.sort();
    assert_eq!(m, expected);
    let short_castle_move: Vec<&BitBoardMove> = moves
        .iter()
        .filter(|v| {
            v.type_piece() == TypePiece::King
                && v.start().value() < v.end().value()
                && v.end().value() - v.start().value() == 2
        })
        .collect();
    let short_castle = *short_castle_move.get(0).unwrap();
    assert_eq!((short_castle.start().value(), short_castle.end().value()), (4u8, 6u8));
    let expected =
        BitBoardMove::new(Color::White, TypePiece::King, BitIndex(4u8), BitIndex(6u8), None, None);
    let bit_board_move = *short_castle;
    assert_eq!(bit_board_move, expected);
    let bit_board_position2 = if via_game {
        Game::from(position).play(bit_board_move).bit_position
    } else {
        bit_board_position.move_piece(&bit_board_move)
    };
    let position = bit_board_position2.to();
    let fen = Fen::encode(&position).expect("Failed to encode position");
    assert_eq!(fen, "qnbbkbnn/8/8/8/8/8/8/R4RK1 b kq - 1 1");
}

fn play_promotion(via_game: bool) {
    let fen = "7k/P7/8/8/8/8/8/7K w - - 0 1";
    let position = Fen::decode(fen).expect("Failed to decode FEN");
    let bit_board_position = BitPosition::from(position);
    let moves = castle_moves(&bit_board_position);
    let promotion_moves: Vec<&BitBoardMove> =
        moves.iter().filter(|m| m.type_piece() == TypePiece::Pawn).collect();
    let new_pieces: Vec<TypePiecePromotion> =
        promotion_moves.iter().flat_map(|p| p.promotion()).collect();
    assert_eq!(new_pieces.len(), 4);
    let promotion_move = **promotion_moves.get(0).unwrap();
    let bit_board_position2 = if via_game {
        Game::from(position).play(promotion_move).bit_position
    } else {
        bit_board_position.move_piece(&promotion_move)
    };
    let position = bit_board_position2.to();
    let fen = Fen::encode(&position).expect("Failed to encode position");
    assert_eq!(fen, "R6k/8/8/8/8/8/8/7K b - - 0 1");
}

#[test]
fn piece_move_test_game_play_castle() {
    play_castle(false);
}

#[test]
fn piece_move_test_game_play_promotion() {
    play_promotion(false);
}

#[test]
fn game_test_game_play_castle() {
    play_castle(true);
}

#[test]
fn game_test_game_play_promotion() {
    play_promotion(true);
}

// ---------------------------------------------------------------- bishop table

#[test]
fn test_bishop_move() {
    let index: u8 = 41;
    let blockers: u64 = 1u64 << 20;
    bishop_moves(index, blockers);
}

#[test]
fn test_table_bishop_no_blockers() {
    let moves = bishop_moves(27, 0);
    let expected = (1u64 << 0) | (1u64 << 9) | (1u64 << 18) | (1u64 << 36) | (1u64 << 45)
        | (1u64 << 54) | (1u64 << 63) | (1u64 << 6) | (1u64 << 13) | (1u64 << 20) | (1u64 << 34)
        | (1u64 << 41) | (1u64 << 48);
    assert_eq!(moves, expected);
}

#[test]
fn test_table_bishop_edge_of_board() {
    let moves = bishop_moves(0, 0);
    let expected = (1u64 << 9) | (1u64 << 18) | (1u64 << 27) | (1u64 << 36) | (1u64 << 45)
        | (1u64 << 54) | (1u64 << 63);
    assert_eq!(moves, expected);
}

#[test]
fn test_table_bishop_corner_case() {
    let moves = bishop_moves(63, 0);
    let expected = (1u64 << 54) | (1u64 << 45) | (1u64 << 36) | (1u64 << 27) | (1u64 << 18)
        | (1u64 << 9) | (1u64 << 0);
    assert_eq!(moves, expected);
}

#[test]
fn test_table_bishop_central_position() {
    let moves = bishop_moves(28, 0);
    let expected = (1u64 << 19) | (1u64 << 10) | (1u64 << 1) | (1u64 << 37) | (1u64 << 46)
        | (1u64 << 55)
        | (1u64 << 56 | 1u64 << 49 | 1u64 << 42 | 1u64 << 35 | 1u64 << 21 | 1u64 << 14 | 1u64 << 7);
    assert_eq!(moves, expected);
}

#[test]
fn test_table_bishop_single_blocker() {
    let moves = bishop_moves(36, 1u64 << 27);
    let expected = (1u64 << 45) | (1u64 << 54) | (1u64 << 63) | (1u64 << 27) | (1u64 << 15)
        | (1u64 << 22) | (1u64 << 29) | (1u64 << 43) | (1u64 << 50 | 1u64 << 57);
    assert_eq!(moves, expected);
}

#[test]
fn test_table_bishop_multiple_blockers() {
    let moves = bishop_moves(36, (1u64 << 27) | (1u64 << 45));
    let expected = (1u64 << 27) | (1u64 << 45) | (1u64 << 15)
        | (1u64 << 22 | 1u64 << 29 | 1u64 << 43 | 1u64 << 50 | 1u64 << 57);
    assert_eq!(moves, expected);
}
