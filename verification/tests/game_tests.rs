use chess_actix::fen::{EncodeUserInput, Fen};
use chess_actix::game_state::{EndGame, GameState};
use chess_actix::long_notation::LongAlgebricNotationMove;
use chess_actix::piece_move::CheckStatus;
use chess_actix::position::BitPosition;
use chess_actix::square::{Color, Piece, TypePiece};
use chess_actix::zobrist::{Zobrist, ZobristHash};

const FEN_START_POSITION: &str = "rnbqkbnr/pppppppp/8/8/8/8/PPPPPPPP/RNBQKBNR w KQkq - 0 1";

fn notations(moves: Vec<&str>) -> Vec<LongAlgebricNotationMove> {
    moves
        .into_iter()
        .map(|m| LongAlgebricNotationMove::build_from_str(m).unwrap())
        .collect()
}

fn casts(game: &GameState) -> Vec<String> {
    game.gen_moves()
        .into_iter()
        .map(|b_move| LongAlgebricNotationMove::build_from_b_move(b_move).cast())
        .collect()
}

#[test]
fn test_position() {
    let position = Fen::decode(FEN_START_POSITION).expect("Failed to decode FEN");
    let moves = vec![
        "h2h3", "h7h6", "f2f4", "b8c6", "d2d4", "c6b8", "g1f3", "b7b5", "h1g1", "h8h7", "g2g3",
        "d7d6", "c2c3", "c8e6", "b2b3", "e6g4", "c1a3", "b8a6", "d1d3", "c7c5", "h3h4", "a8c8",
    ];
    let zobrist_table = Zobrist::new();
    let mut game = GameState::new(position, &zobrist_table);
    let valid_moves = notations(moves);
    let _ = game.play_moves(&valid_moves, &zobrist_table, true);
    let fen_pos_final = Fen::encode(&game.bit_position().to()).unwrap();
    let fen_pos_final_expected = "2rqkbn1/p3pppr/n2p3p/1pp5/3P1PbP/BPPQ1NP1/P3P3/RN2KBR1 w Q - 1 12";
    assert_eq!(fen_pos_final, fen_pos_final_expected);
    let algebric_moves_expected = vec![
        "g1h1", "g1g2", "f1g2", "f1h3", "a3c1", "a3b2", "a3b4", "a3c5", "b1d2", "f3d2", "f3h2",
        "f3e5", "f3g5", "e1d1", "e1d2", "e1f2", "d3d1", "d3c2", "d3d2", "d3e3", "d3c4", "d3e4",
        "d3b5", "d3f5", "d3g6", "d3h7", "e2e3", "e2e4", "b3b4", "c3c4", "d4c5", "d4d5", "f4f5",
        "h4h5",
    ];
    assert_eq!(casts(&game), algebric_moves_expected);
}

#[test]
fn test_pat() {
    let fen_pos = "8/4k3/8/1N3pP1/2R2P2/P5K1/P2B4/8 b - - 0 48";
    let position = Fen::decode(fen_pos).expect("Failed to decode FEN");
    let moves = vec!["e7e6", "c4c7", "e6d5", "c7d7", "d5e4"];
    let zobrist_table = Zobrist::new();
    let mut game = GameState::new(position, &zobrist_table);
    let valid_moves = notations(moves);
    let _ = game.play_moves(&valid_moves, &zobrist_table, true);
    game.play_null_move(&zobrist_table);
    let moves = game.gen_moves();
    assert!(moves.is_empty());
    assert!(!game.can_move());
    assert_eq!(game.end_game(), EndGame::Ongoing);
    game.update_endgame_status();
    assert_eq!(game.end_game(), EndGame::Pat)
}

#[test]
fn test_play_back() {
    let position = Fen::decode(FEN_START_POSITION).expect("Failed to decode FEN");
    let moves = vec!["h2h3", "h7h6", "f2f4"];
    let zobrist_table = Zobrist::new();
    let mut game = GameState::new(position, &zobrist_table);
    let valid_moves = notations(moves);
    let _ = game.play_moves(&valid_moves, &zobrist_table, true);
    game.play_back();
    game.play_back();
    game.play_back();
    let bit_position = game.bit_position();
    assert!(*bit_position == BitPosition::from(position))
}

#[test]
fn test_play_null_move_back() {
    let position = Fen::decode(FEN_START_POSITION).expect("Failed to decode FEN");
    let zobrist_table = Zobrist::new();
    let mut game = GameState::new(position, &zobrist_table);
    let valid_moves = notations(vec!["e2e4", "e7e5", "f1e2", "f8a3", "b2a3"]);
    let _ = game.play_moves(&valid_moves, &zobrist_table, true);
    let color = game.bit_position().bit_position_status().player_turn();
    assert_eq!(color, Color::Black);
    game.play_null_move(&zobrist_table);
    let color = game.bit_position().bit_position_status().player_turn();
    assert_eq!(color, Color::White);
    let moves = casts(&game);
    let mv = "c1b2";
    assert!(moves.iter().any(|m| m == mv));
    let valid_moves = LongAlgebricNotationMove::build_from_str(mv).unwrap();
    let _ = game.play_moves(&vec![valid_moves], &zobrist_table, true);
    assert_eq!(game.bit_position().bit_position_status().player_turn(), Color::Black);
    game.play_back();
    assert_eq!(game.bit_position().bit_position_status().player_turn(), Color::White);
    game.play_back_null_move();
    assert_eq!(game.bit_position().bit_position_status().player_turn(), Color::Black);
    game.play_back();
    game.play_back();
    assert_eq!(game.bit_position().bit_position_status().player_turn(), Color::Black);
    let moves = casts(&game);
    let mv = "f8c5";
    assert!(moves.iter().any(|m| m == mv))
}

#[test]
fn test_zobrist_check() {
    let zobrist = Zobrist::new();
    assert!(zobrist.castling_rights.iter().any(|elem| *elem != 0));
    assert!(zobrist.en_passant.iter().any(|elem| *elem != 0));
    assert_ne!(zobrist.side_to_move, 0);
    assert!(zobrist.piece_square.iter().flat_map(|piece| piece.iter()).any(|elem| *elem != 0));
}

#[test]
fn test_zobrist_toggle_twice_gives_hash_back() {
    let zobrist = Zobrist::new();
    let hash = ZobristHash(0x1234_5678_9abc_def0);
    let piece = Piece { type_piece: TypePiece::Knight, color: Color::Black };
    let once = hash.xor_piece(&zobrist, piece, 10);
    assert_eq!(once.xor_piece(&zobrist, piece, 10), hash);
    assert_eq!(hash.xor_player_turn(&zobrist).xor_player_turn(&zobrist), hash);
}

#[test]
fn test_notation_read_back_gives_the_move() {
    for text in ["e2e4", "a1h8", "h7h8q", "b2b1n"] {
        let m = LongAlgebricNotationMove::build_from_str(text).unwrap();
        let again = LongAlgebricNotationMove::build_from_str(&m.cast()).unwrap();
        assert_eq!(again, m);
        assert_eq!(m.cast(), text);
    }
}

#[test]
fn test_check_3x_odd_half_move_count() {
    let mut history = chess_actix::zobrist::ZobristHistory { hashes: Vec::new() };
    for k in 0..10u64 {
        history.push(ZobristHash(1 + k % 2));
    }
    assert!(history.check_3x(9));
    assert!(history.check_3x(8));
    assert!(!history.check_3x(3));
}

#[test]
fn test_bishop_against_knight_is_insufficient_material() {
    let zobrist = Zobrist::new();
    let mut game = GameState::new(Fen::decode("k7/8/8/8/8/8/8/KB1n4 w - - 0 1").unwrap(), &zobrist);
    game.update_endgame_status();
    assert_eq!(game.end_game(), EndGame::InsufficientMaterial);
    let mut game = GameState::new(Fen::decode("k7/8/8/8/8/8/8/KBBn4 w - - 0 1").unwrap(), &zobrist);
    game.update_endgame_status();
    assert_eq!(game.end_game(), EndGame::Ongoing);
}

fn play_from(fen: &str, moves: Vec<&str>) -> String {
    let position = Fen::decode(fen).expect("Failed to decode FEN");
    let zobrist_table = Zobrist::new();
    let mut game = GameState::new(position, &zobrist_table);
    let played = game.play_moves(&notations(moves), &zobrist_table, true);
    assert!(played.is_ok());
    Fen::encode(&game.bit_position().to()).unwrap()
}

#[test]
fn test_white_pawn_promotes_on_h8() {
    let fen = "k7/7P/8/8/8/8/8/K7 w - - 0 1";
    let position = Fen::decode(fen).expect("Failed to decode FEN");
    let game = GameState::new(position, &Zobrist::new());
    assert!(casts(&game).iter().any(|m| m == "h7h8q"));
    assert_eq!(play_from(fen, vec!["h7h8q"]), "k6Q/8/8/8/8/8/8/K7 b - - 0 1");
}

#[test]
fn test_white_pawn_captures_onto_h8() {
    assert_eq!(play_from("k6r/6P1/8/8/8/8/8/K7 w - - 0 1", vec!["g7h8n"]), "k6N/8/8/8/8/8/8/K7 b - - 0 1");
}

#[test]
fn test_black_pawn_promotes_on_a1() {
    assert_eq!(play_from("k7/8/8/8/8/8/p7/7K b - - 0 1", vec!["a2a1q"]), "k7/8/8/8/8/8/8/q6K w - - 0 2");
}

#[test]
fn test_play_back_each_move_gives_start_again() {
    let position = Fen::decode(FEN_START_POSITION).expect("Failed to decode FEN");
    let zobrist_table = Zobrist::new();
    let mut game = GameState::new(position, &zobrist_table);
    let start_hash = game.last_hash();
    let moves = notations(vec!["e2e4", "d7d5", "e4d5", "d8d5", "b1c3"]);
    let played = game.play_moves(&moves, &zobrist_table, true).unwrap();
    assert_eq!(played.len(), 5);
    for _ in 0..played.len() {
        game.play_back();
    }
    assert!(*game.bit_position() == BitPosition::from(position));
    assert_eq!(game.last_hash(), start_hash);
    assert_eq!(game.end_game(), EndGame::Ongoing);
}

fn game_after(fen: &str, moves: &str) -> GameState {
    let position = Fen::decode(fen).expect("Failed to decode FEN");
    let zobrist_table = Zobrist::new();
    let mut game = GameState::new(position, &zobrist_table);
    let moves: Vec<&str> = moves.split_whitespace().collect();
    let played = game.play_moves(&notations(moves), &zobrist_table, true);
    assert!(played.is_ok());
    game.update_endgame_status();
    game
}

#[test]
fn test_game_pawns_en_passant_out_of_board() {
    let game = game_after(
        FEN_START_POSITION,
        "e2e4 b8a6 f1a6 b7a6 d2d4 d7d5 e4e5 c7c6 g1f3 a8b8 e1g1 c8g4 b1c3 b8b6 c3a4 b6b4 a4c5 b4b6 c2c3 g4h5 d1d3 a6a5 h2h4",
    );
    assert!(!casts(&game).contains(&"a5h3".to_string()));
}

#[test]
fn test_game_mat() {
    let game = game_after(FEN_START_POSITION, "e2e4 e7e5 f1c4 a7a6 d1f3 a6a5 f3f7");
    assert_eq!(game.end_game(), EndGame::Mat(Color::Black));
}

#[test]
fn test_game_pat_white_first() {
    let game = game_after("k7/7R/1R6/8/8/8/8/7K w - - 0 1", "h1g1");
    assert_eq!(game.end_game(), EndGame::Pat);
}

#[test]
fn test_game_king_double_check_move() {
    let game = game_after(
        FEN_START_POSITION,
        "e2e4 b8a6 f1a6 b7a6 d2d4 d7d5 e4e5 c7c6 g1f3 a8b8 b1c3 c8g4 e1g1 b8b6 d1d3 b6b4 a2a3 b4b6 c3a4 b6b8 a4c5 b8b6 c2c4 g4f3 g2f3 d8c7 c4d5 c7c8 b2b4 c6d5 c1g5 b6g6 f3f4 g6b6 f1e1 h7h6 g5h4 b6c6 a1c1 c6b6 e5e6 b6c6 e6f7 e8f7 g1g2 c6e6 g2h3 e6e3",
    );
    assert!(!casts(&game).contains(&"h3h2".to_string()));
}

#[test]
fn test_game_cannot_small_castle_after_rook_captured() {
    let game = game_after(
        FEN_START_POSITION,
        "e2e4 b8a6 d2d4 e7e6 c2c4 f8b4 b1c3 a8b8 a2a3 b4c3 b2c3 b8a8 g1f3 a6b8 f1e2 b8a6 e1g1 a6b8 c1f4 b8a6 d4d5 a8b8 d5e6 d7e6 d1b3 d8d7 a1d1 d7c6 f3e5 c6e4 e5f7 g8f6 f7h8",
    );
    assert!(!casts(&game).contains(&"e8g8".to_string()));
}

#[test]
fn test_game_block_check_mod7() {
    let game = game_after("5r1r/p1p3pp/n1b1p1k1/4P3/8/4q1P1/3R3P/3R1K2 w - - 3 35", "");
    assert_eq!(game.end_game(), EndGame::Ongoing);
    assert_eq!(casts(&game), vec!["d2f2".to_string()]);
}

fn fen_after_trying(fen: &str, moves: &str) -> (bool, String) {
    let position = Fen::decode(fen).expect("Failed to decode FEN");
    let zobrist_table = Zobrist::new();
    let mut game = GameState::new(position, &zobrist_table);
    let moves: Vec<&str> = moves.split_whitespace().collect();
    let played = game.play_moves(&notations(moves), &zobrist_table, true);
    (played.is_ok(), Fen::encode(&game.bit_position().to()).unwrap())
}

#[test]
fn test_game_capture_en_passant_valid() {
    let (ok, fen) = fen_after_trying(FEN_START_POSITION, "e2e4 d7d5 e4d5 e7e5 d5e6");
    assert!(ok);
    assert_eq!(fen, "rnbqkbnr/ppp2ppp/4P3/8/8/8/PPPP1PPP/RNBQKBNR b KQkq - 0 3");
}

#[test]
fn test_game_pawn_move_invalid() {
    let (ok, fen) = fen_after_trying(FEN_START_POSITION, "e2e4 e7e5 e4e5");
    assert!(!ok);
    assert_eq!(fen, "rnbqkbnr/pppp1ppp/8/4p3/4P3/8/PPPP1PPP/RNBQKBNR w KQkq - 0 2");
}

#[test]
fn test_game_pawns_moves() {
    let game = game_after(FEN_START_POSITION, "e2e4 g8f6 e4e5 e7e6 e5f6");
    assert!(!casts(&game).contains(&"d7e6".to_string()));
    assert_eq!(
        Fen::encode(&game.bit_position().to()).unwrap(),
        "rnbqkb1r/pppp1ppp/4pP2/8/8/8/PPPP1PPP/RNBQKBNR b KQkq - 0 3"
    );
}

#[test]
fn test_game_pat_black_first() {
    let game = game_after("k7/7R/1R6/8/8/8/8/7K b - - 0 1", "");
    assert_eq!(game.end_game(), EndGame::Pat);
}

#[test]
fn test_game_weird() {
    let (ok, _) = fen_after_trying(
        FEN_START_POSITION,
        "d2d4 d7d5 b1c3 a7a6 c1f4 a6a5 d1d2 a5a4 e1c1 a4a3 h2h3 a3b2 c1b1 a8a2 h3h4 a2a1 b1b2",
    );
    assert!(ok);
}

#[test]
fn test_game_blocked_pawn_ckeck_invalid() {
    let (ok, fen) = fen_after_trying(FEN_START_POSITION, "e2e4 e7e5 a2a3 d8h4 f2f3");
    assert!(!ok);
    assert_eq!(fen, "rnb1kbnr/pppp1ppp/8/4p3/4P2q/P7/1PPP1PPP/RNBQKBNR w KQkq - 1 3");
}

#[test]
fn test_game_block_ckeck() {
    let (ok, fen) = fen_after_trying(FEN_START_POSITION, "e2e4 d7d5 e4d5 d8d5 a2a3 d5e5 d1f3");
    assert!(!ok);
    assert_eq!(fen, "rnb1kbnr/ppp1pppp/8/4q3/8/P7/1PPP1PPP/RNBQKBNR w KQkq - 1 4");
}

#[test]
fn test_game_pawn_takes_attacker() {
    let (ok, fen) = fen_after_trying(
        FEN_START_POSITION,
        "e2e4 b8a6 f1a6 b7a6 d2d4 a8b8 b1c3 b8b4 g1f3 b4c4 d1d3 c4b4 a2a3 b4b6 c3d5 b6c6 c2c4 c6d6 e4e5 d6c6 b2b4 c6e6 f3g5 e6e5 d4e5",
    );
    assert!(ok);
    assert_eq!(fen, "2bqkbnr/p1pppppp/p7/3NP1N1/1PP5/P2Q4/5PPP/R1B1K2R b KQk - 0 13");
}

#[test]
fn test_game_block_ckeck2() {
    let (ok, _) = fen_after_trying(FEN_START_POSITION, "e2e4 d7d5 e4d5 d8d5 a2a3 d5e5 d1e2");
    assert!(ok);
}

#[test]
fn test_game_escape() {
    let (ok, fen) = fen_after_trying(FEN_START_POSITION, "e2e4 c7c5 f1c4 d7d6 d1h5 a7a6 h5f7 e8d7");
    assert!(ok);
    assert_eq!(fen, "rnbq1bnr/1p1kpQpp/p2p4/2p5/2B1P3/8/PPPP1PPP/RNB1K1NR w KQ - 1 5");
}

#[test]
fn test_game_king_close_to_king() {
    let fen_initial = "r7/8/8/4k3/8/4K3/8/7R w - - 0 1";
    let (ok, fen) = fen_after_trying(fen_initial, "e3e4");
    assert!(!ok);
    assert_eq!(fen, fen_initial);
}

#[test]
fn test_game_rule_50xmoves() {
    let moves = [
        "h1g1 a8b8 g1f1 b8c8 f1e1 c8d8 e1d1 d8e8 d1c1 e8f8 c1b1 f8g8 b1b2 g8g7 b2c2 g7f7 c2d2 f7e7 d2e2 e7d7",
        "e2f2 d7c7 f2g2 c7b7 g2h2 b7a7 h3h4 a6a5 h2h3 a7a6 h3g3 a6b6 g3f3 b6c6 f3e3 c6d6 e3d3 d6e6 d3c3 e6f6",
        "c3b3 f6g6 b3b4 g6g5 b4c4 g5f5 c4d4 f5e6 d4e4 e6d6 e4d4 d6c6 d4c4 c6b6 c4b4 b6a6 b4b3 a6a7 b3b2 a7b7",
        "b2c2 b7c7 c2d2 c7d7 d2e2 d7e7 e2f2 e7f7 f2g2 f7g7 g2f2 g7g8 f2e2 g8f8 e2d2 f8e8 d2c2 e8d8 c2b2 d8c8",
        "b2b1 c8b8 b1c1 b8a8 c1d1 a8a7 d1e1 a7b7 e1f1 b7c7 f1g1 c7d7 g1h1 d7e7 h1h2 e7e6 h2g2 e6e5 g2f2 e5f5",
    ]
    .join(" ");
    let game = game_after("k7/8/r7/8/8/7R/8/7K w - - 0 1", &moves);
    assert_eq!(game.end_game(), EndGame::NoPawnAndCapturex50);
}

#[test]
fn test_game_3x_position() {
    let game = game_after("k7/8/r7/8/8/7R/8/7K w - - 0 1", "h1g1 a8b8 g1h1 b8a8 h1g1 a8b8 g1h1 b8a8");
    assert_eq!(game.end_game(), EndGame::Repetition3x);
}

#[test]
fn test_game_3x_position_with_pawn() {
    let game = game_after("k7/7p/r7/8/8/7R/8/7K b - - 0 1", "h7h6 h1g1 a8b8 g1h1 b8a8 h1g1 a8b8 g1h1 b8a8");
    assert_eq!(game.end_game(), EndGame::Repetition3x);
}

#[test]
fn test_game_rule_insufficient_material() {
    let game = game_after("k7/8/8/8/8/8/8/7K b - - 0 1", "");
    assert_eq!(game.end_game(), EndGame::InsufficientMaterial);
}

#[test]
fn test_game_king_double_check_after_promotion() {
    let game = game_after(
        FEN_START_POSITION,
        "e2e4 b8a6 f1a6 b7a6 g1f3 d7d5 e4d5 a8b8 e1g1 b8b4 d2d4 b4a4 b1c3 a4b4 a2a3 b4b6 b2b4 c8g4 c1b2 b6d6 d1d3 d6b6 f3e5 g4c8 d3f3 b6f6 f3e4 f6b6 e5c6 f7f5 e4f3 b6c6 d5c6 d8d4 c3a4 d4d2 f3h5 e8d8 a1d1 d2d6 d1d6 c7d6 h5g5 c8e6 b2g7 h7h6 g5g3 h8h7 g7f8 e6c4 f1e1 c4f7 f8e7 g8e7 e1e7 f5f4 g3f4 d8e7 c6c7 e7d7 f4f5 f7e6 f5h7 d7c8 a4c3 c8b7 c7c8q",
    );
    assert_eq!(game.check_status(), CheckStatus::Double);
    assert!(!casts(&game).contains(&"e6d7".to_string()));
}

#[test]
fn test_game_promotion_king_moves() {
    let game = game_after(
        FEN_START_POSITION,
        "e2e4 b8a6 f1a6 b7a6 d2d4 d7d5 e4e5 c7c6 g1f3 a8b8 e1g1 c8g4 d1d3 b8b4 c2c3 b4a4 b2b3 a4a5 c1d2 g4f3 g2f3 a5b5 c3c4 b5b7 c4d5 d8d5 d3c3 b7b5 d2e3 d5f3 c3c6 f3c6 b1a3 b5b4 a1c1 c6e6 a3c4 b4b5 f1d1 b5b4 d4d5 e6g4 g1f1 b4b7 d5d6 g4h3 f1g1 h3g4 g1f1 g4h3 f1e1 h3h2 d6e7 g8f6 e7f8b",
    );
    assert!(!casts(&game).contains(&"e8g8".to_string()));
}
