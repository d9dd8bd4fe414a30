use chess_actix::bitboard::BitBoard;
use chess_actix::bitboards::BitBoards;
use chess_actix::evaluation::{
    self, evaluate_dynamic_position_one_side, evaluate_static_position_one_side, FACTOR_CONTROL_SQUARES,
};
use chess_actix::fen::{EncodeUserInput, Fen};
use chess_actix::game_state::GameState;
use chess_actix::square::TypePiece;
use chess_actix::zobrist::Zobrist;

#[test]
fn test_evaluation_one_side() {
    let mut bitboards = BitBoards::default();
    bitboards.xor_piece(TypePiece::Rook, BitBoard::new(1));
    bitboards.xor_piece(TypePiece::Pawn, BitBoard::new(2));
    let score = evaluate_static_position_one_side(&bitboards);
    assert_eq!(score, 6);
}

#[test]
fn test_control_squares() {
    // White queen in b3
    let fen = "7k/8/8/8/8/1Q6/8/7K w - - 0 1";
    let position = Fen::decode(fen).expect("Failed to decode FEN");
    let zobrist_table = Zobrist::new();
    let game = GameState::new(position, &zobrist_table);

    let (control_white, control_black) = game.gen_control_square();
    let is_start_game = true;
    let sc_white = evaluate_dynamic_position_one_side(control_white, is_start_game);
    assert_eq!(sc_white, 3);
    let sc_black = evaluate_dynamic_position_one_side(control_black, is_start_game);
    assert_eq!(sc_black, 0);

    // The queen controls only the square d5
    let (control_white, control_black) = game.gen_control_square();
    let is_start_game = true;
    let score = evaluation::evaluate_dynamic_position((control_white, control_black), is_start_game);
    assert_eq!(score, 3 * FACTOR_CONTROL_SQUARES);

    // The queen control plenty squares
    let (control_white, control_black) = game.gen_control_square();
    let is_start_game = false;
    let score = evaluation::evaluate_dynamic_position((control_white, control_black), is_start_game);
    assert_eq!(score, 23 * 3 * FACTOR_CONTROL_SQUARES);
}
