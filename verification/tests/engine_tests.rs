use chess_actix::bitboard::BitIndex;
use chess_actix::bitboard_move::BitBoardMove;
use chess_actix::engine_mat::EngineMat;
use chess_actix::evaluation::{check_can_win, evaluate_position, handle_end_game_scenario, is_final};
use chess_actix::fen::{EncodeUserInput, Fen};
use chess_actix::game_state::{EndGame, GameState};
use chess_actix::score::{
    find_max, BitboardMoveScore, BoundScore, Score, TranspositionScore, SCORE_MAT_BLACK, SCORE_MAT_WHITE,
};
use chess_actix::search_state::SearchState;
use chess_actix::square::{Color, TypePiece};
use chess_actix::stat_eval::StatEval;
use chess_actix::time_allocation::{compute_allocate_time_in_sec, estimate_time_allocation};
use chess_actix::zobrist::{Zobrist, ZobristHash};
use std::time::Duration;

use chess_actix::config::{IddfsFeatureConf, MatConfig};
use chess_actix::engine_alphabeta::{EngineAlphaBeta, SilentListener};
use chess_actix::engine_iddfs::EngineIddfs;
use chess_actix::engine_minimax::{merge_best_move_per_branch, EngineMinimax};
use std::sync::Arc;
use std::sync::atomic::AtomicBool;
const FEN_START_POSITION: &str = "rnbqkbnr/pppppppp/8/8/8/8/PPPPPPPP/RNBQKBNR w KQkq - 0 1";

fn game_of(fen: &str, zobrist_table: &Zobrist) -> GameState {
    GameState::new(Fen::decode(fen).unwrap(), zobrist_table)
}

#[test]
fn test_mat_solver_mate_in_one() {
    let zobrist_table = Zobrist::new();
    let game = game_of("6k1/8/6K1/8/8/8/8/R7 w - - 0 1", &zobrist_table);
    let engine = EngineMat::new(Zobrist::new(), 1);
    let mut stat_eval = StatEval::default();
    let result = engine.mat_solver_init(&game, 1, &mut stat_eval).unwrap().unwrap();
    assert_eq!(result.mat_in(), 1);
    assert_eq!(result.bitboard_move().start(), BitIndex::new(0));
    assert_eq!(result.bitboard_move().end(), BitIndex::new(56));
    assert_eq!(result.variant(), "a1a8");
    // the game given is left alone
    assert_eq!(game.bit_position(), GameState::new(Fen::decode("6k1/8/6K1/8/8/8/8/R7 w - - 0 1").unwrap(), &zobrist_table).bit_position());
}

#[test]
fn test_mat_solver_deeper_search_keeps_shortest_mate() {
    let zobrist_table = Zobrist::new();
    let game = game_of("6k1/8/6K1/8/8/8/8/R7 w - - 0 1", &zobrist_table);
    let engine = EngineMat::new(zobrist_table, 2);
    let mut stat_eval = StatEval::default();
    let found = engine.mat_solver_init(&game, 2, &mut stat_eval).unwrap().unwrap();
    assert_eq!(found.mat_in(), 1);
    assert_eq!(found.variant(), "a1a8");
    assert!(stat_eval.n_check >= 1);
}

#[test]
fn test_mat_solver_no_mate() {
    let zobrist_table = Zobrist::new();
    let game = game_of(FEN_START_POSITION, &zobrist_table);
    let engine = EngineMat::new(Zobrist::new(), 1);
    let mut stat_eval = StatEval::default();
    let result = engine.mat_solver_init(&game, 1, &mut stat_eval).unwrap();
    assert!(result.is_none());
    assert_eq!(stat_eval.n_check, 0);
}

#[test]
fn test_end_game_scores() {
    let zobrist_table = Zobrist::new();
    let mut game = game_of(FEN_START_POSITION, &zobrist_table);
    game.set_end_game(EndGame::Mat(Color::Black));
    assert_eq!(handle_end_game_scenario(&game, 1, 3), Score::new(SCORE_MAT_WHITE, 1, 3));
    game.set_end_game(EndGame::Mat(Color::White));
    assert_eq!(handle_end_game_scenario(&game, 1, 3).value, SCORE_MAT_BLACK);
    game.set_end_game(EndGame::TimeOutLost(Color::Black));
    assert_eq!(handle_end_game_scenario(&game, 0, 0).value, SCORE_MAT_WHITE);
    game.set_end_game(EndGame::Pat);
    assert_eq!(handle_end_game_scenario(&game, 0, 0).value, 0);
}

#[test]
fn test_evaluate_start_position_and_report() {
    let zobrist_table = Zobrist::new();
    let game = game_of(FEN_START_POSITION, &zobrist_table);
    let mut stat_eval = StatEval::default();
    assert_eq!(evaluate_position(&game, &mut stat_eval, true), (0, None));
    assert_eq!(stat_eval.n_positions_evaluated(), 1);
    stat_eval.n_positions_evaluated = 4999;
    assert_eq!(evaluate_position(&game, &mut stat_eval, true), (0, Some(5000)));
    assert_eq!(stat_eval.n_positions_evaluated(), 0);
}

#[test]
fn test_evaluate_material_and_can_win() {
    let zobrist_table = Zobrist::new();
    // White has a rook more; Black cannot mate any more
    let game = game_of("7k/8/8/8/8/8/8/R6K w - - 0 1", &zobrist_table);
    assert!(check_can_win(game.bit_position().bit_boards_white_and_black().bit_board_white()));
    assert!(!check_can_win(game.bit_position().bit_boards_white_and_black().bit_board_black()));
    let mut stat_eval = StatEval::default();
    let (score, _) = evaluate_position(&game, &mut stat_eval, true);
    let (score_without_bonus, _) = evaluate_position(&game, &mut stat_eval, false);
    assert_eq!(score, score_without_bonus + 100000);
    assert!(score_without_bonus >= 5000);
    assert!(is_final(&game));
    let start = game_of(FEN_START_POSITION, &zobrist_table);
    assert!(!is_final(&start));
}

#[test]
fn test_find_max_takes_last_lowest() {
    let m = BitBoardMove::new(Color::White, TypePiece::Rook, BitIndex::new(0), BitIndex::new(1), None, None);
    let v = vec![
        BitboardMoveScore::new(m, Score::new(3, 0, 0), "a".to_string()),
        BitboardMoveScore::new(m, Score::new(-2, 0, 0), "b".to_string()),
        BitboardMoveScore::new(m, Score::new(5, 0, 0), "c".to_string()),
        BitboardMoveScore::new(m, Score::new(-2, 0, 0), "d".to_string()),
    ];
    assert_eq!(find_max(&v).unwrap().get_variant(), "d");
    assert!(find_max(&[]).is_none());
}

#[test]
fn test_transposition_table_replacement() {
    let m = BitBoardMove::new(Color::White, TypePiece::Rook, BitIndex::new(0), BitIndex::new(1), None, None);
    let mut table = TranspositionScore::new();
    let hash = ZobristHash(42);
    table.set_move_info(&hash, &BitboardMoveScore::new(m, Score::new(7, 1, 4), "x".to_string()), BoundScore::Exact, 3);
    assert_eq!(table.get_move_info(&hash, 3).unwrap().move_score().score().value(), 7);
    assert!(table.get_move_info(&hash, 4).is_none());
    // a score over a path no longer than the stored one replaces it
    table.set_move_info(&hash, &BitboardMoveScore::new(m, Score::new(9, 1, 2), "y".to_string()), BoundScore::Exact, 3);
    assert_eq!(table.get_move_info(&hash, 0).unwrap().move_score().score().value(), 9);
    // a score over a longer path leaves the stored one
    table.set_move_info(&hash, &BitboardMoveScore::new(m, Score::new(11, 0, 5), "z".to_string()), BoundScore::Exact, 3);
    assert_eq!(table.get_move_info(&hash, 0).unwrap().move_score().score().value(), 9);
    table.clear();
    assert!(table.get_move_info(&hash, 0).is_none());
}

#[test]
fn test_killer_moves() {
    let m1 = BitBoardMove::new(Color::White, TypePiece::Rook, BitIndex::new(0), BitIndex::new(1), None, None);
    let m2 = BitBoardMove::new(Color::White, TypePiece::Rook, BitIndex::new(0), BitIndex::new(2), None, None);
    let m3 = BitBoardMove::new(Color::White, TypePiece::Rook, BitIndex::new(0), BitIndex::new(3), None, None);
    let mut state = SearchState::new();
    assert!(!state.is_killer_move(3, m1));
    state.add_killer_move(3, m1);
    assert!(state.is_killer_move(3, m1));
    assert!(!state.is_killer_move(4, m1));
    state.add_killer_move(3, m1);
    state.add_killer_move(3, m2);
    assert!(state.is_killer_move(3, m1) && state.is_killer_move(3, m2));
    state.add_killer_move(3, m3);
    assert!(!state.is_killer_move(3, m1));
    assert!(state.is_killer_move(3, m2) && state.is_killer_move(3, m3));
}

#[test]
fn test_time_allocation() {
    assert_eq!(compute_allocate_time_in_sec(60000, 5), 5);
    assert_eq!(compute_allocate_time_in_sec(100000, 300), 5);
    assert_eq!(compute_allocate_time_in_sec(100000, 20), 1);
    assert_eq!(compute_allocate_time_in_sec(1_000_000, 120), 20);
    let zobrist_table = Zobrist::new();
    let game = game_of(FEN_START_POSITION, &zobrist_table);
    assert_eq!(estimate_time_allocation(None, &game), None);
    assert_eq!(estimate_time_allocation(Some(60000), &game), Some(Duration::from_secs(5)));
}

#[test]
fn test_stat_eval_counters() {
    let mut stat_eval = StatEval::default();
    assert_eq!(stat_eval.inc_n_positions_evaluated(), 1);
    assert_eq!(stat_eval.inc_n_transposition_hit(), 1);
    assert_eq!(stat_eval.inc_n_check(4), 4);
    stat_eval.reset_n_positions_evaluated();
    assert_eq!(stat_eval.n_positions_evaluated(), 0);
    assert_eq!(stat_eval.n_transposition_hit(), 1);
}

fn all_features(on: bool) -> chess_actix::config::AlphabetaFeatureConf {
    chess_actix::config::AlphabetaFeatureConf {
        f_null_move_pruning: on,
        f_transposition_table: on,
        f_preorder: on,
        f_lmr: on,
        f_killer_move: on,
        f_capture_horizon: on,
        f_check_horizon: on,
        f_cannot_win_force_null: on,
    }
}

#[test]
fn test_alphabeta_plays_the_mate() {
    let zobrist_table = Zobrist::new();
    let game = game_of("6k1/8/6K1/8/8/8/8/R7 w - - 0 1", &zobrist_table);
    let engine = EngineAlphaBeta::new(Zobrist::new(), 1, true, all_features(true));
    let is_stop = Arc::new(AtomicBool::new(false));
    let best = engine.alphabeta(&game, &SilentListener, &is_stop).unwrap();
    assert_eq!(best.start(), BitIndex::new(0));
    assert_eq!(best.end(), BitIndex::new(56));
}

#[test]
fn test_alphabeta_gives_a_legal_move() {
    let zobrist_table = Zobrist::new();
    let game = game_of(FEN_START_POSITION, &zobrist_table);
    let is_stop = Arc::new(AtomicBool::new(false));
    for on in [true, false] {
        let engine = EngineAlphaBeta::new(Zobrist::new(), 1, false, all_features(on));
        let best = engine.alphabeta(&game, &SilentListener, &is_stop).unwrap();
        assert!(game.gen_moves().contains(&best));
    }
}

#[test]
fn test_alphabeta_stopped_gives_first_move() {
    let zobrist_table = Zobrist::new();
    let game = game_of(FEN_START_POSITION, &zobrist_table);
    let is_stop = Arc::new(AtomicBool::new(true));
    let engine = EngineAlphaBeta::new(Zobrist::new(), 2, false, all_features(true));
    let best = engine.alphabeta(&game, &SilentListener, &is_stop).unwrap();
    assert_eq!(best, game.gen_moves()[0]);
}

#[test]
fn test_iddfs_gives_a_legal_move() {
    let zobrist_table = Zobrist::new();
    let game = game_of(FEN_START_POSITION, &zobrist_table);
    let is_stop = Arc::new(AtomicBool::new(false));
    let features = IddfsFeatureConf { f_mat_solver: false, f_aspiration_window: true };
    let engine = EngineIddfs::new(Zobrist::new(), 1, features, all_features(true));
    let best = engine.iddfs_init(&game, &SilentListener, &is_stop).unwrap();
    assert!(game.gen_moves().contains(&best));
}

#[test]
fn test_minimax_gives_a_legal_move() {
    let zobrist_table = Zobrist::new();
    let game = game_of(FEN_START_POSITION, &zobrist_table);
    let engine = EngineMinimax::new(Zobrist::new(), 1, true);
    let chunks = engine.prepare_tree_level_1(&game, 3).unwrap();
    assert_eq!(chunks.len(), 4);
    assert_eq!(chunks[0].len(), 6);
    assert_eq!(chunks[3].len(), 2);
    let best = engine.minimax(&game, 3, &SilentListener).unwrap();
    assert!(game.gen_moves().contains(&best));
    let m = game.gen_moves()[0];
    let results = vec![(m, Score::new(1, 0, 0)), (m, Score::new(4, 0, 0)), (m, Score::new(4, 1, 1))];
    assert_eq!(merge_best_move_per_branch(&results), Some((m, Score::new(4, 0, 0))));
    assert_eq!(merge_best_move_per_branch(&vec![]), None);
}

#[test]
fn test_config_texts() {
    assert_eq!(MatConfig::new(12).to_text(), "max_depth: 12\n");
    let features = IddfsFeatureConf { f_mat_solver: true, f_aspiration_window: false };
    assert_eq!(features.to_text(), "f_mat_solver: true\nf_aspiration_window: false\n");
}
