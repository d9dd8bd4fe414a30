pub mod bits;
pub mod square;
pub mod coord;

pub mod bitboard;
pub mod table;
pub mod piece_move;
pub mod bitboards;
pub mod bitboard_move;
pub mod board;
pub mod status;
pub mod fen;
pub mod text;
pub mod position;
pub mod gen_moves;
pub mod san;
pub mod game;
pub mod zobrist;
pub mod long_notation;
pub mod game_state;
pub mod score;
pub mod control;
pub mod stat_eval;
pub mod evaluation;
pub mod search_state;
pub mod time_allocation;
pub mod config;
pub mod engine_mat;
pub mod engine_alphabeta;
pub mod engine_iddfs;
pub mod engine_minimax;
pub mod history;
pub mod mcts;
pub mod fen_round_trip;
pub mod scoring;
