//! The iterative deepening engine: alpha-beta searches one ply deeper each
//! time, sharing their table of scores and their killer moves, after a try of
//! the mate solver.
use vstd::prelude::*;
use std::sync::atomic::AtomicBool;
use std::sync::Arc;
use crate::bitboard_move::BitBoardMove;
use crate::config::{AlphabetaFeatureConf, IddfsFeatureConf};
use crate::engine_alphabeta::{EngineAlphaBeta, SearchListener};
use crate::engine_mat::{EngineMat, SearchError};
use crate::evaluation::HALF_PAWN;
use crate::game_state::{position_moves, GameState};
use crate::score::{depths_ok, BitboardMoveScore, TranspositionScore};
use crate::search_state::SearchState;
use crate::stat_eval::StatEval;
use crate::zobrist::Zobrist;

verus! {

/// The iterative deepening engine: its depth in plies, the alpha-beta engine
/// it runs, the mate solver it tries first, and its refinements.
pub struct EngineIddfs {
    pub id_number: String,
    pub max_depth: u8,
    pub engine_alphabeta: EngineAlphaBeta,
    pub engine_mat_solver: EngineMat,
    pub features: IddfsFeatureConf,
}

/// The score `v` of the last search fell outside the window: at or below the
/// lower bound, or at or above the upper one.
pub open spec fn window_failed(alpha_opt: Option<i32>, beta_opt: Option<i32>, v: i32) -> bool {
    (alpha_opt matches Some(a) && v <= a) || (beta_opt matches Some(b) && v >= b)
}

/// Moving the bounds that are set half a pawn away from `v` leaves the range
/// of `i32`.
pub open spec fn window_overflow(alpha_opt: Option<i32>, beta_opt: Option<i32>, v: i32) -> bool {
    (alpha_opt is Some && v < i32::MIN + HALF_PAWN) || (beta_opt is Some && v > i32::MAX - HALF_PAWN)
}

/// A bound moved to `value` when it is set.
pub open spec fn moved_bound(bound: Option<i32>, value: int) -> Option<i32> {
    match bound {
        Some(_) => Some(value as i32),
        None => None,
    }
}

/// Whether the search was asked to stop; another thread sets the flag.
fn stop_requested(is_stop: &Arc<AtomicBool>) -> bool {
    is_stop.load(std::sync::atomic::Ordering::Relaxed)
}

impl EngineIddfs {
    /// The engines are well formed and the depth stays within the alpha-beta
    /// engine's tables.
    pub open spec fn wf(&self) -> bool {
        &&& self.engine_alphabeta.wf()
        &&& self.engine_mat_solver.wf()
        &&& self.max_depth < 64
    }

    /// An engine searching up to `max_depth` moves of its side, that is
    /// `2 * max_depth - 1` plies, with a mate solver of eight moves.
    pub fn new(
        zobrist_table: Zobrist,
        max_depth: u8,
        features: IddfsFeatureConf,
        alphabeta_features: AlphabetaFeatureConf,
    ) -> (r: Self)
        requires
            zobrist_table.wf(),
            1 <= max_depth <= 32,
        ensures
            r.wf(),
            r.max_depth == 2 * max_depth - 1,
            r.features == features,
            r.engine_alphabeta.features == alphabeta_features,
            r.engine_mat_solver.max_depth == 15,
            r.id_number@ == Seq::<char>::empty(),
    {
        let alphabeta_zobrist = zobrist_table.copy();
        EngineIddfs {
            id_number: String::new(),
            max_depth: max_depth * 2 - 1,
            engine_alphabeta: EngineAlphaBeta::new(alphabeta_zobrist, max_depth, false, alphabeta_features),
            engine_mat_solver: EngineMat::new(zobrist_table, 8),
            features,
        }
    }

    pub fn set_id_number(&mut self, id_number: &str)
        ensures
            final(self).id_number@ == id_number@,
            final(self).max_depth == old(self).max_depth,
            final(self).engine_alphabeta == old(self).engine_alphabeta,
            final(self).engine_mat_solver == old(self).engine_mat_solver,
            final(self).features == old(self).features,
    {
        self.id_number = id_number.to_string();
    }

    /// When the last search fell outside its window, searches again without
    /// one; then centers the bounds that are set on the score, half a pawn
    /// away on each side. The game comes back as it was, and a legal move
    /// stays legal.
    fn aspiration_window<L: SearchListener>(
        &self,
        game: &mut GameState,
        transposition_table: &mut TranspositionScore,
        listener: &L,
        stat_eval: &mut StatEval,
        alpha_opt: &mut Option<i32>,
        beta_opt: &mut Option<i32>,
        b_move_score: &mut BitboardMoveScore,
        max_depth: u8,
        state: &mut SearchState,
        is_stop: &Arc<AtomicBool>,
        Ghost(top): Ghost<int>,
    ) -> (r: Result<(), SearchError>)
        requires
            self.wf(),
            old(transposition_table).wf(),
            old(state).wf(),
            old(game).hash_positions.hashes@.len() > 0,
            old(stat_eval).n_positions_evaluated / 5000 <= top,
            (top + 1) * 5000 < u64::MAX,
            position_moves(old(game).bit_position).contains(old(b_move_score).bitboard_move),
        ensures
            position_moves(old(game).bit_position).contains(final(b_move_score).bitboard_move),
            final(transposition_table).wf(),
            final(state).wf(),
            final(stat_eval).n_positions_evaluated / 5000 <= top,
            final(game).bit_position == old(game).bit_position,
            final(game).hash_positions.hashes@ == old(game).hash_positions.hashes@,
            final(game).backup@ == old(game).backup@,
            (*final(alpha_opt) is Some) <==> (*old(alpha_opt) is Some),
            (*final(beta_opt) is Some) <==> (*old(beta_opt) is Some),
            self.engine_alphabeta.search_clean(
                old(game).bit_position,
                old(game).hash_positions.hashes@,
                0,
                max_depth as int,
            ) ==> (r is Ok || r == Err::<(), SearchError>(SearchError::ScoreOverflow)),
            !window_failed(*old(alpha_opt), *old(beta_opt), old(b_move_score).score.value) ==> {
                &&& final(b_move_score).bitboard_move == old(b_move_score).bitboard_move
                &&& final(b_move_score).score == old(b_move_score).score
                &&& (r is Ok <==> !window_overflow(*old(alpha_opt), *old(beta_opt), old(b_move_score).score.value))
                &&& (r is Err ==> r == Err::<(), SearchError>(SearchError::ScoreOverflow))
            },
            r is Ok ==> {
                let v = final(b_move_score).score.value;
                &&& !window_overflow(*old(alpha_opt), *old(beta_opt), v)
                &&& *final(alpha_opt) == moved_bound(*old(alpha_opt), v - HALF_PAWN)
                &&& *final(beta_opt) == moved_bound(*old(beta_opt), v + HALF_PAWN)
            },
    {
        let window_aspiration = HALF_PAWN;
        let value = b_move_score.score.value;
        let below = match *alpha_opt {
            Some(alpha) => value <= alpha,
            None => false,
        };
        let above = match *beta_opt {
            Some(beta) => value >= beta,
            None => false,
        };
        if below || above {
            let variant: Vec<char> = Vec::new();
            let found = match self.engine_alphabeta.alphabeta_inc_rec(
                &variant,
                game,
                None,
                0,
                max_depth,
                None,
                None,
                listener,
                stat_eval,
                transposition_table,
                state,
                is_stop,
                Ghost(top),
            ) {
                Err(e) => {
                    return Err(e);
                },
                Ok(found) => found,
            };
            *b_move_score = found;
        }
        let value = b_move_score.score.value;
        if alpha_opt.is_some() {
            if value < i32::MIN + window_aspiration {
                return Err(SearchError::ScoreOverflow);
            }
            *alpha_opt = Some(value - window_aspiration);
        }
        if beta_opt.is_some() {
            if value > i32::MAX - window_aspiration {
                return Err(SearchError::ScoreOverflow);
            }
            *beta_opt = Some(value + window_aspiration);
        }
        Ok(())
    }

    /// The move the engine plays in `game`: the first move of a mate the
    /// solver finds (when it is on), else the move of the deepest alpha-beta
    /// search completed, one ply deeper each round until the engine's depth or
    /// a stop request. Each completed round reports its move. It is a legal
    /// move of the position. The window bounds start unset, so the aspiration
    /// window keeps each round's move as found; when neither the mate solver nor
    /// any round meets an obstacle, a move comes back unless a stop request came
    /// before the first round was done.
    pub fn iddfs_init<L: SearchListener>(&self, game: &GameState, listener: &L, is_stop: &Arc<AtomicBool>) -> (r: Result<
        BitBoardMove,
        SearchError,
    >)
        requires
            self.wf(),
            game.hash_positions.hashes@.len() > 0,
        ensures
            r matches Ok(m) ==> position_moves(game.bit_position).contains(m),
            self.features.f_mat_solver ==> (self.engine_mat_solver.solve(
                game.bit_position,
                game.hash_positions.hashes@,
                0,
                true,
                Seq::empty(),
                0,
            ).0 matches Err(e) ==> r == Err::<BitBoardMove, SearchError>(e)),
            self.features.f_mat_solver ==> (self.engine_mat_solver.solve(
                game.bit_position,
                game.hash_positions.hashes@,
                0,
                true,
                Seq::empty(),
                0,
            ).0 matches Ok(Some(line)) ==> r == Ok::<BitBoardMove, SearchError>(line.0)),
            (!self.features.f_mat_solver || self.engine_mat_solver.solve(
                game.bit_position,
                game.hash_positions.hashes@,
                0,
                true,
                Seq::empty(),
                0,
            ).0 matches Ok(None)) && (forall|k: int|
                1 <= k <= self.max_depth ==> #[trigger] self.engine_alphabeta.search_clean(
                    game.bit_position,
                    game.hash_positions.hashes@,
                    0,
                    k,
                )) ==> (r is Ok || r == Err::<BitBoardMove, SearchError>(SearchError::NoMove)),
    {
        let mut transposition_table = TranspositionScore::new();
        let mut stat_eval = StatEval::default();
        let mut state = SearchState::new();
        let mut game_clone = game.copy();
        if self.features.f_mat_solver {
            let mat_move_opt = match self.engine_mat_solver.mat_solver_init(game, self.max_depth, &mut stat_eval) {
                Err(e) => {
                    return Err(e);
                },
                Ok(found) => found,
            };
            if let Some(mat_move) = mat_move_opt {
                proof {
                    self.engine_mat_solver.lemma_mat_move_is_legal(
                        game.bit_position,
                        game.hash_positions.hashes@,
                        0,
                        true,
                        Seq::empty(),
                        0,
                    );
                }
                return Ok(mat_move.bitboard_move);
            }
        }
        let ghost top: int = (stat_eval.n_positions_evaluated / 5000) as int;
        let mut b_move_score_opt: Option<BitboardMoveScore> = None;
        let mut alpha_opt: Option<i32> = None;
        let mut beta_opt: Option<i32> = None;
        let mut max_depth: u8 = 1;
        while max_depth <= self.max_depth
            invariant
                self.wf(),
                transposition_table.wf(),
                state.wf(),
                stat_eval.n_positions_evaluated / 5000 <= top,
                (top + 1) * 5000 < u64::MAX,
                1 <= max_depth <= self.max_depth + 1,
                game_clone.bit_position == game.bit_position,
                game_clone.hash_positions.hashes@ == game.hash_positions.hashes@,
                game.hash_positions.hashes@.len() > 0,
                b_move_score_opt matches Some(b) ==> position_moves(game.bit_position).contains(b.bitboard_move),
                alpha_opt is None,
                beta_opt is None,
                self.features.f_mat_solver ==> self.engine_mat_solver.solve(
                    game.bit_position,
                    game.hash_positions.hashes@,
                    0,
                    true,
                    Seq::empty(),
                    0,
                ).0 matches Ok(None),
            decreases self.max_depth + 1 - max_depth,
        {
            if stop_requested(is_stop) {
                break;
            }
            let variant: Vec<char> = Vec::new();
            let mut b_move_score = match self.engine_alphabeta.alphabeta_inc_rec(
                &variant,
                &mut game_clone,
                None,
                0,
                max_depth,
                alpha_opt,
                beta_opt,
                listener,
                &mut stat_eval,
                &mut transposition_table,
                &mut state,
                is_stop,
                Ghost(top),
            ) {
                Err(e) => {
                    return Err(e);
                },
                Ok(b) => b,
            };
            if self.features.f_aspiration_window {
                match self.aspiration_window(
                    &mut game_clone,
                    &mut transposition_table,
                    listener,
                    &mut stat_eval,
                    &mut alpha_opt,
                    &mut beta_opt,
                    &mut b_move_score,
                    max_depth,
                    &mut state,
                    is_stop,
                    Ghost(top),
                ) {
                    Err(e) => {
                        return Err(e);
                    },
                    Ok(()) => {},
                }
            }
            listener.send_stat(stat_eval.n_positions_evaluated());
            if stop_requested(is_stop) {
                break;
            }
            listener.send_best_move(b_move_score.bitboard_move);
            b_move_score_opt = Some(b_move_score);
            max_depth = max_depth + 1;
        }
        if stop_requested(is_stop) {
            if let Some(b_move_score) = &b_move_score_opt {
                listener.send_best_move(b_move_score.bitboard_move);
            }
        }
        match b_move_score_opt {
            Some(b_move_score) => Ok(b_move_score.bitboard_move),
            None => Err(SearchError::NoMove),
        }
    }
}

} // verus!
