//! The alpha-beta engine: a depth-limited minimax search with alpha-beta
//! cuts, moves searched in a promising order, a table of scores already
//! computed, killer moves, and a look further at captures and checks at the
//! last ply.
use vstd::prelude::*;
use std::sync::atomic::AtomicBool;
use std::sync::Arc;
use crate::bitboard_move::BitBoardMove;
use crate::config::AlphabetaFeatureConf;
use crate::engine_mat::{
    extended_variant, extend_variant, play_move, play_result, take_back, turn_ready, EngineMat, SearchError,
};
use crate::bitboard::BitIndex;
use crate::position::{moved_position, BitPosition};
use crate::zobrist::{position_hash, ZobristHash};
use crate::evaluation::{
    dynamic_score, end_game_value, evaluate_position, handle_end_game_scenario, is_final, position_value, HALF_PAWN,
};
use crate::game_state::{end_game_of, position_moves, EndGame, GameState};
use crate::gen_moves::side_ready_check;
use crate::score::{
    path_len, biased_capture, depths_ok, piece_value, preorder_compare, BitboardMoveScore, BoundScore, MoveStatus,
    PreOrder, Score, TranspositionEntry, TranspositionScore, SCORE_MAT_BLACK, SCORE_MAT_WHITE,
};
use crate::piece_move::check_status_of;
use crate::search_state::{SearchState, MAX_DEPTH};
use crate::square::{opposite, Color, TypePiece};
use crate::stat_eval::{lemma_counted_block, StatEval};
use crate::text::chars_to_string;
use crate::zobrist::Zobrist;

verus! {

/// Whether the search was asked to stop; another thread sets the flag.
fn stop_requested(is_stop: &Arc<AtomicBool>) -> bool {
    is_stop.load(std::sync::atomic::Ordering::Relaxed)
}

/// Where a search sends what it finds while it runs.
pub trait SearchListener {
    /// A better move at the root.
    fn send_best_move(&self, best_move: BitBoardMove);

    /// The count of positions evaluated, once per report period.
    fn send_stat(&self, n_positions_evaluated: u64);
}

/// A listener that drops what it is sent.
pub struct SilentListener;

impl SearchListener for SilentListener {
    fn send_best_move(&self, best_move: BitBoardMove) {
    }

    fn send_stat(&self, n_positions_evaluated: u64) {
    }
}

/// The killer moves of each ply: two per ply, the newer first.
pub type Killers = Seq<(Option<BitBoardMove>, Option<BitBoardMove>)>;

/// The scores a table holds, by position hash (what the search reads of it).
pub open spec fn tt_scores(t: Map<u64, TranspositionEntry>) -> Map<u64, Score> {
    Map::new(|h: u64| t.contains_key(h), |h: u64| t[h].move_score.score)
}

/// `m` is one of the two killer moves of ply `d`.
pub open spec fn killer_in(ks: Killers, d: int, m: BitBoardMove) -> bool {
    ks[d].0 == Some(m) || ks[d].1 == Some(m)
}

/// The killer moves after `m` cut the search at ply `d`: it becomes the newer
/// one, the older one dropped, unless it already is the newer one.
pub open spec fn killers_added(ks: Killers, d: int, m: BitBoardMove) -> Killers {
    if ks[d].0 == Some(m) {
        ks
    } else {
        ks.update(d, (Some(m), ks[d].0))
    }
}

/// The scores after storing `score` for hash `h`: the entry stays when it was
/// searched over a longer path, or over the same path from a lower depth.
pub open spec fn scores_stored(ts: Map<u64, Score>, h: u64, score: Score) -> Map<u64, Score> {
    if ts.contains_key(h) && (path_len(ts[h]) < path_len(score) || (path_len(ts[h]) == path_len(score)
        && ts[h].current_depth < score.current_depth)) {
        ts
    } else {
        ts.insert(h, score)
    }
}

/// The moves and reasons of a list of moves being searched.
pub open spec fn moves_and_reasons(s: Seq<(MoveStatus, PreOrder)>) -> Seq<(BitBoardMove, PreOrder)> {
    s.map_values(|x: (MoveStatus, PreOrder)| (x.0.b_move, x.1))
}

/// Where the sort puts an item of reason `po` in `s`, looking from position
/// `k` back: before every item that comes after it in the search order.
pub open spec fn insert_pos(s: Seq<(BitBoardMove, PreOrder)>, po: PreOrder, is_asc: bool, k: int) -> int
    decreases k,
{
    if k > 0 && after_in_search(s[k - 1].1, po, is_asc) {
        insert_pos(s, po, is_asc, k - 1)
    } else {
        k
    }
}

/// The first `n` items of `items` sorted by the search order, each inserted
/// after those it does not come before.
pub open spec fn sorted_prefix(items: Seq<(BitBoardMove, PreOrder)>, is_asc: bool, n: int) -> Seq<(BitBoardMove, PreOrder)>
    decreases n,
{
    if n <= 0 {
        Seq::empty()
    } else {
        let s = sorted_prefix(items, is_asc, n - 1);
        s.insert(insert_pos(s, items[n - 1].1, is_asc, s.len() as int), items[n - 1])
    }
}

/// The length of a sorted prefix.
proof fn lemma_sorted_prefix_len(items: Seq<(BitBoardMove, PreOrder)>, is_asc: bool, n: int)
    requires
        0 <= n <= items.len(),
    ensures
        sorted_prefix(items, is_asc, n).len() == n,
    decreases n,
{
    if n > 0 {
        lemma_sorted_prefix_len(items, is_asc, n - 1);
        lemma_insert_pos_range(sorted_prefix(items, is_asc, n - 1), items[n - 1].1, is_asc, n - 1);
    }
}

/// The position found is between zero and `k`.
proof fn lemma_insert_pos_range(s: Seq<(BitBoardMove, PreOrder)>, po: PreOrder, is_asc: bool, k: int)
    requires
        0 <= k,
    ensures
        0 <= insert_pos(s, po, is_asc, k) <= k,
    decreases k,
{
    if k > 0 && after_in_search(s[k - 1].1, po, is_asc) {
        lemma_insert_pos_range(s, po, is_asc, k - 1);
    }
}

/// The reason a move is searched early (see `PreOrder`): a promotion, a
/// killer move, a check, a capture (worth more when it takes back on the
/// square of the last move), else nothing special.
pub open spec fn preorder_of(m: BitBoardMove, last_move_opt: Option<BitBoardMove>, is_check: bool, is_killer_move: bool) -> PreOrder {
    match m.promotion {
        Some(promotion) => PreOrder::Promotion(promotion),
        None => if is_killer_move {
            PreOrder::KillerMove
        } else if is_check {
            PreOrder::SearchMat { defender_color: opposite(m.color) }
        } else if m.capture is Some {
            let delta = piece_value(m.capture->0) - piece_value(m.type_piece) + 1;
            PreOrder::Capture {
                delta: (if last_move_opt matches Some(last) && last.end == m.end {
                    delta * 2 + 1
                } else {
                    delta
                }) as i32,
            }
        } else {
            PreOrder::Depth
        },
    }
}

/// The captures on square `sq` among the first `n` moves of `ms`, in order.
pub open spec fn capture_moves(ms: Seq<BitBoardMove>, sq: BitIndex, n: int) -> Seq<BitBoardMove>
    decreases n,
{
    if n <= 0 {
        Seq::empty()
    } else {
        let m = ms[n - 1];
        let before = capture_moves(ms, sq, n - 1);
        if m.capture is Some && m.end == sq {
            before.push(m)
        } else {
            before
        }
    }
}

/// The score kept after a capture scored `score` (its captures back giving
/// `so`): the first score is kept; later, a better score for the side to move
/// replaces the kept one by `so`.
pub open spec fn capture_keep(score: Score, so: Option<Score>, best: Option<Score>, is_max: bool) -> Option<Score> {
    match best {
        Some(b) => if (is_max && score.value > b.value) || (!is_max && score.value < b.value) {
            so
        } else {
            best
        },
        None => Some(score),
    }
}

/// The alpha-beta engine: its keys, its depth in plies, the mate solver it
/// tries first, whether it reports better moves of the defending side, and
/// its refinements.
pub struct EngineAlphaBeta {
    pub id_number: String,
    pub zobrist_table: Zobrist,
    pub max_depth: u8,
    pub engine_mat_solver: EngineMat,
    pub is_send_best_move: bool,
    pub features: AlphabetaFeatureConf,
}

impl EngineAlphaBeta {
    /// The keys are complete and the depth is within the killer move table.
    pub open spec fn wf(&self) -> bool {
        &&& self.zobrist_table.wf()
        &&& self.engine_mat_solver.wf()
        &&& self.max_depth < MAX_DEPTH
    }

    /// The best score of the captures back on `sq` from `p` (hashes met `h`),
    /// at ply `d` of a search going to `md`, the side to move maximizing when
    /// `is_max`; `None` when there is no such capture.
    #[verifier::opaque]
    pub open spec fn capture_value(
        &self,
        p: BitPosition,
        h: Seq<ZobristHash>,
        d: u8,
        md: u8,
        sq: BitIndex,
        is_max: bool,
    ) -> Result<Option<Score>, SearchError>
        decreases 255 - d, 2int, 0int,
    {
        if !turn_ready(p) {
            Err(SearchError::SideNotReady)
        } else {
            let all = position_moves(p);
            self.capture_fold(p, h, d, md, sq, is_max, capture_moves(all, sq, all.len() as int), 0, None)
        }
    }

    /// The captures `caps` from the `i`-th on, `best` the score kept so far:
    /// each capture is scored by the captures back after it, or by the
    /// evaluation when there is none; a better score replaces the kept one by
    /// the score found below it (possibly none).
    #[verifier::opaque]
    pub open spec fn capture_fold(
        &self,
        p: BitPosition,
        h: Seq<ZobristHash>,
        d: u8,
        md: u8,
        sq: BitIndex,
        is_max: bool,
        caps: Seq<BitBoardMove>,
        i: int,
        best: Option<Score>,
    ) -> Result<Option<Score>, SearchError>
        decreases 255 - d, 1int, caps.len() - i,
    {
        if i < 0 || i >= caps.len() {
            Ok(best)
        } else {
            match self.capture_step(p, h, d, md, sq, is_max, caps[i], best) {
                Err(e) => Err(e),
                Ok(nb) => self.capture_fold(p, h, d, md, sq, is_max, caps, i + 1, nb),
            }
        }
    }

    /// The score kept after capture `m` from `p`, `best` the one kept before:
    /// the capture is scored by the captures back after it, or by the
    /// evaluation when there is none (see `capture_keep`).
    #[verifier::opaque]
    pub open spec fn capture_step(
        &self,
        p: BitPosition,
        h: Seq<ZobristHash>,
        d: u8,
        md: u8,
        sq: BitIndex,
        is_max: bool,
        m: BitBoardMove,
        best: Option<Score>,
    ) -> Result<Option<Score>, SearchError>
        decreases 255 - d, 0int, 0int,
    {
        match play_result(p, m) {
            Err(e) => Err(e),
            Ok(b2) => {
                let q = moved_position(p, b2);
                let h2 = h.push(ZobristHash(position_hash(self.zobrist_table, q)));
                if !turn_ready(q) {
                    Err(SearchError::SideNotReady)
                } else if md == 255 || d == 255 {
                    Err(SearchError::DepthLimit)
                } else {
                    match self.capture_value(q, h2, (d + 1) as u8, (md + 1) as u8, sq, !is_max) {
                        Err(e) => Err(e),
                        Ok(so) => Ok(capture_keep(self.capture_score(q, so, d, md), so, best, is_max)),
                    }
                }
            },
        }
    }

    /// The search from `p` (hashes met `h`) at ply `d` towards ply `md` meets
    /// no obstacle: the ply is below the limit of 64, the side to move can be
    /// searched and has a move, and every move, searched to `md` or one ply
    /// less, meets none (see `move_clean`).
    pub open spec fn search_clean(&self, p: BitPosition, h: Seq<ZobristHash>, d: int, md: int) -> bool
        decreases 64 - d, 2int,
    {
        &&& 0 <= d < 64
        &&& turn_ready(p)
        &&& position_moves(p).len() > 0
        &&& forall|m: BitBoardMove|
            #![trigger position_moves(p).contains(m)]
            position_moves(p).contains(m) ==> {
                &&& self.move_clean(p, h, m, d, md, p.bit_position_status.spec_player_turn_white())
                &&& (md - 1 >= d ==> self.move_clean(
                    p,
                    h,
                    m,
                    d,
                    md - 1,
                    p.bit_position_status.spec_player_turn_white(),
                ))
            }
    }

    /// Playing `m` from `p` at ply `d` towards ply `md` meets no obstacle: the
    /// move can be played, the side to move after it can be searched, and
    /// while the game goes on, the search below it (while plies are left) or
    /// at the last ply the captures back on its end square and the search one
    /// ply further after a check (when captures are looked at) meet none.
    pub open spec fn move_clean(&self, p: BitPosition, h: Seq<ZobristHash>, m: BitBoardMove, d: int, md: int, is_max: bool) -> bool
        decreases 64 - d, 1int,
    {
        match play_result(p, m) {
            Err(_) => false,
            Ok(b2) => {
                let q = moved_position(p, b2);
                let h2 = h.push(ZobristHash(position_hash(self.zobrist_table, q)));
                &&& turn_ready(q)
                &&& 0 <= d < 64
                &&& d <= md < 255
                &&& end_game_of(
                    q,
                    h2,
                    check_status_of(q.bit_position_status.spec_player_turn(), q.bit_boards_white_and_black),
                    position_moves(q).len() == 0,
                ) == EndGame::Ongoing ==> {
                    &&& (d < md ==> d + 1 < 64 && self.search_clean(q, h2, d + 1, md))
                    &&& (d == md && self.features.f_capture_horizon && m.capture is Some ==> self.capture_value(
                        q,
                        h2,
                        d as u8,
                        md as u8,
                        m.end,
                        !is_max,
                    ) is Ok)
                    &&& (d == md && self.features.f_capture_horizon && !(check_status_of(
                        q.bit_position_status.spec_player_turn(),
                        q.bit_boards_white_and_black,
                    ) is NoCheck) ==> d + 1 < 64 && self.search_clean(q, h2, d + 1, md + 1))
                }
            },
        }
    }

    /// What `m` scores from `p` (hashes met `h`) at ply `d` towards ply `md`
    /// when the table holds no score for the position it leads to and no
    /// deeper search is needed; `None` when a search below it decides. An
    /// unplayable move, or a side to move after it that cannot be searched,
    /// gives its error; the end of the game gives its score; at the last ply,
    /// unless a check is searched one ply further, the best capture back on
    /// the end square (when captures are looked at), else the evaluation.
    pub open spec fn move_leaf(&self, p: BitPosition, h: Seq<ZobristHash>, m: BitBoardMove, d: u8, md: u8, is_max: bool) -> Option<
        Result<Score, SearchError>,
    > {
        match play_result(p, m) {
            Err(e) => Some(Err(e)),
            Ok(b2) => {
                let q = moved_position(p, b2);
                let h2 = h.push(ZobristHash(position_hash(self.zobrist_table, q)));
                let check = check_status_of(q.bit_position_status.spec_player_turn(), q.bit_boards_white_and_black);
                let eg = end_game_of(q, h2, check, position_moves(q).len() == 0);
                if !turn_ready(q) {
                    Some(Err(SearchError::SideNotReady))
                } else if eg != EndGame::Ongoing {
                    Some(Ok(Score { value: end_game_value(eg), current_depth: d, max_depth: md }))
                } else if d < md || (self.features.f_capture_horizon && !(check is NoCheck)) {
                    None
                } else if self.features.f_capture_horizon && m.capture is Some {
                    match self.capture_value(q, h2, d, md, m.end, !is_max) {
                        Err(e) => Some(Err(e)),
                        Ok(so) => Some(Ok(self.capture_score(q, so, d, md))),
                    }
                } else {
                    Some(Ok(self.capture_score(q, None, d, md)))
                }
            },
        }
    }

    /// The score of a capture leading to `q`: the best score of the captures
    /// back, or the evaluation of `q` when there is none.
    pub open spec fn capture_score(&self, q: BitPosition, so: Option<Score>, d: u8, md: u8) -> Score {
        match so {
            Some(sc) => sc,
            None => Score {
                value: position_value(q, dynamic_score(q), self.features.f_cannot_win_force_null) as i32,
                current_depth: d,
                max_depth: md,
            },
        }
    }

    /// One step of `capture_fold`: the capture `caps[i]` played.
    proof fn lemma_capture_fold_step(
        &self,
        p: BitPosition,
        h: Seq<ZobristHash>,
        d: u8,
        md: u8,
        sq: BitIndex,
        is_max: bool,
        caps: Seq<BitBoardMove>,
        i: int,
        best: Option<Score>,
    )
        requires
            0 <= i < caps.len(),
        ensures
            self.capture_fold(p, h, d, md, sq, is_max, caps, i, best) == match self.capture_step(
                p,
                h,
                d,
                md,
                sq,
                is_max,
                caps[i],
                best,
            ) {
                Err(e) => Err(e),
                Ok(nb) => self.capture_fold(p, h, d, md, sq, is_max, caps, i + 1, nb),
            },
    {
        reveal_with_fuel(EngineAlphaBeta::capture_value, 1);
        reveal_with_fuel(EngineAlphaBeta::capture_fold, 1);
        reveal_with_fuel(EngineAlphaBeta::capture_step, 1);
    }

    /// `capture_step` unfolded once.
    proof fn lemma_capture_step_unfold(
        &self,
        p: BitPosition,
        h: Seq<ZobristHash>,
        d: u8,
        md: u8,
        sq: BitIndex,
        is_max: bool,
        m: BitBoardMove,
        best: Option<Score>,
    )
        ensures
            self.capture_step(p, h, d, md, sq, is_max, m, best) == match play_result(p, m) {
                Err(e) => Err(e),
                Ok(b2) => {
                    let q = moved_position(p, b2);
                    let h2 = h.push(ZobristHash(position_hash(self.zobrist_table, q)));
                    if !turn_ready(q) {
                        Err(SearchError::SideNotReady)
                    } else if md == 255 || d == 255 {
                        Err(SearchError::DepthLimit)
                    } else {
                        match self.capture_value(q, h2, (d + 1) as u8, (md + 1) as u8, sq, !is_max) {
                            Err(e) => Err(e),
                            Ok(so) => Ok(capture_keep(self.capture_score(q, so, d, md), so, best, is_max)),
                        }
                    }
                },
            },
    {
        reveal_with_fuel(EngineAlphaBeta::capture_value, 1);
        reveal_with_fuel(EngineAlphaBeta::capture_fold, 1);
        reveal_with_fuel(EngineAlphaBeta::capture_step, 1);
    }

    /// `capture_fold` past the last capture gives the score kept.
    proof fn lemma_capture_fold_end(
        &self,
        p: BitPosition,
        h: Seq<ZobristHash>,
        d: u8,
        md: u8,
        sq: BitIndex,
        is_max: bool,
        caps: Seq<BitBoardMove>,
        best: Option<Score>,
    )
        ensures
            self.capture_fold(p, h, d, md, sq, is_max, caps, caps.len() as int, best) == Ok::<Option<Score>, SearchError>(best),
    {
        reveal_with_fuel(EngineAlphaBeta::capture_value, 1);
        reveal_with_fuel(EngineAlphaBeta::capture_fold, 1);
        reveal_with_fuel(EngineAlphaBeta::capture_step, 1);
    }

    /// `capture_value` unfolded once.
    proof fn lemma_capture_value_unfold(&self, p: BitPosition, h: Seq<ZobristHash>, d: u8, md: u8, sq: BitIndex, is_max: bool)
        ensures
            self.capture_value(p, h, d, md, sq, is_max) == if !turn_ready(p) {
                Err(SearchError::SideNotReady)
            } else {
                let all = position_moves(p);
                self.capture_fold(p, h, d, md, sq, is_max, capture_moves(all, sq, all.len() as int), 0, None)
            },
    {
        reveal_with_fuel(EngineAlphaBeta::capture_value, 1);
        reveal_with_fuel(EngineAlphaBeta::capture_fold, 1);
        reveal_with_fuel(EngineAlphaBeta::capture_step, 1);
    }

    /// An engine searching `max_depth` moves of its side, that is
    /// `2 * max_depth - 1` plies, with a mate solver of the same depth.
    pub fn new(zobrist_table: Zobrist, max_depth: u8, is_send_best_move: bool, features: AlphabetaFeatureConf) -> (r: Self)
        requires
            zobrist_table.wf(),
            1 <= max_depth <= 32,
        ensures
            r.wf(),
            r.max_depth == 2 * max_depth - 1,
            r.engine_mat_solver.max_depth == 2 * max_depth - 1,
            r.is_send_best_move == is_send_best_move,
            r.features == features,
            r.id_number@ == Seq::<char>::empty(),
    {
        let mat_zobrist = zobrist_table.copy();
        EngineAlphaBeta {
            id_number: String::new(),
            zobrist_table,
            max_depth: max_depth * 2 - 1,
            engine_mat_solver: EngineMat::new(mat_zobrist, max_depth),
            is_send_best_move,
            features,
        }
    }

    pub fn set_id_number(&mut self, id_number: &str)
        ensures
            final(self).id_number@ == id_number@,
            final(self).zobrist_table == old(self).zobrist_table,
            final(self).max_depth == old(self).max_depth,
            final(self).engine_mat_solver == old(self).engine_mat_solver,
            final(self).is_send_best_move == old(self).is_send_best_move,
            final(self).features == old(self).features,
    {
        self.id_number = id_number.to_string();
    }

    /// Why move `m` is searched early (see `preorder_of`).
    fn set_preorder(m: &BitBoardMove, last_move_opt: Option<&BitBoardMove>, is_check: bool, is_killer_move: bool) -> (r: PreOrder)
        ensures
            r == preorder_of(
                *m,
                match last_move_opt {
                    Some(l) => Some(*l),
                    None => None,
                },
                is_check,
                is_killer_move,
            ),
    {
        if let Some(promotion) = m.promotion() {
            return PreOrder::Promotion(promotion);
        }
        match (is_killer_move, is_check, m.capture().is_some()) {
            (true, _, _) => PreOrder::KillerMove,
            (_, true, _) => PreOrder::new_mat(match m.color() {
                Color::White => Color::Black,
                Color::Black => Color::White,
            }),
            (_, _, true) => {
                let mut delta = biased_capture(m.type_piece(), m.capture());
                if let Some(last_move) = last_move_opt {
                    if m.end() == last_move.end() {
                        delta = delta * 2 + 1;
                    }
                }
                PreOrder::Capture { delta }
            },
            _ => PreOrder::Depth,
        }
    }

    /// The gap between the two bounds, when both are set.
    fn diff_opt(beta_opt: Option<i32>, alpha_opt: Option<i32>) -> (r: Option<i32>)
        requires
            beta_opt matches Some(beta) && alpha_opt matches Some(alpha) ==> i32::MIN <= beta - alpha <= i32::MAX,
        ensures
            r == match (beta_opt, alpha_opt) {
                (Some(beta), Some(alpha)) => Some((beta - alpha) as i32),
                _ => None,
            },
    {
        match (beta_opt, alpha_opt) {
            (Some(beta), Some(alpha)) => Some(beta - alpha),
            _ => None,
        }
    }

    /// A null move may be tried: the pruning is on, the move captures
    /// nothing, the side maximizes and minimizes at once (which never holds),
    /// the bounds are half a pawn apart, and the search is deep enough.
    fn can_null_move(
        &self,
        game: &GameState,
        current_depth: u8,
        max_depth: u8,
        m: &BitBoardMove,
        alpha_opt: Option<i32>,
        beta_opt: Option<i32>,
        is_max: bool,
    ) -> (r: bool)
        ensures
            !r,
    {
        self.features.f_null_move_pruning && m.capture().is_none() && is_max && beta_opt.is_some() && !is_max
            && alpha_opt.is_some() && Self::diff_opt(beta_opt, alpha_opt).unwrap_or(0) >= HALF_PAWN
            && current_depth >= 2 && max_depth - current_depth > 3 && !game.check_status().is_check()
            && !is_final(game)
    }

    /// The search stops at this ply: at the last ply, or once the game is
    /// over.
    fn goal_is_reached(is_max_depth: bool, end_game: EndGame) -> (r: bool)
        ensures
            r == (end_game != EndGame::Ongoing || is_max_depth),
    {
        if end_game == EndGame::Ongoing {
            is_max_depth
        } else {
            true
        }
    }
}

/// `a` is searched after `b` (see `preorder_order`).
pub open spec fn after_in_search(a: PreOrder, b: PreOrder, is_asc: bool) -> bool {
    crate::score::preorder_order(a, b, is_asc) is Greater
}

/// No move of `s` is searched after a move that follows it.
pub open spec fn in_search_order(s: Seq<(MoveStatus, PreOrder)>, is_asc: bool) -> bool {
    forall|i: int, j: int| 0 <= i < j < s.len() ==> !after_in_search(#[trigger] s[i].1, #[trigger] s[j].1, is_asc)
}

/// No reason of `s` is `LastMove`, which the search never gives.
pub open spec fn reasons_given(s: Seq<(MoveStatus, PreOrder)>) -> bool {
    forall|k: int| 0 <= k < s.len() ==> !(#[trigger] s[k].1 is LastMove)
}

/// Each entry of `v` is a move of `moves` with the reason `ps` gives it.
pub open spec fn paired_with_reasons(v: Seq<(MoveStatus, PreOrder)>, moves: Seq<BitBoardMove>, ps: Seq<PreOrder>) -> bool {
    forall|k: int|
        0 <= k < v.len() ==> exists|j: int| 0 <= j < moves.len() && (#[trigger] v[k]).0.b_move == moves[j] && v[k].1 == ps[j]
}

/// `a` comes after `b` in the search order.
fn comes_after(a: &PreOrder, b: &PreOrder, is_asc: bool) -> (r: bool)
    ensures
        r == after_in_search(*a, *b, is_asc),
{
    match preorder_compare(a, b, is_asc) {
        std::cmp::Ordering::Greater => true,
        _ => false,
    }
}

/// Inserting `x` at `k` in a list in search order keeps it in order when `x`
/// comes no earlier than the move before `k` and before every move from `k`
/// on.
proof fn lemma_insert_in_search_order(s: Seq<(MoveStatus, PreOrder)>, k: int, x: (MoveStatus, PreOrder), is_asc: bool)
    requires
        in_search_order(s, is_asc),
        reasons_given(s),
        !(x.1 is LastMove),
        0 <= k <= s.len(),
        k > 0 ==> !after_in_search(s[k - 1].1, x.1, is_asc),
        forall|j: int| k <= j < s.len() ==> after_in_search(#[trigger] s[j].1, x.1, is_asc),
    ensures
        in_search_order(s.insert(k, x), is_asc),
        reasons_given(s.insert(k, x)),
{
    let t = s.insert(k, x);
    assert forall|i: int, j: int| 0 <= i < j < t.len() implies !after_in_search(#[trigger] t[i].1, #[trigger] t[j].1, is_asc) by {
        if j < k {
            assert(t[i] == s[i] && t[j] == s[j]);
        } else if j == k {
            assert(t[i] == s[i] && t[j] == x);
            if i < k - 1 {
                assert(!after_in_search(s[i].1, s[k - 1].1, is_asc));
                crate::score::lemma_preorder_transitive(s[i].1, s[k - 1].1, x.1, is_asc);
            }
        } else if i == k {
            assert(t[i] == x && t[j] == s[j - 1]);
            assert(after_in_search(s[j - 1].1, x.1, is_asc));
            crate::score::lemma_preorder_antisymmetric(s[j - 1].1, x.1, is_asc);
        } else if i < k {
            assert(t[i] == s[i] && t[j] == s[j - 1]);
        } else {
            assert(t[i] == s[i - 1] && t[j] == s[j - 1]);
        }
    }
    assert forall|j: int| 0 <= j < t.len() implies !(#[trigger] t[j].1 is LastMove) by {
        if j < k {
            assert(t[j] == s[j]);
        } else if j > k {
            assert(t[j] == s[j - 1]);
        }
    }
}

/// The moves with their reasons, sorted by reason (see `preorder_order`),
/// stably: each move goes after those it does not come before. The result
/// holds the items given, and, when no reason is `LastMove`, in search order.
fn sort_by_preorder(items: Vec<(MoveStatus, PreOrder)>, is_asc: bool) -> (r: Vec<(MoveStatus, PreOrder)>)
    ensures
        r@.to_multiset() == items@.to_multiset(),
        reasons_given(items@) ==> in_search_order(r@, is_asc),
        moves_and_reasons(r@) == sorted_prefix(moves_and_reasons(items@), is_asc, items@.len() as int),
{
    broadcast use vstd::seq_lib::group_to_multiset_ensures, vstd::multiset::group_multiset_axioms;

    let ghost given = reasons_given(items@);
    let ghost all = items@;
    let ghost mut j: int = 0;
    let mut sorted: Vec<(MoveStatus, PreOrder)> = Vec::new();
    let mut rest = items;
    proof {
        assert(all.subrange(0, all.len() as int) =~= all);
        assert(moves_and_reasons(sorted@) =~= Seq::<(BitBoardMove, PreOrder)>::empty());
    }
    while rest.len() > 0
        invariant
            sorted@.to_multiset().add(rest@.to_multiset()) == all.to_multiset(),
            all == items@,
            given == reasons_given(all),
            given ==> reasons_given(rest@) && reasons_given(sorted@) && in_search_order(sorted@, is_asc),
            0 <= j <= all.len(),
            rest@ == all.subrange(j, all.len() as int),
            moves_and_reasons(sorted@) == sorted_prefix(moves_and_reasons(all), is_asc, j),
        decreases rest@.len(),
    {
        let ghost rest0 = rest@;
        let x = rest.remove(0);
        proof {
            assert(x == rest0[0]);
            assert(x == all[j]);
            assert(rest@ == rest0.remove(0));
            assert(rest@ =~= all.subrange(j + 1, all.len() as int));
            vstd::seq_lib::to_multiset_remove(rest0, 0);
            assert(rest0.contains(x));
            vstd::seq_lib::to_multiset_contains(rest0, x);
            assert(rest0.to_multiset().count(x) > 0);
            if given {
                assert forall|k: int| 0 <= k < rest@.len() implies !(#[trigger] rest@[k].1 is LastMove) by {
                    assert(rest@[k] == rest0[k + 1]);
                }
                assert(!(rest0[0].1 is LastMove));
            }
        }
        let ghost ms = moves_and_reasons(sorted@);
        let mut k: usize = sorted.len();
        while k > 0 && comes_after(&sorted[k - 1].1, &x.1, is_asc)
            invariant
                k <= sorted@.len(),
                ms == moves_and_reasons(sorted@),
                forall|j: int| k <= j < sorted@.len() ==> after_in_search(#[trigger] sorted@[j].1, x.1, is_asc),
                insert_pos(ms, x.1, is_asc, sorted@.len() as int) == insert_pos(ms, x.1, is_asc, k as int),
            decreases k,
        {
            assert(ms[k - 1].1 == sorted@[k - 1].1);
            k = k - 1;
        }
        proof {
            if k > 0 {
                assert(ms[k - 1].1 == sorted@[k - 1].1);
            }
            assert(insert_pos(ms, x.1, is_asc, k as int) == k);
        }
        let ghost before = sorted@;
        sorted.insert(k, x);
        proof {
            assert(sorted@ == before.insert(k as int, x));
            assert(moves_and_reasons(sorted@) =~= ms.insert(k as int, (x.0.b_move, x.1)));
            assert(moves_and_reasons(all)[j] == (x.0.b_move, x.1));
            j = j + 1;
            if given {
                lemma_insert_in_search_order(before, k as int, x, is_asc);
            }
            vstd::seq_lib::to_multiset_insert(before, k as int, x);
            assert(sorted@.to_multiset().add(rest@.to_multiset()) =~= items@.to_multiset());
        }
    }
    sorted
}

impl EngineAlphaBeta {
    /// Why `m` is searched early from `p` at ply `d`, given the stored scores
    /// `ts` and the killer moves `ks`: the stored score of the
    /// position after it when there is one (of the current depth or of a lower
    /// one), else the reason from the move itself (see `preorder_of`), whether
    /// it gives check and whether it is a killer move at `d`.
    pub open spec fn move_preorder(
        &self,
        p: BitPosition,
        m: BitBoardMove,
        last_move_opt: Option<BitBoardMove>,
        ts: Map<u64, Score>,
        d: u8,
        ks: Seq<(Option<BitBoardMove>, Option<BitBoardMove>)>,
    ) -> Result<PreOrder, SearchError> {
        match play_result(p, m) {
            Err(e) => Err(e),
            Ok(b2) => {
                let q = moved_position(p, b2);
                if !turn_ready(q) {
                    Err(SearchError::SideNotReady)
                } else {
                    let h = position_hash(self.zobrist_table, q);
                    if ts.contains_key(h) {
                        let s = ts[h];
                        Ok(
                            if s.current_depth == d {
                                PreOrder::CurrentDepthScore(s)
                            } else {
                                PreOrder::PreviousDepthScore(s)
                            },
                        )
                    } else {
                        Ok(
                            preorder_of(
                                m,
                                last_move_opt,
                                !(check_status_of(q.bit_position_status.spec_player_turn(), q.bit_boards_white_and_black) is NoCheck),
                                killer_in(ks, d as int, m),
                            ),
                        )
                    }
                }
            },
        }
    }

    /// The reasons of the first `n` moves of `moves` (see `move_preorder`), in
    /// order; the first error ends it.
    pub open spec fn moves_preorders(
        &self,
        p: BitPosition,
        moves: Seq<BitBoardMove>,
        last_move_opt: Option<BitBoardMove>,
        ts: Map<u64, Score>,
        d: u8,
        ks: Seq<(Option<BitBoardMove>, Option<BitBoardMove>)>,
        n: int,
    ) -> Result<Seq<PreOrder>, SearchError>
        decreases n,
    {
        if n <= 0 {
            Ok(Seq::empty())
        } else {
            match self.moves_preorders(p, moves, last_move_opt, ts, d, ks, n - 1) {
                Err(e) => Err(e),
                Ok(v) => match self.move_preorder(p, moves[n - 1], last_move_opt, ts, d, ks) {
                    Err(e) => Err(e),
                    Ok(po) => Ok(v.push(po)),
                },
            }
        }
    }

    /// The moves of `moves` with their reasons, in the order the search takes
    /// them: sorted by reason (ascending scores when `is_asc`) when moves are
    /// preordered, else as given with no reason; the first move without a
    /// reason gives its error.
    pub open spec fn search_order(
        &self,
        p: BitPosition,
        moves: Seq<BitBoardMove>,
        last_move_opt: Option<BitBoardMove>,
        ts: Map<u64, Score>,
        d: u8,
        ks: Killers,
        is_asc: bool,
    ) -> Result<Seq<(BitBoardMove, PreOrder)>, SearchError> {
        if !self.features.f_preorder {
            Ok(moves.map_values(|m: BitBoardMove| (m, PreOrder::Depth)))
        } else {
            match self.moves_preorders(p, moves, last_move_opt, ts, d, ks, moves.len() as int) {
                Err(e) => Err(e),
                Ok(ps) => Ok(
                    sorted_prefix(
                        Seq::new(moves.len(), |i: int| (moves[i], ps[i])),
                        is_asc,
                        moves.len() as int,
                    ),
                ),
            }
        }
    }

    /// When every move has a reason, the reasons of the moves are found.
    proof fn lemma_moves_preorders_ok(
        &self,
        p: BitPosition,
        moves: Seq<BitBoardMove>,
        last_move_opt: Option<BitBoardMove>,
        ts: Map<u64, Score>,
        d: u8,
        ks: Seq<(Option<BitBoardMove>, Option<BitBoardMove>)>,
        n: int,
    )
        requires
            0 <= n <= moves.len(),
            forall|k: int| 0 <= k < n ==> (#[trigger] self.move_preorder(p, moves[k], last_move_opt, ts, d, ks)) is Ok,
        ensures
            self.moves_preorders(p, moves, last_move_opt, ts, d, ks, n) is Ok,
        decreases n,
    {
        if n > 0 {
            self.lemma_moves_preorders_ok(p, moves, last_move_opt, ts, d, ks, n - 1);
            assert(self.move_preorder(p, moves[n - 1], last_move_opt, ts, d, ks) is Ok);
        }
    }

    /// Once a reason cannot be found, the reasons of more moves cannot either.
    proof fn lemma_moves_preorders_err(
        &self,
        p: BitPosition,
        moves: Seq<BitBoardMove>,
        last_move_opt: Option<BitBoardMove>,
        ts: Map<u64, Score>,
        d: u8,
        ks: Seq<(Option<BitBoardMove>, Option<BitBoardMove>)>,
        i: int,
        n: int,
    )
        requires
            0 <= i <= n,
            self.moves_preorders(p, moves, last_move_opt, ts, d, ks, i) is Err,
        ensures
            self.moves_preorders(p, moves, last_move_opt, ts, d, ks, n) == self.moves_preorders(
                p,
                moves,
                last_move_opt,
                ts,
                d,
                ks,
                i,
            ),
        decreases n - i,
    {
        if n > i {
            self.lemma_moves_preorders_err(p, moves, last_move_opt, ts, d, ks, i, n - 1);
        }
    }
}

impl EngineAlphaBeta {
    /// Why `m` is searched early: its stored score when the table holds one
    /// (of the current depth or of a lower one), else the reason from the
    /// move itself. The game comes back as it was.
    fn preorder_of_move(
        &self,
        m: BitBoardMove,
        last_move_opt: Option<BitBoardMove>,
        game: &mut GameState,
        transposition_table: &TranspositionScore,
        current_depth: u8,
        state: &SearchState,
    ) -> (r: Result<PreOrder, SearchError>)
        requires
            self.wf(),
            transposition_table.wf(),
            state.wf(),
            current_depth < MAX_DEPTH,
        ensures
            r == self.move_preorder(
                old(game).bit_position,
                m,
                last_move_opt,
                tt_scores(transposition_table.table@),
                current_depth,
                state.killer_moves@,
            ),
            r matches Ok(po) ==> !(po is LastMove),
            final(game).bit_position == old(game).bit_position,
            final(game).hash_positions.hashes@ == old(game).hash_positions.hashes@,
            final(game).backup@ == old(game).backup@,
    {
        let ghost p = game.bit_position;
        let b2 = match play_move(game, m, &self.zobrist_table) {
            Err(e) => {
                return Err(e);
            },
            Ok(b2) => b2,
        };
        let turn = game.bit_position().bit_position_status().player_turn();
        if !side_ready_check(game.bit_position().bit_boards_white_and_black(), &turn) {
            take_back(game, Ghost(p), Ghost(b2));
            return Err(SearchError::SideNotReady);
        }
        game.update_endgame_status();
        let move_info_opt = transposition_table.get_move_info(&game.last_hash(), 0);
        let preorder = match move_info_opt {
            Some(move_info) => {
                let score = move_info.move_score.score;
                if score.current_depth == current_depth {
                    PreOrder::CurrentDepthScore(score)
                } else {
                    PreOrder::PreviousDepthScore(score)
                }
            },
            None => {
                let is_check = game.check_status().is_check();
                let is_killer_move = state.is_killer_move(current_depth as usize, m);
                let last_ref = match &last_move_opt {
                    Some(last) => Some(last),
                    None => None,
                };
                Self::set_preorder(&m, last_ref, is_check, is_killer_move)
            },
        };
        take_back(game, Ghost(p), Ghost(b2));
        Ok(preorder)
    }

    /// The moves with the reason each is searched early, in search order
    /// (ascending scores when `is_asc`); without preordering, in the order
    /// given with no reason. The game comes back as it was.
    fn get_moves_preordered(
        &self,
        moves: &Vec<BitBoardMove>,
        last_move_opt: Option<BitBoardMove>,
        game: &mut GameState,
        transposition_table: &TranspositionScore,
        is_asc: bool,
        current_depth: u8,
        state: &SearchState,
    ) -> (r: Result<Vec<(MoveStatus, PreOrder)>, SearchError>)
        requires
            self.wf(),
            transposition_table.wf(),
            state.wf(),
            current_depth < MAX_DEPTH,
        ensures
            r matches Ok(v) ==> v@.len() == moves@.len() && forall|k: int|
                0 <= k < v@.len() ==> moves@.contains(#[trigger] v@[k].0.b_move),
            r matches Ok(v) ==> self.features.f_preorder ==> in_search_order(v@, is_asc),
            r matches Ok(v) ==> !self.features.f_preorder ==> forall|k: int|
                0 <= k < v@.len() ==> (#[trigger] v@[k]).0.b_move == moves@[k] && v@[k].1 == PreOrder::Depth,
            !self.features.f_preorder ==> r is Ok,
            (forall|k: int|
                0 <= k < moves@.len() ==> (#[trigger] self.move_preorder(
                    old(game).bit_position,
                    moves@[k],
                    last_move_opt,
                    tt_scores(transposition_table.table@),
                    current_depth,
                    state.killer_moves@,
                )) is Ok) ==> r is Ok,
            self.features.f_preorder ==> match self.moves_preorders(
                old(game).bit_position,
                moves@,
                last_move_opt,
                tt_scores(transposition_table.table@),
                current_depth,
                state.killer_moves@,
                moves@.len() as int,
            ) {
                Err(e) => r == Err::<Vec<(MoveStatus, PreOrder)>, SearchError>(e),
                Ok(ps) => r matches Ok(v) && paired_with_reasons(v@, moves@, ps),
            },
            match self.search_order(
                old(game).bit_position,
                moves@,
                last_move_opt,
                tt_scores(transposition_table.table@),
                current_depth,
                state.killer_moves@,
                is_asc,
            ) {
                Err(e) => r == Err::<Vec<(MoveStatus, PreOrder)>, SearchError>(e),
                Ok(l) => r matches Ok(v) && moves_and_reasons(v@) == l,
            },
            final(game).bit_position == old(game).bit_position,
            final(game).hash_positions.hashes@ == old(game).hash_positions.hashes@,
            final(game).backup@ == old(game).backup@,
    {
        let ghost p = game.bit_position;
        let mut moves_status_with_preorder: Vec<(MoveStatus, PreOrder)> = Vec::new();
        assert(moves_status_with_preorder@.map_values(|x: (MoveStatus, PreOrder)| x.1) =~= Seq::<PreOrder>::empty());
        let mut i: usize = 0;
        while i < moves.len()
            invariant
                self.wf(),
                transposition_table.wf(),
                state.wf(),
                current_depth < MAX_DEPTH,
                i <= moves@.len(),
                moves_status_with_preorder@.len() == i,
                forall|k: int| 0 <= k < i ==> (#[trigger] moves_status_with_preorder@[k]).0.b_move == moves@[k],
                reasons_given(moves_status_with_preorder@),
                !self.features.f_preorder ==> forall|k: int|
                    0 <= k < i ==> (#[trigger] moves_status_with_preorder@[k]).1 == PreOrder::Depth,
                game.bit_position == p,
                p == old(game).bit_position,
                game.hash_positions.hashes@ == old(game).hash_positions.hashes@,
                game.backup@ == old(game).backup@,
                self.features.f_preorder ==> self.moves_preorders(
                    p,
                    moves@,
                    last_move_opt,
                    tt_scores(transposition_table.table@),
                    current_depth,
                    state.killer_moves@,
                    i as int,
                ) == Ok::<Seq<PreOrder>, SearchError>(
                    moves_status_with_preorder@.map_values(|x: (MoveStatus, PreOrder)| x.1),
                ),
            decreases moves@.len() - i,
        {
            let m = moves[i];
            let ghost before = moves_status_with_preorder@;
            let preorder = if !self.features.f_preorder {
                PreOrder::Depth
            } else {
                match self.preorder_of_move(m, last_move_opt, game, transposition_table, current_depth, state) {
                    Err(e) => {
                        proof {
                            self.lemma_moves_preorders_err(
                                p,
                                moves@,
                                last_move_opt,
                                tt_scores(transposition_table.table@),
                                current_depth,
                                state.killer_moves@,
                                i + 1,
                                moves@.len() as int,
                            );
                        }
                        return Err(e);
                    },
                    Ok(preorder) => preorder,
                }
            };
            moves_status_with_preorder.push((MoveStatus::from_move(m), preorder));
            proof {
                assert(moves_status_with_preorder@.map_values(|x: (MoveStatus, PreOrder)| x.1) =~= before.map_values(
                    |x: (MoveStatus, PreOrder)| x.1,
                ).push(preorder));
            }
            i = i + 1;
        }
        assert forall|k: int| 0 <= k < moves_status_with_preorder@.len() implies moves@.contains(
            #[trigger] moves_status_with_preorder@[k].0.b_move,
        ) by {
            assert(moves_status_with_preorder@[k].0.b_move == moves@[k]);
        }
        if !self.features.f_preorder {
            proof {
                assert(moves_and_reasons(moves_status_with_preorder@) =~= moves@.map_values(
                    |m: BitBoardMove| (m, PreOrder::Depth),
                ));
            }
            return Ok(moves_status_with_preorder);
        }
        proof {
            if forall|k: int|
                0 <= k < moves@.len() ==> (#[trigger] self.move_preorder(
                    p,
                    moves@[k],
                    last_move_opt,
                    tt_scores(transposition_table.table@),
                    current_depth,
                    state.killer_moves@,
                )) is Ok {
                self.lemma_moves_preorders_ok(
                    p,
                    moves@,
                    last_move_opt,
                    tt_scores(transposition_table.table@),
                    current_depth,
                    state.killer_moves@,
                    moves@.len() as int,
                );
            }
        }
        let sorted = sort_by_preorder(moves_status_with_preorder, is_asc);
        proof {
            let items = moves_status_with_preorder@;
            vstd::seq_lib::to_multiset_len(items);
            vstd::seq_lib::to_multiset_len(sorted@);
            assert forall|k: int| 0 <= k < sorted@.len() implies moves@.contains(#[trigger] sorted@[k].0.b_move) by {
                assert(sorted@.contains(sorted@[k]));
                vstd::seq_lib::to_multiset_contains(sorted@, sorted@[k]);
                vstd::seq_lib::to_multiset_contains(items, sorted@[k]);
                let j = choose|j: int| 0 <= j < items.len() && items[j] == sorted@[k];
                assert(items[j].0.b_move == moves@[j]);
            }
            let ps = items.map_values(|x: (MoveStatus, PreOrder)| x.1);
            let rs = self.moves_preorders(
                p,
                moves@,
                last_move_opt,
                tt_scores(transposition_table.table@),
                current_depth,
                state.killer_moves@,
                moves@.len() as int,
            );
            assert(rs == Ok::<Seq<PreOrder>, SearchError>(ps));
            let ps2 = match rs {
                Ok(x) => x,
                Err(_) => Seq::empty(),
            };
            assert(ps2 == ps);
            assert forall|k: int| 0 <= k < sorted@.len() implies exists|j: int|
                0 <= j < moves@.len() && (#[trigger] sorted@[k]).0.b_move == moves@[j] && sorted@[k].1 == ps2[j] by {
                assert(sorted@.contains(sorted@[k]));
                vstd::seq_lib::to_multiset_contains(sorted@, sorted@[k]);
                vstd::seq_lib::to_multiset_contains(items, sorted@[k]);
                let j = choose|j: int| 0 <= j < items.len() && items[j] == sorted@[k];
                assert(items[j].0.b_move == moves@[j] && ps[j] == items[j].1 && ps2[j] == ps[j]);
            }
            assert(paired_with_reasons(sorted@, moves@, ps2));
            assert(moves_and_reasons(items) =~= Seq::new(moves@.len(), |i: int| (moves@[i], ps2[i])));
        }
        Ok(sorted)
    }
}

impl EngineAlphaBeta {
    /// Scores the position of `game` (see `evaluate_position`), the refinement
    /// on who can still win as configured; the count of positions evaluated
    /// goes to the listener when it is due.
    fn evaluate<L: SearchListener>(&self, game: &GameState, stat_eval: &mut StatEval, listener: &L, Ghost(top): Ghost<int>) -> (r: i32)
        requires
            old(stat_eval).n_positions_evaluated / 5000 <= top,
            (top + 1) * 5000 < u64::MAX,
        ensures
            r == position_value(game.bit_position, dynamic_score(game.bit_position), self.features.f_cannot_win_force_null),
            final(stat_eval).n_positions_evaluated / 5000 <= top,
            final(stat_eval).n_transposition_hit == old(stat_eval).n_transposition_hit,
    {
        proof {
            lemma_counted_block(stat_eval.n_positions_evaluated);
        }
        let (score, report) = evaluate_position(game, stat_eval, self.features.f_cannot_win_force_null);
        if let Some(n) = report {
            listener.send_stat(n);
        }
        score
    }

    /// The best score of the captures back on `square_capture`, each side in
    /// turn, one ply deeper each time; `None` when there is no such capture.
    /// The game comes back as it was.
    fn evalutate_capture<L: SearchListener>(
        &self,
        variant: &Vec<char>,
        game: &mut GameState,
        current_depth: u8,
        max_depth: u8,
        listener: &L,
        stat_eval: &mut StatEval,
        square_capture: crate::bitboard::BitIndex,
        is_max: bool,
        Ghost(top): Ghost<int>,
    ) -> (r: Result<Option<Score>, SearchError>)
        requires
            self.wf(),
            current_depth <= max_depth,
            old(stat_eval).n_positions_evaluated / 5000 <= top,
            (top + 1) * 5000 < u64::MAX,
        ensures
            r == self.capture_value(
                old(game).bit_position,
                old(game).hash_positions.hashes@,
                current_depth,
                max_depth,
                square_capture,
                is_max,
            ),
            r matches Ok(Some(s)) ==> depths_ok(s),
            final(stat_eval).n_positions_evaluated / 5000 <= top,
            final(stat_eval).n_transposition_hit == old(stat_eval).n_transposition_hit,
            final(game).bit_position == old(game).bit_position,
            final(game).hash_positions.hashes@ == old(game).hash_positions.hashes@,
            final(game).backup@ == old(game).backup@,
        decreases 255 - current_depth, 1int,
    {
        let ghost p = game.bit_position;
        let ghost h = game.hash_positions.hashes@;
        let ghost cv = self.capture_value(p, h, current_depth, max_depth, square_capture, is_max);
        let turn = game.bit_position().bit_position_status().player_turn();
        if !side_ready_check(game.bit_position().bit_boards_white_and_black(), &turn) {
            proof {
                self.lemma_capture_value_unfold(p, h, current_depth, max_depth, square_capture, is_max);
            }
            return Err(SearchError::SideNotReady);
        }
        let all = game.gen_moves();
        let mut captures: Vec<BitBoardMove> = Vec::new();
        let mut j: usize = 0;
        while j < all.len()
            invariant
                j <= all@.len(),
                captures@ == capture_moves(all@, square_capture, j as int),
            decreases all@.len() - j,
        {
            let m = all[j];
            if m.capture().is_some() && m.end() == square_capture {
                captures.push(m);
            }
            j = j + 1;
        }
        proof {
            self.lemma_capture_value_unfold(p, h, current_depth, max_depth, square_capture, is_max);
        }
        let mut best_score_opt: Option<Score> = None;
        let mut i: usize = 0;
        while i < captures.len()
            invariant
                self.wf(),
                current_depth <= max_depth,
                (top + 1) * 5000 < u64::MAX,
                stat_eval.n_positions_evaluated / 5000 <= top,
                stat_eval.n_transposition_hit == old(stat_eval).n_transposition_hit,
                best_score_opt matches Some(s) ==> depths_ok(s),
                game.bit_position == p,
                p == old(game).bit_position,
                h == old(game).hash_positions.hashes@,
                game.hash_positions.hashes@ == old(game).hash_positions.hashes@,
                game.backup@ == old(game).backup@,
                i <= captures@.len(),
                cv == self.capture_value(p, h, current_depth, max_depth, square_capture, is_max),
                cv == self.capture_fold(p, h, current_depth, max_depth, square_capture, is_max, captures@, i as int, best_score_opt),
            decreases captures@.len() - i,
        {
            proof {
                self.lemma_capture_fold_step(p, h, current_depth, max_depth, square_capture, is_max, captures@, i as int, best_score_opt);
            }
            match self.capture_one(variant, game, current_depth, max_depth, listener, stat_eval, square_capture, is_max, captures[i], best_score_opt, Ghost(top)) {
                Err(e) => {
                    return Err(e);
                },
                Ok(nb) => {
                    best_score_opt = nb;
                },
            }
            i = i + 1;
        }
        proof {
            self.lemma_capture_fold_end(p, h, current_depth, max_depth, square_capture, is_max, captures@, best_score_opt);
        }
        Ok(best_score_opt)
    }

    /// Plays capture `m`, scores it by the captures back after it (or by the
    /// evaluation when there is none) and gives the score kept, `best` the
    /// one kept before. The game comes back as it was.
    #[verifier::spinoff_prover]
    #[verifier::rlimit(40)]
    fn capture_one<L: SearchListener>(
        &self,
        variant: &Vec<char>,
        game: &mut GameState,
        current_depth: u8,
        max_depth: u8,
        listener: &L,
        stat_eval: &mut StatEval,
        square_capture: crate::bitboard::BitIndex,
        is_max: bool,
        m: BitBoardMove,
        best: Option<Score>,
        Ghost(top): Ghost<int>,
    ) -> (r: Result<Option<Score>, SearchError>)
        requires
            self.wf(),
            current_depth <= max_depth,
            best matches Some(s) ==> depths_ok(s),
            old(stat_eval).n_positions_evaluated / 5000 <= top,
            (top + 1) * 5000 < u64::MAX,
        ensures
            r == self.capture_step(
                old(game).bit_position,
                old(game).hash_positions.hashes@,
                current_depth,
                max_depth,
                square_capture,
                is_max,
                m,
                best,
            ),
            r matches Ok(Some(s)) ==> depths_ok(s),
            final(stat_eval).n_positions_evaluated / 5000 <= top,
            final(stat_eval).n_transposition_hit == old(stat_eval).n_transposition_hit,
            final(game).bit_position == old(game).bit_position,
            final(game).hash_positions.hashes@ == old(game).hash_positions.hashes@,
            final(game).backup@ == old(game).backup@,
        decreases 255 - current_depth, 0int,
    {
        let ghost p = game.bit_position;
        let ghost h = game.hash_positions.hashes@;
        proof {
            self.lemma_capture_step_unfold(p, h, current_depth, max_depth, square_capture, is_max, m, best);
        }
        let b2 = match play_move(game, m, &self.zobrist_table) {
            Err(e) => {
                return Err(e);
            },
            Ok(b2) => b2,
        };
        let updated_variant = extended_variant(variant, m);
        let turn = game.bit_position().bit_position_status().player_turn();
        if !side_ready_check(game.bit_position().bit_boards_white_and_black(), &turn) {
            take_back(game, Ghost(p), Ghost(b2));
            return Err(SearchError::SideNotReady);
        }
        game.update_endgame_status();
        if max_depth == 255 {
            take_back(game, Ghost(p), Ghost(b2));
            return Err(SearchError::DepthLimit);
        }
        let score_opt = match self.evalutate_capture(
            &updated_variant,
            game,
            current_depth + 1,
            max_depth + 1,
            listener,
            stat_eval,
            square_capture,
            !is_max,
            Ghost(top),
        ) {
            Err(e) => {
                take_back(game, Ghost(p), Ghost(b2));
                return Err(e);
            },
            Ok(score_opt) => score_opt,
        };
        let score = match score_opt {
            Some(sc) => sc,
            None => Score::new(self.evaluate(game, stat_eval, listener, Ghost(top)), current_depth, max_depth),
        };
        let mut best_score_opt = best;
        match best_score_opt {
            Some(best_score) => {
                if is_max && score.value() > best_score.value() || !is_max && score.value() < best_score.value() {
                    best_score_opt = score_opt;
                }
            },
            None => best_score_opt = Some(score),
        }
        take_back(game, Ghost(p), Ghost(b2));
        Ok(best_score_opt)
    }
}

impl EngineAlphaBeta {
    /// Plays `m` and scores it: the stored score when the table holds one
    /// searched deep enough; one ply deeper while plies are left; at the last
    /// ply, the best capture back on the end square or a check searched one
    /// ply further (when captures are looked at), else the evaluation, which
    /// is stored; the end of the game, scored. The game comes back as it was.
    #[verifier::spinoff_prover]
    #[verifier::rlimit(80)]
    fn process_move<L: SearchListener>(
        &self,
        game: &mut GameState,
        m: BitBoardMove,
        alpha_opt: Option<i32>,
        beta_opt: Option<i32>,
        variant: &Vec<char>,
        listener: &L,
        stat_eval: &mut StatEval,
        current_depth: u8,
        max_depth: u8,
        is_max: bool,
        transposition_table: &mut TranspositionScore,
        state: &mut SearchState,
        is_stop: &Arc<AtomicBool>,
        Ghost(top): Ghost<int>,
    ) -> (r: Result<Score, SearchError>)
        requires
            self.wf(),
            old(transposition_table).wf(),
            old(state).wf(),
            current_depth <= max_depth,
            current_depth < MAX_DEPTH,
            old(stat_eval).n_positions_evaluated / 5000 <= top,
            (top + 1) * 5000 < u64::MAX,
        ensures
            play_result(old(game).bit_position, m) matches Err(e) ==> r == Err::<Score, SearchError>(e),
            play_result(old(game).bit_position, m) matches Ok(b2) ==> ({
                let h = position_hash(self.zobrist_table, moved_position(old(game).bit_position, b2));
                let t = old(transposition_table).table@;
                t.contains_key(h) && path_len(t[h].move_score.score) >= max_depth - current_depth ==> r == Ok::<Score, SearchError>(
                    t[h].move_score.score,
                )
            }),
            play_result(old(game).bit_position, m) matches Ok(b2) ==> ({
                let h = position_hash(self.zobrist_table, moved_position(old(game).bit_position, b2));
                let t = old(transposition_table).table@;
                !(t.contains_key(h) && path_len(t[h].move_score.score) >= max_depth - current_depth) ==> (self.move_leaf(
                    old(game).bit_position,
                    old(game).hash_positions.hashes@,
                    m,
                    current_depth,
                    max_depth,
                    is_max,
                ) matches Some(x) ==> r == x)
            }),
            r matches Ok(s) ==> depths_ok(s),
            self.move_clean(
                old(game).bit_position,
                old(game).hash_positions.hashes@,
                m,
                current_depth as int,
                max_depth as int,
                is_max,
            ) ==> r is Ok,
            final(transposition_table).wf(),
            final(state).wf(),
            final(stat_eval).n_positions_evaluated / 5000 <= top,
            final(game).bit_position == old(game).bit_position,
            final(game).hash_positions.hashes@ == old(game).hash_positions.hashes@,
            final(game).backup@ == old(game).backup@,
        decreases 255 - current_depth, 1int,
    {
        let ghost p = game.bit_position;
        let b2 = match play_move(game, m, &self.zobrist_table) {
            Err(e) => {
                return Err(e);
            },
            Ok(b2) => b2,
        };
        let hash = game.last_hash();
        if let Some(move_info) = transposition_table.get_move_info(&hash, max_depth - current_depth) {
            stat_eval.inc_n_transposition_hit();
            take_back(game, Ghost(p), Ghost(b2));
            return Ok(move_info.move_score.score);
        }
        let turn = game.bit_position().bit_position_status().player_turn();
        if !side_ready_check(game.bit_position().bit_boards_white_and_black(), &turn) {
            take_back(game, Ghost(p), Ghost(b2));
            return Err(SearchError::SideNotReady);
        }
        game.update_endgame_status();
        let score = if game.end_game() == EndGame::Ongoing {
            if !Self::goal_is_reached(current_depth >= max_depth, game.end_game()) {
                if self.can_null_move(game, current_depth, max_depth, &m, alpha_opt, beta_opt, is_max) {
                    game.play_null_move(&self.zobrist_table);
                    if game.can_move() {
                        let reduction = 2 + (max_depth - current_depth) / 6;
                        let null_depth = max_depth - reduction;
                        let score_after_null_move = match self.alphabeta_inc_rec(
                            variant,
                            game,
                            None,
                            current_depth + 1,
                            null_depth,
                            alpha_opt,
                            beta_opt,
                            listener,
                            stat_eval,
                            transposition_table,
                            state,
                            is_stop,
                            Ghost(top),
                        ) {
                            Err(e) => {
                                return Err(e);
                            },
                            Ok(s) => s,
                        };
                        game.play_back_null_move();
                        if is_max && score_after_null_move.score.value >= beta_opt.unwrap() {
                            take_back(game, Ghost(p), Ghost(b2));
                            return Ok(Score::new(beta_opt.unwrap(), current_depth, max_depth));
                        } else if !is_max && score_after_null_move.score.value <= alpha_opt.unwrap() {
                            take_back(game, Ghost(p), Ghost(b2));
                            return Ok(Score::new(alpha_opt.unwrap(), current_depth, max_depth));
                        }
                    } else {
                        game.play_back_null_move();
                    }
                }
                let best_move_score = match self.alphabeta_inc_rec(
                    variant,
                    game,
                    Some(m),
                    current_depth + 1,
                    max_depth,
                    alpha_opt,
                    beta_opt,
                    listener,
                    stat_eval,
                    transposition_table,
                    state,
                    is_stop,
                    Ghost(top),
                ) {
                    Err(e) => {
                        take_back(game, Ghost(p), Ghost(b2));
                        return Err(e);
                    },
                    Ok(s) => s,
                };
                Score::new(best_move_score.score.value, current_depth, max_depth)
            } else {
                let mut score_opt: Option<Score> = None;
                if self.features.f_capture_horizon && current_depth == max_depth && m.capture().is_some() {
                    match self.evalutate_capture(
                        variant,
                        game,
                        current_depth,
                        max_depth,
                        listener,
                        stat_eval,
                        m.end(),
                        !is_max,
                        Ghost(top),
                    ) {
                        Err(e) => {
                            take_back(game, Ghost(p), Ghost(b2));
                            return Err(e);
                        },
                        Ok(Some(s)) => {
                            score_opt = Some(s);
                        },
                        Ok(None) => {},
                    }
                }
                if self.features.f_capture_horizon && current_depth == max_depth && game.check_status().is_check() {
                    let found = match self.alphabeta_inc_rec(
                        variant,
                        game,
                        Some(m),
                        current_depth + 1,
                        max_depth + 1,
                        alpha_opt,
                        beta_opt,
                        listener,
                        stat_eval,
                        transposition_table,
                        state,
                        is_stop,
                        Ghost(top),
                    ) {
                        Err(e) => {
                            take_back(game, Ghost(p), Ghost(b2));
                            return Err(e);
                        },
                        Ok(s) => s,
                    };
                    score_opt = Some(found.score);
                }
                let score = match score_opt {
                    Some(s) => s,
                    None => Score::new(self.evaluate(game, stat_eval, listener, Ghost(top)), current_depth, max_depth),
                };
                let n_half_moves = game.bit_position().bit_position_status().n_half_moves();
                transposition_table.set_move_info(
                    &hash,
                    &BitboardMoveScore::new(m, score, chars_to_string(variant)),
                    BoundScore::Exact,
                    n_half_moves,
                );
                score
            }
        } else {
            handle_end_game_scenario(game, current_depth, max_depth)
        };
        take_back(game, Ghost(p), Ghost(b2));
        Ok(score)
    }

    /// The best move of the side to move of `game` and its score, searched
    /// from ply `current_depth` to ply `max_depth` within the bounds
    /// `alpha_opt` and `beta_opt` (White maximizes, Black minimizes): a move
    /// that reaches a bound cuts the search and becomes a killer move; the
    /// result is stored when the search of the position is complete. A stop
    /// request gives the first move with a zero score. The game comes back as
    /// it was, and the move is a legal move of its position.
    #[verifier::spinoff_prover]
    pub fn alphabeta_inc_rec<L: SearchListener>(
        &self,
        variant: &Vec<char>,
        game: &mut GameState,
        last_move_opt: Option<BitBoardMove>,
        current_depth: u8,
        max_depth: u8,
        alpha_opt: Option<i32>,
        beta_opt: Option<i32>,
        listener: &L,
        stat_eval: &mut StatEval,
        transposition_table: &mut TranspositionScore,
        state: &mut SearchState,
        is_stop: &Arc<AtomicBool>,
        Ghost(top): Ghost<int>,
    ) -> (r: Result<BitboardMoveScore, SearchError>)
        requires
            self.wf(),
            old(transposition_table).wf(),
            old(state).wf(),
            current_depth <= max_depth,
            old(game).hash_positions.hashes@.len() > 0,
            old(stat_eval).n_positions_evaluated / 5000 <= top,
            (top + 1) * 5000 < u64::MAX,
        ensures
            current_depth >= 64 ==> r == Err::<BitboardMoveScore, SearchError>(SearchError::DepthLimit),
            current_depth < 64 && !turn_ready(old(game).bit_position) ==> r == Err::<BitboardMoveScore, SearchError>(
                SearchError::SideNotReady,
            ),
            r matches Ok(b) ==> position_moves(old(game).bit_position).contains(b.bitboard_move) && depths_ok(b.score),
            self.search_clean(
                old(game).bit_position,
                old(game).hash_positions.hashes@,
                current_depth as int,
                max_depth as int,
            ) ==> r is Ok,
            final(transposition_table).wf(),
            final(state).wf(),
            final(stat_eval).n_positions_evaluated / 5000 <= top,
            final(game).bit_position == old(game).bit_position,
            final(game).hash_positions.hashes@ == old(game).hash_positions.hashes@,
            final(game).backup@ == old(game).backup@,
        decreases 255 - current_depth, 2int,
    {
        if current_depth >= 64 {
            return Err(SearchError::DepthLimit);
        }
        let ghost p = game.bit_position;
        let turn = game.bit_position().bit_position_status().player_turn();
        if !side_ready_check(game.bit_position().bit_boards_white_and_black(), &turn) {
            return Err(SearchError::SideNotReady);
        }
        let moves = game.gen_moves();
        if stop_requested(is_stop) {
            if moves.len() == 0 {
                return Err(SearchError::NoMove);
            }
            assert(moves@.contains(moves@[0]));
            return Ok(BitboardMoveScore::new(moves[0], Score::new(0, 0, 0), String::new()));
        }
        let is_max = game.bit_position().bit_position_status().player_turn_white();
        proof {
            if self.search_clean(p, game.hash_positions.hashes@, current_depth as int, max_depth as int) {
                assert forall|k: int| 0 <= k < moves@.len() implies (#[trigger] self.move_preorder(
                    p,
                    moves@[k],
                    last_move_opt,
                    tt_scores(transposition_table.table@),
                    current_depth,
                    state.killer_moves@,
                )) is Ok by {
                    assert(position_moves(p).contains(moves@[k]));
                }
            }
        }
        let moves_status = match self.get_moves_preordered(
            &moves,
            last_move_opt,
            game,
            transposition_table,
            !is_max,
            current_depth,
            state,
        ) {
            Err(e) => {
                return Err(e);
            },
            Ok(v) => v,
        };
        let mut alpha_opt = alpha_opt;
        let mut beta_opt = beta_opt;
        let mut best_move_score_opt: Option<BitboardMoveScore> = None;
        let mut idx: usize = 0;
        while idx < moves_status.len()
            invariant
                self.wf(),
                transposition_table.wf(),
                state.wf(),
                current_depth <= max_depth,
                current_depth < MAX_DEPTH,
                (top + 1) * 5000 < u64::MAX,
                stat_eval.n_positions_evaluated / 5000 <= top,
                moves@ == position_moves(p),
                p == old(game).bit_position,
                game.bit_position == p,
                game.ready(),
                game.hash_positions.hashes@ == old(game).hash_positions.hashes@,
                game.backup@ == old(game).backup@,
                forall|k: int| 0 <= k < moves_status@.len() ==> moves@.contains(#[trigger] moves_status@[k].0.b_move),
                best_move_score_opt matches Some(b) ==> moves@.contains(b.bitboard_move) && depths_ok(b.score),
                moves_status@.len() == moves@.len(),
                self.search_clean(p, old(game).hash_positions.hashes@, current_depth as int, max_depth as int) ==> (
                idx > 0 ==> best_move_score_opt is Some),
                is_max == p.bit_position_status.spec_player_turn_white(),
            ensures
                self.search_clean(p, old(game).hash_positions.hashes@, current_depth as int, max_depth as int) ==> idx > 0,
            decreases moves_status@.len() - idx,
        {
            if idx > 1 && stop_requested(is_stop) {
                break;
            }
            let m = moves_status[idx].0.b_move;
            let preorder = moves_status[idx].1;
            assert(moves@.contains(moves_status@[idx as int].0.b_move));
            if !(m.start.0 < 64 && m.end.0 < 64) {
                return Err(SearchError::Move(crate::game_state::PlayError::Unplayable(
                    crate::long_notation::LongAlgebricNotationMove::build_from_b_move(m),
                )));
            }
            let updated_variant = extended_variant(variant, m);
            let max_depth = if self.features.f_lmr && current_depth > 3 && max_depth - current_depth > 0 && idx > 2
                && !preorder.is_special() && !game.check_status().is_check() {
                max_depth - 1
            } else {
                max_depth
            };
            let score = match self.process_move(
                game,
                m,
                alpha_opt,
                beta_opt,
                &updated_variant,
                listener,
                stat_eval,
                current_depth,
                max_depth,
                is_max,
                transposition_table,
                state,
                is_stop,
                Ghost(top),
            ) {
                Err(e) => {
                    return Err(e);
                },
                Ok(s) => s,
            };
            let move_score = BitboardMoveScore::new(
                m,
                Score::new(score.value, score.current_depth, score.max_depth),
                chars_to_string(&updated_variant),
            );
            if is_max {
                let better = match &best_move_score_opt {
                    None => true,
                    Some(best) => score.is_greater_than(&best.score),
                };
                if better {
                    best_move_score_opt = Some(move_score);
                    if current_depth == 0 {
                        listener.send_best_move(m);
                    }
                }
                let best = match best_move_score_opt {
                    Some(best) => best,
                    None => {
                        return Err(SearchError::NoMove);
                    },
                };
                let best_value = best.score.value;
                let raise = match alpha_opt {
                    None => true,
                    Some(alpha) => best_value > alpha,
                };
                if raise {
                    alpha_opt = Some(best_value);
                }
                let alpha = match alpha_opt {
                    Some(alpha) => alpha,
                    None => best_value,
                };
                let cut = alpha == SCORE_MAT_WHITE || match beta_opt {
                    Some(beta) => alpha >= beta,
                    None => false,
                };
                if cut {
                    if self.features.f_killer_move {
                        state.add_killer_move(current_depth as usize, best.bitboard_move);
                    }
                    return Ok(best);
                }
                best_move_score_opt = Some(best);
            } else {
                let better = match &best_move_score_opt {
                    None => true,
                    Some(best) => score.is_less_than(&best.score),
                };
                if better {
                    best_move_score_opt = Some(move_score);
                    if current_depth == 0 && self.is_send_best_move {
                        listener.send_best_move(m);
                    }
                }
                let best = match best_move_score_opt {
                    Some(best) => best,
                    None => {
                        return Err(SearchError::NoMove);
                    },
                };
                let best_value = best.score.value;
                let lower = match beta_opt {
                    None => true,
                    Some(beta) => best_value < beta,
                };
                if lower {
                    beta_opt = Some(best_value);
                }
                let beta = match beta_opt {
                    Some(beta) => beta,
                    None => best_value,
                };
                let cut = beta == SCORE_MAT_BLACK || match alpha_opt {
                    Some(alpha) => alpha >= beta,
                    None => false,
                };
                if cut {
                    state.add_killer_move(current_depth as usize, best.bitboard_move);
                    return Ok(best);
                }
                best_move_score_opt = Some(best);
            }
            idx = idx + 1;
        }
        let best = match best_move_score_opt {
            Some(best) => best,
            None => {
                return Err(SearchError::NoMove);
            },
        };
        let hash = game.last_hash();
        if self.features.f_transposition_table {
            let n_half_moves = game.bit_position().bit_position_status().n_half_moves();
            transposition_table.set_move_info(&hash, &best, BoundScore::Exact, n_half_moves);
        }
        Ok(best)
    }
}

impl EngineAlphaBeta {
    /// The move the engine plays in `game`: the first move of a mate the
    /// solver finds, else the best move of the alpha-beta search over the
    /// engine's plies. It is a legal move of the position.
    pub fn alphabeta<L: SearchListener>(&self, game: &GameState, listener: &L, is_stop: &Arc<AtomicBool>) -> (r: Result<
        BitBoardMove,
        SearchError,
    >)
        requires
            self.wf(),
            game.hash_positions.hashes@.len() > 0,
        ensures
            r matches Ok(m) ==> position_moves(game.bit_position).contains(m),
            self.engine_mat_solver.solve(game.bit_position, game.hash_positions.hashes@, 0, true, Seq::empty(), 0).0 matches Err(
                e,
            ) ==> r == Err::<BitBoardMove, SearchError>(e),
            self.engine_mat_solver.solve(game.bit_position, game.hash_positions.hashes@, 0, true, Seq::empty(), 0).0 matches Ok(
                Some(line),
            ) ==> r == Ok::<BitBoardMove, SearchError>(line.0),
            self.engine_mat_solver.solve(game.bit_position, game.hash_positions.hashes@, 0, true, Seq::empty(), 0).0 matches Ok(
                None,
            ) && self.search_clean(game.bit_position, game.hash_positions.hashes@, 0, self.max_depth as int) ==> r is Ok,
    {
        let mut transposition_table = TranspositionScore::new();
        let mut state = SearchState::new();
        let current_depth: u8 = 0;
        let mut stat_eval = StatEval::default();
        let mut game_clone = game.copy();
        let mat_move_opt = match self.engine_mat_solver.mat_solver_init(game, self.max_depth, &mut stat_eval) {
            Err(e) => {
                return Err(e);
            },
            Ok(found) => found,
        };
        if let Some(mat_move) = mat_move_opt {
            proof {
                self.engine_mat_solver.lemma_mat_move_is_legal(
                    game.bit_position,
                    game.hash_positions.hashes@,
                    0,
                    true,
                    Seq::empty(),
                    0,
                );
            }
            return Ok(mat_move.bitboard_move);
        }
        let variant: Vec<char> = Vec::new();
        let ghost top: int = (stat_eval.n_positions_evaluated / 5000) as int;
        let b_move_score = match self.alphabeta_inc_rec(
            &variant,
            &mut game_clone,
            None,
            current_depth,
            self.max_depth,
            None,
            None,
            listener,
            &mut stat_eval,
            &mut transposition_table,
            &mut state,
            is_stop,
            Ghost(top),
        ) {
            Err(e) => {
                return Err(e);
            },
            Ok(b) => b,
        };
        Ok(b_move_score.bitboard_move)
    }
}

} // verus!
