//! The minimax engine: every line searched to a fixed depth, the score of a
//! position being the opposite of the best score of the side to move after
//! it.
use vstd::prelude::*;
use crate::bitboard_move::BitBoardMove;
use crate::engine_alphabeta::SearchListener;
use crate::engine_mat::{extended_variant, play_move, play_result, take_back, turn_ready, SearchError};
use crate::evaluation::{dynamic_score, end_game_value, evaluate_position, handle_end_game_scenario, position_value};
use crate::game_state::{end_game_of, position_moves, EndGame, GameState};
use crate::piece_move::check_status_of;
use crate::position::{moved_position, BitPosition};
use crate::zobrist::{position_hash, ZobristHash};
use crate::gen_moves::side_ready_check;
use crate::score::{depths_ok, path_len, BitboardMoveScore, Score};
use crate::stat_eval::{lemma_counted_block, StatEval};
use crate::zobrist::Zobrist;

verus! {

/// The index of the first best score of `s` (the first one when empty).
pub open spec fn best_branch_index(s: Seq<(BitBoardMove, Score)>) -> int
    decreases s.len(),
{
    if s.len() <= 1 {
        0
    } else {
        let k = best_branch_index(s.drop_last());
        if s.last().1.value > s[k].1.value {
            s.len() - 1
        } else {
            k
        }
    }
}

/// The index of the best branch is one of the branches.
proof fn lemma_best_branch_index_range(s: Seq<(BitBoardMove, Score)>)
    requires
        s.len() > 0,
    ensures
        0 <= best_branch_index(s) < s.len(),
    decreases s.len(),
{
    if s.len() > 1 {
        lemma_best_branch_index_range(s.drop_last());
    }
}

/// The best of the moves found by each branch: the first of the highest
/// scores; `None` when there is no branch.
pub fn merge_best_move_per_branch(results: &Vec<(BitBoardMove, Score)>) -> (r: Option<(BitBoardMove, Score)>)
    ensures
        r == (if results@.len() == 0 {
            None
        } else {
            Some(results@[best_branch_index(results@)])
        }),
{
    if results.len() == 0 {
        return None;
    }
    let mut best: usize = 0;
    let mut i: usize = 1;
    while i < results.len()
        invariant
            0 <= best < i <= results@.len(),
            best == best_branch_index(results@.subrange(0, i as int)),
        decreases results@.len() - i,
    {
        let ghost prev = results@.subrange(0, i as int);
        let ghost next = results@.subrange(0, i + 1);
        assert(next.drop_last() =~= prev);
        if results[i].1.value > results[best].1.value {
            best = i;
        }
        i = i + 1;
    }
    assert(results@.subrange(0, results@.len() as int) =~= results@);
    Some(results[best])
}

/// The moves split in chunks of `chunk_size`, in order, the last one possibly
/// shorter.
pub open spec fn chunks_of(moves: Seq<BitBoardMove>, chunk_size: int, k: int) -> Seq<BitBoardMove> {
    moves.subrange(k * chunk_size, if (k + 1) * chunk_size < moves.len() { (k + 1) * chunk_size } else { moves.len() as int })
}

/// The number of moves in each chunk when `n_moves` moves are shared by
/// `num_cpus` processors: at least four.
pub open spec fn chunk_size_for(n_moves: int, num_cpus: int) -> int {
    let n = n_moves / num_cpus;
    if n <= 4 {
        4
    } else {
        n
    }
}

/// The moves split in chunks for `num_cpus` processors, in order.
pub open spec fn move_chunks(moves: Seq<BitBoardMove>, num_cpus: int) -> Seq<Seq<BitBoardMove>> {
    let cs = chunk_size_for(moves.len() as int, num_cpus);
    Seq::new((((moves.len() as int) + cs - 1) / cs) as nat, |k: int| chunks_of(moves, cs, k))
}

/// The minimax engine: its keys, its depth in plies, and whether its
/// evaluation weighs who can still win.
pub struct EngineMinimax {
    pub id_number: String,
    pub zobrist_table: Zobrist,
    pub max_depth: u8,
    pub check_can_win: bool,
}

impl EngineMinimax {
    /// The keys are complete and the depth leaves room for one ply more.
    pub open spec fn wf(&self) -> bool {
        &&& self.zobrist_table.wf()
        &&& self.max_depth < 255
    }

    /// The score of playing `m` at ply `d` from `p`, the hashes met being `h`:
    /// the opposite of the best score of the other side while plies are left,
    /// the evaluation of the position at the last ply, the value of the end
    /// when the game ends.
    #[verifier::opaque]
    pub open spec fn minimax_value(&self, p: BitPosition, h: Seq<ZobristHash>, m: BitBoardMove, d: u8) -> Result<
        Score,
        SearchError,
    >
        decreases self.max_depth - d, 0int, 0int,
    {
        match play_result(p, m) {
            Err(e) => Err(e),
            Ok(b2) => {
                let q = moved_position(p, b2);
                let h2 = h.push(ZobristHash(position_hash(self.zobrist_table, q)));
                if !turn_ready(q) {
                    Err(SearchError::SideNotReady)
                } else {
                    let e = end_game_of(
                        q,
                        h2,
                        check_status_of(q.bit_position_status.spec_player_turn(), q.bit_boards_white_and_black),
                        position_moves(q).len() == 0,
                    );
                    if e == EndGame::Ongoing {
                        if d < self.max_depth {
                            match self.best_of_moves(q, h2, (d + 1) as u8, position_moves(q), 0, None) {
                                Err(e) => Err(e),
                                Ok(None) => Err(SearchError::NoMove),
                                Ok(Some(x)) => if x.1.value == i32::MIN {
                                    Err(SearchError::ScoreOverflow)
                                } else {
                                    Ok(Score { value: (-x.1.value) as i32, current_depth: d, max_depth: self.max_depth })
                                },
                            }
                        } else {
                            Ok(
                                Score {
                                    value: position_value(q, dynamic_score(q), self.check_can_win) as i32,
                                    current_depth: d,
                                    max_depth: self.max_depth,
                                },
                            )
                        }
                    } else {
                        Ok(Score { value: end_game_value(e), current_depth: d, max_depth: self.max_depth })
                    }
                }
            },
        }
    }

    /// The best of the moves `ms` from the `i`-th on at ply `d`, `best` the one
    /// kept so far: a move replaces it when its score is higher, or equal over
    /// a longer path; the first error ends the search.
    #[verifier::opaque]
    pub open spec fn best_of_moves(
        &self,
        p: BitPosition,
        h: Seq<ZobristHash>,
        d: u8,
        ms: Seq<BitBoardMove>,
        i: int,
        best: Option<(BitBoardMove, Score)>,
    ) -> Result<Option<(BitBoardMove, Score)>, SearchError>
        decreases self.max_depth - d, 1int, ms.len() - i,
    {
        if i < 0 || i >= ms.len() {
            Ok(best)
        } else {
            match self.minimax_value(p, h, ms[i], d) {
                Err(e) => Err(e),
                Ok(s) => {
                    let better = match best {
                        None => true,
                        Some(b) => s.value > b.1.value || (s.value == b.1.value && path_len(s) > path_len(b.1)),
                    };
                    self.best_of_moves(p, h, d, ms, i + 1, if better { Some((ms[i], s)) } else { best })
                },
            }
        }
    }

    /// The best move and score of each of the first `n` chunks searched from
    /// `p`, in order; the first error, or a chunk without a move, ends it.
    pub open spec fn chunk_results(
        &self,
        p: BitPosition,
        h: Seq<ZobristHash>,
        chunks: Seq<Seq<BitBoardMove>>,
        n: int,
    ) -> Result<Seq<(BitBoardMove, Score)>, SearchError>
        decreases n,
    {
        if n <= 0 {
            Ok(Seq::empty())
        } else {
            match self.chunk_results(p, h, chunks, n - 1) {
                Err(e) => Err(e),
                Ok(v) => match self.best_of_moves(p, h, 0, chunks[n - 1], 0, None) {
                    Err(e) => Err(e),
                    Ok(None) => Err(SearchError::NoMove),
                    Ok(Some(x)) => Ok(v.push(x)),
                },
            }
        }
    }

    /// The move played from `p`, the hashes met being `h`: the best of the
    /// best moves of the chunks (see `move_chunks`).
    pub open spec fn minimax_outcome(&self, p: BitPosition, h: Seq<ZobristHash>, num_cpus: int) -> Result<
        BitBoardMove,
        SearchError,
    > {
        if !turn_ready(p) {
            Err(SearchError::SideNotReady)
        } else {
            let chunks = move_chunks(position_moves(p), num_cpus);
            match self.chunk_results(p, h, chunks, chunks.len() as int) {
                Err(e) => Err(e),
                Ok(v) => if v.len() == 0 {
                    Err(SearchError::NoMove)
                } else {
                    Ok(v[best_branch_index(v)].0)
                },
            }
        }
    }

    /// Once the search of the chunks has failed, it stays failed.
    proof fn lemma_chunk_results_err(&self, p: BitPosition, h: Seq<ZobristHash>, chunks: Seq<Seq<BitBoardMove>>, i: int, n: int)
        requires
            0 <= i <= n,
            self.chunk_results(p, h, chunks, i) is Err,
        ensures
            self.chunk_results(p, h, chunks, n) == self.chunk_results(p, h, chunks, i),
        decreases n - i,
    {
        if n > i {
            self.lemma_chunk_results_err(p, h, chunks, i, n - 1);
        }
    }

    /// An engine searching `max_depth` moves of its side, that is
    /// `2 * max_depth - 1` plies.
    pub fn new(zobrist_table: Zobrist, max_depth: u8, check_can_win: bool) -> (r: Self)
        requires
            zobrist_table.wf(),
            1 <= max_depth <= 127,
        ensures
            r.wf(),
            r.max_depth == 2 * max_depth - 1,
            r.check_can_win == check_can_win,
            r.id_number@ == Seq::<char>::empty(),
    {
        EngineMinimax { id_number: String::new(), zobrist_table, max_depth: max_depth * 2 - 1, check_can_win }
    }

    pub fn set_id_number(&mut self, id_number: &str)
        ensures
            final(self).id_number@ == id_number@,
            final(self).zobrist_table == old(self).zobrist_table,
            final(self).max_depth == old(self).max_depth,
            final(self).check_can_win == old(self).check_can_win,
    {
        self.id_number = id_number.to_string();
    }

    /// The moves of the side to move of `game` in chunks, one per processor
    /// and at least four moves each.
    pub fn prepare_tree_level_1(&self, game: &GameState, num_cpus: usize) -> (r: Result<Vec<Vec<BitBoardMove>>, SearchError>)
        requires
            num_cpus > 0,
        ensures
            !turn_ready(game.bit_position) ==> r == Err::<Vec<Vec<BitBoardMove>>, SearchError>(SearchError::SideNotReady),
            turn_ready(game.bit_position) ==> r is Ok,
            r matches Ok(chunks) ==> {
                let moves = position_moves(game.bit_position);
                let n: int = (moves.len() as int) / (num_cpus as int);
                let chunk_size: int = if n <= 4 { 4 } else { n };
                &&& chunks@.len() == ((moves.len() as int) + chunk_size - 1) / chunk_size
                &&& forall|k: int| 0 <= k < chunks@.len() ==> (#[trigger] chunks@[k])@ == chunks_of(moves, chunk_size, k)
                &&& forall|k: int, x: BitBoardMove| 0 <= k < chunks@.len() && #[trigger] chunks@[k]@.contains(x) ==> moves.contains(x)
            },
    {
        let turn = game.bit_position().bit_position_status().player_turn();
        if !side_ready_check(game.bit_position().bit_boards_white_and_black(), &turn) {
            return Err(SearchError::SideNotReady);
        }
        let moves = game.gen_moves();
        let mut chunk_size = moves.len() / num_cpus;
        if chunk_size <= 4 {
            chunk_size = 4;
        }
        let mut chunks: Vec<Vec<BitBoardMove>> = Vec::new();
        let mut start: usize = 0;
        while start < moves.len()
            invariant
                chunk_size >= 4,
                start <= moves@.len(),
                start == (if chunks@.len() * chunk_size < moves@.len() {
                    chunks@.len() * chunk_size
                } else {
                    moves@.len() as int
                }),
                chunks@.len() == 0 || (chunks@.len() - 1) * chunk_size < moves@.len(),
                forall|k: int| 0 <= k < chunks@.len() ==> (#[trigger] chunks@[k])@ == chunks_of(moves@, chunk_size as int, k),
                forall|k: int, x: BitBoardMove| 0 <= k < chunks@.len() && #[trigger] chunks@[k]@.contains(x) ==> moves@.contains(x),
            decreases moves@.len() - start,
        {
            let end = if moves.len() - start > chunk_size { start + chunk_size } else { moves.len() };
            let mut chunk: Vec<BitBoardMove> = Vec::new();
            let mut j: usize = start;
            while j < end
                invariant
                    start <= j <= end <= moves@.len(),
                    chunk@ == moves@.subrange(start as int, j as int),
                decreases end - j,
            {
                chunk.push(moves[j]);
                proof {
                    assert(chunk@ =~= moves@.subrange(start as int, j + 1));
                }
                j = j + 1;
            }
            let ghost k = chunks@.len() as int;
            let ghost cs = chunk_size as int;
            proof {
                assert(start == k * cs);
                assert((k + 1) * cs == k * cs + cs) by (nonlinear_arith);
                assert(chunk@ == chunks_of(moves@, cs, k));
                assert forall|x: BitBoardMove| chunk@.contains(x) implies moves@.contains(x) by {
                    let t = choose|t: int| 0 <= t < chunk@.len() && chunk@[t] == x;
                    assert(moves@[start + t] == x);
                }
            }
            let ghost before = chunks@;
            chunks.push(chunk);
            proof {
                assert forall|k2: int, x: BitBoardMove| 0 <= k2 < chunks@.len() && #[trigger] chunks@[k2]@.contains(x) implies moves@.contains(x) by {
                    if k2 < k {
                        assert(chunks@[k2] == before[k2]);
                    }
                }
            }
            start = end;
        }
        proof {
            let n = chunks@.len() as int;
            let cs = chunk_size as int;
            let len = moves@.len() as int;
            if n > 0 {
                assert(n * cs >= len);
                assert((n - 1) * cs < len);
                assert((len + cs - 1) / cs == n) by (nonlinear_arith)
                    requires
                        cs >= 4,
                        n * cs >= len,
                        (n - 1) * cs < len,
                        n >= 1,
                        len >= 0;
            } else {
                assert(len == 0);
                assert((len + cs - 1) / cs == 0) by (nonlinear_arith)
                    requires
                        cs >= 4,
                        len == 0;
            }
        }
        Ok(chunks)
    }
}

impl EngineMinimax {
    /// The best of `moves` for the side to move of `game`, the first of the
    /// highest scores, each better move reported as found. The game comes back
    /// as it was.
    fn minimax_rec<L: SearchListener>(
        &self,
        variant: &Vec<char>,
        game: &mut GameState,
        current_depth: u8,
        moves: &Vec<BitBoardMove>,
        listener: &L,
        stat_eval: &mut StatEval,
        Ghost(top): Ghost<int>,
    ) -> (r: Result<BitboardMoveScore, SearchError>)
        requires
            self.wf(),
            current_depth <= self.max_depth,
            old(stat_eval).n_positions_evaluated / 5000 <= top,
            (top + 1) * 5000 < u64::MAX,
        ensures
            match self.best_of_moves(
                old(game).bit_position,
                old(game).hash_positions.hashes@,
                current_depth,
                moves@,
                0,
                None,
            ) {
                Err(e) => r == Err::<BitboardMoveScore, SearchError>(e),
                Ok(None) => r == Err::<BitboardMoveScore, SearchError>(SearchError::NoMove),
                Ok(Some(x)) => r matches Ok(b) && b.bitboard_move == x.0 && b.score == x.1,
            },
            r matches Ok(b) ==> moves@.contains(b.bitboard_move) && depths_ok(b.score),
            final(stat_eval).n_positions_evaluated / 5000 <= top,
            final(game).bit_position == old(game).bit_position,
            final(game).hash_positions.hashes@ == old(game).hash_positions.hashes@,
            final(game).backup@ == old(game).backup@,
        decreases self.max_depth - current_depth, 1int,
    {
        let ghost p0 = game.bit_position;
        let ghost h0 = game.hash_positions.hashes@;
        let mut max_score_opt: Option<Score> = None;
        let mut best_move_opt: Option<BitBoardMove> = None;
        let mut i: usize = 0;
        while i < moves.len()
            invariant
                self.wf(),
                current_depth <= self.max_depth,
                (top + 1) * 5000 < u64::MAX,
                stat_eval.n_positions_evaluated / 5000 <= top,
                i <= moves@.len(),
                p0 == old(game).bit_position,
                h0 == old(game).hash_positions.hashes@,
                game.bit_position == p0,
                game.hash_positions.hashes@ == h0,
                game.backup@ == old(game).backup@,
                max_score_opt is Some <==> best_move_opt is Some,
                max_score_opt matches Some(s) ==> depths_ok(s),
                best_move_opt matches Some(b) ==> moves@.contains(b),
                self.best_of_moves(p0, h0, current_depth, moves@, 0, None) == self.best_of_moves(
                    p0,
                    h0,
                    current_depth,
                    moves@,
                    i as int,
                    match (best_move_opt, max_score_opt) {
                        (Some(b), Some(s)) => Some((b, s)),
                        _ => None,
                    },
                ),
            decreases moves@.len() - i,
        {
            let m = moves[i];
            assert(moves@.contains(moves@[i as int]));
            let ghost cur = match (best_move_opt, max_score_opt) {
                (Some(b), Some(s)) => Some((b, s)),
                _ => None::<(BitBoardMove, Score)>,
            };
            proof {
                reveal_with_fuel(EngineMinimax::best_of_moves, 1);
                reveal_with_fuel(EngineMinimax::minimax_value, 1);
            }
            let score = match self.process_move(game, m, variant, listener, stat_eval, current_depth, Ghost(top)) {
                Err(e) => {
                    return Err(e);
                },
                Ok(score) => score,
            };
            let better = match &max_score_opt {
                None => true,
                Some(max_score) => score.is_greater_than(max_score),
            };
            if better {
                best_move_opt = Some(m);
                max_score_opt = Some(score);
                listener.send_best_move(m);
            }
            i = i + 1;
        }
        proof {
            reveal_with_fuel(EngineMinimax::best_of_moves, 1);
            reveal_with_fuel(EngineMinimax::minimax_value, 1);
        }
        match (best_move_opt, max_score_opt) {
            (Some(best_move), Some(max_score)) => Ok(BitboardMoveScore::new(best_move, max_score, String::new())),
            _ => Err(SearchError::NoMove),
        }
    }

    /// Plays `m` and scores it: the opposite of the best score of the other
    /// side while plies are left, the evaluation at the last ply, the end of
    /// the game when it ends. The game comes back as it was.
    #[verifier::spinoff_prover]
    #[verifier::rlimit(40)]
    fn process_move<L: SearchListener>(
        &self,
        game: &mut GameState,
        m: BitBoardMove,
        variant: &Vec<char>,
        listener: &L,
        stat_eval: &mut StatEval,
        current_depth: u8,
        Ghost(top): Ghost<int>,
    ) -> (r: Result<Score, SearchError>)
        requires
            self.wf(),
            current_depth <= self.max_depth,
            old(stat_eval).n_positions_evaluated / 5000 <= top,
            (top + 1) * 5000 < u64::MAX,
        ensures
            r == self.minimax_value(old(game).bit_position, old(game).hash_positions.hashes@, m, current_depth),
            r matches Ok(s) ==> depths_ok(s),
            final(stat_eval).n_positions_evaluated / 5000 <= top,
            final(game).bit_position == old(game).bit_position,
            final(game).hash_positions.hashes@ == old(game).hash_positions.hashes@,
            final(game).backup@ == old(game).backup@,
        decreases self.max_depth - current_depth, 0int,
    {
        let ghost p = game.bit_position;
        proof {
            reveal_with_fuel(EngineMinimax::minimax_value, 1);
            reveal_with_fuel(EngineMinimax::best_of_moves, 1);
        }
        let b2 = match play_move(game, m, &self.zobrist_table) {
            Err(e) => {
                return Err(e);
            },
            Ok(b2) => b2,
        };
        let updated_variant = extended_variant(variant, m);
        let turn = game.bit_position().bit_position_status().player_turn();
        if !side_ready_check(game.bit_position().bit_boards_white_and_black(), &turn) {
            take_back(game, Ghost(p), Ghost(b2));
            return Err(SearchError::SideNotReady);
        }
        game.update_endgame_status();
        let score = if game.end_game() == EndGame::Ongoing {
            if current_depth < self.max_depth {
                let moves = game.gen_moves();
                let bitboard_move_score = match self.minimax_rec(
                    &updated_variant,
                    game,
                    current_depth + 1,
                    &moves,
                    listener,
                    stat_eval,
                    Ghost(top),
                ) {
                    Err(e) => {
                        take_back(game, Ghost(p), Ghost(b2));
                        return Err(e);
                    },
                    Ok(b) => b,
                };
                let value = bitboard_move_score.score.value;
                if value == i32::MIN {
                    take_back(game, Ghost(p), Ghost(b2));
                    return Err(SearchError::ScoreOverflow);
                }
                Score::new(-value, current_depth, self.max_depth)
            } else {
                proof {
                    lemma_counted_block(stat_eval.n_positions_evaluated);
                }
                let (value, report) = evaluate_position(game, stat_eval, self.check_can_win);
                if let Some(n) = report {
                    listener.send_stat(n);
                }
                Score::new(value, current_depth, self.max_depth)
            }
        } else {
            handle_end_game_scenario(game, current_depth, self.max_depth)
        };
        take_back(game, Ghost(p), Ghost(b2));
        Ok(score)
    }

    /// The move the engine plays in `game`: the moves are searched in chunks
    /// (see `prepare_tree_level_1`), each giving its best move, and the best
    /// of these is kept. It is a legal move of the position.
    pub fn minimax<L: SearchListener>(&self, game: &GameState, num_cpus: usize, listener: &L) -> (r: Result<BitBoardMove, SearchError>)
        requires
            self.wf(),
            num_cpus > 0,
        ensures
            r == self.minimax_outcome(game.bit_position, game.hash_positions.hashes@, num_cpus as int),
            r matches Ok(m) ==> position_moves(game.bit_position).contains(m),
    {
        let ghost p = game.bit_position;
        let ghost h = game.hash_positions.hashes@;
        let chunks = match self.prepare_tree_level_1(game, num_cpus) {
            Err(e) => {
                return Err(e);
            },
            Ok(chunks) => chunks,
        };
        let ghost moves = position_moves(game.bit_position);
        let ghost cv = move_chunks(moves, num_cpus as int);
        assert(chunks@.len() == cv.len());
        assert forall|k: int| 0 <= k < chunks@.len() implies (#[trigger] chunks@[k])@ == cv[k] by {}
        let mut results: Vec<(BitBoardMove, Score)> = Vec::new();
        let mut i: usize = 0;
        while i < chunks.len()
            invariant
                self.wf(),
                i <= chunks@.len(),
                p == game.bit_position,
                h == game.hash_positions.hashes@,
                turn_ready(p),
                chunks@.len() == cv.len(),
                forall|k: int| 0 <= k < chunks@.len() ==> (#[trigger] chunks@[k])@ == cv[k],
                cv == move_chunks(moves, num_cpus as int),
                forall|k: int, x: BitBoardMove| 0 <= k < chunks@.len() && #[trigger] chunks@[k]@.contains(x) ==> moves.contains(x),
                moves == position_moves(game.bit_position),
                forall|k: int| 0 <= k < results@.len() ==> moves.contains(#[trigger] results@[k].0),
                self.chunk_results(p, h, cv, i as int) == Ok::<Seq<(BitBoardMove, Score)>, SearchError>(results@),
            decreases chunks@.len() - i,
        {
            let mut game_clone = game.copy();
            let mut stat_eval = StatEval::default();
            let variant: Vec<char> = Vec::new();
            assert(chunks@[i as int]@ == cv[i as int]);
            let bitboard_move_score = match self.minimax_rec(
                &variant,
                &mut game_clone,
                0,
                &chunks[i],
                listener,
                &mut stat_eval,
                Ghost(0),
            ) {
                Err(e) => {
                    proof {
                        assert(self.chunk_results(p, h, cv, i + 1) == Err::<Seq<(BitBoardMove, Score)>, SearchError>(e));
                        self.lemma_chunk_results_err(p, h, cv, i + 1, cv.len() as int);
                    }
                    return Err(e);
                },
                Ok(b) => b,
            };
            proof {
                assert(chunks@[i as int]@.contains(bitboard_move_score.bitboard_move));
            }
            results.push((bitboard_move_score.bitboard_move, bitboard_move_score.score));
            i = i + 1;
        }
        match merge_best_move_per_branch(&results) {
            Some((best_move, _score)) => {
                proof {
                    lemma_best_branch_index_range(results@);
                }
                assert(moves.contains(results@[best_branch_index(results@)].0));
                Ok(best_move)
            },
            None => Err(SearchError::NoMove),
        }
    }
}

} // verus!
