//! The mate solver: the shortest forced mate within a number of plies, the
//! attacking side playing checks only.
use vstd::prelude::*;
use crate::bitboard_move::BitBoardMove;
use crate::game_state::{back_move_of, end_game_of, lemma_play_back_undoes_move, position_moves, EndGame, GameState, PlayError, play_step};
use crate::gen_moves::{side_ready, side_ready_check};
use crate::long_notation::{notation_chars, LongAlgebricNotationMove};
use crate::piece_move::{check_status_of, CheckStatus};
use crate::position::{moved_position, BitPosition};
use crate::score::BitboardMoveScoreMat;
use crate::stat_eval::{counted, counted_iter, lemma_counted_block, lemma_counted_iter_add, StatEval, SEND_STAT_EVERY_N_POSITION_EVALUATED};
use crate::text::{chars_to_string, str_to_chars};
use crate::zobrist::{position_hash, Zobrist, ZobristHash};

verus! {

/// Why a search could not go on.
#[derive(Debug, Copy, Clone, PartialEq, Eq, Structural)]
pub enum SearchError {
    /// A move could not be played (see `PlayError`).
    Move(PlayError),
    /// The side to move has no king, a king on an opponent piece, or a pawn on
    /// its last row: its moves cannot be generated.
    SideNotReady,
    /// A counter of the search would pass its largest value.
    CounterLimit,
    /// The search went deeper than its tables hold.
    DepthLimit,
    /// The side to move has no legal move where one is needed.
    NoMove,
    /// A bound of the search would leave the range of scores.
    ScoreOverflow,
}

/// A mate found: the first move, the plies to the mate, the line of moves.
pub type MatLine = (BitBoardMove, u8, Seq<char>);

/// What a search gives: its result, the positions it scored, and the count
/// of checking moves once it is done.
pub type MatOutcome = (Result<Option<MatLine>, SearchError>, nat, nat);

/// The notation of a board move.
pub open spec fn notation_of(b: BitBoardMove) -> LongAlgebricNotationMove {
    LongAlgebricNotationMove { start: b.start, end: b.end, promotion: b.promotion }
}

/// What playing move `b` in `p` gives (see `play_step`).
pub open spec fn play_result(p: BitPosition, b: BitBoardMove) -> Result<BitBoardMove, SearchError> {
    if b.start.0 < 64 && b.end.0 < 64 {
        match play_step(p, notation_of(b), false) {
            Ok(b2) => Ok(b2),
            Err(e) => Err(SearchError::Move(e)),
        }
    } else {
        Err(SearchError::Move(PlayError::Unplayable(notation_of(b))))
    }
}

/// The moves of the side to move of `p` can be generated.
pub open spec fn turn_ready(p: BitPosition) -> bool {
    side_ready(p.bit_boards_white_and_black, p.bit_position_status.spec_player_turn())
}

/// The side to move of `q` is in check.
pub open spec fn in_check(q: BitPosition) -> bool {
    !(check_status_of(q.bit_position_status.spec_player_turn(), q.bit_boards_white_and_black) is NoCheck)
}

/// The moves among the first `n` of `ms` that give check, in order.
pub open spec fn checking_moves(p: BitPosition, ms: Seq<BitBoardMove>, n: nat) -> Result<Seq<BitBoardMove>, SearchError>
    decreases n,
{
    if n == 0 {
        Ok(Seq::empty())
    } else {
        match checking_moves(p, ms, (n - 1) as nat) {
            Err(e) => Err(e),
            Ok(v) => match play_result(p, ms[n - 1]) {
                Err(e) => Err(e),
                Ok(b2) => {
                    let q = moved_position(p, b2);
                    if !turn_ready(q) {
                        Err(SearchError::SideNotReady)
                    } else if in_check(q) {
                        Ok(v.push(ms[n - 1]))
                    } else {
                        Ok(v)
                    }
                },
            },
        }
    }
}

/// The line after move `b`: its notation, after a space when the line so far
/// is not empty.
pub open spec fn extend_variant(v: Seq<char>, b: BitBoardMove) -> Seq<char> {
    if v.len() == 0 {
        notation_chars(notation_of(b))
    } else {
        v + seq![' '] + notation_chars(notation_of(b))
    }
}

/// The mate solver: its hash keys and how many plies it searches.
pub struct EngineMat {
    pub id_number: String,
    pub zobrist_table: Zobrist,
    pub max_depth: u8,
}

impl EngineMat {
    /// The keys are complete and the depth leaves room to count one ply more.
    pub open spec fn wf(&self) -> bool {
        &&& self.zobrist_table.wf()
        &&& self.max_depth <= 253
    }

    /// The search from `p` (hashes met `h`) at ply `d`, `nc` checks counted so
    /// far: the side to move attacks when `att`. The attacker tries its
    /// checking moves, the defender all its moves; no move, no mate.
    #[verifier::opaque]
    pub open spec fn solve(&self, p: BitPosition, h: Seq<ZobristHash>, d: u8, att: bool, v: Seq<char>, nc: nat) -> MatOutcome
        decreases self.max_depth - d, 2int, 0int,
    {
        if !turn_ready(p) {
            (Err(SearchError::SideNotReady), 0, nc)
        } else {
            let all = position_moves(p);
            let filtered = if att {
                checking_moves(p, all, all.len())
            } else {
                Ok(all)
            };
            match filtered {
                Err(e) => (Err(e), 0, nc),
                Ok(ms) => if att && nc + ms.len() > u64::MAX {
                    (Err(SearchError::CounterLimit), 0, nc)
                } else {
                    let checks: nat = if att {
                        nc + ms.len()
                    } else {
                        nc
                    };
                    if ms.len() == 0 {
                        (Ok(None), 0, checks)
                    } else {
                        self.fold(p, h, d, att, v, ms, 0, None, 0, checks)
                    }
                },
            }
        }
    }

    /// The search over the moves `ms` from the `i`-th on, `best` the mate kept
    /// so far: the attacker keeps the shortest mate, the defender the longest,
    /// and the defender gives up as soon as one of its moves escapes a mate
    /// found before.
    #[verifier::opaque]
    pub open spec fn fold(
        &self,
        p: BitPosition,
        h: Seq<ZobristHash>,
        d: u8,
        att: bool,
        v: Seq<char>,
        ms: Seq<BitBoardMove>,
        i: int,
        best: Option<MatLine>,
        leaves: nat,
        checks: nat,
    ) -> MatOutcome
        decreases self.max_depth - d, 1int, ms.len() - i,
    {
        if i < 0 || i >= ms.len() {
            (Ok(best), leaves, checks)
        } else {
            let o = self.process(p, h, ms[i], att, v, d, checks);
            let l2 = leaves + o.1;
            let c2 = o.2;
            match o.0 {
                Err(e) => (Err(e), l2, c2),
                Ok(mm) => match (mm, best) {
                    (Some(x), Some(s)) => if (att && s.1 > x.1) || (!att && s.1 < x.1) {
                        self.fold(p, h, d, att, v, ms, i + 1, Some((ms[i], x.1, x.2)), l2, c2)
                    } else {
                        self.fold(p, h, d, att, v, ms, i + 1, best, l2, c2)
                    },
                    (Some(x), None) => self.fold(p, h, d, att, v, ms, i + 1, Some((ms[i], x.1, x.2)), l2, c2),
                    (None, Some(_)) => if !att {
                        (Ok(None), l2, c2)
                    } else {
                        self.fold(p, h, d, att, v, ms, i + 1, best, l2, c2)
                    },
                    (None, None) => self.fold(p, h, d, att, v, ms, i + 1, best, l2, c2),
                },
            }
        }
    }

    /// Playing move `m` at ply `d`: a mate given by the attacker is found in
    /// `d + 1` plies, a mate the defender walks into is no mate for it; a game
    /// going on is searched one ply deeper while plies are left; any other end
    /// is no mate.
    #[verifier::opaque]
    pub open spec fn process(&self, p: BitPosition, h: Seq<ZobristHash>, m: BitBoardMove, att: bool, v: Seq<char>, d: u8, nc: nat) -> MatOutcome
        decreases self.max_depth - d, 0int, 0int,
    {
        let uv = extend_variant(v, m);
        match play_result(p, m) {
            Err(e) => (Err(e), 0, nc),
            Ok(b2) => {
                let q = moved_position(p, b2);
                let h2 = h.push(ZobristHash(position_hash(self.zobrist_table, q)));
                if !turn_ready(q) {
                    (Err(SearchError::SideNotReady), 0, nc)
                } else {
                    let e = end_game_of(
                        q,
                        h2,
                        check_status_of(q.bit_position_status.spec_player_turn(), q.bit_boards_white_and_black),
                        position_moves(q).len() == 0,
                    );
                    match e {
                        EndGame::Mat(_) => if att {
                            (Ok(Some((m, (d + 1) as u8, uv))), 1, nc)
                        } else {
                            (Ok(None), 1, nc)
                        },
                        EndGame::Ongoing => if d < self.max_depth {
                            self.solve(q, h2, (d + 1) as u8, !att, uv, nc)
                        } else {
                            (Ok(None), 1, nc)
                        },
                        _ => (Ok(None), 1, nc),
                    }
                }
            },
        }
    }
}

impl EngineMat {
    /// The attacker keeps the shortest mate: what its search over the moves
    /// from the `i`-th on finds is never longer than the mate kept before it,
    /// nor than the mate the `i`-th move leads to. So, searched from the first
    /// move, no checking move leads to a shorter mate than the one found.
    pub proof fn lemma_attacker_keeps_shortest(
        &self,
        p: BitPosition,
        h: Seq<ZobristHash>,
        d: u8,
        v: Seq<char>,
        ms: Seq<BitBoardMove>,
        i: int,
        best: Option<MatLine>,
        leaves: nat,
        checks: nat,
    )
        ensures
            match (self.fold(p, h, d, true, v, ms, i, best, leaves, checks).0, best) {
                (Ok(Some(r)), Some(b)) => r.1 <= b.1,
                _ => true,
            },
            0 <= i < ms.len() ==> match (
                self.fold(p, h, d, true, v, ms, i, best, leaves, checks).0,
                self.process(p, h, ms[i], true, v, d, checks).0,
            ) {
                (Ok(Some(r)), Ok(Some(x))) => r.1 <= x.1,
                _ => true,
            },
        decreases ms.len() - i,
    {
        let f = self.fold(p, h, d, true, v, ms, i, best, leaves, checks);
        if 0 <= i < ms.len() {
            let o = self.process(p, h, ms[i], true, v, d, checks);
            let l2 = leaves + o.1;
            let c2 = o.2;
            match o.0 {
                Err(_) => {
                    assert(f.0 is Err) by {
                        reveal_with_fuel(EngineMat::fold, 1);
                        reveal_with_fuel(EngineMat::process, 1);
                    }
                },
                Ok(mm) => match (mm, best) {
                    (Some(x), Some(s)) => if s.1 > x.1 {
                        assert(o.0 == Ok::<Option<MatLine>, SearchError>(Some(x)));
                        assert(best == Some(s));
                        let nb = Some((ms[i], x.1, x.2));
                        assert(f == self.fold(p, h, d, true, v, ms, i + 1, nb, l2, c2)) by {
                            reveal_with_fuel(EngineMat::fold, 1);
                            reveal_with_fuel(EngineMat::process, 1);
                        }
                        self.lemma_attacker_keeps_shortest(p, h, d, v, ms, i + 1, nb, l2, c2);
                    } else {
                        assert(o.0 == Ok::<Option<MatLine>, SearchError>(Some(x)));
                        assert(best == Some(s));
                        assert(!(s.1 > x.1));
                        assert(f == self.fold(p, h, d, true, v, ms, i + 1, best, l2, c2)) by {
                            reveal_with_fuel(EngineMat::fold, 1);
                            reveal_with_fuel(EngineMat::process, 1);
                        }
                        self.lemma_attacker_keeps_shortest(p, h, d, v, ms, i + 1, best, l2, c2);
                    },
                    (Some(x), None) => {
                        let nb = Some((ms[i], x.1, x.2));
                        assert(f == self.fold(p, h, d, true, v, ms, i + 1, nb, l2, c2)) by {
                            reveal_with_fuel(EngineMat::fold, 1);
                            reveal_with_fuel(EngineMat::process, 1);
                        }
                        self.lemma_attacker_keeps_shortest(p, h, d, v, ms, i + 1, nb, l2, c2);
                    },
                    (None, _) => {
                        assert(f == self.fold(p, h, d, true, v, ms, i + 1, best, l2, c2)) by {
                            reveal_with_fuel(EngineMat::fold, 1);
                            reveal_with_fuel(EngineMat::process, 1);
                        }
                        self.lemma_attacker_keeps_shortest(p, h, d, v, ms, i + 1, best, l2, c2);
                    },
                },
            }
        } else {
            assert(f == (Ok::<Option<MatLine>, SearchError>(best), leaves, checks)) by {
                reveal_with_fuel(EngineMat::fold, 1);
            }
        }
    }

    /// The defender keeps the longest mate: what its search over the moves
    /// from the `i`-th on finds is never shorter than the mate kept before it,
    /// nor than the mate the `i`-th move leads to; and once a mate was kept, a
    /// move of the defender that escapes mate ends the search with no mate.
    pub proof fn lemma_defender_keeps_longest(
        &self,
        p: BitPosition,
        h: Seq<ZobristHash>,
        d: u8,
        v: Seq<char>,
        ms: Seq<BitBoardMove>,
        i: int,
        best: Option<MatLine>,
        leaves: nat,
        checks: nat,
    )
        ensures
            match (self.fold(p, h, d, false, v, ms, i, best, leaves, checks).0, best) {
                (Ok(Some(r)), Some(b)) => r.1 >= b.1,
                _ => true,
            },
            0 <= i < ms.len() ==> match (
                self.fold(p, h, d, false, v, ms, i, best, leaves, checks).0,
                self.process(p, h, ms[i], false, v, d, checks).0,
            ) {
                (Ok(Some(r)), Ok(Some(x))) => r.1 >= x.1,
                _ => true,
            },
            0 <= i < ms.len() && best is Some && self.process(p, h, ms[i], false, v, d, checks).0 == Ok::<
                Option<MatLine>,
                SearchError,
            >(None) ==> self.fold(p, h, d, false, v, ms, i, best, leaves, checks).0 == Ok::<
                Option<MatLine>,
                SearchError,
            >(None),
        decreases ms.len() - i,
    {
        let f = self.fold(p, h, d, false, v, ms, i, best, leaves, checks);
        if 0 <= i < ms.len() {
            let o = self.process(p, h, ms[i], false, v, d, checks);
            let l2 = leaves + o.1;
            let c2 = o.2;
            match o.0 {
                Err(_) => {
                    assert(f.0 is Err) by {
                        reveal_with_fuel(EngineMat::fold, 1);
                            reveal_with_fuel(EngineMat::process, 1);
                    }
                },
                Ok(mm) => match (mm, best) {
                    (Some(x), Some(s)) => if s.1 < x.1 {
                        let nb = Some((ms[i], x.1, x.2));
                        assert(f == self.fold(p, h, d, false, v, ms, i + 1, nb, l2, c2)) by {
                            reveal_with_fuel(EngineMat::fold, 1);
                            reveal_with_fuel(EngineMat::process, 1);
                        }
                        self.lemma_defender_keeps_longest(p, h, d, v, ms, i + 1, nb, l2, c2);
                    } else {
                        assert(f == self.fold(p, h, d, false, v, ms, i + 1, best, l2, c2)) by {
                            reveal_with_fuel(EngineMat::fold, 1);
                            reveal_with_fuel(EngineMat::process, 1);
                        }
                        self.lemma_defender_keeps_longest(p, h, d, v, ms, i + 1, best, l2, c2);
                    },
                    (Some(x), None) => {
                        let nb = Some((ms[i], x.1, x.2));
                        assert(f == self.fold(p, h, d, false, v, ms, i + 1, nb, l2, c2)) by {
                            reveal_with_fuel(EngineMat::fold, 1);
                            reveal_with_fuel(EngineMat::process, 1);
                        }
                        self.lemma_defender_keeps_longest(p, h, d, v, ms, i + 1, nb, l2, c2);
                    },
                    (None, Some(_)) => {
                        assert(f.0 == Ok::<Option<MatLine>, SearchError>(None)) by {
                            reveal_with_fuel(EngineMat::fold, 1);
                            reveal_with_fuel(EngineMat::process, 1);
                        }
                    },
                    (None, None) => {
                        assert(f == self.fold(p, h, d, false, v, ms, i + 1, best, l2, c2)) by {
                            reveal_with_fuel(EngineMat::fold, 1);
                            reveal_with_fuel(EngineMat::process, 1);
                        }
                        self.lemma_defender_keeps_longest(p, h, d, v, ms, i + 1, best, l2, c2);
                    },
                },
            }
        } else {
            assert(f == (Ok::<Option<MatLine>, SearchError>(best), leaves, checks)) by {
                reveal_with_fuel(EngineMat::fold, 1);
            }
        }
    }
}

/// A mate found, as plain values.
pub open spec fn mat_view(r: Result<Option<BitboardMoveScoreMat>, SearchError>) -> Result<Option<MatLine>, SearchError> {
    match r {
        Err(e) => Err(e),
        Ok(None) => Ok(None),
        Ok(Some(m)) => Ok(Some((m.bitboard_move, m.mat_in, m.variant@))),
    }
}

/// The kept mate, as plain values.
pub open spec fn opt_view(o: Option<BitboardMoveScoreMat>) -> Option<MatLine> {
    match o {
        None => None,
        Some(m) => Some((m.bitboard_move, m.mat_in, m.variant@)),
    }
}

/// Plays board move `m` (see `play_result`).
pub(crate) fn play_move(game: &mut GameState, m: BitBoardMove, zobrist_table: &Zobrist) -> (r: Result<BitBoardMove, SearchError>)
    requires
        zobrist_table.wf(),
    ensures
        r == play_result(old(game).bit_position, m),
        r matches Ok(b) ==> {
            &&& final(game).bit_position == moved_position(old(game).bit_position, b)
            &&& final(game).backup@ == old(game).backup@.push(back_move_of(old(game).bit_position, b))
            &&& final(game).hash_positions.hashes@ == old(game).hash_positions.hashes@.push(
                ZobristHash(position_hash(*zobrist_table, final(game).bit_position)),
            )
        },
        r is Err ==> {
            &&& final(game).bit_position == old(game).bit_position
            &&& final(game).backup@ == old(game).backup@
            &&& final(game).hash_positions.hashes@ == old(game).hash_positions.hashes@
        },
        final(game).end_game == old(game).end_game,
{
    let notation = LongAlgebricNotationMove::build_from_b_move(m);
    if m.start.0 < 64 && m.end.0 < 64 {
        match game.play_one(notation, zobrist_table, false) {
            Ok(b) => Ok(b),
            Err(e) => Err(SearchError::Move(e)),
        }
    } else {
        Err(SearchError::Move(PlayError::Unplayable(notation)))
    }
}

/// Takes back move `b`, played from `p`: the game is back at `p`.
pub(crate) fn take_back(game: &mut GameState, Ghost(p): Ghost<BitPosition>, Ghost(b): Ghost<BitBoardMove>)
    requires
        old(game).bit_position == moved_position(p, b),
        old(game).backup@.len() > 0,
        old(game).backup@.last() == back_move_of(p, b),
        old(game).hash_positions.hashes@.len() > 0,
    ensures
        final(game).bit_position == p,
        final(game).backup@ == old(game).backup@.drop_last(),
        final(game).hash_positions.hashes@ == old(game).hash_positions.hashes@.drop_last(),
{
    game.play_back();
    proof {
        lemma_play_back_undoes_move(p, b);
    }
}

/// Counts one position scored.
fn update_stat(stat_eval: &mut StatEval)
    requires
        old(stat_eval).n_positions_evaluated < u64::MAX,
    ensures
        final(stat_eval).n_positions_evaluated == counted(old(stat_eval).n_positions_evaluated),
        final(stat_eval).n_transposition_hit == old(stat_eval).n_transposition_hit,
        final(stat_eval).n_check == old(stat_eval).n_check,
{
    if stat_eval.inc_n_positions_evaluated() % SEND_STAT_EVERY_N_POSITION_EVALUATED == 0 {
        stat_eval.reset_n_positions_evaluated();
    }
}

/// The line after move `m` (see `extend_variant`).
pub(crate) fn extended_variant(variant: &Vec<char>, m: BitBoardMove) -> (r: Vec<char>)
    requires
        m.start.0 < 64,
        m.end.0 < 64,
    ensures
        r@ == extend_variant(variant@, m),
{
    let notation = LongAlgebricNotationMove::build_from_b_move(m).cast();
    let mut chars = str_to_chars(notation.as_str());
    if variant.len() == 0 {
        chars
    } else {
        let mut r: Vec<char> = Vec::new();
        let mut i: usize = 0;
        while i < variant.len()
            invariant
                i <= variant@.len(),
                r@ == variant@.subrange(0, i as int),
            decreases variant@.len() - i,
        {
            let c = variant[i];
            r.push(c);
            proof {
                assert(r@ =~= variant@.subrange(0, i + 1));
            }
            i = i + 1;
        }
        proof {
            assert(variant@.subrange(0, variant@.len() as int) =~= variant@);
        }
        r.push(' ');
        r.append(&mut chars);
        r
    }
}

impl EngineMat {
    /// A solver searching `max_depth` moves of the attacker, that is
    /// `2 * max_depth - 1` plies.
    pub fn new(zobrist_table: Zobrist, max_depth: u8) -> (r: Self)
        requires
            zobrist_table.wf(),
            1 <= max_depth <= 127,
        ensures
            r.wf(),
            r.max_depth == 2 * max_depth - 1,
            r.id_number@ == Seq::<char>::empty(),
    {
        EngineMat { id_number: String::new(), zobrist_table, max_depth: max_depth * 2 - 1 }
    }

    pub fn set_id_number(&mut self, id_number: &str)
        ensures
            final(self).id_number@ == id_number@,
            final(self).zobrist_table == old(self).zobrist_table,
            final(self).max_depth == old(self).max_depth,
    {
        self.id_number = id_number.to_string();
    }

    /// The checking moves among `moves` (see `checking_moves`); the game comes
    /// back as it was, and their number is added to the checks counted.
    fn filter_move_with_check(&self, game: &mut GameState, moves: &Vec<BitBoardMove>, stat_eval: &mut StatEval) -> (r: Result<
        Vec<BitBoardMove>,
        SearchError,
    >)
        requires
            self.wf(),
        ensures
            match checking_moves(old(game).bit_position, moves@, moves@.len()) {
                Ok(v) => if old(stat_eval).n_check + v.len() > u64::MAX {
                    r == Err::<Vec<BitBoardMove>, SearchError>(SearchError::CounterLimit) && final(stat_eval).n_check
                        == old(stat_eval).n_check
                } else {
                    r matches Ok(w) && w@ == v && final(stat_eval).n_check == old(stat_eval).n_check + v.len()
                },
                Err(e) => r == Err::<Vec<BitBoardMove>, SearchError>(e) && final(stat_eval).n_check == old(stat_eval).n_check,
            },
            final(stat_eval).n_positions_evaluated == old(stat_eval).n_positions_evaluated,
            final(stat_eval).n_transposition_hit == old(stat_eval).n_transposition_hit,
            final(game).bit_position == old(game).bit_position,
            final(game).hash_positions.hashes@ == old(game).hash_positions.hashes@,
            final(game).backup@ == old(game).backup@,
            final(game).end_game == old(game).end_game,
    {
        let ghost p = game.bit_position;
        let ghost h = game.hash_positions.hashes@;
        let ghost bk = game.backup@;
        let saved_end_game = game.end_game();
        let mut v: Vec<BitBoardMove> = Vec::new();
        let mut i: usize = 0;
        while i < moves.len()
            invariant
                self.wf(),
                i <= moves@.len(),
                checking_moves(p, moves@, i as nat) == Ok::<Seq<BitBoardMove>, SearchError>(v@),
                game.bit_position == p,
                game.hash_positions.hashes@ == h,
                game.backup@ == bk,
                game.end_game == saved_end_game,
                saved_end_game == old(game).end_game,
                p == old(game).bit_position,
                h == old(game).hash_positions.hashes@,
                bk == old(game).backup@,
            decreases moves@.len() - i,
        {
            let m = moves[i];
            let b2 = match play_move(game, m, &self.zobrist_table) {
                Err(e) => {
                    proof {
                        lemma_checking_moves_err(p, moves@, (i + 1) as nat, moves@.len());
                    }
                    return Err(e);
                },
                Ok(b2) => b2,
            };
            let turn = game.bit_position().bit_position_status().player_turn();
            if !side_ready_check(game.bit_position().bit_boards_white_and_black(), &turn) {
                take_back(game, Ghost(p), Ghost(b2));
                game.set_end_game(saved_end_game);
                proof {
                    lemma_checking_moves_err(p, moves@, (i + 1) as nat, moves@.len());
                }
                return Err(SearchError::SideNotReady);
            }
            if game.check_status().is_check() {
                v.push(m);
            }
            take_back(game, Ghost(p), Ghost(b2));
            game.set_end_game(saved_end_game);
            i = i + 1;
        }
        if v.len() as u64 > u64::MAX - stat_eval.n_check {
            return Err(SearchError::CounterLimit);
        }
        stat_eval.inc_n_check(v.len() as u64);
        Ok(v)
    }
}

/// Once a prefix of the moves fails, every longer prefix fails the same way.
proof fn lemma_checking_moves_err(p: BitPosition, ms: Seq<BitBoardMove>, n: nat, m: nat)
    requires
        n <= m,
        checking_moves(p, ms, n) is Err,
    ensures
        checking_moves(p, ms, m) == checking_moves(p, ms, n),
    decreases m - n,
{
    if n < m {
        lemma_checking_moves_err(p, ms, n, (m - 1) as nat);
    }
}

impl EngineMat {
    /// Plays `m` at ply `current_depth` and searches on (see `process`); the
    /// game comes back as it was.
    #[verifier::spinoff_prover]
    #[verifier::rlimit(50)]
    fn process_move(
        &self,
        game: &mut GameState,
        m: BitBoardMove,
        is_attacker: bool,
        variant: &Vec<char>,
        stat_eval: &mut StatEval,
        current_depth: u8,
        max_depth: u8,
        Ghost(top): Ghost<int>,
    ) -> (r: Result<Option<BitboardMoveScoreMat>, SearchError>)
        requires
            self.wf(),
            current_depth <= self.max_depth,
            old(stat_eval).n_positions_evaluated / 5000 <= top,
            (top + 1) * 5000 < u64::MAX,
        ensures
            ({
                let o = self.process(
                    old(game).bit_position,
                    old(game).hash_positions.hashes@,
                    m,
                    is_attacker,
                    variant@,
                    current_depth,
                    old(stat_eval).n_check as nat,
                );
                &&& mat_view(r) == o.0
                &&& final(stat_eval).n_positions_evaluated == counted_iter(old(stat_eval).n_positions_evaluated, o.1)
                &&& final(stat_eval).n_check == o.2
            }),
            final(stat_eval).n_transposition_hit == old(stat_eval).n_transposition_hit,
            final(stat_eval).n_positions_evaluated / 5000 <= top,
            final(game).bit_position == old(game).bit_position,
            final(game).hash_positions.hashes@ == old(game).hash_positions.hashes@,
            final(game).backup@ == old(game).backup@,
        decreases self.max_depth - current_depth, 0int, 0int,
    {
        let ghost p = game.bit_position;
        let ghost h = game.hash_positions.hashes@;
        let ghost nc: nat = stat_eval.n_check as nat;
        let ghost o = self.process(p, h, m, is_attacker, variant@, current_depth, nc);
        let b2 = match play_move(game, m, &self.zobrist_table) {
            Err(e) => {
                assert(o == (Err::<Option<MatLine>, SearchError>(e), 0nat, nc)) by {
                    reveal_with_fuel(EngineMat::solve, 1);
                    reveal_with_fuel(EngineMat::process, 1);
                }
                return Err(e);
            },
            Ok(b2) => b2,
        };
        let ghost q = game.bit_position;
        let ghost h2 = game.hash_positions.hashes@;
        let updated_variant = extended_variant(variant, m);
        let turn = game.bit_position().bit_position_status().player_turn();
        if !side_ready_check(game.bit_position().bit_boards_white_and_black(), &turn) {
            take_back(game, Ghost(p), Ghost(b2));
            assert(o == (Err::<Option<MatLine>, SearchError>(SearchError::SideNotReady), 0nat, nc)) by {
                reveal_with_fuel(EngineMat::solve, 1);
                reveal_with_fuel(EngineMat::process, 1);
            }
            return Err(SearchError::SideNotReady);
        }
        game.update_endgame_status();
        let ghost e = game.end_game;
        assert(e == end_game_of(
            q,
            h2,
            check_status_of(q.bit_position_status.spec_player_turn(), q.bit_boards_white_and_black),
            position_moves(q).len() == 0,
        ));
        let result = match game.end_game() {
            EndGame::Mat(_lost_color) => {
                proof {
                    lemma_counted_block(stat_eval.n_positions_evaluated);
                }
                update_stat(stat_eval);
                proof {
                    crate::stat_eval::lemma_counted_iter_one(old(stat_eval).n_positions_evaluated);
                }
                if !is_attacker {
                    assert(o == (Ok::<Option<MatLine>, SearchError>(None), 1nat, nc)) by {
                        reveal_with_fuel(EngineMat::solve, 1);
                        reveal_with_fuel(EngineMat::process, 1);
                    }
                    None
                } else {
                    let found = BitboardMoveScoreMat {
                        bitboard_move: m,
                        mat_in: current_depth + 1,
                        variant: chars_to_string(&updated_variant),
                    };
                    assert(o == (Ok::<Option<MatLine>, SearchError>(Some((m, (current_depth + 1) as u8, updated_variant@))), 1nat, nc)) by {
                        reveal_with_fuel(EngineMat::solve, 1);
                        reveal_with_fuel(EngineMat::process, 1);
                    }
                    Some(found)
                }
            },
            EndGame::Ongoing => {
                if current_depth < self.max_depth {
                    assert(o == self.solve(q, h2, (current_depth + 1) as u8, !is_attacker, updated_variant@, nc)) by {
                        reveal_with_fuel(EngineMat::solve, 1);
                        reveal_with_fuel(EngineMat::fold, 1);
        reveal_with_fuel(EngineMat::process, 1);
                    }
                    match self.mat_solver(
                        &updated_variant,
                        game,
                        current_depth + 1,
                        !is_attacker,
                        stat_eval,
                        max_depth,
                        Ghost(top),
                    ) {
                        Err(e) => {
                            take_back(game, Ghost(p), Ghost(b2));
                            return Err(e);
                        },
                        Ok(found) => found,
                    }
                } else {
                    proof {
                        lemma_counted_block(stat_eval.n_positions_evaluated);
                    }
                    update_stat(stat_eval);
                proof {
                    crate::stat_eval::lemma_counted_iter_one(old(stat_eval).n_positions_evaluated);
                }
                    assert(o == (Ok::<Option<MatLine>, SearchError>(None), 1nat, nc)) by {
                        reveal_with_fuel(EngineMat::solve, 1);
                        reveal_with_fuel(EngineMat::process, 1);
                    }
                    None
                }
            },
            _ => {
                proof {
                    lemma_counted_block(stat_eval.n_positions_evaluated);
                }
                update_stat(stat_eval);
                proof {
                    crate::stat_eval::lemma_counted_iter_one(old(stat_eval).n_positions_evaluated);
                }
                assert(o == (Ok::<Option<MatLine>, SearchError>(None), 1nat, nc)) by {
                    reveal_with_fuel(EngineMat::solve, 1);
                    reveal_with_fuel(EngineMat::process, 1);
                }
                None
            },
        };
        take_back(game, Ghost(p), Ghost(b2));
        Ok(result)
    }

    /// Searches the position of `game` at ply `current_depth` (see `solve`);
    /// the game comes back as it was.
    #[verifier::spinoff_prover]
    #[verifier::rlimit(50)]
    fn mat_solver(
        &self,
        variant: &Vec<char>,
        game: &mut GameState,
        current_depth: u8,
        is_attacker: bool,
        stat_eval: &mut StatEval,
        max_depth: u8,
        Ghost(top): Ghost<int>,
    ) -> (r: Result<Option<BitboardMoveScoreMat>, SearchError>)
        requires
            self.wf(),
            current_depth <= self.max_depth,
            old(stat_eval).n_positions_evaluated / 5000 <= top,
            (top + 1) * 5000 < u64::MAX,
        ensures
            ({
                let o = self.solve(
                    old(game).bit_position,
                    old(game).hash_positions.hashes@,
                    current_depth,
                    is_attacker,
                    variant@,
                    old(stat_eval).n_check as nat,
                );
                &&& mat_view(r) == o.0
                &&& final(stat_eval).n_positions_evaluated == counted_iter(old(stat_eval).n_positions_evaluated, o.1)
                &&& final(stat_eval).n_check == o.2
            }),
            final(stat_eval).n_transposition_hit == old(stat_eval).n_transposition_hit,
            final(stat_eval).n_positions_evaluated / 5000 <= top,
            final(game).bit_position == old(game).bit_position,
            final(game).hash_positions.hashes@ == old(game).hash_positions.hashes@,
            final(game).backup@ == old(game).backup@,
        decreases self.max_depth - current_depth, 2int, 0int,
    {
        let ghost p = game.bit_position;
        let ghost h = game.hash_positions.hashes@;
        let ghost n0 = stat_eval.n_positions_evaluated;
        let ghost nc0: nat = stat_eval.n_check as nat;
        let ghost v = variant@;
        let ghost d = current_depth;
        let ghost att = is_attacker;
        let ghost total = self.solve(p, h, d, att, v, nc0);
        let turn = game.bit_position().bit_position_status().player_turn();
        if !side_ready_check(game.bit_position().bit_boards_white_and_black(), &turn) {
            assert(total == (Err::<Option<MatLine>, SearchError>(SearchError::SideNotReady), 0nat, nc0)) by {
                reveal_with_fuel(EngineMat::solve, 1);
                reveal_with_fuel(EngineMat::fold, 1);
            }
            return Err(SearchError::SideNotReady);
        }
        let all = game.gen_moves();
        let moves = if is_attacker {
            match self.filter_move_with_check(game, &all, stat_eval) {
                Err(e) => {
                    assert(total == (Err::<Option<MatLine>, SearchError>(e), 0nat, nc0)) by {
                        reveal_with_fuel(EngineMat::solve, 1);
                        reveal_with_fuel(EngineMat::fold, 1);
                    }
                    return Err(e);
                },
                Ok(filtered) => filtered,
            }
        } else {
            all
        };
        let ghost ms = moves@;
        let ghost c0: nat = stat_eval.n_check as nat;
        assert(c0 == if att { nc0 + ms.len() } else { nc0 });
        if moves.len() == 0 {
            assert(total == (Ok::<Option<MatLine>, SearchError>(None), 0nat, c0)) by {
                reveal_with_fuel(EngineMat::solve, 1);
                reveal_with_fuel(EngineMat::fold, 1);
            }
            return Ok(None);
        }
        assert(total == self.fold(p, h, d, att, v, ms, 0, None, 0, c0)) by {
            reveal_with_fuel(EngineMat::solve, 1);
            reveal_with_fuel(EngineMat::fold, 1);
        }
        let mut shortest_mat_opt: Option<BitboardMoveScoreMat> = None;
        let ghost mut leaves: nat = 0;
        let mut i: usize = 0;
        while i < moves.len()
            invariant
                self.wf(),
                current_depth <= self.max_depth,
                (top + 1) * 5000 < u64::MAX,
                i <= ms.len(),
                ms == moves@,
                v == variant@,
                d == current_depth,
                att == is_attacker,
                p == old(game).bit_position,
                h == old(game).hash_positions.hashes@,
                game.bit_position == p,
                game.hash_positions.hashes@ == h,
                game.backup@ == old(game).backup@,
                total == self.fold(
                    p,
                    h,
                    d,
                    att,
                    v,
                    ms,
                    i as int,
                    opt_view(shortest_mat_opt),
                    leaves,
                    stat_eval.n_check as nat,
                ),
                total == self.solve(p, h, d, att, v, nc0),
                stat_eval.n_positions_evaluated == counted_iter(n0, leaves),
                stat_eval.n_positions_evaluated / 5000 <= top,
                stat_eval.n_transposition_hit == old(stat_eval).n_transposition_hit,
                n0 == old(stat_eval).n_positions_evaluated,
                nc0 == old(stat_eval).n_check,
            decreases ms.len() - i,
        {
            let m = moves[i];
            let ghost best0 = opt_view(shortest_mat_opt);
            let ghost checks: nat = stat_eval.n_check as nat;
            let ghost o = self.process(p, h, m, att, v, d, checks);
            let move_mat_opt = self.process_move(
                game,
                m,
                is_attacker,
                variant,
                stat_eval,
                current_depth,
                max_depth,
                Ghost(top),
            );
            let ghost l2 = leaves + o.1;
            let ghost c2 = o.2;
            proof {
                lemma_counted_iter_add(n0, leaves, o.1);
                leaves = l2;
            }
            let move_mat = match move_mat_opt {
                Err(e) => {
                    assert(total == (Err::<Option<MatLine>, SearchError>(e), l2, c2)) by {
                        reveal_with_fuel(EngineMat::fold, 1);
                        reveal_with_fuel(EngineMat::process, 1);
                    }
                    return Err(e);
                },
                Ok(move_mat) => move_mat,
            };
            match (move_mat, &shortest_mat_opt) {
                (Some(mm), Some(shortest)) => {
                    if (is_attacker && shortest.mat_in > mm.mat_in) || (!is_attacker && shortest.mat_in < mm.mat_in) {
                        let ghost x = (mm.bitboard_move, mm.mat_in, mm.variant@);
                        assert(total == self.fold(p, h, d, att, v, ms, i + 1, Some((m, x.1, x.2)), l2, c2)) by {
                            reveal_with_fuel(EngineMat::fold, 1);
                            reveal_with_fuel(EngineMat::process, 1);
                        }
                        shortest_mat_opt = Some(BitboardMoveScoreMat { bitboard_move: m, mat_in: mm.mat_in, variant: mm.variant });
                    } else {
                        assert(total == self.fold(p, h, d, att, v, ms, i + 1, best0, l2, c2)) by {
                            reveal_with_fuel(EngineMat::fold, 1);
                            reveal_with_fuel(EngineMat::process, 1);
                        }
                    }
                },
                (Some(mm), None) => {
                    let ghost x = (mm.bitboard_move, mm.mat_in, mm.variant@);
                    assert(total == self.fold(p, h, d, att, v, ms, i + 1, Some((m, x.1, x.2)), l2, c2)) by {
                        reveal_with_fuel(EngineMat::fold, 1);
                        reveal_with_fuel(EngineMat::process, 1);
                    }
                    shortest_mat_opt = Some(BitboardMoveScoreMat { bitboard_move: m, mat_in: mm.mat_in, variant: mm.variant });
                },
                (None, Some(_)) => {
                    if !is_attacker {
                        assert(total == (Ok::<Option<MatLine>, SearchError>(None), l2, c2)) by {
                            reveal_with_fuel(EngineMat::fold, 1);
                            reveal_with_fuel(EngineMat::process, 1);
                        }
                        return Ok(None);
                    }
                    assert(total == self.fold(p, h, d, att, v, ms, i + 1, best0, l2, c2)) by {
                        reveal_with_fuel(EngineMat::fold, 1);
                        reveal_with_fuel(EngineMat::process, 1);
                    }
                },
                (None, None) => {
                    assert(total == self.fold(p, h, d, att, v, ms, i + 1, best0, l2, c2)) by {
                        reveal_with_fuel(EngineMat::fold, 1);
                        reveal_with_fuel(EngineMat::process, 1);
                    }
                },
            }
            i = i + 1;
        }
        assert(total == (Ok::<Option<MatLine>, SearchError>(opt_view(shortest_mat_opt)), leaves, stat_eval.n_check as nat)) by {
            reveal_with_fuel(EngineMat::fold, 1);
            reveal_with_fuel(EngineMat::process, 1);
        }
        Ok(shortest_mat_opt)
    }

    /// The shortest forced mate for the side to move of `game` within the
    /// solver's plies, the game itself left alone; `max_depth` is not used.
    pub fn mat_solver_init(&self, game: &GameState, max_depth: u8, stat_eval: &mut StatEval) -> (r: Result<
        Option<BitboardMoveScoreMat>,
        SearchError,
    >)
        requires
            self.wf(),
            old(stat_eval).n_positions_evaluated < u64::MAX - 10000,
        ensures
            ({
                let o = self.solve(
                    game.bit_position,
                    game.hash_positions.hashes@,
                    0,
                    true,
                    Seq::empty(),
                    old(stat_eval).n_check as nat,
                );
                &&& mat_view(r) == o.0
                &&& final(stat_eval).n_positions_evaluated == counted_iter(old(stat_eval).n_positions_evaluated, o.1)
                &&& final(stat_eval).n_check == o.2
            }),
            final(stat_eval).n_transposition_hit == old(stat_eval).n_transposition_hit,
            final(stat_eval).n_positions_evaluated / 5000 <= old(stat_eval).n_positions_evaluated / 5000,
    {
        let mut game_clone = game.copy();
        let variant: Vec<char> = Vec::new();
        proof {
            assert(variant@ =~= Seq::<char>::empty());
        }
        self.mat_solver(
            &variant,
            &mut game_clone,
            0,
            true,
            stat_eval,
            max_depth,
            Ghost((stat_eval.n_positions_evaluated / 5000) as int),
        )
    }
}

/// The checking moves are moves of the list they are picked from.
proof fn lemma_checking_moves_among(p: BitPosition, ms: Seq<BitBoardMove>, n: nat)
    requires
        n <= ms.len(),
    ensures
        checking_moves(p, ms, n) matches Ok(w) ==> forall|x: BitBoardMove| w.contains(x) ==> ms.contains(x),
    decreases n,
{
    if n > 0 {
        lemma_checking_moves_among(p, ms, (n - 1) as nat);
        if let Ok(w) = checking_moves(p, ms, n) {
            let w0 = checking_moves(p, ms, (n - 1) as nat)->Ok_0;
            assert forall|x: BitBoardMove| w.contains(x) implies ms.contains(x) by {
                let k = choose|k: int| 0 <= k < w.len() && w[k] == x;
                if k < w0.len() {
                    assert(w0[k] == x);
                    assert(w0.contains(x));
                } else {
                    assert(x == ms[n - 1]);
                }
            }
        }
    }
}

impl EngineMat {
    /// The mate kept over the moves `ms` starts with one of them.
    proof fn lemma_fold_move_among(
        &self,
        p: BitPosition,
        h: Seq<ZobristHash>,
        d: u8,
        att: bool,
        v: Seq<char>,
        ms: Seq<BitBoardMove>,
        i: int,
        best: Option<MatLine>,
        leaves: nat,
        checks: nat,
    )
        requires
            best matches Some(b) ==> ms.contains(b.0),
        ensures
            self.fold(p, h, d, att, v, ms, i, best, leaves, checks).0 matches Ok(Some(x)) ==> ms.contains(x.0),
        decreases ms.len() - i,
    {
        reveal_with_fuel(EngineMat::fold, 1);
        reveal_with_fuel(EngineMat::process, 1);
        if 0 <= i < ms.len() {
            let o = self.process(p, h, ms[i], att, v, d, checks);
            let l2 = leaves + o.1;
            let c2 = o.2;
            assert(ms.contains(ms[i]));
            if o.0 is Ok {
                let mm = o.0->Ok_0;
                match (mm, best) {
                    (Some(x), Some(s)) => {
                        self.lemma_fold_move_among(p, h, d, att, v, ms, i + 1, Some((ms[i], x.1, x.2)), l2, c2);
                        self.lemma_fold_move_among(p, h, d, att, v, ms, i + 1, best, l2, c2);
                    },
                    (Some(x), None) => {
                        self.lemma_fold_move_among(p, h, d, att, v, ms, i + 1, Some((ms[i], x.1, x.2)), l2, c2);
                    },
                    _ => {
                        self.lemma_fold_move_among(p, h, d, att, v, ms, i + 1, best, l2, c2);
                    },
                }
            }
        }
    }

    /// A mate the solver reports starts with a legal move of the position
    /// searched.
    pub proof fn lemma_mat_move_is_legal(&self, p: BitPosition, h: Seq<ZobristHash>, d: u8, att: bool, v: Seq<char>, nc: nat)
        ensures
            self.solve(p, h, d, att, v, nc).0 matches Ok(Some(x)) ==> position_moves(p).contains(x.0),
    {
        reveal_with_fuel(EngineMat::solve, 1);
        reveal_with_fuel(EngineMat::fold, 1);
        let all = position_moves(p);
        if turn_ready(p) {
            if att {
                lemma_checking_moves_among(p, all, all.len());
                if let Ok(ms) = checking_moves(p, all, all.len()) {
                    if !(nc + ms.len() > u64::MAX) && ms.len() > 0 {
                        self.lemma_fold_move_among(p, h, d, att, v, ms, 0, None, 0, nc + ms.len());
                    }
                }
            } else if all.len() > 0 {
                self.lemma_fold_move_among(p, h, d, att, v, all, 0, None, 0, nc);
            }
        }
    }
}

} // verus!
