//! Scoring the engine on test positions: whether the move it played is one of
//! the moves to avoid or one of the best moves each position lists, and how
//! long it thought.
use vstd::prelude::*;
use crate::text::{chars_to_string, push_str};

verus! {

/// The moves a position lists, joined by spaces, and whether the engine
/// played one of them.
#[derive(Debug)]
pub struct MovePlayed {
    pub mv: String,
    pub is_played: bool,
}

/// What the engine did on one position: its id, the moves to avoid and the
/// best moves (when the position lists any), the move played and the time it
/// took.
#[derive(Debug)]
pub struct EpdEval {
    pub id: String,
    pub am: Option<MovePlayed>,
    pub bm: Option<MovePlayed>,
    pub best_move_opt: Option<String>,
    pub duration_ms: u64,
}

/// The time the engine may think on each position.
pub struct Constraint {
    pub max_time_sec: u64,
}

impl Constraint {
    pub fn new(max_time_sec: u64) -> (r: Self)
        ensures
            r.max_time_sec == max_time_sec,
    {
        Constraint { max_time_sec }
    }

    pub fn max_time_sec(&self) -> (r: u64)
        ensures
            r == self.max_time_sec,
    {
        self.max_time_sec
    }
}

/// The score of one position: whether it lists moves to avoid and whether
/// one was avoided, whether it lists best moves and whether one was played,
/// whether the engine answered in time, and the move played.
#[derive(Debug)]
pub struct EpdScore {
    pub am_count: u64,
    pub am_ok: u64,
    pub bm_count: u64,
    pub bm_ok: u64,
    pub time_bonus: u64,
    pub best_move_opt: Option<String>,
}

/// The texts of a list of moves.
pub open spec fn texts(v: Seq<String>) -> Seq<Seq<char>> {
    v.map_values(|s: String| s@)
}

/// The moves joined by single spaces.
pub open spec fn joined(v: Seq<Seq<char>>) -> Seq<char>
    decreases v.len(),
{
    if v.len() == 0 {
        Seq::empty()
    } else if v.len() == 1 {
        v[0]
    } else {
        joined(v.drop_last()) + seq![' '] + v.last()
    }
}

/// The entry for a list of moves: none when the list is empty, else the
/// joined moves and whether the move played is one of them.
pub open spec fn move_played_of(moves: Seq<Seq<char>>, best: Option<Seq<char>>) -> Option<(Seq<char>, bool)> {
    if moves.len() == 0 {
        None
    } else {
        Some((joined(moves), best matches Some(b) && moves.contains(b)))
    }
}

/// The plain values of an entry.
pub open spec fn move_played_view(m: Option<MovePlayed>) -> Option<(Seq<char>, bool)> {
    match m {
        Some(mp) => Some((mp.mv@, mp.is_played)),
        None => None,
    }
}

/// The text of an optional move.
pub open spec fn opt_text(o: Option<String>) -> Option<Seq<char>> {
    match o {
        Some(s) => Some(s@),
        None => None,
    }
}

/// Whether `mv` is one of `moves`.
fn contains_move(moves: &Vec<String>, mv: &String) -> (r: bool)
    ensures
        r == texts(moves@).contains(mv@),
{
    let mut i: usize = 0;
    while i < moves.len()
        invariant
            i <= moves@.len(),
            forall|k: int| 0 <= k < i ==> moves@[k]@ != mv@,
        decreases moves@.len() - i,
    {
        if moves[i] == *mv {
            assert(texts(moves@)[i as int] == mv@);
            return true;
        }
        i = i + 1;
    }
    assert forall|k: int| 0 <= k < texts(moves@).len() implies texts(moves@)[k] != mv@ by {
        assert(moves@[k]@ != mv@);
    }
    false
}

/// The moves joined by single spaces (see `joined`).
fn join_moves(moves: &Vec<String>) -> (r: String)
    ensures
        r@ == joined(texts(moves@)),
{
    let mut out: Vec<char> = Vec::new();
    let mut i: usize = 0;
    while i < moves.len()
        invariant
            i <= moves@.len(),
            out@ == joined(texts(moves@).subrange(0, i as int)),
        decreases moves@.len() - i,
    {
        let ghost before = out@;
        if i > 0 {
            out.push(' ');
        }
        push_str(&mut out, moves[i].as_str());
        proof {
            let t = texts(moves@);
            let s2 = t.subrange(0, i + 1);
            assert(s2.drop_last() =~= t.subrange(0, i as int));
            assert(s2.last() == moves@[i as int]@);
            if i == 0 {
                assert(s2.len() == 1);
                assert(out@ =~= s2[0]);
            } else {
                assert(out@ =~= joined(s2.drop_last()) + seq![' '] + s2.last());
            }
        }
        i = i + 1;
    }
    assert(texts(moves@).subrange(0, moves@.len() as int) =~= texts(moves@));
    chars_to_string(&out)
}

/// The entry for a list of moves (see `move_played_of`).
fn move_played(moves: &Vec<String>, best_move_opt: &Option<String>) -> (r: Option<MovePlayed>)
    ensures
        move_played_view(r) == move_played_of(texts(moves@), opt_text(*best_move_opt)),
{
    if moves.len() == 0 {
        return None;
    }
    let is_played = match best_move_opt {
        Some(b) => contains_move(moves, b),
        None => false,
    };
    Some(MovePlayed { mv: join_moves(moves), is_played })
}

/// What the engine did on a position, from the move it played (as text),
/// the position's moves to avoid (`ams`) and best moves (`bms`), its id and
/// the time taken: each list gives an entry when it is not empty, saying
/// whether the move played is in it.
pub fn epd_eval_outcome(
    id: String,
    ams: Vec<String>,
    bms: Vec<String>,
    best_move_opt: Option<String>,
    duration_ms: u64,
) -> (r: EpdEval)
    ensures
        r.id@ == id@,
        move_played_view(r.am) == move_played_of(texts(ams@), opt_text(best_move_opt)),
        move_played_view(r.bm) == move_played_of(texts(bms@), opt_text(best_move_opt)),
        opt_text(r.best_move_opt) == opt_text(best_move_opt),
        r.duration_ms == duration_ms,
{
    let am = move_played(&ams, &best_move_opt);
    let bm = move_played(&bms, &best_move_opt);
    EpdEval { id, am, bm, best_move_opt, duration_ms }
}

/// The score of a position: one move to avoid counted, and avoided when it
/// was not played; one best move counted, and found when it was played; a
/// bonus when the engine took less than `max_duration_sec` seconds.
pub fn epd_score(epd_eval: &EpdEval, max_duration_sec: u64) -> (r: EpdScore)
    ensures
        r.am_count == (if epd_eval.am is Some { 1u64 } else { 0u64 }),
        r.am_ok == (if epd_eval.am matches Some(am) && !am.is_played { 1u64 } else { 0u64 }),
        r.bm_count == (if epd_eval.bm is Some { 1u64 } else { 0u64 }),
        r.bm_ok == (if epd_eval.bm matches Some(bm) && bm.is_played { 1u64 } else { 0u64 }),
        r.time_bonus == (if (epd_eval.duration_ms as int) < (max_duration_sec as int) * 1000 { 1u64 } else { 0u64 }),
        opt_text(r.best_move_opt) == opt_text(epd_eval.best_move_opt),
{
    let mut am_count: u64 = 0;
    let mut am_ok: u64 = 0;
    let mut bm_count: u64 = 0;
    let mut bm_ok: u64 = 0;
    let mut time_bonus: u64 = 0;
    if let Some(am) = &epd_eval.am {
        am_count = 1;
        if !am.is_played {
            am_ok = 1;
        }
    }
    if let Some(bm) = &epd_eval.bm {
        bm_count = 1;
        if bm.is_played {
            bm_ok = 1;
        }
    }
    if (epd_eval.duration_ms as u128) < (max_duration_sec as u128) * 1000 {
        time_bonus = 1;
    }
    let best_move_opt = match &epd_eval.best_move_opt {
        Some(s) => Some(s.clone()),
        None => None,
    };
    EpdScore { am_count, am_ok, bm_count, bm_ok, time_bonus, best_move_opt }
}

} // verus!
