//! How long an engine may think for its next move.
use vstd::prelude::*;
use std::time::Duration;
use crate::game_state::GameState;

verus! {

/// The usual length of a game, in half-moves.
pub const AVG_LENGTH_GAME: u64 = 220;

/// The time for the next move, in milliseconds: five seconds for the first ten
/// half-moves, a twentieth of what is left past the usual length of a game,
/// and in between twice what is left shared among the half-moves left to that
/// length.
pub open spec fn allocation_ms(time_remaining_ms: u64, n_half_moves: u64) -> int {
    if n_half_moves < 10 {
        5000
    } else if n_half_moves > AVG_LENGTH_GAME {
        (time_remaining_ms / 20) as int
    } else {
        (2 * time_remaining_ms) / (AVG_LENGTH_GAME - n_half_moves)
    }
}

/// The time for the next move in whole seconds, at least one.
pub open spec fn allocation_sec(time_remaining_ms: u64, n_half_moves: u64) -> u64 {
    let ms = allocation_ms(time_remaining_ms, n_half_moves);
    if ms > 1000 {
        (ms / 1000) as u64
    } else {
        1
    }
}

/// The time for the next move in whole seconds; the usual length of a game
/// itself shares the time among no half-move and is left out.
pub fn compute_allocate_time_in_sec(time_remaining_ms: u64, n_half_moves: u64) -> (r: u64)
    requires
        n_half_moves != AVG_LENGTH_GAME,
        2 * time_remaining_ms <= u64::MAX,
    ensures
        r == allocation_sec(time_remaining_ms, n_half_moves),
{
    let allocation_in_ms: u64 = if n_half_moves < 10 {
        5000
    } else if n_half_moves > AVG_LENGTH_GAME {
        time_remaining_ms / 20
    } else {
        2 * time_remaining_ms / (AVG_LENGTH_GAME - n_half_moves)
    };
    if allocation_in_ms > 1000 {
        allocation_in_ms / 1000
    } else {
        1
    }
}

/// The duration `Duration::from_secs` gives for `secs` seconds.
pub uninterp spec fn secs_duration(secs: u64) -> Duration;

/// Calls `Duration::from_secs` (std): the duration of `secs` whole seconds.
#[verifier::external_body]
fn duration_from_secs(secs: u64) -> (r: Duration)
    ensures
        r == secs_duration(secs),
{
    Duration::from_secs(secs)
}

/// The time the side to move may think, when a clock runs.
pub fn estimate_time_allocation(remaining_time_ms_opt: Option<u64>, game: &GameState) -> (r: Option<Duration>)
    requires
        game.bit_position.bit_position_status.n_half_moves != AVG_LENGTH_GAME,
        remaining_time_ms_opt matches Some(clock) ==> 2 * clock <= u64::MAX,
    ensures
        r == match remaining_time_ms_opt {
            Some(clock) => Some(
                secs_duration(allocation_sec(clock, game.bit_position.bit_position_status.n_half_moves as u64)),
            ),
            None => None,
        },
{
    let n_half_moves = game.bit_position().bit_position_status().n_half_moves() as u64;
    match remaining_time_ms_opt {
        Some(clock) => Some(duration_from_secs(compute_allocate_time_in_sec(clock, n_half_moves))),
        None => None,
    }
}

} // verus!
