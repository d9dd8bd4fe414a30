//! A game reduced to its current position.
use vstd::prelude::*;
use crate::bitboard_move::BitBoardMove;
use crate::bitboards::move_wf;
use crate::fen::Position;
use crate::position::{BitPosition, moved_position, status_move_ok};

verus! {

/// A game: the current position in bitboard form.
pub struct Game {
    pub bit_position: BitPosition,
}

impl Game {
    /// The game starting from `position`.
    pub fn from(position: Position) -> (r: Self)
        requires
            position.status.wf(),
        ensures
            r.bit_position.describes(position),
    {
        Game { bit_position: BitPosition::from(position) }
    }

    /// The game after `b_move`.
    pub fn play(self, b_move: BitBoardMove) -> (r: Game)
        requires
            move_wf(b_move),
            status_move_ok(b_move, self.bit_position.bit_position_status),
        ensures
            r.bit_position == moved_position(self.bit_position, b_move),
    {
        Game { bit_position: self.bit_position.move_piece(&b_move) }
    }
}

} // verus!
