//! What the Monte Carlo tree search keeps besides its tree: the move of each
//! edge and its counters.
use vstd::prelude::*;
use crate::bitboard_move::BitBoardMove;

verus! {

/// The move an edge of the search tree stands for.
#[derive(Debug, Copy, Clone, PartialEq, Eq, Structural)]
pub struct EdgeMove(pub BitBoardMove);

/// The simulations run, the moves they played and the moves generated.
#[derive(Debug, Copy, Clone, PartialEq, Eq, Structural)]
pub struct MctsStat {
    pub n_simulation: u64,
    pub n_moves_per_game: u64,
    pub n_moves_gen: u64,
}

impl Default for MctsStat {
    fn default() -> (r: Self)
        ensures
            r == (MctsStat { n_simulation: 0, n_moves_per_game: 0, n_moves_gen: 0 }),
    {
        MctsStat { n_simulation: 0, n_moves_per_game: 0, n_moves_gen: 0 }
    }
}

impl MctsStat {
    /// Adds the counts of more simulations.
    pub fn inc(&mut self, n_simulation: u64, n_moves_per_game: u64, n_moves_gen: u64)
        requires
            old(self).n_simulation + n_simulation <= u64::MAX,
            old(self).n_moves_gen + n_moves_gen <= u64::MAX,
            old(self).n_moves_per_game + n_moves_per_game <= u64::MAX,
        ensures
            final(self).n_simulation == old(self).n_simulation + n_simulation,
            final(self).n_moves_gen == old(self).n_moves_gen + n_moves_gen,
            final(self).n_moves_per_game == old(self).n_moves_per_game + n_moves_per_game,
    {
        self.n_simulation += n_simulation;
        self.n_moves_gen += n_moves_gen;
        self.n_moves_per_game += n_moves_per_game;
    }
}

} // verus!
