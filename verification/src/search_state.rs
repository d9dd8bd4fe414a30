//! What a search remembers between its branches: the killer moves, two per
//! depth, that cut the search before.
use vstd::prelude::*;
use crate::bitboard_move::BitBoardMove;

verus! {

/// The depths killer moves are kept for.
pub const MAX_DEPTH: usize = 64;

/// The killer moves of each depth, the latest first.
#[derive(Debug)]
pub struct SearchState {
    pub killer_moves: Vec<(Option<BitBoardMove>, Option<BitBoardMove>)>,
}

impl SearchState {
    /// There is a pair of killer moves for each depth.
    pub open spec fn wf(&self) -> bool {
        self.killer_moves@.len() == MAX_DEPTH
    }

    /// `mv` is one of the two killer moves of `depth`.
    pub open spec fn has_killer(&self, depth: int, mv: BitBoardMove) -> bool {
        self.killer_moves@[depth].0 == Some(mv) || self.killer_moves@[depth].1 == Some(mv)
    }

    /// No killer move at any depth.
    pub fn new() -> (r: Self)
        ensures
            r.wf(),
            forall|d: int| 0 <= d < MAX_DEPTH ==> #[trigger] r.killer_moves@[d] == (None::<BitBoardMove>, None::<BitBoardMove>),
    {
        let mut killer_moves: Vec<(Option<BitBoardMove>, Option<BitBoardMove>)> = Vec::new();
        let mut i: usize = 0;
        while i < MAX_DEPTH
            invariant
                i <= MAX_DEPTH,
                killer_moves@.len() == i,
                forall|d: int| 0 <= d < i ==> #[trigger] killer_moves@[d] == (None::<BitBoardMove>, None::<BitBoardMove>),
            decreases MAX_DEPTH - i,
        {
            killer_moves.push((None, None));
            i = i + 1;
        }
        SearchState { killer_moves }
    }

    /// Makes `mv` the first killer move of `depth`, the former first one
    /// second, unless `mv` is the first one already.
    pub fn add_killer_move(&mut self, depth: usize, mv: BitBoardMove)
        requires
            old(self).wf(),
            depth < MAX_DEPTH,
        ensures
            final(self).wf(),
            final(self).killer_moves@ == (if old(self).killer_moves@[depth as int].0 == Some(mv) {
                old(self).killer_moves@
            } else {
                old(self).killer_moves@.update(depth as int, (Some(mv), old(self).killer_moves@[depth as int].0))
            }),
            final(self).has_killer(depth as int, mv),
    {
        let (first, _second) = self.killer_moves[depth];
        let same = match first {
            Some(m) => m == mv,
            None => false,
        };
        if !same {
            self.killer_moves.set(depth, (Some(mv), first));
        }
    }

    /// `mv` is a killer move of `depth`.
    pub fn is_killer_move(&self, depth: usize, mv: BitBoardMove) -> (r: bool)
        requires
            self.wf(),
            depth < MAX_DEPTH,
        ensures
            r == self.has_killer(depth as int, mv),
    {
        let (first, second) = self.killer_moves[depth];
        let in_first = match first {
            Some(m) => m == mv,
            None => false,
        };
        let in_second = match second {
            Some(m) => m == mv,
            None => false,
        };
        in_first || in_second
    }
}

} // verus!
