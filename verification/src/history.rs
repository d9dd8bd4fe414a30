//! The record of a game: the position it started from and the moves played.
use vstd::prelude::*;
use crate::bitboard_move::BitBoardMove;

verus! {

/// The starting position of a game of chess.
pub const FEN_START_POSITION: &'static str = "rnbqkbnr/pppppppp/8/8/8/8/PPPPPPPP/RNBQKBNR w KQkq - 0 1";

/// The position a game started from, as a FEN text, and its moves since.
#[derive(Debug)]
pub struct History {
    pub fen: String,
    pub moves: Vec<BitBoardMove>,
}

impl Default for History {
    fn default() -> (r: Self)
        ensures
            r.fen@ == Seq::<char>::empty(),
            r.moves@ == Seq::<BitBoardMove>::empty(),
    {
        History { fen: String::new(), moves: Vec::new() }
    }
}

impl History {
    /// A game from the starting position, no move played.
    pub fn init(&mut self)
        ensures
            final(self).fen@ == FEN_START_POSITION@,
            final(self).moves@ == Seq::<BitBoardMove>::empty(),
    {
        self.set_fen(FEN_START_POSITION);
    }

    /// A game from the position `fen`, no move played.
    pub fn set_fen(&mut self, fen: &str)
        ensures
            final(self).fen@ == fen@,
            final(self).moves@ == Seq::<BitBoardMove>::empty(),
    {
        self.fen = fen.to_string();
        self.moves = Vec::new();
    }

    /// One more move played.
    pub fn add_moves(&mut self, m: BitBoardMove)
        ensures
            final(self).fen@ == old(self).fen@,
            final(self).moves@ == old(self).moves@.push(m),
    {
        self.moves.push(m);
    }
}

} // verus!
