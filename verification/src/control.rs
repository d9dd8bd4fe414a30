//! The squares a side controls: the targets of each of its pieces but the
//! pawns, and the squares its pawns attack.
use vstd::prelude::*;
use crate::bitboard::{BitBoard, BitIndex};
use crate::bitboards::{BitBoards, BitBoardsWhiteAndBlack};
use crate::bits::{lemma_clear_lowest, lemma_lowest_in, lemma_or_assoc, lemma_or_zero};
use crate::piece_move::{
    bishop_targets, castle_targets, gen_pawn_squares_attacked, king_targets, knight_targets,
    moves_list, pawn_captures, queen_targets_fn, rook_targets, PieceMoves,
};
use crate::square::{opposite, Color, TypePiece};
use vstd::std_specs::bits::u64_trailing_zeros;

verus! {

/// The board with every square set.
pub const ALL_SQUARES: u64 = 0xffff_ffff_ffff_ffffu64;

/// The squares the pawns of `color` on `b` attack, whoever stands there.
pub open spec fn pawns_reach(b: u64, color: Color) -> u64
    decreases b,
{
    if b == 0 {
        0
    } else {
        let i = u64_trailing_zeros(b) as int;
        proof {
            lemma_clear_lowest(b);
        }
        pawn_captures(i, color, ALL_SQUARES) | pawns_reach(b & ((b - 1) as u64), color)
    }
}

/// The moves of the pieces of `color` but its pawns, castles left out: rooks,
/// bishops, knights, queens, then the king, each kind lowest square first.
pub open spec fn control_moves(color: Color, bb: BitBoardsWhiteAndBlack) -> Seq<PieceMoves> {
    let own = bb.side(color);
    let opp = bb.side(opposite(color));
    moves_list(own.board(TypePiece::Rook), TypePiece::Rook, rook_targets(own.all(), opp.all()))
        + moves_list(own.board(TypePiece::Bishop), TypePiece::Bishop, bishop_targets(own.all(), opp.all()))
        + moves_list(own.board(TypePiece::Knight), TypePiece::Knight, knight_targets(own.all()))
        + moves_list(own.board(TypePiece::Queen), TypePiece::Queen, queen_targets_fn(own.all(), opp.all()))
        + moves_list(
        own.board(TypePiece::King),
        TypePiece::King,
        king_targets(own.all(), castle_targets(color, own, opp, None, None)),
    )
}

/// The squares a side controls.
#[derive(Debug, Clone)]
pub struct ControlSquares {
    /// The moves of each piece but the pawns.
    pub moves: Vec<PieceMoves>,
    /// The squares the pawns attack.
    pub pawns_control: BitBoard,
}

impl ControlSquares {
    /// There are no more piece moves than five kinds of 64 pieces.
    pub open spec fn wf(&self) -> bool {
        self.moves@.len() <= 320
    }

    pub fn new(moves: Vec<PieceMoves>, pawns_control: BitBoard) -> (r: Self)
        requires
            moves@.len() <= 320,
        ensures
            r.moves@ == moves@,
            r.pawns_control == pawns_control,
            r.wf(),
    {
        ControlSquares { moves, pawns_control }
    }

    pub fn moves(&self) -> (r: &Vec<PieceMoves>)
        ensures
            r@ == self.moves@,
    {
        &self.moves
    }

    pub fn pawns_control(&self) -> (r: BitBoard)
        ensures
            r == self.pawns_control,
    {
        self.pawns_control
    }
}

/// The lowest square of `b & (b - 1)` lies above the lowest square of `b`.
proof fn lemma_lowest_rises(b: u64)
    requires
        b != 0,
        b & ((b - 1) as u64) != 0,
    ensures
        u64_trailing_zeros(b & ((b - 1) as u64)) > u64_trailing_zeros(b),
{
    vstd::std_specs::bits::axiom_u64_trailing_zeros(b);
    let c = b & ((b - 1) as u64);
    vstd::std_specs::bits::axiom_u64_trailing_zeros(c);
    let t = u64_trailing_zeros(b) as u64;
    let j = u64_trailing_zeros(c) as u64;
    if j <= t {
        assert(b << ((64 - t) as u64) == 0);
        assert((t < 64 && (b >> t) & 1u64 == 1u64 && b << ((64 - t) as u64) == 0 && j <= t) ==> ((b
            & ((b - 1) as u64)) >> j) & 1u64 == 0u64) by (bit_vector);
    }
}

/// A list of moves has at most one entry per square, counted from the lowest
/// square of the board.
pub proof fn lemma_moves_list_len(b: u64, t: TypePiece, f: spec_fn(int) -> u64)
    ensures
        b == 0 ==> moves_list(b, t, f).len() == 0,
        b != 0 ==> moves_list(b, t, f).len() <= 64 - u64_trailing_zeros(b),
    decreases b,
{
    if b != 0 {
        vstd::std_specs::bits::axiom_u64_trailing_zeros(b);
        lemma_clear_lowest(b);
        let c = b & ((b - 1) as u64);
        lemma_moves_list_len(c, t, f);
        if c != 0 {
            lemma_lowest_rises(b);
        }
    }
}

impl BitBoardsWhiteAndBlack {
    /// The squares the pawns of `color` on `pawns` attack.
    fn pawns_control_of(pawns: u64, color: &Color) -> (r: BitBoard)
        ensures
            r.0 == pawns_reach(pawns, *color),
    {
        let all = BitBoard(ALL_SQUARES);
        let mut acc: u64 = 0;
        let mut bb: u64 = pawns;
        proof {
            lemma_or_zero(pawns_reach(pawns, *color));
        }
        while bb != 0
            invariant
                all.0 == ALL_SQUARES,
                acc | pawns_reach(bb, *color) == pawns_reach(pawns, *color),
            decreases bb,
        {
            proof {
                lemma_lowest_in(bb);
                lemma_clear_lowest(bb);
            }
            let i = BitIndex(crate::bitboard::pos2index(bb));
            let attacked = gen_pawn_squares_attacked(i, color, &all);
            proof {
                lemma_or_assoc(acc, attacked.0, pawns_reach(bb & ((bb - 1) as u64), *color));
            }
            acc = acc | attacked.0;
            bb = bb & (bb - 1);
        }
        proof {
            lemma_or_zero(acc);
        }
        BitBoard(acc)
    }

    /// The squares `color` controls.
    pub fn gen_square_control(&self, color: &Color) -> (r: ControlSquares)
        ensures
            r.moves@ == control_moves(*color, *self),
            r.pawns_control.0 == pawns_reach(self.side(*color).board(TypePiece::Pawn), *color),
            r.wf(),
    {
        let own = self.bit_board(color);
        let opponent_color = match color {
            Color::White => Color::Black,
            Color::Black => Color::White,
        };
        let opp = self.bit_board(&opponent_color);
        let mut moves = own.rooks().gen_moves_no_check(color, own, opp);
        let mut bishops = own.bishops().gen_moves_no_check(color, own, opp);
        let mut knights = own.knights().gen_moves_no_check(color, own, opp);
        let mut queens = own.queens().gen_moves_no_check(color, own, opp);
        let mut king = own.king().gen_moves_no_check(color, own, opp, None, None);
        proof {
            lemma_moves_list_len(own.board(TypePiece::Rook), TypePiece::Rook, rook_targets(own.all(), opp.all()));
            lemma_moves_list_len(own.board(TypePiece::Bishop), TypePiece::Bishop, bishop_targets(own.all(), opp.all()));
            lemma_moves_list_len(own.board(TypePiece::Knight), TypePiece::Knight, knight_targets(own.all()));
            lemma_moves_list_len(own.board(TypePiece::Queen), TypePiece::Queen, queen_targets_fn(own.all(), opp.all()));
            lemma_moves_list_len(
                own.board(TypePiece::King),
                TypePiece::King,
                king_targets(own.all(), castle_targets(*color, *own, *opp, None, None)),
            );
        }
        moves.append(&mut bishops);
        moves.append(&mut knights);
        moves.append(&mut queens);
        moves.append(&mut king);
        let pawns_control = Self::pawns_control_of(own.pawns().bitboard().0, color);
        ControlSquares::new(moves, pawns_control)
    }
}

} // verus!
