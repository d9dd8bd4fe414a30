//! A move as the board sees it.
use vstd::prelude::*;
use crate::bitboard::{BitBoard, BitIndex};
use crate::bitboards::BitBoardsWhiteAndBlack;
use crate::bits::{bit, single};
use crate::square::{Color, Switch, TypePiece, TypePiecePromotion, opposite};
use crate::table::{MASK_ROW_0, MASK_ROW_7};

verus! {

/// The two castles.
#[derive(Debug, Copy, Clone, PartialEq, Eq, Structural)]
pub enum Castle {
    Short,
    Long,
}

/// A move: the side and kind of the piece, where it starts and ends, the kind of
/// piece it captures and the promotion it makes, if any.
#[derive(Debug, Copy, Clone, PartialEq, Eq, Structural)]
pub struct BitBoardMove {
    pub color: Color,
    pub type_piece: TypePiece,
    pub start: BitIndex,
    pub end: BitIndex,
    pub capture: Option<TypePiece>,
    pub promotion: Option<TypePiecePromotion>,
}

/// The castle a move makes: a king going two columns right is the short castle,
/// two columns left the long one.
pub open spec fn castle_of(m: BitBoardMove) -> Option<Castle> {
    if m.type_piece == TypePiece::King && m.end.0 as int - m.start.0 as int == 2 {
        Some(Castle::Short)
    } else if m.type_piece == TypePiece::King && m.end.0 as int - m.start.0 as int == -2 {
        Some(Castle::Long)
    } else {
        None
    }
}

/// A pawn move that changes column without a recorded capture.
pub open spec fn is_en_passant(m: BitBoardMove) -> bool {
    m.type_piece == TypePiece::Pawn && m.capture is None && m.start.0 % 8 != m.end.0 % 8
}

/// The kind of piece of `side` standing on square `i`, looked up rook, bishop,
/// knight, queen, pawn, then king.
pub open spec fn captured_kind(bb: BitBoardsWhiteAndBlack, side: Color, i: int) -> Option<TypePiece> {
    let b = bb.side(side);
    if bit(b.rooks.bitboard.0, i) {
        Some(TypePiece::Rook)
    } else if bit(b.bishops.bitboard.0, i) {
        Some(TypePiece::Bishop)
    } else if bit(b.knights.bitboard.0, i) {
        Some(TypePiece::Knight)
    } else if bit(b.queens.bitboard.0, i) {
        Some(TypePiece::Queen)
    } else if bit(b.pawns.bitboard.0, i) {
        Some(TypePiece::Pawn)
    } else if bit(b.king.bitboard.0, i) {
        Some(TypePiece::King)
    } else {
        None
    }
}

/// A pawn of `color` reaching its last row.
pub open spec fn is_promotion_square(color: Color, type_piece: TypePiece, end: int) -> bool {
    type_piece == TypePiece::Pawn && ((color == Color::White && 56 <= end < 64) || (color
        == Color::Black && 0 <= end < 8))
}

/// The moves of a piece of `color` and kind `type_piece` from `start` to `end`:
/// the capture is the opponent piece found on `end`; a pawn reaching its last row
/// gives one move per promotion (rook, bishop, knight, queen), any other move one.
pub open spec fn board_moves(
    color: Color,
    type_piece: TypePiece,
    start: BitIndex,
    end: BitIndex,
    bb: BitBoardsWhiteAndBlack,
) -> Seq<BitBoardMove> {
    let capture = captured_kind(bb, opposite(color), end.0 as int);
    if is_promotion_square(color, type_piece, end.0 as int) {
        seq![
            BitBoardMove { color, type_piece, start, end, capture, promotion: Some(TypePiecePromotion::Rook) },
            BitBoardMove { color, type_piece, start, end, capture, promotion: Some(TypePiecePromotion::Bishop) },
            BitBoardMove { color, type_piece, start, end, capture, promotion: Some(TypePiecePromotion::Knight) },
            BitBoardMove { color, type_piece, start, end, capture, promotion: Some(TypePiecePromotion::Queen) },
        ]
    } else {
        seq![BitBoardMove { color, type_piece, start, end, capture, promotion: None }]
    }
}

impl BitBoardMove {
    pub fn new(
        color: Color,
        type_piece: TypePiece,
        start: BitIndex,
        end: BitIndex,
        capture: Option<TypePiece>,
        promotion: Option<TypePiecePromotion>,
    ) -> (r: Self)
        ensures
            r == (BitBoardMove { color, type_piece, start, end, capture, promotion }),
    {
        BitBoardMove { color, type_piece, start, end, capture, promotion }
    }

    pub fn start(&self) -> (r: BitIndex)
        ensures
            r == self.start,
    {
        self.start
    }

    pub fn end(&self) -> (r: BitIndex)
        ensures
            r == self.end,
    {
        self.end
    }

    pub fn color(&self) -> (r: Color)
        ensures
            r == self.color,
    {
        self.color
    }

    pub fn type_piece(&self) -> (r: TypePiece)
        ensures
            r == self.type_piece,
    {
        self.type_piece
    }

    pub fn capture(&self) -> (r: Option<TypePiece>)
        ensures
            r == self.capture,
    {
        self.capture
    }

    pub fn promotion(&self) -> (r: Option<TypePiecePromotion>)
        ensures
            r == self.promotion,
    {
        self.promotion
    }

    /// A pawn move that changes column without a recorded capture.
    pub fn is_capture_en_passant(&self) -> (r: bool)
        ensures
            r == is_en_passant(*self),
    {
        self.type_piece == TypePiece::Pawn && self.capture.is_none() && (self.start.col()
            != self.end.col())
    }

    /// The castle the move makes, if any.
    pub fn check_castle(&self) -> (r: Option<Castle>)
        ensures
            r == castle_of(*self),
    {
        let mut castle: Option<Castle> = None;
        if self.type_piece() == TypePiece::King {
            let delta_col: i16 = (self.end.0 as i16) - (self.start.0 as i16);
            if delta_col == 2 {
                castle = Some(Castle::Short);
            }
            if delta_col == -2 {
                castle = Some(Castle::Long);
            }
        }
        castle
    }

    /// The moves of a piece of `color` and kind `type_piece` from `start` to `end`
    /// (see `board_moves`).
    pub fn from(
        color: Color,
        type_piece: TypePiece,
        start: BitIndex,
        end: BitIndex,
        bit_boards_white_and_black: &BitBoardsWhiteAndBlack,
    ) -> (r: Vec<Self>)
        requires
            end.0 < 64,
        ensures
            r@ == board_moves(color, type_piece, start, end, *bit_boards_white_and_black),
    {
        let bit_boards_opponent = bit_boards_white_and_black.bit_board(&color.switch());
        let b_to: BitBoard = end.bitboard();
        let mut capture: Option<TypePiece> = None;
        proof {
            let e = end.0 as u64;
            let o = bit_boards_opponent;
            crate::bits::lemma_bit_and_single(o.rooks.bitboard.0, e);
            crate::bits::lemma_bit_and_single(o.bishops.bitboard.0, e);
            crate::bits::lemma_bit_and_single(o.knights.bitboard.0, e);
            crate::bits::lemma_bit_and_single(o.queens.bitboard.0, e);
            crate::bits::lemma_bit_and_single(o.pawns.bitboard.0, e);
            crate::bits::lemma_bit_and_single(o.king.bitboard.0, e);
            assert(forall|v: u64| #[trigger] (v & single(end.0 as int)) == (single(end.0 as int) & v)) by {
                crate::bits::lemma_u64_algebra();
            }
        }
        if bit_boards_opponent.rooks().bitboard().bitand(b_to).non_empty() {
            capture = Some(TypePiece::Rook);
        } else if bit_boards_opponent.bishops().bitboard().bitand(b_to).non_empty() {
            capture = Some(TypePiece::Bishop);
        } else if bit_boards_opponent.knights().bitboard().bitand(b_to).non_empty() {
            capture = Some(TypePiece::Knight);
        } else if bit_boards_opponent.queens().bitboard().bitand(b_to).non_empty() {
            capture = Some(TypePiece::Queen);
        } else if bit_boards_opponent.pawns().bitboard().bitand(b_to).non_empty() {
            capture = Some(TypePiece::Pawn);
        } else if bit_boards_opponent.king().bitboard().bitand(b_to).non_empty() {
            capture = Some(TypePiece::King);
        }
        proof {
            let e = end.0 as u64;
            assert(((1u64 << e) & 0xff00_0000_0000_0000u64 != 0u64) <==> (56 <= e < 64)) by (bit_vector)
                requires e < 64;
            assert(((1u64 << e) & 255u64 != 0u64) <==> (e < 8)) by (bit_vector)
                requires e < 64;
        }
        if type_piece == TypePiece::Pawn && ((color == Color::White && end.bitboard().bitand(
            BitBoard(MASK_ROW_7),
        ).non_empty()) || (color == Color::Black && end.bitboard().bitand(
            BitBoard(MASK_ROW_0),
        ).non_empty())) {
            vec![
                Self::new(color, type_piece, start, end, capture, Some(TypePiecePromotion::Rook)),
                Self::new(color, type_piece, start, end, capture, Some(TypePiecePromotion::Bishop)),
                Self::new(color, type_piece, start, end, capture, Some(TypePiecePromotion::Knight)),
                Self::new(color, type_piece, start, end, capture, Some(TypePiecePromotion::Queen)),
            ]
        } else {
            vec![Self::new(color, type_piece, start, end, capture, None)]
        }
    }
}

} // verus!
