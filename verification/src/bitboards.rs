//! The six piece boards of one side, and the boards of both sides.
use vstd::prelude::*;
use crate::bits::{bit, single};
use crate::bitboard::{BitBoard, BitIndex};
use crate::square::{Color, Piece, Square, TypePiece, TypePiecePromotion, opposite, promotion_piece};
use crate::bitboard_move::{BitBoardMove, Castle, castle_of};
use crate::board::ChessBoard;
use crate::piece_move::{
    BishopsBitBoard, KingBitBoard, KnightsBitBoard, PawnsBitBoard, QueensBitBoard, RooksBitBoard,
};

verus! {

/// The squares of each kind of piece of one side.
#[derive(Debug, Copy, Clone, PartialEq, Eq, Structural)]
pub struct BitBoards {
    pub rooks: RooksBitBoard,
    pub bishops: BishopsBitBoard,
    pub knights: KnightsBitBoard,
    pub king: KingBitBoard,
    pub queens: QueensBitBoard,
    pub pawns: PawnsBitBoard,
}

impl BitBoards {
    /// The board of the pieces of kind `t`.
    pub open spec fn board(&self, t: TypePiece) -> u64 {
        match t {
            TypePiece::Rook => self.rooks.bitboard.0,
            TypePiece::Bishop => self.bishops.bitboard.0,
            TypePiece::Knight => self.knights.bitboard.0,
            TypePiece::King => self.king.bitboard.0,
            TypePiece::Queen => self.queens.bitboard.0,
            TypePiece::Pawn => self.pawns.bitboard.0,
        }
    }

    /// All squares occupied by the side.
    pub open spec fn all(&self) -> u64 {
        self.rooks.bitboard.0 | self.bishops.bitboard.0 | self.knights.bitboard.0
            | self.king.bitboard.0 | self.queens.bitboard.0 | self.pawns.bitboard.0
    }

    /// The six boards, given by kind.
    pub open spec fn from_boards(f: spec_fn(TypePiece) -> u64) -> BitBoards {
        BitBoards {
            rooks: RooksBitBoard { bitboard: BitBoard(f(TypePiece::Rook)) },
            bishops: BishopsBitBoard { bitboard: BitBoard(f(TypePiece::Bishop)) },
            knights: KnightsBitBoard { bitboard: BitBoard(f(TypePiece::Knight)) },
            king: KingBitBoard { bitboard: BitBoard(f(TypePiece::King)) },
            queens: QueensBitBoard { bitboard: BitBoard(f(TypePiece::Queen)) },
            pawns: PawnsBitBoard { bitboard: BitBoard(f(TypePiece::Pawn)) },
        }
    }

    /// The side with no piece.
    pub fn new() -> (r: Self)
        ensures
            forall|t: TypePiece| #[trigger] r.board(t) == 0,
    {
        BitBoards {
            rooks: RooksBitBoard::new(BitBoard(0)),
            bishops: BishopsBitBoard::new(BitBoard(0)),
            knights: KnightsBitBoard::new(BitBoard(0)),
            king: KingBitBoard::new(BitBoard(0)),
            queens: QueensBitBoard::new(BitBoard(0)),
            pawns: PawnsBitBoard::new(BitBoard(0)),
        }
    }

    /// Toggles the squares of `mask_remove` in the board of kind `type_piece`.
    pub fn remove_piece(self, type_piece: TypePiece, mask_remove: BitBoard) -> (r: BitBoards)
        ensures
            forall|t: TypePiece| #[trigger]
                r.board(t) == if t == type_piece {
                    self.board(t) ^ mask_remove.0
                } else {
                    self.board(t)
                },
    {
        let mut r = self;
        match type_piece {
            TypePiece::Rook => r.rooks.xor_mut(mask_remove),
            TypePiece::Bishop => r.bishops.xor_mut(mask_remove),
            TypePiece::Knight => r.knights.xor_mut(mask_remove),
            TypePiece::Queen => r.queens.xor_mut(mask_remove),
            TypePiece::King => r.king.xor_mut(mask_remove),
            TypePiece::Pawn => r.pawns.xor_mut(mask_remove),
        }
        r
    }

    /// Moves a piece of kind `type_piece` from `start` to `end`; with a promotion,
    /// the piece leaves `start` and the promoted piece appears on `end`.
    pub fn move_piece(
        self,
        type_piece: TypePiece,
        start: BitIndex,
        end: BitIndex,
        promotion: Option<TypePiecePromotion>,
    ) -> (r: BitBoards)
        requires
            start.0 < 64,
            end.0 < 64,
        ensures
            forall|t: TypePiece| #[trigger]
                r.board(t) == moved_board(self.board(t), t, type_piece, start, end, promotion),
    {
        let mask = match promotion {
            None => start.bitboard().bitor(end.bitboard()),
            Some(_) => start.bitboard(),
        };
        let mut r = self.remove_piece(type_piece, mask);
        let ghost r0 = r;
        match promotion {
            None => {},
            Some(TypePiecePromotion::Rook) => r.rooks.switch(BitBoard(0), end.bitboard()),
            Some(TypePiecePromotion::Bishop) => r.bishops.switch(BitBoard(0), end.bitboard()),
            Some(TypePiecePromotion::Knight) => r.knights.switch(BitBoard(0), end.bitboard()),
            Some(TypePiecePromotion::Queen) => r.queens.switch(BitBoard(0), end.bitboard()),
        }
        proof {
            assert forall|t: TypePiece| #[trigger]
                r.board(t) == moved_board(self.board(t), t, type_piece, start, end, promotion) by {
                let x = self.board(t);
                let m = mask.0;
                let y = if t == type_piece { x ^ m } else { x };
                crate::bits::lemma_u64_algebra();
                assert(r0.board(t) == y);
                match promotion {
                    None => {},
                    Some(p) => {
                        if t == promotion_piece(p) {
                            assert(r.board(t) == (y ^ 0u64) | single(end.0 as int));
                        } else {
                            assert(r.board(t) == y);
                        }
                    },
                }
                        }
        }
        r
    }

    pub fn rooks(&self) -> (r: &RooksBitBoard)
        ensures
            *r == self.rooks,
    {
        &self.rooks
    }

    pub fn knights(&self) -> (r: &KnightsBitBoard)
        ensures
            *r == self.knights,
    {
        &self.knights
    }

    pub fn bishops(&self) -> (r: &BishopsBitBoard)
        ensures
            *r == self.bishops,
    {
        &self.bishops
    }

    pub fn queens(&self) -> (r: &QueensBitBoard)
        ensures
            *r == self.queens,
    {
        &self.queens
    }

    pub fn king(&self) -> (r: &KingBitBoard)
        ensures
            *r == self.king,
    {
        &self.king
    }

    pub fn pawns(&self) -> (r: &PawnsBitBoard)
        ensures
            *r == self.pawns,
    {
        &self.pawns
    }

    /// All squares occupied by the side.
    pub fn concat_bit_boards(&self) -> (r: BitBoard)
        ensures
            r.0 == self.all(),
    {
        BitBoard(
            self.rooks.bitboard.value() | self.bishops.bitboard.value()
                | self.knights.bitboard.value() | self.king.bitboard.value()
                | self.queens.bitboard.value() | self.pawns.bitboard.value(),
        )
    }

    /// The board of the pieces of kind `type_piece`.
    pub fn get_bitboard(&self, type_piece: TypePiece) -> (r: BitBoard)
        ensures
            r.0 == self.board(type_piece),
    {
        match type_piece {
            TypePiece::Rook => self.rooks.bitboard,
            TypePiece::Bishop => self.bishops.bitboard,
            TypePiece::Knight => self.knights.bitboard,
            TypePiece::King => self.king.bitboard,
            TypePiece::Queen => self.queens.bitboard,
            TypePiece::Pawn => self.pawns.bitboard,
        }
    }

    /// The boards with the squares of `mask` toggled in each kind, taken from `mask`.
    pub fn xor(&self, mask: &BitBoards) -> (r: BitBoards)
        ensures
            forall|t: TypePiece| #[trigger] r.board(t) == self.board(t) ^ mask.board(t),
    {
        BitBoards {
            rooks: RooksBitBoard::new(BitBoard(self.rooks.bitboard.0 ^ mask.rooks.bitboard.0)),
            bishops: BishopsBitBoard::new(
                BitBoard(self.bishops.bitboard.0 ^ mask.bishops.bitboard.0),
            ),
            knights: KnightsBitBoard::new(
                BitBoard(self.knights.bitboard.0 ^ mask.knights.bitboard.0),
            ),
            king: KingBitBoard::new(BitBoard(self.king.bitboard.0 ^ mask.king.bitboard.0)),
            queens: QueensBitBoard::new(BitBoard(self.queens.bitboard.0 ^ mask.queens.bitboard.0)),
            pawns: PawnsBitBoard::new(BitBoard(self.pawns.bitboard.0 ^ mask.pawns.bitboard.0)),
        }
    }
}

/// The board of kind `t` after a piece of kind `moving` goes from `start` to
/// `end` (promoted when `promotion` is given).
pub open spec fn moved_board(
    x: u64,
    t: TypePiece,
    moving: TypePiece,
    start: BitIndex,
    end: BitIndex,
    promotion: Option<TypePiecePromotion>,
) -> u64 {
    let mask = if promotion is None {
        single(start.0 as int) | single(end.0 as int)
    } else {
        single(start.0 as int)
    };
    let after_leave = if t == moving {
        x ^ mask
    } else {
        x
    };
    match promotion {
        Some(p) => if t == promotion_piece(p) {
            after_leave | single(end.0 as int)
        } else {
            after_leave
        },
        None => after_leave,
    }
}


/// The boards of both sides.
#[derive(Debug, Copy, Clone, PartialEq, Eq, Structural)]
pub struct BitBoardsWhiteAndBlack {
    pub bit_board_white: BitBoards,
    pub bit_board_black: BitBoards,
}

impl BitBoardsWhiteAndBlack {
    /// The boards of side `c`.
    pub open spec fn side(&self, c: Color) -> BitBoards {
        match c {
            Color::White => self.bit_board_white,
            Color::Black => self.bit_board_black,
        }
    }

    pub fn bit_board(&self, color: &Color) -> (r: &BitBoards)
        ensures
            *r == self.side(*color),
    {
        match color {
            Color::White => self.bit_board_white(),
            Color::Black => self.bit_board_black(),
        }
    }

    pub fn bit_board_white(&self) -> (r: &BitBoards)
        ensures
            *r == self.bit_board_white,
    {
        &self.bit_board_white
    }

    pub fn bit_board_black(&self) -> (r: &BitBoards)
        ensures
            *r == self.bit_board_black,
    {
        &self.bit_board_black
    }

    /// The content of square `index`.
    pub fn peek(&self, index: BitIndex) -> (r: Square)
        requires
            index.0 < 64,
        ensures
            r == peek_square(*self, index.0 as int),
    {
        let w = &self.bit_board_white;
        let b = &self.bit_board_black;
        let mut square = Square::Empty;
        if has(w.rooks.bitboard, index) {
            square = Square::build_piece(TypePiece::Rook, Color::White);
        }
        if has(w.bishops.bitboard, index) {
            square = Square::build_piece(TypePiece::Bishop, Color::White);
        }
        if has(w.knights.bitboard, index) {
            square = Square::build_piece(TypePiece::Knight, Color::White);
        }
        if has(w.queens.bitboard, index) {
            square = Square::build_piece(TypePiece::Queen, Color::White);
        }
        if has(w.king.bitboard, index) {
            square = Square::build_piece(TypePiece::King, Color::White);
        }
        if has(w.pawns.bitboard, index) {
            square = Square::build_piece(TypePiece::Pawn, Color::White);
        }
        if has(b.rooks.bitboard, index) {
            square = Square::build_piece(TypePiece::Rook, Color::Black);
        }
        if has(b.bishops.bitboard, index) {
            square = Square::build_piece(TypePiece::Bishop, Color::Black);
        }
        if has(b.knights.bitboard, index) {
            square = Square::build_piece(TypePiece::Knight, Color::Black);
        }
        if has(b.queens.bitboard, index) {
            square = Square::build_piece(TypePiece::Queen, Color::Black);
        }
        if has(b.king.bitboard, index) {
            square = Square::build_piece(TypePiece::King, Color::Black);
        }
        if has(b.pawns.bitboard, index) {
            square = Square::build_piece(TypePiece::Pawn, Color::Black);
        }
        square
    }

    /// Toggles square `index` in the board of kind `type_piece` of side `color`.
    pub fn remove_piece(self, color: &Color, type_piece: TypePiece, index: BitIndex) -> (r: Self)
        requires
            index.0 < 64,
        ensures
            r.side(opposite(*color)) == self.side(opposite(*color)),
            forall|t: TypePiece| #[trigger]
                r.side(*color).board(t) == if t == type_piece {
                    self.side(*color).board(t) ^ single(index.0 as int)
                } else {
                    self.side(*color).board(t)
                },
    {
        let mask_remove = index.bitboard();
        match color {
            Color::White => BitBoardsWhiteAndBlack {
                bit_board_white: self.bit_board_white.remove_piece(type_piece, mask_remove),
                bit_board_black: self.bit_board_black,
            },
            Color::Black => BitBoardsWhiteAndBlack {
                bit_board_white: self.bit_board_white,
                bit_board_black: self.bit_board_black.remove_piece(type_piece, mask_remove),
            },
        }
    }

    /// Plays the piece move alone: the moving piece goes from start to end (promoted
    /// if asked), and the captured piece, on the end square or, en passant, beside
    /// the start square, is removed.
    fn move_piece_simple(self, b_move: &BitBoardMove) -> (r: Self)
        requires
            b_move.start.0 < 64,
            b_move.end.0 < 64,
        ensures
            r == simple_move(self, *b_move),
    {
        let mut mask_remove = BitBoard(0);
        if b_move.capture.is_some() {
            mask_remove = b_move.end.bitboard();
        } else if b_move.type_piece == TypePiece::Pawn && b_move.start.col() != b_move.end.col() {
            mask_remove = BitIndex(b_move.start.first_col().0 + b_move.end.col()).bitboard();
        }
        let capture = match b_move.capture {
            Some(c) => c,
            None => TypePiece::Pawn,
        };
        let r = match b_move.color {
            Color::White => BitBoardsWhiteAndBlack {
                bit_board_white: self.bit_board_white.move_piece(
                    b_move.type_piece,
                    b_move.start,
                    b_move.end,
                    b_move.promotion,
                ),
                bit_board_black: if mask_remove.non_empty() {
                    self.bit_board_black.remove_piece(capture, mask_remove)
                } else {
                    self.bit_board_black
                },
            },
            Color::Black => BitBoardsWhiteAndBlack {
                bit_board_black: self.bit_board_black.move_piece(
                    b_move.type_piece,
                    b_move.start,
                    b_move.end,
                    b_move.promotion,
                ),
                bit_board_white: if mask_remove.non_empty() {
                    self.bit_board_white.remove_piece(capture, mask_remove)
                } else {
                    self.bit_board_white
                },
            },
        };
        proof {
            let m = *b_move;
            assert(mask_remove.0 == capture_mask(m));
            lemma_boards_ext(r.side(m.color), |t: TypePiece| moved_board(self.side(m.color).board(t), t, m.type_piece, m.start, m.end, m.promotion));
            if mask_remove.0 != 0 {
                lemma_boards_ext(r.side(opposite(m.color)), |t: TypePiece| if t == capture_kind(m) {
                    self.side(opposite(m.color)).board(t) ^ capture_mask(m)
                } else {
                    self.side(opposite(m.color)).board(t)
                });
            }
        }
        r
    }

    /// Plays a move; a castle also moves the rook (from the corner beside the king's
    /// end square to the square the king crossed).
    pub fn move_piece(self, b_move: &BitBoardMove) -> (r: Self)
        requires
            move_wf(*b_move),
        ensures
            r == move_result(self, *b_move),
    {
        let new_bitboards = self.move_piece_simple(b_move);
        match b_move.check_castle() {
            Some(Castle::Short) => {
                let rook_move = BitBoardMove {
                    type_piece: TypePiece::Rook,
                    start: b_move.end().right(),
                    end: b_move.end().left(),
                    ..*b_move
                };
                new_bitboards.move_piece_simple(&rook_move)
            },
            Some(Castle::Long) => {
                let rook_move = BitBoardMove {
                    type_piece: TypePiece::Rook,
                    start: b_move.end().left().left(),
                    end: b_move.end().right(),
                    ..*b_move
                };
                new_bitboards.move_piece_simple(&rook_move)
            },
            None => new_bitboards,
        }
    }

    /// The boards of the pieces on a board of squares.
    pub fn from(board: ChessBoard) -> (r: Self)
        ensures
            forall|c: Color, t: TypePiece, i: int|
                0 <= i < 64 ==> (#[trigger] bit(r.side(c).board(t), i) <==> board.squares@[i]
                    == Square::NonEmpty(Piece { type_piece: t, color: c })),
    {
        let mut white = BitBoards::new();
        let mut black = BitBoards::new();
        proof {
            crate::bits::lemma_u64_bits();
            assert forall|i: u64| i < 64 implies !((0u64 >> i) & 1u64 == 1u64) by {
                assert((0u64 >> i) & 1u64 != 1u64);
            }
        }
        let mut idx: u8 = 0;
        while idx < 64
            invariant
                idx <= 64,
                forall|c: Color, t: TypePiece, i: int|
                    0 <= i < 64 ==> (#[trigger] bit(
                        (BitBoardsWhiteAndBlack { bit_board_white: white, bit_board_black: black }).side(c).board(t),
                        i,
                    ) <==> (i < idx && board.squares@[i] == Square::NonEmpty(
                        Piece { type_piece: t, color: c },
                    ))),
            decreases 64 - idx,
        {
            let ghost w0 = white;
            let ghost b0 = black;
            match board.squares[idx as usize] {
                Square::NonEmpty(piece) => {
                    let bit_idx = BitIndex(idx).bitboard();
                    match piece.color {
                        Color::White => { white = white.add_piece(piece.type_piece, bit_idx); },
                        Color::Black => { black = black.add_piece(piece.type_piece, bit_idx); },
                    }
                },
                Square::Empty => {},
            }
            proof {
                assert forall|c: Color, t: TypePiece, i: int|
                    0 <= i < 64 implies (#[trigger] bit(
                        (BitBoardsWhiteAndBlack { bit_board_white: white, bit_board_black: black }).side(c).board(t),
                        i,
                    ) <==> (i < idx + 1 && board.squares@[i] == Square::NonEmpty(
                        Piece { type_piece: t, color: c },
                    ))) by {
                    let before = (BitBoardsWhiteAndBlack { bit_board_white: w0, bit_board_black: b0 }).side(c).board(t);
                    let after = (BitBoardsWhiteAndBlack { bit_board_white: white, bit_board_black: black }).side(c).board(t);
                    assert(bit(before, i) <==> (i < idx && board.squares@[i] == Square::NonEmpty(
                        Piece { type_piece: t, color: c })));
                    if board.squares@[idx as int] == Square::NonEmpty(Piece { type_piece: t, color: c }) {
                        assert(after == before | single(idx as int));
                        crate::bits::lemma_bit_or(before, single(idx as int), i as u64);
                        crate::bits::lemma_bit_single(idx as u64, i as u64);
                    } else {
                        assert(after == before);
                    }
                }
            }
            idx = idx + 1;
        }
        BitBoardsWhiteAndBlack { bit_board_white: white, bit_board_black: black }
    }

    /// The board of squares these boards describe.
    pub fn to(&self) -> (r: ChessBoard)
        ensures
            forall|i: int| 0 <= i < 64 ==> #[trigger] r.squares@[i] == board_square(*self, i),
    {
        let mut chessboard = ChessBoard::new();
        let mut idx: u8 = 0;
        while idx < 64
            invariant
                idx <= 64,
                forall|i: int| 0 <= i < idx ==> #[trigger] chessboard.squares@[i] == board_square(*self, i),
            decreases 64 - idx,
        {
            let s = self.square_at(BitIndex(idx));
            chessboard.set(idx as usize, s);
            idx = idx + 1;
        }
        chessboard
    }

    /// The content of square `index` as `to` reports it.
    fn square_at(&self, index: BitIndex) -> (r: Square)
        requires
            index.0 < 64,
        ensures
            r == board_square(*self, index.0 as int),
    {
        let w = &self.bit_board_white;
        let b = &self.bit_board_black;
        if has(b.pawns.bitboard, index) {
            Square::build_piece(TypePiece::Pawn, Color::Black)
        } else if has(w.pawns.bitboard, index) {
            Square::build_piece(TypePiece::Pawn, Color::White)
        } else if has(b.king.bitboard, index) {
            Square::build_piece(TypePiece::King, Color::Black)
        } else if has(w.king.bitboard, index) {
            Square::build_piece(TypePiece::King, Color::White)
        } else if has(b.queens.bitboard, index) {
            Square::build_piece(TypePiece::Queen, Color::Black)
        } else if has(w.queens.bitboard, index) {
            Square::build_piece(TypePiece::Queen, Color::White)
        } else if has(b.bishops.bitboard, index) {
            Square::build_piece(TypePiece::Bishop, Color::Black)
        } else if has(w.bishops.bitboard, index) {
            Square::build_piece(TypePiece::Bishop, Color::White)
        } else if has(b.knights.bitboard, index) {
            Square::build_piece(TypePiece::Knight, Color::Black)
        } else if has(w.knights.bitboard, index) {
            Square::build_piece(TypePiece::Knight, Color::White)
        } else if has(b.rooks.bitboard, index) {
            Square::build_piece(TypePiece::Rook, Color::Black)
        } else if has(w.rooks.bitboard, index) {
            Square::build_piece(TypePiece::Rook, Color::White)
        } else {
            Square::Empty
        }
    }

    /// Both sides' boards with the squares of `mask` toggled.
    pub fn xor(&self, mask: &BitBoardsWhiteAndBlack) -> (r: Self)
        ensures
            forall|c: Color, t: TypePiece| #[trigger] r.side(c).board(t) == self.side(c).board(t) ^ mask.side(c).board(t),
    {
        BitBoardsWhiteAndBlack {
            bit_board_white: self.bit_board_white.xor(&mask.bit_board_white),
            bit_board_black: self.bit_board_black.xor(&mask.bit_board_black),
        }
    }
}

impl Default for BitBoards {
    /// The side with no piece.
    fn default() -> (r: Self)
        ensures
            forall|t: TypePiece| #[trigger] r.board(t) == 0,
    {
        BitBoards::new()
    }
}

impl BitBoards {
    /// Toggles the squares of `mask` in the board of kind `type_piece`.
    pub fn xor_piece(&mut self, type_piece: TypePiece, mask: BitBoard)
        ensures
            forall|t: TypePiece| #[trigger]
                final(self).board(t) == if t == type_piece {
                    old(self).board(t) ^ mask.0
                } else {
                    old(self).board(t)
                },
    {
        match type_piece {
            TypePiece::Rook => self.rooks.bitboard.xor_mut(mask),
            TypePiece::Bishop => self.bishops.bitboard.xor_mut(mask),
            TypePiece::Knight => self.knights.bitboard.xor_mut(mask),
            TypePiece::Queen => self.queens.bitboard.xor_mut(mask),
            TypePiece::King => self.king.bitboard.xor_mut(mask),
            TypePiece::Pawn => self.pawns.bitboard.xor_mut(mask),
        }
    }

    /// Adds the squares of `mask` to the board of kind `type_piece`.
    pub fn add_piece(self, type_piece: TypePiece, mask: BitBoard) -> (r: BitBoards)
        ensures
            forall|t: TypePiece| #[trigger]
                r.board(t) == if t == type_piece {
                    self.board(t) | mask.0
                } else {
                    self.board(t)
                },
    {
        let mut r = self;
        match type_piece {
            TypePiece::Rook => r.rooks.bitboard.bitor_assign(mask),
            TypePiece::Bishop => r.bishops.bitboard.bitor_assign(mask),
            TypePiece::Knight => r.knights.bitboard.bitor_assign(mask),
            TypePiece::Queen => r.queens.bitboard.bitor_assign(mask),
            TypePiece::King => r.king.bitboard.bitor_assign(mask),
            TypePiece::Pawn => r.pawns.bitboard.bitor_assign(mask),
        }
        r
    }
}

/// Square `index` belongs to `b`.
pub fn has(b: BitBoard, index: BitIndex) -> (r: bool)
    requires
        index.0 < 64,
    ensures
        r == bit(b.0, index.0 as int),
{
    ((b.0 >> index.0) & 1) == 1
}

pub proof fn lemma_boards_ext(a: BitBoards, f: spec_fn(TypePiece) -> u64)
    requires
        forall|t: TypePiece| #[trigger] a.board(t) == f(t),
    ensures
        a == BitBoards::from_boards(f),
{
    assert(a.board(TypePiece::Rook) == f(TypePiece::Rook));
    assert(a.board(TypePiece::Bishop) == f(TypePiece::Bishop));
    assert(a.board(TypePiece::Knight) == f(TypePiece::Knight));
    assert(a.board(TypePiece::King) == f(TypePiece::King));
    assert(a.board(TypePiece::Queen) == f(TypePiece::Queen));
    assert(a.board(TypePiece::Pawn) == f(TypePiece::Pawn));
}

/// The content of square `i`: the piece whose board holds it, looked up white
/// rook, bishop, knight, queen, king, pawn, then black in the same order, the last
/// found winning.
pub open spec fn peek_square(bb: BitBoardsWhiteAndBlack, i: int) -> Square {
    let w = bb.bit_board_white;
    let b = bb.bit_board_black;
    if bit(b.pawns.bitboard.0, i) {
        Square::NonEmpty(Piece { type_piece: TypePiece::Pawn, color: Color::Black })
    } else if bit(b.king.bitboard.0, i) {
        Square::NonEmpty(Piece { type_piece: TypePiece::King, color: Color::Black })
    } else if bit(b.queens.bitboard.0, i) {
        Square::NonEmpty(Piece { type_piece: TypePiece::Queen, color: Color::Black })
    } else if bit(b.knights.bitboard.0, i) {
        Square::NonEmpty(Piece { type_piece: TypePiece::Knight, color: Color::Black })
    } else if bit(b.bishops.bitboard.0, i) {
        Square::NonEmpty(Piece { type_piece: TypePiece::Bishop, color: Color::Black })
    } else if bit(b.rooks.bitboard.0, i) {
        Square::NonEmpty(Piece { type_piece: TypePiece::Rook, color: Color::Black })
    } else if bit(w.pawns.bitboard.0, i) {
        Square::NonEmpty(Piece { type_piece: TypePiece::Pawn, color: Color::White })
    } else if bit(w.king.bitboard.0, i) {
        Square::NonEmpty(Piece { type_piece: TypePiece::King, color: Color::White })
    } else if bit(w.queens.bitboard.0, i) {
        Square::NonEmpty(Piece { type_piece: TypePiece::Queen, color: Color::White })
    } else if bit(w.knights.bitboard.0, i) {
        Square::NonEmpty(Piece { type_piece: TypePiece::Knight, color: Color::White })
    } else if bit(w.bishops.bitboard.0, i) {
        Square::NonEmpty(Piece { type_piece: TypePiece::Bishop, color: Color::White })
    } else if bit(w.rooks.bitboard.0, i) {
        Square::NonEmpty(Piece { type_piece: TypePiece::Rook, color: Color::White })
    } else {
        Square::Empty
    }
}

/// The content of square `i` in the board of squares the boards describe: pawns
/// first, then kings, queens, bishops, knights and rooks, black before white.
pub open spec fn board_square(bb: BitBoardsWhiteAndBlack, i: int) -> Square {
    let w = bb.bit_board_white;
    let b = bb.bit_board_black;
    if bit(b.pawns.bitboard.0, i) {
        Square::NonEmpty(Piece { type_piece: TypePiece::Pawn, color: Color::Black })
    } else if bit(w.pawns.bitboard.0, i) {
        Square::NonEmpty(Piece { type_piece: TypePiece::Pawn, color: Color::White })
    } else if bit(b.king.bitboard.0, i) {
        Square::NonEmpty(Piece { type_piece: TypePiece::King, color: Color::Black })
    } else if bit(w.king.bitboard.0, i) {
        Square::NonEmpty(Piece { type_piece: TypePiece::King, color: Color::White })
    } else if bit(b.queens.bitboard.0, i) {
        Square::NonEmpty(Piece { type_piece: TypePiece::Queen, color: Color::Black })
    } else if bit(w.queens.bitboard.0, i) {
        Square::NonEmpty(Piece { type_piece: TypePiece::Queen, color: Color::White })
    } else if bit(b.bishops.bitboard.0, i) {
        Square::NonEmpty(Piece { type_piece: TypePiece::Bishop, color: Color::Black })
    } else if bit(w.bishops.bitboard.0, i) {
        Square::NonEmpty(Piece { type_piece: TypePiece::Bishop, color: Color::White })
    } else if bit(b.knights.bitboard.0, i) {
        Square::NonEmpty(Piece { type_piece: TypePiece::Knight, color: Color::Black })
    } else if bit(w.knights.bitboard.0, i) {
        Square::NonEmpty(Piece { type_piece: TypePiece::Knight, color: Color::White })
    } else if bit(b.rooks.bitboard.0, i) {
        Square::NonEmpty(Piece { type_piece: TypePiece::Rook, color: Color::Black })
    } else if bit(w.rooks.bitboard.0, i) {
        Square::NonEmpty(Piece { type_piece: TypePiece::Rook, color: Color::White })
    } else {
        Square::Empty
    }
}

/// No square holds two pieces: each square is in at most one of the twelve
/// boards.
pub open spec fn boards_disjoint(bb: BitBoardsWhiteAndBlack) -> bool {
    forall|c1: Color, t1: TypePiece, c2: Color, t2: TypePiece, i: int|
        (c1 != c2 || t1 != t2) && #[trigger] bit(bb.side(c1).board(t1), i) ==> !#[trigger] bit(
            bb.side(c2).board(t2),
            i,
        )
}

/// A square of a board of squares holds the piece whose board, read from it,
/// holds the square, and is empty when none does.
proof fn lemma_read_square(sq: Seq<Square>, read: BitBoardsWhiteAndBlack, i: int)
    requires
        sq.len() == 64,
        0 <= i < 64,
        forall|c: Color, t: TypePiece, j: int|
            0 <= j < 64 ==> (#[trigger] bit(read.side(c).board(t), j) <==> sq[j] == Square::NonEmpty(
                Piece { type_piece: t, color: c },
            )),
    ensures
        board_square(read, i) == sq[i],
{
    let w = Color::White;
    let b = Color::Black;
    assert(bit(read.side(b).board(TypePiece::Pawn), i) == bit(read.bit_board_black.pawns.bitboard.0, i));
    assert(bit(read.side(w).board(TypePiece::Pawn), i) == bit(read.bit_board_white.pawns.bitboard.0, i));
    assert(bit(read.side(b).board(TypePiece::King), i) == bit(read.bit_board_black.king.bitboard.0, i));
    assert(bit(read.side(w).board(TypePiece::King), i) == bit(read.bit_board_white.king.bitboard.0, i));
    assert(bit(read.side(b).board(TypePiece::Queen), i) == bit(read.bit_board_black.queens.bitboard.0, i));
    assert(bit(read.side(w).board(TypePiece::Queen), i) == bit(read.bit_board_white.queens.bitboard.0, i));
    assert(bit(read.side(b).board(TypePiece::Bishop), i) == bit(read.bit_board_black.bishops.bitboard.0, i));
    assert(bit(read.side(w).board(TypePiece::Bishop), i) == bit(read.bit_board_white.bishops.bitboard.0, i));
    assert(bit(read.side(b).board(TypePiece::Knight), i) == bit(read.bit_board_black.knights.bitboard.0, i));
    assert(bit(read.side(w).board(TypePiece::Knight), i) == bit(read.bit_board_white.knights.bitboard.0, i));
    assert(bit(read.side(b).board(TypePiece::Rook), i) == bit(read.bit_board_black.rooks.bitboard.0, i));
    assert(bit(read.side(w).board(TypePiece::Rook), i) == bit(read.bit_board_white.rooks.bitboard.0, i));
    match sq[i] {
        Square::Empty => {},
        Square::NonEmpty(p) => {
            assert(bit(read.side(p.color).board(p.type_piece), i));
        },
    }
}

/// The two conversions undo each other. `read` holds the boards read from the
/// squares `sq` (the contract of `from`): writing them as squares (the contract
/// of `to`) gives `sq` back. `back` holds the boards read from the squares
/// written from `bb`, whose boards do not overlap: it is `bb`.
pub proof fn lemma_board_round_trips(
    sq: Seq<Square>,
    read: BitBoardsWhiteAndBlack,
    bb: BitBoardsWhiteAndBlack,
    back: BitBoardsWhiteAndBlack,
)
    requires
        sq.len() == 64,
        forall|c: Color, t: TypePiece, i: int|
            0 <= i < 64 ==> (#[trigger] bit(read.side(c).board(t), i) <==> sq[i] == Square::NonEmpty(
                Piece { type_piece: t, color: c },
            )),
        boards_disjoint(bb),
        forall|c: Color, t: TypePiece, i: int|
            0 <= i < 64 ==> (#[trigger] bit(back.side(c).board(t), i) <==> board_square(bb, i)
                == Square::NonEmpty(Piece { type_piece: t, color: c })),
    ensures
        forall|i: int| 0 <= i < 64 ==> #[trigger] board_square(read, i) == sq[i],
        back == bb,
{
    assert forall|i: int| 0 <= i < 64 implies #[trigger] board_square(read, i) == sq[i] by {
        lemma_read_square(sq, read, i);
    }
    assert forall|c: Color, t: TypePiece| #[trigger] back.side(c).board(t) == bb.side(c).board(t) by {
        assert forall|i: int| 0 <= i < 64 implies bit(back.side(c).board(t), i) == bit(bb.side(c).board(t), i) by {
            lemma_boards_to_squares(bb, c, t, i);
        }
        crate::bits::lemma_bits_ext(back.side(c).board(t), bb.side(c).board(t));
    }
    let w = Color::White;
    let b = Color::Black;
    assert(back.side(w).board(TypePiece::Rook) == bb.side(w).board(TypePiece::Rook));
    assert(back.side(w).board(TypePiece::Bishop) == bb.side(w).board(TypePiece::Bishop));
    assert(back.side(w).board(TypePiece::Knight) == bb.side(w).board(TypePiece::Knight));
    assert(back.side(w).board(TypePiece::King) == bb.side(w).board(TypePiece::King));
    assert(back.side(w).board(TypePiece::Queen) == bb.side(w).board(TypePiece::Queen));
    assert(back.side(w).board(TypePiece::Pawn) == bb.side(w).board(TypePiece::Pawn));
    assert(back.side(b).board(TypePiece::Rook) == bb.side(b).board(TypePiece::Rook));
    assert(back.side(b).board(TypePiece::Bishop) == bb.side(b).board(TypePiece::Bishop));
    assert(back.side(b).board(TypePiece::Knight) == bb.side(b).board(TypePiece::Knight));
    assert(back.side(b).board(TypePiece::King) == bb.side(b).board(TypePiece::King));
    assert(back.side(b).board(TypePiece::Queen) == bb.side(b).board(TypePiece::Queen));
    assert(back.side(b).board(TypePiece::Pawn) == bb.side(b).board(TypePiece::Pawn));
}

/// Writing boards without overlaps as a board of squares keeps every piece
/// where it is: square `i` shows a piece exactly when that piece's board holds
/// `i`. With the contract of `from`, reading the board of squares back gives
/// the same boards.
pub proof fn lemma_boards_to_squares(bb: BitBoardsWhiteAndBlack, c: Color, t: TypePiece, i: int)
    requires
        boards_disjoint(bb),
        0 <= i < 64,
    ensures
        bit(bb.side(c).board(t), i) <==> board_square(bb, i) == Square::NonEmpty(Piece { type_piece: t, color: c }),
{
    let w = bb.bit_board_white;
    let b = bb.bit_board_black;
    assert(bb.side(Color::White) == w && bb.side(Color::Black) == b);
    if bit(bb.side(c).board(t), i) {
        assert(bit(b.pawns.bitboard.0, i) ==> (c == Color::Black && t == TypePiece::Pawn)) by {
            assert(b.pawns.bitboard.0 == bb.side(Color::Black).board(TypePiece::Pawn));
        }
        assert(bit(w.pawns.bitboard.0, i) ==> (c == Color::White && t == TypePiece::Pawn)) by {
            assert(w.pawns.bitboard.0 == bb.side(Color::White).board(TypePiece::Pawn));
        }
        assert(bit(b.king.bitboard.0, i) ==> (c == Color::Black && t == TypePiece::King)) by {
            assert(b.king.bitboard.0 == bb.side(Color::Black).board(TypePiece::King));
        }
        assert(bit(w.king.bitboard.0, i) ==> (c == Color::White && t == TypePiece::King)) by {
            assert(w.king.bitboard.0 == bb.side(Color::White).board(TypePiece::King));
        }
        assert(bit(b.queens.bitboard.0, i) ==> (c == Color::Black && t == TypePiece::Queen)) by {
            assert(b.queens.bitboard.0 == bb.side(Color::Black).board(TypePiece::Queen));
        }
        assert(bit(w.queens.bitboard.0, i) ==> (c == Color::White && t == TypePiece::Queen)) by {
            assert(w.queens.bitboard.0 == bb.side(Color::White).board(TypePiece::Queen));
        }
        assert(bit(b.bishops.bitboard.0, i) ==> (c == Color::Black && t == TypePiece::Bishop)) by {
            assert(b.bishops.bitboard.0 == bb.side(Color::Black).board(TypePiece::Bishop));
        }
        assert(bit(w.bishops.bitboard.0, i) ==> (c == Color::White && t == TypePiece::Bishop)) by {
            assert(w.bishops.bitboard.0 == bb.side(Color::White).board(TypePiece::Bishop));
        }
        assert(bit(b.knights.bitboard.0, i) ==> (c == Color::Black && t == TypePiece::Knight)) by {
            assert(b.knights.bitboard.0 == bb.side(Color::Black).board(TypePiece::Knight));
        }
        assert(bit(w.knights.bitboard.0, i) ==> (c == Color::White && t == TypePiece::Knight)) by {
            assert(w.knights.bitboard.0 == bb.side(Color::White).board(TypePiece::Knight));
        }
        assert(bit(b.rooks.bitboard.0, i) ==> (c == Color::Black && t == TypePiece::Rook)) by {
            assert(b.rooks.bitboard.0 == bb.side(Color::Black).board(TypePiece::Rook));
        }
    }
}

/// The square a move captures on: its end square when it records a capture, the
/// square beside its start on the end column for a pawn changing column (en
/// passant), none otherwise.
pub open spec fn capture_mask(m: BitBoardMove) -> u64 {
    if m.capture is Some {
        single(m.end.0 as int)
    } else if m.type_piece == TypePiece::Pawn && m.start.0 % 8 != m.end.0 % 8 {
        single(m.start.0 - m.start.0 % 8 + m.end.0 % 8)
    } else {
        0u64
    }
}

/// The kind of piece a move removes from the opponent (a pawn en passant).
pub open spec fn capture_kind(m: BitBoardMove) -> TypePiece {
    match m.capture {
        Some(c) => c,
        None => TypePiece::Pawn,
    }
}

/// Both sides after the piece move alone.
pub open spec fn simple_move(bb: BitBoardsWhiteAndBlack, m: BitBoardMove) -> BitBoardsWhiteAndBlack {
    let mover = BitBoards::from_boards(
        |t: TypePiece| moved_board(bb.side(m.color).board(t), t, m.type_piece, m.start, m.end, m.promotion),
    );
    let opp0 = bb.side(opposite(m.color));
    let opp = if capture_mask(m) != 0 {
        BitBoards::from_boards(
            |t: TypePiece| if t == capture_kind(m) {
                opp0.board(t) ^ capture_mask(m)
            } else {
                opp0.board(t)
            },
        )
    } else {
        opp0
    };
    match m.color {
        Color::White => BitBoardsWhiteAndBlack { bit_board_white: mover, bit_board_black: opp },
        Color::Black => BitBoardsWhiteAndBlack { bit_board_white: opp, bit_board_black: mover },
    }
}

/// The rook move that goes with a castle.
pub open spec fn castle_rook_move(m: BitBoardMove, c: Castle) -> BitBoardMove {
    match c {
        Castle::Short => BitBoardMove {
            type_piece: TypePiece::Rook,
            start: BitIndex((m.end.0 + 1) as u8),
            end: BitIndex((m.end.0 - 1) as u8),
            ..m
        },
        Castle::Long => BitBoardMove {
            type_piece: TypePiece::Rook,
            start: BitIndex((m.end.0 - 2) as u8),
            end: BitIndex((m.end.0 + 1) as u8),
            ..m
        },
    }
}

/// Both sides after a move, the rook included for a castle.
pub open spec fn move_result(bb: BitBoardsWhiteAndBlack, m: BitBoardMove) -> BitBoardsWhiteAndBlack {
    match castle_of(m) {
        Some(c) => simple_move(simple_move(bb, m), castle_rook_move(m, c)),
        None => simple_move(bb, m),
    }
}

/// The move stays on the board, its castle rook included.
pub open spec fn move_wf(m: BitBoardMove) -> bool {
    &&& m.start.0 < 64
    &&& m.end.0 < 64
    &&& castle_of(m) == Some(Castle::Short) ==> 1 <= m.end.0 && m.end.0 + 1 < 64
    &&& castle_of(m) == Some(Castle::Long) ==> 2 <= m.end.0 && m.end.0 + 1 < 64
}

} // verus!


