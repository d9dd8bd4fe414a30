//! The state of a position beyond the pieces: castling rights, side to move,
//! en passant square and move counters, packed in a few integers.
use vstd::prelude::*;
use crate::bitboard::{BitBoard, BitIndex};
use crate::coord::Coord;

use crate::square::Color;

verus! {

/// Castling rights and the side to move as flags, the en passant square (-1
/// when none), the half moves since the last capture or pawn move, and the move number.
#[derive(Debug, Clone, Copy, PartialEq, Eq, Structural)]
pub struct BitPositionStatus {
    pub flags: u8,
    pub pawn_en_passant: i8,
    pub n_half_moves: u16,
    pub n_moves: u16,
}

pub const CASTLING_WHITE_QUEEN_SIDE: u8 = 1;
pub const CASTLING_WHITE_KING_SIDE: u8 = 2;
pub const CASTLING_BLACK_QUEEN_SIDE: u8 = 4;
pub const CASTLING_BLACK_KING_SIDE: u8 = 8;
pub const PLAYER_TURN_WHITE: u8 = 16;

pub const MASK_CASTLING_KINGSIDE_WHITE: u64 = 0x60;
pub const MASK_CASTLING_QUEENSIDE_WHITE: u64 = 0x0E;
pub const MASK_CASTLING_KINGSIDE_BLACK: u64 = 0x6000_0000_0000_0000;
pub const MASK_CASTLING_QUEENSIDE_BLACK: u64 = 0x0E00_0000_0000_0000;

impl BitPositionStatus {
    pub open spec fn spec_castling_white_queen_side(&self) -> bool {
        self.flags & 1u8 != 0
    }

    pub open spec fn spec_castling_white_king_side(&self) -> bool {
        self.flags & 2u8 != 0
    }

    pub open spec fn spec_castling_black_queen_side(&self) -> bool {
        self.flags & 4u8 != 0
    }

    pub open spec fn spec_castling_black_king_side(&self) -> bool {
        self.flags & 8u8 != 0
    }

    pub open spec fn spec_player_turn_white(&self) -> bool {
        self.flags & 16u8 != 0
    }

    /// The en passant square, when one is recorded.
    pub open spec fn spec_en_passant(&self) -> Option<BitIndex> {
        if 0 <= self.pawn_en_passant <= 63 {
            Some(BitIndex(self.pawn_en_passant as u8))
        } else {
            None
        }
    }

    /// The side to move.
    pub open spec fn spec_player_turn(&self) -> Color {
        if self.spec_player_turn_white() { Color::White } else { Color::Black }
    }

    /// No right, Black to move, no en passant square, counters at zero.
    pub fn new() -> (r: Self)
        ensures
            r == (BitPositionStatus { flags: 0, pawn_en_passant: -1i8, n_half_moves: 0, n_moves: 0 }),
    {
        BitPositionStatus { flags: 0, pawn_en_passant: -1, n_half_moves: 0, n_moves: 0 }
    }

    pub fn castling_white_queen_side(&self) -> (r: bool)
        ensures
            r == self.spec_castling_white_queen_side(),
    {
        (self.flags & CASTLING_WHITE_QUEEN_SIDE) != 0
    }

    pub fn castling_white_king_side(&self) -> (r: bool)
        ensures
            r == self.spec_castling_white_king_side(),
    {
        (self.flags & CASTLING_WHITE_KING_SIDE) != 0
    }

    pub fn castling_black_queen_side(&self) -> (r: bool)
        ensures
            r == self.spec_castling_black_queen_side(),
    {
        (self.flags & CASTLING_BLACK_QUEEN_SIDE) != 0
    }

    pub fn castling_black_king_side(&self) -> (r: bool)
        ensures
            r == self.spec_castling_black_king_side(),
    {
        (self.flags & CASTLING_BLACK_KING_SIDE) != 0
    }

    pub fn player_turn_white(&self) -> (r: bool)
        ensures
            r == self.spec_player_turn_white(),
    {
        (self.flags & PLAYER_TURN_WHITE) != 0
    }

    pub fn set_castling_white_queen_side(&mut self, value: bool)
        ensures
            final(self).spec_castling_white_queen_side() == value,
            final(self).spec_castling_white_king_side() == old(self).spec_castling_white_king_side(),
            final(self).spec_castling_black_queen_side() == old(self).spec_castling_black_queen_side(),
            final(self).spec_castling_black_king_side() == old(self).spec_castling_black_king_side(),
            final(self).spec_player_turn_white() == old(self).spec_player_turn_white(),
            final(self).pawn_en_passant == old(self).pawn_en_passant,
            final(self).n_half_moves == old(self).n_half_moves,
            final(self).n_moves == old(self).n_moves,
            final(self).flags == if value { old(self).flags | 1u8 } else { old(self).flags & !1u8 },
    {
        let f = self.flags;
        proof {
            crate::bits::lemma_flag_bits(f);
        }
        if value {
            self.flags = self.flags | CASTLING_WHITE_QUEEN_SIDE;
        } else {
            self.flags = self.flags & !CASTLING_WHITE_QUEEN_SIDE;
        }
    }

    pub fn set_castling_white_king_side(&mut self, value: bool)
        ensures
            final(self).spec_castling_white_king_side() == value,
            final(self).spec_castling_white_queen_side() == old(self).spec_castling_white_queen_side(),
            final(self).spec_castling_black_queen_side() == old(self).spec_castling_black_queen_side(),
            final(self).spec_castling_black_king_side() == old(self).spec_castling_black_king_side(),
            final(self).spec_player_turn_white() == old(self).spec_player_turn_white(),
            final(self).pawn_en_passant == old(self).pawn_en_passant,
            final(self).n_half_moves == old(self).n_half_moves,
            final(self).n_moves == old(self).n_moves,
            final(self).flags == if value { old(self).flags | 2u8 } else { old(self).flags & !2u8 },
    {
        let f = self.flags;
        proof {
            crate::bits::lemma_flag_bits(f);
        }
        if value {
            self.flags = self.flags | CASTLING_WHITE_KING_SIDE;
        } else {
            self.flags = self.flags & !CASTLING_WHITE_KING_SIDE;
        }
    }

    pub fn set_castling_black_queen_side(&mut self, value: bool)
        ensures
            final(self).spec_castling_black_queen_side() == value,
            final(self).spec_castling_white_queen_side() == old(self).spec_castling_white_queen_side(),
            final(self).spec_castling_white_king_side() == old(self).spec_castling_white_king_side(),
            final(self).spec_castling_black_king_side() == old(self).spec_castling_black_king_side(),
            final(self).spec_player_turn_white() == old(self).spec_player_turn_white(),
            final(self).pawn_en_passant == old(self).pawn_en_passant,
            final(self).n_half_moves == old(self).n_half_moves,
            final(self).n_moves == old(self).n_moves,
            final(self).flags == if value { old(self).flags | 4u8 } else { old(self).flags & !4u8 },
    {
        let f = self.flags;
        proof {
            crate::bits::lemma_flag_bits(f);
        }
        if value {
            self.flags = self.flags | CASTLING_BLACK_QUEEN_SIDE;
        } else {
            self.flags = self.flags & !CASTLING_BLACK_QUEEN_SIDE;
        }
    }

    pub fn set_castling_black_king_side(&mut self, value: bool)
        ensures
            final(self).spec_castling_black_king_side() == value,
            final(self).spec_castling_white_queen_side() == old(self).spec_castling_white_queen_side(),
            final(self).spec_castling_white_king_side() == old(self).spec_castling_white_king_side(),
            final(self).spec_castling_black_queen_side() == old(self).spec_castling_black_queen_side(),
            final(self).spec_player_turn_white() == old(self).spec_player_turn_white(),
            final(self).pawn_en_passant == old(self).pawn_en_passant,
            final(self).n_half_moves == old(self).n_half_moves,
            final(self).n_moves == old(self).n_moves,
            final(self).flags == if value { old(self).flags | 8u8 } else { old(self).flags & !8u8 },
    {
        let f = self.flags;
        proof {
            crate::bits::lemma_flag_bits(f);
        }
        if value {
            self.flags = self.flags | CASTLING_BLACK_KING_SIDE;
        } else {
            self.flags = self.flags & !CASTLING_BLACK_KING_SIDE;
        }
    }

    pub fn set_player_turn_white(&mut self, value: bool)
        ensures
            final(self).spec_player_turn_white() == value,
            final(self).spec_castling_white_queen_side() == old(self).spec_castling_white_queen_side(),
            final(self).spec_castling_white_king_side() == old(self).spec_castling_white_king_side(),
            final(self).spec_castling_black_queen_side() == old(self).spec_castling_black_queen_side(),
            final(self).spec_castling_black_king_side() == old(self).spec_castling_black_king_side(),
            final(self).pawn_en_passant == old(self).pawn_en_passant,
            final(self).n_half_moves == old(self).n_half_moves,
            final(self).n_moves == old(self).n_moves,
            final(self).flags == if value { old(self).flags | 16u8 } else { old(self).flags & !16u8 },
    {
        let f = self.flags;
        proof {
            crate::bits::lemma_flag_bits(f);
        }
        if value {
            self.flags = self.flags | PLAYER_TURN_WHITE;
        } else {
            self.flags = self.flags & !PLAYER_TURN_WHITE;
        }
    }

    /// The two squares the king crosses to castle king side, when `color` still has
    /// that right and the squares between king and rook are free in `bit_board`.
    pub fn can_castle_king_side(&self, bit_board: BitBoard, color: &Color) -> (r: Option<(BitIndex, BitIndex)>)
        ensures
            r == king_side_squares(*self, bit_board.0, *color),
    {
        match color {
            Color::White => {
                if self.castling_white_king_side() && bit_board.bitand(
                    BitBoard(MASK_CASTLING_KINGSIDE_WHITE),
                ).empty() {
                    Some((BitIndex(5), BitIndex(6)))
                } else {
                    None
                }
            },
            Color::Black => {
                if self.castling_black_king_side() && bit_board.bitand(
                    BitBoard(MASK_CASTLING_KINGSIDE_BLACK),
                ).empty() {
                    Some((BitIndex(61), BitIndex(62)))
                } else {
                    None
                }
            },
        }
    }

    /// The three squares between king and rook for the queen side castle, when
    /// `color` still has that right and they are free in `bit_board`.
    pub fn can_castle_queen_side(&self, bit_board: BitBoard, color: &Color) -> (r: Option<(BitIndex, BitIndex, BitIndex)>)
        ensures
            r == queen_side_squares(*self, bit_board.0, *color),
    {
        match color {
            Color::White => {
                if self.castling_white_queen_side() && bit_board.bitand(
                    BitBoard(MASK_CASTLING_QUEENSIDE_WHITE),
                ).empty() {
                    Some((BitIndex(1), BitIndex(2), BitIndex(3)))
                } else {
                    None
                }
            },
            Color::Black => {
                if self.castling_black_queen_side() && bit_board.bitand(
                    BitBoard(MASK_CASTLING_QUEENSIDE_BLACK),
                ).empty() {
                    Some((BitIndex(57), BitIndex(58), BitIndex(59)))
                } else {
                    None
                }
            },
        }
    }

    pub fn player_turn(&self) -> (r: Color)
        ensures
            r == self.spec_player_turn(),
    {
        if self.player_turn_white() {
            Color::White
        } else {
            Color::Black
        }
    }

    pub fn pawn_en_passant(&self) -> (r: Option<BitIndex>)
        ensures
            r == self.spec_en_passant(),
    {
        if self.pawn_en_passant < 0 || self.pawn_en_passant > 63 {
            None
        } else {
            Some(BitIndex(self.pawn_en_passant as u8))
        }
    }

    pub fn n_half_moves(&self) -> (r: u16)
        ensures
            r == self.n_half_moves,
    {
        self.n_half_moves
    }

    pub fn n_moves(&self) -> (r: u16)
        ensures
            r == self.n_moves,
    {
        self.n_moves
    }

    /// Removes both castling rights of `color`.
    pub fn disable_castling(&mut self, color: Color)
        ensures
            *final(self) == old(self).without_castling(color, true, true),
    {
        self.set_castling_king_side(color, false);
        self.set_castling_queen_side(color, false);
    }

    /// The status with the king side (`king`) and/or queen side (`queen`) right of
    /// `color` removed.
    pub open spec fn without_castling(self, color: Color, king: bool, queen: bool) -> Self {
        let km: u8 = if color == Color::White { 2u8 } else { 8u8 };
        let qm: u8 = if color == Color::White { 1u8 } else { 4u8 };
        let f1: u8 = if king { self.flags & !km } else { self.flags };
        let f2: u8 = if queen { f1 & !qm } else { f1 };
        BitPositionStatus { flags: f2, ..self }
    }

    /// Sets the queen side castling right of `color`.
    pub fn set_castling_queen_side(&mut self, color: Color, value: bool)
        ensures
            color == Color::White ==> final(self).flags == if value { old(self).flags | 1u8 } else { old(self).flags & !1u8 },
            color == Color::Black ==> final(self).flags == if value { old(self).flags | 4u8 } else { old(self).flags & !4u8 },
            final(self).pawn_en_passant == old(self).pawn_en_passant,
            final(self).n_half_moves == old(self).n_half_moves,
            final(self).n_moves == old(self).n_moves,
    {
        match color {
            Color::White => self.set_castling_white_queen_side(value),
            Color::Black => self.set_castling_black_queen_side(value),
        }
    }

    /// Sets the king side castling right of `color`.
    pub fn set_castling_king_side(&mut self, color: Color, value: bool)
        ensures
            color == Color::White ==> final(self).flags == if value { old(self).flags | 2u8 } else { old(self).flags & !2u8 },
            color == Color::Black ==> final(self).flags == if value { old(self).flags | 8u8 } else { old(self).flags & !8u8 },
            final(self).pawn_en_passant == old(self).pawn_en_passant,
            final(self).n_half_moves == old(self).n_half_moves,
            final(self).n_moves == old(self).n_moves,
    {
        match color {
            Color::White => self.set_castling_white_king_side(value),
            Color::Black => self.set_castling_black_king_side(value),
        }
    }

    /// Records the en passant square; anything but a square 0..=63 records none.
    pub fn set_pawn_en_passant(&mut self, value: Option<i8>)
        ensures
            *final(self) == (BitPositionStatus {
                pawn_en_passant: match value {
                    Some(sq) => if 0 <= sq < 64 { sq } else { -1i8 },
                    None => -1i8,
                },
                ..*old(self)
            }),
    {
        self.pawn_en_passant = match value {
            Some(square) => if 0 <= square && square < 64 { square } else { -1 },
            None => -1,
        };
    }

    pub fn set_n_half_moves(&mut self, value: u16)
        ensures
            *final(self) == (BitPositionStatus { n_half_moves: value, ..*old(self) }),
    {
        self.n_half_moves = value;
    }

    pub fn reset_n_half_moves(&mut self)
        ensures
            *final(self) == (BitPositionStatus { n_half_moves: 0, ..*old(self) }),
    {
        self.n_half_moves = 0;
    }

    pub fn inc_n_half_moves(&mut self)
        requires
            old(self).n_half_moves < u16::MAX,
        ensures
            *final(self) == (BitPositionStatus { n_half_moves: (old(self).n_half_moves + 1) as u16, ..*old(self) }),
    {
        self.n_half_moves = self.n_half_moves + 1;
    }

    pub fn inc_n_moves(&mut self)
        requires
            old(self).n_moves < u16::MAX,
        ensures
            *final(self) == (BitPositionStatus { n_moves: (old(self).n_moves + 1) as u16, ..*old(self) }),
    {
        self.n_moves = self.n_moves + 1;
    }

    pub fn set_n_moves(&mut self, value: u16)
        ensures
            *final(self) == (BitPositionStatus { n_moves: value, ..*old(self) }),
    {
        self.n_moves = value;
    }
}

/// The two squares the king crosses to castle king side, when `color` still has
/// that right and the squares between king and rook are free in `b`.
pub open spec fn king_side_squares(s: BitPositionStatus, b: u64, color: Color) -> Option<(BitIndex, BitIndex)> {
    match color {
        Color::White => if s.spec_castling_white_king_side() && b & MASK_CASTLING_KINGSIDE_WHITE == 0 {
            Some((BitIndex(5), BitIndex(6)))
        } else {
            None
        },
        Color::Black => if s.spec_castling_black_king_side() && b & MASK_CASTLING_KINGSIDE_BLACK == 0 {
            Some((BitIndex(61), BitIndex(62)))
        } else {
            None
        },
    }
}

/// The three squares between king and rook for the queen side castle, when
/// `color` still has that right and they are free in `b`.
pub open spec fn queen_side_squares(s: BitPositionStatus, b: u64, color: Color) -> Option<(BitIndex, BitIndex, BitIndex)> {
    match color {
        Color::White => if s.spec_castling_white_queen_side() && b & MASK_CASTLING_QUEENSIDE_WHITE == 0 {
            Some((BitIndex(1), BitIndex(2), BitIndex(3)))
        } else {
            None
        },
        Color::Black => if s.spec_castling_black_queen_side() && b & MASK_CASTLING_QUEENSIDE_BLACK == 0 {
            Some((BitIndex(57), BitIndex(58), BitIndex(59)))
        } else {
            None
        },
    }
}

/// A castle is offered only to a side that still holds that castling right,
/// and only over free squares between king and rook; a side holding the right
/// with those squares free is offered it.
pub proof fn lemma_castle_needs_right(s: BitPositionStatus, b: u64, color: Color)
    ensures
        king_side_squares(s, b, color) is Some ==> if color == Color::White {
            s.spec_castling_white_king_side() && b & MASK_CASTLING_KINGSIDE_WHITE == 0
        } else {
            s.spec_castling_black_king_side() && b & MASK_CASTLING_KINGSIDE_BLACK == 0
        },
        queen_side_squares(s, b, color) is Some ==> if color == Color::White {
            s.spec_castling_white_queen_side() && b & MASK_CASTLING_QUEENSIDE_WHITE == 0
        } else {
            s.spec_castling_black_queen_side() && b & MASK_CASTLING_QUEENSIDE_BLACK == 0
        },
        (color == Color::White && s.spec_castling_white_king_side() && b & MASK_CASTLING_KINGSIDE_WHITE == 0)
            ==> king_side_squares(s, b, color) is Some,
        (color == Color::Black && s.spec_castling_black_king_side() && b & MASK_CASTLING_KINGSIDE_BLACK == 0)
            ==> king_side_squares(s, b, color) is Some,
        (color == Color::White && s.spec_castling_white_queen_side() && b & MASK_CASTLING_QUEENSIDE_WHITE == 0)
            ==> queen_side_squares(s, b, color) is Some,
        (color == Color::Black && s.spec_castling_black_queen_side() && b & MASK_CASTLING_QUEENSIDE_BLACK == 0)
            ==> queen_side_squares(s, b, color) is Some,
{
}

} // verus!
