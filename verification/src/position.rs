//! A position in bitboard form, and how a move changes it.
use vstd::prelude::*;
use crate::bitboard::{BitBoard, BitIndex, coord_of, col_letter};
use crate::bitboard_move::BitBoardMove;
use crate::bitboards::{BitBoardsWhiteAndBlack, move_result, move_wf};
use crate::bits::{bit, single};
use crate::coord::{Coord, coord_index};
use crate::fen::{Position, PositionStatus};
use crate::square::{Color, Square, Switch, TypePiece};
use crate::status::BitPositionStatus;

verus! {

/// The boards of both sides and the status.
#[derive(Debug, Copy, Clone, PartialEq, Eq, Structural)]
pub struct BitPosition {
    pub bit_boards_white_and_black: BitBoardsWhiteAndBlack,
    pub bit_position_status: BitPositionStatus,
}

/// Whether a pawn move makes an en passant capture possible next move: the
/// pawn advanced two rows and an opponent pawn stands next to its end square
/// in index order, to the right or to the left.
pub open spec fn opens_en_passant(m: BitBoardMove, pawn_opponent: u64) -> bool {
    let dir: int = if m.color == Color::White { 8 } else { -8 };
    m.start.0 + dir + dir == m.end.0 && (bit(pawn_opponent, m.end.0 + 1) || bit(pawn_opponent, m.end.0 - 1))
}

/// The status after a move: a rook leaving square 1 or 56 loses the queen side
/// right and one leaving 7 or 63 the king side right, a king move loses both, a
/// pawn move records the square it passed when it opens an en passant capture
/// (none otherwise); a rook captured on its corner square loses its side's
/// right on that side; then the other side is to move, Black's move ends a full move,
/// and the half move count restarts on a capture or pawn move.
pub open spec fn status_after(m: BitBoardMove, pawn_opponent: u64, st: BitPositionStatus) -> BitPositionStatus {
    let st1 = match m.type_piece {
        TypePiece::Rook => st.without_castling(
            m.color,
            m.start.0 == 7 || m.start.0 == 63,
            m.start.0 == 1 || m.start.0 == 56,
        ),
        TypePiece::King => st.without_castling(m.color, true, true),
        TypePiece::Pawn => {
            let dir: int = if m.color == Color::White { 8 } else { -8 };
            let v = m.start.0 + dir;
            BitPositionStatus {
                pawn_en_passant: if opens_en_passant(m, pawn_opponent) && 0 <= v < 64 {
                    v as i8
                } else {
                    -1i8
                },
                ..st
            }
        },
        _ => st,
    };
    let opp = crate::square::opposite(m.color);
    let st2 = match m.capture {
        Some(TypePiece::Rook) => st1.without_castling(
            opp,
            m.end.0 == (if opp == Color::White { 7u8 } else { 63u8 }),
            m.end.0 == (if opp == Color::White { 0u8 } else { 56u8 }),
        ),
        _ => st1,
    };
    let flags = if m.color == Color::Black { st2.flags | 16u8 } else { st2.flags & !16u8 };
    let n_moves = if m.color == Color::Black { (st2.n_moves + 1) as u16 } else { st2.n_moves };
    let n_half_moves = if m.capture is None && m.type_piece != TypePiece::Pawn {
        (st2.n_half_moves + 1) as u16
    } else {
        0u16
    };
    BitPositionStatus { flags, n_moves, n_half_moves, ..st2 }
}

/// The status is updatable by `m`: counters below their limit and, for a pawn,
/// start and end squares on the board.
pub open spec fn status_move_ok(m: BitBoardMove, st: BitPositionStatus) -> bool {
    &&& m.color == Color::Black ==> st.n_moves < u16::MAX
    &&& (m.capture is None && m.type_piece != TypePiece::Pawn) ==> st.n_half_moves < u16::MAX
    &&& m.type_piece == TypePiece::Pawn ==> m.start.0 < 64 && m.end.0 < 64
}

/// The status after `b_move`, the opponent's pawns being `bit_board_pawn_opponent`.
pub fn update_status(
    b_move: &BitBoardMove,
    bit_board_pawn_opponent: &BitBoard,
    bit_position_status: BitPositionStatus,
) -> (r: BitPositionStatus)
    requires
        status_move_ok(*b_move, bit_position_status),
    ensures
        r == status_after(*b_move, bit_board_pawn_opponent.0, bit_position_status),
{
    let mut st = bit_position_status;
    match b_move.type_piece {
        TypePiece::Rook => {
            if b_move.start.0 == 1 || b_move.start.0 == 56 {
                st.set_castling_queen_side(b_move.color, false);
            }
            if b_move.start.0 == 7 || b_move.start.0 == 63 {
                st.set_castling_king_side(b_move.color, false);
            }
            proof {
                let f = bit_position_status.flags;
                crate::bits::lemma_flag_bits(f);
            }
        },
        TypePiece::King => {
            st.disable_castling(b_move.color);
        },
        TypePiece::Pawn => {
            let dir: i8 = if b_move.color == Color::White { 8 } else { -8 };
            let start = b_move.start.0 as i8;
            let end = b_move.end.0 as i8;
            let mut capture_en_passant: Option<i8> = None;
            let right_hit = b_move.end.0 < 63 && has_bit(bit_board_pawn_opponent, b_move.end.right());
            let left_hit = b_move.end.0 >= 1 && has_bit(bit_board_pawn_opponent, b_move.end.left());
            if start + dir + dir == end && (right_hit || left_hit) {
                capture_en_passant = Some(start + dir);
            }
            st.set_pawn_en_passant(capture_en_passant);
        },
        _ => {},
    }
    match b_move.capture {
        Some(TypePiece::Rook) => {
            let opp = b_move.color.switch();
            let king_corner: u8 = match opp {
                Color::White => 7,
                Color::Black => 63,
            };
            let queen_corner: u8 = match opp {
                Color::White => 0,
                Color::Black => 56,
            };
            if b_move.end.0 == king_corner {
                st.set_castling_king_side(opp, false);
            }
            if b_move.end.0 == queen_corner {
                st.set_castling_queen_side(opp, false);
            }
        },
        _ => {},
    }
    st.set_player_turn_white(b_move.color == Color::Black);
    if b_move.color == Color::Black {
        st.inc_n_moves();
    }
    if b_move.capture.is_none() && b_move.type_piece != TypePiece::Pawn {
        st.inc_n_half_moves();
    } else {
        st.reset_n_half_moves();
    }
    st
}

/// Square `index` belongs to `b`.
fn has_bit(b: &BitBoard, index: BitIndex) -> (r: bool)
    requires
        index.0 < 64,
    ensures
        r == bit(b.0, index.0 as int),
{
    proof {
        crate::bits::lemma_bit_and_single(b.0, index.0 as u64);
        assert(b.0 & single(index.0 as int) == single(index.0 as int) & b.0) by {
            crate::bits::lemma_u64_algebra();
        }
    }
    b.bitand(index.bitboard()).non_empty()
}

/// The en passant coordinate as a square index.
pub fn encode_pawn_en_passant(maybe_coord: Option<Coord>) -> (r: Option<i8>)
    requires
        maybe_coord matches Some(c) ==> c.wf(),
    ensures
        match maybe_coord {
            Some(c) => r == Some(coord_index(c) as i8),
            None => r is None,
        },
{
    match maybe_coord {
        Some(coord) => Some((coord.get_y() * 8) as i8 + (coord.get_x() as i8)),
        None => None,
    }
}

/// The coordinate of an en passant square index.
pub fn decode_pawn_en_passant(maybe_index: Option<BitIndex>) -> (r: Option<Coord>)
    requires
        maybe_index matches Some(i) ==> i.0 < 64,
    ensures
        match maybe_index {
            Some(i) => r == Some(coord_of(i.0 as int)),
            None => r is None,
        },
{
    match maybe_index {
        Some(index) => match Coord::from(col_letter(index.col()), index.row() + 1) {
            Ok(c) => Some(c),
            Err(_) => None,
        },
        None => None,
    }
}

impl BitPositionStatus {
    /// The status of a position status.
    pub fn from(status: &PositionStatus) -> (r: Self)
        requires
            status.wf(),
        ensures
            r.spec_castling_white_queen_side() == status.castling_white_queen_side,
            r.spec_castling_white_king_side() == status.castling_white_king_side,
            r.spec_castling_black_queen_side() == status.castling_black_queen_side,
            r.spec_castling_black_king_side() == status.castling_black_king_side,
            r.spec_player_turn() == status.player_turn,
            match status.pawn_en_passant {
                Some(c) => r.pawn_en_passant == coord_index(c),
                None => r.pawn_en_passant == -1,
            },
            r.n_half_moves == status.n_half_moves,
            r.n_moves == status.n_moves,
            r.flags < 32,
    {
        let mut bp = BitPositionStatus::new();
        bp.set_castling_white_queen_side(status.castling_white_queen_side());
        bp.set_castling_white_king_side(status.castling_white_king_side());
        bp.set_castling_black_queen_side(status.castling_black_queen_side());
        bp.set_castling_black_king_side(status.castling_black_king_side());
        bp.set_player_turn_white(status.player_turn() == Color::White);
        bp.set_pawn_en_passant(encode_pawn_en_passant(status.pawn_en_passant()));
        bp.set_n_half_moves(status.n_half_moves());
        bp.set_n_moves(status.n_moves());
        proof {
            let f = bp.flags;
            let a = status.castling_white_queen_side;
            let b = status.castling_white_king_side;
            let c = status.castling_black_queen_side;
            let d = status.castling_black_king_side;
            let e = status.player_turn == Color::White;
            let f0: u8 = 0;
            let f1: u8 = if a { f0 | 1u8 } else { f0 & !1u8 };
            let f2: u8 = if b { f1 | 2u8 } else { f1 & !2u8 };
            let f3: u8 = if c { f2 | 4u8 } else { f2 & !4u8 };
            let f4: u8 = if d { f3 | 8u8 } else { f3 & !8u8 };
            let f5: u8 = if e { f4 | 16u8 } else { f4 & !16u8 };
            assert(f5 < 32) by (bit_vector)
                requires
                    f0 == 0u8,
                    f1 == (if a { f0 | 1u8 } else { f0 & !1u8 }),
                    f2 == (if b { f1 | 2u8 } else { f1 & !2u8 }),
                    f3 == (if c { f2 | 4u8 } else { f2 & !4u8 }),
                    f4 == (if d { f3 | 8u8 } else { f3 & !8u8 }),
                    f5 == (if e { f4 | 16u8 } else { f4 & !16u8 }),
            ;
        }
        bp
    }

    /// The position status of this status.
    pub fn to(&self) -> (r: PositionStatus)
        ensures
            r.castling_white_queen_side == self.spec_castling_white_queen_side(),
            r.castling_white_king_side == self.spec_castling_white_king_side(),
            r.castling_black_queen_side == self.spec_castling_black_queen_side(),
            r.castling_black_king_side == self.spec_castling_black_king_side(),
            r.player_turn == self.spec_player_turn(),
            r.pawn_en_passant == match self.spec_en_passant() {
                Some(i) => Some(coord_of(i.0 as int)),
                None => None::<Coord>,
            },
            r.n_half_moves == self.n_half_moves,
            r.n_moves == self.n_moves,
            r.wf(),
    {
        let mut bp = PositionStatus::new();
        bp.set_castling_white_queen_side(self.castling_white_queen_side());
        bp.set_castling_white_king_side(self.castling_white_king_side());
        bp.set_castling_black_queen_side(self.castling_black_queen_side());
        bp.set_castling_black_king_side(self.castling_black_king_side());
        let player_turn = self.player_turn();
        bp.set_player_turn(player_turn);
        bp.set_pawn_en_passant(decode_pawn_en_passant(self.pawn_en_passant()));
        bp.set_n_half_moves(self.n_half_moves());
        bp.set_n_moves(self.n_moves());
        bp
    }
}

/// The position after a move: the pieces moved, the status updated against the
/// opponent's pawns as they stand after the move.
pub open spec fn moved_position(p: BitPosition, m: BitBoardMove) -> BitPosition {
    let boards = move_result(p.bit_boards_white_and_black, m);
    BitPosition {
        bit_boards_white_and_black: boards,
        bit_position_status: status_after(
            m,
            boards.side(crate::square::opposite(m.color)).pawns.bitboard.0,
            p.bit_position_status,
        ),
    }
}

impl BitPosition {
    /// These boards hold exactly the pieces of the board of `position`, and the
    /// status is that of `position`.
    pub open spec fn describes(&self, position: Position) -> bool {
        &&& forall|c: Color, t: TypePiece, i: int|
            0 <= i < 64 ==> (#[trigger] bit(self.bit_boards_white_and_black.side(c).board(t), i)
                <==> position.chessboard.squares@[i] == Square::NonEmpty(
                crate::square::Piece { type_piece: t, color: c },
            ))
        &&& self.bit_position_status == BitPositionStatus::from_spec(position.status)
    }

    /// The position after a move: the pieces moved, the status updated against
    /// the opponent's pawns as they stand after the move.
    pub fn move_piece(self, b_move: &BitBoardMove) -> (r: BitPosition)
        requires
            move_wf(*b_move),
            status_move_ok(*b_move, self.bit_position_status),
        ensures
            r == moved_position(self, *b_move),
    {
        let bit_boards_white_and_black = self.bit_boards_white_and_black.move_piece(b_move);
        let bit_board_pawn_opponent = match b_move.color {
            Color::White => bit_boards_white_and_black.bit_board_black.pawns.bitboard,
            Color::Black => bit_boards_white_and_black.bit_board_white.pawns.bitboard,
        };
        BitPosition {
            bit_boards_white_and_black,
            bit_position_status: update_status(
                b_move,
                &bit_board_pawn_opponent,
                self.bit_position_status,
            ),
        }
    }

    pub fn bit_boards_white_and_black(&self) -> (r: &BitBoardsWhiteAndBlack)
        ensures
            *r == self.bit_boards_white_and_black,
    {
        &self.bit_boards_white_and_black
    }

    pub fn bit_position_status(&self) -> (r: &BitPositionStatus)
        ensures
            *r == self.bit_position_status,
    {
        &self.bit_position_status
    }

    /// The bitboard form of a position.
    pub fn from(position: Position) -> (r: Self)
        requires
            position.status.wf(),
        ensures
            r.describes(position),
    {
        let bit_position_status = BitPositionStatus::from(position.status());
        let bit_position = BitBoardsWhiteAndBlack::from(position.into_chessboard());
        proof {
            BitPositionStatus::lemma_from_spec(position.status, bit_position_status);
        }
        BitPosition { bit_boards_white_and_black: bit_position, bit_position_status }
    }

    /// The position these boards and status describe.
    pub fn to(&self) -> (r: Position)
        ensures
            forall|i: int| 0 <= i < 64 ==> #[trigger] r.chessboard.squares@[i]
                == crate::bitboards::board_square(self.bit_boards_white_and_black, i),
            r.status == self.bit_position_status.to_spec(),
    {
        let chessboard = self.bit_boards_white_and_black.to();
        let status = self.bit_position_status.to();
        Position::build(chessboard, status)
    }
}

impl BitPositionStatus {
    /// The status `from` builds out of a position status.
    pub open spec fn from_spec(s: PositionStatus) -> BitPositionStatus {
        BitPositionStatus {
            flags: (if s.castling_white_queen_side { 1u8 } else { 0u8 }) | (if s.castling_white_king_side { 2u8 } else { 0u8 })
                | (if s.castling_black_queen_side { 4u8 } else { 0u8 }) | (if s.castling_black_king_side { 8u8 } else { 0u8 })
                | (if s.player_turn == Color::White { 16u8 } else { 0u8 }),
            pawn_en_passant: match s.pawn_en_passant {
                Some(c) => coord_index(c) as i8,
                None => -1i8,
            },
            n_half_moves: s.n_half_moves,
            n_moves: s.n_moves,
        }
    }

    /// The position status `to` builds.
    pub open spec fn to_spec(&self) -> PositionStatus {
        PositionStatus {
            castling_white_queen_side: self.spec_castling_white_queen_side(),
            castling_white_king_side: self.spec_castling_white_king_side(),
            castling_black_queen_side: self.spec_castling_black_queen_side(),
            castling_black_king_side: self.spec_castling_black_king_side(),
            player_turn: self.spec_player_turn(),
            pawn_en_passant: match self.spec_en_passant() {
                Some(i) => Some(coord_of(i.0 as int)),
                None => None,
            },
            n_half_moves: self.n_half_moves,
            n_moves: self.n_moves,
        }
    }

    pub proof fn lemma_from_spec(s: PositionStatus, r: BitPositionStatus)
        requires
            s.wf(),
            r.spec_castling_white_queen_side() == s.castling_white_queen_side,
            r.spec_castling_white_king_side() == s.castling_white_king_side,
            r.spec_castling_black_queen_side() == s.castling_black_queen_side,
            r.spec_castling_black_king_side() == s.castling_black_king_side,
            r.spec_player_turn() == s.player_turn,
            match s.pawn_en_passant {
                Some(c) => r.pawn_en_passant == coord_index(c),
                None => r.pawn_en_passant == -1,
            },
            r.n_half_moves == s.n_half_moves,
            r.n_moves == s.n_moves,
            r.flags < 32,
        ensures
            r == BitPositionStatus::from_spec(s),
    {
        let f = r.flags;
        let a = s.castling_white_queen_side;
        let b = s.castling_white_king_side;
        let c = s.castling_black_queen_side;
        let d = s.castling_black_king_side;
        let e = s.player_turn == Color::White;
        assert(f == (if a { 1u8 } else { 0u8 }) | (if b { 2u8 } else { 0u8 }) | (if c { 4u8 } else { 0u8 })
            | (if d { 8u8 } else { 0u8 }) | (if e { 16u8 } else { 0u8 })) by (bit_vector)
            requires
                f < 32,
                (f & 1u8 != 0) == a,
                (f & 2u8 != 0) == b,
                (f & 4u8 != 0) == c,
                (f & 8u8 != 0) == d,
                (f & 16u8 != 0) == e,
        ;
    }
}

/// Turning a position into bitboards and back gives the position again: every
/// square holds what it held, and the status is the same.
pub proof fn lemma_position_round_trip(position: Position, bp: BitPosition)
    requires
        position.status.wf(),
        bp.describes(position),
    ensures
        forall|i: int| 0 <= i < 64 ==> #[trigger] crate::bitboards::board_square(bp.bit_boards_white_and_black, i)
            == position.chessboard.squares@[i],
        bp.bit_position_status.to_spec() == position.status,
{
    assert forall|i: int| 0 <= i < 64 implies #[trigger] crate::bitboards::board_square(bp.bit_boards_white_and_black, i)
        == position.chessboard.squares@[i] by {
        let bb = bp.bit_boards_white_and_black;
        let sq = position.chessboard.squares@[i];
        assert(bit(bb.side(Color::Black).board(TypePiece::Pawn), i) <==> sq == Square::NonEmpty(crate::square::Piece { type_piece: TypePiece::Pawn, color: Color::Black }));
        assert(bit(bb.side(Color::White).board(TypePiece::Pawn), i) <==> sq == Square::NonEmpty(crate::square::Piece { type_piece: TypePiece::Pawn, color: Color::White }));
        assert(bit(bb.side(Color::Black).board(TypePiece::King), i) <==> sq == Square::NonEmpty(crate::square::Piece { type_piece: TypePiece::King, color: Color::Black }));
        assert(bit(bb.side(Color::White).board(TypePiece::King), i) <==> sq == Square::NonEmpty(crate::square::Piece { type_piece: TypePiece::King, color: Color::White }));
        assert(bit(bb.side(Color::Black).board(TypePiece::Queen), i) <==> sq == Square::NonEmpty(crate::square::Piece { type_piece: TypePiece::Queen, color: Color::Black }));
        assert(bit(bb.side(Color::White).board(TypePiece::Queen), i) <==> sq == Square::NonEmpty(crate::square::Piece { type_piece: TypePiece::Queen, color: Color::White }));
        assert(bit(bb.side(Color::Black).board(TypePiece::Bishop), i) <==> sq == Square::NonEmpty(crate::square::Piece { type_piece: TypePiece::Bishop, color: Color::Black }));
        assert(bit(bb.side(Color::White).board(TypePiece::Bishop), i) <==> sq == Square::NonEmpty(crate::square::Piece { type_piece: TypePiece::Bishop, color: Color::White }));
        assert(bit(bb.side(Color::Black).board(TypePiece::Knight), i) <==> sq == Square::NonEmpty(crate::square::Piece { type_piece: TypePiece::Knight, color: Color::Black }));
        assert(bit(bb.side(Color::White).board(TypePiece::Knight), i) <==> sq == Square::NonEmpty(crate::square::Piece { type_piece: TypePiece::Knight, color: Color::White }));
        assert(bit(bb.side(Color::Black).board(TypePiece::Rook), i) <==> sq == Square::NonEmpty(crate::square::Piece { type_piece: TypePiece::Rook, color: Color::Black }));
        assert(bit(bb.side(Color::White).board(TypePiece::Rook), i) <==> sq == Square::NonEmpty(crate::square::Piece { type_piece: TypePiece::Rook, color: Color::White }));
    }
    let s = position.status;
    let f = bp.bit_position_status.flags;
    let a = s.castling_white_queen_side;
    let b = s.castling_white_king_side;
    let c = s.castling_black_queen_side;
    let d = s.castling_black_king_side;
    let e = s.player_turn == Color::White;
    assert((f & 1u8 != 0) == a && (f & 2u8 != 0) == b && (f & 4u8 != 0) == c && (f & 8u8 != 0) == d
        && (f & 16u8 != 0) == e) by (bit_vector)
        requires
            f == (if a { 1u8 } else { 0u8 }) | (if b { 2u8 } else { 0u8 }) | (if c { 4u8 } else { 0u8 })
                | (if d { 8u8 } else { 0u8 }) | (if e { 16u8 } else { 0u8 }),
    ;
    if let Some(ep) = s.pawn_en_passant {
        let idx = coord_index(ep);
        assert(0 <= idx < 64);
        assert(bp.bit_position_status.pawn_en_passant == idx);
        assert(idx % 8 == ep.x() && idx / 8 == ep.y());
        assert(coord_of(idx) == ep);
    }
}

} // verus!
