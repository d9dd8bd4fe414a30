//! Move generation: the squares each piece may go to, check detection, and the
//! legal moves of a side.
use vstd::prelude::*;
use crate::bitboard::{BitBoard, BitIndex, Direction, direction_of};
use crate::bits::{bit, single, lemma_clear_lowest, lemma_lowest_in};
use crate::bitboards::{BitBoards, BitBoardsWhiteAndBlack};
use crate::bits::at_most_one_bit;
use vstd::std_specs::bits::u64_trailing_zeros;
use crate::square::{Color, TypePiece, Switch};
use crate::table::{
    bishop_moves, bishop_reach, king_moves, king_reach, knight_moves, knight_reach, ray, ray_moves,
    rook_reach,
};

verus! {

/// The squares occupied by the rooks of one side.
#[derive(Debug, Copy, Clone, PartialEq, Eq, Structural)]
pub struct RooksBitBoard {
    pub bitboard: BitBoard,
}

impl RooksBitBoard {
    pub fn new(bitboard: BitBoard) -> (r: Self)
        ensures
            r.bitboard == bitboard,
    {
        RooksBitBoard { bitboard }
    }

    pub fn bitboard(&self) -> (r: &BitBoard)
        ensures
            *r == self.bitboard,
    {
        &self.bitboard
    }

    /// Toggles the squares of `mask_xor`.
    pub fn xor_mut(&mut self, mask_xor: BitBoard)
        ensures
            final(self).bitboard.0 == old(self).bitboard.0 ^ mask_xor.0,
    {
        self.bitboard.xor_mut(mask_xor);
    }

    /// Toggles the squares of `mask_switch`, then adds those of `mask_promotion`.
    pub fn switch(&mut self, mask_switch: BitBoard, mask_promotion: BitBoard)
        ensures
            final(self).bitboard.0 == (old(self).bitboard.0 ^ mask_switch.0) | mask_promotion.0,
    {
        self.bitboard.switch(mask_switch, mask_promotion);
    }
}

/// The squares occupied by the bishops of one side.
#[derive(Debug, Copy, Clone, PartialEq, Eq, Structural)]
pub struct BishopsBitBoard {
    pub bitboard: BitBoard,
}

impl BishopsBitBoard {
    pub fn new(bitboard: BitBoard) -> (r: Self)
        ensures
            r.bitboard == bitboard,
    {
        BishopsBitBoard { bitboard }
    }

    pub fn bitboard(&self) -> (r: &BitBoard)
        ensures
            *r == self.bitboard,
    {
        &self.bitboard
    }

    /// Toggles the squares of `mask_xor`.
    pub fn xor_mut(&mut self, mask_xor: BitBoard)
        ensures
            final(self).bitboard.0 == old(self).bitboard.0 ^ mask_xor.0,
    {
        self.bitboard.xor_mut(mask_xor);
    }

    /// Toggles the squares of `mask_switch`, then adds those of `mask_promotion`.
    pub fn switch(&mut self, mask_switch: BitBoard, mask_promotion: BitBoard)
        ensures
            final(self).bitboard.0 == (old(self).bitboard.0 ^ mask_switch.0) | mask_promotion.0,
    {
        self.bitboard.switch(mask_switch, mask_promotion);
    }
}

/// The squares occupied by the knights of one side.
#[derive(Debug, Copy, Clone, PartialEq, Eq, Structural)]
pub struct KnightsBitBoard {
    pub bitboard: BitBoard,
}

impl KnightsBitBoard {
    pub fn new(bitboard: BitBoard) -> (r: Self)
        ensures
            r.bitboard == bitboard,
    {
        KnightsBitBoard { bitboard }
    }

    pub fn bitboard(&self) -> (r: &BitBoard)
        ensures
            *r == self.bitboard,
    {
        &self.bitboard
    }

    /// Toggles the squares of `mask_xor`.
    pub fn xor_mut(&mut self, mask_xor: BitBoard)
        ensures
            final(self).bitboard.0 == old(self).bitboard.0 ^ mask_xor.0,
    {
        self.bitboard.xor_mut(mask_xor);
    }

    /// Toggles the squares of `mask_switch`, then adds those of `mask_promotion`.
    pub fn switch(&mut self, mask_switch: BitBoard, mask_promotion: BitBoard)
        ensures
            final(self).bitboard.0 == (old(self).bitboard.0 ^ mask_switch.0) | mask_promotion.0,
    {
        self.bitboard.switch(mask_switch, mask_promotion);
    }
}

/// The squares occupied by the king of one side.
#[derive(Debug, Copy, Clone, PartialEq, Eq, Structural)]
pub struct KingBitBoard {
    pub bitboard: BitBoard,
}

impl KingBitBoard {
    pub fn new(bitboard: BitBoard) -> (r: Self)
        ensures
            r.bitboard == bitboard,
    {
        KingBitBoard { bitboard }
    }

    pub fn bitboard(&self) -> (r: &BitBoard)
        ensures
            *r == self.bitboard,
    {
        &self.bitboard
    }

    /// Toggles the squares of `mask_xor`.
    pub fn xor_mut(&mut self, mask_xor: BitBoard)
        ensures
            final(self).bitboard.0 == old(self).bitboard.0 ^ mask_xor.0,
    {
        self.bitboard.xor_mut(mask_xor);
    }

    /// Toggles the squares of `mask_switch`, then adds those of `mask_promotion`.
    pub fn switch(&mut self, mask_switch: BitBoard, mask_promotion: BitBoard)
        ensures
            final(self).bitboard.0 == (old(self).bitboard.0 ^ mask_switch.0) | mask_promotion.0,
    {
        self.bitboard.switch(mask_switch, mask_promotion);
    }
}

/// The squares occupied by the queens of one side.
#[derive(Debug, Copy, Clone, PartialEq, Eq, Structural)]
pub struct QueensBitBoard {
    pub bitboard: BitBoard,
}

impl QueensBitBoard {
    pub fn new(bitboard: BitBoard) -> (r: Self)
        ensures
            r.bitboard == bitboard,
    {
        QueensBitBoard { bitboard }
    }

    pub fn bitboard(&self) -> (r: &BitBoard)
        ensures
            *r == self.bitboard,
    {
        &self.bitboard
    }

    /// Toggles the squares of `mask_xor`.
    pub fn xor_mut(&mut self, mask_xor: BitBoard)
        ensures
            final(self).bitboard.0 == old(self).bitboard.0 ^ mask_xor.0,
    {
        self.bitboard.xor_mut(mask_xor);
    }

    /// Toggles the squares of `mask_switch`, then adds those of `mask_promotion`.
    pub fn switch(&mut self, mask_switch: BitBoard, mask_promotion: BitBoard)
        ensures
            final(self).bitboard.0 == (old(self).bitboard.0 ^ mask_switch.0) | mask_promotion.0,
    {
        self.bitboard.switch(mask_switch, mask_promotion);
    }
}

/// The squares occupied by the pawns of one side.
#[derive(Debug, Copy, Clone, PartialEq, Eq, Structural)]
pub struct PawnsBitBoard {
    pub bitboard: BitBoard,
}

impl PawnsBitBoard {
    pub fn new(bitboard: BitBoard) -> (r: Self)
        ensures
            r.bitboard == bitboard,
    {
        PawnsBitBoard { bitboard }
    }

    pub fn bitboard(&self) -> (r: &BitBoard)
        ensures
            *r == self.bitboard,
    {
        &self.bitboard
    }

    /// Toggles the squares of `mask_xor`.
    pub fn xor_mut(&mut self, mask_xor: BitBoard)
        ensures
            final(self).bitboard.0 == old(self).bitboard.0 ^ mask_xor.0,
    {
        self.bitboard.xor_mut(mask_xor);
    }

    /// Toggles the squares of `mask_switch`, then adds those of `mask_promotion`.
    pub fn switch(&mut self, mask_switch: BitBoard, mask_promotion: BitBoard)
        ensures
            final(self).bitboard.0 == (old(self).bitboard.0 ^ mask_switch.0) | mask_promotion.0,
    {
        self.bitboard.switch(mask_switch, mask_promotion);
    }
}


impl Default for RooksBitBoard {
    /// No piece.
    fn default() -> (r: Self)
        ensures
            r.bitboard.0 == 0,
    {
        RooksBitBoard { bitboard: BitBoard(0) }
    }
}

impl Default for BishopsBitBoard {
    /// No piece.
    fn default() -> (r: Self)
        ensures
            r.bitboard.0 == 0,
    {
        BishopsBitBoard { bitboard: BitBoard(0) }
    }
}

impl Default for KnightsBitBoard {
    /// No piece.
    fn default() -> (r: Self)
        ensures
            r.bitboard.0 == 0,
    {
        KnightsBitBoard { bitboard: BitBoard(0) }
    }
}

impl Default for KingBitBoard {
    /// No piece.
    fn default() -> (r: Self)
        ensures
            r.bitboard.0 == 0,
    {
        KingBitBoard { bitboard: BitBoard(0) }
    }
}

impl Default for QueensBitBoard {
    /// No piece.
    fn default() -> (r: Self)
        ensures
            r.bitboard.0 == 0,
    {
        QueensBitBoard { bitboard: BitBoard(0) }
    }
}

impl Default for PawnsBitBoard {
    /// No piece.
    fn default() -> (r: Self)
        ensures
            r.bitboard.0 == 0,
    {
        PawnsBitBoard { bitboard: BitBoard(0) }
    }
}

/// The squares a piece may go to, from one square.
#[derive(Debug, Copy, Clone, PartialEq, Eq, Structural)]
pub struct PieceMoves {
    pub type_piece: TypePiece,
    pub index: BitIndex,
    pub moves: BitBoard,
}

impl PieceMoves {
    /// The moves of a piece, `None` when there is none.
    pub fn new(type_piece: TypePiece, index: BitIndex, moves: BitBoard) -> (r: Option<Self>)
        ensures
            r == piece_moves_opt(type_piece, index, moves.0),
    {
        if moves.empty() {
            None
        } else {
            Some(PieceMoves { type_piece, index, moves })
        }
    }

    pub fn type_piece(&self) -> (r: TypePiece)
        ensures
            r == self.type_piece,
    {
        self.type_piece
    }

    pub fn index(&self) -> (r: BitIndex)
        ensures
            r == self.index,
    {
        self.index
    }

    pub fn moves(&self) -> (r: &BitBoard)
        ensures
            *r == self.moves,
    {
        &self.moves
    }

    /// The same moves restricted to `mask`.
    pub fn and_moves(&self, mask: BitBoard) -> (r: Self)
        ensures
            r == (PieceMoves { moves: BitBoard(self.moves.0 & mask.0), ..*self }),
    {
        PieceMoves { moves: self.moves.bitand(mask), ..*self }
    }
}

/// The moves of a piece as an option: none when the board of targets is empty.
pub open spec fn piece_moves_opt(t: TypePiece, index: BitIndex, moves: u64) -> Option<PieceMoves> {
    if moves == 0 {
        None
    } else {
        Some(PieceMoves { type_piece: t, index, moves: BitBoard(moves) })
    }
}

/// The targets with the squares of the own side removed.
pub fn moves_non_empty(
    type_piece: TypePiece,
    index: BitIndex,
    moves_bitboard: BitBoard,
    bit_board: &BitBoard,
) -> (r: Option<PieceMoves>)
    ensures
        r == piece_moves_opt(type_piece, index, moves_bitboard.0 & !bit_board.0),
{
    let moves_bitboard = moves_bitboard.bitand(bit_board.not());
    PieceMoves::new(type_piece, index, moves_bitboard)
}

/// Squares next to the king not held by its own side (`bit_board`).
pub fn gen_moves_for_king_except_castle(index: BitIndex, bit_board: &BitBoard) -> (r: BitBoard)
    requires
        index.0 < 64,
    ensures
        r.0 == king_reach(index.0 as int) & !bit_board.0,
{
    BitBoard(king_moves(index.0) & !bit_board.value())
}

/// Knight moves from `index`, own squares (`bit_board`) excluded.
pub fn gen_moves_for_knight(index: BitIndex, bit_board: &BitBoard) -> (r: Option<PieceMoves>)
    requires
        index.0 < 64,
    ensures
        r == piece_moves_opt(TypePiece::Knight, index, knight_reach(index.0 as int) & !bit_board.0),
{
    moves_non_empty(TypePiece::Knight, index, BitBoard(knight_moves(index.0)), bit_board)
}

/// Squares of its row a rook on `index` reaches.
pub fn gen_moves_for_rook_horizontal(index: BitIndex, blockers_h: BitBoard) -> (r: BitBoard)
    requires
        index.0 < 64,
    ensures
        r.0 == ray(index.0 as int, 0, 1, blockers_h.0) | ray(index.0 as int, 0, -1, blockers_h.0),
{
    BitBoard(ray_moves(index.0, 0, 1, blockers_h.0) | ray_moves(index.0, 0, -1, blockers_h.0))
}

/// Squares of its column a rook on `index` reaches.
pub fn gen_moves_for_rook_vertical(index: BitIndex, blockers_v: BitBoard) -> (r: BitBoard)
    requires
        index.0 < 64,
    ensures
        r.0 == ray(index.0 as int, 1, 0, blockers_v.0) | ray(index.0 as int, -1, 0, blockers_v.0),
{
    BitBoard(ray_moves(index.0, 1, 0, blockers_v.0) | ray_moves(index.0, -1, 0, blockers_v.0))
}

/// The kind a rook-like or bishop-like move is reported as.
pub open spec fn slider_kind(is_queen: bool, t: TypePiece) -> TypePiece {
    if is_queen {
        TypePiece::Queen
    } else {
        t
    }
}

/// Rook moves from `index` (reported as a queen's when `is_queen`), own squares
/// (`bit_board`) excluded, the opponent's (`bit_board_opponent`) capturable.
pub fn gen_moves_for_rook(
    is_queen: bool,
    index: BitIndex,
    bit_board: &BitBoard,
    bit_board_opponent: &BitBoard,
) -> (r: Option<PieceMoves>)
    requires
        index.0 < 64,
    ensures
        r == piece_moves_opt(
            slider_kind(is_queen, TypePiece::Rook),
            index,
            rook_reach(index.0 as int, bit_board.0 | bit_board_opponent.0) & !bit_board.0,
        ),
{
    let blockers = bit_board.bitor(*bit_board_opponent);
    let moves_horizontal = gen_moves_for_rook_horizontal(index, blockers);
    let moves_vertical = gen_moves_for_rook_vertical(index, blockers);
    let moves_bitboard = moves_horizontal.bitor(moves_vertical);
    proof {
        let i = index.0 as int;
        let b = blockers.0;
        let u = ray(i, 1, 0, b);
        let d = ray(i, -1, 0, b);
        let e = ray(i, 0, 1, b);
        let w = ray(i, 0, -1, b);
        assert((e | w) | (u | d) == ((u | d) | e) | w) by (bit_vector);
    }
    let type_piece = if is_queen {
        TypePiece::Queen
    } else {
        TypePiece::Rook
    };
    moves_non_empty(type_piece, index, moves_bitboard, bit_board)
}

/// Bishop moves from `index` (reported as a queen's when `is_queen`).
pub fn gen_moves_for_bishop(
    is_queen: bool,
    index: BitIndex,
    bit_board: &BitBoard,
    bit_board_opponent: &BitBoard,
) -> (r: Option<PieceMoves>)
    requires
        index.0 < 64,
    ensures
        r == piece_moves_opt(
            slider_kind(is_queen, TypePiece::Bishop),
            index,
            bishop_reach(index.0 as int, bit_board.0 | bit_board_opponent.0) & !bit_board.0,
        ),
{
    let blockers = bit_board.bitor(*bit_board_opponent);
    let moves_bitboard = BitBoard(bishop_moves(index.0, blockers.0));
    let type_piece = if is_queen {
        TypePiece::Queen
    } else {
        TypePiece::Bishop
    };
    moves_non_empty(type_piece, index, moves_bitboard, bit_board)
}

/// Squares a queen on `index` reaches: rook and bishop moves together.
pub open spec fn queen_targets(i: int, own: u64, opp: u64) -> u64 {
    (rook_reach(i, own | opp) & !own) | (bishop_reach(i, own | opp) & !own)
}

/// Queen moves from `index`.
pub fn gen_moves_for_queen(
    index: BitIndex,
    bit_board: &BitBoard,
    bit_board_opponent: &BitBoard,
) -> (r: Option<PieceMoves>)
    requires
        index.0 < 64,
    ensures
        r == piece_moves_opt(TypePiece::Queen, index, queen_targets(index.0 as int, bit_board.0, bit_board_opponent.0)),
{
    let rook_moves = gen_moves_for_rook(true, index, bit_board, bit_board_opponent);
    let bishop_moves = gen_moves_for_bishop(true, index, bit_board, bit_board_opponent);
    proof {
        let a = rook_reach(index.0 as int, bit_board.0 | bit_board_opponent.0) & !bit_board.0;
        let b = bishop_reach(index.0 as int, bit_board.0 | bit_board_opponent.0) & !bit_board.0;
        crate::bits::lemma_u64_algebra();
        assert((a | b == 0) <==> (a == 0 && b == 0));
        assert(a | 0 == a && 0 | b == b);
    }
    match (rook_moves, bishop_moves) {
        (None, None) => None,
        (left, None) => left,
        (None, right) => right,
        (Some(left), Some(right)) => Some(
            PieceMoves {
                type_piece: TypePiece::Queen,
                index,
                moves: BitBoard(left.moves().value() | right.moves().value()),
            },
        ),
    }
}


/// Squares a pawn of `color` on `i` attacks that hold an opponent piece: one row
/// forward (up for White, down for Black) and one column aside.
pub open spec fn pawn_captures(i: int, color: Color, opp: u64) -> u64 {
    let col = i % 8;
    let row = i / 8;
    if color == Color::White {
        (if col > 0 && row < 7 && bit(opp, i + 7) { single(i + 7) } else { 0u64 }) | (if col < 7
            && row < 7 && bit(opp, i + 9) {
            single(i + 9)
        } else {
            0u64
        })
    } else {
        (if col > 0 && row > 0 && bit(opp, i - 9) { single(i - 9) } else { 0u64 }) | (if col < 7
            && row > 0 && bit(opp, i - 7) {
            single(i - 7)
        } else {
            0u64
        })
    }
}

/// A pawn's moves that capture nothing on their target: one row forward when
/// free, two from its start row when both are free, and the en passant square
/// when it is diagonally in front (White: either side; Black: on its left only).
pub open spec fn pawn_pushes(i: int, color: Color, blockers: u64, ep: Option<BitIndex>) -> u64 {
    let col = i % 8;
    let row = i / 8;
    if color == Color::White {
        let one = if !bit(blockers, i + 8) {
            single(i + 8) | if row == 1 && !bit(blockers, i + 16) {
                single(i + 16)
            } else {
                0u64
            }
        } else {
            0u64
        };
        let e = match ep {
            Some(e) => if (col > 0 && i + 7 == e.0) || (col < 7 && i + 9 == e.0) {
                single(e.0 as int)
            } else {
                0u64
            },
            None => 0u64,
        };
        one | e
    } else {
        let one = if !bit(blockers, i - 8) {
            single(i - 8) | if row == 6 && !bit(blockers, i - 16) {
                single(i - 16)
            } else {
                0u64
            }
        } else {
            0u64
        };
        let e = match ep {
            Some(e) => if col > 0 && i - 9 == e.0 {
                single(e.0 as int)
            } else {
                0u64
            },
            None => 0u64,
        };
        one | e
    }
}

/// The pawn can move forward one row without leaving the board.
pub open spec fn pawn_on_board(i: int, color: Color) -> bool {
    if color == Color::White {
        0 <= i < 56
    } else {
        8 <= i < 64
    }
}

/// Squares the pawn of `color` on `index` attacks, among those the opponent holds.
pub fn gen_pawn_squares_attacked(index: BitIndex, color: &Color, bit_board_opponent: &BitBoard) -> (r: BitBoard)
    requires
        index.0 < 64,
    ensures
        r.0 == pawn_captures(index.0 as int, *color, bit_board_opponent.0),
{
    let col = index.col();
    let row = index.row();
    let mut left = BitBoard(0);
    let mut right = BitBoard(0);
    match color {
        Color::White => {
            if col > 0 && row < 7 {
                let to = index.up().left().bitboard();
                if crate::bitboards::has(*bit_board_opponent, index.up().left()) {
                    left = to;
                }
            }
            if col < 7 && row < 7 {
                let to = index.up().right().bitboard();
                if crate::bitboards::has(*bit_board_opponent, index.up().right()) {
                    right = to;
                }
            }
        },
        Color::Black => {
            if col > 0 && row > 0 {
                let to = index.down().left().bitboard();
                if crate::bitboards::has(*bit_board_opponent, index.down().left()) {
                    left = to;
                }
            }
            if col < 7 && row > 0 {
                let to = index.down().right().bitboard();
                if crate::bitboards::has(*bit_board_opponent, index.down().right()) {
                    right = to;
                }
            }
        },
    }
    left.bitor(right)
}

/// The non-capturing moves of the pawn of `color` on `index`, plus en passant.
pub fn gen_pawn_non_attacker_moves(
    index: BitIndex,
    color: &Color,
    bit_board: &BitBoard,
    bit_board_opponent: &BitBoard,
    capture_en_passant: Option<&BitIndex>,
) -> (r: BitBoard)
    requires
        pawn_on_board(index.0 as int, *color),
        capture_en_passant matches Some(e) ==> e.0 < 64,
    ensures
        r.0 == pawn_pushes(
            index.0 as int,
            *color,
            bit_board.0 | bit_board_opponent.0,
            match capture_en_passant {
                Some(e) => Some(*e),
                None => None,
            },
        ),
{
    let row = index.row();
    let blockers = bit_board.bitor(*bit_board_opponent);
    let mut one = BitBoard(0);
    let mut ep = BitBoard(0);
    match color {
        Color::White => {
            if !crate::bitboards::has(blockers, index.up()) {
                let mut two = BitBoard(0);
                if row == 1 {
                    if !crate::bitboards::has(blockers, index.upx2()) {
                        two = index.upx2().bitboard();
                    }
                }
                one = index.up().bitboard().bitor(two);
            }
            if let Some(en_passant_idx) = capture_en_passant {
                if index.col() > 0 && index.up().left() == *en_passant_idx || index.col() < 7
                    && index.up().right() == *en_passant_idx {
                    ep = en_passant_idx.bitboard();
                }
            }
        },
        Color::Black => {
            if !crate::bitboards::has(blockers, index.down()) {
                let mut two = BitBoard(0);
                if row == 6 {
                    if !crate::bitboards::has(blockers, index.downx2()) {
                        two = index.downx2().bitboard();
                    }
                }
                one = index.down().bitboard().bitor(two);
            }
            if let Some(en_passant_idx) = capture_en_passant {
                if index.col() > 7 && index.down().right() == *en_passant_idx || index.col() > 0
                    && index.down().left() == *en_passant_idx {
                    ep = en_passant_idx.bitboard();
                }
            }
        },
    }
    proof {
        let x = single(index.0 as int);
        crate::bits::lemma_u64_algebra();
        assert(x | 0u64 == x);
    }
    one.bitor(ep)
}

/// All moves of the pawn of `color` on `index`.
pub fn gen_moves_for_pawn(
    index: BitIndex,
    color: &Color,
    bit_board: &BitBoard,
    bit_board_opponent: &BitBoard,
    capture_en_passant: Option<&BitIndex>,
) -> (r: Option<PieceMoves>)
    requires
        pawn_on_board(index.0 as int, *color),
        capture_en_passant matches Some(e) ==> e.0 < 64,
    ensures
        r == piece_moves_opt(
            TypePiece::Pawn,
            index,
            pawn_pushes(
                index.0 as int,
                *color,
                bit_board.0 | bit_board_opponent.0,
                match capture_en_passant {
                    Some(e) => Some(*e),
                    None => None,
                },
            ) | pawn_captures(index.0 as int, *color, bit_board_opponent.0),
        ),
{
    let to = gen_pawn_non_attacker_moves(index, color, bit_board, bit_board_opponent, capture_en_passant)
        .bitor(gen_pawn_squares_attacked(index, color, bit_board_opponent));
    PieceMoves::new(TypePiece::Pawn, index, to)
}


/// The moves of every piece of board `b`, lowest square first, pieces without a
/// move left out; `f` gives the targets of a piece of kind `t` from a square.
pub open spec fn moves_list(b: u64, t: TypePiece, f: spec_fn(int) -> u64) -> Seq<PieceMoves>
    decreases b,
{
    if b == 0 {
        Seq::empty()
    } else {
        let i = u64_trailing_zeros(b) as int;
        proof {
            lemma_clear_lowest(b);
        }
        (match piece_moves_opt(t, BitIndex(i as u8), f(i)) {
            Some(m) => seq![m],
            None => Seq::empty(),
        }) + moves_list(b & ((b - 1) as u64), t, f)
    }
}

/// The targets of a rook, own squares excluded.
pub open spec fn rook_targets(own: u64, opp: u64) -> spec_fn(int) -> u64 {
    |i: int| rook_reach(i, own | opp) & !own
}

/// The targets of a bishop, own squares excluded.
pub open spec fn bishop_targets(own: u64, opp: u64) -> spec_fn(int) -> u64 {
    |i: int| bishop_reach(i, own | opp) & !own
}

/// The targets of a knight, own squares excluded.
pub open spec fn knight_targets(own: u64) -> spec_fn(int) -> u64 {
    |i: int| knight_reach(i) & !own
}

/// The targets of a queen, own squares excluded.
pub open spec fn queen_targets_fn(own: u64, opp: u64) -> spec_fn(int) -> u64 {
    |i: int| queen_targets(i, own, opp)
}

/// The targets of a pawn.
pub open spec fn pawn_targets(color: Color, own: u64, opp: u64, ep: Option<BitIndex>) -> spec_fn(int) -> u64 {
    |i: int| pawn_pushes(i, color, own | opp, ep) | pawn_captures(i, color, opp)
}

/// The moves list of a board holding the single square `i`.
pub proof fn lemma_moves_list_single(i: u64, t: TypePiece, f: spec_fn(int) -> u64)
    requires
        i < 64,
    ensures
        moves_list(1u64 << i, t, f) == match piece_moves_opt(t, BitIndex(i as u8), f(i as int)) {
            Some(m) => seq![m],
            None => Seq::<PieceMoves>::empty(),
        },
{
    crate::bits::lemma_lowest_single(i);
    let b = 1u64 << i;
    assert(moves_list(0, t, f) == Seq::<PieceMoves>::empty());
    assert(moves_list(b, t, f) =~= match piece_moves_opt(t, BitIndex(i as u8), f(i as int)) {
        Some(m) => seq![m],
        None => Seq::<PieceMoves>::empty(),
    });
}

/// The rows a pawn of `color` may not stand on for its moves to stay on the
/// board: row 8 for White, row 1 for Black.
pub open spec fn pawn_forbidden(color: Color) -> u64 {
    if color == Color::White { 0xff00_0000_0000_0000u64 } else { 0xffu64 }
}

impl RooksBitBoard {
    /// The moves of each of these pieces, lowest square first.
    pub fn gen_moves_no_check(
        &self,
        _color: &Color,
        bit_board: &BitBoards,
        bit_board_opponent: &BitBoards,
    ) -> (r: Vec<PieceMoves>)
        ensures
            r@ == moves_list(self.bitboard.0, TypePiece::Rook, rook_targets(bit_board.all(), bit_board_opponent.all())),
    {
        let own = bit_board.concat_bit_boards();
        let opp = bit_board_opponent.concat_bit_boards();
        let ghost f = rook_targets(bit_board.all(), bit_board_opponent.all());
        let mut moves: Vec<PieceMoves> = Vec::new();
        let mut bb: u64 = self.bitboard.0;
        while bb != 0
            invariant
                own.0 == bit_board.all(),
                opp.0 == bit_board_opponent.all(),
                f == rook_targets(bit_board.all(), bit_board_opponent.all()),
                moves@ + moves_list(bb, TypePiece::Rook, f) == moves_list(self.bitboard.0, TypePiece::Rook, f),
            decreases bb,
        {
            proof {
                lemma_lowest_in(bb);
                lemma_clear_lowest(bb);
            }
            let lsb = BitIndex(crate::bitboard::pos2index(bb));
            let ghost before = moves@;
            match gen_moves_for_rook(false, lsb, &own, &opp) {
                Some(m) => {
                    moves.push(m);
                },
                None => {},
            }
            proof {
                assert(moves@ + moves_list(bb & ((bb - 1) as u64), TypePiece::Rook, f) =~= before + moves_list(bb, TypePiece::Rook, f));
            }
            bb = bb & (bb - 1);
        }
        proof {
            assert(moves@ =~= moves@ + moves_list(0, TypePiece::Rook, f));
        }
        moves
    }
}

impl BishopsBitBoard {
    /// The moves of each of these pieces, lowest square first.
    pub fn gen_moves_no_check(
        &self,
        _color: &Color,
        bit_board: &BitBoards,
        bit_board_opponent: &BitBoards,
    ) -> (r: Vec<PieceMoves>)
        ensures
            r@ == moves_list(self.bitboard.0, TypePiece::Bishop, bishop_targets(bit_board.all(), bit_board_opponent.all())),
    {
        let own = bit_board.concat_bit_boards();
        let opp = bit_board_opponent.concat_bit_boards();
        let ghost f = bishop_targets(bit_board.all(), bit_board_opponent.all());
        let mut moves: Vec<PieceMoves> = Vec::new();
        let mut bb: u64 = self.bitboard.0;
        while bb != 0
            invariant
                own.0 == bit_board.all(),
                opp.0 == bit_board_opponent.all(),
                f == bishop_targets(bit_board.all(), bit_board_opponent.all()),
                moves@ + moves_list(bb, TypePiece::Bishop, f) == moves_list(self.bitboard.0, TypePiece::Bishop, f),
            decreases bb,
        {
            proof {
                lemma_lowest_in(bb);
                lemma_clear_lowest(bb);
            }
            let lsb = BitIndex(crate::bitboard::pos2index(bb));
            let ghost before = moves@;
            match gen_moves_for_bishop(false, lsb, &own, &opp) {
                Some(m) => {
                    moves.push(m);
                },
                None => {},
            }
            proof {
                assert(moves@ + moves_list(bb & ((bb - 1) as u64), TypePiece::Bishop, f) =~= before + moves_list(bb, TypePiece::Bishop, f));
            }
            bb = bb & (bb - 1);
        }
        proof {
            assert(moves@ =~= moves@ + moves_list(0, TypePiece::Bishop, f));
        }
        moves
    }
}

impl KnightsBitBoard {
    /// The moves of each of these pieces, lowest square first.
    pub fn gen_moves_no_check(
        &self,
        _color: &Color,
        bit_board: &BitBoards,
        bit_board_opponent: &BitBoards,
    ) -> (r: Vec<PieceMoves>)
        ensures
            r@ == moves_list(self.bitboard.0, TypePiece::Knight, knight_targets(bit_board.all())),
    {
        let own = bit_board.concat_bit_boards();
        let opp = bit_board_opponent.concat_bit_boards();
        let ghost f = knight_targets(bit_board.all());
        let mut moves: Vec<PieceMoves> = Vec::new();
        let mut bb: u64 = self.bitboard.0;
        while bb != 0
            invariant
                own.0 == bit_board.all(),
                opp.0 == bit_board_opponent.all(),
                f == knight_targets(bit_board.all()),
                moves@ + moves_list(bb, TypePiece::Knight, f) == moves_list(self.bitboard.0, TypePiece::Knight, f),
            decreases bb,
        {
            proof {
                lemma_lowest_in(bb);
                lemma_clear_lowest(bb);
            }
            let lsb = BitIndex(crate::bitboard::pos2index(bb));
            let ghost before = moves@;
            match gen_moves_for_knight(lsb, &own) {
                Some(m) => {
                    moves.push(m);
                },
                None => {},
            }
            proof {
                assert(moves@ + moves_list(bb & ((bb - 1) as u64), TypePiece::Knight, f) =~= before + moves_list(bb, TypePiece::Knight, f));
            }
            bb = bb & (bb - 1);
        }
        proof {
            assert(moves@ =~= moves@ + moves_list(0, TypePiece::Knight, f));
        }
        moves
    }
}

impl QueensBitBoard {
    /// The moves of each of these pieces, lowest square first.
    pub fn gen_moves_no_check(
        &self,
        _color: &Color,
        bit_board: &BitBoards,
        bit_board_opponent: &BitBoards,
    ) -> (r: Vec<PieceMoves>)
        ensures
            r@ == moves_list(self.bitboard.0, TypePiece::Queen, queen_targets_fn(bit_board.all(), bit_board_opponent.all())),
    {
        let own = bit_board.concat_bit_boards();
        let opp = bit_board_opponent.concat_bit_boards();
        let ghost f = queen_targets_fn(bit_board.all(), bit_board_opponent.all());
        let mut moves: Vec<PieceMoves> = Vec::new();
        let mut bb: u64 = self.bitboard.0;
        while bb != 0
            invariant
                own.0 == bit_board.all(),
                opp.0 == bit_board_opponent.all(),
                f == queen_targets_fn(bit_board.all(), bit_board_opponent.all()),
                moves@ + moves_list(bb, TypePiece::Queen, f) == moves_list(self.bitboard.0, TypePiece::Queen, f),
            decreases bb,
        {
            proof {
                lemma_lowest_in(bb);
                lemma_clear_lowest(bb);
            }
            let lsb = BitIndex(crate::bitboard::pos2index(bb));
            let ghost before = moves@;
            match gen_moves_for_queen(lsb, &own, &opp) {
                Some(m) => {
                    moves.push(m);
                },
                None => {},
            }
            proof {
                assert(moves@ + moves_list(bb & ((bb - 1) as u64), TypePiece::Queen, f) =~= before + moves_list(bb, TypePiece::Queen, f));
            }
            bb = bb & (bb - 1);
        }
        proof {
            assert(moves@ =~= moves@ + moves_list(0, TypePiece::Queen, f));
        }
        moves
    }
}

impl PawnsBitBoard {
    /// The moves of each of these pawns, lowest square first.
    pub fn gen_moves_no_check(
        &self,
        color: &Color,
        bit_board: &BitBoards,
        bit_board_opponent: &BitBoards,
        capture_en_passant: Option<&BitIndex>,
    ) -> (r: Vec<PieceMoves>)
        requires
            self.bitboard.0 & pawn_forbidden(*color) == 0,
            capture_en_passant matches Some(e) ==> e.0 < 64,
        ensures
            r@ == moves_list(
                self.bitboard.0,
                TypePiece::Pawn,
                pawn_targets(
                    *color,
                    bit_board.all(),
                    bit_board_opponent.all(),
                    match capture_en_passant {
                        Some(e) => Some(*e),
                        None => None,
                    },
                ),
            ),
    {
        let own = bit_board.concat_bit_boards();
        let opp = bit_board_opponent.concat_bit_boards();
        let ghost ep = match capture_en_passant {
            Some(e) => Some(*e),
            None => None,
        };
        let ghost f = pawn_targets(*color, bit_board.all(), bit_board_opponent.all(), ep);
        let mut moves: Vec<PieceMoves> = Vec::new();
        let mut bb: u64 = self.bitboard.0;
        while bb != 0
            invariant
                own.0 == bit_board.all(),
                opp.0 == bit_board_opponent.all(),
                f == pawn_targets(*color, bit_board.all(), bit_board_opponent.all(), ep),
                ep == match capture_en_passant {
                    Some(e) => Some(*e),
                    None => None,
                },
                capture_en_passant matches Some(e) ==> e.0 < 64,
                bb & pawn_forbidden(*color) == 0,
                moves@ + moves_list(bb, TypePiece::Pawn, f) == moves_list(self.bitboard.0, TypePiece::Pawn, f),
            decreases bb,
        {
            proof {
                lemma_lowest_in(bb);
                lemma_clear_lowest(bb);
                crate::bits::lemma_clear_lowest_mask(bb, pawn_forbidden(*color));
                let t = u64_trailing_zeros(bb) as u64;
                crate::bits::lemma_bit_outside_mask(bb, pawn_forbidden(*color), t);
                let m = pawn_forbidden(*color);
                if *color == Color::White {
                    assert((m >> t) & 1u64 == 0u64 ==> t < 56) by (bit_vector)
                        requires m == 0xff00_0000_0000_0000u64, t < 64;
                } else {
                    assert((m >> t) & 1u64 == 0u64 ==> t >= 8) by (bit_vector)
                        requires m == 0xffu64, t < 64;
                }
            }
            let lsb = BitIndex(crate::bitboard::pos2index(bb));
            let ghost before = moves@;
            match gen_moves_for_pawn(lsb, color, &own, &opp, capture_en_passant) {
                Some(m) => {
                    moves.push(m);
                },
                None => {},
            }
            proof {
                assert(moves@ + moves_list(bb & ((bb - 1) as u64), TypePiece::Pawn, f) =~= before + moves_list(bb, TypePiece::Pawn, f));
            }
            bb = bb & (bb - 1);
        }
        proof {
            assert(moves@ =~= moves@ + moves_list(0, TypePiece::Pawn, f));
        }
        moves
    }
}


/// Whether a king is attacked, and by what.
#[derive(Debug, Clone, Copy, PartialEq, Eq, Structural)]
pub enum CheckStatus {
    Simple { attacker: TypePiece, attacker_index: BitIndex },
    Double,
    NoCheck,
}

impl CheckStatus {
    pub fn is_check(&self) -> (r: bool)
        ensures
            r == !(*self is NoCheck),
    {
        match self {
            CheckStatus::NoCheck => false,
            _ => true,
        }
    }

    /// A check by one piece on square `attacker_index`.
    pub fn build_simple_check(attacker: TypePiece, attacker_index: BitIndex) -> (r: CheckStatus)
        requires
            attacker_index.0 < 64,
        ensures
            r == (CheckStatus::Simple { attacker, attacker_index }),
    {
        CheckStatus::Simple { attacker, attacker_index }
    }
}

/// The opponent pieces of each kind that attack a square.
#[derive(Debug, Clone, Copy, PartialEq, Eq, Structural)]
pub struct Attackers {
    pub rooks: BitBoard,
    pub knights: BitBoard,
    pub bishops: BitBoard,
    pub queens: BitBoard,
    pub king: BitBoard,
    pub pawns: BitBoard,
}

/// The kinds and boards of the attackers, in the order rooks, knights, bishops,
/// queens, king, pawns.
pub open spec fn attackers_seq(a: Attackers) -> Seq<(TypePiece, BitBoard)> {
    seq![
        (TypePiece::Rook, a.rooks),
        (TypePiece::Knight, a.knights),
        (TypePiece::Bishop, a.bishops),
        (TypePiece::Queen, a.queens),
        (TypePiece::King, a.king),
        (TypePiece::Pawn, a.pawns),
    ]
}

/// Walks the attackers kind by kind.
pub struct AttackersIterator {
    pub attackers: Attackers,
    pub index: usize,
}

impl AttackersIterator {
    /// The next kind and its board, `None` after the sixth.
    pub fn next(&mut self) -> (r: Option<(TypePiece, BitBoard)>)
        requires
            old(self).index < usize::MAX,
        ensures
            final(self).attackers == old(self).attackers,
            final(self).index == old(self).index + 1,
            r == if old(self).index < 6 {
                Some(attackers_seq(old(self).attackers)[old(self).index as int])
            } else {
                None
            },
    {
        let a = &self.attackers;
        let result = if self.index == 0 {
            Some((TypePiece::Rook, a.rooks))
        } else if self.index == 1 {
            Some((TypePiece::Knight, a.knights))
        } else if self.index == 2 {
            Some((TypePiece::Bishop, a.bishops))
        } else if self.index == 3 {
            Some((TypePiece::Queen, a.queens))
        } else if self.index == 4 {
            Some((TypePiece::King, a.king))
        } else if self.index == 5 {
            Some((TypePiece::Pawn, a.pawns))
        } else {
            None
        };
        self.index = self.index + 1;
        result
    }
}

impl Attackers {
    /// An iterator over the kinds.
    pub fn iter(&self) -> (r: AttackersIterator)
        ensures
            r.attackers == *self,
            r.index == 0,
    {
        AttackersIterator { attackers: *self, index: 0 }
    }

    /// The kinds and their boards, rooks, knights, bishops, queens, king, pawns.
    pub fn list(&self) -> (r: Vec<(TypePiece, BitBoard)>)
        ensures
            r@ == attackers_seq(*self),
    {
        let r = vec![
            (TypePiece::Rook, self.rooks),
            (TypePiece::Knight, self.knights),
            (TypePiece::Bishop, self.bishops),
            (TypePiece::Queen, self.queens),
            (TypePiece::King, self.king),
            (TypePiece::Pawn, self.pawns),
        ];
        proof {
            assert(r@ =~= attackers_seq(*self));
        }
        r
    }

    /// No rook, knight, bishop, pawn or king attacks (queens are not looked at).
    pub fn is_empty(&self) -> (r: bool)
        ensures
            r == attackers_empty(*self),
    {
        self.rooks.empty() && self.knights.empty() && self.bishops.empty() && self.pawns.empty()
            && self.king.empty()
    }
}

/// No rook, knight, bishop, pawn or king among the attackers.
pub open spec fn attackers_empty(a: Attackers) -> bool {
    a.rooks.0 == 0 && a.knights.0 == 0 && a.bishops.0 == 0 && a.pawns.0 == 0 && a.king.0 == 0
}

/// The opponent pieces attacking square `p` of side `color`: those a rook,
/// bishop, knight, pawn or king of `color` standing on `p` could capture (queens
/// along rook and bishop lines).
pub open spec fn attackers_of(p: int, color: Color, own: BitBoards, opp: BitBoards) -> Attackers {
    let o = own.all();
    let x = opp.all();
    let as_rook = rook_reach(p, o | x) & !o;
    let as_bishop = bishop_reach(p, o | x) & !o;
    let as_knight = knight_reach(p) & !o;
    let as_pawn = pawn_captures(p, color, x);
    Attackers {
        rooks: BitBoard(as_rook & opp.rooks.bitboard.0),
        bishops: BitBoard(as_bishop & opp.bishops.bitboard.0),
        queens: BitBoard((as_rook | as_bishop) & opp.queens.bitboard.0),
        knights: BitBoard(as_knight & opp.knights.bitboard.0),
        pawns: BitBoard(as_pawn & opp.pawns.bitboard.0),
        king: BitBoard((king_reach(p) & !o) & opp.king.bitboard.0),
    }
}

/// The opponent pieces attacking square `piece_index` of side `color`.
pub fn attackers(
    piece_index: BitIndex,
    color: &Color,
    bit_board: &BitBoards,
    bit_board_opponent: &BitBoards,
) -> (r: Attackers)
    requires
        piece_index.0 < 64,
    ensures
        r == attackers_of(piece_index.0 as int, *color, *bit_board, *bit_board_opponent),
{
    let piece_bit_board = piece_index.bitboard();
    let ghost p = piece_index.0 as u64;
    let ghost o = bit_board.all();
    let ghost x = bit_board_opponent.all();
    proof {
        lemma_moves_list_single(p, TypePiece::Rook, rook_targets(o, x));
        lemma_moves_list_single(p, TypePiece::Bishop, bishop_targets(o, x));
        lemma_moves_list_single(p, TypePiece::Knight, knight_targets(o));
    }
    let piece_as_rook = RooksBitBoard::new(piece_bit_board).gen_moves_no_check(
        color,
        bit_board,
        bit_board_opponent,
    );
    let piece_as_rook = if piece_as_rook.len() > 0 { piece_as_rook[0].moves } else { BitBoard(0) };
    let piece_as_bishop = BishopsBitBoard::new(piece_bit_board).gen_moves_no_check(
        color,
        bit_board,
        bit_board_opponent,
    );
    let piece_as_bishop = if piece_as_bishop.len() > 0 { piece_as_bishop[0].moves } else { BitBoard(0) };
    let piece_as_knight = KnightsBitBoard::new(piece_bit_board).gen_moves_no_check(
        color,
        bit_board,
        bit_board_opponent,
    );
    let piece_as_knight = if piece_as_knight.len() > 0 { piece_as_knight[0].moves } else { BitBoard(0) };
    let piece_as_pawn = gen_pawn_squares_attacked(
        piece_index,
        color,
        &bit_board_opponent.concat_bit_boards(),
    );
    let rook_attackers = piece_as_rook.bitand(bit_board_opponent.rooks.bitboard);
    let bishop_attackers = piece_as_bishop.bitand(bit_board_opponent.bishops.bitboard);
    let queen_attackers = piece_as_rook.bitor(piece_as_bishop).bitand(bit_board_opponent.queens.bitboard);
    let knight_attackers = piece_as_knight.bitand(bit_board_opponent.knights.bitboard);
    let pawn_attackers = piece_as_pawn.bitand(bit_board_opponent.pawns.bitboard);
    let king_attackers = gen_moves_for_king_except_castle(
        piece_index,
        &bit_board.concat_bit_boards(),
    ).bitand(bit_board_opponent.king.bitboard);
    Attackers {
        rooks: rook_attackers,
        bishops: bishop_attackers,
        queens: queen_attackers,
        knights: knight_attackers,
        pawns: pawn_attackers,
        king: king_attackers,
    }
}

/// A board with exactly one square.
pub open spec fn one_bit(b: u64) -> bool {
    b != 0 && at_most_one_bit(b)
}

/// The check status from the attackers of the king: none when no piece attacks,
/// a simple check when exactly one piece (of one kind) does, else a double check.
pub open spec fn check_of(a: Attackers) -> CheckStatus {
    let (r, b, q, n, p, k) = (a.rooks.0, a.bishops.0, a.queens.0, a.knights.0, a.pawns.0, a.king.0);
    if r == 0 && b == 0 && q == 0 && n == 0 && p == 0 && k == 0 {
        CheckStatus::NoCheck
    } else if one_bit(r) && b == 0 && q == 0 && n == 0 && p == 0 && k == 0 {
        CheckStatus::Simple { attacker: TypePiece::Rook, attacker_index: BitIndex(u64_trailing_zeros(r) as u8) }
    } else if r == 0 && one_bit(b) && q == 0 && n == 0 && p == 0 && k == 0 {
        CheckStatus::Simple { attacker: TypePiece::Bishop, attacker_index: BitIndex(u64_trailing_zeros(b) as u8) }
    } else if r == 0 && b == 0 && one_bit(q) && n == 0 && p == 0 && k == 0 {
        CheckStatus::Simple { attacker: TypePiece::Queen, attacker_index: BitIndex(u64_trailing_zeros(q) as u8) }
    } else if r == 0 && b == 0 && q == 0 && one_bit(n) && p == 0 && k == 0 {
        CheckStatus::Simple { attacker: TypePiece::Knight, attacker_index: BitIndex(u64_trailing_zeros(n) as u8) }
    } else if r == 0 && b == 0 && q == 0 && n == 0 && one_bit(p) && k == 0 {
        CheckStatus::Simple { attacker: TypePiece::Pawn, attacker_index: BitIndex(u64_trailing_zeros(p) as u8) }
    } else if r == 0 && b == 0 && q == 0 && n == 0 && p == 0 && one_bit(k) {
        CheckStatus::Simple { attacker: TypePiece::King, attacker_index: BitIndex(u64_trailing_zeros(k) as u8) }
    } else {
        CheckStatus::Double
    }
}

/// The check status of the king of `color` (its lowest square when it has several).
pub open spec fn check_status_of(color: Color, bb: BitBoardsWhiteAndBlack) -> CheckStatus {
    let own = bb.side(color);
    let opp = bb.side(crate::square::opposite(color));
    check_of(attackers_of(u64_trailing_zeros(own.king.bitboard.0) as int, color, own, opp))
}

/// A board with exactly one square.
fn single_square(b: BitBoard) -> (r: bool)
    ensures
        r == one_bit(b.0),
{
    b.non_empty() && b.one_bit_set_max()
}

/// Whether the king of `color` is in check, and by what.
pub fn check_status(color: &Color, bit_boards_white_and_black: &BitBoardsWhiteAndBlack) -> (r: CheckStatus)
    requires
        bit_boards_white_and_black.side(*color).king.bitboard.0 != 0,
    ensures
        r == check_status_of(*color, *bit_boards_white_and_black),
{
    let (bit_board, bit_board_opponent) = match *color {
        Color::White => (
            bit_boards_white_and_black.bit_board_white(),
            bit_boards_white_and_black.bit_board_black(),
        ),
        Color::Black => (
            bit_boards_white_and_black.bit_board_black(),
            bit_boards_white_and_black.bit_board_white(),
        ),
    };
    proof {
        lemma_lowest_in(bit_board.king.bitboard.0);
    }
    let king_index = bit_board.king.bitboard.index();
    let a = attackers(king_index, color, bit_board, bit_board_opponent);
    let (r, b, q, n, p, k) = (a.rooks, a.bishops, a.queens, a.knights, a.pawns, a.king);
    proof {
        if r.0 != 0 { lemma_lowest_in(r.0); }
        if b.0 != 0 { lemma_lowest_in(b.0); }
        if q.0 != 0 { lemma_lowest_in(q.0); }
        if n.0 != 0 { lemma_lowest_in(n.0); }
        if p.0 != 0 { lemma_lowest_in(p.0); }
        if k.0 != 0 { lemma_lowest_in(k.0); }
    }
    if r.empty() && b.empty() && q.empty() && n.empty() && p.empty() && k.empty() {
        CheckStatus::NoCheck
    } else if single_square(r) && b.empty() && q.empty() && n.empty() && p.empty() && k.empty() {
        CheckStatus::build_simple_check(TypePiece::Rook, r.index())
    } else if r.empty() && single_square(b) && q.empty() && n.empty() && p.empty() && k.empty() {
        CheckStatus::build_simple_check(TypePiece::Bishop, b.index())
    } else if r.empty() && b.empty() && single_square(q) && n.empty() && p.empty() && k.empty() {
        CheckStatus::build_simple_check(TypePiece::Queen, q.index())
    } else if r.empty() && b.empty() && q.empty() && single_square(n) && p.empty() && k.empty() {
        CheckStatus::build_simple_check(TypePiece::Knight, n.index())
    } else if r.empty() && b.empty() && q.empty() && n.empty() && single_square(p) && k.empty() {
        CheckStatus::build_simple_check(TypePiece::Pawn, p.index())
    } else if r.empty() && b.empty() && q.empty() && n.empty() && p.empty() && single_square(k) {
        CheckStatus::build_simple_check(TypePiece::King, k.index())
    } else {
        CheckStatus::Double
    }
}

/// The castle targets of the king of `color`: the king side target when that
/// castle is open (`can_castle_king_side`), its two squares are free and no piece
/// attacks them; the queen side target likewise with its three squares.
pub open spec fn castle_targets(
    color: Color,
    own: BitBoards,
    opp: BitBoards,
    ks: Option<(BitIndex, BitIndex)>,
    qs: Option<(BitIndex, BitIndex, BitIndex)>,
) -> u64 {
    let occupied = own.all() | opp.all();
    let short = match ks {
        Some((s1, s2)) => if occupied & (single(s1.0 as int) | single(s2.0 as int)) == 0
            && attackers_empty(attackers_of(s1.0 as int, color, own, opp)) && attackers_empty(
            attackers_of(s2.0 as int, color, own, opp),
        ) {
            single(s2.0 as int)
        } else {
            0u64
        },
        None => 0u64,
    };
    let long = match qs {
        Some((s1, s2, s3)) => if occupied & (single(s1.0 as int) | single(s2.0 as int) | single(
            s3.0 as int,
        )) == 0 && attackers_empty(attackers_of(s1.0 as int, color, own, opp)) && attackers_empty(
            attackers_of(s2.0 as int, color, own, opp),
        ) && attackers_empty(attackers_of(s3.0 as int, color, own, opp)) {
            single(s2.0 as int)
        } else {
            0u64
        },
        None => 0u64,
    };
    short | long
}

/// The castle squares are squares of the board.
pub open spec fn castle_squares_ok(
    ks: Option<(BitIndex, BitIndex)>,
    qs: Option<(BitIndex, BitIndex, BitIndex)>,
) -> bool {
    &&& ks matches Some((a, b)) ==> a.0 < 64 && b.0 < 64
    &&& qs matches Some((a, b, c)) ==> a.0 < 64 && b.0 < 64 && c.0 < 64
}

/// The castle moves of the king of `color`.
pub fn gen_moves_for_king_castle(
    color: &Color,
    bit_board: &BitBoards,
    bit_board_opponent: &BitBoards,
    can_castle_king_side: Option<(BitIndex, BitIndex)>,
    can_castle_queen_side: Option<(BitIndex, BitIndex, BitIndex)>,
) -> (r: BitBoard)
    requires
        castle_squares_ok(can_castle_king_side, can_castle_queen_side),
    ensures
        r.0 == castle_targets(*color, *bit_board, *bit_board_opponent, can_castle_king_side, can_castle_queen_side),
{
    let occupied_squares = bit_board.concat_bit_boards().bitor(bit_board_opponent.concat_bit_boards());
    let mut move_short_castle = BitBoard(0);
    if let Some((sq1_idx, sq2_idx)) = can_castle_king_side {
        let are_squares_empty = occupied_squares.bitand(sq1_idx.bitboard().bitor(sq2_idx.bitboard())).empty();
        if are_squares_empty && attackers(sq1_idx, color, bit_board, bit_board_opponent).is_empty()
            && attackers(sq2_idx, color, bit_board, bit_board_opponent).is_empty() {
            move_short_castle = sq2_idx.bitboard();
        }
    }
    let mut move_long_castle = BitBoard(0);
    if let Some((sq1_idx, sq2_idx, sq3_idx)) = can_castle_queen_side {
        let are_squares_empty = occupied_squares.bitand(
            sq1_idx.bitboard().bitor(sq2_idx.bitboard()).bitor(sq3_idx.bitboard()),
        ).empty();
        if are_squares_empty && attackers(sq1_idx, color, bit_board, bit_board_opponent).is_empty()
            && attackers(sq2_idx, color, bit_board, bit_board_opponent).is_empty() && attackers(
            sq3_idx,
            color,
            bit_board,
            bit_board_opponent,
        ).is_empty() {
            move_long_castle = sq2_idx.bitboard();
        }
    }
    move_short_castle.bitor(move_long_castle)
}

/// The targets of a king: adjacent squares and castle targets, own squares excluded.
pub open spec fn king_targets(own: u64, castle: u64) -> spec_fn(int) -> u64 {
    |i: int| ((king_reach(i) & !own) | castle) & !own
}

impl KingBitBoard {
    /// The moves of the king (of each king, lowest square first), castles included.
    pub fn gen_moves_no_check(
        &self,
        color: &Color,
        bit_board: &BitBoards,
        bit_board_opponent: &BitBoards,
        can_castle_king_side: Option<(BitIndex, BitIndex)>,
        can_castle_queen_side: Option<(BitIndex, BitIndex, BitIndex)>,
    ) -> (r: Vec<PieceMoves>)
        requires
            castle_squares_ok(can_castle_king_side, can_castle_queen_side),
        ensures
            r@ == moves_list(
                self.bitboard.0,
                TypePiece::King,
                king_targets(
                    bit_board.all(),
                    castle_targets(*color, *bit_board, *bit_board_opponent, can_castle_king_side, can_castle_queen_side),
                ),
            ),
    {
        let own = bit_board.concat_bit_boards();
        let castle = gen_moves_for_king_castle(
            color,
            bit_board,
            bit_board_opponent,
            can_castle_king_side,
            can_castle_queen_side,
        );
        let ghost f = king_targets(bit_board.all(), castle.0);
        let mut moves: Vec<PieceMoves> = Vec::new();
        let mut bb: u64 = self.bitboard.0;
        while bb != 0
            invariant
                own.0 == bit_board.all(),
                f == king_targets(bit_board.all(), castle.0),
                moves@ + moves_list(bb, TypePiece::King, f) == moves_list(self.bitboard.0, TypePiece::King, f),
            decreases bb,
        {
            proof {
                lemma_lowest_in(bb);
                lemma_clear_lowest(bb);
            }
            let lsb = BitIndex(crate::bitboard::pos2index(bb));
            let ghost before = moves@;
            let bit_moves = gen_moves_for_king_except_castle(lsb, &own).bitor(castle);
            match moves_non_empty(TypePiece::King, lsb, bit_moves, &own) {
                Some(m) => {
                    moves.push(m);
                },
                None => {},
            }
            proof {
                assert(moves@ + moves_list(bb & ((bb - 1) as u64), TypePiece::King, f) =~= before + moves_list(bb, TypePiece::King, f));
            }
            bb = bb & (bb - 1);
        }
        proof {
            assert(moves@ =~= moves@ + moves_list(0, TypePiece::King, f));
        }
        moves
    }
}


/// Every entry of a moves list is the non-empty move set of a piece of the board.
pub proof fn lemma_moves_list_elems(b: u64, t: TypePiece, f: spec_fn(int) -> u64)
    ensures
        forall|k: int|
            0 <= k < moves_list(b, t, f).len() ==> {
                let m = #[trigger] moves_list(b, t, f)[k];
                &&& m.index.0 < 64
                &&& bit(b, m.index.0 as int)
                &&& m.type_piece == t
                &&& m.moves.0 == f(m.index.0 as int)
                &&& m.moves.0 != 0
            },
    decreases b,
{
    if b != 0 {
        lemma_lowest_in(b);
        lemma_clear_lowest(b);
        let rest = b & ((b - 1) as u64);
        lemma_moves_list_elems(rest, t, f);
        let i = u64_trailing_zeros(b) as u64;
        assert forall|j: u64| j < 64 && (rest >> j) & 1u64 == 1u64 implies (b >> j) & 1u64 == 1u64 by {
            assert(j < 64 && (rest >> j) & 1u64 == 1u64 ==> (b >> j) & 1u64 == 1u64) by (bit_vector)
                requires rest == b & ((b - 1) as u64);
        }
        let l = moves_list(b, t, f);
        let head = match piece_moves_opt(t, BitIndex(i as u8), f(i as int)) {
            Some(m) => seq![m],
            None => Seq::<PieceMoves>::empty(),
        };
        assert(l == head + moves_list(rest, t, f));
        assert forall|k: int| 0 <= k < l.len() implies {
            let m = #[trigger] l[k];
            &&& m.index.0 < 64
            &&& bit(b, m.index.0 as int)
            &&& m.type_piece == t
            &&& m.moves.0 == f(m.index.0 as int)
            &&& m.moves.0 != 0
        } by {
            if k >= head.len() {
                let m2 = moves_list(rest, t, f)[k - head.len()];
                assert(l[k] == m2);
                assert((rest >> (m2.index.0 as u64)) & 1u64 == 1u64);
            }
        }
    }
}

/// The capture answers to a check by the piece on `a`: for each kind (rooks,
/// knights, bishops, queens, king, pawns) of the attacked side able to capture it,
/// the lowest such piece takes it.
pub open spec fn captures_from(s: Seq<(TypePiece, BitBoard)>, a: int) -> Seq<PieceMoves>
    decreases s.len(),
{
    if s.len() == 0 {
        Seq::empty()
    } else {
        (if s[0].1.0 != 0 {
            seq![PieceMoves { type_piece: s[0].0, index: BitIndex(u64_trailing_zeros(s[0].1.0) as u8), moves: BitBoard(single(a)) }]
        } else {
            Seq::empty()
        }) + captures_from(s.drop_first(), a)
    }
}

/// The entries of `l` whose moves meet `mask`, restricted to `mask`.
pub open spec fn mask_filter(l: Seq<PieceMoves>, mask: u64) -> Seq<PieceMoves>
    decreases l.len(),
{
    if l.len() == 0 {
        Seq::empty()
    } else {
        (if l[0].moves.0 & mask != 0 {
            seq![PieceMoves { moves: BitBoard(l[0].moves.0 & mask), ..l[0] }]
        } else {
            Seq::empty()
        }) + mask_filter(l.drop_first(), mask)
    }
}

/// The moves of the rooks, bishops, queens, knights and pawns of a side, in that order.
pub open spec fn non_king_moves(color: Color, own: BitBoards, opp: BitBoards, ep: Option<BitIndex>) -> Seq<PieceMoves> {
    let o = own.all();
    let x = opp.all();
    moves_list(own.rooks.bitboard.0, TypePiece::Rook, rook_targets(o, x)) + moves_list(
        own.bishops.bitboard.0,
        TypePiece::Bishop,
        bishop_targets(o, x),
    ) + moves_list(own.queens.bitboard.0, TypePiece::Queen, queen_targets_fn(o, x)) + moves_list(
        own.knights.bitboard.0,
        TypePiece::Knight,
        knight_targets(o),
    ) + moves_list(own.pawns.bitboard.0, TypePiece::Pawn, pawn_targets(color, o, x, ep))
}

/// The moves that put a piece between the king and the checking slider on `a`:
/// along a row or column the squares a rook on the king's square and a rook on
/// `a` both reach; along a diagonal the same for bishops.
pub open spec fn block_moves(color: Color, a: int, own: BitBoards, opp: BitBoards, ep: Option<BitIndex>) -> Seq<PieceMoves> {
    let o = own.all();
    let x = opp.all();
    let k = own.king.bitboard.0;
    let dir = direction_of(u64_trailing_zeros(k) as int, a);
    if dir == Direction::RookHorizontal || dir == Direction::RookVertical {
        let kl = moves_list(k, TypePiece::Rook, rook_targets(o, x));
        let al = moves_list(single(a), TypePiece::Rook, rook_targets(o, x));
        if kl.len() > 0 && al.len() > 0 {
            mask_filter(non_king_moves(color, own, opp, ep), kl[0].moves.0 & al[0].moves.0)
        } else {
            Seq::empty()
        }
    } else if dir == Direction::BishopBottomLeftTopRight || dir == Direction::BishopTopLeftBottomRight {
        let kl = moves_list(k, TypePiece::Bishop, bishop_targets(o, x));
        let al = moves_list(single(a), TypePiece::Bishop, bishop_targets(o, x));
        if kl.len() > 0 && al.len() > 0 {
            mask_filter(non_king_moves(color, own, opp, ep), kl[0].moves.0 & al[0].moves.0)
        } else {
            Seq::empty()
        }
    } else {
        Seq::empty()
    }
}

/// The candidate moves of side `color` in check by the single piece on `a`: king
/// steps, captures of the checking piece, then blocks.
pub open spec fn simple_check_moves(color: Color, a: int, own: BitBoards, opp: BitBoards, ep: Option<BitIndex>) -> Seq<PieceMoves> {
    let o = own.all();
    let ki = u64_trailing_zeros(own.king.bitboard.0) as int;
    let king_part = match piece_moves_opt(TypePiece::King, BitIndex(ki as u8), (king_reach(ki) & !o) & !o) {
        Some(m) => seq![m],
        None => Seq::empty(),
    };
    king_part + captures_from(attackers_seq(attackers_of(a, crate::square::opposite(color), opp, own)), a)
        + block_moves(color, a, own, opp, ep)
}

/// Keeps the entries of `l` whose moves meet `mask`, restricted to it.
fn filter_by_mask(l: Vec<PieceMoves>, mask: BitBoard, out: &mut Vec<PieceMoves>)
    ensures
        final(out)@ == old(out)@ + mask_filter(l@, mask.0),
{
    let mut i: usize = 0;
    proof {
        assert(l@.subrange(0, l@.len() as int) =~= l@);
    }
    while i < l.len()
        invariant
            i <= l@.len(),
            out@ + mask_filter(l@.subrange(i as int, l@.len() as int), mask.0) == old(out)@ + mask_filter(l@, mask.0),
        decreases l@.len() - i,
    {
        let ghost before = out@;
        let m = l[i];
        proof {
            let rest = l@.subrange(i as int, l@.len() as int);
            assert(rest.drop_first() =~= l@.subrange(i + 1, l@.len() as int));
            assert(rest[0] == m);
        }
        if m.moves.bitand(mask).non_empty() {
            out.push(m.and_moves(mask));
        }
        proof {
            let rest = l@.subrange(i as int, l@.len() as int);
            assert(out@ + mask_filter(l@.subrange(i + 1, l@.len() as int), mask.0) =~= before + mask_filter(rest, mask.0));
        }
        i = i + 1;
    }
    proof {
        assert(l@.subrange(0, l@.len() as int) =~= l@);
    }
}

/// The moves of the rooks, bishops, queens, knights and pawns of a side.
fn gen_non_king_moves(
    color: &Color,
    bit_board: &BitBoards,
    bit_board_opponent: &BitBoards,
    capture_en_passant: Option<&BitIndex>,
) -> (r: Vec<PieceMoves>)
    requires
        bit_board.pawns.bitboard.0 & pawn_forbidden(*color) == 0,
        capture_en_passant matches Some(e) ==> e.0 < 64,
    ensures
        r@ == non_king_moves(*color, *bit_board, *bit_board_opponent, match capture_en_passant {
            Some(e) => Some(*e),
            None => None,
        }),
{
    let mut all = bit_board.rooks.gen_moves_no_check(color, bit_board, bit_board_opponent);
    let mut b = bit_board.bishops.gen_moves_no_check(color, bit_board, bit_board_opponent);
    all.append(&mut b);
    let mut q = bit_board.queens.gen_moves_no_check(color, bit_board, bit_board_opponent);
    all.append(&mut q);
    let mut n = bit_board.knights.gen_moves_no_check(color, bit_board, bit_board_opponent);
    all.append(&mut n);
    let mut p = bit_board.pawns.gen_moves_no_check(color, bit_board, bit_board_opponent, capture_en_passant);
    all.append(&mut p);
    all
}

/// The candidate moves of side `color` checked by the single piece on `attacker_index`.
pub fn gen_moves_for_all_simple_check(
    color: &Color,
    attacker_index: BitIndex,
    bit_board: &BitBoards,
    bit_board_opponent: &BitBoards,
    capture_en_passant: Option<&BitIndex>,
) -> (r: Vec<PieceMoves>)
    requires
        attacker_index.0 < 64,
        bit_board.king.bitboard.0 != 0,
        bit_board.pawns.bitboard.0 & pawn_forbidden(*color) == 0,
        capture_en_passant matches Some(e) ==> e.0 < 64,
    ensures
        r@ == simple_check_moves(*color, attacker_index.0 as int, *bit_board, *bit_board_opponent, match capture_en_passant {
            Some(e) => Some(*e),
            None => None,
        }),
{
    let ghost ep = match capture_en_passant {
        Some(e) => Some(*e),
        None => None,
    };
    let attackers_opponent_check = attackers(attacker_index, &color.switch(), bit_board_opponent, bit_board);
    proof {
        lemma_lowest_in(bit_board.king.bitboard.0);
    }
    let king_index = bit_board.king.bitboard.index();
    let own = bit_board.concat_bit_boards();
    let moves_king = moves_non_empty(
        TypePiece::King,
        king_index,
        gen_moves_for_king_except_castle(king_index, &own),
        &own,
    );
    let mut moves: Vec<PieceMoves> = Vec::new();
    match moves_king {
        Some(m) => moves.push(m),
        None => {},
    }
    let ghost king_part = moves@;
    let list = attackers_opponent_check.list();
    let mut i: usize = 0;
    proof {
        assert(list@.subrange(0, list@.len() as int) =~= list@);
    }
    while i < list.len()
        invariant
            i <= list@.len(),
            attacker_index.0 < 64,
            list@ == attackers_seq(attackers_opponent_check),
            moves@ + captures_from(list@.subrange(i as int, list@.len() as int), attacker_index.0 as int)
                == king_part + captures_from(list@, attacker_index.0 as int),
        decreases list@.len() - i,
    {
        let ghost before = moves@;
        let (type_piece, bb) = list[i];
        proof {
            let rest = list@.subrange(i as int, list@.len() as int);
            assert(rest.drop_first() =~= list@.subrange(i + 1, list@.len() as int));
            assert(rest[0] == (type_piece, bb));
        }
        if bb.non_empty() {
            moves.push(PieceMoves { type_piece, index: bb.index(), moves: attacker_index.bitboard() });
        }
        proof {
            let rest = list@.subrange(i as int, list@.len() as int);
            assert(moves@ + captures_from(list@.subrange(i + 1, list@.len() as int), attacker_index.0 as int)
                =~= before + captures_from(rest, attacker_index.0 as int));
        }
        i = i + 1;
    }
    proof {
        assert(list@.subrange(list@.len() as int, list@.len() as int) =~= Seq::<(TypePiece, BitBoard)>::empty());
        assert(moves@ =~= king_part + captures_from(list@, attacker_index.0 as int));
    }
    let ghost before_block = moves@;
    let dir = king_index.direction(attacker_index);
    if dir == Direction::RookHorizontal || dir == Direction::RookVertical {
        let king_as_rook = RooksBitBoard::new(bit_board.king.bitboard).gen_moves_no_check(color, bit_board, bit_board_opponent);
        let rook = RooksBitBoard::new(attacker_index.bitboard()).gen_moves_no_check(color, bit_board, bit_board_opponent);
        if king_as_rook.len() > 0 && rook.len() > 0 {
            let mask = king_as_rook[0].moves.bitand(rook[0].moves);
            let all = gen_non_king_moves(color, bit_board, bit_board_opponent, capture_en_passant);
            filter_by_mask(all, mask, &mut moves);
        }
    } else if dir == Direction::BishopBottomLeftTopRight || dir == Direction::BishopTopLeftBottomRight {
        let king_as_bishop = BishopsBitBoard::new(bit_board.king.bitboard).gen_moves_no_check(color, bit_board, bit_board_opponent);
        let bishop = BishopsBitBoard::new(attacker_index.bitboard()).gen_moves_no_check(color, bit_board, bit_board_opponent);
        if king_as_bishop.len() > 0 && bishop.len() > 0 {
            let mask = king_as_bishop[0].moves.bitand(bishop[0].moves);
            let all = gen_non_king_moves(color, bit_board, bit_board_opponent, capture_en_passant);
            filter_by_mask(all, mask, &mut moves);
        }
    }
    proof {
        assert(moves@ =~= before_block + block_moves(*color, attacker_index.0 as int, *bit_board, *bit_board_opponent, ep));
    }
    moves
}

} // verus!
