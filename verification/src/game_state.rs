//! The state of a game: the position, the hashes of the positions met, what is
//! needed to take moves back, and how the game ended.
use vstd::prelude::*;
use crate::bitboard::BitBoard;
use crate::bitboard_move::{BitBoardMove, castle_of, Castle};
use crate::bitboards::{BitBoards, BitBoardsWhiteAndBlack, lemma_boards_ext, move_wf, peek_square};
use crate::bits::at_most_one_bit;
use crate::control::{ControlSquares, control_moves, pawns_reach};
use crate::fen::Position;
use crate::gen_moves::{GenMoves, candidate_moves, lemma_side_ready, legal_moves, side_ready, side_ready_check};
use crate::long_notation::LongAlgebricNotationMove;
use crate::piece_move::{CheckStatus, check_status_of};
use crate::position::{BitPosition, moved_position, status_move_ok};
use crate::square::{Color, Square, TypePiece};
use crate::status::BitPositionStatus;
use crate::zobrist::{Zobrist, ZobristHash, ZobristHistory, position_hash, repetition_start, repetitions};

verus! {

/// A copy of a vector of plain values.
fn copy_vec<T: Copy>(v: &Vec<T>) -> (r: Vec<T>)
    ensures
        r@ == v@,
{
    let mut r: Vec<T> = Vec::new();
    let mut i: usize = 0;
    while i < v.len()
        invariant
            i <= v@.len(),
            r@ == v@.subrange(0, i as int),
        decreases v@.len() - i,
    {
        let x = v[i];
        r.push(x);
        proof {
            assert(r@ =~= v@.subrange(0, i + 1));
        }
        i = i + 1;
    }
    assert(v@.subrange(0, v@.len() as int) =~= v@);
    r
}

/// How a game ended, if it did.
#[derive(Debug, Copy, Clone, PartialEq, Eq, Structural)]
pub enum EndGame {
    /// The game goes on.
    Ongoing,
    /// The side to move cannot move and is not in check.
    Pat,
    /// Checkmate; the color is the side that lost.
    Mat(Color),
    /// Fifty moves without capture or pawn move.
    NoPawnAndCapturex50,
    /// King (+ bishop or knight) against king (+ bishop or knight).
    InsufficientMaterial,
    /// The same position three times.
    Repetition3x,
    /// Out of time; the color is the side that lost.
    TimeOutLost(Color),
    /// Out of time with too little material left to win.
    TimeOutDraw,
    /// Both players agreed to end the game.
    NullAgreement,
}

impl EndGame {
    pub fn is_mat(&self) -> (r: bool)
        ensures
            r == (*self is Mat),
    {
        match self {
            EndGame::Mat(_) => true,
            _ => false,
        }
    }
}

/// What takes a move back: the squares it changed on every board, and the
/// status before it.
#[derive(Debug, Copy, Clone, PartialEq, Eq, Structural)]
pub struct BackMove {
    pub bitboard_white_and_black_mask: BitBoardsWhiteAndBlack,
    pub bit_position_status_back: BitPositionStatus,
}

/// The boards of `a` with those of `mask` xored in, kind by kind.
pub open spec fn boards_xor(a: BitBoardsWhiteAndBlack, mask: BitBoardsWhiteAndBlack) -> BitBoardsWhiteAndBlack {
    BitBoardsWhiteAndBlack {
        bit_board_white: BitBoards::from_boards(
            |t: TypePiece| a.bit_board_white.board(t) ^ mask.bit_board_white.board(t),
        ),
        bit_board_black: BitBoards::from_boards(
            |t: TypePiece| a.bit_board_black.board(t) ^ mask.bit_board_black.board(t),
        ),
    }
}

/// The record that takes back move `m` played from `before`.
pub open spec fn back_move_of(before: BitPosition, m: BitBoardMove) -> BackMove {
    BackMove {
        bitboard_white_and_black_mask: boards_xor(
            moved_position(before, m).bit_boards_white_and_black,
            before.bit_boards_white_and_black,
        ),
        bit_position_status_back: before.bit_position_status,
    }
}

/// The position a record takes `p` back to.
pub open spec fn played_back(p: BitPosition, b: BackMove) -> BitPosition {
    BitPosition {
        bit_boards_white_and_black: boards_xor(p.bit_boards_white_and_black, b.bitboard_white_and_black_mask),
        bit_position_status: b.bit_position_status_back,
    }
}

/// The status with the other side to move.
pub open spec fn side_changed(st: BitPositionStatus) -> BitPositionStatus {
    BitPositionStatus {
        flags: if st.spec_player_turn_white() { st.flags & !16u8 } else { st.flags | 16u8 },
        ..st
    }
}

/// Taking back a move restores the position it was played from.
pub proof fn lemma_play_back_undoes_move(p: BitPosition, m: BitBoardMove)
    ensures
        played_back(moved_position(p, m), back_move_of(p, m)) == p,
{
    let a = moved_position(p, m).bit_boards_white_and_black;
    let b = p.bit_boards_white_and_black;
    let r = played_back(moved_position(p, m), back_move_of(p, m));
    crate::bits::lemma_u64_algebra();
    assert forall|t: TypePiece| #[trigger] r.bit_boards_white_and_black.bit_board_white.board(t)
        == b.bit_board_white.board(t) by {
        assert(a.bit_board_white.board(t) ^ (a.bit_board_white.board(t) ^ b.bit_board_white.board(t))
            == b.bit_board_white.board(t));
    }
    assert forall|t: TypePiece| #[trigger] r.bit_boards_white_and_black.bit_board_black.board(t)
        == b.bit_board_black.board(t) by {
        assert(a.bit_board_black.board(t) ^ (a.bit_board_black.board(t) ^ b.bit_board_black.board(t))
            == b.bit_board_black.board(t));
    }
    lemma_boards_ext(b.bit_board_white, |t: TypePiece| b.bit_board_white.board(t));
    lemma_boards_ext(r.bit_boards_white_and_black.bit_board_white, |t: TypePiece| b.bit_board_white.board(t));
    lemma_boards_ext(b.bit_board_black, |t: TypePiece| b.bit_board_black.board(t));
    lemma_boards_ext(r.bit_boards_white_and_black.bit_board_black, |t: TypePiece| b.bit_board_black.board(t));
}

/// Changing the side to move twice gives the status back.
pub proof fn lemma_side_changed_twice(st: BitPositionStatus)
    ensures
        side_changed(side_changed(st)) == st,
{
    let f = st.flags;
    crate::bits::lemma_flag_bits(f);
}

/// The side has no rook, queen or pawn, and at most one bishop or knight.
pub open spec fn insufficient_for(b: BitBoards) -> bool {
    (b.rooks.bitboard.0 | b.queens.bitboard.0 | b.pawns.bitboard.0) == 0 && at_most_one_bit(
        b.bishops.bitboard.0 | b.knights.bitboard.0,
    )
}

/// Neither side can mate: no rook, queen or pawn on the board, and each side
/// with at most one bishop or knight.
pub open spec fn insufficient_material(bb: BitBoardsWhiteAndBlack) -> bool {
    let w = bb.bit_board_white;
    let b = bb.bit_board_black;
    let wo = w.bishops.bitboard.0 | w.knights.bitboard.0;
    let bo = b.bishops.bitboard.0 | b.knights.bitboard.0;
    (w.rooks.bitboard.0 | w.queens.bitboard.0 | w.pawns.bitboard.0) == 0 && (b.rooks.bitboard.0
        | b.queens.bitboard.0 | b.pawns.bitboard.0) == 0 && at_most_one_bit(wo) && at_most_one_bit(bo)
}

/// The end of the game, given the check status and whether the side to move
/// has no move: pat or mat without a move, else fifty moves, insufficient
/// material, threefold repetition, in that order.
pub open spec fn end_game_of(
    p: BitPosition,
    hashes: Seq<ZobristHash>,
    check_status: CheckStatus,
    moves_is_empty: bool,
) -> EndGame {
    let st = p.bit_position_status;
    if moves_is_empty {
        match check_status {
            CheckStatus::NoCheck => EndGame::Pat,
            _ => EndGame::Mat(st.spec_player_turn()),
        }
    } else if st.n_half_moves >= 100 {
        EndGame::NoPawnAndCapturex50
    } else if insufficient_material(p.bit_boards_white_and_black) {
        EndGame::InsufficientMaterial
    } else if st.n_half_moves >= 8 && hashes.len() > 0 && repetitions(
        hashes,
        hashes.len() - 1,
        repetition_start(hashes.len() as int, st.n_half_moves as int),
        hashes.last(),
    ) >= 3 {
        EndGame::Repetition3x
    } else {
        EndGame::Ongoing
    }
}

/// The legal moves of the side to move of `p`.
pub open spec fn position_moves(p: BitPosition) -> Seq<BitBoardMove> {
    let bb = p.bit_boards_white_and_black;
    let st = p.bit_position_status;
    let color = st.spec_player_turn();
    legal_moves(color, candidate_moves(bb, color, check_status_of(color, bb), st.spec_en_passant(), st), bb)
}

/// A game: its position, the hashes of the positions met (the current one
/// last), the records to take moves back, and how it ended.
#[derive(Debug)]
pub struct GameState {
    pub bit_position: BitPosition,
    pub hash_positions: ZobristHistory,
    pub backup: Vec<BackMove>,
    pub end_game: EndGame,
}

impl GameState {
    /// The side to move can have its moves generated.
    pub open spec fn ready(&self) -> bool {
        side_ready(self.bit_position.bit_boards_white_and_black, self.bit_position.bit_position_status.spec_player_turn())
    }

    /// A game starting from `position`, its hash as the only one met.
    pub fn new(position: Position, zobrist_table: &Zobrist) -> (r: Self)
        requires
            position.status.wf(),
            zobrist_table.wf(),
        ensures
            r.bit_position.describes(position),
            r.hash_positions.hashes@ == seq![ZobristHash(position_hash(*zobrist_table, r.bit_position))],
            r.backup@.len() == 0,
            r.end_game == EndGame::Ongoing,
    {
        let mut game_state = GameState {
            bit_position: BitPosition::from(position),
            hash_positions: ZobristHistory::default(),
            backup: Vec::new(),
            end_game: EndGame::Ongoing,
        };
        game_state.init_hash_table(zobrist_table);
        game_state
    }

    /// A copy of the game.
    pub fn copy(&self) -> (r: Self)
        ensures
            r.bit_position == self.bit_position,
            r.hash_positions.hashes@ == self.hash_positions.hashes@,
            r.backup@ == self.backup@,
            r.end_game == self.end_game,
    {
        GameState {
            bit_position: self.bit_position,
            hash_positions: ZobristHistory { hashes: copy_vec(&self.hash_positions.hashes) },
            backup: copy_vec(&self.backup),
            end_game: self.end_game,
        }
    }

    /// Restarts the hashes from the current position.
    fn init_hash_table(&mut self, zobrist_table: &Zobrist)
        requires
            zobrist_table.wf(),
        ensures
            final(self).hash_positions.hashes@ == seq![ZobristHash(position_hash(*zobrist_table, old(self).bit_position))],
            final(self).bit_position == old(self).bit_position,
            final(self).backup@ == old(self).backup@,
            final(self).end_game == old(self).end_game,
    {
        self.hash_positions = ZobristHistory::default();
        let hash = ZobristHash::zobrist_hash_from_position(&self.bit_position, zobrist_table);
        self.hash_positions.push(hash);
        proof {
            assert(self.hash_positions.hashes@ =~= seq![hash]);
        }
    }

    pub fn set_end_game(&mut self, end_game: EndGame)
        ensures
            final(self).end_game == end_game,
            final(self).bit_position == old(self).bit_position,
            final(self).hash_positions.hashes@ == old(self).hash_positions.hashes@,
            final(self).backup@ == old(self).backup@,
    {
        self.end_game = end_game;
    }

    pub fn bit_position(&self) -> (r: &BitPosition)
        ensures
            *r == self.bit_position,
    {
        &self.bit_position
    }

    /// The hash of the current position.
    pub fn last_hash(&self) -> (r: ZobristHash)
        requires
            self.hash_positions.hashes@.len() > 0,
        ensures
            r == self.hash_positions.hashes@.last(),
    {
        let list = self.hash_positions.list();
        list[list.len() - 1]
    }

    pub fn end_game(&self) -> (r: EndGame)
        ensures
            r == self.end_game,
    {
        self.end_game
    }

    /// How the game ends, given the check status and whether the side to move
    /// has no move (see `end_game_of`).
    pub fn check_end_game(&self, check_status: CheckStatus, moves_is_empty: bool) -> (r: EndGame)
        ensures
            r == end_game_of(self.bit_position, self.hash_positions.hashes@, check_status, moves_is_empty),
    {
        let bit_position_status = self.bit_position.bit_position_status();
        if moves_is_empty {
            match check_status {
                CheckStatus::NoCheck => EndGame::Pat,
                _ => EndGame::Mat(bit_position_status.player_turn()),
            }
        } else if bit_position_status.n_half_moves() >= 100 {
            EndGame::NoPawnAndCapturex50
        } else if self.check_insufficient_material(self.bit_position.bit_boards_white_and_black()) {
            EndGame::InsufficientMaterial
        } else if self.hash_positions.check_3x(bit_position_status.n_half_moves()) {
            EndGame::Repetition3x
        } else {
            EndGame::Ongoing
        }
    }

    /// The squares each side controls, White first.
    pub fn gen_control_square(&self) -> (r: (ControlSquares, ControlSquares))
        ensures
            ({
                let bb = self.bit_position.bit_boards_white_and_black;
                &&& r.0.moves@ == control_moves(Color::White, bb)
                &&& r.0.pawns_control.0 == pawns_reach(bb.bit_board_white.pawns.bitboard.0, Color::White)
                &&& r.1.moves@ == control_moves(Color::Black, bb)
                &&& r.1.pawns_control.0 == pawns_reach(bb.bit_board_black.pawns.bitboard.0, Color::Black)
                &&& r.0.wf() && r.1.wf()
            }),
    {
        let bit_boards_white_and_black = self.bit_position.bit_boards_white_and_black();
        let control_square_white_with_pawns = bit_boards_white_and_black.gen_square_control(&Color::White);
        let control_square_black_with_pawns = bit_boards_white_and_black.gen_square_control(&Color::Black);
        (control_square_white_with_pawns, control_square_black_with_pawns)
    }

    /// The legal moves of the side to move.
    pub fn gen_moves(&self) -> (r: Vec<BitBoardMove>)
        requires
            self.ready(),
        ensures
            r@ == position_moves(self.bit_position),
    {
        let bit_position_status = self.bit_position.bit_position_status();
        let color = bit_position_status.player_turn();
        let bit_boards_white_and_black = self.bit_position.bit_boards_white_and_black();
        let check_status = bit_boards_white_and_black.check_status(&color);
        let capture_en_passant = bit_position_status.pawn_en_passant();
        proof {
            lemma_side_ready(*bit_boards_white_and_black, color, capture_en_passant);
        }
        bit_boards_white_and_black.gen_moves_for_all(
            &color,
            check_status,
            capture_en_passant.as_ref(),
            bit_position_status,
        )
    }

    /// Side `color` has no rook, queen or pawn and at most one bishop or knight.
    pub fn check_insufficient_material_for_color(
        &self,
        color: Color,
        bit_boards_white_and_black: &BitBoardsWhiteAndBlack,
    ) -> (r: bool)
        ensures
            r == insufficient_for(bit_boards_white_and_black.side(color)),
    {
        let bitboard = bit_boards_white_and_black.bit_board(&color);
        let relevant_pieces = bitboard.rooks().bitboard().bitor(*bitboard.queens().bitboard()).bitor(
            *bitboard.pawns().bitboard(),
        );
        if relevant_pieces.empty() {
            let other = bitboard.bishops().bitboard().bitor(*bitboard.knights().bitboard());
            other.one_bit_set_max()
        } else {
            false
        }
    }

    /// Neither side has enough material to mate (see `insufficient_material`).
    fn check_insufficient_material(&self, bit_boards_white_and_black: &BitBoardsWhiteAndBlack) -> (r: bool)
        ensures
            r == insufficient_material(*bit_boards_white_and_black),
    {
        let bitboard_white = bit_boards_white_and_black.bit_board_white();
        let bitboard_black = bit_boards_white_and_black.bit_board_black();
        let white_relevant_pieces = bitboard_white.rooks().bitboard().bitor(
            *bitboard_white.queens().bitboard(),
        ).bitor(*bitboard_white.pawns().bitboard());
        let black_relevant_pieces = bitboard_black.rooks().bitboard().bitor(
            *bitboard_black.queens().bitboard(),
        ).bitor(*bitboard_black.pawns().bitboard());
        if white_relevant_pieces.empty() && black_relevant_pieces.empty() {
            let white_other = bitboard_white.bishops().bitboard().bitor(*bitboard_white.knights().bitboard());
            let black_other = bitboard_black.bishops().bitboard().bitor(*bitboard_black.knights().bitboard());
            white_other.one_bit_set_max() && black_other.one_bit_set_max()
        } else {
            false
        }
    }

    /// Passes the move: the other side is to move, no en passant capture is
    /// possible, and the hash of the new position (the last one with the side to
    /// move key toggled) is added.
    pub fn play_null_move(&mut self, zobrist_table: &Zobrist)
        requires
            old(self).hash_positions.hashes@.len() > 0,
        ensures
            final(self).bit_position.bit_boards_white_and_black == old(self).bit_position.bit_boards_white_and_black,
            final(self).bit_position.bit_position_status == (BitPositionStatus {
                pawn_en_passant: -1i8,
                ..side_changed(old(self).bit_position.bit_position_status)
            }),
            final(self).hash_positions.hashes@ == old(self).hash_positions.hashes@.push(
                ZobristHash(old(self).hash_positions.hashes@.last().0 ^ zobrist_table.side_to_move),
            ),
            final(self).backup@ == old(self).backup@,
            final(self).end_game == old(self).end_game,
    {
        let mut hash = self.last_hash();
        self.change_side();
        self.bit_position.bit_position_status.set_pawn_en_passant(None);
        hash = hash.xor_player_turn(zobrist_table);
        self.hash_positions.push(hash);
    }

    /// The other side is to move.
    fn change_side(&mut self)
        ensures
            final(self).bit_position.bit_boards_white_and_black == old(self).bit_position.bit_boards_white_and_black,
            final(self).bit_position.bit_position_status == side_changed(old(self).bit_position.bit_position_status),
            final(self).hash_positions.hashes@ == old(self).hash_positions.hashes@,
            final(self).backup@ == old(self).backup@,
            final(self).end_game == old(self).end_game,
    {
        let white = self.bit_position.bit_position_status.player_turn_white();
        self.bit_position.bit_position_status.set_player_turn_white(!white);
    }

    /// Takes a passed move back: the last hash is dropped and the other side is
    /// to move (the en passant square is not restored).
    pub fn play_back_null_move(&mut self)
        requires
            old(self).hash_positions.hashes@.len() > 0,
        ensures
            final(self).bit_position.bit_boards_white_and_black == old(self).bit_position.bit_boards_white_and_black,
            final(self).bit_position.bit_position_status == side_changed(old(self).bit_position.bit_position_status),
            final(self).hash_positions.hashes@ == old(self).hash_positions.hashes@.drop_last(),
            final(self).backup@ == old(self).backup@,
            final(self).end_game == old(self).end_game,
    {
        self.hash_positions.pop();
        self.change_side();
    }

    /// Takes the last move back: the position it was played from, the last record
    /// and hash dropped, the game going on.
    pub fn play_back(&mut self)
        requires
            old(self).backup@.len() > 0,
            old(self).hash_positions.hashes@.len() > 0,
        ensures
            final(self).bit_position == played_back(old(self).bit_position, old(self).backup@.last()),
            final(self).backup@ == old(self).backup@.drop_last(),
            final(self).hash_positions.hashes@ == old(self).hash_positions.hashes@.drop_last(),
            final(self).end_game == EndGame::Ongoing,
    {
        let back_info = self.backup.pop().unwrap();
        let boards = self.bit_position.bit_boards_white_and_black.xor(&back_info.bitboard_white_and_black_mask);
        proof {
            let o = old(self).bit_position.bit_boards_white_and_black;
            let mk = back_info.bitboard_white_and_black_mask;
            assert forall|t: TypePiece| #[trigger] boards.bit_board_white.board(t)
                == o.bit_board_white.board(t) ^ mk.bit_board_white.board(t) by {
                assert(boards.side(Color::White).board(t) == o.side(Color::White).board(t) ^ mk.side(Color::White).board(t));
            }
            assert forall|t: TypePiece| #[trigger] boards.bit_board_black.board(t)
                == o.bit_board_black.board(t) ^ mk.bit_board_black.board(t) by {
                assert(boards.side(Color::Black).board(t) == o.side(Color::Black).board(t) ^ mk.side(Color::Black).board(t));
            }
            lemma_boards_ext(boards.bit_board_white, |t: TypePiece|
                old(self).bit_position.bit_boards_white_and_black.bit_board_white.board(t)
                    ^ back_info.bitboard_white_and_black_mask.bit_board_white.board(t));
            lemma_boards_ext(boards.bit_board_black, |t: TypePiece|
                old(self).bit_position.bit_boards_white_and_black.bit_board_black.board(t)
                    ^ back_info.bitboard_white_and_black_mask.bit_board_black.board(t));
        }
        self.bit_position = BitPosition {
            bit_boards_white_and_black: boards,
            bit_position_status: back_info.bit_position_status_back,
        };
        self.end_game = EndGame::Ongoing;
        self.hash_positions.pop();
    }

    /// Whether the side to move is in check, and by what.
    pub fn check_status(&self) -> (r: CheckStatus)
        requires
            self.ready(),
        ensures
            r == check_status_of(
                self.bit_position.bit_position_status.spec_player_turn(),
                self.bit_position.bit_boards_white_and_black,
            ),
    {
        let color = self.bit_position().bit_position_status().player_turn();
        self.bit_position().bit_boards_white_and_black().check_status(&color)
    }

    /// Whether the side to move has a legal move.
    pub fn can_move(&self) -> (r: bool)
        requires
            self.ready(),
        ensures
            r == (position_moves(self.bit_position).len() > 0),
    {
        let color = self.bit_position().bit_position_status().player_turn();
        let check_status = self.check_status();
        let capture_en_passant = self.bit_position().bit_position_status().pawn_en_passant();
        proof {
            lemma_side_ready(self.bit_position.bit_boards_white_and_black, color, capture_en_passant);
        }
        self.bit_position().bit_boards_white_and_black().can_move(
            &color,
            check_status,
            capture_en_passant.as_ref(),
            self.bit_position().bit_position_status(),
        )
    }

    /// Records how the game stands (see `end_game_of`).
    pub fn update_endgame_status(&mut self)
        requires
            old(self).ready(),
        ensures
            final(self).end_game == end_game_of(
                old(self).bit_position,
                old(self).hash_positions.hashes@,
                check_status_of(
                    old(self).bit_position.bit_position_status.spec_player_turn(),
                    old(self).bit_position.bit_boards_white_and_black,
                ),
                position_moves(old(self).bit_position).len() == 0,
            ),
            final(self).bit_position == old(self).bit_position,
            final(self).hash_positions.hashes@ == old(self).hash_positions.hashes@,
            final(self).backup@ == old(self).backup@,
    {
        let can_move = self.can_move();
        let end_game = self.check_end_game(self.check_status(), !can_move);
        self.set_end_game(end_game);
    }
}

/// Why a move could not be played.
#[derive(Debug, Copy, Clone, PartialEq, Eq, Structural)]
pub enum PlayError {
    /// No piece stands on the start square.
    EmptyStartSquare(LongAlgebricNotationMove),
    /// The end square holds a piece of the same color as the moving one.
    SameColorCapture(LongAlgebricNotationMove),
    /// The move is not among the legal moves of the position.
    InvalidMove(LongAlgebricNotationMove),
    /// The position or the move is outside what the move generator and the board
    /// update handle (no king for the side to move, a pawn on its last row, a
    /// move off the board, a counter at its limit).
    Unplayable(LongAlgebricNotationMove),
}

/// The board move a notation stands for in `p`: the piece on the start square,
/// capturing the opponent piece on the end square if any.
pub open spec fn move_from_notation(p: BitPosition, m: LongAlgebricNotationMove) -> Result<BitBoardMove, PlayError> {
    let bb = p.bit_boards_white_and_black;
    let turn = p.bit_position_status.spec_player_turn();
    match (peek_square(bb, m.start.0 as int), peek_square(bb, m.end.0 as int)) {
        (Square::Empty, _) => Err(PlayError::EmptyStartSquare(m)),
        (Square::NonEmpty(piece), Square::Empty) => Ok(
            BitBoardMove { color: turn, type_piece: piece.type_piece, start: m.start, end: m.end, capture: None, promotion: m.promotion },
        ),
        (Square::NonEmpty(piece), Square::NonEmpty(capture)) => if capture.color != piece.color {
            Ok(
                BitBoardMove {
                    color: turn,
                    type_piece: piece.type_piece,
                    start: m.start,
                    end: m.end,
                    capture: Some(capture.type_piece),
                    promotion: m.promotion,
                },
            )
        } else {
            Err(PlayError::SameColorCapture(m))
        },
    }
}

/// What playing notation `m` in `p` gives: the board move, checked against the
/// legal moves when `is_uci_origin`, and within what the board update handles.
pub open spec fn play_step(p: BitPosition, m: LongAlgebricNotationMove, is_uci_origin: bool) -> Result<BitBoardMove, PlayError> {
    let turn = p.bit_position_status.spec_player_turn();
    match move_from_notation(p, m) {
        Err(e) => Err(e),
        Ok(b) => if is_uci_origin && !side_ready(p.bit_boards_white_and_black, turn) {
            Err(PlayError::Unplayable(m))
        } else if is_uci_origin && !position_moves(p).contains(b) {
            Err(PlayError::InvalidMove(m))
        } else if !(move_wf(b) && status_move_ok(b, p.bit_position_status)) {
            Err(PlayError::Unplayable(m))
        } else {
            Ok(b)
        },
    }
}

/// The moves played and the position reached after the first `k` notations of
/// `ms` from `p`, when none of them fails.
pub open spec fn steps(p: BitPosition, ms: Seq<LongAlgebricNotationMove>, is_uci_origin: bool, k: nat) -> Option<(Seq<BitBoardMove>, BitPosition)>
    decreases k,
{
    if k == 0 {
        Some((Seq::empty(), p))
    } else {
        match steps(p, ms, is_uci_origin, (k - 1) as nat) {
            Some((v, q)) => match play_step(q, ms[k - 1], is_uci_origin) {
                Ok(b) => Some((v.push(b), moved_position(q, b))),
                Err(_) => None,
            },
            None => None,
        }
    }
}

/// What taking back each of the first `n` moves played by `steps` from `p`
/// needs, in the order they were played.
pub open spec fn backs_of(p: BitPosition, ms: Seq<LongAlgebricNotationMove>, is_uci_origin: bool, n: nat) -> Seq<BackMove> {
    Seq::new(
        n,
        |j: int|
            back_move_of(
                steps(p, ms, is_uci_origin, j as nat).unwrap().1,
                steps(p, ms, is_uci_origin, (j + 1) as nat).unwrap().0[j],
            ),
    )
}

/// The position after taking back the moves of `backs`, the last one first.
pub open spec fn taken_back(q: BitPosition, backs: Seq<BackMove>) -> BitPosition
    decreases backs.len(),
{
    if backs.len() == 0 {
        q
    } else {
        taken_back(played_back(q, backs.last()), backs.drop_last())
    }
}

/// `steps` gives one move per notation played.
proof fn lemma_steps_len(p: BitPosition, ms: Seq<LongAlgebricNotationMove>, is_uci_origin: bool, n: nat)
    requires
        steps(p, ms, is_uci_origin, n) is Some,
    ensures
        steps(p, ms, is_uci_origin, n).unwrap().0.len() == n,
    decreases n,
{
    if n > 0 {
        lemma_steps_len(p, ms, is_uci_origin, (n - 1) as nat);
    }
}

/// Taking back, last first, every move of a sequence played from `p` gives
/// `p` again.
pub proof fn lemma_take_back_sequence(p: BitPosition, ms: Seq<LongAlgebricNotationMove>, is_uci_origin: bool, n: nat)
    requires
        steps(p, ms, is_uci_origin, n) is Some,
    ensures
        taken_back(steps(p, ms, is_uci_origin, n).unwrap().1, backs_of(p, ms, is_uci_origin, n)) == p,
    decreases n,
{
    if n > 0 {
        let prev = steps(p, ms, is_uci_origin, (n - 1) as nat);
        assert(prev is Some);
        let q = prev.unwrap().1;
        lemma_steps_len(p, ms, is_uci_origin, (n - 1) as nat);
        let cur = steps(p, ms, is_uci_origin, n);
        let b0 = play_step(q, ms[n - 1], is_uci_origin)->Ok_0;
        assert(cur == Some((prev.unwrap().0.push(b0), moved_position(q, b0))));
        let b = cur.unwrap().0[n - 1];
        assert(b == b0);
        lemma_play_back_undoes_move(q, b);
        let bk = backs_of(p, ms, is_uci_origin, n);
        assert(bk.last() == back_move_of(q, b));
        assert(bk.drop_last() =~= backs_of(p, ms, is_uci_origin, (n - 1) as nat));
        lemma_take_back_sequence(p, ms, is_uci_origin, (n - 1) as nat);
    }
}

/// Taking back with `play_back`, one call after the other, every move that
/// `play_moves` played gives back the position and the hashes it started
/// from. `backup` and `hashes` are what `play_moves` left after playing all of
/// `ms` from `p`, with the backups `b0` and the hashes `h0` before; each call
/// of `play_back` takes back the last backup and drops the last hash.
pub proof fn lemma_play_moves_taken_back(
    p: BitPosition,
    ms: Seq<LongAlgebricNotationMove>,
    is_uci_origin: bool,
    b0: Seq<BackMove>,
    h0: Seq<ZobristHash>,
    backup: Seq<BackMove>,
    hashes: Seq<ZobristHash>,
)
    requires
        steps(p, ms, is_uci_origin, ms.len()) is Some,
        backup.len() == b0.len() + ms.len(),
        backup.subrange(0, b0.len() as int) == b0,
        hashes.len() == h0.len() + ms.len(),
        hashes.subrange(0, h0.len() as int) == h0,
        forall|j: int|
            0 <= j < ms.len() ==> {
                let before = steps(p, ms, is_uci_origin, j as nat).unwrap();
                let after = steps(p, ms, is_uci_origin, (j + 1) as nat).unwrap();
                #[trigger] backup[b0.len() + j] == back_move_of(before.1, after.0[j])
            },
    ensures
        taken_back(
            steps(p, ms, is_uci_origin, ms.len()).unwrap().1,
            backup.subrange(b0.len() as int, backup.len() as int),
        ) == p,
        backup.subrange(0, backup.len() - ms.len()) == b0,
        hashes.subrange(0, hashes.len() - ms.len()) == h0,
{
    let n = ms.len();
    let tail = backup.subrange(b0.len() as int, backup.len() as int);
    assert forall|j: int| 0 <= j < n implies #[trigger] tail[j] == backs_of(p, ms, is_uci_origin, n)[j] by {
        assert(tail[j] == backup[b0.len() + j]);
    }
    assert(tail =~= backs_of(p, ms, is_uci_origin, n));
    lemma_take_back_sequence(p, ms, is_uci_origin, n);
}

/// The move is one the board update handles.
fn playable_check(b: &BitBoardMove, st: &BitPositionStatus) -> (r: bool)
    ensures
        r == (move_wf(*b) && status_move_ok(*b, *st)),
{
    let on_board = b.start.0 < 64 && b.end.0 < 64;
    let castle_ok = match b.check_castle() {
        Some(Castle::Short) => 1 <= b.end.0 && b.end.0 < 63,
        Some(Castle::Long) => 2 <= b.end.0 && b.end.0 < 63,
        None => true,
    };
    let counters_ok = (b.color != Color::Black || st.n_moves < u16::MAX) && (!(b.capture.is_none()
        && b.type_piece != TypePiece::Pawn) || st.n_half_moves < u16::MAX);
    let pawn_ok = b.type_piece != TypePiece::Pawn || (b.start.0 < 64 && b.end.0 < 64);
    on_board && castle_ok && counters_ok && pawn_ok
}

/// `b` is one of `moves`.
fn contains_move(moves: &Vec<BitBoardMove>, b: &BitBoardMove) -> (r: bool)
    ensures
        r == moves@.contains(*b),
{
    let mut i: usize = 0;
    while i < moves.len()
        invariant
            i <= moves@.len(),
            forall|j: int| 0 <= j < i ==> moves@[j] != *b,
        decreases moves@.len() - i,
    {
        if moves[i] == *b {
            proof {
                assert(moves@[i as int] == *b);
            }
            return true;
        }
        i = i + 1;
    }
    false
}

/// The board move notation `m` stands for in `bitboard_position`, checked
/// against the legal moves when `is_uci_origin`.
fn check_move(
    m: LongAlgebricNotationMove,
    bitboard_position: &BitPosition,
    is_uci_origin: bool,
) -> (r: Result<BitBoardMove, PlayError>)
    requires
        m.start.0 < 64,
        m.end.0 < 64,
    ensures
        r == play_step(*bitboard_position, m, is_uci_origin),
{
    let player_turn = bitboard_position.bit_position_status().player_turn();
    let bit_boards_white_and_black = bitboard_position.bit_boards_white_and_black();
    let start_square = bit_boards_white_and_black.peek(m.start());
    let end_square = bit_boards_white_and_black.peek(m.end());
    let b_move = match (start_square, end_square) {
        (Square::Empty, _) => {
            return Err(PlayError::EmptyStartSquare(m));
        },
        (Square::NonEmpty(piece), Square::Empty) => BitBoardMove::new(
            player_turn,
            piece.type_piece(),
            m.start(),
            m.end(),
            None,
            m.opt_promotion(),
        ),
        (Square::NonEmpty(piece), Square::NonEmpty(capture)) => {
            if capture.color() != piece.color() {
                BitBoardMove::new(
                    player_turn,
                    piece.type_piece(),
                    m.start(),
                    m.end(),
                    Some(capture.type_piece()),
                    m.opt_promotion(),
                )
            } else {
                return Err(PlayError::SameColorCapture(m));
            }
        },
    };
    if is_uci_origin {
        if !side_ready_check(bit_boards_white_and_black, &player_turn) {
            return Err(PlayError::Unplayable(m));
        }
        let status = bitboard_position.bit_position_status();
        let check_status = bit_boards_white_and_black.check_status(&player_turn);
        let capture_en_passant = status.pawn_en_passant();
        proof {
            lemma_side_ready(*bit_boards_white_and_black, player_turn, capture_en_passant);
        }
        let moves = bit_boards_white_and_black.gen_moves_for_all(
            &player_turn,
            check_status,
            capture_en_passant.as_ref(),
            status,
        );
        if !contains_move(&moves, &b_move) {
            return Err(PlayError::InvalidMove(m));
        }
    }
    if !playable_check(&b_move, bitboard_position.bit_position_status()) {
        return Err(PlayError::Unplayable(m));
    }
    Ok(b_move)
}

impl GameState {
    /// Plays notation `m`: on success the position moves on, the record to take
    /// the move back and the hash of the new position are added.
    pub(crate) fn play_one(&mut self, m: LongAlgebricNotationMove, zobrist_table: &Zobrist, is_uci_origin: bool) -> (r: Result<BitBoardMove, PlayError>)
        requires
            zobrist_table.wf(),
            m.start.0 < 64,
            m.end.0 < 64,
        ensures
            r == play_step(old(self).bit_position, m, is_uci_origin),
            r matches Ok(b) ==> {
                &&& final(self).bit_position == moved_position(old(self).bit_position, b)
                &&& final(self).backup@ == old(self).backup@.push(back_move_of(old(self).bit_position, b))
                &&& final(self).hash_positions.hashes@ == old(self).hash_positions.hashes@.push(
                    ZobristHash(position_hash(*zobrist_table, final(self).bit_position)),
                )
            },
            r is Err ==> {
                &&& final(self).bit_position == old(self).bit_position
                &&& final(self).backup@ == old(self).backup@
                &&& final(self).hash_positions.hashes@ == old(self).hash_positions.hashes@
            },
            final(self).end_game == old(self).end_game,
    {
        match check_move(m, &self.bit_position, is_uci_origin) {
            Err(e) => Err(e),
            Ok(b_move) => {
                let before = self.bit_position;
                self.bit_position = before.move_piece(&b_move);
                let bitboards_masks = self.bit_position.bit_boards_white_and_black.xor(
                    &before.bit_boards_white_and_black,
                );
                proof {
                    let a = self.bit_position.bit_boards_white_and_black;
                    let o = before.bit_boards_white_and_black;
                    assert forall|t: TypePiece| #[trigger] bitboards_masks.bit_board_white.board(t)
                        == a.bit_board_white.board(t) ^ o.bit_board_white.board(t) by {
                        assert(bitboards_masks.side(Color::White).board(t) == a.side(Color::White).board(t)
                            ^ o.side(Color::White).board(t));
                    }
                    assert forall|t: TypePiece| #[trigger] bitboards_masks.bit_board_black.board(t)
                        == a.bit_board_black.board(t) ^ o.bit_board_black.board(t) by {
                        assert(bitboards_masks.side(Color::Black).board(t) == a.side(Color::Black).board(t)
                            ^ o.side(Color::Black).board(t));
                    }
                    lemma_boards_ext(bitboards_masks.bit_board_white, |t: TypePiece|
                        a.bit_board_white.board(t) ^ o.bit_board_white.board(t));
                    lemma_boards_ext(bitboards_masks.bit_board_black, |t: TypePiece|
                        a.bit_board_black.board(t) ^ o.bit_board_black.board(t));
                }
                self.backup.push(BackMove {
                    bitboard_white_and_black_mask: bitboards_masks,
                    bit_position_status_back: before.bit_position_status,
                });
                let hash = ZobristHash::zobrist_hash_from_position(&self.bit_position, zobrist_table);
                self.hash_positions.push(hash);
                Ok(b_move)
            },
        }
    }

    /// Plays the notations one after the other from the current position, and
    /// stops at the first that fails (see `play_step`); on success gives the
    /// board moves played.
    #[verifier::spinoff_prover]
    pub fn play_moves(
        &mut self,
        valid_moves: &Vec<LongAlgebricNotationMove>,
        zobrist_table: &Zobrist,
        is_uci_origin: bool,
    ) -> (r: Result<Vec<BitBoardMove>, PlayError>)
        requires
            zobrist_table.wf(),
            forall|k: int| 0 <= k < valid_moves@.len() ==> (#[trigger] valid_moves@[k]).start.0 < 64
                && valid_moves@[k].end.0 < 64,
        ensures
            ({
                let n = (final(self).backup@.len() - old(self).backup@.len()) as nat;
                let ms = valid_moves@;
                &&& old(self).backup@.len() <= final(self).backup@.len()
                &&& n <= ms.len()
                &&& steps(old(self).bit_position, ms, is_uci_origin, n) matches Some((v, p)) && p
                    == final(self).bit_position
                &&& r matches Ok(v) ==> n == ms.len() && steps(old(self).bit_position, ms, is_uci_origin, n)
                    == Some((v@, final(self).bit_position))
                &&& r matches Err(e) ==> n < ms.len() && play_step(final(self).bit_position, ms[n as int], is_uci_origin)
                    == Err::<BitBoardMove, PlayError>(e)
                &&& final(self).backup@.subrange(0, old(self).backup@.len() as int) == old(self).backup@
                &&& final(self).hash_positions.hashes@.len() == old(self).hash_positions.hashes@.len() + n
                &&& final(self).hash_positions.hashes@.subrange(0, old(self).hash_positions.hashes@.len() as int)
                    == old(self).hash_positions.hashes@
                &&& forall|j: int| 0 <= j < n ==> {
                    let before = steps(old(self).bit_position, ms, is_uci_origin, j as nat).unwrap();
                    let after = steps(old(self).bit_position, ms, is_uci_origin, (j + 1) as nat).unwrap();
                    &&& #[trigger] final(self).backup@[old(self).backup@.len() + j] == back_move_of(before.1, after.0[j])
                    &&& final(self).hash_positions.hashes@[old(self).hash_positions.hashes@.len() + j]
                        == ZobristHash(position_hash(*zobrist_table, after.1))
                }
            }),
            final(self).end_game == old(self).end_game,
    {
        let ghost p0 = self.bit_position;
        let ghost h0 = self.hash_positions.hashes@;
        let ghost b0 = self.backup@;
        let ghost ms = valid_moves@;
        let mut summary: Vec<BitBoardMove> = Vec::new();
        let mut error: Option<PlayError> = None;
        let mut i: usize = 0;
        while i < valid_moves.len() && error.is_none()
            invariant
                i <= ms.len(),
                ms == valid_moves@,
                zobrist_table.wf(),
                forall|k: int| 0 <= k < ms.len() ==> (#[trigger] ms[k]).start.0 < 64 && ms[k].end.0 < 64,
                steps(p0, ms, is_uci_origin, i as nat) == Some((summary@, self.bit_position)),
                summary@.len() == i,
                self.backup@.len() == b0.len() + i,
                self.backup@.subrange(0, b0.len() as int) == b0,
                self.hash_positions.hashes@.len() == h0.len() + i,
                self.hash_positions.hashes@.subrange(0, h0.len() as int) == h0,
                forall|j: int| 0 <= j < i ==> {
                    let before = steps(p0, ms, is_uci_origin, j as nat).unwrap();
                    let after = steps(p0, ms, is_uci_origin, (j + 1) as nat).unwrap();
                    &&& #[trigger] self.backup@[b0.len() + j] == back_move_of(before.1, after.0[j])
                    &&& self.hash_positions.hashes@[h0.len() + j] == ZobristHash(position_hash(*zobrist_table, after.1))
                },
                error matches Some(e) ==> i < ms.len() && play_step(self.bit_position, ms[i as int], is_uci_origin)
                    == Err::<BitBoardMove, PlayError>(e),
                self.end_game == old(self).end_game,
            decreases ms.len() - i, if error is None { 1int } else { 0int },
        {
            let m = valid_moves[i];
            let ghost before_bp = self.bit_position;
            let ghost before_backup = self.backup@;
            let ghost before_hashes = self.hash_positions.hashes@;
            let ghost before_summary = summary@;
            match self.play_one(m, zobrist_table, is_uci_origin) {
                Err(e) => {
                    error = Some(e);
                },
                Ok(b_move) => {
                    summary.push(b_move);
                    proof {
                        assert(steps(p0, ms, is_uci_origin, (i + 1) as nat) == Some((summary@, self.bit_position)));
                        assert(self.backup@.subrange(0, b0.len() as int) =~= before_backup.subrange(0, b0.len() as int));
                        assert(self.hash_positions.hashes@.subrange(0, h0.len() as int)
                            =~= before_hashes.subrange(0, h0.len() as int));
                        assert forall|j: int| 0 <= j < i + 1 implies {
                            let before = steps(p0, ms, is_uci_origin, j as nat).unwrap();
                            let after = steps(p0, ms, is_uci_origin, (j + 1) as nat).unwrap();
                            &&& #[trigger] self.backup@[b0.len() + j] == back_move_of(before.1, after.0[j])
                            &&& self.hash_positions.hashes@[h0.len() + j] == ZobristHash(position_hash(*zobrist_table, after.1))
                        } by {
                            if j == i {
                                assert(steps(p0, ms, is_uci_origin, j as nat).unwrap().1 == before_bp);
                                assert(steps(p0, ms, is_uci_origin, (j + 1) as nat).unwrap().0[j] == b_move);
                            } else {
                                assert(self.backup@[b0.len() + j] == before_backup[b0.len() + j]);
                                assert(self.hash_positions.hashes@[h0.len() + j] == before_hashes[h0.len() + j]);
                            }
                        }
                    }
                    i = i + 1;
                },
            }
        }
        match error {
            Some(e) => Err(e),
            None => Ok(summary),
        }
    }
}

/// Material is insufficient only when neither side has a rook, a queen or a
/// pawn, and each side has at most one bishop or knight.
pub proof fn lemma_insufficient_material_pieces(bb: BitBoardsWhiteAndBlack, c: Color)
    ensures
        insufficient_material(bb) ==> {
            &&& bb.side(c).rooks.bitboard.0 == 0
            &&& bb.side(c).queens.bitboard.0 == 0
            &&& bb.side(c).pawns.bitboard.0 == 0
            &&& at_most_one_bit(bb.side(c).bishops.bitboard.0 | bb.side(c).knights.bitboard.0)
        },
{
    if insufficient_material(bb) {
        let w = bb.bit_board_white;
        let b = bb.bit_board_black;
        crate::bits::lemma_u64_algebra();
        assert((w.rooks.bitboard.0 | w.queens.bitboard.0 | w.pawns.bitboard.0) == 0);
        assert((b.rooks.bitboard.0 | b.queens.bitboard.0 | b.pawns.bitboard.0) == 0);
        assert(w.rooks.bitboard.0 == 0 && w.queens.bitboard.0 == 0 && w.pawns.bitboard.0 == 0);
        assert(b.rooks.bitboard.0 == 0 && b.queens.bitboard.0 == 0 && b.pawns.bitboard.0 == 0);
    }
}

/// A game ends by insufficient material only when material is insufficient:
/// never while either side still has a rook, a queen or a pawn.
pub proof fn lemma_end_by_insufficient_material(
    p: BitPosition,
    hashes: Seq<ZobristHash>,
    check_status: CheckStatus,
    moves_is_empty: bool,
    c: Color,
)
    ensures
        end_game_of(p, hashes, check_status, moves_is_empty) == EndGame::InsufficientMaterial ==> insufficient_material(
            p.bit_boards_white_and_black,
        ),
        (p.bit_boards_white_and_black.side(c).rooks.bitboard.0 != 0 || p.bit_boards_white_and_black.side(
            c,
        ).queens.bitboard.0 != 0 || p.bit_boards_white_and_black.side(c).pawns.bitboard.0 != 0) ==> end_game_of(
            p,
            hashes,
            check_status,
            moves_is_empty,
        ) != EndGame::InsufficientMaterial,
{
    lemma_insufficient_material_pieces(p.bit_boards_white_and_black, c);
}

} // verus!
