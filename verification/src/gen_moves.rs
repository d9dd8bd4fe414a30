//! The legal moves of a side: the candidate moves of its pieces turned into board
//! moves, keeping those that do not leave its own king in check.
use vstd::prelude::*;
use vstd::std_specs::bits::u64_trailing_zeros;
use crate::bitboard::{BitBoard, BitIndex, Direction, direction_of};
use crate::bitboard_move::{BitBoardMove, board_moves, castle_of};
use crate::bitboards::{BitBoardsWhiteAndBlack, move_result, move_wf, peek_square};
use crate::bits::{bit, single, lemma_clear_lowest, lemma_lowest_in, lemma_clear_lowest_mask};
use crate::piece_move::{BishopsBitBoard, CheckStatus, PieceMoves, RooksBitBoard, attackers_of,
    attackers_seq, bishop_targets, block_moves, captures_from, castle_targets, gen_moves_for_all_simple_check,
    gen_moves_for_king_except_castle, king_targets, knight_targets, lemma_moves_list_elems,
    lemma_moves_list_single, mask_filter, moves_list, non_king_moves, pawn_forbidden, pawn_targets,
    piece_moves_opt, queen_targets_fn, rook_targets, simple_check_moves};
use crate::status::{BitPositionStatus, king_side_squares, queen_side_squares};
use crate::square::{Color, Piece, Square, Switch, TypePiece, opposite};
use crate::fen::Position;
use crate::position::BitPosition;
use crate::table::{bishop_reach, king_reach, rook_reach, step_bit, step_to};

verus! {

/// Whether moving the piece of `color` from `start` to `end` uncovers its king:
/// when the start square lines up with the king (and the piece leaves that line),
/// the move is played and the king, looked at as a bishop (diagonal line) or a rook
/// (row or column), sees an opponent bishop or queen (resp. rook or queen).
pub open spec fn discovers_check(
    color: Color,
    t: TypePiece,
    start: BitIndex,
    end: BitIndex,
    bb: BitBoardsWhiteAndBlack,
) -> bool {
    let k = u64_trailing_zeros(bb.side(color).king.bitboard.0) as int;
    let d1 = direction_of(k, start.0 as int);
    if d1 == Direction::Unaligned || d1 == direction_of(start.0 as int, end.0 as int) {
        false
    } else {
        let capture = match peek_square(bb, end.0 as int) {
            Square::NonEmpty(p) => Some(p.type_piece),
            Square::Empty => None,
        };
        let after = move_result(bb, BitBoardMove { color, type_piece: t, start, end, capture, promotion: None });
        let own = after.side(color);
        let opp = after.side(opposite(color));
        if d1 == Direction::BishopBottomLeftTopRight || d1 == Direction::BishopTopLeftBottomRight {
            (bishop_reach(k, own.all() | opp.all()) & !own.all()) & (opp.bishops.bitboard.0
                | opp.queens.bitboard.0) != 0
        } else {
            (rook_reach(k, own.all() | opp.all()) & !own.all()) & (opp.rooks.bitboard.0
                | opp.queens.bitboard.0) != 0
        }
    }
}

/// Whether moving a piece (not the king) of `color` from `p_start` to `p_end`
/// uncovers its king (see `discovers_check`).
pub fn control_discover_king_no_check(
    color: &Color,
    type_piece: TypePiece,
    p_start: BitIndex,
    p_end: BitIndex,
    bit_boards_white_and_black: &BitBoardsWhiteAndBlack,
) -> (r: bool)
    requires
        p_start.0 < 64,
        p_end.0 < 64,
        type_piece != TypePiece::King,
        bit_boards_white_and_black.side(*color).king.bitboard.0 != 0,
    ensures
        r == discovers_check(*color, type_piece, p_start, p_end, *bit_boards_white_and_black),
{
    proof {
        lemma_lowest_in(bit_boards_white_and_black.side(*color).king.bitboard.0);
    }
    let k = bit_boards_white_and_black.bit_board(color).king().bitboard().index();
    let dir1 = k.direction(p_start);
    let dir2 = p_start.direction(p_end);
    if dir1 == Direction::Unaligned || dir1 == dir2 {
        return false;
    }
    let capture = match bit_boards_white_and_black.peek(p_end) {
        Square::NonEmpty(piece) => Some(piece.type_piece()),
        Square::Empty => None,
    };
    let b_move = BitBoardMove::new(*color, type_piece, p_start, p_end, capture, None);
    let bb = bit_boards_white_and_black.move_piece(&b_move);
    let bit_board = bb.bit_board(color);
    let bit_board_opponent = bb.bit_board(&color.switch());
    let ghost o = bit_board.all();
    let ghost x = bit_board_opponent.all();
    if dir1 == Direction::BishopBottomLeftTopRight || dir1 == Direction::BishopTopLeftBottomRight {
        proof {
            lemma_moves_list_single(k.0 as u64, TypePiece::Bishop, bishop_targets(o, x));
        }
        let moves = BishopsBitBoard::new(k.bitboard()).gen_moves_no_check(color, bit_board, bit_board_opponent);
        let opponent_bishops_queens = bit_board_opponent.bishops().bitboard().bitor(
            *bit_board_opponent.queens().bitboard(),
        );
        proof {
            let y = bishop_reach(k.0 as int, o | x) & !o;
            crate::bits::lemma_u64_algebra();
        }
        moves.len() > 0 && moves[0].moves.bitand(opponent_bishops_queens).non_empty()
    } else {
        proof {
            lemma_moves_list_single(k.0 as u64, TypePiece::Rook, rook_targets(o, x));
        }
        let moves = RooksBitBoard::new(k.bitboard()).gen_moves_no_check(color, bit_board, bit_board_opponent);
        let opponent_rooks_queens = bit_board_opponent.rooks().bitboard().bitor(
            *bit_board_opponent.queens().bitboard(),
        );
        proof {
            let y = rook_reach(k.0 as int, o | x) & !o;
            crate::bits::lemma_u64_algebra();
        }
        moves.len() > 0 && moves[0].moves.bitand(opponent_rooks_queens).non_empty()
    }
}

/// The king moves of `ms` after which the king of `color` is not in check.
pub open spec fn safe_king_moves(color: Color, ms: Seq<BitBoardMove>, bb: BitBoardsWhiteAndBlack) -> Seq<BitBoardMove>
    decreases ms.len(),
{
    if ms.len() == 0 {
        Seq::empty()
    } else {
        (if crate::piece_move::check_status_of(color, move_result(bb, ms[0])) == CheckStatus::NoCheck {
            seq![ms[0]]
        } else {
            Seq::empty()
        }) + safe_king_moves(color, ms.drop_first(), bb)
    }
}

/// The legal board moves of the piece of `pm` going to `end`: a king move is kept
/// when the king is not in check after it; another piece's moves are dropped when
/// they uncover the king.
pub open spec fn target_moves(color: Color, pm: PieceMoves, end: BitIndex, bb: BitBoardsWhiteAndBlack) -> Seq<BitBoardMove> {
    let ms = board_moves(color, pm.type_piece, pm.index, end, bb);
    if pm.type_piece == TypePiece::King {
        safe_king_moves(color, ms, bb)
    } else if discovers_check(color, pm.type_piece, pm.index, end, bb) {
        Seq::empty()
    } else {
        ms
    }
}

/// The legal board moves of `pm` to the squares of `b`, lowest square first.
pub open spec fn targets_moves(color: Color, pm: PieceMoves, b: u64, bb: BitBoardsWhiteAndBlack) -> Seq<BitBoardMove>
    decreases b,
{
    if b == 0 {
        Seq::empty()
    } else {
        proof {
            lemma_clear_lowest(b);
        }
        target_moves(color, pm, BitIndex(u64_trailing_zeros(b) as u8), bb) + targets_moves(
            color,
            pm,
            b & ((b - 1) as u64),
            bb,
        )
    }
}

/// The legal board moves of a list of piece moves, in the order of the list.
pub open spec fn legal_moves(color: Color, l: Seq<PieceMoves>, bb: BitBoardsWhiteAndBlack) -> Seq<BitBoardMove>
    decreases l.len(),
{
    if l.len() == 0 {
        Seq::empty()
    } else {
        targets_moves(color, l[0], l[0].moves.0, bb) + legal_moves(color, l.drop_first(), bb)
    }
}

/// A move of a concatenation is a move of one of its parts.
proof fn lemma_in_concat(a: Seq<BitBoardMove>, b: Seq<BitBoardMove>, m: BitBoardMove)
    requires
        (a + b).contains(m),
    ensures
        a.contains(m) || b.contains(m),
{
    let i = choose|i: int| 0 <= i < (a + b).len() && (a + b)[i] == m;
    if i < a.len() {
        assert(a[i] == m);
    } else {
        assert(b[i - a.len()] == m);
    }
}

/// A move kept by `safe_king_moves` leaves the king of `color` out of check.
proof fn lemma_safe_king_moves(color: Color, ms: Seq<BitBoardMove>, bb: BitBoardsWhiteAndBlack, m: BitBoardMove)
    requires
        safe_king_moves(color, ms, bb).contains(m),
    ensures
        crate::piece_move::check_status_of(color, move_result(bb, m)) == CheckStatus::NoCheck,
    decreases ms.len(),
{
    if ms.len() == 0 {
        assert(!Seq::<BitBoardMove>::empty().contains(m));
    } else {
        let head = if crate::piece_move::check_status_of(color, move_result(bb, ms[0])) == CheckStatus::NoCheck {
            seq![ms[0]]
        } else {
            Seq::empty()
        };
        lemma_in_concat(head, safe_king_moves(color, ms.drop_first(), bb), m);
        if head.contains(m) {
            assert(head[0] == m);
        } else {
            lemma_safe_king_moves(color, ms.drop_first(), bb, m);
        }
    }
}

/// A king move among the legal moves of `pm` to the squares of `b` leaves the
/// king of `color` out of check.
proof fn lemma_targets_king_safe(color: Color, pm: PieceMoves, b: u64, bb: BitBoardsWhiteAndBlack, m: BitBoardMove)
    requires
        targets_moves(color, pm, b, bb).contains(m),
        m.type_piece == TypePiece::King,
    ensures
        crate::piece_move::check_status_of(color, move_result(bb, m)) == CheckStatus::NoCheck,
    decreases b,
{
    if b == 0 {
        assert(!Seq::<BitBoardMove>::empty().contains(m));
    } else {
        lemma_clear_lowest(b);
        let end = BitIndex(u64_trailing_zeros(b) as u8);
        let first = target_moves(color, pm, end, bb);
        lemma_in_concat(first, targets_moves(color, pm, b & ((b - 1) as u64), bb), m);
        if first.contains(m) {
            let ms = board_moves(color, pm.type_piece, pm.index, end, bb);
            if pm.type_piece == TypePiece::King {
                lemma_safe_king_moves(color, ms, bb, m);
            } else {
                let k = choose|k: int| 0 <= k < ms.len() && ms[k] == m;
                assert(ms[k].type_piece == pm.type_piece);
            }
        } else {
            lemma_targets_king_safe(color, pm, b & ((b - 1) as u64), bb, m);
        }
    }
}

/// Every king move of `legal_moves` leaves the king of `color` out of check:
/// so every king move that `gen_moves_for_all` gives does.
pub proof fn lemma_legal_king_moves_safe(color: Color, l: Seq<PieceMoves>, bb: BitBoardsWhiteAndBlack, m: BitBoardMove)
    requires
        legal_moves(color, l, bb).contains(m),
        m.type_piece == TypePiece::King,
    ensures
        crate::piece_move::check_status_of(color, move_result(bb, m)) == CheckStatus::NoCheck,
    decreases l.len(),
{
    if l.len() == 0 {
        assert(!Seq::<BitBoardMove>::empty().contains(m));
    } else {
        lemma_in_concat(targets_moves(color, l[0], l[0].moves.0, bb), legal_moves(color, l.drop_first(), bb), m);
        if targets_moves(color, l[0], l[0].moves.0, bb).contains(m) {
            lemma_targets_king_safe(color, l[0], l[0].moves.0, bb, m);
        } else {
            lemma_legal_king_moves_safe(color, l.drop_first(), bb, m);
        }
    }
}

/// A king entry stands on a king square, none of its targets is a king square,
/// and a target two columns away (a castle) leaves room for the rook.
pub open spec fn king_entry_ok(pm: PieceMoves, king: u64) -> bool {
    &&& bit(king, pm.index.0 as int)
    &&& pm.moves.0 & king == 0
    &&& forall|e: int|
        #![trigger bit(pm.moves.0, e)]
        bit(pm.moves.0, e) && (e == pm.index.0 + 2 || e == pm.index.0 - 2) ==> 2 <= e <= 62
}

/// An entry the conversion can play: on the board, and a sound king entry.
pub open spec fn entry_ok(color: Color, pm: PieceMoves, bb: BitBoardsWhiteAndBlack) -> bool {
    &&& pm.index.0 < 64
    &&& pm.type_piece == TypePiece::King ==> king_entry_ok(pm, bb.side(color).king.bitboard.0)
}

/// Every entry of `l` is one the conversion can play.
pub open spec fn entries_ok(color: Color, l: Seq<PieceMoves>, bb: BitBoardsWhiteAndBlack) -> bool {
    forall|k: int| 0 <= k < l.len() ==> entry_ok(color, #[trigger] l[k], bb)
}

/// A king move of `color` from a king square to a square without a king leaves a king.
pub proof fn lemma_king_stays(bb: BitBoardsWhiteAndBlack, m: BitBoardMove)
    requires
        move_wf(m),
        m.type_piece == TypePiece::King,
        m.promotion is None,
        bit(bb.side(m.color).king.bitboard.0, m.start.0 as int),
        !bit(bb.side(m.color).king.bitboard.0, m.end.0 as int),
    ensures
        move_result(bb, m).side(m.color).king.bitboard.0 != 0,
{
    let k = bb.side(m.color).king.bitboard.0;
    let s = m.start.0 as u64;
    let e = m.end.0 as u64;
    assert((k ^ ((1u64 << s) | (1u64 << e))) != 0u64) by (bit_vector)
        requires
            e < 64,
            s < 64,
            (k >> e) & 1u64 != 1u64,
    ;
}

/// Keeps the king moves of `ms` after which the king of `color` is not in check.
fn keep_safe_king_moves(
    color: Color,
    ms: Vec<BitBoardMove>,
    bit_boards_white_and_black: &BitBoardsWhiteAndBlack,
    out: &mut Vec<BitBoardMove>,
)
    requires
        forall|j: int|
            0 <= j < ms@.len() ==> move_wf(#[trigger] ms@[j]) && move_result(
                *bit_boards_white_and_black,
                ms@[j],
            ).side(color).king.bitboard.0 != 0,
    ensures
        final(out)@ == old(out)@ + safe_king_moves(color, ms@, *bit_boards_white_and_black),
{
    let ghost bb = *bit_boards_white_and_black;
    let mut i: usize = 0;
    proof {
        assert(ms@.subrange(0, ms@.len() as int) =~= ms@);
    }
    while i < ms.len()
        invariant
            i <= ms@.len(),
            bb == *bit_boards_white_and_black,
            forall|j: int|
                0 <= j < ms@.len() ==> move_wf(#[trigger] ms@[j]) && move_result(bb, ms@[j]).side(
                    color,
                ).king.bitboard.0 != 0,
            out@ + safe_king_moves(color, ms@.subrange(i as int, ms@.len() as int), bb) == old(out)@
                + safe_king_moves(color, ms@, bb),
        decreases ms@.len() - i,
    {
        let ghost before = out@;
        let m = ms[i];
        proof {
            let rest = ms@.subrange(i as int, ms@.len() as int);
            assert(rest.drop_first() =~= ms@.subrange(i + 1, ms@.len() as int));
            assert(rest[0] == m);
        }
        let updated_board = bit_boards_white_and_black.move_piece(&m);
        if crate::piece_move::check_status(&color, &updated_board) == CheckStatus::NoCheck {
            out.push(m);
        }
        proof {
            let rest = ms@.subrange(i as int, ms@.len() as int);
            assert(out@ + safe_king_moves(color, ms@.subrange(i + 1, ms@.len() as int), bb) =~= before
                + safe_king_moves(color, rest, bb));
        }
        i = i + 1;
    }
}

/// Appends the legal board moves of the piece of `pm` going to `to`.
fn push_target_moves(
    color: Color,
    pm: &PieceMoves,
    to: BitIndex,
    bit_boards_white_and_black: &BitBoardsWhiteAndBlack,
    out: &mut Vec<BitBoardMove>,
)
    requires
        to.0 < 64,
        bit(pm.moves.0, to.0 as int),
        bit_boards_white_and_black.side(color).king.bitboard.0 != 0,
        entry_ok(color, *pm, *bit_boards_white_and_black),
    ensures
        final(out)@ == old(out)@ + target_moves(color, *pm, to, *bit_boards_white_and_black),
{
    let ghost bb = *bit_boards_white_and_black;
    let ghost king = bb.side(color).king.bitboard.0;
    let mut bitboard_move = BitBoardMove::from(
        color,
        pm.type_piece(),
        pm.index(),
        to,
        bit_boards_white_and_black,
    );
    if pm.type_piece() == TypePiece::King {
        proof {
            let m = bitboard_move@[0];
            let t = to.0 as u64;
            let mv = pm.moves.0;
            crate::bits::lemma_bit_outside_mask(mv, king, t);
            assert(bit(mv, to.0 as int));
            assert(move_wf(m));
            lemma_king_stays(bb, m);
            assert forall|j: int| 0 <= j < bitboard_move@.len() implies move_wf(
                #[trigger] bitboard_move@[j],
            ) && move_result(bb, bitboard_move@[j]).side(color).king.bitboard.0 != 0 by {
                assert(j == 0);
            }
        }
        keep_safe_king_moves(color, bitboard_move, bit_boards_white_and_black, out);
    } else {
        if !control_discover_king_no_check(
            &color,
            pm.type_piece(),
            pm.index(),
            to,
            bit_boards_white_and_black,
        ) {
            out.append(&mut bitboard_move);
        }
    }
}

/// The board moves of a list of piece moves, keeping the legal ones (see
/// `legal_moves`).
pub fn moves2bitboard_moves(
    color: Color,
    moves: Vec<PieceMoves>,
    bit_boards_white_and_black: &BitBoardsWhiteAndBlack,
) -> (r: Vec<BitBoardMove>)
    requires
        bit_boards_white_and_black.side(color).king.bitboard.0 != 0,
        entries_ok(color, moves@, *bit_boards_white_and_black),
    ensures
        r@ == legal_moves(color, moves@, *bit_boards_white_and_black),
{
    let ghost bb = *bit_boards_white_and_black;
    let ghost king = bb.side(color).king.bitboard.0;
    let mut bitboard_moves: Vec<BitBoardMove> = Vec::new();
    let mut i: usize = 0;
    proof {
        assert(moves@.subrange(0, moves@.len() as int) =~= moves@);
    }
    while i < moves.len()
        invariant
            i <= moves@.len(),
            bb == *bit_boards_white_and_black,
            king == bb.side(color).king.bitboard.0,
            king != 0,
            entries_ok(color, moves@, bb),
            bitboard_moves@ + legal_moves(color, moves@.subrange(i as int, moves@.len() as int), bb)
                == legal_moves(color, moves@, bb),
        decreases moves@.len() - i,
    {
        let piece_moves = moves[i];
        let ghost tail = legal_moves(color, moves@.subrange(i + 1, moves@.len() as int), bb);
        proof {
            let rest = moves@.subrange(i as int, moves@.len() as int);
            assert(rest.drop_first() =~= moves@.subrange(i + 1, moves@.len() as int));
            assert(rest[0] == piece_moves);
            assert(entry_ok(color, moves@[i as int], bb));
        }
        let mut it = piece_moves.moves().iter();
        proof {
            let mv = piece_moves.moves.0;
            crate::bits::lemma_u64_algebra();
        }
        while it.bitboard.0 != 0
            invariant
                bb == *bit_boards_white_and_black,
                king == bb.side(color).king.bitboard.0,
                king != 0,
                entry_ok(color, piece_moves, bb),
                it.bitboard.0 & !piece_moves.moves.0 == 0,
                bitboard_moves@ + (targets_moves(color, piece_moves, it.bitboard.0, bb) + tail)
                    == legal_moves(color, moves@, bb),
            decreases it.bitboard.0,
        {
            let ghost b = it.bitboard.0;
            let ghost before = bitboard_moves@;
            proof {
                lemma_clear_lowest(b);
                lemma_lowest_in(b);
                lemma_clear_lowest_mask(b, !piece_moves.moves.0);
            }
            match it.next() {
                Some(to) => {
                    let ghost tm = target_moves(color, piece_moves, to, bb);
                    proof {
                        let t = to.0 as u64;
                        let mv = piece_moves.moves.0;
                        crate::bits::lemma_bit_outside_mask(b, !mv, t);
                        crate::bits::lemma_u64_bits();
                        assert((mv >> t) & 1u64 == 1u64);
                    }
                    push_target_moves(color, &piece_moves, to, bit_boards_white_and_black, &mut bitboard_moves);
                    proof {
                        assert(bitboard_moves@ == before + tm);
                        assert(targets_moves(color, piece_moves, b, bb) == tm + targets_moves(
                            color,
                            piece_moves,
                            it.bitboard.0,
                            bb,
                        ));
                        assert(bitboard_moves@ + (targets_moves(color, piece_moves, it.bitboard.0, bb) + tail)
                            =~= before + (targets_moves(color, piece_moves, b, bb) + tail));
                    }
                },
                None => {},
            }
        }
        proof {
            assert(targets_moves(color, piece_moves, 0, bb) == Seq::<BitBoardMove>::empty());
            assert(bitboard_moves@ + legal_moves(color, moves@.subrange(i + 1, moves@.len() as int), bb)
                =~= bitboard_moves@ + (targets_moves(color, piece_moves, 0, bb) + tail));
        }
        i = i + 1;
    }
    proof {
        assert(moves@.subrange(moves@.len() as int, moves@.len() as int) =~= Seq::<PieceMoves>::empty());
        assert(legal_moves(color, Seq::<PieceMoves>::empty(), bb) == Seq::<BitBoardMove>::empty());
        assert(bitboard_moves@ =~= bitboard_moves@ + legal_moves(color, Seq::<PieceMoves>::empty(), bb));
    }
    bitboard_moves
}

/// Square `j` of `a | b` is set when it is set in `a` or in `b`.
pub proof fn lemma_bit_or_at(a: u64, b: u64, j: int)
    ensures
        bit(a | b, j) == (bit(a, j) || bit(b, j)),
{
    if 0 <= j < 64 {
        crate::bits::lemma_bit_or(a, b, j as u64);
    }
}

/// A one-step board holds at most the square of that step.
proof fn lemma_bit_step(i: int, dr: int, dc: int, j: int)
    requires
        0 <= i < 64,
        bit(step_bit(i, dr, dc), j),
    ensures
        j == step_to(i, dr, dc),
{
    let t = step_to(i, dr, dc);
    if t >= 0 {
        assert(t < 64) by (nonlinear_arith)
            requires
                t == (i / 8 + dr) * 8 + (i % 8 + dc),
                0 <= i / 8 + dr < 8,
                0 <= i % 8 + dc < 8,
        ;
        crate::bits::lemma_bit_single(t as u64, j as u64);
    } else {
        crate::bits::lemma_u64_bits();
        assert((0u64 >> (j as u64)) & 1u64 != 1u64);
    }
}

/// No square next to a square is two squares away from it in index.
pub proof fn lemma_king_reach_not_two(i: int, j: int)
    requires
        0 <= i < 64,
        bit(king_reach(i), j),
    ensures
        j != i + 2,
        j != i - 2,
{
    let s1 = step_bit(i, 1, -1);
    let s2 = step_bit(i, 1, 0);
    let s3 = step_bit(i, 1, 1);
    let s4 = step_bit(i, 0, -1);
    let s5 = step_bit(i, 0, 1);
    let s6 = step_bit(i, -1, -1);
    let s7 = step_bit(i, -1, 0);
    let s8 = step_bit(i, -1, 1);
    lemma_bit_or_at(s1 | s2 | s3 | s4 | s5 | s6 | s7, s8, j);
    lemma_bit_or_at(s1 | s2 | s3 | s4 | s5 | s6, s7, j);
    lemma_bit_or_at(s1 | s2 | s3 | s4 | s5, s6, j);
    lemma_bit_or_at(s1 | s2 | s3 | s4, s5, j);
    lemma_bit_or_at(s1 | s2 | s3, s4, j);
    lemma_bit_or_at(s1 | s2, s3, j);
    lemma_bit_or_at(s1, s2, j);
    if bit(s1, j) { lemma_bit_step(i, 1, -1, j); }
    if bit(s2, j) { lemma_bit_step(i, 1, 0, j); }
    if bit(s3, j) { lemma_bit_step(i, 1, 1, j); }
    if bit(s4, j) { lemma_bit_step(i, 0, -1, j); }
    if bit(s5, j) { lemma_bit_step(i, 0, 1, j); }
    if bit(s6, j) { lemma_bit_step(i, -1, -1, j); }
    if bit(s7, j) { lemma_bit_step(i, -1, 0, j); }
    if bit(s8, j) { lemma_bit_step(i, -1, 1, j); }
}

/// The castle targets are the king's end squares of the castles, between the
/// third and the second-to-last square.
proof fn lemma_castle_targets_range(
    color: Color,
    own: crate::bitboards::BitBoards,
    opp: crate::bitboards::BitBoards,
    ks: Option<(BitIndex, BitIndex)>,
    qs: Option<(BitIndex, BitIndex, BitIndex)>,
    e: int,
)
    requires
        ks matches Some((a, b)) ==> 2 <= b.0 <= 62,
        qs matches Some((a, b, c)) ==> 2 <= b.0 <= 62,
        bit(castle_targets(color, own, opp, ks, qs), e),
    ensures
        2 <= e <= 62,
{
    let occupied = own.all() | opp.all();
    let ct = castle_targets(color, own, opp, ks, qs);
    let short = match ks {
        Some((s1, s2)) => if occupied & (single(s1.0 as int) | single(s2.0 as int)) == 0
            && crate::piece_move::attackers_empty(attackers_of(s1.0 as int, color, own, opp))
            && crate::piece_move::attackers_empty(attackers_of(s2.0 as int, color, own, opp)) {
            single(s2.0 as int)
        } else {
            0u64
        },
        None => 0u64,
    };
    let long = match qs {
        Some((s1, s2, s3)) => if occupied & (single(s1.0 as int) | single(s2.0 as int) | single(
            s3.0 as int,
        )) == 0 && crate::piece_move::attackers_empty(attackers_of(s1.0 as int, color, own, opp))
            && crate::piece_move::attackers_empty(attackers_of(s2.0 as int, color, own, opp))
            && crate::piece_move::attackers_empty(attackers_of(s3.0 as int, color, own, opp)) {
            single(s2.0 as int)
        } else {
            0u64
        },
        None => 0u64,
    };
    assert(ct == short | long);
    lemma_bit_or_at(short, long, e);
    crate::bits::lemma_u64_bits();
    assert((0u64 >> (e as u64)) & 1u64 != 1u64);
    match ks {
        Some((s1, s2)) => {
            if bit(single(s2.0 as int), e) {
                crate::bits::lemma_bit_single(s2.0 as u64, e as u64);
            }
        },
        None => {},
    }
    match qs {
        Some((s1, s2, s3)) => {
            if bit(single(s2.0 as int), e) {
                crate::bits::lemma_bit_single(s2.0 as u64, e as u64);
            }
        },
        None => {},
    }
}

/// Entries lists joined end to end stay playable.
pub proof fn lemma_entries_append(color: Color, a: Seq<PieceMoves>, b: Seq<PieceMoves>, bb: BitBoardsWhiteAndBlack)
    requires
        entries_ok(color, a, bb),
        entries_ok(color, b, bb),
    ensures
        entries_ok(color, a + b, bb),
{
    assert forall|k: int| 0 <= k < (a + b).len() implies entry_ok(color, #[trigger] (a + b)[k], bb) by {
        if k < a.len() {
            assert((a + b)[k] == a[k]);
        } else {
            assert((a + b)[k] == b[k - a.len()]);
        }
    }
}

/// The moves of pieces other than the king are playable.
proof fn lemma_list_ok_non_king(color: Color, b: u64, t: TypePiece, f: spec_fn(int) -> u64, bb: BitBoardsWhiteAndBlack)
    requires
        t != TypePiece::King,
    ensures
        entries_ok(color, moves_list(b, t, f), bb),
{
    lemma_moves_list_elems(b, t, f);
}

/// The king moves of a side, castles included, are playable when the castle
/// targets leave room for the rook.
proof fn lemma_list_ok_king(color: Color, bb: BitBoardsWhiteAndBlack, castle: u64)
    requires
        forall|e: int| #[trigger] bit(castle, e) ==> 2 <= e <= 62,
    ensures
        entries_ok(
            color,
            moves_list(bb.side(color).king.bitboard.0, TypePiece::King, king_targets(bb.side(color).all(), castle)),
            bb,
        ),
{
    let own = bb.side(color);
    let kk = own.king.bitboard.0;
    let o = own.all();
    let f = king_targets(o, castle);
    let l = moves_list(kk, TypePiece::King, f);
    lemma_moves_list_elems(kk, TypePiece::King, f);
    assert forall|k: int| 0 <= k < l.len() implies entry_ok(color, #[trigger] l[k], bb) by {
        let m = l[k];
        let i = m.index.0 as int;
        let y = king_reach(i);
        let (r, bi, n, q, p) = (own.rooks.bitboard.0, own.bishops.bitboard.0, own.knights.bitboard.0,
            own.queens.bitboard.0, own.pawns.bitboard.0);
        assert(m.moves.0 == ((y & !o) | castle) & !o);
        crate::bits::lemma_in_union(r, bi, n, kk, q, p);
        crate::bits::lemma_excluded((y & !o) | castle, o, kk);
        assert forall|e: int|
            #![trigger bit(m.moves.0, e)]
            bit(m.moves.0, e) && (e == m.index.0 + 2 || e == m.index.0 - 2) implies 2 <= e <= 62 by {
            let eu = e as u64;
            let mv = m.moves.0;
            crate::bits::lemma_u64_bits();
            assert((((y & !o) | castle) >> eu) & 1u64 == 1u64);
            assert(((y & !o) >> eu) & 1u64 == 1u64 || (castle >> eu) & 1u64 == 1u64);
            assert((y >> eu) & 1u64 == 1u64 || (castle >> eu) & 1u64 == 1u64);
            assert(bit(y, e) || bit(castle, e));
            if bit(y, e) {
                lemma_king_reach_not_two(i, e);
            }
        }
    }
}

/// A list of at most one entry.
pub open spec fn opt_seq(m: Option<PieceMoves>) -> Seq<PieceMoves> {
    match m {
        Some(v) => seq![v],
        None => Seq::empty(),
    }
}

/// The step moves (no castle) of the king on the lowest king square are playable.
proof fn lemma_king_step_ok(color: Color, bb: BitBoardsWhiteAndBlack, y: u64)
    requires
        bb.side(color).king.bitboard.0 != 0,
        y & bb.side(color).king.bitboard.0 == 0,
        forall|e: int| #[trigger] bit(y, e) ==> bit(king_reach(u64_trailing_zeros(bb.side(color).king.bitboard.0) as int), e),
    ensures
        entries_ok(
            color,
            opt_seq(piece_moves_opt(
                TypePiece::King,
                BitIndex(u64_trailing_zeros(bb.side(color).king.bitboard.0) as u8),
                y,
            )),
            bb,
        ),
{
    let kk = bb.side(color).king.bitboard.0;
    lemma_lowest_in(kk);
    let i = u64_trailing_zeros(kk) as int;
    let l = opt_seq(piece_moves_opt(TypePiece::King, BitIndex(i as u8), y));
    assert forall|k: int| 0 <= k < l.len() implies entry_ok(color, #[trigger] l[k], bb) by {
        assert forall|e: int|
            #![trigger bit(y, e)]
            bit(y, e) && (e == i + 2 || e == i - 2) implies 2 <= e <= 62 by {
            lemma_king_reach_not_two(i, e);
        }
    }
}

/// Properties of an entry that the mask filter keeps: on the board, not a king.
pub open spec fn non_king_entry(pm: PieceMoves) -> bool {
    pm.index.0 < 64 && pm.type_piece != TypePiece::King
}

/// Filtering by a mask keeps entries on the board and not kings.
proof fn lemma_mask_filter_non_king(l: Seq<PieceMoves>, mask: u64)
    requires
        forall|k: int| 0 <= k < l.len() ==> non_king_entry(#[trigger] l[k]),
    ensures
        forall|k: int| 0 <= k < mask_filter(l, mask).len() ==> non_king_entry(#[trigger] mask_filter(l, mask)[k]),
    decreases l.len(),
{
    if l.len() > 0 {
        let t = l.drop_first();
        assert forall|k: int| 0 <= k < t.len() implies non_king_entry(#[trigger] t[k]) by {
            assert(t[k] == l[k + 1]);
        }
        lemma_mask_filter_non_king(t, mask);
        let h = if l[0].moves.0 & mask != 0 {
            seq![PieceMoves { moves: BitBoard(l[0].moves.0 & mask), ..l[0] }]
        } else {
            Seq::empty()
        };
        let r = mask_filter(l, mask);
        assert(r == h + mask_filter(t, mask));
        assert forall|k: int| 0 <= k < r.len() implies non_king_entry(#[trigger] r[k]) by {
            if k < h.len() {
                assert(r[k] == h[k]);
            } else {
                assert(r[k] == mask_filter(t, mask)[k - h.len()]);
            }
        }
    }
}

/// Lists of moves of pieces other than the king hold non-king entries.
proof fn lemma_list_non_king(b: u64, t: TypePiece, f: spec_fn(int) -> u64)
    requires
        t != TypePiece::King,
    ensures
        forall|k: int| 0 <= k < moves_list(b, t, f).len() ==> non_king_entry(#[trigger] moves_list(b, t, f)[k]),
{
    lemma_moves_list_elems(b, t, f);
}

/// An attacker kind with its board, turned into the capture of square `a`, is
/// playable: on the board and, for the king, a capture next to it.
pub open spec fn capture_ok(color: Color, bb: BitBoardsWhiteAndBlack, e: (TypePiece, BitBoard), a: int) -> bool {
    e.1.0 != 0 ==> entry_ok(
        color,
        PieceMoves { type_piece: e.0, index: BitIndex(u64_trailing_zeros(e.1.0) as u8), moves: BitBoard(single(a)) },
        bb,
    )
}

/// The captures of a checking piece are playable when each attacker kind is.
proof fn lemma_captures_ok(color: Color, bb: BitBoardsWhiteAndBlack, s: Seq<(TypePiece, BitBoard)>, a: int)
    requires
        forall|j: int| 0 <= j < s.len() ==> capture_ok(color, bb, #[trigger] s[j], a),
    ensures
        entries_ok(color, captures_from(s, a), bb),
    decreases s.len(),
{
    if s.len() > 0 {
        let t = s.drop_first();
        assert forall|j: int| 0 <= j < t.len() implies capture_ok(color, bb, #[trigger] t[j], a) by {
            assert(t[j] == s[j + 1]);
        }
        lemma_captures_ok(color, bb, t, a);
        assert(capture_ok(color, bb, s[0], a));
        let h = if s[0].1.0 != 0 {
            seq![PieceMoves { type_piece: s[0].0, index: BitIndex(u64_trailing_zeros(s[0].1.0) as u8), moves: BitBoard(single(a)) }]
        } else {
            Seq::empty()
        };
        assert(captures_from(s, a) == h + captures_from(t, a));
        assert(entries_ok(color, h, bb));
        lemma_entries_append(color, h, captures_from(t, a), bb);
    }
}

/// Non-king entries lists joined end to end hold non-king entries.
proof fn lemma_non_king_append(a: Seq<PieceMoves>, b: Seq<PieceMoves>)
    requires
        forall|k: int| 0 <= k < a.len() ==> non_king_entry(#[trigger] a[k]),
        forall|k: int| 0 <= k < b.len() ==> non_king_entry(#[trigger] b[k]),
    ensures
        forall|k: int| 0 <= k < (a + b).len() ==> non_king_entry(#[trigger] (a + b)[k]),
{
    assert forall|k: int| 0 <= k < (a + b).len() implies non_king_entry(#[trigger] (a + b)[k]) by {
        if k < a.len() {
            assert((a + b)[k] == a[k]);
        } else {
            assert((a + b)[k] == b[k - a.len()]);
        }
    }
}

/// The piece moves the generator starts from, before legality: with no check,
/// the moves of rooks, bishops, knights, king (castles included), queens and
/// pawns; in a simple check by the piece on `attacker_index`, the king steps, the
/// captures of that piece and the blocks; in a double check, the king steps.
pub open spec fn candidate_moves(
    bb: BitBoardsWhiteAndBlack,
    color: Color,
    check: CheckStatus,
    ep: Option<BitIndex>,
    status: BitPositionStatus,
) -> Seq<PieceMoves> {
    let own = bb.side(color);
    let opp = bb.side(opposite(color));
    let o = own.all();
    let x = opp.all();
    match check {
        CheckStatus::NoCheck => {
            let castle = castle_targets(
                color,
                own,
                opp,
                king_side_squares(status, o, color),
                queen_side_squares(status, o, color),
            );
            moves_list(own.rooks.bitboard.0, TypePiece::Rook, rook_targets(o, x)) + moves_list(
                own.bishops.bitboard.0,
                TypePiece::Bishop,
                bishop_targets(o, x),
            ) + moves_list(own.knights.bitboard.0, TypePiece::Knight, knight_targets(o)) + moves_list(
                own.king.bitboard.0,
                TypePiece::King,
                king_targets(o, castle),
            ) + moves_list(own.queens.bitboard.0, TypePiece::Queen, queen_targets_fn(o, x))
                + moves_list(own.pawns.bitboard.0, TypePiece::Pawn, pawn_targets(color, o, x, ep))
        },
        CheckStatus::Simple { attacker, attacker_index } => simple_check_moves(
            color,
            attacker_index.0 as int,
            own,
            opp,
            ep,
        ),
        CheckStatus::Double => {
            let ki = u64_trailing_zeros(own.king.bitboard.0) as int;
            opt_seq(piece_moves_opt(TypePiece::King, BitIndex(ki as u8), king_reach(ki) & !o))
        },
    }
}

/// What the generator needs of the position: a king for `color`, no pawn of
/// `color` on its last row, an en passant square on the board, and for a simple
/// check a checking square on the board that is not the king's own.
pub open spec fn gen_ready(bb: BitBoardsWhiteAndBlack, color: Color, check: CheckStatus, ep: Option<BitIndex>) -> bool {
    let king = bb.side(color).king.bitboard.0;
    &&& king != 0
    &&& bb.side(color).pawns.bitboard.0 & pawn_forbidden(color) == 0
    &&& ep matches Some(e) ==> e.0 < 64
    &&& check matches CheckStatus::Simple { attacker_index, .. } ==> attacker_index.0 < 64 && !bit(
        king,
        attacker_index.0 as int,
    )
}

/// The candidate moves in a simple check by the piece on `a` are playable.
#[verifier::rlimit(40)]
proof fn lemma_simple_check_ok(bb: BitBoardsWhiteAndBlack, color: Color, a: int, ep: Option<BitIndex>)
    requires
        bb.side(color).king.bitboard.0 != 0,
        0 <= a < 64,
        !bit(bb.side(color).king.bitboard.0, a),
    ensures
        entries_ok(color, simple_check_moves(color, a, bb.side(color), bb.side(opposite(color)), ep), bb),
{
    let own = bb.side(color);
    let opp = bb.side(opposite(color));
    let o = own.all();
    let x = opp.all();
    let kk = own.king.bitboard.0;
    let (r, bi, n, q, p) = (own.rooks.bitboard.0, own.bishops.bitboard.0, own.knights.bitboard.0,
        own.queens.bitboard.0, own.pawns.bitboard.0);
    lemma_lowest_in(kk);
    let ki = u64_trailing_zeros(kk) as int;
    let kr = king_reach(ki);
    let ep2 = ep;
    let y = (kr & !o) & !o;
    crate::bits::lemma_in_union(r, bi, n, kk, q, p);
    crate::bits::lemma_excluded(kr & !o, o, kk);
    assert forall|e: int| #[trigger] bit(y, e) implies bit(kr, e) by {
        let eu = e as u64;
        crate::bits::lemma_u64_bits();
        assert(((kr & !o) >> eu) & 1u64 == 1u64);
    }
    lemma_king_step_ok(color, bb, y);
    let king_part = match piece_moves_opt(TypePiece::King, BitIndex(ki as u8), y) {
        Some(m) => seq![m],
        None => Seq::empty(),
    };
    assert(king_part == opt_seq(piece_moves_opt(TypePiece::King, BitIndex(ki as u8), y)));
    let att = attackers_of(a, opposite(color), opp, own);
    let s = attackers_seq(att);
    assert forall|j: int| 0 <= j < s.len() implies capture_ok(color, bb, #[trigger] s[j], a) by {
        let b = s[j].1.0;
        if b != 0 {
            lemma_lowest_in(b);
            if j == 4 {
                let idx = u64_trailing_zeros(b) as u64;
                let xo = x;
                let kra = king_reach(a);
                crate::bits::lemma_u64_bits();
                assert(((kra & !xo) >> idx) & 1u64 == 1u64);
                assert((kk >> idx) & 1u64 == 1u64 && (kra >> idx) & 1u64 == 1u64);
                crate::bits::lemma_bit_and_single(kk, a as u64);
                let pm = PieceMoves { type_piece: s[j].0, index: BitIndex(idx as u8), moves: BitBoard(single(a)) };
                assert forall|e: int|
                    #![trigger bit(pm.moves.0, e)]
                    bit(pm.moves.0, e) && (e == pm.index.0 + 2 || e == pm.index.0 - 2) implies 2 <= e <= 62 by {
                    crate::bits::lemma_bit_single(a as u64, e as u64);
                    lemma_king_reach_not_two(a, idx as int);
                }
                assert(single(a) & kk == 0u64);
            }
        }
    }
    lemma_captures_ok(color, bb, s, a);
    let nk = non_king_moves(color, own, opp, ep);
    let m1 = moves_list(r, TypePiece::Rook, rook_targets(o, x));
    let m2 = moves_list(bi, TypePiece::Bishop, bishop_targets(o, x));
    let m3 = moves_list(q, TypePiece::Queen, queen_targets_fn(o, x));
    let m4 = moves_list(n, TypePiece::Knight, knight_targets(o));
    let m5 = moves_list(p, TypePiece::Pawn, pawn_targets(color, o, x, ep));
    lemma_list_non_king(r, TypePiece::Rook, rook_targets(o, x));
    lemma_list_non_king(bi, TypePiece::Bishop, bishop_targets(o, x));
    lemma_list_non_king(q, TypePiece::Queen, queen_targets_fn(o, x));
    lemma_list_non_king(n, TypePiece::Knight, knight_targets(o));
    lemma_list_non_king(p, TypePiece::Pawn, pawn_targets(color, o, x, ep));
    lemma_non_king_append(m1, m2);
    lemma_non_king_append(m1 + m2, m3);
    lemma_non_king_append(m1 + m2 + m3, m4);
    lemma_non_king_append(m1 + m2 + m3 + m4, m5);
    assert(nk == m1 + m2 + m3 + m4 + m5);
    let blocks = block_moves(color, a, own, opp, ep);
    assert forall|mask: u64| true implies entries_ok(color, #[trigger] mask_filter(nk, mask), bb) by {
        lemma_mask_filter_non_king(nk, mask);
        assert forall|k: int| 0 <= k < mask_filter(nk, mask).len() implies entry_ok(
            color,
            #[trigger] mask_filter(nk, mask)[k],
            bb,
        ) by {
            assert(non_king_entry(mask_filter(nk, mask)[k]));
        }
    }
    assert(entries_ok(color, blocks, bb));
    lemma_entries_append(color, king_part, captures_from(s, a), bb);
    lemma_entries_append(color, king_part + captures_from(s, a), blocks, bb);
}

/// The candidate moves of a ready position are playable.
proof fn lemma_candidates_ok(
    bb: BitBoardsWhiteAndBlack,
    color: Color,
    check: CheckStatus,
    ep: Option<BitIndex>,
    status: BitPositionStatus,
)
    requires
        gen_ready(bb, color, check, ep),
    ensures
        entries_ok(color, candidate_moves(bb, color, check, ep, status), bb),
{
    let own = bb.side(color);
    let opp = bb.side(opposite(color));
    let o = own.all();
    let x = opp.all();
    let kk = own.king.bitboard.0;
    let (r, bi, n, q, p) = (own.rooks.bitboard.0, own.bishops.bitboard.0, own.knights.bitboard.0,
        own.queens.bitboard.0, own.pawns.bitboard.0);
    lemma_lowest_in(kk);
    let ki = u64_trailing_zeros(kk) as int;
    let kr = king_reach(ki);
    match check {
        CheckStatus::NoCheck => {
            let ks = king_side_squares(status, o, color);
            let qs = queen_side_squares(status, o, color);
            let castle = castle_targets(color, own, opp, ks, qs);
            assert forall|e: int| #[trigger] bit(castle, e) implies 2 <= e <= 62 by {
                lemma_castle_targets_range(color, own, opp, ks, qs, e);
            }
            let l1 = moves_list(r, TypePiece::Rook, rook_targets(o, x));
            let l2 = moves_list(bi, TypePiece::Bishop, bishop_targets(o, x));
            let l3 = moves_list(n, TypePiece::Knight, knight_targets(o));
            let l4 = moves_list(kk, TypePiece::King, king_targets(o, castle));
            let l5 = moves_list(q, TypePiece::Queen, queen_targets_fn(o, x));
            let l6 = moves_list(p, TypePiece::Pawn, pawn_targets(color, o, x, ep));
            lemma_list_ok_non_king(color, r, TypePiece::Rook, rook_targets(o, x), bb);
            lemma_list_ok_non_king(color, bi, TypePiece::Bishop, bishop_targets(o, x), bb);
            lemma_list_ok_non_king(color, n, TypePiece::Knight, knight_targets(o), bb);
            lemma_list_ok_king(color, bb, castle);
            lemma_list_ok_non_king(color, q, TypePiece::Queen, queen_targets_fn(o, x), bb);
            lemma_list_ok_non_king(color, p, TypePiece::Pawn, pawn_targets(color, o, x, ep), bb);
            lemma_entries_append(color, l1, l2, bb);
            lemma_entries_append(color, l1 + l2, l3, bb);
            lemma_entries_append(color, l1 + l2 + l3, l4, bb);
            lemma_entries_append(color, l1 + l2 + l3 + l4, l5, bb);
            lemma_entries_append(color, l1 + l2 + l3 + l4 + l5, l6, bb);
        },
        CheckStatus::Simple { attacker, attacker_index } => {
            lemma_simple_check_ok(bb, color, attacker_index.0 as int, ep);
        },
        CheckStatus::Double => {
            let y = kr & !o;
            crate::bits::lemma_in_union(r, bi, n, kk, q, p);
            crate::bits::lemma_excluded(kr, o, kk);
            assert forall|e: int| #[trigger] bit(y, e) implies bit(kr, e) by {
                let eu = e as u64;
                crate::bits::lemma_u64_bits();
            }
            lemma_king_step_ok(color, bb, y);
        },
    }
}

/// The legal moves of a list joined end to end are those of each part, joined.
pub proof fn lemma_legal_moves_append(color: Color, a: Seq<PieceMoves>, b: Seq<PieceMoves>, bb: BitBoardsWhiteAndBlack)
    ensures
        legal_moves(color, a + b, bb) == legal_moves(color, a, bb) + legal_moves(color, b, bb),
    decreases a.len(),
{
    if a.len() == 0 {
        assert(a + b =~= b);
    } else {
        assert((a + b).drop_first() =~= a.drop_first() + b);
        assert((a + b)[0] == a[0]);
        lemma_legal_moves_append(color, a.drop_first(), b, bb);
        assert(legal_moves(color, a + b, bb) =~= legal_moves(color, a, bb) + legal_moves(color, b, bb));
    }
}

/// The en passant square given by reference, as a value.
pub open spec fn ep_of(e: Option<&BitIndex>) -> Option<BitIndex> {
    match e {
        Some(x) => Some(*x),
        None => None,
    }
}

/// The candidate moves of a side not in check.
fn gen_candidates_no_check(
    bb: &BitBoardsWhiteAndBlack,
    color: &Color,
    capture_en_passant: Option<&BitIndex>,
    bit_position_status: &BitPositionStatus,
) -> (r: Vec<PieceMoves>)
    requires
        gen_ready(*bb, *color, CheckStatus::NoCheck, ep_of(capture_en_passant)),
    ensures
        r@ == candidate_moves(*bb, *color, CheckStatus::NoCheck, ep_of(capture_en_passant), *bit_position_status),
{
    let bit_board = bb.bit_board(color);
    let bit_board_opponent = bb.bit_board(&color.switch());
    let can_castle_king_side = bit_position_status.can_castle_king_side(bit_board.concat_bit_boards(), color);
    let can_castle_queen_side = bit_position_status.can_castle_queen_side(bit_board.concat_bit_boards(), color);
    let mut moves_all: Vec<PieceMoves> = Vec::new();
    let mut moves = bit_board.rooks.gen_moves_no_check(color, bit_board, bit_board_opponent);
    moves_all.append(&mut moves);
    let mut moves = bit_board.bishops.gen_moves_no_check(color, bit_board, bit_board_opponent);
    moves_all.append(&mut moves);
    let mut moves = bit_board.knights.gen_moves_no_check(color, bit_board, bit_board_opponent);
    moves_all.append(&mut moves);
    let mut moves = bit_board.king.gen_moves_no_check(
        color,
        bit_board,
        bit_board_opponent,
        can_castle_king_side,
        can_castle_queen_side,
    );
    moves_all.append(&mut moves);
    let mut moves = bit_board.queens.gen_moves_no_check(color, bit_board, bit_board_opponent);
    moves_all.append(&mut moves);
    let mut moves = bit_board.pawns.gen_moves_no_check(color, bit_board, bit_board_opponent, capture_en_passant);
    moves_all.append(&mut moves);
    moves_all
}

/// Move generation for one side of a pair of boards.
pub trait GenMoves {
    /// The boards are in a state the generator handles for `color`, whose check
    /// status is `check`, with `ep` the en passant square.
    spec fn gen_ready_for(&self, color: Color, check: CheckStatus, ep: Option<BitIndex>) -> bool;

    /// `color` has a king on the boards.
    spec fn has_king(&self, color: Color) -> bool;

    /// The legal moves of `color`, given its check status.
    fn gen_moves_for_all(
        &self,
        color: &Color,
        check_status: CheckStatus,
        capture_en_passant: Option<&BitIndex>,
        bit_position_status: &BitPositionStatus,
    ) -> Vec<BitBoardMove>
        requires
            self.gen_ready_for(*color, check_status, ep_of(capture_en_passant)),
    ;

    /// Whether the king of `color` is in check, and by what.
    fn check_status(&self, color: &Color) -> CheckStatus
        requires
            self.has_king(*color),
    ;

    /// Whether `color` has a legal move.
    fn can_move(
        &self,
        color: &Color,
        check_status: CheckStatus,
        capture_en_passant: Option<&BitIndex>,
        bit_position_status: &BitPositionStatus,
    ) -> bool
        requires
            self.gen_ready_for(*color, check_status, ep_of(capture_en_passant)),
    ;
}

impl GenMoves for BitBoardsWhiteAndBlack {
    open spec fn gen_ready_for(&self, color: Color, check: CheckStatus, ep: Option<BitIndex>) -> bool {
        gen_ready(*self, color, check, ep)
    }

    open spec fn has_king(&self, color: Color) -> bool {
        self.side(color).king.bitboard.0 != 0
    }

    /// The legal moves of `color`, given its check status (see `candidate_moves`
    /// and `legal_moves`).
    fn gen_moves_for_all(
        &self,
        color: &Color,
        check_status: CheckStatus,
        capture_en_passant: Option<&BitIndex>,
        bit_position_status: &BitPositionStatus,
    ) -> (r: Vec<BitBoardMove>)
        ensures
            r@ == legal_moves(
                *color,
                candidate_moves(*self, *color, check_status, ep_of(capture_en_passant), *bit_position_status),
                *self,
            ),
    {
        let bit_board = self.bit_board(color);
        let bit_board_opponent = self.bit_board(&color.switch());
        let moves_all = match check_status {
            CheckStatus::NoCheck => gen_candidates_no_check(self, color, capture_en_passant, bit_position_status),
            CheckStatus::Simple { attacker: _, attacker_index } => gen_moves_for_all_simple_check(
                color,
                attacker_index,
                bit_board,
                bit_board_opponent,
                capture_en_passant,
            ),
            CheckStatus::Double => {
                proof {
                    lemma_lowest_in(bit_board.king.bitboard.0);
                }
                let index = bit_board.king().bitboard.index();
                let moves = gen_moves_for_king_except_castle(index, &bit_board.concat_bit_boards());
                if moves.empty() {
                    Vec::new()
                } else {
                    vec![PieceMoves { type_piece: TypePiece::King, index, moves }]
                }
            },
        };
        proof {
            lemma_candidates_ok(*self, *color, check_status, ep_of(capture_en_passant), *bit_position_status);
            if check_status is Double {
                assert(moves_all@ =~= candidate_moves(
                    *self,
                    *color,
                    check_status,
                    ep_of(capture_en_passant),
                    *bit_position_status,
                ));
            }
        }
        moves2bitboard_moves(*color, moves_all, self)
    }

    /// Whether `color` has a legal move: the same answer as a non-empty
    /// `gen_moves_for_all`, found kind by kind with no check.
    fn can_move(
        &self,
        color: &Color,
        check_status: CheckStatus,
        capture_en_passant: Option<&BitIndex>,
        bit_position_status: &BitPositionStatus,
    ) -> (r: bool)
        ensures
            r == (legal_moves(
                *color,
                candidate_moves(*self, *color, check_status, ep_of(capture_en_passant), *bit_position_status),
                *self,
            ).len() > 0),
    {
        match check_status {
            CheckStatus::NoCheck => self.can_move_no_check(color, capture_en_passant, bit_position_status),
            _ => {
                let moves = self.gen_moves_for_all(color, check_status, capture_en_passant, bit_position_status);
                !moves.is_empty()
            },
        }
    }

    /// Whether the king of `color` is in check, and by what.
    fn check_status(&self, color: &Color) -> (r: CheckStatus)
        ensures
            r == crate::piece_move::check_status_of(*color, *self),
    {
        crate::piece_move::check_status(color, self)
    }
}

impl BitBoardsWhiteAndBlack {
    /// Whether `color`, not in check, has a legal move, looking at rooks,
    /// bishops, knights, king, queens and pawns in turn.
    fn can_move_no_check(
        &self,
        color: &Color,
        capture_en_passant: Option<&BitIndex>,
        bit_position_status: &BitPositionStatus,
    ) -> (r: bool)
        requires
            gen_ready(*self, *color, CheckStatus::NoCheck, ep_of(capture_en_passant)),
        ensures
            r == (legal_moves(
                *color,
                candidate_moves(*self, *color, CheckStatus::NoCheck, ep_of(capture_en_passant), *bit_position_status),
                *self,
            ).len() > 0),
    {
        let ghost bb = *self;
        let bit_board = self.bit_board(color);
        let bit_board_opponent = self.bit_board(&color.switch());
        let ghost own = *bit_board;
        let ghost opp = *bit_board_opponent;
        let ghost o = own.all();
        let ghost x = opp.all();
        let ghost ep = ep_of(capture_en_passant);
        let can_castle_king_side = bit_position_status.can_castle_king_side(bit_board.concat_bit_boards(), color);
        let can_castle_queen_side = bit_position_status.can_castle_queen_side(bit_board.concat_bit_boards(), color);
        let ghost castle = castle_targets(*color, own, opp, can_castle_king_side, can_castle_queen_side);
        let ghost l1 = moves_list(own.rooks.bitboard.0, TypePiece::Rook, rook_targets(o, x));
        let ghost l2 = moves_list(own.bishops.bitboard.0, TypePiece::Bishop, bishop_targets(o, x));
        let ghost l3 = moves_list(own.knights.bitboard.0, TypePiece::Knight, knight_targets(o));
        let ghost l4 = moves_list(own.king.bitboard.0, TypePiece::King, king_targets(o, castle));
        let ghost l5 = moves_list(own.queens.bitboard.0, TypePiece::Queen, queen_targets_fn(o, x));
        let ghost l6 = moves_list(own.pawns.bitboard.0, TypePiece::Pawn, pawn_targets(*color, o, x, ep));
        proof {
            assert forall|e: int| #[trigger] bit(castle, e) implies 2 <= e <= 62 by {
                lemma_castle_targets_range(*color, own, opp, can_castle_king_side, can_castle_queen_side, e);
            }
            lemma_list_ok_non_king(*color, own.rooks.bitboard.0, TypePiece::Rook, rook_targets(o, x), bb);
            lemma_list_ok_non_king(*color, own.bishops.bitboard.0, TypePiece::Bishop, bishop_targets(o, x), bb);
            lemma_list_ok_non_king(*color, own.knights.bitboard.0, TypePiece::Knight, knight_targets(o), bb);
            lemma_list_ok_king(*color, bb, castle);
            lemma_list_ok_non_king(*color, own.queens.bitboard.0, TypePiece::Queen, queen_targets_fn(o, x), bb);
            lemma_list_ok_non_king(*color, own.pawns.bitboard.0, TypePiece::Pawn, pawn_targets(*color, o, x, ep), bb);
            lemma_legal_moves_append(*color, l1, l2, bb);
            lemma_legal_moves_append(*color, l1 + l2, l3, bb);
            lemma_legal_moves_append(*color, l1 + l2 + l3, l4, bb);
            lemma_legal_moves_append(*color, l1 + l2 + l3 + l4, l5, bb);
            lemma_legal_moves_append(*color, l1 + l2 + l3 + l4 + l5, l6, bb);
        }
        let moves_piece = bit_board.rooks.gen_moves_no_check(color, bit_board, bit_board_opponent);
        let mut moves = moves2bitboard_moves(*color, moves_piece, self);
        if moves.is_empty() {
            let moves_piece = bit_board.bishops.gen_moves_no_check(color, bit_board, bit_board_opponent);
            moves = moves2bitboard_moves(*color, moves_piece, self);
            if moves.is_empty() {
                let moves_piece = bit_board.knights.gen_moves_no_check(color, bit_board, bit_board_opponent);
                moves = moves2bitboard_moves(*color, moves_piece, self);
                if moves.is_empty() {
                    let moves_piece = bit_board.king.gen_moves_no_check(
                        color,
                        bit_board,
                        bit_board_opponent,
                        can_castle_king_side,
                        can_castle_queen_side,
                    );
                    moves = moves2bitboard_moves(*color, moves_piece, self);
                    if moves.is_empty() {
                        let moves_piece = bit_board.queens.gen_moves_no_check(color, bit_board, bit_board_opponent);
                        moves = moves2bitboard_moves(*color, moves_piece, self);
                        if moves.is_empty() {
                            let moves_piece = bit_board.pawns.gen_moves_no_check(
                                color,
                                bit_board,
                                bit_board_opponent,
                                capture_en_passant,
                            );
                            moves = moves2bitboard_moves(*color, moves_piece, self);
                        }
                    }
                }
            }
        }
        !moves.is_empty()
    }
}

/// A side the generator can work for: it has a king, no pawn on its last row,
/// and its king shares no square with an opponent piece.
pub open spec fn side_ready(bb: BitBoardsWhiteAndBlack, color: Color) -> bool {
    let own = bb.side(color);
    let opp = bb.side(opposite(color));
    &&& own.king.bitboard.0 != 0
    &&& own.pawns.bitboard.0 & pawn_forbidden(color) == 0
    &&& own.king.bitboard.0 & opp.all() == 0
}

/// Whether the generator can work for `color`.
pub fn side_ready_check(bb: &BitBoardsWhiteAndBlack, color: &Color) -> (r: bool)
    ensures
        r == side_ready(*bb, *color),
{
    let own = bb.bit_board(color);
    let opp = bb.bit_board(&color.switch());
    let forbidden: u64 = match color {
        Color::White => 0xff00_0000_0000_0000u64,
        Color::Black => 0xffu64,
    };
    own.king.bitboard.0 != 0 && own.pawns.bitboard.0 & forbidden == 0 && own.king.bitboard.0
        & opp.concat_bit_boards().0 == 0
}

/// A square of an opponent board `z`, reached as the lowest square of `y & z`,
/// is not a square of the king.
proof fn lemma_attacker_not_king(y: u64, z: u64, all: u64, king: u64)
    requires
        y & z != 0,
        z & !all == 0,
        king & all == 0,
    ensures
        !bit(king, u64_trailing_zeros(y & z) as int),
{
    lemma_lowest_in(y & z);
    let i = u64_trailing_zeros(y & z) as u64;
    assert((king >> i) & 1u64 != 1u64) by (bit_vector)
        requires
            i < 64,
            ((y & z) >> i) & 1u64 == 1u64,
            z & !all == 0,
            king & all == 0,
    ;
}

/// A ready side, with its own check status, is ready for the generator.
pub proof fn lemma_side_ready(bb: BitBoardsWhiteAndBlack, color: Color, ep: Option<BitIndex>)
    requires
        side_ready(bb, color),
        ep matches Some(e) ==> e.0 < 64,
    ensures
        gen_ready(bb, color, crate::piece_move::check_status_of(color, bb), ep),
{
    let own = bb.side(color);
    let opp = bb.side(opposite(color));
    let kk = own.king.bitboard.0;
    let all = opp.all();
    let a = attackers_of(u64_trailing_zeros(kk) as int, color, own, opp);
    let (r, b, n, q, k, p) = (opp.rooks.bitboard.0, opp.bishops.bitboard.0, opp.knights.bitboard.0,
        opp.queens.bitboard.0, opp.king.bitboard.0, opp.pawns.bitboard.0);
    crate::bits::lemma_in_union(r, b, n, k, q, p);
    let o = own.all();
    let x = opp.all();
    let kp = u64_trailing_zeros(kk) as int;
    if a.rooks.0 != 0 {
        lemma_attacker_not_king(rook_reach(kp, o | x) & !o, r, all, kk);
    }
    if a.bishops.0 != 0 {
        lemma_attacker_not_king(bishop_reach(kp, o | x) & !o, b, all, kk);
    }
    if a.queens.0 != 0 {
        lemma_attacker_not_king((rook_reach(kp, o | x) & !o) | (bishop_reach(kp, o | x) & !o), q, all, kk);
    }
    if a.knights.0 != 0 {
        lemma_attacker_not_king(crate::table::knight_reach(kp) & !o, n, all, kk);
    }
    if a.pawns.0 != 0 {
        lemma_attacker_not_king(crate::piece_move::pawn_captures(kp, color, x), p, all, kk);
    }
    if a.king.0 != 0 {
        lemma_attacker_not_king(king_reach(kp) & !o, k, all, kk);
    }
}

impl Position {
    /// Whether the side to move is in check, and by what, on the boards that
    /// describe this position.
    pub fn check_status(&self) -> (r: CheckStatus)
        requires
            self.status.wf(),
            exists|i: int|
                0 <= i < 64 && #[trigger] self.chessboard.squares@[i] == Square::NonEmpty(
                    Piece { type_piece: TypePiece::King, color: self.status.player_turn },
                ),
        ensures
            exists|bp: BitPosition|
                bp.describes(*self) && r == crate::piece_move::check_status_of(
                    self.status.player_turn,
                    bp.bit_boards_white_and_black,
                ),
    {
        let bit_position = BitPosition::from(Position::build(self.chessboard(), *self.status()));
        let color = self.status().player_turn();
        proof {
            let i = choose|i: int|
                0 <= i < 64 && #[trigger] self.chessboard.squares@[i] == Square::NonEmpty(
                    Piece { type_piece: TypePiece::King, color: self.status.player_turn },
                );
            let kb = bit_position.bit_boards_white_and_black.side(color).board(TypePiece::King);
            assert(bit(kb, i));
            crate::bits::lemma_u64_bits();
            assert(kb != 0);
        }
        bit_position.bit_boards_white_and_black().check_status(&color)
    }
}

} // verus!
