//! The score of a position from White's side: material, control of the
//! board, and who can still win.
use vstd::prelude::*;
use crate::bitboard::BitBoard;
use crate::bitboards::{BitBoards, BitBoardsWhiteAndBlack};
use crate::bits::{bit_count, count_bits};
use crate::control::{ControlSquares, control_moves, pawns_reach};
use crate::game_state::{EndGame, GameState};
use crate::piece_move::PieceMoves;
use crate::position::BitPosition;
use crate::score::{Score, SCORE_MAT_BLACK, SCORE_MAT_WHITE};
use crate::square::{Color, TypePiece};
use crate::stat_eval::{counted, StatEval, SEND_STAT_EVERY_N_POSITION_EVALUATED};

verus! {

/// The value of a pawn.
pub const FACTOR_PAWN_BASE: i32 = 1000;

/// Half the value of a pawn.
pub const HALF_PAWN: i32 = 500;

/// The weight of one controlled square.
pub const FACTOR_CONTROL_SQUARES: i32 = 10;

/// The four squares of the center: d4, e4, d5 and e5.
pub const BITBOARD_CENTER: u64 = 0x0000_0018_1800_0000u64;

/// The bonus of the only side that can still win.
pub const BONUS_CAN_WIN: i32 = 100000;

/// The number of pieces of kind `t` of a side.
pub open spec fn count_of(b: BitBoards, t: TypePiece) -> nat {
    bit_count(b.board(t))
}

/// The material of a side: rook 5, knight and bishop 3, queen 10, pawn 1.
pub open spec fn material(b: BitBoards) -> nat {
    5 * count_of(b, TypePiece::Rook) + 3 * count_of(b, TypePiece::Knight) + 3 * count_of(
        b,
        TypePiece::Bishop,
    ) + 10 * count_of(b, TypePiece::Queen) + count_of(b, TypePiece::Pawn)
}

/// A side can mate: it has a rook, a queen, a pawn, or two minor pieces.
pub open spec fn can_win(b: BitBoards) -> bool {
    count_of(b, TypePiece::Rook) != 0 || count_of(b, TypePiece::Queen) != 0 || count_of(
        b,
        TypePiece::Pawn,
    ) != 0 || count_of(b, TypePiece::Knight) + count_of(b, TypePiece::Bishop) >= 2
}

/// The squares control is counted on: the center early in the game, the
/// whole board later.
pub open spec fn control_mask(is_start_game: bool) -> u64 {
    if is_start_game {
        BITBOARD_CENTER
    } else {
        u64::MAX
    }
}

/// The squares of `mask` the pieces reach, counted once per piece.
pub open spec fn moves_control(moves: Seq<PieceMoves>, mask: u64) -> nat
    decreases moves.len(),
{
    if moves.len() == 0 {
        0
    } else {
        moves_control(moves.drop_last(), mask) + bit_count(moves.last().moves.0 & mask)
    }
}

/// The control score of a side: three per square a piece reaches, one per
/// square a pawn attacks, among the counted squares.
pub open spec fn control_value(moves: Seq<PieceMoves>, pawns_control: u64, is_start_game: bool) -> int {
    let mask = control_mask(is_start_game);
    (3 * moves_control(moves, mask) + bit_count(pawns_control & mask)) as int
}

/// The control score of what a side controls.
pub open spec fn control_score(cs: ControlSquares, is_start_game: bool) -> int {
    control_value(cs.moves@, cs.pawns_control.0, is_start_game)
}

/// The control score of side `color` in `bb`.
pub open spec fn side_control(color: Color, bb: BitBoardsWhiteAndBlack, is_start_game: bool) -> int {
    control_value(
        control_moves(color, bb),
        pawns_reach(bb.side(color).board(TypePiece::Pawn), color),
        is_start_game,
    )
}

/// The control balance of a position, weighted; control is counted on the
/// center during the first twenty half-moves.
pub open spec fn dynamic_score(bp: BitPosition) -> int {
    let is_start_game = bp.bit_position_status.n_half_moves <= 20;
    let bb = bp.bit_boards_white_and_black;
    (side_control(Color::White, bb, is_start_game) - side_control(Color::Black, bb, is_start_game))
        * FACTOR_CONTROL_SQUARES
}

/// The score of the end of a game: a mate (or a loss on time) of Black is the
/// best score, of White the worst, anything else zero.
pub open spec fn end_game_value(e: EndGame) -> i32 {
    match e {
        EndGame::Mat(Color::Black) => SCORE_MAT_WHITE,
        EndGame::Mat(Color::White) => SCORE_MAT_BLACK,
        EndGame::TimeOutLost(Color::White) => SCORE_MAT_BLACK,
        EndGame::TimeOutLost(Color::Black) => SCORE_MAT_WHITE,
        _ => 0,
    }
}

/// The material balance, in thousandths of a pawn.
pub open spec fn static_score(bp: BitPosition) -> int {
    (material(bp.bit_boards_white_and_black.bit_board_white) - material(
        bp.bit_boards_white_and_black.bit_board_black,
    )) * FACTOR_PAWN_BASE
}

/// The score of a position: material plus control when both sides can win,
/// zero when neither can, and a bonus to the only one that can; the bonus goes
/// to the side to move, or against it.
pub open spec fn position_value(bp: BitPosition, dynamic: int, check_can_win: bool) -> int {
    let bb = bp.bit_boards_white_and_black;
    let turn = bp.bit_position_status.spec_player_turn();
    let player_can_win = !check_can_win || can_win(bb.side(turn));
    let opponent_can_win = !check_can_win || can_win(bb.side(crate::square::opposite(turn)));
    let default_score = static_score(bp) + dynamic;
    let bonus: int = if turn == Color::White {
        BONUS_CAN_WIN as int
    } else {
        -BONUS_CAN_WIN
    };
    if player_can_win && opponent_can_win {
        default_score
    } else if !player_can_win && !opponent_can_win {
        0
    } else if player_can_win {
        default_score + bonus
    } else {
        default_score - bonus
    }
}

/// The score of a finished game, at the depths given.
pub fn handle_end_game_scenario(game: &GameState, current_depth: u8, max_depth: u8) -> (r: Score)
    ensures
        r == (Score { value: end_game_value(game.end_game), current_depth, max_depth }),
{
    match game.end_game() {
        EndGame::Mat(Color::Black) => Score::new(SCORE_MAT_WHITE, current_depth, max_depth),
        EndGame::Mat(Color::White) => Score::new(SCORE_MAT_BLACK, current_depth, max_depth),
        EndGame::TimeOutLost(Color::White) => Score::new(SCORE_MAT_BLACK, current_depth, max_depth),
        EndGame::TimeOutLost(_) => Score::new(SCORE_MAT_WHITE, current_depth, max_depth),
        _ => Score::new(0, current_depth, max_depth),
    }
}

/// The number of rooks, knights, bishops, queens and pawns of a side.
pub fn count_material_one_side(bitboards: &BitBoards) -> (r: (u32, u32, u32, u32, u32))
    ensures
        r.0 == count_of(*bitboards, TypePiece::Rook),
        r.1 == count_of(*bitboards, TypePiece::Knight),
        r.2 == count_of(*bitboards, TypePiece::Bishop),
        r.3 == count_of(*bitboards, TypePiece::Queen),
        r.4 == count_of(*bitboards, TypePiece::Pawn),
        r.0 <= 64 && r.1 <= 64 && r.2 <= 64 && r.3 <= 64 && r.4 <= 64,
{
    let n_rooks = count_bits(bitboards.rooks().bitboard().value());
    let n_knights = count_bits(bitboards.knights().bitboard().value());
    let n_bishops = count_bits(bitboards.bishops().bitboard().value());
    let n_queens = count_bits(bitboards.queens().bitboard().value());
    let n_pawns = count_bits(bitboards.pawns().bitboard().value());
    (n_rooks, n_knights, n_bishops, n_queens, n_pawns)
}

/// The material of a side.
pub fn evaluate_static_position_one_side(bitboards: &BitBoards) -> (r: u32)
    ensures
        r == material(*bitboards),
        r <= 1408,
{
    let (n_rooks, n_knights, n_bishops, n_queens, n_pawns) = count_material_one_side(bitboards);
    n_rooks * 5 + n_knights * 3 + n_bishops * 3 + n_queens * 10 + n_pawns
}

/// The material balance of a position, from White's side.
pub fn evaluate_static_position(bit_position: &BitPosition) -> (r: i32)
    ensures
        r == static_score(*bit_position),
        -1_408_000 <= r <= 1_408_000,
{
    let score_current = evaluate_static_position_one_side(
        bit_position.bit_boards_white_and_black().bit_board_white(),
    );
    let score_opponent = evaluate_static_position_one_side(
        bit_position.bit_boards_white_and_black().bit_board_black(),
    );
    (score_current as i32 - score_opponent as i32) * FACTOR_PAWN_BASE
}

/// Twice the material of White is at most 13 (Black's pieces are not
/// counted).
pub fn is_final(game: &GameState) -> (r: bool)
    ensures
        r == (2 * material(game.bit_position.bit_boards_white_and_black.bit_board_white) <= 13),
{
    let b_white_black = game.bit_position().bit_boards_white_and_black();
    let (n_rooks_w, n_knights_w, n_bishops_w, n_queens_w, n_pawns_w) = count_material_one_side(
        b_white_black.bit_board_white(),
    );
    let (n_rooks_b, n_knights_b, n_bishops_b, n_queens_b, n_pawns_b) = count_material_one_side(
        b_white_black.bit_board_white(),
    );
    (n_rooks_w + n_rooks_b) * 5 + (n_knights_w + n_knights_b + n_bishops_w + n_bishops_b) * 3 + (
    n_queens_w + n_queens_b) * 10 + (n_pawns_w + n_pawns_b) <= 13
}

/// The side can still mate.
pub fn check_can_win(bitboards: &BitBoards) -> (r: bool)
    ensures
        r == can_win(*bitboards),
{
    let (n_rooks, n_knights, n_bishops, n_queens, n_pawns) = count_material_one_side(bitboards);
    n_rooks != 0 || n_queens != 0 || n_pawns != 0 || (n_knights + n_bishops >= 2)
}

/// The control score of White less Black's, weighted.
pub fn evaluate_dynamic_position(control_squares: (ControlSquares, ControlSquares), is_start_game: bool) -> (r: i32)
    requires
        control_squares.0.wf(),
        control_squares.1.wf(),
    ensures
        r == (control_score(control_squares.0, is_start_game) - control_score(
            control_squares.1,
            is_start_game,
        )) * FACTOR_CONTROL_SQUARES,
        -615_040 <= r <= 615_040,
{
    let (control_squares_white, control_squares_black) = control_squares;
    (evaluate_dynamic_position_one_side(control_squares_white, is_start_game)
        - evaluate_dynamic_position_one_side(control_squares_black, is_start_game)) * FACTOR_CONTROL_SQUARES
}

/// The control score of one side.
pub fn evaluate_dynamic_position_one_side(control_squares: ControlSquares, is_start_game: bool) -> (r: i32)
    requires
        control_squares.wf(),
    ensures
        r == control_score(control_squares, is_start_game),
        0 <= r <= 61504,
{
    let mut score: u32 = 0;
    let mask = BitBoard::new(
        if is_start_game {
            BITBOARD_CENTER
        } else {
            u64::MAX
        },
    );
    let moves = control_squares.moves();
    let mut i: usize = 0;
    while i < moves.len()
        invariant
            i <= moves@.len() <= 320,
            mask.0 == control_mask(is_start_game),
            score == moves_control(moves@.subrange(0, i as int), mask.0),
            score <= 64 * i,
        decreases moves@.len() - i,
    {
        let piece_moves = &moves[i];
        let control = piece_moves.moves().bitand(mask);
        let n_squares_control_except_pawns = count_bits(control.value());
        proof {
            assert(moves@.subrange(0, i + 1).drop_last() =~= moves@.subrange(0, i as int));
        }
        score += n_squares_control_except_pawns;
        i = i + 1;
    }
    proof {
        assert(moves@.subrange(0, moves@.len() as int) =~= moves@);
    }
    let n_squares_control_pawns = count_bits(control_squares.pawns_control().bitand(mask).value());
    score += score * 2 + n_squares_control_pawns;
    score as i32
}

/// Scores the position of `game` from White's side (material, control, and,
/// when `check_can_win` is set, who can still win), and counts it. The count
/// to report comes back when it reaches a multiple of the report period; the
/// count then starts again from zero.
pub fn evaluate_position(game: &GameState, stat_eval: &mut StatEval, check_can_win_flag: bool) -> (r: (
    i32,
    Option<u64>,
))
    requires
        old(stat_eval).n_positions_evaluated < u64::MAX,
    ensures
        r.0 == position_value(game.bit_position, dynamic_score(game.bit_position), check_can_win_flag),
        r.1 == (if (old(stat_eval).n_positions_evaluated + 1) % (SEND_STAT_EVERY_N_POSITION_EVALUATED as int) == 0 {
            Some((old(stat_eval).n_positions_evaluated + 1) as u64)
        } else {
            None
        }),
        final(stat_eval).n_positions_evaluated == counted(old(stat_eval).n_positions_evaluated),
        final(stat_eval).n_transposition_hit == old(stat_eval).n_transposition_hit,
        final(stat_eval).n_check == old(stat_eval).n_check,
{
    let mut report: Option<u64> = None;
    if stat_eval.inc_n_positions_evaluated() % SEND_STAT_EVERY_N_POSITION_EVALUATED == 0 {
        report = Some(stat_eval.n_positions_evaluated());
        stat_eval.reset_n_positions_evaluated();
    }
    let player_turn = game.bit_position().bit_position_status().player_turn();
    let opponent = match player_turn {
        Color::White => Color::Black,
        Color::Black => Color::White,
    };
    let (player_can_win, player_opponent_can_win) = if check_can_win_flag {
        let player_can_win = check_can_win(game.bit_position().bit_boards_white_and_black().bit_board(&player_turn));
        let player_opponent_can_win = check_can_win(
            game.bit_position().bit_boards_white_and_black().bit_board(&opponent),
        );
        (player_can_win, player_opponent_can_win)
    } else {
        (true, true)
    };
    let is_start_game = game.bit_position().bit_position_status().n_half_moves() <= 20;
    let default_score = evaluate_static_position(game.bit_position()) + evaluate_dynamic_position(
        game.gen_control_square(),
        is_start_game,
    );
    let bonus = if player_turn == Color::White {
        BONUS_CAN_WIN
    } else {
        -BONUS_CAN_WIN
    };
    let score = match (player_can_win, player_opponent_can_win) {
        (true, true) => default_score,
        (false, false) => 0,
        (true, false) => default_score + bonus,
        (false, true) => default_score - bonus,
    };
    (score, report)
}

/// The bonus for being the only side that can still win goes to that side,
/// whoever is to move: up for White when only White can win, down when only
/// Black can, a score of zero when neither can, and material and control
/// alone when both can or when who can win is not looked at.
pub proof fn lemma_can_win_bonus(bp: BitPosition, dynamic: int)
    ensures
        ({
            let bb = bp.bit_boards_white_and_black;
            let w = can_win(bb.bit_board_white);
            let b = can_win(bb.bit_board_black);
            let s = static_score(bp) + dynamic;
            &&& position_value(bp, dynamic, false) == s
            &&& w && b ==> position_value(bp, dynamic, true) == s
            &&& w && !b ==> position_value(bp, dynamic, true) == s + BONUS_CAN_WIN
            &&& !w && b ==> position_value(bp, dynamic, true) == s - BONUS_CAN_WIN
            &&& !w && !b ==> position_value(bp, dynamic, true) == 0
        }),
{
    let bb = bp.bit_boards_white_and_black;
    let turn = bp.bit_position_status.spec_player_turn();
    assert(bb.side(Color::White) == bb.bit_board_white);
    assert(bb.side(Color::Black) == bb.bit_board_black);
    if turn == Color::White {
        assert(crate::square::opposite(turn) == Color::Black);
    } else {
        assert(turn == Color::Black);
        assert(crate::square::opposite(turn) == Color::White);
    }
}

} // verus!
