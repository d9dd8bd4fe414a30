//! Move patterns of the pieces on an otherwise described board: single steps for
//! the king and the knight, and sliding rays, stopped by the first occupied square,
//! for rooks, bishops and queens.
use vstd::prelude::*;
use crate::bits::{bit, single, lemma_bit_or, lemma_bit_single, lemma_or_assoc, lemma_or_zero};

verus! {

pub const MASK_ROW_0: u64 = 255;
pub const MASK_ROW_1: u64 = 0xff00;
pub const MASK_ROW_6: u64 = 0x00ff_0000_0000_0000;
pub const MASK_ROW_7: u64 = 0xff00_0000_0000_0000;
pub const MASK_COL_A: u64 = 0x0101_0101_0101_0101;

/// The square reached from square `i` by moving `dr` rows and `dc` columns, or
/// -1 when that leaves the board.
pub open spec fn step_to(i: int, dr: int, dc: int) -> int {
    let r = i / 8 + dr;
    let c = i % 8 + dc;
    if 0 <= r < 8 && 0 <= c < 8 {
        r * 8 + c
    } else {
        -1
    }
}

/// The board holding the square reached by one `(dr, dc)` step from `i`, if any.
pub open spec fn step_bit(i: int, dr: int, dc: int) -> u64 {
    let j = step_to(i, dr, dc);
    if j >= 0 {
        single(j)
    } else {
        0u64
    }
}

/// The squares met walking from `i` in steps of `(dr, dc)`, at most `n` steps,
/// up to and including the first square occupied in `blockers`.
pub open spec fn ray_n(i: int, dr: int, dc: int, blockers: u64, n: nat) -> u64
    decreases n,
{
    if n == 0 {
        0u64
    } else {
        let j = step_to(i, dr, dc);
        if j < 0 {
            0u64
        } else {
            single(j) | if bit(blockers, j) {
                0u64
            } else {
                ray_n(j, dr, dc, blockers, (n - 1) as nat)
            }
        }
    }
}

/// The squares a sliding piece on `i` reaches in direction `(dr, dc)`: every
/// square up to and including the first occupied one.
pub open spec fn ray(i: int, dr: int, dc: int, blockers: u64) -> u64 {
    ray_n(i, dr, dc, blockers, 7)
}

/// Squares a rook on `i` reaches when `blockers` are occupied.
pub open spec fn rook_reach(i: int, blockers: u64) -> u64 {
    ray(i, 1, 0, blockers) | ray(i, -1, 0, blockers) | ray(i, 0, 1, blockers) | ray(
        i,
        0,
        -1,
        blockers,
    )
}

/// Squares a bishop on `i` reaches when `blockers` are occupied.
pub open spec fn bishop_reach(i: int, blockers: u64) -> u64 {
    ray(i, 1, 1, blockers) | ray(i, 1, -1, blockers) | ray(i, -1, 1, blockers) | ray(
        i,
        -1,
        -1,
        blockers,
    )
}

/// Squares adjacent to `i`.
pub open spec fn king_reach(i: int) -> u64 {
    step_bit(i, 1, -1) | step_bit(i, 1, 0) | step_bit(i, 1, 1) | step_bit(i, 0, -1) | step_bit(
        i,
        0,
        1,
    ) | step_bit(i, -1, -1) | step_bit(i, -1, 0) | step_bit(i, -1, 1)
}

/// Square `j` is at distance one from square `i`: at most one row and one
/// column away, and not `i` itself.
pub open spec fn king_distance_one(i: int, j: int) -> bool {
    let dr = j / 8 - i / 8;
    let dc = j % 8 - i % 8;
    -1 <= dr <= 1 && -1 <= dc <= 1 && !(dr == 0 && dc == 0)
}

/// The board of one step holds exactly the square the step reaches.
proof fn lemma_step_bit(i: int, dr: int, dc: int, j: int)
    requires
        0 <= i < 64,
        0 <= j < 64,
        -2 <= dr <= 2,
        -2 <= dc <= 2,
    ensures
        bit(step_bit(i, dr, dc), j) <==> step_to(i, dr, dc) == j,
{
    let k = step_to(i, dr, dc);
    let jj = j as u64;
    if k >= 0 {
        lemma_bit_single(k as u64, jj);
    } else {
        assert((0u64 >> jj) & 1u64 == 0u64) by (bit_vector);
    }
}

/// The king table in distance form: the squares a king on `i` reaches are
/// exactly those one row and one column away at most.
pub proof fn lemma_king_reach_distance(i: int, j: int)
    requires
        0 <= i < 64,
        0 <= j < 64,
    ensures
        bit(king_reach(i), j) <==> king_distance_one(i, j),
{
    let jj = j as u64;
    let a1 = step_bit(i, 1, -1);
    let a2 = step_bit(i, 1, 0);
    let a3 = step_bit(i, 1, 1);
    let a4 = step_bit(i, 0, -1);
    let a5 = step_bit(i, 0, 1);
    let a6 = step_bit(i, -1, -1);
    let a7 = step_bit(i, -1, 0);
    let a8 = step_bit(i, -1, 1);
    lemma_bit_or(a1, a2, jj);
    lemma_bit_or(a1 | a2, a3, jj);
    lemma_bit_or(a1 | a2 | a3, a4, jj);
    lemma_bit_or(a1 | a2 | a3 | a4, a5, jj);
    lemma_bit_or(a1 | a2 | a3 | a4 | a5, a6, jj);
    lemma_bit_or(a1 | a2 | a3 | a4 | a5 | a6, a7, jj);
    lemma_bit_or(a1 | a2 | a3 | a4 | a5 | a6 | a7, a8, jj);
    lemma_step_bit(i, 1, -1, j);
    lemma_step_bit(i, 1, 0, j);
    lemma_step_bit(i, 1, 1, j);
    lemma_step_bit(i, 0, -1, j);
    lemma_step_bit(i, 0, 1, j);
    lemma_step_bit(i, -1, -1, j);
    lemma_step_bit(i, -1, 0, j);
    lemma_step_bit(i, -1, 1, j);
}

/// Squares a knight jumps to from `i`.
pub open spec fn knight_reach(i: int) -> u64 {
    step_bit(i, 2, -1) | step_bit(i, 2, 1) | step_bit(i, 1, -2) | step_bit(i, 1, 2) | step_bit(
        i,
        -1,
        -2,
    ) | step_bit(i, -1, 2) | step_bit(i, -2, -1) | step_bit(i, -2, 1)
}

/// The square one `(dr, dc)` step from `index`, as a board (empty off the board).
pub fn step_moves(index: u8, dr: i8, dc: i8) -> (r: u64)
    requires
        index < 64,
        -2 <= dr <= 2,
        -2 <= dc <= 2,
    ensures
        r == step_bit(index as int, dr as int, dc as int),
{
    let row: i8 = (index / 8) as i8 + dr;
    let col: i8 = (index % 8) as i8 + dc;
    if row >= 0 && row < 8 && col >= 0 && col < 8 {
        let j: u8 = (row * 8 + col) as u8;
        1u64 << j
    } else {
        0
    }
}

/// The squares a sliding piece on `index` reaches in direction `(dr, dc)`.
pub fn ray_moves(index: u8, dr: i8, dc: i8, blockers: u64) -> (r: u64)
    requires
        index < 64,
        -1 <= dr <= 1,
        -1 <= dc <= 1,
    ensures
        r == ray(index as int, dr as int, dc as int, blockers),
{
    let mut acc: u64 = 0;
    let mut cur: u8 = index;
    let mut n: u8 = 7;
    proof {
        lemma_or_zero(ray(index as int, dr as int, dc as int, blockers));
    }
    while n > 0
        invariant
            cur < 64,
            n <= 7,
            -1 <= dr <= 1,
            -1 <= dc <= 1,
            acc | ray_n(cur as int, dr as int, dc as int, blockers, n as nat) == ray(
                index as int,
                dr as int,
                dc as int,
                blockers,
            ),
        decreases n,
    {
        let row: i8 = (cur / 8) as i8 + dr;
        let col: i8 = (cur % 8) as i8 + dc;
        if row < 0 || row >= 8 || col < 0 || col >= 8 {
            proof {
                lemma_or_zero(acc);
            }
            return acc;
        }
        let j: u8 = (row * 8 + col) as u8;
        let s: u64 = 1u64 << j;
        proof {
            assert(step_to(cur as int, dr as int, dc as int) == j as int);
            lemma_or_assoc(
                acc,
                s,
                if bit(blockers, j as int) {
                    0u64
                } else {
                    ray_n(j as int, dr as int, dc as int, blockers, (n - 1) as nat)
                },
            );
        }
        if (blockers >> (j as u64)) & 1 == 1 {
            proof {
                lemma_or_zero(acc | s);
            }
            return acc | s;
        }
        acc = acc | s;
        cur = j;
        n = n - 1;
    }
    proof {
        lemma_or_zero(acc);
    }
    acc
}

/// Squares adjacent to `index`.
pub fn king_moves(index: u8) -> (r: u64)
    requires
        index < 64,
    ensures
        r == king_reach(index as int),
{
    step_moves(index, 1, -1) | step_moves(index, 1, 0) | step_moves(index, 1, 1) | step_moves(
        index,
        0,
        -1,
    ) | step_moves(index, 0, 1) | step_moves(index, -1, -1) | step_moves(index, -1, 0)
        | step_moves(index, -1, 1)
}

/// Squares a knight on `index` jumps to.
pub fn knight_moves(index: u8) -> (r: u64)
    requires
        index < 64,
    ensures
        r == knight_reach(index as int),
{
    step_moves(index, 2, -1) | step_moves(index, 2, 1) | step_moves(index, 1, -2) | step_moves(
        index,
        1,
        2,
    ) | step_moves(index, -1, -2) | step_moves(index, -1, 2) | step_moves(index, -2, -1)
        | step_moves(index, -2, 1)
}

/// Squares of the first row a rook on column `col` of that row reaches, the
/// occupied squares of the row being `blockers`.
pub fn table_rook_h(col: u8, blockers: u8) -> (r: u8)
    requires
        col < 8,
    ensures
        r == (ray(col as int, 0, 1, blockers as u64) | ray(col as int, 0, -1, blockers as u64)) as u8,
{
    let b = blockers as u64;
    let moves = ray_moves(col, 0, 1, b) | ray_moves(col, 0, -1, b);
    moves as u8
}

/// Squares of the column `mask_col` a rook on `index` reaches up and down.
pub fn table_rook_v(index: u8, blockers: u64, mask_col: u64) -> (r: u64)
    requires
        index < 64,
    ensures
        r == (ray(index as int, 1, 0, blockers) | ray(index as int, -1, 0, blockers)) & mask_col,
{
    (ray_moves(index, 1, 0, blockers) | ray_moves(index, -1, 0, blockers)) & mask_col
}

/// Squares of one diagonal a bishop on `index` reaches: toward the upper rows
/// within `mask_up` and toward the lower rows within `mask_down`; `step` 7 is the
/// a8-h1 direction and 9 the a1-h8 direction.
pub fn bishop_moves_diag(
    row: u8,
    index: u8,
    blockers: u64,
    mask_up: u64,
    mask_down: u64,
    step: u8,
) -> (r: u64)
    requires
        index < 64,
        row == index / 8,
        step == 7 || step == 9,
    ensures
        step == 7 ==> r == (ray(index as int, 1, -1, blockers) & mask_up) | (ray(
            index as int,
            -1,
            1,
            blockers,
        ) & mask_down),
        step == 9 ==> r == (ray(index as int, 1, 1, blockers) & mask_up) | (ray(
            index as int,
            -1,
            -1,
            blockers,
        ) & mask_down),
{
    if step == 7 {
        (ray_moves(index, 1, -1, blockers) & mask_up) | (ray_moves(index, -1, 1, blockers)
            & mask_down)
    } else {
        (ray_moves(index, 1, 1, blockers) & mask_up) | (ray_moves(index, -1, -1, blockers)
            & mask_down)
    }
}

/// Squares a bishop on `index` reaches when `blockers` are occupied.
pub fn bishop_moves(index: u8, blockers: u64) -> (r: u64)
    requires
        index < 64,
    ensures
        r == bishop_reach(index as int, blockers),
{
    let row = index / 8;
    let d1 = bishop_moves_diag(row, index, blockers, 0xffff_ffff_ffff_ffff, 0xffff_ffff_ffff_ffff, 7);
    let d2 = bishop_moves_diag(row, index, blockers, 0xffff_ffff_ffff_ffff, 0xffff_ffff_ffff_ffff, 9);
    proof {
        let a = ray(index as int, 1, 1, blockers);
        let b = ray(index as int, 1, -1, blockers);
        let c = ray(index as int, -1, 1, blockers);
        let d = ray(index as int, -1, -1, blockers);
        assert(((b & 0xffff_ffff_ffff_ffffu64) | (c & 0xffff_ffff_ffff_ffffu64)) | ((a
            & 0xffff_ffff_ffff_ffffu64) | (d & 0xffff_ffff_ffff_ffffu64)) == ((a | b) | c) | d)
            by (bit_vector);
    }
    d1 | d2
}

/// Rook moves from `index` when `blockers` are occupied.
pub fn rook_moves(index: u8, blockers: u64) -> (r: u64)
    requires
        index < 64,
    ensures
        r == rook_reach(index as int, blockers),
{
    ray_moves(index, 1, 0, blockers) | ray_moves(index, -1, 0, blockers) | ray_moves(
        index,
        0,
        1,
        blockers,
    ) | ray_moves(index, 0, -1, blockers)
}

/// 1 when square `index` is set in `value`, else 0.
pub fn check_bit(index: u8, value: u64) -> (r: u8)
    requires
        index < 64,
    ensures
        r == 1 <==> bit(value, index as int),
        r == 0 || r == 1,
{
    proof {
        crate::bits::lemma_bit_and_single(value, index as u64);
    }
    if (1u64 << index) & value == 0 {
        0
    } else {
        1
    }
}

} // verus!
