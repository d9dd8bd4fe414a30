//! Bit-level vocabulary shared by the board representation: what it means for a
//! square to be set in a 64-bit board, and the small algebraic facts about
//! `|`, `&`, `^`, `!` and `<<` that the move generators rely on.
use vstd::prelude::*;

verus! {

/// Square `i` (0 = a1, 63 = h8) is set in the 64-bit board `b`.
pub open spec fn bit(b: u64, i: int) -> bool {
    0 <= i < 64 && (b >> (i as u64)) & 1u64 == 1u64
}

/// The board with only square `i` set.
pub open spec fn single(i: int) -> u64 {
    1u64 << (i as u64)
}

/// `b` has at most one square set.
pub open spec fn at_most_one_bit(b: u64) -> bool {
    b == 0 || b & ((b - 1) as u64) == 0u64
}

pub proof fn lemma_or_assoc(a: u64, b: u64, c: u64)
    ensures
        a | (b | c) == (a | b) | c,
{
    assert(a | (b | c) == (a | b) | c) by (bit_vector);
}

pub proof fn lemma_or_zero(a: u64)
    ensures
        a | 0u64 == a,
        0u64 | a == a,
{
    assert(a | 0u64 == a && 0u64 | a == a) by (bit_vector);
}

pub proof fn lemma_bit_or(a: u64, b: u64, i: u64)
    requires
        i < 64,
    ensures
        ((a | b) >> i) & 1u64 == 1u64 <==> ((a >> i) & 1u64 == 1u64 || (b >> i) & 1u64 == 1u64),
{
    assert(((a | b) >> i) & 1u64 == 1u64 <==> ((a >> i) & 1u64 == 1u64 || (b >> i) & 1u64
        == 1u64)) by (bit_vector);
}

pub proof fn lemma_bit_single(i: u64, j: u64)
    requires
        i < 64,
        j < 64,
    ensures
        ((1u64 << i) >> j) & 1u64 == 1u64 <==> i == j,
{
    assert(((1u64 << i) >> j) & 1u64 == 1u64 <==> i == j) by (bit_vector)
        requires
            i < 64,
            j < 64,
    ;
}


pub proof fn lemma_bit_and_single(v: u64, i: u64)
    requires
        i < 64,
    ensures
        ((1u64 << i) & v == 0u64) <==> !((v >> i) & 1u64 == 1u64),
{
    assert(((1u64 << i) & v == 0u64) <==> !((v >> i) & 1u64 == 1u64)) by (bit_vector)
        requires
            i < 64,
    ;
}


/// Clearing the lowest set bit makes a nonzero board smaller and keeps only squares it had.
pub proof fn lemma_clear_lowest(b: u64)
    requires
        b != 0,
    ensures
        b & ((b - 1) as u64) < b,
{
    assert(b != 0 ==> b & ((b - 1) as u64) < b) by (bit_vector);
}

/// The lowest square of a nonzero board is one of its squares, below 64.
pub proof fn lemma_lowest_in(b: u64)
    requires
        b != 0,
    ensures
        vstd::std_specs::bits::u64_trailing_zeros(b) < 64,
        bit(b, vstd::std_specs::bits::u64_trailing_zeros(b) as int),
{
    vstd::std_specs::bits::axiom_u64_trailing_zeros(b);
}

/// Two boards holding the same squares are the same board.
pub proof fn lemma_bits_ext(x: u64, y: u64)
    requires
        forall|i: int| 0 <= i < 64 ==> bit(x, i) == bit(y, i),
    ensures
        x == y,
{
    let d = x ^ y;
    if d != 0 {
        lemma_lowest_in(d);
        let t = vstd::std_specs::bits::u64_trailing_zeros(d) as u64;
        assert(bit(x, t as int) == bit(y, t as int));
        assert(t < 64 && ((x ^ y) >> t) & 1u64 == 1u64 ==> (((x >> t) & 1u64 == 1u64) != ((y >> t) & 1u64
            == 1u64))) by (bit_vector);
    } else {
        assert(x ^ y == 0u64 ==> x == y) by (bit_vector);
    }
}

/// The lowest square of the one-square board of `i` is `i`, and nothing else is left.
pub proof fn lemma_lowest_single(i: u64)
    requires
        i < 64,
    ensures
        vstd::std_specs::bits::u64_trailing_zeros(1u64 << i) == i,
        (1u64 << i) & (((1u64 << i) - 1) as u64) == 0,
        (1u64 << i) != 0,
{
    let b = 1u64 << i;
    vstd::std_specs::bits::axiom_u64_trailing_zeros(b);
    let t = vstd::std_specs::bits::u64_trailing_zeros(b) as u64;
    assert(b != 0) by (bit_vector)
        requires
            b == 1u64 << i,
            i < 64,
    ;
    assert(b & ((b - 1) as u64) == 0) by (bit_vector)
        requires
            b == 1u64 << i,
            i < 64,
    ;
    if t < i {
        assert((b >> t) & 1u64 == 0) by (bit_vector)
            requires
                b == 1u64 << i,
                i < 64,
                t < i,
        ;
    }
    if t > i {
        assert(t < 64);
        assert((b >> i) & 1u64 == 1u64) by (bit_vector)
            requires
                b == 1u64 << i,
                i < 64,
        ;
    }
}

/// A board without the squares of `m` keeps that property when its lowest square is cleared.
pub proof fn lemma_clear_lowest_mask(b: u64, m: u64)
    requires
        b & m == 0,
    ensures
        (b & ((b - 1) as u64)) & m == 0,
{
    assert(b & m == 0 ==> (b & ((b - 1) as u64)) & m == 0) by (bit_vector);
}

/// A square of a board without the squares of `m` is not in `m`.
pub proof fn lemma_bit_outside_mask(b: u64, m: u64, t: u64)
    requires
        b & m == 0,
        t < 64,
        (b >> t) & 1u64 == 1u64,
    ensures
        (m >> t) & 1u64 == 0u64,
{
    assert((b & m == 0 && t < 64 && (b >> t) & 1u64 == 1u64) ==> (m >> t) & 1u64 == 0u64)
        by (bit_vector);
}

/// Identities of `&`, `|`, `^` and `!` on 64-bit boards.
pub proof fn lemma_u64_algebra()
    by (bit_vector)
    ensures
        forall|x: u64| #[trigger] (x | 0u64) == x,
        forall|x: u64| #[trigger] (0u64 | x) == x,
        forall|x: u64| #[trigger] (x & 0u64) == 0u64,
        forall|x: u64| #[trigger] (0u64 & x) == 0u64,
        forall|x: u64| #[trigger] (x ^ 0u64) == x,
        forall|x: u64| #[trigger] (x & !x) == 0u64,
        forall|x: u64, y: u64| #[trigger] (x & y) == (y & x),
        forall|x: u64, y: u64| #[trigger] (x ^ (x ^ y)) == y,
        forall|x: u64, y: u64| ((#[trigger] (x | y)) == 0u64) == (x == 0u64 && y == 0u64),
{
}

/// What `&`, `|`, `!`, zero and one-square boards hold square by square.
pub proof fn lemma_u64_bits()
    by (bit_vector)
    ensures
        forall|i: u64| i < 64 ==> (#[trigger] ((0u64 >> i) & 1u64)) != 1u64,
        forall|x: u64, i: u64|
            i < 64 ==> ((#[trigger] ((!x >> i) & 1u64)) == 1u64) == ((x >> i) & 1u64 != 1u64),
        forall|x: u64, y: u64, i: u64|
            i < 64 ==> ((#[trigger] (((x & y) >> i) & 1u64)) == 1u64) == ((x >> i) & 1u64 == 1u64
                && (y >> i) & 1u64 == 1u64),
        forall|x: u64, y: u64, i: u64|
            i < 64 ==> ((#[trigger] (((x | y) >> i) & 1u64)) == 1u64) == ((x >> i) & 1u64 == 1u64
                || (y >> i) & 1u64 == 1u64),
{
}

/// A board is inside the union of the six boards it belongs to.
pub proof fn lemma_in_union(r: u64, b: u64, n: u64, k: u64, q: u64, p: u64)
    by (bit_vector)
    ensures
        r & !(r | b | n | k | q | p) == 0,
        b & !(r | b | n | k | q | p) == 0,
        n & !(r | b | n | k | q | p) == 0,
        k & !(r | b | n | k | q | p) == 0,
        q & !(r | b | n | k | q | p) == 0,
        p & !(r | b | n | k | q | p) == 0,
{
}

/// Squares taken outside `o` miss a board inside `o`.
pub proof fn lemma_excluded(y: u64, o: u64, k: u64)
    by (bit_vector)
    requires
        k & !o == 0,
    ensures
        (y & !o) & k == 0,
{
}

/// Setting or clearing one flag bit of a byte (1, 2, 4, 8 or 16) leaves the
/// other flags alone.
pub proof fn lemma_flag_bits(f: u8)
    by (bit_vector)
    ensures
        (f | 1u8) & 1u8 != 0,
        (f & !1u8) & 1u8 == 0,
        ((f | 1u8) & 2u8 != 0) == (f & 2u8 != 0),
        ((f & !1u8) & 2u8 != 0) == (f & 2u8 != 0),
        ((f | 1u8) & 4u8 != 0) == (f & 4u8 != 0),
        ((f & !1u8) & 4u8 != 0) == (f & 4u8 != 0),
        ((f | 1u8) & 8u8 != 0) == (f & 8u8 != 0),
        ((f & !1u8) & 8u8 != 0) == (f & 8u8 != 0),
        ((f | 1u8) & 16u8 != 0) == (f & 16u8 != 0),
        ((f & !1u8) & 16u8 != 0) == (f & 16u8 != 0),
        (f | 2u8) & 2u8 != 0,
        (f & !2u8) & 2u8 == 0,
        ((f | 2u8) & 1u8 != 0) == (f & 1u8 != 0),
        ((f & !2u8) & 1u8 != 0) == (f & 1u8 != 0),
        ((f | 2u8) & 4u8 != 0) == (f & 4u8 != 0),
        ((f & !2u8) & 4u8 != 0) == (f & 4u8 != 0),
        ((f | 2u8) & 8u8 != 0) == (f & 8u8 != 0),
        ((f & !2u8) & 8u8 != 0) == (f & 8u8 != 0),
        ((f | 2u8) & 16u8 != 0) == (f & 16u8 != 0),
        ((f & !2u8) & 16u8 != 0) == (f & 16u8 != 0),
        (f | 4u8) & 4u8 != 0,
        (f & !4u8) & 4u8 == 0,
        ((f | 4u8) & 1u8 != 0) == (f & 1u8 != 0),
        ((f & !4u8) & 1u8 != 0) == (f & 1u8 != 0),
        ((f | 4u8) & 2u8 != 0) == (f & 2u8 != 0),
        ((f & !4u8) & 2u8 != 0) == (f & 2u8 != 0),
        ((f | 4u8) & 8u8 != 0) == (f & 8u8 != 0),
        ((f & !4u8) & 8u8 != 0) == (f & 8u8 != 0),
        ((f | 4u8) & 16u8 != 0) == (f & 16u8 != 0),
        ((f & !4u8) & 16u8 != 0) == (f & 16u8 != 0),
        (f | 8u8) & 8u8 != 0,
        (f & !8u8) & 8u8 == 0,
        ((f | 8u8) & 1u8 != 0) == (f & 1u8 != 0),
        ((f & !8u8) & 1u8 != 0) == (f & 1u8 != 0),
        ((f | 8u8) & 2u8 != 0) == (f & 2u8 != 0),
        ((f & !8u8) & 2u8 != 0) == (f & 2u8 != 0),
        ((f | 8u8) & 4u8 != 0) == (f & 4u8 != 0),
        ((f & !8u8) & 4u8 != 0) == (f & 4u8 != 0),
        ((f | 8u8) & 16u8 != 0) == (f & 16u8 != 0),
        ((f & !8u8) & 16u8 != 0) == (f & 16u8 != 0),
        (f | 16u8) & 16u8 != 0,
        (f & !16u8) & 16u8 == 0,
        ((f | 16u8) & 1u8 != 0) == (f & 1u8 != 0),
        ((f & !16u8) & 1u8 != 0) == (f & 1u8 != 0),
        ((f | 16u8) & 2u8 != 0) == (f & 2u8 != 0),
        ((f & !16u8) & 2u8 != 0) == (f & 2u8 != 0),
        ((f | 16u8) & 4u8 != 0) == (f & 4u8 != 0),
        ((f & !16u8) & 4u8 != 0) == (f & 4u8 != 0),
        ((f | 16u8) & 8u8 != 0) == (f & 8u8 != 0),
        ((f & !16u8) & 8u8 != 0) == (f & 8u8 != 0),
        (f & !1u8) & !2u8 == (f & !2u8) & !1u8,
        (f & !4u8) & !8u8 == (f & !8u8) & !4u8,
        f & 16u8 != 0 ==> (f & !16u8) | 16u8 == f,
        f & 16u8 == 0 ==> (f | 16u8) & !16u8 == f,
{
}

/// The number of squares set among the first `n` squares of `b`.
pub open spec fn bits_below(b: u64, n: nat) -> nat
    decreases n,
{
    if n == 0 {
        0
    } else {
        bits_below(b, (n - 1) as nat) + if bit(b, n - 1) {
            1nat
        } else {
            0nat
        }
    }
}

/// The number of squares set in `b`.
pub open spec fn bit_count(b: u64) -> nat {
    bits_below(b, 64)
}

/// The number of squares set in `b`.
pub fn count_bits(b: u64) -> (r: u32)
    ensures
        r == bit_count(b),
        r <= 64,
{
    let mut c: u32 = 0;
    let mut i: u64 = 0;
    while i < 64
        invariant
            i <= 64,
            c == bits_below(b, i as nat),
            c <= i,
        decreases 64 - i,
    {
        if (b >> i) & 1u64 == 1u64 {
            c = c + 1;
        }
        i = i + 1;
    }
    c
}

} // verus!
