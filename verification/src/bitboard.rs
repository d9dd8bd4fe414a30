//! Square indices and 64-bit boards: square `i` is bit `i`, with 0 = a1,
//! 7 = h1, 56 = a8 and 63 = h8.
use vstd::prelude::*;
use vstd::std_specs::bits::u64_trailing_zeros;
use crate::bits::{bit, single, at_most_one_bit};
use crate::coord::Coord;

verus! {

/// How two squares line up, as the move generator classifies it.
#[derive(Debug, Copy, Clone, PartialEq, Eq, Structural)]
pub enum Direction {
    BishopTopLeftBottomRight,
    BishopBottomLeftTopRight,
    RookHorizontal,
    RookVertical,
    Unaligned,
}

/// The line through squares `from` and `to`, by their rows and columns: the
/// same row, else the same column, else a diagonal rising to the right (the
/// a1-h8 kind), else one falling to the right (the a8-h1 kind), else none.
pub open spec fn direction_of(from: int, to: int) -> Direction {
    let (r1, c1, r2, c2) = (from / 8, from % 8, to / 8, to % 8);
    if r1 == r2 {
        Direction::RookHorizontal
    } else if c1 == c2 {
        Direction::RookVertical
    } else if r2 - r1 == c2 - c1 {
        Direction::BishopBottomLeftTopRight
    } else if r2 - r1 == c1 - c2 {
        Direction::BishopTopLeftBottomRight
    } else {
        Direction::Unaligned
    }
}

/// The index of a square.
#[derive(Debug, Copy, Clone, PartialEq, Eq, Structural)]
pub struct BitIndex(pub u8);

impl BitIndex {
    /// The board with only this square set.
    pub fn bitboard(&self) -> (r: BitBoard)
        requires
            self.0 < 64,
        ensures
            r.0 == single(self.0 as int),
    {
        BitBoard::new(1u64 << self.0)
    }

    pub fn new(index: u8) -> (r: Self)
        ensures
            r.0 == index,
    {
        BitIndex(index)
    }

    /// The indices for the given numbers, in the same order.
    pub fn union(indexes: Vec<u8>) -> (r: Vec<Self>)
        ensures
            r@.len() == indexes@.len(),
            forall|k: int| 0 <= k < indexes@.len() ==> #[trigger] r@[k].0 == indexes@[k],
    {
        let mut r: Vec<Self> = Vec::new();
        let mut k: usize = 0;
        while k < indexes.len()
            invariant
                k <= indexes@.len(),
                r@.len() == k,
                forall|m: int| 0 <= m < k ==> #[trigger] r@[m].0 == indexes@[m],
            decreases indexes@.len() - k,
        {
            r.push(BitIndex(indexes[k]));
            k = k + 1;
        }
        r
    }

    /// How the line from this square to `to` is classified.
    pub fn direction(&self, to: BitIndex) -> (r: Direction)
        ensures
            r == direction_of(self.0 as int, to.0 as int),
    {
        let (r1, c1, r2, c2) = (self.0 / 8, self.0 % 8, to.0 / 8, to.0 % 8);
        let dr: u8 = if r2 >= r1 { r2 - r1 } else { r1 - r2 };
        let dc: u8 = if c2 >= c1 { c2 - c1 } else { c1 - c2 };
        if r1 == r2 {
            Direction::RookHorizontal
        } else if c1 == c2 {
            Direction::RookVertical
        } else if dr == dc && (r2 > r1) == (c2 > c1) {
            Direction::BishopBottomLeftTopRight
        } else if dr == dc {
            Direction::BishopTopLeftBottomRight
        } else {
            Direction::Unaligned
        }
    }

    /// The square of column a in the same row.
    pub fn first_col(&self) -> (r: BitIndex)
        ensures
            r.0 == self.0 - self.0 % 8,
    {
        BitIndex(self.0 - self.col())
    }

    /// The next square to the right (index + 1).
    pub fn right(&self) -> (r: BitIndex)
        requires
            self.0 < 255,
        ensures
            r.0 == self.0 + 1,
    {
        BitIndex(self.0 + 1)
    }

    /// The next square to the left (index - 1).
    pub fn left(&self) -> (r: BitIndex)
        requires
            self.0 >= 1,
        ensures
            r.0 == self.0 - 1,
    {
        BitIndex(self.0 - 1)
    }

    /// The square one row up (index + 8).
    pub fn up(&self) -> (r: BitIndex)
        requires
            self.0 + 8 <= 255,
        ensures
            r.0 == self.0 + 8,
    {
        BitIndex(self.0 + 8)
    }

    /// The square two rows up (index + 16).
    pub fn upx2(&self) -> (r: BitIndex)
        requires
            self.0 + 16 <= 255,
        ensures
            r.0 == self.0 + 16,
    {
        BitIndex(self.0 + 16)
    }

    /// The square one row down (index - 8).
    pub fn down(&self) -> (r: BitIndex)
        requires
            self.0 >= 8,
        ensures
            r.0 == self.0 - 8,
    {
        BitIndex(self.0 - 8)
    }

    /// The square two rows down (index - 16).
    pub fn downx2(&self) -> (r: BitIndex)
        requires
            self.0 >= 16,
        ensures
            r.0 == self.0 - 16,
    {
        BitIndex(self.0 - 16)
    }

    pub fn row(&self) -> (r: u8)
        ensures
            r == self.0 / 8,
    {
        self.0 / 8
    }

    pub fn col(&self) -> (r: u8)
        ensures
            r == self.0 % 8,
    {
        self.0 % 8
    }

    pub fn value(&self) -> (r: u8)
        ensures
            r == self.0,
    {
        self.0
    }
}

/// A set of squares: bit `i` is set when square `i` belongs to the set.
#[derive(Debug, Copy, Clone, PartialEq, Eq, Structural)]
pub struct BitBoard(pub u64);

/// The union of the single-square boards of `s`.
pub open spec fn union_of(s: Seq<BitIndex>) -> u64
    decreases s.len(),
{
    if s.len() == 0 {
        0u64
    } else {
        union_of(s.drop_last()) | single(s.last().0 as int)
    }
}

/// The order in which `list_non_empty_squares` visits the board: rows from 8
/// down to 1, and in each row columns from a to h.
pub open spec fn listing_square(o: int) -> int {
    (7 - o / 8) * 8 + o % 8
}

/// The coordinate of square `i`.
pub open spec fn coord_of(i: int) -> Coord {
    Coord { col: ((i % 8) + 65) as char, row: (i / 8 + 1) as u8 }
}

/// The coordinates of the squares of `b` among the first `n` squares of the listing order.
pub open spec fn listed_squares(b: u64, n: int) -> Seq<Coord>
    decreases n,
{
    if n <= 0 {
        Seq::empty()
    } else {
        listed_squares(b, n - 1) + if bit(b, listing_square(n - 1)) {
            seq![coord_of(listing_square(n - 1))]
        } else {
            Seq::empty()
        }
    }
}

/// The squares of `b` in the order a walk that takes the lowest square each
/// time gives them.
pub open spec fn bit_walk(b: u64) -> Seq<int>
    decreases b,
{
    if b == 0 {
        Seq::empty()
    } else {
        proof {
            crate::bits::lemma_clear_lowest(b);
        }
        seq![u64_trailing_zeros(b) as int] + bit_walk(b & ((b - 1) as u64))
    }
}

/// With `d` the lowest square of `b` as a board (`b` without `b & (b - 1)`):
/// clearing it leaves the other squares, it is a square of `b`, no square of
/// `b` lies below it, and a nonzero board has one.
proof fn lemma_lowest_parts(b: u64, i: u64, j: u64)
    requires
        b != 0,
        i < 64,
        j < 64,
    ensures
        ({
            let c = b & ((b - 1) as u64);
            let d = b ^ c;
            &&& (((c >> i) & 1u64 == 1u64) == ((b >> i) & 1u64 == 1u64 && (d >> i) & 1u64 != 1u64))
            &&& ((d >> i) & 1u64 == 1u64 ==> (b >> i) & 1u64 == 1u64)
            &&& (((d >> i) & 1u64 == 1u64 && (b >> j) & 1u64 == 1u64) ==> i <= j)
            &&& d != 0
        }),
{
    let c = b & ((b - 1) as u64);
    let d = b ^ c;
    assert((((c >> i) & 1u64 == 1u64) == ((b >> i) & 1u64 == 1u64 && (d >> i) & 1u64 != 1u64)) && ((d >> i)
        & 1u64 == 1u64 ==> (b >> i) & 1u64 == 1u64) && (((d >> i) & 1u64 == 1u64 && (b >> j) & 1u64 == 1u64)
        ==> i <= j) && d != 0) by (bit_vector)
        requires
            b != 0,
            i < 64,
            j < 64,
            c == b & ((b - 1) as u64),
            d == b ^ c,
    ;
}

/// Clearing the lowest square of `b` leaves its other squares, and no square
/// of `b` lies below its lowest one.
proof fn lemma_clear_lowest_bits(b: u64, i: int)
    requires
        b != 0,
    ensures
        bit(b & ((b - 1) as u64), i) <==> (bit(b, i) && i != u64_trailing_zeros(b)),
        bit(b, i) ==> u64_trailing_zeros(b) <= i,
{
    vstd::std_specs::bits::axiom_u64_trailing_zeros(b);
    let t = u64_trailing_zeros(b) as u64;
    let c = b & ((b - 1) as u64);
    let d = b ^ c;
    lemma_lowest_parts(b, 0, 0);
    vstd::std_specs::bits::axiom_u64_trailing_zeros(d);
    let k = u64_trailing_zeros(d) as u64;
    // the lowest square of `b` as a board is the square `t`
    lemma_lowest_parts(b, k, t);
    if k < t {
        assert((b >> k) & 1u64 == 0u64);
    }
    assert(k == t);
    if 0 <= i < 64 {
        let ii = i as u64;
        lemma_lowest_parts(b, ii, t);
        lemma_lowest_parts(b, t, ii);
        if ii < t {
            assert((b >> ii) & 1u64 == 0u64);
        }
    }
}

/// The walk over the squares of a board gives each of its squares once, in
/// increasing order, and nothing else.
pub proof fn lemma_bit_walk(b: u64)
    ensures
        forall|i: int| #[trigger] bit_walk(b).contains(i) <==> bit(b, i),
        forall|k: int, l: int| 0 <= k < l < bit_walk(b).len() ==> bit_walk(b)[k] < bit_walk(b)[l],
    decreases b,
{
    if b != 0 {
        crate::bits::lemma_clear_lowest(b);
        let c = b & ((b - 1) as u64);
        let t = u64_trailing_zeros(b) as int;
        crate::bits::lemma_lowest_in(b);
        lemma_bit_walk(c);
        let w = bit_walk(b);
        let r = bit_walk(c);
        assert(w == seq![t] + r);
        assert forall|i: int| #[trigger] w.contains(i) <==> bit(b, i) by {
            lemma_clear_lowest_bits(b, i);
            if w.contains(i) {
                let k = choose|k: int| 0 <= k < w.len() && w[k] == i;
                if k > 0 {
                    assert(r[k - 1] == i);
                    assert(r.contains(i));
                }
            }
            if bit(b, i) && i != t {
                assert(bit(c, i));
                assert(r.contains(i));
                let k = choose|k: int| 0 <= k < r.len() && r[k] == i;
                assert(w[k + 1] == i);
            }
            if i == t {
                assert(w[0] == i);
            }
        }
        assert forall|k: int, l: int| 0 <= k < l < w.len() implies w[k] < w[l] by {
            if k == 0 {
                assert(r.contains(w[l])) by {
                    assert(r[l - 1] == w[l]);
                }
                lemma_clear_lowest_bits(b, w[l]);
            } else {
                assert(w[k] == r[k - 1] && w[l] == r[l - 1]);
            }
        }
    } else {
        assert forall|i: int| #[trigger] bit_walk(b).contains(i) <==> bit(b, i) by {
            if 0 <= i < 64 {
                let j = i as u64;
                assert((b >> j) & 1u64 == 0u64) by (bit_vector)
                    requires
                        b == 0,
                ;
            }
        }
    }
}

/// The board left in an iterator over `b` after `k` calls of `next`.
pub open spec fn after_nexts(b: u64, k: nat) -> u64
    decreases k,
{
    if k == 0 {
        b
    } else {
        let c = after_nexts(b, (k - 1) as nat);
        if c == 0 {
            0
        } else {
            c & ((c - 1) as u64)
        }
    }
}

/// The walk over a board is empty exactly when the board is.
proof fn lemma_walk_empty(x: u64)
    ensures
        (bit_walk(x).len() == 0) == (x == 0),
{
    if x != 0 {
        crate::bits::lemma_clear_lowest(x);
        assert(bit_walk(x) == seq![u64_trailing_zeros(x) as int] + bit_walk(x & ((x - 1) as u64)));
    }
}

/// The squares left after `k` calls of `next` are those of the walk over `b`
/// past its first `k`; none is left once the walk is done.
proof fn lemma_walk_after_nexts(b: u64, k: nat)
    ensures
        k <= bit_walk(b).len() ==> bit_walk(after_nexts(b, k)) == bit_walk(b).skip(k as int),
        k >= bit_walk(b).len() ==> after_nexts(b, k) == 0,
    decreases k,
{
    let n = bit_walk(b).len();
    if k == 0 {
        assert(bit_walk(b).skip(0) =~= bit_walk(b));
        lemma_walk_empty(b);
    } else {
        lemma_walk_after_nexts(b, (k - 1) as nat);
        let c = after_nexts(b, (k - 1) as nat);
        if k <= n {
            lemma_walk_empty(c);
            crate::bits::lemma_clear_lowest(c);
            let d = c & ((c - 1) as u64);
            assert(bit_walk(c) == seq![u64_trailing_zeros(c) as int] + bit_walk(d));
            assert(bit_walk(b).skip(k as int) =~= bit_walk(c).skip(1));
            assert(bit_walk(c).skip(1) =~= bit_walk(d));
            lemma_walk_empty(d);
        }
    }
}

/// Calling `next` over and over on an iterator over `b` gives the squares of
/// `b`, each once and lowest first, then `None`: the call after `k` calls
/// gives the `k`-th square of the walk over `b` while there is one (see
/// `lemma_bit_walk`: exactly the squares of `b`, increasing), and `None` from
/// then on.
pub proof fn lemma_next_sequence(b: u64, k: nat)
    ensures
        k < bit_walk(b).len() ==> after_nexts(b, k) != 0 && u64_trailing_zeros(after_nexts(b, k)) as int
            == bit_walk(b)[k as int],
        k >= bit_walk(b).len() ==> after_nexts(b, k) == 0,
{
    lemma_walk_after_nexts(b, k);
    let c = after_nexts(b, k);
    if k < bit_walk(b).len() {
        lemma_walk_empty(c);
        crate::bits::lemma_clear_lowest(c);
        assert(bit_walk(c) == seq![u64_trailing_zeros(c) as int] + bit_walk(c & ((c - 1) as u64)));
        assert(bit_walk(c)[0] == bit_walk(b).skip(k as int)[0]);
    }
}

/// Walks the squares of a board, lowest index first.
pub struct BitIterator {
    pub bitboard: BitBoard,
}

impl BitIterator {
    /// The lowest square left, removed from the iterator; `None` once none is left.
    pub fn next(&mut self) -> (r: Option<BitIndex>)
        ensures
            old(self).bitboard.0 == 0 ==> r is None && final(self).bitboard == old(
                self,
            ).bitboard,
            old(self).bitboard.0 != 0 ==> r == Some(
                BitIndex(u64_trailing_zeros(old(self).bitboard.0) as u8),
            ) && final(self).bitboard.0 == old(self).bitboard.0 & ((old(self).bitboard.0
                - 1) as u64),
            r matches Some(i) ==> bit_walk(old(self).bitboard.0) == seq![i.0 as int] + bit_walk(final(self).bitboard.0),
    {
        let bb = self.bitboard.value();
        if bb != 0 {
            let lsb = self.bitboard.index();
            self.bitboard = BitBoard(bb & (bb - 1));
            Some(lsb)
        } else {
            None
        }
    }
}

impl BitBoard {
    /// The board with the squares of `mask_remove` toggled (removed when present).
    pub fn remove(&self, mask_remove: BitBoard) -> (r: BitBoard)
        ensures
            r.0 == self.0 ^ mask_remove.0,
    {
        BitBoard(self.0 ^ mask_remove.0)
    }

    /// Toggles the squares of `mask_switch`, then adds those of `mask_promotion`.
    pub fn switch(&mut self, mask_switch: BitBoard, mask_promotion: BitBoard)
        ensures
            final(self).0 == (old(self).0 ^ mask_switch.0) | mask_promotion.0,
    {
        self.0 = (self.0 ^ mask_switch.0) | mask_promotion.0;
    }

    /// Toggles the squares of `mask_xor`.
    pub fn xor_mut(&mut self, mask_xor: BitBoard)
        ensures
            final(self).0 == old(self).0 ^ mask_xor.0,
    {
        self.0 = self.0 ^ mask_xor.0;
    }

    /// An iterator over the squares of the board.
    pub fn iter(&self) -> (r: BitIterator)
        ensures
            r.bitboard == *self,
    {
        BitIterator { bitboard: BitBoard::new(self.0) }
    }

    pub fn value(&self) -> (r: u64)
        ensures
            r == self.0,
    {
        self.0
    }

    pub fn non_empty(&self) -> (r: bool)
        ensures
            r == (self.0 != 0),
    {
        self.0 != 0
    }

    pub fn empty(&self) -> (r: bool)
        ensures
            r == (self.0 == 0),
    {
        self.0 == 0
    }

    /// The board holds zero or one square.
    pub fn one_bit_set_max(&self) -> (r: bool)
        ensures
            r == at_most_one_bit(self.0),
    {
        let one_bit_set = self.non_empty() && (self.0 & (self.0 - 1)) == 0;
        one_bit_set || self.empty()
    }

    /// The lowest square of the board (64 for the empty board).
    pub fn index(&self) -> (r: BitIndex)
        ensures
            r.0 == u64_trailing_zeros(self.0),
    {
        BitIndex::new(pos2index(self.0))
    }

    pub fn new(value: u64) -> (r: Self)
        ensures
            r.0 == value,
    {
        BitBoard(value)
    }

    /// The board holding exactly the given squares.
    pub fn build(indexes: Vec<BitIndex>) -> (r: Self)
        requires
            forall|k: int| 0 <= k < indexes@.len() ==> #[trigger] indexes@[k].0 < 64,
        ensures
            r.0 == union_of(indexes@),
    {
        let mut acc: u64 = 0;
        let mut k: usize = 0;
        while k < indexes.len()
            invariant
                k <= indexes@.len(),
                forall|m: int| 0 <= m < indexes@.len() ==> #[trigger] indexes@[m].0 < 64,
                acc == union_of(indexes@.subrange(0, k as int)),
            decreases indexes@.len() - k,
        {
            proof {
                assert(indexes@.subrange(0, k + 1).drop_last() =~= indexes@.subrange(0, k as int));
            }
            acc = acc | indexes[k].bitboard().0;
            k = k + 1;
        }
        proof {
            assert(indexes@.subrange(0, indexes@.len() as int) =~= indexes@);
        }
        BitBoard(acc)
    }

    /// The coordinates of the squares of the board, rows 8 down to 1, each row from a to h.
    pub fn list_non_empty_squares(&self) -> (r: Vec<Coord>)
        ensures
            r@ == listed_squares(self.0, 64),
            forall|k: int| 0 <= k < r@.len() ==> (#[trigger] r@[k]).wf(),
    {
        let mut coords: Vec<Coord> = Vec::new();
        let mut o: u8 = 0;
        while o < 64
            invariant
                o <= 64,
                coords@ == listed_squares(self.0, o as int),
                forall|k: int| 0 <= k < coords@.len() ==> (#[trigger] coords@[k]).wf(),
            decreases 64 - o,
        {
            let i: u8 = (7 - o / 8) * 8 + o % 8;
            let b: u64 = (self.0 >> i) & 1;
            if b == 1 {
                let c = Coord { col: col_letter(o % 8), row: 8 - o / 8 };
                coords.push(c);
            }
            o = o + 1;
        }
        coords
    }

    pub fn bitor_assign(&mut self, rhs: BitBoard)
        ensures
            final(self).0 == old(self).0 | rhs.0,
    {
        self.0 = self.0 | rhs.0;
    }

    pub fn bitor(self, rhs: BitBoard) -> (r: BitBoard)
        ensures
            r.0 == self.0 | rhs.0,
    {
        BitBoard(self.0 | rhs.0)
    }

    pub fn bitand(self, rhs: BitBoard) -> (r: BitBoard)
        ensures
            r.0 == self.0 & rhs.0,
    {
        BitBoard(self.0 & rhs.0)
    }

    pub fn bitxor(self, rhs: BitBoard) -> (r: BitBoard)
        ensures
            r.0 == self.0 ^ rhs.0,
    {
        BitBoard(self.0 ^ rhs.0)
    }

    pub fn shl(self, rhs: u8) -> (r: BitBoard)
        requires
            rhs < 64,
        ensures
            r.0 == self.0 << rhs,
    {
        BitBoard(self.0 << rhs)
    }

    pub fn shr(self, rhs: u8) -> (r: BitBoard)
        requires
            rhs < 64,
        ensures
            r.0 == self.0 >> rhs,
    {
        BitBoard(self.0 >> rhs)
    }

    pub fn not(self) -> (r: BitBoard)
        ensures
            r.0 == !self.0,
    {
        BitBoard(!self.0)
    }
}

/// Upper-case column letter of column `c`.
pub fn col_letter(c: u8) -> (r: char)
    requires
        c < 8,
    ensures
        r as int == c + 65,
{
    if c == 0 {
        'A'
    } else if c == 1 {
        'B'
    } else if c == 2 {
        'C'
    } else if c == 3 {
        'D'
    } else if c == 4 {
        'E'
    } else if c == 5 {
        'F'
    } else if c == 6 {
        'G'
    } else {
        'H'
    }
}

/// Index of the lowest set bit (64 when none is set).
pub fn pos2index(u: u64) -> (r: u8)
    ensures
        r == u64_trailing_zeros(u),
{
    proof {
        vstd::std_specs::bits::axiom_u64_trailing_zeros(u);
    }
    u.trailing_zeros() as u8
}

impl Default for BitBoard {
    /// The empty board.
    fn default() -> (r: Self)
        ensures
            r.0 == 0,
    {
        BitBoard(0)
    }
}

} // verus!
