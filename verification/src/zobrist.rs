//! Zobrist hashing of positions: one random key per piece and square, per
//! castling right, per en passant square and for the side to move; the hash of a
//! position is the xor of the keys of what it holds.
use vstd::prelude::*;
use rand::rngs::StdRng;
use rand::{Rng, SeedableRng};
use crate::bitboard::BitIndex;
use crate::bitboards::{BitBoardsWhiteAndBlack, peek_square};
use crate::position::BitPosition;
use crate::square::{Color, Piece, Square, type_piece_rank};

verus! {

/// The random generator of the `rand` crate seeded for reproducible keys.
#[verifier::external_type_specification]
#[verifier::external_body]
pub struct ExStdRng(StdRng);

/// Calls `SeedableRng::seed_from_u64` (rand) for `StdRng`: a generator whose
/// outputs are fixed by the seed. Nothing is stated of the generator.
#[verifier::external_body]
fn seeded_rng(seed: u64) -> StdRng {
    StdRng::seed_from_u64(seed)
}

/// Calls `Rng::gen::<u64>` (rand): the next 64-bit output of the generator.
/// Nothing is stated of the value.
#[verifier::external_body]
fn next_key(rng: &mut StdRng) -> u64 {
    rng.gen()
}

/// The keys: 12 piece kinds (6 white, then 6 black) by 64 squares, the four
/// castling rights (white king side, white queen side, black king side, black
/// queen side), the 64 en passant squares, and the side to move.
#[derive(Debug)]
pub struct Zobrist {
    pub piece_square: Vec<Vec<u64>>,
    pub castling_rights: Vec<u64>,
    pub en_passant: Vec<u64>,
    pub side_to_move: u64,
}

/// A table of `n` keys.
fn keys(rng: &mut StdRng, n: usize) -> (r: Vec<u64>)
    ensures
        r@.len() == n,
{
    let mut v: Vec<u64> = Vec::new();
    let mut i: usize = 0;
    while i < n
        invariant
            i <= n,
            v@.len() == i,
        decreases n - i,
    {
        v.push(next_key(rng));
        i = i + 1;
    }
    v
}

/// A table of `n` zero keys.
fn zero_keys(n: usize) -> (r: Vec<u64>)
    ensures
        r@ == Seq::new(n as nat, |i: int| 0u64),
{
    let mut v: Vec<u64> = Vec::new();
    let mut i: usize = 0;
    while i < n
        invariant
            i <= n,
            v@ == Seq::new(i as nat, |j: int| 0u64),
        decreases n - i,
    {
        v.push(0);
        i = i + 1;
        proof {
            assert(v@ =~= Seq::new(i as nat, |j: int| 0u64));
        }
    }
    v
}

/// A copy of a table of keys.
fn copy_keys(v: &Vec<u64>) -> (r: Vec<u64>)
    ensures
        r@ == v@,
{
    let mut r: Vec<u64> = Vec::new();
    let mut i: usize = 0;
    while i < v.len()
        invariant
            i <= v@.len(),
            r@ == v@.subrange(0, i as int),
        decreases v@.len() - i,
    {
        r.push(v[i]);
        proof {
            assert(r@ =~= v@.subrange(0, i + 1));
        }
        i = i + 1;
    }
    proof {
        assert(v@.subrange(0, v@.len() as int) =~= v@);
    }
    r
}

impl Zobrist {
    /// The tables have their sizes: 12 by 64 piece keys, 4 castling keys, 64 en
    /// passant keys.
    pub open spec fn wf(&self) -> bool {
        &&& self.piece_square@.len() == 12
        &&& forall|p: int| 0 <= p < 12 ==> (#[trigger] self.piece_square@[p])@.len() == 64
        &&& self.castling_rights@.len() == 4
        &&& self.en_passant@.len() == 64
    }

    /// Fresh keys from the generator seeded with 123, filled piece by piece and
    /// square by square, then castling rights, en passant squares, side to move.
    pub fn init(self) -> (r: Zobrist)
        ensures
            r.wf(),
    {
        let seed: u64 = 123;
        let mut rng = seeded_rng(seed);
        let mut piece_square: Vec<Vec<u64>> = Vec::new();
        let mut piece: usize = 0;
        while piece < 12
            invariant
                piece <= 12,
                piece_square@.len() == piece,
                forall|p: int| 0 <= p < piece ==> (#[trigger] piece_square@[p])@.len() == 64,
            decreases 12 - piece,
        {
            let row = keys(&mut rng, 64);
            piece_square.push(row);
            piece = piece + 1;
        }
        let castling_rights = keys(&mut rng, 4);
        let en_passant = keys(&mut rng, 64);
        let side_to_move = next_key(&mut rng);
        Zobrist { piece_square, castling_rights, en_passant, side_to_move }
    }

    /// A copy of the keys.
    pub fn copy(&self) -> (r: Zobrist)
        ensures
            r.piece_square@.len() == self.piece_square@.len(),
            forall|p: int| 0 <= p < self.piece_square@.len() ==> (#[trigger] r.piece_square@[p])@ == self.piece_square@[p]@,
            r.castling_rights@ == self.castling_rights@,
            r.en_passant@ == self.en_passant@,
            r.side_to_move == self.side_to_move,
            self.wf() ==> r.wf(),
    {
        let mut piece_square: Vec<Vec<u64>> = Vec::new();
        let mut p: usize = 0;
        while p < self.piece_square.len()
            invariant
                p <= self.piece_square@.len(),
                piece_square@.len() == p,
                forall|q: int| 0 <= q < p ==> (#[trigger] piece_square@[q])@ == self.piece_square@[q]@,
            decreases self.piece_square@.len() - p,
        {
            piece_square.push(copy_keys(&self.piece_square[p]));
            p = p + 1;
        }
        Zobrist {
            piece_square,
            castling_rights: copy_keys(&self.castling_rights),
            en_passant: copy_keys(&self.en_passant),
            side_to_move: self.side_to_move,
        }
    }

    /// Keys from the seeded generator.
    pub fn new() -> (r: Self)
        ensures
            r.wf(),
    {
        Zobrist::default().init()
    }
}

impl Default for Zobrist {
    /// All keys zero.
    fn default() -> (r: Self)
        ensures
            r.wf(),
            r.side_to_move == 0,
            forall|p: int, s: int| 0 <= p < 12 && 0 <= s < 64 ==> #[trigger] r.piece_square@[p]@[s] == 0,
            forall|i: int| 0 <= i < 4 ==> #[trigger] r.castling_rights@[i] == 0,
            forall|i: int| 0 <= i < 64 ==> #[trigger] r.en_passant@[i] == 0,
    {
        let mut piece_square: Vec<Vec<u64>> = Vec::new();
        let mut piece: usize = 0;
        while piece < 12
            invariant
                piece <= 12,
                piece_square@.len() == piece,
                forall|p: int| 0 <= p < piece ==> (#[trigger] piece_square@[p])@ == Seq::new(64, |j: int| 0u64),
            decreases 12 - piece,
        {
            piece_square.push(zero_keys(64));
            piece = piece + 1;
        }
        Zobrist {
            piece_square,
            castling_rights: zero_keys(4),
            en_passant: zero_keys(64),
            side_to_move: 0,
        }
    }
}

/// The index of a piece in the piece tables: its kind's rank, plus 6 for Black.
pub open spec fn piece_index(piece: Piece) -> int {
    match piece.color {
        Color::White => type_piece_rank(piece.type_piece),
        Color::Black => type_piece_rank(piece.type_piece) + 6,
    }
}

/// The index of a piece in the piece tables.
pub fn piece_to_index(piece: Piece) -> (r: usize)
    ensures
        r == piece_index(piece),
        r < 12,
{
    let idx = piece.type_piece().index() as usize;
    match piece.color() {
        Color::White => idx,
        Color::Black => idx + 6,
    }
}

/// A position hash.
#[derive(Debug, Clone, Copy, PartialEq, Eq, Hash, Structural)]
pub struct ZobristHash(pub u64);

impl Default for ZobristHash {
    /// The hash of nothing: zero.
    fn default() -> (r: Self)
        ensures
            r.0 == 0,
    {
        ZobristHash(0)
    }
}

/// The xor of the keys of the pieces on the first `n` squares.
pub open spec fn pieces_hash(z: Zobrist, bb: BitBoardsWhiteAndBlack, n: int) -> u64
    decreases n,
{
    if n <= 0 {
        0u64
    } else {
        let h = pieces_hash(z, bb, n - 1);
        match peek_square(bb, n - 1) {
            Square::NonEmpty(p) => h ^ z.piece_square@[piece_index(p)]@[n - 1],
            Square::Empty => h,
        }
    }
}

/// The hash of a position: the keys of its pieces, of its castling rights (white
/// king side, white queen side, black king side, black queen side), of its en
/// passant square, and of the side to move when Black is to move.
pub open spec fn position_hash(z: Zobrist, p: BitPosition) -> u64 {
    let st = p.bit_position_status;
    let h0 = pieces_hash(z, p.bit_boards_white_and_black, 64);
    let h1 = if st.spec_castling_white_king_side() { h0 ^ z.castling_rights@[0] } else { h0 };
    let h2 = if st.spec_castling_white_queen_side() { h1 ^ z.castling_rights@[1] } else { h1 };
    let h3 = if st.spec_castling_black_king_side() { h2 ^ z.castling_rights@[2] } else { h2 };
    let h4 = if st.spec_castling_black_queen_side() { h3 ^ z.castling_rights@[3] } else { h3 };
    let h5 = match st.spec_en_passant() {
        Some(e) => h4 ^ z.en_passant@[e.0 as int],
        None => h4,
    };
    if !st.spec_player_turn_white() { h5 ^ z.side_to_move } else { h5 }
}

impl ZobristHash {
    pub fn value(&self) -> (r: u64)
        ensures
            r == self.0,
    {
        self.0
    }

    /// The hash of a position (see `position_hash`).
    pub fn zobrist_hash_from_position(bit_position: &BitPosition, zobrist: &Zobrist) -> (r: Self)
        requires
            zobrist.wf(),
        ensures
            r.0 == position_hash(*zobrist, *bit_position),
    {
        let mut zobrist_hash = ZobristHash::default();
        let bit_boards_white_and_black = bit_position.bit_boards_white_and_black();
        let status = bit_position.bit_position_status();
        let mut square_idx: u8 = 0;
        while square_idx < 64
            invariant
                square_idx <= 64,
                zobrist.wf(),
                *bit_boards_white_and_black == bit_position.bit_boards_white_and_black,
                zobrist_hash.0 == pieces_hash(*zobrist, *bit_boards_white_and_black, square_idx as int),
            decreases 64 - square_idx,
        {
            if let Square::NonEmpty(piece) = bit_boards_white_and_black.peek(BitIndex::new(square_idx)) {
                zobrist_hash = zobrist_hash.xor_piece(zobrist, piece, square_idx as usize);
            }
            square_idx = square_idx + 1;
        }
        if status.castling_white_king_side() {
            zobrist_hash = zobrist_hash.xor_castling_white_king_side(zobrist);
        }
        if status.castling_white_queen_side() {
            zobrist_hash = zobrist_hash.xor_castling_white_queen_side(zobrist);
        }
        if status.castling_black_king_side() {
            zobrist_hash = zobrist_hash.xor_castling_black_king_side(zobrist);
        }
        if status.castling_black_queen_side() {
            zobrist_hash = zobrist_hash.xor_castling_black_queen_side(zobrist);
        }
        if let Some(ep_square) = status.pawn_en_passant() {
            zobrist_hash = zobrist_hash.xor_en_passant(ep_square, zobrist);
        }
        if !status.player_turn_white() {
            zobrist_hash = zobrist_hash.xor_player_turn(zobrist);
        }
        zobrist_hash
    }

    /// The hash with the key of `piece_add_or_remove` on square `square_idx` toggled.
    pub fn xor_piece(&self, zobrist: &Zobrist, piece_add_or_remove: Piece, square_idx: usize) -> (r: Self)
        requires
            zobrist.wf(),
            square_idx < 64,
        ensures
            r.0 == self.0 ^ zobrist.piece_square@[piece_index(piece_add_or_remove)]@[square_idx as int],
    {
        let piece_index = piece_to_index(piece_add_or_remove);
        ZobristHash(self.0 ^ zobrist.piece_square[piece_index][square_idx])
    }

    /// The hash with the white king side castling key toggled.
    pub fn xor_castling_white_king_side(&self, zobrist: &Zobrist) -> (r: Self)
        requires
            zobrist.wf(),
        ensures
            r.0 == self.0 ^ zobrist.castling_rights@[0],
    {
        ZobristHash(self.0 ^ zobrist.castling_rights[0])
    }

    /// The hash with the white queen side castling key toggled.
    pub fn xor_castling_white_queen_side(&self, zobrist: &Zobrist) -> (r: Self)
        requires
            zobrist.wf(),
        ensures
            r.0 == self.0 ^ zobrist.castling_rights@[1],
    {
        ZobristHash(self.0 ^ zobrist.castling_rights[1])
    }

    /// The hash with the black king side castling key toggled.
    pub fn xor_castling_black_king_side(&self, zobrist: &Zobrist) -> (r: Self)
        requires
            zobrist.wf(),
        ensures
            r.0 == self.0 ^ zobrist.castling_rights@[2],
    {
        ZobristHash(self.0 ^ zobrist.castling_rights[2])
    }

    /// The hash with the black queen side castling key toggled.
    pub fn xor_castling_black_queen_side(&self, zobrist: &Zobrist) -> (r: Self)
        requires
            zobrist.wf(),
        ensures
            r.0 == self.0 ^ zobrist.castling_rights@[3],
    {
        ZobristHash(self.0 ^ zobrist.castling_rights[3])
    }

    /// The hash with the key of en passant square `ep_square` toggled.
    pub fn xor_en_passant(&self, ep_square: BitIndex, zobrist: &Zobrist) -> (r: Self)
        requires
            zobrist.wf(),
            ep_square.0 < 64,
        ensures
            r.0 == self.0 ^ zobrist.en_passant@[ep_square.0 as int],
    {
        ZobristHash(self.0 ^ zobrist.en_passant[ep_square.value() as usize])
    }

    /// The hash with the side to move key toggled.
    pub fn xor_player_turn(&self, zobrist: &Zobrist) -> (r: Self)
        ensures
            r.0 == self.0 ^ zobrist.side_to_move,
    {
        ZobristHash(self.0 ^ zobrist.side_to_move)
    }
}

/// Toggling a key twice gives the hash back: putting a piece on a square and
/// taking it off again, or passing the turn twice, leaves the hash unchanged.
pub proof fn lemma_toggle_twice(zobrist: Zobrist, hash: ZobristHash, piece: Piece, square_idx: int)
    requires
        zobrist.wf(),
        0 <= square_idx < 64,
    ensures
        (hash.0 ^ zobrist.piece_square@[piece_index(piece)]@[square_idx]) ^ zobrist.piece_square@[
            piece_index(piece)
        ]@[square_idx] == hash.0,
        (hash.0 ^ zobrist.side_to_move) ^ zobrist.side_to_move == hash.0,
{
    let h = hash.0;
    let k = zobrist.piece_square@[piece_index(piece)]@[square_idx];
    let t = zobrist.side_to_move;
    assert((h ^ k) ^ k == h && (h ^ t) ^ t == h) by (bit_vector);
}

/// The hashes of the positions of a game, oldest first.
#[derive(Debug, Clone)]
pub struct ZobristHistory {
    pub hashes: Vec<ZobristHash>,
}

/// How many of the hashes at `i`, `i - 2`, `i - 4`, ... of `h`, down to index
/// `lo` (and never below 0), equal `x`.
pub open spec fn repetitions(h: Seq<ZobristHash>, i: int, lo: int, x: ZobristHash) -> nat
    decreases i + 2,
{
    if i < lo || i < 0 {
        0
    } else {
        (if h[i] == x { 1nat } else { 0nat }) + repetitions(h, i - 2, lo, x)
    }
}

/// The first index looked at for a repetition: `n_half_moves` hashes before
/// the last one.
pub open spec fn repetition_start(len: int, n_half_moves: int) -> int {
    len - 1 - n_half_moves
}

impl Default for ZobristHistory {
    /// No hash.
    fn default() -> (r: Self)
        ensures
            r.hashes@ == Seq::<ZobristHash>::empty(),
    {
        ZobristHistory { hashes: Vec::new() }
    }
}

impl ZobristHistory {
    /// Whether the last position occurred three times among the positions with
    /// the same side to move since the last capture or pawn move: the last
    /// hash and every second one before it, back to `n_half_moves` hashes
    /// before it; never below 8 half moves.
    pub fn check_3x(&self, n_half_moves: u16) -> (r: bool)
        ensures
            r == (n_half_moves >= 8 && self.hashes@.len() > 0 && repetitions(
                self.hashes@,
                self.hashes@.len() - 1,
                repetition_start(self.hashes@.len() as int, n_half_moves as int),
                self.hashes@.last(),
            ) >= 3),
    {
        if n_half_moves < 8 {
            return false;
        }
        let len = self.hashes.len();
        if len == 0 {
            return false;
        }
        let hash = self.hashes[len - 1];
        let ghost h = self.hashes@;
        let ghost lo = repetition_start(len as int, n_half_moves as int);
        let lo_index: usize = if len - 1 >= n_half_moves as usize { len - 1 - n_half_moves as usize } else { 0 };
        let mut count: usize = 0;
        let mut i: usize = len - 1;
        loop
            invariant_except_break
                lo_index <= i < len,
                count + repetitions(h, i as int, lo, hash) == repetitions(h, len - 1, lo, hash),
                count <= len - 1 - i,
            invariant
                h == self.hashes@,
                len == h.len(),
                hash == h.last(),
                lo_index == (if lo >= 0 { lo } else { 0 }),
            ensures
                count == repetitions(h, len - 1, lo, hash),
            decreases i,
        {
            let ghost i0 = i as int;
            if self.hashes[i] == hash {
                count = count + 1;
            }
            if i >= 2 && i - 2 >= lo_index {
                i = i - 2;
            } else {
                assert(repetitions(h, i0 - 2, lo, hash) == 0);
                break;
            }
        }
        count >= 3
    }

    pub fn list(&self) -> (r: &Vec<ZobristHash>)
        ensures
            r@ == self.hashes@,
    {
        &self.hashes
    }

    /// Adds the hash of the latest position.
    pub fn push(&mut self, hash: ZobristHash)
        ensures
            final(self).hashes@ == old(self).hashes@.push(hash),
    {
        self.hashes.push(hash);
    }

    /// Removes the hash of the latest position.
    pub fn pop(&mut self)
        requires
            old(self).hashes@.len() > 0,
        ensures
            final(self).hashes@ == old(self).hashes@.drop_last(),
    {
        self.hashes.pop();
    }
}

} // verus!
