//! Scores of positions and moves, the order moves are searched in, and the
//! table of scores already computed.
use vstd::prelude::*;
use std::cmp::Ordering;
use std::collections::HashMap;
use crate::bitboard_move::BitBoardMove;
use crate::square::{Color, TypePiece, TypePiecePromotion};
use crate::zobrist::ZobristHash;

verus! {

/// The score of a mate by White.
pub const SCORE_MAT_WHITE: i32 = 2147483647i32;

/// The score of a mate by Black.
pub const SCORE_MAT_BLACK: i32 = -2147483648i32;

/// A score: its value (from White's side), the depth it was found at and the
/// depth the search went to.
#[derive(Debug, Copy, Clone, PartialEq, Eq, Structural)]
pub struct Score {
    pub value: i32,
    pub current_depth: u8,
    pub max_depth: u8,
}

/// The number of plies searched below the score's depth.
pub open spec fn path_len(s: Score) -> int {
    s.max_depth - s.current_depth
}

/// The depths of a score are in order.
pub open spec fn depths_ok(s: Score) -> bool {
    s.current_depth <= s.max_depth
}

impl Score {
    pub fn new(value: i32, current_depth: u8, max_depth: u8) -> (r: Self)
        ensures
            r == (Score { value, current_depth, max_depth }),
    {
        Score { value, current_depth, max_depth }
    }

    /// The plies searched below the score's depth.
    pub fn depth_analysis(&self) -> (r: u8)
        requires
            depths_ok(*self),
        ensures
            r == path_len(*self),
    {
        self.max_depth - self.current_depth
    }

    /// A higher value, or the same value over a longer path.
    pub fn is_greater_than(&self, score: &Score) -> (r: bool)
        requires
            self.value == score.value ==> depths_ok(*self) && depths_ok(*score),
        ensures
            r == (self.value > score.value || (self.value == score.value && path_len(*self) > path_len(
                *score,
            ))),
    {
        self.value > score.value || self.value == score.value && self.path_length() > score.path_length()
    }

    /// A lower value, or the same value over a longer path.
    pub fn is_less_than(&self, score: &Score) -> (r: bool)
        requires
            self.value == score.value ==> depths_ok(*self) && depths_ok(*score),
        ensures
            r == (self.value < score.value || (self.value == score.value && path_len(*self) > path_len(
                *score,
            ))),
    {
        self.value < score.value || self.value == score.value && self.path_length() > score.path_length()
    }

    pub fn current_depth(&self) -> (r: u8)
        ensures
            r == self.current_depth,
    {
        self.current_depth
    }

    pub fn max_depth(&self) -> (r: u8)
        ensures
            r == self.max_depth,
    {
        self.max_depth
    }

    /// The plies searched below the score's depth.
    pub fn path_length(&self) -> (r: u8)
        requires
            depths_ok(*self),
        ensures
            r == path_len(*self),
    {
        self.max_depth - self.current_depth
    }

    pub fn value(&self) -> (r: i32)
        ensures
            r == self.value,
    {
        self.value
    }
}

/// Why a move is searched early.
#[derive(Debug, Copy, Clone, PartialEq, Eq, Structural)]
pub enum PreOrder {
    /// Nothing special.
    Depth,
    /// The last move played.
    LastMove,
    /// A capture; the bigger `delta`, the better the trade.
    Capture { delta: i32 },
    /// A check, hoping for a mate of `defender_color`.
    SearchMat { defender_color: Color },
    /// A move that cut the search at the same depth before.
    KillerMove,
    /// Already scored at the current depth.
    CurrentDepthScore(Score),
    /// Already scored at a lower depth.
    PreviousDepthScore(Score),
    /// A promotion.
    Promotion(TypePiecePromotion),
}

/// The rank of a promotion: queen 5, rook 4, knight and bishop 3.
pub open spec fn promotion_rank(p: TypePiecePromotion) -> u8 {
    match p {
        TypePiecePromotion::Queen => 5,
        TypePiecePromotion::Rook => 4,
        TypePiecePromotion::Knight => 3,
        TypePiecePromotion::Bishop => 3,
    }
}

impl PreOrder {
    /// A check against `defender_color`.
    pub fn new_mat(defender_color: Color) -> (r: Self)
        ensures
            r == (PreOrder::SearchMat { defender_color }),
    {
        PreOrder::SearchMat { defender_color }
    }

    fn promotion_value(promotion: &TypePiecePromotion) -> (r: u8)
        ensures
            r == promotion_rank(*promotion),
    {
        match promotion {
            TypePiecePromotion::Queen => 5,
            TypePiecePromotion::Rook => 4,
            TypePiecePromotion::Knight => 3,
            TypePiecePromotion::Bishop => 3,
        }
    }

    /// Anything but a plain move or an already scored one.
    pub fn is_special(&self) -> (r: bool)
        ensures
            r == !(*self is Depth || *self is CurrentDepthScore || *self is PreviousDepthScore),
    {
        match self {
            PreOrder::Depth | PreOrder::CurrentDepthScore(_) | PreOrder::PreviousDepthScore(_) => false,
            _ => true,
        }
    }
}

/// How a stored score bounds the true one.
#[derive(Debug, Copy, Clone, PartialEq, Eq, Structural)]
pub enum BoundScore {
    Exact,
    LowerBound,
    UpperBound,
}

/// A move with its score and the line of moves that led to the score.
#[derive(Debug, Clone)]
pub struct BitboardMoveScore {
    pub bitboard_move: BitBoardMove,
    pub score: Score,
    pub variant: String,
}

impl BitboardMoveScore {
    pub fn new(bitboard_move: BitBoardMove, score: Score, variant: String) -> (r: Self)
        ensures
            r.bitboard_move == bitboard_move,
            r.score == score,
            r.variant@ == variant@,
    {
        BitboardMoveScore { bitboard_move, score, variant }
    }

    pub fn score(&self) -> (r: &Score)
        ensures
            *r == self.score,
    {
        &self.score
    }

    pub fn bitboard_move(&self) -> (r: &BitBoardMove)
        ensures
            *r == self.bitboard_move,
    {
        &self.bitboard_move
    }

    pub fn get_variant(&self) -> (r: String)
        ensures
            r@ == self.variant@,
    {
        self.variant.clone()
    }

    pub fn set_variant(&mut self, variant: &str)
        ensures
            final(self).variant@ == variant@,
            final(self).bitboard_move == old(self).bitboard_move,
            final(self).score == old(self).score,
    {
        self.variant = variant.to_owned();
    }
}

/// A move that mates in `mat_in` moves, with the line of moves.
#[derive(Debug, Clone)]
pub struct BitboardMoveScoreMat {
    pub bitboard_move: BitBoardMove,
    pub mat_in: u8,
    pub variant: String,
}

impl BitboardMoveScoreMat {
    pub fn new(bitboard_move: BitBoardMove, mat_in: u8, variant: &str) -> (r: Self)
        ensures
            r.bitboard_move == bitboard_move,
            r.mat_in == mat_in,
            r.variant@ == variant@,
    {
        BitboardMoveScoreMat { bitboard_move, mat_in, variant: variant.to_owned() }
    }

    pub fn mat_in(&self) -> (r: u8)
        ensures
            r == self.mat_in,
    {
        self.mat_in
    }

    pub fn bitboard_move(&self) -> (r: &BitBoardMove)
        ensures
            *r == self.bitboard_move,
    {
        &self.bitboard_move
    }

    pub fn variant(&self) -> (r: String)
        ensures
            r@ == self.variant@,
    {
        self.variant.clone()
    }
}

/// A move being searched: its score once known, and its line of moves.
#[derive(Debug, Clone)]
pub struct MoveStatus {
    pub b_move: BitBoardMove,
    pub score_opt: Option<Score>,
    pub variant: String,
}

impl MoveStatus {
    /// A move not scored yet, with an empty line.
    pub fn from_move(b_move: BitBoardMove) -> (r: Self)
        ensures
            r.b_move == b_move,
            r.score_opt is None,
            r.variant@ == Seq::<char>::empty(),
    {
        MoveStatus { b_move, score_opt: None, variant: String::new() }
    }

    pub fn get_move(&self) -> (r: &BitBoardMove)
        ensures
            *r == self.b_move,
    {
        &self.b_move
    }

    pub fn reset_score(&mut self)
        ensures
            final(self).score_opt is None,
            final(self).b_move == old(self).b_move,
            final(self).variant@ == old(self).variant@,
    {
        self.score_opt = None;
    }

    pub fn get_score(&self) -> (r: Option<&Score>)
        ensures
            r == match self.score_opt {
                Some(s) => Some(&s),
                None => None::<&Score>,
            },
    {
        self.score_opt.as_ref()
    }

    /// The move with its score, once scored.
    pub fn get_bitboard_move_score(&self) -> (r: Option<BitboardMoveScore>)
        ensures
            r is Some <==> self.score_opt is Some,
            r matches Some(m) ==> m.bitboard_move == self.b_move && Some(m.score) == self.score_opt
                && m.variant@ == self.variant@,
    {
        match self.score_opt {
            Some(score) => Some(BitboardMoveScore::new(self.b_move, score, self.variant.clone())),
            None => None,
        }
    }

    pub fn set_score(&mut self, score: Score)
        ensures
            final(self).score_opt == Some(score),
            final(self).b_move == old(self).b_move,
            final(self).variant@ == old(self).variant@,
    {
        self.score_opt = Some(score);
    }

    pub fn get_variant(&self) -> (r: String)
        ensures
            r@ == self.variant@,
    {
        self.variant.clone()
    }

    pub fn set_variant(&mut self, variant: &str)
        ensures
            final(self).variant@ == variant@,
            final(self).b_move == old(self).b_move,
            final(self).score_opt == old(self).score_opt,
    {
        self.variant = variant.to_owned();
    }
}

/// An entry of the table of scores: the best move with its score, how the score
/// bounds the true one, and the half move count when it was stored.
#[derive(Debug, Clone)]
pub struct TranspositionEntry {
    pub move_score: BitboardMoveScore,
    pub type_score: BoundScore,
    pub age: u16,
}

/// Two entries agree on everything, their lines as texts.
pub open spec fn same_entry(a: TranspositionEntry, b: TranspositionEntry) -> bool {
    &&& a.move_score.bitboard_move == b.move_score.bitboard_move
    &&& a.move_score.score == b.move_score.score
    &&& a.move_score.variant@ == b.move_score.variant@
    &&& a.type_score == b.type_score
    &&& a.age == b.age
}

impl TranspositionEntry {
    pub fn new(move_score: BitboardMoveScore, type_score: BoundScore, n_half_moves: u16) -> (r: Self)
        ensures
            r.move_score.bitboard_move == move_score.bitboard_move,
            r.move_score.score == move_score.score,
            r.move_score.variant@ == move_score.variant@,
            r.type_score == type_score,
            r.age == n_half_moves,
    {
        TranspositionEntry { move_score, type_score, age: n_half_moves }
    }

    pub fn move_score(&self) -> (r: &BitboardMoveScore)
        ensures
            r.bitboard_move == self.move_score.bitboard_move,
            r.score == self.move_score.score,
            r.variant@ == self.move_score.variant@,
    {
        &self.move_score
    }

    pub fn type_score(&self) -> (r: BoundScore)
        ensures
            r == self.type_score,
    {
        self.type_score
    }

    pub fn age(&self) -> (r: u16)
        ensures
            r == self.age,
    {
        self.age
    }

    /// A copy of the entry.
    fn copy(&self) -> (r: Self)
        ensures
            same_entry(r, *self),
    {
        TranspositionEntry {
            move_score: BitboardMoveScore {
                bitboard_move: self.move_score.bitboard_move,
                score: self.move_score.score,
                variant: self.move_score.variant.clone(),
            },
            type_score: self.type_score,
            age: self.age,
        }
    }
}

/// The scores already computed, by position hash.
pub struct TranspositionScore {
    pub table: HashMap<u64, TranspositionEntry>,
}

/// The entry of `h` in `old_map` is kept over a new score `score`: it was
/// searched over a shorter path, or over the same path from a lower depth.
pub open spec fn entry_kept(old_map: Map<u64, TranspositionEntry>, h: u64, score: Score) -> bool {
    old_map.contains_key(h) && (path_len(old_map[h].move_score.score) < path_len(score) || (path_len(
        old_map[h].move_score.score,
    ) == path_len(score) && old_map[h].move_score.score.current_depth < score.current_depth))
}

/// `new_map` is `old_map` after storing `move_score` for `h`: unchanged when the
/// entry of `h` is kept, else with that entry replaced and the others left.
pub open spec fn stored_in(
    old_map: Map<u64, TranspositionEntry>,
    new_map: Map<u64, TranspositionEntry>,
    h: u64,
    move_score: BitboardMoveScore,
    type_score: BoundScore,
    n_half_moves: u16,
) -> bool {
    if entry_kept(old_map, h, move_score.score) {
        new_map == old_map
    } else {
        &&& new_map.dom() == old_map.dom().insert(h)
        &&& forall|k: u64| k != h && #[trigger] old_map.contains_key(k) ==> new_map[k] == old_map[k]
        &&& new_map[h].move_score.bitboard_move == move_score.bitboard_move
        &&& new_map[h].move_score.score == move_score.score
        &&& new_map[h].move_score.variant@ == move_score.variant@
        &&& new_map[h].type_score == type_score
        &&& new_map[h].age == n_half_moves
    }
}

/// What is stored is read back: after a store that replaces the entry of a
/// hash, a read of that hash at any depth up to the stored score's path finds
/// an entry with the stored move and score, and the entries of other hashes are
/// read as before.
pub proof fn lemma_store_then_read(
    old_map: Map<u64, TranspositionEntry>,
    new_map: Map<u64, TranspositionEntry>,
    h: u64,
    move_score: BitboardMoveScore,
    type_score: BoundScore,
    n_half_moves: u16,
    depth: u8,
)
    requires
        stored_in(old_map, new_map, h, move_score, type_score, n_half_moves),
        !entry_kept(old_map, h, move_score.score),
        depth <= path_len(move_score.score),
    ensures
        new_map.contains_key(h),
        path_len(new_map[h].move_score.score) >= depth,
        new_map[h].move_score.bitboard_move == move_score.bitboard_move,
        new_map[h].move_score.score == move_score.score,
        forall|k: u64| k != h ==> (#[trigger] new_map.contains_key(k) == old_map.contains_key(k)),
        forall|k: u64| k != h && #[trigger] old_map.contains_key(k) ==> new_map[k] == old_map[k],
{
    assert(new_map.dom().contains(h));
}

impl TranspositionScore {
    /// Every stored score has its depths in order.
    pub open spec fn wf(&self) -> bool {
        forall|h: u64| #[trigger] self.table@.contains_key(h) ==> depths_ok(self.table@[h].move_score.score)
    }

    /// The empty table.
    pub fn new() -> (r: Self)
        ensures
            r.table@ == Map::<u64, TranspositionEntry>::empty(),
            r.wf(),
    {
        broadcast use vstd::std_specs::hash::group_hash_axioms;

        TranspositionScore { table: HashMap::new() }
    }

    /// Empties the table.
    pub fn clear(&mut self)
        ensures
            final(self).table@ == Map::<u64, TranspositionEntry>::empty(),
            final(self).wf(),
    {
        broadcast use vstd::std_specs::hash::group_hash_axioms;

        self.table.clear();
    }

    /// The entry of `hash` when its score was searched at least `depth` plies.
    pub fn get_move_info(&self, hash: &ZobristHash, depth: u8) -> (r: Option<TranspositionEntry>)
        requires
            self.wf(),
        ensures
            match r {
                Some(e) => self.table@.contains_key(hash.0) && path_len(self.table@[hash.0].move_score.score)
                    >= depth && same_entry(e, self.table@[hash.0]),
                None => !(self.table@.contains_key(hash.0) && path_len(
                    self.table@[hash.0].move_score.score,
                ) >= depth),
            },
    {
        broadcast use vstd::std_specs::hash::group_hash_axioms;

        let mut content_opt: Option<TranspositionEntry> = None;
        if let Some(move_info) = self.table.get(&hash.0) {
            if move_info.move_score.score.path_length() >= depth {
                content_opt = Some(move_info.copy());
            }
        }
        content_opt
    }

    /// Stores `move_score` for `hash`, unless the stored score was searched over
    /// a shorter path, or over the same path from a lower depth.
    pub fn set_move_info(
        &mut self,
        hash: &ZobristHash,
        move_score: &BitboardMoveScore,
        type_score: BoundScore,
        n_half_moves: u16,
    )
        requires
            old(self).wf(),
            depths_ok(move_score.score),
        ensures
            final(self).wf(),
            stored_in(old(self).table@, final(self).table@, hash.0, *move_score, type_score, n_half_moves),
    {
        broadcast use vstd::std_specs::hash::group_hash_axioms;

        if let Some(v) = self.table.get(&hash.0) {
            let stored = v.move_score.score;
            if stored.path_length() < move_score.score.path_length() || stored.path_length()
                == move_score.score.path_length() && stored.current_depth() < move_score.score.current_depth() {
                return;
            }
        }
        let entry = TranspositionEntry::new(
            BitboardMoveScore::new(move_score.bitboard_move, move_score.score, move_score.variant.clone()),
            type_score,
            n_half_moves,
        );
        self.table.insert(hash.0, entry);
    }
}

/// The order of two integers: `Less` when `a < b`.
pub open spec fn i32_order(a: i32, b: i32) -> Ordering {
    if a < b {
        Ordering::Less
    } else if a == b {
        Ordering::Equal
    } else {
        Ordering::Greater
    }
}

/// The order of two small integers: `Less` when `a < b`.
pub open spec fn u8_order(a: u8, b: u8) -> Ordering {
    if a < b {
        Ordering::Less
    } else if a == b {
        Ordering::Equal
    } else {
        Ordering::Greater
    }
}

/// The reverse of an order.
pub open spec fn reversed(o: Ordering) -> Ordering {
    match o {
        Ordering::Less => Ordering::Greater,
        Ordering::Equal => Ordering::Equal,
        Ordering::Greater => Ordering::Less,
    }
}

fn order_i32(a: i32, b: i32) -> (r: Ordering)
    ensures
        r == i32_order(a, b),
{
    if a < b {
        Ordering::Less
    } else if a == b {
        Ordering::Equal
    } else {
        Ordering::Greater
    }
}

fn order_u8(a: u8, b: u8) -> (r: Ordering)
    ensures
        r == u8_order(a, b),
{
    if a < b {
        Ordering::Less
    } else if a == b {
        Ordering::Equal
    } else {
        Ordering::Greater
    }
}

/// The order of moves when looking for a mate: promotions first, then
/// captures, then the rest.
pub open spec fn preorder_mat_order(a: BitBoardMove, b: BitBoardMove) -> Ordering {
    if a.promotion is Some {
        Ordering::Less
    } else if b.promotion is Some {
        Ordering::Greater
    } else if a.capture is Some && b.capture is None {
        Ordering::Less
    } else if a.capture is None && b.capture is Some {
        Ordering::Greater
    } else {
        Ordering::Equal
    }
}

/// The order of moves when looking for a mate (see `preorder_mat_order`).
pub fn compare_preorder_mat(a: &BitBoardMove, b: &BitBoardMove) -> (r: Ordering)
    ensures
        r == preorder_mat_order(*a, *b),
{
    match (a.promotion(), b.promotion(), a.capture(), b.capture()) {
        (Some(_pa), _, _, _) => Ordering::Less,
        (_, Some(_pb), _, _) => Ordering::Greater,
        (_, _, Some(_cap_a), None) => Ordering::Less,
        (_, _, None, Some(_cap_b)) => Ordering::Greater,
        _ => Ordering::Equal,
    }
}

/// Higher scores first.
pub fn compare(a: &BitboardMoveScore, b: &BitboardMoveScore) -> (r: Ordering)
    ensures
        r == i32_order(b.score.value, a.score.value),
{
    order_i32(b.score.value, a.score.value)
}

/// The index `find_max` picks: the last of the moves with the lowest score
/// value (the greatest under `compare`).
pub open spec fn max_index(s: Seq<BitboardMoveScore>) -> int
    decreases s.len(),
{
    if s.len() <= 1 {
        0
    } else {
        let k = max_index(s.drop_last());
        if s.last().score.value <= s[k].score.value {
            s.len() - 1
        } else {
            k
        }
    }
}

/// The greatest move under `compare`, the last one on ties; `None` on an
/// empty slice.
pub fn find_max(vec: &[BitboardMoveScore]) -> (r: Option<&BitboardMoveScore>)
    ensures
        r == (if vec@.len() == 0 {
            None
        } else {
            Some(&vec@[max_index(vec@)])
        }),
{
    if vec.len() == 0 {
        return None;
    }
    let mut best: usize = 0;
    let mut i: usize = 1;
    assert(vec@.subrange(0, 1).drop_last().len() == 0);
    while i < vec.len()
        invariant
            0 <= best < i <= vec@.len(),
            best == max_index(vec@.subrange(0, i as int)),
        decreases vec@.len() - i,
    {
        let ghost prev = vec@.subrange(0, i as int);
        let ghost next = vec@.subrange(0, i + 1);
        assert(next.drop_last() =~= prev);
        assert(next.last() == vec@[i as int]);
        assert(prev[best as int] == vec@[best as int]);
        if vec[i].score.value <= vec[best].score.value {
            best = i;
        }
        i = i + 1;
    }
    assert(vec@.subrange(0, vec@.len() as int) =~= vec@);
    Some(&vec[best])
}

/// The value of a piece kind: pawn 1, knight and bishop 3, rook 5, queen 10,
/// king 0.
pub open spec fn piece_value(t: TypePiece) -> i32 {
    match t {
        TypePiece::Pawn => 1,
        TypePiece::Knight | TypePiece::Bishop => 3,
        TypePiece::Rook => 5,
        TypePiece::Queen => 10,
        TypePiece::King => 0,
    }
}

fn value_type_piece(type_piece: TypePiece) -> (r: i32)
    ensures
        r == piece_value(type_piece),
{
    match type_piece {
        TypePiece::Pawn => 1,
        TypePiece::Knight | TypePiece::Bishop => 3,
        TypePiece::Rook => 5,
        TypePiece::Queen => 10,
        _ => 0,
    }
}

/// The gain of a capture: the captured piece's value less the capturing one's,
/// plus one; zero without capture.
pub fn biased_capture(type_piece: TypePiece, capture_opt: Option<TypePiece>) -> (r: i32)
    ensures
        r == match capture_opt {
            None => 0,
            Some(c) => piece_value(c) - piece_value(type_piece) + 1,
        },
{
    match capture_opt {
        None => 0,
        Some(capture) => value_type_piece(capture) - value_type_piece(type_piece) + 1,
    }
}

/// The order moves are searched in: moves scored at the current depth first
/// (by score, ascending when `is_asc`), then killer moves, then moves scored at
/// a lower depth (by score), promotions (queen first), checks, captures by
/// decreasing gain (winning ones before plain moves, losing ones after).
pub open spec fn preorder_order(a: PreOrder, b: PreOrder, is_asc: bool) -> Ordering {
    if a == b {
        Ordering::Equal
    } else {
        match (a, b) {
            (PreOrder::CurrentDepthScore(s1), PreOrder::CurrentDepthScore(s2)) => if is_asc {
                i32_order(s1.value, s2.value)
            } else {
                i32_order(s2.value, s1.value)
            },
            (_, PreOrder::CurrentDepthScore(_)) => Ordering::Greater,
            (PreOrder::CurrentDepthScore(_), _) => Ordering::Less,
            (_, PreOrder::KillerMove) => Ordering::Greater,
            (PreOrder::KillerMove, _) => Ordering::Less,
            (PreOrder::PreviousDepthScore(s1), PreOrder::PreviousDepthScore(s2)) => if is_asc {
                i32_order(s1.value, s2.value)
            } else {
                i32_order(s2.value, s1.value)
            },
            (_, PreOrder::PreviousDepthScore(_)) => Ordering::Greater,
            (PreOrder::PreviousDepthScore(_), _) => Ordering::Less,
            (PreOrder::Promotion(pa), PreOrder::Promotion(pb)) => u8_order(promotion_rank(pb), promotion_rank(pa)),
            (PreOrder::Promotion(_), _) => Ordering::Less,
            (_, PreOrder::Promotion(_)) => Ordering::Greater,
            (PreOrder::SearchMat { .. }, _) => Ordering::Less,
            (_, PreOrder::SearchMat { .. }) => Ordering::Greater,
            (PreOrder::Capture { delta: da }, PreOrder::Capture { delta: db }) => i32_order(db, da),
            (PreOrder::Capture { delta }, PreOrder::Depth) => if delta >= 0 {
                Ordering::Less
            } else {
                Ordering::Greater
            },
            (PreOrder::Depth, PreOrder::Capture { delta }) => if delta >= 0 {
                Ordering::Greater
            } else {
                Ordering::Less
            },
            _ => Ordering::Equal,
        }
    }
}

/// The order moves are searched in (see `preorder_order`).
pub fn preorder_compare(a: &PreOrder, b: &PreOrder, is_asc: bool) -> (r: Ordering)
    ensures
        r == preorder_order(*a, *b, is_asc),
{
    if *a == *b {
        return Ordering::Equal;
    }
    match (a, b) {
        (PreOrder::CurrentDepthScore(sc1), PreOrder::CurrentDepthScore(sc2)) => {
            if is_asc {
                order_i32(sc1.value(), sc2.value())
            } else {
                order_i32(sc2.value(), sc1.value())
            }
        },
        (_, PreOrder::CurrentDepthScore(_)) => Ordering::Greater,
        (PreOrder::CurrentDepthScore(_), _) => Ordering::Less,
        (_, PreOrder::KillerMove) => Ordering::Greater,
        (PreOrder::KillerMove, _) => Ordering::Less,
        (PreOrder::PreviousDepthScore(sc1), PreOrder::PreviousDepthScore(sc2)) => {
            if is_asc {
                order_i32(sc1.value(), sc2.value())
            } else {
                order_i32(sc2.value(), sc1.value())
            }
        },
        (_, PreOrder::PreviousDepthScore(_)) => Ordering::Greater,
        (PreOrder::PreviousDepthScore(_), _) => Ordering::Less,
        (PreOrder::Promotion(pa), PreOrder::Promotion(pb)) => {
            order_u8(PreOrder::promotion_value(pb), PreOrder::promotion_value(pa))
        },
        (PreOrder::Promotion(_), _) => Ordering::Less,
        (_, PreOrder::Promotion(_)) => Ordering::Greater,
        (PreOrder::SearchMat { defender_color: _ }, _) => Ordering::Less,
        (_, PreOrder::SearchMat { defender_color: _ }) => Ordering::Greater,
        (PreOrder::Capture { delta: delta_a }, PreOrder::Capture { delta: delta_b }) => order_i32(
            *delta_b,
            *delta_a,
        ),
        (PreOrder::Capture { delta }, PreOrder::Depth) => {
            if *delta >= 0 {
                Ordering::Less
            } else {
                Ordering::Greater
            }
        },
        (PreOrder::Depth, PreOrder::Capture { delta }) => {
            if *delta >= 0 {
                Ordering::Greater
            } else {
                Ordering::Less
            }
        },
        _ => Ordering::Equal,
    }
}

/// Scored moves first, by decreasing score; moves not scored last.
pub open spec fn move_status_order(a: MoveStatus, b: MoveStatus) -> Ordering {
    match (a.score_opt, b.score_opt) {
        (Some(sa), Some(sb)) => i32_order(sb.value, sa.value),
        (Some(_), None) => Ordering::Less,
        (None, Some(_)) => Ordering::Greater,
        (None, None) => Ordering::Equal,
    }
}

/// The order of moves at depth one and below (see `move_status_order`).
pub fn order_move_status(a: &MoveStatus, b: &MoveStatus) -> (r: Ordering)
    ensures
        r == move_status_order(*a, *b),
{
    match (a.get_score(), b.get_score()) {
        (Some(score_a), Some(score_b)) => order_i32(score_b.value(), score_a.value()),
        (Some(_score_a), _) => Ordering::Less,
        (_, Some(_score_b)) => Ordering::Greater,
        _ => Ordering::Equal,
    }
}

/// Swapping the two moves reverses their order.
pub proof fn lemma_move_status_order_antisymmetric(a: MoveStatus, b: MoveStatus)
    ensures
        move_status_order(b, a) == reversed(move_status_order(a, b)),
{
}

/// The search order is transitive on the reasons the search gives (all but
/// `LastMove`): what comes no later than a second reason, which itself comes no
/// later than a third, comes no later than the third.
pub proof fn lemma_preorder_transitive(a: PreOrder, b: PreOrder, c: PreOrder, is_asc: bool)
    requires
        !(a is LastMove),
        !(b is LastMove),
        !(c is LastMove),
        !(preorder_order(a, b, is_asc) is Greater),
        !(preorder_order(b, c, is_asc) is Greater),
    ensures
        !(preorder_order(a, c, is_asc) is Greater),
{
}

/// Swapping two search reasons reverses their order, but for two checks
/// against different sides (both come first).
pub proof fn lemma_preorder_antisymmetric(a: PreOrder, b: PreOrder, is_asc: bool)
    requires
        !(a is SearchMat && b is SearchMat),
    ensures
        preorder_order(b, a, is_asc) == reversed(preorder_order(a, b, is_asc)),
{
}

} // verus!
