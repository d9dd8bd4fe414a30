//! Counters kept while an engine searches.
use vstd::prelude::*;

verus! {

/// How many positions are evaluated between two reports of the counters.
pub const SEND_STAT_EVERY_N_POSITION_EVALUATED: u64 = 5000;

/// The positions evaluated so far after one more: the count starts again
/// from zero when it reaches a multiple of the report period.
pub open spec fn counted(n: u64) -> u64 {
    if (n + 1) % (SEND_STAT_EVERY_N_POSITION_EVALUATED as int) == 0 {
        0
    } else {
        (n + 1) as u64
    }
}

/// The count after `k` more positions (see `counted`).
pub open spec fn counted_iter(n: u64, k: nat) -> u64
    decreases k,
{
    if k == 0 {
        n
    } else {
        counted(counted_iter(n, (k - 1) as nat))
    }
}

/// Counting `a` positions then `b` more is counting `a + b`.
pub proof fn lemma_counted_iter_add(n: u64, a: nat, b: nat)
    ensures
        counted_iter(counted_iter(n, a), b) == counted_iter(n, a + b),
    decreases b,
{
    if b > 0 {
        lemma_counted_iter_add(n, a, (b - 1) as nat);
    }
}

/// Counting one position is `counted`.
pub proof fn lemma_counted_iter_one(n: u64)
    ensures
        counted_iter(n, 1) == counted(n),
{
    assert(counted_iter(n, 0) == n);
}

/// Counting one position keeps the count in its block of the report period,
/// or starts it again from zero.
pub proof fn lemma_counted_block(n: u64)
    requires
        n < u64::MAX,
    ensures
        counted(n) / 5000 <= n / 5000,
{
    if (n + 1) % 5000 != 0 {
        assert((n + 1) / 5000 == n / 5000);
    }
}

/// The positions evaluated, the scores found again in the transposition table,
/// and the checks met.
#[derive(Debug)]
pub struct StatEval {
    pub n_positions_evaluated: u64,
    pub n_transposition_hit: u64,
    pub n_check: u64,
}

impl Default for StatEval {
    fn default() -> (r: Self)
        ensures
            r.n_positions_evaluated == 0,
            r.n_transposition_hit == 0,
            r.n_check == 0,
    {
        StatEval { n_positions_evaluated: 0, n_transposition_hit: 0, n_check: 0 }
    }
}

impl StatEval {
    pub fn n_positions_evaluated(&self) -> (r: u64)
        ensures
            r == self.n_positions_evaluated,
    {
        self.n_positions_evaluated
    }

    pub fn n_transposition_hit(&self) -> (r: u64)
        ensures
            r == self.n_transposition_hit,
    {
        self.n_transposition_hit
    }

    /// Counts one more position evaluated and returns the new count.
    pub fn inc_n_positions_evaluated(&mut self) -> (r: u64)
        requires
            old(self).n_positions_evaluated < u64::MAX,
        ensures
            r == old(self).n_positions_evaluated + 1,
            final(self).n_positions_evaluated == r,
            final(self).n_transposition_hit == old(self).n_transposition_hit,
            final(self).n_check == old(self).n_check,
    {
        self.n_positions_evaluated += 1;
        self.n_positions_evaluated
    }

    /// Counts one more score found in the table and returns the new count;
    /// past `u64::MAX` the count wraps around to zero.
    pub fn inc_n_transposition_hit(&mut self) -> (r: u64)
        ensures
            r == if old(self).n_transposition_hit == u64::MAX {
                0
            } else {
                old(self).n_transposition_hit + 1
            },
            final(self).n_transposition_hit == r,
            final(self).n_positions_evaluated == old(self).n_positions_evaluated,
            final(self).n_check == old(self).n_check,
    {
        self.n_transposition_hit = self.n_transposition_hit.wrapping_add(1);
        self.n_transposition_hit
    }

    /// Starts counting the positions evaluated from zero again.
    pub fn reset_n_positions_evaluated(&mut self)
        ensures
            final(self).n_positions_evaluated == 0,
            final(self).n_transposition_hit == old(self).n_transposition_hit,
            final(self).n_check == old(self).n_check,
    {
        self.n_positions_evaluated = 0;
    }

    /// Adds `n_check` checks and returns the new count.
    pub fn inc_n_check(&mut self, n_check: u64) -> (r: u64)
        requires
            old(self).n_check + n_check <= u64::MAX,
        ensures
            r == old(self).n_check + n_check,
            final(self).n_check == r,
            final(self).n_positions_evaluated == old(self).n_positions_evaluated,
            final(self).n_transposition_hit == old(self).n_transposition_hit,
    {
        self.n_check += n_check;
        self.n_check
    }
}

} // verus!
