//! The two persistent records of the ledger — a pool and a bet — with
//! their well-formedness invariants, and the prefix-sum model that ties a
//! pool's running total to its per-slot counters.

use vstd::prelude::*;

verus! {

/// Greatest number of competing outcome slots a pool can hold.
pub const MAX_SLOTS: usize = 8;

/// A 32-byte opaque identifier — a wallet, a pool key or a game id —
/// held as four words so that equality is plain field equality.
#[derive(Clone, Copy, Debug, PartialEq, Eq, Hash, Structural)]
pub struct Id32 {
    pub w0: u64,
    pub w1: u64,
    pub w2: u64,
    pub w3: u64,
}

impl Id32 {
    pub fn new(w0: u64, w1: u64, w2: u64, w3: u64) -> (r: Id32)
        ensures
            r == (Id32 { w0, w1, w2, w3 }),
    {
        Id32 { w0, w1, w2, w3 }
    }
}

/// Sum of the first `n` counters of `s`.
pub open spec fn sum_prefix(s: Seq<u64>, n: int) -> int
    decreases n,
{
    if n <= 0 {
        0
    } else {
        sum_prefix(s, n - 1) + s[n - 1]
    }
}

/// The betting market for one event: phase, per-slot stake counters and
/// the winner once decided.
#[derive(Debug)]
pub struct GamePool {
    /// Identity authorized to close betting and settle.
    pub owner: Id32,
    /// Opaque identifier of the event this pool is for.
    pub game_id: Id32,
    /// Number of competing outcome slots; only counters below it count.
    pub n_slots: u8,
    /// Unset until settlement; then the index of the winning slot.
    pub winning_slot: Option<u8>,
    /// Running total of every stake ever placed into this pool.
    pub total_lamports: u64,
    /// Cumulative stakes per slot; indices `n_slots..` stay zero.
    pub slot_totals: [u64; 8],
    /// True once the winner is recorded; terminal.
    pub is_settled: bool,
    /// Accepts new stakes while true.
    pub is_open: bool,
}

impl GamePool {
    /// Well-formedness: the slot count is in range, the running total is
    /// exactly the sum of the meaningful counters, the winner is recorded
    /// if and only if the pool is settled (and then in range), a settled
    /// pool is closed, and the counters past `n_slots` are zero.
    pub open spec fn wf(self) -> bool {
        &&& 1 <= self.n_slots <= MAX_SLOTS
        &&& self.total_lamports == sum_prefix(self.slot_totals@, self.n_slots as int)
        &&& (self.winning_slot is Some <==> self.is_settled)
        &&& (self.winning_slot is Some ==> self.winning_slot->0 < self.n_slots)
        &&& (self.is_settled ==> !self.is_open)
        &&& (forall|i: int| self.n_slots <= i < MAX_SLOTS ==> self.slot_totals@[i] == 0)
    }
}

/// One bettor's position in one pool: the chosen slot is fixed at the
/// first stake, the amount only grows, and `claimed` flips once.
#[derive(Clone, Copy, Debug, PartialEq, Eq, Structural)]
pub struct Bet {
    /// The pool this bet belongs to (the pool's `game_id`).
    pub pool: Id32,
    /// The identity that placed the stake.
    pub bettor: Id32,
    /// Outcome slot backed by this bet; immutable after creation.
    pub slot: u8,
    /// Cumulative stake placed by this bettor; kept for audit after a
    /// claim, never zeroed.
    pub lamports: u64,
    /// True once the payout has been disbursed.
    pub claimed: bool,
}

/// Two prefixes that agree pointwise have the same sum.
pub proof fn lemma_sum_prefix_congruence(s: Seq<u64>, t: Seq<u64>, n: int)
    requires
        forall|j: int| 0 <= j < n ==> s[j] == t[j],
    ensures
        sum_prefix(s, n) == sum_prefix(t, n),
    decreases n,
{
    if n > 0 {
        lemma_sum_prefix_congruence(s, t, n - 1);
    }
}

/// A prefix of zero counters sums to zero.
pub proof fn lemma_sum_prefix_zero(s: Seq<u64>, n: int)
    requires
        forall|j: int| 0 <= j < n ==> s[j] == 0,
    ensures
        sum_prefix(s, n) == 0,
    decreases n,
{
    if n > 0 {
        lemma_sum_prefix_zero(s, n - 1);
    }
}

/// Replacing the counter at `i` moves the prefix sum by exactly the
/// difference.
pub proof fn lemma_sum_prefix_update(s: Seq<u64>, n: int, i: int, v: u64)
    requires
        0 <= i < n <= s.len(),
    ensures
        sum_prefix(s.update(i, v), n) == sum_prefix(s, n) - s[i] + v,
    decreases n,
{
    let t = s.update(i, v);
    if i == n - 1 {
        lemma_sum_prefix_congruence(s, t, n - 1);
    } else {
        lemma_sum_prefix_update(s, n - 1, i, v);
    }
}

/// A prefix sum of unsigned counters is never negative.
pub proof fn lemma_sum_prefix_nonneg(s: Seq<u64>, n: int)
    ensures
        sum_prefix(s, n) >= 0,
    decreases n,
{
    if n > 0 {
        lemma_sum_prefix_nonneg(s, n - 1);
    }
}

/// Each counter inside the prefix is bounded by the prefix sum.
pub proof fn lemma_element_le_sum_prefix(s: Seq<u64>, n: int, i: int)
    requires
        0 <= i < n,
    ensures
        s[i] <= sum_prefix(s, n),
    decreases n,
{
    if i == n - 1 {
        lemma_sum_prefix_nonneg(s, n - 1);
    } else {
        lemma_element_le_sum_prefix(s, n - 1, i);
    }
}

} // verus!
