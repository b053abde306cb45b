//! The laws of the ledger that span more than one record: the link
//! between a pool's per-slot counters and the bets that fed them, and
//! the conservation of funds through parimutuel payouts.
//!
//! The account store holds one `Bet` record per (pool, bettor) pair; a
//! `Seq<Bet>` here stands for the bets of one pool, in any order. The
//! operations themselves see one record at a time, so the multi-record
//! laws are stated over these sequences and proved from the operations'
//! contracts.

use vstd::arithmetic::div_mod::lemma_fundamental_div_mod;
use vstd::arithmetic::div_mod::lemma_mod_division_less_than_divisor;
use vstd::arithmetic::div_mod::lemma_multiply_divide_le;
use vstd::arithmetic::mul::lemma_mul_inequality;
use vstd::arithmetic::mul::lemma_mul_is_distributive_add;
use vstd::arithmetic::mul::lemma_mul_is_distributive_add_other_way;
use vstd::arithmetic::mul::lemma_mul_is_distributive_sub;
use vstd::arithmetic::mul::lemma_mul_nonnegative;
use vstd::prelude::*;

use crate::ops::payout_of;
use crate::ops::payout_remainder;
use crate::state::Bet;
use crate::state::GamePool;

verus! {

/// What one bet contributes to slot `s`: its stake if it backs `s`.
pub open spec fn stake_on(b: Bet, s: u8) -> int {
    if b.slot == s {
        b.lamports as int
    } else {
        0
    }
}

/// Total stake the bets of one pool have placed on slot `s`.
pub open spec fn slot_stake_sum(bets: Seq<Bet>, s: u8) -> int
    decreases bets.len(),
{
    if bets.len() == 0 {
        0
    } else {
        slot_stake_sum(bets.drop_last(), s) + stake_on(bets.last(), s)
    }
}

/// The cross-record invariant between a pool and its bets: every bet
/// carries the pool's key and a real slot, and each slot counter equals
/// the total stake the bets have placed on that slot.
pub open spec fn ledger_matches(pool: GamePool, bets: Seq<Bet>) -> bool {
    &&& (forall|i: int|
        0 <= i < bets.len() ==> (#[trigger] bets[i]).pool == pool.game_id && bets[i].slot
            < pool.n_slots)
    &&& (forall|s: u8| s < pool.n_slots ==> #[trigger] slot_stake_sum(bets, s)
        == pool.slot_totals@[s as int])
}

/// A stake sum of unsigned amounts is never negative.
pub proof fn lemma_slot_stake_sum_nonneg(bets: Seq<Bet>, s: u8)
    ensures
        slot_stake_sum(bets, s) >= 0,
    decreases bets.len(),
{
    if bets.len() > 0 {
        lemma_slot_stake_sum_nonneg(bets.drop_last(), s);
    }
}

/// Appending one bet adds exactly its contribution to each slot's sum.
pub proof fn lemma_slot_stake_sum_push(bets: Seq<Bet>, b: Bet, s: u8)
    ensures
        slot_stake_sum(bets.push(b), s) == slot_stake_sum(bets, s) + stake_on(b, s),
{
    assert(bets.push(b).drop_last() =~= bets);
}

/// Replacing the bet at `i` moves each slot's sum by the difference of
/// the two contributions.
pub proof fn lemma_slot_stake_sum_update(bets: Seq<Bet>, i: int, b2: Bet, s: u8)
    requires
        0 <= i < bets.len(),
    ensures
        slot_stake_sum(bets.update(i, b2), s) == slot_stake_sum(bets, s) - stake_on(bets[i], s)
            + stake_on(b2, s),
    decreases bets.len(),
{
    let t = bets.update(i, b2);
    if i == bets.len() - 1 {
        assert(t.drop_last() =~= bets.drop_last());
    } else {
        assert(t.drop_last() =~= bets.drop_last().update(i, b2));
        lemma_slot_stake_sum_update(bets.drop_last(), i, b2, s);
    }
}

/// No bet can exceed the sum its slot collects.
pub proof fn lemma_stake_le_slot_stake_sum(bets: Seq<Bet>, i: int, s: u8)
    requires
        0 <= i < bets.len(),
        bets[i].slot == s,
    ensures
        bets[i].lamports <= slot_stake_sum(bets, s),
    decreases bets.len(),
{
    if i == bets.len() - 1 {
        lemma_slot_stake_sum_nonneg(bets.drop_last(), s);
    } else {
        lemma_stake_le_slot_stake_sum(bets.drop_last(), i, s);
    }
}

/// A freshly created pool matches the empty ledger: no bets, all
/// counters zero.
pub proof fn lemma_create_matches_empty(pool: GamePool)
    requires
        forall|i: int| 0 <= i < pool.n_slots ==> pool.slot_totals@[i] == 0,
    ensures
        ledger_matches(pool, Seq::<Bet>::empty()),
{
}

/// A first stake keeps pool and bets in step: adding the new bet record
/// while its slot's counter grows by the same amount preserves the
/// ledger invariant. The counter update is exactly what `place_bet`
/// ensures on success for a previously absent bet.
pub proof fn lemma_place_new_preserves_ledger(
    pool: GamePool,
    pool2: GamePool,
    bets: Seq<Bet>,
    b: Bet,
)
    requires
        ledger_matches(pool, bets),
        pool.n_slots <= 8,
        b.pool == pool.game_id,
        b.slot < pool.n_slots,
        pool.slot_totals@[b.slot as int] + b.lamports <= u64::MAX,
        pool2.game_id == pool.game_id,
        pool2.n_slots == pool.n_slots,
        pool2.slot_totals@ == pool.slot_totals@.update(
            b.slot as int,
            (pool.slot_totals@[b.slot as int] + b.lamports) as u64,
        ),
        pool.slot_totals@.len() == 8,
    ensures
        ledger_matches(pool2, bets.push(b)),
{
    let bets2 = bets.push(b);
    assert forall|s: u8| s < pool2.n_slots implies #[trigger] slot_stake_sum(bets2, s)
        == pool2.slot_totals@[s as int] by {
        lemma_slot_stake_sum_push(bets, b, s);
    }
    assert(forall|i: int|
        0 <= i < bets2.len() ==> (#[trigger] bets2[i]).pool == pool2.game_id && bets2[i].slot
            < pool2.n_slots);
}

/// A further stake on an existing bet keeps pool and bets in step: the
/// bet's amount and its slot's counter grow by the same increment, all
/// other fields unchanged. This is exactly what `place_bet` ensures on
/// success for a present bet.
pub proof fn lemma_place_add_preserves_ledger(
    pool: GamePool,
    pool2: GamePool,
    bets: Seq<Bet>,
    i: int,
    b2: Bet,
    add: u64,
)
    requires
        ledger_matches(pool, bets),
        pool.n_slots <= 8,
        0 <= i < bets.len(),
        b2.pool == bets[i].pool,
        b2.slot == bets[i].slot,
        bets[i].lamports + add <= u64::MAX,
        b2.lamports == bets[i].lamports + add,
        pool.slot_totals@[b2.slot as int] + add <= u64::MAX,
        pool2.game_id == pool.game_id,
        pool2.n_slots == pool.n_slots,
        pool2.slot_totals@ == pool.slot_totals@.update(
            b2.slot as int,
            (pool.slot_totals@[b2.slot as int] + add) as u64,
        ),
        pool.slot_totals@.len() == 8,
    ensures
        ledger_matches(pool2, bets.update(i, b2)),
{
    let bets2 = bets.update(i, b2);
    assert forall|s: u8| s < pool2.n_slots implies #[trigger] slot_stake_sum(bets2, s)
        == pool2.slot_totals@[s as int] by {
        lemma_slot_stake_sum_update(bets, i, b2, s);
    }
    assert(forall|j: int|
        0 <= j < bets2.len() ==> (#[trigger] bets2[j]).pool == pool2.game_id && bets2[j].slot
            < pool2.n_slots);
}

/// A claim keeps pool and bets in step: it flips the claimed flag and
/// leaves amount, slot and key on the record — exactly what `claim`
/// ensures on success — so every slot's sum is untouched.
pub proof fn lemma_claim_preserves_ledger(pool: GamePool, bets: Seq<Bet>, i: int, b2: Bet)
    requires
        ledger_matches(pool, bets),
        0 <= i < bets.len(),
        b2 == (Bet { claimed: true, ..bets[i] }),
    ensures
        ledger_matches(pool, bets.update(i, b2)),
{
    let bets2 = bets.update(i, b2);
    assert forall|s: u8| s < pool.n_slots implies #[trigger] slot_stake_sum(bets2, s)
        == pool.slot_totals@[s as int] by {
        lemma_slot_stake_sum_update(bets, i, b2, s);
    }
}

/// Once settled, the bets on the winning slot account for exactly the
/// winning slot's counter.
pub proof fn lemma_settled_winner_stake(pool: GamePool, bets: Seq<Bet>)
    requires
        pool.wf(),
        pool.is_settled,
        ledger_matches(pool, bets),
    ensures
        slot_stake_sum(bets, pool.winning_slot->0) == pool.slot_totals@[pool.winning_slot->0 as int],
{
}

/// The payout never exceeds the whole pool: a winner's stake is bounded
/// by the winning slot's counter, so the proportional share is bounded
/// by the total. In particular the claim arithmetic cannot overflow for
/// a bet that the ledger accounts for.
pub proof fn lemma_payout_within_total(amount: u64, total: u64, winner_pool: u64)
    requires
        0 < winner_pool,
        amount <= winner_pool,
    ensures
        0 <= payout_of(amount, total, winner_pool) <= total,
{
    let a = amount as int;
    let t = total as int;
    let w = winner_pool as int;
    lemma_mul_nonnegative(a, t);
    vstd::arithmetic::div_mod::lemma_div_pos_is_pos(a * t, w);
    lemma_mul_inequality(a, w, t);
    lemma_multiply_divide_le(a * t, w, t);
}

/// A winner the ledger accounts for can always be paid: its own stake
/// made the winning counter positive, the stake is bounded by that
/// counter, and so the payout is bounded by the pool's total — the
/// overflow refusal in `claim` is out of reach for such a bet.
pub proof fn lemma_ledger_claim_fits(pool: GamePool, bets: Seq<Bet>, i: int)
    requires
        pool.wf(),
        pool.is_settled,
        ledger_matches(pool, bets),
        0 <= i < bets.len(),
        bets[i].slot == pool.winning_slot->0,
        bets[i].lamports > 0,
    ensures
        pool.slot_totals@[pool.winning_slot->0 as int] > 0,
        0 <= payout_of(
            bets[i].lamports,
            pool.total_lamports,
            pool.slot_totals@[pool.winning_slot->0 as int],
        ) <= pool.total_lamports,
{
    let ws = pool.winning_slot->0;
    lemma_stake_le_slot_stake_sum(bets, i, ws);
    lemma_payout_within_total(
        bets[i].lamports,
        pool.total_lamports,
        pool.slot_totals@[ws as int],
    );
}

/// Sum of the payouts of the bets on slot `s`, for a pool with running
/// total `total` and winning counter `winner_pool`.
pub open spec fn payout_sum(bets: Seq<Bet>, s: u8, total: u64, winner_pool: u64) -> int
    decreases bets.len(),
{
    if bets.len() == 0 {
        0
    } else {
        payout_sum(bets.drop_last(), s, total, winner_pool) + if bets.last().slot == s {
            payout_of(bets.last().lamports, total, winner_pool)
        } else {
            0
        }
    }
}

/// Sum of the floor-division remainders the same payouts leave behind.
pub open spec fn remainder_sum(bets: Seq<Bet>, s: u8, total: u64, winner_pool: u64) -> int
    decreases bets.len(),
{
    if bets.len() == 0 {
        0
    } else {
        remainder_sum(bets.drop_last(), s, total, winner_pool) + if bets.last().slot == s {
            payout_remainder(bets.last().lamports, total, winner_pool)
        } else {
            0
        }
    }
}

/// The accounting identity behind conservation: over any bets, the
/// payouts and their remainders exactly decompose the staked total,
/// scaled by the winning counter.
pub proof fn lemma_payout_decomposition(bets: Seq<Bet>, s: u8, total: u64, winner_pool: u64)
    requires
        0 < winner_pool,
    ensures
        winner_pool * payout_sum(bets, s, total, winner_pool) + remainder_sum(
            bets,
            s,
            total,
            winner_pool,
        ) == slot_stake_sum(bets, s) * total,
    decreases bets.len(),
{
    let w = winner_pool as int;
    let t = total as int;
    if bets.len() == 0 {
    } else {
        let rest = bets.drop_last();
        let b = bets.last();
        lemma_payout_decomposition(rest, s, total, winner_pool);
        let ps = payout_sum(rest, s, total, winner_pool);
        let ss = slot_stake_sum(rest, s);
        if b.slot == s {
            let a = b.lamports as int;
            lemma_fundamental_div_mod(a * t, w);
            lemma_mul_is_distributive_add(w, ps, payout_of(b.lamports, total, winner_pool));
            lemma_mul_is_distributive_add_other_way(t, ss, a);
        } else {
            lemma_mul_is_distributive_add(w, ps, 0);
            lemma_mul_is_distributive_add_other_way(t, ss, 0);
        }
    }
}

/// Remainders are never negative (each is a remainder modulo the
/// winning counter).
pub proof fn lemma_remainder_sum_nonneg(bets: Seq<Bet>, s: u8, total: u64, winner_pool: u64)
    requires
        0 < winner_pool,
    ensures
        remainder_sum(bets, s, total, winner_pool) >= 0,
    decreases bets.len(),
{
    if bets.len() > 0 {
        lemma_remainder_sum_nonneg(bets.drop_last(), s, total, winner_pool);
        if bets.last().slot == s {
            lemma_mod_division_less_than_divisor(
                bets.last().lamports as int * total as int,
                winner_pool as int,
            );
        }
    }
}

/// Sum of the payouts already disbursed: the claimed bets on slot `s`.
pub open spec fn disbursed_sum(bets: Seq<Bet>, s: u8, total: u64, winner_pool: u64) -> int
    decreases bets.len(),
{
    if bets.len() == 0 {
        0
    } else {
        disbursed_sum(bets.drop_last(), s, total, winner_pool) + if bets.last().slot == s
            && bets.last().claimed {
            payout_of(bets.last().lamports, total, winner_pool)
        } else {
            0
        }
    }
}

/// Before the first claim nothing is disbursed.
pub proof fn lemma_nothing_disbursed(bets: Seq<Bet>, s: u8, total: u64, winner_pool: u64)
    requires
        forall|i: int| 0 <= i < bets.len() ==> !(#[trigger] bets[i]).claimed,
    ensures
        disbursed_sum(bets, s, total, winner_pool) == 0,
    decreases bets.len(),
{
    if bets.len() > 0 {
        lemma_nothing_disbursed(bets.drop_last(), s, total, winner_pool);
    }
}

/// One claim moves its own payout from owed to disbursed: marking the
/// bet claimed leaves the owed sum alone and grows the disbursed sum by
/// exactly that bet's payout.
pub proof fn lemma_claim_accounting(bets: Seq<Bet>, i: int, b2: Bet, s: u8, total: u64, winner_pool: u64)
    requires
        0 <= i < bets.len(),
        bets[i].slot == s,
        !bets[i].claimed,
        b2 == (Bet { claimed: true, ..bets[i] }),
    ensures
        payout_sum(bets.update(i, b2), s, total, winner_pool) == payout_sum(
            bets,
            s,
            total,
            winner_pool,
        ),
        disbursed_sum(bets.update(i, b2), s, total, winner_pool) == disbursed_sum(
            bets,
            s,
            total,
            winner_pool,
        ) + payout_of(bets[i].lamports, total, winner_pool),
    decreases bets.len(),
{
    let t = bets.update(i, b2);
    if i == bets.len() - 1 {
        assert(t.drop_last() =~= bets.drop_last());
    } else {
        assert(t.drop_last() =~= bets.drop_last().update(i, b2));
        lemma_claim_accounting(bets.drop_last(), i, b2, s, total, winner_pool);
    }
}

/// An unclaimed winning bet's payout is still owed: it is bounded by
/// what remains of the payout sum after the disbursements so far.
pub proof fn lemma_unclaimed_payout_still_owed(bets: Seq<Bet>, i: int, s: u8, total: u64, winner_pool: u64)
    requires
        0 < winner_pool,
        0 <= i < bets.len(),
        bets[i].slot == s,
        !bets[i].claimed,
    ensures
        payout_of(bets[i].lamports, total, winner_pool) <= payout_sum(bets, s, total, winner_pool)
            - disbursed_sum(bets, s, total, winner_pool),
    decreases bets.len(),
{
    let rest = bets.drop_last();
    let b = bets.last();
    lemma_disbursed_le_payout_sum(rest, s, total, winner_pool);
    if b.slot == s && !b.claimed {
        lemma_mul_nonnegative(b.lamports as int, total as int);
        vstd::arithmetic::div_mod::lemma_div_pos_is_pos(
            b.lamports as int * total as int,
            winner_pool as int,
        );
    }
    if i < bets.len() - 1 {
        lemma_unclaimed_payout_still_owed(rest, i, s, total, winner_pool);
    }
}

/// What is disbursed never exceeds what the payouts owe in all.
pub proof fn lemma_disbursed_le_payout_sum(bets: Seq<Bet>, s: u8, total: u64, winner_pool: u64)
    requires
        0 < winner_pool,
    ensures
        0 <= disbursed_sum(bets, s, total, winner_pool) <= payout_sum(bets, s, total, winner_pool),
    decreases bets.len(),
{
    if bets.len() > 0 {
        let b = bets.last();
        lemma_disbursed_le_payout_sum(bets.drop_last(), s, total, winner_pool);
        if b.slot == s {
            lemma_mul_nonnegative(b.lamports as int, total as int);
            vstd::arithmetic::div_mod::lemma_div_pos_is_pos(
                b.lamports as int * total as int,
                winner_pool as int,
            );
        }
    }
}

/// The vault can always pay the next winner: while the vault holds the
/// pool total minus what is already disbursed — true at settlement,
/// when nothing is claimed, and preserved by each claim, which removes
/// exactly its payout — the payout of any still-unclaimed winning bet
/// fits in it. The insufficient-funds refusal in `claim` is out of
/// reach for a ledger that reached settlement through the operations.
pub proof fn lemma_vault_covers_claim(pool: GamePool, bets: Seq<Bet>, i: int, vault: u64)
    requires
        pool.wf(),
        pool.is_settled,
        ledger_matches(pool, bets),
        pool.slot_totals@[pool.winning_slot->0 as int] > 0,
        0 <= i < bets.len(),
        bets[i].slot == pool.winning_slot->0,
        !bets[i].claimed,
        vault == pool.total_lamports - disbursed_sum(
            bets,
            pool.winning_slot->0,
            pool.total_lamports,
            pool.slot_totals@[pool.winning_slot->0 as int],
        ),
    ensures
        payout_of(
            bets[i].lamports,
            pool.total_lamports,
            pool.slot_totals@[pool.winning_slot->0 as int],
        ) <= vault,
{
    let ws = pool.winning_slot->0;
    let wp = pool.slot_totals@[ws as int];
    let t = pool.total_lamports;
    lemma_unclaimed_payout_still_owed(bets, i, ws, t, wp);
    lemma_payout_conservation(pool, bets);
}

/// Conservation: over all bets of a settled pool, the payouts owed to
/// the winning slot's backers never exceed the pool's running total,
/// and the shortfall is exactly the accumulated floor-division
/// remainder — the part that stays in the vault, since `claim` moves
/// precisely one payout out of the vault per winning bet.
pub proof fn lemma_payout_conservation(pool: GamePool, bets: Seq<Bet>)
    requires
        pool.wf(),
        pool.is_settled,
        ledger_matches(pool, bets),
        pool.slot_totals@[pool.winning_slot->0 as int] > 0,
    ensures
        ({
            let ws = pool.winning_slot->0;
            let wp = pool.slot_totals@[ws as int];
            let paid = payout_sum(bets, ws, pool.total_lamports, wp);
            &&& paid <= pool.total_lamports
            &&& wp * (pool.total_lamports - paid) == remainder_sum(
                bets,
                ws,
                pool.total_lamports,
                wp,
            )
        }),
{
    let ws = pool.winning_slot->0;
    let wp = pool.slot_totals@[ws as int];
    let t = pool.total_lamports;
    let paid = payout_sum(bets, ws, t, wp);
    let rem = remainder_sum(bets, ws, t, wp);
    lemma_settled_winner_stake(pool, bets);
    lemma_payout_decomposition(bets, ws, t, wp);
    lemma_remainder_sum_nonneg(bets, ws, t, wp);
    assert(wp as int * paid + rem == wp as int * t as int);
    lemma_mul_is_distributive_sub(wp as int, t as int, paid);
    assert(paid <= t) by (nonlinear_arith)
        requires
            wp as int > 0,
            wp as int * (t as int - paid) >= 0,
    ;
}

} // verus!
