//! The five operations of the ledger: create a pool, close betting,
//! place a stake, settle, and claim a payout.
//!
//! Each operation is atomic: either every precondition holds and every
//! mutation — record fields and balances — commits together, or nothing
//! changes and exactly one error names the first violated precondition.
//! The `*_outcome` spec functions pin that decision down, in the order
//! the preconditions are checked.

use vstd::prelude::*;

use crate::errors::StatecraftError;
use crate::state::Bet;
use crate::state::GamePool;
use crate::state::Id32;
use crate::state::MAX_SLOTS;
use crate::state::lemma_element_le_sum_prefix;
use crate::state::lemma_sum_prefix_update;
use crate::state::lemma_sum_prefix_zero;

verus! {

/// Create the pool for one event. Betting is open immediately.
///
/// Succeeds exactly when `1 <= n_slots <= MAX_SLOTS`; the new pool is
/// open, unsettled, and every counter is zero. Keeping the key `game_id`
/// unique is the account store's duty, not this function's.
pub fn create_pool(owner: Id32, game_id: Id32, n_slots: u8) -> (r: Result<
    GamePool,
    StatecraftError,
>)
    ensures
        r is Ok <==> 1 <= n_slots <= MAX_SLOTS,
        r is Err ==> r == Err::<GamePool, StatecraftError>(StatecraftError::InvalidSlot),
        r is Ok ==> ({
            let p = r->Ok_0;
            &&& p.owner == owner
            &&& p.game_id == game_id
            &&& p.n_slots == n_slots
            &&& p.winning_slot is None
            &&& p.total_lamports == 0
            &&& (forall|i: int| 0 <= i < MAX_SLOTS ==> p.slot_totals@[i] == 0)
            &&& !p.is_settled
            &&& p.is_open
            &&& p.wf()
        }),
{
    if n_slots == 0 || n_slots as usize > MAX_SLOTS {
        return Err(StatecraftError::InvalidSlot);
    }
    let pool = GamePool {
        owner,
        game_id,
        n_slots,
        winning_slot: None,
        total_lamports: 0,
        slot_totals: [0u64, 0u64, 0u64, 0u64, 0u64, 0u64, 0u64, 0u64],
        is_settled: false,
        is_open: true,
    };
    proof {
        lemma_sum_prefix_zero(pool.slot_totals@, n_slots as int);
    }
    Ok(pool)
}

/// The decision `close_betting` makes, in checking order: the caller
/// must be the owner, and the pool must not be settled. Closing an
/// already-closed pool succeeds again (idempotent).
pub open spec fn close_outcome(pool: GamePool, caller: Id32) -> Result<(), StatecraftError> {
    if caller != pool.owner {
        Err(StatecraftError::Unauthorized)
    } else if pool.is_settled {
        Err(StatecraftError::AlreadySettled)
    } else {
        Ok(())
    }
}

/// Close betting: no new stakes are accepted afterwards. Owner only.
pub fn close_betting(pool: &mut GamePool, caller: Id32) -> (r: Result<(), StatecraftError>)
    requires
        old(pool).wf(),
    ensures
        final(pool).wf(),
        r == close_outcome(*old(pool), caller),
        r is Ok ==> *final(pool) == (GamePool { is_open: false, ..*old(pool) }),
        r is Err ==> *final(pool) == *old(pool),
{
    if caller != pool.owner {
        return Err(StatecraftError::Unauthorized);
    }
    if pool.is_settled {
        return Err(StatecraftError::AlreadySettled);
    }
    pool.is_open = false;
    Ok(())
}

/// The decision `settle` makes, in checking order: owner only, not yet
/// settled, and the proposed winner must be a real slot.
pub open spec fn settle_outcome(pool: GamePool, caller: Id32, winning_slot: u8) -> Result<
    (),
    StatecraftError,
> {
    if caller != pool.owner {
        Err(StatecraftError::Unauthorized)
    } else if pool.is_settled {
        Err(StatecraftError::AlreadySettled)
    } else if winning_slot >= pool.n_slots {
        Err(StatecraftError::InvalidSlot)
    } else {
        Ok(())
    }
}

/// Record the winning slot, irreversibly; betting closes as a side
/// effect if it was still open. Owner only.
pub fn settle(pool: &mut GamePool, caller: Id32, winning_slot: u8) -> (r: Result<
    (),
    StatecraftError,
>)
    requires
        old(pool).wf(),
    ensures
        final(pool).wf(),
        r == settle_outcome(*old(pool), caller, winning_slot),
        r is Ok ==> *final(pool) == (GamePool {
            winning_slot: Some(winning_slot),
            is_settled: true,
            is_open: false,
            ..*old(pool)
        }),
        r is Err ==> *final(pool) == *old(pool),
{
    if caller != pool.owner {
        return Err(StatecraftError::Unauthorized);
    }
    if pool.is_settled {
        return Err(StatecraftError::AlreadySettled);
    }
    if winning_slot >= pool.n_slots {
        return Err(StatecraftError::InvalidSlot);
    }
    pool.winning_slot = Some(winning_slot);
    pool.is_settled = true;
    pool.is_open = false;
    Ok(())
}

/// The decision `place_bet` makes, in checking order: betting open; slot
/// in range and amount positive; an existing bet must back the same slot
/// and be unclaimed; the bettor must cover the stake; and the vault, the
/// pool total and the bet amount must each take the increment without
/// overflow. The winning counter itself needs no check: it is bounded by
/// the pool total, which is checked.
pub open spec fn place_outcome(
    pool: GamePool,
    bet: Option<Bet>,
    bettor_balance: u64,
    vault_balance: u64,
    slot: u8,
    lamports: u64,
) -> Result<(), StatecraftError> {
    if !pool.is_open {
        Err(StatecraftError::BettingClosed)
    } else if slot >= pool.n_slots {
        Err(StatecraftError::InvalidSlot)
    } else if lamports == 0 {
        Err(StatecraftError::InvalidSlot)
    } else if bet is Some && bet->0.slot != slot {
        Err(StatecraftError::InvalidSlot)
    } else if bet is Some && bet->0.claimed {
        Err(StatecraftError::AlreadyClaimed)
    } else if bettor_balance < lamports {
        Err(StatecraftError::InsufficientFunds)
    } else if vault_balance + lamports > u64::MAX {
        Err(StatecraftError::ArithmeticOverflow)
    } else if pool.total_lamports + lamports > u64::MAX {
        Err(StatecraftError::ArithmeticOverflow)
    } else if bet is Some && bet->0.lamports + lamports > u64::MAX {
        Err(StatecraftError::ArithmeticOverflow)
    } else {
        Ok(())
    }
}

/// The cumulative stake already on a bet record, zero where none exists.
pub open spec fn prior_amount(bet: Option<Bet>) -> int {
    if bet is Some {
        bet->0.lamports as int
    } else {
        0
    }
}

/// Place (or add to) a stake of `lamports` on `slot`.
///
/// On the first stake the bet record is created; on later stakes the
/// chosen slot is immutable and the record must be unclaimed. On success
/// the stake moves from the bettor's balance into the vault, and the
/// pool total, the slot's counter and the bet's amount each grow by
/// exactly `lamports`. On any error nothing changes.
pub fn place_bet(
    pool: &mut GamePool,
    bet: &mut Option<Bet>,
    bettor_balance: &mut u64,
    vault_balance: &mut u64,
    bettor: Id32,
    slot: u8,
    lamports: u64,
) -> (r: Result<(), StatecraftError>)
    requires
        old(pool).wf(),
        *old(bet) is Some ==> (*old(bet))->0.pool == old(pool).game_id && (*old(
            bet,
        ))->0.bettor == bettor,
    ensures
        final(pool).wf(),
        r == place_outcome(
            *old(pool),
            *old(bet),
            *old(bettor_balance),
            *old(vault_balance),
            slot,
            lamports,
        ),
        r is Err ==> {
            &&& *final(pool) == *old(pool)
            &&& *final(bet) == *old(bet)
            &&& *final(bettor_balance) == *old(bettor_balance)
            &&& *final(vault_balance) == *old(vault_balance)
        },
        r is Ok ==> {
            &&& *final(bettor_balance) == *old(bettor_balance) - lamports
            &&& *final(vault_balance) == *old(vault_balance) + lamports
            &&& final(pool).total_lamports == old(pool).total_lamports + lamports
            &&& final(pool).slot_totals@ == old(pool).slot_totals@.update(
                slot as int,
                (old(pool).slot_totals@[slot as int] + lamports) as u64,
            )
            &&& final(pool).owner == old(pool).owner
            &&& final(pool).game_id == old(pool).game_id
            &&& final(pool).n_slots == old(pool).n_slots
            &&& final(pool).winning_slot == old(pool).winning_slot
            &&& final(pool).is_settled == old(pool).is_settled
            &&& final(pool).is_open == old(pool).is_open
            &&& *final(bet) == Some(
                Bet {
                    pool: old(pool).game_id,
                    bettor,
                    slot,
                    lamports: (prior_amount(*old(bet)) + lamports) as u64,
                    claimed: false,
                },
            )
        },
{
    if !pool.is_open {
        return Err(StatecraftError::BettingClosed);
    }
    if slot >= pool.n_slots {
        return Err(StatecraftError::InvalidSlot);
    }
    if lamports == 0 {
        return Err(StatecraftError::InvalidSlot);
    }
    let mut old_amount: u64 = 0;
    if bet.is_some() {
        let b = bet.as_ref().unwrap();
        if b.slot != slot {
            return Err(StatecraftError::InvalidSlot);
        }
        if b.claimed {
            return Err(StatecraftError::AlreadyClaimed);
        }
        old_amount = b.lamports;
    }
    if *bettor_balance < lamports {
        return Err(StatecraftError::InsufficientFunds);
    }
    if lamports > u64::MAX - *vault_balance {
        return Err(StatecraftError::ArithmeticOverflow);
    }
    if lamports > u64::MAX - pool.total_lamports {
        return Err(StatecraftError::ArithmeticOverflow);
    }
    if lamports > u64::MAX - old_amount {
        return Err(StatecraftError::ArithmeticOverflow);
    }
    proof {
        // The slot's own counter fits too: it is at most the pool total.
        lemma_element_le_sum_prefix(pool.slot_totals@, pool.n_slots as int, slot as int);
    }
    // Every precondition holds; commit all mutations together.
    *bettor_balance = *bettor_balance - lamports;
    *vault_balance = *vault_balance + lamports;
    pool.total_lamports = pool.total_lamports + lamports;
    let slot_total = pool.slot_totals[slot as usize];
    pool.slot_totals[slot as usize] = slot_total + lamports;
    *bet = Some(
        Bet { pool: pool.game_id, bettor, slot, lamports: old_amount + lamports, claimed: false },
    );
    proof {
        lemma_sum_prefix_update(
            old(pool).slot_totals@,
            pool.n_slots as int,
            slot as int,
            (old(pool).slot_totals@[slot as int] + lamports) as u64,
        );
    }
    Ok(())
}

/// The exact parimutuel payout: the bettor's stake times the whole pool,
/// floor-divided by the winning slot's total.
pub open spec fn payout_of(amount: u64, total: u64, winner_pool: u64) -> int {
    (amount as int * total as int) / (winner_pool as int)
}

/// The remainder the floor division leaves behind; it stays in the vault.
pub open spec fn payout_remainder(amount: u64, total: u64, winner_pool: u64) -> int {
    (amount as int * total as int) % (winner_pool as int)
}

/// The decision `claim` makes, in checking order: the pool must be
/// settled, the bet unclaimed and on the winning slot, the winning
/// counter nonzero (an invariant violation otherwise, surfaced as a
/// state error), the payout must fit the counter width, the vault must
/// cover it, and the bettor's balance must take it without overflow.
pub open spec fn claim_outcome(
    pool: GamePool,
    bet: Bet,
    vault_balance: u64,
    bettor_balance: u64,
) -> Result<u64, StatecraftError> {
    if !pool.is_settled {
        Err(StatecraftError::NotSettled)
    } else if bet.claimed {
        Err(StatecraftError::AlreadyClaimed)
    } else if bet.slot != pool.winning_slot->0 {
        Err(StatecraftError::InvalidSlot)
    } else if pool.slot_totals@[bet.slot as int] == 0 {
        Err(StatecraftError::NotSettled)
    } else {
        let p = payout_of(bet.lamports, pool.total_lamports, pool.slot_totals@[bet.slot as int]);
        if p > u64::MAX {
            Err(StatecraftError::ArithmeticOverflow)
        } else if vault_balance < p {
            Err(StatecraftError::InsufficientFunds)
        } else if bettor_balance + p > u64::MAX {
            Err(StatecraftError::ArithmeticOverflow)
        } else {
            Ok(p as u64)
        }
    }
}

/// Claim the payout for a winning bet.
///
/// On success the bet is marked claimed — the flag flips before the
/// funds move, the reentrancy guard — and exactly the payout moves from
/// the vault to the bettor; the stake amount stays on the record for
/// audit. Losing bettors get `InvalidSlot` and forfeit their stake. On
/// any error nothing changes, the claimed flag included.
pub fn claim(pool: &GamePool, bet: &mut Bet, vault_balance: &mut u64, bettor_balance: &mut u64) -> (r:
    Result<u64, StatecraftError>)
    requires
        pool.wf(),
    ensures
        r == claim_outcome(*pool, *old(bet), *old(vault_balance), *old(bettor_balance)),
        r is Err ==> {
            &&& *final(bet) == *old(bet)
            &&& *final(vault_balance) == *old(vault_balance)
            &&& *final(bettor_balance) == *old(bettor_balance)
        },
        r is Ok ==> {
            &&& *final(bet) == (Bet { claimed: true, ..*old(bet) })
            &&& r->Ok_0 == payout_of(
                old(bet).lamports,
                pool.total_lamports,
                pool.slot_totals@[old(bet).slot as int],
            )
            &&& *final(vault_balance) == *old(vault_balance) - r->Ok_0
            &&& *final(bettor_balance) == *old(bettor_balance) + r->Ok_0
        },
{
    if !pool.is_settled {
        return Err(StatecraftError::NotSettled);
    }
    if bet.claimed {
        return Err(StatecraftError::AlreadyClaimed);
    }
    // A settled pool records a winner below `n_slots` (well-formedness).
    let winning_slot = pool.winning_slot.unwrap();
    if bet.slot != winning_slot {
        return Err(StatecraftError::InvalidSlot);
    }
    let winner_pool = pool.slot_totals[winning_slot as usize];
    if winner_pool == 0 {
        return Err(StatecraftError::NotSettled);
    }
    // The product of two 64-bit counters always fits 128 bits.
    proof {
        let a = bet.lamports as int;
        let t = pool.total_lamports as int;
        assert(a * t <= u64::MAX as int * u64::MAX as int) by (nonlinear_arith)
            requires
                0 <= a <= u64::MAX as int,
                0 <= t <= u64::MAX as int,
        ;
    }
    let wide: u128 = (bet.lamports as u128) * (pool.total_lamports as u128);
    let payout_wide: u128 = wide / (winner_pool as u128);
    if payout_wide > u64::MAX as u128 {
        return Err(StatecraftError::ArithmeticOverflow);
    }
    let payout: u64 = payout_wide as u64;
    if *vault_balance < payout {
        return Err(StatecraftError::InsufficientFunds);
    }
    if payout > u64::MAX - *bettor_balance {
        return Err(StatecraftError::ArithmeticOverflow);
    }
    // Reentrancy guard: record the claim before the funds move.
    bet.claimed = true;
    *vault_balance = *vault_balance - payout;
    *bettor_balance = *bettor_balance + payout;
    Ok(payout)
}

} // verus!
