//! Every refusal path, and that each one leaves records and balances
//! exactly as they were.

use statecraft_market::errors::StatecraftError;
use statecraft_market::ops::claim;
use statecraft_market::ops::close_betting;
use statecraft_market::ops::create_pool;
use statecraft_market::ops::place_bet;
use statecraft_market::ops::settle;
use statecraft_market::state::Bet;
use statecraft_market::state::GamePool;
use statecraft_market::state::Id32;

fn id(n: u64) -> Id32 {
    Id32::new(n, 0, 0, 0)
}

fn open_pool(n_slots: u8) -> GamePool {
    create_pool(id(1), id(99), n_slots).unwrap()
}

#[test]
fn create_rejects_zero_and_oversized_slot_count() {
    assert_eq!(create_pool(id(1), id(99), 0).unwrap_err(), StatecraftError::InvalidSlot);
    assert_eq!(create_pool(id(1), id(99), 9).unwrap_err(), StatecraftError::InvalidSlot);
    assert_eq!(create_pool(id(1), id(99), 255).unwrap_err(), StatecraftError::InvalidSlot);
}

#[test]
fn close_by_non_owner_is_unauthorized_and_mutates_nothing() {
    let mut pool = open_pool(3);
    assert_eq!(close_betting(&mut pool, id(2)).unwrap_err(), StatecraftError::Unauthorized);
    assert!(pool.is_open);
    assert!(!pool.is_settled);
}

#[test]
fn settle_by_non_owner_is_unauthorized_and_mutates_nothing() {
    let mut pool = open_pool(3);
    assert_eq!(settle(&mut pool, id(2), 0).unwrap_err(), StatecraftError::Unauthorized);
    assert!(pool.is_open);
    assert!(!pool.is_settled);
    assert_eq!(pool.winning_slot, None);
}

#[test]
fn settle_rejects_out_of_range_winner() {
    let mut pool = open_pool(3);
    assert_eq!(settle(&mut pool, id(1), 3).unwrap_err(), StatecraftError::InvalidSlot);
    assert!(!pool.is_settled);
}

#[test]
fn settle_twice_is_already_settled() {
    let mut pool = open_pool(3);
    assert!(settle(&mut pool, id(1), 1).is_ok());
    assert_eq!(settle(&mut pool, id(1), 2).unwrap_err(), StatecraftError::AlreadySettled);
    assert_eq!(pool.winning_slot, Some(1));
}

#[test]
fn close_after_settle_is_already_settled() {
    let mut pool = open_pool(3);
    assert!(settle(&mut pool, id(1), 0).is_ok());
    assert_eq!(close_betting(&mut pool, id(1)).unwrap_err(), StatecraftError::AlreadySettled);
}

#[test]
fn place_out_of_range_slot_changes_nothing() {
    let mut pool = open_pool(3);
    let mut bet: Option<Bet> = None;
    let mut balance: u64 = 500;
    let mut vault: u64 = 0;
    let r = place_bet(&mut pool, &mut bet, &mut balance, &mut vault, id(7), 3, 100);
    assert_eq!(r.unwrap_err(), StatecraftError::InvalidSlot);
    assert_eq!(balance, 500);
    assert_eq!(vault, 0);
    assert_eq!(pool.total_lamports, 0);
    assert_eq!(pool.slot_totals, [0u64; 8]);
    assert!(bet.is_none());
}

#[test]
fn place_zero_amount_is_invalid() {
    let mut pool = open_pool(3);
    let mut bet: Option<Bet> = None;
    let mut balance: u64 = 500;
    let mut vault: u64 = 0;
    let r = place_bet(&mut pool, &mut bet, &mut balance, &mut vault, id(7), 0, 0);
    assert_eq!(r.unwrap_err(), StatecraftError::InvalidSlot);
    assert!(bet.is_none());
}

#[test]
fn place_after_close_is_betting_closed() {
    let mut pool = open_pool(3);
    assert!(close_betting(&mut pool, id(1)).is_ok());
    let mut bet: Option<Bet> = None;
    let mut balance: u64 = 500;
    let mut vault: u64 = 0;
    let r = place_bet(&mut pool, &mut bet, &mut balance, &mut vault, id(7), 0, 100);
    assert_eq!(r.unwrap_err(), StatecraftError::BettingClosed);
    assert_eq!(balance, 500);
    assert_eq!(vault, 0);
    assert!(bet.is_none());
}

#[test]
fn bettor_cannot_switch_slots() {
    let mut pool = open_pool(3);
    let mut bet: Option<Bet> = None;
    let mut balance: u64 = 500;
    let mut vault: u64 = 0;
    assert!(place_bet(&mut pool, &mut bet, &mut balance, &mut vault, id(7), 0, 100).is_ok());
    let r = place_bet(&mut pool, &mut bet, &mut balance, &mut vault, id(7), 1, 100);
    assert_eq!(r.unwrap_err(), StatecraftError::InvalidSlot);
    assert_eq!(bet.as_ref().unwrap().slot, 0);
    assert_eq!(bet.as_ref().unwrap().lamports, 100);
    assert_eq!(balance, 400);
}

#[test]
fn place_with_insufficient_funds_changes_nothing() {
    let mut pool = open_pool(3);
    let mut bet: Option<Bet> = None;
    let mut balance: u64 = 99;
    let mut vault: u64 = 0;
    let r = place_bet(&mut pool, &mut bet, &mut balance, &mut vault, id(7), 0, 100);
    assert_eq!(r.unwrap_err(), StatecraftError::InsufficientFunds);
    assert_eq!(balance, 99);
    assert_eq!(vault, 0);
    assert!(bet.is_none());
}

#[test]
fn place_overflowing_pool_total_is_arithmetic_overflow() {
    let mut pool = open_pool(2);
    let mut bet_a: Option<Bet> = None;
    let mut bet_b: Option<Bet> = None;
    let mut bal_a: u64 = u64::MAX;
    let mut bal_b: u64 = u64::MAX;
    let mut vault_a: u64 = 0;
    let mut vault_b: u64 = 0;
    assert!(
        place_bet(&mut pool, &mut bet_a, &mut bal_a, &mut vault_a, id(10), 0, u64::MAX).is_ok()
    );
    // a second stake would overflow the pool's running total
    let r = place_bet(&mut pool, &mut bet_b, &mut bal_b, &mut vault_b, id(11), 1, 1);
    assert_eq!(r.unwrap_err(), StatecraftError::ArithmeticOverflow);
    assert_eq!(pool.total_lamports, u64::MAX);
    assert_eq!(bal_b, u64::MAX);
    assert_eq!(vault_b, 0);
    assert!(bet_b.is_none());
}

#[test]
fn claim_before_settlement_is_not_settled() {
    let mut pool = open_pool(2);
    let mut bet: Option<Bet> = None;
    let mut balance: u64 = 100;
    let mut vault: u64 = 0;
    assert!(place_bet(&mut pool, &mut bet, &mut balance, &mut vault, id(7), 0, 100).is_ok());
    let mut b = bet.unwrap();
    let r = claim(&pool, &mut b, &mut vault, &mut balance);
    assert_eq!(r.unwrap_err(), StatecraftError::NotSettled);
    assert!(!b.claimed);
    assert_eq!(vault, 100);
    assert_eq!(balance, 0);
}

#[test]
fn losing_bettor_cannot_claim_and_forfeits_stake() {
    let owner = id(1);
    let mut pool = open_pool(2);
    let mut bet_a: Option<Bet> = None;
    let mut bet_b: Option<Bet> = None;
    let mut bal_a: u64 = 100;
    let mut bal_b: u64 = 300;
    let mut vault: u64 = 0;
    assert!(place_bet(&mut pool, &mut bet_a, &mut bal_a, &mut vault, id(10), 0, 100).is_ok());
    assert!(place_bet(&mut pool, &mut bet_b, &mut bal_b, &mut vault, id(11), 1, 300).is_ok());
    assert!(settle(&mut pool, owner, 0).is_ok());
    let mut b = bet_b.unwrap();
    let r = claim(&pool, &mut b, &mut vault, &mut bal_b);
    assert_eq!(r.unwrap_err(), StatecraftError::InvalidSlot);
    // the stake is forfeited: nothing moved back, the flag stayed down
    assert!(!b.claimed);
    assert_eq!(bal_b, 0);
    assert_eq!(vault, 400);
}

#[test]
fn second_claim_is_conflict_and_moves_nothing() {
    let owner = id(1);
    let mut pool = open_pool(2);
    let mut bet: Option<Bet> = None;
    let mut balance: u64 = 100;
    let mut vault: u64 = 0;
    assert!(place_bet(&mut pool, &mut bet, &mut balance, &mut vault, id(7), 0, 100).is_ok());
    assert!(settle(&mut pool, owner, 0).is_ok());
    let mut b = bet.unwrap();
    assert_eq!(claim(&pool, &mut b, &mut vault, &mut balance).unwrap(), 100);
    let vault_before = vault;
    let balance_before = balance;
    let r = claim(&pool, &mut b, &mut vault, &mut balance);
    assert_eq!(r.unwrap_err(), StatecraftError::AlreadyClaimed);
    assert_eq!(vault, vault_before);
    assert_eq!(balance, balance_before);
    assert!(b.claimed);
}

#[test]
fn claimed_bet_cannot_stake_again() {
    // on a settled pool the phase error comes first, so drive the
    // conflict with a claimed record against an open pool
    let mut pool = open_pool(2);
    let mut bet = Some(Bet { pool: id(99), bettor: id(7), slot: 0, lamports: 100, claimed: true });
    let mut balance: u64 = 200;
    let mut vault: u64 = 0;
    let r = place_bet(&mut pool, &mut bet, &mut balance, &mut vault, id(7), 0, 50);
    assert_eq!(r.unwrap_err(), StatecraftError::AlreadyClaimed);
    assert_eq!(balance, 200);
    assert_eq!(vault, 0);
    assert_eq!(bet.unwrap().lamports, 100);
}

#[test]
fn place_overflowing_bet_amount_is_arithmetic_overflow() {
    // a record whose cumulative stake cannot take the increment, while
    // pool total and vault still could
    let mut pool = open_pool(2);
    let mut bet = Some(Bet {
        pool: id(99),
        bettor: id(7),
        slot: 0,
        lamports: u64::MAX,
        claimed: false,
    });
    let mut balance: u64 = 10;
    let mut vault: u64 = 0;
    let r = place_bet(&mut pool, &mut bet, &mut balance, &mut vault, id(7), 0, 1);
    assert_eq!(r.unwrap_err(), StatecraftError::ArithmeticOverflow);
    assert_eq!(balance, 10);
    assert_eq!(vault, 0);
    assert_eq!(pool.total_lamports, 0);
}

#[test]
fn claim_with_oversized_payout_is_arithmetic_overflow() {
    // a stake above the winning counter (a record the ledger would
    // never produce) pushes the proportional share past the counter
    // width; the guard refuses instead of truncating
    let pool = GamePool {
        owner: id(1),
        game_id: id(99),
        n_slots: 2,
        winning_slot: Some(0),
        total_lamports: u64::MAX,
        slot_totals: [1, u64::MAX - 1, 0, 0, 0, 0, 0, 0],
        is_settled: true,
        is_open: false,
    };
    let mut bet = Bet { pool: id(99), bettor: id(7), slot: 0, lamports: u64::MAX, claimed: false };
    let mut vault: u64 = u64::MAX;
    let mut balance: u64 = 0;
    let r = claim(&pool, &mut bet, &mut vault, &mut balance);
    assert_eq!(r.unwrap_err(), StatecraftError::ArithmeticOverflow);
    assert!(!bet.claimed);
    assert_eq!(vault, u64::MAX);
    assert_eq!(balance, 0);
}

#[test]
fn claim_against_empty_winning_counter_is_state_error() {
    // a settled pool whose winning slot collected nothing can owe no
    // payout; a stray record claiming on it hits the division guard
    let pool = GamePool {
        owner: id(1),
        game_id: id(99),
        n_slots: 2,
        winning_slot: Some(0),
        total_lamports: 300,
        slot_totals: [0, 300, 0, 0, 0, 0, 0, 0],
        is_settled: true,
        is_open: false,
    };
    let mut bet = Bet { pool: id(99), bettor: id(7), slot: 0, lamports: 5, claimed: false };
    let mut vault: u64 = 300;
    let mut balance: u64 = 0;
    let r = claim(&pool, &mut bet, &mut vault, &mut balance);
    assert_eq!(r.unwrap_err(), StatecraftError::NotSettled);
    assert!(!bet.claimed);
    assert_eq!(vault, 300);
}

#[test]
fn claim_with_short_vault_is_insufficient_funds_and_rolls_back() {
    let owner = id(1);
    let mut pool = open_pool(2);
    let mut bet: Option<Bet> = None;
    let mut balance: u64 = 100;
    let mut vault: u64 = 0;
    assert!(place_bet(&mut pool, &mut bet, &mut balance, &mut vault, id(7), 0, 100).is_ok());
    assert!(settle(&mut pool, owner, 0).is_ok());
    let mut b = bet.unwrap();
    // drain the vault behind the ledger's back to force the guard
    let mut drained_vault: u64 = 50;
    let r = claim(&pool, &mut b, &mut drained_vault, &mut balance);
    assert_eq!(r.unwrap_err(), StatecraftError::InsufficientFunds);
    // the failed transfer left no stuck claimed-but-unpaid state
    assert!(!b.claimed);
    assert_eq!(drained_vault, 50);
    assert_eq!(balance, 0);
}
