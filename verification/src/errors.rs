//! The error taxonomy of the betting ledger.

use vstd::prelude::*;

verus! {

/// Why an operation was refused.
///
/// Every precondition violation aborts the whole operation before any
/// record or balance is touched; the caller receives exactly one of
/// these signals and nothing is partially applied.
#[derive(Clone, Copy, Debug, PartialEq, Eq, Structural)]
pub enum StatecraftError {
    /// A stake was placed after betting was closed.
    BettingClosed,
    /// A claimed bet was used again: a second claim, or a further stake.
    AlreadyClaimed,
    /// A claim arrived before the pool was settled, or the winning slot's
    /// counter was zero where a winner must have contributed to it.
    NotSettled,
    /// The slot index is out of range, the stake amount is zero, or a
    /// bettor tried to switch to a different slot.
    InvalidSlot,
    /// A phase change was attempted on a pool that is already settled.
    AlreadySettled,
    /// A phase change was attempted by an identity other than the owner.
    Unauthorized,
    /// A checked addition of stakes, or the payout conversion, would not
    /// fit the counter width.
    ArithmeticOverflow,
    /// The paying balance cannot cover the amount to move.
    InsufficientFunds,
}

} // verus!
