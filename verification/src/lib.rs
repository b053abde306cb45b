//! Parimutuel betting ledger.
//!
//! Spectators commit stakes to one of several outcome slots of an event;
//! after the event resolves, the whole collected pool is redistributed to
//! the backers of the winning slot, proportional to their share of that
//! slot's stakes.
//!
//! The crate holds the core that moves money: the pool/bet state machine,
//! the stake ledger, the authorization guard and the payout arithmetic.
//! The surrounding account store, caller authentication and the actual
//! currency transport are the host's concern; every operation here works
//! on plain records and balances and states exactly what it changes.

pub mod errors;
pub mod laws;
pub mod ops;
pub mod state;
