//! An escrow-backed, fixed-odds betting market engine.
//!
//! An administrator opens a market for a named event with a fixed set of
//! outcomes and payout odds, participants stake value against one outcome,
//! the administrator later declares the winning outcome, and winners
//! withdraw their pre-computed payout from a pooled escrow account.
//!
//! The engine is a verified state machine over plain values: the host
//! environment authenticates callers, locates records by their compound
//! keys, and performs the actual value transfers that the engine's results
//! call for.  Every lifecycle rule, every arithmetic step, and the escrow
//! sufficiency invariant are proved here.
//!
//! Two design choices are fixed throughout.  Funding follows the bounded
//! policy: opening a market escrows the worst-case reserve `max_stake *
//! max(odds) * slots` upfront and each stake consumes one participant
//! slot, so the vault provably covers every payout it may ever owe.  And
//! claims must complete before a market can be closed: closing requires
//! resolution, drains the residual escrow back to the administrator, and
//! ends all claiming.

pub mod engine;
pub mod errors;
pub mod escrow;
pub mod laws;
pub mod state;
