//! Client account balances computed from an ordered stream of transaction
//! records: deposits, withdrawals, disputes, resolutions and chargebacks.
//!
//! The account state machine, the command validator and the processor that
//! ties them to a global transaction registry are all verified against a
//! mathematical model of the ledger.
use vstd::prelude::*;

pub mod amount;
pub mod account;
pub mod command;
pub mod laws;
pub mod processor;
pub mod service;

verus! {

/// A transaction identifier, unique across all clients once used by a
/// creation command.
pub type TransactionId = u32;

/// A client identifier; each client has at most one account.
pub type ClientId = u16;

} // verus!
