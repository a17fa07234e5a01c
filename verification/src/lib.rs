//! A two-party atomic-swap escrow.
//!
//! One party (the initializer) locks an amount of one asset in a vault
//! account whose authority is handed over to a program-derived vault
//! authority; it names the amount of a second asset it expects in return.
//! A counterparty (the taker) may settle the swap atomically, or the
//! initializer may cancel and reclaim the deposit.  The three protocol
//! operations are verified against a model of the fungible-asset ledger
//! they act on.

pub mod authority;
pub mod ledger;
pub mod protocol;
pub mod store;
pub mod types;
