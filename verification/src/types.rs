//! Plain value types shared by the whole protocol: identifiers, the
//! escrow record, the modeled token account, and the error kinds.

use vstd::prelude::*;

verus! {

/// A 32-byte ledger identifier (a principal, an asset account, a mint, or
/// a derived authority), held as four little-endian 64-bit limbs.
#[derive(Clone, Copy, PartialEq, Eq, Structural, Debug, Hash)]
pub struct Ident {
    pub w0: u64,
    pub w1: u64,
    pub w2: u64,
    pub w3: u64,
}

impl Ident {
    pub fn new(w0: u64, w1: u64, w2: u64, w3: u64) -> (r: Ident)
        ensures
            r == (Ident { w0, w1, w2, w3 }),
    {
        Ident { w0, w1, w2, w3 }
    }
}

/// Why a protocol operation was rejected.  Every rejected precondition maps
/// to exactly one of these kinds, and a rejected operation has no effect.
#[derive(Clone, Copy, PartialEq, Eq, Structural, Debug)]
pub enum EscrowError {
    /// A required account does not hold enough of the asset.
    InsufficientBalance,
    /// A supplied account does not match the one recorded in the escrow.
    AccountMismatch,
    /// The signer is not the principal the operation requires.
    Unauthorized,
    /// An escrow record already exists under this identifier.
    DuplicateEscrow,
    /// No escrow record exists under this identifier.
    EscrowNotFound,
    /// The ledger would reject the operation for a reason opaque to the
    /// escrow protocol (missing account, mint mismatch, overflow, ...).
    LedgerOperationFailed,
}

/// One fungible-asset account of the modeled ledger: an amount of a single
/// asset (`mint`), movable only by its current `authority`.
#[derive(Clone, Copy, PartialEq, Eq, Structural, Debug)]
pub struct TokenAccount {
    pub id: Ident,
    pub mint: Ident,
    pub authority: Ident,
    pub balance: u64,
}

/// The record of one open escrow.  All fields are fixed when the escrow is
/// opened and never change until the record is destroyed by settlement or
/// cancellation.
#[derive(Clone, Copy, PartialEq, Eq, Structural, Debug)]
pub struct EscrowAccount {
    /// The principal that opened the escrow; the only one entitled to cancel.
    pub initializer_key: Ident,
    /// The ledger account holding the deposit, owned by the vault authority.
    pub vault_token_account: Ident,
    /// Where the initializer expects the counterparty's payment.
    pub initializer_receive_token_account: Ident,
    /// The amount locked in the vault.
    pub initializer_amount: u64,
    /// The amount the initializer expects in return.
    pub taker_amount: u64,
}

} // verus!
