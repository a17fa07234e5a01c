//! Vault authority derivation.
//!
//! The vault's owner after an escrow is opened is not a principal with a
//! key but a program-derived authority: a deterministic function of seed
//! material and the program identifier.  Nobody holds a private key for
//! it, so only the program's own call path can authorize ledger
//! operations as the derived authority.  The derivation itself is done by
//! the Solana SDK; the protocol only carries its result around.

use crate::types::Ident;
use anchor_lang::solana_program::pubkey::Pubkey;
use vstd::prelude::*;

verus! {

/// The derived authority and bump seed for this seed material and program
/// identifier, or `None` in the statistically improbable case that no
/// bump seed yields a valid derivation.
pub uninterp spec fn vault_authority_of(seed: Seq<u8>, program: Ident) -> Option<(Ident, u8)>;

/// Relies on `Pubkey::try_find_program_address` of the Solana SDK: a
/// deterministic, pure function of the seed material and the program
/// identifier alone, returning a program-derived authority together with
/// its bump seed, or `None` when no bump seed yields a valid derivation.
#[verifier::external_body]
fn try_find_authority(seed: &Vec<u8>, program: &Ident) -> (r: Option<(Ident, u8)>)
    ensures
        r == vault_authority_of(seed@, *program),
{
    let ws = [program.w0, program.w1, program.w2, program.w3];
    let mut pb = [0u8; 32];
    for i in 0..4 {
        pb[i * 8..i * 8 + 8].copy_from_slice(&ws[i].to_le_bytes());
    }
    let pk = Pubkey::new_from_array(pb);
    let (a, bump) = Pubkey::try_find_program_address(&[seed.as_slice()], &pk)?;
    let ab = a.to_bytes();
    let mut w = [0u64; 4];
    for i in 0..4 {
        w[i] = u64::from_le_bytes(ab[i * 8..i * 8 + 8].try_into().unwrap());
    }
    Some((Ident { w0: w[0], w1: w[1], w2: w[2], w3: w[3] }, bump))
}

/// The configuration of the vault authority derivation: the seed material
/// and the program identifier.  With a fixed seed every escrow of the
/// deployment shares one vault authority; appending the opener's identity
/// to the seed material gives each escrow an authority of its own.
pub struct VaultConfig {
    pub seed: Vec<u8>,
    pub program: Ident,
}

impl VaultConfig {
    /// The derived authority and bump seed of this configuration.
    pub open spec fn spec_authority(self) -> Option<(Ident, u8)> {
        vault_authority_of(self.seed@, self.program)
    }

    /// Derive the vault authority and its bump seed.
    pub fn derive_authority(&self) -> (r: Option<(Ident, u8)>)
        ensures
            r == self.spec_authority(),
    {
        try_find_authority(&self.seed, &self.program)
    }
}

} // verus!
