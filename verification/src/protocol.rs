//! The three escrow protocol operations: `initialize` (open), `exchange`
//! (settle) and `cancel` (abort).
//!
//! Every operation validates all of its preconditions before it touches
//! the ledger or the record store, so it either performs its whole effect
//! or fails with a single typed error and no effect at all.  The decision
//! each operation takes is a spec function of the starting state and the
//! arguments, and each operation's result is proved equal to it.
//!
//! Policy choices, stated once:
//! - the vault must hold exactly the deposited amount when the escrow is
//!   opened (an externally pre-funded vault, checked before the authority
//!   handover);
//! - the accounts an `exchange` or `cancel` moves funds between must be
//!   pairwise distinct; aliased accounts are rejected as a mismatch, so
//!   that both legs of a settlement are observable transfers.

use crate::authority::VaultConfig;
use crate::ledger::{transfer_allowed, transfer_result, Ledger};
use crate::store::EscrowStore;
use crate::types::{EscrowAccount, EscrowError, Ident, TokenAccount};
use vstd::prelude::*;

verus! {

/// The outcome `initialize` owes: `Ok` exactly when no record stands
/// under the identifier, the vault exists and is owned by the opener
/// with exactly the deposit in it, the receive account exists, and the
/// vault authority can be derived.
pub open spec fn initialize_decision(
    escrows: EscrowStore,
    ledger: Ledger,
    cfg: VaultConfig,
    escrow_id: Ident,
    initializer: Ident,
    vault_token_account: Ident,
    initializer_receive_token_account: Ident,
    initializer_amount: u64,
) -> Result<(), EscrowError> {
    if escrows.has_escrow(escrow_id) {
        Err(EscrowError::DuplicateEscrow)
    } else if !ledger.has_account(vault_token_account) || !ledger.has_account(
        initializer_receive_token_account,
    ) {
        Err(EscrowError::LedgerOperationFailed)
    } else if ledger.account_of(vault_token_account).authority != initializer {
        Err(EscrowError::Unauthorized)
    } else if ledger.account_of(vault_token_account).balance != initializer_amount {
        Err(EscrowError::InsufficientBalance)
    } else if cfg.spec_authority() is None {
        Err(EscrowError::LedgerOperationFailed)
    } else {
        Ok(())
    }
}

/// The outcome `exchange` owes on the given starting state.
pub open spec fn exchange_decision(
    escrows: EscrowStore,
    ledger: Ledger,
    cfg: VaultConfig,
    escrow_id: Ident,
    taker: Ident,
    initializer: Ident,
    taker_send_token_account: Ident,
    taker_receive_token_account: Ident,
    vault_token_account: Ident,
    initializer_receive_token_account: Ident,
) -> Result<(), EscrowError> {
    if !escrows.has_escrow(escrow_id) {
        Err(EscrowError::EscrowNotFound)
    } else {
        let st = escrows.escrow_of(escrow_id);
        if vault_token_account != st.vault_token_account || initializer_receive_token_account
            != st.initializer_receive_token_account || initializer != st.initializer_key {
            Err(EscrowError::AccountMismatch)
        } else if taker_send_token_account == taker_receive_token_account
            || taker_send_token_account == vault_token_account || taker_send_token_account
            == initializer_receive_token_account || taker_receive_token_account
            == vault_token_account || taker_receive_token_account
            == initializer_receive_token_account || vault_token_account
            == initializer_receive_token_account {
            Err(EscrowError::AccountMismatch)
        } else if !ledger.has_account(taker_send_token_account) || !ledger.has_account(
            taker_receive_token_account,
        ) || !ledger.has_account(vault_token_account) || !ledger.has_account(
            initializer_receive_token_account,
        ) {
            Err(EscrowError::LedgerOperationFailed)
        } else if ledger.account_of(taker_send_token_account).authority != taker {
            Err(EscrowError::Unauthorized)
        } else if ledger.account_of(taker_send_token_account).balance < st.taker_amount {
            Err(EscrowError::InsufficientBalance)
        } else if ledger.account_of(taker_send_token_account).mint != ledger.account_of(
            initializer_receive_token_account,
        ).mint || ledger.account_of(vault_token_account).mint != ledger.account_of(
            taker_receive_token_account,
        ).mint {
            Err(EscrowError::LedgerOperationFailed)
        } else if cfg.spec_authority() is None || ledger.account_of(
            vault_token_account,
        ).authority != (cfg.spec_authority()->0).0 {
            Err(EscrowError::LedgerOperationFailed)
        } else if ledger.account_of(vault_token_account).balance < st.initializer_amount {
            Err(EscrowError::InsufficientBalance)
        } else if ledger.account_of(vault_token_account).balance > st.initializer_amount {
            Err(EscrowError::LedgerOperationFailed)
        } else if ledger.account_of(initializer_receive_token_account).balance + st.taker_amount
            > u64::MAX || ledger.account_of(taker_receive_token_account).balance
            + st.initializer_amount > u64::MAX {
            Err(EscrowError::LedgerOperationFailed)
        } else {
            Ok(())
        }
    }
}

/// The outcome `cancel` owes on the given starting state.
pub open spec fn cancel_decision(
    escrows: EscrowStore,
    ledger: Ledger,
    cfg: VaultConfig,
    escrow_id: Ident,
    initializer: Ident,
    initializer_token_account: Ident,
    vault_token_account: Ident,
    initializer_receive_token_account: Ident,
) -> Result<(), EscrowError> {
    if !escrows.has_escrow(escrow_id) {
        Err(EscrowError::EscrowNotFound)
    } else {
        let st = escrows.escrow_of(escrow_id);
        if vault_token_account != st.vault_token_account || initializer_receive_token_account
            != st.initializer_receive_token_account {
            Err(EscrowError::AccountMismatch)
        } else if initializer_token_account == vault_token_account {
            Err(EscrowError::AccountMismatch)
        } else if initializer != st.initializer_key {
            Err(EscrowError::Unauthorized)
        } else if !ledger.has_account(vault_token_account) || !ledger.has_account(
            initializer_token_account,
        ) {
            Err(EscrowError::LedgerOperationFailed)
        } else if ledger.account_of(vault_token_account).mint != ledger.account_of(
            initializer_token_account,
        ).mint {
            Err(EscrowError::LedgerOperationFailed)
        } else if cfg.spec_authority() is None || ledger.account_of(
            vault_token_account,
        ).authority != (cfg.spec_authority()->0).0 {
            Err(EscrowError::LedgerOperationFailed)
        } else if ledger.account_of(vault_token_account).balance < st.initializer_amount {
            Err(EscrowError::InsufficientBalance)
        } else if ledger.account_of(vault_token_account).balance > st.initializer_amount {
            Err(EscrowError::LedgerOperationFailed)
        } else if ledger.account_of(initializer_token_account).balance + st.initializer_amount
            > u64::MAX {
            Err(EscrowError::LedgerOperationFailed)
        } else {
            Ok(())
        }
    }
}

/// Open an escrow: record the trade's terms under `escrow_id` and hand
/// authority over the pre-funded vault from the initializer to the
/// derived vault authority.  After success the initializer retains no
/// unilateral control over the vault, and the vault still holds exactly
/// `initializer_amount`.
pub fn initialize(
    escrows: &mut EscrowStore,
    ledger: &mut Ledger,
    cfg: &VaultConfig,
    escrow_id: Ident,
    initializer: Ident,
    vault_token_account: Ident,
    initializer_receive_token_account: Ident,
    initializer_amount: u64,
    taker_amount: u64,
) -> (r: Result<(), EscrowError>)
    requires
        old(escrows).wf(),
        old(ledger).wf(),
    ensures
        final(escrows).wf(),
        final(ledger).wf(),
        r == initialize_decision(
            *old(escrows),
            *old(ledger),
            *cfg,
            escrow_id,
            initializer,
            vault_token_account,
            initializer_receive_token_account,
            initializer_amount,
        ),
        r is Err ==> *final(escrows) == *old(escrows) && *final(ledger) == *old(ledger),
        r is Ok ==> {
            &&& final(escrows).has_escrow(escrow_id)
            &&& final(escrows).escrow_of(escrow_id) == (EscrowAccount {
                initializer_key: initializer,
                vault_token_account,
                initializer_receive_token_account,
                initializer_amount,
                taker_amount,
            })
            &&& forall|x: Ident|
                x != escrow_id ==> final(escrows).has_escrow(x) == old(escrows).has_escrow(x)
            &&& forall|x: Ident|
                x != escrow_id && old(escrows).has_escrow(x) ==> final(escrows).escrow_of(x)
                    == old(escrows).escrow_of(x)
            &&& forall|x: Ident| final(ledger).has_account(x) == old(ledger).has_account(x)
            &&& final(ledger).account_of(vault_token_account) == (TokenAccount {
                authority: (cfg.spec_authority()->0).0,
                ..old(ledger).account_of(vault_token_account)
            })
            &&& final(ledger).account_of(vault_token_account).balance == initializer_amount
            &&& forall|x: Ident|
                x != vault_token_account && old(ledger).has_account(x) ==> final(ledger).account_of(x) == old(ledger).account_of(x)
        },
{
    if let Some(_) = escrows.get(escrow_id) {
        return Err(EscrowError::DuplicateEscrow);
    }
    let vault_acct = match ledger.get_account(vault_token_account) {
        Some(a) => a,
        None => {
            return Err(EscrowError::LedgerOperationFailed);
        },
    };
    if let None = ledger.get_account(initializer_receive_token_account) {
        return Err(EscrowError::LedgerOperationFailed);
    }
    if vault_acct.authority != initializer {
        return Err(EscrowError::Unauthorized);
    }
    if vault_acct.balance != initializer_amount {
        return Err(EscrowError::InsufficientBalance);
    }
    let pda = match cfg.derive_authority() {
        Some(p) => p,
        None => {
            return Err(EscrowError::LedgerOperationFailed);
        },
    };
    let r_auth = ledger.set_authority(vault_token_account, pda.0, initializer);
    proof {
        assert(r_auth is Ok);
    }
    let r_ins = escrows.insert(
        escrow_id,
        EscrowAccount {
            initializer_key: initializer,
            vault_token_account,
            initializer_receive_token_account,
            initializer_amount,
            taker_amount,
        },
    );
    proof {
        assert(r_ins is Ok);
    }
    Ok(())
}

/// Settle the swap: the taker pays the initializer's receive account,
/// the vault pays the taker's receive account, the drained vault is
/// closed, and the record is destroyed — all of it, or none of it.
pub fn exchange(
    escrows: &mut EscrowStore,
    ledger: &mut Ledger,
    cfg: &VaultConfig,
    escrow_id: Ident,
    taker: Ident,
    initializer: Ident,
    taker_send_token_account: Ident,
    taker_receive_token_account: Ident,
    vault_token_account: Ident,
    initializer_receive_token_account: Ident,
) -> (r: Result<(), EscrowError>)
    requires
        old(escrows).wf(),
        old(ledger).wf(),
    ensures
        final(escrows).wf(),
        final(ledger).wf(),
        r == exchange_decision(
            *old(escrows),
            *old(ledger),
            *cfg,
            escrow_id,
            taker,
            initializer,
            taker_send_token_account,
            taker_receive_token_account,
            vault_token_account,
            initializer_receive_token_account,
        ),
        r is Err ==> *final(escrows) == *old(escrows) && *final(ledger) == *old(ledger),
        r is Ok ==> ({
            let st = old(escrows).escrow_of(escrow_id);
            &&& !final(escrows).has_escrow(escrow_id)
            &&& forall|x: Ident|
                x != escrow_id ==> final(escrows).has_escrow(x) == old(escrows).has_escrow(x)
            &&& forall|x: Ident|
                x != escrow_id && old(escrows).has_escrow(x) ==> final(escrows).escrow_of(x)
                    == old(escrows).escrow_of(x)
            &&& !final(ledger).has_account(vault_token_account)
            &&& forall|x: Ident|
                x != vault_token_account ==> final(ledger).has_account(x) == old(ledger).has_account(x)
            &&& final(ledger).account_of(taker_send_token_account) == (TokenAccount {
                balance: (old(ledger).account_of(taker_send_token_account).balance
                    - st.taker_amount) as u64,
                ..old(ledger).account_of(taker_send_token_account)
            })
            &&& final(ledger).account_of(initializer_receive_token_account) == (TokenAccount {
                balance: (old(ledger).account_of(initializer_receive_token_account).balance
                    + st.taker_amount) as u64,
                ..old(ledger).account_of(initializer_receive_token_account)
            })
            &&& final(ledger).account_of(taker_receive_token_account) == (TokenAccount {
                balance: (old(ledger).account_of(taker_receive_token_account).balance
                    + st.initializer_amount) as u64,
                ..old(ledger).account_of(taker_receive_token_account)
            })
            &&& forall|x: Ident|
                x != taker_send_token_account && x != taker_receive_token_account && x
                    != vault_token_account && x != initializer_receive_token_account && old(ledger).has_account(x) ==> final(ledger).account_of(x) == old(ledger).account_of(x)
        }),
{
    let st = match escrows.get(escrow_id) {
        Some(st) => st,
        None => {
            return Err(EscrowError::EscrowNotFound);
        },
    };
    if vault_token_account != st.vault_token_account || initializer_receive_token_account
        != st.initializer_receive_token_account || initializer != st.initializer_key {
        return Err(EscrowError::AccountMismatch);
    }
    if taker_send_token_account == taker_receive_token_account || taker_send_token_account
        == vault_token_account || taker_send_token_account == initializer_receive_token_account
        || taker_receive_token_account == vault_token_account || taker_receive_token_account
        == initializer_receive_token_account || vault_token_account
        == initializer_receive_token_account {
        return Err(EscrowError::AccountMismatch);
    }
    let ts_acct = match ledger.get_account(taker_send_token_account) {
        Some(a) => a,
        None => {
            return Err(EscrowError::LedgerOperationFailed);
        },
    };
    let tr_acct = match ledger.get_account(taker_receive_token_account) {
        Some(a) => a,
        None => {
            return Err(EscrowError::LedgerOperationFailed);
        },
    };
    let vault_acct = match ledger.get_account(vault_token_account) {
        Some(a) => a,
        None => {
            return Err(EscrowError::LedgerOperationFailed);
        },
    };
    let ir_acct = match ledger.get_account(initializer_receive_token_account) {
        Some(a) => a,
        None => {
            return Err(EscrowError::LedgerOperationFailed);
        },
    };
    if ts_acct.authority != taker {
        return Err(EscrowError::Unauthorized);
    }
    if ts_acct.balance < st.taker_amount {
        return Err(EscrowError::InsufficientBalance);
    }
    if ts_acct.mint != ir_acct.mint || vault_acct.mint != tr_acct.mint {
        return Err(EscrowError::LedgerOperationFailed);
    }
    let pda = match cfg.derive_authority() {
        Some(p) => p,
        None => {
            return Err(EscrowError::LedgerOperationFailed);
        },
    };
    if vault_acct.authority != pda.0 {
        return Err(EscrowError::LedgerOperationFailed);
    }
    if vault_acct.balance < st.initializer_amount {
        return Err(EscrowError::InsufficientBalance);
    }
    if vault_acct.balance > st.initializer_amount {
        return Err(EscrowError::LedgerOperationFailed);
    }
    if ir_acct.balance > u64::MAX - st.taker_amount {
        return Err(EscrowError::LedgerOperationFailed);
    }
    if tr_acct.balance > u64::MAX - st.initializer_amount {
        return Err(EscrowError::LedgerOperationFailed);
    }
    let r_leg1 = ledger.transfer(
        taker_send_token_account,
        initializer_receive_token_account,
        st.taker_amount,
        taker,
    );
    proof {
        assert(r_leg1 is Ok);
    }
    let r_leg2 = ledger.transfer(
        vault_token_account,
        taker_receive_token_account,
        st.initializer_amount,
        pda.0,
    );
    proof {
        assert(r_leg2 is Ok);
    }
    let r_close = ledger.close(vault_token_account, pda.0);
    proof {
        assert(r_close is Ok);
    }
    let r_rm = escrows.remove(escrow_id);
    proof {
        assert(r_rm is Ok);
    }
    Ok(())
}

/// Cancel the escrow: the vault pays the initializer's destination
/// account back, the drained vault is closed, and the record is
/// destroyed — all of it, or none of it.  Only the principal that opened
/// the escrow may cancel it.
pub fn cancel(
    escrows: &mut EscrowStore,
    ledger: &mut Ledger,
    cfg: &VaultConfig,
    escrow_id: Ident,
    initializer: Ident,
    initializer_token_account: Ident,
    vault_token_account: Ident,
    initializer_receive_token_account: Ident,
) -> (r: Result<(), EscrowError>)
    requires
        old(escrows).wf(),
        old(ledger).wf(),
    ensures
        final(escrows).wf(),
        final(ledger).wf(),
        r == cancel_decision(
            *old(escrows),
            *old(ledger),
            *cfg,
            escrow_id,
            initializer,
            initializer_token_account,
            vault_token_account,
            initializer_receive_token_account,
        ),
        r is Err ==> *final(escrows) == *old(escrows) && *final(ledger) == *old(ledger),
        r is Ok ==> ({
            let st = old(escrows).escrow_of(escrow_id);
            &&& !final(escrows).has_escrow(escrow_id)
            &&& forall|x: Ident|
                x != escrow_id ==> final(escrows).has_escrow(x) == old(escrows).has_escrow(x)
            &&& forall|x: Ident|
                x != escrow_id && old(escrows).has_escrow(x) ==> final(escrows).escrow_of(x)
                    == old(escrows).escrow_of(x)
            &&& !final(ledger).has_account(vault_token_account)
            &&& forall|x: Ident|
                x != vault_token_account ==> final(ledger).has_account(x) == old(ledger).has_account(x)
            &&& final(ledger).account_of(initializer_token_account) == (TokenAccount {
                balance: (old(ledger).account_of(initializer_token_account).balance
                    + st.initializer_amount) as u64,
                ..old(ledger).account_of(initializer_token_account)
            })
            &&& forall|x: Ident|
                x != initializer_token_account && x != vault_token_account && old(ledger).has_account(x) ==> final(ledger).account_of(x) == old(ledger).account_of(x)
        }),
{
    let st = match escrows.get(escrow_id) {
        Some(st) => st,
        None => {
            return Err(EscrowError::EscrowNotFound);
        },
    };
    if vault_token_account != st.vault_token_account || initializer_receive_token_account
        != st.initializer_receive_token_account {
        return Err(EscrowError::AccountMismatch);
    }
    if initializer_token_account == vault_token_account {
        return Err(EscrowError::AccountMismatch);
    }
    if initializer != st.initializer_key {
        return Err(EscrowError::Unauthorized);
    }
    let vault_acct = match ledger.get_account(vault_token_account) {
        Some(a) => a,
        None => {
            return Err(EscrowError::LedgerOperationFailed);
        },
    };
    let dest_acct = match ledger.get_account(initializer_token_account) {
        Some(a) => a,
        None => {
            return Err(EscrowError::LedgerOperationFailed);
        },
    };
    if vault_acct.mint != dest_acct.mint {
        return Err(EscrowError::LedgerOperationFailed);
    }
    let pda = match cfg.derive_authority() {
        Some(p) => p,
        None => {
            return Err(EscrowError::LedgerOperationFailed);
        },
    };
    if vault_acct.authority != pda.0 {
        return Err(EscrowError::LedgerOperationFailed);
    }
    if vault_acct.balance < st.initializer_amount {
        return Err(EscrowError::InsufficientBalance);
    }
    if vault_acct.balance > st.initializer_amount {
        return Err(EscrowError::LedgerOperationFailed);
    }
    if dest_acct.balance > u64::MAX - st.initializer_amount {
        return Err(EscrowError::LedgerOperationFailed);
    }
    let r_leg = ledger.transfer(
        vault_token_account,
        initializer_token_account,
        st.initializer_amount,
        pda.0,
    );
    proof {
        assert(r_leg is Ok);
    }
    let r_close = ledger.close(vault_token_account, pda.0);
    proof {
        assert(r_close is Ok);
    }
    let r_rm = escrows.remove(escrow_id);
    proof {
        assert(r_rm is Ok);
    }
    Ok(())
}

/// Vault custody: a signer that is not an account's recorded authority
/// cannot move funds out of it; the ledger refuses the transfer as
/// unauthorized.  Together with `initialize`'s contract — which hands the
/// vault's authority to the derived vault authority — this is what keeps
/// the opener from unilaterally draining the vault after opening.
pub proof fn lemma_vault_custody(l: Ledger, vault: Ident, signer: Ident, to: Ident, amount: u64)
    requires
        l.has_account(vault),
        l.account_of(vault).authority != signer,
    ensures
        !transfer_allowed(l, vault, to, amount, signer),
        transfer_result(l, vault, to, amount, signer) == Err::<(), EscrowError>(
            EscrowError::Unauthorized,
        ),
{
}

/// Exclusivity: once no record stands under an escrow identifier — as
/// after a successful `exchange` or `cancel`, whose contracts remove it —
/// every further `exchange` or `cancel` under that identifier fails with
/// `EscrowNotFound`, whatever its other arguments.
pub proof fn lemma_terminal_exclusive(
    escrows: EscrowStore,
    ledger: Ledger,
    cfg: VaultConfig,
    escrow_id: Ident,
    taker: Ident,
    initializer: Ident,
    taker_send_token_account: Ident,
    taker_receive_token_account: Ident,
    vault_token_account: Ident,
    initializer_receive_token_account: Ident,
    initializer_token_account: Ident,
)
    requires
        !escrows.has_escrow(escrow_id),
    ensures
        exchange_decision(
            escrows,
            ledger,
            cfg,
            escrow_id,
            taker,
            initializer,
            taker_send_token_account,
            taker_receive_token_account,
            vault_token_account,
            initializer_receive_token_account,
        ) == Err::<(), EscrowError>(EscrowError::EscrowNotFound),
        cancel_decision(
            escrows,
            ledger,
            cfg,
            escrow_id,
            initializer,
            initializer_token_account,
            vault_token_account,
            initializer_receive_token_account,
        ) == Err::<(), EscrowError>(EscrowError::EscrowNotFound),
{
}

/// Account binding for `exchange`: supplying a vault, receive account or
/// initializer that does not match the stored record fails with
/// `AccountMismatch` (and, by `exchange`'s contract, with no effect).
pub proof fn lemma_account_binding_exchange(
    escrows: EscrowStore,
    ledger: Ledger,
    cfg: VaultConfig,
    escrow_id: Ident,
    taker: Ident,
    initializer: Ident,
    taker_send_token_account: Ident,
    taker_receive_token_account: Ident,
    vault_token_account: Ident,
    initializer_receive_token_account: Ident,
)
    requires
        escrows.has_escrow(escrow_id),
        vault_token_account != escrows.escrow_of(escrow_id).vault_token_account
            || initializer_receive_token_account != escrows.escrow_of(
            escrow_id,
        ).initializer_receive_token_account || initializer != escrows.escrow_of(
            escrow_id,
        ).initializer_key,
    ensures
        exchange_decision(
            escrows,
            ledger,
            cfg,
            escrow_id,
            taker,
            initializer,
            taker_send_token_account,
            taker_receive_token_account,
            vault_token_account,
            initializer_receive_token_account,
        ) == Err::<(), EscrowError>(EscrowError::AccountMismatch),
{
}

/// Account binding for `cancel`: supplying a vault or receive account
/// that does not match the stored record fails with `AccountMismatch`
/// (and, by `cancel`'s contract, with no effect).
pub proof fn lemma_account_binding_cancel(
    escrows: EscrowStore,
    ledger: Ledger,
    cfg: VaultConfig,
    escrow_id: Ident,
    initializer: Ident,
    initializer_token_account: Ident,
    vault_token_account: Ident,
    initializer_receive_token_account: Ident,
)
    requires
        escrows.has_escrow(escrow_id),
        vault_token_account != escrows.escrow_of(escrow_id).vault_token_account
            || initializer_receive_token_account != escrows.escrow_of(
            escrow_id,
        ).initializer_receive_token_account,
    ensures
        cancel_decision(
            escrows,
            ledger,
            cfg,
            escrow_id,
            initializer,
            initializer_token_account,
            vault_token_account,
            initializer_receive_token_account,
        ) == Err::<(), EscrowError>(EscrowError::AccountMismatch),
{
}

} // verus!
