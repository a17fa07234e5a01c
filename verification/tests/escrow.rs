//! End-to-end tests of the escrow protocol against the modeled ledger.

use solana_escrow_anchor::authority::VaultConfig;
use solana_escrow_anchor::ledger::Ledger;
use solana_escrow_anchor::protocol::{cancel, exchange, initialize};
use solana_escrow_anchor::store::EscrowStore;
use solana_escrow_anchor::types::{EscrowAccount, EscrowError, Ident};

fn id(n: u64) -> Ident {
    Ident::new(n, 0, 0, 0)
}

const MINT_A: u64 = 1;
const MINT_B: u64 = 2;
const OPENER: u64 = 10;
const TAKER: u64 = 11;
const VAULT: u64 = 20;
const OPENER_RECEIVE: u64 = 21;
const TAKER_SEND: u64 = 22;
const TAKER_RECEIVE: u64 = 23;
const OPENER_DEST: u64 = 24;
const ESCROW_ID: u64 = 99;
const PROGRAM: u64 = 1000;

fn cfg() -> VaultConfig {
    VaultConfig { seed: b"vault".to_vec(), program: id(PROGRAM) }
}

/// A ledger holding the five accounts of the scenarios: a vault pre-funded
/// with 100 units of mint A owned by the opener, and the parties' accounts.
fn setup_ledger(taker_send_balance: u64) -> Ledger {
    let mut ledger = Ledger::new();
    ledger.create_account(id(VAULT), id(MINT_A), id(OPENER), 100).unwrap();
    ledger.create_account(id(OPENER_RECEIVE), id(MINT_B), id(OPENER), 0).unwrap();
    ledger.create_account(id(TAKER_SEND), id(MINT_B), id(TAKER), taker_send_balance).unwrap();
    ledger.create_account(id(TAKER_RECEIVE), id(MINT_A), id(TAKER), 0).unwrap();
    ledger.create_account(id(OPENER_DEST), id(MINT_A), id(OPENER), 0).unwrap();
    ledger
}

fn open_escrow(escrows: &mut EscrowStore, ledger: &mut Ledger) {
    let r = initialize(
        escrows,
        ledger,
        &cfg(),
        id(ESCROW_ID),
        id(OPENER),
        id(VAULT),
        id(OPENER_RECEIVE),
        100,
        50,
    );
    assert_eq!(r, Ok(()));
}

fn run_exchange(escrows: &mut EscrowStore, ledger: &mut Ledger) -> Result<(), EscrowError> {
    exchange(
        escrows,
        ledger,
        &cfg(),
        id(ESCROW_ID),
        id(TAKER),
        id(OPENER),
        id(TAKER_SEND),
        id(TAKER_RECEIVE),
        id(VAULT),
        id(OPENER_RECEIVE),
    )
}

fn run_cancel(
    escrows: &mut EscrowStore,
    ledger: &mut Ledger,
    signer: Ident,
) -> Result<(), EscrowError> {
    cancel(
        escrows,
        ledger,
        &cfg(),
        id(ESCROW_ID),
        signer,
        id(OPENER_DEST),
        id(VAULT),
        id(OPENER_RECEIVE),
    )
}

#[test]
fn open_records_terms_and_keeps_vault_balance() {
    let mut escrows = EscrowStore::new();
    let mut ledger = setup_ledger(50);
    open_escrow(&mut escrows, &mut ledger);
    assert_eq!(ledger.balance_of(id(VAULT)), Some(100));
    assert_eq!(
        escrows.get(id(ESCROW_ID)),
        Some(EscrowAccount {
            initializer_key: id(OPENER),
            vault_token_account: id(VAULT),
            initializer_receive_token_account: id(OPENER_RECEIVE),
            initializer_amount: 100,
            taker_amount: 50,
        })
    );
}

#[test]
fn open_hands_vault_to_derived_authority() {
    let mut escrows = EscrowStore::new();
    let mut ledger = setup_ledger(50);
    open_escrow(&mut escrows, &mut ledger);
    let derived = cfg().derive_authority().unwrap().0;
    assert_eq!(ledger.get_account(id(VAULT)).unwrap().authority, derived);
}

#[test]
fn opener_cannot_drain_vault_after_open() {
    let mut escrows = EscrowStore::new();
    let mut ledger = setup_ledger(50);
    open_escrow(&mut escrows, &mut ledger);
    let r = ledger.transfer(id(VAULT), id(TAKER_RECEIVE), 100, id(OPENER));
    assert_eq!(r, Err(EscrowError::Unauthorized));
    assert_eq!(ledger.balance_of(id(VAULT)), Some(100));
}

#[test]
fn settle_moves_both_legs_and_closes_vault() {
    let mut escrows = EscrowStore::new();
    let mut ledger = setup_ledger(50);
    open_escrow(&mut escrows, &mut ledger);
    assert_eq!(run_exchange(&mut escrows, &mut ledger), Ok(()));
    assert_eq!(ledger.balance_of(id(OPENER_RECEIVE)), Some(50));
    assert_eq!(ledger.balance_of(id(TAKER_RECEIVE)), Some(100));
    assert_eq!(ledger.balance_of(id(TAKER_SEND)), Some(0));
    assert_eq!(ledger.balance_of(id(VAULT)), None);
    assert_eq!(escrows.get(id(ESCROW_ID)), None);
}

#[test]
fn settle_twice_fails_not_found() {
    let mut escrows = EscrowStore::new();
    let mut ledger = setup_ledger(50);
    open_escrow(&mut escrows, &mut ledger);
    assert_eq!(run_exchange(&mut escrows, &mut ledger), Ok(()));
    assert_eq!(run_exchange(&mut escrows, &mut ledger), Err(EscrowError::EscrowNotFound));
    assert_eq!(
        run_cancel(&mut escrows, &mut ledger, id(OPENER)),
        Err(EscrowError::EscrowNotFound)
    );
}

#[test]
fn settle_with_short_funds_changes_nothing() {
    let mut escrows = EscrowStore::new();
    let mut ledger = setup_ledger(30);
    open_escrow(&mut escrows, &mut ledger);
    assert_eq!(run_exchange(&mut escrows, &mut ledger), Err(EscrowError::InsufficientBalance));
    assert_eq!(ledger.balance_of(id(TAKER_SEND)), Some(30));
    assert_eq!(ledger.balance_of(id(OPENER_RECEIVE)), Some(0));
    assert_eq!(ledger.balance_of(id(TAKER_RECEIVE)), Some(0));
    assert_eq!(ledger.balance_of(id(VAULT)), Some(100));
    assert!(escrows.get(id(ESCROW_ID)).is_some());
}

#[test]
fn settle_with_wrong_vault_fails_mismatch() {
    let mut escrows = EscrowStore::new();
    let mut ledger = setup_ledger(50);
    open_escrow(&mut escrows, &mut ledger);
    let r = exchange(
        &mut escrows,
        &mut ledger,
        &cfg(),
        id(ESCROW_ID),
        id(TAKER),
        id(OPENER),
        id(TAKER_SEND),
        id(TAKER_RECEIVE),
        id(TAKER_RECEIVE),
        id(OPENER_RECEIVE),
    );
    assert_eq!(r, Err(EscrowError::AccountMismatch));
    assert_eq!(ledger.balance_of(id(VAULT)), Some(100));
    assert_eq!(ledger.balance_of(id(TAKER_SEND)), Some(50));
    assert!(escrows.get(id(ESCROW_ID)).is_some());
}

#[test]
fn settle_by_non_owner_of_sending_account_fails_unauthorized() {
    let mut escrows = EscrowStore::new();
    let mut ledger = setup_ledger(50);
    open_escrow(&mut escrows, &mut ledger);
    let r = exchange(
        &mut escrows,
        &mut ledger,
        &cfg(),
        id(ESCROW_ID),
        id(OPENER),
        id(OPENER),
        id(TAKER_SEND),
        id(TAKER_RECEIVE),
        id(VAULT),
        id(OPENER_RECEIVE),
    );
    assert_eq!(r, Err(EscrowError::Unauthorized));
    assert_eq!(ledger.balance_of(id(TAKER_SEND)), Some(50));
}

#[test]
fn settle_with_wrong_mint_fails_ledger_operation() {
    let mut escrows = EscrowStore::new();
    let mut ledger = Ledger::new();
    ledger.create_account(id(VAULT), id(MINT_A), id(OPENER), 100).unwrap();
    ledger.create_account(id(OPENER_RECEIVE), id(MINT_B), id(OPENER), 0).unwrap();
    // The taker's sending account holds the wrong asset.
    ledger.create_account(id(TAKER_SEND), id(MINT_A), id(TAKER), 50).unwrap();
    ledger.create_account(id(TAKER_RECEIVE), id(MINT_A), id(TAKER), 0).unwrap();
    open_escrow(&mut escrows, &mut ledger);
    assert_eq!(
        run_exchange(&mut escrows, &mut ledger),
        Err(EscrowError::LedgerOperationFailed)
    );
    assert_eq!(ledger.balance_of(id(TAKER_SEND)), Some(50));
    assert_eq!(ledger.balance_of(id(VAULT)), Some(100));
}

#[test]
fn cancel_returns_deposit_and_closes_vault() {
    let mut escrows = EscrowStore::new();
    let mut ledger = setup_ledger(50);
    open_escrow(&mut escrows, &mut ledger);
    assert_eq!(run_cancel(&mut escrows, &mut ledger, id(OPENER)), Ok(()));
    assert_eq!(ledger.balance_of(id(OPENER_DEST)), Some(100));
    assert_eq!(ledger.balance_of(id(VAULT)), None);
    assert_eq!(escrows.get(id(ESCROW_ID)), None);
}

#[test]
fn cancel_by_stranger_fails_unauthorized() {
    let mut escrows = EscrowStore::new();
    let mut ledger = setup_ledger(50);
    open_escrow(&mut escrows, &mut ledger);
    let r = run_cancel(&mut escrows, &mut ledger, id(TAKER));
    assert_eq!(r, Err(EscrowError::Unauthorized));
    assert_eq!(ledger.balance_of(id(VAULT)), Some(100));
    assert!(escrows.get(id(ESCROW_ID)).is_some());
}

#[test]
fn cancel_with_wrong_receive_account_fails_mismatch() {
    let mut escrows = EscrowStore::new();
    let mut ledger = setup_ledger(50);
    open_escrow(&mut escrows, &mut ledger);
    let r = cancel(
        &mut escrows,
        &mut ledger,
        &cfg(),
        id(ESCROW_ID),
        id(OPENER),
        id(OPENER_DEST),
        id(VAULT),
        id(TAKER_SEND),
    );
    assert_eq!(r, Err(EscrowError::AccountMismatch));
    assert_eq!(ledger.balance_of(id(VAULT)), Some(100));
}

#[test]
fn open_twice_fails_duplicate() {
    let mut escrows = EscrowStore::new();
    let mut ledger = setup_ledger(50);
    open_escrow(&mut escrows, &mut ledger);
    let r = initialize(
        &mut escrows,
        &mut ledger,
        &cfg(),
        id(ESCROW_ID),
        id(OPENER),
        id(VAULT),
        id(OPENER_RECEIVE),
        100,
        50,
    );
    assert_eq!(r, Err(EscrowError::DuplicateEscrow));
}

#[test]
fn open_with_wrong_vault_balance_fails_insufficient() {
    let mut escrows = EscrowStore::new();
    let mut ledger = setup_ledger(50);
    let r = initialize(
        &mut escrows,
        &mut ledger,
        &cfg(),
        id(ESCROW_ID),
        id(OPENER),
        id(VAULT),
        id(OPENER_RECEIVE),
        60,
        50,
    );
    assert_eq!(r, Err(EscrowError::InsufficientBalance));
    assert_eq!(escrows.get(id(ESCROW_ID)), None);
    assert_eq!(ledger.get_account(id(VAULT)).unwrap().authority, id(OPENER));
}

#[test]
fn open_by_non_owner_of_vault_fails_unauthorized() {
    let mut escrows = EscrowStore::new();
    let mut ledger = setup_ledger(50);
    let r = initialize(
        &mut escrows,
        &mut ledger,
        &cfg(),
        id(ESCROW_ID),
        id(TAKER),
        id(VAULT),
        id(OPENER_RECEIVE),
        100,
        50,
    );
    assert_eq!(r, Err(EscrowError::Unauthorized));
}

#[test]
fn missing_escrow_fails_not_found() {
    let mut escrows = EscrowStore::new();
    let mut ledger = setup_ledger(50);
    assert_eq!(run_exchange(&mut escrows, &mut ledger), Err(EscrowError::EscrowNotFound));
    assert_eq!(
        run_cancel(&mut escrows, &mut ledger, id(OPENER)),
        Err(EscrowError::EscrowNotFound)
    );
}

#[test]
fn derivation_is_deterministic() {
    let a = cfg().derive_authority();
    let b = cfg().derive_authority();
    assert!(a.is_some());
    assert_eq!(a, b);
}

#[test]
fn derivation_depends_on_its_inputs() {
    let base = cfg().derive_authority().unwrap();
    assert_ne!(base.0, id(PROGRAM));
    let other_program =
        VaultConfig { seed: b"vault".to_vec(), program: id(PROGRAM + 1) }.derive_authority().unwrap();
    assert_ne!(base.0, other_program.0);
    let other_seed =
        VaultConfig { seed: b"stake".to_vec(), program: id(PROGRAM) }.derive_authority().unwrap();
    assert_ne!(base.0, other_seed.0);
}
