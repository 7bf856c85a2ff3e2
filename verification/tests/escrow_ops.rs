//! Scenario tests of the escrow core: make, take, refund.

use escrow_vault::addr::{compute_bump, Address, TAG_ESCROW};
use escrow_vault::escrow::{make, refund, take};
use escrow_vault::ledger::{Account, Ledger};
use escrow_vault::state::{Escrow, VaultError};

const MAKER: u64 = 1;
const TAKER: u64 = 2;
const MINT_X: u64 = 10;
const MINT_Y: u64 = 11;
const RESERVE: u64 = 5;

fn record_addr(maker: u64, seed: u64) -> Address {
    Address::EscrowRecord { maker, seed }
}

fn vault_addr(mint: u64, maker: u64, seed: u64) -> Address {
    Address::EscrowVault { mint, maker, seed }
}

fn holding(mint: u64, owner: u64) -> Address {
    Address::Holding { mint, owner }
}

fn token_balance(l: &Ledger, mint: u64, owner: u64) -> u64 {
    match l.get(&holding(mint, owner)) {
        Some(Account::Token { balance, .. }) => balance,
        other => panic!("expected a token holding, got {:?}", other),
    }
}

/// A ledger with a funded maker and taker: the maker holds 150 of X, the
/// taker 80 of Y, and both hold native value for the storage reserves.
fn setup() -> Ledger {
    let mut l = Ledger::new(RESERVE);
    assert_eq!(l.create_native_account(MAKER, 1000), Ok(()));
    assert_eq!(l.create_native_account(TAKER, 1000), Ok(()));
    assert_eq!(l.create_mint(MINT_X, 6), Ok(()));
    assert_eq!(l.create_mint(MINT_Y, 9), Ok(()));
    assert_eq!(l.create_token_account(MINT_X, MAKER, 150), Ok(()));
    assert_eq!(l.create_token_account(MINT_Y, MAKER, 0), Ok(()));
    assert_eq!(l.create_token_account(MINT_X, TAKER, 0), Ok(()));
    assert_eq!(l.create_token_account(MINT_Y, TAKER, 80), Ok(()));
    l
}

#[test]
fn make_deposits_and_persists_record() {
    let mut l = setup();
    let r = make(&mut l, MAKER, 1, MINT_X, MINT_Y, 100, 50);
    assert_eq!(r, Ok(()));
    // The vault holds exactly the deposit and is owned by the record.
    assert_eq!(
        l.get(&vault_addr(MINT_X, MAKER, 1)),
        Some(Account::Token {
            mint: MINT_X,
            authority: record_addr(MAKER, 1),
            balance: 100,
        })
    );
    // The record persists the fields exactly as supplied.
    assert_eq!(
        l.get(&record_addr(MAKER, 1)),
        Some(Account::Record(Escrow {
            seed: 1,
            maker: MAKER,
            mint_a: MINT_X,
            mint_b: MINT_Y,
            receive: 50,
            bump: compute_bump(TAG_ESCROW, MAKER, 1, 0),
        }))
    );
    // The maker's holding decreased by the deposit, their native value by the
    // two storage reserves.
    assert_eq!(token_balance(&l, MINT_X, MAKER), 50);
    assert_eq!(
        l.get(&Address::Key(MAKER)),
        Some(Account::Native { balance: 1000 - 2 * RESERVE })
    );
}

#[test]
fn make_zero_deposit_rejected() {
    let mut l = setup();
    let r = make(&mut l, MAKER, 1, MINT_X, MINT_Y, 0, 50);
    assert_eq!(r, Err(VaultError::InvalidAmount));
    // No accounts were created and nothing moved.
    assert!(!l.contains(&record_addr(MAKER, 1)));
    assert!(!l.contains(&vault_addr(MINT_X, MAKER, 1)));
    assert_eq!(token_balance(&l, MINT_X, MAKER), 150);
    assert_eq!(l.get(&Address::Key(MAKER)), Some(Account::Native { balance: 1000 }));
}

#[test]
fn make_zero_receive_rejected() {
    let mut l = setup();
    let r = make(&mut l, MAKER, 1, MINT_X, MINT_Y, 100, 0);
    assert_eq!(r, Err(VaultError::InvalidAmount));
    assert!(!l.contains(&record_addr(MAKER, 1)));
    assert!(!l.contains(&vault_addr(MINT_X, MAKER, 1)));
}

#[test]
fn take_settles_swap_exactly() {
    let mut l = setup();
    assert_eq!(make(&mut l, MAKER, 1, MINT_X, MINT_Y, 100, 50), Ok(()));
    let r = take(&mut l, TAKER, MAKER, 1);
    assert_eq!(r, Ok(()));
    // Exactly 50 of Y moved to the maker, exactly 100 of X to the taker.
    assert_eq!(token_balance(&l, MINT_Y, MAKER), 50);
    assert_eq!(token_balance(&l, MINT_Y, TAKER), 30);
    assert_eq!(token_balance(&l, MINT_X, TAKER), 100);
    assert_eq!(token_balance(&l, MINT_X, MAKER), 50);
    // No live record or vault remains at the pair's addresses, and the maker
    // got both storage reserves back.
    assert!(!l.contains(&record_addr(MAKER, 1)));
    assert!(!l.contains(&vault_addr(MINT_X, MAKER, 1)));
    assert_eq!(l.get(&Address::Key(MAKER)), Some(Account::Native { balance: 1000 }));
}

#[test]
fn take_insufficient_taker_funds_leaves_escrow_open() {
    let mut l = setup();
    assert_eq!(make(&mut l, MAKER, 1, MINT_X, MINT_Y, 100, 81), Ok(()));
    let r = take(&mut l, TAKER, MAKER, 1);
    assert_eq!(r, Err(VaultError::InsufficientFunds));
    // The escrow is still open and untouched.
    assert!(l.contains(&record_addr(MAKER, 1)));
    assert_eq!(
        l.get(&vault_addr(MINT_X, MAKER, 1)),
        Some(Account::Token {
            mint: MINT_X,
            authority: record_addr(MAKER, 1),
            balance: 100,
        })
    );
    assert_eq!(token_balance(&l, MINT_Y, TAKER), 80);
}

#[test]
fn refund_returns_deposit_and_closes() {
    let mut l = setup();
    assert_eq!(make(&mut l, MAKER, 1, MINT_X, MINT_Y, 100, 50), Ok(()));
    let r = refund(&mut l, MAKER, 1);
    assert_eq!(r, Ok(()));
    // Exactly the 100 of X deposited came back; record and vault are gone;
    // the storage reserves are back with the maker.
    assert_eq!(token_balance(&l, MINT_X, MAKER), 150);
    assert!(!l.contains(&record_addr(MAKER, 1)));
    assert!(!l.contains(&vault_addr(MINT_X, MAKER, 1)));
    assert_eq!(l.get(&Address::Key(MAKER)), Some(Account::Native { balance: 1000 }));
    // The closed escrow rejects both terminal transitions.
    assert_eq!(take(&mut l, TAKER, MAKER, 1), Err(VaultError::NotFound));
    assert_eq!(refund(&mut l, MAKER, 1), Err(VaultError::NotFound));
}

#[test]
fn take_after_take_rejected() {
    let mut l = setup();
    assert_eq!(make(&mut l, MAKER, 1, MINT_X, MINT_Y, 100, 50), Ok(()));
    assert_eq!(take(&mut l, TAKER, MAKER, 1), Ok(()));
    assert_eq!(take(&mut l, TAKER, MAKER, 1), Err(VaultError::NotFound));
    assert_eq!(refund(&mut l, MAKER, 1), Err(VaultError::NotFound));
}

#[test]
fn make_duplicate_seed_rejected_distinct_seeds_coexist() {
    let mut l = setup();
    assert_eq!(make(&mut l, MAKER, 1, MINT_X, MINT_Y, 40, 10), Ok(()));
    // Same (maker, seed): rejected, nothing changed.
    assert_eq!(
        make(&mut l, MAKER, 1, MINT_X, MINT_Y, 40, 10),
        Err(VaultError::AlreadyExists)
    );
    assert_eq!(token_balance(&l, MINT_X, MAKER), 110);
    // A different seed from the same maker succeeds independently.
    assert_eq!(make(&mut l, MAKER, 2, MINT_X, MINT_Y, 60, 20), Ok(()));
    assert!(l.contains(&record_addr(MAKER, 1)));
    assert!(l.contains(&record_addr(MAKER, 2)));
    assert_eq!(token_balance(&l, MINT_X, MAKER), 50);
}

#[test]
fn refund_by_non_maker_finds_no_escrow() {
    let mut l = setup();
    assert_eq!(make(&mut l, MAKER, 1, MINT_X, MINT_Y, 100, 50), Ok(()));
    // The would-be thief's derivation points at their own (empty) address
    // space, not at the maker's record.
    assert_eq!(refund(&mut l, TAKER, 1), Err(VaultError::NotFound));
    assert!(l.contains(&record_addr(MAKER, 1)));
}

#[test]
fn make_without_holding_rejected() {
    let mut l = Ledger::new(RESERVE);
    assert_eq!(l.create_native_account(MAKER, 1000), Ok(()));
    assert_eq!(l.create_mint(MINT_X, 6), Ok(()));
    assert_eq!(l.create_mint(MINT_Y, 9), Ok(()));
    let r = make(&mut l, MAKER, 1, MINT_X, MINT_Y, 100, 50);
    assert_eq!(r, Err(VaultError::NotFound));
}

#[test]
fn make_without_rent_rejected() {
    let mut l = setup();
    let mut poor = Ledger::new(RESERVE);
    assert_eq!(poor.create_native_account(MAKER, 2 * RESERVE - 1), Ok(()));
    assert_eq!(poor.create_mint(MINT_X, 6), Ok(()));
    assert_eq!(poor.create_mint(MINT_Y, 9), Ok(()));
    assert_eq!(poor.create_token_account(MINT_X, MAKER, 150), Ok(()));
    assert_eq!(
        make(&mut poor, MAKER, 1, MINT_X, MINT_Y, 100, 50),
        Err(VaultError::InsufficientFunds)
    );
    // With enough native value the same call goes through.
    assert_eq!(make(&mut l, MAKER, 1, MINT_X, MINT_Y, 100, 50), Ok(()));
}
