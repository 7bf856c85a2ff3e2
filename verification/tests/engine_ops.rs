//! Tests of the transfer engine, the account lifecycle primitives, and the
//! address derivation.

use escrow_vault::addr::{
    compute_bump, derive_escrow_record, derive_native_vault, prove_escrow_authority,
    prove_vault_authority, Address, Authorization, TAG_ESCROW, TAG_VAULT,
};
use escrow_vault::ledger::{Account, Ledger};
use escrow_vault::state::VaultError;

#[test]
fn native_transfer_moves_value() {
    let mut l = Ledger::new(5);
    assert_eq!(l.create_native_account(1, 100), Ok(()));
    assert_eq!(l.create_native_account(2, 10), Ok(()));
    let r = l.transfer_native(
        Address::Key(1),
        Address::Key(2),
        30,
        &Authorization::Signer(1),
    );
    assert_eq!(r, Ok(()));
    assert_eq!(l.get(&Address::Key(1)), Some(Account::Native { balance: 70 }));
    assert_eq!(l.get(&Address::Key(2)), Some(Account::Native { balance: 40 }));
}

#[test]
fn native_transfer_wrong_signer_unauthorized() {
    let mut l = Ledger::new(5);
    assert_eq!(l.create_native_account(1, 100), Ok(()));
    assert_eq!(l.create_native_account(2, 10), Ok(()));
    let r = l.transfer_native(
        Address::Key(1),
        Address::Key(2),
        30,
        &Authorization::Signer(2),
    );
    assert_eq!(r, Err(VaultError::Unauthorized));
    assert_eq!(l.get(&Address::Key(1)), Some(Account::Native { balance: 100 }));
    assert_eq!(l.get(&Address::Key(2)), Some(Account::Native { balance: 10 }));
}

#[test]
fn native_transfer_insufficient_funds() {
    let mut l = Ledger::new(5);
    assert_eq!(l.create_native_account(1, 20), Ok(()));
    assert_eq!(l.create_native_account(2, 0), Ok(()));
    let r = l.transfer_native(
        Address::Key(1),
        Address::Key(2),
        21,
        &Authorization::Signer(1),
    );
    assert_eq!(r, Err(VaultError::InsufficientFunds));
    assert_eq!(l.get(&Address::Key(1)), Some(Account::Native { balance: 20 }));
}

#[test]
fn native_transfer_missing_account_not_found() {
    let mut l = Ledger::new(5);
    assert_eq!(l.create_native_account(1, 20), Ok(()));
    let r = l.transfer_native(
        Address::Key(1),
        Address::Key(9),
        5,
        &Authorization::Signer(1),
    );
    assert_eq!(r, Err(VaultError::NotFound));
}

#[test]
fn token_transfer_moves_value() {
    let mut l = Ledger::new(5);
    assert_eq!(l.create_mint(10, 6), Ok(()));
    assert_eq!(l.create_token_account(10, 1, 100), Ok(()));
    assert_eq!(l.create_token_account(10, 2, 0), Ok(()));
    let from = Address::Holding { mint: 10, owner: 1 };
    let to = Address::Holding { mint: 10, owner: 2 };
    let r = l.transfer_checked(10, 6, from, to, 40, &Authorization::Signer(1));
    assert_eq!(r, Ok(()));
    assert_eq!(
        l.get(&from),
        Some(Account::Token { mint: 10, authority: Address::Key(1), balance: 60 })
    );
    assert_eq!(
        l.get(&to),
        Some(Account::Token { mint: 10, authority: Address::Key(2), balance: 40 })
    );
}

#[test]
fn token_transfer_decimals_mismatch_invalid_state() {
    let mut l = Ledger::new(5);
    assert_eq!(l.create_mint(10, 6), Ok(()));
    assert_eq!(l.create_token_account(10, 1, 100), Ok(()));
    assert_eq!(l.create_token_account(10, 2, 0), Ok(()));
    let from = Address::Holding { mint: 10, owner: 1 };
    let to = Address::Holding { mint: 10, owner: 2 };
    let r = l.transfer_checked(10, 9, from, to, 40, &Authorization::Signer(1));
    assert_eq!(r, Err(VaultError::InvalidState));
    assert_eq!(
        l.get(&from),
        Some(Account::Token { mint: 10, authority: Address::Key(1), balance: 100 })
    );
}

#[test]
fn token_transfer_wrong_signer_unauthorized() {
    let mut l = Ledger::new(5);
    assert_eq!(l.create_mint(10, 6), Ok(()));
    assert_eq!(l.create_token_account(10, 1, 100), Ok(()));
    assert_eq!(l.create_token_account(10, 2, 0), Ok(()));
    let from = Address::Holding { mint: 10, owner: 1 };
    let to = Address::Holding { mint: 10, owner: 2 };
    let r = l.transfer_checked(10, 6, from, to, 40, &Authorization::Signer(2));
    assert_eq!(r, Err(VaultError::Unauthorized));
}

#[test]
fn create_native_account_duplicate_rejected() {
    let mut l = Ledger::new(5);
    assert_eq!(l.create_native_account(1, 100), Ok(()));
    assert_eq!(l.create_native_account(1, 7), Err(VaultError::AlreadyExists));
    assert_eq!(l.get(&Address::Key(1)), Some(Account::Native { balance: 100 }));
}

#[test]
fn create_token_account_requires_mint() {
    let mut l = Ledger::new(5);
    assert_eq!(l.create_token_account(10, 1, 0), Err(VaultError::NotFound));
    assert_eq!(l.create_mint(10, 6), Ok(()));
    assert_eq!(l.create_token_account(10, 1, 0), Ok(()));
    assert_eq!(l.create_token_account(10, 1, 0), Err(VaultError::AlreadyExists));
}

#[test]
fn derivation_is_deterministic() {
    assert_eq!(
        compute_bump(TAG_ESCROW, 42, 7, 0),
        compute_bump(TAG_ESCROW, 42, 7, 0)
    );
    let (a1, b1) = derive_escrow_record(42, 7);
    let (a2, b2) = derive_escrow_record(42, 7);
    assert_eq!(a1, a2);
    assert_eq!(b1, b2);
    assert_eq!(a1, Address::EscrowRecord { maker: 42, seed: 7 });
    let (v1, _) = derive_native_vault(3);
    assert_eq!(v1, Address::NativeVault { user: 3 });
}

#[test]
fn authority_proof_checks_bump_and_address() {
    let (record, bump) = derive_escrow_record(42, 7);
    let ok = prove_escrow_authority(&record, 42, 7, bump);
    assert!(ok.is_ok());
    assert_eq!(ok.unwrap().authority(), record);
    let bad_bump = prove_escrow_authority(&record, 42, 7, bump.wrapping_add(1));
    assert_eq!(bad_bump.err(), Some(VaultError::Unauthorized));
    let wrong_addr = prove_escrow_authority(&Address::Key(42), 42, 7, bump);
    assert_eq!(wrong_addr.err(), Some(VaultError::Unauthorized));
    let (vault, vbump) = derive_native_vault(3);
    assert!(prove_vault_authority(&vault, 3, vbump).is_ok());
    assert_eq!(
        prove_vault_authority(&vault, 4, vbump).err(),
        Some(VaultError::Unauthorized)
    );
    assert_eq!(compute_bump(TAG_VAULT, 3, 0, 0), vbump);
}
