//! Scenario tests of the native-vault core: initialize, deposit, withdraw,
//! close.

use escrow_vault::addr::{compute_bump, Address, TAG_STATE, TAG_VAULT};
use escrow_vault::ledger::{Account, Ledger};
use escrow_vault::state::{VaultError, VaultState};
use escrow_vault::vault::{close_vault, deposit, initialize, withdraw};

const USER: u64 = 1;
const RESERVE: u64 = 5;

fn state_addr(user: u64) -> Address {
    Address::StateRecord { user }
}

fn vault_addr(user: u64) -> Address {
    Address::NativeVault { user }
}

fn native_balance(l: &Ledger, addr: &Address) -> u64 {
    match l.get(addr) {
        Some(Account::Native { balance }) => balance,
        other => panic!("expected a native account, got {:?}", other),
    }
}

fn setup() -> Ledger {
    let mut l = Ledger::new(RESERVE);
    assert_eq!(l.create_native_account(USER, 1000), Ok(()));
    l
}

#[test]
fn initialize_creates_and_funds_vault() {
    let mut l = setup();
    assert_eq!(initialize(&mut l, USER), Ok(()));
    // The vault holds exactly the minimum-existence reserve; the user paid it
    // plus the state record's storage reserve.
    assert_eq!(native_balance(&l, &vault_addr(USER)), RESERVE);
    assert_eq!(native_balance(&l, &Address::Key(USER)), 1000 - 2 * RESERVE);
    // The state record stores the two derivation bumps.
    assert_eq!(
        l.get(&state_addr(USER)),
        Some(Account::State(VaultState {
            vault_bump: compute_bump(TAG_VAULT, USER, 0, 0),
            state_bump: compute_bump(TAG_STATE, USER, 0, 0),
        }))
    );
}

#[test]
fn initialize_twice_rejected() {
    let mut l = setup();
    assert_eq!(initialize(&mut l, USER), Ok(()));
    assert_eq!(initialize(&mut l, USER), Err(VaultError::AlreadyExists));
    // Nothing changed on the rejected call.
    assert_eq!(native_balance(&l, &vault_addr(USER)), RESERVE);
    assert_eq!(native_balance(&l, &Address::Key(USER)), 1000 - 2 * RESERVE);
}

#[test]
fn initialize_without_funds_rejected() {
    let mut l = Ledger::new(RESERVE);
    assert_eq!(l.create_native_account(USER, 2 * RESERVE - 1), Ok(()));
    assert_eq!(initialize(&mut l, USER), Err(VaultError::InsufficientFunds));
    assert!(!l.contains(&state_addr(USER)));
    assert!(!l.contains(&vault_addr(USER)));
}

#[test]
fn deposit_withdraw_round_trip() {
    let mut l = setup();
    assert_eq!(initialize(&mut l, USER), Ok(()));
    assert_eq!(deposit(&mut l, USER, 10), Ok(()));
    assert_eq!(native_balance(&l, &vault_addr(USER)), RESERVE + 10);
    assert_eq!(withdraw(&mut l, USER, 10), Ok(()));
    // The vault is back at exactly the original reserve, the user at their
    // post-initialize balance.
    assert_eq!(native_balance(&l, &vault_addr(USER)), RESERVE);
    assert_eq!(native_balance(&l, &Address::Key(USER)), 1000 - 2 * RESERVE);
}

#[test]
fn withdraw_more_than_balance_rejected() {
    let mut l = setup();
    assert_eq!(initialize(&mut l, USER), Ok(()));
    assert_eq!(deposit(&mut l, USER, 10), Ok(()));
    let r = withdraw(&mut l, USER, RESERVE + 11);
    assert_eq!(r, Err(VaultError::InsufficientFunds));
    // The rejected withdraw left every balance unchanged.
    assert_eq!(native_balance(&l, &vault_addr(USER)), RESERVE + 10);
    assert_eq!(native_balance(&l, &Address::Key(USER)), 1000 - 2 * RESERVE - 10);
}

#[test]
fn withdraw_below_reserve_allowed() {
    let mut l = setup();
    assert_eq!(initialize(&mut l, USER), Ok(()));
    // Draining below the minimum-existence reserve is permitted by design.
    assert_eq!(withdraw(&mut l, USER, RESERVE), Ok(()));
    assert_eq!(native_balance(&l, &vault_addr(USER)), 0);
}

#[test]
fn deposit_zero_rejected() {
    let mut l = setup();
    assert_eq!(initialize(&mut l, USER), Ok(()));
    assert_eq!(deposit(&mut l, USER, 0), Err(VaultError::InvalidAmount));
    assert_eq!(withdraw(&mut l, USER, 0), Err(VaultError::InvalidAmount));
    assert_eq!(native_balance(&l, &vault_addr(USER)), RESERVE);
}

#[test]
fn close_vault_drains_and_removes_state() {
    let mut l = setup();
    assert_eq!(initialize(&mut l, USER), Ok(()));
    assert_eq!(deposit(&mut l, USER, 10), Ok(()));
    assert_eq!(close_vault(&mut l, USER), Ok(()));
    // The full vault balance and the state record's storage reserve are back
    // with the user; both derived accounts are gone.
    assert_eq!(native_balance(&l, &Address::Key(USER)), 1000);
    assert!(!l.contains(&state_addr(USER)));
    assert!(!l.contains(&vault_addr(USER)));
    // Every operation on the closed vault now fails.
    assert_eq!(close_vault(&mut l, USER), Err(VaultError::NotFound));
    assert_eq!(deposit(&mut l, USER, 10), Err(VaultError::NotFound));
    assert_eq!(withdraw(&mut l, USER, 10), Err(VaultError::NotFound));
    // The addresses may be initialized again.
    assert_eq!(initialize(&mut l, USER), Ok(()));
    assert_eq!(native_balance(&l, &vault_addr(USER)), RESERVE);
}

#[test]
fn operations_before_initialize_not_found() {
    let mut l = setup();
    assert_eq!(deposit(&mut l, USER, 10), Err(VaultError::NotFound));
    assert_eq!(withdraw(&mut l, USER, 10), Err(VaultError::NotFound));
    assert_eq!(close_vault(&mut l, USER), Err(VaultError::NotFound));
}
