//! The native-vault core: a per-user custodial vault for native value.
//!
//! State machine per user: nonexistent, then initialized (a `VaultState`
//! record and a native vault both live at addresses derived from the user's
//! key), then closed again, equivalent to nonexistent. `initialize` funds the
//! vault with the substrate's minimum-existence reserve; `deposit` is signed
//! by the user; `withdraw` and `close_vault` are authorized by the vault's
//! program-derived authority, reconstructed from the stored bumps.

use crate::addr::{
    bump_for, derive_native_vault, derive_state_record, prove_vault_authority, Address,
    Authorization, TAG_STATE, TAG_VAULT,
};
use crate::ledger::{
    close_post, native_balance, native_transfer_post, state_at, Account, Ledger,
};
use crate::state::{VaultError, VaultState};
use vstd::prelude::*;

verus! {

/// The address of `user`'s vault-state record.
pub open spec fn state_addr(user: u64) -> Address {
    Address::StateRecord { user }
}

/// The address of `user`'s native vault.
pub open spec fn vault_addr(user: u64) -> Address {
    Address::NativeVault { user }
}

/// The bumps a correctly initialized vault state for `user` stores.
pub open spec fn expected_state(user: u64) -> VaultState {
    VaultState {
        vault_bump: bump_for(TAG_VAULT, user, 0, 0),
        state_bump: bump_for(TAG_STATE, user, 0, 0),
    }
}

/// Whether `initialize(user)` would be accepted, and if not, the exact
/// error: both derived addresses must be free (`AlreadyExists`), and the user
/// must hold a live native account (`NotFound` / `InvalidState`) with enough
/// for the state record's storage reserve plus the vault's funding
/// (`InsufficientFunds`).
pub open spec fn initialize_check(m: Map<Address, Account>, reserve: u64, user: u64) -> Result<
    (),
    VaultError,
> {
    if m.dom().contains(state_addr(user)) || m.dom().contains(vault_addr(user)) {
        Err(VaultError::AlreadyExists)
    } else if !m.dom().contains(Address::Key(user)) {
        Err(VaultError::NotFound)
    } else if !(m[Address::Key(user)] is Native) {
        Err(VaultError::InvalidState)
    } else if native_balance(m, Address::Key(user)) < 2 * reserve {
        Err(VaultError::InsufficientFunds)
    } else {
        Ok(())
    }
}

/// The ledger after a successful `initialize`: the user paid one reserve for
/// the state record and one into the vault; both derived accounts are live,
/// and the state record holds the two derivation bumps.
pub open spec fn initialize_post(m: Map<Address, Account>, reserve: u64, user: u64) -> Map<
    Address,
    Account,
> {
    m.insert(
        Address::Key(user),
        Account::Native {
            balance: (native_balance(m, Address::Key(user)) - 2 * reserve) as u64,
        },
    ).insert(state_addr(user), Account::State(expected_state(user))).insert(
        vault_addr(user),
        Account::Native { balance: reserve },
    )
}

/// The checks shared by every operation on an initialized vault: the state
/// record must be live (`NotFound`) and a state record (`InvalidState`), its
/// stored bumps must reproduce the derivations (`Unauthorized`), and the
/// vault and the user's native account must be live native accounts
/// (`NotFound` / `InvalidState`).
pub open spec fn vault_access_check(m: Map<Address, Account>, user: u64) -> Result<
    (),
    VaultError,
> {
    if !m.dom().contains(state_addr(user)) {
        Err(VaultError::NotFound)
    } else if !(m[state_addr(user)] is State) {
        Err(VaultError::InvalidState)
    } else if state_at(m, state_addr(user)) != expected_state(user) {
        Err(VaultError::Unauthorized)
    } else if !m.dom().contains(vault_addr(user)) || !m.dom().contains(Address::Key(user)) {
        Err(VaultError::NotFound)
    } else if !(m[vault_addr(user)] is Native) || !(m[Address::Key(user)] is Native) {
        Err(VaultError::InvalidState)
    } else {
        Ok(())
    }
}

/// Whether `deposit(user, amount)` would be accepted, and if not, the exact
/// error: the amount must be positive (`InvalidAmount`), the vault
/// initialized and intact, and the user's native balance at least `amount`
/// (`InsufficientFunds`).
pub open spec fn deposit_check(m: Map<Address, Account>, user: u64, amount: u64) -> Result<
    (),
    VaultError,
> {
    if amount == 0 {
        Err(VaultError::InvalidAmount)
    } else if !(vault_access_check(m, user) is Ok) {
        vault_access_check(m, user)
    } else if native_balance(m, Address::Key(user)) < amount {
        Err(VaultError::InsufficientFunds)
    } else {
        Ok(())
    }
}

/// The ledger after a successful `deposit`.
pub open spec fn deposit_post(m: Map<Address, Account>, user: u64, amount: u64) -> Map<
    Address,
    Account,
> {
    native_transfer_post(m, Address::Key(user), vault_addr(user), amount)
}

/// Whether `withdraw(user, amount)` would be accepted, and if not, the exact
/// error: the amount must be positive (`InvalidAmount`), the vault
/// initialized and intact, and the vault's balance at least `amount`
/// (`InsufficientFunds`). Withdrawing down to or below the reserve is
/// allowed.
pub open spec fn withdraw_check(m: Map<Address, Account>, user: u64, amount: u64) -> Result<
    (),
    VaultError,
> {
    if amount == 0 {
        Err(VaultError::InvalidAmount)
    } else if !(vault_access_check(m, user) is Ok) {
        vault_access_check(m, user)
    } else if native_balance(m, vault_addr(user)) < amount {
        Err(VaultError::InsufficientFunds)
    } else {
        Ok(())
    }
}

/// The ledger after a successful `withdraw`.
pub open spec fn withdraw_post(m: Map<Address, Account>, user: u64, amount: u64) -> Map<
    Address,
    Account,
> {
    native_transfer_post(m, vault_addr(user), Address::Key(user), amount)
}

/// Whether `close_vault(user)` would be accepted, and if not, the exact
/// error: the vault must be initialized and intact.
pub open spec fn close_vault_check(m: Map<Address, Account>, user: u64) -> Result<
    (),
    VaultError,
> {
    vault_access_check(m, user)
}

/// The ledger after a successful `close_vault`: the vault's full balance and
/// the state record's storage reserve are back with the user, and both
/// derived accounts are gone.
pub open spec fn close_vault_post(m: Map<Address, Account>, reserve: u64, user: u64) -> Map<
    Address,
    Account,
> {
    let drained = native_transfer_post(
        m,
        vault_addr(user),
        Address::Key(user),
        native_balance(m, vault_addr(user)),
    );
    close_post(drained.remove(vault_addr(user)), reserve, state_addr(user), user)
}

/// The user's native balance can absorb what `deposit` moves.
pub open spec fn deposit_fits(m: Map<Address, Account>, user: u64, amount: u64) -> bool {
    deposit_check(m, user, amount) is Ok ==> native_balance(m, vault_addr(user)) + amount
        <= u64::MAX
}

/// The user's native balance can absorb what `withdraw` returns.
pub open spec fn withdraw_fits(m: Map<Address, Account>, user: u64, amount: u64) -> bool {
    withdraw_check(m, user, amount) is Ok ==> native_balance(m, Address::Key(user)) + amount
        <= u64::MAX
}

/// The user's native balance can absorb what `close_vault` returns.
pub open spec fn close_vault_fits(m: Map<Address, Account>, reserve: u64, user: u64) -> bool {
    close_vault_check(m, user) is Ok ==> native_balance(m, Address::Key(user)) + native_balance(
        m,
        vault_addr(user),
    ) + reserve <= u64::MAX
}

/// Creates `user`'s vault state and native vault at their derived addresses
/// and funds the vault with the minimum-existence reserve, all paid by
/// `user`. Rejected if a vault state for `user` is already live
/// (`AlreadyExists`); a rejected call leaves the ledger unchanged.
pub fn initialize(ledger: &mut Ledger, user: u64) -> (r: Result<(), VaultError>)
    requires
        old(ledger).wf(),
    ensures
        final(ledger).wf(),
        final(ledger).min_reserve() == old(ledger).min_reserve(),
        r == initialize_check(old(ledger)@, old(ledger).min_reserve(), user),
        r is Ok ==> final(ledger)@ == initialize_post(
            old(ledger)@,
            old(ledger).min_reserve(),
            user,
        ),
        r is Ok ==> native_balance(final(ledger)@, vault_addr(user)) == old(
            ledger,
        ).min_reserve(),
        r is Err ==> final(ledger)@ == old(ledger)@,
{
    let (state, state_bump) = derive_state_record(user);
    let (vault, vault_bump) = derive_native_vault(user);
    if ledger.contains(&state) || ledger.contains(&vault) {
        return Err(VaultError::AlreadyExists);
    }
    let user_balance: u64 = match ledger.get(&Address::Key(user)) {
        None => {
            return Err(VaultError::NotFound);
        },
        Some(Account::Native { balance }) => balance,
        Some(_) => {
            return Err(VaultError::InvalidState);
        },
    };
    let reserve = ledger.reserve();
    if user_balance < reserve || user_balance - reserve < reserve {
        return Err(VaultError::InsufficientFunds);
    }
    let ghost m0 = ledger@;
    match ledger.create_account(user, state, Account::State(VaultState { vault_bump, state_bump }))
    {
        Ok(()) => {},
        Err(e) => {
            proof {
                assert(false);
            }
            return Err(e);
        },
    }
    match ledger.create_account(user, vault, Account::Native { balance: 0 }) {
        Ok(()) => {},
        Err(e) => {
            proof {
                assert(false);
            }
            return Err(e);
        },
    }
    match ledger.transfer_native(
        Address::Key(user),
        vault,
        reserve,
        &Authorization::Signer(user),
    ) {
        Ok(()) => {},
        Err(e) => {
            proof {
                assert(false);
            }
            return Err(e);
        },
    }
    proof {
        assert(ledger@ =~= initialize_post(m0, ledger.min_reserve(), user));
    }
    Ok(())
}

/// Moves `amount` of native value from `user` into their vault, signed by
/// `user`. A rejected call leaves the ledger unchanged.
pub fn deposit(ledger: &mut Ledger, user: u64, amount: u64) -> (r: Result<(), VaultError>)
    requires
        old(ledger).wf(),
        deposit_fits(old(ledger)@, user, amount),
    ensures
        final(ledger).wf(),
        final(ledger).min_reserve() == old(ledger).min_reserve(),
        r == deposit_check(old(ledger)@, user, amount),
        r is Ok ==> final(ledger)@ == deposit_post(old(ledger)@, user, amount),
        r is Ok ==> native_balance(final(ledger)@, vault_addr(user)) == native_balance(
            old(ledger)@,
            vault_addr(user),
        ) + amount,
        r is Err ==> final(ledger)@ == old(ledger)@,
{
    if amount == 0 {
        return Err(VaultError::InvalidAmount);
    }
    match check_vault_access(ledger, user) {
        Ok(()) => {},
        Err(e) => {
            return Err(e);
        },
    }
    let (vault, _) = derive_native_vault(user);
    let user_balance: u64 = match ledger.get(&Address::Key(user)) {
        Some(Account::Native { balance }) => balance,
        _ => {
            proof {
                assert(false);
            }
            return Err(VaultError::NotFound);
        },
    };
    if user_balance < amount {
        return Err(VaultError::InsufficientFunds);
    }
    ledger.transfer_native(Address::Key(user), vault, amount, &Authorization::Signer(user))
}

/// Moves `amount` of native value from `user`'s vault back to `user`,
/// authorized by the vault's program-derived authority reconstructed from
/// the stored bump — no signature of the vault exists. A rejected call
/// leaves the ledger unchanged.
pub fn withdraw(ledger: &mut Ledger, user: u64, amount: u64) -> (r: Result<(), VaultError>)
    requires
        old(ledger).wf(),
        withdraw_fits(old(ledger)@, user, amount),
    ensures
        final(ledger).wf(),
        final(ledger).min_reserve() == old(ledger).min_reserve(),
        r == withdraw_check(old(ledger)@, user, amount),
        r is Ok ==> final(ledger)@ == withdraw_post(old(ledger)@, user, amount),
        r is Ok ==> native_balance(final(ledger)@, vault_addr(user)) == native_balance(
            old(ledger)@,
            vault_addr(user),
        ) - amount,
        r is Err ==> final(ledger)@ == old(ledger)@,
{
    if amount == 0 {
        return Err(VaultError::InvalidAmount);
    }
    match check_vault_access(ledger, user) {
        Ok(()) => {},
        Err(e) => {
            return Err(e);
        },
    }
    let (state, _) = derive_state_record(user);
    let (vault, _) = derive_native_vault(user);
    let stored: VaultState = match ledger.get(&state) {
        Some(Account::State(s)) => s,
        _ => {
            proof {
                assert(false);
            }
            return Err(VaultError::NotFound);
        },
    };
    let vault_balance: u64 = match ledger.get(&vault) {
        Some(Account::Native { balance }) => balance,
        _ => {
            proof {
                assert(false);
            }
            return Err(VaultError::NotFound);
        },
    };
    if vault_balance < amount {
        return Err(VaultError::InsufficientFunds);
    }
    let proof_result = prove_vault_authority(&vault, user, stored.vault_bump);
    let authority = match proof_result {
        Ok(p) => p,
        Err(e) => {
            proof {
                assert(false);
            }
            return Err(e);
        },
    };
    ledger.transfer_native(vault, Address::Key(user), amount, &Authorization::Derived(authority))
}

/// Drains the vault's full balance back to `user`, destroys the vault and
/// the state record, and returns the record's storage reserve to `user`.
/// After it, the user's addresses may be initialized again. A rejected call
/// leaves the ledger unchanged.
pub fn close_vault(ledger: &mut Ledger, user: u64) -> (r: Result<(), VaultError>)
    requires
        old(ledger).wf(),
        close_vault_fits(old(ledger)@, old(ledger).min_reserve(), user),
    ensures
        final(ledger).wf(),
        final(ledger).min_reserve() == old(ledger).min_reserve(),
        r == close_vault_check(old(ledger)@, user),
        r is Ok ==> final(ledger)@ == close_vault_post(
            old(ledger)@,
            old(ledger).min_reserve(),
            user,
        ),
        r is Ok ==> !final(ledger)@.dom().contains(state_addr(user))
            && !final(ledger)@.dom().contains(vault_addr(user)),
        r is Ok ==> native_balance(final(ledger)@, Address::Key(user)) == native_balance(
            old(ledger)@,
            Address::Key(user),
        ) + native_balance(old(ledger)@, vault_addr(user)) + old(ledger).min_reserve(),
        r is Err ==> final(ledger)@ == old(ledger)@,
{
    match check_vault_access(ledger, user) {
        Ok(()) => {},
        Err(e) => {
            return Err(e);
        },
    }
    let (state, _) = derive_state_record(user);
    let (vault, _) = derive_native_vault(user);
    let stored: VaultState = match ledger.get(&state) {
        Some(Account::State(s)) => s,
        _ => {
            proof {
                assert(false);
            }
            return Err(VaultError::NotFound);
        },
    };
    let vault_balance: u64 = match ledger.get(&vault) {
        Some(Account::Native { balance }) => balance,
        _ => {
            proof {
                assert(false);
            }
            return Err(VaultError::NotFound);
        },
    };
    let proof_result = prove_vault_authority(&vault, user, stored.vault_bump);
    let authority = match proof_result {
        Ok(p) => p,
        Err(e) => {
            proof {
                assert(false);
            }
            return Err(e);
        },
    };
    let ghost m0 = ledger@;
    match ledger.transfer_native(
        vault,
        Address::Key(user),
        vault_balance,
        &Authorization::Derived(authority),
    ) {
        Ok(()) => {},
        Err(e) => {
            proof {
                assert(false);
            }
            return Err(e);
        },
    }
    ledger.remove_empty_native(vault);
    ledger.close_account(state, user);
    proof {
        assert(ledger@ =~= close_vault_post(m0, ledger.min_reserve(), user));
    }
    Ok(())
}

/// Law: initializing is not idempotent — after a successful `initialize`,
/// initializing the same user again is rejected with `AlreadyExists`.
pub proof fn lemma_initialize_twice_rejected(m: Map<Address, Account>, reserve: u64, user: u64)
    requires
        initialize_check(m, reserve, user) is Ok,
    ensures
        initialize_check(initialize_post(m, reserve, user), reserve, user) == Err::<(), VaultError>(
            VaultError::AlreadyExists,
        ),
{
}

/// Law: deposit followed by withdraw of the same amount is a round trip — it
/// is accepted, and it restores the whole ledger, the vault's balance (and
/// with it the original reserve) included.
pub proof fn lemma_deposit_withdraw_round_trip(m: Map<Address, Account>, user: u64, amount: u64)
    requires
        deposit_check(m, user, amount) is Ok,
        native_balance(m, vault_addr(user)) + amount <= u64::MAX,
    ensures
        withdraw_check(deposit_post(m, user, amount), user, amount) is Ok,
        withdraw_post(deposit_post(m, user, amount), user, amount) == m,
{
    let m1 = deposit_post(m, user, amount);
    assert(withdraw_post(m1, user, amount) =~= m);
}

/// Law: once no vault state is live for a user — before `initialize`, or
/// after `close_vault` has destroyed it — every vault operation is rejected
/// with `NotFound`.
pub proof fn lemma_missing_state_rejects(m: Map<Address, Account>, user: u64, amount: u64)
    requires
        !m.dom().contains(state_addr(user)),
        amount > 0,
    ensures
        deposit_check(m, user, amount) == Err::<(), VaultError>(VaultError::NotFound),
        withdraw_check(m, user, amount) == Err::<(), VaultError>(VaultError::NotFound),
        close_vault_check(m, user) == Err::<(), VaultError>(VaultError::NotFound),
{
}

/// Validates that `user`'s vault is initialized and intact: the state record
/// is live with bumps that reproduce the derivations, and the vault and the
/// user's native account are live. Reads only; reports the exact error of
/// `vault_access_check`.
fn check_vault_access(ledger: &Ledger, user: u64) -> (r: Result<(), VaultError>)
    requires
        ledger.wf(),
    ensures
        r == vault_access_check(ledger@, user),
{
    let (state, state_bump) = derive_state_record(user);
    let (vault, vault_bump) = derive_native_vault(user);
    let stored: VaultState = match ledger.get(&state) {
        None => {
            return Err(VaultError::NotFound);
        },
        Some(Account::State(s)) => s,
        Some(_) => {
            return Err(VaultError::InvalidState);
        },
    };
    if stored.vault_bump != vault_bump || stored.state_bump != state_bump {
        return Err(VaultError::Unauthorized);
    }
    let vault_acct = ledger.get(&vault);
    let user_acct = ledger.get(&Address::Key(user));
    if vault_acct.is_none() || user_acct.is_none() {
        return Err(VaultError::NotFound);
    }
    let vault_native: bool = match vault_acct {
        Some(Account::Native { .. }) => true,
        _ => false,
    };
    let user_native: bool = match user_acct {
        Some(Account::Native { .. }) => true,
        _ => false,
    };
    if !vault_native || !user_native {
        return Err(VaultError::InvalidState);
    }
    Ok(())
}

} // verus!
