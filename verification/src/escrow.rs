//! The escrow core: a two-party conditional token swap.
//!
//! State machine per `(maker, seed)` pair: nonexistent, then open (an escrow
//! record and a token custody vault both live at derived addresses), then
//! closed — completed by `take` or refunded by `refund`, exactly one of the
//! two. Closing destroys both accounts and returns their storage reserves, so
//! a closed escrow is indistinguishable from one that never existed, and the
//! loser of a take/refund race fails cleanly with `NotFound`.

use crate::addr::{
    bump_for, derive_escrow_record, derive_escrow_vault, prove_escrow_authority, Address,
    Authorization, TAG_ESCROW,
};
use crate::ledger::{
    close_post, escrow_at, native_balance, token_authority, token_balance, token_mint,
    token_transfer_post, Account, Ledger,
};
use crate::state::{Escrow, VaultError};
use vstd::prelude::*;

verus! {

/// The address of the escrow record for `(maker, seed)`.
pub open spec fn record_addr(maker: u64, seed: u64) -> Address {
    Address::EscrowRecord { maker, seed }
}

/// The address of the token custody vault paired with the escrow record for
/// `(maker, seed)`, holding asset `mint`.
pub open spec fn escrow_vault_addr(mint: u64, maker: u64, seed: u64) -> Address {
    Address::EscrowVault { mint, maker, seed }
}

/// The address of `owner`'s holding account for `mint`.
pub open spec fn holding_addr(mint: u64, owner: u64) -> Address {
    Address::Holding { mint, owner }
}

/// The record a successful `make` with these arguments persists.
pub open spec fn expected_record(
    maker: u64,
    seed: u64,
    mint_a: u64,
    mint_b: u64,
    receive_amount: u64,
) -> Escrow {
    Escrow {
        seed,
        maker,
        mint_a,
        mint_b,
        receive: receive_amount,
        bump: bump_for(TAG_ESCROW, maker, seed, 0),
    }
}

/// Whether `make` would be accepted, and if not, the exact error, checked in
/// this order: both amounts must be positive (`InvalidAmount`); both derived
/// addresses must be free (`AlreadyExists`); both mints, the maker's native
/// account and the maker's holding of `mint_a` must be live (`NotFound`) and
/// of the right kind (`InvalidState`); the maker must own that holding
/// (`Unauthorized`); and the maker must hold the two storage reserves and the
/// deposit (`InsufficientFunds`).
pub open spec fn make_check(
    m: Map<Address, Account>,
    reserve: u64,
    maker: u64,
    seed: u64,
    mint_a: u64,
    mint_b: u64,
    deposit_amount: u64,
    receive_amount: u64,
) -> Result<(), VaultError> {
    let record = record_addr(maker, seed);
    let vault = escrow_vault_addr(mint_a, maker, seed);
    let maker_ata = holding_addr(mint_a, maker);
    if deposit_amount == 0 || receive_amount == 0 {
        Err(VaultError::InvalidAmount)
    } else if m.dom().contains(record) || m.dom().contains(vault) {
        Err(VaultError::AlreadyExists)
    } else if !m.dom().contains(Address::Key(mint_a)) || !m.dom().contains(Address::Key(mint_b))
        || !m.dom().contains(Address::Key(maker)) || !m.dom().contains(maker_ata) {
        Err(VaultError::NotFound)
    } else if !(m[Address::Key(mint_a)] is Mint) || !(m[Address::Key(mint_b)] is Mint)
        || !(m[Address::Key(maker)] is Native) || !(m[maker_ata] is Token) || token_mint(
        m,
        maker_ata,
    ) != mint_a {
        Err(VaultError::InvalidState)
    } else if token_authority(m, maker_ata) != Address::Key(maker) {
        Err(VaultError::Unauthorized)
    } else if native_balance(m, Address::Key(maker)) < 2 * reserve || token_balance(m, maker_ata)
        < deposit_amount {
        Err(VaultError::InsufficientFunds)
    } else {
        Ok(())
    }
}

/// The ledger after a successful `make`: the record and the vault are live at
/// their derived addresses, the vault holds exactly the deposit, the maker's
/// holding decreased by it, and the maker paid both storage reserves.
pub open spec fn make_post(
    m: Map<Address, Account>,
    reserve: u64,
    maker: u64,
    seed: u64,
    mint_a: u64,
    mint_b: u64,
    deposit_amount: u64,
    receive_amount: u64,
) -> Map<Address, Account> {
    let record = record_addr(maker, seed);
    let vault = escrow_vault_addr(mint_a, maker, seed);
    let maker_ata = holding_addr(mint_a, maker);
    m.insert(
        Address::Key(maker),
        Account::Native {
            balance: (native_balance(m, Address::Key(maker)) - 2 * reserve) as u64,
        },
    ).insert(
        record,
        Account::Record(expected_record(maker, seed, mint_a, mint_b, receive_amount)),
    ).insert(
        vault,
        Account::Token { mint: mint_a, authority: record, balance: deposit_amount },
    ).insert(
        maker_ata,
        Account::Token {
            mint: mint_a,
            authority: token_authority(m, maker_ata),
            balance: (token_balance(m, maker_ata) - deposit_amount) as u64,
        },
    )
}

/// The checks shared by `take` and `refund` over an open escrow: the record
/// must be live (`NotFound`) and a record whose fields match its own address
/// (`InvalidState`), its stored bump must reproduce the derivation
/// (`Unauthorized`), and the paired vault must be live (`NotFound`), hold the
/// record's deposit asset and be owned by the record (`InvalidState` /
/// `Unauthorized`). The mint of the deposit asset must be live for the
/// precision check (`NotFound` / `InvalidState`), as must the maker's native
/// account, which receives the reclaimed storage reserves.
pub open spec fn escrow_access_check(m: Map<Address, Account>, maker: u64, seed: u64) -> Result<
    (),
    VaultError,
> {
    let record = record_addr(maker, seed);
    let e = escrow_at(m, record);
    let vault = escrow_vault_addr(e.mint_a, maker, seed);
    if !m.dom().contains(record) {
        Err(VaultError::NotFound)
    } else if !(m[record] is Record) || e.maker != maker || e.seed != seed {
        Err(VaultError::InvalidState)
    } else if e.bump != bump_for(TAG_ESCROW, maker, seed, 0) {
        Err(VaultError::Unauthorized)
    } else if !m.dom().contains(vault) || !m.dom().contains(Address::Key(e.mint_a))
        || !m.dom().contains(Address::Key(maker)) {
        Err(VaultError::NotFound)
    } else if !(m[vault] is Token) || token_mint(m, vault) != e.mint_a || !(m[Address::Key(
        e.mint_a,
    )] is Mint) || !(m[Address::Key(maker)] is Native) {
        Err(VaultError::InvalidState)
    } else if token_authority(m, vault) != record {
        Err(VaultError::Unauthorized)
    } else {
        Ok(())
    }
}

/// Whether `take` would be accepted, and if not, the exact error: the escrow
/// must be open and intact; the taker must be distinct from the maker and
/// hold live holdings of both assets, and the maker a live holding of the
/// demanded asset (`NotFound` / `InvalidState`); the taker must own their
/// holding of the demanded asset (`Unauthorized`) and hold at least the
/// demanded amount in it (`InsufficientFunds`).
pub open spec fn take_check(m: Map<Address, Account>, taker: u64, maker: u64, seed: u64) -> Result<
    (),
    VaultError,
> {
    let record = record_addr(maker, seed);
    let e = escrow_at(m, record);
    let taker_ata_b = holding_addr(e.mint_b, taker);
    let taker_ata_a = holding_addr(e.mint_a, taker);
    let maker_ata_b = holding_addr(e.mint_b, maker);
    if !(escrow_access_check(m, maker, seed) is Ok) {
        escrow_access_check(m, maker, seed)
    } else if !m.dom().contains(Address::Key(e.mint_b)) || !m.dom().contains(taker_ata_b)
        || !m.dom().contains(taker_ata_a) || !m.dom().contains(maker_ata_b) {
        Err(VaultError::NotFound)
    } else if taker == maker || !(m[Address::Key(e.mint_b)] is Mint) || !(m[taker_ata_b] is Token)
        || token_mint(m, taker_ata_b) != e.mint_b || !(m[taker_ata_a] is Token) || token_mint(
        m,
        taker_ata_a,
    ) != e.mint_a || !(m[maker_ata_b] is Token) || token_mint(m, maker_ata_b) != e.mint_b {
        Err(VaultError::InvalidState)
    } else if token_authority(m, taker_ata_b) != Address::Key(taker) {
        Err(VaultError::Unauthorized)
    } else if token_balance(m, taker_ata_b) < e.receive {
        Err(VaultError::InsufficientFunds)
    } else {
        Ok(())
    }
}

/// The ledger after a successful `take`: the demanded amount of `mint_b`
/// moved from the taker to the maker, the vault's whole balance of `mint_a`
/// moved to the taker, and the record and the vault are gone, their storage
/// reserves back with the maker.
pub open spec fn take_post(
    m: Map<Address, Account>,
    reserve: u64,
    taker: u64,
    maker: u64,
    seed: u64,
) -> Map<Address, Account> {
    let record = record_addr(maker, seed);
    let e = escrow_at(m, record);
    let vault = escrow_vault_addr(e.mint_a, maker, seed);
    let m1 = token_transfer_post(
        m,
        holding_addr(e.mint_b, taker),
        holding_addr(e.mint_b, maker),
        e.receive,
    );
    let m2 = token_transfer_post(m1, vault, holding_addr(e.mint_a, taker), token_balance(m, vault));
    let m3 = close_post(m2, reserve, vault, maker);
    close_post(m3, reserve, record, maker)
}

/// Whether `refund` would be accepted, and if not, the exact error: the
/// escrow must be open and intact, the caller must be the record's maker
/// (`Unauthorized`), and the maker must hold a live holding of the deposited
/// asset to receive it (`NotFound` / `InvalidState`).
pub open spec fn refund_check(m: Map<Address, Account>, maker: u64, seed: u64) -> Result<
    (),
    VaultError,
> {
    let record = record_addr(maker, seed);
    let e = escrow_at(m, record);
    let maker_ata_a = holding_addr(e.mint_a, maker);
    if !(escrow_access_check(m, maker, seed) is Ok) {
        escrow_access_check(m, maker, seed)
    } else if !m.dom().contains(maker_ata_a) {
        Err(VaultError::NotFound)
    } else if !(m[maker_ata_a] is Token) || token_mint(m, maker_ata_a) != e.mint_a {
        Err(VaultError::InvalidState)
    } else {
        Ok(())
    }
}

/// The ledger after a successful `refund`: the vault's whole balance of
/// `mint_a` is back in the maker's holding, and the record and the vault are
/// gone, their storage reserves back with the maker.
pub open spec fn refund_post(m: Map<Address, Account>, reserve: u64, maker: u64, seed: u64) -> Map<
    Address,
    Account,
> {
    let record = record_addr(maker, seed);
    let e = escrow_at(m, record);
    let vault = escrow_vault_addr(e.mint_a, maker, seed);
    let m1 = token_transfer_post(m, vault, holding_addr(e.mint_a, maker), token_balance(m, vault));
    let m2 = close_post(m1, reserve, vault, maker);
    close_post(m2, reserve, record, maker)
}

/// The maker's and taker's holdings and the maker's native account can absorb
/// what `take` moves to them.
pub open spec fn take_fits(
    m: Map<Address, Account>,
    reserve: u64,
    taker: u64,
    maker: u64,
    seed: u64,
) -> bool {
    let e = escrow_at(m, record_addr(maker, seed));
    let vault = escrow_vault_addr(e.mint_a, maker, seed);
    take_check(m, taker, maker, seed) is Ok ==> {
        let after_first = if holding_addr(e.mint_a, taker) == holding_addr(e.mint_b, taker) {
            token_balance(m, holding_addr(e.mint_a, taker)) - e.receive
        } else {
            token_balance(m, holding_addr(e.mint_a, taker)) as int
        };
        &&& token_balance(m, holding_addr(e.mint_b, maker)) + e.receive <= u64::MAX
        &&& after_first + token_balance(m, vault) <= u64::MAX
        &&& native_balance(m, Address::Key(maker)) + 2 * reserve <= u64::MAX
    }
}

/// The maker's holding and native account can absorb what `refund` returns.
pub open spec fn refund_fits(
    m: Map<Address, Account>,
    reserve: u64,
    maker: u64,
    seed: u64,
) -> bool {
    let e = escrow_at(m, record_addr(maker, seed));
    let vault = escrow_vault_addr(e.mint_a, maker, seed);
    refund_check(m, maker, seed) is Ok ==> {
        &&& token_balance(m, holding_addr(e.mint_a, maker)) + token_balance(m, vault) <= u64::MAX
        &&& native_balance(m, Address::Key(maker)) + 2 * reserve <= u64::MAX
    }
}

/// Opens an escrow: persists the record for `(maker, seed)` with the given
/// terms, creates the paired token custody vault owned by the record's
/// derived authority, and moves `deposit_amount` of `mint_a` from the maker's
/// holding into the vault, signed by the maker. Rejected if either amount is
/// zero (`InvalidAmount`) or the pair already has a live escrow
/// (`AlreadyExists`); a rejected call leaves the ledger unchanged.
pub fn make(
    ledger: &mut Ledger,
    maker: u64,
    seed: u64,
    mint_a: u64,
    mint_b: u64,
    deposit_amount: u64,
    receive_amount: u64,
) -> (r: Result<(), VaultError>)
    requires
        old(ledger).wf(),
    ensures
        final(ledger).wf(),
        final(ledger).min_reserve() == old(ledger).min_reserve(),
        r == make_check(
            old(ledger)@,
            old(ledger).min_reserve(),
            maker,
            seed,
            mint_a,
            mint_b,
            deposit_amount,
            receive_amount,
        ),
        r is Ok ==> final(ledger)@ == make_post(
            old(ledger)@,
            old(ledger).min_reserve(),
            maker,
            seed,
            mint_a,
            mint_b,
            deposit_amount,
            receive_amount,
        ),
        r is Ok ==> final(ledger)@[escrow_vault_addr(mint_a, maker, seed)] == (Account::Token {
            mint: mint_a,
            authority: record_addr(maker, seed),
            balance: deposit_amount,
        }),
        r is Ok ==> final(ledger)@[record_addr(maker, seed)] == Account::Record(
            expected_record(maker, seed, mint_a, mint_b, receive_amount),
        ),
        (deposit_amount == 0 || receive_amount == 0) ==> r == Err::<(), VaultError>(
            VaultError::InvalidAmount,
        ),
        r is Err ==> final(ledger)@ == old(ledger)@,
{
    if deposit_amount == 0 || receive_amount == 0 {
        return Err(VaultError::InvalidAmount);
    }
    let (record, bump) = derive_escrow_record(maker, seed);
    let (vault, _) = derive_escrow_vault(mint_a, maker, seed);
    let maker_ata = Address::Holding { mint: mint_a, owner: maker };
    if ledger.contains(&record) || ledger.contains(&vault) {
        return Err(VaultError::AlreadyExists);
    }
    let mint_a_acct = ledger.get(&Address::Key(mint_a));
    let mint_b_acct = ledger.get(&Address::Key(mint_b));
    let maker_acct = ledger.get(&Address::Key(maker));
    let ata_acct = ledger.get(&maker_ata);
    if mint_a_acct.is_none() || mint_b_acct.is_none() || maker_acct.is_none()
        || ata_acct.is_none() {
        return Err(VaultError::NotFound);
    }
    let decimals: u8 = match mint_a_acct {
        Some(Account::Mint { decimals }) => decimals,
        _ => {
            return Err(VaultError::InvalidState);
        },
    };
    let mint_b_ok: bool = match mint_b_acct {
        Some(Account::Mint { .. }) => true,
        _ => false,
    };
    let maker_balance: u64 = match maker_acct {
        Some(Account::Native { balance }) => balance,
        _ => {
            return Err(VaultError::InvalidState);
        },
    };
    let (ata_mint, ata_authority, ata_balance): (u64, Address, u64) = match ata_acct {
        Some(Account::Token { mint, authority, balance }) => (mint, authority, balance),
        _ => {
            return Err(VaultError::InvalidState);
        },
    };
    if !mint_b_ok || ata_mint != mint_a {
        return Err(VaultError::InvalidState);
    }
    if ata_authority != Address::Key(maker) {
        return Err(VaultError::Unauthorized);
    }
    let reserve = ledger.reserve();
    if maker_balance < reserve || maker_balance - reserve < reserve || ata_balance
        < deposit_amount {
        return Err(VaultError::InsufficientFunds);
    }
    let ghost m0 = ledger@;
    let record_content = Escrow {
        seed,
        maker,
        mint_a,
        mint_b,
        receive: receive_amount,
        bump,
    };
    match ledger.create_account(maker, record, Account::Record(record_content)) {
        Ok(()) => {},
        Err(e) => {
            proof {
                assert(false);
            }
            return Err(e);
        },
    }
    match ledger.create_account(
        maker,
        vault,
        Account::Token { mint: mint_a, authority: record, balance: 0 },
    ) {
        Ok(()) => {},
        Err(e) => {
            proof {
                assert(false);
            }
            return Err(e);
        },
    }
    match ledger.transfer_checked(
        mint_a,
        decimals,
        maker_ata,
        vault,
        deposit_amount,
        &Authorization::Signer(maker),
    ) {
        Ok(()) => {},
        Err(e) => {
            proof {
                assert(false);
            }
            return Err(e);
        },
    }
    proof {
        assert(ledger@ =~= make_post(
            m0,
            ledger.min_reserve(),
            maker,
            seed,
            mint_a,
            mint_b,
            deposit_amount,
            receive_amount,
        ));
    }
    Ok(())
}

/// Completes an open escrow: moves the demanded amount of `mint_b` from the
/// taker to the maker, signed by the taker; releases the vault's whole
/// balance of `mint_a` to the taker, authorized by the record's derived
/// authority; then destroys the vault and the record, returning their
/// storage reserves to the maker. Either every movement applies or, on any
/// precondition failure, none does.
pub fn take(ledger: &mut Ledger, taker: u64, maker: u64, seed: u64) -> (r: Result<(), VaultError>)
    requires
        old(ledger).wf(),
        take_fits(old(ledger)@, old(ledger).min_reserve(), taker, maker, seed),
    ensures
        final(ledger).wf(),
        final(ledger).min_reserve() == old(ledger).min_reserve(),
        r == take_check(old(ledger)@, taker, maker, seed),
        r is Ok ==> final(ledger)@ == take_post(
            old(ledger)@,
            old(ledger).min_reserve(),
            taker,
            maker,
            seed,
        ),
        r is Ok ==> !final(ledger)@.dom().contains(record_addr(maker, seed)),
        r is Err ==> final(ledger)@ == old(ledger)@,
{
    let e = match check_escrow_access(ledger, maker, seed) {
        Ok(e) => e,
        Err(err) => {
            return Err(err);
        },
    };
    let (record, _) = derive_escrow_record(maker, seed);
    let (vault, _) = derive_escrow_vault(e.mint_a, maker, seed);
    let taker_ata_b = Address::Holding { mint: e.mint_b, owner: taker };
    let taker_ata_a = Address::Holding { mint: e.mint_a, owner: taker };
    let maker_ata_b = Address::Holding { mint: e.mint_b, owner: maker };
    let mint_b_acct = ledger.get(&Address::Key(e.mint_b));
    let taker_b_acct = ledger.get(&taker_ata_b);
    let taker_a_acct = ledger.get(&taker_ata_a);
    let maker_b_acct = ledger.get(&maker_ata_b);
    if mint_b_acct.is_none() || taker_b_acct.is_none() || taker_a_acct.is_none()
        || maker_b_acct.is_none() {
        return Err(VaultError::NotFound);
    }
    let decimals_b: u8 = match mint_b_acct {
        Some(Account::Mint { decimals }) => decimals,
        _ => {
            return Err(VaultError::InvalidState);
        },
    };
    let (tb_mint, tb_authority, tb_balance): (u64, Address, u64) = match taker_b_acct {
        Some(Account::Token { mint, authority, balance }) => (mint, authority, balance),
        _ => {
            return Err(VaultError::InvalidState);
        },
    };
    let ta_ok: bool = match taker_a_acct {
        Some(Account::Token { mint, .. }) => mint == e.mint_a,
        _ => false,
    };
    let mb_ok: bool = match maker_b_acct {
        Some(Account::Token { mint, .. }) => mint == e.mint_b,
        _ => false,
    };
    if taker == maker || tb_mint != e.mint_b || !ta_ok || !mb_ok {
        return Err(VaultError::InvalidState);
    }
    if tb_authority != Address::Key(taker) {
        return Err(VaultError::Unauthorized);
    }
    if tb_balance < e.receive {
        return Err(VaultError::InsufficientFunds);
    }
    let vault_balance: u64 = match ledger.get(&vault) {
        Some(Account::Token { balance, .. }) => balance,
        _ => {
            proof {
                assert(false);
            }
            return Err(VaultError::NotFound);
        },
    };
    let decimals_a: u8 = match ledger.get(&Address::Key(e.mint_a)) {
        Some(Account::Mint { decimals }) => decimals,
        _ => {
            proof {
                assert(false);
            }
            return Err(VaultError::NotFound);
        },
    };
    let authority = match prove_escrow_authority(&record, maker, seed, e.bump) {
        Ok(p) => p,
        Err(err) => {
            proof {
                assert(false);
            }
            return Err(err);
        },
    };
    let ghost m0 = ledger@;
    match ledger.transfer_checked(
        e.mint_b,
        decimals_b,
        taker_ata_b,
        maker_ata_b,
        e.receive,
        &Authorization::Signer(taker),
    ) {
        Ok(()) => {},
        Err(err) => {
            proof {
                assert(false);
            }
            return Err(err);
        },
    }
    match ledger.transfer_checked(
        e.mint_a,
        decimals_a,
        vault,
        taker_ata_a,
        vault_balance,
        &Authorization::Derived(authority),
    ) {
        Ok(()) => {},
        Err(err) => {
            proof {
                assert(false);
            }
            return Err(err);
        },
    }
    ledger.close_account(vault, maker);
    ledger.close_account(record, maker);
    proof {
        assert(ledger@ =~= take_post(m0, ledger.min_reserve(), taker, maker, seed));
    }
    Ok(())
}

/// Reclaims an open escrow unilaterally: releases the vault's whole balance
/// of `mint_a` back to the maker's holding, authorized by the record's
/// derived authority, then destroys the vault and the record, returning
/// their storage reserves to the maker. Only the record's maker may call it;
/// a rejected call leaves the ledger unchanged.
pub fn refund(ledger: &mut Ledger, maker: u64, seed: u64) -> (r: Result<(), VaultError>)
    requires
        old(ledger).wf(),
        refund_fits(old(ledger)@, old(ledger).min_reserve(), maker, seed),
    ensures
        final(ledger).wf(),
        final(ledger).min_reserve() == old(ledger).min_reserve(),
        r == refund_check(old(ledger)@, maker, seed),
        r is Ok ==> final(ledger)@ == refund_post(
            old(ledger)@,
            old(ledger).min_reserve(),
            maker,
            seed,
        ),
        r is Ok ==> !final(ledger)@.dom().contains(record_addr(maker, seed)),
        r is Err ==> final(ledger)@ == old(ledger)@,
{
    let e = match check_escrow_access(ledger, maker, seed) {
        Ok(e) => e,
        Err(err) => {
            return Err(err);
        },
    };
    let (record, _) = derive_escrow_record(maker, seed);
    let (vault, _) = derive_escrow_vault(e.mint_a, maker, seed);
    let maker_ata_a = Address::Holding { mint: e.mint_a, owner: maker };
    let ata_ok: bool = match ledger.get(&maker_ata_a) {
        None => {
            return Err(VaultError::NotFound);
        },
        Some(Account::Token { mint, .. }) => mint == e.mint_a,
        Some(_) => false,
    };
    if !ata_ok {
        return Err(VaultError::InvalidState);
    }
    let vault_balance: u64 = match ledger.get(&vault) {
        Some(Account::Token { balance, .. }) => balance,
        _ => {
            proof {
                assert(false);
            }
            return Err(VaultError::NotFound);
        },
    };
    let decimals_a: u8 = match ledger.get(&Address::Key(e.mint_a)) {
        Some(Account::Mint { decimals }) => decimals,
        _ => {
            proof {
                assert(false);
            }
            return Err(VaultError::NotFound);
        },
    };
    let authority = match prove_escrow_authority(&record, maker, seed, e.bump) {
        Ok(p) => p,
        Err(err) => {
            proof {
                assert(false);
            }
            return Err(err);
        },
    };
    let ghost m0 = ledger@;
    match ledger.transfer_checked(
        e.mint_a,
        decimals_a,
        vault,
        maker_ata_a,
        vault_balance,
        &Authorization::Derived(authority),
    ) {
        Ok(()) => {},
        Err(err) => {
            proof {
                assert(false);
            }
            return Err(err);
        },
    }
    ledger.close_account(vault, maker);
    ledger.close_account(record, maker);
    proof {
        assert(ledger@ =~= refund_post(m0, ledger.min_reserve(), maker, seed));
    }
    Ok(())
}

/// Law: `(maker, seed)` pairs are unique — after a successful `make`, a
/// second `make` for the same pair is rejected with `AlreadyExists`,
/// whatever its assets and (positive) amounts.
pub proof fn lemma_make_duplicate_rejected(
    m: Map<Address, Account>,
    reserve: u64,
    maker: u64,
    seed: u64,
    mint_a: u64,
    mint_b: u64,
    deposit_amount: u64,
    receive_amount: u64,
    mint_a2: u64,
    mint_b2: u64,
    deposit2: u64,
    receive2: u64,
)
    requires
        make_check(m, reserve, maker, seed, mint_a, mint_b, deposit_amount, receive_amount) is Ok,
        deposit2 > 0,
        receive2 > 0,
    ensures
        make_check(
            make_post(m, reserve, maker, seed, mint_a, mint_b, deposit_amount, receive_amount),
            reserve,
            maker,
            seed,
            mint_a2,
            mint_b2,
            deposit2,
            receive2,
        ) == Err::<(), VaultError>(VaultError::AlreadyExists),
{
}

/// Law: escrows are independent — a successful `make` neither creates nor
/// destroys the record of any other `(maker, seed)` pair, so makes under
/// different seeds succeed or fail on their own terms.
pub proof fn lemma_make_preserves_other_escrows(
    m: Map<Address, Account>,
    reserve: u64,
    maker: u64,
    seed: u64,
    mint_a: u64,
    mint_b: u64,
    deposit_amount: u64,
    receive_amount: u64,
    maker2: u64,
    seed2: u64,
)
    requires
        make_check(m, reserve, maker, seed, mint_a, mint_b, deposit_amount, receive_amount) is Ok,
        maker2 != maker || seed2 != seed,
    ensures
        make_post(
            m,
            reserve,
            maker,
            seed,
            mint_a,
            mint_b,
            deposit_amount,
            receive_amount,
        ).dom().contains(record_addr(maker2, seed2)) == m.dom().contains(
            record_addr(maker2, seed2),
        ),
{
}

/// Law: make followed by refund is a round trip — after a successful `make`,
/// `refund` is accepted and restores the whole ledger: the full deposit back
/// in the maker's holding, both storage reserves back in the maker's native
/// account, record and vault gone.
pub proof fn lemma_make_refund_round_trip(
    m: Map<Address, Account>,
    reserve: u64,
    maker: u64,
    seed: u64,
    mint_a: u64,
    mint_b: u64,
    deposit_amount: u64,
    receive_amount: u64,
)
    requires
        make_check(m, reserve, maker, seed, mint_a, mint_b, deposit_amount, receive_amount) is Ok,
    ensures
        refund_check(
            make_post(m, reserve, maker, seed, mint_a, mint_b, deposit_amount, receive_amount),
            maker,
            seed,
        ) is Ok,
        refund_post(
            make_post(m, reserve, maker, seed, mint_a, mint_b, deposit_amount, receive_amount),
            reserve,
            maker,
            seed,
        ) == m,
{
    let m1 = make_post(m, reserve, maker, seed, mint_a, mint_b, deposit_amount, receive_amount);
    assert(refund_post(m1, reserve, maker, seed) =~= m);
}

/// Law: a closed (or never opened) escrow rejects both terminal transitions —
/// with no record live at the pair's derived address, `take` and `refund`
/// fail with `NotFound`, so whichever of the two commits first wins and the
/// loser cannot double-spend.
pub proof fn lemma_missing_record_rejects(
    m: Map<Address, Account>,
    taker: u64,
    maker: u64,
    seed: u64,
)
    requires
        !m.dom().contains(record_addr(maker, seed)),
    ensures
        take_check(m, taker, maker, seed) == Err::<(), VaultError>(VaultError::NotFound),
        refund_check(m, maker, seed) == Err::<(), VaultError>(VaultError::NotFound),
{
}

/// Law: a completed swap settles exactly — after a successful `make` of
/// `deposit_amount` of `mint_a` against `receive_amount` of a distinct
/// `mint_b`, an accepted `take` moves exactly `receive_amount` of `mint_b`
/// from the taker to the maker and exactly `deposit_amount` of `mint_a` to
/// the taker, and leaves no record or vault at the pair's addresses.
pub proof fn lemma_make_take_settles(
    m: Map<Address, Account>,
    reserve: u64,
    taker: u64,
    maker: u64,
    seed: u64,
    mint_a: u64,
    mint_b: u64,
    deposit_amount: u64,
    receive_amount: u64,
)
    requires
        mint_a != mint_b,
        make_check(m, reserve, maker, seed, mint_a, mint_b, deposit_amount, receive_amount) is Ok,
        take_check(
            make_post(m, reserve, maker, seed, mint_a, mint_b, deposit_amount, receive_amount),
            taker,
            maker,
            seed,
        ) is Ok,
        take_fits(
            make_post(m, reserve, maker, seed, mint_a, mint_b, deposit_amount, receive_amount),
            reserve,
            taker,
            maker,
            seed,
        ),
    ensures
        token_balance(
            take_post(
                make_post(m, reserve, maker, seed, mint_a, mint_b, deposit_amount, receive_amount),
                reserve,
                taker,
                maker,
                seed,
            ),
            holding_addr(mint_a, taker),
        ) == token_balance(m, holding_addr(mint_a, taker)) + deposit_amount,
        token_balance(
            take_post(
                make_post(m, reserve, maker, seed, mint_a, mint_b, deposit_amount, receive_amount),
                reserve,
                taker,
                maker,
                seed,
            ),
            holding_addr(mint_b, maker),
        ) == token_balance(m, holding_addr(mint_b, maker)) + receive_amount,
        token_balance(
            take_post(
                make_post(m, reserve, maker, seed, mint_a, mint_b, deposit_amount, receive_amount),
                reserve,
                taker,
                maker,
                seed,
            ),
            holding_addr(mint_b, taker),
        ) == token_balance(m, holding_addr(mint_b, taker)) - receive_amount,
        !take_post(
            make_post(m, reserve, maker, seed, mint_a, mint_b, deposit_amount, receive_amount),
            reserve,
            taker,
            maker,
            seed,
        ).dom().contains(record_addr(maker, seed)),
        !take_post(
            make_post(m, reserve, maker, seed, mint_a, mint_b, deposit_amount, receive_amount),
            reserve,
            taker,
            maker,
            seed,
        ).dom().contains(escrow_vault_addr(mint_a, maker, seed)),
{
    let m1 = make_post(m, reserve, maker, seed, mint_a, mint_b, deposit_amount, receive_amount);
    assert(escrow_at(m1, record_addr(maker, seed)) == expected_record(
        maker,
        seed,
        mint_a,
        mint_b,
        receive_amount,
    ));
}

/// Validates that the escrow for `(maker, seed)` is open and intact, and
/// reads its record. Reads only; reports the exact error of
/// `escrow_access_check`.
fn check_escrow_access(ledger: &Ledger, maker: u64, seed: u64) -> (r: Result<Escrow, VaultError>)
    requires
        ledger.wf(),
    ensures
        r matches Ok(e) ==> escrow_access_check(ledger@, maker, seed) is Ok && e == escrow_at(
            ledger@,
            record_addr(maker, seed),
        ),
        r matches Err(err) ==> escrow_access_check(ledger@, maker, seed) == Err::<(), VaultError>(
            err,
        ),
{
    let (record, expected_bump) = derive_escrow_record(maker, seed);
    let e: Escrow = match ledger.get(&record) {
        None => {
            return Err(VaultError::NotFound);
        },
        Some(Account::Record(e)) => e,
        Some(_) => {
            return Err(VaultError::InvalidState);
        },
    };
    if e.maker != maker || e.seed != seed {
        return Err(VaultError::InvalidState);
    }
    if e.bump != expected_bump {
        return Err(VaultError::Unauthorized);
    }
    let (vault, _) = derive_escrow_vault(e.mint_a, maker, seed);
    let vault_acct = ledger.get(&vault);
    let mint_a_acct = ledger.get(&Address::Key(e.mint_a));
    let maker_acct = ledger.get(&Address::Key(maker));
    if vault_acct.is_none() || mint_a_acct.is_none() || maker_acct.is_none() {
        return Err(VaultError::NotFound);
    }
    let (vault_mint, vault_authority): (u64, Address) = match vault_acct {
        Some(Account::Token { mint, authority, .. }) => (mint, authority),
        _ => {
            return Err(VaultError::InvalidState);
        },
    };
    let mint_a_ok: bool = match mint_a_acct {
        Some(Account::Mint { .. }) => true,
        _ => false,
    };
    let maker_ok: bool = match maker_acct {
        Some(Account::Native { .. }) => true,
        _ => false,
    };
    if vault_mint != e.mint_a || !mint_a_ok || !maker_ok {
        return Err(VaultError::InvalidState);
    }
    if vault_authority != record {
        return Err(VaultError::Unauthorized);
    }
    Ok(e)
}

} // verus!
