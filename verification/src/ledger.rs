//! The ledger: a single store mapping addresses to typed account contents,
//! together with the transfer engine and the account lifecycle primitives.
//!
//! The store is the explicit stand-in for the ambient ledger substrate: every
//! operation on it is all-or-nothing, and concurrent requests touching the
//! same address are assumed serialized by the substrate, so the store itself
//! is the sole mutual-exclusion mechanism the cores rely on.

use crate::addr::{Address, Authorization};
use crate::state::{Escrow, VaultError, VaultState};
use vstd::prelude::*;

verus! {

/// The typed content of one account.
#[derive(Clone, Copy, Debug, PartialEq, Eq, Structural)]
pub enum Account {
    /// A fungible-asset declaration: fixes the asset's precision.
    Mint { decimals: u8 },
    /// A holding of `mint`, owned by `authority`. Only a transfer authorized
    /// by that owner may decrease `balance`.
    Token { mint: u64, authority: Address, balance: u64 },
    /// A native-value account. Its owner is its own address: the key for a
    /// key-controlled address, the derivation for a derived one.
    Native { balance: u64 },
    /// A live escrow record.
    Record(Escrow),
    /// A live vault-state record.
    State(VaultState),
}

/// The balance of a native account, zero for any other kind.
pub open spec fn native_balance(m: Map<Address, Account>, a: Address) -> u64 {
    match m[a] {
        Account::Native { balance } => balance,
        _ => 0,
    }
}

/// The mint of a token account, zero for any other kind.
pub open spec fn token_mint(m: Map<Address, Account>, a: Address) -> u64 {
    match m[a] {
        Account::Token { mint, .. } => mint,
        _ => 0,
    }
}

/// The owner of a token account, `Address::Key(0)` for any other kind.
pub open spec fn token_authority(m: Map<Address, Account>, a: Address) -> Address {
    match m[a] {
        Account::Token { authority, .. } => authority,
        _ => Address::Key(0),
    }
}

/// The balance of a token account, zero for any other kind.
pub open spec fn token_balance(m: Map<Address, Account>, a: Address) -> u64 {
    match m[a] {
        Account::Token { balance, .. } => balance,
        _ => 0,
    }
}

/// The declared precision of the mint at `Address::Key(mint)`, zero for any
/// other kind of account.
pub open spec fn mint_decimals(m: Map<Address, Account>, mint: u64) -> u8 {
    match m[Address::Key(mint)] {
        Account::Mint { decimals } => decimals,
        _ => 0,
    }
}

/// The escrow record stored at `a`; an all-zero record for any other kind.
pub open spec fn escrow_at(m: Map<Address, Account>, a: Address) -> Escrow {
    match m[a] {
        Account::Record(e) => e,
        _ => Escrow { seed: 0, maker: 0, mint_a: 0, mint_b: 0, receive: 0, bump: 0 },
    }
}

/// The vault state stored at `a`; an all-zero state for any other kind.
pub open spec fn state_at(m: Map<Address, Account>, a: Address) -> VaultState {
    match m[a] {
        Account::State(s) => s,
        _ => VaultState { vault_bump: 0, state_bump: 0 },
    }
}

/// The storage reserve charged for creating an account: native accounts keep
/// their reserve in their own balance, every other kind is backed by one
/// ledger-wide minimum-existence reserve paid by its creator and reclaimed
/// when the account is destroyed.
pub open spec fn account_rent(acct: Account, reserve: u64) -> u64 {
    match acct {
        Account::Native { .. } => 0,
        _ => reserve,
    }
}

/// The ledger: a finite store of accounts plus the substrate's
/// minimum-existence reserve, fixed at construction.
pub struct Ledger {
    reserve: u64,
    accounts: Vec<(Address, Account)>,
}

/// The map described by an association list: later entries win, though a
/// well-formed ledger never has two entries with one address.
pub open spec fn map_of(s: Seq<(Address, Account)>) -> Map<Address, Account>
    decreases s.len(),
{
    if s.len() == 0 {
        Map::empty()
    } else {
        map_of(s.drop_last()).insert(s.last().0, s.last().1)
    }
}

/// No two entries share an address.
pub open spec fn keys_distinct(s: Seq<(Address, Account)>) -> bool {
    forall|i: int, j: int| 0 <= i < j < s.len() ==> s[i].0 != s[j].0
}

/// The domain of `map_of(s)` is exactly the set of first components of `s`.
proof fn lemma_map_of_contains(s: Seq<(Address, Account)>, a: Address)
    ensures
        map_of(s).dom().contains(a) <==> exists|i: int| 0 <= i < s.len() && s[i].0 == a,
    decreases s.len(),
{
    if s.len() > 0 {
        lemma_map_of_contains(s.drop_last(), a);
        if s.last().0 == a {
            assert(s[s.len() - 1].0 == a);
        } else {
            if map_of(s).dom().contains(a) {
                let i = choose|i: int| 0 <= i < s.drop_last().len() && s.drop_last()[i].0 == a;
                assert(s[i].0 == a);
            }
            if exists|i: int| 0 <= i < s.len() && s[i].0 == a {
                let i = choose|i: int| 0 <= i < s.len() && s[i].0 == a;
                assert(s.drop_last()[i].0 == a);
            }
        }
    }
}

/// In a distinct-keyed list, the map agrees with the entry at each index.
proof fn lemma_map_of_index(s: Seq<(Address, Account)>, i: int)
    requires
        keys_distinct(s),
        0 <= i < s.len(),
    ensures
        map_of(s).dom().contains(s[i].0),
        map_of(s)[s[i].0] == s[i].1,
    decreases s.len(),
{
    if i == s.len() - 1 {
    } else {
        lemma_map_of_index(s.drop_last(), i);
        assert(s.drop_last()[i] == s[i]);
        assert(s[i].0 != s.last().0);
    }
}

/// Updating the entry at index `i` in place updates the map at its key.
proof fn lemma_map_of_update(s: Seq<(Address, Account)>, i: int, v: Account)
    requires
        keys_distinct(s),
        0 <= i < s.len(),
    ensures
        keys_distinct(s.update(i, (s[i].0, v))),
        map_of(s.update(i, (s[i].0, v))) =~= map_of(s).insert(s[i].0, v),
    decreases s.len(),
{
    let s2 = s.update(i, (s[i].0, v));
    assert(forall|j: int| 0 <= j < s.len() && j != i ==> s2[j] == s[j]);
    if i == s.len() - 1 {
        assert(s2.drop_last() =~= s.drop_last());
        assert(map_of(s2) =~= map_of(s).insert(s[i].0, v));
    } else {
        lemma_map_of_update(s.drop_last(), i, v);
        assert(s2.drop_last() =~= s.drop_last().update(i, (s[i].0, v)));
        assert(s2.last() == s.last());
        assert(s[i].0 != s.last().0);
        assert(map_of(s2) =~= map_of(s).insert(s[i].0, v));
    }
}

/// Appending an entry inserts its key into the map.
proof fn lemma_map_of_push(s: Seq<(Address, Account)>, a: Address, v: Account)
    requires
        keys_distinct(s),
        forall|i: int| 0 <= i < s.len() ==> s[i].0 != a,
    ensures
        keys_distinct(s.push((a, v))),
        map_of(s.push((a, v))) == map_of(s).insert(a, v),
{
    let s2 = s.push((a, v));
    assert(s2.drop_last() =~= s);
    assert(forall|i: int, j: int| 0 <= i < j < s2.len() ==> s2[i].0 != s2[j].0) by {
        assert(forall|i: int| 0 <= i < s.len() ==> s2[i] == s[i]);
    }
}

/// Removing the entry at index `i` removes its key from the map.
proof fn lemma_map_of_remove(s: Seq<(Address, Account)>, i: int)
    requires
        keys_distinct(s),
        0 <= i < s.len(),
    ensures
        keys_distinct(s.remove(i)),
        map_of(s.remove(i)) =~= map_of(s).remove(s[i].0),
    decreases s.len(),
{
    let s2 = s.remove(i);
    assert(forall|j: int| 0 <= j < i ==> s2[j] == s[j]);
    assert(forall|j: int| i <= j < s2.len() ==> s2[j] == s[j + 1]);
    if i == s.len() - 1 {
        assert(s2 =~= s.drop_last());
        lemma_map_of_contains(s.drop_last(), s[i].0);
        assert(map_of(s2) =~= map_of(s).remove(s[i].0));
    } else {
        lemma_map_of_remove(s.drop_last(), i);
        assert(s2.drop_last() =~= s.drop_last().remove(i));
        assert(s2.last() == s.last());
        assert(s[i].0 != s.last().0);
        assert(map_of(s2) =~= map_of(s).remove(s[i].0));
    }
}

impl View for Ledger {
    type V = Map<Address, Account>;

    closed spec fn view(&self) -> Map<Address, Account> {
        map_of(self.accounts@)
    }
}

impl Ledger {
    /// Well-formedness: the backing list keys each address at most once.
    pub closed spec fn wf(&self) -> bool {
        keys_distinct(self.accounts@)
    }

    /// The substrate's minimum-existence reserve.
    pub closed spec fn min_reserve(&self) -> u64 {
        self.reserve
    }

    /// Creates an empty ledger whose minimum-existence reserve is `reserve`.
    pub fn new(reserve: u64) -> (r: Ledger)
        ensures
            r.wf(),
            r@ == Map::<Address, Account>::empty(),
            r.min_reserve() == reserve,
    {
        let l = Ledger { reserve, accounts: Vec::new() };
        proof {
            assert(l@ =~= Map::<Address, Account>::empty());
        }
        l
    }

    /// Reads the substrate's minimum-existence reserve.
    pub fn reserve(&self) -> (r: u64)
        ensures
            r == self.min_reserve(),
    {
        self.reserve
    }

    /// The index of the entry for `addr`, if one exists.
    fn find(&self, addr: &Address) -> (r: Option<usize>)
        ensures
            match r {
                Some(i) => i < self.accounts@.len() && self.accounts@[i as int].0 == *addr,
                None => forall|i: int| 0 <= i < self.accounts@.len() ==> self.accounts@[i].0 != *addr,
            },
    {
        let mut i: usize = 0;
        while i < self.accounts.len()
            invariant
                i <= self.accounts@.len(),
                forall|j: int| 0 <= j < i ==> self.accounts@[j].0 != *addr,
            decreases self.accounts@.len() - i,
        {
            if self.accounts[i].0 == *addr {
                return Some(i);
            }
            i = i + 1;
        }
        None
    }

    /// Whether an account is live at `addr`.
    pub fn contains(&self, addr: &Address) -> (r: bool)
        requires
            self.wf(),
        ensures
            r == self@.dom().contains(*addr),
    {
        let idx = self.find(addr);
        proof {
            lemma_map_of_contains(self.accounts@, *addr);
        }
        match idx {
            Some(_) => true,
            None => false,
        }
    }

    /// Reads the account at `addr`, if one is live there.
    pub fn get(&self, addr: &Address) -> (r: Option<Account>)
        requires
            self.wf(),
        ensures
            r == if self@.dom().contains(*addr) {
                Some(self@[*addr])
            } else {
                None::<Account>
            },
    {
        let idx = self.find(addr);
        proof {
            lemma_map_of_contains(self.accounts@, *addr);
        }
        match idx {
            Some(i) => {
                proof {
                    lemma_map_of_index(self.accounts@, i as int);
                }
                Some(self.accounts[i].1)
            },
            None => None,
        }
    }

    /// Writes `acct` at `addr`, inserting or overwriting.
    fn put(&mut self, addr: Address, acct: Account)
        requires
            old(self).wf(),
        ensures
            final(self).wf(),
            final(self)@ == old(self)@.insert(addr, acct),
            final(self).min_reserve() == old(self).min_reserve(),
    {
        let idx = self.find(&addr);
        match idx {
            Some(i) => {
                proof {
                    lemma_map_of_update(self.accounts@, i as int, acct);
                }
                self.accounts[i] = (addr, acct);
            },
            None => {
                proof {
                    lemma_map_of_push(self.accounts@, addr, acct);
                }
                self.accounts.push((addr, acct));
            },
        }
    }

    /// Removes the account at `addr`.
    fn delete(&mut self, addr: Address)
        requires
            old(self).wf(),
            old(self)@.dom().contains(addr),
        ensures
            final(self).wf(),
            final(self)@ == old(self)@.remove(addr),
            final(self).min_reserve() == old(self).min_reserve(),
    {
        let idx = self.find(&addr);
        proof {
            lemma_map_of_contains(self.accounts@, addr);
        }
        match idx {
            Some(i) => {
                proof {
                    lemma_map_of_remove(self.accounts@, i as int);
                }
                self.accounts.remove(i);
            },
            None => {
                proof {
                    assert(false);
                }
            },
        }
    }
}

/// Whether a native transfer of `amount` into `to` would be accepted, and if
/// not, the exact error, checked in this order: both accounts must be live
/// (`NotFound`), both native and distinct (`InvalidState`), the authorization
/// must match the source's owner (`Unauthorized`), and the source must hold
/// at least `amount` (`InsufficientFunds`).
pub open spec fn native_transfer_check(
    m: Map<Address, Account>,
    from: Address,
    to: Address,
    amount: u64,
    auth: Authorization,
) -> Result<(), VaultError> {
    if !m.dom().contains(from) || !m.dom().contains(to) {
        Err(VaultError::NotFound)
    } else if !(m[from] is Native) || !(m[to] is Native) || from == to {
        Err(VaultError::InvalidState)
    } else if !auth.authorizes(from) {
        Err(VaultError::Unauthorized)
    } else if native_balance(m, from) < amount {
        Err(VaultError::InsufficientFunds)
    } else {
        Ok(())
    }
}

/// The ledger after a successful native transfer: `from` decreases and `to`
/// increases by exactly `amount`.
pub open spec fn native_transfer_post(
    m: Map<Address, Account>,
    from: Address,
    to: Address,
    amount: u64,
) -> Map<Address, Account> {
    m.insert(from, Account::Native { balance: (native_balance(m, from) - amount) as u64 }).insert(
        to,
        Account::Native { balance: (native_balance(m, to) + amount) as u64 },
    )
}

/// The destination of a native transfer can absorb `amount` without its
/// balance leaving the machine range.
pub open spec fn native_fits(m: Map<Address, Account>, to: Address, amount: u64) -> bool {
    (m.dom().contains(to) && m[to] is Native) ==> native_balance(m, to) + amount <= u64::MAX
}

/// Whether a mint-checked token transfer would be accepted, and if not, the
/// exact error, checked in this order: the mint declaration and both accounts
/// must be live (`NotFound`); the mint must be a mint of the declared
/// precision, both accounts tokens of that mint, and source and destination
/// distinct (`InvalidState`); the authorization must match the source's owner
/// (`Unauthorized`); and the source must hold at least `amount`
/// (`InsufficientFunds`).
pub open spec fn token_transfer_check(
    m: Map<Address, Account>,
    mint: u64,
    decimals: u8,
    from: Address,
    to: Address,
    amount: u64,
    auth: Authorization,
) -> Result<(), VaultError> {
    if !m.dom().contains(Address::Key(mint)) || !m.dom().contains(from) || !m.dom().contains(to) {
        Err(VaultError::NotFound)
    } else if !(m[Address::Key(mint)] is Mint) || mint_decimals(m, mint) != decimals || !(m[from]
        is Token) || !(m[to] is Token) || token_mint(m, from) != mint || token_mint(m, to) != mint
        || from == to {
        Err(VaultError::InvalidState)
    } else if !auth.authorizes(token_authority(m, from)) {
        Err(VaultError::Unauthorized)
    } else if token_balance(m, from) < amount {
        Err(VaultError::InsufficientFunds)
    } else {
        Ok(())
    }
}

/// The ledger after a successful token transfer: `from` decreases and `to`
/// increases by exactly `amount`; mints and owners are untouched.
pub open spec fn token_transfer_post(
    m: Map<Address, Account>,
    from: Address,
    to: Address,
    amount: u64,
) -> Map<Address, Account> {
    m.insert(
        from,
        Account::Token {
            mint: token_mint(m, from),
            authority: token_authority(m, from),
            balance: (token_balance(m, from) - amount) as u64,
        },
    ).insert(
        to,
        Account::Token {
            mint: token_mint(m, to),
            authority: token_authority(m, to),
            balance: (token_balance(m, to) + amount) as u64,
        },
    )
}

/// The destination of a token transfer can absorb `amount` without its
/// balance leaving the machine range.
pub open spec fn token_fits(m: Map<Address, Account>, to: Address, amount: u64) -> bool {
    (m.dom().contains(to) && m[to] is Token) ==> token_balance(m, to) + amount <= u64::MAX
}

/// Whether creating `acct` at `addr`, paid by `payer`, would be accepted:
/// the target address must be free (`AlreadyExists`), the payer must hold a
/// live native account (`NotFound` / `InvalidState`) with at least the
/// account's storage reserve in it (`InsufficientFunds`).
pub open spec fn create_check(
    m: Map<Address, Account>,
    reserve: u64,
    payer: u64,
    addr: Address,
    acct: Account,
) -> Result<(), VaultError> {
    if m.dom().contains(addr) {
        Err(VaultError::AlreadyExists)
    } else if !m.dom().contains(Address::Key(payer)) {
        Err(VaultError::NotFound)
    } else if !(m[Address::Key(payer)] is Native) {
        Err(VaultError::InvalidState)
    } else if native_balance(m, Address::Key(payer)) < account_rent(acct, reserve) {
        Err(VaultError::InsufficientFunds)
    } else {
        Ok(())
    }
}

/// The ledger after a successful creation: the payer is charged the storage
/// reserve and the new account is live.
pub open spec fn create_post(
    m: Map<Address, Account>,
    reserve: u64,
    payer: u64,
    addr: Address,
    acct: Account,
) -> Map<Address, Account> {
    m.insert(
        Address::Key(payer),
        Account::Native {
            balance: (native_balance(m, Address::Key(payer)) - account_rent(acct, reserve)) as u64,
        },
    ).insert(addr, acct)
}

/// The ledger after destroying the non-native account at `addr`: the account
/// is gone and its storage reserve is returned to `recipient`.
pub open spec fn close_post(
    m: Map<Address, Account>,
    reserve: u64,
    addr: Address,
    recipient: u64,
) -> Map<Address, Account> {
    m.remove(addr).insert(
        Address::Key(recipient),
        Account::Native {
            balance: (native_balance(m, Address::Key(recipient)) + reserve) as u64,
        },
    )
}

impl Ledger {
    /// Moves `amount` units of native value from `from` to `to`. The
    /// authorization must be a signature by the key of `from`, or a derived
    /// authority proof for `from` itself; the movement is atomic, and a
    /// rejected transfer leaves the ledger unchanged.
    pub fn transfer_native(
        &mut self,
        from: Address,
        to: Address,
        amount: u64,
        auth: &Authorization,
    ) -> (r: Result<(), VaultError>)
        requires
            old(self).wf(),
            native_fits(old(self)@, to, amount),
        ensures
            final(self).wf(),
            final(self).min_reserve() == old(self).min_reserve(),
            r == native_transfer_check(old(self)@, from, to, amount, *auth),
            r is Ok ==> final(self)@ == native_transfer_post(old(self)@, from, to, amount),
            r is Err ==> final(self)@ == old(self)@,
    {
        let from_acct = self.get(&from);
        let to_acct = self.get(&to);
        if from_acct.is_none() || to_acct.is_none() {
            return Err(VaultError::NotFound);
        }
        let from_balance: u64 = match from_acct {
            Some(Account::Native { balance }) => balance,
            _ => {
                return Err(VaultError::InvalidState);
            },
        };
        let to_balance: u64 = match to_acct {
            Some(Account::Native { balance }) => balance,
            _ => {
                return Err(VaultError::InvalidState);
            },
        };
        if from == to {
            return Err(VaultError::InvalidState);
        }
        if !auth.permits(&from) {
            return Err(VaultError::Unauthorized);
        }
        if from_balance < amount {
            return Err(VaultError::InsufficientFunds);
        }
        self.put(from, Account::Native { balance: from_balance - amount });
        self.put(to, Account::Native { balance: to_balance + amount });
        Ok(())
    }

    /// Moves `amount` units of the asset declared at `Address::Key(mint)`
    /// from `from` to `to`, validating that the asset's declared precision is
    /// `decimals` and that both accounts hold that asset. The authorization
    /// must match the source account's owner; the movement is atomic, and a
    /// rejected transfer leaves the ledger unchanged.
    pub fn transfer_checked(
        &mut self,
        mint: u64,
        decimals: u8,
        from: Address,
        to: Address,
        amount: u64,
        auth: &Authorization,
    ) -> (r: Result<(), VaultError>)
        requires
            old(self).wf(),
            token_fits(old(self)@, to, amount),
        ensures
            final(self).wf(),
            final(self).min_reserve() == old(self).min_reserve(),
            r == token_transfer_check(old(self)@, mint, decimals, from, to, amount, *auth),
            r is Ok ==> final(self)@ == token_transfer_post(old(self)@, from, to, amount),
            r is Err ==> final(self)@ == old(self)@,
    {
        let mint_acct = self.get(&Address::Key(mint));
        let from_acct = self.get(&from);
        let to_acct = self.get(&to);
        if mint_acct.is_none() || from_acct.is_none() || to_acct.is_none() {
            return Err(VaultError::NotFound);
        }
        let mint_ok: bool = match mint_acct {
            Some(Account::Mint { decimals: d }) => d == decimals,
            _ => false,
        };
        let (from_mint, from_authority, from_balance): (u64, Address, u64) = match from_acct {
            Some(Account::Token { mint: fm, authority, balance }) => (fm, authority, balance),
            _ => {
                return Err(VaultError::InvalidState);
            },
        };
        let (to_mint, to_authority, to_balance): (u64, Address, u64) = match to_acct {
            Some(Account::Token { mint: tm, authority, balance }) => (tm, authority, balance),
            _ => {
                return Err(VaultError::InvalidState);
            },
        };
        if !mint_ok || from_mint != mint || to_mint != mint || from == to {
            return Err(VaultError::InvalidState);
        }
        if !auth.permits(&from_authority) {
            return Err(VaultError::Unauthorized);
        }
        if from_balance < amount {
            return Err(VaultError::InsufficientFunds);
        }
        self.put(
            from,
            Account::Token { mint, authority: from_authority, balance: from_balance - amount },
        );
        self.put(
            to,
            Account::Token { mint, authority: to_authority, balance: to_balance + amount },
        );
        Ok(())
    }

    /// Creates `acct` at `addr`, charging the storage reserve to `payer`'s
    /// native account. A rejected creation leaves the ledger unchanged.
    pub(crate) fn create_account(&mut self, payer: u64, addr: Address, acct: Account) -> (r:
        Result<(), VaultError>)
        requires
            old(self).wf(),
        ensures
            final(self).wf(),
            final(self).min_reserve() == old(self).min_reserve(),
            r == create_check(old(self)@, old(self).min_reserve(), payer, addr, acct),
            r is Ok ==> final(self)@ == create_post(
                old(self)@,
                old(self).min_reserve(),
                payer,
                addr,
                acct,
            ),
            r is Err ==> final(self)@ == old(self)@,
    {
        if self.contains(&addr) {
            return Err(VaultError::AlreadyExists);
        }
        let payer_balance: u64 = match self.get(&Address::Key(payer)) {
            None => {
                return Err(VaultError::NotFound);
            },
            Some(Account::Native { balance }) => balance,
            Some(_) => {
                return Err(VaultError::InvalidState);
            },
        };
        let rent: u64 = match acct {
            Account::Native { .. } => 0,
            _ => self.reserve(),
        };
        if payer_balance < rent {
            return Err(VaultError::InsufficientFunds);
        }
        self.put(Address::Key(payer), Account::Native { balance: payer_balance - rent });
        self.put(addr, acct);
        Ok(())
    }

    /// Destroys the non-native account at `addr`, returning its storage
    /// reserve to `recipient`'s native account.
    pub(crate) fn close_account(&mut self, addr: Address, recipient: u64)
        requires
            old(self).wf(),
            old(self)@.dom().contains(addr),
            !(old(self)@[addr] is Native),
            old(self)@.dom().contains(Address::Key(recipient)),
            old(self)@[Address::Key(recipient)] is Native,
            native_balance(old(self)@, Address::Key(recipient)) + old(self).min_reserve()
                <= u64::MAX,
        ensures
            final(self).wf(),
            final(self).min_reserve() == old(self).min_reserve(),
            final(self)@ == close_post(old(self)@, old(self).min_reserve(), addr, recipient),
    {
        let recipient_balance: u64 = match self.get(&Address::Key(recipient)) {
            Some(Account::Native { balance }) => balance,
            _ => {
                proof {
                    assert(false);
                }
                0
            },
        };
        let reserve = self.reserve();
        self.delete(addr);
        self.put(
            Address::Key(recipient),
            Account::Native { balance: recipient_balance + reserve },
        );
    }

    /// Removes a native account whose balance has been fully drained; no
    /// value moves.
    pub(crate) fn remove_empty_native(&mut self, addr: Address)
        requires
            old(self).wf(),
            old(self)@.dom().contains(addr),
            old(self)@[addr] is Native,
            native_balance(old(self)@, addr) == 0,
        ensures
            final(self).wf(),
            final(self).min_reserve() == old(self).min_reserve(),
            final(self)@ == old(self)@.remove(addr),
    {
        self.delete(addr);
    }

    /// Opens a key-controlled native account holding `balance`, modelling an
    /// account that pre-exists the cores (a funded user).
    pub fn create_native_account(&mut self, key: u64, balance: u64) -> (r: Result<(), VaultError>)
        requires
            old(self).wf(),
        ensures
            final(self).wf(),
            final(self).min_reserve() == old(self).min_reserve(),
            r is Ok <==> !old(self)@.dom().contains(Address::Key(key)),
            r is Ok ==> final(self)@ == old(self)@.insert(
                Address::Key(key),
                Account::Native { balance },
            ),
            r is Err ==> final(self)@ == old(self)@ && r == Err::<(), VaultError>(
                VaultError::AlreadyExists,
            ),
    {
        if self.contains(&Address::Key(key)) {
            return Err(VaultError::AlreadyExists);
        }
        self.put(Address::Key(key), Account::Native { balance });
        Ok(())
    }

    /// Declares a fungible asset of the given precision at
    /// `Address::Key(mint)`.
    pub fn create_mint(&mut self, mint: u64, decimals: u8) -> (r: Result<(), VaultError>)
        requires
            old(self).wf(),
        ensures
            final(self).wf(),
            final(self).min_reserve() == old(self).min_reserve(),
            r is Ok <==> !old(self)@.dom().contains(Address::Key(mint)),
            r is Ok ==> final(self)@ == old(self)@.insert(
                Address::Key(mint),
                Account::Mint { decimals },
            ),
            r is Err ==> final(self)@ == old(self)@ && r == Err::<(), VaultError>(
                VaultError::AlreadyExists,
            ),
    {
        if self.contains(&Address::Key(mint)) {
            return Err(VaultError::AlreadyExists);
        }
        self.put(Address::Key(mint), Account::Mint { decimals });
        Ok(())
    }

    /// Opens `owner`'s holding account for `mint` with an initial balance,
    /// modelling a holding funded before the cores run. The mint must be
    /// declared (`NotFound` / `InvalidState`) and the holding address free
    /// (`AlreadyExists`).
    pub fn create_token_account(&mut self, mint: u64, owner: u64, balance: u64) -> (r: Result<
        (),
        VaultError,
    >)
        requires
            old(self).wf(),
        ensures
            final(self).wf(),
            final(self).min_reserve() == old(self).min_reserve(),
            r == token_account_check(old(self)@, mint, owner),
            r is Ok ==> final(self)@ == old(self)@.insert(
                Address::Holding { mint, owner },
                Account::Token { mint, authority: Address::Key(owner), balance },
            ),
            r is Err ==> final(self)@ == old(self)@,
    {
        let holding = Address::Holding { mint, owner };
        if self.contains(&holding) {
            return Err(VaultError::AlreadyExists);
        }
        match self.get(&Address::Key(mint)) {
            None => {
                return Err(VaultError::NotFound);
            },
            Some(Account::Mint { .. }) => {},
            Some(_) => {
                return Err(VaultError::InvalidState);
            },
        }
        self.put(holding, Account::Token { mint, authority: Address::Key(owner), balance });
        Ok(())
    }
}

/// Whether opening `owner`'s holding account for `mint` would be accepted,
/// and if not, the exact error.
pub open spec fn token_account_check(m: Map<Address, Account>, mint: u64, owner: u64) -> Result<
    (),
    VaultError,
> {
    if m.dom().contains(Address::Holding { mint, owner }) {
        Err(VaultError::AlreadyExists)
    } else if !m.dom().contains(Address::Key(mint)) {
        Err(VaultError::NotFound)
    } else if !(m[Address::Key(mint)] is Mint) {
        Err(VaultError::InvalidState)
    } else {
        Ok(())
    }
}

} // verus!
