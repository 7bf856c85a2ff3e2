//! Deterministic address derivation and program-derived authority.
//!
//! Every account address is either a key-controlled address (`Address::Key`)
//! or a program-derived one, computed deterministically from a tag and a set
//! of components. A derived address is controllable only by reproducing that
//! exact derivation together with its "bump" discriminant: presenting the
//! recomputed proof is the only way to authorize an outgoing transfer from a
//! program-owned account. No private key exists for such an address.

use crate::state::VaultError;
use vstd::prelude::*;

verus! {

/// Derivation tag for an escrow record, keyed by `(maker, seed)`.
pub const TAG_ESCROW: u64 = 1;
/// Derivation tag for a native vault, keyed by its owning user.
pub const TAG_VAULT: u64 = 2;
/// Derivation tag for a vault-state record, keyed by its owning user.
pub const TAG_STATE: u64 = 3;
/// Derivation tag for an escrow's token vault, the associated custody
/// account keyed by `(mint, record)`.
pub const TAG_TOKEN: u64 = 4;

/// The address of an account on the ledger. Distinct tags keep the derived
/// classes collision-free against each other and against plain keys, so the
/// derivation is injective by construction.
#[derive(Clone, Copy, Debug, PartialEq, Eq, Structural)]
pub enum Address {
    /// An address controlled by a private key held by `0`'s owner: a user,
    /// a mint declaration, or any other externally-owned account.
    Key(u64),
    /// A user's holding account for one fungible asset, owned by that user.
    Holding { mint: u64, owner: u64 },
    /// An escrow record, derived from `(TAG_ESCROW, maker, seed)`.
    EscrowRecord { maker: u64, seed: u64 },
    /// An escrow's token custody account, derived from `(TAG_TOKEN, mint,
    /// record)` where the record is itself derived from `(maker, seed)`.
    /// Its authority is the paired escrow record's address.
    EscrowVault { mint: u64, maker: u64, seed: u64 },
    /// A vault-state record, derived from `(TAG_STATE, user)`.
    StateRecord { user: u64 },
    /// A native-value custody account, derived from `(TAG_VAULT, user)`.
    NativeVault { user: u64 },
}

/// The bump discriminant of a derivation: a deterministic, pure function of
/// the tag and the components. Re-derivation must reproduce it exactly for an
/// authority proof to validate.
pub open spec fn bump_for(tag: u64, a: u64, b: u64, c: u64) -> u8 {
    (255 - ((tag % 251 + a % 251 + b % 251 + c % 251) % 251)) as u8
}

/// Computes the bump discriminant for a derivation.
pub fn compute_bump(tag: u64, a: u64, b: u64, c: u64) -> (r: u8)
    ensures
        r == bump_for(tag, a, b, c),
{
    (255 - ((tag % 251 + a % 251 + b % 251 + c % 251) % 251)) as u8
}

/// Derives the address and bump of the escrow record for `(maker, seed)`.
pub fn derive_escrow_record(maker: u64, seed: u64) -> (r: (Address, u8))
    ensures
        r.0 == (Address::EscrowRecord { maker, seed }),
        r.1 == bump_for(TAG_ESCROW, maker, seed, 0),
{
    (Address::EscrowRecord { maker, seed }, compute_bump(TAG_ESCROW, maker, seed, 0))
}

/// Derives the address and bump of the token custody account paired with the
/// escrow record for `(maker, seed)`, holding asset `mint`.
pub fn derive_escrow_vault(mint: u64, maker: u64, seed: u64) -> (r: (Address, u8))
    ensures
        r.0 == (Address::EscrowVault { mint, maker, seed }),
        r.1 == bump_for(TAG_TOKEN, mint, maker, seed),
{
    (Address::EscrowVault { mint, maker, seed }, compute_bump(TAG_TOKEN, mint, maker, seed))
}

/// Derives the address and bump of `user`'s vault-state record.
pub fn derive_state_record(user: u64) -> (r: (Address, u8))
    ensures
        r.0 == (Address::StateRecord { user }),
        r.1 == bump_for(TAG_STATE, user, 0, 0),
{
    (Address::StateRecord { user }, compute_bump(TAG_STATE, user, 0, 0))
}

/// Derives the address and bump of `user`'s native vault.
pub fn derive_native_vault(user: u64) -> (r: (Address, u8))
    ensures
        r.0 == (Address::NativeVault { user }),
        r.1 == bump_for(TAG_VAULT, user, 0, 0),
{
    (Address::NativeVault { user }, compute_bump(TAG_VAULT, user, 0, 0))
}

/// Evidence that a derivation was recomputed and found to match an address.
/// A value of this type can only be produced by one of the `prove_*`
/// functions below, so holding one is holding the authority it names.
#[derive(Clone, Copy, Debug)]
pub struct AuthorityProof {
    authority: Address,
}

impl AuthorityProof {
    /// The derived address this proof gives authority over.
    pub closed spec fn addr(self) -> Address {
        self.authority
    }

    /// Reads the derived address this proof gives authority over.
    pub fn authority(&self) -> (r: Address)
        ensures
            r == self.addr(),
    {
        self.authority
    }
}

/// Recomputes the escrow-record derivation for `(maker, seed)` and asserts
/// that it matches `addr` and the supplied `bump`; on success the returned
/// proof authorizes transfers out of accounts owned by that record.
pub fn prove_escrow_authority(addr: &Address, maker: u64, seed: u64, bump: u8) -> (r: Result<
    AuthorityProof,
    VaultError,
>)
    ensures
        r is Ok <==> (*addr == (Address::EscrowRecord { maker, seed }) && bump == bump_for(
            TAG_ESCROW,
            maker,
            seed,
            0,
        )),
        r matches Ok(p) ==> p.addr() == *addr,
        r matches Err(e) ==> e == VaultError::Unauthorized,
{
    let (expected, expected_bump) = derive_escrow_record(maker, seed);
    if *addr == expected && bump == expected_bump {
        Ok(AuthorityProof { authority: expected })
    } else {
        Err(VaultError::Unauthorized)
    }
}

/// Recomputes the native-vault derivation for `user` and asserts that it
/// matches `addr` and the supplied `bump`; on success the returned proof
/// authorizes transfers out of that vault.
pub fn prove_vault_authority(addr: &Address, user: u64, bump: u8) -> (r: Result<
    AuthorityProof,
    VaultError,
>)
    ensures
        r is Ok <==> (*addr == (Address::NativeVault { user }) && bump == bump_for(
            TAG_VAULT,
            user,
            0,
            0,
        )),
        r matches Ok(p) ==> p.addr() == *addr,
        r matches Err(e) ==> e == VaultError::Unauthorized,
{
    let (expected, expected_bump) = derive_native_vault(user);
    if *addr == expected && bump == expected_bump {
        Ok(AuthorityProof { authority: expected })
    } else {
        Err(VaultError::Unauthorized)
    }
}

/// The authorization presented with a transfer: either a direct signature by
/// the holder of a key, or a recomputed derivation proof for a program-owned
/// address.
#[derive(Clone, Copy, Debug)]
pub enum Authorization {
    /// The request is signed by the private key of `Address::Key(0)`.
    Signer(u64),
    /// The request presents a recomputed derivation proof.
    Derived(AuthorityProof),
}

impl Authorization {
    /// Whether this authorization is valid for an account whose owner is
    /// `authority`.
    pub open spec fn authorizes(self, authority: Address) -> bool {
        match self {
            Authorization::Signer(k) => authority == Address::Key(k),
            Authorization::Derived(p) => p.addr() == authority,
        }
    }

    /// Checks this authorization against an account owner.
    pub fn permits(&self, authority: &Address) -> (r: bool)
        ensures
            r == self.authorizes(*authority),
    {
        match self {
            Authorization::Signer(k) => *authority == Address::Key(*k),
            Authorization::Derived(p) => p.authority() == *authority,
        }
    }
}

} // verus!
