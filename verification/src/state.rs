//! Persistent record types and the error kinds shared by both cores.

use vstd::prelude::*;

verus! {

/// One pending conditional swap: the maker has deposited `mint_a` tokens into
/// the paired escrow vault and demands `receive` units of `mint_b` in return.
/// Fields are fixed at creation and immutable for the record's whole life.
#[derive(Clone, Copy, Debug, PartialEq, Eq, Structural)]
pub struct Escrow {
    /// Caller-chosen disambiguator; part of the record's address derivation,
    /// so one maker can run several concurrent escrows.
    pub seed: u64,
    /// Owner of the escrow: beneficiary of the deposit on refund and of the
    /// counter-asset on completion.
    pub maker: u64,
    /// Asset deposited into the escrow vault.
    pub mint_a: u64,
    /// Asset the maker demands in exchange.
    pub mint_b: u64,
    /// Quantity of `mint_b` owed to the maker on completion.
    pub receive: u64,
    /// Derivation discriminant of this record's address; needed to
    /// reconstruct signing authority over the paired vault.
    pub bump: u8,
}

/// Per-user record pairing a native-value vault with its owner. Created by
/// `initialize`, immutable thereafter, destroyed by `close_vault`.
#[derive(Clone, Copy, Debug, PartialEq, Eq, Structural)]
pub struct VaultState {
    /// Derivation discriminant of the paired native vault's address.
    pub vault_bump: u8,
    /// Derivation discriminant of this record's own address.
    pub state_bump: u8,
}

/// Every way an operation can be rejected. All errors are fatal to the
/// enclosing request: a rejected operation leaves the ledger unchanged.
#[derive(Clone, Copy, Debug, PartialEq, Eq, Structural)]
pub enum VaultError {
    /// An amount of zero was supplied where a positive amount is required.
    InvalidAmount,
    /// The signer or derived-authority proof does not match the account's
    /// owner, or a supplied bump does not match the derivation.
    Unauthorized,
    /// A transfer's source holds less than the requested amount.
    InsufficientFunds,
    /// Creation targets an address that is already live.
    AlreadyExists,
    /// An operation references an account that does not exist.
    NotFound,
    /// An account exists but has the wrong shape for the operation: wrong
    /// kind, wrong mint, mismatched precision, or source equal to destination.
    InvalidState,
}

} // verus!
