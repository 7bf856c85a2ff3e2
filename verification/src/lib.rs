//! Custodial fund management over an address-addressable ledger: a two-party
//! conditional token-swap escrow and a per-user native-value vault.
//!
//! Every piece of state lives in an account keyed by an [`addr::Address`];
//! every mutation is authorized either by a signer or by a program-derived
//! authority reconstructed from deterministic address derivation. The ledger
//! itself is an explicit store ([`ledger::Ledger`]) with atomic operations:
//! each public operation either applies all of its account mutations or,
//! on any precondition failure, none of them.

pub mod addr;
pub mod escrow;
pub mod ledger;
pub mod state;
pub mod vault;
