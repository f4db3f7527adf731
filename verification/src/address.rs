//! Ledger addresses as plain values: an account's Ed25519 key or a contract's
//! hash, 32 bytes each.

use vstd::prelude::*;

use crate::bytes::bytes_equal;

verus! {

/// What an address names.
#[derive(Clone, Copy, Debug, PartialEq, Eq, Structural)]
pub enum AddressKind {
    /// A Stellar account, named by its Ed25519 public key.
    Account,
    /// A contract, named by its 32-byte hash.
    Contract,
}

/// A ledger address.
#[derive(Clone, Copy, Debug)]
pub struct Address {
    pub kind: AddressKind,
    pub id: [u8; 32],
}

impl Address {
    /// The address of the account with public key `id`.
    pub fn account(id: [u8; 32]) -> (a: Address)
        ensures
            a.kind == AddressKind::Account,
            a.id == id,
    {
        Address { kind: AddressKind::Account, id }
    }

    /// The address of the contract with hash `id`.
    pub fn contract(id: [u8; 32]) -> (a: Address)
        ensures
            a.kind == AddressKind::Contract,
            a.id == id,
    {
        Address { kind: AddressKind::Contract, id }
    }

    /// Whether two addresses are the same.
    pub fn same(&self, other: &Address) -> (same: bool)
        ensures
            same == (*self == *other),
    {
        if self.kind != other.kind {
            return false;
        }
        let equal = bytes_equal(self.id.as_slice(), other.id.as_slice());
        if equal {
            assert(self.id =~= other.id);
        }
        equal
    }
}

} // verus!
