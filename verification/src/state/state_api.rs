//! The backing store: the one interface that a persistence layer implements.

use vstd::prelude::*;
use crate::collections::Key;
use crate::execution::contract_class::{ContractClass, ContractClassView};
use crate::felt::Felt;
use crate::types::{ClassHash, ContractAddress, Nonce, StorageEntry, StorageKey};

verus! {

/// A place in the state that holds one field element.
#[derive(Clone, Copy, Debug, PartialEq, Eq, Structural, Hash)]
pub enum StateKey {
    /// A storage cell.
    Storage(StorageEntry),
    /// The nonce of an address.
    Nonce(ContractAddress),
    /// The class hash that an address is bound to.
    ClassHash(ContractAddress),
}

impl Key for StateKey {
    fn same(&self, other: &Self) -> (b: bool) {
        *self == *other
    }
}

/// A read-only source of committed state. Every read has a value: where nothing was
/// committed it is the store's default. Only a class may be missing.
pub trait StateReader {
    /// The committed value of a storage cell.
    spec fn storage(&self, entry: StorageEntry) -> Felt;

    /// The committed nonce of an address.
    spec fn nonce(&self, address: ContractAddress) -> Nonce;

    /// The class hash that an address is committed to.
    spec fn class_hash(&self, address: ContractAddress) -> ClassHash;

    /// The class committed under a hash, if any.
    spec fn class(&self, class_hash: ClassHash) -> Option<ContractClassView>;

    fn get_storage_at(&self, address: ContractAddress, key: StorageKey) -> (r: Felt)
        ensures
            r == self.storage((StorageEntry { address, key })),
    ;

    fn get_nonce_at(&self, address: ContractAddress) -> (r: Nonce)
        ensures
            r == self.nonce(address),
    ;

    fn get_class_hash_at(&self, address: ContractAddress) -> (r: ClassHash)
        ensures
            r == self.class_hash(address),
    ;

    fn get_compiled_contract_class(&self, class_hash: ClassHash) -> (r: Option<ContractClass>)
        ensures
            match r {
                Some(c) => self.class(class_hash) == Some(c@),
                None => self.class(class_hash) is None,
            },
    ;
}

/// The committed value at a place of the state.
pub open spec fn backing_value<S: StateReader>(store: &S, key: StateKey) -> Felt {
    match key {
        StateKey::Storage(entry) => store.storage(entry),
        StateKey::Nonce(address) => store.nonce(address).0,
        StateKey::ClassHash(address) => store.class_hash(address).0,
    }
}

/// Reads one place of the state from the store.
pub fn read_backing<S: StateReader>(store: &S, key: StateKey) -> (r: Felt)
    ensures
        r == backing_value(store, key),
{
    match key {
        StateKey::Storage(entry) => store.get_storage_at(entry.address, entry.key),
        StateKey::Nonce(address) => store.get_nonce_at(address).0,
        StateKey::ClassHash(address) => store.get_class_hash_at(address).0,
    }
}

} // verus!
