//! A backing store held in memory.

use vstd::prelude::*;
use crate::collections::KeyedMap;
use crate::execution::contract_class::{ContractClass, ContractClassView};
use crate::felt::Felt;
use crate::state::cached_state::CachedStateView;
use crate::state::state_api::{StateKey, StateReader};
use crate::types::{ClassHash, ContractAddress, Nonce, StorageEntry, StorageKey};

verus! {

/// A backing store made of four maps. What a map does not hold has the default
/// value: zero for storage, nonces and class hashes.
pub struct DictStateReader {
    pub storage_view: KeyedMap<StorageEntry, Felt>,
    pub address_to_nonce: KeyedMap<ContractAddress, Nonce>,
    pub address_to_class_hash: KeyedMap<ContractAddress, ClassHash>,
    pub class_hash_to_class: KeyedMap<ClassHash, ContractClass>,
}

impl DictStateReader {
    /// A store that holds nothing.
    pub fn new() -> (r: Self)
        ensures
            r.storage_view@ == Map::<StorageEntry, Felt>::empty(),
            r.address_to_nonce@ == Map::<ContractAddress, Nonce>::empty(),
            r.address_to_class_hash@ == Map::<ContractAddress, ClassHash>::empty(),
            r.class_hash_to_class@ == Map::<ClassHash, ContractClass>::empty(),
    {
        DictStateReader {
            storage_view: KeyedMap::new(),
            address_to_nonce: KeyedMap::new(),
            address_to_class_hash: KeyedMap::new(),
            class_hash_to_class: KeyedMap::new(),
        }
    }
}

impl StateReader for DictStateReader {
    open spec fn storage(&self, entry: StorageEntry) -> Felt {
        if self.storage_view@.contains_key(entry) {
            self.storage_view@[entry]
        } else {
            Felt::spec_zero()
        }
    }

    open spec fn nonce(&self, address: ContractAddress) -> Nonce {
        if self.address_to_nonce@.contains_key(address) {
            self.address_to_nonce@[address]
        } else {
            Nonce::spec_initial()
        }
    }

    open spec fn class_hash(&self, address: ContractAddress) -> ClassHash {
        if self.address_to_class_hash@.contains_key(address) {
            self.address_to_class_hash@[address]
        } else {
            ClassHash::spec_uninitialized()
        }
    }

    open spec fn class(&self, class_hash: ClassHash) -> Option<ContractClassView> {
        if self.class_hash_to_class@.contains_key(class_hash) {
            Some(self.class_hash_to_class@[class_hash]@)
        } else {
            None
        }
    }

    fn get_storage_at(&self, address: ContractAddress, key: StorageKey) -> (r: Felt) {
        match self.storage_view.get(&StorageEntry { address, key }) {
            Some(v) => *v,
            None => Felt::zero(),
        }
    }

    fn get_nonce_at(&self, address: ContractAddress) -> (r: Nonce) {
        match self.address_to_nonce.get(&address) {
            Some(v) => *v,
            None => Nonce::initial(),
        }
    }

    fn get_class_hash_at(&self, address: ContractAddress) -> (r: ClassHash) {
        match self.address_to_class_hash.get(&address) {
            Some(v) => *v,
            None => ClassHash::uninitialized(),
        }
    }

    fn get_compiled_contract_class(&self, class_hash: ClassHash) -> (r: Option<ContractClass>) {
        match self.class_hash_to_class.get(&class_hash) {
            Some(c) => Some(c.duplicate()),
            None => None,
        }
    }
}

/// A place that no frame has written and that the store does not hold reads as
/// the default: zero for a storage cell and for a nonce, no class for an address.
pub proof fn lemma_uninitialized_reads_default(
    cache: CachedStateView<DictStateReader>,
    address: ContractAddress,
    key: StorageKey,
)
    requires
        !cache.diff().contains_key(StateKey::Storage(StorageEntry { address, key })),
        !cache.diff().contains_key(StateKey::Nonce(address)),
        !cache.diff().contains_key(StateKey::ClassHash(address)),
        !cache.backing.storage_view@.contains_key(StorageEntry { address, key }),
        !cache.backing.address_to_nonce@.contains_key(address),
        !cache.backing.address_to_class_hash@.contains_key(address),
    ensures
        cache.storage_at(address, key) == Felt::spec_zero(),
        cache.storage_at(address, key).value() == 0,
        cache.nonce_at(address) == Nonce::spec_initial(),
        cache.nonce_at(address).0.value() == 0,
        cache.class_hash_at(address) == ClassHash::spec_uninitialized(),
        cache.with_read(StateKey::Storage(StorageEntry { address, key })).storage_at(address, key)
            == Felt::spec_zero(),
{
    Felt::lemma_spec_zero(Felt::spec_zero());
}

} // verus!
