//! Identifiers of the state: addresses, storage keys, class hashes, nonces, selectors.

use vstd::prelude::*;
use crate::collections::Key;
use crate::felt::{pow2_251, Felt};

verus! {

impl Key for Felt {
    fn same(&self, other: &Self) -> (b: bool) {
        *self == *other
    }
}

/// A field element below 2^251: the range of contract addresses and storage keys.
#[derive(Clone, Copy, Debug, PartialEq, Eq, Structural, Hash)]
pub struct PatriciaKey {
    key: Felt,
}

impl PatriciaKey {
    #[verifier::type_invariant]
    spec fn in_range(self) -> bool {
        self.key.value() < pow2_251()
    }

    /// The field element that is the key.
    pub closed spec fn felt(self) -> Felt {
        self.key
    }

    /// The key that is the field element `f`, for `f` below 2^251.
    pub closed spec fn spec_from_felt(f: Felt) -> PatriciaKey {
        PatriciaKey { key: f }
    }

    /// `spec_from_felt` and `felt` undo each other.
    pub broadcast proof fn lemma_spec_from_felt(f: Felt)
        ensures
            #[trigger] PatriciaKey::spec_from_felt(f).felt() == f,
    {
    }

    /// Whether a value of this type is below the bound; every executable value is.
    pub open spec fn is_valid(self) -> bool {
        self.felt().value() < pow2_251()
    }

    /// Two keys with the same element are the same key.
    pub broadcast proof fn lemma_felt_injective(a: PatriciaKey, b: PatriciaKey)
        ensures
            #[trigger] a.felt() == #[trigger] b.felt() ==> a == b,
    {
    }

    /// The key that is `f`, where `f` is below 2^251.
    pub fn try_from_felt(f: Felt) -> (r: Option<PatriciaKey>)
        ensures
            r is Some <==> f.value() < pow2_251(),
            r matches Some(k) ==> k.felt() == f && k == PatriciaKey::spec_from_felt(f),
    {
        if f.is_below_key_bound() {
            Some(PatriciaKey { key: f })
        } else {
            None
        }
    }

    pub fn from_u128(x: u128) -> (r: PatriciaKey)
        ensures
            r.felt().value() == x,
            r == PatriciaKey::spec_from_felt(Felt::spec_from_value(x as nat)),
    {
        PatriciaKey { key: Felt::from_u128(x) }
    }

    pub fn key(&self) -> (f: Felt)
        ensures
            f == self.felt(),
            f.value() < pow2_251(),
    {
        proof {
            use_type_invariant(self);
        }
        self.key
    }

    /// The key that follows this one, unless that leaves the range.
    pub fn next(&self) -> (r: Option<PatriciaKey>)
        ensures
            r is Some <==> self.felt().value() + 1 < pow2_251(),
            r matches Some(k) ==> k.felt().value() == self.felt().value() + 1 && k
                == PatriciaKey::spec_from_felt(Felt::spec_from_value(self.felt().value() + 1)),
    {
        proof {
            use_type_invariant(self);
        }
        match self.key.checked_increment() {
            Some(f) => {
                proof {
                    Felt::lemma_spec_from_value(f);
                }
                PatriciaKey::try_from_felt(f)
            },
            None => None,
        }
    }
}

/// The address of a deployed contract instance.
#[derive(Clone, Copy, Debug, PartialEq, Eq, Structural, Hash)]
pub struct ContractAddress(pub PatriciaKey);

/// The key of a storage cell within one contract.
#[derive(Clone, Copy, Debug, PartialEq, Eq, Structural, Hash)]
pub struct StorageKey(pub PatriciaKey);

/// The identifier of a declared contract class.
#[derive(Clone, Copy, Debug, PartialEq, Eq, Structural, Hash)]
pub struct ClassHash(pub Felt);

/// A per-address counter.
#[derive(Clone, Copy, Debug, PartialEq, Eq, Structural, Hash)]
pub struct Nonce(pub Felt);

/// The selector that names an entry point within a class.
#[derive(Clone, Copy, Debug, PartialEq, Eq, Structural, Hash)]
pub struct EntryPointSelector(pub Felt);

/// The kind of an entry point.
#[derive(Clone, Copy, Debug, PartialEq, Eq, Structural, Hash)]
pub enum EntryPointType {
    Constructor,
    External,
    L1Handler,
}

/// One storage cell: a contract and a key within it.
#[derive(Clone, Copy, Debug, PartialEq, Eq, Structural, Hash)]
pub struct StorageEntry {
    pub address: ContractAddress,
    pub key: StorageKey,
}

impl Key for ContractAddress {
    fn same(&self, other: &Self) -> (b: bool) {
        *self == *other
    }
}

impl Key for ClassHash {
    fn same(&self, other: &Self) -> (b: bool) {
        *self == *other
    }
}

impl Key for StorageEntry {
    fn same(&self, other: &Self) -> (b: bool) {
        *self == *other
    }
}

impl ContractAddress {
    /// The address that is `f`, where `f` is below 2^251.
    pub fn try_from_felt(f: Felt) -> (r: Option<ContractAddress>)
        ensures
            r is Some <==> f.value() < pow2_251(),
            r matches Some(a) ==> a.0.felt() == f && a == ContractAddress(
                PatriciaKey::spec_from_felt(f),
            ),
    {
        match PatriciaKey::try_from_felt(f) {
            Some(k) => Some(ContractAddress(k)),
            None => None,
        }
    }

    /// The address with the value `x`.
    pub open spec fn spec_from_u128(x: u128) -> ContractAddress {
        ContractAddress(PatriciaKey::spec_from_felt(Felt::spec_from_value(x as nat)))
    }

    pub fn from_u128(x: u128) -> (r: ContractAddress)
        ensures
            r.0.felt().value() == x,
            r == ContractAddress::spec_from_u128(x),
    {
        ContractAddress(PatriciaKey::from_u128(x))
    }

    /// The zero address, which no contract is deployed at.
    pub open spec fn spec_zero() -> ContractAddress {
        ContractAddress(PatriciaKey::spec_from_felt(Felt::spec_zero()))
    }

    /// The zero address, which no contract is deployed at.
    pub fn zero() -> (r: ContractAddress)
        ensures
            r.0.felt() == Felt::spec_zero(),
            r == ContractAddress::spec_zero(),
    {
        broadcast use Felt::lemma_spec_zero;

        ContractAddress(PatriciaKey::from_u128(0))
    }
}

impl ClassHash {
    /// The hash that stands for "no class": the value of an address nothing is bound to.
    pub open spec fn spec_uninitialized() -> ClassHash {
        ClassHash(Felt::spec_zero())
    }

    pub fn uninitialized() -> (r: ClassHash)
        ensures
            r == ClassHash::spec_uninitialized(),
    {
        ClassHash(Felt::zero())
    }

    pub fn is_uninitialized(&self) -> (b: bool)
        ensures
            b == (*self == ClassHash::spec_uninitialized()),
    {
        self.0.is_zero()
    }
}

impl Nonce {
    /// The nonce of an address that never had one written.
    pub open spec fn spec_initial() -> Nonce {
        Nonce(Felt::spec_zero())
    }

    pub fn initial() -> (r: Nonce)
        ensures
            r == Nonce::spec_initial(),
    {
        Nonce(Felt::zero())
    }

    /// The next nonce, unless the counter has reached the end of the field.
    pub fn try_increment(&self) -> (r: Option<Nonce>)
        ensures
            match r {
                Some(n) => n.0.value() == self.0.value() + 1 && n.0.is_canonical(),
                None => self.0.value() + 1 == crate::felt::prime(),
            },
    {
        match self.0.checked_increment() {
            Some(f) => Some(Nonce(f)),
            None => None,
        }
    }
}

} // verus!
