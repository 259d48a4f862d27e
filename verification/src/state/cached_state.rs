//! The staged state cache: a transaction-scoped overlay of reads and writes over
//! the backing store. Writes are kept in layers, one per open call frame, so that
//! the writes of a failed call can be dropped without touching what came before.

use vstd::prelude::*;
use crate::abi_utils::{
    get_fee_token_var_address, spec_fee_token_var_address, spec_fee_token_var_address_high,
};
use crate::collections::{flatten, KeyedMap, Layered};
use crate::execution::contract_class::{ContractClass, ContractClassView};
use crate::felt::Felt;
use crate::state::errors::StateError;
use crate::state::state_api::{backing_value, read_backing, StateKey, StateReader};
use crate::types::{ClassHash, ContractAddress, Nonce, StorageEntry, StorageKey};

verus! {

/// What a staged state cache holds.
pub struct CachedStateView<S> {
    /// The backing store. The cache never changes it.
    pub backing: S,
    /// The staged writes, one layer per open frame, the outermost first.
    pub writes: Seq<Map<StateKey, Felt>>,
    /// The values read from the backing store so far. Never part of the writes.
    pub reads: Map<StateKey, Felt>,
    /// The classes declared in this cache.
    pub declared: Map<ClassHash, ContractClassView>,
    /// The classes read from the backing store so far.
    pub class_reads: Map<ClassHash, ContractClassView>,
    /// The execution-location markers gathered per class.
    pub visited_pcs: Map<ClassHash, Set<usize>>,
}

impl<S: StateReader> CachedStateView<S> {
    /// The staged diff: what all layers together have written.
    pub open spec fn diff(self) -> Map<StateKey, Felt> {
        flatten(self.writes)
    }

    /// The value that a read of `key` gives: the last one written, else the committed one.
    pub open spec fn value_at(self, key: StateKey) -> Felt {
        if self.diff().contains_key(key) {
            self.diff()[key]
        } else {
            backing_value(&self.backing, key)
        }
    }

    pub open spec fn storage_at(self, address: ContractAddress, key: StorageKey) -> Felt {
        self.value_at(StateKey::Storage(StorageEntry { address, key }))
    }

    pub open spec fn nonce_at(self, address: ContractAddress) -> Nonce {
        Nonce(self.value_at(StateKey::Nonce(address)))
    }

    pub open spec fn class_hash_at(self, address: ContractAddress) -> ClassHash {
        ClassHash(self.value_at(StateKey::ClassHash(address)))
    }

    /// The class that `class_hash` names: one declared here, else a committed one.
    pub open spec fn class_of(self, class_hash: ClassHash) -> Option<ContractClassView> {
        if self.declared.contains_key(class_hash) {
            Some(self.declared[class_hash])
        } else {
            self.backing.class(class_hash)
        }
    }

    /// The markers gathered for a class so far.
    pub open spec fn visited(self, class_hash: ClassHash) -> Set<usize> {
        if self.visited_pcs.contains_key(class_hash) {
            self.visited_pcs[class_hash]
        } else {
            Set::empty()
        }
    }

    /// The number of open frames over the outermost one.
    pub open spec fn open_frames(self) -> nat {
        (self.writes.len() - 1) as nat
    }

    /// The cache after a write of `value` to `key` in the innermost open frame.
    pub open spec fn with_write(self, key: StateKey, value: Felt) -> Self {
        CachedStateView {
            writes: self.writes.update(self.writes.len() - 1, self.writes.last().insert(key, value)),
            ..self
        }
    }

    /// The cache after the declaration of `class` under `class_hash`.
    pub open spec fn with_declared(self, class_hash: ClassHash, class: ContractClassView) -> Self {
        CachedStateView { declared: self.declared.insert(class_hash, class), ..self }
    }

    /// The cache after a read of the class under `class_hash`: a class that came
    /// from the backing store is remembered.
    pub open spec fn with_class_read(self, class_hash: ClassHash) -> Self {
        if !self.declared.contains_key(class_hash) && self.backing.class(class_hash) is Some {
            CachedStateView {
                class_reads: self.class_reads.insert(
                    class_hash,
                    self.backing.class(class_hash)->Some_0,
                ),
                ..self
            }
        } else {
            self
        }
    }

    /// The cache after `markers` were gathered for `class_hash`.
    pub open spec fn with_visited(self, class_hash: ClassHash, markers: Set<usize>) -> Self {
        CachedStateView {
            visited_pcs: self.visited_pcs.insert(class_hash, self.visited(class_hash).union(markers)),
            ..self
        }
    }

    /// The cache after a frame was opened.
    pub open spec fn with_frame(self) -> Self {
        CachedStateView { writes: self.writes.push(Map::empty()), ..self }
    }

    /// The cache after the innermost open frame was folded into the one around it.
    pub open spec fn with_commit(self) -> Self {
        if self.writes.len() >= 2 {
            CachedStateView {
                writes: self.writes.drop_last().drop_last().push(
                    self.writes[self.writes.len() - 2].union_prefer_right(self.writes.last()),
                ),
                ..self
            }
        } else {
            self
        }
    }

    /// The cache after the innermost open frame was thrown away.
    pub open spec fn with_rollback(self) -> Self {
        if self.writes.len() >= 2 {
            CachedStateView { writes: self.writes.drop_last(), ..self }
        } else {
            self
        }
    }

    /// The cache after a read of `key`: a value that came from the backing store is
    /// remembered, and the writes stay as they are.
    pub open spec fn with_read(self, key: StateKey) -> Self {
        if self.diff().contains_key(key) {
            self
        } else {
            CachedStateView { reads: self.reads.insert(key, backing_value(&self.backing, key)), ..self }
        }
    }
}

/// The classes of a map, each by what it holds.
pub open spec fn class_views(m: Map<ClassHash, ContractClass>) -> Map<ClassHash, ContractClassView> {
    m.map_values(|c: ContractClass| c@)
}

/// The marker lists of a map, each as a set.
pub open spec fn marker_sets(m: Map<ClassHash, Vec<usize>>) -> Map<ClassHash, Set<usize>> {
    m.map_values(|v: Vec<usize>| v@.to_set())
}

/// A staged state cache over a backing store `S`.
pub struct CachedState<S: StateReader> {
    state: S,
    reads: KeyedMap<StateKey, Felt>,
    writes: Layered<StateKey, Felt>,
    declared: KeyedMap<ClassHash, ContractClass>,
    class_reads: KeyedMap<ClassHash, ContractClass>,
    visited_pcs: KeyedMap<ClassHash, Vec<usize>>,
}

impl<S: StateReader> View for CachedState<S> {
    type V = CachedStateView<S>;

    closed spec fn view(&self) -> CachedStateView<S> {
        CachedStateView {
            backing: self.state,
            writes: self.writes.layers(),
            reads: self.reads@,
            declared: class_views(self.declared@),
            class_reads: class_views(self.class_reads@),
            visited_pcs: marker_sets(self.visited_pcs@),
        }
    }
}

impl<S: StateReader> CachedState<S> {
    #[verifier::type_invariant]
    spec fn reads_are_committed_values(self) -> bool {
        &&& forall|key: StateKey| #[trigger]
            self.reads@.contains_key(key) ==> self.reads@[key] == backing_value(&self.state, key)
        &&& forall|h: ClassHash| #[trigger]
            self.class_reads@.contains_key(h) ==> self.state.class(h) == Some(
                self.class_reads@[h]@,
            )
    }

    /// A cache over `state` with nothing read and nothing written.
    pub fn new(state: S) -> (r: Self)
        ensures
            r@.backing == state,
            r@.writes == seq![Map::<StateKey, Felt>::empty()],
            r@.diff() == Map::<StateKey, Felt>::empty(),
            r@.reads == Map::<StateKey, Felt>::empty(),
            r@.declared == Map::<ClassHash, ContractClassView>::empty(),
            r@.class_reads == Map::<ClassHash, ContractClassView>::empty(),
            r@.visited_pcs == Map::<ClassHash, Set<usize>>::empty(),
    {
        let r = CachedState {
            state,
            reads: KeyedMap::new(),
            writes: Layered::new(),
            declared: KeyedMap::new(),
            class_reads: KeyedMap::new(),
            visited_pcs: KeyedMap::new(),
        };
        proof {
            crate::collections::lemma_flatten_single(r@.writes);
            assert(r@.declared =~= Map::<ClassHash, ContractClassView>::empty());
            assert(r@.class_reads =~= Map::<ClassHash, ContractClassView>::empty());
            assert(r@.visited_pcs =~= Map::<ClassHash, Set<usize>>::empty());
        }
        r
    }

    /// The backing store.
    pub fn backing(&self) -> (s: &S)
        ensures
            *s == self@.backing,
    {
        &self.state
    }

    /// There is always an outermost layer of writes.
    pub proof fn lemma_has_base_layer(&self)
        ensures
            self@.writes.len() >= 1,
    {
        self.writes.lemma_layers_nonempty();
    }

    /// Reads one place of the state: the staged writes first, then the values read
    /// before, then the backing store, whose answer is remembered.
    pub fn read(&mut self, key: StateKey) -> (r: Felt)
        ensures
            r == old(self)@.value_at(key),
            final(self)@ == old(self)@.with_read(key),
    {
        proof {
            use_type_invariant(&*self);
        }
        match self.writes.get(&key) {
            Some(v) => {
                return *v;
            },
            None => {},
        }
        match self.reads.get(&key) {
            Some(v) => {
                let r = *v;
                proof {
                    assert(self.reads@.insert(key, r) =~= self.reads@);
                }
                return r;
            },
            None => {},
        }
        let r = read_backing(&self.state, key);
        let mut reads: KeyedMap<StateKey, Felt> = KeyedMap::new();
        core::mem::swap(&mut self.reads, &mut reads);
        reads.insert(key, r);
        core::mem::swap(&mut self.reads, &mut reads);
        r
    }

    /// Writes one place of the state, in the innermost open frame.
    pub(crate) fn write(&mut self, key: StateKey, value: Felt)
        ensures
            final(self)@ == old(self)@.with_write(key, value),
            final(self)@.value_at(key) == value,
            forall|other: StateKey|
                other != key ==> final(self)@.value_at(other) == old(self)@.value_at(other),
    {
        proof {
            use_type_invariant(&*self);
        }
        let mut writes: Layered<StateKey, Felt> = Layered::new();
        core::mem::swap(&mut self.writes, &mut writes);
        writes.insert(key, value);
        core::mem::swap(&mut self.writes, &mut writes);
    }

    pub fn read_storage(&mut self, address: ContractAddress, key: StorageKey) -> (r: Felt)
        ensures
            r == old(self)@.storage_at(address, key),
            final(self)@ == old(self)@.with_read(
                StateKey::Storage((StorageEntry { address, key })),
            ),
    {
        self.read(StateKey::Storage(StorageEntry { address, key }))
    }

    pub fn read_nonce(&mut self, address: ContractAddress) -> (r: Nonce)
        ensures
            r == old(self)@.nonce_at(address),
            final(self)@ == old(self)@.with_read(StateKey::Nonce(address)),
    {
        Nonce(self.read(StateKey::Nonce(address)))
    }

    pub fn read_class_hash(&mut self, address: ContractAddress) -> (r: ClassHash)
        ensures
            r == old(self)@.class_hash_at(address),
            final(self)@ == old(self)@.with_read(StateKey::ClassHash(address)),
    {
        ClassHash(self.read(StateKey::ClassHash(address)))
    }

    pub fn write_storage(&mut self, address: ContractAddress, key: StorageKey, value: Felt)
        ensures
            final(self)@ == old(self)@.with_write(
                StateKey::Storage((StorageEntry { address, key })),
                value,
            ),
            final(self)@.storage_at(address, key) == value,
    {
        self.write(StateKey::Storage(StorageEntry { address, key }), value)
    }

    /// Sets the nonce of `address`. A nonce never goes down: a value below the
    /// one that the address has is refused with `NonceDecrease`, and nothing is
    /// written.
    pub fn write_nonce(&mut self, address: ContractAddress, nonce: Nonce) -> (r: Result<
        (),
        StateError,
    >)
        ensures
            match r {
                Ok(_) => {
                    &&& nonce.0.value() >= old(self)@.nonce_at(address).0.value()
                    &&& final(self)@ == old(self)@.with_read(StateKey::Nonce(address)).with_write(
                        StateKey::Nonce(address),
                        nonce.0,
                    )
                    &&& final(self)@.nonce_at(address) == nonce
                },
                Err(e) => {
                    &&& e == StateError::NonceDecrease
                    &&& nonce.0.value() < old(self)@.nonce_at(address).0.value()
                    &&& final(self)@ == old(self)@.with_read(StateKey::Nonce(address))
                },
            },
    {
        let current = self.read_nonce(address);
        if nonce.0.lt(&current.0) {
            return Err(StateError::NonceDecrease);
        }
        self.write(StateKey::Nonce(address), nonce.0);
        Ok(())
    }

    /// Advances the nonce of `address` by one. At the end of the field the nonce
    /// stays, and the error is `OutOfRange`.
    pub fn increment_nonce(&mut self, address: ContractAddress) -> (r: Result<(), StateError>)
        ensures
            match r {
                Ok(_) => {
                    &&& final(self)@.nonce_at(address).0.value() == old(self)@.nonce_at(
                        address,
                    ).0.value() + 1
                    &&& final(self)@ == old(self)@.with_read(StateKey::Nonce(address)).with_write(
                        StateKey::Nonce(address),
                        final(self)@.nonce_at(address).0,
                    )
                },
                Err(e) => {
                    &&& e == StateError::OutOfRange
                    &&& old(self)@.nonce_at(address).0.value() + 1 == crate::felt::prime()
                    &&& final(self)@ == old(self)@.with_read(StateKey::Nonce(address))
                },
            },
    {
        let current = self.read_nonce(address);
        match current.try_increment() {
            Some(next) => {
                self.write(StateKey::Nonce(address), next.0);
                Ok(())
            },
            None => Err(StateError::OutOfRange),
        }
    }

    /// The balance that the token contract `token` keeps for `account`: the lower
    /// and the upper half, read from two storage cells that follow each other.
    pub fn read_balance(&mut self, account: ContractAddress, token: ContractAddress) -> (r: (
        Felt,
        Felt,
    ))
        ensures
            r.0 == old(self)@.storage_at(token, spec_fee_token_var_address(account)),
            r.1 == old(self)@.storage_at(token, spec_fee_token_var_address_high(account)),
            final(self)@ == old(self)@.with_read(
                StateKey::Storage(
                    (StorageEntry { address: token, key: spec_fee_token_var_address(account) }),
                ),
            ).with_read(
                StateKey::Storage(
                    (StorageEntry {
                        address: token,
                        key: spec_fee_token_var_address_high(account),
                    }),
                ),
            ),
    {
        let low_key = get_fee_token_var_address(account);
        let low = self.read_storage(token, low_key);
        match low_key.0.next() {
            Some(k) => {
                let high = self.read_storage(token, StorageKey(k));
                (low, high)
            },
            None => {
                let high = self.read_storage(token, low_key);
                (low, high)
            },
        }
    }

    /// Binds `address` to `class_hash`, replacing an earlier binding.
    pub fn bind_address(&mut self, address: ContractAddress, class_hash: ClassHash)
        ensures
            final(self)@ == old(self)@.with_write(StateKey::ClassHash(address), class_hash.0),
            final(self)@.class_hash_at(address) == class_hash,
    {
        self.write(StateKey::ClassHash(address), class_hash.0)
    }

    /// The class that `class_hash` names: one declared here, else one that the
    /// backing store has, which is then remembered. Without either the error is
    /// `ClassNotDeclared`.
    pub fn read_class(&mut self, class_hash: ClassHash) -> (r: Result<ContractClass, StateError>)
        ensures
            match r {
                Ok(c) => old(self)@.class_of(class_hash) == Some(c@),
                Err(e) => old(self)@.class_of(class_hash) is None && e
                    == StateError::ClassNotDeclared(class_hash),
            },
            final(self)@ == old(self)@.with_class_read(class_hash),
    {
        proof {
            use_type_invariant(&*self);
        }
        match self.declared.get(&class_hash) {
            Some(c) => {
                return Ok(c.duplicate());
            },
            None => {},
        }
        match self.class_reads.get(&class_hash) {
            Some(c) => {
                let r = c.duplicate();
                proof {
                    assert(self@.class_reads.insert(class_hash, r@) =~= self@.class_reads);
                }
                return Ok(r);
            },
            None => {},
        }
        match self.state.get_compiled_contract_class(class_hash) {
            Some(c) => {
                let r = c.duplicate();
                let ghost before = self.class_reads@;
                let mut class_reads: KeyedMap<ClassHash, ContractClass> = KeyedMap::new();
                core::mem::swap(&mut self.class_reads, &mut class_reads);
                class_reads.insert(class_hash, c);
                core::mem::swap(&mut self.class_reads, &mut class_reads);
                proof {
                    assert(class_views(before.insert(class_hash, c)) =~= class_views(
                        before,
                    ).insert(class_hash, c@));
                }
                Ok(r)
            },
            None => Err(StateError::ClassNotDeclared(class_hash)),
        }
    }

    /// Declares `class` under `class_hash`. A hash that already names a class, here
    /// or in the backing store, keeps it: the error is `ClassAlreadyDeclared`, and
    /// nothing changes.
    pub fn declare_class(&mut self, class_hash: ClassHash, class: ContractClass) -> (r: Result<
        (),
        StateError,
    >)
        ensures
            match r {
                Ok(_) => old(self)@.class_of(class_hash) is None && final(self)@ == old(
                    self,
                )@.with_declared(class_hash, class@),
                Err(e) => old(self)@.class_of(class_hash) is Some && e
                    == StateError::ClassAlreadyDeclared(class_hash) && final(self)@ == old(self)@,
            },
    {
        proof {
            use_type_invariant(&*self);
        }
        if self.declared.contains_key(&class_hash) {
            return Err(StateError::ClassAlreadyDeclared(class_hash));
        }
        if self.state.get_compiled_contract_class(class_hash).is_some() {
            return Err(StateError::ClassAlreadyDeclared(class_hash));
        }
        let ghost before = self.declared@;
        let mut declared: KeyedMap<ClassHash, ContractClass> = KeyedMap::new();
        core::mem::swap(&mut self.declared, &mut declared);
        declared.insert(class_hash, class);
        core::mem::swap(&mut self.declared, &mut declared);
        proof {
            assert(class_views(before.insert(class_hash, class)) =~= class_views(before).insert(
                class_hash,
                class@,
            ));
        }
        Ok(())
    }

    /// Adds `markers` to what was gathered for `class_hash`. Nothing is ever removed.
    pub fn add_visited_pcs(&mut self, class_hash: ClassHash, markers: &Vec<usize>)
        ensures
            final(self)@ == old(self)@.with_visited(class_hash, markers@.to_set()),
    {
        proof {
            use_type_invariant(&*self);
        }
        let mut all: Vec<usize> = Vec::new();
        match self.visited_pcs.get(&class_hash) {
            Some(known) => {
                let mut i: usize = 0;
                while i < known.len()
                    invariant
                        i <= known@.len(),
                        all@ == known@.take(i as int),
                    decreases known@.len() - i,
                {
                    all.push(known[i]);
                    proof {
                        assert(known@.take(i as int).push(known@[i as int]) =~= known@.take(i + 1));
                    }
                    i += 1;
                }
                proof {
                    assert(known@.take(known@.len() as int) =~= known@);
                }
            },
            None => {},
        }
        let ghost known_part = all@;
        let mut j: usize = 0;
        while j < markers.len()
            invariant
                j <= markers@.len(),
                all@ == known_part + markers@.take(j as int),
            decreases markers@.len() - j,
        {
            all.push(markers[j]);
            proof {
                assert(markers@.take(j as int).push(markers@[j as int]) =~= markers@.take(j + 1));
            }
            j += 1;
        }
        proof {
            assert(markers@.take(markers@.len() as int) =~= markers@);
            assert(all@.to_set() =~= known_part.to_set().union(markers@.to_set())) by {
                assert forall|x: usize| all@.to_set().contains(x) == (known_part.to_set().contains(
                    x,
                ) || markers@.to_set().contains(x)) by {
                    if all@.contains(x) {
                        let i = choose|i: int| 0 <= i < all@.len() && all@[i] == x;
                        if i < known_part.len() {
                            assert(known_part[i] == x);
                        } else {
                            assert(markers@[i - known_part.len()] == x);
                        }
                    }
                    if known_part.contains(x) {
                        let i = choose|i: int| 0 <= i < known_part.len() && known_part[i] == x;
                        assert(all@[i] == x);
                    }
                    if markers@.contains(x) {
                        let i = choose|i: int| 0 <= i < markers@.len() && markers@[i] == x;
                        assert(all@[known_part.len() + i] == x);
                    }
                }
            }
            assert(known_part.to_set() =~= self@.visited(class_hash)) by {
                if !self.visited_pcs@.contains_key(class_hash) {
                    assert(known_part =~= Seq::<usize>::empty());
                }
            }
        }
        let ghost before = self.visited_pcs@;
        let mut visited: KeyedMap<ClassHash, Vec<usize>> = KeyedMap::new();
        core::mem::swap(&mut self.visited_pcs, &mut visited);
        visited.insert(class_hash, all);
        core::mem::swap(&mut self.visited_pcs, &mut visited);
        proof {
            assert(marker_sets(before.insert(class_hash, all)) =~= marker_sets(before).insert(
                class_hash,
                all@.to_set(),
            ));
        }
    }

    /// Whether `marker` was gathered for `class_hash`.
    pub fn has_visited(&self, class_hash: ClassHash, marker: usize) -> (b: bool)
        ensures
            b == self@.visited(class_hash).contains(marker),
    {
        match self.visited_pcs.get(&class_hash) {
            Some(known) => {
                let mut i: usize = 0;
                while i < known.len()
                    invariant
                        i <= known@.len(),
                        self.visited_pcs@.contains_key(class_hash),
                        self.visited_pcs@[class_hash] == *known,
                        forall|j: int| 0 <= j < i ==> known@[j] != marker,
                    decreases known@.len() - i,
                {
                    if known[i] == marker {
                        proof {
                            assert(known@[i as int] == marker);
                            assert(known@.contains(marker));
                        }
                        return true;
                    }
                    i += 1;
                }
                false
            },
            None => false,
        }
    }

    /// The number of open frames over the outermost one.
    pub fn open_frames(&self) -> (n: usize)
        ensures
            n == self@.open_frames(),
    {
        self.writes.depth()
    }

    /// Opens a frame: the writes that follow can be thrown away together.
    pub fn begin_frame(&mut self)
        ensures
            final(self)@ == old(self)@.with_frame(),
            final(self)@.diff() == old(self)@.diff(),
    {
        proof {
            use_type_invariant(&*self);
        }
        let mut writes: Layered<StateKey, Felt> = Layered::new();
        core::mem::swap(&mut self.writes, &mut writes);
        writes.push_layer();
        core::mem::swap(&mut self.writes, &mut writes);
    }

    /// Closes the innermost open frame and keeps its writes. Without an open frame
    /// nothing changes, and the result is `false`.
    pub fn commit_frame(&mut self) -> (done: bool)
        ensures
            done == (old(self)@.open_frames() > 0),
            final(self)@ == old(self)@.with_commit(),
            final(self)@.diff() == old(self)@.diff(),
    {
        proof {
            use_type_invariant(&*self);
            self.writes.lemma_layers_nonempty();
        }
        let mut writes: Layered<StateKey, Felt> = Layered::new();
        core::mem::swap(&mut self.writes, &mut writes);
        let done = writes.commit_layer();
        core::mem::swap(&mut self.writes, &mut writes);
        done
    }

    /// Closes the innermost open frame and throws its writes away. Without an open
    /// frame nothing changes, and the result is `false`.
    pub fn rollback_frame(&mut self) -> (done: bool)
        ensures
            done == (old(self)@.open_frames() > 0),
            final(self)@ == old(self)@.with_rollback(),
    {
        proof {
            use_type_invariant(&*self);
            self.writes.lemma_layers_nonempty();
        }
        let mut writes: Layered<StateKey, Felt> = Layered::new();
        core::mem::swap(&mut self.writes, &mut writes);
        let done = writes.rollback_layer();
        core::mem::swap(&mut self.writes, &mut writes);
        done
    }

    /// The staged diff as one map: every place written, with its last value.
    pub fn state_diff(&self) -> (r: KeyedMap<StateKey, Felt>)
        ensures
            r@ == self@.diff(),
    {
        self.writes.flattened()
    }
}

/// Read-your-writes: after a write to a place, a read of that place gives the
/// value written, whatever was read in between.
pub proof fn lemma_read_your_writes<S: StateReader>(
    cache: CachedStateView<S>,
    address: ContractAddress,
    key: StorageKey,
    value: Felt,
    other: StateKey,
)
    requires
        cache.writes.len() >= 1,
    ensures
        cache.with_write(
            StateKey::Storage(StorageEntry { address, key }),
            value,
        ).storage_at(address, key) == value,
        cache.with_write(StateKey::Storage(StorageEntry { address, key }), value).with_read(
            other,
        ).storage_at(address, key) == value,
{
    crate::collections::lemma_flatten_insert_top(
        cache.writes,
        StateKey::Storage(StorageEntry { address, key }),
        value,
    );
}

/// A write to one place leaves the value of every other place as it was.
pub proof fn lemma_write_is_local<S: StateReader>(
    cache: CachedStateView<S>,
    key: StateKey,
    value: Felt,
    other: StateKey,
)
    requires
        cache.writes.len() >= 1,
        other != key,
    ensures
        cache.with_write(key, value).value_at(other) == cache.value_at(other),
{
    crate::collections::lemma_flatten_insert_top(cache.writes, key, value);
}

/// Declare round-trip: after a class is declared under a hash, that hash names
/// exactly that class.
pub proof fn lemma_declare_round_trip<S: StateReader>(
    cache: CachedStateView<S>,
    class_hash: ClassHash,
    class: ContractClassView,
)
    ensures
        cache.with_declared(class_hash, class).class_of(class_hash) == Some(class),
        cache.with_declared(class_hash, class).with_class_read(class_hash).class_of(class_hash)
            == Some(class),
{
}

/// A class that a hash names stays the class that it names: no read, no write, no
/// frame and no declaration under another hash changes it.
pub proof fn lemma_declared_class_is_immutable<S: StateReader>(
    cache: CachedStateView<S>,
    class_hash: ClassHash,
    other_hash: ClassHash,
    other_class: ContractClassView,
    key: StateKey,
    value: Felt,
)
    requires
        cache.class_of(class_hash) is Some,
        other_hash != class_hash,
    ensures
        cache.with_declared(other_hash, other_class).class_of(class_hash) == cache.class_of(
            class_hash,
        ),
        cache.with_write(key, value).class_of(class_hash) == cache.class_of(class_hash),
        cache.with_read(key).class_of(class_hash) == cache.class_of(class_hash),
        cache.with_class_read(other_hash).class_of(class_hash) == cache.class_of(class_hash),
        cache.with_frame().class_of(class_hash) == cache.class_of(class_hash),
        cache.with_commit().class_of(class_hash) == cache.class_of(class_hash),
        cache.with_rollback().class_of(class_hash) == cache.class_of(class_hash),
{
}

/// A frame that is thrown away leaves no trace in the writes: opening a frame,
/// writing in it and rolling it back gives the writes from before.
pub proof fn lemma_rollback_discards_frame<S: StateReader>(
    cache: CachedStateView<S>,
    key: StateKey,
    value: Felt,
)
    requires
        cache.writes.len() >= 1,
    ensures
        cache.with_frame().with_write(key, value).with_rollback().writes == cache.writes,
        cache.with_frame().with_write(key, value).with_rollback().diff() == cache.diff(),
{
    let opened = cache.with_frame();
    let written = opened.with_write(key, value);
    assert(written.writes.drop_last() =~= cache.writes);
}

/// A frame that is kept hands its writes to the frame around it: the staged diff
/// is the same before and after the commit.
pub proof fn lemma_commit_keeps_diff<S: StateReader>(cache: CachedStateView<S>)
    requires
        cache.writes.len() >= 1,
    ensures
        cache.with_commit().diff() == cache.diff(),
        cache.with_frame().diff() == cache.diff(),
{
    if cache.writes.len() >= 2 {
        crate::collections::lemma_flatten_merge_top(cache.writes);
    }
    crate::collections::lemma_flatten_push_empty(cache.writes);
}

/// Two classes that hold the same program: they differ at most in the
/// representation and in the artifact that an engine runs.
pub open spec fn same_program(a: ContractClassView, b: ContractClassView) -> bool {
    a.entry_points == b.entry_points
}

/// Two lookups of a class that agree: both find nothing, or both find the same program.
pub open spec fn same_programs(a: Option<ContractClassView>, b: Option<ContractClassView>) -> bool {
    match (a, b) {
        (None, None) => true,
        (Some(x), Some(y)) => same_program(x, y),
        _ => false,
    }
}

/// Two caches that hold the same state but for the representation of their
/// classes: one may hold the interpretable and the other the natively compiled
/// representation of each program.
pub open spec fn backend_twins<S: StateReader, T: StateReader>(
    a: CachedStateView<S>,
    b: CachedStateView<T>,
) -> bool {
    &&& a.writes == b.writes
    &&& a.reads == b.reads
    &&& a.visited_pcs == b.visited_pcs
    &&& a.declared.dom() == b.declared.dom()
    &&& a.class_reads.dom() == b.class_reads.dom()
    &&& forall|key: StateKey| #[trigger]
        backing_value(&a.backing, key) == backing_value(&b.backing, key)
    &&& forall|h: ClassHash| #[trigger]
        a.declared.contains_key(h) ==> same_program(a.declared[h], b.declared[h])
    &&& forall|h: ClassHash| #[trigger]
        a.class_reads.contains_key(h) ==> same_program(a.class_reads[h], b.class_reads[h])
    &&& forall|h: ClassHash|
        same_programs(#[trigger] a.backing.class(h), #[trigger] b.backing.class(h))
}

/// Twins read alike: every place has the same value in both, and every class
/// hash names the same program in both, or none in both.
pub proof fn lemma_twins_read_alike<S: StateReader, T: StateReader>(
    a: CachedStateView<S>,
    b: CachedStateView<T>,
    key: StateKey,
    class_hash: ClassHash,
)
    requires
        backend_twins(a, b),
    ensures
        a.diff() == b.diff(),
        a.value_at(key) == b.value_at(key),
        same_programs(a.class_of(class_hash), b.class_of(class_hash)),
        a.visited(class_hash) == b.visited(class_hash),
        a.open_frames() == b.open_frames(),
{
    assert(backing_value(&a.backing, key) == backing_value(&b.backing, key));
    assert(same_programs(a.backing.class(class_hash), b.backing.class(class_hash)));
    if a.declared.contains_key(class_hash) {
        assert(b.declared.dom().contains(class_hash));
    } else {
        assert(!b.declared.dom().contains(class_hash));
    }
}

/// Twins stay twins: whatever is done to both alike (a read, a write, the
/// declaration of one program in two representations, a frame opened, kept or
/// thrown away, markers gathered) leaves them twins.
pub proof fn lemma_twins_stay_twins<S: StateReader, T: StateReader>(
    a: CachedStateView<S>,
    b: CachedStateView<T>,
    key: StateKey,
    value: Felt,
    class_hash: ClassHash,
    class_a: ContractClassView,
    class_b: ContractClassView,
    markers: Set<usize>,
)
    requires
        backend_twins(a, b),
        same_program(class_a, class_b),
    ensures
        backend_twins(a.with_read(key), b.with_read(key)),
        backend_twins(a.with_write(key, value), b.with_write(key, value)),
        backend_twins(a.with_class_read(class_hash), b.with_class_read(class_hash)),
        backend_twins(a.with_declared(class_hash, class_a), b.with_declared(class_hash, class_b)),
        backend_twins(a.with_visited(class_hash, markers), b.with_visited(class_hash, markers)),
        backend_twins(a.with_frame(), b.with_frame()),
        backend_twins(a.with_commit(), b.with_commit()),
        backend_twins(a.with_rollback(), b.with_rollback()),
{
    lemma_twins_read_alike(a, b, key, class_hash);
    assert(backing_value(&a.backing, key) == backing_value(&b.backing, key));
    assert(same_programs(a.backing.class(class_hash), b.backing.class(class_hash)));
    assert(a.declared.contains_key(class_hash) == b.declared.dom().contains(class_hash));
    let ra = a.with_class_read(class_hash);
    let rb = b.with_class_read(class_hash);
    assert(ra.class_reads.dom() =~= rb.class_reads.dom());
    assert forall|h: ClassHash| #[trigger] ra.class_reads.contains_key(h) implies same_program(
        ra.class_reads[h],
        rb.class_reads[h],
    ) by {
        if h != class_hash || ra.class_reads == a.class_reads {
            assert(a.class_reads.contains_key(h));
        }
    }
    let da = a.with_declared(class_hash, class_a);
    let db = b.with_declared(class_hash, class_b);
    assert(da.declared.dom() =~= db.declared.dom());
    assert forall|h: ClassHash| #[trigger] da.declared.contains_key(h) implies same_program(
        da.declared[h],
        db.declared[h],
    ) by {
        if h != class_hash {
            assert(a.declared.contains_key(h));
        }
    }
}

/// One thing that is done to a cache.
pub enum StateStep {
    Read(StateKey),
    Write(StateKey, Felt),
    ReadClass(ClassHash),
    Declare(ClassHash, ContractClassView),
    Visit(ClassHash, Set<usize>),
    OpenFrame,
    KeepFrame,
    DropFrame,
}

impl StateStep {
    /// Two steps that do the same but for the representation of a class declared.
    pub open spec fn twin_of(self, other: StateStep) -> bool {
        match (self, other) {
            (StateStep::Declare(h, a), StateStep::Declare(g, b)) => h == g && same_program(a, b),
            _ => self == other,
        }
    }
}

/// The cache after one step.
pub open spec fn apply_step<S: StateReader>(
    state: CachedStateView<S>,
    step: StateStep,
) -> CachedStateView<S> {
    match step {
        StateStep::Read(key) => state.with_read(key),
        StateStep::Write(key, value) => state.with_write(key, value),
        StateStep::ReadClass(class_hash) => state.with_class_read(class_hash),
        StateStep::Declare(class_hash, class) => state.with_declared(class_hash, class),
        StateStep::Visit(class_hash, markers) => state.with_visited(class_hash, markers),
        StateStep::OpenFrame => state.with_frame(),
        StateStep::KeepFrame => state.with_commit(),
        StateStep::DropFrame => state.with_rollback(),
    }
}

/// The cache after a sequence of steps.
pub open spec fn apply_steps<S: StateReader>(
    state: CachedStateView<S>,
    steps: Seq<StateStep>,
) -> CachedStateView<S>
    decreases steps.len(),
{
    if steps.len() == 0 {
        state
    } else {
        apply_step(apply_steps(state, steps.drop_last()), steps.last())
    }
}

/// Whatever sequence of steps is done to twins, through the one representation
/// of the classes here and through the other there, they end up twins: with
/// the same staged diff, the same value in every place, and the same markers
/// for every class.
pub proof fn lemma_twins_after_any_steps<S: StateReader, T: StateReader>(
    a: CachedStateView<S>,
    b: CachedStateView<T>,
    steps_a: Seq<StateStep>,
    steps_b: Seq<StateStep>,
    key: StateKey,
    class_hash: ClassHash,
)
    requires
        backend_twins(a, b),
        steps_a.len() == steps_b.len(),
        forall|i: int| 0 <= i < steps_a.len() ==> (#[trigger] steps_a[i]).twin_of(steps_b[i]),
    ensures
        backend_twins(apply_steps(a, steps_a), apply_steps(b, steps_b)),
        apply_steps(a, steps_a).diff() == apply_steps(b, steps_b).diff(),
        apply_steps(a, steps_a).value_at(key) == apply_steps(b, steps_b).value_at(key),
        apply_steps(a, steps_a).visited(class_hash) == apply_steps(b, steps_b).visited(class_hash),
    decreases steps_a.len(),
{
    if steps_a.len() > 0 {
        let init_a = steps_a.drop_last();
        let init_b = steps_b.drop_last();
        assert forall|i: int| 0 <= i < init_a.len() implies (#[trigger] init_a[i]).twin_of(
            init_b[i],
        ) by {
            assert(steps_a[i].twin_of(steps_b[i]));
        }
        lemma_twins_after_any_steps(a, b, init_a, init_b, key, class_hash);
        let mid_a = apply_steps(a, init_a);
        let mid_b = apply_steps(b, init_b);
        let last_a = steps_a.last();
        let last_b = steps_b.last();
        assert(steps_a[steps_a.len() - 1].twin_of(steps_b[steps_a.len() - 1]));
        let any_class = arbitrary::<ContractClassView>();
        match last_a {
            StateStep::Read(k) => {
                lemma_twins_stay_twins(
                    mid_a,
                    mid_b,
                    k,
                    Felt::spec_zero(),
                    class_hash,
                    any_class,
                    any_class,
                    Set::empty(),
                );
            },
            StateStep::Write(k, v) => {
                lemma_twins_stay_twins(
                    mid_a,
                    mid_b,
                    k,
                    v,
                    class_hash,
                    any_class,
                    any_class,
                    Set::empty(),
                );
            },
            StateStep::ReadClass(h) => {
                lemma_twins_stay_twins(
                    mid_a,
                    mid_b,
                    key,
                    Felt::spec_zero(),
                    h,
                    any_class,
                    any_class,
                    Set::empty(),
                );
            },
            StateStep::Declare(h, class_a) => {
                let class_b = last_b->Declare_1;
                lemma_twins_stay_twins(
                    mid_a,
                    mid_b,
                    key,
                    Felt::spec_zero(),
                    h,
                    class_a,
                    class_b,
                    Set::empty(),
                );
            },
            StateStep::Visit(h, markers) => {
                lemma_twins_stay_twins(
                    mid_a,
                    mid_b,
                    key,
                    Felt::spec_zero(),
                    h,
                    any_class,
                    any_class,
                    markers,
                );
            },
            _ => {
                lemma_twins_stay_twins(
                    mid_a,
                    mid_b,
                    key,
                    Felt::spec_zero(),
                    class_hash,
                    any_class,
                    any_class,
                    Set::empty(),
                );
            },
        }
    }
    lemma_twins_read_alike(apply_steps(a, steps_a), apply_steps(b, steps_b), key, class_hash);
}

} // verus!
