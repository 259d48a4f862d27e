//! A small map from keys to values, kept as a list of entries with distinct keys.

use vstd::prelude::*;

verus! {

/// Keys that can be compared at run time, with the comparison meaning equality.
pub trait Key: Sized {
    fn same(&self, other: &Self) -> (b: bool)
        ensures
            b == (*self == *other),
    ;
}

/// Whether some entry of `s` has key `k`.
pub open spec fn has_key<K, V>(s: Seq<(K, V)>, k: K) -> bool {
    exists|i: int| 0 <= i < s.len() && (#[trigger] s[i]).0 == k
}

/// The position of an entry with key `k`, where there is one.
pub open spec fn position_of<K, V>(s: Seq<(K, V)>, k: K) -> int {
    choose|i: int| 0 <= i < s.len() && (#[trigger] s[i]).0 == k
}

/// No key occurs in two entries.
pub open spec fn distinct_keys<K, V>(s: Seq<(K, V)>) -> bool {
    forall|i: int, j: int|
        0 <= i < s.len() && 0 <= j < s.len() && i != j ==> (#[trigger] s[i]).0 != (#[trigger] s[j]).0
}

/// The map that a list of entries with distinct keys stands for.
pub open spec fn entries_map<K, V>(s: Seq<(K, V)>) -> Map<K, V> {
    Map::new(|k: K| has_key(s, k), |k: K| s[position_of(s, k)].1)
}

/// Appending an entry with a fresh key inserts it into the map.
pub proof fn lemma_entries_push<K, V>(s: Seq<(K, V)>, k: K, v: V)
    requires
        distinct_keys(s),
        !has_key(s, k),
    ensures
        distinct_keys(s.push((k, v))),
        entries_map(s.push((k, v))) == entries_map(s).insert(k, v),
{
    let t = s.push((k, v));
    let n = s.len() as int;
    assert forall|i: int, j: int| 0 <= i < t.len() && 0 <= j < t.len() && i != j implies (
    #[trigger] t[i]).0 != (#[trigger] t[j]).0 by {
        if i < n && j < n {
            assert(s[i].0 != s[j].0);
        } else if i < n {
            assert(s[i].0 != k);
        } else {
            assert(s[j].0 != k);
        }
    }
    assert forall|q: K| has_key(t, q) == (q == k || has_key(s, q)) by {
        if has_key(t, q) {
            let j = position_of(t, q);
            if j != n {
                assert(s[j].0 == q);
            }
        }
        if has_key(s, q) {
            let j = position_of(s, q);
            assert(t[j].0 == q);
        }
        if q == k {
            assert(t[n].0 == q);
        }
    }
    assert forall|q: K| has_key(t, q) implies #[trigger] entries_map(t)[q] == entries_map(
        s,
    ).insert(k, v)[q] by {
        let j = position_of(t, q);
        if q != k {
            assert(s[j].0 == q);
            assert(position_of(s, q) == j);
        }
    }
    assert(entries_map(t) =~= entries_map(s).insert(k, v));
}

/// Replacing the entry that holds key `k` updates the map at `k`.
pub proof fn lemma_entries_update<K, V>(s: Seq<(K, V)>, i: int, k: K, v: V)
    requires
        distinct_keys(s),
        0 <= i < s.len(),
        s[i].0 == k,
    ensures
        distinct_keys(s.update(i, (k, v))),
        entries_map(s.update(i, (k, v))) == entries_map(s).insert(k, v),
{
    let t = s.update(i, (k, v));
    assert forall|a: int, b: int| 0 <= a < t.len() && 0 <= b < t.len() && a != b implies (
    #[trigger] t[a]).0 != (#[trigger] t[b]).0 by {
        assert(s[a].0 != s[b].0);
    }
    assert forall|q: K| has_key(t, q) == has_key(s, q) by {
        if has_key(t, q) {
            let j = position_of(t, q);
            assert(s[j].0 == q);
        }
        if has_key(s, q) {
            let j = position_of(s, q);
            assert(t[j].0 == q);
        }
    }
    assert(has_key(s, k));
    assert forall|q: K| has_key(t, q) implies #[trigger] entries_map(t)[q] == entries_map(
        s,
    ).insert(k, v)[q] by {
        let j = position_of(t, q);
        assert(s[j].0 == q);
        assert(position_of(s, q) == j);
    }
    assert(entries_map(t) =~= entries_map(s).insert(k, v));
}

/// An entry of the list is an entry of the map.
pub proof fn lemma_entries_member<K, V>(s: Seq<(K, V)>, i: int)
    requires
        distinct_keys(s),
        0 <= i < s.len(),
    ensures
        entries_map(s).contains_key(s[i].0),
        entries_map(s)[s[i].0] == s[i].1,
{
    assert(has_key(s, s[i].0));
    assert(position_of(s, s[i].0) == i);
}

/// Dropping the last entry removes its key from the map.
pub proof fn lemma_entries_drop_last<K, V>(s: Seq<(K, V)>)
    requires
        distinct_keys(s),
        s.len() > 0,
    ensures
        distinct_keys(s.drop_last()),
        !has_key(s.drop_last(), s.last().0),
        entries_map(s) == entries_map(s.drop_last()).insert(s.last().0, s.last().1),
{
    let t = s.drop_last();
    let n = t.len() as int;
    assert forall|i: int, j: int| 0 <= i < t.len() && 0 <= j < t.len() && i != j implies (
    #[trigger] t[i]).0 != (#[trigger] t[j]).0 by {
        assert(s[i].0 != s[j].0);
    }
    if has_key(t, s.last().0) {
        let j = position_of(t, s.last().0);
        assert(s[j].0 == s[n].0);
    }
    lemma_entries_push(t, s.last().0, s.last().1);
    assert(t.push(s.last()) =~= s);
}

/// A map from `K` to `V`. Its view is the mathematical map it stands for.
pub struct KeyedMap<K: Key, V> {
    entries: Vec<(K, V)>,
}

impl<K: Key, V> View for KeyedMap<K, V> {
    type V = Map<K, V>;

    closed spec fn view(&self) -> Map<K, V> {
        entries_map(self.entries@)
    }
}

impl<K: Key, V> KeyedMap<K, V> {
    #[verifier::type_invariant]
    spec fn well_formed(self) -> bool {
        distinct_keys(self.entries@)
    }

    pub fn new() -> (r: Self)
        ensures
            r@ == Map::<K, V>::empty(),
    {
        let r = KeyedMap { entries: Vec::new() };
        assert(r@ =~= Map::<K, V>::empty());
        r
    }

    /// The position of the entry with key `k`, if there is one.
    fn find(&self, k: &K) -> (r: Option<usize>)
        ensures
            match r {
                Some(i) => i < self.entries@.len() && self.entries@[i as int].0 == *k,
                None => !has_key(self.entries@, *k),
            },
    {
        let mut i: usize = 0;
        while i < self.entries.len()
            invariant
                i <= self.entries@.len(),
                forall|j: int| 0 <= j < i ==> (#[trigger] self.entries@[j]).0 != *k,
            decreases self.entries@.len() - i,
        {
            if self.entries[i].0.same(k) {
                return Some(i);
            }
            i += 1;
        }
        None
    }

    pub fn contains_key(&self, k: &K) -> (b: bool)
        ensures
            b == self@.contains_key(*k),
    {
        self.find(k).is_some()
    }

    /// The value stored under `k`, if any.
    pub fn get(&self, k: &K) -> (r: Option<&V>)
        ensures
            match r {
                Some(v) => self@.contains_key(*k) && *v == self@[*k],
                None => !self@.contains_key(*k),
            },
    {
        proof {
            use_type_invariant(self);
        }
        match self.find(k) {
            Some(i) => {
                assert(has_key(self.entries@, *k));
                assert(position_of(self.entries@, *k) == i);
                Some(&self.entries[i].1)
            },
            None => None,
        }
    }

    /// Stores `v` under `k`, replacing what was there.
    pub fn insert(&mut self, k: K, v: V)
        ensures
            final(self)@ == old(self)@.insert(k, v),
    {
        proof {
            use_type_invariant(&*self);
        }
        let found = self.find(&k);
        let mut entries: Vec<(K, V)> = Vec::new();
        core::mem::swap(&mut self.entries, &mut entries);
        match found {
            Some(i) => {
                proof {
                    lemma_entries_update(entries@, i as int, k, v);
                }
                entries.set(i, (k, v));
            },
            None => {
                proof {
                    lemma_entries_push(entries@, k, v);
                }
                entries.push((k, v));
            },
        }
        core::mem::swap(&mut self.entries, &mut entries);
    }

    /// The number of entries.
    pub fn len(&self) -> (n: usize)
        ensures
            n == self.spec_len(),
    {
        self.entries.len()
    }

    /// The number of entries, as a specification.
    pub closed spec fn spec_len(&self) -> nat {
        self.entries@.len()
    }

    /// The entries in the order in which their keys first came.
    pub closed spec fn entries(&self) -> Seq<(K, V)> {
        self.entries@
    }

    /// The entry at position `i`.
    pub fn entry_at(&self, i: usize) -> (r: (&K, &V))
        requires
            i < self.spec_len(),
        ensures
            (*r.0, *r.1) == self.entries()[i as int],
            distinct_keys(self.entries()),
            self@.contains_key(*r.0),
            self@[*r.0] == *r.1,
    {
        proof {
            use_type_invariant(self);
            lemma_entries_member(self.entries@, i as int);
        }
        let e = &self.entries[i];
        (&e.0, &e.1)
    }

    /// Moves every entry of `other` into this map; where both hold a key, the value
    /// of `other` stays.
    pub fn absorb(&mut self, other: KeyedMap<K, V>)
        ensures
            final(self)@ == old(self)@.union_prefer_right(other@),
    {
        proof {
            use_type_invariant(&other);
        }
        let mut rest = other.entries;
        proof {
            assert(self@ =~= old(self)@);
        }
        while rest.len() > 0
            invariant
                distinct_keys(rest@),
                self@.union_prefer_right(entries_map(rest@)) == old(self)@.union_prefer_right(
                    other@,
                ),
            decreases rest@.len(),
        {
            let ghost before = rest@;
            let ghost mine = self@;
            proof {
                lemma_entries_drop_last(before);
            }
            let last = rest.pop();
            match last {
                Some(entry) => {
                    let (k, v) = entry;
                    self.insert(k, v);
                    proof {
                        assert(rest@ =~= before.drop_last());
                        assert(self@.union_prefer_right(entries_map(rest@))
                            =~= mine.union_prefer_right(entries_map(before)));
                    }
                },
                None => {},
            }
        }
        proof {
            assert(entries_map(rest@) =~= Map::<K, V>::empty());
            assert(self@.union_prefer_right(Map::<K, V>::empty()) =~= self@);
        }
    }
}

/// What a stack of layers holds: every layer lies over the ones before it.
pub open spec fn flatten<K, V>(layers: Seq<Map<K, V>>) -> Map<K, V>
    decreases layers.len(),
{
    if layers.len() == 0 {
        Map::empty()
    } else {
        flatten(layers.drop_last()).union_prefer_right(layers.last())
    }
}

/// A single layer holds what it holds.
pub proof fn lemma_flatten_single<K, V>(layers: Seq<Map<K, V>>)
    requires
        layers.len() == 1,
    ensures
        flatten(layers) == layers[0],
{
    assert(layers.drop_last() =~= Seq::<Map<K, V>>::empty());
    assert(flatten(layers.drop_last()) =~= Map::<K, V>::empty());
    assert(flatten(layers) =~= layers[0]);
}

/// Writing into the topmost layer writes into what the stack holds.
pub proof fn lemma_flatten_insert_top<K, V>(layers: Seq<Map<K, V>>, k: K, v: V)
    requires
        layers.len() > 0,
    ensures
        flatten(layers.update(layers.len() - 1, layers.last().insert(k, v))) == flatten(
            layers,
        ).insert(k, v),
{
    let updated = layers.update(layers.len() - 1, layers.last().insert(k, v));
    assert(updated.drop_last() =~= layers.drop_last());
    assert(flatten(updated) =~= flatten(layers).insert(k, v));
}

/// An empty layer on top changes nothing.
pub proof fn lemma_flatten_push_empty<K, V>(layers: Seq<Map<K, V>>)
    ensures
        flatten(layers.push(Map::empty())) == flatten(layers),
{
    let pushed = layers.push(Map::<K, V>::empty());
    assert(pushed.drop_last() =~= layers);
    assert(flatten(pushed) =~= flatten(layers));
}

/// Folding the topmost layer into the one below changes nothing.
pub proof fn lemma_flatten_merge_top<K, V>(layers: Seq<Map<K, V>>)
    requires
        layers.len() >= 2,
    ensures
        flatten(
            layers.drop_last().drop_last().push(
                layers[layers.len() - 2].union_prefer_right(layers.last()),
            ),
        ) == flatten(layers),
{
    let below = layers.drop_last();
    let merged = below.drop_last().push(below.last().union_prefer_right(layers.last()));
    assert(merged.drop_last() =~= below.drop_last());
    assert(flatten(below) == flatten(below.drop_last()).union_prefer_right(below.last()));
    assert(flatten(layers) == flatten(below).union_prefer_right(layers.last()));
    assert(flatten(merged) == flatten(merged.drop_last()).union_prefer_right(merged.last()));
    assert(flatten(merged) =~= flatten(layers));
}

/// A key that the topmost layers from `i` on do not hold is looked up below them.
pub proof fn lemma_flatten_lookup<K, V>(layers: Seq<Map<K, V>>, i: int, k: K)
    requires
        0 <= i <= layers.len(),
        forall|j: int| i <= j < layers.len() ==> !(#[trigger] layers[j]).contains_key(k),
    ensures
        flatten(layers).contains_key(k) == flatten(layers.take(i)).contains_key(k),
        flatten(layers).contains_key(k) ==> flatten(layers)[k] == flatten(layers.take(i))[k],
    decreases layers.len() - i,
{
    if i == layers.len() {
        assert(layers.take(i) =~= layers);
    } else {
        let below = layers.drop_last();
        assert(!layers[layers.len() - 1].contains_key(k));
        assert forall|j: int| i <= j < below.len() implies !(#[trigger] below[j]).contains_key(
            k,
        ) by {
            assert(!layers[j].contains_key(k));
        }
        lemma_flatten_lookup(below, i, k);
        assert(below.take(i) =~= layers.take(i));
    }
}

/// A map with a stack of open layers over it. Writes go to the topmost layer; a
/// layer is later either folded into the one below or thrown away.
pub struct Layered<K: Key, V> {
    base: KeyedMap<K, V>,
    frames: Vec<KeyedMap<K, V>>,
}

impl<K: Key, V> Layered<K, V> {
    /// The layers, the base first and the topmost last. There is always a base.
    pub closed spec fn layers(&self) -> Seq<Map<K, V>> {
        Seq::new(
            self.frames@.len() + 1,
            |i: int|
                if i == 0 {
                    self.base@
                } else {
                    self.frames@[i - 1]@
                },
        )
    }

    /// What the stack holds as a whole.
    pub open spec fn effective(&self) -> Map<K, V> {
        flatten(self.layers())
    }

    /// The number of open layers over the base.
    pub open spec fn spec_depth(&self) -> nat {
        (self.layers().len() - 1) as nat
    }

    pub proof fn lemma_layers_nonempty(&self)
        ensures
            self.layers().len() >= 1,
    {
    }

    pub fn new() -> (r: Self)
        ensures
            r.layers() == seq![Map::<K, V>::empty()],
            r.effective() == Map::<K, V>::empty(),
    {
        let r = Layered { base: KeyedMap::new(), frames: Vec::new() };
        proof {
            assert(r.layers() =~= seq![Map::<K, V>::empty()]);
            lemma_flatten_single(r.layers());
        }
        r
    }

    pub fn depth(&self) -> (n: usize)
        ensures
            n == self.spec_depth(),
    {
        self.frames.len()
    }

    /// The value that the stack holds for `k`: that of the topmost layer that has it.
    pub fn get(&self, k: &K) -> (r: Option<&V>)
        ensures
            match r {
                Some(v) => self.effective().contains_key(*k) && *v == self.effective()[*k],
                None => !self.effective().contains_key(*k),
            },
    {
        let ghost layers = self.layers();
        let mut i: usize = self.frames.len();
        proof {
            lemma_flatten_lookup(layers, i + 1, *k);
        }
        while i > 0
            invariant
                i <= self.frames@.len(),
                layers == self.layers(),
                forall|j: int| i + 1 <= j < layers.len() ==> !(#[trigger] layers[j]).contains_key(*k),
            decreases i,
        {
            i -= 1;
            match self.frames[i].get(k) {
                Some(v) => {
                    proof {
                        lemma_flatten_lookup(layers, i + 2, *k);
                        let upto = layers.take(i + 2);
                        assert(upto.last() == layers[i + 1]);
                        assert(layers[i + 1] == self.frames@[i as int]@);
                    }
                    return Some(v);
                },
                None => {
                    assert(layers[i + 1] == self.frames@[i as int]@);
                },
            }
        }
        proof {
            lemma_flatten_lookup(layers, 1, *k);
            lemma_flatten_single(layers.take(1));
        }
        self.base.get(k)
    }

    /// Stores `v` under `k` in the topmost layer.
    pub fn insert(&mut self, k: K, v: V)
        ensures
            final(self).layers() == old(self).layers().update(
                old(self).layers().len() - 1,
                old(self).layers().last().insert(k, v),
            ),
            final(self).effective() == old(self).effective().insert(k, v),
    {
        let ghost before = self.layers();
        match self.frames.pop() {
            Some(top) => {
                let mut top = top;
                top.insert(k, v);
                self.frames.push(top);
            },
            None => {
                self.base.insert(k, v);
            },
        }
        proof {
            assert(self.layers() =~= before.update(before.len() - 1, before.last().insert(k, v)));
            lemma_flatten_insert_top(before, k, v);
        }
    }

    /// Opens an empty layer on top.
    pub fn push_layer(&mut self)
        ensures
            final(self).layers() == old(self).layers().push(Map::empty()),
            final(self).effective() == old(self).effective(),
    {
        let ghost before = self.layers();
        self.frames.push(KeyedMap::new());
        proof {
            assert(self.layers() =~= before.push(Map::empty()));
            lemma_flatten_push_empty(before);
        }
    }

    /// Folds the topmost layer into the one below it. Without an open layer nothing
    /// changes, and the result is `false`.
    pub fn commit_layer(&mut self) -> (done: bool)
        ensures
            done == (old(self).spec_depth() > 0),
            final(self).effective() == old(self).effective(),
            done ==> final(self).layers() == old(self).layers().drop_last().drop_last().push(
                old(self).layers()[old(self).layers().len() - 2].union_prefer_right(
                    old(self).layers().last(),
                ),
            ),
            !done ==> final(self).layers() == old(self).layers(),
    {
        let ghost before = self.layers();
        match self.frames.pop() {
            Some(top) => {
                match self.frames.pop() {
                    Some(below) => {
                        let mut below = below;
                        below.absorb(top);
                        self.frames.push(below);
                    },
                    None => {
                        self.base.absorb(top);
                    },
                }
                proof {
                    assert(self.layers() =~= before.drop_last().drop_last().push(
                        before[before.len() - 2].union_prefer_right(before.last()),
                    ));
                    lemma_flatten_merge_top(before);
                }
                true
            },
            None => {
                proof {
                    assert(self.layers() =~= before);
                }
                false
            },
        }
    }

    /// Throws the topmost layer away. Without an open layer nothing changes, and the
    /// result is `false`.
    pub fn rollback_layer(&mut self) -> (done: bool)
        ensures
            done == (old(self).spec_depth() > 0),
            done ==> final(self).layers() == old(self).layers().drop_last(),
            !done ==> final(self).layers() == old(self).layers(),
    {
        let ghost before = self.layers();
        match self.frames.pop() {
            Some(_) => {
                proof {
                    assert(self.layers() =~= before.drop_last());
                }
                true
            },
            None => {
                proof {
                    assert(self.layers() =~= before);
                }
                false
            },
        }
    }
}

impl<K: Key + Copy, V: Copy> KeyedMap<K, V> {
    /// Copies every entry of this map into `target`; where both hold a key, the
    /// value of this map stays.
    pub fn copy_into(&self, target: &mut KeyedMap<K, V>)
        ensures
            final(target)@ == old(target)@.union_prefer_right(self@),
    {
        proof {
            use_type_invariant(self);
            assert(self.entries@.take(0) =~= Seq::<(K, V)>::empty());
            assert(entries_map(self.entries@.take(0)) =~= Map::<K, V>::empty());
            assert(target@.union_prefer_right(Map::<K, V>::empty()) =~= target@);
        }
        let mut i: usize = 0;
        while i < self.entries.len()
            invariant
                i <= self.entries@.len(),
                distinct_keys(self.entries@),
                target@ == old(target)@.union_prefer_right(entries_map(self.entries@.take(i as int))),
            decreases self.entries@.len() - i,
        {
            let k: K = self.entries[i].0;
            let v: V = self.entries[i].1;
            proof {
                let done = self.entries@.take(i as int);
                assert(distinct_keys(done)) by {
                    assert forall|a: int, b: int|
                        0 <= a < done.len() && 0 <= b < done.len() && a != b implies (
                    #[trigger] done[a]).0 != (#[trigger] done[b]).0 by {
                        assert(self.entries@[a].0 != self.entries@[b].0);
                    }
                }
                if has_key(done, k) {
                    let j = position_of(done, k);
                    assert(self.entries@[j].0 == self.entries@[i as int].0);
                }
                lemma_entries_push(done, k, v);
                assert(done.push((k, v)) =~= self.entries@.take(i + 1));
                assert(old(target)@.union_prefer_right(entries_map(done)).insert(k, v) =~= old(
                    target,
                )@.union_prefer_right(entries_map(done).insert(k, v)));
            }
            target.insert(k, v);
            i += 1;
        }
        proof {
            assert(self.entries@.take(self.entries@.len() as int) =~= self.entries@);
        }
    }
}

impl<K: Key + Copy, V: Copy> Layered<K, V> {
    /// One map that holds what the stack holds as a whole.
    pub fn flattened(&self) -> (r: KeyedMap<K, V>)
        ensures
            r@ == self.effective(),
    {
        let ghost layers = self.layers();
        let mut out: KeyedMap<K, V> = KeyedMap::new();
        self.base.copy_into(&mut out);
        proof {
            assert(out@ =~= self.base@);
            lemma_flatten_single(layers.take(1));
        }
        let mut i: usize = 0;
        while i < self.frames.len()
            invariant
                i <= self.frames@.len(),
                layers == self.layers(),
                out@ == flatten(layers.take(i + 1)),
            decreases self.frames@.len() - i,
        {
            self.frames[i].copy_into(&mut out);
            proof {
                let upto = layers.take(i + 2);
                assert(upto.drop_last() =~= layers.take(i + 1));
                assert(upto.last() == self.frames@[i as int]@);
            }
            i += 1;
        }
        proof {
            assert(layers.take(layers.len() as int) =~= layers);
        }
        out
    }
}

} // verus!
