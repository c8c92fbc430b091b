//! A map held as a list of entries with distinct keys, for keys that are
//! compared field by field (roots, pairs of a root and an ID).
use vstd::prelude::*;
use crate::primitives::Hash256;
use crate::types::{ProofId, SubnetId};

verus! {

/// A key whose equality can be decided: two keys compare equal exactly when
/// they are the same value.
pub trait MapKey: Copy + Sized {
    fn key_eq(&self, other: &Self) -> (r: bool)
        ensures
            r == (*self == *other),
    ;
}

impl MapKey for Hash256 {
    fn key_eq(&self, other: &Self) -> (r: bool) {
        self.w0 == other.w0 && self.w1 == other.w1 && self.w2 == other.w2 && self.w3 == other.w3
    }
}

impl MapKey for u64 {
    fn key_eq(&self, other: &Self) -> (r: bool) {
        *self == *other
    }
}

impl MapKey for SubnetId {
    fn key_eq(&self, other: &Self) -> (r: bool) {
        proof {
            SubnetId::lemma_eq_by_id(*self, *other);
        }
        self.id() == other.id()
    }
}

impl MapKey for crate::consensus::ProofType {
    fn key_eq(&self, other: &Self) -> (r: bool) {
        self.as_u64() == other.as_u64()
    }
}

/// A proof's key: the execution block hash and the proof ID.
#[derive(Clone, Copy, PartialEq, Eq, Structural, Debug, Hash)]
pub struct ProofKey(pub Hash256, pub ProofId);

impl MapKey for ProofKey {
    fn key_eq(&self, other: &Self) -> (r: bool) {
        self.0.key_eq(&other.0) && self.1.0 == other.1.0
    }
}

/// No two entries share a key.
pub open spec fn unique_keys<K, V>(s: Seq<(K, V)>) -> bool {
    forall|i: int, j: int|
        0 <= i < s.len() && 0 <= j < s.len() && i != j ==> (#[trigger] s[i]).0 != (#[trigger] s[j]).0
}

/// Some entry has key `k`.
pub open spec fn has_key<K, V>(s: Seq<(K, V)>, k: K) -> bool {
    exists|i: int| 0 <= i < s.len() && (#[trigger] s[i]).0 == k
}

/// The map from each entry's key to its value.
pub open spec fn seq_to_map<K, V>(s: Seq<(K, V)>) -> Map<K, V> {
    Map::new(
        |k: K| has_key(s, k),
        |k: K| s[choose|i: int| 0 <= i < s.len() && (#[trigger] s[i]).0 == k].1,
    )
}

/// The keys of the entries, in order.
pub open spec fn key_seq<K, V>(s: Seq<(K, V)>) -> Seq<K> {
    s.map_values(|e: (K, V)| e.0)
}

/// With distinct keys, the map sends the key of each entry to its value.
pub proof fn lemma_entry_in_map<K, V>(s: Seq<(K, V)>, i: int)
    requires
        unique_keys(s),
        0 <= i < s.len(),
    ensures
        seq_to_map(s).contains_key(s[i].0),
        seq_to_map(s)[s[i].0] == s[i].1,
{
    assert(has_key(s, s[i].0));
    let j = choose|j: int| 0 <= j < s.len() && (#[trigger] s[j]).0 == s[i].0;
    assert(j == i);
}

/// With distinct keys, the map has one key per entry.
pub proof fn lemma_map_len<K, V>(s: Seq<(K, V)>)
    requires
        unique_keys(s),
    ensures
        seq_to_map(s).dom().finite(),
        seq_to_map(s).len() == s.len(),
{
    let ks = key_seq(s);
    assert(ks.no_duplicates()) by {
        assert forall|i: int, j: int| 0 <= i < ks.len() && 0 <= j < ks.len() && i != j implies ks[i]
            != ks[j] by {
            assert(ks[i] == s[i].0);
            assert(ks[j] == s[j].0);
        }
    }
    ks.unique_seq_to_set();
    assert(seq_to_map(s).dom() =~= ks.to_set()) by {
        assert forall|k: K| seq_to_map(s).dom().contains(k) <==> ks.to_set().contains(k) by {
            if has_key(s, k) {
                let i = choose|i: int| 0 <= i < s.len() && (#[trigger] s[i]).0 == k;
                assert(ks[i] == k);
            }
            if ks.to_set().contains(k) {
                let i = choose|i: int| 0 <= i < ks.len() && ks[i] == k;
                assert(s[i].0 == k);
            }
        }
    }
    vstd::seq_lib::seq_to_set_is_finite(ks);
}

/// A map held as a list of entries with distinct keys.
#[derive(Debug)]
pub struct VecMap<K, V> {
    entries: Vec<(K, V)>,
}

impl<K, V> View for VecMap<K, V> {
    type V = Map<K, V>;

    open spec fn view(&self) -> Map<K, V> {
        seq_to_map(self.spec_entries())
    }
}

impl<K, V> VecMap<K, V> {
    /// The entries, in storage order.
    pub closed spec fn spec_entries(&self) -> Seq<(K, V)> {
        self.entries@
    }

    /// The keys of the entries are distinct.
    pub open spec fn wf(&self) -> bool {
        unique_keys(self.spec_entries())
    }
}

impl<K: MapKey, V> VecMap<K, V> {
    /// An empty map.
    pub fn new() -> (r: Self)
        ensures
            r.wf(),
            r.spec_entries().len() == 0,
            r@ == Map::<K, V>::empty(),
    {
        let r = VecMap { entries: Vec::new() };
        proof {
            assert(r@ =~= Map::<K, V>::empty());
        }
        r
    }

    /// The number of entries.
    pub fn len(&self) -> (r: usize)
        requires
            self.wf(),
        ensures
            r == self.spec_entries().len(),
            r == self@.len(),
            self@.dom().finite(),
    {
        proof {
            lemma_map_len(self.spec_entries());
        }
        self.entries.len()
    }

    /// The position of the entry with key `k`, if any.
    fn find(&self, k: &K) -> (r: Option<usize>)
        ensures
            match r {
                Some(i) => i < self.entries@.len() && self.entries@[i as int].0 == *k,
                None => !has_key(self.entries@, *k),
            },
    {
        let mut i: usize = 0;
        while i < self.entries.len()
            invariant
                i <= self.entries@.len(),
                forall|j: int| 0 <= j < i ==> (#[trigger] self.entries@[j]).0 != *k,
            decreases self.entries@.len() - i,
        {
            if self.entries[i].0.key_eq(k) {
                return Some(i);
            }
            i = i + 1;
        }
        None
    }

    /// Whether some entry has key `k`.
    pub fn contains_key(&self, k: &K) -> (r: bool)
        ensures
            r == self@.contains_key(*k),
    {
        self.find(k).is_some()
    }

    /// The value under `k`, if any.
    pub fn get(&self, k: &K) -> (r: Option<&V>)
        requires
            self.wf(),
        ensures
            r == (if self@.contains_key(*k) {
                Some(&self@[*k])
            } else {
                None
            }),
    {
        match self.find(k) {
            Some(i) => {
                proof {
                    lemma_entry_in_map(self.entries@, i as int);
                }
                Some(&self.entries[i].1)
            },
            None => None,
        }
    }

    /// The entry at position `i`.
    pub fn entry_at(&self, i: usize) -> (r: &(K, V))
        requires
            i < self.spec_entries().len(),
        ensures
            *r == self.spec_entries()[i as int],
    {
        &self.entries[i]
    }

    /// Sets the value under `k`: an existing entry keeps its position, a new
    /// one goes last.
    pub fn insert(&mut self, k: K, v: V)
        requires
            old(self).wf(),
        ensures
            final(self).wf(),
            final(self)@ == old(self)@.insert(k, v),
            has_key(old(self).spec_entries(), k) ==> final(self).spec_entries().len()
                == old(self).spec_entries().len(),
            !has_key(old(self).spec_entries(), k) ==> final(self).spec_entries()
                == old(self).spec_entries().push((k, v)),
    {
        let ghost before = self.entries@;
        match self.find(&k) {
            Some(i) => {
                self.entries.set(i, (k, v));
                proof {
                    let after = self.entries@;
                    assert(after == before.update(i as int, (k, v)));
                    assert(unique_keys(after)) by {
                        assert forall|a: int, b: int|
                            0 <= a < after.len() && 0 <= b < after.len() && a != b implies (#[trigger] after[a]).0
                            != (#[trigger] after[b]).0 by {
                            if a != i && b != i {
                                assert(after[a] == before[a]);
                                assert(after[b] == before[b]);
                            } else if a == i {
                                assert(after[b] == before[b]);
                                assert(before[i as int].0 == k);
                            } else {
                                assert(after[a] == before[a]);
                                assert(before[i as int].0 == k);
                            }
                        }
                    }
                    lemma_update_map(before, i as int, k, v);
                }
            },
            None => {
                self.entries.push((k, v));
                proof {
                    let after = self.entries@;
                    assert(after == before.push((k, v)));
                    assert(unique_keys(after)) by {
                        assert forall|a: int, b: int|
                            0 <= a < after.len() && 0 <= b < after.len() && a != b implies (#[trigger] after[a]).0
                            != (#[trigger] after[b]).0 by {
                            if a < before.len() && b < before.len() {
                                assert(after[a] == before[a]);
                                assert(after[b] == before[b]);
                            } else if a < before.len() {
                                assert(after[a] == before[a]);
                            } else {
                                assert(after[b] == before[b]);
                            }
                        }
                    }
                    lemma_push_map(before, k, v);
                }
            },
        }
    }

    /// Removes the entry with key `k`, returning its value; the other entries
    /// keep their order.
    pub fn remove(&mut self, k: &K) -> (r: Option<V>)
        requires
            old(self).wf(),
        ensures
            final(self).wf(),
            final(self)@ == old(self)@.remove(*k),
            match r {
                Some(v) => old(self)@.contains_key(*k) && v == old(self)@[*k],
                None => !old(self)@.contains_key(*k),
            },
    {
        let ghost before = self.entries@;
        match self.find(k) {
            Some(i) => {
                let e = self.entries.remove(i);
                proof {
                    lemma_entry_in_map(before, i as int);
                    lemma_remove_map(before, i as int);
                }
                Some(e.1)
            },
            None => {
                proof {
                    assert(seq_to_map(before).remove(*k) =~= seq_to_map(before));
                }
                None
            },
        }
    }

    /// Removes every entry.
    pub fn clear(&mut self)
        ensures
            final(self).wf(),
            final(self)@ == Map::<K, V>::empty(),
            final(self).spec_entries().len() == 0,
    {
        self.entries.clear();
        proof {
            assert(self@ =~= Map::<K, V>::empty());
        }
    }

    /// The keys, in storage order.
    pub fn keys(&self) -> (r: Vec<K>)
        ensures
            r@ == key_seq(self.spec_entries()),
    {
        let mut out: Vec<K> = Vec::new();
        let mut i: usize = 0;
        while i < self.entries.len()
            invariant
                i <= self.entries@.len(),
                out@ == key_seq(self.entries@).take(i as int),
            decreases self.entries@.len() - i,
        {
            out.push(self.entries[i].0);
            i = i + 1;
            proof {
                assert(out@ =~= key_seq(self.entries@).take(i as int));
            }
        }
        proof {
            assert(key_seq(self.entries@).take(i as int) =~= key_seq(self.entries@));
        }
        out
    }
}

/// Replacing the value of the entry at `i` replaces it in the map.
pub proof fn lemma_update_map<K, V>(s: Seq<(K, V)>, i: int, k: K, v: V)
    requires
        unique_keys(s),
        0 <= i < s.len(),
        s[i].0 == k,
    ensures
        seq_to_map(s.update(i, (k, v))) == seq_to_map(s).insert(k, v),
{
    let t = s.update(i, (k, v));
    assert forall|key: K| has_key(t, key) <==> (has_key(s, key) || key == k) by {
        if has_key(t, key) {
            let j = choose|j: int| 0 <= j < t.len() && (#[trigger] t[j]).0 == key;
            if j != i {
                assert(s[j] == t[j]);
            }
        }
        if has_key(s, key) {
            let j = choose|j: int| 0 <= j < s.len() && (#[trigger] s[j]).0 == key;
            if j == i {
                assert(t[i].0 == key);
            } else {
                assert(t[j] == s[j]);
            }
        }
        if key == k {
            assert(t[i].0 == key);
        }
    }
    assert forall|key: K| #[trigger] seq_to_map(t).contains_key(key) implies seq_to_map(t)[key]
        == seq_to_map(s).insert(k, v)[key] by {
        let j = choose|j: int| 0 <= j < t.len() && (#[trigger] t[j]).0 == key;
        if j == i {
            assert(key == k);
        } else {
            assert(t[j] == s[j]);
            assert(key != k);
            lemma_entry_in_map(s, j);
            assert(unique_keys(t)) by {
                assert forall|a: int, b: int|
                    0 <= a < t.len() && 0 <= b < t.len() && a != b implies (#[trigger] t[a]).0
                    != (#[trigger] t[b]).0 by {
                    if a != i {
                        assert(t[a] == s[a]);
                    }
                    if b != i {
                        assert(t[b] == s[b]);
                    }
                }
            }
            lemma_entry_in_map(t, j);
        }
    }
    assert(seq_to_map(t) =~= seq_to_map(s).insert(k, v));
}

/// Appending an entry with a new key adds it to the map.
pub proof fn lemma_push_map<K, V>(s: Seq<(K, V)>, k: K, v: V)
    requires
        unique_keys(s),
        !has_key(s, k),
    ensures
        seq_to_map(s.push((k, v))) == seq_to_map(s).insert(k, v),
{
    let t = s.push((k, v));
    assert forall|key: K| has_key(t, key) <==> (has_key(s, key) || key == k) by {
        if has_key(t, key) {
            let j = choose|j: int| 0 <= j < t.len() && (#[trigger] t[j]).0 == key;
            if j < s.len() {
                assert(s[j] == t[j]);
            }
        }
        if has_key(s, key) {
            let j = choose|j: int| 0 <= j < s.len() && (#[trigger] s[j]).0 == key;
            assert(t[j] == s[j]);
        }
        if key == k {
            assert(t[s.len() as int].0 == key);
        }
    }
    assert(unique_keys(t)) by {
        assert forall|a: int, b: int|
            0 <= a < t.len() && 0 <= b < t.len() && a != b implies (#[trigger] t[a]).0 != (#[trigger] t[b]).0 by {
            if a < s.len() {
                assert(t[a] == s[a]);
            }
            if b < s.len() {
                assert(t[b] == s[b]);
            }
        }
    }
    assert forall|key: K| #[trigger] seq_to_map(t).contains_key(key) implies seq_to_map(t)[key]
        == seq_to_map(s).insert(k, v)[key] by {
        let j = choose|j: int| 0 <= j < t.len() && (#[trigger] t[j]).0 == key;
        lemma_entry_in_map(t, j);
        if j < s.len() {
            assert(t[j] == s[j]);
            lemma_entry_in_map(s, j);
        }
    }
    assert(seq_to_map(t) =~= seq_to_map(s).insert(k, v));
}

/// Removing the entry at `i` removes its key from the map.
pub proof fn lemma_remove_map<K, V>(s: Seq<(K, V)>, i: int)
    requires
        unique_keys(s),
        0 <= i < s.len(),
    ensures
        unique_keys(s.remove(i)),
        seq_to_map(s.remove(i)) == seq_to_map(s).remove(s[i].0),
{
    let t = s.remove(i);
    let k = s[i].0;
    assert forall|j: int| 0 <= j < t.len() implies #[trigger] t[j] == (if j < i {
        s[j]
    } else {
        s[j + 1]
    }) by {}
    assert(unique_keys(t)) by {
        assert forall|a: int, b: int|
            0 <= a < t.len() && 0 <= b < t.len() && a != b implies (#[trigger] t[a]).0 != (#[trigger] t[b]).0 by {
            let sa = if a < i { a } else { a + 1 };
            let sb = if b < i { b } else { b + 1 };
            assert(t[a] == s[sa]);
            assert(t[b] == s[sb]);
        }
    }
    assert forall|key: K| has_key(t, key) <==> (has_key(s, key) && key != k) by {
        if has_key(t, key) {
            let j = choose|j: int| 0 <= j < t.len() && (#[trigger] t[j]).0 == key;
            let sj = if j < i { j } else { j + 1 };
            assert(t[j] == s[sj]);
            assert(s[sj].0 == key);
        }
        if has_key(s, key) && key != k {
            let j = choose|j: int| 0 <= j < s.len() && (#[trigger] s[j]).0 == key;
            if j < i {
                assert(t[j] == s[j]);
            } else {
                assert(t[j - 1] == s[j]);
            }
        }
    }
    assert forall|key: K| #[trigger] seq_to_map(t).contains_key(key) implies seq_to_map(t)[key]
        == seq_to_map(s).remove(k)[key] by {
        let j = choose|j: int| 0 <= j < t.len() && (#[trigger] t[j]).0 == key;
        let sj = if j < i { j } else { j + 1 };
        assert(t[j] == s[sj]);
        lemma_entry_in_map(t, j);
        lemma_entry_in_map(s, sj);
    }
    assert(seq_to_map(t) =~= seq_to_map(s).remove(k));
}

/// A set held as a list of distinct items, in insertion order.
#[derive(Debug)]
pub struct VecSet<K> {
    items: Vec<K>,
}

impl<K> View for VecSet<K> {
    type V = Set<K>;

    open spec fn view(&self) -> Set<K> {
        self.spec_items().to_set()
    }
}

impl<K> VecSet<K> {
    /// The items, in insertion order.
    pub closed spec fn spec_items(&self) -> Seq<K> {
        self.items@
    }

    /// The items are distinct.
    pub open spec fn wf(&self) -> bool {
        self.spec_items().no_duplicates()
    }
}

impl<K: MapKey> VecSet<K> {
    /// An empty set.
    pub fn new() -> (r: Self)
        ensures
            r.wf(),
            r.spec_items().len() == 0,
            r@ == Set::<K>::empty(),
    {
        let r = VecSet { items: Vec::new() };
        proof {
            assert(r@ =~= Set::<K>::empty());
        }
        r
    }

    /// Whether `k` is in the set.
    pub fn contains(&self, k: &K) -> (r: bool)
        ensures
            r == self@.contains(*k),
    {
        let mut i: usize = 0;
        while i < self.items.len()
            invariant
                i <= self.items@.len(),
                forall|j: int| 0 <= j < i ==> self.items@[j] != *k,
            decreases self.items@.len() - i,
        {
            if self.items[i].key_eq(k) {
                proof {
                    assert(self.items@.contains(*k));
                }
                return true;
            }
            i = i + 1;
        }
        false
    }

    /// Adds `k` (last) unless it is already in the set.
    pub fn insert(&mut self, k: K)
        requires
            old(self).wf(),
        ensures
            final(self).wf(),
            final(self)@ == old(self)@.insert(k),
            old(self)@.contains(k) ==> final(self).spec_items() == old(self).spec_items(),
            !old(self)@.contains(k) ==> final(self).spec_items() == old(self).spec_items().push(k),
    {
        if !self.contains(&k) {
            let ghost before = self.items@;
            self.items.push(k);
            proof {
                assert forall|a: int, b: int|
                    0 <= a < self.items@.len() && 0 <= b < self.items@.len() && a != b implies self.items@[a]
                    != self.items@[b] by {
                    if a < before.len() && b < before.len() {
                    } else if a < before.len() {
                        assert(before.contains(self.items@[a]));
                    } else {
                        assert(before.contains(self.items@[b]));
                    }
                }
                assert forall|x: K| self.items@.contains(x) <==> (before.contains(x) || x == k) by {
                    if self.items@.contains(x) {
                        let j = choose|j: int| 0 <= j < self.items@.len() && self.items@[j] == x;
                        if j < before.len() {
                            assert(before[j] == x);
                        }
                    }
                    if before.contains(x) {
                        let j = choose|j: int| 0 <= j < before.len() && before[j] == x;
                        assert(self.items@[j] == x);
                    }
                    if x == k {
                        assert(self.items@[before.len() as int] == x);
                    }
                }
                assert(self@ =~= old(self)@.insert(k));
            }
        } else {
            proof {
                assert(old(self)@.insert(k) =~= old(self)@);
            }
        }
    }

    /// The number of items.
    pub fn len(&self) -> (r: usize)
        requires
            self.wf(),
        ensures
            r == self.spec_items().len(),
            r == self@.len(),
    {
        proof {
            self.spec_items().unique_seq_to_set();
        }
        self.items.len()
    }

    /// The item at position `i`.
    pub fn item_at(&self, i: usize) -> (r: K)
        requires
            i < self.spec_items().len(),
        ensures
            r == self.spec_items()[i as int],
    {
        self.items[i]
    }

    /// Whether the set is empty.
    pub fn is_empty(&self) -> (r: bool)
        requires
            self.wf(),
        ensures
            r == (self@.len() == 0),
    {
        self.len() == 0
    }
}

} // verus!
