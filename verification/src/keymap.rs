//! Small maps held as association lists with distinct keys. The library's
//! maps are keyed by identifiers and texts; with such keys, vstd's
//! specification of std's `HashMap` and `BTreeMap` gives nothing to prove
//! lookups and inserts against, so the map is kept here, with every
//! operation stated over a `Map` model.
use vstd::prelude::*;
use crate::cid::KotobaCid;

verus! {

/// A key compared by its model.
pub trait Key: View + Sized {
    /// Whether two keys have the same model.
    fn same_key(&self, other: &Self) -> (r: bool)
        ensures
            r == (self@ == other@);

    /// A copy of the key.
    fn copy_key(&self) -> (r: Self)
        ensures
            r@ == self@;
}

impl Key for KotobaCid {
    fn same_key(&self, other: &Self) -> (r: bool) {
        *self == *other
    }

    fn copy_key(&self) -> (r: Self) {
        *self
    }
}

impl View for KotobaCid {
    type V = Seq<u8>;

    open spec fn view(&self) -> Seq<u8> {
        self.0@
    }
}

impl Key for String {
    fn same_key(&self, other: &Self) -> (r: bool) {
        *self == *other
    }

    fn copy_key(&self) -> (r: Self) {
        self.clone()
    }
}

/// Whether some entry has key `k`.
pub open spec fn has_key<K: View, V>(s: Seq<(K, V)>, k: K::V) -> bool {
    exists|i: int| 0 <= i < s.len() && (#[trigger] s[i]).0@ == k
}

/// The index of the entry with key `k`.
pub open spec fn key_index<K: View, V>(s: Seq<(K, V)>, k: K::V) -> int {
    choose|i: int| 0 <= i < s.len() && (#[trigger] s[i]).0@ == k
}

/// No two entries have the same key.
pub open spec fn keys_distinct<K: View, V>(s: Seq<(K, V)>) -> bool {
    forall|i: int, j: int| 0 <= i < s.len() && 0 <= j < s.len() && i != j ==> (#[trigger] s[i]).0@ != (#[trigger] s[j]).0@
}

/// The map that an association list denotes.
pub open spec fn map_of<K: View, V>(s: Seq<(K, V)>) -> Map<K::V, V> {
    Map::new(|k: K::V| has_key(s, k), |k: K::V| s[key_index(s, k)].1)
}

/// A map held as an association list with distinct keys.
#[derive(Debug)]
pub struct KeyMap<K: Key, V> {
    entries: Vec<(K, V)>,
}

impl<K: Key, V> View for KeyMap<K, V> {
    type V = Map<K::V, V>;

    closed spec fn view(&self) -> Map<K::V, V> {
        map_of(self.entries@)
    }
}

impl<K: Key, V> KeyMap<K, V> {
    #[verifier::type_invariant]
    spec fn inv(self) -> bool {
        keys_distinct(self.entries@)
    }

    /// An empty map.
    pub fn new() -> (m: KeyMap<K, V>)
        ensures
            m@ == Map::<K::V, V>::empty(),
    {
        let m = KeyMap { entries: Vec::new() };
        assert(m@ =~= Map::<K::V, V>::empty());
        m
    }

    /// Number of keys.
    pub fn len(&self) -> (n: usize)
        ensures
            n == self@.dom().len(),
            self@.dom().finite(),
    {
        proof {
            use_type_invariant(self);
            self.lemma_len();
        }
        self.entries.len()
    }

    proof fn lemma_len(&self)
        requires
            keys_distinct(self.entries@),
        ensures
            self@.dom().finite(),
            self@.dom().len() == self.entries@.len(),
        decreases self.entries@.len(),
    {
        let s = self.entries@;
        let ks = Seq::new(s.len(), |i: int| s[i].0@);
        assert(ks.no_duplicates());
        ks.unique_seq_to_set();
        assert(self@.dom() =~= ks.to_set()) by {
            assert forall|k: K::V| self@.dom().contains(k) implies ks.to_set().contains(k) by {
                let i = key_index(s, k);
                assert(ks[i] == k);
            }
            assert forall|k: K::V| ks.to_set().contains(k) implies self@.dom().contains(k) by {
                let i = choose|i: int| 0 <= i < ks.len() && ks[i] == k;
                assert(s[i].0@ == k);
            }
        }
    }

    fn find(&self, k: &K) -> (r: Option<usize>)
        ensures
            match r {
                Some(i) => i < self.entries@.len() && self.entries@[i as int].0@ == k@,
                None => !has_key(self.entries@, k@),
            },
    {
        let mut i: usize = 0;
        while i < self.entries.len()
            invariant
                i <= self.entries@.len(),
                forall|j: int| 0 <= j < i ==> self.entries@[j].0@ != k@,
            decreases self.entries@.len() - i,
        {
            if self.entries[i].0.same_key(k) {
                return Some(i);
            }
            i += 1;
        }
        None
    }

    /// The value for a key.
    pub fn get(&self, k: &K) -> (r: Option<&V>)
        ensures
            match r {
                Some(v) => self@.contains_key(k@) && *v == self@[k@],
                None => !self@.contains_key(k@),
            },
    {
        proof {
            use_type_invariant(self);
        }
        match self.find(k) {
            Some(i) => {
                let ghost j = key_index(self.entries@, k@);
                assert(self.entries@[j].0@ == k@);
                assert(i == j);
                Some(&self.entries[i].1)
            },
            None => None,
        }
    }

    /// Whether a key is present.
    pub fn contains_key(&self, k: &K) -> (b: bool)
        ensures
            b == self@.contains_key(k@),
    {
        self.find(k).is_some()
    }

    /// Sets the value of a key.
    pub fn insert(&mut self, k: K, v: V)
        ensures
            final(self)@ == old(self)@.insert(k@, v),
    {
        proof {
            use_type_invariant(&*self);
        }
        let ghost s = self.entries@;
        let ghost kv = k@;
        let ghost vv = v;
        let mut es: Vec<(K, V)> = Vec::new();
        std::mem::swap(&mut es, &mut self.entries);
        match self.find_in(&es, &k) {
            Some(i) => {
                es.set(i, (k, v));
                let ghost t = es@;
                assert(keys_distinct(t)) by {
                    assert forall|a: int, b: int| 0 <= a < t.len() && 0 <= b < t.len() && a != b
                        implies (#[trigger] t[a]).0@ != (#[trigger] t[b]).0@ by {
                        if a != i && b != i {
                            assert(t[a] == s[a] && t[b] == s[b]);
                        } else if a == i {
                            assert(t[b] == s[b]);
                        } else {
                            assert(t[a] == s[a]);
                        }
                    }
                }
                assert(map_of(t) =~= map_of(s).insert(kv, vv)) by {
                    assert forall|q: K::V| #[trigger] map_of(t).contains_key(q) <==> map_of(s).insert(kv, vv).contains_key(q) by {
                        if has_key(t, q) && q != kv {
                            let j = choose|j: int| 0 <= j < t.len() && (#[trigger] t[j]).0@ == q;
                            assert(j != i);
                            assert(s[j] == t[j]);
                        }
                        if has_key(s, q) && q != kv {
                            let j = choose|j: int| 0 <= j < s.len() && (#[trigger] s[j]).0@ == q;
                            assert(s[j].0@ != s[i as int].0@);
                            assert(s[j] == t[j]);
                        }
                        if q == kv {
                            assert(t[i as int].0@ == kv);
                        }
                    }
                    assert forall|q: K::V| #[trigger] map_of(t).contains_key(q) implies map_of(t)[q] == map_of(s).insert(kv, vv)[q] by {
                        let j = key_index(t, q);
                        if q == kv {
                            assert(t[i as int].0@ == kv);
                            assert(j == i);
                        } else {
                            assert(j != i);
                            assert(s[j] == t[j]);
                            let j2 = key_index(s, q);
                            assert(s[j2].0@ == q);
                            assert(j2 == j);
                        }
                    }
                }
            },
            None => {
                es.push((k, v));
                let ghost t = es@;
                assert(keys_distinct(t)) by {
                    assert forall|a: int, b: int| 0 <= a < t.len() && 0 <= b < t.len() && a != b
                        implies (#[trigger] t[a]).0@ != (#[trigger] t[b]).0@ by {
                        if a < s.len() && b < s.len() {
                            assert(t[a] == s[a] && t[b] == s[b]);
                        } else if a < s.len() {
                            assert(t[a] == s[a]);
                        } else {
                            assert(t[b] == s[b]);
                        }
                    }
                }
                assert(map_of(t) =~= map_of(s).insert(kv, vv)) by {
                    let n = s.len() as int;
                    assert(t[n].0@ == kv);
                    assert forall|q: K::V| #[trigger] map_of(t).contains_key(q) <==> map_of(s).insert(kv, vv).contains_key(q) by {
                        if has_key(t, q) && q != kv {
                            let j = choose|j: int| 0 <= j < t.len() && (#[trigger] t[j]).0@ == q;
                            assert(j != n);
                            assert(s[j] == t[j]);
                        }
                        if has_key(s, q) {
                            let j = choose|j: int| 0 <= j < s.len() && (#[trigger] s[j]).0@ == q;
                            assert(s[j] == t[j]);
                        }
                    }
                    assert forall|q: K::V| #[trigger] map_of(t).contains_key(q) implies map_of(t)[q] == map_of(s).insert(kv, vv)[q] by {
                        let j = key_index(t, q);
                        if q == kv {
                            assert(j == n);
                        } else {
                            assert(j != n);
                            assert(s[j] == t[j]);
                            let j2 = key_index(s, q);
                            assert(s[j2].0@ == q);
                            assert(t[j2] == s[j2]);
                            assert(j2 == j);
                        }
                    }
                }
            },
        }
        self.entries = es;
    }

    fn find_in(&self, es: &Vec<(K, V)>, k: &K) -> (r: Option<usize>)
        ensures
            match r {
                Some(i) => i < es@.len() && es@[i as int].0@ == k@,
                None => !has_key(es@, k@),
            },
    {
        let mut i: usize = 0;
        while i < es.len()
            invariant
                i <= es@.len(),
                forall|j: int| 0 <= j < i ==> es@[j].0@ != k@,
            decreases es@.len() - i,
        {
            if es[i].0.same_key(k) {
                return Some(i);
            }
            i += 1;
        }
        None
    }

    /// Removes a key, handing back its value.
    pub fn take(&mut self, k: &K) -> (r: Option<V>)
        ensures
            final(self)@ == old(self)@.remove(k@),
            r == if old(self)@.contains_key(k@) {
                Some(old(self)@[k@])
            } else {
                None
            },
    {
        proof {
            use_type_invariant(&*self);
        }
        let ghost s = self.entries@;
        let mut es: Vec<(K, V)> = Vec::new();
        std::mem::swap(&mut es, &mut self.entries);
        let r = match self.find_in(&es, k) {
            Some(i) => {
                let e = es.remove(i);
                let ghost t = es@;
                assert(t =~= s.remove(i as int));
                assert(forall|j: int| 0 <= j < i ==> t[j] == s[j]);
                assert(forall|j: int| i <= j < t.len() ==> t[j] == s[j + 1]);
                assert(keys_distinct(t)) by {
                    assert forall|a: int, b: int| 0 <= a < t.len() && 0 <= b < t.len() && a != b
                        implies (#[trigger] t[a]).0@ != (#[trigger] t[b]).0@ by {
                        let a2 = if a < i { a } else { a + 1 };
                        let b2 = if b < i { b } else { b + 1 };
                        assert(t[a] == s[a2] && t[b] == s[b2]);
                    }
                }
                assert(map_of(t) =~= map_of(s).remove(k@)) by {
                    assert forall|q: K::V| #[trigger] map_of(t).contains_key(q) <==> map_of(s).remove(k@).contains_key(q) by {
                        if has_key(t, q) {
                            let j = choose|j: int| 0 <= j < t.len() && (#[trigger] t[j]).0@ == q;
                            let j2 = if j < i { j } else { j + 1 };
                            assert(s[j2] == t[j]);
                            assert(j2 != i);
                        }
                        if has_key(s, q) && q != k@ {
                            let j = choose|j: int| 0 <= j < s.len() && (#[trigger] s[j]).0@ == q;
                            assert(j != i);
                            if j < i {
                                assert(t[j] == s[j]);
                            } else {
                                assert(t[j - 1] == s[j]);
                            }
                        }
                    }
                    assert forall|q: K::V| #[trigger] map_of(t).contains_key(q) implies map_of(t)[q] == map_of(s).remove(k@)[q] by {
                        let j = key_index(t, q);
                        let j2 = if j < i { j } else { j + 1 };
                        assert(s[j2] == t[j]);
                        let j3 = key_index(s, q);
                        assert(s[j3].0@ == q);
                        assert(j3 == j2);
                    }
                }
                let ghost j = key_index(s, k@);
                assert(s[i as int].0@ == k@);
                assert(s[j].0@ == k@);
                assert(j == i);
                Some(e.1)
            },
            None => {
                assert(map_of(s) =~= map_of(s).remove(k@));
                None
            },
        };
        self.entries = es;
        r
    }

    /// Removes a key.
    pub fn remove(&mut self, k: &K)
        ensures
            final(self)@ == old(self)@.remove(k@),
    {
        let _ = self.take(k);
    }
}

} // verus!
