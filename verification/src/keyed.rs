//! An insertion-ordered map whose keys are identifiers, each present once.

use vstd::prelude::*;

verus! {

/// An identifier type: compared by its mathematical key.
pub trait IdKey: Sized {
    type Key;

    spec fn id_view(&self) -> Self::Key;

    fn same_id(&self, other: &Self) -> (r: bool)
        ensures
            r == (self.id_view() == other.id_view());
}

/// No key occurs twice.
pub open spec fn unique_keys<K: IdKey, T>(s: Seq<(K, T)>) -> bool {
    forall|i: int, j: int|
        0 <= i < s.len() && 0 <= j < s.len() && i != j ==> (#[trigger] s[i]).0.id_view() != (
        #[trigger] s[j]).0.id_view()
}

pub open spec fn has_id<K: IdKey, T>(s: Seq<(K, T)>, k: K::Key) -> bool {
    exists|i: int| 0 <= i < s.len() && (#[trigger] s[i]).0.id_view() == k
}

/// The value stored under the key whose view is `k`.
pub open spec fn id_lookup<K: IdKey, T>(s: Seq<(K, T)>, k: K::Key) -> Option<T> {
    if has_id(s, k) {
        Some(s[choose|i: int| 0 <= i < s.len() && (#[trigger] s[i]).0.id_view() == k].1)
    } else {
        None
    }
}

pub proof fn lemma_id_lookup_at<K: IdKey, T>(s: Seq<(K, T)>, i: int)
    requires
        unique_keys(s),
        0 <= i < s.len(),
    ensures
        id_lookup(s, s[i].0.id_view()) == Some(s[i].1),
{
    assert(has_id(s, s[i].0.id_view()));
}

/// A map from identifiers to values, in insertion order.
pub struct KeyedVec<K: IdKey, T> {
    entries: Vec<(K, T)>,
}

impl<K: IdKey, T> KeyedVec<K, T> {
    pub closed spec fn seq(&self) -> Seq<(K, T)> {
        self.entries@
    }

    #[verifier::type_invariant]
    pub open spec fn keys_unique(&self) -> bool {
        unique_keys(self.seq())
    }

    /// The value stored under the key whose view is `k`.
    pub open spec fn spec_get(&self, k: K::Key) -> Option<T> {
        id_lookup(self.seq(), k)
    }

    /// Index of the entry whose key view is `k`.
    pub open spec fn index_of(&self, k: K::Key) -> Option<int> {
        if has_id(self.seq(), k) {
            Some(choose|i: int| 0 <= i < self.seq().len() && (#[trigger] self.seq()[i]).0.id_view() == k)
        } else {
            None
        }
    }

    pub fn new() -> (m: Self)
        ensures
            m.seq() == Seq::<(K, T)>::empty(),
            forall|q: K::Key| #[trigger] m.spec_get(q) is None,
    {
        let m = KeyedVec { entries: Vec::new() };
        assert(forall|q: K::Key| !has_id(m.seq(), q));
        m
    }

    pub fn len(&self) -> (n: usize)
        ensures
            n == self.seq().len(),
    {
        self.entries.len()
    }

    pub fn key_at(&self, i: usize) -> (k: &K)
        requires
            i < self.seq().len(),
        ensures
            *k == self.seq()[i as int].0,
    {
        &self.entries[i].0
    }

    pub fn value_at(&self, i: usize) -> (v: &T)
        requires
            i < self.seq().len(),
        ensures
            *v == self.seq()[i as int].1,
    {
        &self.entries[i].1
    }

    /// Index of the entry with key `k`.
    pub fn find(&self, k: &K) -> (r: Option<usize>)
        ensures
            match r {
                Some(i) => i < self.seq().len() && self.seq()[i as int].0.id_view() == k.id_view()
                    && self.spec_get(k.id_view()) == Some(self.seq()[i as int].1)
                    && self.index_of(k.id_view()) == Some(i as int),
                None => self.spec_get(k.id_view()) is None && !has_id(self.seq(), k.id_view())
                    && self.index_of(k.id_view()) is None,
            },
    {
        proof {
            use_type_invariant(self);
        }
        let mut i: usize = 0;
        while i < self.entries.len()
            invariant
                i <= self.entries.len(),
                unique_keys(self.seq()),
                forall|j: int| 0 <= j < i ==> (#[trigger] self.seq()[j]).0.id_view() != k.id_view(),
            decreases self.entries.len() - i,
        {
            if self.entries[i].0.same_id(k) {
                proof {
                    lemma_id_lookup_at(self.seq(), i as int);
                    let j = choose|j: int| 0 <= j < self.seq().len() && (#[trigger] self.seq()[j]).0.id_view() == k.id_view();
                    assert(j == i);
                }
                return Some(i);
            }
            i += 1;
        }
        None
    }

    pub fn get(&self, k: &K) -> (r: Option<&T>)
        ensures
            match r {
                Some(v) => self.spec_get(k.id_view()) == Some(*v),
                None => self.spec_get(k.id_view()) is None,
            },
    {
        match self.find(k) {
            Some(i) => Some(&self.entries[i].1),
            None => None,
        }
    }

    pub fn contains_key(&self, k: &K) -> (r: bool)
        ensures
            r == self.spec_get(k.id_view()) is Some,
    {
        match self.find(k) {
            Some(_) => true,
            None => false,
        }
    }

    /// Removes and hands back the entry at `i`.
    pub fn remove_at(&mut self, i: usize) -> (e: (K, T))
        requires
            i < old(self).seq().len(),
        ensures
            e == old(self).seq()[i as int],
            final(self).seq() == old(self).seq().remove(i as int),
            forall|q: K::Key|
                #[trigger] final(self).spec_get(q) == if q == e.0.id_view() {
                    None
                } else {
                    old(self).spec_get(q)
                },
    {
        proof {
            use_type_invariant(&*self);
        }
        let ghost s = self.seq();
        let mut entries: Vec<(K, T)> = Vec::new();
        std::mem::swap(&mut entries, &mut self.entries);
        let e = entries.remove(i);
        proof {
            let t = entries@;
            assert(t =~= s.remove(i as int));
            assert(unique_keys(t)) by {
                assert forall|a: int, b: int|
                    0 <= a < t.len() && 0 <= b < t.len() && a != b implies (#[trigger] t[a]).0.id_view() != (#[trigger] t[b]).0.id_view() by {
                    let a2 = if a < i { a } else { a + 1 };
                    let b2 = if b < i { b } else { b + 1 };
                    assert(t[a] == s[a2] && t[b] == s[b2]);
                }
            }
            assert forall|q: K::Key|
                #[trigger] id_lookup(t, q) == if q == e.0.id_view() { None } else { id_lookup(s, q) } by {
                if has_id(t, q) {
                    let j = choose|j: int| 0 <= j < t.len() && (#[trigger] t[j]).0.id_view() == q;
                    let j2 = if j < i { j } else { j + 1 };
                    assert(t[j] == s[j2]);
                    lemma_id_lookup_at(t, j);
                    lemma_id_lookup_at(s, j2);
                } else if q != e.0.id_view() && has_id(s, q) {
                    let j = choose|j: int| 0 <= j < s.len() && (#[trigger] s[j]).0.id_view() == q;
                    if j < i {
                        assert(t[j] == s[j]);
                    } else if j > i {
                        assert(t[j - 1] == s[j]);
                    }
                }
            }
        }
        self.entries = entries;
        e
    }

    /// Puts `(k, v)` at index `i`; `k` must not be present.
    pub fn insert_at(&mut self, i: usize, k: K, v: T)
        requires
            i <= old(self).seq().len(),
            old(self).spec_get(k.id_view()) is None,
        ensures
            final(self).seq() == old(self).seq().insert(i as int, (k, v)),
            forall|q: K::Key|
                #[trigger] final(self).spec_get(q) == if q == k.id_view() {
                    Some(v)
                } else {
                    old(self).spec_get(q)
                },
    {
        proof {
            use_type_invariant(&*self);
        }
        let ghost s = self.seq();
        let ghost kv = k.id_view();
        let ghost e = (k, v);
        let mut entries: Vec<(K, T)> = Vec::new();
        std::mem::swap(&mut entries, &mut self.entries);
        entries.insert(i, (k, v));
        proof {
            let t = entries@;
            assert(t =~= s.insert(i as int, e));
            assert(!has_id(s, kv));
            assert(unique_keys(t)) by {
                assert forall|a: int, b: int|
                    0 <= a < t.len() && 0 <= b < t.len() && a != b implies (#[trigger] t[a]).0.id_view() != (#[trigger] t[b]).0.id_view() by {
                    if a == i {
                        let b2 = if b < i { b } else { b - 1 };
                        assert(t[b] == s[b2]);
                    } else if b == i {
                        let a2 = if a < i { a } else { a - 1 };
                        assert(t[a] == s[a2]);
                    } else {
                        let a2 = if a < i { a } else { a - 1 };
                        let b2 = if b < i { b } else { b - 1 };
                        assert(t[a] == s[a2] && t[b] == s[b2]);
                    }
                }
            }
            assert forall|q: K::Key|
                #[trigger] id_lookup(t, q) == if q == kv { Some(e.1) } else { id_lookup(s, q) } by {
                if q == kv {
                    lemma_id_lookup_at(t, i as int);
                } else if has_id(s, q) {
                    let j = choose|j: int| 0 <= j < s.len() && (#[trigger] s[j]).0.id_view() == q;
                    let j2 = if j < i { j } else { j + 1 };
                    assert(t[j2] == s[j]);
                    lemma_id_lookup_at(s, j);
                    lemma_id_lookup_at(t, j2);
                } else if has_id(t, q) {
                    let j = choose|j: int| 0 <= j < t.len() && (#[trigger] t[j]).0.id_view() == q;
                    if j < i {
                        assert(t[j] == s[j]);
                    } else if j > i {
                        assert(t[j] == s[j - 1]);
                    }
                }
            }
        }
        self.entries = entries;
    }

    /// Replaces the value at index `i`, keeping its key; hands back the old value.
    pub fn update_at(&mut self, i: usize, v: T) -> (old_v: T)
        requires
            i < old(self).seq().len(),
        ensures
            old_v == old(self).seq()[i as int].1,
            final(self).seq() == old(self).seq().update(i as int, (old(self).seq()[i as int].0, v)),
            forall|q: K::Key|
                #[trigger] final(self).spec_get(q) == if q == old(self).seq()[i as int].0.id_view() {
                    Some(v)
                } else {
                    old(self).spec_get(q)
                },
    {
        let (k, old_v) = self.remove_at(i);
        self.insert_at(i, k, v);
        assert(self.seq() =~= old(self).seq().update(i as int, (old(self).seq()[i as int].0, v)));
        old_v
    }

    /// Stores `v` under `k`: in place when `k` is present, else appended.
    /// Hands back the replaced value.
    pub fn insert(&mut self, k: K, v: T) -> (r: Option<T>)
        ensures
            r == old(self).spec_get(k.id_view()),
            forall|q: K::Key|
                #[trigger] final(self).spec_get(q) == if q == k.id_view() {
                    Some(v)
                } else {
                    old(self).spec_get(q)
                },
            match old(self).index_of(k.id_view()) {
                Some(i) => final(self).seq() == old(self).seq().update(i, (k, v)),
                None => final(self).seq() == old(self).seq().push((k, v)),
            },
    {
        match self.find(&k) {
            Some(i) => {
                let (_, old_v) = self.remove_at(i);
                self.insert_at(i, k, v);
                assert(self.seq() =~= old(self).seq().update(i as int, (k, v)));
                Some(old_v)
            },
            None => {
                let n = self.entries.len();
                self.insert_at(n, k, v);
                assert(self.seq() =~= old(self).seq().push((k, v)));
                None
            },
        }
    }

    /// Stores `v` under `k` as the first entry, dropping any earlier entry.
    pub fn insert_front(&mut self, k: K, v: T)
        ensures
            final(self).seq().len() > 0,
            final(self).seq()[0] == (k, v),
            forall|q: K::Key|
                #[trigger] final(self).spec_get(q) == if q == k.id_view() {
                    Some(v)
                } else {
                    old(self).spec_get(q)
                },
    {
        match self.find(&k) {
            Some(i) => {
                self.remove_at(i);
            },
            None => {},
        }
        self.insert_at(0, k, v);
    }

    pub fn remove(&mut self, k: &K) -> (r: Option<T>)
        ensures
            r == old(self).spec_get(k.id_view()),
            r is None ==> *final(self) == *old(self),
            forall|q: K::Key|
                #[trigger] final(self).spec_get(q) == if q == k.id_view() {
                    None
                } else {
                    old(self).spec_get(q)
                },
    {
        match self.find(k) {
            Some(i) => {
                let (_, v) = self.remove_at(i);
                Some(v)
            },
            None => {
                proof {
                    assert forall|q: K::Key| #[trigger] self.spec_get(q) == if q == k.id_view() { None } else { self.spec_get(q) } by {}
                }
                None
            },
        }
    }
}

} // verus!
