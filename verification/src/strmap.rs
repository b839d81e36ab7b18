//! A map from string keys to values that keeps its entries sorted by key, as
//! `BTreeMap<String, _>` does: each key at most once, iteration in key order.

use vstd::prelude::*;

use crate::keys::{key_before, key_lt, lemma_key_lt_irreflexive, lemma_key_lt_total, lemma_key_lt_transitive};
use crate::text::{chars_of, str_eq};

verus! {

/// Entries strictly ascending by key.
pub open spec fn sorted_keys<T>(s: Seq<(Seq<char>, T)>) -> bool {
    forall|i: int, j: int| 0 <= i < j < s.len() ==> key_lt(#[trigger] s[i].0, #[trigger] s[j].0)
}

pub open spec fn has_key<T>(s: Seq<(Seq<char>, T)>, k: Seq<char>) -> bool {
    exists|i: int| 0 <= i < s.len() && #[trigger] s[i].0 == k
}

/// The value stored under `k`, if any.
pub open spec fn lookup<T>(s: Seq<(Seq<char>, T)>, k: Seq<char>) -> Option<T> {
    if has_key(s, k) {
        Some(s[choose|i: int| 0 <= i < s.len() && #[trigger] s[i].0 == k].1)
    } else {
        None
    }
}

/// In a sorted entry list the entry at `i` is what its key looks up.
pub proof fn lemma_lookup_at<T>(s: Seq<(Seq<char>, T)>, i: int)
    requires
        sorted_keys(s),
        0 <= i < s.len(),
    ensures
        lookup(s, s[i].0) == Some(s[i].1),
{
    assert(has_key(s, s[i].0));
    let j = choose|j: int| 0 <= j < s.len() && #[trigger] s[j].0 == s[i].0;
    if j < i {
        assert(key_lt(s[j].0, s[i].0));
        lemma_key_lt_irreflexive(s[i].0);
    } else if i < j {
        assert(key_lt(s[i].0, s[j].0));
        lemma_key_lt_irreflexive(s[i].0);
    }
}

/// Two sorted entry lists with the same keys list them in the same order.
pub proof fn lemma_same_keys_same_order<T, U>(s1: Seq<(Seq<char>, T)>, s2: Seq<(Seq<char>, U)>)
    requires
        sorted_keys(s1),
        sorted_keys(s2),
        forall|q: Seq<char>| has_key(s1, q) == has_key(s2, q),
    ensures
        s1.len() == s2.len(),
        forall|i: int| 0 <= i < s1.len() ==> #[trigger] s1[i].0 == s2[i].0,
    decreases s1.len(),
{
    if s1.len() == 0 {
        if s2.len() > 0 {
            assert(has_key(s2, s2[0].0));
        }
        return;
    }
    if s2.len() == 0 {
        assert(has_key(s1, s1[0].0));
        return;
    }
    let n1 = s1.len() - 1;
    let n2 = s2.len() - 1;
    let a = s1[n1].0;
    let b = s2[n2].0;
    assert(has_key(s1, a));
    assert(has_key(s2, b));
    let j = choose|j: int| 0 <= j < s2.len() && #[trigger] s2[j].0 == a;
    let k = choose|k: int| 0 <= k < s1.len() && #[trigger] s1[k].0 == b;
    if a != b {
        assert(j < n2);
        assert(k < n1);
        assert(key_lt(a, b));
        assert(key_lt(b, a));
        lemma_key_lt_transitive(a, b, a);
        lemma_key_lt_irreflexive(a);
    }
    let t1 = s1.drop_last();
    let t2 = s2.drop_last();
    assert forall|q: Seq<char>| has_key(t1, q) == has_key(t2, q) by {
        if has_key(t1, q) {
            let i = choose|i: int| 0 <= i < t1.len() && #[trigger] t1[i].0 == q;
            assert(s1[i].0 == q);
            assert(has_key(s1, q));
            assert(key_lt(q, a));
            lemma_key_lt_irreflexive(q);
            let m = choose|m: int| 0 <= m < s2.len() && #[trigger] s2[m].0 == q;
            assert(m != n2);
            assert(t2[m].0 == q);
        }
        if has_key(t2, q) {
            let i = choose|i: int| 0 <= i < t2.len() && #[trigger] t2[i].0 == q;
            assert(s2[i].0 == q);
            assert(has_key(s2, q));
            assert(key_lt(q, b));
            lemma_key_lt_irreflexive(q);
            let m = choose|m: int| 0 <= m < s1.len() && #[trigger] s1[m].0 == q;
            assert(m != n1);
            assert(t1[m].0 == q);
        }
    }
    lemma_same_keys_same_order(t1, t2);
    assert forall|i: int| 0 <= i < s1.len() implies #[trigger] s1[i].0 == s2[i].0 by {
        if i < n1 {
            assert(t1[i].0 == t2[i].0);
        }
    }
}

/// Entries with their keys taken by their characters.
pub open spec fn seq_of<T>(v: Seq<(String, T)>) -> Seq<(Seq<char>, T)> {
    Seq::new(v.len(), |i: int| (v[i].0@, v[i].1))
}

/// A map from string keys to values, sorted by key.
pub struct StrMap<T> {
    entries: Vec<(String, T)>,
}

impl<T> StrMap<T> {
    /// The entries, keys taken by their characters, in ascending key order.
    pub closed spec fn seq(&self) -> Seq<(Seq<char>, T)> {
        seq_of(self.entries@)
    }

    #[verifier::type_invariant]
    pub open spec fn well_sorted(&self) -> bool {
        sorted_keys(self.seq())
    }

    /// The value stored under `k`.
    pub open spec fn spec_get(&self, k: Seq<char>) -> Option<T> {
        lookup(self.seq(), k)
    }

    /// An empty map.
    pub fn new() -> (m: Self)
        ensures
            m.seq() == Seq::<(Seq<char>, T)>::empty(),
    {
        let m = StrMap { entries: Vec::new() };
        assert(m.seq() =~= Seq::<(Seq<char>, T)>::empty());
        m
    }

    pub fn len(&self) -> (n: usize)
        ensures
            n == self.seq().len(),
    {
        self.entries.len()
    }

    /// The key of the `i`-th entry in key order.
    pub fn key_at(&self, i: usize) -> (k: &str)
        requires
            i < self.seq().len(),
        ensures
            k@ == self.seq()[i as int].0,
    {
        self.entries[i].0.as_str()
    }

    /// The value of the `i`-th entry in key order.
    pub fn value_at(&self, i: usize) -> (v: &T)
        requires
            i < self.seq().len(),
        ensures
            *v == self.seq()[i as int].1,
    {
        &self.entries[i].1
    }

    /// Index of the entry whose key is `k`, if there is one.
    fn find(&self, k: &str) -> (r: Option<usize>)
        ensures
            match r {
                Some(i) => i < self.seq().len() && self.seq()[i as int].0 == k@,
                None => !has_key(self.seq(), k@),
            },
    {
        let mut i: usize = 0;
        while i < self.entries.len()
            invariant
                i <= self.entries.len(),
                self.seq().len() == self.entries.len(),
                forall|j: int| 0 <= j < i ==> self.seq()[j].0 != k@,
            decreases self.entries.len() - i,
        {
            if str_eq(self.entries[i].0.as_str(), k) {
                return Some(i);
            }
            i += 1;
        }
        None
    }

    /// The value stored under `k`.
    pub fn get(&self, k: &str) -> (r: Option<&T>)
        ensures
            match r {
                Some(v) => self.spec_get(k@) == Some(*v),
                None => self.spec_get(k@) is None,
            },
    {
        proof {
            use_type_invariant(self);
        }
        match self.find(k) {
            Some(i) => {
                proof {
                    lemma_lookup_at(self.seq(), i as int);
                }
                Some(&self.entries[i].1)
            },
            None => None,
        }
    }

    pub fn contains_key(&self, k: &str) -> (r: bool)
        ensures
            r == self.spec_get(k@) is Some,
    {
        match self.get(k) {
            Some(_) => true,
            None => false,
        }
    }

    /// Stores `v` under `k`, replacing any earlier value, and hands back
    /// the value that was replaced.
    pub fn insert(&mut self, k: String, v: T) -> (r: Option<T>)
        ensures
            r == old(self).spec_get(k@),
            forall|q: Seq<char>|
                #[trigger] final(self).spec_get(q) == if q == k@ {
                    Some(v)
                } else {
                    old(self).spec_get(q)
                },
            final(self).seq().len() == old(self).seq().len() + if has_key(old(self).seq(), k@) {
                0int
            } else {
                1int
            },
    {
        proof {
            use_type_invariant(&*self);
        }
        let ghost s = self.seq();
        let kc = chars_of(k.as_str());
        // first index whose key does not sort before `k`
        let mut p: usize = 0;
        while p < self.entries.len()
            invariant
                p <= self.entries.len(),
                s == self.seq(),
                s.len() == self.entries.len(),
                sorted_keys(s),
                kc@ == k@,
                forall|j: int| 0 <= j < p ==> key_lt(#[trigger] s[j].0, k@),
            ensures
                p <= self.entries.len(),
                s == self.seq(),
                s.len() == self.entries.len(),
                forall|j: int| 0 <= j < p ==> key_lt(#[trigger] s[j].0, k@),
                p < self.entries.len() ==> !key_lt(s[p as int].0, k@),
            decreases self.entries.len() - p,
        {
            let ec = chars_of(self.entries[p].0.as_str());
            if !key_before(ec.as_slice(), kc.as_slice()) {
                break;
            }
            p += 1;
        }
        proof {
            // every entry from `p` on sorts after or equal to `k`
            assert forall|j: int| p <= j < s.len() implies !key_lt(#[trigger] s[j].0, k@) by {
                if j > p && key_lt(s[j].0, k@) {
                    assert(key_lt(s[p as int].0, s[j].0));
                    lemma_key_lt_transitive(s[p as int].0, s[j].0, k@);
                }
            }
        }
        let same = p < self.entries.len() && str_eq(self.entries[p].0.as_str(), k.as_str());
        let mut entries: Vec<(String, T)> = Vec::new();
        std::mem::swap(&mut entries, &mut self.entries);
        assert(seq_of(entries@) == s);
        if same {
            let ghost kk = k@;
            let old_entry = entries.remove(p);
            entries.insert(p, (k, v));
            proof {
                lemma_lookup_at(s, p as int);
                let t = seq_of(entries@);
                assert(t =~= s.update(p as int, (kk, v)));
                assert forall|q: Seq<char>| #[trigger] lookup(t, q) == if q == kk { Some(v) } else { lookup(s, q) } by {
                    if q == kk {
                        lemma_lookup_at(t, p as int);
                    } else if has_key(s, q) {
                        let j = choose|j: int| 0 <= j < s.len() && #[trigger] s[j].0 == q;
                        lemma_lookup_at(s, j);
                        lemma_lookup_at(t, j);
                    } else {
                        if has_key(t, q) {
                            let j = choose|j: int| 0 <= j < t.len() && #[trigger] t[j].0 == q;
                            assert(s[j].0 == q);
                        }
                    }
                }
                assert(sorted_keys(t));
            }
            self.entries = entries;
            Some(old_entry.1)
        } else {
            let ghost kk = k@;
            entries.insert(p, (k, v));
            proof {
                let t = seq_of(entries@);
                assert(t =~= s.insert(p as int, (kk, v)));
                assert(!has_key(s, kk)) by {
                    if has_key(s, kk) {
                        let j = choose|j: int| 0 <= j < s.len() && #[trigger] s[j].0 == kk;
                        if j < p {
                            lemma_key_lt_irreflexive(kk);
                        } else {
                            assert(!key_lt(s[j].0, kk));
                            assert(j == p || key_lt(s[p as int].0, s[j].0));
                            if j > p {
                                lemma_key_lt_total(s[p as int].0, kk);
                                lemma_key_lt_transitive(kk, s[p as int].0, s[j].0);
                                lemma_key_lt_irreflexive(kk);
                            }
                        }
                    }
                }
                assert(sorted_keys(t)) by {
                    assert forall|i: int, j: int| 0 <= i < j < t.len() implies key_lt(#[trigger] t[i].0, #[trigger] t[j].0) by {
                        if j == p {
                            assert(key_lt(s[i].0, kk));
                        } else if i == p {
                            // s[j-1] sorts at or after k, and is not k
                            assert(!key_lt(s[j - 1].0, kk));
                            assert(s[j - 1].0 != kk) by {
                                if j - 1 == p {
                                } else {
                                    assert(s[j - 1].0 != kk);
                                }
                            }
                            lemma_key_lt_total(s[j - 1].0, kk);
                        } else if i < p && j > p {
                            assert(key_lt(s[i].0, s[j - 1].0));
                        } else if i > p {
                            assert(key_lt(s[i - 1].0, s[j - 1].0));
                        }
                    }
                }
                assert forall|q: Seq<char>| #[trigger] lookup(t, q) == if q == kk { Some(v) } else { lookup(s, q) } by {
                    if q == kk {
                        lemma_lookup_at(t, p as int);
                    } else if has_key(s, q) {
                        let j = choose|j: int| 0 <= j < s.len() && #[trigger] s[j].0 == q;
                        lemma_lookup_at(s, j);
                        if j < p {
                            lemma_lookup_at(t, j);
                        } else {
                            lemma_lookup_at(t, j + 1);
                        }
                    } else {
                        if has_key(t, q) {
                            let j = choose|j: int| 0 <= j < t.len() && #[trigger] t[j].0 == q;
                            if j < p {
                                assert(s[j].0 == q);
                            } else if j > p {
                                assert(s[j - 1].0 == q);
                            }
                        }
                    }
                }
            }
            self.entries = entries;
            None
        }
    }

    /// Removes the entry under `k`, handing back its value.
    pub fn remove(&mut self, k: &str) -> (r: Option<T>)
        ensures
            r == old(self).spec_get(k@),
            forall|q: Seq<char>|
                #[trigger] final(self).spec_get(q) == if q == k@ {
                    None
                } else {
                    old(self).spec_get(q)
                },
            final(self).seq().len() == old(self).seq().len() - if has_key(old(self).seq(), k@) {
                1int
            } else {
                0int
            },
    {
        proof {
            use_type_invariant(&*self);
        }
        let ghost s = self.seq();
        match self.find(k) {
            None => None,
            Some(p) => {
                let mut entries: Vec<(String, T)> = Vec::new();
                std::mem::swap(&mut entries, &mut self.entries);
                assert(seq_of(entries@) == s);
                let gone = entries.remove(p);
                proof {
                    lemma_lookup_at(s, p as int);
                    let t = seq_of(entries@);
                    assert(t =~= s.remove(p as int));
                    assert(sorted_keys(t)) by {
                        assert forall|i: int, j: int| 0 <= i < j < t.len() implies key_lt(#[trigger] t[i].0, #[trigger] t[j].0) by {
                            if i < p && j >= p {
                                assert(key_lt(s[i].0, s[j + 1].0));
                            } else if i >= p {
                                assert(key_lt(s[i + 1].0, s[j + 1].0));
                            }
                        }
                    }
                    assert forall|q: Seq<char>| #[trigger] lookup(t, q) == if q == k@ { None } else { lookup(s, q) } by {
                        if has_key(t, q) {
                            let j = choose|j: int| 0 <= j < t.len() && #[trigger] t[j].0 == q;
                            lemma_lookup_at(t, j);
                            if j < p {
                                lemma_lookup_at(s, j);
                                if q == k@ {
                                    assert(key_lt(s[j].0, s[p as int].0));
                                    lemma_key_lt_irreflexive(q);
                                }
                            } else {
                                lemma_lookup_at(s, j + 1);
                                if q == k@ {
                                    assert(key_lt(s[p as int].0, s[j + 1].0));
                                    lemma_key_lt_irreflexive(q);
                                }
                            }
                        } else if q != k@ && has_key(s, q) {
                            let j = choose|j: int| 0 <= j < s.len() && #[trigger] s[j].0 == q;
                            if j < p {
                                assert(t[j].0 == q);
                            } else if j > p {
                                assert(t[j - 1].0 == q);
                            }
                        }
                    }
                }
                self.entries = entries;
                Some(gone.1)
            },
        }
    }
}

} // verus!
