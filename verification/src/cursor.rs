//! Per-session cursor tracking: the last applied cursor of each session.

use vstd::prelude::*;

use crate::protocol::{SessionKey, UiCursor};
use crate::strmap::StrMap;

verus! {

/// In-memory session key to cursor map.
pub struct CursorStore {
    inner: StrMap<UiCursor>,
}

impl CursorStore {
    /// The cursor stored for the session whose key is `k`.
    pub closed spec fn cursor_of(&self, k: Seq<char>) -> Option<UiCursor> {
        self.inner.spec_get(k)
    }

    /// Number of sessions with a cursor.
    pub closed spec fn count(&self) -> nat {
        self.inner.seq().len()
    }

    /// A store that holds no cursor.
    pub fn new() -> (r: Self)
        ensures
            forall|k: Seq<char>| #[trigger] r.cursor_of(k) is None,
            r.count() == 0,
    {
        let r = CursorStore { inner: StrMap::new() };
        assert(forall|k: Seq<char>| !crate::strmap::has_key(r.inner.seq(), k));
        r
    }

    pub fn get(&self, session: &SessionKey) -> (r: Option<&UiCursor>)
        ensures
            match r {
                Some(c) => self.cursor_of(session.0@) == Some(*c),
                None => self.cursor_of(session.0@) is None,
            },
    {
        self.inner.get(session.0.as_str())
    }

    /// Records `cursor` for `session`; other sessions keep theirs.
    pub fn set(&mut self, session: SessionKey, cursor: UiCursor)
        ensures
            forall|k: Seq<char>|
                #[trigger] final(self).cursor_of(k) == if k == session.0@ {
                    Some(cursor)
                } else {
                    old(self).cursor_of(k)
                },
    {
        let SessionKey(key) = session;
        self.inner.insert(key, cursor);
    }

    /// Forgets the cursor of `session`; other sessions keep theirs.
    pub fn drop(&mut self, session: &SessionKey)
        ensures
            forall|k: Seq<char>|
                #[trigger] final(self).cursor_of(k) == if k == session.0@ {
                    None
                } else {
                    old(self).cursor_of(k)
                },
    {
        self.inner.remove(session.0.as_str());
    }

    /// Same as `drop`.
    pub fn delete(&mut self, session: &SessionKey)
        ensures
            forall|k: Seq<char>|
                #[trigger] final(self).cursor_of(k) == if k == session.0@ {
                    None
                } else {
                    old(self).cursor_of(k)
                },
    {
        self.inner.remove(session.0.as_str());
    }

    /// Every `(session key, cursor)` pair, each session once.
    pub fn iter(&self) -> (r: Vec<(&str, &UiCursor)>)
        ensures
            r.len() == self.count(),
            forall|i: int| 0 <= i < r.len() ==> self.cursor_of(r[i].0@) == Some(*r[i].1),
            forall|i: int, j: int| 0 <= i < j < r.len() ==> r[i].0@ != r[j].0@,
            forall|k: Seq<char>|
                #[trigger] self.cursor_of(k) is Some ==> exists|i: int| 0 <= i < r.len() && r[i].0@ == k,
    {
        proof {
            use_type_invariant(&self.inner);
        }
        let mut out: Vec<(&str, &UiCursor)> = Vec::new();
        let ghost s = self.inner.seq();
        let mut i: usize = 0;
        while i < self.inner.len()
            invariant
                i <= s.len(),
                s == self.inner.seq(),
                crate::strmap::sorted_keys(s),
                out.len() == i,
                forall|j: int| 0 <= j < i ==> (#[trigger] out@[j]).0@ == s[j].0 && *out@[j].1 == s[j].1,
            decreases s.len() - i,
        {
            out.push((self.inner.key_at(i), self.inner.value_at(i)));
            i += 1;
        }
        proof {
            assert forall|j: int| 0 <= j < out.len() implies self.cursor_of(out[j].0@) == Some(*out[j].1) by {
                crate::strmap::lemma_lookup_at(s, j);
            }
            assert forall|a: int, b: int| 0 <= a < b < out.len() implies out[a].0@ != out[b].0@ by {
                assert(crate::keys::key_lt(s[a].0, s[b].0));
                crate::keys::lemma_key_lt_irreflexive(s[a].0);
            }
            assert forall|k: Seq<char>| #[trigger] self.cursor_of(k) is Some implies exists|i: int| 0 <= i < out.len() && out[i].0@ == k by {
                let j = choose|j: int| 0 <= j < s.len() && #[trigger] s[j].0 == k;
                assert(out[j].0@ == k);
            }
        }
        out
    }
}

/// Pluggable persistence for cursors. Errors flatten to `String`; losing a
/// cursor downgrades to a rehydrate, never to corruption.
pub trait CursorPersist {
    fn load(&self, session: &SessionKey) -> Result<Option<UiCursor>, String>;

    fn save(&self, session: &SessionKey, cursor: &UiCursor) -> Result<(), String>;

    fn forget(&self, session: &SessionKey) -> Result<(), String>;
}

/// Persistence that keeps nothing.
#[derive(Debug, Default, Clone, Copy)]
pub struct NoopCursorPersist;

impl CursorPersist for NoopCursorPersist {
    fn load(&self, session: &SessionKey) -> (r: Result<Option<UiCursor>, String>)
        ensures
            r == Ok::<Option<UiCursor>, String>(None),
    {
        Ok(None)
    }

    fn save(&self, session: &SessionKey, cursor: &UiCursor) -> (r: Result<(), String>)
        ensures
            r == Ok::<(), String>(()),
    {
        Ok(())
    }

    fn forget(&self, session: &SessionKey) -> (r: Result<(), String>)
        ensures
            r == Ok::<(), String>(()),
    {
        Ok(())
    }
}

} // verus!
