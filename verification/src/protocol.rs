//! Protocol identifiers shared by the transport and the store.

use vstd::prelude::*;

verus! {

/// Session identifier, `<channel>:<chat id>`.
#[derive(Debug)]
pub struct SessionKey(pub String);

impl SessionKey {
    pub fn new(channel: &str, chat_id: &str) -> (r: Self)
        ensures
            r.0@ == channel@ + ":"@ + chat_id@,
    {
        let mut s = channel.to_owned();
        crate::text::push_char(&mut s, ':');
        let mut i: usize = 0;
        let c = crate::text::chars_of(chat_id);
        let ghost base = s@;
        while i < c.len()
            invariant
                i <= c.len(),
                c@ == chat_id@,
                base == channel@ + seq![':'],
                s@ == base + c@.take(i as int),
            decreases c.len() - i,
        {
            crate::text::push_char(&mut s, c[i]);
            assert(c@.take(i as int).push(c@[i as int]) =~= c@.take(i + 1));
            i += 1;
        }
        assert(c@.take(c.len() as int) =~= c@);
        proof {
            reveal_strlit(":");
            assert(":"@ =~= seq![':']);
        }
        SessionKey(s)
    }

    pub fn as_str(&self) -> (r: &str)
        ensures
            r@ == self.0@,
    {
        self.0.as_str()
    }
}

impl Clone for SessionKey {
    fn clone(&self) -> (r: Self)
        ensures
            r == *self,
    {
        SessionKey(self.0.clone())
    }
}

/// Resumable consumption position in a session's notification ledger.
#[derive(Debug)]
pub struct UiCursor {
    pub stream: String,
    pub seq: u64,
}

impl PartialEq for UiCursor {
    fn eq(&self, other: &Self) -> (r: bool) {
        self.stream == other.stream && self.seq == other.seq
    }
}

impl vstd::std_specs::cmp::PartialEqSpecImpl for UiCursor {
    open spec fn obeys_eq_spec() -> bool {
        true
    }

    open spec fn eq_spec(&self, other: &Self) -> bool {
        self.stream@ == other.stream@ && self.seq == other.seq
    }
}

impl Clone for UiCursor {
    fn clone(&self) -> (r: Self)
        ensures
            r == *self,
    {
        UiCursor { stream: self.stream.clone(), seq: self.seq }
    }
}

} // verus!
