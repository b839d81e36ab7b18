//! The chat surface's data: the message thread, the reply being streamed,
//! the per-card A2App state, and how each chat event changes them. It also
//! composes the text sent for a prompt. Drawing and disk I/O are the
//! caller's part.

use vstd::prelude::*;

use crate::a2app::{
    app_splash_followup, app_splash_prompt, card_name_in, extract_card_name, extract_runsplash_body,
    spec_runsplash_body, CardStates, SPLASH_FOLLOWUP_HEAD, SPLASH_PROMPT_HEAD, SPLASH_PROMPT_MID,
};
use crate::search::{lines, trim};
use crate::text::append_str;

verus! {

#[derive(Clone, Copy, Debug, PartialEq, Eq, Structural)]
pub enum ChatRole {
    User,
    Assistant,
}

pub struct ChatMessage {
    pub role: ChatRole,
    pub text: String,
}

impl Clone for ChatMessage {
    fn clone(&self) -> (r: Self)
        ensures
            r == *self,
    {
        ChatMessage { role: self.role, text: self.text.clone() }
    }
}

/// The roles and texts of a thread.
pub open spec fn thread_view(m: Seq<ChatMessage>) -> Seq<(ChatRole, Seq<char>)> {
    m.map_values(|x: ChatMessage| (x.role, x.text@))
}

pub struct ChatData {
    pub messages: Vec<ChatMessage>,
    /// The reply streamed so far.
    pub streaming_text: String,
    /// The model's thinking streamed so far.
    pub thinking_text: String,
    pub is_streaming: bool,
    /// Per-card A2App state: card (message index) to its state.
    pub a2app_state: CardStates,
}

/// How a finished turn ended.
pub struct TurnEnd {
    /// The reply held a runsplash card, which now renders.
    pub rendered_card: bool,
    /// A named card to save: its name and body.
    pub save: Option<(String, String)>,
    /// The reply was not safe to keep and was dropped.
    pub discarded: bool,
}

impl ChatData {
    pub fn new() -> (r: Self)
        ensures
            r.messages@.len() == 0,
            r.streaming_text@.len() == 0,
            r.thinking_text@.len() == 0,
            !r.is_streaming,
            r.a2app_state@ == Map::<usize, crate::a2app::CardState>::empty(),
    {
        ChatData {
            messages: Vec::new(),
            streaming_text: String::new(),
            thinking_text: String::new(),
            is_streaming: false,
            a2app_state: std::collections::BTreeMap::new(),
        }
    }

    /// A prompt was sent: the user's bubble is added, both buffers start
    /// empty and streaming is on. Returns the item count to scroll to (the
    /// thread plus the streaming bubble).
    pub fn begin_turn(&mut self, text: &str) -> (items: usize)
        requires
            old(self).messages@.len() + 2 <= usize::MAX,
        ensures
            thread_view(final(self).messages@) == thread_view(old(self).messages@).push((ChatRole::User, text@)),
            final(self).streaming_text@.len() == 0,
            final(self).thinking_text@.len() == 0,
            final(self).is_streaming,
            final(self).a2app_state == old(self).a2app_state,
            items == final(self).messages@.len() + 1,
    {
        self.messages.push(ChatMessage { role: ChatRole::User, text: text.to_owned() });
        self.streaming_text = String::new();
        self.thinking_text = String::new();
        self.is_streaming = true;
        assert(thread_view(self.messages@) =~= thread_view(old(self).messages@).push((ChatRole::User, text@)));
        self.messages.len() + 1
    }

    /// Streamed reply text arrived.
    pub fn push_text_delta(&mut self, text: &str)
        ensures
            final(self).streaming_text@ == old(self).streaming_text@ + text@,
            *final(self) == (ChatData { streaming_text: final(self).streaming_text, ..*old(self) }),
    {
        append_str(&mut self.streaming_text, text);
    }

    /// Streamed thinking arrived; says whether it is the first of the turn.
    pub fn push_thinking_delta(&mut self, text: &str) -> (first: bool)
        ensures
            first == (old(self).thinking_text@.len() == 0),
            final(self).thinking_text@ == old(self).thinking_text@ + text@,
            *final(self) == (ChatData { thinking_text: final(self).thinking_text, ..*old(self) }),
    {
        let first = self.thinking_text.as_str().is_empty();
        append_str(&mut self.thinking_text, text);
        first
    }

    /// Takes the streamed reply out and drops the thinking text.
    pub fn take_reply(&mut self) -> (reply: String)
        ensures
            reply@ == old(self).streaming_text@,
            final(self).streaming_text@.len() == 0,
            final(self).thinking_text@.len() == 0,
            final(self).messages == old(self).messages,
            final(self).is_streaming == old(self).is_streaming,
            final(self).a2app_state == old(self).a2app_state,
    {
        let mut reply = String::new();
        std::mem::swap(&mut reply, &mut self.streaming_text);
        self.thinking_text = String::new();
        reply
    }

    /// The turn ended with `reply`; `safe` says whether it may be kept. A
    /// kept reply joins the thread; a runsplash card in it renders, and is
    /// to be saved when it names itself. Streaming stops either way.
    pub fn finish_turn(&mut self, reply: String, safe: bool) -> (r: TurnEnd)
        ensures
            !final(self).is_streaming,
            final(self).streaming_text == old(self).streaming_text,
            final(self).thinking_text == old(self).thinking_text,
            final(self).a2app_state == old(self).a2app_state,
            thread_view(final(self).messages@) == if reply@.len() > 0 && safe {
                thread_view(old(self).messages@).push((ChatRole::Assistant, reply@))
            } else {
                thread_view(old(self).messages@)
            },
            r.discarded == (reply@.len() > 0 && !safe),
            r.rendered_card == (reply@.len() > 0 && safe && spec_runsplash_body(reply@) is Some),
            match r.save {
                Some((name, body)) => r.rendered_card && spec_runsplash_body(reply@) == Some(body@)
                    && card_name_in(lines(body@)) == Some(name@),
                None => !r.rendered_card || card_name_in(lines(spec_runsplash_body(reply@)->0)) is None,
            },
    {
        let mut end = TurnEnd { rendered_card: false, save: None, discarded: false };
        if !reply.as_str().is_empty() {
            if safe {
                match extract_runsplash_body(reply.as_str()) {
                    Some(body) => {
                        end.rendered_card = true;
                        match extract_card_name(body.as_str()) {
                            Some(name) => {
                                end.save = Some((name, body));
                            },
                            None => {},
                        }
                    },
                    None => {},
                }
                self.messages.push(ChatMessage { role: ChatRole::Assistant, text: reply });
                assert(thread_view(self.messages@) =~= thread_view(old(self).messages@).push(
                    (ChatRole::Assistant, self.messages@.last().text@),
                ));
            } else {
                end.discarded = true;
            }
        }
        self.is_streaming = false;
        end
    }

    /// The prompt failed: an error bubble, streaming off, thinking dropped.
    pub fn fail_prompt(&mut self, error: &str)
        ensures
            thread_view(final(self).messages@) == thread_view(old(self).messages@).push(
                (ChatRole::Assistant, "Error: "@ + error@),
            ),
            !final(self).is_streaming,
            final(self).thinking_text@.len() == 0,
            final(self).streaming_text == old(self).streaming_text,
            final(self).a2app_state == old(self).a2app_state,
    {
        let mut m = "Error: ".to_owned();
        append_str(&mut m, error);
        self.messages.push(ChatMessage { role: ChatRole::Assistant, text: m });
        self.is_streaming = false;
        self.thinking_text = String::new();
        assert(thread_view(self.messages@) =~= thread_view(old(self).messages@).push(
            (ChatRole::Assistant, "Error: "@ + error@),
        ));
    }

    /// The user cancelled: what streamed so far is kept as a reply (when
    /// there is any), thinking is dropped and streaming stops.
    pub fn cancel(&mut self)
        ensures
            thread_view(final(self).messages@) == if old(self).streaming_text@.len() > 0 {
                thread_view(old(self).messages@).push((ChatRole::Assistant, old(self).streaming_text@))
            } else {
                thread_view(old(self).messages@)
            },
            final(self).streaming_text@.len() == 0,
            final(self).thinking_text@.len() == 0,
            !final(self).is_streaming,
            final(self).a2app_state == old(self).a2app_state,
    {
        let mut text = String::new();
        std::mem::swap(&mut text, &mut self.streaming_text);
        self.thinking_text = String::new();
        if !text.as_str().is_empty() {
            self.messages.push(ChatMessage { role: ChatRole::Assistant, text });
            assert(thread_view(self.messages@) =~= thread_view(old(self).messages@).push(
                (ChatRole::Assistant, old(self).streaming_text@),
            ));
        }
        self.is_streaming = false;
    }

    /// The thread cached on disk; there is no local cache, the server's
    /// history is the source of truth.
    pub fn load_from_disk() -> (r: Vec<ChatMessage>)
        ensures
            r@.len() == 0,
    {
        Vec::new()
    }

    /// Whether the empty-state placeholder shows (nothing in the thread and
    /// nothing streaming) and whether the working indicator shows.
    pub fn empty_state_flags(&self) -> (r: (bool, bool))
        ensures
            r.0 == (self.messages@.len() == 0 && !self.is_streaming),
            r.1 == self.is_streaming,
    {
        (self.messages.len() == 0 && !self.is_streaming, self.is_streaming)
    }

    /// Another session was opened: everything is cleared.
    pub fn reset(&mut self)
        ensures
            final(self).messages@.len() == 0,
            final(self).streaming_text@.len() == 0,
            final(self).thinking_text@.len() == 0,
            !final(self).is_streaming,
            final(self).a2app_state@ == Map::<usize, crate::a2app::CardState>::empty(),
    {
        *self = ChatData::new();
    }

    /// The session's history arrived as `(role, content)` rows: user and
    /// assistant rows become the thread (other rows are not bubbles), and
    /// streaming stops. Returns the thread length.
    pub fn hydrate(&mut self, rows: &[(String, String)]) -> (n: usize)
        ensures
            thread_view(final(self).messages@) == hydrated_thread(rows@),
            n == final(self).messages@.len(),
            !final(self).is_streaming,
            final(self).streaming_text == old(self).streaming_text,
            final(self).thinking_text == old(self).thinking_text,
            final(self).a2app_state == old(self).a2app_state,
    {
        let mut out: Vec<ChatMessage> = Vec::new();
        let mut i: usize = 0;
        while i < rows.len()
            invariant
                i <= rows@.len(),
                thread_view(out@) == hydrated_thread(rows@.take(i as int)),
            decreases rows@.len() - i,
        {
            assert(rows@.take(i + 1).drop_last() =~= rows@.take(i as int));
            let (role, content) = &rows[i];
            if crate::text::str_eq(role.as_str(), "user") {
                out.push(ChatMessage { role: ChatRole::User, text: content.clone() });
                assert(thread_view(out@) =~= hydrated_thread(rows@.take(i as int)).push(
                    (ChatRole::User, content@),
                ));
            } else if crate::text::str_eq(role.as_str(), "assistant") {
                out.push(ChatMessage { role: ChatRole::Assistant, text: content.clone() });
                assert(thread_view(out@) =~= hydrated_thread(rows@.take(i as int)).push(
                    (ChatRole::Assistant, content@),
                ));
            }
            i += 1;
        }
        assert(rows@.take(rows@.len() as int) =~= rows@);
        self.messages = out;
        self.is_streaming = false;
        self.messages.len()
    }
}

/// The thread that history rows give: user and assistant rows, in order.
pub open spec fn hydrated_thread(rows: Seq<(String, String)>) -> Seq<(ChatRole, Seq<char>)>
    decreases rows.len(),
{
    if rows.len() == 0 {
        Seq::empty()
    } else {
        let prev = hydrated_thread(rows.drop_last());
        let (role, content) = rows.last();
        if role@ == "user"@ {
            prev.push((ChatRole::User, content@))
        } else if role@ == "assistant"@ {
            prev.push((ChatRole::Assistant, content@))
        } else {
            prev
        }
    }
}

/// Introduces the saved cards appended to a Splash prompt.
pub const SAVED_CARDS_HEAD: &'static str = "\n\nYOUR SAVED CARDS — if this request refines/improves/changes one of these, edit that card and return the FULL updated block KEEPING its exact `// name:` line:\n";

/// One saved card as the prompt lists it: its name, then its (trimmed)
/// DSL in a runsplash fence.
pub open spec fn saved_card_entry(name: Seq<char>, dsl: Seq<char>) -> Seq<char> {
    "\n["@ + name + "]\n```runsplash\n"@ + trim(dsl) + "\n```\n"@
}

pub open spec fn saved_card_entries(cards: Seq<(String, String)>) -> Seq<char>
    decreases cards.len(),
{
    if cards.len() == 0 {
        Seq::empty()
    } else {
        saved_card_entries(cards.drop_last()) + saved_card_entry(cards.last().0@, cards.last().1@)
    }
}

/// The text sent for a prompt. Outside Splash mode it is the user's text.
/// In Splash mode it is the full Splash prompt the first time (the manual
/// primes the session) and the short directive afterwards, followed by the
/// saved cards when there are any.
pub open spec fn outgoing_text(
    text: Seq<char>,
    splash_mode: bool,
    primed: bool,
    manual: Seq<char>,
    saved: Seq<(String, String)>,
) -> Seq<char> {
    if !splash_mode {
        text
    } else {
        let base = if primed {
            SPLASH_FOLLOWUP_HEAD@ + text
        } else {
            SPLASH_PROMPT_HEAD@ + manual + SPLASH_PROMPT_MID@ + text
        };
        if saved.len() == 0 {
            base
        } else {
            base + SAVED_CARDS_HEAD@ + saved_card_entries(saved)
        }
    }
}

fn trimmed(s: &str) -> (r: String)
    ensures
        r@ == trim(s@),
{
    let c = crate::text::chars_of(s);
    let (a, b) = crate::search::trim_range(c.as_slice());
    let v = crate::text::range_vec(c.as_slice(), a, b);
    crate::text::string_of(v.as_slice())
}

/// Composes the text sent for a prompt, marking the session primed once
/// the Splash manual has gone out.
pub fn compose_prompt(
    text: &str,
    splash_mode: bool,
    splash_primed: &mut bool,
    manual: &str,
    saved: &[(String, String)],
) -> (r: String)
    ensures
        r@ == outgoing_text(text@, splash_mode, *old(splash_primed), manual@, saved@),
        *final(splash_primed) == (*old(splash_primed) || splash_mode),
{
    if !splash_mode {
        return text.to_owned();
    }
    let mut out = if *splash_primed {
        app_splash_followup(text)
    } else {
        *splash_primed = true;
        app_splash_prompt(text, manual)
    };
    if saved.len() > 0 {
        append_str(&mut out, SAVED_CARDS_HEAD);
        let ghost head = out@;
        let mut i: usize = 0;
        while i < saved.len()
            invariant
                i <= saved@.len(),
                out@ == head + saved_card_entries(saved@.take(i as int)),
            decreases saved@.len() - i,
        {
            assert(saved@.take(i + 1).drop_last() =~= saved@.take(i as int));
            let (name, dsl) = &saved[i];
            append_str(&mut out, "\n[");
            append_str(&mut out, name.as_str());
            append_str(&mut out, "]\n```runsplash\n");
            let t = trimmed(dsl.as_str());
            append_str(&mut out, t.as_str());
            append_str(&mut out, "\n```\n");
            i += 1;
        }
        assert(saved@.take(saved@.len() as int) =~= saved@);
    }
    out
}

/// The text is worth sending: something is left after trimming.
pub fn has_content(text: &str) -> (r: bool)
    ensures
        r == (trim(text@).len() > 0),
{
    let c = crate::text::chars_of(text);
    let (a, b) = crate::search::trim_range(c.as_slice());
    a < b
}

/// The active picture of an album after stepping by `delta`, clamped to
/// the album; an empty album stays where it is.
pub open spec fn album_next(active: int, len: int, delta: int) -> int {
    if len == 0 {
        active
    } else if active + delta < 0 {
        0
    } else if active + delta > len - 1 {
        len - 1
    } else {
        active + delta
    }
}

pub fn album_step(active: usize, len: usize, delta: i32) -> (r: usize)
    requires
        len <= i32::MAX,
        active <= i32::MAX,
        active + delta <= i32::MAX,
    ensures
        r == album_next(active as int, len as int, delta as int),
{
    if len == 0 {
        return active;
    }
    let next: i64 = active as i64 + delta as i64;
    let last: i64 = len as i64 - 1;
    if next < 0 {
        0
    } else if next > last {
        (len - 1) as usize
    } else {
        next as usize
    }
}

/// A saved card as found on disk: when it was last modified (nanoseconds
/// since the Unix epoch), its name and its DSL.
pub type SavedCardFile = (u128, String, String);

/// `e` placed into a newest-first list: before the first older entry, so
/// entries of equal age keep their order.
pub open spec fn insert_newest(s: Seq<SavedCardFile>, e: SavedCardFile) -> Seq<SavedCardFile>
    decreases s.len(),
{
    if s.len() == 0 {
        seq![e]
    } else if s[0].0 < e.0 {
        seq![e] + s
    } else {
        seq![s[0]] + insert_newest(s.drop_first(), e)
    }
}

/// The entries ordered newest first (a stable sort on the time).
pub open spec fn newest_first(s: Seq<SavedCardFile>) -> Seq<SavedCardFile>
    decreases s.len(),
{
    if s.len() == 0 {
        Seq::empty()
    } else {
        insert_newest(newest_first(s.drop_last()), s.last())
    }
}

proof fn lemma_insert_at(s: Seq<SavedCardFile>, e: SavedCardFile, p: int)
    requires
        0 <= p <= s.len(),
        forall|k: int| 0 <= k < p ==> #[trigger] s[k].0 >= e.0,
        p < s.len() ==> s[p].0 < e.0,
    ensures
        s.insert(p, e) == insert_newest(s, e),
    decreases p,
{
    if p == 0 {
        if s.len() == 0 {
            assert(s.insert(0, e) =~= seq![e]);
        } else {
            assert(s.insert(0, e) =~= seq![e] + s);
        }
    } else {
        let t = s.drop_first();
        assert forall|k: int| 0 <= k < p - 1 implies #[trigger] t[k].0 >= e.0 by {
            assert(t[k] == s[k + 1]);
        }
        if p - 1 < t.len() {
            assert(t[p - 1] == s[p]);
        }
        lemma_insert_at(t, e, p - 1);
        assert(s.insert(p, e) =~= seq![s[0]] + t.insert(p - 1, e));
    }
}

/// The saved cards to offer: the `max` most recently modified, newest
/// first, as `(name, dsl)`.
pub fn newest_cards(entries: Vec<SavedCardFile>, max: usize) -> (r: Vec<(String, String)>)
    ensures
        r@.len() == if max < entries@.len() {
            max as int
        } else {
            entries@.len() as int
        },
        forall|i: int|
            0 <= i < r@.len() ==> #[trigger] r@[i] == (newest_first(entries@)[i].1, newest_first(
                entries@,
            )[i].2),
{
    let ghost all = entries@;
    let total = entries.len();
    let mut rest = entries;
    let mut sorted: Vec<SavedCardFile> = Vec::new();
    let mut i: usize = 0;
    while rest.len() > 0
        invariant
            i + rest@.len() == all.len(),
            all.len() == total,
            rest@ == all.skip(i as int),
            sorted@ == newest_first(all.take(i as int)),
        decreases rest@.len(),
    {
        let e = rest.remove(0);
        let mut p: usize = 0;
        while p < sorted.len() && sorted[p].0 >= e.0
            invariant
                p <= sorted@.len(),
                forall|k: int| 0 <= k < p ==> #[trigger] sorted@[k].0 >= e.0,
            decreases sorted@.len() - p,
        {
            p += 1;
        }
        proof {
            lemma_insert_at(sorted@, e, p as int);
            assert(all.take(i + 1).drop_last() =~= all.take(i as int));
            assert(all.take(i + 1).last() == all[i as int]);
            assert(rest@ =~= all.skip(i + 1));
        }
        sorted.insert(p, e);
        i += 1;
    }
    assert(all.take(i as int) =~= all);
    proof {
        lemma_newest_first_len(all);
    }
    let ghost ordered = sorted@;
    let mut out: Vec<(String, String)> = Vec::new();
    let mut k: usize = 0;
    while k < max && sorted.len() > 0
        invariant
            k <= max,
            k + sorted@.len() == ordered.len(),
            sorted@ == ordered.skip(k as int),
            out@.len() == k,
            forall|j: int| 0 <= j < k ==> #[trigger] out@[j] == (ordered[j].1, ordered[j].2),
        decreases sorted@.len(),
    {
        let (_, name, dsl) = sorted.remove(0);
        proof {
            assert(ordered.skip(k as int)[0] == ordered[k as int]);
            assert(sorted@ =~= ordered.skip(k + 1));
        }
        out.push((name, dsl));
        k += 1;
    }
    out
}

proof fn lemma_insert_newest_len(s: Seq<SavedCardFile>, e: SavedCardFile)
    ensures
        insert_newest(s, e).len() == s.len() + 1,
    decreases s.len(),
{
    if s.len() > 0 && !(s[0].0 < e.0) {
        lemma_insert_newest_len(s.drop_first(), e);
    }
}

proof fn lemma_newest_first_len(s: Seq<SavedCardFile>)
    ensures
        newest_first(s).len() == s.len(),
    decreases s.len(),
{
    if s.len() > 0 {
        lemma_newest_first_len(s.drop_last());
        lemma_insert_newest_len(newest_first(s.drop_last()), s.last());
    }
}

pub open spec fn newest_sorted(s: Seq<SavedCardFile>) -> bool {
    forall|i: int, j: int| 0 <= i < j < s.len() ==> #[trigger] s[i].0 >= #[trigger] s[j].0
}

proof fn lemma_insert_newest_bound(s: Seq<SavedCardFile>, e: SavedCardFile, b: u128)
    requires
        forall|k: int| 0 <= k < s.len() ==> #[trigger] s[k].0 <= b,
        e.0 <= b,
    ensures
        forall|k: int| 0 <= k < insert_newest(s, e).len() ==> #[trigger] insert_newest(s, e)[k].0 <= b,
    decreases s.len(),
{
    lemma_insert_newest_len(s, e);
    if s.len() > 0 && !(s[0].0 < e.0) {
        let t = s.drop_first();
        assert forall|k: int| 0 <= k < t.len() implies #[trigger] t[k].0 <= b by {
            assert(t[k] == s[k + 1]);
        }
        lemma_insert_newest_bound(t, e, b);
        let r = insert_newest(s, e);
        assert forall|k: int| 0 <= k < r.len() implies #[trigger] r[k].0 <= b by {
            if k > 0 {
                assert(r[k] == insert_newest(t, e)[k - 1]);
            }
        }
    }
}

proof fn lemma_insert_newest_sorted(s: Seq<SavedCardFile>, e: SavedCardFile)
    requires
        newest_sorted(s),
    ensures
        newest_sorted(insert_newest(s, e)),
    decreases s.len(),
{
    lemma_insert_newest_len(s, e);
    if s.len() == 0 {
    } else if s[0].0 < e.0 {
        let r = insert_newest(s, e);
        assert forall|i: int, j: int| 0 <= i < j < r.len() implies #[trigger] r[i].0 >= #[trigger] r[j].0 by {
            if i == 0 {
                assert(r[j] == s[j - 1]);
                if j - 1 > 0 {
                    assert(s[0].0 >= s[j - 1].0);
                }
            } else {
                assert(r[i] == s[i - 1] && r[j] == s[j - 1]);
            }
        }
    } else {
        let t = s.drop_first();
        assert forall|i: int, j: int| 0 <= i < j < t.len() implies #[trigger] t[i].0 >= #[trigger] t[j].0 by {
            assert(t[i] == s[i + 1] && t[j] == s[j + 1]);
        }
        lemma_insert_newest_sorted(t, e);
        assert forall|k: int| 0 <= k < t.len() implies #[trigger] t[k].0 <= s[0].0 by {
            assert(t[k] == s[k + 1]);
        }
        lemma_insert_newest_bound(t, e, s[0].0);
        let r = insert_newest(s, e);
        let q = insert_newest(t, e);
        assert forall|i: int, j: int| 0 <= i < j < r.len() implies #[trigger] r[i].0 >= #[trigger] r[j].0 by {
            assert(r[j] == q[j - 1]);
            if i > 0 {
                assert(r[i] == q[i - 1]);
            }
        }
    }
}

/// The offered cards come newest first: a list ordered by `newest_first`
/// never has an older entry before a newer one.
pub proof fn law_newest_first_sorted(s: Seq<SavedCardFile>)
    ensures
        newest_sorted(newest_first(s)),
        newest_first(s).len() == s.len(),
    decreases s.len(),
{
    lemma_newest_first_len(s);
    if s.len() > 0 {
        law_newest_first_sorted(s.drop_last());
        lemma_insert_newest_sorted(newest_first(s.drop_last()), s.last());
    }
}

/// How one row of the chat list is drawn.
pub enum ItemKind {
    /// The reply being streamed (the row after the thread).
    StreamingReply,
    /// A user prompt: the full-screen card view does not echo it.
    HiddenPrompt,
    /// A finished reply; copy and share show unless it is a card, whose
    /// raw text is DSL.
    Reply { show_actions: bool },
    /// No such row.
    Missing,
}

impl ChatData {
    /// Rows in the list: the thread, plus the streaming reply while one
    /// streams.
    pub fn item_count(&self) -> (n: usize)
        requires
            self.messages@.len() < usize::MAX,
        ensures
            n == self.messages@.len() + if self.is_streaming {
                1int
            } else {
                0int
            },
    {
        self.messages.len() + if self.is_streaming {
            1
        } else {
            0
        }
    }

    pub fn item_kind(&self, item_id: usize) -> (k: ItemKind)
        ensures
            (self.is_streaming && item_id == self.messages@.len()) ==> k is StreamingReply,
            !(self.is_streaming && item_id == self.messages@.len()) ==> if item_id < self.messages@.len() {
                if self.messages@[item_id as int].role == ChatRole::User {
                    k is HiddenPrompt
                } else {
                    k matches ItemKind::Reply { show_actions } && show_actions == !crate::search::contains(
                        self.messages@[item_id as int].text@,
                        crate::a2app::rs_pat(),
                    )
                }
            } else {
                k is Missing
            },
    {
        if self.is_streaming && item_id == self.messages.len() {
            return ItemKind::StreamingReply;
        }
        if item_id >= self.messages.len() {
            return ItemKind::Missing;
        }
        let m = &self.messages[item_id];
        match m.role {
            ChatRole::User => ItemKind::HiddenPrompt,
            ChatRole::Assistant => {
                let t = crate::text::chars_of(m.text.as_str());
                let rs = crate::text::chars_of("```runsplash");
                proof {
                    reveal_strlit("```runsplash");
                    assert(rs@ =~= crate::a2app::rs_pat());
                }
                ItemKind::Reply { show_actions: !crate::search::contains_exec(t.as_slice(), rs.as_slice()) }
            },
        }
    }

    /// What the streaming row shows before Markdown repair: an ellipsis
    /// until the first token, then the reply with an unclosed card block
    /// held back.
    pub fn streaming_source(&self) -> (r: String)
        ensures
            r@ == if self.streaming_text@.len() == 0 {
                "…"@
            } else {
                crate::a2app::spec_defer(self.streaming_text@)
            },
    {
        if self.streaming_text.as_str().is_empty() {
            "…".to_owned()
        } else {
            crate::a2app::defer_unclosed_runsplash(self.streaming_text.as_str())
        }
    }
}

} // verus!
