//! The chat agent's bookkeeping: it maps chat-surface session and prompt
//! ids to protocol session keys and turn ids, turns transport events into
//! chat events, and folds connection transitions into the app state.
//! Sending commands and owning the runtime is the caller's part.

use vstd::prelude::*;

use crate::capability::Capabilities;
use crate::ids::TurnId;
use crate::keyed::{IdKey, KeyedVec};
use crate::notification::UiNotification;
use crate::numfmt::{decimal, digit_char, signed_decimal};
use crate::protocol::{SessionKey, UiCursor};
use crate::reducer::{keyed_set, reduce, reduce_post, toast_pushed, Event};
use crate::state::{AppState, ConnectionEvent};
use crate::toasts::{Toast, ToastKind};
use crate::transport::ConnectionState;

verus! {

/// A chat-surface session id (its 64-bit value).
#[derive(Clone, Copy, Debug, PartialEq, Eq, Structural)]
pub struct ChatSessionId(pub u64);

/// A chat-surface prompt id (its 64-bit value).
#[derive(Clone, Copy, Debug, PartialEq, Eq, Structural)]
pub struct PromptId(pub u64);

impl IdKey for ChatSessionId {
    type Key = u64;

    open spec fn id_view(&self) -> u64 {
        self.0
    }

    fn same_id(&self, other: &Self) -> (r: bool) {
        self.0 == other.0
    }
}

impl IdKey for PromptId {
    type Key = u64;

    open spec fn id_view(&self) -> u64 {
        self.0
    }

    fn same_id(&self, other: &Self) -> (r: bool) {
        self.0 == other.0
    }
}

// ---------------------------------------------------------------- keys

/// The lower-case hexadecimal digit of `d` (0 to 15).
pub open spec fn hex_char(d: int) -> char {
    if d < 10 {
        digit_char(d)
    } else if d == 10 {
        'a'
    } else if d == 11 {
        'b'
    } else if d == 12 {
        'c'
    } else if d == 13 {
        'd'
    } else if d == 14 {
        'e'
    } else {
        'f'
    }
}

/// The last `k` hexadecimal digits of `n`, zero-padded.
pub open spec fn hex_fixed(n: nat, k: nat) -> Seq<char>
    decreases k,
{
    if k == 0 {
        Seq::empty()
    } else {
        hex_fixed(n / 16, (k - 1) as nat).push(hex_char((n % 16) as int))
    }
}

/// The protocol session key of a chat session: `octos-app:` and the id as
/// sixteen lower-case hexadecimal digits.
pub open spec fn session_key_for(id: u64) -> Seq<char> {
    "octos-app:"@ + hex_fixed(id as nat, 16)
}

fn hex_digit(d: u64) -> (c: char)
    requires
        d < 16,
    ensures
        c == hex_char(d as int),
{
    if d == 0 {
        '0'
    } else if d == 1 {
        '1'
    } else if d == 2 {
        '2'
    } else if d == 3 {
        '3'
    } else if d == 4 {
        '4'
    } else if d == 5 {
        '5'
    } else if d == 6 {
        '6'
    } else if d == 7 {
        '7'
    } else if d == 8 {
        '8'
    } else if d == 9 {
        '9'
    } else if d == 10 {
        'a'
    } else if d == 11 {
        'b'
    } else if d == 12 {
        'c'
    } else if d == 13 {
        'd'
    } else if d == 14 {
        'e'
    } else {
        'f'
    }
}

fn hex_fixed_exec(n: u64, k: usize) -> (r: Vec<char>)
    ensures
        r@ == hex_fixed(n as nat, k as nat),
    decreases k,
{
    if k == 0 {
        Vec::new()
    } else {
        let mut v = hex_fixed_exec(n / 16, k - 1);
        v.push(hex_digit(n % 16));
        v
    }
}

impl OctosUiAgent {
    /// The session key the agent uses for a chat session.
    pub fn make_session_key(id: ChatSessionId) -> (k: SessionKey)
        ensures
            k.0@ == session_key_for(id.0),
    {
        let digits = hex_fixed_exec(id.0, 16);
        let mut s = "octos-app:".to_owned();
        let d = crate::text::string_of(digits.as_slice());
        crate::text::append_str(&mut s, d.as_str());
        SessionKey(s)
    }
}

pub open spec fn pow16(k: nat) -> nat
    decreases k,
{
    if k == 0 {
        1
    } else {
        16 * pow16((k - 1) as nat)
    }
}

proof fn lemma_hex_char_injective(a: int, b: int)
    requires
        0 <= a < 16,
        0 <= b < 16,
        hex_char(a) == hex_char(b),
    ensures
        a == b,
{
}

proof fn lemma_hex_fixed_injective(n: nat, m: nat, k: nat)
    requires
        hex_fixed(n, k) == hex_fixed(m, k),
        n < pow16(k),
        m < pow16(k),
    ensures
        n == m,
    decreases k,
{
    if k > 0 {
        let p = pow16((k - 1) as nat);
        let a = hex_fixed(n / 16, (k - 1) as nat);
        let b = hex_fixed(m / 16, (k - 1) as nat);
        assert(hex_fixed(n, k).drop_last() =~= a);
        assert(hex_fixed(m, k).drop_last() =~= b);
        assert(hex_fixed(n, k).last() == hex_char((n % 16) as int));
        assert(hex_fixed(m, k).last() == hex_char((m % 16) as int));
        lemma_hex_char_injective((n % 16) as int, (m % 16) as int);
        assert(n / 16 < p) by (nonlinear_arith)
            requires
                n < 16 * p,
        ;
        assert(m / 16 < p) by (nonlinear_arith)
            requires
                m < 16 * p,
        ;
        lemma_hex_fixed_injective(n / 16, m / 16, (k - 1) as nat);
        assert(n == 16 * (n / 16) + n % 16) by (nonlinear_arith);
        assert(m == 16 * (m / 16) + m % 16) by (nonlinear_arith);
    }
}

/// Different chat sessions get different session keys.
pub proof fn law_session_keys_distinct(a: u64, b: u64)
    requires
        a != b,
    ensures
        session_key_for(a) != session_key_for(b),
{
    assert(pow16(16) == 0x1_0000_0000_0000_0000) by {
        reveal_with_fuel(pow16, 17);
    }
    if session_key_for(a) == session_key_for(b) {
        let pre = "octos-app:"@;
        assert(session_key_for(a).subrange(pre.len() as int, session_key_for(a).len() as int) =~= hex_fixed(a as nat, 16));
        assert(session_key_for(b).subrange(pre.len() as int, session_key_for(b).len() as int) =~= hex_fixed(b as nat, 16));
        lemma_hex_fixed_injective(a as nat, b as nat, 16);
    }
}

// ---------------------------------------------------------------- events

/// What the chat surface is told.
pub enum AgentEvent {
    SessionReady { session_id: ChatSessionId },
    SessionError { session_id: ChatSessionId, error: String },
    PromptError { prompt_id: PromptId, error: String },
    TextDelta { prompt_id: PromptId, text: String },
    ToolRequest { prompt_id: PromptId, tool_use_id: String, tool_name: String, tool_input: String },
    /// The turn ended normally.
    TurnComplete { prompt_id: PromptId },
}

/// What the agent asks the transport to send.
pub enum AgentCommand {
    /// `session/open`, with no profile, no working directory and no cursor.
    OpenSession { session_id: SessionKey },
    /// `turn/start` with one text input item.
    StartTurn { session_id: SessionKey, turn_id: TurnId, text: String },
    /// `turn/interrupt`.
    InterruptTurn { session_id: SessionKey, turn_id: TurnId },
}

/// What the transport reports.
pub enum TransportEvent {
    ConnectionState(ConnectionState),
    CapabilityNegotiated(Capabilities),
    /// The `session/open` reply for this session key.
    SessionOpened { session_id: SessionKey },
    /// A `turn/start` or `turn/interrupt` reply.
    TurnResult,
    RpcError { request_id: String, method: String, code: i64, message: String },
    /// A durable notification and the cursor it carried.
    DurableNotification { payload: UiNotification, cursor: Option<UiCursor> },
    /// An ephemeral notification (streamed text); it carries no cursor.
    EphemeralNotification { payload: UiNotification },
}

// ---------------------------------------------------------------- maps

/// What `fwd` holds at `a` maps back to `a` in `bwd`.
pub open spec fn maps_back<A: IdKey, B: IdKey>(fwd: KeyedVec<A, B>, bwd: KeyedVec<B, A>, a: A::Key) -> bool {
    match fwd.spec_get(a) {
        Some(b) => match bwd.spec_get(b.id_view()) {
            Some(x) => x.id_view() == a,
            None => false,
        },
        None => true,
    }
}

/// `fwd` and `bwd` are inverse maps of each other.
pub open spec fn inverse_maps<A: IdKey, B: IdKey>(fwd: KeyedVec<A, B>, bwd: KeyedVec<B, A>) -> bool {
    &&& forall|a: A::Key| #[trigger] maps_back(fwd, bwd, a)
    &&& forall|b: B::Key| #[trigger] maps_back(bwd, fwd, b)
}

/// The key stored for chat session `q`, if any, is the one made from `q`.
pub open spec fn key_made_from(m: KeyedVec<ChatSessionId, SessionKey>, q: u64) -> bool {
    match m.spec_get(q) {
        Some(k) => k.0@ == session_key_for(q),
        None => true,
    }
}

/// The agent's id bookkeeping.
pub struct OctosUiAgent {
    /// Chat session id to protocol session key.
    pub session_keys: KeyedVec<ChatSessionId, SessionKey>,
    /// Protocol session key to chat session id.
    pub session_ids: KeyedVec<SessionKey, ChatSessionId>,
    /// Sessions whose `session/open` the server has answered.
    pub ready_sessions: KeyedVec<ChatSessionId, ()>,
    /// Prompt id to turn id.
    pub turn_ids: KeyedVec<PromptId, TurnId>,
    /// Turn id to prompt id.
    pub prompt_ids: KeyedVec<TurnId, PromptId>,
    /// The last connection state reported.
    pub connection_state: ConnectionState,
    /// The negotiated capabilities, once reported.
    pub capabilities: Option<Capabilities>,
}

impl OctosUiAgent {
    /// The maps are mutually inverse and every session key is the one made
    /// from its chat session id.
    pub open spec fn wf(&self) -> bool {
        &&& inverse_maps(self.session_keys, self.session_ids)
        &&& inverse_maps(self.turn_ids, self.prompt_ids)
        &&& forall|q: u64| #[trigger] key_made_from(self.session_keys, q)
    }

    pub fn new() -> (r: Self)
        ensures
            r.wf(),
            r.connection_state == ConnectionState::Idle,
            r.capabilities is None,
            r.session_keys.seq().len() == 0,
            r.session_ids.seq().len() == 0,
            r.ready_sessions.seq().len() == 0,
            r.turn_ids.seq().len() == 0,
            r.prompt_ids.seq().len() == 0,
    {
        OctosUiAgent {
            session_keys: KeyedVec::new(),
            session_ids: KeyedVec::new(),
            ready_sessions: KeyedVec::new(),
            turn_ids: KeyedVec::new(),
            prompt_ids: KeyedVec::new(),
            connection_state: ConnectionState::Idle,
            capabilities: None,
        }
    }

    /// After `create_session(id)`: the session is mapped both ways to its key.
    pub open spec fn created(a0: OctosUiAgent, a1: OctosUiAgent, id: u64) -> bool {
        &&& a1.session_keys.spec_get(id) matches Some(k) && k.0@ == session_key_for(id)
        &&& forall|q: u64| q != id ==> #[trigger] a1.session_keys.spec_get(q) == a0.session_keys.spec_get(q)
        &&& keyed_set(a0.session_ids, a1.session_ids, session_key_for(id), Some(ChatSessionId(id)))
        &&& a1 == OctosUiAgent { session_keys: a1.session_keys, session_ids: a1.session_ids, ..a0 }
    }

    /// Registers a chat session and asks the server to open it.
    pub fn create_session(&mut self, session_id: ChatSessionId) -> (cmd: AgentCommand)
        ensures
            Self::created(*old(self), *final(self), session_id.0),
            cmd matches AgentCommand::OpenSession { session_id: k } && k.0@ == session_key_for(session_id.0),
    {
        let key = Self::make_session_key(session_id);
        self.session_keys.insert(session_id, key.clone());
        self.session_ids.insert(key.clone(), session_id);
        AgentCommand::OpenSession { session_id: key }
    }

    /// After `send_prompt(session, prompt, turn)`: the prompt and turn are
    /// mapped both ways.
    pub open spec fn prompted(a0: OctosUiAgent, a1: OctosUiAgent, prompt: u64, turn: TurnId) -> bool {
        &&& keyed_set(a0.turn_ids, a1.turn_ids, prompt, Some(turn))
        &&& keyed_set(a0.prompt_ids, a1.prompt_ids, turn.0, Some(PromptId(prompt)))
        &&& a1 == OctosUiAgent { turn_ids: a1.turn_ids, prompt_ids: a1.prompt_ids, ..a0 }
    }

    /// Registers a prompt as turn `turn_id` and, when its session is known,
    /// asks the server to start the turn.
    pub fn send_prompt(&mut self, session_id: ChatSessionId, prompt_id: PromptId, turn_id: TurnId, text: &str) -> (cmd:
        Option<AgentCommand>)
        ensures
            Self::prompted(*old(self), *final(self), prompt_id.0, turn_id),
            match old(self).session_keys.spec_get(session_id.0) {
                Some(k) => cmd matches Some(AgentCommand::StartTurn { session_id: k2, turn_id: t, text: x })
                    && k2 == k && t == turn_id && x@ == text@,
                None => cmd is None,
            },
    {
        self.turn_ids.insert(prompt_id, turn_id);
        self.prompt_ids.insert(turn_id, prompt_id);
        match self.session_keys.get(&session_id) {
            Some(k) => Some(AgentCommand::StartTurn { session_id: k.clone(), turn_id, text: text.to_owned() }),
            None => None,
        }
    }

    /// Asks the server to interrupt the prompt's turn, in the first
    /// registered session.
    pub fn cancel_prompt(&self, prompt_id: PromptId) -> (cmd: Option<AgentCommand>)
        ensures
            match (self.turn_ids.spec_get(prompt_id.0), self.session_keys.seq().len() > 0) {
                (Some(t), true) => cmd matches Some(AgentCommand::InterruptTurn { session_id: k, turn_id: t2 })
                    && k == self.session_keys.seq()[0].1 && t2 == t,
                _ => cmd is None,
            },
    {
        let turn = match self.turn_ids.get(&prompt_id) {
            Some(t) => *t,
            None => return None,
        };
        if self.session_keys.len() == 0 {
            return None;
        }
        let k = self.session_keys.value_at(0).clone();
        Some(AgentCommand::InterruptTurn { session_id: k, turn_id: turn })
    }

    /// The server has answered the session's `session/open`.
    pub fn is_session_ready(&self, session_id: ChatSessionId) -> (r: bool)
        ensures
            r == self.ready_sessions.spec_get(session_id.0) is Some,
    {
        self.ready_sessions.contains_key(&session_id)
    }
}

/// Creating a session keeps the maps inverse, whether or not it was known.
pub proof fn law_create_session_keeps_maps(a0: OctosUiAgent, a1: OctosUiAgent, id: u64)
    requires
        a0.wf(),
        OctosUiAgent::created(a0, a1, id),
    ensures
        a1.wf(),
{
    let kv = session_key_for(id);
    assert forall|q: u64| #[trigger] key_made_from(a1.session_keys, q) by {
        assert(key_made_from(a0.session_keys, q));
    }
    assert forall|q: u64| #[trigger] maps_back(a1.session_keys, a1.session_ids, q) by {
        assert(maps_back(a0.session_keys, a0.session_ids, q));
        assert(key_made_from(a0.session_keys, q));
        if q != id && a1.session_keys.spec_get(q) is Some {
            law_session_keys_distinct(q, id);
        }
    }
    assert forall|b: Seq<char>| #[trigger] maps_back(a1.session_ids, a1.session_keys, b) by {
        assert(maps_back(a0.session_ids, a0.session_keys, b));
        if b != kv && a0.session_ids.spec_get(b) is Some {
            let a = a0.session_ids.spec_get(b)->0;
            assert(maps_back(a0.session_keys, a0.session_ids, a.0));
            assert(key_made_from(a0.session_keys, a.0));
        }
    }
}

/// Registering a prompt under fresh prompt and turn ids keeps the maps
/// inverse.
pub proof fn law_send_prompt_keeps_maps(a0: OctosUiAgent, a1: OctosUiAgent, prompt: u64, turn: TurnId)
    requires
        a0.wf(),
        a0.turn_ids.spec_get(prompt) is None,
        a0.prompt_ids.spec_get(turn.0) is None,
        OctosUiAgent::prompted(a0, a1, prompt, turn),
    ensures
        a1.wf(),
{
    assert forall|q: u64| #[trigger] key_made_from(a1.session_keys, q) by {
        assert(key_made_from(a0.session_keys, q));
    }
    assert forall|q: u64| #[trigger] maps_back(a1.session_keys, a1.session_ids, q) by {
        assert(maps_back(a0.session_keys, a0.session_ids, q));
    }
    assert forall|b: Seq<char>| #[trigger] maps_back(a1.session_ids, a1.session_keys, b) by {
        assert(maps_back(a0.session_ids, a0.session_keys, b));
    }
    assert forall|q: u64| #[trigger] maps_back(a1.turn_ids, a1.prompt_ids, q) by {
        assert(maps_back(a0.turn_ids, a0.prompt_ids, q));
    }
    assert forall|b: u128| #[trigger] maps_back(a1.prompt_ids, a1.turn_ids, b) by {
        assert(maps_back(a0.prompt_ids, a0.turn_ids, b));
    }
}

// ---------------------------------------------------------------- translation

/// The store's connection event for a transport state.
pub open spec fn store_event_for(next: ConnectionState) -> ConnectionEvent {
    match next {
        ConnectionState::Live | ConnectionState::ReplayApplying => ConnectionEvent::Connected,
        ConnectionState::Reconnecting { .. } => ConnectionEvent::Reconnecting,
        _ => ConnectionEvent::Offline,
    }
}

/// The toast a state transition shows, as kind and message.
pub open spec fn transition_toast(prev: ConnectionState, next: ConnectionState) -> Option<(ToastKind, Seq<char>)> {
    if (prev is Reconnecting || prev is ReplayApplying) && next is Live {
        Some((ToastKind::ReconnectSuccess, "Reconnected"@))
    } else if next is Reconnecting {
        Some((ToastKind::Reconnecting, "Reconnecting (attempt "@ + decimal(next->attempt as nat) + ")"@))
    } else if next is Failed {
        Some((ToastKind::Error, "Connection failed; restart to retry"@))
    } else if (prev is Dialing || prev is Handshaking) && next is Live {
        Some((ToastKind::ReconnectSuccess, "Connected"@))
    } else {
        None
    }
}

pub open spec fn toast_view(t: Option<Toast>) -> Option<(ToastKind, Seq<char>)> {
    match t {
        Some(t) => Some((t.kind, t.message@)),
        None => None,
    }
}

/// The store event and toast of a connection transition; nothing when the
/// state did not change.
pub fn connection_transition(prev: ConnectionState, next: ConnectionState) -> (r: (Option<ConnectionEvent>, Option<Toast>))
    ensures
        prev == next ==> r.0 is None && r.1 is None,
        prev != next ==> r.0 == Some(store_event_for(next)) && toast_view(r.1) == transition_toast(prev, next),
{
    if prev == next {
        return (None, None);
    }
    let ev = match next {
        ConnectionState::Live | ConnectionState::ReplayApplying => ConnectionEvent::Connected,
        ConnectionState::Reconnecting { .. } => ConnectionEvent::Reconnecting,
        _ => ConnectionEvent::Offline,
    };
    let prev_degraded = match prev {
        ConnectionState::Reconnecting { .. } | ConnectionState::ReplayApplying => true,
        _ => false,
    };
    let prev_dialing = match prev {
        ConnectionState::Dialing | ConnectionState::Handshaking => true,
        _ => false,
    };
    let toast = match next {
        ConnectionState::Live => {
            if prev_degraded {
                Some(Toast::new(ToastKind::ReconnectSuccess, "Reconnected"))
            } else if prev_dialing {
                Some(Toast::new(ToastKind::ReconnectSuccess, "Connected"))
            } else {
                None
            }
        },
        ConnectionState::Reconnecting { attempt } => {
            let digits = crate::numfmt::decimal_chars(attempt as u64);
            let d = crate::text::string_of(digits.as_slice());
            let mut m = "Reconnecting (attempt ".to_owned();
            crate::text::append_str(&mut m, d.as_str());
            crate::text::append_str(&mut m, ")");
            Some(Toast { kind: ToastKind::Reconnecting, message: m })
        },
        ConnectionState::Failed => Some(Toast::new(ToastKind::Error, "Connection failed; restart to retry")),
        _ => None,
    };
    (Some(ev), toast)
}

impl OctosUiAgent {
    /// Mirrors a connection transition into the app state: its connection
    /// field and, on an edge worth a notice, a toast.
    pub fn fold_connection_into_store(store: &mut AppState, prev: ConnectionState, next: ConnectionState)
        ensures
            prev == next ==> *final(store) == *old(store),
            prev != next ==> final(store).connection == crate::reducer::connection_state_of(store_event_for(next)),
            prev != next ==> match transition_toast(prev, next) {
                Some((k, m)) => toast_pushed(old(store).toasts, final(store).toasts, k, m),
                None => final(store).toasts == old(store).toasts,
            },
            *final(store) == (AppState { connection: final(store).connection, toasts: final(store).toasts, ..*old(store) }),
    {
        let (ev, toast) = connection_transition(prev, next);
        match ev {
            Some(e) => reduce(store, Event::Connection(e)),
            None => {},
        }
        let ghost mid = *store;
        match toast {
            Some(t) => {
                reduce(store, Event::Toast(t));
                assert(store.toasts.seq().drop_last() =~= mid.toasts.seq());
            },
            None => {},
        }
    }
}

/// After the turn `tid` ended: its prompt (if any) is forgotten both ways.
pub open spec fn turn_ended(a0: OctosUiAgent, a1: OctosUiAgent, tid: u128) -> bool {
    match a0.prompt_ids.spec_get(tid) {
        Some(p) => {
            &&& keyed_set(a0.prompt_ids, a1.prompt_ids, tid, None)
            &&& keyed_set(a0.turn_ids, a1.turn_ids, p.0, None)
            &&& a1 == OctosUiAgent { turn_ids: a1.turn_ids, prompt_ids: a1.prompt_ids, ..a0 }
        },
        None => a1 == a0,
    }
}

/// The chat events of a notification and its effect on the id maps.
pub open spec fn notification_translated(a0: OctosUiAgent, a1: OctosUiAgent, n: UiNotification, out: Seq<AgentEvent>) -> bool {
    match n {
        UiNotification::MessageDelta(e) => {
            &&& a1 == a0
            &&& match a0.prompt_ids.spec_get(e.turn_id.0) {
                Some(p) => out.len() == 1 && (out[0] matches AgentEvent::TextDelta { prompt_id, text }
                    && prompt_id == p && text@ == e.text@),
                None => out.len() == 0,
            }
        },
        UiNotification::ToolStarted(e) => {
            &&& a1 == a0
            &&& match a0.prompt_ids.spec_get(e.turn_id.0) {
                Some(p) => out.len() == 1 && (out[0] matches AgentEvent::ToolRequest {
                    prompt_id,
                    tool_use_id,
                    tool_name,
                    tool_input,
                } && prompt_id == p && tool_use_id@ == e.tool_call_id@ && tool_name@ == e.tool_name@
                    && tool_input@ == match e.arguments {
                    Some(a) => a@,
                    None => "{}"@,
                }),
                None => out.len() == 0,
            }
        },
        UiNotification::TurnCompleted(e) => {
            &&& turn_ended(a0, a1, e.turn_id.0)
            &&& match a0.prompt_ids.spec_get(e.turn_id.0) {
                Some(p) => out == seq![AgentEvent::TurnComplete { prompt_id: p }],
                None => out.len() == 0,
            }
        },
        UiNotification::TurnError(e) => {
            &&& turn_ended(a0, a1, e.turn_id.0)
            &&& match a0.prompt_ids.spec_get(e.turn_id.0) {
                Some(p) => out.len() == 1 && (out[0] matches AgentEvent::PromptError { prompt_id, error }
                    && prompt_id == p && error@ == e.code@ + ": "@ + e.message@),
                None => out.len() == 0,
            }
        },
        _ => a1 == a0 && out.len() == 0,
    }
}

fn one(e: AgentEvent) -> (v: Vec<AgentEvent>)
    ensures
        v@ == seq![e],
{
    let mut v = Vec::new();
    v.push(e);
    v
}

impl OctosUiAgent {
    fn end_turn(&mut self, tid: &TurnId) -> (p: Option<PromptId>)
        ensures
            turn_ended(*old(self), *final(self), tid.0),
            p == old(self).prompt_ids.spec_get(tid.0),
    {
        match self.prompt_ids.remove(tid) {
            Some(p) => {
                self.turn_ids.remove(&p);
                Some(p)
            },
            None => None,
        }
    }

    /// The chat events a notification produces.
    pub fn translate_notification(&mut self, n: &UiNotification) -> (out: Vec<AgentEvent>)
        ensures
            notification_translated(*old(self), *final(self), *n, out@),
    {
        match n {
            UiNotification::MessageDelta(ev) => match self.prompt_ids.get(&ev.turn_id) {
                Some(p) => one(AgentEvent::TextDelta { prompt_id: *p, text: ev.text.clone() }),
                None => Vec::new(),
            },
            UiNotification::ToolStarted(ev) => match self.prompt_ids.get(&ev.turn_id) {
                Some(p) => {
                    let input = match &ev.arguments {
                        Some(a) => a.clone(),
                        None => "{}".to_owned(),
                    };
                    one(
                        AgentEvent::ToolRequest {
                            prompt_id: *p,
                            tool_use_id: ev.tool_call_id.clone(),
                            tool_name: ev.tool_name.clone(),
                            tool_input: input,
                        },
                    )
                },
                None => Vec::new(),
            },
            UiNotification::TurnCompleted(ev) => match self.end_turn(&ev.turn_id) {
                Some(p) => one(AgentEvent::TurnComplete { prompt_id: p }),
                None => Vec::new(),
            },
            UiNotification::TurnError(ev) => match self.end_turn(&ev.turn_id) {
                Some(p) => {
                    let mut m = ev.code.clone();
                    crate::text::append_str(&mut m, ": ");
                    crate::text::append_str(&mut m, ev.message.as_str());
                    one(AgentEvent::PromptError { prompt_id: p, error: m })
                },
                None => Vec::new(),
            },
            _ => Vec::new(),
        }
    }
}

/// Ending a turn keeps the maps inverse.
pub proof fn law_turn_end_keeps_maps(a0: OctosUiAgent, a1: OctosUiAgent, tid: u128)
    requires
        a0.wf(),
        turn_ended(a0, a1, tid),
    ensures
        a1.wf(),
{
    if let Some(p) = a0.prompt_ids.spec_get(tid) {
        assert(maps_back(a0.prompt_ids, a0.turn_ids, tid));
        assert forall|q: u64| #[trigger] maps_back(a1.turn_ids, a1.prompt_ids, q) by {
            assert(maps_back(a0.turn_ids, a0.prompt_ids, q));
        }
        assert forall|b: u128| #[trigger] maps_back(a1.prompt_ids, a1.turn_ids, b) by {
            assert(maps_back(a0.prompt_ids, a0.turn_ids, b));
        }
    }
}

/// The text of an RPC error: `<method>: <message> (<code>)`.
pub open spec fn rpc_error_text(method: Seq<char>, code: i64, message: Seq<char>) -> Seq<char> {
    method + ": "@ + message + " ("@ + signed_decimal(code as int) + ")"@
}

/// The chat events of a transport event and the agent's own changes; the
/// app-state side is stated by `translate` itself.
pub open spec fn translated(a0: OctosUiAgent, a1: OctosUiAgent, ev: TransportEvent, out: Seq<AgentEvent>) -> bool {
    match ev {
        TransportEvent::ConnectionState(next) => {
            &&& a1 == OctosUiAgent { connection_state: next, ..a0 }
            &&& out.len() == 0
        },
        TransportEvent::CapabilityNegotiated(c) => {
            &&& a1 == OctosUiAgent { capabilities: Some(c), ..a0 }
            &&& out.len() == 0
        },
        TransportEvent::SessionOpened { session_id } => match a0.session_ids.spec_get(session_id.0@) {
            Some(sid) => {
                &&& keyed_set(a0.ready_sessions, a1.ready_sessions, sid.0, Some(()))
                &&& a1 == OctosUiAgent { ready_sessions: a1.ready_sessions, ..a0 }
                &&& out == seq![AgentEvent::SessionReady { session_id: sid }]
            },
            None => a1 == a0 && out.len() == 0,
        },
        TransportEvent::TurnResult => a1 == a0 && out.len() == 0,
        TransportEvent::RpcError { request_id, method, code, message } => {
            let text = rpc_error_text(method@, code, message@);
            &&& a1 == a0
            &&& if method@ == "session/open"@ && a0.session_keys.seq().len() > 0 {
                out.len() == 1 && (out[0] matches AgentEvent::SessionError { session_id, error }
                    && session_id == a0.session_keys.seq()[0].0 && error@ == text)
            } else if a0.prompt_ids.seq().len() > 0 {
                out.len() == 1 && (out[0] matches AgentEvent::PromptError { prompt_id, error }
                    && prompt_id == a0.prompt_ids.seq()[0].1 && error@ == text)
            } else {
                out.len() == 0
            }
        },
        TransportEvent::DurableNotification { payload, cursor } => notification_translated(a0, a1, payload, out),
        TransportEvent::EphemeralNotification { payload } => notification_translated(a0, a1, payload, out),
    }
}

/// What a transport event does to the app state.
pub open spec fn store_folded(prev: ConnectionState, s0: AppState, s1: AppState, ev: TransportEvent) -> bool {
    match ev {
        TransportEvent::ConnectionState(next) => {
            &&& prev == next ==> s1 == s0
            &&& prev != next ==> s1.connection == crate::reducer::connection_state_of(store_event_for(next))
            &&& prev != next ==> match transition_toast(prev, next) {
                Some((k, m)) => toast_pushed(s0.toasts, s1.toasts, k, m),
                None => s1.toasts == s0.toasts,
            }
            &&& s1 == AppState { connection: s1.connection, toasts: s1.toasts, ..s0 }
        },
        TransportEvent::DurableNotification { payload, cursor } => exists|now: i64|
            reduce_post(s0, s1, Event::Protocol { cursor, notification: payload }, now),
        TransportEvent::EphemeralNotification { payload } => exists|now: i64|
            reduce_post(s0, s1, Event::Protocol { cursor: None, notification: payload }, now),
        _ => s1 == s0,
    }
}

fn rpc_error_message(method: &str, code: i64, message: &str) -> (r: String)
    ensures
        r@ == rpc_error_text(method@, code, message@),
{
    let mut m = method.to_owned();
    crate::text::append_str(&mut m, ": ");
    crate::text::append_str(&mut m, message);
    crate::text::append_str(&mut m, " (");
    let digits = crate::numfmt::signed_decimal_chars(code);
    let d = crate::text::string_of(digits.as_slice());
    crate::text::append_str(&mut m, d.as_str());
    crate::text::append_str(&mut m, ")");
    m
}

impl OctosUiAgent {
    /// Turns one transport event into chat events, keeping the id maps and
    /// the app state up to date.
    pub fn translate(&mut self, store: &mut AppState, event: TransportEvent) -> (out: Vec<AgentEvent>)
        ensures
            translated(*old(self), *final(self), event, out@),
            store_folded(old(self).connection_state, *old(store), *final(store), event),
    {
        match event {
            TransportEvent::ConnectionState(next) => {
                let prev = self.connection_state;
                self.connection_state = next;
                Self::fold_connection_into_store(store, prev, next);
                Vec::new()
            },
            TransportEvent::CapabilityNegotiated(caps) => {
                self.capabilities = Some(caps);
                Vec::new()
            },
            TransportEvent::SessionOpened { session_id } => match self.session_ids.get(&session_id) {
                Some(sid) => {
                    let sid = *sid;
                    self.ready_sessions.insert(sid, ());
                    one(AgentEvent::SessionReady { session_id: sid })
                },
                None => Vec::new(),
            },
            TransportEvent::TurnResult => Vec::new(),
            TransportEvent::RpcError { request_id, method, code, message } => {
                let msg = rpc_error_message(method.as_str(), code, message.as_str());
                if crate::text::str_eq(method.as_str(), "session/open") && self.session_keys.len() > 0 {
                    let sid = *self.session_keys.key_at(0);
                    return one(AgentEvent::SessionError { session_id: sid, error: msg });
                }
                if self.prompt_ids.len() > 0 {
                    let pid = *self.prompt_ids.value_at(0);
                    return one(AgentEvent::PromptError { prompt_id: pid, error: msg });
                }
                Vec::new()
            },
            TransportEvent::DurableNotification { payload, cursor } => {
                let out = self.translate_notification(&payload);
                reduce(store, Event::Protocol { cursor, notification: payload });
                out
            },
            TransportEvent::EphemeralNotification { payload } => {
                let out = self.translate_notification(&payload);
                reduce(store, Event::Protocol { cursor: None, notification: payload });
                out
            },
        }
    }
}

/// Every transport event keeps the agent's maps inverse.
pub proof fn law_translate_keeps_maps(a0: OctosUiAgent, a1: OctosUiAgent, ev: TransportEvent, out: Seq<AgentEvent>)
    requires
        a0.wf(),
        translated(a0, a1, ev, out),
    ensures
        a1.wf(),
{
    match ev {
        TransportEvent::DurableNotification { payload, cursor } => {
            match payload {
                UiNotification::TurnCompleted(e) => law_turn_end_keeps_maps(a0, a1, e.turn_id.0),
                UiNotification::TurnError(e) => law_turn_end_keeps_maps(a0, a1, e.turn_id.0),
                _ => {},
            }
        },
        TransportEvent::EphemeralNotification { payload } => {
            match payload {
                UiNotification::TurnCompleted(e) => law_turn_end_keeps_maps(a0, a1, e.turn_id.0),
                UiNotification::TurnError(e) => law_turn_end_keeps_maps(a0, a1, e.turn_id.0),
                _ => {},
            }
        },
        _ => {},
    }
}

impl OctosUiAgent {
    /// Sessions are stateful on the server: history is not replayed.
    pub fn is_stateless(&self) -> (r: bool)
        ensures
            !r,
    {
        false
    }
}

} // verus!
