//! Decisions of the WebSocket connection loop: which inbound notifications
//! are durable and what cursor they carry, where a resumed session starts,
//! what a `session/open` reply announces, and how reconnects are paced
//! against the cumulative budget. The loop itself performs the I/O.

use vstd::prelude::*;

use crate::backoff::{backoff_exp, next_backoff_secs, pow2, RECONNECT_BUDGET_SECS, RECONNECT_DELAY_MAX_SECS};
use crate::capability::Capabilities;
use crate::json::{JsonValue, JsonView};
use crate::numfmt::json_u64;
use crate::protocol::UiCursor;
use crate::transport::ConnectionState;

verus! {

/// Method of the streamed-text notification, the only ephemeral one.
pub const MESSAGE_DELTA: &'static str = "message/delta";

/// Method of the tool-start notification.
pub const TOOL_STARTED: &'static str = "tool/started";

/// `message/delta` is the only notification that is never replayed and
/// never advances the cursor.
pub fn is_ephemeral_method(method: &str) -> (r: bool)
    ensures
        r == (method@ == MESSAGE_DELTA@),
{
    crate::text::str_eq(method, MESSAGE_DELTA)
}

/// A cursor as JSON gives it: `{"stream": <string>, "seq": <u64>}` (other
/// members ignored) or the two-element array `[<string>, <u64>]`.
pub open spec fn cursor_view_of(j: JsonView) -> Option<(Seq<char>, u64)> {
    match j {
        JsonView::Object(_) => match (j.get("stream"@), j.get("seq"@)) {
            (Some(JsonView::Str(s)), Some(JsonView::Number(n))) => match json_u64(n) {
                Some(v) => Some((s, v)),
                None => None,
            },
            _ => None,
        },
        JsonView::Array(a) => if a.len() == 2 {
            match (a[0], a[1]) {
                (JsonView::Str(s), JsonView::Number(n)) => match json_u64(n) {
                    Some(v) => Some((s, v)),
                    None => None,
                },
                _ => None,
            }
        } else {
            None
        },
        _ => None,
    }
}

pub open spec fn cursor_view(c: Option<UiCursor>) -> Option<(Seq<char>, u64)> {
    match c {
        Some(c) => Some((c.stream@, c.seq)),
        None => None,
    }
}

fn number_u64(v: &JsonValue) -> (r: Option<u64>)
    ensures
        r == match v.jview() {
            JsonView::Number(n) => json_u64(n),
            _ => None,
        },
{
    match v {
        JsonValue::Number(n) => {
            let c = crate::text::chars_of(n.as_str());
            crate::numfmt::json_u64_chars(c.as_slice())
        },
        _ => None,
    }
}

/// Reads a cursor from its JSON form.
pub fn cursor_from_json(v: &JsonValue) -> (r: Option<UiCursor>)
    ensures
        cursor_view(r) == cursor_view_of(v.jview()),
{
    match v {
        JsonValue::Object(_) => {
            let stream = match v.get("stream") {
                Some(s) => s.as_str(),
                None => None,
            };
            let seq = match v.get("seq") {
                Some(n) => number_u64(n),
                None => None,
            };
            match (stream, seq) {
                (Some(s), Some(n)) => Some(UiCursor { stream: s.to_owned(), seq: n }),
                _ => None,
            }
        },
        JsonValue::Array(a) => {
            proof {
                assert(v.jview().as_array() == Some(Seq::new(a@.len(), |i: int| a@[i].jview())));
            }
            if a.len() == 2 {
                match (&a[0], number_u64(&a[1])) {
                    (JsonValue::Str(s), Some(n)) => Some(UiCursor { stream: s.clone(), seq: n }),
                    _ => None,
                }
            } else {
                None
            }
        },
        _ => None,
    }
}

/// Where an inbound notification goes.
pub enum Inbound {
    /// Forward as ephemeral: never committed, never replayed.
    Ephemeral,
    /// Commit, with the cursor the notification carried.
    Durable { cursor: Option<UiCursor> },
}

/// The cursor a notification's params carry under `cursor`, if readable.
pub open spec fn params_cursor(params: JsonView) -> Option<(Seq<char>, u64)> {
    match params.get("cursor"@) {
        Some(c) => cursor_view_of(c),
        None => None,
    }
}

/// Routes a notification that decoded: `message/delta` is ephemeral; any
/// other is durable, and a cursor it carries becomes the last cursor.
pub fn route_notification(method: &str, params: &JsonValue, last_cursor: &mut Option<UiCursor>) -> (r: Inbound)
    ensures
        method@ == MESSAGE_DELTA@ ==> r is Ephemeral && *final(last_cursor) == *old(last_cursor),
        method@ != MESSAGE_DELTA@ ==> (r matches Inbound::Durable { cursor } && cursor_view(cursor)
            == params_cursor(params.jview()) && match cursor {
            Some(c) => *final(last_cursor) == Some(c),
            None => *final(last_cursor) == *old(last_cursor),
        }),
{
    if is_ephemeral_method(method) {
        return Inbound::Ephemeral;
    }
    let cursor = match params.get("cursor") {
        Some(c) => cursor_from_json(c),
        None => None,
    };
    match &cursor {
        Some(c) => {
            *last_cursor = Some(c.clone());
        },
        None => {},
    }
    Inbound::Durable { cursor }
}

/// A resumed `session/open` replays from the last cursor unless the caller
/// gave one.
pub fn resume_after(after: Option<UiCursor>, last_cursor: &Option<UiCursor>) -> (r: Option<UiCursor>)
    ensures
        r == match after {
            Some(a) => Some(a),
            None => *last_cursor,
        },
{
    match after {
        Some(a) => Some(a),
        None => match last_cursor {
            Some(c) => Some(c.clone()),
            None => None,
        },
    }
}

/// The `session/open` reply arrived: the negotiated capabilities, and the
/// state to announce when the link was not yet live.
pub fn on_session_open_result(result: &JsonValue, state: &mut ConnectionState) -> (r: (
    Capabilities,
    Option<ConnectionState>,
))
    ensures
        r.0.parsed_from(result.jview()),
        *final(state) == ConnectionState::Live,
        r.1 == if *old(state) == ConnectionState::Live {
            None
        } else {
            Some(ConnectionState::Live)
        },
{
    let caps = Capabilities::parse(result);
    if *state != ConnectionState::Live {
        *state = ConnectionState::Live;
        (caps, Some(ConnectionState::Live))
    } else {
        (caps, None)
    }
}

/// What one reconnect round decides.
pub struct ReconnectPlan {
    /// The attempt number after this round (saturating).
    pub attempt: u32,
    /// Cumulative backoff, in seconds, including this round's delay.
    pub total_wait_secs: u64,
    /// How long to wait before dialing again, in seconds.
    pub delay_secs: u64,
    /// What to announce: `Reconnecting { attempt }`, or `Failed` once the
    /// budget is exceeded.
    pub announce: ConnectionState,
    /// Dial again (`false` ends the loop).
    pub retry: bool,
}

pub open spec fn sat_inc(a: u32) -> u32 {
    if a == u32::MAX {
        a
    } else {
        (a + 1) as u32
    }
}

/// The round that follows `attempt` rounds and `total` seconds of waiting,
/// when this round's delay is `delay`.
pub open spec fn plan_for(attempt: u32, total: u64, delay: u64) -> ReconnectPlan {
    let a = sat_inc(attempt);
    let t = (total + delay) as u64;
    ReconnectPlan {
        attempt: a,
        total_wait_secs: t,
        delay_secs: delay,
        announce: if t > RECONNECT_BUDGET_SECS {
            ConnectionState::Failed
        } else {
            ConnectionState::Reconnecting { attempt: a }
        },
        retry: t <= RECONNECT_BUDGET_SECS,
    }
}

/// Plans a reconnect round with the delay given.
pub fn reconnect_plan_with(attempt: u32, total_wait_secs: u64, delay_secs: u64) -> (r: ReconnectPlan)
    requires
        total_wait_secs + delay_secs <= u64::MAX,
    ensures
        r == plan_for(attempt, total_wait_secs, delay_secs),
{
    let a = attempt.saturating_add(1);
    let t = total_wait_secs + delay_secs;
    if t > RECONNECT_BUDGET_SECS {
        ReconnectPlan { attempt: a, total_wait_secs: t, delay_secs, announce: ConnectionState::Failed, retry: false }
    } else {
        ReconnectPlan {
            attempt: a,
            total_wait_secs: t,
            delay_secs,
            announce: ConnectionState::Reconnecting { attempt: a },
            retry: true,
        }
    }
}

/// Plans a reconnect round, drawing the delay from the full-jitter backoff.
pub fn plan_reconnect(attempt: u32, total_wait_secs: u64) -> (r: ReconnectPlan)
    requires
        total_wait_secs + RECONNECT_DELAY_MAX_SECS <= u64::MAX,
    ensures
        exists|d: u64|
            d <= RECONNECT_DELAY_MAX_SECS && d < pow2(backoff_exp(sat_inc(attempt))) && r == plan_for(
                attempt,
                total_wait_secs,
                d,
            ),
{
    let a = attempt.saturating_add(1);
    let d = next_backoff_secs(a);
    reconnect_plan_with(attempt, total_wait_secs, d)
}

/// What the last step of the dial loop came to.
#[derive(Clone, Copy, Debug, PartialEq, Eq, Structural)]
pub enum DialEvent {
    /// The upgrade request could not be built.
    RequestRefused,
    /// The socket could not be opened.
    ConnectFailed,
    /// The socket is open.
    Connected,
    /// The live loop ended with this step (`Continue` counts as
    /// `Reconnect`).
    LiveEnded(LiveStep),
}

/// What the dial loop does next.
#[derive(Clone, Copy, Debug, PartialEq, Eq, Structural)]
pub enum DialAction {
    /// Wait this many seconds, then dial again.
    Redial { delay_secs: u64 },
    /// Run the live loop on the open socket.
    RunLive,
    /// End the transport.
    Stop,
}

/// Where the dial loop stands: the reconnect rounds since the last
/// successful connect and the seconds waited in them.
pub struct DialState {
    pub attempt: u32,
    pub total_wait_secs: u64,
}

/// The decision of a reconnect round drawn with delay `d`: its
/// announcement, and a redial after `d` while within budget.
pub open spec fn round_decision(p: ReconnectPlan, d: u64) -> (Option<ConnectionState>, DialAction) {
    (Some(p.announce), if p.retry {
        DialAction::Redial { delay_secs: d }
    } else {
        DialAction::Stop
    })
}

impl DialState {
    /// Before the first dial: no rounds, nothing waited.
    pub fn new() -> (r: Self)
        ensures
            r.attempt == 0 && r.total_wait_secs == 0,
    {
        DialState { attempt: 0, total_wait_secs: 0 }
    }

    /// One decision of the dial loop: what to announce and what to do.
    /// A request that cannot be built fails for good; a connect resets the
    /// rounds and goes live; a disconnect asked for by the app ends the
    /// loop; a failed connect or a dropped socket plans a reconnect round.
    pub fn step(&mut self, ev: DialEvent) -> (r: (Option<ConnectionState>, DialAction))
        requires
            old(self).total_wait_secs + RECONNECT_DELAY_MAX_SECS <= u64::MAX,
        ensures
            ev == DialEvent::RequestRefused ==> r == (Some(ConnectionState::Failed), DialAction::Stop)
                && *final(self) == *old(self),
            ev == DialEvent::Connected ==> r == (Some(ConnectionState::Handshaking), DialAction::RunLive)
                && final(self).attempt == 0 && final(self).total_wait_secs == 0,
            ev == DialEvent::LiveEnded(LiveStep::Disconnect) ==> r == (None::<ConnectionState>, DialAction::Stop)
                && *final(self) == *old(self),
            (ev == DialEvent::ConnectFailed || ev == DialEvent::LiveEnded(LiveStep::Reconnect) || ev
                == DialEvent::LiveEnded(LiveStep::Continue)) ==> exists|d: u64|
                d <= RECONNECT_DELAY_MAX_SECS && d < pow2(backoff_exp(sat_inc(old(self).attempt)))
                    && final(self).attempt == #[trigger] plan_for(old(self).attempt, old(self).total_wait_secs, d).attempt
                    && final(self).total_wait_secs == plan_for(old(self).attempt, old(self).total_wait_secs, d).total_wait_secs
                    && r == round_decision(plan_for(old(self).attempt, old(self).total_wait_secs, d), d),
            r.1 != DialAction::Stop ==> final(self).total_wait_secs <= RECONNECT_BUDGET_SECS,
    {
        match ev {
            DialEvent::RequestRefused => (Some(ConnectionState::Failed), DialAction::Stop),
            DialEvent::Connected => {
                self.attempt = 0;
                self.total_wait_secs = 0;
                (Some(ConnectionState::Handshaking), DialAction::RunLive)
            },
            DialEvent::LiveEnded(LiveStep::Disconnect) => (None, DialAction::Stop),
            _ => {
                let plan = plan_reconnect(self.attempt, self.total_wait_secs);
                self.attempt = plan.attempt;
                self.total_wait_secs = plan.total_wait_secs;
                let action = if plan.retry {
                    DialAction::Redial { delay_secs: plan.delay_secs }
                } else {
                    DialAction::Stop
                };
                (Some(plan.announce), action)
            },
        }
    }
}

/// A round that starts with room for a full delay in the budget always
/// dials again, and never leaves more than the budget spent.
pub proof fn law_reconnect_within_budget(attempt: u32, total: u64, delay: u64)
    requires
        total + RECONNECT_DELAY_MAX_SECS <= RECONNECT_BUDGET_SECS,
        delay <= RECONNECT_DELAY_MAX_SECS,
    ensures
        plan_for(attempt, total, delay).retry,
        plan_for(attempt, total, delay).announce == (ConnectionState::Reconnecting { attempt: sat_inc(attempt) }),
        plan_for(attempt, total, delay).total_wait_secs <= RECONNECT_BUDGET_SECS,
{
}

/// Every round that dials again has spent at most the budget, and every
/// round that does not announces `Failed`.
pub proof fn law_retry_iff_within_budget(attempt: u32, total: u64, delay: u64)
    requires
        total + delay <= u64::MAX,
    ensures
        plan_for(attempt, total, delay).retry <==> plan_for(attempt, total, delay).total_wait_secs
            <= RECONNECT_BUDGET_SECS,
        !plan_for(attempt, total, delay).retry ==> plan_for(attempt, total, delay).announce
            == ConnectionState::Failed,
        plan_for(attempt, total, delay).attempt >= 1,
{
}

/// What arrived on the socket while live.
#[derive(Clone, Copy, Debug, PartialEq, Eq, Structural)]
pub enum InboundFrame {
    Text,
    Binary,
    Ping,
    Pong,
    /// A raw frame.
    Raw,
    Close,
    ReadError,
    /// The stream ended.
    Ended,
}

/// What the live loop does with a frame.
#[derive(Clone, Copy, Debug, PartialEq, Eq, Structural)]
pub enum FrameAction {
    /// Parse and dispatch the text.
    Dispatch,
    /// Nothing to do (an unexpected binary frame is logged and skipped).
    Ignore,
    /// Answer with a pong carrying the ping's payload.
    ReplyPong,
    /// Drop the socket and reconnect.
    Reconnect,
}

pub open spec fn spec_frame_action(f: InboundFrame) -> FrameAction {
    match f {
        InboundFrame::Text => FrameAction::Dispatch,
        InboundFrame::Ping => FrameAction::ReplyPong,
        InboundFrame::Binary | InboundFrame::Pong | InboundFrame::Raw => FrameAction::Ignore,
        InboundFrame::Close | InboundFrame::ReadError | InboundFrame::Ended => FrameAction::Reconnect,
    }
}

pub fn frame_action(f: InboundFrame) -> (r: FrameAction)
    ensures
        r == spec_frame_action(f),
{
    match f {
        InboundFrame::Text => FrameAction::Dispatch,
        InboundFrame::Ping => FrameAction::ReplyPong,
        InboundFrame::Binary | InboundFrame::Pong | InboundFrame::Raw => FrameAction::Ignore,
        InboundFrame::Close | InboundFrame::ReadError | InboundFrame::Ended => FrameAction::Reconnect,
    }
}

/// What the live loop took from the command channel: `None` when the
/// channel is closed.
#[derive(Clone, Copy, Debug, PartialEq, Eq, Structural)]
pub enum CommandKind {
    /// A request to send to the server.
    Request,
    /// The app asks to disconnect.
    Disconnect,
}

/// How the live loop goes on after a step.
#[derive(Clone, Copy, Debug, PartialEq, Eq, Structural)]
pub enum LiveStep {
    /// Keep the socket and go on (for a command: send its frame).
    Continue,
    /// Drop the socket and reconnect.
    Reconnect,
    /// Send a Close frame and end for good.
    Disconnect,
}

pub open spec fn spec_on_command(cmd: Option<CommandKind>) -> LiveStep {
    match cmd {
        Some(CommandKind::Request) => LiveStep::Continue,
        Some(CommandKind::Disconnect) | None => LiveStep::Disconnect,
    }
}

/// A command goes out; a closed channel or a disconnect request closes the
/// socket and ends the transport.
pub fn on_command(cmd: Option<CommandKind>) -> (r: LiveStep)
    ensures
        r == spec_on_command(cmd),
{
    match cmd {
        Some(CommandKind::Request) => LiveStep::Continue,
        Some(CommandKind::Disconnect) | None => LiveStep::Disconnect,
    }
}

/// After sending a frame (a command, a pong or a heartbeat ping): a failed
/// send drops the socket and reconnects.
pub fn on_send(ok: bool) -> (r: LiveStep)
    ensures
        r == if ok {
            LiveStep::Continue
        } else {
            LiveStep::Reconnect
        },
{
    if ok {
        LiveStep::Continue
    } else {
        LiveStep::Reconnect
    }
}

/// The WebSocket scheme for a server base URL's scheme: `wss` for `https`
/// and `wss`, `ws` for `http` and `ws`; any other scheme is refused.
pub fn ws_scheme(scheme: &str) -> (r: Result<&'static str, String>)
    ensures
        (scheme@ == "https"@ || scheme@ == "wss"@) ==> (r matches Ok(x) && x@ == "wss"@),
        (scheme@ == "http"@ || scheme@ == "ws"@) ==> (r matches Ok(x) && x@ == "ws"@),
        !(scheme@ == "https"@ || scheme@ == "wss"@ || scheme@ == "http"@ || scheme@ == "ws"@) ==> (r matches Err(
            e,
        ) && e@ == "unsupported scheme: "@ + scheme@),
{
    proof {
        reveal_strlit("https");
        reveal_strlit("wss");
        reveal_strlit("http");
        reveal_strlit("ws");
        assert("http"@.len() == 4 && "https"@.len() == 5 && "ws"@.len() == 2 && "wss"@.len() == 3);
        assert("http"@ != "https"@ && "http"@ != "wss"@ && "ws"@ != "https"@ && "ws"@ != "wss"@);
    }
    if crate::text::str_eq(scheme, "https") || crate::text::str_eq(scheme, "wss") {
        Ok("wss")
    } else if crate::text::str_eq(scheme, "http") || crate::text::str_eq(scheme, "ws") {
        Ok("ws")
    } else {
        let mut e = "unsupported scheme: ".to_owned();
        crate::text::append_str(&mut e, scheme);
        Err(e)
    }
}

/// The path segments appended to the base URL for the WebSocket endpoint.
pub const WS_PATH_SEGMENTS: [&'static str; 3] = ["api", "ui-protocol", "ws"];

/// Header name of the requested UI features.
pub const FEATURES_HEADER: &'static str = "x-octos-ui-features";

/// The headers of the WebSocket upgrade request: the bearer token, the
/// profile and the features requested in the handshake.
pub fn upgrade_headers(token: &str, profile: &str, caps: &Capabilities) -> (r: Vec<(String, String)>)
    ensures
        r@.len() == 3,
        r@[0].0@ == "authorization"@ && r@[0].1@ == "Bearer "@ + token@,
        r@[1].0@ == "x-profile-id"@ && r@[1].1@ == profile@,
        r@[2].0@ == FEATURES_HEADER@,
        r@[2].1@ == crate::text::join(caps.handshake_features(), ", "@),
{
    let mut out: Vec<(String, String)> = Vec::new();
    let mut bearer = "Bearer ".to_owned();
    crate::text::append_str(&mut bearer, token);
    out.push(("authorization".to_owned(), bearer));
    out.push(("x-profile-id".to_owned(), profile.to_owned()));
    out.push((FEATURES_HEADER.to_owned(), caps.handshake_header_value()));
    out
}

/// A JSON-RPC request id the client issued.
#[derive(Clone, Copy, Debug, PartialEq, Eq, Structural)]
pub struct RpcId(pub u64);

impl crate::keyed::IdKey for RpcId {
    type Key = u64;

    open spec fn id_view(&self) -> u64 {
        self.0
    }

    fn same_id(&self, other: &Self) -> (r: bool) {
        self.0 == other.0
    }
}

/// Requests awaiting a reply: their ids and methods.
pub struct RpcRegistry {
    next_id: u64,
    pending: crate::keyed::KeyedVec<RpcId, String>,
}

impl RpcRegistry {
    /// The id the next request gets.
    pub closed spec fn next(&self) -> u64 {
        self.next_id
    }

    /// The method of the pending request `id`.
    pub closed spec fn method_of(&self, id: u64) -> Option<Seq<char>> {
        match self.pending.spec_get(id) {
            Some(m) => Some(m@),
            None => None,
        }
    }

    pub fn new() -> (r: Self)
        ensures
            r.next() == 1,
            forall|q: u64| #[trigger] r.method_of(q) is None,
    {
        RpcRegistry { next_id: 1, pending: crate::keyed::KeyedVec::new() }
    }

    /// Whether another id can be issued.
    pub fn can_issue(&self) -> (r: bool)
        ensures
            r == (self.next() < u64::MAX),
    {
        self.next_id < u64::MAX
    }

    /// Issues the next id for a request of `method` and remembers it.
    pub fn issue(&mut self, method: &str) -> (id: u64)
        requires
            old(self).next() < u64::MAX,
        ensures
            id == old(self).next(),
            final(self).next() == old(self).next() + 1,
            forall|q: u64|
                #[trigger] final(self).method_of(q) == if q == id {
                    Some(method@)
                } else {
                    old(self).method_of(q)
                },
    {
        let id = self.next_id;
        self.next_id = self.next_id + 1;
        self.pending.insert(RpcId(id), method.to_owned());
        id
    }

    /// Takes the request a reply answers, if it is pending.
    pub fn take(&mut self, id: u64) -> (r: Option<String>)
        ensures
            match r {
                Some(m) => old(self).method_of(id) == Some(m@),
                None => old(self).method_of(id) is None,
            },
            forall|q: u64|
                #[trigger] final(self).method_of(q) == if q == id {
                    None
                } else {
                    old(self).method_of(q)
                },
            final(self).next() == old(self).next(),
    {
        self.pending.remove(&RpcId(id))
    }
}

/// The session key a `session/open` result names (`opened.session_id`).
pub open spec fn opened_session(result: JsonView) -> Option<Seq<char>> {
    match result.get("opened"@) {
        Some(o) => match o.get("session_id"@) {
            Some(JsonView::Str(k)) => Some(k),
            _ => None,
        },
        None => None,
    }
}

/// The methods whose replies are turn results.
pub open spec fn is_turn_method(method: Seq<char>) -> bool {
    method == "turn/start"@ || method == "turn/interrupt"@
}

/// The events a successful reply to `method` gives. A `session/open`
/// reply that names its session reports the negotiated capabilities, the
/// opened session and, when the link was not live yet, the `Live` state; a
/// `session/open` reply that does not decode gives nothing. A reply to
/// `turn/start` or `turn/interrupt` is a turn result when it decodes (an
/// object); any other reply gives nothing.
pub fn on_rpc_result(method: &str, result: &JsonValue, state: &mut ConnectionState) -> (r: Vec<
    crate::agent::TransportEvent,
>)
    ensures
        is_turn_method(method@) ==> *final(state) == *old(state) && if result.jview() is Object {
            r@.len() == 1 && r@[0] is TurnResult
        } else {
            r@.len() == 0
        },
        !is_turn_method(method@) && method@ != "session/open"@ ==> r@.len() == 0 && *final(state)
            == *old(state),
        method@ == "session/open"@ && opened_session(result.jview()) is None ==> r@.len() == 0
            && *final(state) == *old(state),
        method@ == "session/open"@ && opened_session(result.jview()) is Some ==> ({
            &&& r@.len() == if *old(state) == ConnectionState::Live {
                2int
            } else {
                3int
            }
            &&& r@[0] matches crate::agent::TransportEvent::CapabilityNegotiated(c) && c.parsed_from(result.jview())
            &&& r@[1] matches crate::agent::TransportEvent::SessionOpened { session_id } && Some(session_id.0@)
                == opened_session(result.jview())
            &&& *old(state) != ConnectionState::Live ==> r@[2] == crate::agent::TransportEvent::ConnectionState(
                ConnectionState::Live,
            )
            &&& *final(state) == ConnectionState::Live
        }),
{
    proof {
        reveal_strlit("session/open");
        reveal_strlit("turn/start");
        reveal_strlit("turn/interrupt");
        assert("session/open"@[0] != "turn/start"@[0] && "session/open"@[0] != "turn/interrupt"@[0]);
    }
    let mut out: Vec<crate::agent::TransportEvent> = Vec::new();
    if crate::text::str_eq(method, "turn/start") || crate::text::str_eq(method, "turn/interrupt") {
        if let JsonValue::Object(_) = result {
            out.push(crate::agent::TransportEvent::TurnResult);
        }
        return out;
    }
    if !crate::text::str_eq(method, "session/open") {
        return out;
    }
    let key = match result.get("opened") {
        Some(o) => match o.get("session_id") {
            Some(k) => k.as_str(),
            None => None,
        },
        None => None,
    };
    let key = match key {
        Some(k) => k.to_owned(),
        None => return out,
    };
    let (caps, announce) = on_session_open_result(result, state);
    out.push(crate::agent::TransportEvent::CapabilityNegotiated(caps));
    out.push(crate::agent::TransportEvent::SessionOpened { session_id: crate::protocol::SessionKey(key) });
    match announce {
        Some(st) => out.push(crate::agent::TransportEvent::ConnectionState(st)),
        None => {},
    }
    out
}

// ---------------------------------------------------------------- frames

/// The value or `null` when there is none.
pub open spec fn or_null(v: Option<JsonView>) -> JsonView {
    match v {
        Some(x) => x,
        None => JsonView::Null,
    }
}

/// A string member's characters.
pub open spec fn view_str(v: Option<JsonView>) -> Option<Seq<char>> {
    match v {
        Some(x) => x.as_str(),
        None => None,
    }
}

/// A number member read as a `u64`.
pub open spec fn view_u64(v: Option<JsonView>) -> Option<u64> {
    match v {
        Some(JsonView::Number(n)) => json_u64(n),
        _ => None,
    }
}

/// A number member read as an `i64`.
pub open spec fn view_i64(v: Option<JsonView>) -> Option<i64> {
    match v {
        Some(JsonView::Number(n)) => crate::numfmt::parse_i64(n),
        _ => None,
    }
}

/// What a JSON-RPC frame from the server holds.
pub enum Envelope {
    /// A notification: its method and its params (`null` when absent).
    Notification { method: String, params: JsonValue },
    /// A request of the server's own (a method and an id); it is not served.
    ServerRequest { method: String },
    /// An error reply to request `id`: the error's code (0 when absent) and
    /// message (empty when absent).
    ErrorReply { id: u64, code: i64, message: String },
    /// A successful reply to request `id` and its result (`null` when
    /// absent).
    Reply { id: u64, result: JsonValue },
    /// Neither a method nor a numeric id.
    Malformed,
}

/// Sorts a parsed frame: a string `method` makes it a notification, or a
/// server request when it also has an `id`; otherwise a numeric `id` makes
/// it a reply, an error reply when it has an `error` member.
pub fn classify_frame(v: &JsonValue) -> (r: Envelope)
    ensures
        ({
            let j = v.jview();
            match view_str(j.get("method"@)) {
                Some(m) => if j.get("id"@) is Some {
                    r matches Envelope::ServerRequest { method } && method@ == m
                } else {
                    r matches Envelope::Notification { method, params } && method@ == m && params.jview()
                        == or_null(j.get("params"@))
                },
                None => match view_u64(j.get("id"@)) {
                    None => r is Malformed,
                    Some(id) => match j.get("error"@) {
                        Some(e) => r matches Envelope::ErrorReply { id: rid, code, message } && rid == id
                            && code == match view_i64(e.get("code"@)) {
                            Some(c) => c,
                            None => 0,
                        } && message@ == match view_str(e.get("message"@)) {
                            Some(t) => t,
                            None => Seq::empty(),
                        },
                        None => r matches Envelope::Reply { id: rid, result } && rid == id && result.jview()
                            == or_null(j.get("result"@)),
                    },
                },
            }
        }),
{
    let method = match v.get("method") {
        Some(m) => m.as_str(),
        None => None,
    };
    if let Some(m) = method {
        if v.get("id").is_some() {
            return Envelope::ServerRequest { method: m.to_owned() };
        }
        let params = match v.get("params") {
            Some(p) => p.deep_clone(),
            None => JsonValue::Null,
        };
        return Envelope::Notification { method: m.to_owned(), params };
    }
    let id = match v.get("id") {
        Some(x) => number_u64(x),
        None => None,
    };
    let id = match id {
        Some(id) => id,
        None => return Envelope::Malformed,
    };
    match v.get("error") {
        Some(e) => {
            let code = match e.get("code") {
                Some(JsonValue::Number(n)) => {
                    let c = crate::text::chars_of(n.as_str());
                    crate::numfmt::parse_i64_chars(c.as_slice())
                },
                _ => None,
            };
            let message = match e.get("message") {
                Some(t) => t.as_str(),
                None => None,
            };
            Envelope::ErrorReply {
                id,
                code: match code {
                    Some(c) => c,
                    None => 0,
                },
                message: match message {
                    Some(t) => t.to_owned(),
                    None => String::new(),
                },
            }
        },
        None => {
            let result = match v.get("result") {
                Some(x) => x.deep_clone(),
                None => JsonValue::Null,
            };
            Envelope::Reply { id, result }
        },
    }
}

} // verus!
