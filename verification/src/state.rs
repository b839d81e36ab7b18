//! Top-level app state and its reducer. Pure: the caller performs every
//! side effect that follows from the resulting state.

use vstd::prelude::*;

use crate::approvals::ApprovalsSlice;
use crate::ids::{TaskId, ToolCallId, TurnId};
use crate::keyed::KeyedVec;
use crate::protocol::{SessionKey, UiCursor};
use crate::records::{FileMeta, Session, Task, ToolCall, Turn};
use crate::toasts::ToastQueue;
use crate::transport::FileHandle;

verus! {

/// Connection state as the store shows it.
#[derive(Clone, Copy, Debug, PartialEq, Eq, Structural)]
pub enum ConnectionState {
    Connected,
    Reconnecting,
    Offline,
}

impl ConnectionState {
    /// The top-bar label and dot colour: green when live, amber while
    /// reconnecting, red when offline.
    pub fn indicator(&self) -> (r: (&'static str, &'static str))
        ensures
            r.0@ == match *self {
                ConnectionState::Connected => "Live"@,
                ConnectionState::Reconnecting => "Reconnecting"@,
                ConnectionState::Offline => "Offline"@,
            },
            r.1@ == match *self {
                ConnectionState::Connected => "#x4FCB6E"@,
                ConnectionState::Reconnecting => "#xF6BE63"@,
                ConnectionState::Offline => "#xE36363"@,
            },
    {
        match self {
            ConnectionState::Connected => ("Live", "#x4FCB6E"),
            ConnectionState::Reconnecting => ("Reconnecting", "#xF6BE63"),
            ConnectionState::Offline => ("Offline", "#xE36363"),
        }
    }
}

/// The status line: the selected profile once there is one.
pub fn status_text(profile: Option<&str>) -> (r: String)
    ensures
        r@ == match profile {
            Some(p) => "Connected · profile="@ + p@,
            None => "Initializing..."@,
        },
{
    match profile {
        Some(p) => {
            let mut r = "Connected · profile=".to_owned();
            crate::text::append_str(&mut r, p);
            r
        },
        None => "Initializing...".to_owned(),
    }
}

/// Connection events from the transport.
#[derive(Clone, Copy, Debug, PartialEq, Eq, Structural)]
pub enum ConnectionEvent {
    Connected,
    Reconnecting,
    Offline,
}

/// The screen being shown.
pub enum CurrentScreen {
    Login,
    Home,
    Chat { session: Option<SessionKey> },
    Content,
}

pub enum NavigationEvent {
    Logout,
    NavigateTo(CurrentScreen),
    OpenSession(SessionKey),
}

/// State that does not survive a reconnect: streamed text per turn.
pub struct Ephemeral {
    pub streaming_text: KeyedVec<TurnId, String>,
    pub thinking_text: KeyedVec<TurnId, String>,
}

pub struct AppState {
    pub navigation: CurrentScreen,
    pub sessions: KeyedVec<SessionKey, Session>,
    pub current_session: Option<SessionKey>,
    /// Last applied cursor per session.
    pub cursor: KeyedVec<SessionKey, UiCursor>,
    pub turns: KeyedVec<TurnId, Turn>,
    pub tasks: KeyedVec<TaskId, Task>,
    pub tool_calls: KeyedVec<ToolCallId, ToolCall>,
    pub files: KeyedVec<FileHandle, FileMeta>,
    pub approvals: ApprovalsSlice,
    pub ephemeral: Ephemeral,
    pub toasts: ToastQueue,
    pub connection: ConnectionState,
}

impl AppState {
    /// Nothing known yet: home screen, no sessions, offline.
    pub fn new() -> (r: Self)
        ensures
            r.navigation is Home,
            r.current_session is None,
            r.connection == ConnectionState::Offline,
            r.sessions.seq().len() == 0,
            r.cursor.seq().len() == 0,
            r.turns.seq().len() == 0,
            r.tasks.seq().len() == 0,
            r.tool_calls.seq().len() == 0,
            r.files.seq().len() == 0,
            r.approvals.by_id.seq().len() == 0,
            r.ephemeral.streaming_text.seq().len() == 0,
            r.ephemeral.thinking_text.seq().len() == 0,
            r.toasts.seq().len() == 0,
    {
        AppState {
            navigation: CurrentScreen::Home,
            sessions: KeyedVec::new(),
            current_session: None,
            cursor: KeyedVec::new(),
            turns: KeyedVec::new(),
            tasks: KeyedVec::new(),
            tool_calls: KeyedVec::new(),
            files: KeyedVec::new(),
            approvals: ApprovalsSlice::new(),
            ephemeral: Ephemeral { streaming_text: KeyedVec::new(), thinking_text: KeyedVec::new() },
            toasts: ToastQueue::new(),
            connection: ConnectionState::Offline,
        }
    }
}

pub open spec fn with_streaming(s: Session, on: bool) -> Session {
    Session { is_streaming: on, ..s }
}

pub open spec fn with_active(s: Session, on: bool) -> Session {
    Session { has_active_task: on, ..s }
}

/// `new` is `old` with the streaming flag of session `sid` (if present) set to `on`.
pub open spec fn streaming_set(
    old: KeyedVec<SessionKey, Session>,
    new: KeyedVec<SessionKey, Session>,
    sid: Seq<char>,
    on: bool,
) -> bool {
    forall|q: Seq<char>|
        #[trigger] new.spec_get(q) == if q == sid {
            match old.spec_get(q) {
                Some(s) => Some(with_streaming(s, on)),
                None => None,
            }
        } else {
            old.spec_get(q)
        }
}

/// `new` is `old` with the active-task flag of session `sid` (if present) set to `on`.
pub open spec fn active_set(
    old: KeyedVec<SessionKey, Session>,
    new: KeyedVec<SessionKey, Session>,
    sid: Seq<char>,
    on: bool,
) -> bool {
    forall|q: Seq<char>|
        #[trigger] new.spec_get(q) == if q == sid {
            match old.spec_get(q) {
                Some(s) => Some(with_active(s, on)),
                None => None,
            }
        } else {
            old.spec_get(q)
        }
}

pub(crate) fn mark_streaming(state: &mut AppState, sid: &SessionKey, on: bool)
    ensures
        streaming_set(old(state).sessions, final(state).sessions, sid.0@, on),
        *final(state) == (AppState { sessions: final(state).sessions, ..*old(state) }),
{
    match state.sessions.find(sid) {
        Some(i) => {
            let (k, mut s) = state.sessions.remove_at(i);
            s.is_streaming = on;
            state.sessions.insert_at(i, k, s);
        },
        None => {},
    }
}

pub(crate) fn mark_active_task(state: &mut AppState, sid: &SessionKey, on: bool)
    ensures
        active_set(old(state).sessions, final(state).sessions, sid.0@, on),
        *final(state) == (AppState { sessions: final(state).sessions, ..*old(state) }),
{
    match state.sessions.find(sid) {
        Some(i) => {
            let (k, mut s) = state.sessions.remove_at(i);
            s.has_active_task = on;
            state.sessions.insert_at(i, k, s);
        },
        None => {},
    }
}

/// A tool call of session `sid` that has not completed.
pub open spec fn has_open_tool(s: Seq<(ToolCallId, ToolCall)>, sid: Seq<char>) -> bool {
    exists|i: int| 0 <= i < s.len() && (#[trigger] s[i]).1.session_id.0@ == sid && s[i].1.completed_at is None
}

/// The task's runtime state is neither `completed` nor `failed`.
pub open spec fn task_open(t: Task) -> bool {
    t.runtime_state@ != "completed"@ && t.runtime_state@ != "failed"@
}

/// A task of session `sid` that is still open.
pub open spec fn has_open_task(s: Seq<(TaskId, Task)>, sid: Seq<char>) -> bool {
    exists|i: int| 0 <= i < s.len() && (#[trigger] s[i]).1.session_id.0@ == sid && task_open(s[i].1)
}

pub(crate) fn is_task_open(t: &Task) -> (r: bool)
    ensures
        r == task_open(*t),
{
    !crate::text::str_eq(t.runtime_state.as_str(), "completed") && !crate::text::str_eq(
        t.runtime_state.as_str(),
        "failed",
    )
}

/// Recomputes the active-task flag of session `sid` from its tool calls
/// and tasks.
pub(crate) fn recompute_active(state: &mut AppState, sid: &SessionKey)
    ensures
        active_set(
            old(state).sessions,
            final(state).sessions,
            sid.0@,
            has_open_tool(old(state).tool_calls.seq(), sid.0@) || has_open_task(
                old(state).tasks.seq(),
                sid.0@,
            ),
        ),
        *final(state) == (AppState { sessions: final(state).sessions, ..*old(state) }),
{
    let mut open_tool = false;
    let mut i: usize = 0;
    while i < state.tool_calls.len()
        invariant
            i <= state.tool_calls.seq().len(),
            open_tool == exists|j: int|
                0 <= j < i && (#[trigger] state.tool_calls.seq()[j]).1.session_id.0@ == sid.0@
                    && state.tool_calls.seq()[j].1.completed_at is None,
        decreases state.tool_calls.seq().len() - i,
    {
        let tc = state.tool_calls.value_at(i);
        if crate::text::str_eq(tc.session_id.0.as_str(), sid.0.as_str()) && tc.completed_at.is_none() {
            open_tool = true;
        }
        i += 1;
    }
    let mut open_task = false;
    let mut k: usize = 0;
    while k < state.tasks.len()
        invariant
            k <= state.tasks.seq().len(),
            open_task == exists|j: int|
                0 <= j < k && (#[trigger] state.tasks.seq()[j]).1.session_id.0@ == sid.0@ && task_open(
                    state.tasks.seq()[j].1,
                ),
        decreases state.tasks.seq().len() - k,
    {
        let t = state.tasks.value_at(k);
        if crate::text::str_eq(t.session_id.0.as_str(), sid.0.as_str()) && is_task_open(t) {
            open_task = true;
        }
        k += 1;
    }
    mark_active_task(state, sid, open_tool || open_task);
}

} // verus!
