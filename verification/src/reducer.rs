//! The reducer: how each event changes the app state. Times are passed in
//! (milliseconds since the Unix epoch), so every step is a pure function
//! of the state, the event and the clock reading.

use vstd::prelude::*;

use crate::approvals::{count_pending, is_pending, ApprovalCard, ApprovalState};
use crate::ids::{ToolCallId, TurnId};
use crate::keyed::{IdKey, KeyedVec};
use crate::notification::{
    ApprovalAutoResolvedEvent, ApprovalCancelledEvent, ApprovalDecidedEvent, ApprovalDecision,
    ApprovalRequestedEvent,
    MessageDeltaEvent, ProgressMetadata, ProgressUpdatedEvent, ReplayLossyEvent, SessionOpenedEvent, TaskOutputDeltaEvent,
    TaskRuntimeState, TaskUpdatedEvent, ToolCompletedEvent, ToolProgressEvent, ToolStartedEvent,
    TurnCompletedEvent, TurnErrorEvent, TurnStartedEvent, UiNotification, WarningEvent,
};
use crate::protocol::{SessionKey, UiCursor};
use crate::records::{started_tool, started_turn, FileMeta, Session, Task, ToolCall, Turn, TurnStatus};
use crate::state::{
    active_set, has_open_task, has_open_tool, mark_active_task, mark_streaming, recompute_active,
    streaming_set, task_open, with_active, with_streaming, AppState, ConnectionEvent, ConnectionState,
    CurrentScreen, Ephemeral, NavigationEvent,
};
use crate::toasts::{Toast, ToastKind, ToastQueue};
use crate::transport::FileHandle;

verus! {

/// `new` agrees with `old` at every key but `k`, where it holds `v`.
pub open spec fn keyed_set<K: IdKey, T>(
    old: KeyedVec<K, T>,
    new: KeyedVec<K, T>,
    k: K::Key,
    v: Option<T>,
) -> bool {
    forall|q: K::Key| #[trigger] new.spec_get(q) == if q == k { v } else { old.spec_get(q) }
}

/// `new` agrees with `old` at every key but `k`.
pub open spec fn keyed_same_except<K: IdKey, T>(old: KeyedVec<K, T>, new: KeyedVec<K, T>, k: K::Key) -> bool {
    forall|q: K::Key| q != k ==> #[trigger] new.spec_get(q) == old.spec_get(q)
}

/// `new` is `old` with one toast of this kind and message appended.
pub open spec fn toast_pushed(old: ToastQueue, new: ToastQueue, kind: ToastKind, msg: Seq<char>) -> bool {
    &&& new.seq().len() == old.seq().len() + 1
    &&& new.seq().drop_last() == old.seq()
    &&& new.seq().last().kind == kind
    &&& new.seq().last().message@ == msg
}

pub open spec fn map_opt<T>(o: Option<T>, f: spec_fn(T) -> T) -> Option<T> {
    match o {
        Some(x) => Some(f(x)),
        None => None,
    }
}

pub open spec fn buffered(o: Option<String>) -> Seq<char> {
    match o {
        Some(b) => b@,
        None => Seq::empty(),
    }
}

/// Every field but those named may change only as the name says.
pub open spec fn only_sessions_changed(s0: AppState, s1: AppState) -> bool {
    s1 == AppState { sessions: s1.sessions, cursor: s1.cursor, ..s0 }
}

fn push_toast(state: &mut AppState, kind: ToastKind, msg: String)
    ensures
        toast_pushed(old(state).toasts, final(state).toasts, kind, msg@),
        *final(state) == (AppState { toasts: final(state).toasts, ..*old(state) }),
{
    state.toasts.push(Toast { kind, message: msg });
    assert(state.toasts.seq().drop_last() =~= old(state).toasts.seq());
}

// ---------------------------------------------------------------- sessions

pub open spec fn post_session_opened(s0: AppState, s1: AppState, e: SessionOpenedEvent) -> bool {
    &&& streaming_set(s0.sessions, s1.sessions, e.session_id.0@, false)
    &&& only_sessions_changed(s0, s1)
}

fn on_session_opened(state: &mut AppState, e: SessionOpenedEvent)
    ensures
        post_session_opened(*old(state), *final(state), e),
        final(state).cursor == old(state).cursor,
{
    mark_streaming(state, &e.session_id, false);
}

// ---------------------------------------------------------------- turns

pub open spec fn post_turn_started(s0: AppState, s1: AppState, e: TurnStartedEvent) -> bool {
    &&& keyed_set(
        s0.turns,
        s1.turns,
        e.turn_id.0,
        Some(
            match s0.turns.spec_get(e.turn_id.0) {
                Some(t) => Turn { started_at: e.timestamp, ..t },
                None => started_turn(e.turn_id, e.session_id, e.timestamp),
            },
        ),
    )
    &&& streaming_set(s0.sessions, s1.sessions, e.session_id.0@, true)
    &&& s1 == AppState { turns: s1.turns, sessions: s1.sessions, cursor: s1.cursor, ..s0 }
}

fn on_turn_started(state: &mut AppState, e: TurnStartedEvent)
    ensures
        post_turn_started(*old(state), *final(state), e),
        final(state).cursor == old(state).cursor,
{
    let tid = e.turn_id;
    match state.turns.find(&tid) {
        Some(i) => {
            let (k, mut t) = state.turns.remove_at(i);
            t.started_at = e.timestamp;
            state.turns.insert_at(i, k, t);
        },
        None => {
            let t = Turn::started(tid, e.session_id.clone(), e.timestamp);
            state.turns.insert(tid, t);
        },
    }
    mark_streaming(state, &e.session_id, true);
}

pub open spec fn post_message_delta(s0: AppState, s1: AppState, e: MessageDeltaEvent) -> bool {
    let tid = e.turn_id.0;
    &&& keyed_same_except(s0.ephemeral.streaming_text, s1.ephemeral.streaming_text, tid)
    &&& s1.ephemeral.streaming_text.spec_get(tid) matches Some(b) && b@ == buffered(
        s0.ephemeral.streaming_text.spec_get(tid),
    ) + e.text@
    &&& s1.ephemeral.thinking_text == s0.ephemeral.thinking_text
    &&& keyed_set(
        s0.turns,
        s1.turns,
        tid,
        map_opt(s0.turns.spec_get(tid), |t: Turn| Turn { status: TurnStatus::Streaming, ..t }),
    )
    &&& streaming_set(s0.sessions, s1.sessions, e.session_id.0@, true)
    &&& s1 == AppState {
        ephemeral: s1.ephemeral,
        turns: s1.turns,
        sessions: s1.sessions,
        cursor: s1.cursor,
        ..s0
    }
}

fn on_message_delta(state: &mut AppState, e: MessageDeltaEvent)
    ensures
        post_message_delta(*old(state), *final(state), e),
        final(state).cursor == old(state).cursor,
{
    let tid = e.turn_id;
    match state.ephemeral.streaming_text.find(&tid) {
        Some(i) => {
            let (k, mut buf) = state.ephemeral.streaming_text.remove_at(i);
            crate::text::append_str(&mut buf, e.text.as_str());
            state.ephemeral.streaming_text.insert_at(i, k, buf);
        },
        None => {
            let mut buf = String::new();
            crate::text::append_str(&mut buf, e.text.as_str());
            state.ephemeral.streaming_text.insert(tid, buf);
        },
    }
    match state.turns.find(&tid) {
        Some(i) => {
            let (k, mut t) = state.turns.remove_at(i);
            t.status = TurnStatus::Streaming;
            state.turns.insert_at(i, k, t);
        },
        None => {},
    }
    mark_streaming(state, &e.session_id, true);
}

// ---------------------------------------------------------------- tool calls

pub open spec fn post_tool_started(s0: AppState, s1: AppState, e: ToolStartedEvent, now: i64) -> bool {
    &&& keyed_set(
        s0.tool_calls,
        s1.tool_calls,
        e.tool_call_id@,
        Some(
            started_tool(
                ToolCallId(e.tool_call_id),
                e.session_id,
                e.turn_id,
                e.tool_name,
                e.arguments,
                now,
            ),
        ),
    )
    &&& active_set(s0.sessions, s1.sessions, e.session_id.0@, true)
    &&& s1 == AppState { tool_calls: s1.tool_calls, sessions: s1.sessions, cursor: s1.cursor, ..s0 }
}

fn on_tool_started(state: &mut AppState, e: ToolStartedEvent, now: i64)
    ensures
        post_tool_started(*old(state), *final(state), e, now),
        final(state).cursor == old(state).cursor,
{
    let id = ToolCallId(e.tool_call_id);
    let sid = e.session_id;
    let tc = ToolCall::started(id.clone(), sid.clone(), e.turn_id, e.tool_name, e.arguments, now);
    state.tool_calls.insert(id, tc);
    mark_active_task(state, &sid, true);
}

/// The progress fraction, when the event carries one.
pub open spec fn with_progress(tc: ToolCall, p: Option<u64>) -> ToolCall {
    match p {
        Some(_) => ToolCall { progress_pct: p, ..tc },
        None => tc,
    }
}

pub open spec fn post_tool_progress(s0: AppState, s1: AppState, e: ToolProgressEvent, now: i64) -> bool {
    let idv = e.tool_call_id@;
    &&& keyed_same_except(s0.tool_calls, s1.tool_calls, idv)
    &&& match s0.tool_calls.spec_get(idv) {
        Some(tc) => s1.tool_calls.spec_get(idv) == Some(with_progress(tc, e.progress_pct)),
        None => s1.tool_calls.spec_get(idv) matches Some(tc) && tc.tool_name@ == "<unknown>"@
            && tc == with_progress(
            started_tool(ToolCallId(e.tool_call_id), e.session_id, e.turn_id, tc.tool_name, None, now),
            e.progress_pct,
        ),
    }
    &&& s1 == AppState { tool_calls: s1.tool_calls, cursor: s1.cursor, ..s0 }
}

fn on_tool_progress(state: &mut AppState, e: ToolProgressEvent, now: i64)
    ensures
        post_tool_progress(*old(state), *final(state), e, now),
        final(state).cursor == old(state).cursor,
{
    let id = ToolCallId(e.tool_call_id);
    match state.tool_calls.find(&id) {
        Some(i) => {
            match e.progress_pct {
                Some(p) => {
                    let (k, mut tc) = state.tool_calls.remove_at(i);
                    tc.progress_pct = Some(p);
                    state.tool_calls.insert_at(i, k, tc);
                },
                None => {},
            }
        },
        None => {
            let mut tc = ToolCall::started(
                id.clone(),
                e.session_id,
                e.turn_id,
                "<unknown>".to_owned(),
                None,
                now,
            );
            match e.progress_pct {
                Some(p) => {
                    tc.progress_pct = Some(p);
                },
                None => {},
            }
            state.tool_calls.insert(id, tc);
        },
    }
}

/// A tool call marked finished at `now` with its outcome.
pub open spec fn completed_tool(tc: ToolCall, success: Option<bool>, preview: Option<String>, now: i64) -> ToolCall {
    ToolCall { completed_at: Some(now), success, output_preview: preview, ..tc }
}

pub open spec fn post_tool_completed(s0: AppState, s1: AppState, e: ToolCompletedEvent, now: i64) -> bool {
    let idv = e.tool_call_id@;
    let sid = e.session_id.0@;
    &&& keyed_set(
        s0.tool_calls,
        s1.tool_calls,
        idv,
        map_opt(s0.tool_calls.spec_get(idv), |tc: ToolCall| completed_tool(tc, e.success, e.output_preview, now)),
    )
    &&& active_set(
        s0.sessions,
        s1.sessions,
        sid,
        has_open_tool(s1.tool_calls.seq(), sid) || has_open_task(s0.tasks.seq(), sid),
    )
    &&& s1 == AppState { tool_calls: s1.tool_calls, sessions: s1.sessions, cursor: s1.cursor, ..s0 }
}

fn on_tool_completed(state: &mut AppState, e: ToolCompletedEvent, now: i64)
    ensures
        post_tool_completed(*old(state), *final(state), e, now),
        final(state).cursor == old(state).cursor,
{
    let id = ToolCallId(e.tool_call_id);
    match state.tool_calls.find(&id) {
        Some(i) => {
            let (k, mut tc) = state.tool_calls.remove_at(i);
            tc.completed_at = Some(now);
            tc.success = e.success;
            tc.output_preview = e.output_preview;
            state.tool_calls.insert_at(i, k, tc);
        },
        None => {},
    }
    recompute_active(state, &e.session_id);
}

// ---------------------------------------------------------------- tasks

/// Lower-cased name of a task runtime state.
pub open spec fn state_name(st: TaskRuntimeState) -> Seq<char> {
    match st {
        TaskRuntimeState::Pending => "pending"@,
        TaskRuntimeState::Running => "running"@,
        TaskRuntimeState::Completed => "completed"@,
        TaskRuntimeState::Failed => "failed"@,
        TaskRuntimeState::Cancelled => "cancelled"@,
    }
}

fn state_name_exec(st: TaskRuntimeState) -> (r: String)
    ensures
        r@ == state_name(st),
{
    match st {
        TaskRuntimeState::Pending => "pending".to_owned(),
        TaskRuntimeState::Running => "running".to_owned(),
        TaskRuntimeState::Completed => "completed".to_owned(),
        TaskRuntimeState::Failed => "failed".to_owned(),
        TaskRuntimeState::Cancelled => "cancelled".to_owned(),
    }
}

pub open spec fn ends_task(st: TaskRuntimeState) -> bool {
    st == TaskRuntimeState::Completed || st == TaskRuntimeState::Failed
}

/// The task as the update leaves it, given what was stored before.
pub open spec fn updated_task(t: Task, prior: Option<Task>, e: TaskUpdatedEvent, now: i64) -> bool {
    &&& t.runtime_state@ == state_name(e.state)
    &&& t.summary == Some(e.title)
    &&& t.last_updated == now
    &&& match prior {
        Some(t0) => {
            &&& t.id == t0.id
            &&& t.session_id == t0.session_id
            &&& t.last_cursor == t0.last_cursor
            &&& t.lifecycle_state == match e.runtime_detail {
                Some(d) => d,
                None => t0.lifecycle_state,
            }
        },
        None => {
            &&& t.id == e.task_id
            &&& t.session_id == e.session_id
            &&& t.last_cursor is None
            &&& t.lifecycle_state@ == match e.runtime_detail {
                Some(d) => d@,
                None => Seq::<char>::empty(),
            }
        },
    }
}

pub open spec fn post_task_updated(s0: AppState, s1: AppState, e: TaskUpdatedEvent, now: i64) -> bool {
    let tid = e.task_id.0;
    let sid = e.session_id.0@;
    &&& keyed_same_except(s0.tasks, s1.tasks, tid)
    &&& s1.tasks.spec_get(tid) matches Some(t) && updated_task(t, s0.tasks.spec_get(tid), e, now)
    &&& active_set(
        s0.sessions,
        s1.sessions,
        sid,
        !ends_task(e.state) || has_open_tool(s0.tool_calls.seq(), sid) || has_open_task(
            s1.tasks.seq(),
            sid,
        ),
    )
    &&& s1 == AppState { tasks: s1.tasks, sessions: s1.sessions, cursor: s1.cursor, ..s0 }
}

fn on_task_updated(state: &mut AppState, e: TaskUpdatedEvent, now: i64)
    ensures
        post_task_updated(*old(state), *final(state), e, now),
        final(state).cursor == old(state).cursor,
{
    let tid = e.task_id;
    let name = state_name_exec(e.state);
    match state.tasks.find(&tid) {
        Some(i) => {
            let (k, mut t) = state.tasks.remove_at(i);
            t.runtime_state = name;
            t.summary = Some(e.title);
            match e.runtime_detail {
                Some(d) => {
                    t.lifecycle_state = d;
                },
                None => {},
            }
            t.last_updated = now;
            state.tasks.insert_at(i, k, t);
        },
        None => {
            let mut t = Task::new(tid, e.session_id.clone(), now);
            t.runtime_state = name;
            t.summary = Some(e.title);
            match e.runtime_detail {
                Some(d) => {
                    t.lifecycle_state = d;
                },
                None => {},
            }
            state.tasks.insert(tid, t);
        },
    }
    let ends = match e.state {
        TaskRuntimeState::Completed | TaskRuntimeState::Failed => true,
        _ => false,
    };
    if !ends {
        mark_active_task(state, &e.session_id, true);
    } else {
        recompute_active(state, &e.session_id);
    }
}

pub open spec fn post_task_output_delta(s0: AppState, s1: AppState, e: TaskOutputDeltaEvent, now: i64) -> bool {
    &&& keyed_set(
        s0.tasks,
        s1.tasks,
        e.task_id.0,
        map_opt(s0.tasks.spec_get(e.task_id.0), |t: Task| Task { last_cursor: Some(e.cursor), last_updated: now, ..t }),
    )
    &&& s1 == AppState { tasks: s1.tasks, cursor: s1.cursor, ..s0 }
}

fn on_task_output_delta(state: &mut AppState, e: TaskOutputDeltaEvent, now: i64)
    ensures
        post_task_output_delta(*old(state), *final(state), e, now),
        final(state).cursor == old(state).cursor,
{
    match state.tasks.find(&e.task_id) {
        Some(i) => {
            let (k, mut t) = state.tasks.remove_at(i);
            t.last_cursor = Some(e.cursor);
            t.last_updated = now;
            state.tasks.insert_at(i, k, t);
        },
        None => {},
    }
}

// ---------------------------------------------------------------- turn end

pub open spec fn completed_turn(t: Turn, now: i64) -> Turn {
    Turn { status: TurnStatus::Completed, completed_at: Some(now), ..t }
}

pub open spec fn errored_turn(t: Turn, code: String, message: String, now: i64) -> Turn {
    Turn {
        status: TurnStatus::Error,
        completed_at: Some(now),
        error_code: Some(code),
        error_message: Some(message),
        ..t
    }
}

/// Streaming is off for the session and its active-task flag is recomputed.
pub open spec fn turn_closed(s0: AppState, s1: AppState, sid: Seq<char>) -> bool {
    keyed_set(
        s0.sessions,
        s1.sessions,
        sid,
        map_opt(
            s0.sessions.spec_get(sid),
            |s: Session|
                with_active(
                    with_streaming(s, false),
                    has_open_tool(s0.tool_calls.seq(), sid) || has_open_task(s0.tasks.seq(), sid),
                ),
        ),
    )
}

/// The turn's buffered text (streamed and thinking) is dropped.
pub open spec fn buffers_dropped(s0: AppState, s1: AppState, tid: u128) -> bool {
    &&& keyed_set(s0.ephemeral.streaming_text, s1.ephemeral.streaming_text, tid, None)
    &&& keyed_set(s0.ephemeral.thinking_text, s1.ephemeral.thinking_text, tid, None)
}

pub open spec fn post_turn_completed(s0: AppState, s1: AppState, e: TurnCompletedEvent, now: i64) -> bool {
    let tid = e.turn_id.0;
    &&& keyed_set(s0.turns, s1.turns, tid, map_opt(s0.turns.spec_get(tid), |t: Turn| completed_turn(t, now)))
    &&& buffers_dropped(s0, s1, tid)
    &&& turn_closed(s0, s1, e.session_id.0@)
    &&& s1 == AppState {
        turns: s1.turns,
        ephemeral: s1.ephemeral,
        sessions: s1.sessions,
        cursor: s1.cursor,
        ..s0
    }
}

fn drop_buffers(state: &mut AppState, tid: &TurnId)
    ensures
        buffers_dropped(*old(state), *final(state), tid.0),
        *final(state) == (AppState { ephemeral: final(state).ephemeral, ..*old(state) }),
{
    state.ephemeral.streaming_text.remove(tid);
    state.ephemeral.thinking_text.remove(tid);
}

fn close_turn(state: &mut AppState, sid: &SessionKey)
    ensures
        turn_closed(*old(state), *final(state), sid.0@),
        *final(state) == (AppState { sessions: final(state).sessions, ..*old(state) }),
{
    mark_streaming(state, sid, false);
    recompute_active(state, sid);
}

fn on_turn_completed(state: &mut AppState, e: TurnCompletedEvent, now: i64)
    ensures
        post_turn_completed(*old(state), *final(state), e, now),
        match e.cursor {
            Some(c) => keyed_set(old(state).cursor, final(state).cursor, e.session_id.0@, Some(c)),
            None => final(state).cursor == old(state).cursor,
        },
{
    let tid = e.turn_id;
    match state.turns.find(&tid) {
        Some(i) => {
            let (k, mut t) = state.turns.remove_at(i);
            t.status = TurnStatus::Completed;
            t.completed_at = Some(now);
            state.turns.insert_at(i, k, t);
        },
        None => {},
    }
    drop_buffers(state, &tid);
    match e.cursor {
        Some(c) => {
            state.cursor.insert(e.session_id.clone(), c);
        },
        None => {},
    }
    close_turn(state, &e.session_id);
}

pub open spec fn post_turn_error(s0: AppState, s1: AppState, e: TurnErrorEvent, now: i64) -> bool {
    let tid = e.turn_id.0;
    &&& keyed_set(
        s0.turns,
        s1.turns,
        tid,
        map_opt(s0.turns.spec_get(tid), |t: Turn| errored_turn(t, e.code, e.message, now)),
    )
    &&& buffers_dropped(s0, s1, tid)
    &&& turn_closed(s0, s1, e.session_id.0@)
    &&& toast_pushed(s0.toasts, s1.toasts, ToastKind::Error, e.message@)
    &&& s1 == AppState {
        turns: s1.turns,
        ephemeral: s1.ephemeral,
        sessions: s1.sessions,
        toasts: s1.toasts,
        cursor: s1.cursor,
        ..s0
    }
}

fn on_turn_error(state: &mut AppState, e: TurnErrorEvent, now: i64)
    ensures
        post_turn_error(*old(state), *final(state), e, now),
        final(state).cursor == old(state).cursor,
{
    let tid = e.turn_id;
    let msg = e.message.clone();
    match state.turns.find(&tid) {
        Some(i) => {
            let (k, mut t) = state.turns.remove_at(i);
            t.status = TurnStatus::Error;
            t.completed_at = Some(now);
            t.error_code = Some(e.code);
            t.error_message = Some(msg);
            state.turns.insert_at(i, k, t);
        },
        None => {},
    }
    drop_buffers(state, &tid);
    close_turn(state, &e.session_id);
    push_toast(state, ToastKind::Error, e.message);
}

// ---------------------------------------------------------------- notices

/// `a` followed by `b`, as a new `String`.
fn concat(a: &str, b: &str) -> (r: String)
    ensures
        r@ == a@ + b@,
{
    let mut r = a.to_owned();
    crate::text::append_str(&mut r, b);
    r
}

pub open spec fn warning_text(e: WarningEvent) -> Seq<char> {
    e.code@ + ": "@ + e.message@
}

fn on_warning(state: &mut AppState, e: WarningEvent)
    ensures
        toast_pushed(old(state).toasts, final(state).toasts, ToastKind::Info, warning_text(e)),
        *final(state) == (AppState { toasts: final(state).toasts, ..*old(state) }),
{
    let mut m = concat(e.code.as_str(), ": ");
    crate::text::append_str(&mut m, e.message.as_str());
    push_toast(state, ToastKind::Info, m);
}

pub open spec fn replay_text(n: u64) -> Seq<char> {
    "Replay dropped "@ + crate::numfmt::decimal(n as nat) + " notifications; rehydrating session"@
}

fn on_replay_lossy(state: &mut AppState, e: ReplayLossyEvent)
    ensures
        toast_pushed(old(state).toasts, final(state).toasts, ToastKind::Reconnecting, replay_text(e.dropped_count)),
        match e.last_durable_cursor {
            Some(c) => keyed_set(old(state).cursor, final(state).cursor, e.session_id.0@, Some(c)),
            None => final(state).cursor == old(state).cursor,
        },
        *final(state) == (AppState { toasts: final(state).toasts, cursor: final(state).cursor, ..*old(state) }),
{
    match e.last_durable_cursor {
        Some(c) => {
            state.cursor.insert(e.session_id.clone(), c);
        },
        None => {},
    }
    let digits = crate::numfmt::decimal_chars(e.dropped_count);
    let d = crate::text::string_of(digits.as_slice());
    let mut m = concat("Replay dropped ", d.as_str());
    crate::text::append_str(&mut m, " notifications; rehydrating session");
    push_toast(state, ToastKind::Reconnecting, m);
}

// ---------------------------------------------------------------- approvals

pub open spec fn decided_text(e: ApprovalDecidedEvent) -> Seq<char> {
    "Approval decided by "@ + e.decided_by@ + ": "@ + e.decision.wire()
}

pub open spec fn cancelled_text(e: ApprovalCancelledEvent) -> Seq<char> {
    "Approval cancelled: "@ + e.reason@
}

pub open spec fn auto_resolved_text(e: ApprovalAutoResolvedEvent) -> Seq<char> {
    match e.decision {
        ApprovalDecision::Approve => "Auto-approved ("@ + e.scope@ + " scope)"@,
        ApprovalDecision::Deny => "Auto-denied ("@ + e.scope@ + " scope)"@,
        ApprovalDecision::Unknown(s) => "Auto-resolved ("@ + s@ + ") by "@ + e.scope@ + " scope"@,
    }
}

/// The card `id` (when present) now carries `st`; nothing else in the slice moved.
pub open spec fn card_set(
    s0: AppState,
    s1: AppState,
    id: u128,
    st: ApprovalState,
) -> bool {
    keyed_set(
        s0.approvals.by_id,
        s1.approvals.by_id,
        id,
        map_opt(
            s0.approvals.by_id.spec_get(id),
            |c: ApprovalCard| crate::approvals::with_state(c, st),
        ),
    )
}

fn on_approval_decided(state: &mut AppState, e: ApprovalDecidedEvent)
    ensures
        card_set(*old(state), *final(state), e.approval_id.0, ApprovalState::Decided(e.decision)),
        if old(state).approvals.by_id.spec_get(e.approval_id.0) is Some {
            toast_pushed(old(state).toasts, final(state).toasts, ToastKind::Info, decided_text(e))
        } else {
            final(state).toasts == old(state).toasts
        },
        count_pending(final(state).approvals.by_id.seq()) == count_pending(old(state).approvals.by_id.seq()) - if (
        old(state).approvals.by_id.spec_get(e.approval_id.0) matches Some(c) && is_pending(c)) {
            1int
        } else {
            0int
        },
        *final(state) == (AppState { approvals: final(state).approvals, toasts: final(state).toasts, ..*old(state) }),
{
    let known = state.approvals.by_id.contains_key(&e.approval_id);
    let mut m = concat("Approval decided by ", e.decided_by.as_str());
    crate::text::append_str(&mut m, ": ");
    crate::text::append_str(&mut m, e.decision.as_wire_str());
    state.approvals.decided(&e.approval_id, e.decision);
    if known {
        push_toast(state, ToastKind::Info, m);
    }
}

fn on_approval_cancelled(state: &mut AppState, e: ApprovalCancelledEvent)
    ensures
        card_set(*old(state), *final(state), e.approval_id.0, ApprovalState::Cancelled(e.reason)),
        if old(state).approvals.by_id.spec_get(e.approval_id.0) is Some {
            toast_pushed(old(state).toasts, final(state).toasts, ToastKind::Info, cancelled_text(e))
        } else {
            final(state).toasts == old(state).toasts
        },
        count_pending(final(state).approvals.by_id.seq()) == count_pending(old(state).approvals.by_id.seq()) - if (
        old(state).approvals.by_id.spec_get(e.approval_id.0) matches Some(c) && is_pending(c)) {
            1int
        } else {
            0int
        },
        *final(state) == (AppState { approvals: final(state).approvals, toasts: final(state).toasts, ..*old(state) }),
{
    let known = state.approvals.by_id.contains_key(&e.approval_id);
    let m = concat("Approval cancelled: ", e.reason.as_str());
    state.approvals.cancelled(&e.approval_id, e.reason);
    if known {
        push_toast(state, ToastKind::Info, m);
    }
}

fn on_approval_auto_resolved(state: &mut AppState, e: ApprovalAutoResolvedEvent)
    ensures
        card_set(*old(state), *final(state), e.approval_id.0, ApprovalState::Decided(e.decision)),
        toast_pushed(old(state).toasts, final(state).toasts, ToastKind::Info, auto_resolved_text(e)),
        count_pending(final(state).approvals.by_id.seq()) == count_pending(old(state).approvals.by_id.seq()) - if (
        old(state).approvals.by_id.spec_get(e.approval_id.0) matches Some(c) && is_pending(c)) {
            1int
        } else {
            0int
        },
        *final(state) == (AppState { approvals: final(state).approvals, toasts: final(state).toasts, ..*old(state) }),
{
    let m = match &e.decision {
        ApprovalDecision::Approve => {
            let mut m = concat("Auto-approved (", e.scope.as_str());
            crate::text::append_str(&mut m, " scope)");
            m
        },
        ApprovalDecision::Deny => {
            let mut m = concat("Auto-denied (", e.scope.as_str());
            crate::text::append_str(&mut m, " scope)");
            m
        },
        ApprovalDecision::Unknown(s) => {
            let mut m = concat("Auto-resolved (", s.as_str());
            crate::text::append_str(&mut m, ") by ");
            crate::text::append_str(&mut m, e.scope.as_str());
            crate::text::append_str(&mut m, " scope");
            m
        },
    };
    state.approvals.decided(&e.approval_id, e.decision);
    push_toast(state, ToastKind::Info, m);
}

// ---------------------------------------------------------------- progress

/// A running tool call of turn `tid` takes the new fraction.
pub open spec fn progress_bumped(tc: ToolCall, tid: Option<TurnId>, pct: Option<u64>) -> ToolCall {
    if pct is Some && tid is Some && tc.turn_id == tid->0 && tc.completed_at is None {
        ToolCall { progress_pct: pct, ..tc }
    } else {
        tc
    }
}

/// The human-readable label of a progress update: its label, else its message.
pub open spec fn progress_label(m: ProgressMetadata) -> Option<String> {
    match m.label {
        Some(l) => Some(l),
        None => m.message,
    }
}

/// An open task of session `sid` takes the label as its summary.
pub open spec fn summary_bumped(t: Task, sid: Seq<char>, label: Option<String>, now: i64) -> Task {
    if label is Some && t.session_id.0@ == sid && task_open(t) {
        Task { summary: label, last_updated: now, ..t }
    } else {
        t
    }
}

pub open spec fn post_progress_updated(s0: AppState, s1: AppState, e: ProgressUpdatedEvent, now: i64) -> bool {
    let t0 = s0.tool_calls.seq();
    let t1 = s1.tool_calls.seq();
    let k0 = s0.tasks.seq();
    let k1 = s1.tasks.seq();
    &&& t1.len() == t0.len()
    &&& forall|i: int|
        0 <= i < t0.len() ==> #[trigger] t1[i] == (t0[i].0, progress_bumped(
            t0[i].1,
            e.turn_id,
            e.metadata.progress_pct,
        ))
    &&& k1.len() == k0.len()
    &&& forall|i: int|
        0 <= i < k0.len() ==> #[trigger] k1[i] == (k0[i].0, summary_bumped(
            k0[i].1,
            e.session_id.0@,
            progress_label(e.metadata),
            now,
        ))
    &&& s1 == AppState { tool_calls: s1.tool_calls, tasks: s1.tasks, cursor: s1.cursor, ..s0 }
}

fn on_progress_updated(state: &mut AppState, e: ProgressUpdatedEvent, now: i64)
    ensures
        post_progress_updated(*old(state), *final(state), e, now),
        final(state).cursor == old(state).cursor,
{
    let ghost e0 = e;
    let ghost t0 = state.tool_calls.seq();
    let ghost k0 = state.tasks.seq();
    let ghost st0 = *state;
    let mut i: usize = 0;
    while i < state.tool_calls.len()
        invariant
            i <= t0.len(),
            state.tool_calls.seq().len() == t0.len(),
            forall|j: int|
                0 <= j < i ==> #[trigger] state.tool_calls.seq()[j] == (t0[j].0, progress_bumped(
                    t0[j].1,
                    e.turn_id,
                    e.metadata.progress_pct,
                )),
            forall|j: int| i <= j < t0.len() ==> #[trigger] state.tool_calls.seq()[j] == t0[j],
            *state == (AppState { tool_calls: state.tool_calls, ..st0 }),
        decreases t0.len() - i,
    {
        let hit = match (e.metadata.progress_pct, e.turn_id) {
            (Some(_), Some(tid)) => {
                let tc = state.tool_calls.value_at(i);
                tc.turn_id == tid && tc.completed_at.is_none()
            },
            _ => false,
        };
        if hit {
            let ghost before = state.tool_calls.seq();
            let (k, mut tc) = state.tool_calls.remove_at(i);
            tc.progress_pct = e.metadata.progress_pct;
            state.tool_calls.insert_at(i, k, tc);
            assert(state.tool_calls.seq() =~= before.update(i as int, (k, tc)));
        }
        i += 1;
    }
    let label = match e.metadata.label {
        Some(l) => Some(l),
        None => e.metadata.message,
    };
    let ghost st1 = *state;
    let mut i: usize = 0;
    while i < state.tasks.len()
        invariant
            i <= k0.len(),
            label == progress_label(e0.metadata),
            state.tasks.seq().len() == k0.len(),
            forall|j: int|
                0 <= j < i ==> #[trigger] state.tasks.seq()[j] == (k0[j].0, summary_bumped(
                    k0[j].1,
                    e.session_id.0@,
                    label,
                    now,
                )),
            forall|j: int| i <= j < k0.len() ==> #[trigger] state.tasks.seq()[j] == k0[j],
            *state == (AppState { tasks: state.tasks, ..st1 }),
        decreases k0.len() - i,
    {
        match &label {
            Some(l) => {
                let hit = {
                    let t = state.tasks.value_at(i);
                    crate::text::str_eq(t.session_id.0.as_str(), e.session_id.0.as_str())
                        && crate::state::is_task_open(t)
                };
                if hit {
                    let ghost before = state.tasks.seq();
                    let (k, mut t) = state.tasks.remove_at(i);
                    t.summary = Some(l.clone());
                    t.last_updated = now;
                    state.tasks.insert_at(i, k, t);
                    assert(state.tasks.seq() =~= before.update(i as int, (k, t)));
                }
            },
            None => {},
        }
        i += 1;
    }
}

// ---------------------------------------------------------------- protocol

pub open spec fn requested_card(e: ApprovalRequestedEvent) -> ApprovalCard {
    ApprovalCard {
        session_id: e.session_id,
        turn_id: e.turn_id,
        tool_name: e.tool_name,
        title: e.title,
        body: e.body,
        state: ApprovalState::Pending,
    }
}

pub open spec fn post_warning(s0: AppState, s1: AppState, e: WarningEvent) -> bool {
    &&& toast_pushed(s0.toasts, s1.toasts, ToastKind::Info, warning_text(e))
    &&& s1 == AppState { toasts: s1.toasts, cursor: s1.cursor, ..s0 }
}

pub open spec fn post_replay_lossy(s0: AppState, s1: AppState, e: ReplayLossyEvent) -> bool {
    &&& toast_pushed(s0.toasts, s1.toasts, ToastKind::Reconnecting, replay_text(e.dropped_count))
    &&& s1 == AppState { toasts: s1.toasts, cursor: s1.cursor, ..s0 }
}

/// The card changes state; a toast follows when the card was known.
pub open spec fn post_card_toast(
    s0: AppState,
    s1: AppState,
    id: u128,
    st: ApprovalState,
    always: bool,
    msg: Seq<char>,
) -> bool {
    &&& card_set(s0, s1, id, st)
    &&& count_pending(s1.approvals.by_id.seq()) == count_pending(s0.approvals.by_id.seq()) - if (
    s0.approvals.by_id.spec_get(id) matches Some(c) && is_pending(c)) {
        1int
    } else {
        0int
    }
    &&& if always || s0.approvals.by_id.spec_get(id) is Some {
        toast_pushed(s0.toasts, s1.toasts, ToastKind::Info, msg)
    } else {
        s1.toasts == s0.toasts
    }
    &&& s1 == AppState { approvals: s1.approvals, toasts: s1.toasts, cursor: s1.cursor, ..s0 }
}

/// What a notification does to the state, apart from the resume cursor.
pub open spec fn protocol_post(s0: AppState, s1: AppState, n: UiNotification, now: i64) -> bool {
    match n {
        UiNotification::SessionOpened(e) => post_session_opened(s0, s1, e),
        UiNotification::TurnStarted(e) => post_turn_started(s0, s1, e),
        UiNotification::MessageDelta(e) => post_message_delta(s0, s1, e),
        UiNotification::ToolStarted(e) => post_tool_started(s0, s1, e, now),
        UiNotification::ToolProgress(e) => post_tool_progress(s0, s1, e, now),
        UiNotification::ToolCompleted(e) => post_tool_completed(s0, s1, e, now),
        UiNotification::ApprovalRequested(e) => {
            &&& keyed_set(s0.approvals.by_id, s1.approvals.by_id, e.approval_id.0, Some(requested_card(e)))
            &&& count_pending(s1.approvals.by_id.seq()) == count_pending(s0.approvals.by_id.seq()) + 1 - if (
            s0.approvals.by_id.spec_get(e.approval_id.0) matches Some(c) && is_pending(c)) {
                1int
            } else {
                0int
            }
            &&& s1 == AppState { approvals: s1.approvals, cursor: s1.cursor, ..s0 }
        },
        UiNotification::ApprovalAutoResolved(e) => post_card_toast(
            s0,
            s1,
            e.approval_id.0,
            ApprovalState::Decided(e.decision),
            true,
            auto_resolved_text(e),
        ),
        UiNotification::ApprovalDecided(e) => post_card_toast(
            s0,
            s1,
            e.approval_id.0,
            ApprovalState::Decided(e.decision),
            false,
            decided_text(e),
        ),
        UiNotification::ApprovalCancelled(e) => post_card_toast(
            s0,
            s1,
            e.approval_id.0,
            ApprovalState::Cancelled(e.reason),
            false,
            cancelled_text(e),
        ),
        UiNotification::TaskUpdated(e) => post_task_updated(s0, s1, e, now),
        UiNotification::TaskOutputDelta(e) => post_task_output_delta(s0, s1, e, now),
        UiNotification::ProgressUpdated(e) => post_progress_updated(s0, s1, e, now),
        UiNotification::ReplayLossy(e) => post_replay_lossy(s0, s1, e),
        UiNotification::Warning(e) => post_warning(s0, s1, e),
        UiNotification::TurnCompleted(e) => post_turn_completed(s0, s1, e, now),
        UiNotification::TurnError(e) => post_turn_error(s0, s1, e, now),
    }
}

/// The resume cursor a notification leaves for its session: its own
/// cursor when it carries one (turn completion, lossy replay), else the
/// one it arrived with.
pub open spec fn resume_cursor(c: Option<UiCursor>, n: UiNotification) -> Option<UiCursor> {
    match n {
        UiNotification::TurnCompleted(e) => if e.cursor is Some {
            e.cursor
        } else {
            c
        },
        UiNotification::ReplayLossy(e) => if e.last_durable_cursor is Some {
            e.last_durable_cursor
        } else {
            c
        },
        _ => c,
    }
}

pub open spec fn cursor_advanced(
    c0: KeyedVec<SessionKey, UiCursor>,
    c1: KeyedVec<SessionKey, UiCursor>,
    c: Option<UiCursor>,
    n: UiNotification,
) -> bool {
    match resume_cursor(c, n) {
        Some(x) => keyed_set(c0, c1, n.session().0@, Some(x)),
        None => c1 == c0,
    }
}

fn apply_protocol(state: &mut AppState, cursor: Option<UiCursor>, n: UiNotification, now: i64)
    ensures
        protocol_post(*old(state), *final(state), n, now),
        cursor_advanced(old(state).cursor, final(state).cursor, cursor, n),
{
    match cursor {
        Some(c) => {
            let sid = n.route_session().clone();
            state.cursor.insert(sid, c);
        },
        None => {},
    }
    match n {
        UiNotification::SessionOpened(e) => on_session_opened(state, e),
        UiNotification::TurnStarted(e) => on_turn_started(state, e),
        UiNotification::MessageDelta(e) => on_message_delta(state, e),
        UiNotification::ToolStarted(e) => on_tool_started(state, e, now),
        UiNotification::ToolProgress(e) => on_tool_progress(state, e, now),
        UiNotification::ToolCompleted(e) => on_tool_completed(state, e, now),
        UiNotification::ApprovalRequested(e) => state.approvals.requested(e),
        UiNotification::ApprovalAutoResolved(e) => on_approval_auto_resolved(state, e),
        UiNotification::ApprovalDecided(e) => on_approval_decided(state, e),
        UiNotification::ApprovalCancelled(e) => on_approval_cancelled(state, e),
        UiNotification::TaskUpdated(e) => on_task_updated(state, e, now),
        UiNotification::TaskOutputDelta(e) => on_task_output_delta(state, e, now),
        UiNotification::ProgressUpdated(e) => on_progress_updated(state, e, now),
        UiNotification::ReplayLossy(e) => on_replay_lossy(state, e),
        UiNotification::Warning(e) => on_warning(state, e),
        UiNotification::TurnCompleted(e) => on_turn_completed(state, e, now),
        UiNotification::TurnError(e) => on_turn_error(state, e, now),
    }
}

// ---------------------------------------------------------------- snapshots

/// REST snapshots, applied through the same reducer.
pub enum SnapshotEvent {
    SessionsHydrated(Vec<Session>),
    SessionRemoved(SessionKey),
    FileMetaHydrated(FileMeta),
}

/// What the session map holds at `q` after inserting `list` in order:
/// the last listed session with that id, else what was there.
pub open spec fn hydrated_get(
    old: KeyedVec<SessionKey, Session>,
    list: Seq<Session>,
    q: Seq<char>,
) -> Option<Session>
    decreases list.len(),
{
    if list.len() == 0 {
        old.spec_get(q)
    } else if list.last().id.0@ == q {
        Some(list.last())
    } else {
        hydrated_get(old, list.drop_last(), q)
    }
}

pub open spec fn snapshot_post(s0: AppState, s1: AppState, ev: SnapshotEvent) -> bool {
    match ev {
        SnapshotEvent::SessionsHydrated(list) => {
            &&& forall|q: Seq<char>| #[trigger] s1.sessions.spec_get(q) == hydrated_get(s0.sessions, list@, q)
            &&& list.len() > 0 ==> s1.sessions.seq()[0].0 == list@.last().id
            &&& s1 == AppState { sessions: s1.sessions, ..s0 }
        },
        SnapshotEvent::SessionRemoved(id) => {
            &&& keyed_set(s0.sessions, s1.sessions, id.0@, None)
            &&& keyed_set(s0.cursor, s1.cursor, id.0@, None)
            &&& if s0.current_session matches Some(k) && k.0@ == id.0@ {
                s1.current_session is None && s1.navigation is Home
            } else {
                s1.current_session == s0.current_session && s1.navigation == s0.navigation
            }
            &&& s1 == AppState {
                sessions: s1.sessions,
                cursor: s1.cursor,
                current_session: s1.current_session,
                navigation: s1.navigation,
                ..s0
            }
        },
        SnapshotEvent::FileMetaHydrated(meta) => {
            &&& keyed_set(s0.files, s1.files, meta.handle.0@, Some(meta))
            &&& s1 == AppState { files: s1.files, ..s0 }
        },
    }
}

fn apply_snapshot(state: &mut AppState, ev: SnapshotEvent)
    ensures
        snapshot_post(*old(state), *final(state), ev),
{
    match ev {
        SnapshotEvent::SessionsHydrated(list) => {
            let ghost all = list@;
            let total = list.len();
            let mut rest = list;
            let mut i: usize = 0;
            while rest.len() > 0
                invariant
                    i + rest@.len() == all.len(),
                    all.len() == total,
                    rest@ == all.skip(i as int),
                    forall|q: Seq<char>|
                        #[trigger] state.sessions.spec_get(q) == hydrated_get(
                            old(state).sessions,
                            all.take(i as int),
                            q,
                        ),
                    i > 0 ==> state.sessions.seq().len() > 0 && state.sessions.seq()[0].0 == all[i - 1].id,
                    *state == (AppState { sessions: state.sessions, ..*old(state) }),
                decreases rest@.len(),
            {
                let s = rest.remove(0);
                let k = s.id.clone();
                state.sessions.insert_front(k, s);
                proof {
                    assert(all.take(i + 1).drop_last() =~= all.take(i as int));
                    assert(all.take(i + 1).last() == all[i as int]);
                    assert(rest@ =~= all.skip(i + 1));
                }
                i += 1;
            }
            assert(all.take(i as int) =~= all);
        },
        SnapshotEvent::SessionRemoved(id) => {
            state.sessions.remove(&id);
            let current = match &state.current_session {
                Some(k) => crate::text::str_eq(k.0.as_str(), id.0.as_str()),
                None => false,
            };
            if current {
                state.current_session = None;
                state.navigation = CurrentScreen::Home;
            }
            state.cursor.remove(&id);
        },
        SnapshotEvent::FileMetaHydrated(meta) => {
            let h = FileHandle(meta.handle.0.clone());
            state.files.insert(h, meta);
        },
    }
}

// ---------------------------------------------------------------- navigation

pub open spec fn navigation_post(s0: AppState, s1: AppState, ev: NavigationEvent) -> bool {
    match ev {
        NavigationEvent::Logout => {
            &&& s1.navigation is Login
            &&& s1.current_session is None
            &&& s1.ephemeral.streaming_text.seq().len() == 0
            &&& s1.ephemeral.thinking_text.seq().len() == 0
            &&& s1.toasts.seq().len() == 0
            &&& s1 == AppState {
                navigation: s1.navigation,
                current_session: s1.current_session,
                ephemeral: s1.ephemeral,
                toasts: s1.toasts,
                ..s0
            }
        },
        NavigationEvent::NavigateTo(screen) => s1 == AppState { navigation: screen, ..s0 },
        NavigationEvent::OpenSession(k) => s1 == AppState {
            navigation: CurrentScreen::Chat { session: Some(k) },
            current_session: Some(k),
            ..s0
        },
    }
}

fn apply_navigation(state: &mut AppState, ev: NavigationEvent)
    ensures
        navigation_post(*old(state), *final(state), ev),
{
    match ev {
        NavigationEvent::Logout => {
            state.navigation = CurrentScreen::Login;
            state.current_session = None;
            // Login is a fresh slate: no streamed text, no transient toasts.
            state.ephemeral = Ephemeral { streaming_text: KeyedVec::new(), thinking_text: KeyedVec::new() };
            state.toasts = ToastQueue::new();
        },
        NavigationEvent::NavigateTo(screen) => {
            state.navigation = screen;
        },
        NavigationEvent::OpenSession(k) => {
            state.current_session = Some(k.clone());
            state.navigation = CurrentScreen::Chat { session: Some(k) };
        },
    }
}

// ---------------------------------------------------------------- reduce

/// An event dispatched at the reducer.
pub enum Event {
    /// A server notification and the cursor it arrived with (none for
    /// ephemeral kinds).
    Protocol { cursor: Option<UiCursor>, notification: UiNotification },
    Navigation(NavigationEvent),
    Snapshot(SnapshotEvent),
    Connection(ConnectionEvent),
    Toast(Toast),
    DismissOldestToast,
}

pub open spec fn connection_state_of(ev: ConnectionEvent) -> ConnectionState {
    match ev {
        ConnectionEvent::Connected => ConnectionState::Connected,
        ConnectionEvent::Reconnecting => ConnectionState::Reconnecting,
        ConnectionEvent::Offline => ConnectionState::Offline,
    }
}

/// What one event does to the state, with the clock reading `now`.
pub open spec fn reduce_post(s0: AppState, s1: AppState, ev: Event, now: i64) -> bool {
    match ev {
        Event::Protocol { cursor, notification } => {
            &&& protocol_post(s0, s1, notification, now)
            &&& cursor_advanced(s0.cursor, s1.cursor, cursor, notification)
        },
        Event::Navigation(nev) => navigation_post(s0, s1, nev),
        Event::Snapshot(sev) => snapshot_post(s0, s1, sev),
        Event::Connection(c) => s1 == AppState { connection: connection_state_of(c), ..s0 },
        Event::Toast(t) => {
            &&& s1.toasts.seq() == s0.toasts.seq().push(t)
            &&& s1 == AppState { toasts: s1.toasts, ..s0 }
        },
        Event::DismissOldestToast => {
            &&& s1.toasts.seq() == if s0.toasts.seq().len() > 0 {
                s0.toasts.seq().drop_first()
            } else {
                s0.toasts.seq()
            }
            &&& s1 == AppState { toasts: s1.toasts, ..s0 }
        },
    }
}

/// Applies one event, reading the clock as `now`.
pub fn reduce_at(state: &mut AppState, event: Event, now: i64)
    ensures
        reduce_post(*old(state), *final(state), event, now),
{
    match event {
        Event::Protocol { cursor, notification } => apply_protocol(state, cursor, notification, now),
        Event::Navigation(ev) => apply_navigation(state, ev),
        Event::Snapshot(ev) => apply_snapshot(state, ev),
        Event::Connection(ev) => {
            state.connection = match ev {
                ConnectionEvent::Connected => ConnectionState::Connected,
                ConnectionEvent::Reconnecting => ConnectionState::Reconnecting,
                ConnectionEvent::Offline => ConnectionState::Offline,
            };
        },
        Event::Toast(t) => state.toasts.push(t),
        Event::DismissOldestToast => {
            state.toasts.dismiss_oldest();
        },
    }
}

/// Applies one event at the current time.
pub fn reduce(state: &mut AppState, event: Event)
    ensures
        exists|now: i64| reduce_post(*old(state), *final(state), event, now),
{
    let now = crate::backoff::wall_clock_millis();
    reduce_at(state, event, now);
}

/// The user deleted a session: it is dropped at once (before the server
/// confirms), and is no longer current.
pub fn forget_session(state: &mut AppState, id: &SessionKey)
    ensures
        keyed_set(old(state).sessions, final(state).sessions, id.0@, None),
        final(state).current_session == if old(state).current_session matches Some(k) && k.0@ == id.0@ {
            None
        } else {
            old(state).current_session
        },
        *final(state) == (AppState {
            sessions: final(state).sessions,
            current_session: final(state).current_session,
            ..*old(state)
        }),
{
    state.sessions.remove(id);
    let current = match &state.current_session {
        Some(k) => crate::text::str_eq(k.0.as_str(), id.0.as_str()),
        None => false,
    };
    if current {
        state.current_session = None;
    }
}

} // verus!
