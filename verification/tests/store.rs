use octos_app::ids::{ApprovalId, TaskId, ToolCallId, TurnId};
use octos_app::notification::{
    ApprovalAutoResolvedEvent, ApprovalCancelledEvent, ApprovalDecidedEvent, ApprovalDecision,
    ApprovalRequestedEvent, MessageDeltaEvent, ProgressMetadata, ProgressUpdatedEvent,
    ReplayLossyEvent, TaskRuntimeState, TaskUpdatedEvent, ToolCompletedEvent, ToolStartedEvent,
    TurnCompletedEvent, TurnStartedEvent, UiNotification,
};
use octos_app::protocol::{SessionKey, UiCursor};
use octos_app::records::{Session, Turn, TurnStatus};
use octos_app::reducer::{reduce, Event, SnapshotEvent};
use octos_app::state::{AppState, ConnectionEvent, ConnectionState, CurrentScreen, NavigationEvent};
use octos_app::toasts::{Toast, ToastKind, ToastQueue};

fn ts(secs: i64) -> i64 {
    secs * 1000
}

fn key(s: &str) -> SessionKey {
    SessionKey(s.into())
}

fn turn(n: u128) -> TurnId {
    TurnId(n)
}

fn seed_session(state: &mut AppState, k: &str) {
    state.sessions.insert_front(key(k), Session::new(key(k), "acme", "S", ts(0)));
}

fn any_toast(q: &ToastQueue, f: impl Fn(&Toast) -> bool) -> bool {
    (0..q.len()).any(|i| f(q.get(i)))
}

fn requested(aid: ApprovalId) -> UiNotification {
    UiNotification::ApprovalRequested(ApprovalRequestedEvent {
        session_id: key("t:1"),
        approval_id: aid,
        turn_id: turn(1),
        tool_name: "shell".into(),
        title: "Run".into(),
        body: "ls".into(),
    })
}

#[test]
fn reduce_durable_notification_updates_cursor() {
    let mut s = AppState::new();
    seed_session(&mut s, "t:1");
    let cursor = UiCursor { stream: "main".into(), seq: 7 };
    let ev = Event::Protocol {
        cursor: Some(cursor.clone()),
        notification: UiNotification::TurnStarted(TurnStartedEvent {
            session_id: key("t:1"),
            turn_id: turn(1),
            timestamp: ts(100),
        }),
    };
    reduce(&mut s, ev);
    assert_eq!(s.cursor.get(&key("t:1")), Some(&cursor));
    assert!(s.turns.contains_key(&turn(1)));
    assert!(s.sessions.get(&key("t:1")).unwrap().is_streaming);
}

#[test]
fn message_delta_buffers_ephemeral_text_and_does_not_advance_cursor() {
    let mut s = AppState::new();
    seed_session(&mut s, "t:1");
    s.turns.insert(turn(1), Turn::started(turn(1), key("t:1"), ts(0)));
    for chunk in ["hel", "lo"] {
        reduce(
            &mut s,
            Event::Protocol {
                cursor: None,
                notification: UiNotification::MessageDelta(MessageDeltaEvent {
                    session_id: key("t:1"),
                    turn_id: turn(1),
                    text: chunk.into(),
                }),
            },
        );
    }
    assert_eq!(s.ephemeral.streaming_text.get(&turn(1)).unwrap(), "hello");
    assert!(s.cursor.get(&key("t:1")).is_none());
    assert_eq!(s.turns.get(&turn(1)).unwrap().status, TurnStatus::Streaming);
}

#[test]
fn turn_completed_drops_ephemeral_buffer_and_clears_streaming_dot() {
    let mut s = AppState::new();
    seed_session(&mut s, "t:1");
    s.turns.insert(turn(1), Turn::started(turn(1), key("t:1"), ts(0)));
    s.ephemeral.streaming_text.insert(turn(1), "partial".into());
    let mut sess = s.sessions.remove(&key("t:1")).unwrap();
    sess.is_streaming = true;
    s.sessions.insert_front(key("t:1"), sess);
    let cursor = UiCursor { stream: "main".into(), seq: 42 };
    reduce(
        &mut s,
        Event::Protocol {
            cursor: None,
            notification: UiNotification::TurnCompleted(TurnCompletedEvent {
                session_id: key("t:1"),
                turn_id: turn(1),
                cursor: Some(cursor.clone()),
            }),
        },
    );
    assert!(!s.ephemeral.streaming_text.contains_key(&turn(1)));
    assert_eq!(s.turns.get(&turn(1)).unwrap().status, TurnStatus::Completed);
    assert_eq!(s.cursor.get(&key("t:1")), Some(&cursor));
    assert!(!s.sessions.get(&key("t:1")).unwrap().is_streaming);
}

#[test]
fn tool_lifecycle_lights_and_clears_active_task_dot() {
    let mut s = AppState::new();
    seed_session(&mut s, "t:1");
    reduce(
        &mut s,
        Event::Protocol {
            cursor: None,
            notification: UiNotification::ToolStarted(ToolStartedEvent {
                session_id: key("t:1"),
                turn_id: turn(1),
                tool_call_id: "call-x".into(),
                tool_name: "shell".into(),
                arguments: None,
            }),
        },
    );
    assert!(s.sessions.get(&key("t:1")).unwrap().has_active_task);
    reduce(
        &mut s,
        Event::Protocol {
            cursor: None,
            notification: UiNotification::ToolCompleted(ToolCompletedEvent {
                session_id: key("t:1"),
                turn_id: turn(1),
                tool_call_id: "call-x".into(),
                tool_name: "shell".into(),
                success: Some(true),
                output_preview: Some("done".into()),
                duration_ms: Some(10),
            }),
        },
    );
    assert!(!s.sessions.get(&key("t:1")).unwrap().has_active_task);
    let tc = s.tool_calls.get(&ToolCallId::new("call-x")).unwrap();
    assert_eq!(tc.success, Some(true));
    assert_eq!(tc.output_preview.as_deref(), Some("done"));
}

#[test]
fn task_updated_running_then_completed() {
    let mut s = AppState::new();
    seed_session(&mut s, "t:1");
    let tid = TaskId::default();
    for st in [TaskRuntimeState::Running, TaskRuntimeState::Completed] {
        reduce(
            &mut s,
            Event::Protocol {
                cursor: None,
                notification: UiNotification::TaskUpdated(TaskUpdatedEvent {
                    session_id: key("t:1"),
                    task_id: tid,
                    title: "build".into(),
                    state: st,
                    runtime_detail: None,
                }),
            },
        );
    }
    assert!(!s.sessions.get(&key("t:1")).unwrap().has_active_task);
}

#[test]
fn approval_requested_lands_in_slice() {
    let mut s = AppState::new();
    seed_session(&mut s, "t:1");
    let aid = ApprovalId(7);
    reduce(&mut s, Event::Protocol { cursor: None, notification: requested(aid) });
    assert_eq!(s.approvals.pending_count(), 1);
    s.approvals.pending_response(&aid, ApprovalDecision::Approve);
    s.approvals.decided(&aid, ApprovalDecision::Approve);
    assert_eq!(s.approvals.pending_count(), 0);
}

#[test]
fn approval_decided_notification_collapses_pending_card() {
    let mut s = AppState::new();
    seed_session(&mut s, "t:1");
    let aid = ApprovalId(7);
    reduce(&mut s, Event::Protocol { cursor: None, notification: requested(aid) });
    reduce(
        &mut s,
        Event::Protocol {
            cursor: None,
            notification: UiNotification::ApprovalDecided(ApprovalDecidedEvent {
                session_id: key("t:1"),
                approval_id: aid,
                turn_id: turn(1),
                decision: ApprovalDecision::Approve,
                decided_by: "server".into(),
            }),
        },
    );
    assert_eq!(s.approvals.pending_count(), 0);
    assert!(any_toast(&s.toasts, |t| t.kind == ToastKind::Info
        && t.message == "Approval decided by server: approve"));
}

#[test]
fn approval_cancelled_notification_collapses_pending_card() {
    let mut s = AppState::new();
    seed_session(&mut s, "t:1");
    let aid = ApprovalId(7);
    reduce(&mut s, Event::Protocol { cursor: None, notification: requested(aid) });
    reduce(
        &mut s,
        Event::Protocol {
            cursor: None,
            notification: UiNotification::ApprovalCancelled(ApprovalCancelledEvent {
                session_id: key("t:1"),
                approval_id: aid,
                turn_id: turn(1),
                reason: "turn_interrupted".into(),
            }),
        },
    );
    assert_eq!(s.approvals.pending_count(), 0);
    assert!(any_toast(&s.toasts, |t| t.kind == ToastKind::Info
        && t.message == "Approval cancelled: turn_interrupted"));
}

#[test]
fn replay_lossy_notification_records_last_durable_cursor() {
    let mut s = AppState::new();
    seed_session(&mut s, "t:1");
    let cursor = UiCursor { stream: "main".into(), seq: 44 };
    reduce(
        &mut s,
        Event::Protocol {
            cursor: None,
            notification: UiNotification::ReplayLossy(ReplayLossyEvent {
                session_id: key("t:1"),
                dropped_count: 2,
                last_durable_cursor: Some(cursor.clone()),
            }),
        },
    );
    assert_eq!(s.cursor.get(&key("t:1")), Some(&cursor));
    assert!(any_toast(&s.toasts, |t| t.kind == ToastKind::Reconnecting
        && t.message == "Replay dropped 2 notifications; rehydrating session"));
}

#[test]
fn logout_clears_navigation_and_ephemeral() {
    let mut s = AppState::new();
    s.current_session = Some(key("t:1"));
    s.navigation = CurrentScreen::Chat { session: Some(key("t:1")) };
    s.ephemeral.streaming_text.insert(turn(1), "x".into());
    s.toasts.push(Toast::new(ToastKind::Info, "hello"));
    reduce(&mut s, Event::Navigation(NavigationEvent::Logout));
    assert!(matches!(s.navigation, CurrentScreen::Login));
    assert!(s.current_session.is_none());
    assert_eq!(s.ephemeral.streaming_text.len(), 0);
    assert!(s.toasts.is_empty());
}

#[test]
fn snapshot_session_removed_clears_pointer_and_cursor() {
    let mut s = AppState::new();
    seed_session(&mut s, "t:1");
    s.current_session = Some(key("t:1"));
    s.navigation = CurrentScreen::Chat { session: Some(key("t:1")) };
    s.cursor.insert(key("t:1"), UiCursor { stream: "m".into(), seq: 1 });
    reduce(&mut s, Event::Snapshot(SnapshotEvent::SessionRemoved(key("t:1"))));
    assert!(s.sessions.get(&key("t:1")).is_none());
    assert!(s.current_session.is_none());
    assert!(matches!(s.navigation, CurrentScreen::Home));
    assert!(s.cursor.get(&key("t:1")).is_none());
}

#[test]
fn connection_event_round_trips() {
    let mut s = AppState::new();
    reduce(&mut s, Event::Connection(ConnectionEvent::Reconnecting));
    assert_eq!(s.connection, ConnectionState::Reconnecting);
    reduce(&mut s, Event::Connection(ConnectionEvent::Connected));
    assert_eq!(s.connection, ConnectionState::Connected);
}

#[test]
fn progress_updated_forwards_pct_and_summary() {
    let mut s = AppState::new();
    seed_session(&mut s, "t:1");
    reduce(
        &mut s,
        Event::Protocol {
            cursor: None,
            notification: UiNotification::ToolStarted(ToolStartedEvent {
                session_id: key("t:1"),
                turn_id: turn(1),
                tool_call_id: "call-x".into(),
                tool_name: "shell".into(),
                arguments: None,
            }),
        },
    );
    let tid = TaskId::default();
    reduce(
        &mut s,
        Event::Protocol {
            cursor: None,
            notification: UiNotification::TaskUpdated(TaskUpdatedEvent {
                session_id: key("t:1"),
                task_id: tid,
                title: "build".into(),
                state: TaskRuntimeState::Running,
                runtime_detail: None,
            }),
        },
    );
    let metadata = ProgressMetadata {
        progress_pct: Some(0.42f64.to_bits()),
        label: Some("compiling …".into()),
        message: None,
    };
    reduce(
        &mut s,
        Event::Protocol {
            cursor: None,
            notification: UiNotification::ProgressUpdated(ProgressUpdatedEvent {
                session_id: key("t:1"),
                turn_id: Some(turn(1)),
                metadata,
            }),
        },
    );
    let tc = s.tool_calls.get(&ToolCallId::new("call-x")).unwrap();
    assert_eq!(tc.progress_pct.map(f64::from_bits), Some(0.42));
    let task = s.tasks.get(&tid).unwrap();
    assert_eq!(task.summary.as_deref(), Some("compiling …"));
}

#[test]
fn approval_auto_resolved_toasts_and_decides() {
    let mut s = AppState::new();
    seed_session(&mut s, "t:1");
    let aid = ApprovalId(7);
    reduce(&mut s, Event::Protocol { cursor: None, notification: requested(aid) });
    assert_eq!(s.approvals.pending_count(), 1);
    reduce(
        &mut s,
        Event::Protocol {
            cursor: None,
            notification: UiNotification::ApprovalAutoResolved(ApprovalAutoResolvedEvent {
                session_id: key("t:1"),
                approval_id: aid,
                turn_id: turn(1),
                tool_name: "shell".into(),
                scope: "session".into(),
                scope_match: "exact".into(),
                decision: ApprovalDecision::Approve,
            }),
        },
    );
    assert_eq!(s.approvals.pending_count(), 0);
    assert!(any_toast(&s.toasts, |t| t.kind == ToastKind::Info
        && t.message.contains("Auto-approved")));
}
