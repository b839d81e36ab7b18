use octos_app::approvals::{parse_recorded_decision, ApprovalReply, ApprovalState, ApprovalsSlice};
use octos_app::backoff::{next_backoff, reconnect_delay_max};
use octos_app::capability::Capabilities;
use octos_app::ids::{ApprovalId, ToolCallId, TurnId};
use octos_app::json::JsonValue;
use octos_app::notification::{ApprovalDecision, ApprovalRequestedEvent, ToolStartedEvent, UiNotification};
use octos_app::notification::TurnStartedEvent;
use octos_app::protocol::{SessionKey, UiCursor};
use octos_app::records::Session;
use octos_app::reducer::{reduce, Event};
use octos_app::state::{status_text, AppState, ConnectionState};
use octos_app::strmap::StrMap;
use octos_app::toasts::{Toast, ToastKind};
use octos_app::transport::{ProfileId, SecretString};
use std::time::Duration;

#[test]
fn secret_is_redacted_in_debug_text() {
    let s = SecretString::new("tk-123");
    assert_eq!(s.expose(), "tk-123");
    assert_eq!(s.debug_string(), "SecretString(***)");
    assert_eq!(ProfileId::new("p1").0, "p1");
    assert_eq!(SessionKey::new("cli", "demo").0, "cli:demo");
}

#[test]
fn json_member_lookup_takes_the_last_duplicate() {
    let v = JsonValue::Object(vec![
        ("a".to_string(), JsonValue::Number("1".into())),
        ("a".to_string(), JsonValue::Number("2".into())),
    ]);
    assert!(matches!(v.get("a"), Some(JsonValue::Number(n)) if n == "2"));
    assert!(v.get("b").is_none());
    assert_eq!(JsonValue::Bool(true).as_bool(), Some(true));
    assert_eq!(JsonValue::Null.as_str(), None);
}

#[test]
fn string_map_keeps_keys_sorted_and_unique() {
    let mut m: StrMap<u32> = StrMap::new();
    assert_eq!(m.insert("b".into(), 1), None);
    assert_eq!(m.insert("a".into(), 2), None);
    assert_eq!(m.insert("b".into(), 3), Some(1));
    assert_eq!(m.len(), 2);
    assert_eq!(m.key_at(0), "a");
    assert_eq!(m.get("b"), Some(&3));
    assert_eq!(m.remove("a"), Some(2));
    assert!(!m.contains_key("a"));
}

#[test]
fn header_lists_known_flags_then_extras() {
    let caps = Capabilities::from_supported_features(&["future.v1", "approval.typed.v1"]);
    assert!(caps.typed_approvals && !caps.pane_snapshots);
    assert_eq!(caps.feature_header_value(), "approval.typed.v1, future.v1");
    assert_eq!(Capabilities::default().feature_header_value(), "");
}

#[test]
fn backoff_delays_come_from_the_clock_within_their_window() {
    assert_eq!(reconnect_delay_max(), Duration::from_secs(30));
    assert_eq!(next_backoff(1), Duration::ZERO);
    assert!(next_backoff(3) < Duration::from_secs(4));
    assert!(next_backoff(1000) <= Duration::from_secs(30));
}

#[test]
fn indicator_and_status_text() {
    assert_eq!(ConnectionState::Connected.indicator(), ("Live", "#x4FCB6E"));
    assert_eq!(ConnectionState::Offline.indicator(), ("Offline", "#xE36363"));
    assert_eq!(status_text(Some("acme")), "Connected · profile=acme");
    assert_eq!(status_text(None), "Initializing...");
}

#[test]
fn toasts_leave_in_arrival_order() {
    let mut s = AppState::new();
    reduce(&mut s, Event::Toast(Toast::new(ToastKind::Info, "first")));
    reduce(&mut s, Event::Toast(Toast::new(ToastKind::Error, "second")));
    reduce(&mut s, Event::DismissOldestToast);
    assert_eq!(s.toasts.len(), 1);
    assert_eq!(s.toasts.get(0).message, "second");
    reduce(&mut s, Event::DismissOldestToast);
    reduce(&mut s, Event::DismissOldestToast);
    assert!(s.toasts.is_empty());
}

#[test]
fn tool_start_is_stamped_with_the_current_time() {
    let mut s = AppState::new();
    let key = SessionKey("t:1".into());
    s.sessions.insert_front(SessionKey("t:1".into()), Session::new(SessionKey("t:1".into()), "acme", "S", 0));
    reduce(
        &mut s,
        Event::Protocol {
            cursor: None,
            notification: UiNotification::ToolStarted(ToolStartedEvent {
                session_id: key,
                turn_id: TurnId(1),
                tool_call_id: "c".into(),
                tool_name: "shell".into(),
                arguments: Some("{\"cmd\":\"ls\"}".into()),
            }),
        },
    );
    let tc = s.tool_calls.get(&ToolCallId::new("c")).unwrap();
    // Milliseconds since the epoch: well past 2020.
    assert!(tc.started_at > 1_577_836_800_000);
    assert_eq!(tc.arguments.as_deref(), Some("{\"cmd\":\"ls\"}"));
}

fn pending_card(slice: &mut ApprovalsSlice, id: u128) {
    slice.requested(ApprovalRequestedEvent {
        session_id: SessionKey("t:1".into()),
        approval_id: ApprovalId(id),
        turn_id: TurnId(1),
        tool_name: "shell".into(),
        title: "Run".into(),
        body: "ls".into(),
    });
}

#[test]
fn approval_replies_settle_the_card() {
    let mut slice = ApprovalsSlice::new();
    pending_card(&mut slice, 1);
    pending_card(&mut slice, 2);
    pending_card(&mut slice, 3);
    assert_eq!(slice.pending_count(), 3);
    slice.apply_reply(&ApprovalId(1), ApprovalDecision::Approve, ApprovalReply::Accepted);
    assert!(matches!(slice.by_id.get(&ApprovalId(1)).unwrap().state, ApprovalState::Decided(ApprovalDecision::Approve)));
    let data = JsonValue::Object(vec![("recorded_decision".to_string(), JsonValue::Str("deny".into()))]);
    slice.apply_reply(
        &ApprovalId(2),
        ApprovalDecision::Approve,
        ApprovalReply::Failed { message: "not pending".into(), code: -32011, data: Some(data) },
    );
    assert!(matches!(slice.by_id.get(&ApprovalId(2)).unwrap().state, ApprovalState::Decided(ApprovalDecision::Deny)));
    slice.apply_reply(
        &ApprovalId(3),
        ApprovalDecision::Deny,
        ApprovalReply::Failed { message: "boom".into(), code: -1, data: None },
    );
    assert!(matches!(&slice.by_id.get(&ApprovalId(3)).unwrap().state, ApprovalState::Failed(m) if m == "boom"));
    assert_eq!(slice.pending_count(), 0);
    assert!(matches!(parse_recorded_decision("approve"), Some(ApprovalDecision::Approve)));
    assert!(parse_recorded_decision("maybe").is_none());
}

#[test]
fn a_notification_leaves_other_sessions_alone() {
    let mut s = AppState::new();
    for k in ["t:1", "t:2"] {
        s.sessions.insert_front(SessionKey(k.into()), Session::new(SessionKey(k.into()), "acme", "S", 0));
    }
    s.cursor.insert(SessionKey("t:2".into()), UiCursor { stream: "main".into(), seq: 3 });
    reduce(
        &mut s,
        Event::Protocol {
            cursor: Some(UiCursor { stream: "main".into(), seq: 9 }),
            notification: UiNotification::TurnStarted(TurnStartedEvent {
                session_id: SessionKey("t:1".into()),
                turn_id: TurnId(1),
                timestamp: 5,
            }),
        },
    );
    assert!(s.sessions.get(&SessionKey("t:1".into())).unwrap().is_streaming);
    assert!(!s.sessions.get(&SessionKey("t:2".into())).unwrap().is_streaming);
    assert_eq!(s.cursor.get(&SessionKey("t:2".into())).map(|c| c.seq), Some(3));
    assert_eq!(s.cursor.get(&SessionKey("t:1".into())).map(|c| c.seq), Some(9));
    assert_eq!(s.turns.get(&TurnId(1)).unwrap().started_at, 5);
}

#[test]
fn card_names_are_capped_slugs() {
    let long = format!("// name: {}\n", "Ab".repeat(40));
    let name = octos_app::a2app::extract_card_name(&long).unwrap();
    assert_eq!(name.len(), 48);
    assert!(name.chars().all(|c| c.is_ascii_lowercase() || c.is_ascii_digit() || c == '-'));
    assert_eq!(octos_app::a2app::extract_card_name("// name: --Hi There--").as_deref(), Some("hi-there"));
    assert_eq!(octos_app::a2app::extract_card_name("// name: !!!"), None);
}

#[test]
fn a_feature_list_parses_like_building_from_it() {
    let list = JsonValue::Object(vec![(
        "result".to_string(),
        JsonValue::Object(vec![(
            "capabilities".to_string(),
            JsonValue::Object(vec![(
                "supported_features".to_string(),
                JsonValue::Array(vec![JsonValue::Str("pane.snapshots.v1".into()), JsonValue::Number("3".into())]),
            )]),
        )]),
    )]);
    let parsed = Capabilities::parse(&list);
    let built = Capabilities::from_supported_features(&["pane.snapshots.v1"]);
    assert_eq!(parsed.pane_snapshots, built.pane_snapshots);
    assert_eq!(parsed.typed_approvals, built.typed_approvals);
    assert_eq!(parsed.feature_header_value(), built.feature_header_value());
    assert_eq!(parsed.feature_header_value(), "pane.snapshots.v1");
}

#[test]
fn approval_clicks_wait_for_the_reply_or_fail_without_an_agent() {
    let mut slice = ApprovalsSlice::new();
    pending_card(&mut slice, 1);
    pending_card(&mut slice, 2);
    assert!(slice.begin_response(&ApprovalId(1), ApprovalDecision::Approve, true));
    assert!(matches!(slice.by_id.get(&ApprovalId(1)).unwrap().state, ApprovalState::PendingResponse(ApprovalDecision::Approve)));
    assert!(!slice.begin_response(&ApprovalId(2), ApprovalDecision::Deny, false));
    assert!(matches!(&slice.by_id.get(&ApprovalId(2)).unwrap().state, ApprovalState::Failed(m) if m == "agent not initialized"));
    assert_eq!(slice.pending_count(), 1);
    slice.apply_reply(&ApprovalId(1), ApprovalDecision::Approve, ApprovalReply::reply_dropped());
    assert!(matches!(&slice.by_id.get(&ApprovalId(1)).unwrap().state, ApprovalState::Failed(m) if m == "transport dropped the reply channel"));
    assert!(matches!(ApprovalReply::transport_unavailable(), ApprovalReply::Failed { message, code: 0, data: None } if message == "transport unavailable"));
}

#[test]
fn feature_header_ignores_list_order_and_repeats() {
    let a = Capabilities::from_supported_features(&["z.v1", "pane.snapshots.v1", "a.v1", "z.v1"]);
    let b = Capabilities::from_supported_features(&["a.v1", "z.v1", "pane.snapshots.v1"]);
    assert_eq!(a.feature_header_value(), b.feature_header_value());
    assert_eq!(a.feature_header_value(), "pane.snapshots.v1, a.v1, z.v1");
    assert_eq!(a.handshake_header_value(), b.handshake_header_value());
    assert_eq!(a.handshake_header_value(), "pane.snapshots.v1, a.v1, z.v1, context.lifecycle.v1");
}

#[test]
fn repeated_flag_member_counts_by_its_last_value() {
    let member = |v: bool| ("approval.typed.v1".to_string(), JsonValue::Bool(v));
    let doc = JsonValue::Object(vec![(
        "capabilities".to_string(),
        JsonValue::Object(vec![member(true), member(false)]),
    )]);
    let caps = Capabilities::parse(&doc);
    assert!(!caps.typed_approvals);
    assert!(matches!(caps.raw.get("approval.typed.v1"), Some(JsonValue::Bool(false))));
    let doc = JsonValue::Object(vec![(
        "capabilities".to_string(),
        JsonValue::Object(vec![member(false), member(true)]),
    )]);
    let caps = Capabilities::parse(&doc);
    assert!(caps.typed_approvals);
    assert!(matches!(caps.raw.get("approval.typed.v1"), Some(JsonValue::Bool(true))));
}
