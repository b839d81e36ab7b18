use octos_app::agent::{
    connection_transition, AgentCommand, OctosUiAgent, AgentEvent, ChatSessionId,
    PromptId, TransportEvent,
};
use octos_app::chat::{
    album_step, compose_prompt, has_content, newest_cards, ChatData, ChatRole, SAVED_CARDS_HEAD,
};
use octos_app::connection::{
    cursor_from_json, frame_action, on_session_open_result, plan_reconnect, reconnect_plan_with,
    resume_after, route_notification, FrameAction, Inbound, InboundFrame,
};
use octos_app::ids::TurnId;
use octos_app::json::JsonValue;
use octos_app::login::{
    check_profile_id, check_send_code, check_verify, solo_create_email, solo_create_outcome, solo_owner,
    solo_step,
    verify_outcome, version_warnings, workspace_cwd, SoloStep,
};
use octos_app::notification::{MessageDeltaEvent, TurnCompletedEvent, TurnErrorEvent, UiNotification};
use octos_app::protocol::{SessionKey, UiCursor};
use octos_app::state::{AppState, ConnectionEvent, ConnectionState as StoreState};
use octos_app::toasts::ToastKind;
use octos_app::transport::ConnectionState;

use octos_app::capability::Capabilities;
use octos_app::chat::ItemKind;
use octos_app::connection::upgrade_headers;
use octos_app::connection::ws_scheme;
use octos_app::connection::{classify_frame, on_command, DialAction, DialEvent, DialState, on_rpc_result, Envelope, on_send, CommandKind, LiveStep, RpcRegistry};
use octos_app::records::Session;
use octos_app::reducer::forget_session;

fn num(n: &str) -> JsonValue {
    JsonValue::Number(n.to_string())
}

fn same_json(a: &JsonValue, b: &JsonValue) -> bool {
    match (a, b) {
        (JsonValue::Null, JsonValue::Null) => true,
        (JsonValue::Bool(x), JsonValue::Bool(y)) => x == y,
        (JsonValue::Number(x), JsonValue::Number(y)) | (JsonValue::Str(x), JsonValue::Str(y)) => x == y,
        (JsonValue::Array(x), JsonValue::Array(y)) => {
            x.len() == y.len() && x.iter().zip(y.iter()).all(|(p, q)| same_json(p, q))
        }
        (JsonValue::Object(x), JsonValue::Object(y)) => {
            x.len() == y.len()
                && x.iter().zip(y.iter()).all(|((k, p), (l, q))| k == l && same_json(p, q))
        }
        _ => false,
    }
}

fn obj(members: Vec<(&str, JsonValue)>) -> JsonValue {
    JsonValue::Object(members.into_iter().map(|(k, v)| (k.to_string(), v)).collect())
}

// ---------------------------------------------------------------- chat

#[test]
fn a_turn_streams_then_lands_in_the_thread() {
    let mut d = ChatData::new();
    assert_eq!(d.empty_state_flags(), (true, false));
    assert_eq!(d.begin_turn("hi"), 2);
    assert_eq!(d.empty_state_flags(), (false, true));
    d.push_text_delta("hel");
    d.push_text_delta("lo");
    assert!(d.push_thinking_delta("hmm"));
    assert!(!d.push_thinking_delta("..."));
    let reply = d.take_reply();
    assert_eq!(reply, "hello");
    assert!(d.thinking_text.is_empty());
    let end = d.finish_turn(reply, true);
    assert!(!end.rendered_card && end.save.is_none() && !end.discarded);
    assert!(!d.is_streaming);
    assert_eq!(d.messages.len(), 2);
    assert!(d.messages[1].role == ChatRole::Assistant && d.messages[1].text == "hello");
}

#[test]
fn a_named_card_is_rendered_and_offered_for_saving() {
    let mut d = ChatData::new();
    d.begin_turn("make a card");
    let end = d.finish_turn("```runsplash\n// name: Demo\nView{}\n```".to_string(), true);
    assert!(end.rendered_card);
    let (name, body) = end.save.unwrap();
    assert_eq!(name, "demo");
    assert_eq!(body, "// name: Demo\nView{}");
}

#[test]
fn an_unsafe_reply_is_discarded() {
    let mut d = ChatData::new();
    d.begin_turn("x");
    let end = d.finish_turn("partial".to_string(), false);
    assert!(end.discarded && !end.rendered_card);
    assert_eq!(d.messages.len(), 1);
}

#[test]
fn cancel_keeps_what_streamed_and_errors_show_as_replies() {
    let mut d = ChatData::new();
    d.begin_turn("x");
    d.push_text_delta("half");
    d.cancel();
    assert!(!d.is_streaming);
    assert_eq!(d.messages[1].text, "half");
    d.fail_prompt("boom");
    assert_eq!(d.messages[2].text, "Error: boom");
    d.reset();
    assert!(d.messages.is_empty());
}

#[test]
fn history_keeps_only_user_and_assistant_rows() {
    let mut d = ChatData::new();
    let rows = vec![
        ("user".to_string(), "hi".to_string()),
        ("tool".to_string(), "x".to_string()),
        ("assistant".to_string(), "yo".to_string()),
    ];
    assert_eq!(d.hydrate(&rows), 2);
    assert!(d.messages[0].role == ChatRole::User && d.messages[1].text == "yo");
}

#[test]
fn prompts_are_composed_per_mode() {
    let mut primed = false;
    assert_eq!(compose_prompt("hi", false, &mut primed, "M", &[]), "hi");
    assert!(!primed);
    let first = compose_prompt("hi", true, &mut primed, "MANUAL", &[]);
    assert!(primed);
    assert!(first.contains("MANUAL") && first.ends_with("hi"));
    let saved = vec![("weather".to_string(), "  View{}\n".to_string())];
    let next = compose_prompt("again", true, &mut primed, "MANUAL", &saved);
    assert!(!next.contains("MANUAL"));
    assert!(next.ends_with(&format!("again{SAVED_CARDS_HEAD}\n[weather]\n```runsplash\nView{{}}\n```\n")));
    assert!(!has_content("  \n"));
    assert!(has_content(" a "));
}

#[test]
fn album_steps_are_clamped() {
    assert_eq!(album_step(0, 3, -1), 0);
    assert_eq!(album_step(1, 3, 5), 2);
    assert_eq!(album_step(1, 3, 1), 2);
    assert_eq!(album_step(0, 0, 1), 0);
}

#[test]
fn saved_cards_come_newest_first_and_capped() {
    let files = vec![
        (5u128, "a".to_string(), "A".to_string()),
        (9u128, "b".to_string(), "B".to_string()),
        (5u128, "c".to_string(), "C".to_string()),
    ];
    let picked = newest_cards(files, 2);
    assert_eq!(picked, vec![("b".to_string(), "B".to_string()), ("a".to_string(), "A".to_string())]);
}

// ---------------------------------------------------------------- login

#[test]
fn login_inputs_are_checked_in_order() {
    assert_eq!(check_profile_id(" acme "), Ok("acme".to_string()));
    assert_eq!(check_profile_id("  "), Err("Profile ID is required".to_string()));
    assert_eq!(check_send_code("bob", true), Err("Enter a valid email address".to_string()));
    assert_eq!(check_send_code(" a@b ", false), Err("No server configured (Step 1)".to_string()));
    assert_eq!(check_send_code(" a@b ", true), Ok("a@b".to_string()));
    assert_eq!(check_verify(" ", false, false, false), Err("Enter the verification code".to_string()));
    assert_eq!(check_verify("1", false, true, true), Err("No server configured (Step 1)".to_string()));
    assert_eq!(check_verify("1", true, false, true), Err("No profile id configured (Step 1)".to_string()));
    assert_eq!(check_verify("1", true, true, false), Err("Send a code first".to_string()));
    assert_eq!(check_verify(" 123 ", true, true, true), Ok("123".to_string()));
}

#[test]
fn verify_reply_outcomes() {
    assert_eq!(verify_outcome(true, None, Some("tok".into())), Ok("tok".to_string()));
    assert_eq!(verify_outcome(false, None, None), Err("Server rejected the code".to_string()));
    assert_eq!(verify_outcome(false, Some("expired".into()), None), Err("expired".to_string()));
    assert_eq!(
        verify_outcome(true, None, None),
        Err("Server returned ok=true but no token".to_string())
    );
}

#[test]
fn solo_create_fails_on_any_non_success_status() {
    assert_eq!(solo_create_outcome(200, "OK"), Ok(()));
    assert_eq!(solo_create_outcome(201, "Created"), Ok(()));
    assert_eq!(solo_create_outcome(299, "<unknown status code>"), Ok(()));
    assert_eq!(solo_create_outcome(403, "Forbidden"), Err("solo create: HTTP 403 Forbidden".to_string()));
    assert_eq!(solo_create_outcome(300, "Multiple Choices"), Err("solo create: HTTP 300 Multiple Choices".to_string()));
    assert_eq!(solo_create_outcome(199, "<unknown status code>"), Err("solo create: HTTP 199 <unknown status code>".to_string()));
}

#[test]
fn solo_sign_in_steps() {
    assert!(matches!(solo_step(200), SoloStep::ReadToken));
    assert!(matches!(solo_step(404), SoloStep::CreateOwner));
    assert!(matches!(solo_step(403), SoloStep::Fail(m) if m == "Solo sign-in is disabled on this server"));
    assert!(matches!(solo_step(500), SoloStep::Fail(m) if m == "solo sign-in: HTTP 500"));
    assert_eq!(solo_create_email("octos"), "octos@octos.local");
    assert_eq!(solo_owner(Some("u1".into()), Some("p1".into()), "f"), "u1");
    assert_eq!(solo_owner(None, Some("p1".into()), "f"), "p1");
    assert_eq!(solo_owner(None, None, "f"), "f");
}

#[test]
fn version_probe_and_workspace_checks() {
    assert_eq!(version_warnings(Some("2.0"), Some("other")), (true, true));
    assert_eq!(version_warnings(Some("1.4.2"), Some("octos")), (false, false));
    assert_eq!(version_warnings(None, None), (false, false));
    assert_eq!(workspace_cwd(Some("/".into())), None);
    assert_eq!(workspace_cwd(Some("/home/a".into())), Some("/home/a".to_string()));
}

// ---------------------------------------------------------------- connection

#[test]
fn cursors_are_read_from_json() {
    let c = cursor_from_json(&obj(vec![("stream", JsonValue::Str("main".into())), ("seq", num("7"))])).unwrap();
    assert!(c.stream == "main" && c.seq == 7);
    let c = cursor_from_json(&JsonValue::Array(vec![JsonValue::Str("s".into()), num("3")])).unwrap();
    assert!(c.stream == "s" && c.seq == 3);
    assert!(cursor_from_json(&obj(vec![("stream", JsonValue::Str("m".into())), ("seq", num("-1"))])).is_none());
    assert!(cursor_from_json(&obj(vec![("stream", JsonValue::Str("m".into())), ("seq", num("1.5"))])).is_none());
    assert!(cursor_from_json(&obj(vec![("seq", num("1"))])).is_none());
    assert!(cursor_from_json(&obj(vec![("stream", JsonValue::Str("m".into())), ("seq", num("18446744073709551616"))])).is_none());
}

#[test]
fn notifications_are_routed_and_cursors_remembered() {
    let mut last: Option<UiCursor> = None;
    let params = obj(vec![(
        "cursor",
        obj(vec![("stream", JsonValue::Str("main".into())), ("seq", num("9"))]),
    )]);
    assert!(matches!(route_notification("message/delta", &params, &mut last), Inbound::Ephemeral));
    assert!(last.is_none());
    match route_notification("turn/started", &params, &mut last) {
        Inbound::Durable { cursor } => assert_eq!(cursor.map(|c| c.seq), Some(9)),
        Inbound::Ephemeral => panic!("durable expected"),
    }
    assert_eq!(last.as_ref().map(|c| c.seq), Some(9));
    match route_notification("turn/started", &JsonValue::Null, &mut last) {
        Inbound::Durable { cursor } => assert!(cursor.is_none()),
        Inbound::Ephemeral => panic!("durable expected"),
    }
    assert_eq!(last.as_ref().map(|c| c.seq), Some(9));
    let given = UiCursor { stream: "x".into(), seq: 1 };
    assert_eq!(resume_after(Some(given.clone()), &last), Some(given));
    assert_eq!(resume_after(None, &last).map(|c| c.seq), Some(9));
}

#[test]
fn session_open_reply_goes_live_once() {
    let mut st = ConnectionState::Handshaking;
    let reply = obj(vec![("capabilities", obj(vec![("approval.typed.v1", JsonValue::Bool(true))]))]);
    let (caps, announce) = on_session_open_result(&reply, &mut st);
    assert!(caps.typed_approvals && !caps.pane_snapshots);
    assert_eq!(announce, Some(ConnectionState::Live));
    let (_, again) = on_session_open_result(&reply, &mut st);
    assert_eq!(again, None);
    assert_eq!(st, ConnectionState::Live);
}

#[test]
fn reconnects_stay_within_the_budget() {
    let p = reconnect_plan_with(0, 0, 1);
    assert!(p.retry && p.attempt == 1 && p.total_wait_secs == 1);
    assert_eq!(p.announce, ConnectionState::Reconnecting { attempt: 1 });
    let p = reconnect_plan_with(3, 295, 10);
    assert!(!p.retry);
    assert_eq!(p.announce, ConnectionState::Failed);
    let p = reconnect_plan_with(u32::MAX, 0, 0);
    assert_eq!(p.attempt, u32::MAX);
    // The first round's jitter window is [0, 1): no wait at all.
    let p = plan_reconnect(0, 0);
    assert!(p.retry && p.delay_secs == 0 && p.attempt == 1);
    let p = plan_reconnect(10, 0);
    assert!(p.delay_secs <= 30);
}

#[test]
fn frames_map_to_loop_actions() {
    assert_eq!(frame_action(InboundFrame::Text), FrameAction::Dispatch);
    assert_eq!(frame_action(InboundFrame::Ping), FrameAction::ReplyPong);
    assert_eq!(frame_action(InboundFrame::Binary), FrameAction::Ignore);
    assert_eq!(frame_action(InboundFrame::Close), FrameAction::Reconnect);
    assert_eq!(frame_action(InboundFrame::Ended), FrameAction::Reconnect);
}

// ---------------------------------------------------------------- agent

#[test]
fn session_keys_are_made_from_the_chat_id() {
    assert_eq!(OctosUiAgent::make_session_key(ChatSessionId(42)).0, "octos-app:000000000000002a");
    assert_eq!(OctosUiAgent::make_session_key(ChatSessionId(u64::MAX)).0, "octos-app:ffffffffffffffff");
    assert_ne!(OctosUiAgent::make_session_key(ChatSessionId(1)).0, OctosUiAgent::make_session_key(ChatSessionId(16)).0);
}

#[test]
fn agent_tracks_sessions_prompts_and_turns() {
    let mut a = OctosUiAgent::new();
    let mut store = AppState::new();
    let sid = ChatSessionId(1);
    match a.create_session(sid) {
        AgentCommand::OpenSession { session_id } => assert_eq!(session_id.0, "octos-app:0000000000000001"),
        _ => panic!("open expected"),
    }
    assert!(!a.is_session_ready(sid));
    let out = a.translate(&mut store, TransportEvent::SessionOpened { session_id: OctosUiAgent::make_session_key(sid) });
    assert!(matches!(out.as_slice(), [AgentEvent::SessionReady { session_id }] if *session_id == sid));
    assert!(a.is_session_ready(sid));

    assert!(a.send_prompt(ChatSessionId(99), PromptId(5), TurnId(50), "lost").is_none());
    match a.send_prompt(sid, PromptId(7), TurnId(70), "hello") {
        Some(AgentCommand::StartTurn { turn_id, text, .. }) => {
            assert_eq!(turn_id, TurnId(70));
            assert_eq!(text, "hello");
        }
        _ => panic!("start expected"),
    }
    assert!(matches!(a.cancel_prompt(PromptId(7)), Some(AgentCommand::InterruptTurn { turn_id, .. }) if turn_id == TurnId(70)));
    assert!(a.cancel_prompt(PromptId(8)).is_none());

    let delta = UiNotification::MessageDelta(MessageDeltaEvent {
        session_id: OctosUiAgent::make_session_key(sid),
        turn_id: TurnId(70),
        text: "hi".into(),
    });
    let out = a.translate(&mut store, TransportEvent::EphemeralNotification { payload: delta });
    assert!(matches!(out.as_slice(), [AgentEvent::TextDelta { prompt_id, text }] if *prompt_id == PromptId(7) && text == "hi"));

    let done = UiNotification::TurnCompleted(TurnCompletedEvent {
        session_id: OctosUiAgent::make_session_key(sid),
        turn_id: TurnId(70),
        cursor: None,
    });
    let out = a.translate(&mut store, TransportEvent::DurableNotification { payload: done, cursor: None });
    assert!(matches!(out.as_slice(), [AgentEvent::TurnComplete { prompt_id }] if *prompt_id == PromptId(7)));
    assert!(a.cancel_prompt(PromptId(7)).is_none());

    a.send_prompt(sid, PromptId(8), TurnId(80), "again");
    let err = UiNotification::TurnError(TurnErrorEvent {
        session_id: OctosUiAgent::make_session_key(sid),
        turn_id: TurnId(80),
        code: "E1".into(),
        message: "bad".into(),
    });
    let out = a.translate(&mut store, TransportEvent::DurableNotification { payload: err, cursor: None });
    assert!(matches!(out.as_slice(), [AgentEvent::PromptError { error, .. }] if error == "E1: bad"));
}

#[test]
fn rpc_errors_reach_the_session_or_the_prompt() {
    let mut a = OctosUiAgent::new();
    let mut store = AppState::new();
    let ev = |m: &str| TransportEvent::RpcError {
        request_id: "1".into(),
        method: m.into(),
        code: -32000,
        message: "bad".into(),
    };
    assert!(a.translate(&mut store, ev("session/open")).is_empty());
    a.create_session(ChatSessionId(3));
    let out = a.translate(&mut store, ev("session/open"));
    assert!(matches!(out.as_slice(), [AgentEvent::SessionError { error, .. }] if error == "session/open: bad (-32000)"));
    a.send_prompt(ChatSessionId(3), PromptId(4), TurnId(40), "x");
    let out = a.translate(&mut store, ev("turn/start"));
    assert!(matches!(out.as_slice(), [AgentEvent::PromptError { prompt_id, .. }] if *prompt_id == PromptId(4)));
}

#[test]
fn connection_edges_show_toasts() {
    let (ev, t) = connection_transition(ConnectionState::Reconnecting { attempt: 1 }, ConnectionState::Live);
    assert_eq!(ev, Some(ConnectionEvent::Connected));
    let t = t.unwrap();
    assert!(t.kind == ToastKind::ReconnectSuccess && t.message == "Reconnected");
    let (ev, t) = connection_transition(ConnectionState::Live, ConnectionState::Reconnecting { attempt: 2 });
    assert_eq!(ev, Some(ConnectionEvent::Reconnecting));
    assert_eq!(t.unwrap().message, "Reconnecting (attempt 2)");
    let (_, t) = connection_transition(ConnectionState::Dialing, ConnectionState::Live);
    assert_eq!(t.unwrap().message, "Connected");
    let (ev, t) = connection_transition(ConnectionState::Live, ConnectionState::Failed);
    assert_eq!(ev, Some(ConnectionEvent::Offline));
    let t = t.unwrap();
    assert!(t.kind == ToastKind::Error && t.message == "Connection failed; restart to retry");
    let (ev, t) = connection_transition(ConnectionState::Live, ConnectionState::Live);
    assert!(ev.is_none() && t.is_none());
    let (_, t) = connection_transition(ConnectionState::Idle, ConnectionState::Dialing);
    assert!(t.is_none());

    let mut a = OctosUiAgent::new();
    let mut store = AppState::new();
    a.translate(&mut store, TransportEvent::ConnectionState(ConnectionState::Dialing));
    a.translate(&mut store, TransportEvent::ConnectionState(ConnectionState::Live));
    assert_eq!(store.connection, StoreState::Connected);
    assert_eq!(store.toasts.len(), 1);
    assert_eq!(store.toasts.get(0).message, "Connected");
    let _ = SessionKey::new("a", "b");
}

#[test]
fn ws_scheme_follows_the_base_url() {
    assert_eq!(ws_scheme("https"), Ok("wss"));
    assert_eq!(ws_scheme("wss"), Ok("wss"));
    assert_eq!(ws_scheme("http"), Ok("ws"));
    assert_eq!(ws_scheme("ws"), Ok("ws"));
    assert_eq!(ws_scheme("ftp"), Err("unsupported scheme: ftp".to_string()));
}

#[test]
fn upgrade_headers_carry_token_profile_and_features() {
    let h = upgrade_headers("tk", "p1", &Capabilities::requested());
    assert_eq!(h[0], ("authorization".to_string(), "Bearer tk".to_string()));
    assert_eq!(h[1], ("x-profile-id".to_string(), "p1".to_string()));
    assert_eq!(
        h[2],
        (
            "x-octos-ui-features".to_string(),
            "approval.typed.v1, pane.snapshots.v1, session.workspace_cwd.v1, context.lifecycle.v1"
                .to_string()
        )
    );
    let bare = upgrade_headers("tk", "p1", &Capabilities::default());
    assert_eq!(bare.len(), 3);
    assert_eq!(bare[2].1, "context.lifecycle.v1");
}

#[test]
fn handshake_value_lists_context_lifecycle_once() {
    assert_eq!(
        Capabilities::requested().handshake_header_value(),
        "approval.typed.v1, pane.snapshots.v1, session.workspace_cwd.v1, context.lifecycle.v1"
    );
    let advertised = Capabilities::from_supported_features(&["context.lifecycle.v1", "pane.snapshots.v1"]);
    assert_eq!(advertised.feature_header_value(), "pane.snapshots.v1, context.lifecycle.v1");
    assert_eq!(advertised.handshake_header_value(), "pane.snapshots.v1, context.lifecycle.v1");
}

#[test]
fn replies_are_matched_to_their_requests() {
    let mut reg = RpcRegistry::new();
    assert!(reg.can_issue());
    let a = reg.issue("session/open");
    let b = reg.issue("turn/start");
    assert_eq!((a, b), (1, 2));
    assert_eq!(reg.take(2).as_deref(), Some("turn/start"));
    assert_eq!(reg.take(2), None);
    assert_eq!(reg.take(a).as_deref(), Some("session/open"));

    let mut st = ConnectionState::Handshaking;
    let result = obj(vec![
        ("opened", obj(vec![("session_id", JsonValue::Str("k1".into()))])),
        ("capabilities", obj(vec![("supported_features", JsonValue::Array(vec![JsonValue::Str("pane.snapshots.v1".into())]))])),
    ]);
    let evs = on_rpc_result("session/open", &result, &mut st);
    assert_eq!(evs.len(), 3);
    assert!(matches!(&evs[0], TransportEvent::CapabilityNegotiated(c) if c.pane_snapshots && !c.typed_approvals));
    assert!(matches!(&evs[1], TransportEvent::SessionOpened { session_id } if session_id.0 == "k1"));
    assert!(matches!(&evs[2], TransportEvent::ConnectionState(ConnectionState::Live)));
    assert_eq!(on_rpc_result("session/open", &result, &mut st).len(), 2);
    assert!(on_rpc_result("session/open", &JsonValue::Null, &mut st).is_empty());
    let accepted = obj(vec![("turn_id", JsonValue::Str("t1".into()))]);
    let evs = on_rpc_result("turn/start", &accepted, &mut st);
    assert!(matches!(evs.as_slice(), [TransportEvent::TurnResult]));
    let evs = on_rpc_result("turn/interrupt", &accepted, &mut st);
    assert!(matches!(evs.as_slice(), [TransportEvent::TurnResult]));
    assert!(on_rpc_result("turn/start", &JsonValue::Null, &mut st).is_empty());
    assert!(on_rpc_result("session/list", &accepted, &mut st).is_empty());
    assert!(matches!(st, ConnectionState::Live));
}

#[test]
fn frames_are_sorted_by_method_and_id() {
    let s = |x: &str| JsonValue::Str(x.to_string());
    let note = obj(vec![("method", s("turn/started")), ("params", obj(vec![("session_id", s("k"))]))]);
    match classify_frame(&note) {
        Envelope::Notification { method, params } => {
            assert_eq!(method, "turn/started");
            assert!(same_json(&params, &obj(vec![("session_id", s("k"))])));
        }
        _ => panic!("expected a notification"),
    }
    match classify_frame(&obj(vec![("method", s("warning"))])) {
        Envelope::Notification { params, .. } => assert!(matches!(params, JsonValue::Null)),
        _ => panic!("expected a notification"),
    }
    assert!(matches!(
        classify_frame(&obj(vec![("method", s("ping")), ("id", num("3"))])),
        Envelope::ServerRequest { method } if method == "ping"
    ));
    let reply = obj(vec![("id", num("7")), ("result", obj(vec![("ok", JsonValue::Bool(true))]))]);
    assert!(matches!(
        classify_frame(&reply),
        Envelope::Reply { id: 7, result } if same_json(&result, &obj(vec![("ok", JsonValue::Bool(true))]))
    ));
    assert!(matches!(
        classify_frame(&obj(vec![("id", num("8"))])),
        Envelope::Reply { id: 8, result: JsonValue::Null }
    ));
    let err = obj(vec![
        ("id", num("9")),
        ("error", obj(vec![("code", num("-32601")), ("message", s("no such method"))])),
    ]);
    assert!(matches!(
        classify_frame(&err),
        Envelope::ErrorReply { id: 9, code: -32601, message } if message == "no such method"
    ));
    assert!(matches!(
        classify_frame(&obj(vec![("id", num("9")), ("error", obj(vec![]))])),
        Envelope::ErrorReply { id: 9, code: 0, message } if message.is_empty()
    ));
    assert!(matches!(classify_frame(&obj(vec![("id", s("9"))])), Envelope::Malformed));
    assert!(matches!(classify_frame(&obj(vec![("id", num("-1"))])), Envelope::Malformed));
    assert!(matches!(classify_frame(&JsonValue::Null), Envelope::Malformed));
}

#[test]
fn dial_loop_steps() {
    let mut d = DialState::new();
    assert_eq!(d.step(DialEvent::RequestRefused), (Some(ConnectionState::Failed), DialAction::Stop));
    let (announce, action) = d.step(DialEvent::ConnectFailed);
    assert_eq!(announce, Some(ConnectionState::Reconnecting { attempt: 1 }));
    assert_eq!(action, DialAction::Redial { delay_secs: 0 });
    assert_eq!((d.attempt, d.total_wait_secs), (1, 0));
    let (announce, action) = d.step(DialEvent::LiveEnded(LiveStep::Reconnect));
    assert_eq!(announce, Some(ConnectionState::Reconnecting { attempt: 2 }));
    assert!(matches!(action, DialAction::Redial { delay_secs } if delay_secs < 2));
    assert_eq!(d.step(DialEvent::Connected), (Some(ConnectionState::Handshaking), DialAction::RunLive));
    assert_eq!((d.attempt, d.total_wait_secs), (0, 0));
    assert_eq!(d.step(DialEvent::LiveEnded(LiveStep::Disconnect)), (None, DialAction::Stop));
    let mut spent = DialState { attempt: 9, total_wait_secs: 300 };
    loop {
        let (announce, action) = spent.step(DialEvent::ConnectFailed);
        if action == DialAction::Stop {
            assert_eq!(announce, Some(ConnectionState::Failed));
            assert!(spent.total_wait_secs > 300);
            break;
        }
        assert_eq!(spent.total_wait_secs, 300);
    }
}

#[test]
fn live_loop_exits_on_commands_and_failed_sends() {
    assert_eq!(on_command(Some(CommandKind::Request)), LiveStep::Continue);
    assert_eq!(on_command(Some(CommandKind::Disconnect)), LiveStep::Disconnect);
    assert_eq!(on_command(None), LiveStep::Disconnect);
    assert_eq!(on_send(true), LiveStep::Continue);
    assert_eq!(on_send(false), LiveStep::Reconnect);
}

#[test]
fn deleting_a_session_drops_it_at_once() {
    let mut s = AppState::new();
    s.sessions.insert_front(SessionKey("a".into()), Session::new(SessionKey("a".into()), "p", "A", 0));
    s.current_session = Some(SessionKey("a".into()));
    forget_session(&mut s, &SessionKey("a".into()));
    assert!(s.sessions.get(&SessionKey("a".into())).is_none());
    assert!(s.current_session.is_none());
}

#[test]
fn chat_rows_and_streaming_source() {
    let mut d = ChatData::new();
    d.begin_turn("q");
    assert_eq!(d.item_count(), 2);
    assert!(matches!(d.item_kind(0), ItemKind::HiddenPrompt));
    assert!(matches!(d.item_kind(1), ItemKind::StreamingReply));
    assert_eq!(d.streaming_source(), "…");
    d.push_text_delta("x```runsplash\nView{");
    assert_eq!(d.streaming_source(), "x\u{1F6E0} Building app UI\u{2026}");
    let reply = d.take_reply();
    d.finish_turn(reply, true);
    d.begin_turn("q2");
    let r = d.take_reply();
    d.finish_turn(r, true);
    assert!(matches!(d.item_kind(1), ItemKind::Reply { show_actions: false }));
    d.begin_turn("q3");
    d.push_text_delta("plain");
    let r = d.take_reply();
    d.finish_turn(r, true);
    assert!(matches!(d.item_kind(4), ItemKind::Reply { show_actions: true }));
    assert!(matches!(d.item_kind(9), ItemKind::Missing));
    assert_eq!(ChatData::load_from_disk().len(), 0);
}
