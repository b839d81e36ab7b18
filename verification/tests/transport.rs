use octos_app::backoff::{millis_from_nanos, next_backoff, reconnect_delay_max, wall_clock_millis};
use octos_app::capability::Capabilities;
use octos_app::connection::{is_ephemeral_method, upgrade_headers, MESSAGE_DELTA, TOOL_STARTED};
use octos_app::cursor::CursorStore;
use octos_app::json::JsonValue;
use octos_app::protocol::{SessionKey, UiCursor};
use std::time::Duration;

fn s(x: &str) -> JsonValue {
    JsonValue::Str(x.to_string())
}

fn obj(members: Vec<(&str, JsonValue)>) -> JsonValue {
    JsonValue::Object(members.into_iter().map(|(k, v)| (k.to_string(), v)).collect())
}

#[test]
fn clock_millis_truncate_and_saturate() {
    assert_eq!(millis_from_nanos(Some(1_500_999_999)), 1500);
    assert_eq!(millis_from_nanos(Some(999_999)), 0);
    assert_eq!(millis_from_nanos(None), 0);
    assert_eq!(millis_from_nanos(Some(u128::MAX)), i64::MAX);
    assert!(wall_clock_millis() >= 0);
}

#[test]
fn backoff_attempt_zero_is_immediate() {
    assert_eq!(next_backoff(0), Duration::ZERO);
}

#[test]
fn backoff_is_capped_at_thirty_seconds() {
    for attempt in 1..=20 {
        assert!(next_backoff(attempt) <= reconnect_delay_max());
    }
}

#[test]
fn ephemeral_helper_only_message_delta() {
    assert!(is_ephemeral_method(MESSAGE_DELTA));
    assert!(!is_ephemeral_method(TOOL_STARTED));
}

#[test]
fn parse_from_supported_features_array() {
    let v = obj(vec![(
        "capabilities",
        obj(vec![(
            "supported_features",
            JsonValue::Array(vec![
                s("approval.typed.v1"),
                s("pane.snapshots.v1"),
                s("session.workspace_cwd.v1"),
                s("future.v1"),
            ]),
        )]),
    )]);
    let caps = Capabilities::parse(&v);
    assert!(caps.typed_approvals);
    assert!(caps.pane_snapshots);
    assert!(caps.session_workspace_cwd);
    assert!(caps.raw.contains_key("future.v1"));
}

#[test]
fn parse_from_bool_map() {
    let v = obj(vec![(
        "capabilities",
        obj(vec![
            ("approval.typed.v1", JsonValue::Bool(true)),
            ("pane.snapshots.v1", JsonValue::Bool(false)),
            ("session.workspace_cwd.v1", JsonValue::Bool(true)),
        ]),
    )]);
    let caps = Capabilities::parse(&v);
    assert!(caps.typed_approvals);
    assert!(!caps.pane_snapshots);
    assert!(caps.session_workspace_cwd);
}

#[test]
fn requested_feature_header_is_deterministic() {
    assert_eq!(
        Capabilities::requested().feature_header_value(),
        "approval.typed.v1, pane.snapshots.v1, session.workspace_cwd.v1"
    );
}

#[test]
fn build_request_sends_requested_capability_header() {
    let headers = upgrade_headers("tk", "p1", &Capabilities::requested());
    let features = headers
        .iter()
        .find(|(name, _)| name == "x-octos-ui-features")
        .map(|(_, value)| value.as_str());
    assert_eq!(
        features,
        Some("approval.typed.v1, pane.snapshots.v1, session.workspace_cwd.v1, context.lifecycle.v1")
    );
}

#[test]
fn store_set_get_delete_round_trip() {
    let key = SessionKey::new("cli", "demo");
    let cur = UiCursor { stream: "main".into(), seq: 7 };
    let mut st = CursorStore::new();
    assert!(st.get(&key).is_none());
    st.set(key.clone(), cur.clone());
    assert_eq!(st.get(&key), Some(&cur));
    st.delete(&key);
    assert!(st.get(&key).is_none());
}
