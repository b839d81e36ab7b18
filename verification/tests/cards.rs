use octos_app::a2app::{
    app_splash_followup, app_splash_prompt, apply_card_event, apply_notify, defer_unclosed_runsplash,
    extract_card_name, extract_runsplash_body, neutralize_bare_view, notify_payload_args,
    resolve_a2app_card, split_notify_event, strip_card_name_line, substitute_state_keys, try_apply_notify,
    tag_notify_calls, CardState, CardStates, SPLASH_FOLLOWUP_HEAD, SPLASH_PROMPT_HEAD,
    SPLASH_PROMPT_MID,
};
use octos_app::json::JsonValue;
use octos_app::strmap::StrMap;

fn card(pairs: &[(&str, &str)]) -> CardState {
    let mut c: CardState = StrMap::new();
    for (k, v) in pairs {
        c.insert(k.to_string(), v.to_string());
    }
    c
}

#[test]
fn notify_calls_are_tagged_with_the_card_id() {
    assert_eq!(
        tag_notify_calls("Button{ on_click: || agent.notify(\"inc\", {}) }", 3),
        "Button{ on_click: || agent.notify(\"3:inc\", {}) }"
    );
    assert_eq!(tag_notify_calls("agent.notify('set', {})", 0), "agent.notify('0:set', {})");
    assert_eq!(tag_notify_calls("Label{ text: \"hi\" }", 9), "Label{ text: \"hi\" }");
}

#[test]
fn bare_view_is_neutralized_but_named_views_stay() {
    assert_eq!(
        neutralize_bare_view("View{ a: 1 } RoundedView{ }"),
        "SolidView{show_bg: false  a: 1 } RoundedView{ }"
    );
    assert_eq!(neutralize_bare_view("SolidView{ }"), "SolidView{ }");
}

#[test]
fn state_keys_are_substituted_and_missing_keys_read_zero() {
    let st = card(&[("count", "5")]);
    assert_eq!(
        substitute_state_keys("Count: {{state.count}} {{state. mood }}", &st),
        "Count: 5 0"
    );
    assert_eq!(substitute_state_keys("a {{state.x", &st), "a {{state.x");
}

#[test]
fn card_name_is_slugged_and_only_read_from_the_top() {
    assert_eq!(extract_card_name("// name: Weather SF!\nView{}").as_deref(), Some("weather-sf"));
    assert_eq!(extract_card_name("//name: stocks\n").as_deref(), Some("stocks"));
    assert_eq!(extract_card_name("RoundedView{}\n// name: late"), None);
    assert_eq!(strip_card_name_line("// name: a\nView{}"), "View{}");
}

#[test]
fn runsplash_body_and_deferral() {
    assert_eq!(
        extract_runsplash_body("hi\n```runsplash\nView{}\n```\n").as_deref(),
        Some("View{}")
    );
    assert_eq!(extract_runsplash_body("```runsplash\nView{}"), None);
    assert_eq!(
        defer_unclosed_runsplash("a```runsplash\nView{"),
        "a\u{1F6E0} Building app UI\u{2026}"
    );
    let closed = "a```runsplash\nView{}\n```";
    assert_eq!(defer_unclosed_runsplash(closed), closed);
}

#[test]
fn resolve_touches_only_runsplash_blocks() {
    let st = card(&[("count", "4")]);
    let text = "x {{state.count}}\n```runsplash\nLabel{text: \"{{state.count}}\"} agent.notify(\"inc\")\n```";
    assert_eq!(
        resolve_a2app_card(text, 2, &st),
        "x {{state.count}}\n```runsplash\nLabel{text: \"4\"} agent.notify(\"2:inc\")\n```"
    );
    // A plain message comes back as it was.
    assert_eq!(resolve_a2app_card("just {{state.count}}", 2, &st), "just {{state.count}}");
}

#[test]
fn splash_prompts_wrap_the_request() {
    assert_eq!(app_splash_followup("hi"), format!("{SPLASH_FOLLOWUP_HEAD}hi"));
    assert_eq!(
        app_splash_prompt("hi", "MANUAL"),
        format!("{SPLASH_PROMPT_HEAD}MANUAL{SPLASH_PROMPT_MID}hi")
    );
}

#[test]
fn notify_events_route_to_their_card_lowercased() {
    let (id, ev) = split_notify_event("7:RESET");
    assert_eq!(id, Some(7));
    assert_eq!(ev, "reset");
    let (id, ev) = split_notify_event("x:Inc");
    assert_eq!(id, None);
    assert_eq!(ev, "inc");
    let (id, ev) = split_notify_event("Plus");
    assert_eq!(id, None);
    assert_eq!(ev, "plus");
}

#[test]
fn notify_payload_defaults_to_the_count_key() {
    let (k, v) = notify_payload_args(&JsonValue::Null);
    assert_eq!(k, "count");
    assert_eq!(v, None);
    let p = JsonValue::Object(vec![
        ("key".to_string(), JsonValue::Str("mood".into())),
        ("value".to_string(), JsonValue::Str("happy".into())),
    ]);
    let (k, v) = notify_payload_args(&p);
    assert_eq!(k, "mood");
    assert_eq!(v.as_deref(), Some("happy"));
}

#[test]
fn card_events_step_reset_and_set() {
    let mut c = card(&[]);
    assert!(apply_card_event(&mut c, "inc", "count", None));
    assert_eq!(c.get("count").map(String::as_str), Some("1"));
    assert!(apply_card_event(&mut c, "minus", "count", None));
    assert!(apply_card_event(&mut c, "dec", "count", None));
    assert_eq!(c.get("count").map(String::as_str), Some("-1"));
    assert!(apply_card_event(&mut c, "reset", "count", None));
    assert_eq!(c.get("count").map(String::as_str), Some("0"));
    assert!(apply_card_event(&mut c, "set", "mood", Some("calm".into())));
    assert_eq!(c.get("mood").map(String::as_str), Some("calm"));
    assert!(!apply_card_event(&mut c, "set", "mood", None));
    assert!(!apply_card_event(&mut c, "noop", "count", None));
    // A non-numeric value counts as zero.
    let mut d = card(&[("count", "abc")]);
    assert!(apply_card_event(&mut d, "add", "count", None));
    assert_eq!(d.get("count").map(String::as_str), Some("1"));
}

#[test]
fn inc_then_dec_restores_the_counter() {
    let mut c = card(&[("count", "41")]);
    apply_card_event(&mut c, "inc", "count", None);
    assert_eq!(c.get("count").map(String::as_str), Some("42"));
    apply_card_event(&mut c, "dec", "count", None);
    assert_eq!(c.get("count").map(String::as_str), Some("41"));
}

#[test]
fn try_notify_refuses_to_step_past_the_counter_range() {
    let mut cards: CardStates = CardStates::new();
    cards.insert(1, card(&[("count", "9223372036854775807")]));
    cards.insert(2, card(&[("n", "-9223372036854775808")]));
    let key_n = JsonValue::Object(vec![("key".to_string(), JsonValue::Str("n".to_string()))]);
    assert_eq!(try_apply_notify(&mut cards, "1:Inc", &JsonValue::Null), None);
    assert_eq!(try_apply_notify(&mut cards, "2:minus", &key_n), None);
    assert_eq!(cards.get(&1).unwrap().get("count").map(String::as_str), Some("9223372036854775807"));
    assert_eq!(try_apply_notify(&mut cards, "1:dec", &JsonValue::Null), Some(true));
    assert_eq!(cards.get(&1).unwrap().get("count").map(String::as_str), Some("9223372036854775806"));
    assert_eq!(try_apply_notify(&mut cards, "2:plus", &key_n), Some(true));
    assert_eq!(cards.get(&2).unwrap().get("n").map(String::as_str), Some("-9223372036854775807"));
    assert_eq!(try_apply_notify(&mut cards, "3:reset", &JsonValue::Null), Some(true));
    assert_eq!(try_apply_notify(&mut cards, "wave", &JsonValue::Null), Some(false));
}

#[test]
fn notify_creates_the_card_state_and_leaves_others() {
    let mut cards: CardStates = CardStates::new();
    cards.insert(2, card(&[("count", "9")]));
    assert!(apply_notify(&mut cards, "1:inc", &JsonValue::Null));
    assert_eq!(cards.get(&1).unwrap().get("count").map(String::as_str), Some("1"));
    assert_eq!(cards.get(&2).unwrap().get("count").map(String::as_str), Some("9"));
    assert!(!apply_notify(&mut cards, "inc", &JsonValue::Null));
    assert!(!apply_notify(&mut cards, "3:wave", &JsonValue::Null));
    assert!(cards.contains_key(&3));
}

#[test]
fn neutralizing_twice_changes_nothing_more() {
    let once = neutralize_bare_view("View{a}RoundedView{b} (View{c})xView{");
    assert_eq!(once, "SolidView{show_bg: false a}RoundedView{b} (SolidView{show_bg: false c})xView{");
    assert_eq!(neutralize_bare_view(&once), once);
}
