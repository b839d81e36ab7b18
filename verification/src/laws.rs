//! Properties that span several operations: what the reducer keeps and
//! changes for whole classes of events, what two calls in a row give, and
//! round trips of the text encodings.

use vstd::prelude::*;

use crate::a2app::{
    counter_value, is_ascii_alpha, neutralize_from, notify_dq_pat, notify_pat, notify_sq_pat, spec_event_value,
    spec_neutralize, spec_split_event, spec_tag_notify, view_pat, CardState,
};
use crate::approvals::{count_pending, is_pending};
use crate::capability::{
    extra_features, get2, has_name, is_known_feature, opt_jview, str_items, Capabilities, APPROVAL_TYPED_V1,
    PANE_SNAPSHOTS_V1, SESSION_WORKSPACE_CWD_V1,
};
use crate::cursor::CursorStore;
use crate::json::{JsonValue, JsonView};
use crate::notification::{TaskRuntimeState, TaskUpdatedEvent, UiNotification};
use crate::numfmt::{all_digits, decimal, digit_char, digits_value, is_digit, parse_i64, signed_decimal};
use crate::protocol::UiCursor;
use crate::reducer::{connection_state_of, reduce_post, resume_cursor, Event, SnapshotEvent};
use crate::search::{
    contains, find, find_from, lemma_find_from_bounds, lemma_find_skip, matches_at, replace_all, trim,
};
use crate::keys::key_lt;
use crate::state::{has_open_task, has_open_tool, AppState, ConnectionEvent, NavigationEvent};
use crate::strmap::{has_key, lemma_lookup_at, lemma_same_keys_same_order};

verus! {

// ---------------------------------------------------------------- numbers

proof fn lemma_digit_value(d: int)
    requires
        0 <= d < 10,
    ensures
        crate::numfmt::digit_value(digit_char(d)) == d,
        is_digit(digit_char(d)),
{
}

proof fn lemma_decimal_digits(n: nat)
    ensures
        decimal(n).len() > 0,
        all_digits(decimal(n)),
        digits_value(decimal(n)) == n,
    decreases n,
{
    if n < 10 {
        let d = decimal(n);
        lemma_digit_value(n as int);
        assert(d.drop_last() =~= Seq::<char>::empty());
        assert(d.last() == digit_char(n as int));
        assert(digits_value(d.drop_last()) == 0);
        assert(digits_value(d) == digits_value(d.drop_last()) * 10 + crate::numfmt::digit_value(d.last()));
        assert(is_digit(d[0]));
    } else {
        lemma_decimal_digits(n / 10);
        let d = decimal(n);
        assert(d.drop_last() =~= decimal(n / 10));
        lemma_digit_value((n % 10) as int);
        assert forall|i: int| 0 <= i < d.len() implies is_digit(#[trigger] d[i]) by {
            if i < d.len() - 1 {
                assert(d[i] == decimal(n / 10)[i]);
            }
        }
        assert(d.last() == digit_char((n % 10) as int));
        assert(digits_value(d) == digits_value(decimal(n / 10)) * 10 + crate::numfmt::digit_value(d.last()));
        assert(n == (n / 10) * 10 + n % 10) by (nonlinear_arith);
    }
}

/// The decimal text of any `i64` parses back to it.
pub proof fn law_decimal_round_trip(n: i64)
    ensures
        parse_i64(signed_decimal(n as int)) == Some(n),
{
    let s = signed_decimal(n as int);
    if n < 0 {
        let m = (-(n as int)) as nat;
        lemma_decimal_digits(m);
        assert(s.drop_first() =~= decimal(m));
        assert(s[0] == '-');
    } else {
        lemma_decimal_digits(n as nat);
        assert(is_digit(s[0]));
    }
}

/// A counter stepped up and then down by card events is back where it
/// was (while it stays within `i64`).
pub proof fn law_inc_then_dec_restores(c0: CardState, c1: CardState, c2: CardState, key: Seq<char>)
    requires
        i64::MIN <= counter_value(c0, key) < i64::MAX,
        c1.spec_get(key) matches Some(v) && v@ == signed_decimal(counter_value(c0, key) + 1),
        c2.spec_get(key) matches Some(w) && w@ == signed_decimal(counter_value(c1, key) - 1),
    ensures
        counter_value(c1, key) == counter_value(c0, key) + 1,
        counter_value(c2, key) == counter_value(c0, key),
{
    let n0 = counter_value(c0, key);
    law_decimal_round_trip((n0 + 1) as i64);
    law_decimal_round_trip(n0 as i64);
}

// ---------------------------------------------------------------- reducer

/// A notification that arrives with a cursor leaves its session's resume
/// cursor at that cursor, or at the notification's own cursor when it
/// carries one (turn completion, lossy replay).
pub proof fn law_cursor_follows_notification(s0: AppState, s1: AppState, c: UiCursor, n: UiNotification, now: i64)
    requires
        reduce_post(s0, s1, Event::Protocol { cursor: Some(c), notification: n }, now),
    ensures
        s1.cursor.spec_get(n.session().0@) == resume_cursor(Some(c), n),
        resume_cursor(Some(c), n) is Some,
{
}

/// A notification without a cursor that carries none itself (streamed
/// text among them) leaves every resume cursor as it was.
pub proof fn law_no_cursor_no_advance(s0: AppState, s1: AppState, n: UiNotification, now: i64)
    requires
        reduce_post(s0, s1, Event::Protocol { cursor: None, notification: n }, now),
        resume_cursor(None, n) is None,
    ensures
        s1.cursor == s0.cursor,
{
}

/// Streamed text never moves a resume cursor.
pub proof fn law_message_delta_keeps_cursor(s0: AppState, s1: AppState, n: UiNotification, now: i64)
    requires
        n is MessageDelta,
        reduce_post(s0, s1, Event::Protocol { cursor: None, notification: n }, now),
    ensures
        s1.cursor == s0.cursor,
{
}

/// A completed turn's own cursor wins over the one it arrived with.
pub proof fn law_turn_cursor_wins(s0: AppState, s1: AppState, outer: Option<UiCursor>, n: UiNotification, now: i64)
    requires
        n matches UiNotification::TurnCompleted(e) && e.cursor is Some,
        reduce_post(s0, s1, Event::Protocol { cursor: outer, notification: n }, now),
    ensures
        s1.cursor.spec_get(n.session().0@) == n->TurnCompleted_0.cursor,
{
}

/// After a tool completes, the session's active-task flag says exactly
/// whether a tool call or task of that session is still open.
pub proof fn law_active_flag_tracks_open_work(
    s0: AppState,
    s1: AppState,
    c: Option<UiCursor>,
    n: UiNotification,
    now: i64,
)
    requires
        n is ToolCompleted || n is TurnCompleted || n is TurnError,
        reduce_post(s0, s1, Event::Protocol { cursor: c, notification: n }, now),
        s0.sessions.spec_get(n.session().0@) is Some,
    ensures
        s1.sessions.spec_get(n.session().0@) matches Some(s) && s.has_active_task == (has_open_tool(
            s1.tool_calls.seq(),
            n.session().0@,
        ) || has_open_task(s1.tasks.seq(), n.session().0@)),
{
}

/// A decided, cancelled or auto-resolved approval leaves one pending card
/// fewer when its card was pending, and as many otherwise.
pub proof fn law_resolution_collapses_pending(
    s0: AppState,
    s1: AppState,
    c: Option<UiCursor>,
    n: UiNotification,
    now: i64,
)
    requires
        n is ApprovalDecided || n is ApprovalCancelled || n is ApprovalAutoResolved,
        reduce_post(s0, s1, Event::Protocol { cursor: c, notification: n }, now),
    ensures
        ({
            let id = match n {
                UiNotification::ApprovalDecided(e) => e.approval_id.0,
                UiNotification::ApprovalCancelled(e) => e.approval_id.0,
                UiNotification::ApprovalAutoResolved(e) => e.approval_id.0,
                _ => 0,
            };
            count_pending(s1.approvals.by_id.seq()) == count_pending(s0.approvals.by_id.seq()) - if (
            s0.approvals.by_id.spec_get(id) matches Some(card) && is_pending(card)) {
                1int
            } else {
                0int
            }
        }),
{
}

/// Logging out is a fresh slate for the screen and the transient state,
/// and keeps everything durable.
pub proof fn law_logout_fresh_slate(s0: AppState, s1: AppState, now: i64)
    requires
        reduce_post(s0, s1, Event::Navigation(NavigationEvent::Logout), now),
    ensures
        s1.navigation is Login,
        s1.current_session is None,
        s1.ephemeral.streaming_text.seq().len() == 0,
        s1.ephemeral.thinking_text.seq().len() == 0,
        s1.toasts.seq().len() == 0,
        s1.sessions == s0.sessions,
        s1.cursor == s0.cursor,
        s1.turns == s0.turns,
        s1.approvals == s0.approvals,
        s1.connection == s0.connection,
{
}

/// A removed session is gone with its cursor, and no longer current.
pub proof fn law_session_removed(s0: AppState, s1: AppState, id: crate::protocol::SessionKey, now: i64)
    requires
        reduce_post(s0, s1, Event::Snapshot(SnapshotEvent::SessionRemoved(id)), now),
    ensures
        s1.sessions.spec_get(id.0@) is None,
        s1.cursor.spec_get(id.0@) is None,
        s1.current_session matches Some(k) ==> k.0@ != id.0@,
{
}

/// A connection event sets the shown connection state and nothing else.
pub proof fn law_connection_event(s0: AppState, s1: AppState, e: ConnectionEvent, now: i64)
    requires
        reduce_post(s0, s1, Event::Connection(e), now),
    ensures
        s1.connection == connection_state_of(e),
        s1 == (AppState { connection: s1.connection, ..s0 }),
        (e == ConnectionEvent::Connected) == (s1.connection == crate::state::ConnectionState::Connected),
        (e == ConnectionEvent::Reconnecting) == (s1.connection == crate::state::ConnectionState::Reconnecting),
{
}

/// Showing a toast and then dismissing the oldest takes the queue's first
/// toast, or the new one when the queue was empty: first in, first out.
pub proof fn law_toasts_first_in_first_out(s0: AppState, s1: AppState, s2: AppState, t: crate::toasts::Toast, now: i64)
    requires
        reduce_post(s0, s1, Event::Toast(t), now),
        reduce_post(s1, s2, Event::DismissOldestToast, now),
    ensures
        s0.toasts.seq().len() == 0 ==> s2.toasts.seq().len() == 0,
        s0.toasts.seq().len() > 0 ==> s2.toasts.seq() == s0.toasts.seq().drop_first().push(t),
{
    if s0.toasts.seq().len() > 0 {
        assert(s0.toasts.seq().push(t).drop_first() =~= s0.toasts.seq().drop_first().push(t));
    }
}

// ---------------------------------------------------------------- cursors

/// Setting a session's cursor and then deleting it leaves that session
/// without a cursor and every other session as it was.
pub proof fn law_cursor_set_then_delete(
    s0: CursorStore,
    s1: CursorStore,
    s2: CursorStore,
    key: Seq<char>,
    c: UiCursor,
)
    requires
        forall|k: Seq<char>| #[trigger] s1.cursor_of(k) == if k == key { Some(c) } else { s0.cursor_of(k) },
        forall|k: Seq<char>| #[trigger] s2.cursor_of(k) == if k == key { None } else { s1.cursor_of(k) },
    ensures
        s1.cursor_of(key) == Some(c),
        s2.cursor_of(key) is None,
        forall|k: Seq<char>| k != key ==> #[trigger] s2.cursor_of(k) == s0.cursor_of(k),
{
}

// ---------------------------------------------------------------- cards

/// A message without a ```runsplash block is shown as it is: resolving
/// card state and deferring an unclosed block both leave it unchanged.
pub proof fn law_plain_text_untouched(text: Seq<char>, item_id: nat, state: CardState)
    requires
        !crate::search::contains(text, crate::a2app::rs_pat()),
    ensures
        crate::a2app::spec_resolve(text, item_id, state) == text,
        crate::a2app::spec_defer(text) == text,
        crate::a2app::spec_runsplash_body(text) is None,
{
    let p = crate::a2app::rs_pat();
    crate::search::lemma_find_from_bounds(text, p, 0);
    crate::search::lemma_rfind_bounds(text, p, text.len() - p.len());
}

// ---------------------------------------------------------------- capabilities

/// Two capability sets built from the same advertised feature list agree:
/// parsing a `supported_features` array gives what building from its
/// strings gives.
pub proof fn law_feature_list_determines_caps(
    a: crate::capability::Capabilities,
    b: crate::capability::Capabilities,
    names: Seq<Seq<char>>,
)
    requires
        a.built_from_features(names),
        b.built_from_features(names),
    ensures
        a.typed_approvals == b.typed_approvals,
        a.pane_snapshots == b.pane_snapshots,
        a.session_workspace_cwd == b.session_workspace_cwd,
        forall|q: Seq<char>|
            #[trigger] crate::capability::opt_jview(a.raw.spec_get(q)) == crate::capability::opt_jview(
                b.raw.spec_get(q),
            ),
{
    assert forall|q: Seq<char>|
        #[trigger] crate::capability::opt_jview(a.raw.spec_get(q)) == crate::capability::opt_jview(
            b.raw.spec_get(q),
        ) by {
        assert(crate::capability::opt_jview(a.raw.spec_get(q)) == crate::capability::opt_jview(b.raw.spec_get(q)));
    }
}

/// A character a card name may hold: lower-case ASCII letters, digits and `-`.
pub open spec fn is_slug_char(c: char) -> bool {
    ('a' <= c && c <= 'z') || ('0' <= c && c <= '9') || c == '-'
}

proof fn lemma_slug_char(c: char)
    ensures
        is_slug_char(crate::a2app::slug_char(c)),
{
    if crate::a2app::is_ascii_upper(c) {
        assert(65 <= (c as u8) <= 90);
        assert(97 <= ((c as u8) + 32) as u8 <= 122);
    }
}

proof fn lemma_trim_dashes_start(s: Seq<char>)
    requires
        forall|i: int| 0 <= i < s.len() ==> is_slug_char(#[trigger] s[i]),
    ensures
        forall|i: int|
            0 <= i < crate::a2app::trim_dashes_start(s).len() ==> is_slug_char(
                #[trigger] crate::a2app::trim_dashes_start(s)[i],
            ),
        crate::a2app::trim_dashes_start(s).len() > 0 ==> crate::a2app::trim_dashes_start(s)[0] != '-',
    decreases s.len(),
{
    if s.len() > 0 && s[0] == '-' {
        let t = s.drop_first();
        assert forall|i: int| 0 <= i < t.len() implies is_slug_char(#[trigger] t[i]) by {
            assert(t[i] == s[i + 1]);
        }
        lemma_trim_dashes_start(t);
    }
}

proof fn lemma_trim_dashes_end(s: Seq<char>)
    requires
        forall|i: int| 0 <= i < s.len() ==> is_slug_char(#[trigger] s[i]),
    ensures
        forall|i: int|
            0 <= i < crate::a2app::trim_dashes_end(s).len() ==> is_slug_char(
                #[trigger] crate::a2app::trim_dashes_end(s)[i],
            ),
        crate::a2app::trim_dashes_end(s).len() <= s.len(),
        crate::a2app::trim_dashes_end(s).len() > 0 ==> crate::a2app::trim_dashes_end(s)[0] == s[0],
    decreases s.len(),
{
    if s.len() > 0 && s.last() == '-' {
        let t = s.drop_last();
        assert forall|i: int| 0 <= i < t.len() implies is_slug_char(#[trigger] t[i]) by {
            assert(t[i] == s[i]);
        }
        lemma_trim_dashes_end(t);
        if crate::a2app::trim_dashes_end(t).len() > 0 {
            assert(t[0] == s[0]);
        }
    }
}

/// A card name is a kebab slug: not empty, at most 48 characters, only
/// lower-case ASCII letters, digits and `-`, and never starting with `-`.
pub proof fn law_card_name_is_slug(ls: Seq<Seq<char>>)
    ensures
        crate::a2app::card_name_in(ls) matches Some(n) ==> {
            &&& 0 < n.len() <= 48
            &&& n[0] != '-'
            &&& forall|i: int| 0 <= i < n.len() ==> is_slug_char(#[trigger] n[i])
        },
    decreases ls.len(),
{
    if ls.len() > 0 {
        let t = crate::search::trim(ls[0]);
        if let Some(rest) = crate::a2app::directive_rest(t) {
            let m = crate::a2app::slug_map(crate::search::trim(rest));
            assert forall|i: int| 0 <= i < m.len() implies is_slug_char(#[trigger] m[i]) by {
                lemma_slug_char(crate::search::trim(rest)[i]);
            }
            let a = crate::a2app::trim_dashes_start(m);
            lemma_trim_dashes_start(m);
            lemma_trim_dashes_end(a);
            let b = crate::a2app::trim_dashes_end(a);
            if b.len() > 0 {
                let n = crate::a2app::first_48(b);
                assert forall|i: int| 0 <= i < n.len() implies is_slug_char(#[trigger] n[i]) by {
                    assert(n[i] == b[i]);
                }
            }
        }
        law_card_name_is_slug(ls.drop_first());
    }
}

/// A notification concerns one session: every other session keeps its
/// flags and its resume cursor.
pub proof fn law_notification_isolated(
    s0: AppState,
    s1: AppState,
    c: Option<UiCursor>,
    n: UiNotification,
    now: i64,
    q: Seq<char>,
)
    requires
        reduce_post(s0, s1, Event::Protocol { cursor: c, notification: n }, now),
        q != n.session().0@,
    ensures
        s1.sessions.spec_get(q) == s0.sessions.spec_get(q),
        s1.cursor.spec_get(q) == s0.cursor.spec_get(q),
{
}

/// A request for a new approval adds one pending card; a repeated request
/// replaces its card with a pending one.
pub proof fn law_request_adds_pending(s0: AppState, s1: AppState, c: Option<UiCursor>, n: UiNotification, now: i64)
    requires
        n is ApprovalRequested,
        reduce_post(s0, s1, Event::Protocol { cursor: c, notification: n }, now),
    ensures
        s0.approvals.by_id.spec_get(n->ApprovalRequested_0.approval_id.0) is None ==> count_pending(
            s1.approvals.by_id.seq(),
        ) == count_pending(s0.approvals.by_id.seq()) + 1,
        s1.approvals.by_id.spec_get(n->ApprovalRequested_0.approval_id.0) matches Some(card) && is_pending(card),
{
}

// ---------------------------------------------------------------- features

proof fn lemma_extra_features_pointwise(s1: Seq<(Seq<char>, JsonValue)>, s2: Seq<(Seq<char>, JsonValue)>)
    requires
        s1.len() == s2.len(),
        forall|i: int| 0 <= i < s1.len() ==> #[trigger] s1[i].0 == s2[i].0 && s1[i].1.jview() == s2[i].1.jview(),
    ensures
        extra_features(s1) == extra_features(s2),
    decreases s1.len(),
{
    if s1.len() > 0 {
        let t1 = s1.drop_last();
        let t2 = s2.drop_last();
        assert forall|i: int| 0 <= i < t1.len() implies #[trigger] t1[i].0 == t2[i].0 && t1[i].1.jview()
            == t2[i].1.jview() by {
            assert(s1[i].0 == s2[i].0);
        }
        lemma_extra_features_pointwise(t1, t2);
        assert(s1[s1.len() - 1].0 == s2[s2.len() - 1].0);
    }
}

/// Capabilities built from two advertised feature lists that hold the same
/// names, in whatever order and with whatever repeats, send the same
/// feature header and the same handshake value.
pub proof fn law_feature_header_ignores_list_order(
    a: Seq<Seq<char>>,
    b: Seq<Seq<char>>,
    ca: Capabilities,
    cb: Capabilities,
)
    requires
        ca.raw.well_sorted(),
        cb.raw.well_sorted(),
        ca.built_from_features(a),
        cb.built_from_features(b),
        forall|n: Seq<char>| has_name(a, n) == has_name(b, n),
    ensures
        ca.header_features() == cb.header_features(),
        ca.handshake_features() == cb.handshake_features(),
{
    let s1 = ca.raw.seq();
    let s2 = cb.raw.seq();
    assert(has_name(a, APPROVAL_TYPED_V1@) == has_name(b, APPROVAL_TYPED_V1@));
    assert(has_name(a, PANE_SNAPSHOTS_V1@) == has_name(b, PANE_SNAPSHOTS_V1@));
    assert(has_name(a, SESSION_WORKSPACE_CWD_V1@) == has_name(b, SESSION_WORKSPACE_CWD_V1@));
    assert forall|q: Seq<char>| has_key(s1, q) == has_key(s2, q) by {
        assert(opt_jview(ca.raw.spec_get(q)) == opt_jview(cb.raw.spec_get(q)));
        assert(has_name(a, q) == has_name(b, q));
    }
    lemma_same_keys_same_order(s1, s2);
    assert forall|i: int| 0 <= i < s1.len() implies #[trigger] s1[i].0 == s2[i].0 && s1[i].1.jview()
        == s2[i].1.jview() by {
        lemma_lookup_at(s1, i);
        lemma_lookup_at(s2, i);
        assert(s1[i].0 == s2[i].0);
        assert(opt_jview(ca.raw.spec_get(s1[i].0)) == opt_jview(cb.raw.spec_get(s1[i].0)));
        assert(has_name(a, s1[i].0) == has_name(b, s1[i].0));
    }
    lemma_extra_features_pointwise(s1, s2);
}

/// The known flags among `names`, in their fixed order.
pub open spec fn known_flags_in(names: Seq<Seq<char>>) -> Seq<Seq<char>> {
    (if has_name(names, APPROVAL_TYPED_V1@) {
        seq![APPROVAL_TYPED_V1@]
    } else {
        Seq::empty()
    }) + (if has_name(names, PANE_SNAPSHOTS_V1@) {
        seq![PANE_SNAPSHOTS_V1@]
    } else {
        Seq::empty()
    }) + (if has_name(names, SESSION_WORKSPACE_CWD_V1@) {
        seq![SESSION_WORKSPACE_CWD_V1@]
    } else {
        Seq::empty()
    })
}

/// The names `extra_features` picks are the entries set to `true` that are
/// not known flags.
proof fn lemma_extra_members(s: Seq<(Seq<char>, JsonValue)>)
    ensures
        forall|n: Seq<char>|
            #[trigger] extra_features(s).contains(n) <==> !is_known_feature(n) && exists|j: int|
                0 <= j < s.len() && #[trigger] s[j].0 == n && s[j].1.jview().as_bool() == Some(true),
    decreases s.len(),
{
    if s.len() > 0 {
        let t = s.drop_last();
        lemma_extra_members(t);
        let y = extra_features(t);
        let x = extra_features(s);
        let last = s[s.len() - 1];
        let picked = last.1.jview().as_bool() == Some(true) && !is_known_feature(last.0);
        assert(x == y + if picked {
            seq![last.0]
        } else {
            Seq::<Seq<char>>::empty()
        });
        assert forall|n: Seq<char>|
            #[trigger] x.contains(n) <==> !is_known_feature(n) && exists|j: int|
                0 <= j < s.len() && #[trigger] s[j].0 == n && s[j].1.jview().as_bool() == Some(true) by {
            if x.contains(n) {
                let i = choose|i: int| 0 <= i < x.len() && x[i] == n;
                if i < y.len() {
                    assert(y[i] == n);
                    assert(y.contains(n));
                    let j = choose|j: int| 0 <= j < t.len() && #[trigger] t[j].0 == n && t[j].1.jview().as_bool() == Some(true);
                    assert(s[j] == t[j]);
                } else {
                    assert(s[s.len() - 1].0 == n);
                }
            }
            if !is_known_feature(n) && exists|j: int|
                0 <= j < s.len() && #[trigger] s[j].0 == n && s[j].1.jview().as_bool() == Some(true) {
                let j = choose|j: int| 0 <= j < s.len() && #[trigger] s[j].0 == n && s[j].1.jview().as_bool() == Some(true);
                if j < t.len() {
                    assert(t[j] == s[j]);
                    assert(y.contains(n));
                    let i = choose|i: int| 0 <= i < y.len() && y[i] == n;
                    assert(x[i] == n);
                } else {
                    assert(x[y.len() as int] == n);
                }
            }
        }
    }
}

/// `extra_features` of a sorted entry list is strictly ascending.
proof fn lemma_extra_sorted(s: Seq<(Seq<char>, JsonValue)>)
    requires
        crate::strmap::sorted_keys(s),
    ensures
        forall|i: int, j: int|
            0 <= i < j < extra_features(s).len() ==> key_lt(#[trigger] extra_features(s)[i], #[trigger] extra_features(s)[j]),
    decreases s.len(),
{
    if s.len() > 0 {
        let t = s.drop_last();
        assert(crate::strmap::sorted_keys(t)) by {
            assert forall|i: int, j: int| 0 <= i < j < t.len() implies key_lt(#[trigger] t[i].0, #[trigger] t[j].0) by {
                assert(t[i] == s[i] && t[j] == s[j]);
            }
        }
        lemma_extra_sorted(t);
        lemma_extra_members(t);
        let y = extra_features(t);
        let x = extra_features(s);
        let last = s[s.len() - 1];
        let picked = last.1.jview().as_bool() == Some(true) && !is_known_feature(last.0);
        assert(x == y + if picked {
            seq![last.0]
        } else {
            Seq::<Seq<char>>::empty()
        });
        assert forall|i: int, j: int| 0 <= i < j < x.len() implies key_lt(#[trigger] x[i], #[trigger] x[j]) by {
            if j < y.len() {
                assert(x[i] == y[i] && x[j] == y[j]);
            } else {
                assert(x[i] == y[i]);
                assert(y.contains(y[i]));
                let k = choose|k: int| 0 <= k < t.len() && #[trigger] t[k].0 == y[i] && t[k].1.jview().as_bool() == Some(true);
                assert(s[k] == t[k]);
                assert(key_lt(s[k].0, s[s.len() - 1].0));
            }
        }
    }
}

/// The feature header of capabilities built from a feature list `f`: the
/// known flags that `f` names, in their fixed order, then every other name
/// of `f` once, in ascending order.
pub proof fn law_feature_header_form(f: Seq<Seq<char>>, caps: Capabilities)
    requires
        caps.raw.well_sorted(),
        caps.built_from_features(f),
    ensures
        caps.header_features() == known_flags_in(f) + extra_features(caps.raw.seq()),
        forall|i: int, j: int|
            0 <= i < j < extra_features(caps.raw.seq()).len() ==> key_lt(
                #[trigger] extra_features(caps.raw.seq())[i],
                #[trigger] extra_features(caps.raw.seq())[j],
            ),
        forall|n: Seq<char>|
            #[trigger] extra_features(caps.raw.seq()).contains(n) <==> has_name(f, n) && !is_known_feature(n),
{
    let s = caps.raw.seq();
    lemma_extra_sorted(s);
    lemma_extra_members(s);
    assert forall|n: Seq<char>|
        #[trigger] extra_features(s).contains(n) <==> has_name(f, n) && !is_known_feature(n) by {
        assert(opt_jview(caps.raw.spec_get(n)) == if has_name(f, n) {
            Some(JsonView::Bool(true))
        } else {
            None::<JsonView>
        });
        if exists|j: int| 0 <= j < s.len() && #[trigger] s[j].0 == n && s[j].1.jview().as_bool() == Some(true) {
            let j = choose|j: int| 0 <= j < s.len() && #[trigger] s[j].0 == n && s[j].1.jview().as_bool() == Some(true);
            lemma_lookup_at(s, j);
        }
        if has_name(f, n) {
            assert(has_key(s, n));
            let j = choose|j: int| 0 <= j < s.len() && #[trigger] s[j].0 == n;
            lemma_lookup_at(s, j);
        }
    }
}

// ---------------------------------------------------------------- splash views

/// Every `View{` in `t` follows an ASCII letter.
pub open spec fn no_bare_view(t: Seq<char>) -> bool {
    forall|j: int| #[trigger] matches_at(t, view_pat(), j) ==> j > 0 && is_ascii_alpha(t[j - 1])
}

/// The replacement text of a bare `View{`, as characters.
proof fn lemma_solid_chars()
    ensures
        "SolidView{show_bg: false "@ =~= seq![
            'S', 'o', 'l', 'i', 'd', 'V', 'i', 'e', 'w', '{', 's', 'h', 'o', 'w', '_', 'b', 'g', ':', ' ',
            'f', 'a', 'l', 's', 'e', ' ',
        ],
{
    reveal_strlit("SolidView{show_bg: false ");
}

/// A text with no bare `View{` is left as it is from `i` on.
proof fn lemma_neutralize_fixed(t: Seq<char>, i: int)
    requires
        no_bare_view(t),
        0 <= i <= t.len(),
    ensures
        neutralize_from(t, i) == t.skip(i),
    decreases t.len() - i,
{
    if i == t.len() {
        assert(t.skip(i) =~= Seq::<char>::empty());
    } else if matches_at(t, view_pat(), i) {
        lemma_neutralize_fixed(t, i + 5);
        assert(t.skip(i) =~= t.subrange(i, i + 5) + t.skip(i + 5));
    } else {
        lemma_neutralize_fixed(t, i + 1);
        assert(t.skip(i) =~= seq![t[i]] + t.skip(i + 1));
    }
}

/// Output characters other than `S` and `V` at the front of
/// `neutralize_from(s, k)` are copied from `s` at `k`.
proof fn lemma_copied_prefix(s: Seq<char>, k: int, m: int)
    requires
        0 <= k <= s.len(),
        0 <= m <= neutralize_from(s, k).len(),
        forall|x: int| 0 <= x < m ==> #[trigger] neutralize_from(s, k)[x] != 'S' && neutralize_from(s, k)[x] != 'V',
    ensures
        k + m <= s.len(),
        s.subrange(k, k + m) == neutralize_from(s, k).take(m),
    decreases m,
{
    let o = neutralize_from(s, k);
    if m == 0 {
        assert(s.subrange(k, k) =~= o.take(0));
    } else {
        lemma_solid_chars();
        assert(o[0] != 'S' && o[0] != 'V');
        if matches_at(s, view_pat(), k) {
            assert(false);
        }
        let rest = neutralize_from(s, k + 1);
        assert(o == seq![s[k]] + rest);
        assert forall|x: int| 0 <= x < m - 1 implies #[trigger] rest[x] != 'S' && rest[x] != 'V' by {
            assert(o[x + 1] == rest[x]);
        }
        lemma_copied_prefix(s, k + 1, m - 1);
        assert(s.subrange(k, k + m) =~= seq![s[k]] + s.subrange(k + 1, k + m));
        assert(o.take(m) =~= seq![s[k]] + rest.take(m - 1));
    }
}

/// A `View{` in `neutralize_from(s, i)` follows an ASCII letter, or stands
/// first where `s` holds a `View{` at `i` that follows one.
proof fn lemma_views_follow_letters(s: Seq<char>, i: int, j: int)
    requires
        0 <= i,
        matches_at(neutralize_from(s, i), view_pat(), j),
    ensures
        (j > 0 && is_ascii_alpha(neutralize_from(s, i)[j - 1])) || (j == 0 && i > 0 && is_ascii_alpha(s[i - 1])),
    decreases s.len() - i,
{
    let out = neutralize_from(s, i);
    let vp = view_pat();
    assert(out.subrange(j, j + 5) == vp);
    assert(out[j] == 'V' && out[j + 1] == 'i' && out[j + 2] == 'e' && out[j + 3] == 'w' && out[j + 4] == '{') by {
        assert(out.subrange(j, j + 5)[0] == out[j]);
        assert(out.subrange(j, j + 5)[1] == out[j + 1]);
        assert(out.subrange(j, j + 5)[2] == out[j + 2]);
        assert(out.subrange(j, j + 5)[3] == out[j + 3]);
        assert(out.subrange(j, j + 5)[4] == out[j + 4]);
    }
    if i >= s.len() {
        assert(false);
    } else if matches_at(s, vp, i) {
        assert(s.subrange(i, i + 5)[4] == s[i + 4]);
        if i > 0 && is_ascii_alpha(s[i - 1]) {
            let rest = neutralize_from(s, i + 5);
            assert(out == vp + rest);
            if j >= 5 {
                assert(out.subrange(j, j + 5) =~= rest.subrange(j - 5, j));
                lemma_views_follow_letters(s, i + 5, j - 5);
                if j > 5 {
                    assert(out[j - 1] == rest[j - 6]);
                }
            } else if j > 0 {
                assert(out[j] == vp[j]);
            }
        } else {
            lemma_solid_chars();
            let ins = "SolidView{show_bg: false "@;
            let rest = neutralize_from(s, i + 5);
            assert(out == ins + rest);
            if j >= 25 {
                assert(out.subrange(j, j + 5) =~= rest.subrange(j - 25, j - 20));
                lemma_views_follow_letters(s, i + 5, j - 25);
                if j > 25 {
                    assert(out[j - 1] == rest[j - 26]);
                }
            } else {
                assert(out[j] == ins[j]);
                if j != 5 {
                    assert(ins[j] != 'V');
                } else {
                    assert(out[4] == 'd');
                }
            }
        }
    } else {
        let rest = neutralize_from(s, i + 1);
        assert(out == seq![s[i]] + rest);
        if j == 0 {
            lemma_solid_chars();
            assert(rest[0] == 'i' && rest[1] == 'e' && rest[2] == 'w' && rest[3] == '{') by {
                assert(out[1] == rest[0] && out[2] == rest[1] && out[3] == rest[2] && out[4] == rest[3]);
            }
            assert forall|x: int| 0 <= x < 4 implies #[trigger] rest[x] != 'S' && rest[x] != 'V' by {
                assert(out[x + 1] == rest[x]);
            }
            lemma_copied_prefix(s, i + 1, 4);
            assert(s.subrange(i + 1, i + 5)[0] == s[i + 1]);
            assert(s.subrange(i + 1, i + 5)[1] == s[i + 2]);
            assert(s.subrange(i + 1, i + 5)[2] == s[i + 3]);
            assert(s.subrange(i + 1, i + 5)[3] == s[i + 4]);
            assert(s.subrange(i, i + 5) =~= vp);
            assert(false);
        } else {
            assert(out.subrange(j, j + 5) =~= rest.subrange(j - 1, j + 4));
            lemma_views_follow_letters(s, i + 1, j - 1);
            if j > 1 {
                assert(out[j - 1] == rest[j - 2]);
            }
        }
    }
}

/// Neutralizing bare views is idempotent: what it gives has no bare
/// `View{` left, so a second pass gives it back unchanged.
pub proof fn law_neutralize_idempotent(body: Seq<char>)
    ensures
        no_bare_view(spec_neutralize(body)),
        spec_neutralize(spec_neutralize(body)) == spec_neutralize(body),
{
    let r = spec_neutralize(body);
    if !contains(body, view_pat()) {
        lemma_find_from_bounds(body, view_pat(), 0);
        assert forall|j: int| #[trigger] matches_at(r, view_pat(), j) implies j > 0 && is_ascii_alpha(r[j - 1]) by {
            assert(!matches_at(body, view_pat(), j));
        }
    } else {
        assert forall|j: int| #[trigger] matches_at(r, view_pat(), j) implies j > 0 && is_ascii_alpha(r[j - 1]) by {
            lemma_views_follow_letters(body, 0, j);
        }
    }
    if contains(r, view_pat()) {
        lemma_neutralize_fixed(r, 0);
        assert(r.skip(0) =~= r);
    }
}

// ---------------------------------------------------------------- reducer scope

/// A protocol notification never changes the screen, the current session,
/// the file metadata or the shown connection state.
pub proof fn law_protocol_keeps_screen_and_link(
    s0: AppState,
    s1: AppState,
    c: Option<UiCursor>,
    n: UiNotification,
    now: i64,
)
    requires
        reduce_post(s0, s1, Event::Protocol { cursor: c, notification: n }, now),
    ensures
        s1.navigation == s0.navigation,
        s1.current_session == s0.current_session,
        s1.files == s0.files,
        s1.connection == s0.connection,
{
}

/// For a connection event, and for a navigation to a screen or to a
/// session, the new state is a function of the old state and the event.
pub proof fn law_pinned_events_have_one_result(s0: AppState, a: AppState, b: AppState, ev: Event, now: i64)
    requires
        ev is Connection || ev matches Event::Navigation(NavigationEvent::NavigateTo(_))
            || ev matches Event::Navigation(NavigationEvent::OpenSession(_)),
        reduce_post(s0, a, ev, now),
        reduce_post(s0, b, ev, now),
    ensures
        a == b,
{
}

// ---------------------------------------------------------------- audited operations

/// Session `sid` has work still open in `tools` or `tasks`: a tool call
/// without a completion time, or a task whose runtime state is neither
/// `completed` nor `failed`.
pub open spec fn open_work(
    tools: Seq<(crate::ids::ToolCallId, crate::records::ToolCall)>,
    tasks: Seq<(crate::ids::TaskId, crate::records::Task)>,
    sid: Seq<char>,
) -> bool {
    ||| exists|i: int| 0 <= i < tools.len() && (#[trigger] tools[i]).1.session_id.0@ == sid && tools[i].1.completed_at is None
    ||| exists|i: int|
        0 <= i < tasks.len() && (#[trigger] tasks[i]).1.session_id.0@ == sid && tasks[i].1.runtime_state@ != "completed"@
            && tasks[i].1.runtime_state@ != "failed"@
}

/// A task update that finishes the task (completed or failed) leaves the
/// session's active-work flag saying exactly whether a tool call or task of
/// that session is still open; a pending, running or cancelled update turns
/// it on. The updated task itself then reads as finished or not.
pub proof fn law_task_update_sets_active_flag(
    s0: AppState,
    s1: AppState,
    c: Option<UiCursor>,
    e: TaskUpdatedEvent,
    now: i64,
)
    requires
        reduce_post(s0, s1, Event::Protocol { cursor: c, notification: UiNotification::TaskUpdated(e) }, now),
        s0.sessions.spec_get(e.session_id.0@) is Some,
    ensures
        (e.state == TaskRuntimeState::Completed || e.state == TaskRuntimeState::Failed) ==> (s1.sessions.spec_get(
            e.session_id.0@,
        ) matches Some(s) && s.has_active_task == open_work(s1.tool_calls.seq(), s1.tasks.seq(), e.session_id.0@)),
        (e.state == TaskRuntimeState::Pending || e.state == TaskRuntimeState::Running || e.state
            == TaskRuntimeState::Cancelled) ==> (s1.sessions.spec_get(e.session_id.0@) matches Some(s)
            && s.has_active_task),
        s1.tasks.spec_get(e.task_id.0) matches Some(t) && (t.runtime_state@ == "completed"@ <==> e.state
            == TaskRuntimeState::Completed) && (t.runtime_state@ == "failed"@ <==> e.state == TaskRuntimeState::Failed),
{
    reveal_strlit("completed");
    reveal_strlit("failed");
    reveal_strlit("pending");
    reveal_strlit("running");
    reveal_strlit("cancelled");
    assert("completed"@.len() == 9 && "failed"@.len() == 6 && "pending"@.len() == 7);
    assert("running"@.len() == 7 && "cancelled"@.len() == 9);
    assert("completed"@[1] != "cancelled"@[1]);
}

/// Parsing a value whose capabilities sit at `/capabilities`, else at
/// `/result/capabilities`, else at `/opened/capabilities` gives exactly
/// what parsing that node alone gives (for a node that holds no such
/// member itself).
pub proof fn law_capabilities_node(j: JsonView, n: JsonView, caps: Capabilities)
    requires
        n.get("capabilities"@) is None,
        get2(n, "result"@, "capabilities"@) is None,
        get2(n, "opened"@, "capabilities"@) is None,
        j.get("capabilities"@) == Some(n) || (j.get("capabilities"@) is None && get2(j, "result"@, "capabilities"@)
            == Some(n)) || (j.get("capabilities"@) is None && get2(j, "result"@, "capabilities"@) is None && get2(
            j,
            "opened"@,
            "capabilities"@,
        ) == Some(n)),
    ensures
        caps.parsed_from(j) == caps.parsed_from(n),
        caps.parsed_from(j) ==> match n.get("supported_features"@) {
            Some(JsonView::Array(arr)) => caps.built_from_features(str_items(arr)),
            _ => true,
        },
{
}

/// An event that names `clear` or `reset` and no step word sets the value
/// to `0`, whatever the counter and the payload value.
pub proof fn law_clear_and_reset_zero(counter: int, ev: Seq<char>, value: Option<Seq<char>>)
    requires
        contains(ev, "clear"@) || contains(ev, "reset"@),
        !contains(ev, "inc"@) && !contains(ev, "plus"@) && !contains(ev, "add"@),
        !contains(ev, "dec"@) && !contains(ev, "minus"@) && !contains(ev, "sub"@),
    ensures
        spec_event_value(counter, ev, value) == Some(seq!['0']),
{
}

proof fn lemma_lead_dashes(x: Seq<char>) -> (a: int)
    ensures
        0 <= a <= x.len(),
        crate::a2app::trim_dashes_start(x) == x.skip(a),
        forall|i: int| 0 <= i < a ==> #[trigger] x[i] == '-',
    decreases x.len(),
{
    if x.len() > 0 && x[0] == '-' {
        let a1 = lemma_lead_dashes(x.drop_first());
        assert(x.drop_first().skip(a1) =~= x.skip(a1 + 1));
        assert forall|i: int| 0 <= i < a1 + 1 implies #[trigger] x[i] == '-' by {
            if i > 0 {
                assert(x[i] == x.drop_first()[i - 1]);
            }
        }
        a1 + 1
    } else {
        assert(x.skip(0) =~= x);
        0
    }
}

proof fn lemma_trail_dashes(y: Seq<char>) -> (b: int)
    ensures
        0 <= b <= y.len(),
        crate::a2app::trim_dashes_end(y) == y.take(b),
        forall|i: int| b <= i < y.len() ==> #[trigger] y[i] == '-',
    decreases y.len(),
{
    if y.len() > 0 && y.last() == '-' {
        let b1 = lemma_trail_dashes(y.drop_last());
        assert(y.drop_last().take(b1) =~= y.take(b1));
        assert forall|i: int| b1 <= i < y.len() implies #[trigger] y[i] == '-' by {
            if i < y.len() - 1 {
                assert(y[i] == y.drop_last()[i]);
            }
        }
        b1
    } else {
        assert(y.take(y.len() as int) =~= y);
        y.len() as int
    }
}

/// What the slug keeps of one character `c` of a directive argument: a
/// lower-case ASCII letter or digit as it is, a capital lower-cased, and
/// anything else as `-`.
pub open spec fn slug_keeps(c: char, out: char) -> bool {
    &&& (('a' <= c && c <= 'z') || ('0' <= c && c <= '9')) ==> out == c
    &&& ('A' <= c && c <= 'Z') ==> (out as u32) == (c as u32) + 32
    &&& !(('a' <= c && c <= 'z') || ('0' <= c && c <= '9') || ('A' <= c && c <= 'Z')) ==> out == '-'
}

/// The slug `s` is the window of `t` that starts at `k`, taken character
/// by character as `slug_keeps` says, and the window holds every ASCII
/// letter and digit of `t`.
pub open spec fn slug_window(t: Seq<char>, s: Seq<char>, k: int) -> bool {
    &&& 0 <= k && k + s.len() <= t.len()
    &&& forall|i: int| 0 <= i < s.len() ==> slug_keeps(t[k + i], #[trigger] s[i])
    &&& forall|j: int|
        0 <= j < t.len() && (('a' <= #[trigger] t[j] && t[j] <= 'z') || ('0' <= t[j] && t[j] <= '9') || ('A'
            <= t[j] && t[j] <= 'Z')) ==> k <= j < k + s.len()
}

/// A card-name slug is a window of the trimmed directive argument, taken
/// character by character: letters and digits are kept (capitals
/// lower-cased) and every other character becomes `-`; the window holds
/// every letter and digit of the argument, so only dashes are trimmed.
pub proof fn law_slug_keeps_letters_and_digits(rest: Seq<char>)
    ensures
        exists|k: int| #[trigger] slug_window(trim(rest), crate::a2app::slug_of(rest), k),
{
    let t = trim(rest);
    let x = crate::a2app::slug_map(t);
    let a = lemma_lead_dashes(x);
    let y = x.skip(a);
    let b = lemma_trail_dashes(y);
    let s = crate::a2app::slug_of(rest);
    assert(s == y.take(b));
    assert forall|i: int| 0 <= i < s.len() implies slug_keeps(t[a + i], #[trigger] s[i]) by {
        assert(s[i] == x[a + i]);
        let c = t[a + i];
        if 'A' <= c && c <= 'Z' {
            assert(65 <= (c as u8) <= 90);
            assert(97 <= ((c as u8) + 32) as u8 <= 122);
        }
    }
    assert forall|j: int|
        0 <= j < t.len() && (('a' <= #[trigger] t[j] && t[j] <= 'z') || ('0' <= t[j] && t[j] <= '9') || ('A'
            <= t[j] && t[j] <= 'Z')) implies a <= j < a + s.len() by {
        let c = t[j];
        if 'A' <= c && c <= 'Z' {
            assert(65 <= (c as u8) <= 90);
            assert(97 <= ((c as u8) + 32) as u8 <= 122);
        }
        assert(x[j] != '-');
        if j >= a + b {
            assert(y[j - a] == x[j]);
        }
    }
    assert(slug_window(t, s, a));
}

/// Replacing in `r + x`, where `p` starts nowhere inside `r`, leaves `r`
/// as it is and replaces in `x`.
proof fn lemma_replace_after_prefix(r: Seq<char>, x: Seq<char>, p: Seq<char>, rep: Seq<char>)
    requires
        p.len() > 0,
        forall|j: int| 0 <= j < r.len() ==> !#[trigger] matches_at(r + x, p, j),
    ensures
        replace_all(r + x, p, rep) == r + replace_all(x, p, rep),
{
    let s = r + x;
    let d = r.len() as int;
    assert(s.skip(d) =~= x);
    lemma_find_from_bounds(s, p, 0);
    lemma_find_from_bounds(s, p, d);
    lemma_find_skip(s, p, d, 0);
    match find_from(s, p, 0) {
        Some(j) => {
            if j < d {
                assert(!matches_at(s, p, j));
            }
            match find_from(s, p, d) {
                Some(j2) => {
                    if j2 < j {
                        assert(!matches_at(s, p, j2));
                    }
                    if j < j2 {
                        assert(!matches_at(s, p, j));
                    }
                },
                None => {
                    assert(!matches_at(s, p, j));
                },
            }
            assert(s.take(j) =~= r + x.take(j - d));
            assert(s.skip(j + p.len()) =~= x.skip(j - d + p.len()));
            assert(replace_all(s, p, rep) == s.take(j) + rep + replace_all(s.skip(j + p.len()), p, rep));
            assert(replace_all(x, p, rep) == x.take(j - d) + rep + replace_all(x.skip(j - d + p.len()), p, rep));
            assert(r + (x.take(j - d) + rep + replace_all(x.skip(j - d + p.len()), p, rep)) =~= s.take(j) + rep
                + replace_all(s.skip(j + p.len()), p, rep));
        },
        None => {
            match find_from(s, p, d) {
                Some(j2) => {
                    assert(!matches_at(s, p, j2));
                },
                None => {},
            }
        },
    }
}

/// Replacing in `p + x` replaces the leading `p` and then what follows.
proof fn lemma_replace_at_front(x: Seq<char>, p: Seq<char>, rep: Seq<char>)
    requires
        p.len() > 0,
    ensures
        replace_all(p + x, p, rep) == rep + replace_all(x, p, rep),
{
    let s = p + x;
    assert(s.subrange(0, p.len() as int) =~= p);
    assert(matches_at(s, p, 0));
    assert(find(s, p) == Some(0int));
    assert(s.take(0) =~= Seq::<char>::empty());
    assert(s.skip(p.len() as int) =~= x);
    assert(Seq::<char>::empty() + rep =~= rep);
}

/// The tag put before an event id: the card id's decimal text and `:`.
proof fn lemma_tag_digits(item_id: nat)
    ensures
        forall|i: int|
            0 <= i < decimal(item_id).len() ==> '0' <= #[trigger] decimal(item_id)[i] && decimal(item_id)[i] <= '9',
        decimal(item_id).len() > 0,
        crate::numfmt::parse_int(decimal(item_id)) == Some(item_id as int),
{
    lemma_decimal_digits(item_id);
    assert forall|i: int| 0 <= i < decimal(item_id).len() implies '0' <= #[trigger] decimal(item_id)[i]
        && decimal(item_id)[i] <= '9' by {
        assert(is_digit(decimal(item_id)[i]));
    }
}

/// An event id that starts with a card id's tag splits back to that id.
proof fn lemma_split_tagged(item_id: usize, y: Seq<char>)
    ensures
        spec_split_event(decimal(item_id as nat) + seq![':'] + y).0 == Some(item_id),
{
    let dg = decimal(item_id as nat);
    let e = dg + seq![':'] + y;
    let colon = seq![':'];
    lemma_tag_digits(item_id as nat);
    lemma_find_from_bounds(e, colon, 0);
    assert(e.subrange(dg.len() as int, dg.len() + 1int) =~= colon);
    assert(matches_at(e, colon, dg.len() as int));
    match find_from(e, colon, 0) {
        Some(j) => {
            if j < dg.len() {
                assert(e.subrange(j, j + 1)[0] == e[j]);
                assert(e[j] == dg[j]);
            }
            if j > dg.len() {
                assert(!matches_at(e, colon, dg.len() as int));
            }
            assert(e.take(j) =~= dg);
        },
        None => {
            assert(!matches_at(e, colon, dg.len() as int));
        },
    }
}

/// A notify opening `pq` starts nowhere inside `r` when `r` holds its
/// first character only at the front and differs from it in the quote.
proof fn lemma_opening_not_inside(r: Seq<char>, x: Seq<char>, pq: Seq<char>)
    requires
        pq.len() == 14,
        pq[0] == 'a',
        r.len() >= 14,
        r[13] != pq[13],
        forall|i: int| 1 <= i < r.len() ==> #[trigger] r[i] != 'a',
    ensures
        forall|j: int| 0 <= j < r.len() ==> !#[trigger] matches_at(r + x, pq, j),
{
    assert forall|j: int| 0 <= j < r.len() implies !#[trigger] matches_at(r + x, pq, j) by {
        if matches_at(r + x, pq, j) {
            assert((r + x).subrange(j, j + 14)[0] == (r + x)[j]);
            assert((r + x).subrange(j, j + 14)[13] == (r + x)[j + 13]);
            if j == 0 {
                assert((r + x)[13] == r[13]);
            } else {
                assert((r + x)[j] == r[j]);
            }
        }
    }
}

/// The tagged openings hold the letter `a` only at their front.
proof fn lemma_tagged_openings(item_id: usize)
    ensures
        forall|i: int|
            1 <= i < (notify_dq_pat() + decimal(item_id as nat) + seq![':']).len() ==> #[trigger] (notify_dq_pat()
                + decimal(item_id as nat) + seq![':'])[i] != 'a',
        forall|i: int|
            1 <= i < (notify_sq_pat() + decimal(item_id as nat) + seq![':']).len() ==> #[trigger] (notify_sq_pat()
                + decimal(item_id as nat) + seq![':'])[i] != 'a',
        forall|i: int| 1 <= i < notify_sq_pat().len() ==> #[trigger] notify_sq_pat()[i] != 'a',
        decimal(item_id as nat).len() > 0,
{
    let rd = notify_dq_pat() + decimal(item_id as nat) + seq![':'];
    let rs = notify_sq_pat() + decimal(item_id as nat) + seq![':'];
    lemma_tag_digits(item_id as nat);
    assert forall|i: int| 1 <= i < rd.len() implies #[trigger] rd[i] != 'a' by {
        if i >= 14 && i - 14 < decimal(item_id as nat).len() {
            assert(rd[i] == decimal(item_id as nat)[i - 14]);
        }
    }
    assert forall|i: int| 1 <= i < rs.len() implies #[trigger] rs[i] != 'a' by {
        if i >= 14 && i - 14 < decimal(item_id as nat).len() {
            assert(rs[i] == decimal(item_id as nat)[i - 14]);
        }
    }
}

/// `p + x` holds the notify call at its front.
proof fn lemma_call_at_front(p: Seq<char>, x: Seq<char>)
    requires
        p == notify_dq_pat() || p == notify_sq_pat(),
    ensures
        contains(p + x, notify_pat()),
{
    let b = p + x;
    assert(b.subrange(0, 13) =~= notify_pat());
    assert(matches_at(b, notify_pat(), 0));
    assert(find(b, notify_pat()) == Some(0int));
}

proof fn lemma_tag_dq(rest: Seq<char>, item_id: usize)
    ensures
        spec_tag_notify(notify_dq_pat() + rest, item_id as nat).take(14) == notify_dq_pat(),
        spec_split_event(spec_tag_notify(notify_dq_pat() + rest, item_id as nat).skip(14)).0 == Some(item_id),
{
    let dq = notify_dq_pat();
    let sq = notify_sq_pat();
    let rd = dq + decimal(item_id as nat) + seq![':'];
    let rs = sq + decimal(item_id as nat) + seq![':'];
    lemma_tagged_openings(item_id);
    lemma_call_at_front(dq, rest);
    lemma_replace_at_front(rest, dq, rd);
    let xd = replace_all(rest, dq, rd);
    assert(replace_all(dq + rest, dq, rd) == rd + xd);
    lemma_opening_not_inside(rd, xd, sq);
    lemma_replace_after_prefix(rd, xd, sq, rs);
    let y = replace_all(xd, sq, rs);
    let td = rd + y;
    assert(replace_all(rd + xd, sq, rs) == td);
    assert(spec_tag_notify(dq + rest, item_id as nat) == td);
    assert(td.take(14) =~= dq);
    assert(td.skip(14) =~= decimal(item_id as nat) + seq![':'] + y);
    lemma_split_tagged(item_id, y);
}

proof fn lemma_tag_sq(rest: Seq<char>, item_id: usize)
    ensures
        spec_tag_notify(notify_sq_pat() + rest, item_id as nat).take(14) == notify_sq_pat(),
        spec_split_event(spec_tag_notify(notify_sq_pat() + rest, item_id as nat).skip(14)).0 == Some(item_id),
{
    let dq = notify_dq_pat();
    let sq = notify_sq_pat();
    let rd = dq + decimal(item_id as nat) + seq![':'];
    let rs = sq + decimal(item_id as nat) + seq![':'];
    lemma_tagged_openings(item_id);
    lemma_call_at_front(sq, rest);
    lemma_opening_not_inside(sq, rest, dq);
    lemma_replace_after_prefix(sq, rest, dq, rd);
    let xs = replace_all(rest, dq, rd);
    assert(replace_all(sq + rest, dq, rd) == sq + xs);
    lemma_replace_at_front(xs, sq, rs);
    let y = replace_all(xs, sq, rs);
    let ts = rs + y;
    assert(replace_all(sq + xs, sq, rs) == ts);
    assert(spec_tag_notify(sq + rest, item_id as nat) == ts);
    assert(ts.take(14) =~= sq);
    assert(ts.skip(14) =~= decimal(item_id as nat) + seq![':'] + y);
    lemma_split_tagged(item_id, y);
}

/// Tagging a notify call with a card id and splitting its event id again
/// gives that card id back: the call keeps its opening, and the event id
/// now starts with the id's decimal text and a colon. This holds for
/// double- and single-quoted calls alike.
pub proof fn law_tag_then_split(rest: Seq<char>, item_id: usize)
    ensures
        spec_tag_notify(notify_dq_pat() + rest, item_id as nat).take(14) == notify_dq_pat(),
        spec_split_event(spec_tag_notify(notify_dq_pat() + rest, item_id as nat).skip(14)).0 == Some(item_id),
        spec_tag_notify(notify_sq_pat() + rest, item_id as nat).take(14) == notify_sq_pat(),
        spec_split_event(spec_tag_notify(notify_sq_pat() + rest, item_id as nat).skip(14)).0 == Some(item_id),
{
    lemma_tag_dq(rest, item_id);
    lemma_tag_sq(rest, item_id);
}

} // verus!
