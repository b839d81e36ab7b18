//! Capability negotiation.
//!
//! The server advertises the features it supports; the known v1 flags get
//! typed booleans and every advertised entry, unknown future flags included,
//! is kept in `raw`.

use vstd::prelude::*;

use crate::json::{obj_last, JsonValue, JsonView};
use crate::strmap::StrMap;
use crate::text::{join, join_strs, str_eq, views_of};

verus! {

pub const APPROVAL_TYPED_V1: &'static str = "approval.typed.v1";

pub const PANE_SNAPSHOTS_V1: &'static str = "pane.snapshots.v1";

pub const SESSION_WORKSPACE_CWD_V1: &'static str = "session.workspace_cwd.v1";

/// Context-lifecycle notifications; always requested in the handshake.
pub const CONTEXT_LIFECYCLE_V1: &'static str = "context.lifecycle.v1";

pub open spec fn is_known_feature(n: Seq<char>) -> bool {
    n == APPROVAL_TYPED_V1@ || n == PANE_SNAPSHOTS_V1@ || n == SESSION_WORKSPACE_CWD_V1@
}

pub open spec fn opt_jview(o: Option<JsonValue>) -> Option<JsonView> {
    match o {
        Some(v) => Some(v.jview()),
        None => None,
    }
}

/// `n` occurs in `s`.
pub open spec fn has_name(s: Seq<Seq<char>>, n: Seq<char>) -> bool
    decreases s.len(),
{
    if s.len() == 0 {
        false
    } else {
        has_name(s.drop_last(), n) || s.last() == n
    }
}

/// Whether `n` occurs in `v`.
fn list_has(v: &[&str], n: &str) -> (r: bool)
    ensures
        r == has_name(views_of(v@), n@),
{
    let ghost vs = views_of(v@);
    let mut found = false;
    let mut i: usize = 0;
    while i < v.len()
        invariant
            i <= v.len(),
            vs == views_of(v@),
            found == has_name(vs.take(i as int), n@),
        decreases v.len() - i,
    {
        assert(vs.take(i + 1).drop_last() =~= vs.take(i as int));
        assert(vs.take(i + 1).last() == v@[i as int]@);
        if str_eq(v[i], n) {
            found = true;
        }
        i += 1;
    }
    assert(vs.take(v.len() as int) =~= vs);
    found
}

/// The member of `es` named `n` that counts (the last of that name) holds
/// `true`.
pub open spec fn obj_flag(es: Seq<(Seq<char>, JsonView)>, n: Seq<char>) -> bool {
    obj_last(es, n) == Some(JsonView::Bool(true))
}

/// Names of the `raw` entries that go into the feature header after the
/// known flags: set to `true` and not one of the known names, in key order.
pub open spec fn extra_features(s: Seq<(Seq<char>, JsonValue)>) -> Seq<Seq<char>>
    decreases s.len(),
{
    if s.len() == 0 {
        Seq::empty()
    } else {
        extra_features(s.drop_last()) + if s.last().1.jview().as_bool() == Some(true)
            && !is_known_feature(s.last().0) {
            seq![s.last().0]
        } else {
            Seq::empty()
        }
    }
}

/// The string elements of an array, in order.
pub open spec fn str_items(a: Seq<JsonView>) -> Seq<Seq<char>>
    decreases a.len(),
{
    if a.len() == 0 {
        Seq::empty()
    } else {
        str_items(a.drop_last()) + match a.last().as_str() {
            Some(s) => seq![s],
            None => Seq::empty(),
        }
    }
}

/// `j.a.b`, following member names.
pub open spec fn get2(j: JsonView, a: Seq<char>, b: Seq<char>) -> Option<JsonView> {
    match j.get(a) {
        Some(x) => x.get(b),
        None => None,
    }
}

/// The node that holds the capabilities: `/capabilities`, else
/// `/result/capabilities`, else `/opened/capabilities`, else the value itself.
pub open spec fn caps_node(j: JsonView) -> JsonView {
    match j.get("capabilities"@) {
        Some(n) => n,
        None => match get2(j, "result"@, "capabilities"@) {
            Some(n) => n,
            None => match get2(j, "opened"@, "capabilities"@) {
                Some(n) => n,
                None => j,
            },
        },
    }
}

/// The `supported_features` array of a capabilities node, if it has one.
pub open spec fn supported_list(node: JsonView) -> Option<Seq<JsonView>> {
    match node.get("supported_features"@) {
        Some(v) => v.as_array(),
        None => None,
    }
}

/// Negotiated capability flags.
pub struct Capabilities {
    pub typed_approvals: bool,
    pub pane_snapshots: bool,
    pub session_workspace_cwd: bool,
    /// Everything the server advertised, including unknown features.
    pub raw: StrMap<JsonValue>,
}

impl Capabilities {
    /// The feature names that the header value lists, in order.
    pub open spec fn header_features(&self) -> Seq<Seq<char>> {
        (if self.typed_approvals {
            seq![APPROVAL_TYPED_V1@]
        } else {
            Seq::empty()
        }) + (if self.pane_snapshots {
            seq![PANE_SNAPSHOTS_V1@]
        } else {
            Seq::empty()
        }) + (if self.session_workspace_cwd {
            seq![SESSION_WORKSPACE_CWD_V1@]
        } else {
            Seq::empty()
        }) + extra_features(self.raw.seq())
    }

    /// What building from the advertised feature list `names` yields.
    pub open spec fn built_from_features(&self, names: Seq<Seq<char>>) -> bool {
        &&& self.typed_approvals == has_name(names, APPROVAL_TYPED_V1@)
        &&& self.pane_snapshots == has_name(names, PANE_SNAPSHOTS_V1@)
        &&& self.session_workspace_cwd == has_name(names, SESSION_WORKSPACE_CWD_V1@)
        &&& forall|q: Seq<char>|
            opt_jview(#[trigger] self.raw.spec_get(q)) == if has_name(names, q) {
                Some(JsonView::Bool(true))
            } else {
                None
            }
    }

    /// What building from the flag object with members `es` yields.
    pub open spec fn built_from_object(&self, es: Seq<(Seq<char>, JsonView)>) -> bool {
        &&& self.typed_approvals == obj_flag(es, APPROVAL_TYPED_V1@)
        &&& self.pane_snapshots == obj_flag(es, PANE_SNAPSHOTS_V1@)
        &&& self.session_workspace_cwd == obj_flag(es, SESSION_WORKSPACE_CWD_V1@)
        &&& forall|q: Seq<char>| opt_jview(#[trigger] self.raw.spec_get(q)) == obj_last(es, q)
    }

    /// What parsing the session-open-shaped value `j` yields.
    pub open spec fn parsed_from(&self, j: JsonView) -> bool {
        match supported_list(caps_node(j)) {
            Some(arr) => self.built_from_features(str_items(arr)),
            None => match caps_node(j) {
                JsonView::Object(es) => self.built_from_object(es),
                _ => self.built_from_object(Seq::empty()),
            },
        }
    }

    /// No flag set, nothing advertised.
    pub open spec fn is_empty_caps(&self) -> bool {
        &&& !self.typed_approvals
        &&& !self.pane_snapshots
        &&& !self.session_workspace_cwd
        &&& self.raw.seq().len() == 0
    }

    fn none() -> (r: Self)
        ensures
            r.is_empty_caps(),
            r.built_from_features(Seq::empty()),
            r.built_from_object(Seq::empty()),
    {
        let r = Capabilities {
            typed_approvals: false,
            pane_snapshots: false,
            session_workspace_cwd: false,
            raw: StrMap::new(),
        };
        assert(forall|q: Seq<char>| !crate::strmap::has_key(r.raw.seq(), q));
        r
    }

    /// Default desired capabilities: request every known flag.
    pub fn requested() -> (r: Self)
        ensures
            r.typed_approvals,
            r.pane_snapshots,
            r.session_workspace_cwd,
            r.raw.seq().len() == 0,
    {
        Capabilities {
            typed_approvals: true,
            pane_snapshots: true,
            session_workspace_cwd: true,
            raw: StrMap::new(),
        }
    }

    /// The names of `header_features`, in order.
    fn header_feature_list(&self) -> (r: Vec<&str>)
        ensures
            views_of(r@) == self.header_features(),
    {
        let mut features: Vec<&str> = Vec::new();
        if self.typed_approvals {
            features.push(APPROVAL_TYPED_V1);
        }
        if self.pane_snapshots {
            features.push(PANE_SNAPSHOTS_V1);
        }
        if self.session_workspace_cwd {
            features.push(SESSION_WORKSPACE_CWD_V1);
        }
        let ghost fixed = views_of(features@);
        assert(fixed =~= self.header_features().take(fixed.len() as int)
            .subrange(0, fixed.len() as int)) by {
            assert(self.header_features() =~= fixed + extra_features(self.raw.seq()));
        }
        let ghost s = self.raw.seq();
        let mut i: usize = 0;
        while i < self.raw.len()
            invariant
                i <= s.len(),
                s == self.raw.seq(),
                views_of(features@) == fixed + extra_features(s.take(i as int)),
            decreases s.len() - i,
        {
            let name = self.raw.key_at(i);
            let value = self.raw.value_at(i);
            let on = match value.as_bool() {
                Some(b) => b,
                None => false,
            };
            assert(s.take(i + 1).drop_last() =~= s.take(i as int));
            assert(s.take(i + 1).last() == s[i as int]);
            let ghost before = features@;
            if on && !str_eq(name, APPROVAL_TYPED_V1) && !str_eq(name, PANE_SNAPSHOTS_V1) && !str_eq(
                name,
                SESSION_WORKSPACE_CWD_V1,
            ) {
                features.push(name);
            }
            proof {
                if features@.len() > before.len() {
                    assert(features@ == before.push(name));
                    assert(views_of(features@) =~= views_of(before).push(name@));
                } else {
                    assert(features@ == before);
                }
            }
            assert(views_of(features@) =~= fixed + extra_features(s.take(i + 1)));
            i += 1;
        }
        assert(s.take(s.len() as int) =~= s);
        assert(views_of(features@) =~= self.header_features());
        features
    }

    /// Deterministic header value for `X-Octos-Ui-Features`: the known
    /// flags that are set, in fixed order, then the other `raw` entries
    /// that are `true`, in key order, joined by `", "`.
    pub fn feature_header_value(&self) -> (r: String)
        ensures
            r@ == join(self.header_features(), ", "@),
    {
        let features = self.header_feature_list();
        join_strs(features.as_slice(), ", ")
    }

    /// The features requested in the WebSocket handshake: those of the
    /// feature header, then `context.lifecycle.v1` unless already listed.
    pub open spec fn handshake_features(&self) -> Seq<Seq<char>> {
        if has_name(self.header_features(), CONTEXT_LIFECYCLE_V1@) {
            self.header_features()
        } else {
            self.header_features().push(CONTEXT_LIFECYCLE_V1@)
        }
    }

    /// Header value sent in the WebSocket handshake: the feature header's
    /// names plus the context-lifecycle feature, which this client always
    /// understands, joined by `", "`.
    pub fn handshake_header_value(&self) -> (r: String)
        ensures
            r@ == join(self.handshake_features(), ", "@),
    {
        let mut features = self.header_feature_list();
        if !list_has(features.as_slice(), CONTEXT_LIFECYCLE_V1) {
            features.push(CONTEXT_LIFECYCLE_V1);
            assert(views_of(features@) =~= self.header_features().push(CONTEXT_LIFECYCLE_V1@));
        }
        join_strs(features.as_slice(), ", ")
    }

    /// Builds from the server's `supported_features` list: a known name sets
    /// its flag, and every name lands in `raw` as `true`.
    pub fn from_supported_features(features: &[&str]) -> (r: Self)
        ensures
            r.built_from_features(views_of(features@)),
    {
        let ghost names = views_of(features@);
        let mut caps = Self::none();
        let mut i: usize = 0;
        while i < features.len()
            invariant
                i <= features.len(),
                names == views_of(features@),
                caps.built_from_features(names.take(i as int)),
            decreases features.len() - i,
        {
            let name = features[i];
            if str_eq(name, APPROVAL_TYPED_V1) {
                caps.typed_approvals = true;
            }
            if str_eq(name, PANE_SNAPSHOTS_V1) {
                caps.pane_snapshots = true;
            }
            if str_eq(name, SESSION_WORKSPACE_CWD_V1) {
                caps.session_workspace_cwd = true;
            }
            caps.raw.insert(name.to_owned(), JsonValue::Bool(true));
            assert(names.take(i + 1).drop_last() =~= names.take(i as int));
            assert(names.take(i + 1).last() == name@);
            i += 1;
        }
        assert(names.take(features.len() as int) =~= names);
        caps
    }

    /// Parses capabilities from a session-open-result-shaped value. The
    /// capabilities node is `/capabilities`, else `/result/capabilities`,
    /// else `/opened/capabilities`, else the value itself. A
    /// `supported_features` array in it is read as a feature list (its
    /// string elements); otherwise the node is read as a `{ name: bool }`
    /// object, each member landing in `raw` as given.
    pub fn parse(json: &JsonValue) -> (r: Self)
        ensures
            r.parsed_from(json.jview()),
    {
        let node: &JsonValue = match json.get("capabilities") {
            Some(n) => n,
            None => {
                let nested = match json.get("result") {
                    Some(x) => x.get("capabilities"),
                    None => None,
                };
                match nested {
                    Some(n) => n,
                    None => {
                        let opened = match json.get("opened") {
                            Some(x) => x.get("capabilities"),
                            None => None,
                        };
                        match opened {
                            Some(n) => n,
                            None => json,
                        }
                    },
                }
            },
        };
        assert(node.jview() == caps_node(json.jview()));
        let arr = match node.get("supported_features") {
            Some(v) => v.as_array(),
            None => None,
        };
        if let Some(a) = arr {
            let ghost av = Seq::new(a@.len(), |k: int| a@[k].jview());
            assert(supported_list(caps_node(json.jview())) == Some(av));
            let mut names: Vec<&str> = Vec::new();
            let mut i: usize = 0;
            while i < a.len()
                invariant
                    i <= a.len(),
                    av == Seq::new(a@.len(), |k: int| a@[k].jview()),
                    views_of(names@) == str_items(av.take(i as int)),
                decreases a.len() - i,
            {
                let ghost before = names@;
                if let Some(s) = a[i].as_str() {
                    names.push(s);
                    assert(views_of(names@) =~= views_of(before).push(s@));
                }
                assert(av.take(i + 1).drop_last() =~= av.take(i as int));
                assert(av.take(i + 1).last() == a@[i as int].jview());
                assert(views_of(names@) =~= str_items(av.take(i + 1)));
                i += 1;
            }
            assert(av.take(a.len() as int) =~= av);
            return Self::from_supported_features(names.as_slice());
        }
        let mut out = Self::none();
        if let Some(o) = node.as_object() {
            let ghost es = Seq::new(o@.len(), |k: int| (o@[k].0@, o@[k].1.jview()));
            let mut i: usize = 0;
            while i < o.len()
                invariant
                    i <= o.len(),
                    es == Seq::new(o@.len(), |k: int| (o@[k].0@, o@[k].1.jview())),
                    out.built_from_object(es.take(i as int)),
                decreases o.len() - i,
            {
                let k = &o[i].0;
                let v = &o[i].1;
                let on = match v.as_bool() {
                    Some(b) => b,
                    None => false,
                };
                if str_eq(k.as_str(), APPROVAL_TYPED_V1) {
                    out.typed_approvals = on;
                }
                if str_eq(k.as_str(), PANE_SNAPSHOTS_V1) {
                    out.pane_snapshots = on;
                }
                if str_eq(k.as_str(), SESSION_WORKSPACE_CWD_V1) {
                    out.session_workspace_cwd = on;
                }
                let vc = v.deep_clone();
                out.raw.insert(k.clone(), vc);
                assert(es.take(i + 1).drop_last() =~= es.take(i as int));
                assert(es.take(i + 1).last() == es[i as int]);
                i += 1;
            }
            assert(es.take(o.len() as int) =~= es);
        }
        out
    }
}

impl Default for Capabilities {
    /// No flag set, nothing advertised.
    fn default() -> (r: Self)
        ensures
            r.is_empty_caps(),
    {
        Self::none()
    }
}

} // verus!
