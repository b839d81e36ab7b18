//! A2App cards: LLM-generated ```runsplash blocks rendered as live UI. Each
//! card has its own key/value state; these functions prepare a card's body
//! for rendering and fold button events into its state.

use vstd::prelude::*;

use crate::numfmt::decimal;
use crate::search::{
    contains, contains_exec, find, find_exec, lemma_find_from_bounds, lemma_find_skip, matches_at,
    matches_at_exec, replace_all, replace_exec, starts_with, trim, trim_range, lines, lines_exec,
};
use crate::text::{append_str, join};
use crate::search::{lemma_rfind_bounds, rfind, rfind_exec, trim_end};
use crate::strmap::StrMap;
use crate::text::{chars_of, push_all, push_range, range_vec, string_of};

verus! {

/// Per-card state: `{{state.<key>}}` key to value.
pub type CardState = StrMap<String>;

pub open spec fn notify_pat() -> Seq<char> {
    seq!['a', 'g', 'e', 'n', 't', '.', 'n', 'o', 't', 'i', 'f', 'y', '(']
}

pub open spec fn notify_dq_pat() -> Seq<char> {
    notify_pat().push('"')
}

pub open spec fn notify_sq_pat() -> Seq<char> {
    notify_pat().push('\'')
}

pub open spec fn view_pat() -> Seq<char> {
    seq!['V', 'i', 'e', 'w', '{']
}

pub open spec fn state_open_pat() -> Seq<char> {
    seq!['{', '{', 's', 't', 'a', 't', 'e', '.']
}

pub open spec fn close_pat() -> Seq<char> {
    seq!['}', '}']
}

fn notify_chars() -> (v: Vec<char>)
    ensures
        v@ == notify_pat(),
{
    let v = vec!['a', 'g', 'e', 'n', 't', '.', 'n', 'o', 't', 'i', 'f', 'y', '('];
    assert(v@ =~= notify_pat());
    v
}

fn view_chars() -> (v: Vec<char>)
    ensures
        v@ == view_pat(),
{
    let v = vec!['V', 'i', 'e', 'w', '{'];
    assert(v@ =~= view_pat());
    v
}

fn state_open_chars() -> (v: Vec<char>)
    ensures
        v@ == state_open_pat(),
{
    let v = vec!['{', '{', 's', 't', 'a', 't', 'e', '.'];
    assert(v@ =~= state_open_pat());
    v
}

fn close_chars() -> (v: Vec<char>)
    ensures
        v@ == close_pat(),
{
    let v = vec!['}', '}'];
    assert(v@ =~= close_pat());
    v
}

/// The body with every `agent.notify("<ev>"` / `agent.notify('<ev>'`
/// tagged with the owning card's id: `agent.notify("<id>:<ev>"`.
pub open spec fn spec_tag_notify(body: Seq<char>, item_id: nat) -> Seq<char> {
    if !contains(body, notify_pat()) {
        body
    } else {
        replace_all(
            replace_all(body, notify_dq_pat(), notify_dq_pat() + decimal(item_id) + seq![':']),
            notify_sq_pat(),
            notify_sq_pat() + decimal(item_id) + seq![':'],
        )
    }
}

fn tag_notify_chars(body: &[char], item_id: usize) -> (r: Vec<char>)
    ensures
        r@ == spec_tag_notify(body@, item_id as nat),
{
    let pat = notify_chars();
    if !contains_exec(body, pat.as_slice()) {
        let mut out: Vec<char> = Vec::new();
        push_all(&mut out, body);
        return out;
    }
    let id = crate::numfmt::decimal_chars(item_id as u64);
    let mut dq = notify_chars();
    dq.push('"');
    let mut dq_rep = notify_chars();
    dq_rep.push('"');
    push_all(&mut dq_rep, id.as_slice());
    dq_rep.push(':');
    let mut sq = notify_chars();
    sq.push('\'');
    let mut sq_rep = notify_chars();
    sq_rep.push('\'');
    push_all(&mut sq_rep, id.as_slice());
    sq_rep.push(':');
    assert(dq_rep@ =~= notify_dq_pat() + decimal(item_id as nat) + seq![':']);
    assert(sq_rep@ =~= notify_sq_pat() + decimal(item_id as nat) + seq![':']);
    let first = replace_exec(body, dq.as_slice(), dq_rep.as_slice());
    replace_exec(first.as_slice(), sq.as_slice(), sq_rep.as_slice())
}

/// Tags every notify call in a card body with the card's id, so that a
/// button press routes back to the card that fired it.
pub fn tag_notify_calls(body: &str, item_id: usize) -> (r: String)
    ensures
        r@ == spec_tag_notify(body@, item_id as nat),
{
    let b = chars_of(body);
    let r = tag_notify_chars(b.as_slice(), item_id);
    string_of(r.as_slice())
}

pub open spec fn is_ascii_alpha(c: char) -> bool {
    ('a' <= c && c <= 'z') || ('A' <= c && c <= 'Z')
}

/// From index `i` on: each `View{` that does not follow an ASCII letter
/// becomes `SolidView{show_bg: false `; all else is copied.
pub open spec fn neutralize_from(s: Seq<char>, i: int) -> Seq<char>
    decreases s.len() - i,
{
    if i < 0 || i >= s.len() {
        Seq::empty()
    } else if matches_at(s, view_pat(), i) {
        (if i > 0 && is_ascii_alpha(s[i - 1]) {
            view_pat()
        } else {
            "SolidView{show_bg: false "@
        }) + neutralize_from(s, i + 5)
    } else {
        seq![s[i]] + neutralize_from(s, i + 1)
    }
}

pub open spec fn spec_neutralize(body: Seq<char>) -> Seq<char> {
    if !contains(body, view_pat()) {
        body
    } else {
        neutralize_from(body, 0)
    }
}

fn neutralize_chars(s: &[char]) -> (r: Vec<char>)
    ensures
        r@ == spec_neutralize(s@),
{
    let pat = view_chars();
    let mut out: Vec<char> = Vec::new();
    if !contains_exec(s, pat.as_slice()) {
        push_all(&mut out, s);
        return out;
    }
    let solid = chars_of("SolidView{show_bg: false ");
    let mut i: usize = 0;
    while i < s.len()
        invariant
            i <= s.len(),
            pat@ == view_pat(),
            solid@ == "SolidView{show_bg: false "@,
            out@ + neutralize_from(s@, i as int) == neutralize_from(s@, 0),
        decreases s.len() - i,
    {
        if matches_at_exec(s, pat.as_slice(), i) {
            let after_letter = i > 0 && (('a' <= s[i - 1] && s[i - 1] <= 'z') || ('A' <= s[i - 1]
                && s[i - 1] <= 'Z'));
            let ghost before = out@;
            if after_letter {
                push_all(&mut out, pat.as_slice());
            } else {
                push_all(&mut out, solid.as_slice());
            }
            assert(out@ + neutralize_from(s@, i + 5) =~= before + neutralize_from(s@, i as int));
            i += 5;
        } else {
            let ghost before = out@;
            out.push(s[i]);
            assert(out@ + neutralize_from(s@, i + 1) =~= before + neutralize_from(s@, i as int));
            i += 1;
        }
    }
    assert(out@ =~= neutralize_from(s@, 0));
    out
}

/// Rewrites each bare `View{` (not part of a longer widget name such as
/// `RoundedView{`) into `SolidView{show_bg: false `, an equivalent
/// invisible container that the Splash evaluator accepts.
pub fn neutralize_bare_view(body: &str) -> (r: String)
    ensures
        r@ == spec_neutralize(body@),
{
    let b = chars_of(body);
    let r = neutralize_chars(b.as_slice());
    string_of(r.as_slice())
}

/// The value a card shows for `key`: its state value, `"0"` when unset.
pub open spec fn state_value(state: CardState, key: Seq<char>) -> Seq<char> {
    match state.spec_get(key) {
        Some(v) => v@,
        None => seq!['0'],
    }
}

/// Each `{{state.<key>}}` token replaced by the card's value for the trimmed
/// key; text from an unterminated token on is kept as it is.
pub open spec fn subst_keys(rest: Seq<char>, state: CardState) -> Seq<char>
    decreases rest.len(),
{
    match find(rest, state_open_pat()) {
        None => rest,
        Some(pos) => if 0 <= pos && pos + 8 <= rest.len() {
            let after = rest.skip(pos + 8);
            match find(after, close_pat()) {
                Some(end) => if 0 <= end && end + 2 <= after.len() {
                    rest.take(pos) + state_value(state, trim(after.take(end))) + subst_keys(
                        after.skip(end + 2),
                        state,
                    )
                } else {
                    rest
                },
                None => rest,
            }
        } else {
            rest
        },
    }
}

pub open spec fn spec_subst_state(text: Seq<char>, state: CardState) -> Seq<char> {
    if !contains(text, state_open_pat()) {
        text
    } else {
        subst_keys(text, state)
    }
}

fn subst_state_chars(s: &[char], state: &CardState) -> (r: Vec<char>)
    ensures
        r@ == spec_subst_state(s@, *state),
{
    let open = state_open_chars();
    let close = close_chars();
    let mut out: Vec<char> = Vec::new();
    if !contains_exec(s, open.as_slice()) {
        push_all(&mut out, s);
        return out;
    }
    let mut pos: usize = 0;
    assert(s@.skip(0) =~= s@);
    loop
        invariant
            pos <= s.len(),
            open@ == state_open_pat(),
            close@ == close_pat(),
            out@ + subst_keys(s@.skip(pos as int), *state) == subst_keys(s@, *state),
        decreases s.len() - pos,
    {
        let ghost rest = s@.skip(pos as int);
        proof {
            lemma_find_skip(s@, open@, pos as int, 0);
            lemma_find_from_bounds(s@, open@, pos as int);
        }
        match find_exec(s, open.as_slice(), pos) {
            None => {
                push_range(&mut out, s, pos, s.len());
                assert(s@.subrange(pos as int, s.len() as int) =~= rest);
                return out;
            },
            Some(j) => {
                assert(find(rest, open@) == Some(j - pos));
                assert(j + 8 <= s.len());
                let a = j + 8;
                proof {
                    lemma_find_skip(s@, close@, a as int, 0);
                    lemma_find_from_bounds(s@, close@, a as int);
                    assert(rest.skip(j - pos + 8) =~= s@.skip(a as int));
                }
                match find_exec(s, close.as_slice(), a) {
                    None => {
                        push_range(&mut out, s, pos, s.len());
                        assert(s@.subrange(pos as int, s.len() as int) =~= rest);
                        return out;
                    },
                    Some(e) => {
                        assert(e + 2 <= s.len());
                        push_range(&mut out, s, pos, j);
                        let raw_key = range_vec(s, a, e);
                        let (ks, ke) = trim_range(raw_key.as_slice());
                        let key_chars = range_vec(raw_key.as_slice(), ks, ke);
                        let key = string_of(key_chars.as_slice());
                        let ghost before = out@;
                        match state.get(key.as_str()) {
                            Some(v) => {
                                let vc = chars_of(v.as_str());
                                push_all(&mut out, vc.as_slice());
                            },
                            None => {
                                out.push('0');
                            },
                        }
                        proof {
                            assert(s@.subrange(pos as int, j as int) =~= rest.take(j - pos));
                            assert(raw_key@ =~= s@.skip(a as int).take(e - a));
                            assert(s@.skip(a as int).skip(e - a + 2) =~= s@.skip(e + 2));
                            assert(out@ =~= before + state_value(*state, trim(raw_key@)));
                        }
                        pos = e + 2;
                    },
                }
            },
        }
    }
}

/// Substitutes `{{state.<key>}}` tokens with the card's values; a missing
/// key renders `"0"`.
pub fn substitute_state_keys(text: &str, state: &CardState) -> (r: String)
    ensures
        r@ == spec_subst_state(text@, *state),
{
    let t = chars_of(text);
    let r = subst_state_chars(t.as_slice(), state);
    string_of(r.as_slice())
}

pub open spec fn name_pat_spaced() -> Seq<char> {
    seq!['/', '/', ' ', 'n', 'a', 'm', 'e', ':']
}

pub open spec fn name_pat_tight() -> Seq<char> {
    seq!['/', '/', 'n', 'a', 'm', 'e', ':']
}

fn name_spaced_chars() -> (v: Vec<char>)
    ensures
        v@ == name_pat_spaced(),
{
    let v = vec!['/', '/', ' ', 'n', 'a', 'm', 'e', ':'];
    assert(v@ =~= name_pat_spaced());
    v
}

fn name_tight_chars() -> (v: Vec<char>)
    ensures
        v@ == name_pat_tight(),
{
    let v = vec!['/', '/', 'n', 'a', 'm', 'e', ':'];
    assert(v@ =~= name_pat_tight());
    v
}

pub open spec fn is_ascii_upper(c: char) -> bool {
    'A' <= c && c <= 'Z'
}

pub open spec fn is_ascii_alnum(c: char) -> bool {
    ('a' <= c && c <= 'z') || ('A' <= c && c <= 'Z') || ('0' <= c && c <= '9')
}

pub open spec fn ascii_lower(c: char) -> char {
    if is_ascii_upper(c) {
        (((c as u8) + 32) as u8) as char
    } else {
        c
    }
}

/// The slug character for `c`: lower-cased ASCII alphanumerics, `-` for
/// anything else.
pub open spec fn slug_char(c: char) -> char {
    if is_ascii_alnum(c) {
        ascii_lower(c)
    } else {
        '-'
    }
}

pub open spec fn slug_map(s: Seq<char>) -> Seq<char> {
    Seq::new(s.len(), |i: int| slug_char(s[i]))
}

pub open spec fn trim_dashes_start(s: Seq<char>) -> Seq<char>
    decreases s.len(),
{
    if s.len() > 0 && s[0] == '-' {
        trim_dashes_start(s.drop_first())
    } else {
        s
    }
}

pub open spec fn trim_dashes_end(s: Seq<char>) -> Seq<char>
    decreases s.len(),
{
    if s.len() > 0 && s.last() == '-' {
        trim_dashes_end(s.drop_last())
    } else {
        s
    }
}

/// The `// name:` (or `//name:`) directive's argument on a trimmed line.
pub open spec fn directive_rest(t: Seq<char>) -> Option<Seq<char>> {
    if starts_with(t, name_pat_spaced()) {
        Some(t.skip(8))
    } else if starts_with(t, name_pat_tight()) {
        Some(t.skip(7))
    } else {
        None
    }
}

/// The kebab slug made from a directive argument.
pub open spec fn slug_of(rest: Seq<char>) -> Seq<char> {
    trim_dashes_end(trim_dashes_start(slug_map(trim(rest))))
}

pub open spec fn first_48(s: Seq<char>) -> Seq<char> {
    if s.len() <= 48 {
        s
    } else {
        s.take(48)
    }
}

/// The card name in the lines `ls`: the first directive with a non-empty
/// slug (its first 48 characters), looking no further than the first line
/// that starts with an ASCII capital (where widget code begins).
pub open spec fn card_name_in(ls: Seq<Seq<char>>) -> Option<Seq<char>>
    decreases ls.len(),
{
    if ls.len() == 0 {
        None
    } else {
        let t = trim(ls[0]);
        let found = match directive_rest(t) {
            Some(rest) => if slug_of(rest).len() > 0 {
                Some(first_48(slug_of(rest)))
            } else {
                None
            },
            None => None,
        };
        if found is Some {
            found
        } else if t.len() > 0 && is_ascii_upper(t[0]) {
            None
        } else {
            card_name_in(ls.drop_first())
        }
    }
}

fn ascii_lower_exec(c: char) -> (r: char)
    ensures
        r == ascii_lower(c),
{
    if 'A' <= c && c <= 'Z' {
        (((c as u8) + 32) as u8) as char
    } else {
        c
    }
}

/// The slug of a directive argument.
fn slug_chars(rest: &[char]) -> (r: Vec<char>)
    ensures
        r@ == slug_of(rest@),
{
    let (a, b) = trim_range(rest);
    let mut m: Vec<char> = Vec::new();
    let mut i = a;
    while i < b
        invariant
            a <= i <= b <= rest.len(),
            m@ == slug_map(rest@.subrange(a as int, i as int)),
        decreases b - i,
    {
        let c = rest[i];
        let sc = if ('a' <= c && c <= 'z') || ('A' <= c && c <= 'Z') || ('0' <= c && c <= '9') {
            ascii_lower_exec(c)
        } else {
            '-'
        };
        m.push(sc);
        assert(m@ =~= slug_map(rest@.subrange(a as int, i + 1)));
        i += 1;
    }
    let ghost full = m@;
    let mut lo: usize = 0;
    assert(full.skip(0) =~= full);
    while lo < m.len() && m[lo] == '-'
        invariant
            lo <= m.len(),
            m@ == full,
            trim_dashes_start(full) == trim_dashes_start(full.skip(lo as int)),
        decreases m.len() - lo,
    {
        assert(full.skip(lo + 1) =~= full.skip(lo as int).drop_first());
        lo += 1;
    }
    let mut hi: usize = m.len();
    assert(full.skip(lo as int) =~= full.subrange(lo as int, m.len() as int));
    while hi > lo && m[hi - 1] == '-'
        invariant
            lo <= hi <= m.len(),
            m@ == full,
            trim_dashes_end(trim_dashes_start(full)) == trim_dashes_end(full.subrange(lo as int, hi as int)),
        decreases hi,
    {
        assert(full.subrange(lo as int, hi - 1) =~= full.subrange(lo as int, hi as int).drop_last());
        hi -= 1;
    }
    proof {
        let x = full.subrange(lo as int, hi as int);
        assert(x.len() == 0 || x.last() != '-');
        assert(trim_dashes_end(x) == x);
    }
    range_vec(m.as_slice(), lo, hi)
}

/// The name in a card body's `// name: <slug>` directive, sanitized to a
/// stable kebab slug of at most 48 characters.
pub fn extract_card_name(body: &str) -> (r: Option<String>)
    ensures
        match r {
            Some(n) => card_name_in(lines(body@)) == Some(n@),
            None => card_name_in(lines(body@)) is None,
        },
{
    let b = chars_of(body);
    let ls = lines_exec(b.as_slice());
    let ghost all = lines(b@);
    let spaced = name_spaced_chars();
    let tight = name_tight_chars();
    let mut i: usize = 0;
    assert(all.skip(0) =~= all);
    while i < ls.len()
        invariant
            i <= ls.len(),
            all == lines(body@),
            ls@.len() == all.len(),
            forall|k: int| 0 <= k < ls@.len() ==> (#[trigger] ls@[k])@ == all[k],
            spaced@ == name_pat_spaced(),
            tight@ == name_pat_tight(),
            card_name_in(all) == card_name_in(all.skip(i as int)),
        decreases ls.len() - i,
    {
        let line = &ls[i];
        let (ta, tb) = trim_range(line.as_slice());
        let t = range_vec(line.as_slice(), ta, tb);
        let ghost tv = trim(all[i as int]);
        assert(t@ == tv);
        let rest: Option<Vec<char>> = if matches_at_exec(t.as_slice(), spaced.as_slice(), 0) {
            Some(range_vec(t.as_slice(), 8, t.len()))
        } else if matches_at_exec(t.as_slice(), tight.as_slice(), 0) {
            Some(range_vec(t.as_slice(), 7, t.len()))
        } else {
            None
        };
        proof {
            assert(all.skip(i as int)[0] == all[i as int]);
            assert(all.skip(i as int).drop_first() =~= all.skip(i + 1));
            if rest is Some {
                assert(rest.unwrap()@ =~= directive_rest(tv).unwrap());
            } else {
                assert(directive_rest(tv) is None);
            }
        }
        let ghost cur = all.skip(i as int);
        let ghost found = match directive_rest(tv) {
            Some(r) => if slug_of(r).len() > 0 {
                Some(first_48(slug_of(r)))
            } else {
                None
            },
            None => None,
        };
        assert(card_name_in(cur) == if found is Some {
            found
        } else if tv.len() > 0 && is_ascii_upper(tv[0]) {
            None
        } else {
            card_name_in(cur.drop_first())
        });
        if let Some(rv) = rest {
            let slug = slug_chars(rv.as_slice());
            if slug.len() > 0 {
                let n = if slug.len() <= 48 { slug.len() } else { 48 };
                let name = range_vec(slug.as_slice(), 0, n);
                proof {
                    assert(name@ =~= first_48(slug@));
                }
                return Some(string_of(name.as_slice()));
            }
        }
        assert(found is None);
        if t.len() > 0 && 'A' <= t[0] && t[0] <= 'Z' {
            return None;
        }
        i += 1;
    }
    None
}

/// A line whose trimmed text starts with the name directive.
pub open spec fn is_name_line(l: Seq<char>) -> bool {
    starts_with(trim(l), name_pat_spaced()) || starts_with(trim(l), name_pat_tight())
}

/// The lines that are not name-directive lines, in order.
pub open spec fn kept_lines(ls: Seq<Seq<char>>) -> Seq<Seq<char>>
    decreases ls.len(),
{
    if ls.len() == 0 {
        Seq::empty()
    } else {
        kept_lines(ls.drop_last()) + if is_name_line(ls.last()) {
            Seq::empty()
        } else {
            seq![ls.last()]
        }
    }
}

pub open spec fn spec_strip_name(body: Seq<char>) -> Seq<char> {
    if !contains(body, name_pat_spaced()) && !contains(body, name_pat_tight()) {
        body
    } else {
        join(kept_lines(lines(body)), seq!['\n'])
    }
}

/// `parts` joined with `sep`.
fn join_chars(parts: &Vec<Vec<char>>, sep: char) -> (r: Vec<char>)
    ensures
        r@ == join(Seq::new(parts@.len(), |i: int| parts@[i]@), seq![sep]),
{
    let ghost ps = Seq::new(parts@.len(), |i: int| parts@[i]@);
    let mut out: Vec<char> = Vec::new();
    let mut i: usize = 0;
    while i < parts.len()
        invariant
            i <= parts.len(),
            ps == Seq::new(parts@.len(), |i: int| parts@[i]@),
            out@ == join(ps.take(i as int), seq![sep]),
        decreases parts.len() - i,
    {
        if i > 0 {
            out.push(sep);
        }
        push_all(&mut out, parts[i].as_slice());
        assert(ps.take(i + 1).drop_last() =~= ps.take(i as int));
        assert(ps.take(i + 1).last() == parts@[i as int]@);
        assert(i > 0 ==> out@ =~= join(ps.take(i as int), seq![sep]) + seq![sep] + parts@[i as int]@);
        i += 1;
    }
    assert(ps.take(parts.len() as int) =~= ps);
    out
}

fn strip_name_chars(b: &[char]) -> (r: Vec<char>)
    ensures
        r@ == spec_strip_name(b@),
{
    let spaced = name_spaced_chars();
    let tight = name_tight_chars();
    if !contains_exec(b, spaced.as_slice()) && !contains_exec(b, tight.as_slice()) {
        let mut out: Vec<char> = Vec::new();
        push_all(&mut out, b);
        return out;
    }
    let ls = lines_exec(b);
    let ghost all = lines(b@);
    let mut kept: Vec<Vec<char>> = Vec::new();
    let mut i: usize = 0;
    while i < ls.len()
        invariant
            i <= ls.len(),
            ls@.len() == all.len(),
            forall|k: int| 0 <= k < ls@.len() ==> (#[trigger] ls@[k])@ == all[k],
            spaced@ == name_pat_spaced(),
            tight@ == name_pat_tight(),
            Seq::new(kept@.len(), |k: int| kept@[k]@) == kept_lines(all.take(i as int)),
        decreases ls.len() - i,
    {
        let line = &ls[i];
        let (ta, tb) = trim_range(line.as_slice());
        let t = range_vec(line.as_slice(), ta, tb);
        let name_line = matches_at_exec(t.as_slice(), spaced.as_slice(), 0) || matches_at_exec(
            t.as_slice(),
            tight.as_slice(),
            0,
        );
        let ghost before = Seq::new(kept@.len(), |k: int| kept@[k]@);
        assert(all.take(i + 1).drop_last() =~= all.take(i as int));
        assert(all.take(i + 1).last() == all[i as int]);
        if !name_line {
            let copy = range_vec(line.as_slice(), 0, line.len());
            assert(copy@ =~= all[i as int]);
            kept.push(copy);
            assert(Seq::new(kept@.len(), |k: int| kept@[k]@) =~= before.push(all[i as int]));
        }
        i += 1;
    }
    assert(all.take(ls.len() as int) =~= all);
    join_chars(&kept, '\n')
}

/// Drops the `// name:` directive line before the body reaches the Splash
/// evaluator, which does not accept `//` comments.
pub fn strip_card_name_line(body: &str) -> (r: String)
    ensures
        r@ == spec_strip_name(body@),
{
    let b = chars_of(body);
    let r = strip_name_chars(b.as_slice());
    string_of(r.as_slice())
}

/// A raw card body prepared for one card: name line dropped, state
/// substituted, bare `View{` neutralized, notify calls tagged.
pub open spec fn spec_card_body(body: Seq<char>, item_id: nat, state: CardState) -> Seq<char> {
    spec_tag_notify(spec_neutralize(spec_subst_state(spec_strip_name(body), state)), item_id)
}

fn card_body_chars(body: &[char], item_id: usize, state: &CardState) -> (r: Vec<char>)
    ensures
        r@ == spec_card_body(body@, item_id as nat, *state),
{
    let named = strip_name_chars(body);
    let subst = subst_state_chars(named.as_slice(), state);
    let safe = neutralize_chars(subst.as_slice());
    tag_notify_chars(safe.as_slice(), item_id)
}

/// Prepares a raw Splash body for card `item_id`.
pub fn substitute_card_state(body: &str, item_id: usize, state: &CardState) -> (r: String)
    ensures
        r@ == spec_card_body(body@, item_id as nat, *state),
{
    let b = chars_of(body);
    let r = card_body_chars(b.as_slice(), item_id, state);
    string_of(r.as_slice())
}

pub const SPLASH_PROMPT_HEAD: &'static str = "You are a UI-generation agent. Respond with EXACTLY ONE ```runsplash fenced code block containing Makepad Splash syntax — no prose before, between, or after it, and no other fenced blocks.\n\nHard rules:\n- `use mod.prelude.widgets.*` is auto-prepended; do NOT write imports.\n- NAME the card: the FIRST line inside the block is `// name: <short-kebab-slug>` (a unique, descriptive, STABLE id — e.g. `weather-sf`, `stocks-watchlist`). It is stripped before rendering. If you are refining a card from YOUR SAVED CARDS below, REUSE its exact same name.\n- Do NOT wrap output in Root{} or Window{}; it is inserted into an existing container.\n- Interactivity + state: each card has its OWN independent state (keys you choose). Read a value with `{{state.<key>}}` inside a string; change it from a button. Events: `inc`/`dec`/`reset` adjust a NUMERIC key, `set` stores a string. The payload names the key (default key is `count`):\nButton{ text: \"+1\" on_click: || agent.notify(\"inc\", {key: \"count\"}) }\nLabel{ text: \"Count: {{state.count}}\" }\nButton{ text: \"Happy\" on_click: || agent.notify(\"set\", {key: \"mood\", value: \"happy\"}) }\n- Internet images: fetch a remote picture with `http_resource` in an Image widget (downloads asynchronously, appears when ready). Use a real, publicly-reachable HTTPS URL (png/jpg/webp/svg):\nImage{ src: http_resource(\"https://picsum.photos/400/240\") fit: ImageFit.Smallest width: Fill height: 180 }\nFor a REFRESHABLE image, bake the base URL literally and vary ONLY a cache-buster query param bound to a counter, plus a button that increments it — each tap loads a new picture (never put `{{state.*}}` as the WHOLE url):\nImage{ src: http_resource(\"https://picsum.photos/400/240?sig={{state.count}}\") fit: ImageFit.Smallest width: Fill height: 180 }\nButton{ text: \"New Photo\" on_click: || agent.notify(\"inc\", {}) }\n- IMMERSIVE FULL-SCREEN WEATHER/PLACE CARD (iOS lock-screen style — the DEFAULT for weather, places, travel): a REAL photo of the place FILLS the whole screen (9:16) with the text overlaid at the bottom over a dark gradient. Use this EXACT structure — an Overlay of image, then dark scrim, then text pinned to the bottom:\nView{ width: Fill height: 700 flow: Overlay\nImage{ src: http_resource(\"https://loremflickr.com/1080/1920/tokyo,skyline,cityscape\") fit: ImageFit.CropToFill width: Fill height: Fill }\nGradientYView{ width: Fill height: Fill draw_bg.color: #00000000 draw_bg.color_2: #000000E6 }\nView{ width: Fill height: Fill flow: Down align: {x: 0.0 y: 1.0} padding: Inset{left: 28 right: 28 bottom: 64}\nLabel{ text: \"Tokyo\" draw_text.color: #ffffff draw_text.text_style.font_size: 26 }\nLabel{ text: \"72°\" draw_text.color: #ffffff draw_text.text_style.font_size: 88 margin: Inset{top: 8 bottom: 4} }\nLabel{ text: \"Sunny\" draw_text.color: #ffffff draw_text.text_style.font_size: 19 }\nLabel{ text: \"H:78°  L:64°\" draw_text.color: #ffffffcc draw_text.text_style.font_size: 16 }\n}\n}\nREAL IMAGE: `https://loremflickr.com/1080/1920/<city>,skyline,cityscape` returns a real Flickr photo of that place (comma-separated keywords, url-encoded). Add `?lock=<n>` to lock one stable image (e.g. `.../1080/1920/paris,eiffel?lock=7`). The GradientYView is a dark scrim (transparent top -> dark bottom) so the WHITE text stays readable over ANY photo. Keep `height: 700` (fills the whole screen), and put ALL text in the BOTTOM overlay (align y: 1.0). The hero temperature keeps its margin.\n- Keep it self-contained and visually clean (padding, spacing, rounded containers, readable labels).\n- CRITICAL OVERRIDE (takes precedence over the manual's `let` examples): the block MUST BEGIN DIRECTLY with a single root container widget — e.g. `RoundedView{` or `View{`. Do NOT start with, or use, any top-level `let X = …` component definitions. Inline/repeat any shared structure directly, even if it makes the output longer. A leading `let` will fail to render.\n- NO custom shaders/MPSL: never write `pixel: fn`, `fn(`, `let`, `mut`, `Sdf2d`, `uniform(`, `instance(`, or `.mix(` inside `draw_bg` — they crash the WHOLE card into ugly raw source. WIDGET-PROPERTY RULES (setting a property a widget does not have ALSO crashes the card): a ROUNDED card is `RoundedView{ draw_bg.color: #hex draw_bg.border_radius: 20.0 }` (solid fill, supports border_radius). A GRADIENT is `GradientYView{ draw_bg.color: #topHex draw_bg.color_2: #botHex }` (vertical; `GradientXView` = horizontal) — it is a full-width RECTANGLE and has NO border_radius, so NEVER put `border_radius` on a Gradient*View. Pick one per container; don't mix. Style ONLY with: draw_bg.color, draw_bg.color_2 (gradient views only), draw_bg.border_radius (rounded views only), draw_text.color, draw_text.text_style.font_size.\n- iOS REFINEMENT (make it look like a real iOS app): prefer `RoundedShadowView{ draw_bg.color: #hex draw_bg.border_radius: 24.0 draw_bg.shadow_color: #00000055 draw_bg.shadow_offset: vec2(0.0, 8.0) draw_bg.shadow_radius: 24.0 margin: 14 }` as the CARD container — rounded corners + a soft iOS drop shadow (it DOES support border_radius; keep a `margin` so the shadow has room). WRAP long text: any headline/sentence Label MUST set `width: Fill` so it wraps to multiple lines instead of clipping. Size hierarchy via font_size: hero value 52-72 (a very large number like a temperature MUST have `margin: Inset{top: 10 bottom: 6}` and its OWN line, or its tall glyph tops get clipped by the label above it), title 16-18, row 15, caption 12-13; make secondary text translucent `draw_text.color: #ffffff99` (or `#8e8e93` on light cards). Hairline row dividers: `SolidView{ width: Fill height: 1 draw_bg.color: #ffffff14 }`. iOS system colors: blue #0a84ff, red #ff453a, green #32d74b, dark card #1c1c1e, light card #f2f2f7. Generous, consistent padding (18-24) and spacing (10-14).\n- LIVE DATA: you may fetch real data with a web tool, but it reliably returns only SIMPLE single-endpoint sources — e.g. weather `https://wttr.in/<City>?format=j1`. Multi-request or big-JSON APIs (stock quotes, news lists) usually FAIL; if the user did not supply those numbers, ask for them — never invent live prices or headlines.\n- ITERATE: if the user asks to refine a card you built earlier in this chat, reuse its structure and change only what they asked; still exactly one runsplash block.\n\nFollow this Splash manual EXACTLY (except the overrides above):\n\n";

pub const SPLASH_PROMPT_MID: &'static str = "\n\nUser request: ";

pub const SPLASH_FOLLOWUP_HEAD: &'static str = "Respond with EXACTLY ONE ```runsplash fenced block (Makepad Splash syntax, no prose, no other fences), following the Splash manual already provided earlier in this conversation. Same rules: no imports, no Root/Window wrapper. FIRST line inside the block = `// name: <slug>` (reuse the same name when refining one of YOUR SAVED CARDS below). Each card has its OWN state: read `{{state.<key>}}`; change it with `agent.notify(\"inc\"/\"dec\"/\"reset\", {key: \"count\"})` for numbers or `agent.notify(\"set\", {key, value})` for strings. Internet images: `Image{ src: http_resource(\"https://…\") fit: ImageFit.Smallest }`; refreshable = cache-buster `?sig={{state.count}}` + a button that does `inc`. CRITICAL: begin DIRECTLY with a single root container widget (e.g. `RoundedView{`) — NO top-level `let X = …` component definitions (inline/repeat instead); a leading `let` fails to render.\n\nUser request: ";

pub open spec fn rs_pat() -> Seq<char> {
    seq!['`', '`', '`', 'r', 'u', 'n', 's', 'p', 'l', 'a', 's', 'h']
}

pub open spec fn fence_pat() -> Seq<char> {
    seq!['`', '`', '`']
}

fn rs_chars() -> (v: Vec<char>)
    ensures
        v@ == rs_pat(),
{
    let v = vec!['`', '`', '`', 'r', 'u', 'n', 's', 'p', 'l', 'a', 's', 'h'];
    assert(v@ =~= rs_pat());
    v
}

fn fence_chars() -> (v: Vec<char>)
    ensures
        v@ == fence_pat(),
{
    let v = vec!['`', '`', '`'];
    assert(v@ =~= fence_pat());
    v
}

fn newline_chars() -> (v: Vec<char>)
    ensures
        v@ == seq!['\n'],
{
    let v = vec!['\n'];
    assert(v@ =~= seq!['\n']);
    v
}

/// Each ```runsplash block of `rest` with its body prepared for card
/// `item_id`; text outside those blocks (fences included) is copied.
pub open spec fn resolve_rest(rest: Seq<char>, item_id: nat, state: CardState) -> Seq<char>
    decreases rest.len(),
{
    match find(rest, rs_pat()) {
        None => rest,
        Some(open) => if 0 <= open && open + 12 <= rest.len() {
            let am = open + 12;
            let line_end = match find(rest.skip(am), seq!['\n']) {
                Some(nl) => if 0 <= nl && am + nl + 1 <= rest.len() {
                    am + nl + 1
                } else {
                    rest.len() as int
                },
                None => rest.len() as int,
            };
            let head = rest.take(line_end);
            let br = rest.skip(line_end);
            match find(br, fence_pat()) {
                Some(close) => if 0 <= close <= br.len() {
                    head + spec_card_body(br.take(close), item_id, state) + resolve_rest(
                        br.skip(close),
                        item_id,
                        state,
                    )
                } else {
                    rest
                },
                None => head + spec_card_body(br, item_id, state),
            }
        } else {
            rest
        },
    }
}

pub open spec fn spec_resolve(text: Seq<char>, item_id: nat, state: CardState) -> Seq<char> {
    if !contains(text, rs_pat()) {
        text
    } else {
        resolve_rest(text, item_id, state)
    }
}

proof fn lemma_resolve_step(
    s: Seq<char>,
    pos: int,
    j: int,
    le: int,
    c: Option<int>,
    item_id: nat,
    state: CardState,
)
    requires
        0 <= pos <= j,
        j + 12 <= le <= s.len(),
        find(s.skip(pos), rs_pat()) == Some(j - pos),
        le == match find(s.skip(j + 12), seq!['\n']) {
            Some(n) => j + 12 + n + 1,
            None => s.len() as int,
        },
        match c {
            Some(c) => le <= c <= s.len() && find(s.skip(le), fence_pat()) == Some(c - le),
            None => find(s.skip(le), fence_pat()) is None,
        },
    ensures
        resolve_rest(s.skip(pos), item_id, state) == s.subrange(pos, le) + match c {
            Some(c) => spec_card_body(s.subrange(le, c), item_id, state) + resolve_rest(
                s.skip(c),
                item_id,
                state,
            ),
            None => spec_card_body(s.skip(le), item_id, state),
        },
{
    let rest = s.skip(pos);
    crate::search::lemma_find_from_bounds(s.skip(j + 12), seq!['\n'], 0);
    crate::search::lemma_find_from_bounds(s.skip(le), fence_pat(), 0);
    assert(rest.skip(j - pos + 12) =~= s.skip(j + 12));
    assert(rest.take(le - pos) =~= s.subrange(pos, le));
    assert(rest.skip(le - pos) =~= s.skip(le));
    match c {
        Some(c) => {
            assert(s.skip(le).take(c - le) =~= s.subrange(le, c));
            assert(s.skip(le).skip(c - le) =~= s.skip(c));
        },
        None => {},
    }
}

/// Substitutes state and tags notify calls only inside the ```runsplash
/// blocks of a whole message; prose and other fences stay verbatim.
#[verifier::spinoff_prover]
#[verifier::rlimit(40)]
pub fn resolve_a2app_card(text: &str, item_id: usize, state: &CardState) -> (r: String)
    ensures
        r@ == spec_resolve(text@, item_id as nat, *state),
{
    let s = chars_of(text);
    let rs = rs_chars();
    let fence = fence_chars();
    let nl = newline_chars();
    if !contains_exec(s.as_slice(), rs.as_slice()) {
        return text.to_owned();
    }
    let mut out: Vec<char> = Vec::new();
    let mut pos: usize = 0;
    assert(s@.skip(0) =~= s@);
    loop
        invariant
            pos <= s.len(),
            s@ == text@,
            rs@ == rs_pat(),
            fence@ == fence_pat(),
            nl@ == seq!['\n'],
            out@ + resolve_rest(s@.skip(pos as int), item_id as nat, *state) == resolve_rest(
                s@,
                item_id as nat,
                *state,
            ),
        decreases s.len() - pos,
    {
        proof {
            lemma_find_skip(s@, rs@, pos as int, 0);
            lemma_find_from_bounds(s@, rs@, pos as int);
        }
        match find_exec(s.as_slice(), rs.as_slice(), pos) {
            None => {
                push_range(&mut out, s.as_slice(), pos, s.len());
                assert(s@.subrange(pos as int, s.len() as int) =~= s@.skip(pos as int));
                return string_of(out.as_slice());
            },
            Some(j) => {
                assert(rs@.len() == 12);
                assert(j + 12 <= s.len());
                let am = j + 12;
                proof {
                    lemma_find_skip(s@, nl@, am as int, 0);
                    lemma_find_from_bounds(s@, nl@, am as int);
                }
                let line_end = match find_exec(s.as_slice(), nl.as_slice(), am) {
                    Some(n) => n + 1,
                    None => s.len(),
                };
                proof {
                    lemma_find_skip(s@, fence@, line_end as int, 0);
                    lemma_find_from_bounds(s@, fence@, line_end as int);
                }
                let ghost before = out@;
                push_range(&mut out, s.as_slice(), pos, line_end);
                match find_exec(s.as_slice(), fence.as_slice(), line_end) {
                    Some(c) => {
                        proof {
                            lemma_resolve_step(s@, pos as int, j as int, line_end as int, Some(c as int), item_id as nat, *state);
                        }
                        let body = range_vec(s.as_slice(), line_end, c);
                        let card = card_body_chars(body.as_slice(), item_id, state);
                        push_all(&mut out, card.as_slice());
                        pos = c;
                    },
                    None => {
                        proof {
                            lemma_resolve_step(s@, pos as int, j as int, line_end as int, None, item_id as nat, *state);
                        }
                        let body = range_vec(s.as_slice(), line_end, s.len());
                        let card = card_body_chars(body.as_slice(), item_id, state);
                        push_all(&mut out, card.as_slice());
                        assert(body@ =~= s@.skip(line_end as int));
                        return string_of(out.as_slice());
                    },
                }
            },
        }
    }
}

pub open spec fn building_note() -> Seq<char> {
    "\u{1F6E0} Building app UI\u{2026}"@
}

/// While a reply streams, an unclosed last ```runsplash block is cut off and
/// replaced by a building note, so the card renders once, when closed.
pub open spec fn spec_defer(text: Seq<char>) -> Seq<char> {
    match rfind(text, rs_pat()) {
        None => text,
        Some(start) => if 0 <= start && start + 12 <= text.len() {
            let after = text.skip(start + 12);
            let closed = match find(after, seq!['\n']) {
                Some(n) => if 0 <= n < after.len() {
                    contains(after.skip(n + 1), fence_pat())
                } else {
                    false
                },
                None => false,
            };
            if closed {
                text
            } else {
                text.take(start) + building_note()
            }
        } else {
            text
        },
    }
}

/// Holds back an unclosed ```runsplash block of a streaming reply.
pub fn defer_unclosed_runsplash(text: &str) -> (r: String)
    ensures
        r@ == spec_defer(text@),
{
    let s = chars_of(text);
    let rs = rs_chars();
    let nl = newline_chars();
    let fence = fence_chars();
    proof {
        lemma_rfind_bounds(s@, rs@, s@.len() - rs@.len());
    }
    match rfind_exec(s.as_slice(), rs.as_slice()) {
        None => text.to_owned(),
        Some(start) => {
            assert(rs@.len() == 12);
            assert(matches_at(s@, rs@, start as int));
            assert(start + 12 <= s@.len());
            assert(s@.len() == s.len());
    assert(s@.len() == s.len());
            let a = start + 12;
            let ghost after = s@.skip(a as int);
            proof {
                lemma_find_skip(s@, nl@, a as int, 0);
                lemma_find_from_bounds(s@, nl@, a as int);
            }
            let closed = match find_exec(s.as_slice(), nl.as_slice(), a) {
                Some(n) => {
                    assert(n < s.len());
                    proof {
                        lemma_find_skip(s@, fence@, n + 1, 0);
                        assert(after.skip(n - a + 1) =~= s@.skip(n + 1));
                    }
                    match find_exec(s.as_slice(), fence.as_slice(), n + 1) {
                        Some(_) => true,
                        None => false,
                    }
                },
                None => false,
            };
            if closed {
                text.to_owned()
            } else {
                let head = range_vec(s.as_slice(), 0, start);
                let mut r = string_of(head.as_slice());
                append_str(&mut r, "\u{1F6E0} Building app UI\u{2026}");
                assert(head@ =~= s@.take(start as int));
                r
            }
        },
    }
}

/// The body of the first ```runsplash block, without trailing whitespace.
pub open spec fn spec_runsplash_body(text: Seq<char>) -> Option<Seq<char>> {
    match find(text, rs_pat()) {
        None => None,
        Some(start) => if 0 <= start && start + 12 <= text.len() {
            let after = text.skip(start + 12);
            match find(after, seq!['\n']) {
                None => None,
                Some(n) => if 0 <= n < after.len() {
                    let body = after.skip(n + 1);
                    match find(body, fence_pat()) {
                        None => None,
                        Some(e) => if 0 <= e <= body.len() {
                            Some(trim_end(body.take(e)))
                        } else {
                            None
                        },
                    }
                } else {
                    None
                },
            }
        } else {
            None
        },
    }
}

/// Pulls the body of the first closed ```runsplash block out of a message.
pub fn extract_runsplash_body(text: &str) -> (r: Option<String>)
    ensures
        match r {
            Some(b) => spec_runsplash_body(text@) == Some(b@),
            None => spec_runsplash_body(text@) is None,
        },
{
    let s = chars_of(text);
    let rs = rs_chars();
    let nl = newline_chars();
    let fence = fence_chars();
    proof {
        lemma_find_from_bounds(s@, rs@, 0);
    }
    let start = match find_exec(s.as_slice(), rs.as_slice(), 0) {
        Some(j) => j,
        None => return None,
    };
    assert(rs@.len() == 12);
    assert(matches_at(s@, rs@, start as int));
    assert(start + 12 <= s@.len());
    assert(s@.len() == s.len());
    let a = start + 12;
    let ghost after = s@.skip(a as int);
    proof {
        lemma_find_skip(s@, nl@, a as int, 0);
        lemma_find_from_bounds(s@, nl@, a as int);
    }
    let n = match find_exec(s.as_slice(), nl.as_slice(), a) {
        Some(n) => n,
        None => return None,
    };
    assert(n < s.len());
    let b = n + 1;
    proof {
        lemma_find_skip(s@, fence@, b as int, 0);
        lemma_find_from_bounds(s@, fence@, b as int);
        assert(after.skip(n - a + 1) =~= s@.skip(b as int));
    }
    let e = match find_exec(s.as_slice(), fence.as_slice(), b) {
        Some(e) => e,
        None => return None,
    };
    let ghost body = s@.skip(b as int).take(e - b);
    assert(s@.subrange(b as int, e as int) =~= body);
    let end = trim_end_len_to(s.as_slice(), b, e);
    let v = range_vec(s.as_slice(), b, end);
    Some(string_of(v.as_slice()))
}

/// The index where `trim_end` cuts `t[from..to]`.
fn trim_end_len_to(t: &[char], from: usize, to: usize) -> (end: usize)
    requires
        from <= to <= t.len(),
    ensures
        from <= end <= to,
        t@.subrange(from as int, end as int) == trim_end(t@.subrange(from as int, to as int)),
{
    let mut end = to;
    while end > from && crate::search::is_ws_exec(t[end - 1])
        invariant
            from <= end <= to,
            to <= t.len(),
            trim_end(t@.subrange(from as int, to as int)) == trim_end(t@.subrange(from as int, end as int)),
        decreases end,
    {
        assert(t@.subrange(from as int, end - 1) =~= t@.subrange(from as int, end as int).drop_last());
        end -= 1;
    }
    end
}

/// Directive for follow-up requests in a session that already holds the
/// Splash manual.
pub fn app_splash_followup(request: &str) -> (r: String)
    ensures
        r@ == SPLASH_FOLLOWUP_HEAD@ + request@,
{
    let mut r = SPLASH_FOLLOWUP_HEAD.to_owned();
    append_str(&mut r, request);
    r
}

/// The message sent in Splash mode: instructions, the Splash manual, then
/// the user's request.
pub fn app_splash_prompt(request: &str, manual: &str) -> (r: String)
    ensures
        r@ == SPLASH_PROMPT_HEAD@ + manual@ + SPLASH_PROMPT_MID@ + request@,
{
    let mut r = SPLASH_PROMPT_HEAD.to_owned();
    append_str(&mut r, manual);
    append_str(&mut r, SPLASH_PROMPT_MID);
    append_str(&mut r, request);
    r
}

/// The result of `str::to_lowercase` on `s`.
pub uninterp spec fn lowercase(s: Seq<char>) -> Seq<char>;

/// Lower-cases `s` (std `str::to_lowercase`, Unicode case mapping).
#[verifier::external_body]
fn to_lowercase(s: &str) -> (r: String)
    ensures
        r@ == lowercase(s@),
{
    s.to_lowercase()
}

/// The card id and lower-cased event of a tagged notify event id
/// `<card id>:<event>`; without a `:`, no card id.
pub open spec fn spec_split_event(event_id: Seq<char>) -> (Option<usize>, Seq<char>) {
    match find(event_id, seq![':']) {
        Some(i) => if 0 <= i < event_id.len() {
            (
                crate::numfmt::parse_usize(event_id.take(i)),
                lowercase(event_id.skip(i + 1)),
            )
        } else {
            (None, lowercase(event_id))
        },
        None => (None, lowercase(event_id)),
    }
}

/// Splits a tagged notify event id into the card id and the event.
pub fn split_notify_event(event_id: &str) -> (r: (Option<usize>, String))
    ensures
        r.0 == spec_split_event(event_id@).0,
        r.1@ == spec_split_event(event_id@).1,
{
    let s = chars_of(event_id);
    let colon = vec![':'];
    assert(colon@ =~= seq![':']);
    proof {
        crate::search::lemma_find_from_bounds(s@, colon@, 0);
    }
    match find_exec(s.as_slice(), colon.as_slice(), 0) {
        Some(i) => {
            assert(matches_at(s@, colon@, i as int));
            assert(i < s@.len());
            assert(s@.len() == s.len());
            let id_part = range_vec(s.as_slice(), 0, i);
            let rest = range_vec(s.as_slice(), i + 1, s.len());
            assert(id_part@ =~= s@.take(i as int));
            assert(rest@ =~= s@.skip(i + 1));
            let id = crate::numfmt::parse_usize_chars(id_part.as_slice());
            let rest_s = string_of(rest.as_slice());
            (id, to_lowercase(rest_s.as_str()))
        },
        None => (None, to_lowercase(event_id)),
    }
}

/// The key (default `count`) and string value a notify payload names.
pub open spec fn spec_payload_args(payload: crate::json::JsonView) -> (Seq<char>, Option<Seq<char>>) {
    (
        match payload.get("key"@) {
            Some(k) => match k.as_str() {
                Some(s) => s,
                None => "count"@,
            },
            None => "count"@,
        },
        match payload.get("value"@) {
            Some(v) => v.as_str(),
            None => None,
        },
    )
}

/// Reads `{key, value}` out of a notify payload.
pub fn notify_payload_args(payload: &crate::json::JsonValue) -> (r: (String, Option<String>))
    ensures
        r.0@ == spec_payload_args(payload.jview()).0,
        match r.1 {
            Some(v) => spec_payload_args(payload.jview()).1 == Some(v@),
            None => spec_payload_args(payload.jview()).1 is None,
        },
{
    let key = match payload.get("key") {
        Some(k) => match k.as_str() {
            Some(s) => s.to_owned(),
            None => "count".to_owned(),
        },
        None => "count".to_owned(),
    };
    let value = match payload.get("value") {
        Some(v) => match v.as_str() {
            Some(s) => Some(s.to_owned()),
            None => None,
        },
        None => None,
    };
    (key, value)
}

/// The counter a card holds under `key`: its value parsed as an `i64`, 0
/// when unset or not a number.
pub open spec fn counter_value(card: CardState, key: Seq<char>) -> int {
    match card.spec_get(key) {
        Some(v) => match crate::numfmt::parse_i64(v@) {
            Some(n) => n as int,
            None => 0,
        },
        None => 0,
    }
}

pub open spec fn is_inc_event(ev: Seq<char>) -> bool {
    contains(ev, "inc"@) || contains(ev, "plus"@) || contains(ev, "add"@)
}

pub open spec fn is_dec_event(ev: Seq<char>) -> bool {
    contains(ev, "dec"@) || contains(ev, "minus"@) || contains(ev, "sub"@)
}

pub open spec fn is_reset_event(ev: Seq<char>) -> bool {
    contains(ev, "reset"@) || contains(ev, "clear"@)
}

pub open spec fn is_set_event(ev: Seq<char>) -> bool {
    starts_with(ev, "set"@)
}

/// The text a card event stores under its key, or `None` when the event
/// changes nothing.
pub open spec fn spec_event_value(counter: int, ev: Seq<char>, value: Option<Seq<char>>) -> Option<Seq<char>> {
    if is_inc_event(ev) {
        Some(crate::numfmt::signed_decimal(counter + 1))
    } else if is_dec_event(ev) {
        Some(crate::numfmt::signed_decimal(counter - 1))
    } else if is_reset_event(ev) {
        Some(seq!['0'])
    } else if is_set_event(ev) {
        value
    } else {
        None
    }
}

fn has_sub(s: &[char], p: &str) -> (r: bool)
    ensures
        r == contains(s@, p@),
{
    let pc = chars_of(p);
    contains_exec(s, pc.as_slice())
}

/// The counter under `key`, as an `i64`.
fn counter_of(card: &CardState, key: &str) -> (n: i64)
    ensures
        n as int == counter_value(*card, key@),
{
    match card.get(key) {
        Some(v) => {
            let vc = chars_of(v.as_str());
            match crate::numfmt::parse_i64_chars(vc.as_slice()) {
                Some(n) => n,
                None => 0,
            }
        },
        None => 0,
    }
}

/// Folds one button event into a card's state: `inc`/`plus`/`add` and
/// `dec`/`minus`/`sub` step the numeric value under `key`, `reset`/`clear`
/// zero it, `set` stores `value`. Returns whether the state changed.
pub fn apply_card_event(card: &mut CardState, ev: &str, key: &str, value: Option<String>) -> (changed: bool)
    requires
        is_inc_event(ev@) ==> counter_value(*old(card), key@) < i64::MAX,
        !is_inc_event(ev@) && is_dec_event(ev@) ==> counter_value(*old(card), key@) > i64::MIN,
    ensures
        changed == spec_event_value(counter_value(*old(card), key@), ev@, opt_view(value)) is Some,
        match spec_event_value(counter_value(*old(card), key@), ev@, opt_view(value)) {
            Some(t) => (final(card).spec_get(key@) matches Some(v) && v@ == t) && forall|q: Seq<char>|
                q != key@ ==> #[trigger] final(card).spec_get(q) == old(card).spec_get(q),
            None => forall|q: Seq<char>| #[trigger] final(card).spec_get(q) == old(card).spec_get(q),
        },
{
    let e = chars_of(ev);
    let s = chars_of("set");
    if has_sub(e.as_slice(), "inc") || has_sub(e.as_slice(), "plus") || has_sub(e.as_slice(), "add") {
        let n = counter_of(card, key);
        let t = crate::numfmt::signed_decimal_chars(n + 1);
        card.insert(key.to_owned(), string_of(t.as_slice()));
        true
    } else if has_sub(e.as_slice(), "dec") || has_sub(e.as_slice(), "minus") || has_sub(e.as_slice(), "sub") {
        let n = counter_of(card, key);
        let t = crate::numfmt::signed_decimal_chars(n - 1);
        card.insert(key.to_owned(), string_of(t.as_slice()));
        true
    } else if has_sub(e.as_slice(), "reset") || has_sub(e.as_slice(), "clear") {
        card.insert(key.to_owned(), "0".to_owned());
        proof {
            reveal_strlit("0");
        }
        true
    } else if matches_at_exec(e.as_slice(), s.as_slice(), 0) {
        match value {
            Some(v) => {
                card.insert(key.to_owned(), v);
                true
            },
            None => false,
        }
    } else {
        false
    }
}

pub open spec fn opt_view(o: Option<String>) -> Option<Seq<char>> {
    match o {
        Some(s) => Some(s@),
        None => None,
    }
}

/// The counter under `key` of card `i`, 0 when the card has no state yet.
pub open spec fn prior_counter(cards: Map<usize, CardState>, i: usize, key: Seq<char>) -> int {
    if cards.contains_key(i) {
        counter_value(cards[i], key)
    } else {
        0
    }
}

/// Folding the event would step a counter past the range of `i64`: an
/// increment of a counter at `i64::MAX`, or a decrement of one at
/// `i64::MIN`.
pub open spec fn notify_overflows(cards: Map<usize, CardState>, event_id: Seq<char>, payload: crate::json::JsonView) -> bool {
    let (id, ev) = spec_split_event(event_id);
    let key = spec_payload_args(payload).0;
    match id {
        Some(i) => {
            ||| is_inc_event(ev) && prior_counter(cards, i, key) >= i64::MAX
            ||| !is_inc_event(ev) && is_dec_event(ev) && prior_counter(cards, i, key) <= i64::MIN
        },
        None => false,
    }
}

/// What folding the event `event_id` with `payload` into `cards` gives:
/// nothing changes for an event that names no card; otherwise the card's
/// state is created if need be, the value under the payload's key is set as
/// `spec_event_value` says, and every other card and key is kept.
pub open spec fn notify_post(
    cards: Map<usize, CardState>,
    after: Map<usize, CardState>,
    event_id: Seq<char>,
    payload: crate::json::JsonView,
    changed: bool,
) -> bool {
    let (id, ev) = spec_split_event(event_id);
    let (key, value) = spec_payload_args(payload);
    match id {
        None => !changed && after == cards,
        Some(i) => {
            let t = spec_event_value(prior_counter(cards, i, key), ev, value);
            &&& after.contains_key(i)
            &&& forall|j: usize|
                j != i ==> #[trigger] after.contains_key(j) == cards.contains_key(j) && (cards.contains_key(j)
                    ==> after[j] == cards[j])
            &&& changed == t is Some
            &&& (t matches Some(tv) ==> (after[i].spec_get(key) matches Some(v) && v@ == tv))
            &&& forall|q: Seq<char>|
                (q != key || t is None) ==> #[trigger] after[i].spec_get(q) == if cards.contains_key(i) {
                    cards[i].spec_get(q)
                } else {
                    None
                }
        },
    }
}

/// Card id to that card's state.
pub type CardStates = std::collections::BTreeMap<usize, CardState>;

/// Routes a button event from a Splash card to the card that fired it and
/// folds it into that card's state (creating an empty state for the card
/// if it had none). Returns whether any state changed.
pub fn apply_notify(cards: &mut CardStates, event_id: &str, payload: &crate::json::JsonValue) -> (changed: bool)
    requires
        !notify_overflows(old(cards)@, event_id@, payload.jview()),
    ensures
        notify_post(old(cards)@, final(cards)@, event_id@, payload.jview(), changed),
{
    broadcast use vstd::laws_cmp::group_laws_cmp, vstd::std_specs::btree::group_btree_axioms;
    let (id, ev) = split_notify_event(event_id);
    let (key, value) = notify_payload_args(payload);
    match id {
        None => false,
        Some(i) => {
            let mut card = match cards.remove(&i) {
                Some(c) => c,
                None => {
                    let c: CardState = StrMap::new();
                    assert(forall|q: Seq<char>| !crate::strmap::has_key(c.seq(), q));
                    c
                },
            };
            let changed = apply_card_event(&mut card, ev.as_str(), key.as_str(), value);
            cards.insert(i, card);
            changed
        },
    }
}

/// Folds a button event as `apply_notify` does, unless that would step a
/// counter past the range of `i64`: then nothing changes and the result is
/// `None`.
pub fn try_apply_notify(cards: &mut CardStates, event_id: &str, payload: &crate::json::JsonValue) -> (r: Option<bool>)
    ensures
        r is None <==> notify_overflows(old(cards)@, event_id@, payload.jview()),
        r is None ==> final(cards)@ == old(cards)@,
        r matches Some(changed) ==> notify_post(old(cards)@, final(cards)@, event_id@, payload.jview(), changed),
{
    broadcast use vstd::laws_cmp::group_laws_cmp, vstd::std_specs::btree::group_btree_axioms;
    let (id, ev) = split_notify_event(event_id);
    let (key, _value) = notify_payload_args(payload);
    if let Some(i) = id {
        let prior: i64 = match cards.get(&i) {
            Some(card) => counter_of(card, key.as_str()),
            None => 0,
        };
        let e = chars_of(ev.as_str());
        let inc = has_sub(e.as_slice(), "inc") || has_sub(e.as_slice(), "plus") || has_sub(e.as_slice(), "add");
        let dec = has_sub(e.as_slice(), "dec") || has_sub(e.as_slice(), "minus") || has_sub(e.as_slice(), "sub");
        if inc && prior == i64::MAX {
            return None;
        }
        if !inc && dec && prior == i64::MIN {
            return None;
        }
    }
    Some(apply_notify(cards, event_id, payload))
}

} // verus!
