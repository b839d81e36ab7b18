//! Substring search, replacement and trimming on character sequences, with
//! the meaning std's `str` methods of the same names have.

use vstd::prelude::*;

verus! {

/// `p` occurs in `s` at index `i`.
pub open spec fn matches_at(s: Seq<char>, p: Seq<char>, i: int) -> bool {
    0 <= i && i + p.len() <= s.len() && s.subrange(i, i + p.len()) == p
}

/// The first index `>= i` at which `p` occurs in `s`.
pub open spec fn find_from(s: Seq<char>, p: Seq<char>, i: int) -> Option<int>
    decreases s.len() + 1 - i,
{
    if i < 0 || i + p.len() > s.len() {
        None
    } else if matches_at(s, p, i) {
        Some(i)
    } else {
        find_from(s, p, i + 1)
    }
}

/// The first index at which `p` occurs in `s` (`str::find`).
pub open spec fn find(s: Seq<char>, p: Seq<char>) -> Option<int> {
    find_from(s, p, 0)
}

/// `p` occurs in `s` (`str::contains`).
pub open spec fn contains(s: Seq<char>, p: Seq<char>) -> bool {
    find(s, p) is Some
}

/// The last index `<= i` at which `p` occurs in `s`.
pub open spec fn rfind_to(s: Seq<char>, p: Seq<char>, i: int) -> Option<int>
    decreases i + 1,
{
    if i < 0 {
        None
    } else if matches_at(s, p, i) {
        Some(i)
    } else {
        rfind_to(s, p, i - 1)
    }
}

/// The last index at which `p` occurs in `s` (`str::rfind`).
pub open spec fn rfind(s: Seq<char>, p: Seq<char>) -> Option<int> {
    rfind_to(s, p, s.len() - p.len())
}

/// Every occurrence of `p` in `s`, scanning left to right without overlap,
/// replaced by `r` (`str::replace`).
pub open spec fn replace_all(s: Seq<char>, p: Seq<char>, r: Seq<char>) -> Seq<char>
    decreases s.len(),
{
    if p.len() == 0 {
        s
    } else {
        match find(s, p) {
            None => s,
            Some(j) => if 0 <= j && j + p.len() <= s.len() {
                s.take(j) + r + replace_all(s.skip(j + p.len()), p, r)
            } else {
                s
            },
        }
    }
}

pub proof fn lemma_find_from_bounds(s: Seq<char>, p: Seq<char>, i: int)
    requires
        0 <= i,
    ensures
        match find_from(s, p, i) {
            Some(j) => i <= j && matches_at(s, p, j) && forall|k: int|
                i <= k < j ==> !#[trigger] matches_at(s, p, k),
            None => forall|k: int| i <= k ==> !#[trigger] matches_at(s, p, k),
        },
    decreases s.len() + 1 - i,
{
    if i + p.len() > s.len() {
    } else if !matches_at(s, p, i) {
        lemma_find_from_bounds(s, p, i + 1);
    }
}

/// Searching the tail `s.skip(d)` is searching `s` from `d` on.
pub proof fn lemma_find_skip(s: Seq<char>, p: Seq<char>, d: int, k: int)
    requires
        0 <= d <= s.len(),
        0 <= k,
    ensures
        find_from(s.skip(d), p, k) == match find_from(s, p, d + k) {
            Some(j) => Some(j - d),
            None => None,
        },
    decreases s.len() + 1 - d - k,
{
    let t = s.skip(d);
    if k + p.len() > t.len() {
    } else {
        assert(t.subrange(k, k + p.len()) =~= s.subrange(d + k, d + k + p.len()));
        if !matches_at(t, p, k) {
            lemma_find_skip(s, p, d, k + 1);
        }
    }
}

/// Whether `p` occurs in `s` at `i`.
pub fn matches_at_exec(s: &[char], p: &[char], i: usize) -> (r: bool)
    ensures
        r == matches_at(s@, p@, i as int),
{
    if p.len() > s.len() || i > s.len() - p.len() {
        return false;
    }
    let mut k: usize = 0;
    while k < p.len()
        invariant
            k <= p.len(),
            i + p.len() <= s.len(),
            forall|m: int| 0 <= m < k ==> s@[i + m] == p@[m],
        decreases p.len() - k,
    {
        if s[i + k] != p[k] {
            assert(s@.subrange(i as int, i + p.len())[k as int] != p@[k as int]);
            return false;
        }
        k += 1;
    }
    assert(s@.subrange(i as int, i + p.len()) =~= p@);
    true
}

/// The first index `>= from` at which `p` occurs in `s`.
pub fn find_exec(s: &[char], p: &[char], from: usize) -> (r: Option<usize>)
    ensures
        match r {
            Some(j) => find_from(s@, p@, from as int) == Some(j as int),
            None => find_from(s@, p@, from as int) is None,
        },
{
    if p.len() > s.len() || from > s.len() - p.len() {
        return None;
    }
    let last = s.len() - p.len();
    let mut i = from;
    loop
        invariant
            from <= i <= last,
            last + p.len() == s.len(),
            find_from(s@, p@, from as int) == find_from(s@, p@, i as int),
        decreases last - i,
    {
        if matches_at_exec(s, p, i) {
            return Some(i);
        }
        if i == last {
            assert(find_from(s@, p@, i + 1) is None);
            return None;
        }
        i += 1;
    }
}

/// The last index at which `p` occurs in `s`.
pub fn rfind_exec(s: &[char], p: &[char]) -> (r: Option<usize>)
    ensures
        match r {
            Some(j) => rfind(s@, p@) == Some(j as int),
            None => rfind(s@, p@) is None,
        },
{
    if p.len() > s.len() {
        return None;
    }
    let mut i: usize = s.len() - p.len();
    loop
        invariant
            i <= s.len() - p.len(),
            rfind(s@, p@) == rfind_to(s@, p@, i as int),
        decreases i,
    {
        if matches_at_exec(s, p, i) {
            return Some(i);
        }
        if i == 0 {
            assert(rfind_to(s@, p@, -1) is None);
            return None;
        }
        i -= 1;
    }
}

/// Whether `p` occurs in `s`.
pub fn contains_exec(s: &[char], p: &[char]) -> (r: bool)
    ensures
        r == contains(s@, p@),
{
    match find_exec(s, p, 0) {
        Some(_) => true,
        None => false,
    }
}

/// `s` with every occurrence of the non-empty `p` replaced by `r`.
pub fn replace_exec(s: &[char], p: &[char], r: &[char]) -> (out: Vec<char>)
    requires
        p.len() > 0,
    ensures
        out@ == replace_all(s@, p@, r@),
{
    let mut out: Vec<char> = Vec::new();
    let mut pos: usize = 0;
    assert(s@.skip(0) =~= s@);
    loop
        invariant
            pos <= s.len(),
            p.len() > 0,
            out@ + replace_all(s@.skip(pos as int), p@, r@) == replace_all(s@, p@, r@),
        decreases s.len() - pos,
    {
        proof {
            lemma_find_skip(s@, p@, pos as int, 0);
            lemma_find_from_bounds(s@, p@, pos as int);
        }
        match find_exec(s, p, pos) {
            None => {
                let ghost t = s@.skip(pos as int);
                assert(find(t, p@) is None);
                assert(replace_all(t, p@, r@) == t);
                let ghost before = out@;
                let mut k = pos;
                while k < s.len()
                    invariant
                        pos <= k <= s.len(),
                        out@ == before + s@.subrange(pos as int, k as int),
                    decreases s.len() - k,
                {
                    out.push(s[k]);
                    assert(s@.subrange(pos as int, k + 1) =~= s@.subrange(pos as int, k as int).push(s@[k as int]));
                    k += 1;
                }
                assert(s@.subrange(pos as int, s.len() as int) =~= t);
                return out;
            },
            Some(j) => {
                let ghost t = s@.skip(pos as int);
                assert(find(t, p@) == Some(j - pos));
                assert(j + p.len() <= s.len());
                let mut k = pos;
                let ghost before = out@;
                while k < j
                    invariant
                        pos <= k <= j,
                        j <= s.len(),
                        out@ == before + s@.subrange(pos as int, k as int),
                    decreases j - k,
                {
                    out.push(s[k]);
                    assert(s@.subrange(pos as int, k + 1) =~= s@.subrange(pos as int, k as int).push(s@[k as int]));
                    k += 1;
                }
                let mut m: usize = 0;
                let ghost mid = out@;
                while m < r.len()
                    invariant
                        m <= r.len(),
                        out@ == mid + r@.take(m as int),
                    decreases r.len() - m,
                {
                    out.push(r[m]);
                    assert(r@.take(m + 1) =~= r@.take(m as int).push(r@[m as int]));
                    m += 1;
                }
                assert(r@.take(r.len() as int) =~= r@);
                assert(t.take(j - pos) =~= s@.subrange(pos as int, j as int));
                assert(t.skip(j - pos + p.len()) =~= s@.skip(j + p.len()));
                pos = j + p.len();
            },
        }
    }
}

/// `char::is_whitespace`: the Unicode `White_Space` characters.
pub open spec fn is_ws(c: char) -> bool {
    ('\u{9}' <= c && c <= '\u{d}') || c == ' ' || c == '\u{85}' || c == '\u{a0}' || c == '\u{1680}'
        || ('\u{2000}' <= c && c <= '\u{200a}') || c == '\u{2028}' || c == '\u{2029}' || c
        == '\u{202f}' || c == '\u{205f}' || c == '\u{3000}'
}

pub fn is_ws_exec(c: char) -> (r: bool)
    ensures
        r == is_ws(c),
{
    ('\u{9}' <= c && c <= '\u{d}') || c == ' ' || c == '\u{85}' || c == '\u{a0}' || c == '\u{1680}'
        || ('\u{2000}' <= c && c <= '\u{200a}') || c == '\u{2028}' || c == '\u{2029}' || c
        == '\u{202f}' || c == '\u{205f}' || c == '\u{3000}'
}

/// `s` without its leading whitespace.
pub open spec fn trim_start(s: Seq<char>) -> Seq<char>
    decreases s.len(),
{
    if s.len() > 0 && is_ws(s[0]) {
        trim_start(s.drop_first())
    } else {
        s
    }
}

/// `s` without its trailing whitespace (`str::trim_end`).
pub open spec fn trim_end(s: Seq<char>) -> Seq<char>
    decreases s.len(),
{
    if s.len() > 0 && is_ws(s.last()) {
        trim_end(s.drop_last())
    } else {
        s
    }
}

/// `s` without leading and trailing whitespace (`str::trim`).
pub open spec fn trim(s: Seq<char>) -> Seq<char> {
    trim_end(trim_start(s))
}

/// The index range of `s` that `trim_end` keeps: `[0, end)`.
pub fn trim_end_len(s: &[char], from: usize) -> (end: usize)
    requires
        from <= s.len(),
    ensures
        from <= end <= s.len(),
        s@.subrange(from as int, end as int) == trim_end(s@.subrange(from as int, s.len() as int)),
{
    let mut end = s.len();
    while end > from && is_ws_exec(s[end - 1])
        invariant
            from <= end <= s.len(),
            trim_end(s@.subrange(from as int, s.len() as int)) == trim_end(s@.subrange(from as int, end as int)),
        decreases end,
    {
        assert(s@.subrange(from as int, end - 1) =~= s@.subrange(from as int, end as int).drop_last());
        end -= 1;
    }
    end
}

/// The index range `[start, end)` of `s` that `trim` keeps.
pub fn trim_range(s: &[char]) -> (r: (usize, usize))
    ensures
        r.0 <= r.1 <= s.len(),
        s@.subrange(r.0 as int, r.1 as int) == trim(s@),
{
    let mut start: usize = 0;
    assert(s@.subrange(0, s.len() as int) =~= s@);
    while start < s.len() && is_ws_exec(s[start])
        invariant
            start <= s.len(),
            trim_start(s@) == trim_start(s@.subrange(start as int, s.len() as int)),
        decreases s.len() - start,
    {
        assert(s@.subrange(start + 1, s.len() as int) =~= s@.subrange(start as int, s.len() as int).drop_first());
        start += 1;
    }
    let end = trim_end_len(s, start);
    (start, end)
}

/// `s` begins with `p`.
pub open spec fn starts_with(s: Seq<char>, p: Seq<char>) -> bool {
    matches_at(s, p, 0)
}

/// The lines of `s` as `str::lines` yields them: split at each `\n`, a
/// `\r` right before a `\n` dropped, no final empty line after a trailing
/// `\n`.
pub open spec fn lines(s: Seq<char>) -> Seq<Seq<char>>
    decreases s.len(),
{
    match find(s, seq!['\n']) {
        None => if s.len() == 0 {
            Seq::empty()
        } else {
            seq![s]
        },
        Some(i) => if 0 <= i < s.len() {
            let line = s.take(i);
            let line = if line.len() > 0 && line.last() == '\r' {
                line.drop_last()
            } else {
                line
            };
            seq![line] + lines(s.skip(i + 1))
        } else {
            Seq::empty()
        },
    }
}

/// The lines of `s` (`str::lines`).
pub fn lines_exec(s: &[char]) -> (r: Vec<Vec<char>>)
    ensures
        r@.len() == lines(s@).len(),
        forall|i: int| 0 <= i < r@.len() ==> (#[trigger] r@[i])@ == lines(s@)[i],
{
    let nl: Vec<char> = vec!['\n'];
    let mut out: Vec<Vec<char>> = Vec::new();
    let mut pos: usize = 0;
    let ghost done: Seq<Seq<char>> = Seq::empty();
    assert(s@.skip(0) =~= s@);
    loop
        invariant
            pos <= s.len(),
            nl@ == seq!['\n'],
            out@.len() == done.len(),
            forall|i: int| 0 <= i < out@.len() ==> (#[trigger] out@[i])@ == done[i],
            done + lines(s@.skip(pos as int)) == lines(s@),
        decreases s.len() - pos,
    {
        proof {
            lemma_find_skip(s@, nl@, pos as int, 0);
            lemma_find_from_bounds(s@, nl@, pos as int);
        }
        let ghost t = s@.skip(pos as int);
        match find_exec(s, nl.as_slice(), pos) {
            None => {
                assert(find(t, nl@) is None);
                if pos < s.len() {
                    let mut line: Vec<char> = Vec::new();
                    let mut k = pos;
                    while k < s.len()
                        invariant
                            pos <= k <= s.len(),
                            line@ == s@.subrange(pos as int, k as int),
                        decreases s.len() - k,
                    {
                        line.push(s[k]);
                        assert(s@.subrange(pos as int, k + 1) =~= s@.subrange(pos as int, k as int).push(s@[k as int]));
                        k += 1;
                    }
                    assert(line@ =~= t);
                    out.push(line);
                    proof {
                        done = done.push(t);
                        assert(lines(t) == seq![t]);
                    }
                } else {
                    assert(t.len() == 0);
                }
                assert(done =~= lines(s@));
                return out;
            },
            Some(j) => {
                assert(find(t, nl@) == Some(j - pos));
                assert(j < s.len());
                let mut line: Vec<char> = Vec::new();
                let mut k = pos;
                while k < j
                    invariant
                        pos <= k <= j,
                        j < s.len(),
                        line@ == s@.subrange(pos as int, k as int),
                    decreases j - k,
                {
                    line.push(s[k]);
                    assert(s@.subrange(pos as int, k + 1) =~= s@.subrange(pos as int, k as int).push(s@[k as int]));
                    k += 1;
                }
                assert(line@ =~= t.take(j - pos));
                let ghost raw = line@;
                if line.len() > 0 && line[line.len() - 1] == '\r' {
                    line.pop();
                    assert(line@ =~= raw.drop_last());
                }
                proof {
                    let l2 = if raw.len() > 0 && raw.last() == '\r' { raw.drop_last() } else { raw };
                    assert(line@ == l2);
                    assert(t.skip(j - pos + 1) =~= s@.skip(j + 1));
                    assert(lines(t) == seq![l2] + lines(s@.skip(j + 1)));
                    done = done.push(l2);
                    assert(done + lines(s@.skip(j + 1)) =~= (done.drop_last() + seq![l2]) + lines(s@.skip(j + 1)));
                }
                out.push(line);
                pos = j + 1;
            },
        }
    }
}

pub proof fn lemma_rfind_bounds(s: Seq<char>, p: Seq<char>, i: int)
    ensures
        match rfind_to(s, p, i) {
            Some(j) => j <= i && matches_at(s, p, j),
            None => forall|k: int| 0 <= k <= i ==> !#[trigger] matches_at(s, p, k),
        },
    decreases i + 1,
{
    if i >= 0 && !matches_at(s, p, i) {
        lemma_rfind_bounds(s, p, i - 1);
    }
}

} // verus!
