//! Decimal rendering and parsing of integers, as std's `Display` and
//! `FromStr` for the integer types do it.

use vstd::prelude::*;

verus! {

pub open spec fn digit_char(d: int) -> char {
    if d == 0 {
        '0'
    } else if d == 1 {
        '1'
    } else if d == 2 {
        '2'
    } else if d == 3 {
        '3'
    } else if d == 4 {
        '4'
    } else if d == 5 {
        '5'
    } else if d == 6 {
        '6'
    } else if d == 7 {
        '7'
    } else if d == 8 {
        '8'
    } else {
        '9'
    }
}

/// The decimal digits of `n`, most significant first, no leading zeros.
pub open spec fn decimal(n: nat) -> Seq<char>
    decreases n,
{
    if n < 10 {
        seq![digit_char(n as int)]
    } else {
        decimal(n / 10).push(digit_char((n % 10) as int))
    }
}

/// The decimal rendering of a signed integer.
pub open spec fn signed_decimal(n: int) -> Seq<char> {
    if n < 0 {
        seq!['-'] + decimal((-n) as nat)
    } else {
        decimal(n as nat)
    }
}

pub open spec fn is_digit(c: char) -> bool {
    '0' <= c && c <= '9'
}

pub open spec fn digit_value(c: char) -> int {
    (c as int) - ('0' as int)
}

pub open spec fn all_digits(d: Seq<char>) -> bool {
    forall|i: int| 0 <= i < d.len() ==> is_digit(#[trigger] d[i])
}

/// The value of a run of decimal digits.
pub open spec fn digits_value(d: Seq<char>) -> int
    decreases d.len(),
{
    if d.len() == 0 {
        0
    } else {
        digits_value(d.drop_last()) * 10 + digit_value(d.last())
    }
}

/// An optional `+` or `-` followed by at least one decimal digit, and its
/// value; no other character is accepted.
pub open spec fn parse_int(s: Seq<char>) -> Option<int> {
    if s.len() > 0 && (s[0] == '+' || s[0] == '-') {
        let d = s.drop_first();
        if d.len() > 0 && all_digits(d) {
            Some(
                if s[0] == '-' {
                    -digits_value(d)
                } else {
                    digits_value(d)
                },
            )
        } else {
            None
        }
    } else if s.len() > 0 && all_digits(s) {
        Some(digits_value(s))
    } else {
        None
    }
}

/// What `str::parse::<i64>` gives: the value when it is in range.
pub open spec fn parse_i64(s: Seq<char>) -> Option<i64> {
    match parse_int(s) {
        Some(v) => if i64::MIN <= v <= i64::MAX {
            Some(v as i64)
        } else {
            None
        },
        None => None,
    }
}

/// What `str::parse::<usize>` gives: the value when it is in range.
pub open spec fn parse_usize(s: Seq<char>) -> Option<usize> {
    match parse_int(s) {
        Some(v) => if 0 <= v <= usize::MAX && s[0] != '-' {
            Some(v as usize)
        } else {
            None
        },
        None => None,
    }
}

fn digit(d: u64) -> (c: char)
    requires
        d < 10,
    ensures
        c == digit_char(d as int),
{
    if d == 0 {
        '0'
    } else if d == 1 {
        '1'
    } else if d == 2 {
        '2'
    } else if d == 3 {
        '3'
    } else if d == 4 {
        '4'
    } else if d == 5 {
        '5'
    } else if d == 6 {
        '6'
    } else if d == 7 {
        '7'
    } else if d == 8 {
        '8'
    } else {
        '9'
    }
}

/// The decimal digits of `n`.
pub fn decimal_chars(n: u64) -> (r: Vec<char>)
    ensures
        r@ == decimal(n as nat),
    decreases n,
{
    if n < 10 {
        let mut v: Vec<char> = Vec::new();
        v.push(digit(n));
        assert(v@ =~= seq![digit_char(n as int)]);
        v
    } else {
        let mut v = decimal_chars(n / 10);
        v.push(digit(n % 10));
        v
    }
}

/// The decimal rendering of `n` (`i64::to_string`).
pub fn signed_decimal_chars(n: i64) -> (r: Vec<char>)
    ensures
        r@ == signed_decimal(n as int),
{
    if n < 0 {
        let m: u64 = ((-(n + 1)) as u64) + 1;
        let d = decimal_chars(m);
        let mut v: Vec<char> = Vec::new();
        v.push('-');
        crate::text::push_all(&mut v, d.as_slice());
        assert(v@ =~= seq!['-'] + decimal((-n) as nat));
        v
    } else {
        decimal_chars(n as u64)
    }
}

proof fn lemma_digits_nonneg(d: Seq<char>)
    requires
        all_digits(d),
    ensures
        digits_value(d) >= 0,
    decreases d.len(),
{
    if d.len() > 0 {
        assert(all_digits(d.drop_last()));
        lemma_digits_nonneg(d.drop_last());
        assert(is_digit(d[d.len() - 1]));
    }
}

proof fn lemma_digits_mono(d: Seq<char>, i: int, j: int)
    requires
        all_digits(d),
        0 <= i <= j <= d.len(),
    ensures
        digits_value(d.take(i)) <= digits_value(d.take(j)),
    decreases j - i,
{
    if i < j {
        lemma_digits_mono(d, i, j - 1);
        let t = d.take(j);
        assert(t.drop_last() =~= d.take(j - 1));
        assert(all_digits(d.take(j - 1)));
        lemma_digits_nonneg(d.take(j - 1));
        assert(is_digit(d[j - 1]));
    }
}

/// Parses `[+-]digits` the way `str::parse` does for an integer type whose
/// range is `[-neg_limit, pos_limit]`.
fn parse_bounded(s: &[char], pos_limit: u128, neg_limit: u128) -> (r: Option<(bool, u128)>)
    requires
        pos_limit <= 0x8000_0000_0000_0000_0000,
        neg_limit <= 0x8000_0000_0000_0000_0000,
    ensures
        match r {
            Some((neg, m)) => parse_int(s@) == Some(if neg { -(m as int) } else { m as int })
                && (if neg { m <= neg_limit } else { m <= pos_limit }),
            None => match parse_int(s@) {
                Some(v) => v > pos_limit || v < -(neg_limit as int),
                None => true,
            },
        },
{
    if s.len() == 0 {
        return None;
    }
    let neg = s[0] == '-';
    let start: usize = if s[0] == '+' || s[0] == '-' { 1 } else { 0 };
    if start == s.len() {
        return None;
    }
    let limit = if neg { neg_limit } else { pos_limit };
    let ghost d = s@.skip(start as int);
    let mut acc: u128 = 0;
    let mut i: usize = start;
    assert(d.take(0) =~= Seq::<char>::empty());
    while i < s.len()
        invariant
            start <= i <= s.len(),
            start < s.len(),
            start == (if s@[0] == '+' || s@[0] == '-' { 1usize } else { 0usize }),
            neg == (s@[0] == '-'),
            limit == (if neg { neg_limit } else { pos_limit }),
            d == s@.skip(start as int),
            limit <= 0x8000_0000_0000_0000_0000,
            all_digits(d.take(i - start)),
            acc as int == digits_value(d.take(i - start)),
            acc <= limit,
        decreases s.len() - i,
    {
        let c = s[i];
        assert(d[i - start] == c);
        if !(c >= '0' && c <= '9') {
            proof {
                assert(!all_digits(d));
                if start == 0 {
                    assert(d =~= s@);
                } else {
                    assert(d =~= s@.drop_first());
                }
            }
            return None;
        }
        let v: u128 = (c as u32 - '0' as u32) as u128;
        assert(d.take(i + 1 - start).drop_last() =~= d.take(i - start));
        assert(all_digits(d.take(i + 1 - start)));
        acc = acc * 10 + v;
        if acc > limit {
            proof {
                if all_digits(d) {
                    lemma_digits_mono(d, i + 1 - start, d.len() as int);
                    assert(d.take(d.len() as int) =~= d);
                }
                if start == 0 {
                    assert(d =~= s@);
                } else {
                    assert(d =~= s@.drop_first());
                }
            }
            return None;
        }
        i += 1;
    }
    proof {
        assert(d.take(d.len() as int) =~= d);
        if start == 0 {
            assert(d =~= s@);
            assert(!(s@[0] == '+' || s@[0] == '-'));
        } else {
            assert(d =~= s@.drop_first());
        }
    }
    Some((neg, acc))
}

/// `str::parse::<i64>`: an optional sign and decimal digits, in range.
pub fn parse_i64_chars(s: &[char]) -> (r: Option<i64>)
    ensures
        r == parse_i64(s@),
{
    match parse_bounded(s, 0x7fff_ffff_ffff_ffff, 0x8000_0000_0000_0000) {
        Some((neg, m)) => {
            if neg {
                if m == 0x8000_0000_0000_0000 {
                    Some(i64::MIN)
                } else {
                    Some(-(m as i64))
                }
            } else {
                Some(m as i64)
            }
        },
        None => None,
    }
}

/// `str::parse::<usize>`: an optional `+` and decimal digits, in range.
pub fn parse_usize_chars(s: &[char]) -> (r: Option<usize>)
    ensures
        r == parse_usize(s@),
{
    if s.len() > 0 && s[0] == '-' {
        return None;
    }
    match parse_bounded(s, usize::MAX as u128, 0) {
        Some((neg, m)) => Some(m as usize),
        None => None,
    }
}

/// A JSON number read as a `u64`: decimal digits only, in range.
pub open spec fn json_u64(s: Seq<char>) -> Option<u64> {
    if s.len() > 0 && all_digits(s) && digits_value(s) <= u64::MAX {
        Some(digits_value(s) as u64)
    } else {
        None
    }
}

/// Reads the text of a JSON number as a `u64`.
pub fn json_u64_chars(s: &[char]) -> (r: Option<u64>)
    ensures
        r == json_u64(s@),
{
    if s.len() == 0 || !('0' <= s[0] && s[0] <= '9') {
        proof {
            if s@.len() > 0 {
                assert(!is_digit(s@[0]));
                assert(!all_digits(s@));
            }
        }
        return None;
    }
    proof {
        assert(is_digit(s@[0]));
        assert(!(s@[0] == '+' || s@[0] == '-'));
    }
    match parse_bounded(s, 0xffff_ffff_ffff_ffff, 0) {
        Some((neg, m)) => {
            proof {
                lemma_digits_nonneg(s@);
            }
            Some(m as u64)
        },
        None => {
            proof {
                if all_digits(s@) {
                    lemma_digits_nonneg(s@);
                }
            }
            None
        },
    }
}

} // verus!
