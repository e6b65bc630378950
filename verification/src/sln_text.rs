//! Character-level pieces of the solution file grammar: blanks, literal
//! tags, delimited runs, digits and GUIDs. Positions count characters.
use vstd::prelude::*;
use crate::text::{chars_of, string_of_range};

verus! {

/// The blanks of a solution file.
pub open spec fn is_blank(c: char) -> bool {
    c == ' ' || c == '\t' || c == '\r' || c == '\n'
}

/// The end of the run of blanks starting at `p`.
pub open spec fn blank_end(s: Seq<char>, p: int) -> int
    decreases s.len() - p,
{
    if 0 <= p < s.len() && is_blank(s[p]) {
        blank_end(s, p + 1)
    } else {
        p
    }
}

pub proof fn lemma_blank_end(s: Seq<char>, p: int)
    requires
        0 <= p <= s.len(),
    ensures
        p <= blank_end(s, p) <= s.len(),
        forall|k: int| p <= k < blank_end(s, p) ==> is_blank(#[trigger] s[k]),
        blank_end(s, p) < s.len() ==> !is_blank(s[blank_end(s, p)]),
    decreases s.len() - p,
{
    if p < s.len() && is_blank(s[p]) {
        lemma_blank_end(s, p + 1);
    }
}

pub fn skip_blanks(v: &Vec<char>, p: usize) -> (r: usize)
    requires
        p <= v.len(),
    ensures
        r == blank_end(v@, p as int),
        p <= r <= v.len(),
{
    let mut q = p;
    while q < v.len() && (v[q] == ' ' || v[q] == '\t' || v[q] == '\r' || v[q] == '\n')
        invariant
            p <= q <= v.len(),
            blank_end(v@, p as int) == blank_end(v@, q as int),
        decreases v.len() - q,
    {
        q += 1;
    }
    q
}

/// Does `t` stand at `p`?
pub open spec fn tag_at(s: Seq<char>, p: int, t: Seq<char>) -> bool {
    0 <= p && p + t.len() <= s.len() && s.subrange(p, p + t.len()) == t
}

pub fn has_tag(v: &Vec<char>, p: usize, t: &str) -> (r: bool)
    requires
        p <= v.len(),
    ensures
        r == tag_at(v@, p as int, t@),
{
    let tv = chars_of(t);
    if tv.len() > v.len() - p {
        return false;
    }
    let mut k: usize = 0;
    while k < tv.len()
        invariant
            k <= tv.len(),
            p + tv.len() <= v.len(),
            tv@ == t@,
            forall|j: int| 0 <= j < k ==> v@[p + j] == tv@[j],
        decreases tv.len() - k,
    {
        if v[p + k] != tv[k] {
            assert(v@.subrange(p as int, p + tv.len())[k as int] != tv@[k as int]);
            return false;
        }
        k += 1;
    }
    assert(v@.subrange(p as int, p + tv.len()) =~= tv@);
    true
}

/// The first index `>= p` holding `c`.
pub open spec fn find_at(s: Seq<char>, p: int, c: char) -> Option<int>
    decreases s.len() - p,
{
    if p < 0 || p >= s.len() {
        None
    } else if s[p] == c {
        Some(p)
    } else {
        find_at(s, p + 1, c)
    }
}

pub proof fn lemma_find_at(s: Seq<char>, p: int, c: char)
    requires
        0 <= p,
    ensures
        find_at(s, p, c) matches Some(k) ==> p <= k < s.len() && s[k] == c && forall|j: int|
            p <= j < k ==> s[j] != c,
        find_at(s, p, c) is None ==> forall|j: int| p <= j < s.len() ==> s[j] != c,
    decreases s.len() - p,
{
    if p < s.len() && s[p] != c {
        lemma_find_at(s, p + 1, c);
    }
}

pub fn find_char_at(v: &Vec<char>, p: usize, c: char) -> (r: Option<usize>)
    requires
        p <= v.len(),
    ensures
        match r {
            Some(k) => find_at(v@, p as int, c) == Some(k as int),
            None => find_at(v@, p as int, c) is None,
        },
{
    let mut q = p;
    while q < v.len()
        invariant
            p <= q <= v.len(),
            find_at(v@, p as int, c) == find_at(v@, q as int, c),
        decreases v.len() - q,
    {
        if v[q] == c {
            return Some(q);
        }
        q += 1;
    }
    None
}

/// `open`, a run up to the first `close`, and `close`: the index after the
/// `close` and the bounds of the run.
pub open spec fn delimited(s: Seq<char>, p: int, open: char, close: char) -> Option<(int, int, int)> {
    if 0 <= p < s.len() && s[p] == open {
        match find_at(s, p + 1, close) {
            Some(e) => Some((e + 1, p + 1, e)),
            None => None,
        }
    } else {
        None
    }
}

pub fn delimited_at(v: &Vec<char>, p: usize, open: char, close: char) -> (r: Option<(usize, usize, usize)>)
    requires
        p <= v.len(),
    ensures
        match r {
            Some((a, b, c)) => delimited(v@, p as int, open, close) == Some((a as int, b as int, c as int))
                && b <= c < a <= v.len(),
            None => delimited(v@, p as int, open, close) is None,
        },
{
    if p < v.len() && v[p] == open {
        proof {
            lemma_find_at(v@, p + 1, close);
        }
        match find_char_at(v, p + 1, close) {
            Some(e) => Some((e + 1, p + 1, e)),
            None => None,
        }
    } else {
        None
    }
}

/// Blanks, `c`, blanks: the index after them.
pub open spec fn charsep(s: Seq<char>, p: int, c: char) -> Option<int> {
    let q = blank_end(s, p);
    if 0 <= q < s.len() && s[q] == c {
        Some(blank_end(s, q + 1))
    } else {
        None
    }
}

pub fn charsep_at(v: &Vec<char>, p: usize, c: char) -> (r: Option<usize>)
    requires
        p <= v.len(),
    ensures
        match r {
            Some(q) => charsep(v@, p as int, c) == Some(q as int) && p < q <= v.len(),
            None => charsep(v@, p as int, c) is None,
        },
{
    let q = skip_blanks(v, p);
    if q < v.len() && v[q] == c {
        let r = skip_blanks(v, q + 1);
        Some(r)
    } else {
        None
    }
}

/// The end of the run of ASCII digits starting at `p`.
pub open spec fn digits_end(s: Seq<char>, p: int) -> int
    decreases s.len() - p,
{
    if 0 <= p < s.len() && '0' <= s[p] && s[p] <= '9' {
        digits_end(s, p + 1)
    } else {
        p
    }
}

/// Value of the decimal digits `s[a..b]`.
pub open spec fn digits_value(s: Seq<char>, a: int, b: int) -> int
    decreases b - a,
{
    if b <= a {
        0
    } else {
        digits_value(s, a, b - 1) * 10 + (s[b - 1] as int - '0' as int)
    }
}

/// A run of at least one digit read as a number of at most `max`: the index
/// after it and the value.
pub open spec fn number_at(s: Seq<char>, p: int, max: int) -> Option<(int, int)> {
    let e = digits_end(s, p);
    if e > p && digits_value(s, p, e) <= max {
        Some((e, digits_value(s, p, e)))
    } else {
        None
    }
}

pub fn number_at_exec(v: &Vec<char>, p: usize, max: u32) -> (r: Option<(usize, u32)>)
    requires
        p <= v.len(),
        max <= 100000,
    ensures
        match r {
            Some((e, n)) => number_at(v@, p as int, max as int) == Some((e as int, n as int)) && p < e
                <= v.len(),
            None => number_at(v@, p as int, max as int) is None,
        },
{
    let mut q = p;
    let mut acc: u32 = 0;
    let mut big = false;
    while q < v.len() && '0' <= v[q] && v[q] <= '9'
        invariant
            p <= q <= v.len(),
            max <= 100000,
            digits_end(v@, p as int) == digits_end(v@, q as int),
            forall|k: int| p <= k < q ==> '0' <= #[trigger] v@[k] <= '9',
            !big ==> acc as int == digits_value(v@, p as int, q as int) && acc <= max,
            big ==> digits_value(v@, p as int, q as int) > max,
        decreases v.len() - q,
    {
        let d = (v[q] as u32) - ('0' as u32);
        proof {
            lemma_digits_value_nonneg(v@, p as int, q as int);
        }
        assert(digits_value(v@, p as int, q + 1) == digits_value(v@, p as int, q as int) * 10 + d);
        if !big {
            let n = acc * 10 + d;
            if n > max {
                big = true;
            } else {
                acc = n;
            }
        }
        q += 1;
    }
    if q > p && !big {
        Some((q, acc))
    } else {
        None
    }
}

pub proof fn lemma_digits_value_nonneg(s: Seq<char>, a: int, b: int)
    requires
        0 <= a,
        b <= s.len(),
        forall|k: int| a <= k < b ==> '0' <= #[trigger] s[k] <= '9',
    ensures
        digits_value(s, a, b) >= 0,
    decreases b - a,
{
    if b > a {
        lemma_digits_value_nonneg(s, a, b - 1);
    }
}

/// The value of a GUID text (`uuid::Uuid::parse_str`), as a big-endian
/// number.
pub uninterp spec fn guid_value(s: Seq<char>) -> Option<u128>;

/// `uuid::Uuid::parse_str` followed by `Uuid::as_u128`. The accepted forms
/// (hyphenated, simple, braced, URN) are those of the `uuid` crate and are
/// not stated here: the result is named by [`guid_value`].
#[verifier::external_body]
pub fn parse_guid(s: &str) -> (r: Option<u128>)
    ensures
        r == guid_value(s@),
{
    match uuid::Uuid::parse_str(s) {
        Ok(u) => Some(u.as_u128()),
        Err(_) => None,
    }
}

/// `{guid}`: the index after `}` and the value.
pub open spec fn guid_at(s: Seq<char>, p: int) -> Option<(int, u128)> {
    match delimited(s, p, '{', '}') {
        Some((e, a, b)) => match guid_value(s.subrange(a, b)) {
            Some(u) => Some((e, u)),
            None => None,
        },
        None => None,
    }
}

pub fn guid_at_exec(v: &Vec<char>, p: usize) -> (r: Option<(usize, u128)>)
    requires
        p <= v.len(),
    ensures
        match r {
            Some((e, u)) => guid_at(v@, p as int) == Some((e as int, u)) && p < e <= v.len(),
            None => guid_at(v@, p as int) is None,
        },
{
    match delimited_at(v, p, '{', '}') {
        Some((e, a, b)) => {
            let text = string_of_range(v, a, b);
            match parse_guid(text.as_str()) {
                Some(u) => Some((e, u)),
                None => None,
            }
        },
        None => None,
    }
}

} // verus!
