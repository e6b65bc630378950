//! Character-level string model shared by the whole library.
//!
//! Every string is reasoned about through its view, a `Seq<char>`. The spec
//! functions here describe the std operations the tool relies on (trimming
//! Unicode whitespace, `str::replace`, `str::split` on a set of characters,
//! joining), and the executable functions are proved against them.
use vstd::prelude::*;

verus! {

/// Appends one character to a string (`String::push`).
#[verifier::external_body]
pub(crate) fn push_char(s: &mut String, c: char)
    ensures
        final(s)@ == old(s)@.push(c),
{
    s.push(c);
}

/// Unicode `White_Space`, the property behind `char::is_whitespace`.
pub open spec fn is_ws(c: char) -> bool {
    ||| c == ' '
    ||| ('\u{9}' <= c && c <= '\u{d}')
    ||| c == '\u{85}'
    ||| c == '\u{a0}'
    ||| c == '\u{1680}'
    ||| ('\u{2000}' <= c && c <= '\u{200a}')
    ||| c == '\u{2028}'
    ||| c == '\u{2029}'
    ||| c == '\u{202f}'
    ||| c == '\u{205f}'
    ||| c == '\u{3000}'
}

pub fn is_whitespace(c: char) -> (r: bool)
    ensures
        r == is_ws(c),
{
    c == ' ' || ('\u{9}' <= c && c <= '\u{d}') || c == '\u{85}' || c == '\u{a0}' || c
        == '\u{1680}' || ('\u{2000}' <= c && c <= '\u{200a}') || c == '\u{2028}' || c
        == '\u{2029}' || c == '\u{202f}' || c == '\u{205f}' || c == '\u{3000}'
}

pub open spec fn is_ascii_digit(c: char) -> bool {
    '0' <= c && c <= '9'
}

pub open spec fn is_ascii_alpha(c: char) -> bool {
    ('a' <= c && c <= 'z') || ('A' <= c && c <= 'Z')
}

pub open spec fn is_ascii_alnum(c: char) -> bool {
    is_ascii_digit(c) || is_ascii_alpha(c)
}

pub fn ascii_digit(c: char) -> (r: bool)
    ensures
        r == is_ascii_digit(c),
{
    '0' <= c && c <= '9'
}

pub fn ascii_alpha(c: char) -> (r: bool)
    ensures
        r == is_ascii_alpha(c),
{
    ('a' <= c && c <= 'z') || ('A' <= c && c <= 'Z')
}

pub fn ascii_alnum(c: char) -> (r: bool)
    ensures
        r == is_ascii_alnum(c),
{
    ascii_digit(c) || ascii_alpha(c)
}

/// `s` with its leading characters satisfying `is_ws` removed.
pub open spec fn trim_start(s: Seq<char>) -> Seq<char>
    decreases s.len(),
{
    if s.len() > 0 && is_ws(s[0]) {
        trim_start(s.skip(1))
    } else {
        s
    }
}

/// `s` with its trailing characters satisfying `is_ws` removed.
pub open spec fn trim_end(s: Seq<char>) -> Seq<char>
    decreases s.len(),
{
    if s.len() > 0 && is_ws(s.last()) {
        trim_end(s.drop_last())
    } else {
        s
    }
}

pub open spec fn trim(s: Seq<char>) -> Seq<char> {
    trim_end(trim_start(s))
}

/// `s` with every leading and trailing `c` removed (`str::trim_matches`).
pub open spec fn trim_char(s: Seq<char>, c: char) -> Seq<char> {
    trim_char_end(trim_char_start(s, c), c)
}

pub open spec fn trim_char_start(s: Seq<char>, c: char) -> Seq<char>
    decreases s.len(),
{
    if s.len() > 0 && s[0] == c {
        trim_char_start(s.skip(1), c)
    } else {
        s
    }
}

pub open spec fn trim_char_end(s: Seq<char>, c: char) -> Seq<char>
    decreases s.len(),
{
    if s.len() > 0 && s.last() == c {
        trim_char_end(s.drop_last(), c)
    } else {
        s
    }
}

/// Left-to-right, non-overlapping replacement of `pat` by `rep` (`str::replace`).
pub open spec fn replace(s: Seq<char>, pat: Seq<char>, rep: Seq<char>) -> Seq<char>
    decreases s.len(),
{
    if pat.len() == 0 || s.len() == 0 {
        s
    } else if pat.len() <= s.len() && s.take(pat.len() as int) == pat {
        rep + replace(s.skip(pat.len() as int), pat, rep)
    } else {
        seq![s[0]] + replace(s.skip(1), pat, rep)
    }
}

/// Pieces of `s` between the characters of `seps` (`str::split` on a set of
/// characters). There is always at least one piece.
pub open spec fn split(s: Seq<char>, seps: Seq<char>) -> Seq<Seq<char>>
    decreases s.len(),
{
    if s.len() == 0 {
        seq![Seq::empty()]
    } else {
        let rest = split(s.drop_last(), seps);
        if seps.contains(s.last()) {
            rest.push(Seq::empty())
        } else {
            rest.update(rest.len() - 1, rest.last().push(s.last()))
        }
    }
}

/// `parts` joined with `sep` between consecutive parts (`slice::join`).
pub open spec fn join(parts: Seq<Seq<char>>, sep: Seq<char>) -> Seq<char>
    decreases parts.len(),
{
    if parts.len() == 0 {
        Seq::empty()
    } else if parts.len() == 1 {
        parts[0]
    } else {
        join(parts.drop_last(), sep) + sep + parts.last()
    }
}

/// Does `s` start with `p`?
pub open spec fn starts_with(s: Seq<char>, p: Seq<char>) -> bool {
    p.len() <= s.len() && s.take(p.len() as int) == p
}

/// Does `s` end with `p`?
pub open spec fn ends_with(s: Seq<char>, p: Seq<char>) -> bool {
    p.len() <= s.len() && s.skip(s.len() - p.len()) == p
}

/// Index of the first occurrence of `c` in `s`, if any.
pub open spec fn find_char(s: Seq<char>, c: char) -> Option<int>
    decreases s.len(),
{
    if s.len() == 0 {
        None
    } else if s[0] == c {
        Some(0)
    } else {
        match find_char(s.skip(1), c) {
            Some(i) => Some(i + 1),
            None => None,
        }
    }
}

/// Index of the first occurrence of `p` in `s` (`str::find` with a string pattern).
pub open spec fn find_str(s: Seq<char>, p: Seq<char>) -> Option<int>
    decreases s.len(),
{
    if starts_with(s, p) {
        Some(0)
    } else if s.len() == 0 {
        None
    } else {
        match find_str(s.skip(1), p) {
            Some(i) => Some(i + 1),
            None => None,
        }
    }
}

pub proof fn lemma_find_char_bounds(s: Seq<char>, c: char)
    ensures
        find_char(s, c) matches Some(i) ==> 0 <= i < s.len() && s[i] == c && forall|j: int|
            0 <= j < i ==> s[j] != c,
        find_char(s, c) is None ==> forall|j: int| 0 <= j < s.len() ==> s[j] != c,
    decreases s.len(),
{
    if s.len() > 0 && s[0] != c {
        lemma_find_char_bounds(s.skip(1), c);
        if let Some(i) = find_char(s, c) {
            assert forall|j: int| 0 <= j < i implies s[j] != c by {
                if j > 0 {
                    assert(s[j] == s.skip(1)[j - 1]);
                }
            }
        } else {
            assert forall|j: int| 0 <= j < s.len() implies s[j] != c by {
                if j > 0 {
                    assert(s[j] == s.skip(1)[j - 1]);
                }
            }
        }
    }
}

pub proof fn lemma_find_str_bounds(s: Seq<char>, p: Seq<char>)
    ensures
        find_str(s, p) matches Some(i) ==> 0 <= i && i + p.len() <= s.len() && s.subrange(
            i,
            i + p.len(),
        ) == p && starts_with(s.skip(i), p) && forall|j: int| 0 <= j < i ==> !starts_with(#[trigger] s.skip(j), p),
        find_str(s, p) is None ==> forall|j: int|
            0 <= j <= s.len() ==> !starts_with(#[trigger] s.skip(j), p),
    decreases s.len(),
{
    if !starts_with(s, p) && s.len() > 0 {
        lemma_find_str_bounds(s.skip(1), p);
        assert forall|j: int| 1 <= j <= s.len() implies #[trigger] s.skip(j) == s.skip(1).skip(
            j - 1,
        ) by {
            assert(s.skip(j) =~= s.skip(1).skip(j - 1));
        }
        if let Some(i) = find_str(s, p) {
            assert(s.subrange(i, i + p.len()) =~= s.skip(1).subrange(i - 1, i - 1 + p.len()));
            assert(s.skip(i) =~= s.skip(1).skip(i - 1));
            assert forall|j: int| 0 <= j < i implies !starts_with(#[trigger] s.skip(j), p) by {
                if j == 0 {
                    assert(s.skip(0) =~= s);
                } else {
                    assert(s.skip(j) == s.skip(1).skip(j - 1));
                }
            }
        } else {
            assert forall|j: int| 0 <= j <= s.len() implies !starts_with(#[trigger] s.skip(j), p) by {
                if j == 0 {
                    assert(s.skip(0) =~= s);
                } else {
                    assert(s.skip(j) == s.skip(1).skip(j - 1));
                }
            }
        }
    } else if starts_with(s, p) {
        assert(s.subrange(0, p.len() as int) =~= s.take(p.len() as int));
        assert(s.skip(0) =~= s);
    } else {
        assert(s.skip(0) =~= s);
    }
}

/// The characters of a string slice, in order.
pub fn chars_of(s: &str) -> (r: Vec<char>)
    ensures
        r@ == s@,
{
    let mut v: Vec<char> = Vec::new();
    for c in it: s.chars()
        invariant
            v@ == it.seq().take(it.index() as int),
    {
        v.push(c);
    }
    v
}

/// Character-wise equality of two string slices.
pub fn str_eq(a: &str, b: &str) -> (r: bool)
    ensures
        r == (a@ == b@),
{
    let x = chars_of(a);
    let y = chars_of(b);
    if x.len() != y.len() {
        return false;
    }
    let mut i: usize = 0;
    while i < x.len()
        invariant
            i <= x.len() == y.len(),
            x@ == a@,
            y@ == b@,
            forall|j: int| 0 <= j < i ==> x@[j] == y@[j],
        decreases x.len() - i,
    {
        if x[i] != y[i] {
            assert(x@[i as int] != y@[i as int]);
            return false;
        }
        i += 1;
    }
    assert(x@ =~= y@);
    true
}

/// The string made of `v[from..to]`.
pub fn string_of_range(v: &Vec<char>, from: usize, to: usize) -> (r: String)
    requires
        from <= to <= v.len(),
    ensures
        r@ == v@.subrange(from as int, to as int),
{
    let mut s = String::new();
    let mut i = from;
    while i < to
        invariant
            from <= i <= to <= v.len(),
            s@ == v@.subrange(from as int, i as int),
        decreases to - i,
    {
        push_char(&mut s, v[i]);
        assert(v@.subrange(from as int, i + 1) =~= v@.subrange(from as int, i as int).push(v[i as int]));
        i += 1;
    }
    s
}

/// The string made of all of `v`.
pub fn string_of(v: &Vec<char>) -> (r: String)
    ensures
        r@ == v@,
{
    let r = string_of_range(v, 0, v.len());
    assert(v@.subrange(0, v@.len() as int) =~= v@);
    r
}

/// Appends the characters of `t` to `s`.
pub fn push_str(s: &mut String, t: &str)
    ensures
        final(s)@ == old(s)@ + t@,
{
    s.append(t);
}

/// Appends every character of `v` to `out`.
pub fn extend_chars(out: &mut Vec<char>, v: &Vec<char>)
    ensures
        final(out)@ == old(out)@ + v@,
{
    let mut i: usize = 0;
    while i < v.len()
        invariant
            i <= v.len(),
            out@ == old(out)@ + v@.take(i as int),
        decreases v.len() - i,
    {
        out.push(v[i]);
        assert(v@.take(i + 1) =~= v@.take(i as int).push(v[i as int]));
        i += 1;
    }
    assert(v@.take(v.len() as int) =~= v@);
}

/// Appends the characters of `t` to `out`.
pub fn extend_str(out: &mut Vec<char>, t: &str)
    ensures
        final(out)@ == old(out)@ + t@,
{
    let v = chars_of(t);
    extend_chars(out, &v);
}

/// First index `>= from` at which `v` does not hold a whitespace character.
pub fn skip_ws(v: &Vec<char>, from: usize) -> (r: usize)
    requires
        from <= v.len(),
    ensures
        from <= r <= v.len(),
        trim_start(v@.skip(from as int)) == v@.skip(r as int),
        forall|j: int| from <= j < r ==> is_ws(v@[j]),
        r < v.len() ==> !is_ws(v@[r as int]),
{
    let mut i = from;
    while i < v.len() && is_whitespace(v[i])
        invariant
            from <= i <= v.len(),
            trim_start(v@.skip(from as int)) == trim_start(v@.skip(i as int)),
            forall|j: int| from <= j < i ==> is_ws(v@[j]),
        decreases v.len() - i,
    {
        assert(v@.skip(i as int).skip(1) =~= v@.skip(i + 1));
        i += 1;
    }
    i
}

/// Last index `<= to` such that `v[from..r]` has no trailing whitespace.
pub fn skip_ws_back(v: &Vec<char>, from: usize, to: usize) -> (r: usize)
    requires
        from <= to <= v.len(),
    ensures
        from <= r <= to,
        trim_end(v@.subrange(from as int, to as int)) == v@.subrange(from as int, r as int),
{
    let mut i = to;
    while i > from && is_whitespace(v[i - 1])
        invariant
            from <= i <= to <= v.len(),
            trim_end(v@.subrange(from as int, to as int)) == trim_end(
                v@.subrange(from as int, i as int),
            ),
        decreases i,
    {
        assert(v@.subrange(from as int, i as int).drop_last() =~= v@.subrange(
            from as int,
            i - 1,
        ));
        i -= 1;
    }
    i
}

pub proof fn lemma_trim_start_skip(s: Seq<char>, k: int)
    requires
        0 <= k <= s.len(),
        forall|j: int| 0 <= j < k ==> is_ws(s[j]),
    ensures
        trim_start(s) == trim_start(s.skip(k)),
    decreases k,
{
    if k > 0 {
        lemma_trim_start_skip(s.skip(1), k - 1);
        assert(s.skip(1).skip(k - 1) =~= s.skip(k));
    } else {
        assert(s.skip(0) =~= s);
    }
}

/// `str::trim`.
pub fn trim_str(s: &str) -> (r: String)
    ensures
        r@ == trim(s@),
{
    let v = chars_of(s);
    let a = skip_ws(&v, 0);
    let b = skip_ws_back(&v, a, v.len());
    assert(v@.skip(0) =~= v@);
    assert(v@.skip(a as int) =~= v@.subrange(a as int, v.len() as int));
    string_of_range(&v, a, b)
}

/// `str::trim_start`.
pub fn trim_start_str(s: &str) -> (r: String)
    ensures
        r@ == trim_start(s@),
{
    let v = chars_of(s);
    let a = skip_ws(&v, 0);
    assert(v@.skip(0) =~= v@);
    assert(v@.skip(a as int) =~= v@.subrange(a as int, v.len() as int));
    string_of_range(&v, a, v.len())
}

/// `s.trim().trim_matches('"')`.
pub fn trim_quotes(s: &str) -> (r: String)
    ensures
        r@ == trim_char(trim(s@), '"'),
{
    let t = trim_str(s);
    let v = chars_of(t.as_str());
    let mut a: usize = 0;
    assert(v@.skip(0) =~= v@);
    while a < v.len() && v[a] == '"'
        invariant
            a <= v.len(),
            trim_char_start(v@, '"') == trim_char_start(v@.skip(a as int), '"'),
        decreases v.len() - a,
    {
        assert(v@.skip(a as int).skip(1) =~= v@.skip(a + 1));
        a += 1;
    }
    let mut b: usize = v.len();
    assert(v@.skip(a as int) =~= v@.subrange(a as int, b as int));
    while b > a && v[b - 1] == '"'
        invariant
            a <= b <= v.len(),
            trim_char_end(v@.skip(a as int), '"') == trim_char_end(
                v@.subrange(a as int, b as int),
                '"',
            ),
        decreases b,
    {
        assert(v@.subrange(a as int, b as int).drop_last() =~= v@.subrange(a as int, b - 1));
        b -= 1;
    }
    string_of_range(&v, a, b)
}

/// `str::replace` with a non-empty pattern.
pub fn replace_str(s: &str, pat: &str, rep: &str) -> (r: String)
    requires
        pat@.len() > 0,
    ensures
        r@ == replace(s@, pat@, rep@),
{
    let v = chars_of(s);
    let p = chars_of(pat);
    let rv = chars_of(rep);
    let out = replace_chars(&v, &p, &rv);
    string_of(&out)
}

/// Does `v[at..]` start with `p`?
pub fn matches_at(v: &Vec<char>, at: usize, p: &Vec<char>) -> (r: bool)
    requires
        at <= v.len(),
    ensures
        r == starts_with(v@.skip(at as int), p@),
{
    if p.len() > v.len() - at {
        return false;
    }
    let mut j: usize = 0;
    while j < p.len()
        invariant
            j <= p.len(),
            at + p.len() <= v.len(),
            forall|k: int| 0 <= k < j ==> v@[at + k] == p@[k],
        decreases p.len() - j,
    {
        if v[at + j] != p[j] {
            assert(v@.skip(at as int).take(p.len() as int)[j as int] != p@[j as int]);
            return false;
        }
        j += 1;
    }
    assert(v@.skip(at as int).take(p.len() as int) =~= p@);
    true
}

/// `replace` on character vectors.
pub fn replace_chars(v: &Vec<char>, p: &Vec<char>, rep: &Vec<char>) -> (r: Vec<char>)
    requires
        p@.len() > 0,
    ensures
        r@ == replace(v@, p@, rep@),
{
    let mut out: Vec<char> = Vec::new();
    let mut i: usize = 0;
    assert(v@.skip(0) =~= v@);
    while i < v.len()
        invariant
            i <= v.len(),
            p@.len() > 0,
            replace(v@, p@, rep@) == out@ + replace(v@.skip(i as int), p@, rep@),
        decreases v.len() - i,
    {
        let ghost rest = v@.skip(i as int);
        if matches_at(v, i, p) {
            extend_chars(&mut out, rep);
            assert(rest.skip(p.len() as int) =~= v@.skip(i + p.len()));
            i += p.len();
        } else {
            out.push(v[i]);
            assert(rest.skip(1) =~= v@.skip(i + 1));
            i += 1;
        }
    }
    assert(v@.skip(i as int) =~= Seq::<char>::empty());
    assert(out@ + Seq::<char>::empty() =~= out@);
    out
}

pub open spec fn opt_view(o: Option<String>) -> Option<Seq<char>> {
    match o {
        Some(s) => Some(s@),
        None => None,
    }
}

pub open spec fn seq_of_strings(v: Seq<String>) -> Seq<Seq<char>> {
    v.map_values(|s: String| s@)
}

/// `str::split` on any of the characters in `seps`.
pub fn split_str(s: &str, seps: &Vec<char>) -> (r: Vec<String>)
    ensures
        seq_of_strings(r@) == split(s@, seps@),
{
    let v = chars_of(s);
    let mut pieces: Vec<String> = Vec::new();
    let mut cur: Vec<char> = Vec::new();
    let mut i: usize = 0;
    assert(v@.take(0) =~= Seq::<char>::empty());
    while i < v.len()
        invariant
            i <= v.len(),
            split(v@.take(i as int), seps@) == seq_of_strings(pieces@).push(cur@),
        decreases v.len() - i,
    {
        let c = v[i];
        assert(v@.take(i + 1).drop_last() =~= v@.take(i as int));
        let mut is_sep = false;
        let mut k: usize = 0;
        while k < seps.len()
            invariant
                k <= seps.len(),
                is_sep == (exists|j: int| 0 <= j < k && seps@[j] == c),
            decreases seps.len() - k,
        {
            if seps[k] == c {
                is_sep = true;
            }
            k += 1;
        }
        assert(is_sep == seps@.contains(c));
        if is_sep {
            let piece = string_of(&cur);
            pieces.push(piece);
            cur = Vec::new();
            assert(seq_of_strings(pieces@) =~= seq_of_strings(old_pieces_helper(pieces@)).push(
                piece@,
            )) by {
                assert(pieces@.drop_last() =~= old_pieces_helper(pieces@));
            }
        } else {
            cur.push(c);
        }
        proof {
            let sp = split(v@.take(i as int), seps@);
            if is_sep {
                assert(split(v@.take(i + 1), seps@) == sp.push(Seq::empty()));
            } else {
                assert(split(v@.take(i + 1), seps@) == sp.update(
                    sp.len() - 1,
                    sp.last().push(c),
                ));
            }
        }
        i += 1;
        proof {
            assert(split(v@.take(i as int), seps@) =~= seq_of_strings(pieces@).push(cur@));
        }
    }
    let last = string_of(&cur);
    pieces.push(last);
    assert(v@.take(v.len() as int) =~= v@);
    assert(seq_of_strings(pieces@) =~= split(v@, seps@));
    pieces
}

spec fn old_pieces_helper(p: Seq<String>) -> Seq<String> {
    p.drop_last()
}

/// Joins `parts` with `sep` (`slice::join`).
pub fn join_strings(parts: &Vec<String>, sep: &str) -> (r: String)
    ensures
        r@ == join(seq_of_strings(parts@), sep@),
{
    let mut out = String::new();
    let mut i: usize = 0;
    while i < parts.len()
        invariant
            i <= parts.len(),
            out@ == join(seq_of_strings(parts@).take(i as int), sep@),
        decreases parts.len() - i,
    {
        let ghost before = seq_of_strings(parts@).take(i as int);
        if i > 0 {
            out.append(sep);
        }
        out.append(parts[i].as_str());
        i += 1;
        proof {
            let now = seq_of_strings(parts@).take(i as int);
            assert(now.drop_last() =~= before);
            if i == 1 {
                assert(now.len() == 1);
            }
        }
    }
    assert(seq_of_strings(parts@).take(parts.len() as int) =~= seq_of_strings(parts@));
    out
}

/// Decimal digits of `n` (no sign, no leading zeros; `0` is "0").
pub open spec fn dec(n: nat) -> Seq<char>
    decreases n,
{
    if n < 10 {
        seq![digit_char(n)]
    } else {
        dec(n / 10).push(digit_char(n % 10))
    }
}

pub open spec fn digit_char(d: nat) -> char {
    (('0' as nat) + d) as char
}

/// `n.to_string()` for a `usize`.
pub fn usize_to_string(n: usize) -> (r: String)
    ensures
        r@ == dec(n as nat),
{
    let mut digits: Vec<char> = Vec::new();
    let mut m = n;
    // digits of n, least significant first, are collected then reversed
    let ghost mut rest: nat = n as nat;
    while m >= 10
        invariant
            m as nat == rest,
            dec(n as nat) == dec(rest) + digits@.reverse(),
        decreases m,
    {
        let d = m % 10;
        let c = (('0' as u8) + (d as u8)) as char;
        assert(c == digit_char(d as nat));
        let ghost before = digits@;
        digits.push(c);
        assert(digits@.reverse() =~= seq![c] + before.reverse());
        assert(dec(m as nat) == dec((m / 10) as nat).push(c));
        m = m / 10;
        proof {
            rest = m as nat;
        }
        assert(dec(n as nat) =~= dec(rest) + digits@.reverse());
    }
    let c = (('0' as u8) + (m as u8)) as char;
    assert(c == digit_char(m as nat));
    let ghost before = digits@;
    digits.push(c);
    assert(digits@.reverse() =~= seq![c] + before.reverse());
    assert(dec(n as nat) =~= digits@.reverse());
    let mut out: Vec<char> = Vec::new();
    let mut i = digits.len();
    while i > 0
        invariant
            i <= digits.len(),
            out@ == digits@.reverse().take((digits.len() - i) as int),
        decreases i,
    {
        out.push(digits[i - 1]);
        assert(digits@.reverse().take((digits.len() - i + 1) as int) =~= digits@.reverse().take(
            (digits.len() - i) as int,
        ).push(digits@[i - 1]));
        i -= 1;
    }
    assert(digits@.reverse().take(digits.len() as int) =~= digits@.reverse());
    string_of(&out)
}

/// `a.or(b)`.
pub open spec fn or_else<T>(a: Option<T>, b: Option<T>) -> Option<T> {
    match a {
        Some(x) => Some(x),
        None => b,
    }
}

/// `o.unwrap_or_default()` for a list.
pub open spec fn list_or_empty(o: Option<Seq<Seq<char>>>) -> Seq<Seq<char>> {
    match o {
        Some(x) => x,
        None => Seq::empty(),
    }
}

pub open spec fn opt_list_view(o: Option<Vec<String>>) -> Option<Seq<Seq<char>>> {
    match o {
        Some(v) => Some(seq_of_strings(v@)),
        None => None,
    }
}

pub fn clone_opt_string(o: &Option<String>) -> (r: Option<String>)
    ensures
        opt_view(r) == opt_view(*o),
{
    match o {
        Some(s) => Some(s.clone()),
        None => None,
    }
}

pub fn clone_strings(v: &Vec<String>) -> (r: Vec<String>)
    ensures
        seq_of_strings(r@) == seq_of_strings(v@),
{
    let mut r: Vec<String> = Vec::new();
    let mut i: usize = 0;
    while i < v.len()
        invariant
            i <= v.len(),
            seq_of_strings(r@) == seq_of_strings(v@.take(i as int)),
        decreases v.len() - i,
    {
        let ghost before = seq_of_strings(r@);
        r.push(v[i].clone());
        assert(seq_of_strings(r@) =~= before.push(v@[i as int]@));
        assert(seq_of_strings(v@.take(i + 1)) =~= seq_of_strings(v@.take(i as int)).push(
            v@[i as int]@,
        ));
        i += 1;
    }
    assert(v@.take(v.len() as int) =~= v@);
    r
}

pub fn clone_opt_list(o: &Option<Vec<String>>) -> (r: Option<Vec<String>>)
    ensures
        opt_list_view(r) == opt_list_view(*o),
{
    match o {
        Some(v) => Some(clone_strings(v)),
        None => None,
    }
}

/// Appends copies of the strings of `v` to `out`.
pub fn extend_strings(out: &mut Vec<String>, v: &Vec<String>)
    ensures
        seq_of_strings(final(out)@) == seq_of_strings(old(out)@) + seq_of_strings(v@),
{
    let ghost base = seq_of_strings(out@);
    let mut i: usize = 0;
    while i < v.len()
        invariant
            i <= v.len(),
            seq_of_strings(out@) == base + seq_of_strings(v@.take(i as int)),
        decreases v.len() - i,
    {
        let ghost before = seq_of_strings(out@);
        out.push(v[i].clone());
        assert(seq_of_strings(out@) =~= before.push(v@[i as int]@));
        assert(seq_of_strings(v@.take(i + 1)) =~= seq_of_strings(v@.take(i as int)).push(
            v@[i as int]@,
        ));
        i += 1;
    }
    assert(v@.take(v.len() as int) =~= v@);
}

/// `a.unwrap_or_default()` followed by `b.unwrap_or_default()`.
pub fn concat_lists(a: Option<Vec<String>>, b: Option<Vec<String>>) -> (r: Vec<String>)
    ensures
        seq_of_strings(r@) == list_or_empty(opt_list_view(a)) + list_or_empty(opt_list_view(b)),
{
    let mut r: Vec<String> = Vec::new();
    match &a {
        Some(v) => extend_strings(&mut r, v),
        None => {},
    }
    match &b {
        Some(v) => extend_strings(&mut r, v),
        None => {},
    }
    assert(seq_of_strings(r@) =~= list_or_empty(opt_list_view(a)) + list_or_empty(
        opt_list_view(b),
    ));
    r
}

pub fn opt_string_eq(a: &Option<String>, b: &Option<String>) -> (r: bool)
    ensures
        r == (opt_view(*a) == opt_view(*b)),
{
    match (a, b) {
        (Some(x), Some(y)) => str_eq(x.as_str(), y.as_str()),
        (None, None) => true,
        _ => false,
    }
}

pub fn strings_eq(a: &Vec<String>, b: &Vec<String>) -> (r: bool)
    ensures
        r == (seq_of_strings(a@) == seq_of_strings(b@)),
{
    if a.len() != b.len() {
        assert(seq_of_strings(a@).len() != seq_of_strings(b@).len());
        return false;
    }
    let mut i: usize = 0;
    while i < a.len()
        invariant
            i <= a.len(),
            a.len() == b.len(),
            forall|k: int| 0 <= k < i ==> a@[k]@ == b@[k]@,
        decreases a.len() - i,
    {
        if !str_eq(a[i].as_str(), b[i].as_str()) {
            assert(seq_of_strings(a@)[i as int] != seq_of_strings(b@)[i as int]);
            return false;
        }
        i += 1;
    }
    assert(seq_of_strings(a@) =~= seq_of_strings(b@));
    true
}

pub fn opt_list_eq(a: &Option<Vec<String>>, b: &Option<Vec<String>>) -> (r: bool)
    ensures
        r == (opt_list_view(*a) == opt_list_view(*b)),
{
    match (a, b) {
        (Some(x), Some(y)) => strings_eq(x, y),
        (None, None) => true,
        _ => false,
    }
}

/// Concatenation of all pieces, in order.
pub open spec fn concat_all(s: Seq<Seq<char>>) -> Seq<char>
    decreases s.len(),
{
    if s.len() == 0 {
        Seq::empty()
    } else {
        concat_all(s.drop_last()) + s.last()
    }
}

pub proof fn lemma_concat_all_push(s: Seq<Seq<char>>, x: Seq<char>)
    ensures
        concat_all(s.push(x)) == concat_all(s) + x,
{
    assert(s.push(x).drop_last() =~= s);
}

/// The non-empty strings of `items`, in order.
pub open spec fn nonempty(items: Seq<Seq<char>>) -> Seq<Seq<char>> {
    items.filter(|t: Seq<char>| t.len() > 0)
}

/// The non-empty strings of `items` separated by single spaces.
pub open spec fn words(items: Seq<Seq<char>>) -> Seq<char> {
    join(nonempty(items), seq![' '])
}

pub open spec fn strs_view(v: Seq<&str>) -> Seq<Seq<char>> {
    v.map_values(|s: &str| s@)
}

pub proof fn lemma_nonempty_step(xs: Seq<Seq<char>>, i: int)
    requires
        0 <= i < xs.len(),
    ensures
        nonempty(xs.take(i + 1)) == if xs[i].len() > 0 {
            nonempty(xs.take(i)).push(xs[i])
        } else {
            nonempty(xs.take(i))
        },
{
    reveal(Seq::filter);
    assert(xs.take(i + 1).drop_last() =~= xs.take(i));
    assert(xs.take(i + 1).last() == xs[i]);
}

/// Joins the non-empty strings of `items` with single spaces.
pub fn join_words(items: &Vec<&str>) -> (r: String)
    ensures
        r@ == words(strs_view(items@)),
{
    let ghost v = strs_view(items@);
    let mut out = String::new();
    let mut any = false;
    let mut i: usize = 0;
    while i < items.len()
        invariant
            i <= items.len(),
            v == strs_view(items@),
            out@ == join(nonempty(v.take(i as int)), seq![' ']),
            any == (nonempty(v.take(i as int)).len() > 0),
        decreases items.len() - i,
    {
        let item = items[i];
        proof {
            lemma_nonempty_step(v, i as int);
        }
        let ghost prev = nonempty(v.take(i as int));
        if item.unicode_len() > 0 {
            assert(v[i as int] == item@);
            if any {
                push_char(&mut out, ' ');
            }
            push_str(&mut out, item);
            proof {
                let next = prev.push(item@);
                assert(next.drop_last() =~= prev);
                if prev.len() == 0 {
                    assert(out@ =~= join(next, seq![' ']));
                } else {
                    assert(out@ =~= join(next, seq![' ']));
                }
            }
            any = true;
        }
        i += 1;
    }
    assert(v.take(items.len() as int) =~= v);
    out
}

/// Concatenation of `f` applied to each non-empty string of `xs`.
pub open spec fn pieces(xs: Seq<Seq<char>>, f: spec_fn(Seq<char>) -> Seq<char>) -> Seq<char> {
    concat_all(nonempty(xs).map_values(f))
}

pub proof fn lemma_pieces_step(xs: Seq<Seq<char>>, i: int, f: spec_fn(Seq<char>) -> Seq<char>)
    requires
        0 <= i < xs.len(),
    ensures
        pieces(xs.take(i + 1), f) == pieces(xs.take(i), f) + if xs[i].len() > 0 {
            f(xs[i])
        } else {
            Seq::empty()
        },
{
    lemma_nonempty_step(xs, i);
    let prev = nonempty(xs.take(i));
    if xs[i].len() > 0 {
        assert(prev.push(xs[i]).map_values(f) =~= prev.map_values(f).push(f(xs[i])));
        assert(prev.map_values(f).push(f(xs[i])).drop_last() =~= prev.map_values(f));
    } else {
        assert(pieces(xs.take(i), f) + Seq::<char>::empty() =~= pieces(xs.take(i), f));
    }
}

/// `[t]` when `t` is not empty (a flag that has a text).
pub open spec fn opt_word(t: Seq<char>) -> Seq<Seq<char>> {
    if t.len() > 0 {
        seq![t]
    } else {
        Seq::empty()
    }
}

/// `prefix"x"`.
pub open spec fn quoted(prefix: Seq<char>, x: Seq<char>) -> Seq<char> {
    prefix + seq!['"'] + x + seq!['"']
}

/// Appends `t` when it is not empty.
pub fn push_word(items: &mut Vec<String>, t: &str)
    ensures
        seq_of_strings(final(items)@) == seq_of_strings(old(items)@) + opt_word(t@),
{
    let ghost before = seq_of_strings(items@);
    if t.unicode_len() > 0 {
        items.push(t.to_owned());
        assert(seq_of_strings(items@) =~= before + opt_word(t@));
    } else {
        assert(seq_of_strings(items@) =~= before + opt_word(t@));
    }
}

pub fn make_quoted(prefix: &str, x: &str) -> (r: String)
    ensures
        r@ == quoted(prefix@, x@),
{
    let mut r = prefix.to_owned();
    push_char(&mut r, '"');
    push_str(&mut r, x);
    push_char(&mut r, '"');
    assert(r@ =~= quoted(prefix@, x@));
    r
}

/// `str::ends_with`.
pub fn ends_with_str(s: &str, t: &str) -> (r: bool)
    ensures
        r == ends_with(s@, t@),
{
    let a = chars_of(s);
    let b = chars_of(t);
    if b.len() > a.len() {
        return false;
    }
    let off = a.len() - b.len();
    let mut k: usize = 0;
    while k < b.len()
        invariant
            k <= b.len(),
            off + b.len() == a.len(),
            a@ == s@,
            b@ == t@,
            forall|j: int| 0 <= j < k ==> a@[off + j] == b@[j],
        decreases b.len() - k,
    {
        if a[off + k] != b[k] {
            assert(a@.subrange(off as int, a@.len() as int)[k as int] != b@[k as int]);
            return false;
        }
        k += 1;
    }
    assert(a@.subrange(off as int, a@.len() as int) =~= b@);
    true
}

/// `str::starts_with`.
pub fn starts_with_str(s: &str, t: &str) -> (r: bool)
    ensures
        r == starts_with(s@, t@),
{
    let a = chars_of(s);
    let b = chars_of(t);
    if b.len() > a.len() {
        return false;
    }
    let mut k: usize = 0;
    while k < b.len()
        invariant
            k <= b.len() <= a.len(),
            a@ == s@,
            b@ == t@,
            forall|j: int| 0 <= j < k ==> a@[j] == b@[j],
        decreases b.len() - k,
    {
        if a[k] != b[k] {
            assert(a@.take(b.len() as int)[k as int] != b@[k as int]);
            return false;
        }
        k += 1;
    }
    assert(a@.take(b.len() as int) =~= b@);
    true
}

/// Whether `s` holds the character `c`.
pub fn has_char(s: &str, c: char) -> (r: bool)
    ensures
        r == (find_char(s@, c) is Some),
{
    let v = chars_of(s);
    proof {
        lemma_find_char_bounds(v@, c);
    }
    let mut k: usize = 0;
    while k < v.len()
        invariant
            k <= v.len(),
            v@ == s@,
            forall|j: int| 0 <= j < k ==> v@[j] != c,
        decreases v.len() - k,
    {
        if v[k] == c {
            proof {
                lemma_find_char_bounds(v@, c);
                assert(v@[k as int] == c);
            }
            return true;
        }
        k += 1;
    }
    false
}

} // verus!
