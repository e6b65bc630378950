//! Translation phases 2 and 3 (line splicing, comment removal) and the
//! recognition of preprocessor directives.
use vstd::prelude::*;
use crate::text::{
    ascii_alnum, ascii_digit, chars_of, find_char, find_str, is_ascii_alnum, is_ascii_digit,
    is_whitespace, is_ws, lemma_find_char_bounds, lemma_find_str_bounds, matches_at, replace,
    replace_chars, seq_of_strings, skip_ws, skip_ws_back, split, split_str, str_eq, string_of,
    string_of_range, trim, trim_start,
};

verus! {

/// Lexical state of the comment stripper.
#[derive(Clone, Copy, PartialEq, Eq, Structural, Debug)]
pub enum CommentState {
    Normal,
    Str,
    Chr,
    Line,
    Block,
}

/// One step of the comment stripper at position `i`: the characters it
/// emits, the next position and the next state.
pub open spec fn strip_step(c: Seq<char>, i: int, st: CommentState) -> (Seq<char>, int, CommentState) {
    let ch = c[i];
    let has_next = i + 1 < c.len();
    match st {
        CommentState::Normal => {
            if ch == '/' && has_next && c[i + 1] == '/' {
                (Seq::empty(), i + 2, CommentState::Line)
            } else if ch == '/' && has_next && c[i + 1] == '*' {
                (seq![' '], i + 2, CommentState::Block)
            } else if ch == '"' {
                (seq![ch], i + 1, CommentState::Str)
            } else if ch == '\'' {
                (seq![ch], i + 1, CommentState::Chr)
            } else {
                (seq![ch], i + 1, CommentState::Normal)
            }
        },
        CommentState::Str | CommentState::Chr => {
            if ch == '\n' {
                (seq!['\n'], i + 1, CommentState::Normal)
            } else if ch == '\\' && has_next {
                (seq![ch, c[i + 1]], i + 2, st)
            } else if (st == CommentState::Str && ch == '"') || (st == CommentState::Chr && ch
                == '\'') {
                (seq![ch], i + 1, CommentState::Normal)
            } else {
                (seq![ch], i + 1, st)
            }
        },
        CommentState::Line => {
            if ch == '\n' {
                (seq!['\n'], i + 1, CommentState::Normal)
            } else {
                (Seq::empty(), i + 1, CommentState::Line)
            }
        },
        CommentState::Block => {
            if ch == '*' && has_next && c[i + 1] == '/' {
                (seq![' '], i + 2, CommentState::Normal)
            } else if ch == '\n' {
                (seq!['\n'], i + 1, CommentState::Block)
            } else {
                (Seq::empty(), i + 1, CommentState::Block)
            }
        },
    }
}

/// Output of the comment stripper from position `i` in state `st`.
pub open spec fn strip_from(c: Seq<char>, i: int, st: CommentState) -> Seq<char>
    decreases c.len() - i,
{
    if i < 0 || i >= c.len() {
        Seq::empty()
    } else {
        let (e, next, ns) = strip_step(c, i, st);
        if next <= i || next > c.len() {
            Seq::empty()
        } else {
            e + strip_from(c, next, ns)
        }
    }
}

/// `//` and `/* */` comments removed, string and character literals kept
/// (and ended at a newline); comment bodies become a space, newlines stay.
pub open spec fn strip_comments_spec(s: Seq<char>) -> Seq<char> {
    strip_from(s, 0, CommentState::Normal)
}

/// Removes comments (see [`strip_comments_spec`]).
pub fn strip_comments(s: &str) -> (r: String)
    ensures
        r@ == strip_comments_spec(s@),
{
    let chars = chars_of(s);
    let out = strip_chars(&chars);
    string_of(&out)
}

fn strip_chars(chars: &Vec<char>) -> (r: Vec<char>)
    ensures
        r@ == strip_from(chars@, 0, CommentState::Normal),
{
    let n = chars.len();
    let mut out: Vec<char> = Vec::new();
    let mut state = CommentState::Normal;
    let mut i: usize = 0;
    while i < n
        invariant
            i <= n == chars@.len(),
            strip_from(chars@, 0, CommentState::Normal) == out@ + strip_from(
                chars@,
                i as int,
                state,
            ),
        decreases n - i,
    {
        let c = chars[i];
        let ghost step = strip_step(chars@, i as int, state);
        let ghost before = out@;
        match state {
            CommentState::Normal => {
                if c == '/' && i + 1 < n && chars[i + 1] == '/' {
                    state = CommentState::Line;
                    i += 2;
                } else if c == '/' && i + 1 < n && chars[i + 1] == '*' {
                    state = CommentState::Block;
                    out.push(' ');
                    i += 2;
                } else if c == '"' {
                    state = CommentState::Str;
                    out.push(c);
                    i += 1;
                } else if c == '\'' {
                    state = CommentState::Chr;
                    out.push(c);
                    i += 1;
                } else {
                    out.push(c);
                    i += 1;
                }
            },
            CommentState::Str | CommentState::Chr => {
                if c == '\n' {
                    state = CommentState::Normal;
                    out.push('\n');
                    i += 1;
                } else if c == '\\' && i + 1 < n {
                    out.push(c);
                    out.push(chars[i + 1]);
                    i += 2;
                } else {
                    let closing = (state == CommentState::Str && c == '"') || (state
                        == CommentState::Chr && c == '\'');
                    out.push(c);
                    if closing {
                        state = CommentState::Normal;
                    }
                    i += 1;
                }
            },
            CommentState::Line => {
                if c == '\n' {
                    state = CommentState::Normal;
                    out.push('\n');
                }
                i += 1;
            },
            CommentState::Block => {
                if c == '*' && i + 1 < n && chars[i + 1] == '/' {
                    state = CommentState::Normal;
                    out.push(' ');
                    i += 2;
                } else {
                    if c == '\n' {
                        out.push('\n');
                    }
                    i += 1;
                }
            },
        }
        assert(out@ =~= before + step.0);
        assert(i == step.1 && state == step.2);
    }
    assert(out@ + Seq::<char>::empty() =~= out@);
    out
}

/// Logical source lines: line endings unified to `\n`, backslash-newline
/// continuations spliced, comments removed, then split at `\n`.
pub open spec fn preprocess_text_spec(raw: Seq<char>) -> Seq<Seq<char>> {
    let unified = replace(replace(raw, seq!['\r', '\n'], seq!['\n']), seq!['\r'], seq!['\n']);
    let spliced = replace(unified, seq!['\\', '\n'], Seq::empty());
    split(strip_comments_spec(spliced), seq!['\n'])
}

/// Phases 2 and 3 of translation (see [`preprocess_text_spec`]).
pub fn preprocess_text(raw: &str) -> (r: Vec<String>)
    ensures
        seq_of_strings(r@) == preprocess_text_spec(raw@),
{
    let v = chars_of(raw);
    let crlf: Vec<char> = vec!['\r', '\n'];
    let lf: Vec<char> = vec!['\n'];
    let cr: Vec<char> = vec!['\r'];
    let splice: Vec<char> = vec!['\\', '\n'];
    let empty: Vec<char> = Vec::new();
    assert(crlf@ =~= seq!['\r', '\n']);
    assert(lf@ =~= seq!['\n']);
    assert(cr@ =~= seq!['\r']);
    assert(splice@ =~= seq!['\\', '\n']);
    let a = replace_chars(&v, &crlf, &lf);
    let b = replace_chars(&a, &cr, &lf);
    let c = replace_chars(&b, &splice, &empty);
    let stripped = strip_chars(&c);
    let text = string_of(&stripped);
    split_str(text.as_str(), &lf)
}

//
// Directives
//

#[derive(Clone, Copy, PartialEq, Eq, Structural, Debug)]
pub enum IncludeKind {
    Quote,
    Angle,
}

/// A recognized preprocessor directive.
#[derive(Debug)]
pub enum Directive {
    If(String),
    Ifdef(String),
    Ifndef(String),
    Elif(String),
    Else,
    Endif,
    Include(String),
    Pragma(String),
    /// A directive knowingly skipped (`#define`, `#undef`, diagnostics,
    /// `#line`, `#include_next`, the null directive and line markers).
    Ignored,
    /// A `#`-prefixed directive whose keyword is not handled.
    Unknown { keyword: String },
}

pub enum SpecDirective {
    If(Seq<char>),
    Ifdef(Seq<char>),
    Ifndef(Seq<char>),
    Elif(Seq<char>),
    Else,
    Endif,
    Include(Seq<char>),
    Pragma(Seq<char>),
    Ignored,
    Unknown(Seq<char>),
}

impl View for Directive {
    type V = SpecDirective;

    open spec fn view(&self) -> SpecDirective {
        match self {
            Directive::If(s) => SpecDirective::If(s@),
            Directive::Ifdef(s) => SpecDirective::Ifdef(s@),
            Directive::Ifndef(s) => SpecDirective::Ifndef(s@),
            Directive::Elif(s) => SpecDirective::Elif(s@),
            Directive::Else => SpecDirective::Else,
            Directive::Endif => SpecDirective::Endif,
            Directive::Include(s) => SpecDirective::Include(s@),
            Directive::Pragma(s) => SpecDirective::Pragma(s@),
            Directive::Ignored => SpecDirective::Ignored,
            Directive::Unknown { keyword } => SpecDirective::Unknown(keyword@),
        }
    }
}

/// Length of the leading run of identifier characters (ASCII alphanumeric or `_`).
pub open spec fn keyword_len(s: Seq<char>) -> int
    decreases s.len(),
{
    if s.len() > 0 && (is_ascii_alnum(s[0]) || s[0] == '_') {
        1 + keyword_len(s.skip(1))
    } else {
        0
    }
}

/// Length of the leading run of non-whitespace characters.
pub open spec fn word_len(s: Seq<char>) -> int
    decreases s.len(),
{
    if s.len() > 0 && !is_ws(s[0]) {
        1 + word_len(s.skip(1))
    } else {
        0
    }
}

/// The directive a line holds: `None` when it does not start with `#` (after
/// leading whitespace); otherwise the keyword decides.
pub open spec fn parse_directive_spec(line: Seq<char>) -> Option<SpecDirective> {
    let r0 = trim_start(line);
    if r0.len() == 0 || r0[0] != '#' {
        None
    } else {
        let rest = trim_start(r0.skip(1));
        let end = keyword_len(rest);
        let kw = rest.take(end);
        let args = trim(rest.skip(end));
        let first = args.take(word_len(args));
        Some(classify_spec(kw, args, first))
    }
}

/// Directive for keyword `kw`, its arguments and their first word.
pub open spec fn classify_spec(kw: Seq<char>, args: Seq<char>, first: Seq<char>) -> SpecDirective {
    if kw == "if"@ {
        SpecDirective::If(args)
    } else if kw == "ifdef"@ {
        SpecDirective::Ifdef(first)
    } else if kw == "ifndef"@ {
        SpecDirective::Ifndef(first)
    } else if kw == "elif"@ {
        SpecDirective::Elif(args)
    } else if kw == "else"@ {
        SpecDirective::Else
    } else if kw == "endif"@ {
        SpecDirective::Endif
    } else if kw == "include"@ {
        SpecDirective::Include(args)
    } else if kw == "pragma"@ {
        SpecDirective::Pragma(args)
    } else if kw == "define"@ || kw == "undef"@ || kw == "error"@ || kw == "warning"@ || kw
        == "line"@ || kw == "include_next"@ {
        SpecDirective::Ignored
    } else if forall|k: int| 0 <= k < kw.len() ==> is_ascii_digit(#[trigger] kw[k]) {
        SpecDirective::Ignored
    } else {
        SpecDirective::Unknown(kw)
    }
}

fn classify(keyword: String, args: String, first: String) -> (r: Directive)
    ensures
        r@ == classify_spec(keyword@, args@, first@),
{
    let kw = keyword.as_str();
    if str_eq(kw, "if") {
        Directive::If(args)
    } else if str_eq(kw, "ifdef") {
        Directive::Ifdef(first)
    } else if str_eq(kw, "ifndef") {
        Directive::Ifndef(first)
    } else if str_eq(kw, "elif") {
        Directive::Elif(args)
    } else if str_eq(kw, "else") {
        Directive::Else
    } else if str_eq(kw, "endif") {
        Directive::Endif
    } else if str_eq(kw, "include") {
        Directive::Include(args)
    } else if str_eq(kw, "pragma") {
        Directive::Pragma(args)
    } else if str_eq(kw, "define") || str_eq(kw, "undef") || str_eq(kw, "error") || str_eq(
        kw,
        "warning",
    ) || str_eq(kw, "line") || str_eq(kw, "include_next") {
        Directive::Ignored
    } else {
        let v = chars_of(kw);
        let mut all_digits = true;
        let mut k: usize = 0;
        while k < v.len()
            invariant
                k <= v.len(),
                all_digits == forall|j: int| 0 <= j < k ==> is_ascii_digit(#[trigger] v@[j]),
            decreases v.len() - k,
        {
            if !ascii_digit(v[k]) {
                all_digits = false;
            }
            k += 1;
        }
        if all_digits {
            Directive::Ignored
        } else {
            Directive::Unknown { keyword }
        }
    }
}

proof fn lemma_keyword_len(s: Seq<char>)
    ensures
        0 <= keyword_len(s) <= s.len(),
        forall|k: int| 0 <= k < keyword_len(s) ==> is_ascii_alnum(#[trigger] s[k]) || s[k] == '_',
        keyword_len(s) < s.len() ==> !(is_ascii_alnum(s[keyword_len(s)]) || s[keyword_len(s)]
            == '_'),
    decreases s.len(),
{
    if s.len() > 0 && (is_ascii_alnum(s[0]) || s[0] == '_') {
        lemma_keyword_len(s.skip(1));
        assert forall|k: int| 0 <= k < keyword_len(s) implies is_ascii_alnum(#[trigger] s[k])
            || s[k] == '_' by {
            if k > 0 {
                assert(s[k] == s.skip(1)[k - 1]);
            }
        }
    }
}

proof fn lemma_word_len(s: Seq<char>)
    ensures
        0 <= word_len(s) <= s.len(),
        forall|k: int| 0 <= k < word_len(s) ==> !is_ws(#[trigger] s[k]),
        word_len(s) < s.len() ==> is_ws(s[word_len(s)]),
    decreases s.len(),
{
    if s.len() > 0 && !is_ws(s[0]) {
        lemma_word_len(s.skip(1));
        assert forall|k: int| 0 <= k < word_len(s) implies !is_ws(#[trigger] s[k]) by {
            if k > 0 {
                assert(s[k] == s.skip(1)[k - 1]);
            }
        }
    }
}

proof fn lemma_run_len(s: Seq<char>, from: int, to: int, kw: bool)
    requires
        0 <= from <= to <= s.len(),
        kw ==> forall|k: int| from <= k < to ==> is_ascii_alnum(#[trigger] s[k]) || s[k] == '_',
        kw ==> to < s.len() ==> !(is_ascii_alnum(s[to]) || s[to] == '_'),
        !kw ==> forall|k: int| from <= k < to ==> !is_ws(#[trigger] s[k]),
        !kw ==> to < s.len() ==> is_ws(s[to]),
    ensures
        kw ==> keyword_len(s.skip(from)) == to - from,
        !kw ==> word_len(s.skip(from)) == to - from,
    decreases to - from,
{
    if from < to {
        lemma_run_len(s, from + 1, to, kw);
        assert(s.skip(from).skip(1) =~= s.skip(from + 1));
    }
}

/// Recognizes a preprocessor directive (see [`parse_directive_spec`]).
pub fn parse_directive(line: &str) -> (r: Option<Directive>)
    ensures
        r matches Some(d) ==> parse_directive_spec(line@) == Some(d@),
        r is None ==> parse_directive_spec(line@) is None,
{
    let v = chars_of(line);
    let a = skip_ws(&v, 0);
    assert(v@.skip(0) =~= v@);
    if a >= v.len() || v[a] != '#' {
        return None;
    }
    let b = skip_ws(&v, a + 1);
    assert(v@.skip(a as int).skip(1) =~= v@.skip(a + 1));
    let mut e = b;
    while e < v.len() && (ascii_alnum(v[e]) || v[e] == '_')
        invariant
            b <= e <= v.len(),
            forall|k: int| b <= k < e ==> is_ascii_alnum(#[trigger] v@[k]) || v@[k] == '_',
        decreases v.len() - e,
    {
        e += 1;
    }
    proof {
        lemma_run_len(v@, b as int, e as int, true);
        assert(v@.skip(b as int).take(e - b) =~= v@.subrange(b as int, e as int));
        assert(v@.skip(b as int).skip(e - b) =~= v@.skip(e as int));
    }
    let keyword = string_of_range(&v, b, e);
    let c = skip_ws(&v, e);
    let d = skip_ws_back(&v, c, v.len());
    assert(v@.skip(c as int) =~= v@.subrange(c as int, v.len() as int));
    let args = string_of_range(&v, c, d);
    let mut w = c;
    while w < d && !is_whitespace(v[w])
        invariant
            c <= w <= d <= v.len(),
            forall|k: int| c <= k < w ==> !is_ws(#[trigger] v@[k]),
        decreases d - w,
    {
        w += 1;
    }
    proof {
        let s = v@.subrange(c as int, d as int);
        assert forall|k: int| 0 <= k < w - c implies !is_ws(#[trigger] s[k]) by {
            assert(s[k] == v@[c + k]);
        }
        lemma_run_len(s, 0, w - c, false);
        assert(s.skip(0) =~= s);
        assert(s.take(w - c) =~= v@.subrange(c as int, w as int));
    }
    let first = string_of_range(&v, c, w);
    let dir = classify(keyword, args, first);
    Some(dir)
}

/// The operand of an `#include`: a quoted or angled name. Computed includes
/// (anything else) give `None`.
pub open spec fn parse_include_spec(spec: Seq<char>) -> Option<(IncludeKind, Seq<char>)> {
    let t = trim(spec);
    if t.len() > 0 && t[0] == '"' {
        match find_char(t.skip(1), '"') {
            Some(e) => Some((IncludeKind::Quote, t.skip(1).take(e))),
            None => None,
        }
    } else if t.len() > 0 && t[0] == '<' {
        match find_char(t.skip(1), '>') {
            Some(e) => Some((IncludeKind::Angle, t.skip(1).take(e))),
            None => None,
        }
    } else {
        None
    }
}

/// First index `>= from` where `v` holds `c`, relative to `from`.
fn find_from(v: &Vec<char>, from: usize, c: char) -> (r: Option<usize>)
    requires
        from <= v.len(),
    ensures
        r matches Some(i) ==> find_char(v@.skip(from as int), c) == Some(i as int) && from + i
            < v.len(),
        r is None ==> find_char(v@.skip(from as int), c) is None,
{
    let mut i = from;
    while i < v.len()
        invariant
            from <= i <= v.len(),
            forall|j: int| from <= j < i ==> v@[j] != c,
        decreases v.len() - i,
    {
        if v[i] == c {
            proof {
                lemma_find_char_bounds(v@.skip(from as int), c);
                let s = v@.skip(from as int);
                if let Some(k) = find_char(s, c) {
                    if k < i - from {
                        assert(s[k] == v@[from + k]);
                    } else if k > i - from {
                        assert(s[i - from] == v@[i as int]);
                    }
                } else {
                    assert(s[i - from] == v@[i as int]);
                }
            }
            return Some(i - from);
        }
        i += 1;
    }
    proof {
        lemma_find_char_bounds(v@.skip(from as int), c);
        let s = v@.skip(from as int);
        if let Some(k) = find_char(s, c) {
            assert(s[k] == v@[from + k]);
        }
    }
    None
}

/// Parses the operand of an `#include` (see [`parse_include_spec`]).
pub fn parse_include(spec: &str) -> (r: Option<(IncludeKind, String)>)
    ensures
        r matches Some((k, n)) ==> parse_include_spec(spec@) == Some((k, n@)),
        r is None ==> parse_include_spec(spec@) is None,
{
    let v = chars_of(spec);
    let a = skip_ws(&v, 0);
    let b = skip_ws_back(&v, a, v.len());
    assert(v@.skip(0) =~= v@);
    assert(v@.skip(a as int) =~= v@.subrange(a as int, v.len() as int));
    let ghost t = v@.subrange(a as int, b as int);
    if a < b && (v[a] == '"' || v[a] == '<') {
        let (close, kind) = if v[a] == '"' {
            ('"', IncludeKind::Quote)
        } else {
            ('>', IncludeKind::Angle)
        };
        let w = string_of_range(&v, a, b);
        let tv = chars_of(w.as_str());
        assert(tv@ == t);
        match find_from(&tv, 1, close) {
            Some(e) => {
                assert(t.skip(1).take(e as int) =~= t.subrange(1, 1 + e));
                Some((kind, string_of_range(&tv, 1, 1 + e)))
            },
            None => None,
        }
    } else {
        None
    }
}

/// The library named by `comment(lib, "name")`, trimmed; `None` for any other
/// pragma or an empty name.
pub open spec fn parse_pragma_spec(rest: Seq<char>) -> Option<Seq<char>> {
    let t = trim_start(rest);
    if !(t.len() >= 7 && t.take(7) == "comment"@) {
        None
    } else {
        let after = trim_start(t.skip(7));
        if !(after.len() > 0 && after[0] == '(') {
            None
        } else {
            let inner = after.skip(1);
            match find_str(inner, "lib"@) {
                None => None,
                Some(lp) => {
                    let after_lib = inner.skip(lp + 3);
                    match find_char(after_lib, '"') {
                        None => None,
                        Some(q1) => {
                            let after_q1 = after_lib.skip(q1 + 1);
                            match find_char(after_q1, '"') {
                                None => None,
                                Some(q2) => {
                                    let name = trim(after_q1.take(q2));
                                    if name.len() == 0 {
                                        None
                                    } else {
                                        Some(name)
                                    }
                                },
                            }
                        },
                    }
                },
            }
        }
    }
}

/// Index of the first occurrence of `p` at or after `from`, relative to `from`.
fn find_str_from(v: &Vec<char>, from: usize, p: &Vec<char>) -> (r: Option<usize>)
    requires
        from <= v.len(),
    ensures
        r matches Some(i) ==> find_str(v@.skip(from as int), p@) == Some(i as int) && from + i
            + p.len() <= v.len(),
        r is None ==> find_str(v@.skip(from as int), p@) is None,
{
    let ghost s = v@.skip(from as int);
    let mut i = from;
    loop
        invariant
            from <= i <= v.len(),
            s == v@.skip(from as int),
            forall|j: int| 0 <= j < i - from ==> !crate::text::starts_with(#[trigger] s.skip(j), p@),
        decreases v.len() - i,
    {
        assert(s.skip(i - from) =~= v@.skip(i as int));
        if matches_at(v, i, p) {
            proof {
                lemma_find_str_bounds(s, p@);
                if let Some(k) = find_str(s, p@) {
                    if k > i - from {
                        assert(!crate::text::starts_with(s.skip(i - from), p@));
                    }
                }
            }
            return Some(i - from);
        }
        if i == v.len() {
            proof {
                lemma_find_str_bounds(s, p@);
                if let Some(k) = find_str(s, p@) {
                    assert(!crate::text::starts_with(s.skip(k), p@));
                }
            }
            return None;
        }
        i += 1;
    }
}

/// Extracts the library of a `#pragma comment(lib, "...")` (see [`parse_pragma_spec`]).
#[verifier::rlimit(50)]
pub fn parse_pragma_comment_lib(rest: &str) -> (r: Option<String>)
    ensures
        r matches Some(n) ==> parse_pragma_spec(rest@) == Some(n@),
        r is None ==> parse_pragma_spec(rest@) is None,
{
    let v = chars_of(rest);
    let a = skip_ws(&v, 0);
    assert(v@.skip(0) =~= v@);
    let ghost t = v@.skip(a as int);
    let comment: Vec<char> = vec!['c', 'o', 'm', 'm', 'e', 'n', 't'];
    proof {
        reveal_strlit("comment");
        assert(comment@ =~= "comment"@);
    }
    if !matches_at(&v, a, &comment) {
        return None;
    }
    assert(t.take(7) == "comment"@);
    let b = skip_ws(&v, a + 7);
    assert(t.skip(7) =~= v@.skip(a + 7));
    if b >= v.len() || v[b] != '(' {
        return None;
    }
    let inner_start = b + 1;
    assert(v@.skip(b as int).skip(1) =~= v@.skip(inner_start as int));
    let lib: Vec<char> = vec!['l', 'i', 'b'];
    proof {
        reveal_strlit("lib");
        assert(lib@ =~= "lib"@);
    }
    let lp = match find_str_from(&v, inner_start, &lib) {
        Some(x) => x,
        None => return None,
    };
    let after_lib = inner_start + lp + 3;
    assert(v@.skip(inner_start as int).skip(lp + 3) =~= v@.skip(after_lib as int));
    let q1 = match find_from(&v, after_lib, '"') {
        Some(x) => x,
        None => return None,
    };
    let after_q1 = after_lib + q1 + 1;
    assert(v@.skip(after_lib as int).skip(q1 + 1) =~= v@.skip(after_q1 as int));
    let q2 = match find_from(&v, after_q1, '"') {
        Some(x) => x,
        None => return None,
    };
    let end = after_q1 + q2;
    assert(v@.skip(after_q1 as int).take(q2 as int) =~= v@.subrange(after_q1 as int, end as int));
    let name = string_of_range(&v, after_q1, end);
    let nv = chars_of(name.as_str());
    let x = skip_ws(&nv, 0);
    let y = skip_ws_back(&nv, x, nv.len());
    assert(nv@.skip(0) =~= nv@);
    assert(nv@.skip(x as int) =~= nv@.subrange(x as int, nv.len() as int));
    if x == y {
        return None;
    }
    Some(string_of_range(&nv, x, y))
}

/// Law: a line is a directive exactly when, after white space, it starts
/// with `#`; every such line is classified (an unhandled keyword as
/// `Unknown`, never dropped).
pub proof fn lemma_directive_iff_hash(line: Seq<char>)
    ensures
        parse_directive_spec(line) is Some <==> (trim_start(line).len() > 0 && trim_start(line)[0] == '#'),
{
}

} // verus!
