//! `#if` constant-expression evaluation for the dependency scanner.
//!
//! The evaluator answers `Some(value)` when an expression is fully decided and
//! `None` when it is unknown. Unknown identifiers stay unknown (they are never
//! C's usual `0`), and the unknown-ness propagates through every operator
//! except where `&&` / `||` can decide the result from one operand.
use vstd::prelude::*;
use crate::text::{
    ascii_alnum, ascii_alpha, ascii_digit, chars_of, is_ascii_alnum, is_ascii_alpha, is_ascii_digit,
    is_whitespace, is_ws, str_eq, string_of_range, trim, trim_str,
};
use crate::macro_table::MacroTable;

verus! {

/// Operators and punctuation of `#if` expressions.
#[derive(Clone, Copy, PartialEq, Eq, Structural, Debug)]
pub enum Op {
    Not,
    Tilde,
    Star,
    Slash,
    Percent,
    Plus,
    Minus,
    Lt,
    Gt,
    Amp,
    Caret,
    Pipe,
    Question,
    Colon,
    Comma,
    Shl,
    Shr,
    Le,
    Ge,
    EqEq,
    Ne,
    AndAnd,
    OrOr,
    Scope,
    LParen,
    RParen,
}

/// One token of a `#if` expression.
#[derive(Debug)]
pub enum Tok {
    Num(i64),
    Ident(String),
    Op(Op),
    Unknown,
}

/// Mathematical view of a token.
pub enum SpecTok {
    Num(i64),
    Ident(Seq<char>),
    Op(Op),
    Unknown,
}

impl View for Tok {
    type V = SpecTok;

    open spec fn view(&self) -> SpecTok {
        match self {
            Tok::Num(v) => SpecTok::Num(*v),
            Tok::Ident(s) => SpecTok::Ident(s@),
            Tok::Op(o) => SpecTok::Op(*o),
            Tok::Unknown => SpecTok::Unknown,
        }
    }
}

impl Tok {
    pub fn clone_tok(&self) -> (r: Tok)
        ensures
            r@ == self@,
    {
        match self {
            Tok::Num(v) => Tok::Num(*v),
            Tok::Ident(s) => Tok::Ident(s.clone()),
            Tok::Op(o) => Tok::Op(*o),
            Tok::Unknown => Tok::Unknown,
        }
    }
}

pub open spec fn tok_views(s: Seq<Tok>) -> Seq<SpecTok> {
    s.map_values(|t: Tok| t@)
}

//
// Numbers
//

pub open spec fn digit_value(c: char, radix: u32) -> Option<int> {
    if '0' <= c && c <= '9' && (c as int) - ('0' as int) < radix {
        Some((c as int) - ('0' as int))
    } else if radix == 16 && 'a' <= c && c <= 'f' {
        Some((c as int) - ('a' as int) + 10)
    } else if radix == 16 && 'A' <= c && c <= 'F' {
        Some((c as int) - ('A' as int) + 10)
    } else {
        None
    }
}

/// `char::to_digit` for the radixes used here (8, 10 and 16).
pub fn to_digit(c: char, radix: u32) -> (r: Option<u32>)
    requires
        radix == 8 || radix == 10 || radix == 16,
    ensures
        r matches Some(d) ==> digit_value(c, radix) == Some(d as int) && d < radix,
        r is None ==> digit_value(c, radix) is None,
{
    if '0' <= c && c <= '9' && (c as u32) - ('0' as u32) < radix {
        Some((c as u32) - ('0' as u32))
    } else if radix == 16 && 'a' <= c && c <= 'f' {
        Some((c as u32) - ('a' as u32) + 10)
    } else if radix == 16 && 'A' <= c && c <= 'F' {
        Some((c as u32) - ('A' as u32) + 10)
    } else {
        None
    }
}

/// Value of a run of digits in `radix`.
pub open spec fn digits_value(d: Seq<char>, radix: u32) -> int
    decreases d.len(),
{
    if d.len() == 0 {
        0
    } else {
        digits_value(d.drop_last(), radix) * radix + digit_value(d.last(), radix).unwrap_or(0)
    }
}

/// End of the run of `radix` digits starting at `j`.
pub open spec fn digits_end(c: Seq<char>, j: int, radix: u32) -> int
    decreases c.len() - j,
{
    if 0 <= j < c.len() && digit_value(c[j], radix) is Some {
        digits_end(c, j + 1, radix)
    } else {
        j
    }
}

/// End of the integer suffix (`u`, `U`, `l`, `L`) starting at `j`.
pub open spec fn suffix_end(c: Seq<char>, j: int) -> int
    decreases c.len() - j,
{
    if 0 <= j < c.len() && (c[j] == 'u' || c[j] == 'U' || c[j] == 'l' || c[j] == 'L') {
        suffix_end(c, j + 1)
    } else {
        j
    }
}

/// Radix and first digit position of the number literal at `i`.
pub open spec fn radix_start(c: Seq<char>, i: int) -> (u32, int) {
    if c[i] == '0' && i + 1 < c.len() && (c[i + 1] == 'x' || c[i + 1] == 'X') {
        (16, i + 2)
    } else if c[i] == '0' {
        (8, i)
    } else {
        (10, i)
    }
}

/// The number literal starting at `i`: its value (`None` when empty or
/// out of `i64` range) and the position after it, suffixes included.
pub open spec fn number_at(c: Seq<char>, i: int) -> (Option<i64>, int) {
    let (radix, ds) = radix_start(c, i);
    let de = digits_end(c, ds, radix);
    let se = suffix_end(c, de);
    let value = if de == ds {
        if radix == 8 {
            Some(0i64)
        } else {
            None
        }
    } else {
        let v = digits_value(c.subrange(ds, de), radix);
        if v <= i64::MAX {
            Some(v as i64)
        } else {
            None
        }
    };
    (value, se)
}

proof fn lemma_digits_value_nonneg(d: Seq<char>, radix: u32)
    requires
        radix >= 2,
    ensures
        digits_value(d, radix) >= 0,
    decreases d.len(),
{
    if d.len() > 0 {
        lemma_digits_value_nonneg(d.drop_last(), radix);
        assert(digits_value(d.drop_last(), radix) * radix >= 0) by (nonlinear_arith)
            requires
                digits_value(d.drop_last(), radix) >= 0,
                radix >= 2,
        ;
    }
}

proof fn lemma_digits_end(c: Seq<char>, j: int, radix: u32)
    requires
        0 <= j <= c.len(),
    ensures
        j <= digits_end(c, j, radix) <= c.len(),
        forall|k: int| j <= k < digits_end(c, j, radix) ==> digit_value(c[k], radix) is Some,
        digits_end(c, j, radix) < c.len() ==> digit_value(c[digits_end(c, j, radix)], radix) is None,
    decreases c.len() - j,
{
    if j < c.len() && digit_value(c[j], radix) is Some {
        lemma_digits_end(c, j + 1, radix);
    }
}

proof fn lemma_suffix_end(c: Seq<char>, j: int)
    requires
        0 <= j <= c.len(),
    ensures
        j <= suffix_end(c, j) <= c.len(),
    decreases c.len() - j,
{
    if j < c.len() && (c[j] == 'u' || c[j] == 'U' || c[j] == 'l' || c[j] == 'L') {
        lemma_suffix_end(c, j + 1);
    }
}

/// Parses the number literal at `start` (which holds an ASCII digit).
pub fn parse_number(chars: &Vec<char>, start: usize) -> (r: (Option<i64>, usize))
    requires
        start < chars.len(),
        is_ascii_digit(chars@[start as int]),
    ensures
        (r.0, r.1 as int) == number_at(chars@, start as int),
        start < r.1 <= chars.len(),
{
    let n = chars.len();
    let mut i = start;
    let (radix, digit_start): (u32, usize) = if chars[i] == '0' && i + 1 < n && (chars[i + 1]
        == 'x' || chars[i + 1] == 'X') {
        (16, i + 2)
    } else if chars[i] == '0' {
        (8, i)
    } else {
        (10, i)
    };
    i = digit_start;
    let mut acc: u64 = 0;
    let mut overflow = false;
    proof {
        lemma_digits_end(chars@, digit_start as int, radix);
    }
    while i < n && to_digit(chars[i], radix).is_some()
        invariant
            digit_start <= i <= n == chars@.len(),
            radix == 8 || radix == 10 || radix == 16,
            digit_start <= digits_end(chars@, digit_start as int, radix) <= n,
            digits_end(chars@, digit_start as int, radix) == digits_end(chars@, i as int, radix),
            !overflow ==> acc as int == digits_value(
                chars@.subrange(digit_start as int, i as int),
                radix,
            ) && acc <= i64::MAX,
            overflow ==> digits_value(chars@.subrange(digit_start as int, i as int), radix)
                > i64::MAX,
        decreases n - i,
    {
        let d = to_digit(chars[i], radix).unwrap();
        let ghost prev = chars@.subrange(digit_start as int, i as int);
        let ghost next = chars@.subrange(digit_start as int, i + 1);
        assert(next.drop_last() =~= prev);
        assert(next.last() == chars@[i as int]);
        proof {
            lemma_digits_value_nonneg(prev, radix);
        }
        if !overflow {
            if acc > (i64::MAX as u64 - d as u64) / (radix as u64) {
                overflow = true;
                assert(digits_value(next, radix) > i64::MAX) by (nonlinear_arith)
                    requires
                        digits_value(next, radix) == acc as int * radix + d,
                        acc as int > (i64::MAX - d) / (radix as int),
                        radix >= 2,
                        d < radix,
                ;
            } else {
                assert(acc as int * radix + d <= i64::MAX) by (nonlinear_arith)
                    requires
                        acc as int <= (i64::MAX - d) / (radix as int),
                        radix >= 2,
                        d < radix,
                ;
                acc = acc * (radix as u64) + d as u64;
            }
        } else {
            assert(digits_value(next, radix) > i64::MAX) by (nonlinear_arith)
                requires
                    digits_value(next, radix) == digits_value(prev, radix) * radix + d,
                    digits_value(prev, radix) > i64::MAX,
                    radix >= 2,
            ;
        }
        i += 1;
    }
    let digit_end = i;
    proof {
        lemma_suffix_end(chars@, digit_end as int);
    }
    while i < n && (chars[i] == 'u' || chars[i] == 'U' || chars[i] == 'l' || chars[i] == 'L')
        invariant
            digit_end <= i <= n == chars@.len(),
            suffix_end(chars@, digit_end as int) == suffix_end(chars@, i as int),
        decreases n - i,
    {
        i += 1;
    }
    let value = if digit_end == digit_start {
        if radix == 8 {
            Some(0i64)
        } else {
            None
        }
    } else if overflow {
        None
    } else {
        Some(acc as i64)
    };
    proof {
        if digit_start == start && radix == 10 {
            assert(digit_value(chars@[start as int], 10) is Some);
        }
    }
    (value, i)
}

//
// Character constants
//

/// Position after the closing quote searched from `k`.
pub open spec fn close_quote_end(c: Seq<char>, k: int) -> int
    decreases c.len() - k,
{
    if 0 <= k < c.len() && c[k] != '\'' {
        close_quote_end(c, k + 1)
    } else if 0 <= k < c.len() {
        k + 1
    } else {
        k
    }
}

pub open spec fn escape_value(e: char) -> i64 {
    if e == 'n' {
        10
    } else if e == 't' {
        9
    } else if e == 'r' {
        13
    } else if e == '0' {
        0
    } else {
        e as i64
    }
}

/// The character constant starting at `i` (which holds `'`).
pub open spec fn char_lit_at(c: Seq<char>, i: int) -> (Option<i64>, int) {
    let j = i + 1;
    if j >= c.len() {
        (None, j)
    } else if c[j] == '\\' && j + 1 < c.len() {
        (Some(escape_value(c[j + 1])), close_quote_end(c, j + 2))
    } else {
        (Some(c[j] as i64), close_quote_end(c, j + 1))
    }
}

proof fn lemma_close_quote_end(c: Seq<char>, k: int)
    requires
        0 <= k <= c.len(),
    ensures
        k <= close_quote_end(c, k) <= c.len(),
    decreases c.len() - k,
{
    if k < c.len() && c[k] != '\'' {
        lemma_close_quote_end(c, k + 1);
    }
}

/// Parses the character constant at `start`.
pub fn parse_char(chars: &Vec<char>, start: usize) -> (r: (Option<i64>, usize))
    requires
        start < chars.len(),
    ensures
        (r.0, r.1 as int) == char_lit_at(chars@, start as int),
        start < r.1 <= chars.len(),
{
    let n = chars.len();
    let mut i = start + 1;
    if i >= n {
        return (None, i);
    }
    let value: i64 = if chars[i] == '\\' && i + 1 < n {
        let escaped = chars[i + 1];
        i += 2;
        if escaped == 'n' {
            10
        } else if escaped == 't' {
            9
        } else if escaped == 'r' {
            13
        } else if escaped == '0' {
            0
        } else {
            escaped as i64
        }
    } else {
        let v = chars[i] as i64;
        i += 1;
        v
    };
    let ghost k = i;
    proof {
        lemma_close_quote_end(chars@, k as int);
    }
    while i < n && chars[i] != '\''
        invariant
            k <= i <= n == chars@.len(),
            close_quote_end(chars@, k as int) == close_quote_end(chars@, i as int),
        decreases n - i,
    {
        i += 1;
    }
    if i < n {
        i += 1;
    }
    (Some(value), i)
}

//
// Tokenizer
//

pub open spec fn is_ident_char(c: char) -> bool {
    is_ascii_alnum(c) || c == '_'
}

pub open spec fn ident_end(c: Seq<char>, i: int) -> int
    decreases c.len() - i,
{
    if 0 <= i < c.len() && is_ident_char(c[i]) {
        ident_end(c, i + 1)
    } else {
        i
    }
}

/// Position after a string literal whose body starts at `i`.
pub open spec fn string_skip(c: Seq<char>, i: int) -> int
    decreases c.len() - i,
{
    if 0 <= i < c.len() && c[i] != '"' {
        if c[i] == '\\' && i + 1 < c.len() {
            string_skip(c, i + 2)
        } else {
            string_skip(c, i + 1)
        }
    } else if 0 <= i < c.len() {
        i + 1
    } else {
        i
    }
}

/// The two-character operator spelled by `a` and `b`, if any.
pub open spec fn op2(a: char, b: char) -> Option<Op> {
    if a == '<' && b == '<' {
        Some(Op::Shl)
    } else if a == '>' && b == '>' {
        Some(Op::Shr)
    } else if a == '<' && b == '=' {
        Some(Op::Le)
    } else if a == '>' && b == '=' {
        Some(Op::Ge)
    } else if a == '=' && b == '=' {
        Some(Op::EqEq)
    } else if a == '!' && b == '=' {
        Some(Op::Ne)
    } else if a == '&' && b == '&' {
        Some(Op::AndAnd)
    } else if a == '|' && b == '|' {
        Some(Op::OrOr)
    } else if a == ':' && b == ':' {
        Some(Op::Scope)
    } else {
        None
    }
}

/// The one-character operator spelled by `a`, if any.
pub open spec fn op1(a: char) -> Option<Op> {
    if a == '!' {
        Some(Op::Not)
    } else if a == '~' {
        Some(Op::Tilde)
    } else if a == '*' {
        Some(Op::Star)
    } else if a == '/' {
        Some(Op::Slash)
    } else if a == '%' {
        Some(Op::Percent)
    } else if a == '+' {
        Some(Op::Plus)
    } else if a == '-' {
        Some(Op::Minus)
    } else if a == '<' {
        Some(Op::Lt)
    } else if a == '>' {
        Some(Op::Gt)
    } else if a == '&' {
        Some(Op::Amp)
    } else if a == '^' {
        Some(Op::Caret)
    } else if a == '|' {
        Some(Op::Pipe)
    } else if a == '?' {
        Some(Op::Question)
    } else if a == ':' {
        Some(Op::Colon)
    } else if a == ',' {
        Some(Op::Comma)
    } else {
        None
    }
}

fn exec_op2(a: char, b: char) -> (r: Option<Op>)
    ensures
        r == op2(a, b),
{
    if a == '<' && b == '<' {
        Some(Op::Shl)
    } else if a == '>' && b == '>' {
        Some(Op::Shr)
    } else if a == '<' && b == '=' {
        Some(Op::Le)
    } else if a == '>' && b == '=' {
        Some(Op::Ge)
    } else if a == '=' && b == '=' {
        Some(Op::EqEq)
    } else if a == '!' && b == '=' {
        Some(Op::Ne)
    } else if a == '&' && b == '&' {
        Some(Op::AndAnd)
    } else if a == '|' && b == '|' {
        Some(Op::OrOr)
    } else if a == ':' && b == ':' {
        Some(Op::Scope)
    } else {
        None
    }
}

fn exec_op1(a: char) -> (r: Option<Op>)
    ensures
        r == op1(a),
{
    if a == '!' {
        Some(Op::Not)
    } else if a == '~' {
        Some(Op::Tilde)
    } else if a == '*' {
        Some(Op::Star)
    } else if a == '/' {
        Some(Op::Slash)
    } else if a == '%' {
        Some(Op::Percent)
    } else if a == '+' {
        Some(Op::Plus)
    } else if a == '-' {
        Some(Op::Minus)
    } else if a == '<' {
        Some(Op::Lt)
    } else if a == '>' {
        Some(Op::Gt)
    } else if a == '&' {
        Some(Op::Amp)
    } else if a == '^' {
        Some(Op::Caret)
    } else if a == '|' {
        Some(Op::Pipe)
    } else if a == '?' {
        Some(Op::Question)
    } else if a == ':' {
        Some(Op::Colon)
    } else if a == ',' {
        Some(Op::Comma)
    } else {
        None
    }
}

/// The token at non-whitespace position `i` and the position after it.
pub open spec fn token_at(c: Seq<char>, i: int) -> (SpecTok, int) {
    let ch = c[i];
    if is_ascii_digit(ch) {
        let (v, next) = number_at(c, i);
        (
            match v {
                Some(v) => SpecTok::Num(v),
                None => SpecTok::Unknown,
            },
            next,
        )
    } else if is_ascii_alpha(ch) || ch == '_' {
        let e = ident_end(c, i);
        (SpecTok::Ident(c.subrange(i, e)), e)
    } else if ch == '\'' {
        let (v, next) = char_lit_at(c, i);
        (
            match v {
                Some(v) => SpecTok::Num(v),
                None => SpecTok::Unknown,
            },
            next,
        )
    } else if ch == '"' {
        (SpecTok::Unknown, string_skip(c, i + 1))
    } else if ch == '(' {
        (SpecTok::Op(Op::LParen), i + 1)
    } else if ch == ')' {
        (SpecTok::Op(Op::RParen), i + 1)
    } else if i + 1 < c.len() && op2(ch, c[i + 1]) is Some {
        (SpecTok::Op(op2(ch, c[i + 1]).unwrap()), i + 2)
    } else if op1(ch) is Some {
        (SpecTok::Op(op1(ch).unwrap()), i + 1)
    } else {
        (SpecTok::Unknown, i + 1)
    }
}

proof fn lemma_ident_end(c: Seq<char>, i: int)
    requires
        0 <= i <= c.len(),
    ensures
        i <= ident_end(c, i) <= c.len(),
    decreases c.len() - i,
{
    if i < c.len() && is_ident_char(c[i]) {
        lemma_ident_end(c, i + 1);
    }
}

proof fn lemma_string_skip(c: Seq<char>, i: int)
    requires
        0 <= i <= c.len(),
    ensures
        i <= string_skip(c, i) <= c.len(),
    decreases c.len() - i,
{
    if i < c.len() && c[i] != '"' {
        if c[i] == '\\' && i + 1 < c.len() {
            lemma_string_skip(c, i + 2);
        } else {
            lemma_string_skip(c, i + 1);
        }
    }
}

proof fn lemma_token_at(c: Seq<char>, i: int)
    requires
        0 <= i < c.len(),
    ensures
        i < token_at(c, i).1 <= c.len(),
{
    let ch = c[i];
    if is_ascii_digit(ch) {
        let (radix, ds) = radix_start(c, i);
        lemma_digits_end(c, ds, radix);
        lemma_suffix_end(c, digits_end(c, ds, radix));
        if radix == 10 {
            assert(digit_value(ch, 10) is Some);
        }
    } else if is_ascii_alpha(ch) || ch == '_' {
        lemma_ident_end(c, i + 1);
    } else if ch == '\'' {
        if i + 2 <= c.len() {
            lemma_close_quote_end(c, i + 2);
        }
        if i + 3 <= c.len() {
            lemma_close_quote_end(c, i + 3);
        }
    } else if ch == '"' {
        lemma_string_skip(c, i + 1);
    }
}

/// Tokens of `c` from position `i` on (whitespace separates, nothing else).
pub open spec fn tokenize_from(c: Seq<char>, i: int) -> Seq<SpecTok>
    decreases c.len() - i,
{
    if i < 0 || i >= c.len() {
        Seq::empty()
    } else if is_ws(c[i]) {
        tokenize_from(c, i + 1)
    } else {
        let (t, next) = token_at(c, i);
        if next <= i || next > c.len() {
            Seq::empty()
        } else {
            seq![t] + tokenize_from(c, next)
        }
    }
}

pub open spec fn tokenize_spec(s: Seq<char>) -> Seq<SpecTok> {
    tokenize_from(s, 0)
}

/// Splits a `#if` expression into tokens.
pub fn tokenize(expr: &str) -> (r: Vec<Tok>)
    ensures
        tok_views(r@) == tokenize_spec(expr@),
{
    let chars = chars_of(expr);
    tokenize_chars(&chars)
}

fn tokenize_chars(chars: &Vec<char>) -> (r: Vec<Tok>)
    ensures
        tok_views(r@) == tokenize_from(chars@, 0),
{
    let n = chars.len();
    let mut toks: Vec<Tok> = Vec::new();
    let mut i: usize = 0;
    while i < n
        invariant
            i <= n == chars@.len(),
            tokenize_from(chars@, 0) == tok_views(toks@) + tokenize_from(chars@, i as int),
        decreases n - i,
    {
        let c = chars[i];
        if is_whitespace(c) {
            i += 1;
            continue;
        }
        proof {
            lemma_token_at(chars@, i as int);
        }
        let ghost expected = token_at(chars@, i as int);
        let tok: Tok;
        let next: usize;
        if ascii_digit(c) {
            let (value, nx) = parse_number(chars, i);
            tok = match value {
                Some(v) => Tok::Num(v),
                None => Tok::Unknown,
            };
            next = nx;
        } else if ascii_alpha(c) || c == '_' {
            let start = i;
            let mut j = i;
            proof {
                lemma_ident_end(chars@, i as int);
            }
            while j < n && (ascii_alnum(chars[j]) || chars[j] == '_')
                invariant
                    start <= j <= n == chars@.len(),
                    ident_end(chars@, start as int) == ident_end(chars@, j as int),
                decreases n - j,
            {
                j += 1;
            }
            tok = Tok::Ident(string_of_range(chars, start, j));
            next = j;
        } else if c == '\'' {
            let (value, nx) = parse_char(chars, i);
            tok = match value {
                Some(v) => Tok::Num(v),
                None => Tok::Unknown,
            };
            next = nx;
        } else if c == '"' {
            let mut j = i + 1;
            proof {
                lemma_string_skip(chars@, j as int);
            }
            while j < n && chars[j] != '"'
                invariant
                    i < j <= n == chars@.len(),
                    string_skip(chars@, i + 1) == string_skip(chars@, j as int),
                decreases n - j,
            {
                if chars[j] == '\\' && j + 1 < n {
                    j += 2;
                } else {
                    j += 1;
                }
            }
            if j < n {
                j += 1;
            }
            tok = Tok::Unknown;
            next = j;
        } else if c == '(' {
            tok = Tok::Op(Op::LParen);
            next = i + 1;
        } else if c == ')' {
            tok = Tok::Op(Op::RParen);
            next = i + 1;
        } else {
            let two = if i + 1 < n {
                exec_op2(c, chars[i + 1])
            } else {
                None
            };
            match two {
                Some(op) => {
                    tok = Tok::Op(op);
                    next = i + 2;
                },
                None => {
                    match exec_op1(c) {
                        Some(op) => {
                            tok = Tok::Op(op);
                            next = i + 1;
                        },
                        None => {
                            tok = Tok::Unknown;
                            next = i + 1;
                        },
                    }
                },
            }
        }
        assert(tok@ == expected.0 && next == expected.1);
        let ghost before = toks@;
        toks.push(tok);
        assert(tok_views(toks@) =~= tok_views(before) + seq![expected.0]);
        i = next;
    }
    assert(tokenize_from(chars@, i as int) =~= Seq::<SpecTok>::empty());
    assert(tok_views(toks@) + Seq::<SpecTok>::empty() =~= tok_views(toks@));
    toks
}


//
// Macro resolution
//

/// Every identifier becomes unknown (nested macros are not chased).
pub open spec fn unident(t: Seq<SpecTok>) -> Seq<SpecTok> {
    t.map_values(|x: SpecTok| if x is Ident { SpecTok::Unknown } else { x })
}

pub open spec fn is_op_at(t: Seq<SpecTok>, j: int, op: Op) -> bool {
    0 <= j < t.len() && t[j] == SpecTok::Op(op)
}

/// Replacement of one identifier that is not `defined`.
pub open spec fn substitute(name: Seq<char>, m: Map<Seq<char>, Seq<char>>) -> Seq<SpecTok> {
    if m.contains_key(name) && trim(m[name]).len() > 0 {
        unident(tokenize_spec(m[name]))
    } else {
        seq![SpecTok::Unknown]
    }
}

/// `defined X` / `defined(X)` become `1` for a known macro and unknown
/// otherwise; other identifiers are replaced by the tokens of their value one
/// level deep, or become unknown.
pub open spec fn resolve_from(t: Seq<SpecTok>, i: int, m: Map<Seq<char>, Seq<char>>) -> Seq<
    SpecTok,
>
    decreases t.len() - i,
{
    if i < 0 || i >= t.len() {
        Seq::empty()
    } else {
        match t[i] {
            SpecTok::Ident(name) => {
                if name == "defined"@ {
                    let paren = is_op_at(t, i + 1, Op::LParen);
                    let j1 = if paren {
                        i + 2
                    } else {
                        i + 1
                    };
                    if 0 <= j1 < t.len() && t[j1] is Ident {
                        let id = t[j1]->Ident_0;
                        let out = if m.contains_key(id) {
                            SpecTok::Num(1)
                        } else {
                            SpecTok::Unknown
                        };
                        let j3 = if paren && is_op_at(t, j1 + 1, Op::RParen) {
                            j1 + 2
                        } else {
                            j1 + 1
                        };
                        seq![out] + resolve_from(t, j3, m)
                    } else {
                        seq![SpecTok::Unknown] + resolve_from(t, j1, m)
                    }
                } else {
                    substitute(name, m) + resolve_from(t, i + 1, m)
                }
            },
            _ => seq![t[i]] + resolve_from(t, i + 1, m),
        }
    }
}

fn is_op_tok(toks: &Vec<Tok>, j: usize, op: Op) -> (r: bool)
    ensures
        r == is_op_at(tok_views(toks@), j as int, op),
{
    if j < toks.len() {
        match &toks[j] {
            Tok::Op(o) => *o == op,
            _ => false,
        }
    } else {
        false
    }
}

/// Resolves `defined` and substitutes known macro values (see [`resolve_from`]).
pub fn resolve_tokens(toks: &Vec<Tok>, macros: &MacroTable) -> (r: Vec<Tok>)
    ensures
        tok_views(r@) == resolve_from(tok_views(toks@), 0, macros@),
{
    let ghost t = tok_views(toks@);
    let mut out: Vec<Tok> = Vec::new();
    let mut i: usize = 0;
    while i < toks.len()
        invariant
            i <= toks.len() + 2,
            t == tok_views(toks@),
            resolve_from(t, 0, macros@) == tok_views(out@) + resolve_from(t, i as int, macros@),
        decreases toks.len() + 2 - i,
    {
        let ghost before = tok_views(out@);
        match &toks[i] {
            Tok::Ident(name) => {
                if str_eq(name.as_str(), "defined") {
                    let paren = is_op_tok(toks, i + 1, Op::LParen);
                    let j1 = if paren {
                        i + 2
                    } else {
                        i + 1
                    };
                    let mut handled = false;
                    if j1 < toks.len() {
                        match &toks[j1] {
                            Tok::Ident(id) => {
                                let tok = if macros.contains_key(id.as_str()) {
                                    Tok::Num(1)
                                } else {
                                    Tok::Unknown
                                };
                                out.push(tok);
                                let j3 = if paren && is_op_tok(toks, j1 + 1, Op::RParen) {
                                    j1 + 2
                                } else {
                                    j1 + 1
                                };
                                assert(tok_views(out@) =~= before + seq![tok@]);
                                i = j3;
                                handled = true;
                            },
                            _ => {},
                        }
                    }
                    if !handled {
                        out.push(Tok::Unknown);
                        assert(tok_views(out@) =~= before + seq![SpecTok::Unknown]);
                        i = j1;
                    }
                } else {
                    let value = macros.get(name.as_str());
                    let mut substituted = false;
                    match value {
                        Some(v) => {
                            let tv = trim_str(v.as_str());
                            if tv.as_str().unicode_len() > 0 {
                                let inner = tokenize(v.as_str());
                                let mut k: usize = 0;
                                while k < inner.len()
                                    invariant
                                        k <= inner.len(),
                                        tok_views(out@) == before + unident(
                                            tok_views(inner@),
                                        ).take(k as int),
                                    decreases inner.len() - k,
                                {
                                    let tk = match &inner[k] {
                                        Tok::Ident(_) => Tok::Unknown,
                                        other => other.clone_tok(),
                                    };
                                    assert(tok_views(inner@)[k as int] == inner@[k as int]@);
                                    assert(unident(tok_views(inner@))[k as int] == tk@);
                                    let ghost prev = tok_views(out@);
                                    out.push(tk);
                                    assert(tok_views(out@) =~= prev.push(tk@));
                                    assert(unident(tok_views(inner@)).take(k + 1) =~= unident(
                                        tok_views(inner@),
                                    ).take(k as int).push(tk@));
                                    k += 1;
                                }
                                assert(unident(tok_views(inner@)).take(inner.len() as int)
                                    =~= unident(tok_views(inner@)));
                                substituted = true;
                            }
                        },
                        None => {},
                    }
                    if !substituted {
                        out.push(Tok::Unknown);
                        assert(tok_views(out@) =~= before + seq![SpecTok::Unknown]);
                    }
                    i += 1;
                }
            },
            other => {
                let tk = other.clone_tok();
                out.push(tk);
                assert(tok_views(out@) =~= before + seq![tk@]);
                i += 1;
            },
        }
    }
    assert(resolve_from(t, i as int, macros@) =~= Seq::<SpecTok>::empty());
    assert(tok_views(out@) + Seq::<SpecTok>::empty() =~= tok_views(out@));
    out
}


//
// Evaluation
//

/// `true`/`false` as the C integers `1`/`0`.
pub open spec fn bool_int(b: bool) -> i64 {
    if b {
        1
    } else {
        0
    }
}

/// Magnitude of an `i64`.
pub open spec fn mag(a: i64) -> int {
    if a < 0 {
        -(a as int)
    } else {
        a as int
    }
}

/// Rust's `i64::wrapping_div` (truncating; `MIN / -1` wraps to `MIN`).
pub open spec fn trunc_div(a: i64, b: i64) -> i64
    recommends
        b != 0,
{
    let q = mag(a) / mag(b);
    if (a < 0) != (b < 0) {
        (-q) as i64
    } else if q > i64::MAX {
        i64::MIN
    } else {
        q as i64
    }
}

/// Rust's `i64::wrapping_rem` (the remainder takes the sign of `a`).
pub open spec fn trunc_rem(a: i64, b: i64) -> i64
    recommends
        b != 0,
{
    let r = mag(a) % mag(b);
    if a < 0 {
        (-r) as i64
    } else {
        r as i64
    }
}

/// The arithmetic operators on two known operands.
pub open spec fn arith(op: Op, a: i64, b: i64) -> Option<i64> {
    match op {
        Op::Pipe => Some(a | b),
        Op::Caret => Some(a ^ b),
        Op::Amp => Some(a & b),
        Op::EqEq => Some(bool_int(a == b)),
        Op::Ne => Some(bool_int(a != b)),
        Op::Lt => Some(bool_int(a < b)),
        Op::Le => Some(bool_int(a <= b)),
        Op::Gt => Some(bool_int(a > b)),
        Op::Ge => Some(bool_int(a >= b)),
        Op::Shl => if (b as u32) < 64 {
            Some(a.wrapping_shl(b as u32))
        } else {
            Some(0)
        },
        Op::Shr => if (b as u32) < 64 {
            Some(a.wrapping_shr(b as u32))
        } else {
            Some(0)
        },
        Op::Plus => Some(a.wrapping_add(b)),
        Op::Minus => Some(a.wrapping_sub(b)),
        Op::Star => Some(a.wrapping_mul(b)),
        Op::Slash => if b == 0 {
            None
        } else {
            Some(trunc_div(a, b))
        },
        Op::Percent => if b == 0 {
            None
        } else {
            Some(trunc_rem(a, b))
        },
        _ => None,
    }
}

/// A binary operator applied to possibly-unknown operands. `&&` and `||`
/// decide with one known operand where they can; everything else needs both.
pub open spec fn apply_binary_spec(op: Op, a: Option<i64>, b: Option<i64>) -> Option<i64> {
    if op == Op::AndAnd {
        if a == Some(0i64) || b == Some(0i64) {
            Some(0)
        } else if a is Some && b is Some {
            Some(1)
        } else {
            None
        }
    } else if op == Op::OrOr {
        if (a is Some && a != Some(0i64)) || (b is Some && b != Some(0i64)) {
            Some(1)
        } else if a == Some(0i64) && b == Some(0i64) {
            Some(0)
        } else {
            None
        }
    } else {
        match (a, b) {
            (Some(x), Some(y)) => arith(op, x, y),
            _ => None,
        }
    }
}

/// Law: with both operands known, the comparisons of a `#if` give `1` when
/// the comparison holds of the two integers and `0` when it does not, and
/// `&&` and `||` are the logical connectives over "not zero".
pub proof fn lemma_known_comparisons(a: i64, b: i64)
    ensures
        apply_binary_spec(Op::Lt, Some(a), Some(b)) == Some(if a < b { 1i64 } else { 0i64 }),
        apply_binary_spec(Op::Le, Some(a), Some(b)) == Some(if a <= b { 1i64 } else { 0i64 }),
        apply_binary_spec(Op::Gt, Some(a), Some(b)) == Some(if a > b { 1i64 } else { 0i64 }),
        apply_binary_spec(Op::Ge, Some(a), Some(b)) == Some(if a >= b { 1i64 } else { 0i64 }),
        apply_binary_spec(Op::EqEq, Some(a), Some(b)) == Some(if a == b { 1i64 } else { 0i64 }),
        apply_binary_spec(Op::Ne, Some(a), Some(b)) == Some(if a != b { 1i64 } else { 0i64 }),
        apply_binary_spec(Op::AndAnd, Some(a), Some(b)) == Some(if a != 0 && b != 0 { 1i64 } else { 0i64 }),
        apply_binary_spec(Op::OrOr, Some(a), Some(b)) == Some(if a != 0 || b != 0 { 1i64 } else { 0i64 }),
{
}

/// Law: the comparisons relate as the integer order does: `a <= b` is `b >= a`
/// and is `a < b` or `a == b`; `a < b` is `b > a`; `a != b` is the opposite
/// of `a == b`.
pub proof fn lemma_comparisons_relate(a: i64, b: i64)
    ensures
        apply_binary_spec(Op::Le, Some(a), Some(b)) == apply_binary_spec(Op::Ge, Some(b), Some(a)),
        apply_binary_spec(Op::Lt, Some(a), Some(b)) == apply_binary_spec(Op::Gt, Some(b), Some(a)),
        apply_binary_spec(Op::Le, Some(a), Some(b)) == apply_binary_spec(
            Op::OrOr,
            apply_binary_spec(Op::Lt, Some(a), Some(b)),
            apply_binary_spec(Op::EqEq, Some(a), Some(b)),
        ),
        apply_binary_spec(Op::Ne, Some(a), Some(b)) == apply_binary_spec(
            Op::EqEq,
            apply_binary_spec(Op::EqEq, Some(a), Some(b)),
            Some(0i64),
        ),
        apply_binary_spec(Op::Le, Some(a), Some(a)) == Some(1i64),
        apply_binary_spec(Op::Lt, Some(a), Some(a)) == Some(0i64),
{
}

/// Law: with both operands known and no overflow, `+`, `-` and `*` are the
/// integer operations, and `/` and `%` on non-negative operands are integer
/// division and remainder; a zero divisor leaves the value unknown.
pub proof fn lemma_known_arithmetic(a: i64, b: i64)
    ensures
        i64::MIN <= a + b <= i64::MAX ==> apply_binary_spec(Op::Plus, Some(a), Some(b)) == Some((a + b) as i64),
        i64::MIN <= a - b <= i64::MAX ==> apply_binary_spec(Op::Minus, Some(a), Some(b)) == Some((a - b) as i64),
        i64::MIN <= a * b <= i64::MAX ==> apply_binary_spec(Op::Star, Some(a), Some(b)) == Some((a * b) as i64),
        a >= 0 && b > 0 ==> apply_binary_spec(Op::Slash, Some(a), Some(b)) == Some((a / b) as i64),
        a >= 0 && b > 0 ==> apply_binary_spec(Op::Percent, Some(a), Some(b)) == Some((a % b) as i64),
        apply_binary_spec(Op::Slash, Some(a), Some(0)) is None,
        apply_binary_spec(Op::Percent, Some(a), Some(0)) is None,
{
    if a >= 0 && b > 0 {
        assert(a / b <= a) by (nonlinear_arith)
            requires
                a >= 0,
                b > 0,
        ;
        assert(0 <= a % b < b) by (nonlinear_arith)
            requires
                b > 0,
        ;
    }
}

/// Law: with one operand unknown, `&&` is decided only by a known zero and
/// `||` only by a known non-zero; every other operator stays undecided.
pub proof fn lemma_unknown_operand(op: Op, a: i64)
    ensures
        apply_binary_spec(Op::AndAnd, Some(a), None) == if a == 0 { Some(0i64) } else { None },
        apply_binary_spec(Op::AndAnd, None, Some(a)) == if a == 0 { Some(0i64) } else { None },
        apply_binary_spec(Op::OrOr, Some(a), None) == if a != 0 { Some(1i64) } else { None },
        apply_binary_spec(Op::OrOr, None, Some(a)) == if a != 0 { Some(1i64) } else { None },
        op != Op::AndAnd && op != Op::OrOr ==> apply_binary_spec(op, Some(a), None) is None
            && apply_binary_spec(op, None, Some(a)) is None,
{
}

fn exec_trunc_div(a: i64, b: i64) -> (r: i64)
    requires
        b != 0,
    ensures
        r == trunc_div(a, b),
{
    let ua: u64 = if a < 0 {
        ((-(a + 1)) as u64) + 1
    } else {
        a as u64
    };
    let ub: u64 = if b < 0 {
        ((-(b + 1)) as u64) + 1
    } else {
        b as u64
    };
    let q = ua / ub;
    assert(q as int == mag(a) / mag(b));
    if (a < 0) != (b < 0) {
        assert(q <= mag(a)) by (nonlinear_arith)
            requires
                q as int == mag(a) / mag(b),
                mag(b) >= 1,
                mag(a) >= 0,
        ;
        if q == 0x8000_0000_0000_0000u64 {
            i64::MIN
        } else {
            -(q as i64)
        }
    } else if q > 0x7fff_ffff_ffff_ffffu64 {
        i64::MIN
    } else {
        q as i64
    }
}

fn exec_trunc_rem(a: i64, b: i64) -> (r: i64)
    requires
        b != 0,
    ensures
        r == trunc_rem(a, b),
{
    let ua: u64 = if a < 0 {
        ((-(a + 1)) as u64) + 1
    } else {
        a as u64
    };
    let ub: u64 = if b < 0 {
        ((-(b + 1)) as u64) + 1
    } else {
        b as u64
    };
    let r = ua % ub;
    assert(r as int == mag(a) % mag(b));
    assert(r < ub);
    if a < 0 {
        -(r as i64)
    } else {
        r as i64
    }
}

/// Applies a binary operator of a `#if` expression.
pub fn apply_binary(op: Op, a: Option<i64>, b: Option<i64>) -> (r: Option<i64>)
    ensures
        r == apply_binary_spec(op, a, b),
{
    if op == Op::AndAnd {
        if a == Some(0i64) || b == Some(0i64) {
            return Some(0);
        }
        return match (a, b) {
            (Some(_), Some(_)) => Some(1),
            _ => None,
        };
    }
    if op == Op::OrOr {
        let a_true = match a {
            Some(x) => x != 0,
            None => false,
        };
        let b_true = match b {
            Some(x) => x != 0,
            None => false,
        };
        if a_true || b_true {
            return Some(1);
        }
        return match (a, b) {
            (Some(0), Some(0)) => Some(0),
            _ => None,
        };
    }
    let (a, b) = match (a, b) {
        (Some(x), Some(y)) => (x, y),
        _ => return None,
    };
    match op {
        Op::Pipe => Some(a | b),
        Op::Caret => Some(a ^ b),
        Op::Amp => Some(a & b),
        Op::EqEq => Some(if a == b { 1 } else { 0 }),
        Op::Ne => Some(if a != b { 1 } else { 0 }),
        Op::Lt => Some(if a < b { 1 } else { 0 }),
        Op::Le => Some(if a <= b { 1 } else { 0 }),
        Op::Gt => Some(if a > b { 1 } else { 0 }),
        Op::Ge => Some(if a >= b { 1 } else { 0 }),
        Op::Shl => {
            let n = b as u32;
            if n < 64 {
                Some(a.wrapping_shl(n))
            } else {
                Some(0)
            }
        },
        Op::Shr => {
            let n = b as u32;
            if n < 64 {
                Some(a.wrapping_shr(n))
            } else {
                Some(0)
            }
        },
        Op::Plus => Some(a.wrapping_add(b)),
        Op::Minus => Some(a.wrapping_sub(b)),
        Op::Star => Some(a.wrapping_mul(b)),
        Op::Slash => {
            if b == 0 {
                None
            } else {
                Some(exec_trunc_div(a, b))
            }
        },
        Op::Percent => {
            if b == 0 {
                None
            } else {
                Some(exec_trunc_rem(a, b))
            }
        },
        _ => None,
    }
}

/// The operator at position `p`, if the token there is one.
pub open spec fn peek_at(t: Seq<SpecTok>, p: int) -> Option<Op> {
    if 0 <= p < t.len() {
        match t[p] {
            SpecTok::Op(o) => Some(o),
            _ => None,
        }
    } else {
        None
    }
}

/// Binary operators by precedence level; a higher level binds tighter.
pub open spec fn level_has(level: int, op: Op) -> bool {
    if level == 0 {
        op == Op::OrOr
    } else if level == 1 {
        op == Op::AndAnd
    } else if level == 2 {
        op == Op::Pipe
    } else if level == 3 {
        op == Op::Caret
    } else if level == 4 {
        op == Op::Amp
    } else if level == 5 {
        op == Op::EqEq || op == Op::Ne
    } else if level == 6 {
        op == Op::Lt || op == Op::Le || op == Op::Gt || op == Op::Ge
    } else if level == 7 {
        op == Op::Shl || op == Op::Shr
    } else if level == 8 {
        op == Op::Plus || op == Op::Minus
    } else if level == 9 {
        op == Op::Star || op == Op::Slash || op == Op::Percent
    } else {
        false
    }
}

/// Result of parsing from a position: the value (`None` = unknown) and the
/// position after the parsed expression.
pub type Parsed = (Option<i64>, int);

/// `cond ? then : otherwise`, right-associative.
pub open spec fn s_ternary(t: Seq<SpecTok>, p: int) -> Parsed
    decreases t.len() - p, 40int,
{
    if p < 0 || p > t.len() {
        (None, p)
    } else {
        let (cond, p1) = s_binary(t, p, 0);
        if p1 < p || p1 > t.len() {
            (cond, p1)
        } else if peek_at(t, p1) == Some(Op::Question) {
            let (th, p2) = s_ternary(t, p1 + 1);
            if p2 < p1 + 1 || p2 > t.len() {
                (None, p2)
            } else {
                let p3 = if peek_at(t, p2) == Some(Op::Colon) {
                    p2 + 1
                } else {
                    p2
                };
                let (ot, p4) = s_ternary(t, p3);
                let v = match cond {
                    Some(c) => if c == 0 {
                        ot
                    } else {
                        th
                    },
                    None => if th == ot {
                        th
                    } else {
                        None
                    },
                };
                (v, p4)
            }
        } else {
            (cond, p1)
        }
    }
}

/// Precedence climbing: operands of `level + 1`, joined left-associatively
/// by the operators of `level`.
pub open spec fn s_binary(t: Seq<SpecTok>, p: int, level: int) -> Parsed
    decreases t.len() - p, 2 * (12 - level) + 2,
{
    if p < 0 || p > t.len() || level < 0 || level > 10 {
        (None, p)
    } else if level == 10 {
        s_unary(t, p)
    } else {
        let (l, p1) = s_binary(t, p, level + 1);
        if p1 < p || p1 > t.len() {
            (l, p1)
        } else {
            s_binary_rest(t, level, l, p1)
        }
    }
}

pub open spec fn s_binary_rest(t: Seq<SpecTok>, level: int, left: Option<i64>, p: int) -> Parsed
    decreases t.len() - p, 2 * (12 - level) + 1,
{
    if p < 0 || p > t.len() || level < 0 || level > 9 {
        (left, p)
    } else {
        match peek_at(t, p) {
            Some(op) => if level_has(level, op) {
                let (r, p1) = s_binary(t, p + 1, level + 1);
                if p1 < p + 1 || p1 > t.len() {
                    (None, p1)
                } else {
                    s_binary_rest(t, level, apply_binary_spec(op, left, r), p1)
                }
            } else {
                (left, p)
            },
            None => (left, p),
        }
    }
}

/// `i64::wrapping_neg`: `-x`, and `i64::MIN` for `i64::MIN`.
pub open spec fn wrapping_neg(x: i64) -> i64 {
    if x == i64::MIN {
        x
    } else {
        (-x) as i64
    }
}

/// Prefix `!`, `~`, `-` (wrapping, as the binary operators do), `+`.
pub open spec fn s_unary(t: Seq<SpecTok>, p: int) -> Parsed
    decreases t.len() - p, 3int,
{
    if p < 0 || p > t.len() {
        (None, p)
    } else if peek_at(t, p) == Some(Op::Not) {
        let (v, p1) = s_unary(t, p + 1);
        (
            match v {
                Some(x) => Some(bool_int(x == 0)),
                None => None,
            },
            p1,
        )
    } else if peek_at(t, p) == Some(Op::Tilde) {
        let (v, p1) = s_unary(t, p + 1);
        (
            match v {
                Some(x) => Some(!x),
                None => None,
            },
            p1,
        )
    } else if peek_at(t, p) == Some(Op::Minus) {
        let (v, p1) = s_unary(t, p + 1);
        (
            match v {
                Some(x) => Some(wrapping_neg(x)),
                None => None,
            },
            p1,
        )
    } else if peek_at(t, p) == Some(Op::Plus) {
        s_unary(t, p + 1)
    } else {
        s_primary(t, p)
    }
}

/// A number, an unknown token, or a parenthesized expression. Any other
/// token is consumed and unknown.
pub open spec fn s_primary(t: Seq<SpecTok>, p: int) -> Parsed
    decreases t.len() - p, 2int,
{
    if p < 0 || p >= t.len() {
        (None, p)
    } else {
        match t[p] {
            SpecTok::Num(v) => (Some(v), p + 1),
            SpecTok::Unknown => (None, p + 1),
            SpecTok::Op(Op::LParen) => {
                let (v, p1) = s_ternary(t, p + 1);
                let p2 = if peek_at(t, p1) == Some(Op::RParen) {
                    p1 + 1
                } else {
                    p1
                };
                (v, p2)
            },
            _ => (None, p + 1),
        }
    }
}

/// Tokens of `expr` after macro resolution.
pub open spec fn resolved(expr: Seq<char>, m: Map<Seq<char>, Seq<char>>) -> Seq<SpecTok> {
    resolve_from(tokenize_spec(expr), 0, m)
}

/// Value of a `#if` expression: `Some(v)` when decided, `None` when unknown.
pub open spec fn eval_spec(expr: Seq<char>, m: Map<Seq<char>, Seq<char>>) -> Option<i64> {
    s_ternary(resolved(expr, m), 0).0
}

/// Recursive-descent evaluator over resolved tokens.
pub struct ExprParser<'a> {
    pub toks: &'a [Tok],
    pub pos: usize,
}

impl<'a> ExprParser<'a> {
    pub open spec fn spec_toks(&self) -> Seq<SpecTok> {
        tok_views(self.toks@)
    }

    fn peek_op(&self) -> (r: Option<Op>)
        ensures
            r == peek_at(self.spec_toks(), self.pos as int),
    {
        if self.pos < self.toks.len() {
            match &self.toks[self.pos] {
                Tok::Op(op) => Some(*op),
                _ => None,
            }
        } else {
            None
        }
    }

    fn eat(&mut self, op: Op) -> (r: bool)
        ensures
            final(self).toks == old(self).toks,
            r == (peek_at(old(self).spec_toks(), old(self).pos as int) == Some(op)),
            final(self).pos == if r {
                old(self).pos + 1
            } else {
                old(self).pos as int
            },
    {
        if self.peek_op() == Some(op) {
            let n = self.toks.len();
            assert(self.spec_toks().len() == n);
            self.pos += 1;
            true
        } else {
            false
        }
    }

    fn parse(&mut self) -> (r: Option<i64>)
        requires
            old(self).pos <= old(self).toks@.len(),
        ensures
            final(self).toks == old(self).toks,
            r == s_ternary(old(self).spec_toks(), old(self).pos as int).0,
    {
        self.ternary()
    }

    fn ternary(&mut self) -> (r: Option<i64>)
        requires
            old(self).pos <= old(self).toks@.len(),
        ensures
            final(self).toks == old(self).toks,
            old(self).pos <= final(self).pos <= final(self).toks@.len(),
            r == s_ternary(old(self).spec_toks(), old(self).pos as int).0,
            final(self).pos == s_ternary(old(self).spec_toks(), old(self).pos as int).1,
        decreases old(self).toks@.len() - old(self).pos, 40int,
    {
        let ghost t = self.spec_toks();
        let ghost p = self.pos as int;
        let cond = self.binary(0);
        if self.eat(Op::Question) {
            let then = self.ternary();
            self.eat(Op::Colon);
            let otherwise = self.ternary();
            match cond {
                Some(c) => {
                    if c == 0 {
                        otherwise
                    } else {
                        then
                    }
                },
                None => {
                    if then == otherwise {
                        then
                    } else {
                        None
                    }
                },
            }
        } else {
            cond
        }
    }

    fn binary(&mut self, level: usize) -> (r: Option<i64>)
        requires
            old(self).pos <= old(self).toks@.len(),
            level <= 10,
        ensures
            final(self).toks == old(self).toks,
            old(self).pos <= final(self).pos <= final(self).toks@.len(),
            r == s_binary(old(self).spec_toks(), old(self).pos as int, level as int).0,
            final(self).pos == s_binary(old(self).spec_toks(), old(self).pos as int, level as int).1,
        decreases old(self).toks@.len() - old(self).pos, 2 * (12 - level) + 2,
    {
        if level >= 10 {
            return self.unary();
        }
        let ghost t = self.spec_toks();
        let ghost p = self.pos as int;
        let left = self.binary(level + 1);
        self.binary_rest(level, left)
    }

    fn binary_rest(&mut self, level: usize, left: Option<i64>) -> (r: Option<i64>)
        requires
            old(self).pos <= old(self).toks@.len(),
            level <= 9,
        ensures
            final(self).toks == old(self).toks,
            old(self).pos <= final(self).pos <= final(self).toks@.len(),
            r == s_binary_rest(old(self).spec_toks(), level as int, left, old(self).pos as int).0,
            final(self).pos == s_binary_rest(
                old(self).spec_toks(),
                level as int,
                left,
                old(self).pos as int,
            ).1,
        decreases old(self).toks@.len() - old(self).pos, 2 * (12 - level) + 1,
    {
        match self.peek_op() {
            Some(op) => {
                if level_contains(level, op) {
                    let n = self.toks.len();
                    assert(self.spec_toks().len() == n);
                    self.pos += 1;
                    let right = self.binary(level + 1);
                    let combined = apply_binary(op, left, right);
                    self.binary_rest(level, combined)
                } else {
                    left
                }
            },
            None => left,
        }
    }

    fn unary(&mut self) -> (r: Option<i64>)
        requires
            old(self).pos <= old(self).toks@.len(),
        ensures
            final(self).toks == old(self).toks,
            old(self).pos <= final(self).pos <= final(self).toks@.len(),
            r == s_unary(old(self).spec_toks(), old(self).pos as int).0,
            final(self).pos == s_unary(old(self).spec_toks(), old(self).pos as int).1,
        decreases old(self).toks@.len() - old(self).pos, 3int,
    {
        if self.eat(Op::Not) {
            return match self.unary() {
                Some(v) => Some(if v == 0 { 1 } else { 0 }),
                None => None,
            };
        }
        if self.eat(Op::Tilde) {
            return match self.unary() {
                Some(v) => Some(!v),
                None => None,
            };
        }
        let ghost t = self.spec_toks();
        let ghost p = self.pos as int;
        if self.eat(Op::Minus) {
            let inner = self.unary();
            return match inner {
                Some(v) => {
                    if v == i64::MIN {
                        Some(v)
                    } else {
                        Some(-v)
                    }
                },
                None => None,
            };
        }
        if self.eat(Op::Plus) {
            return self.unary();
        }
        self.primary()
    }

    fn primary(&mut self) -> (r: Option<i64>)
        requires
            old(self).pos <= old(self).toks@.len(),
        ensures
            final(self).toks == old(self).toks,
            old(self).pos <= final(self).pos <= final(self).toks@.len(),
            r == s_primary(old(self).spec_toks(), old(self).pos as int).0,
            final(self).pos == s_primary(old(self).spec_toks(), old(self).pos as int).1,
        decreases old(self).toks@.len() - old(self).pos, 2int,
    {
        if self.pos >= self.toks.len() {
            return None;
        }
        let ghost t = self.spec_toks();
        assert(t[self.pos as int] == self.toks@[self.pos as int]@);
        match &self.toks[self.pos] {
            Tok::Num(v) => {
                let v = *v;
                self.pos += 1;
                Some(v)
            },
            Tok::Unknown => {
                self.pos += 1;
                None
            },
            Tok::Op(Op::LParen) => {
                self.pos += 1;
                let inner = self.ternary();
                self.eat(Op::RParen);
                inner
            },
            _ => {
                self.pos += 1;
                None
            },
        }
    }
}

fn level_contains(level: usize, op: Op) -> (r: bool)
    ensures
        r == level_has(level as int, op),
{
    match level {
        0 => op == Op::OrOr,
        1 => op == Op::AndAnd,
        2 => op == Op::Pipe,
        3 => op == Op::Caret,
        4 => op == Op::Amp,
        5 => op == Op::EqEq || op == Op::Ne,
        6 => op == Op::Lt || op == Op::Le || op == Op::Gt || op == Op::Ge,
        7 => op == Op::Shl || op == Op::Shr,
        8 => op == Op::Plus || op == Op::Minus,
        9 => op == Op::Star || op == Op::Slash || op == Op::Percent,
        _ => false,
    }
}

/// Evaluates a `#if` expression against the known macros: `Some(value)` when
/// decided, `None` when unknown.
pub fn eval_expr(expr: &str, macros: &MacroTable) -> (r: Option<i64>)
    ensures
        r == eval_spec(expr@, macros@),
{
    let raw = tokenize(expr);
    let toks = resolve_tokens(&raw, macros);
    let mut parser = ExprParser { toks: toks.as_slice(), pos: 0 };
    parser.parse()
}


//
// Learning a define never changes a decided condition
//

/// `t2` knows at least what `t` knows: the same tokens, except that some
/// unknown ones became numbers.
pub open spec fn refines(t: Seq<SpecTok>, t2: Seq<SpecTok>) -> bool {
    t.len() == t2.len() && forall|i: int|
        0 <= i < t.len() ==> #[trigger] t[i] == t2[i] || (t[i] == SpecTok::Unknown && t2[i] is Num)
}

/// A value known in `v` is the same in `v2`.
pub open spec fn agrees(v: Option<i64>, v2: Option<i64>) -> bool {
    v is Some ==> v2 == v
}

proof fn lemma_refines_concat(a: Seq<SpecTok>, a2: Seq<SpecTok>, b: Seq<SpecTok>, b2: Seq<SpecTok>)
    requires
        refines(a, a2),
        refines(b, b2),
    ensures
        refines(a + b, a2 + b2),
{
    assert forall|i: int| 0 <= i < (a + b).len() implies #[trigger] (a + b)[i] == (a2 + b2)[i] || ((a + b)[i]
        == SpecTok::Unknown && (a2 + b2)[i] is Num) by {
        if i < a.len() {
            assert((a + b)[i] == a[i] && (a2 + b2)[i] == a2[i]);
        } else {
            assert((a + b)[i] == b[i - a.len()] && (a2 + b2)[i] == b2[i - a.len()]);
        }
    }
}

proof fn lemma_resolve_refines(t: Seq<SpecTok>, i: int, m: Map<Seq<char>, Seq<char>>, k: Seq<char>, v: Seq<char>)
    requires
        !m.contains_key(k),
        substitute(k, m.insert(k, v)).len() == 1,
        substitute(k, m.insert(k, v))[0] is Num,
    ensures
        refines(resolve_from(t, i, m), resolve_from(t, i, m.insert(k, v))),
    decreases t.len() - i,
{
    let m2 = m.insert(k, v);
    if 0 <= i < t.len() {
        match t[i] {
            SpecTok::Ident(name) => {
                if name == "defined"@ {
                    let paren = is_op_at(t, i + 1, Op::LParen);
                    let j1 = if paren {
                        i + 2
                    } else {
                        i + 1
                    };
                    if 0 <= j1 < t.len() && t[j1] is Ident {
                        let id = t[j1]->Ident_0;
                        let j3 = if paren && is_op_at(t, j1 + 1, Op::RParen) {
                            j1 + 2
                        } else {
                            j1 + 1
                        };
                        let out = if m.contains_key(id) {
                            SpecTok::Num(1)
                        } else {
                            SpecTok::Unknown
                        };
                        let out2 = if m2.contains_key(id) {
                            SpecTok::Num(1)
                        } else {
                            SpecTok::Unknown
                        };
                        assert(refines(seq![out], seq![out2]));
                        lemma_resolve_refines(t, j3, m, k, v);
                        lemma_refines_concat(seq![out], seq![out2], resolve_from(t, j3, m), resolve_from(t, j3, m2));
                    } else {
                        assert(refines(seq![SpecTok::Unknown], seq![SpecTok::Unknown]));
                        lemma_resolve_refines(t, j1, m, k, v);
                        lemma_refines_concat(
                            seq![SpecTok::Unknown],
                            seq![SpecTok::Unknown],
                            resolve_from(t, j1, m),
                            resolve_from(t, j1, m2),
                        );
                    }
                } else {
                    let a = substitute(name, m);
                    let a2 = substitute(name, m2);
                    if name == k {
                        assert(a == seq![SpecTok::Unknown]);
                        assert(refines(a, a2));
                    } else {
                        assert(m2.contains_key(name) == m.contains_key(name));
                        assert(m.contains_key(name) ==> m2[name] == m[name]);
                        assert(a == a2);
                        assert(refines(a, a2));
                    }
                    lemma_resolve_refines(t, i + 1, m, k, v);
                    lemma_refines_concat(a, a2, resolve_from(t, i + 1, m), resolve_from(t, i + 1, m2));
                }
            },
            _ => {
                assert(refines(seq![t[i]], seq![t[i]]));
                lemma_resolve_refines(t, i + 1, m, k, v);
                lemma_refines_concat(seq![t[i]], seq![t[i]], resolve_from(t, i + 1, m), resolve_from(t, i + 1, m2));
            },
        }
    }
}

proof fn lemma_peek_refines(t: Seq<SpecTok>, t2: Seq<SpecTok>, p: int)
    requires
        refines(t, t2),
    ensures
        peek_at(t2, p) == peek_at(t, p),
{
    if 0 <= p < t.len() {
        assert(t[p] == t2[p] || (t[p] == SpecTok::Unknown && t2[p] is Num));
    }
}

proof fn lemma_apply_agrees(op: Op, a: Option<i64>, a2: Option<i64>, b: Option<i64>, b2: Option<i64>)
    requires
        agrees(a, a2),
        agrees(b, b2),
    ensures
        agrees(apply_binary_spec(op, a, b), apply_binary_spec(op, a2, b2)),
{
}

proof fn lemma_ternary_refines(t: Seq<SpecTok>, t2: Seq<SpecTok>, p: int)
    requires
        refines(t, t2),
    ensures
        s_ternary(t2, p).1 == s_ternary(t, p).1,
        agrees(s_ternary(t, p).0, s_ternary(t2, p).0),
    decreases t.len() - p, 40int,
{
    if 0 <= p <= t.len() {
        lemma_binary_refines(t, t2, p, 0);
        let (cond, p1) = s_binary(t, p, 0);
        if p <= p1 <= t.len() {
            lemma_peek_refines(t, t2, p1);
            if peek_at(t, p1) == Some(Op::Question) {
                lemma_ternary_refines(t, t2, p1 + 1);
                let (th, p2) = s_ternary(t, p1 + 1);
                if p1 + 1 <= p2 <= t.len() {
                    lemma_peek_refines(t, t2, p2);
                    let p3 = if peek_at(t, p2) == Some(Op::Colon) {
                        p2 + 1
                    } else {
                        p2
                    };
                    lemma_ternary_refines(t, t2, p3);
                }
            }
        }
    }
}

proof fn lemma_binary_refines(t: Seq<SpecTok>, t2: Seq<SpecTok>, p: int, level: int)
    requires
        refines(t, t2),
    ensures
        s_binary(t2, p, level).1 == s_binary(t, p, level).1,
        agrees(s_binary(t, p, level).0, s_binary(t2, p, level).0),
    decreases t.len() - p, 2 * (12 - level) + 2,
{
    if 0 <= p <= t.len() && 0 <= level <= 10 {
        if level == 10 {
            lemma_unary_refines(t, t2, p);
        } else {
            lemma_binary_refines(t, t2, p, level + 1);
            let (l, p1) = s_binary(t, p, level + 1);
            let (l2, _) = s_binary(t2, p, level + 1);
            if p <= p1 <= t.len() {
                lemma_binary_rest_refines(t, t2, level, l, l2, p1);
            }
        }
    }
}

proof fn lemma_binary_rest_refines(t: Seq<SpecTok>, t2: Seq<SpecTok>, level: int, left: Option<i64>, left2: Option<i64>, p: int)
    requires
        refines(t, t2),
        agrees(left, left2),
    ensures
        s_binary_rest(t2, level, left2, p).1 == s_binary_rest(t, level, left, p).1,
        agrees(s_binary_rest(t, level, left, p).0, s_binary_rest(t2, level, left2, p).0),
    decreases t.len() - p, 2 * (12 - level) + 1,
{
    if 0 <= p <= t.len() && 0 <= level <= 9 {
        lemma_peek_refines(t, t2, p);
        match peek_at(t, p) {
            Some(op) => if level_has(level, op) {
                lemma_binary_refines(t, t2, p + 1, level + 1);
                let (r, p1) = s_binary(t, p + 1, level + 1);
                let (r2, _) = s_binary(t2, p + 1, level + 1);
                if p + 1 <= p1 <= t.len() {
                    lemma_apply_agrees(op, left, left2, r, r2);
                    lemma_binary_rest_refines(
                        t,
                        t2,
                        level,
                        apply_binary_spec(op, left, r),
                        apply_binary_spec(op, left2, r2),
                        p1,
                    );
                }
            },
            None => {},
        }
    }
}

proof fn lemma_unary_refines(t: Seq<SpecTok>, t2: Seq<SpecTok>, p: int)
    requires
        refines(t, t2),
    ensures
        s_unary(t2, p).1 == s_unary(t, p).1,
        agrees(s_unary(t, p).0, s_unary(t2, p).0),
    decreases t.len() - p, 3int,
{
    if 0 <= p <= t.len() {
        lemma_peek_refines(t, t2, p);
        if peek_at(t, p) == Some(Op::Not) || peek_at(t, p) == Some(Op::Tilde) || peek_at(t, p) == Some(Op::Minus)
            || peek_at(t, p) == Some(Op::Plus) {
            lemma_unary_refines(t, t2, p + 1);
        } else {
            lemma_primary_refines(t, t2, p);
        }
    }
}

proof fn lemma_primary_refines(t: Seq<SpecTok>, t2: Seq<SpecTok>, p: int)
    requires
        refines(t, t2),
    ensures
        s_primary(t2, p).1 == s_primary(t, p).1,
        agrees(s_primary(t, p).0, s_primary(t2, p).0),
    decreases t.len() - p, 2int,
{
    if 0 <= p < t.len() {
        assert(t[p] == t2[p] || (t[p] == SpecTok::Unknown && t2[p] is Num));
        if t[p] == SpecTok::Op(Op::LParen) {
            lemma_ternary_refines(t, t2, p + 1);
            let p1 = s_ternary(t, p + 1).1;
            lemma_peek_refines(t, t2, p1);
        }
    }
}

/// Law: learning one more define, whose value reads as a single number,
/// never changes a `#if` expression that was already decided: unknown
/// macros only leave a condition open, they never decide it wrongly.
pub proof fn lemma_more_defines_keep_decisions(expr: Seq<char>, m: Map<Seq<char>, Seq<char>>, k: Seq<char>, v: Seq<char>)
    requires
        !m.contains_key(k),
        substitute(k, m.insert(k, v)).len() == 1,
        substitute(k, m.insert(k, v))[0] is Num,
    ensures
        eval_spec(expr, m) is Some ==> eval_spec(expr, m.insert(k, v)) == eval_spec(expr, m),
{
    lemma_resolve_refines(tokenize_spec(expr), 0, m, k, v);
    lemma_ternary_refines(resolved(expr, m), resolved(expr, m.insert(k, v)), 0);
}

} // verus!
