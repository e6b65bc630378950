//! The clang compilation database: `cl` response-file flags read as
//! arguments and translated for `clang-cl`, and the JSON texts of the
//! database and of the case-insensitive file overlay.
use vstd::prelude::*;
use crate::flags::ClGroup;
use crate::ninja::NinjaFile;
use crate::paths::{to_host_spec, to_host_str};
use crate::text::{
    chars_of, ends_with, ends_with_str, is_ws, is_whitespace, push_char, push_str, replace, replace_str,
    seq_of_strings, starts_with, starts_with_str, string_of_range,
};

verus! {

/// `\` and `"` escaped for a JSON string.
pub open spec fn json_escape_spec(s: Seq<char>) -> Seq<char> {
    replace(replace(s, seq!['\\'], seq!['\\', '\\']), seq!['"'], seq!['\\', '"'])
}

pub fn json_escape(s: &str) -> (r: String)
    ensures
        r@ == json_escape_spec(s@),
{
    proof {
        reveal_strlit("\\");
        reveal_strlit("\\\\");
        reveal_strlit("\"");
        reveal_strlit("\\\"");
        assert("\\"@ =~= seq!['\\']);
        assert("\\\\"@ =~= seq!['\\', '\\']);
        assert("\""@ =~= seq!['"']);
        assert("\\\""@ =~= seq!['\\', '"']);
    }
    let a = replace_str(s, "\\", "\\\\");
    replace_str(a.as_str(), "\"", "\\\"")
}

/// Space, tab, carriage return, line feed.
pub open spec fn is_multispace(c: char) -> bool {
    c == ' ' || c == '\t' || c == '\r' || c == '\n'
}

/// The end of the run of spaces at `p`.
pub open spec fn space_end(s: Seq<char>, p: int) -> int
    decreases s.len() - p,
{
    if 0 <= p < s.len() && is_multispace(s[p]) {
        space_end(s, p + 1)
    } else {
        p
    }
}

/// The end of the run of characters at `p` that are neither white space
/// nor `"`.
pub open spec fn bare_end(s: Seq<char>, p: int) -> int
    decreases s.len() - p,
{
    if 0 <= p < s.len() && !is_ws(s[p]) && s[p] != '"' {
        bare_end(s, p + 1)
    } else {
        p
    }
}

/// The first `"` at or after `p`.
pub open spec fn quote_at(s: Seq<char>, p: int) -> Option<int>
    decreases s.len() - p,
{
    if p < 0 || p >= s.len() {
        None
    } else if s[p] == '"' {
        Some(p)
    } else {
        quote_at(s, p + 1)
    }
}

/// One piece of a token: `"..."` (the text between the quotes) or a bare run.
pub open spec fn segment(s: Seq<char>, p: int) -> Option<(int, Seq<char>)> {
    if 0 <= p < s.len() && s[p] == '"' {
        match quote_at(s, p + 1) {
            Some(e) => Some((e + 1, s.subrange(p + 1, e))),
            None => None,
        }
    } else {
        let e = bare_end(s, p);
        if e > p {
            Some((e, s.subrange(p, e)))
        } else {
            None
        }
    }
}

/// More pieces after the first, glued to `acc`.
pub open spec fn token_rest(s: Seq<char>, p: int, acc: Seq<char>) -> (int, Seq<char>)
    decreases s.len() - p,
{
    match segment(s, p) {
        Some((q, t)) => if p < q <= s.len() {
            token_rest(s, q, acc + t)
        } else {
            (p, acc)
        },
        None => (p, acc),
    }
}

/// A token: one or more pieces glued together, as `cl` reads a response
/// file (`/Fp"a b.pch"` is the one token `/Fpa b.pch`).
pub open spec fn token(s: Seq<char>, p: int) -> Option<(int, Seq<char>)> {
    match segment(s, p) {
        Some((q, t)) => Some(token_rest(s, q, t)),
        None => None,
    }
}

/// The value of `/I` or `/D`: attached, or after spaces.
pub open spec fn arg_value(s: Seq<char>, p: int) -> Option<(int, Seq<char>)> {
    match token(s, p) {
        Some(x) => Some(x),
        None => if 0 <= p < s.len() && is_multispace(s[p]) {
            token(s, space_end(s, p))
        } else {
            None
        },
    }
}

/// One classified argument.
pub enum ClArg {
    /// `/I<dir>`, `/I "<dir>"`, `/I"<dir>"`
    Include(String),
    /// `/D<def>`, `/D "<def>"`
    Define(String),
    /// anything else, quotes taken off
    Other(String),
}

pub enum ClArgView {
    Include(Seq<char>),
    Define(Seq<char>),
    Other(Seq<char>),
}

impl View for ClArg {
    type V = ClArgView;

    open spec fn view(&self) -> ClArgView {
        match self {
            ClArg::Include(s) => ClArgView::Include(s@),
            ClArg::Define(s) => ClArgView::Define(s@),
            ClArg::Other(s) => ClArgView::Other(s@),
        }
    }
}

/// An argument at `p`: `/I` or `/D` with a value, else a token.
pub open spec fn cl_arg(s: Seq<char>, p: int) -> Option<(int, ClArgView)> {
    let inc = if starts_with(s.skip(p), "/I"@) {
        arg_value(s, p + 2)
    } else {
        None
    };
    let def = if starts_with(s.skip(p), "/D"@) {
        arg_value(s, p + 2)
    } else {
        None
    };
    match inc {
        Some((q, v)) => Some((q, ClArgView::Include(v))),
        None => match def {
            Some((q, v)) => Some((q, ClArgView::Define(v))),
            None => match token(s, p) {
                Some((q, v)) => Some((q, ClArgView::Other(v))),
                None => None,
            },
        },
    }
}

/// The arguments from `p` on, spaces between them; reading stops at the
/// first place where no argument stands.
pub open spec fn cl_args(s: Seq<char>, p: int) -> Seq<ClArgView>
    decreases s.len() - p,
{
    match cl_arg(s, space_end(s, p)) {
        Some((q, a)) => if p < q <= s.len() {
            seq![a] + cl_args(s, q)
        } else {
            Seq::empty()
        },
        None => Seq::empty(),
    }
}

proof fn lemma_space_end(s: Seq<char>, p: int)
    requires
        0 <= p <= s.len(),
    ensures
        p <= space_end(s, p) <= s.len(),
    decreases s.len() - p,
{
    if p < s.len() && is_multispace(s[p]) {
        lemma_space_end(s, p + 1);
    }
}

proof fn lemma_bare_end(s: Seq<char>, p: int)
    requires
        0 <= p <= s.len(),
    ensures
        p <= bare_end(s, p) <= s.len(),
    decreases s.len() - p,
{
    if p < s.len() && !is_ws(s[p]) && s[p] != '"' {
        lemma_bare_end(s, p + 1);
    }
}

fn space_end_at(v: &Vec<char>, p: usize) -> (r: usize)
    requires
        p <= v.len(),
    ensures
        r == space_end(v@, p as int),
        p <= r <= v.len(),
{
    let mut q = p;
    while q < v.len() && (v[q] == ' ' || v[q] == '\t' || v[q] == '\r' || v[q] == '\n')
        invariant
            p <= q <= v.len(),
            space_end(v@, p as int) == space_end(v@, q as int),
        decreases v.len() - q,
    {
        q += 1;
    }
    q
}

fn segment_at(v: &Vec<char>, p: usize) -> (r: Option<(usize, String)>)
    requires
        p <= v.len(),
    ensures
        match r {
            Some((q, t)) => segment(v@, p as int) == Some((q as int, t@)) && p < q <= v.len(),
            None => segment(v@, p as int) is None,
        },
{
    if p < v.len() && v[p] == '"' {
        let mut e = p + 1;
        while e < v.len() && v[e] != '"'
            invariant
                p < e <= v.len(),
                quote_at(v@, p + 1) == quote_at(v@, e as int),
            decreases v.len() - e,
        {
            e += 1;
        }
        if e < v.len() {
            Some((e + 1, string_of_range(v, p + 1, e)))
        } else {
            None
        }
    } else {
        let mut e = p;
        while e < v.len() && !is_whitespace(v[e]) && v[e] != '"'
            invariant
                p <= e <= v.len(),
                bare_end(v@, p as int) == bare_end(v@, e as int),
            decreases v.len() - e,
        {
            e += 1;
        }
        if e > p {
            Some((e, string_of_range(v, p, e)))
        } else {
            None
        }
    }
}

fn token_at(v: &Vec<char>, p: usize) -> (r: Option<(usize, String)>)
    requires
        p <= v.len(),
    ensures
        match r {
            Some((q, t)) => token(v@, p as int) == Some((q as int, t@)) && p < q <= v.len(),
            None => token(v@, p as int) is None,
        },
{
    let (mut q, mut acc) = match segment_at(v, p) {
        Some(x) => x,
        None => {
            return None;
        },
    };
    let ghost first = (q as int, acc@);
    while q < v.len()
        invariant
            p < q <= v.len(),
            segment(v@, p as int) == Some(first),
            token_rest(v@, first.0, first.1) == token_rest(v@, q as int, acc@),
        decreases v.len() - q,
    {
        match segment_at(v, q) {
            Some((q2, t)) => {
                push_str(&mut acc, t.as_str());
                q = q2;
            },
            None => {
                return Some((q, acc));
            },
        }
    }
    Some((q, acc))
}

fn arg_value_at(v: &Vec<char>, p: usize) -> (r: Option<(usize, String)>)
    requires
        p <= v.len(),
    ensures
        match r {
            Some((q, t)) => arg_value(v@, p as int) == Some((q as int, t@)) && p < q <= v.len(),
            None => arg_value(v@, p as int) is None,
        },
{
    match token_at(v, p) {
        Some(x) => Some(x),
        None => {
            if p < v.len() && (v[p] == ' ' || v[p] == '\t' || v[p] == '\r' || v[p] == '\n') {
                let q = space_end_at(v, p);
                token_at(v, q)
            } else {
                None
            }
        },
    }
}

fn starts_at(v: &Vec<char>, p: usize, a: char, b: char) -> (r: bool)
    requires
        p <= v.len(),
    ensures
        r == starts_with(v@.skip(p as int), seq![a, b]),
{
    if v.len() >= 2 && p <= v.len() - 2 {
        assert(v@.skip(p as int).take(2) =~= seq![v@[p as int], v@[p + 1]]);
        v[p] == a && v[p + 1] == b
    } else {
        false
    }
}

fn cl_arg_at(v: &Vec<char>, p: usize) -> (r: Option<(usize, ClArg)>)
    requires
        p <= v.len(),
    ensures
        match r {
            Some((q, a)) => cl_arg(v@, p as int) == Some((q as int, a@)) && p < q <= v.len(),
            None => cl_arg(v@, p as int) is None,
        },
{
    proof {
        reveal_strlit("/I");
        reveal_strlit("/D");
        assert("/I"@ =~= seq!['/', 'I']);
        assert("/D"@ =~= seq!['/', 'D']);
    }
    if starts_at(v, p, '/', 'I') {
        if let Some((q, x)) = arg_value_at(v, p + 2) {
            return Some((q, ClArg::Include(x)));
        }
    }
    if starts_at(v, p, '/', 'D') {
        if let Some((q, x)) = arg_value_at(v, p + 2) {
            return Some((q, ClArg::Define(x)));
        }
    }
    match token_at(v, p) {
        Some((q, x)) => Some((q, ClArg::Other(x))),
        None => None,
    }
}

/// The arguments of a `cl` response-file flag string (see [`cl_args`]).
pub fn parse_cl_args(flags: &str) -> (r: Vec<ClArg>)
    ensures
        r@.map_values(|a: ClArg| a@) == cl_args(flags@, 0),
{
    let v = chars_of(flags);
    let mut out: Vec<ClArg> = Vec::new();
    let mut p: usize = 0;
    loop
        invariant
            p <= v.len(),
            v@ == flags@,
            cl_args(flags@, 0) == out@.map_values(|a: ClArg| a@) + cl_args(flags@, p as int),
        decreases v.len() - p,
    {
        let q = space_end_at(&v, p);
        match cl_arg_at(&v, q) {
            Some((r, a)) => {
                let ghost before = out@.map_values(|a: ClArg| a@);
                let ghost av = a@;
                out.push(a);
                assert(out@.map_values(|a: ClArg| a@) =~= before.push(av));
                assert(cl_args(flags@, p as int) == seq![av] + cl_args(flags@, r as int));
                assert(before + (seq![av] + cl_args(flags@, r as int)) =~= before.push(av) + cl_args(
                    flags@,
                    r as int,
                ));
                p = r;
            },
            None => {
                assert(out@.map_values(|a: ClArg| a@) + Seq::<ClArgView>::empty() =~= out@.map_values(
                    |a: ClArg| a@,
                ));
                return out;
            },
        }
    }
}

/// Flags that only matter to code generation, debug information,
/// precompiled headers or the driver: matched as prefixes, so their
/// attached values go with them.
pub open spec fn drop_prefixes() -> Seq<Seq<char>> {
    seq![
        "/Yc"@, "/Yu"@, "/Fp"@, "/Fo"@, "/Fd"@, "/FD"@, "/GL"@, "/GT"@, "/Gy"@, "/Zi"@, "/ZI"@, "/Zc:"@,
        "/errorReport"@, "/nologo"@, "/showIncludes"@, "/c"@,
    ]
}

pub open spec fn dropped(t: Seq<char>) -> bool {
    exists|k: int| 0 <= k < drop_prefixes().len() && starts_with(t, #[trigger] drop_prefixes()[k])
}

/// A source file: the sources of an entry are given apart.
pub open spec fn is_source(t: Seq<char>) -> bool {
    ends_with(t, ".cpp"@) || ends_with(t, ".c"@) || ends_with(t, ".cc"@)
}

/// The `clang-cl` arguments for `cl` arguments: include directories in host
/// form, definitions as they are, other flags unless dropped or a source.
pub open spec fn translate_spec(args: Seq<ClArgView>, wine: bool) -> Seq<Seq<char>>
    decreases args.len(),
{
    if args.len() == 0 {
        Seq::empty()
    } else {
        translate_spec(args.drop_last(), wine) + match args.last() {
            ClArgView::Include(d) => seq!["/I"@ + to_host_spec(d, wine)],
            ClArgView::Define(d) => seq!["/D"@ + d],
            ClArgView::Other(t) => if dropped(t) || is_source(t) {
                Seq::empty()
            } else {
                seq![t]
            },
        }
    }
}

fn is_dropped(t: &str) -> (r: bool)
    ensures
        r == dropped(t@),
{
    let ps = vec![
        "/Yc", "/Yu", "/Fp", "/Fo", "/Fd", "/FD", "/GL", "/GT", "/Gy", "/Zi", "/ZI", "/Zc:", "/errorReport",
        "/nologo", "/showIncludes", "/c",
    ];
    assert(crate::text::strs_view(ps@) =~= drop_prefixes());
    let mut k: usize = 0;
    while k < ps.len()
        invariant
            k <= ps.len(),
            crate::text::strs_view(ps@) == drop_prefixes(),
            forall|j: int| 0 <= j < k ==> !starts_with(t@, #[trigger] drop_prefixes()[j]),
        decreases ps.len() - k,
    {
        if starts_with_str(t, ps[k]) {
            assert(drop_prefixes()[k as int] == ps@[k as int]@);
            return true;
        }
        assert(drop_prefixes()[k as int] == ps@[k as int]@);
        k += 1;
    }
    false
}

/// Translates one `cl` flag string into `clang-cl` arguments (sources
/// left out; see [`translate_spec`]).
pub fn translate_flags(rsp_flags: &str, wine: bool) -> (r: Vec<String>)
    ensures
        seq_of_strings(r@) == translate_spec(cl_args(rsp_flags@, 0), wine),
{
    let parsed = parse_cl_args(rsp_flags);
    let ghost pv = parsed@.map_values(|a: ClArg| a@);
    let mut args: Vec<String> = Vec::new();
    let mut i: usize = 0;
    while i < parsed.len()
        invariant
            i <= parsed.len(),
            pv == parsed@.map_values(|a: ClArg| a@),
            seq_of_strings(args@) == translate_spec(pv.take(i as int), wine),
        decreases parsed.len() - i,
    {
        let ghost before = seq_of_strings(args@);
        assert(pv.take(i + 1).drop_last() =~= pv.take(i as int));
        assert(pv.take(i + 1).last() == parsed@[i as int]@);
        match &parsed[i] {
            ClArg::Include(dir) => {
                let mut a = String::new();
                push_str(&mut a, "/I");
                let h = to_host_str(dir.as_str(), wine);
                push_str(&mut a, h.as_str());
                args.push(a);
                assert(seq_of_strings(args@) =~= before + seq!["/I"@ + to_host_spec(dir@, wine)]);
            },
            ClArg::Define(def) => {
                let mut a = String::new();
                push_str(&mut a, "/D");
                push_str(&mut a, def.as_str());
                args.push(a);
                assert(seq_of_strings(args@) =~= before + seq!["/D"@ + def@]);
            },
            ClArg::Other(t) => {
                if is_dropped(t.as_str()) || ends_with_str(t.as_str(), ".cpp") || ends_with_str(t.as_str(), ".c")
                    || ends_with_str(t.as_str(), ".cc") {
                    assert(seq_of_strings(args@) =~= before + Seq::<Seq<char>>::empty());
                } else {
                    args.push(t.clone());
                    assert(seq_of_strings(args@) =~= before + seq![t@]);
                }
            },
        }
        i += 1;
    }
    assert(pv.take(parsed.len() as int) =~= pv);
    args
}

/// The directories of an `INCLUDE` value: its `;`-separated pieces that are
/// not blank, in host form.
pub open spec fn include_dirs_spec(pieces: Seq<Seq<char>>, wine: bool) -> Seq<Seq<char>>
    decreases pieces.len(),
{
    if pieces.len() == 0 {
        Seq::empty()
    } else {
        include_dirs_spec(pieces.drop_last(), wine) + if crate::text::trim(pieces.last()).len() == 0 {
            Seq::<Seq<char>>::empty()
        } else {
            seq![to_host_spec(pieces.last(), wine)]
        }
    }
}

/// The system include directories from the value of `INCLUDE`.
pub fn include_dirs_of(value: &str, wine: bool) -> (r: Vec<String>)
    ensures
        seq_of_strings(r@) == include_dirs_spec(crate::text::split(value@, seq![';']), wine),
{
    let seps = vec![';'];
    let pieces = crate::text::split_str(value, &seps);
    let ghost pv = seq_of_strings(pieces@);
    let mut out: Vec<String> = Vec::new();
    let mut i: usize = 0;
    while i < pieces.len()
        invariant
            i <= pieces.len(),
            pv == seq_of_strings(pieces@),
            seq_of_strings(out@) == include_dirs_spec(pv.take(i as int), wine),
        decreases pieces.len() - i,
    {
        let ghost before = seq_of_strings(out@);
        assert(pv.take(i + 1).drop_last() =~= pv.take(i as int));
        assert(pv.take(i + 1).last() == pieces@[i as int]@);
        let t = crate::text::trim_str(pieces[i].as_str());
        if t.unicode_len() == 0 {
            assert(seq_of_strings(out@) =~= before + Seq::<Seq<char>>::empty());
        } else {
            let h = to_host_str(pieces[i].as_str(), wine);
            out.push(h);
            assert(seq_of_strings(out@) =~= before + seq![to_host_spec(pieces@[i as int]@, wine)]);
        }
        i += 1;
    }
    assert(pv.take(pieces.len() as int) =~= pv);
    assert(seps@ =~= seq![';']);
    out
}

//
// The compilation database
//

/// The fixed tail of every entry: the MSVC 8.0 view (`_MSC_VER` 1400, a
/// 32-bit target, C++98) and a quieter warning set.
pub open spec fn compat_tail() -> Seq<Seq<char>> {
    seq![
        "-fms-compatibility-version=14.00"@,
        "/clang:--target=i686-pc-windows-msvc"@,
        "/clang:-std=c++98"@,
        "-Wno-non-pod-varargs"@,
    ]
}

/// What the environment gives every entry: each system include directory
/// as `-imsvc`, the native include path of stlport pinned to the first of
/// them, and the file overlay where there is one.
pub open spec fn derived_spec(include_dirs: Seq<Seq<char>>, overlay: Option<Seq<char>>) -> Seq<Seq<char>> {
    include_dirs.map_values(|d: Seq<char>| "-imsvc"@ + d) + (if include_dirs.len() > 0 {
        seq!["/D_STLP_NATIVE_INCLUDE_PATH="@ + include_dirs[0]]
    } else {
        Seq::<Seq<char>>::empty()
    }) + match overlay {
        Some(p) => seq!["/clang:-ivfsoverlay"@ + p],
        None => Seq::<Seq<char>>::empty(),
    }
}

fn prefixed(a: &str, b: &str) -> (r: String)
    ensures
        r@ == a@ + b@,
{
    let mut s = String::new();
    push_str(&mut s, a);
    push_str(&mut s, b);
    s
}

/// The arguments that every entry gets after its own: the fixed tail, those
/// of the environment (see [`derived_spec`]) and the caller's.
pub fn entry_tail(include_dirs: &Vec<String>, overlay: Option<&str>, extra_args: &Vec<String>) -> (r: Vec<String>)
    ensures
        seq_of_strings(r@) == compat_tail() + derived_spec(seq_of_strings(include_dirs@), match overlay {
            Some(p) => Some(p@),
            None => None,
        }) + seq_of_strings(extra_args@),
{
    let ghost dirs = seq_of_strings(include_dirs@);
    let mut out: Vec<String> = Vec::new();
    out.push("-fms-compatibility-version=14.00".to_owned());
    out.push("/clang:--target=i686-pc-windows-msvc".to_owned());
    out.push("/clang:-std=c++98".to_owned());
    out.push("-Wno-non-pod-varargs".to_owned());
    assert(seq_of_strings(out@) =~= compat_tail());
    let mut i: usize = 0;
    while i < include_dirs.len()
        invariant
            i <= include_dirs.len(),
            dirs == seq_of_strings(include_dirs@),
            seq_of_strings(out@) == compat_tail() + dirs.take(i as int).map_values(|d: Seq<char>| "-imsvc"@ + d),
        decreases include_dirs.len() - i,
    {
        let ghost before = seq_of_strings(out@);
        out.push(prefixed("-imsvc", include_dirs[i].as_str()));
        assert(seq_of_strings(out@) =~= before.push("-imsvc"@ + dirs[i as int]));
        assert(dirs.take(i + 1).map_values(|d: Seq<char>| "-imsvc"@ + d) =~= dirs.take(i as int).map_values(
            |d: Seq<char>| "-imsvc"@ + d,
        ).push("-imsvc"@ + dirs[i as int]));
        i += 1;
    }
    assert(dirs.take(include_dirs.len() as int) =~= dirs);
    let ghost mid = seq_of_strings(out@);
    if include_dirs.len() > 0 {
        out.push(prefixed("/D_STLP_NATIVE_INCLUDE_PATH=", include_dirs[0].as_str()));
        assert(seq_of_strings(out@) =~= mid + seq!["/D_STLP_NATIVE_INCLUDE_PATH="@ + dirs[0]]);
    } else {
        assert(seq_of_strings(out@) =~= mid + Seq::<Seq<char>>::empty());
    }
    let ghost mid2 = seq_of_strings(out@);
    match overlay {
        Some(p) => {
            out.push(prefixed("/clang:-ivfsoverlay", p));
            assert(seq_of_strings(out@) =~= mid2 + seq!["/clang:-ivfsoverlay"@ + p@]);
        },
        None => {
            assert(seq_of_strings(out@) =~= mid2 + Seq::<Seq<char>>::empty());
        },
    }
    let ghost mid3 = seq_of_strings(out@);
    let mut k: usize = 0;
    while k < extra_args.len()
        invariant
            k <= extra_args.len(),
            seq_of_strings(out@) == mid3 + seq_of_strings(extra_args@).take(k as int),
        decreases extra_args.len() - k,
    {
        let ghost before = seq_of_strings(out@);
        out.push(extra_args[k].clone());
        assert(seq_of_strings(out@) =~= before.push(extra_args@[k as int]@));
        assert(seq_of_strings(extra_args@).take(k + 1) =~= seq_of_strings(extra_args@).take(k as int).push(
            extra_args@[k as int]@,
        ));
        assert(seq_of_strings(out@) =~= mid3 + seq_of_strings(extra_args@).take(k + 1));
        k += 1;
    }
    assert(seq_of_strings(extra_args@).take(extra_args.len() as int) =~= seq_of_strings(extra_args@));
    out
}

/// `str::trim_start_matches("./")`.
pub open spec fn strip_dot_slash(s: Seq<char>) -> Seq<char>
    decreases s.len(),
{
    if s.len() >= 2 && s[0] == '.' && s[1] == '/' {
        strip_dot_slash(s.skip(2))
    } else {
        s
    }
}

/// The file of an entry: a source path in host form, without leading `./`,
/// under the project directory unless absolute.
pub open spec fn entry_file(dir: Seq<char>, src: Seq<char>) -> Seq<char> {
    let t = strip_dot_slash(src);
    if t.len() > 0 && t[0] == '/' {
        t
    } else {
        dir + seq!['/'] + t
    }
}

fn entry_file_exec(dir: &str, src: &str) -> (r: String)
    ensures
        r@ == entry_file(dir@, src@),
{
    let v = chars_of(src);
    let mut p: usize = 0;
    assert(v@.skip(0) =~= v@);
    while v.len() >= 2 && p <= v.len() - 2 && v[p] == '.' && v[p + 1] == '/'
        invariant
            p <= v.len(),
            v@ == src@,
            strip_dot_slash(src@) == strip_dot_slash(v@.skip(p as int)),
        decreases v.len() - p,
    {
        assert(v@.skip(p as int).skip(2) =~= v@.skip(p + 2));
        p += 2;
    }
    let t = string_of_range(&v, p, v.len());
    assert(t@ =~= v@.skip(p as int));
    if p < v.len() && v[p] == '/' {
        t
    } else {
        let mut out = String::new();
        push_str(&mut out, dir);
        push_char(&mut out, '/');
        push_str(&mut out, t.as_str());
        out
    }
}

/// One translation unit of the database.
pub struct Entry {
    pub directory: String,
    pub file: String,
    pub flags: Vec<String>,
}

pub struct EntryView {
    pub directory: Seq<char>,
    pub file: Seq<char>,
    pub flags: Seq<Seq<char>>,
}

impl View for Entry {
    type V = EntryView;

    open spec fn view(&self) -> EntryView {
        EntryView { directory: self.directory@, file: self.file@, flags: seq_of_strings(self.flags@) }
    }
}

/// The entries of a compile step: one per source, all with the step's
/// translated flags.
pub open spec fn group_entries(dir: Seq<char>, g: ClGroup, wine: bool) -> Seq<EntryView> {
    seq_of_strings(g.flags.files@).map_values(
        |src: Seq<char>|
            EntryView {
                directory: dir,
                file: entry_file(dir, to_host_spec(src, wine)),
                flags: translate_spec(cl_args(g.flags.rsp_flags@, 0), wine),
            },
    )
}

pub open spec fn groups_entries(dir: Seq<char>, gs: Seq<ClGroup>, wine: bool) -> Seq<EntryView>
    decreases gs.len(),
{
    if gs.len() == 0 {
        Seq::empty()
    } else {
        groups_entries(dir, gs.drop_last(), wine) + group_entries(dir, gs.last(), wine)
    }
}

/// The entries of every compile step of every project, in order; a
/// project's directory in host form.
pub open spec fn all_entries(nfs: Seq<(u128, String, NinjaFile)>, wine: bool) -> Seq<EntryView>
    decreases nfs.len(),
{
    if nfs.len() == 0 {
        Seq::empty()
    } else {
        all_entries(nfs.drop_last(), wine) + groups_entries(
            to_host_spec(nfs.last().2.proj_dir@, wine),
            nfs.last().2.cl@,
            wine,
        )
    }
}

/// `, "a"` for each argument.
pub open spec fn quoted_args(args: Seq<Seq<char>>) -> Seq<char>
    decreases args.len(),
{
    if args.len() == 0 {
        Seq::empty()
    } else {
        quoted_args(args.drop_last()) + ", \""@ + json_escape_spec(args.last()) + "\""@
    }
}

/// One entry of the database as JSON; its arguments are its flags, `tail`,
/// then `/c` and the file.
pub open spec fn entry_text(e: EntryView, tail: Seq<Seq<char>>) -> Seq<char> {
    " {\"directory\": \""@ + json_escape_spec(e.directory) + "\","@ + " \"file\": \""@ + json_escape_spec(e.file)
        + "\","@ + " \"arguments\": [\"clang-cl\""@ + quoted_args(e.flags + tail + seq!["/c"@, e.file]) + "]}"@
}

pub open spec fn entries_text(es: Seq<EntryView>, tail: Seq<Seq<char>>) -> Seq<char>
    decreases es.len(),
{
    if es.len() == 0 {
        Seq::empty()
    } else {
        entries_text(es.drop_last(), tail) + (if es.len() > 1 {
            ",\n"@
        } else {
            Seq::<char>::empty()
        }) + entry_text(es.last(), tail)
    }
}

/// The database: a JSON list of the entries.
pub open spec fn commands_text(es: Seq<EntryView>, tail: Seq<Seq<char>>) -> Seq<char> {
    "[\n"@ + entries_text(es, tail) + "\n]\n"@
}

fn push_entries(out: &mut Vec<Entry>, dir: &str, g: &ClGroup, wine: bool)
    ensures
        final(out)@.map_values(|e: Entry| e@) == old(out)@.map_values(|e: Entry| e@) + group_entries(dir@, *g, wine),
{
    let flags = translate_flags(g.flags.rsp_flags.as_str(), wine);
    let ghost start = old(out)@.map_values(|e: Entry| e@);
    let ghost files = seq_of_strings(g.flags.files@);
    let mut i: usize = 0;
    while i < g.flags.files.len()
        invariant
            i <= g.flags.files.len(),
            files == seq_of_strings(g.flags.files@),
            start == old(out)@.map_values(|e: Entry| e@),
            seq_of_strings(flags@) == translate_spec(cl_args(g.flags.rsp_flags@, 0), wine),
            out@.map_values(|e: Entry| e@) == start + group_entries(dir@, *g, wine).take(i as int),
        decreases g.flags.files.len() - i,
    {
        let host = to_host_str(g.flags.files[i].as_str(), wine);
        let file = entry_file_exec(dir, host.as_str());
        let e = Entry { directory: dir.to_owned(), file, flags: crate::text::clone_strings(&flags) };
        let ghost before = out@.map_values(|e: Entry| e@);
        let ghost ev = e@;
        out.push(e);
        assert(out@.map_values(|e: Entry| e@) =~= before.push(ev));
        assert(group_entries(dir@, *g, wine).take(i + 1) =~= group_entries(dir@, *g, wine).take(i as int).push(ev));
        i += 1;
    }
    assert(group_entries(dir@, *g, wine).take(g.flags.files.len() as int) =~= group_entries(dir@, *g, wine));
}

/// The entries of every project (see [`all_entries`]).
pub fn entries_of(ninja_files: &Vec<(u128, String, NinjaFile)>, wine: bool) -> (r: Vec<Entry>)
    ensures
        r@.map_values(|e: Entry| e@) == all_entries(ninja_files@, wine),
{
    let mut out: Vec<Entry> = Vec::new();
    assert(out@.map_values(|e: Entry| e@) =~= all_entries(ninja_files@.take(0), wine));
    let mut i: usize = 0;
    while i < ninja_files.len()
        invariant
            i <= ninja_files.len(),
            out@.map_values(|e: Entry| e@) == all_entries(ninja_files@.take(i as int), wine),
        decreases ninja_files.len() - i,
    {
        let nf = &ninja_files[i].2;
        let dir = to_host_str(nf.proj_dir.as_str(), wine);
        let ghost base = out@.map_values(|e: Entry| e@);
        let mut g: usize = 0;
        while g < nf.cl.len()
            invariant
                g <= nf.cl.len(),
                dir@ == to_host_spec(nf.proj_dir@, wine),
                out@.map_values(|e: Entry| e@) == base + groups_entries(dir@, nf.cl@.take(g as int), wine),
            decreases nf.cl.len() - g,
        {
            push_entries(&mut out, dir.as_str(), &nf.cl[g], wine);
            assert(nf.cl@.take(g + 1).drop_last() =~= nf.cl@.take(g as int));
            assert(base + groups_entries(dir@, nf.cl@.take(g as int), wine) + group_entries(dir@, nf.cl@[g as int], wine)
                =~= base + groups_entries(dir@, nf.cl@.take(g + 1), wine));
            g += 1;
        }
        assert(nf.cl@.take(nf.cl.len() as int) =~= nf.cl@);
        assert(ninja_files@.take(i + 1).drop_last() =~= ninja_files@.take(i as int));
        i += 1;
    }
    assert(ninja_files@.take(ninja_files.len() as int) =~= ninja_files@);
    out
}

fn push_quoted_args(out: &mut String, args: &Vec<String>)
    ensures
        final(out)@ == old(out)@ + quoted_args(seq_of_strings(args@)),
{
    let ghost a = seq_of_strings(args@);
    let ghost start = old(out)@;
    let mut i: usize = 0;
    while i < args.len()
        invariant
            i <= args.len(),
            a == seq_of_strings(args@),
            start == old(out)@,
            out@ == start + quoted_args(a.take(i as int)),
        decreases args.len() - i,
    {
        let ghost before = out@;
        push_str(out, ", \"");
        let esc = json_escape(args[i].as_str());
        push_str(out, esc.as_str());
        push_str(out, "\"");
        assert(a.take(i + 1).drop_last() =~= a.take(i as int));
        assert(out@ =~= start + quoted_args(a.take(i + 1)));
        i += 1;
    }
    assert(a.take(args.len() as int) =~= a);
}

/// One entry as JSON (see [`entry_text`]).
pub fn render_entry(e: &Entry, tail: &Vec<String>) -> (r: String)
    ensures
        r@ == entry_text(e@, seq_of_strings(tail@)),
{
    let mut out = String::new();
    push_str(&mut out, " {\"directory\": \"");
    push_str(&mut out, json_escape(e.directory.as_str()).as_str());
    push_str(&mut out, "\",");
    push_str(&mut out, " \"file\": \"");
    push_str(&mut out, json_escape(e.file.as_str()).as_str());
    push_str(&mut out, "\",");
    push_str(&mut out, " \"arguments\": [\"clang-cl\"");
    let mut args = crate::text::clone_strings(&e.flags);
    let ghost f = seq_of_strings(args@);
    let mut k: usize = 0;
    while k < tail.len()
        invariant
            k <= tail.len(),
            seq_of_strings(args@) == f + seq_of_strings(tail@).take(k as int),
        decreases tail.len() - k,
    {
        let ghost before = seq_of_strings(args@);
        args.push(tail[k].clone());
        assert(seq_of_strings(args@) =~= before.push(tail@[k as int]@));
        assert(seq_of_strings(tail@).take(k + 1) =~= seq_of_strings(tail@).take(k as int).push(tail@[k as int]@));
        assert(seq_of_strings(args@) =~= f + seq_of_strings(tail@).take(k + 1));
        k += 1;
    }
    assert(seq_of_strings(tail@).take(tail.len() as int) =~= seq_of_strings(tail@));
    args.push("/c".to_owned());
    args.push(e.file.clone());
    assert(seq_of_strings(args@) =~= e@.flags + seq_of_strings(tail@) + seq!["/c"@, e.file@]);
    push_quoted_args(&mut out, &args);
    push_str(&mut out, "]}");
    out
}

/// The compilation database of the projects and its number of entries:
/// every entry gets `tail` after its own flags (see [`commands_text`]).
pub fn compile_commands(ninja_files: &Vec<(u128, String, NinjaFile)>, tail: &Vec<String>, wine: bool) -> (r: (String, usize))
    ensures
        r.0@ == commands_text(all_entries(ninja_files@, wine), seq_of_strings(tail@)),
        r.1 == all_entries(ninja_files@, wine).len(),
{
    let es = entries_of(ninja_files, wine);
    let ghost ev = es@.map_values(|e: Entry| e@);
    let mut out = String::new();
    push_str(&mut out, "[\n");
    let ghost head = out@;
    let mut i: usize = 0;
    while i < es.len()
        invariant
            i <= es.len(),
            ev == es@.map_values(|e: Entry| e@),
            head == "[\n"@,
            out@ == head + entries_text(ev.take(i as int), seq_of_strings(tail@)),
        decreases es.len() - i,
    {
        let ghost before = out@;
        if i > 0 {
            push_str(&mut out, ",\n");
        }
        let t = render_entry(&es[i], tail);
        push_str(&mut out, t.as_str());
        assert(ev.take(i + 1).drop_last() =~= ev.take(i as int));
        assert(ev.take(i + 1).last() == es@[i as int]@);
        assert(out@ =~= head + entries_text(ev.take(i + 1), seq_of_strings(tail@)));
        i += 1;
    }
    assert(ev.take(es.len() as int) =~= ev);
    push_str(&mut out, "\n]\n");
    (out, es.len())
}

//
// The file overlay
//

/// `str::to_ascii_lowercase`.
pub open spec fn ascii_lower_spec(s: Seq<char>) -> Seq<char> {
    s.map_values(|c: char| if 'A' <= c && c <= 'Z' {
        ((c as u8) + 32) as char
    } else {
        c
    })
}

fn ascii_lower(s: &str) -> (r: String)
    ensures
        r@ == ascii_lower_spec(s@),
{
    let v = chars_of(s);
    let mut out = String::new();
    let mut i: usize = 0;
    while i < v.len()
        invariant
            i <= v.len(),
            v@ == s@,
            out@ == ascii_lower_spec(s@).take(i as int),
        decreases v.len() - i,
    {
        let c = v[i];
        let d = if 'A' <= c && c <= 'Z' {
            ((c as u8) + 32) as char
        } else {
            c
        };
        push_char(&mut out, d);
        assert(ascii_lower_spec(s@).take(i + 1) =~= ascii_lower_spec(s@).take(i as int).push(d));
        i += 1;
    }
    assert(ascii_lower_spec(s@).take(v.len() as int) =~= ascii_lower_spec(s@));
    out
}

/// File kinds that are never included: left out of the overlay.
pub open spec fn overlay_skipped_exts() -> Seq<Seq<char>> {
    seq![
        "cpp"@, "c"@, "cc"@, "obj"@, "lib"@, "pdb"@, "vcproj"@, "sln"@, "rc"@, "ico"@, "bmp"@, "png"@, "jpg"@,
        "txt"@, "md"@, "py"@, "cmake"@, "bat"@, "exe"@, "dll"@,
    ]
}

/// Whether a file with this extension stays out of the overlay (compared in
/// ASCII lower case).
pub fn overlay_skips(ext: &str) -> (r: bool)
    ensures
        r == overlay_skipped_exts().contains(ascii_lower_spec(ext@)),
{
    let lower = ascii_lower(ext);
    let xs = vec![
        "cpp", "c", "cc", "obj", "lib", "pdb", "vcproj", "sln", "rc", "ico", "bmp", "png", "jpg", "txt", "md", "py",
        "cmake", "bat", "exe", "dll",
    ];
    assert(crate::text::strs_view(xs@) =~= overlay_skipped_exts());
    let mut k: usize = 0;
    while k < xs.len()
        invariant
            k <= xs.len(),
            crate::text::strs_view(xs@) == overlay_skipped_exts(),
            lower@ == ascii_lower_spec(ext@),
            forall|j: int| 0 <= j < k ==> overlay_skipped_exts()[j] != lower@,
        decreases xs.len() - k,
    {
        assert(overlay_skipped_exts()[k as int] == xs@[k as int]@);
        if crate::text::str_eq(xs[k], lower.as_str()) {
            assert(overlay_skipped_exts()[k as int] == lower@);
            return true;
        }
        k += 1;
    }
    assert(!overlay_skipped_exts().contains(lower@)) by {
        if overlay_skipped_exts().contains(lower@) {
            let j = choose|j: int| 0 <= j < overlay_skipped_exts().len() && overlay_skipped_exts()[j] == lower@;
            assert(overlay_skipped_exts()[j] != lower@);
        }
    }
    false
}

/// A file of the overlay: its name and where it is.
pub open spec fn overlay_file_text(name: Seq<char>, path: Seq<char>) -> Seq<char> {
    "{\"name\": \""@ + json_escape_spec(name) + "\", \"type\": \"file\", \"external-contents\": \""@
        + json_escape_spec(path) + "\"}"@
}

pub fn overlay_file_entry(name: &str, path: &str) -> (r: String)
    ensures
        r@ == overlay_file_text(name@, path@),
{
    let mut out = String::new();
    push_str(&mut out, "{\"name\": \"");
    push_str(&mut out, json_escape(name).as_str());
    push_str(&mut out, "\", \"type\": \"file\", \"external-contents\": \"");
    push_str(&mut out, json_escape(path).as_str());
    push_str(&mut out, "\"}");
    out
}

/// A directory of the overlay and its files (already written, joined by
/// `, `).
pub open spec fn overlay_dir_text(dir: Seq<char>, contents: Seq<char>) -> Seq<char> {
    "{\"name\": \""@ + json_escape_spec(dir) + "\", \"type\": \"directory\", \"contents\": ["@ + contents + "]}"@
}

pub fn overlay_dir_entry(dir: &str, contents: &str) -> (r: String)
    ensures
        r@ == overlay_dir_text(dir@, contents@),
{
    let mut out = String::new();
    push_str(&mut out, "{\"name\": \"");
    push_str(&mut out, json_escape(dir).as_str());
    push_str(&mut out, "\", \"type\": \"directory\", \"contents\": [");
    push_str(&mut out, contents);
    push_str(&mut out, "]}");
    out
}

/// The overlay document around its directories (already written, joined by
/// `, `); names are compared without regard to case.
pub open spec fn overlay_text(roots: Seq<char>) -> Seq<char> {
    "{\"version\": 0, \"case-sensitive\": \"false\", \"roots\": ["@ + roots + "]}"@
}

pub fn overlay_document(roots: &str) -> (r: String)
    ensures
        r@ == overlay_text(roots@),
{
    let mut out = String::new();
    push_str(&mut out, "{\"version\": 0, \"case-sensitive\": \"false\", \"roots\": [");
    push_str(&mut out, roots);
    push_str(&mut out, "]}");
    out
}

} // verus!
