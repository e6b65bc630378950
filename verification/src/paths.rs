//! Path helpers of the tool: string-level canonization, relative paths
//! between project and output directories, and the conversions between native
//! Linux paths, their Wine view (`Z:\...`) and the forms written into the
//! build graph.
use vstd::prelude::*;
use crate::text::{
    chars_of, join, join_strings, push_str, replace, replace_str, seq_of_strings, split, split_str,
    str_eq, string_of, string_of_range, trim, trim_char, trim_quotes, trim_str,
};
use crate::winpath::{
    backslash, components, dot, dotdot, has_root, is_absolute, is_absolute_spec, join_path,
    join_spec, normalize_lexically, normalize_spec, path_parts, prefix_eq, prefix_of, seps,
};

verus! {

/// One step of [`canonize_path`]: a `..` that cannot be resolved is kept,
/// a leading empty piece (a root) is kept, `..` drops the last piece, and
/// `.` and empty pieces vanish.
pub open spec fn canon_fold(parts: Seq<Seq<char>>, acc: Seq<Seq<char>>) -> Seq<Seq<char>>
    decreases parts.len(),
{
    if parts.len() == 0 {
        acc
    } else {
        let part = parts[0];
        let next = if part == dotdot() && (forall|k: int| 0 <= k < acc.len() ==> acc[k] == dotdot()) {
            acc.push(part)
        } else if part.len() == 0 && acc.len() == 0 {
            acc.push(part)
        } else if part == dotdot() {
            acc.drop_last()
        } else if part == dot() || part.len() == 0 {
            acc
        } else {
            acc.push(part)
        };
        canon_fold(parts.skip(1), next)
    }
}

pub open spec fn canonize_spec(s: Seq<char>) -> Seq<char> {
    join(canon_fold(split(s, seps()), Seq::empty()), backslash())
}

fn is_dot_str(s: &String) -> (r: bool)
    ensures
        r == (s@ == dot()),
{
    let v = chars_of(s.as_str());
    let r = v.len() == 1 && v[0] == '.';
    assert(r ==> v@ =~= dot());
    r
}

fn is_dotdot_str(s: &String) -> (r: bool)
    ensures
        r == (s@ == dotdot()),
{
    let v = chars_of(s.as_str());
    let r = v.len() == 2 && v[0] == '.' && v[1] == '.';
    assert(r ==> v@ =~= dotdot());
    r
}

/// Resolves `.` and `..` of a path textually (either separator) and writes
/// it back with `\` (see [`canon_fold`]).
pub fn canonize_path(s: &str) -> (r: String)
    ensures
        r@ == canonize_spec(s@),
{
    let sepv: Vec<char> = vec!['/', '\\'];
    assert(sepv@ =~= seps());
    let pieces = split_str(s, &sepv);
    let ghost ps = seq_of_strings(pieces@);
    let mut parts: Vec<String> = Vec::new();
    let mut all_up = true;
    let mut i: usize = 0;
    assert(ps.skip(0) =~= ps);
    assert(seq_of_strings(parts@) =~= Seq::<Seq<char>>::empty());
    while i < pieces.len()
        invariant
            i <= pieces.len(),
            ps == seq_of_strings(pieces@),
            all_up == forall|k: int|
                0 <= k < seq_of_strings(parts@).len() ==> #[trigger] seq_of_strings(parts@)[k]
                    == dotdot(),
            canon_fold(ps, Seq::empty()) == canon_fold(ps.skip(i as int), seq_of_strings(parts@)),
        decreases pieces.len() - i,
    {
        let part = &pieces[i];
        assert(ps.skip(i as int)[0] == part@);
        assert(ps.skip(i as int).skip(1) =~= ps.skip(i + 1));
        let ghost acc = seq_of_strings(parts@);
        let is_up = is_dotdot_str(part);
        let empty = part.as_str().unicode_len() == 0;
        if is_up && all_up {
            parts.push(part.clone());
            assert(seq_of_strings(parts@) =~= acc.push(part@));
        } else if empty && parts.len() == 0 {
            parts.push(part.clone());
            all_up = false;
            assert(seq_of_strings(parts@) =~= acc.push(part@));
            assert(seq_of_strings(parts@)[acc.len() as int] != dotdot());
        } else if is_up {
            parts.pop();
            assert(seq_of_strings(parts@) =~= acc.drop_last());
            let mut k: usize = 0;
            let mut up = true;
            while k < parts.len()
                invariant
                    k <= parts.len(),
                    up == forall|j: int|
                        0 <= j < k ==> #[trigger] seq_of_strings(parts@)[j] == dotdot(),
                decreases parts.len() - k,
            {
                assert(seq_of_strings(parts@)[k as int] == parts@[k as int]@);
                if !is_dotdot_str(&parts[k]) {
                    up = false;
                }
                k += 1;
            }
            all_up = up;
        } else if is_dot_str(part) || empty {
        } else {
            parts.push(part.clone());
            all_up = false;
            assert(seq_of_strings(parts@) =~= acc.push(part@));
            assert(seq_of_strings(parts@)[acc.len() as int] != dotdot());
        }
        i += 1;
    }
    assert(ps.skip(pieces.len() as int) =~= Seq::<Seq<char>>::empty());
    proof {
        reveal_strlit("\\");
        assert("\\"@ =~= backslash());
    }
    join_strings(&parts, "\\")
}

/// Pieces of both paths (either separator) joined with `\`.
pub open spec fn concat_spec(lhs: Seq<char>, rhs: Seq<char>) -> Seq<char> {
    join(split(lhs, seps()) + split(rhs, seps()), backslash())
}

/// Concatenates two paths piece by piece (see [`concat_spec`]).
pub fn concat_path(lhs: &str, rhs: &str) -> (r: String)
    ensures
        r@ == concat_spec(lhs@, rhs@),
{
    let sepv: Vec<char> = vec!['/', '\\'];
    assert(sepv@ =~= seps());
    let mut parts = split_str(lhs, &sepv);
    let more = split_str(rhs, &sepv);
    let ghost a = seq_of_strings(parts@);
    let mut i: usize = 0;
    while i < more.len()
        invariant
            i <= more.len(),
            seq_of_strings(parts@) == a + seq_of_strings(more@).take(i as int),
        decreases more.len() - i,
    {
        let ghost before = seq_of_strings(parts@);
        parts.push(more[i].clone());
        assert(seq_of_strings(parts@) =~= before.push(more@[i as int]@));
        assert(seq_of_strings(more@).take(i + 1) =~= seq_of_strings(more@).take(i as int).push(
            more@[i as int]@,
        ));
        i += 1;
    }
    assert(seq_of_strings(more@).take(more.len() as int) =~= seq_of_strings(more@));
    proof {
        reveal_strlit("\\");
        assert("\\"@ =~= backslash());
    }
    join_strings(&parts, "\\")
}

/// `s.trim().trim_matches('"')`.
pub fn clean(s: &str) -> (r: String)
    ensures
        r@ == trim_char(trim(s@), '"'),
{
    trim_quotes(s)
}

//
// Relative path between two directories
//

/// Component of a path as `Path::components` yields it: a prefix (kind 0,
/// compared without case), the root (kind 1), or a name, `.` or `..` (kind 2).
pub open spec fn full_components(s: Seq<char>) -> Seq<(int, Seq<char>)> {
    (if prefix_of(s).len() > 0 {
        seq![(0int, prefix_of(s))]
    } else {
        Seq::empty()
    }) + (if has_root(s) {
        seq![(1int, backslash())]
    } else {
        Seq::empty()
    }) + components(s).map_values(|c: Seq<char>| (2int, c))
}

pub open spec fn comp_eq(a: (int, Seq<char>), b: (int, Seq<char>)) -> bool {
    a.0 == b.0 && if a.0 == 0 {
        prefix_eq(a.1, b.1)
    } else {
        a.1 == b.1
    }
}

/// Length of the common leading run of components.
pub open spec fn common_len(a: Seq<(int, Seq<char>)>, b: Seq<(int, Seq<char>)>) -> int
    decreases a.len(),
{
    if a.len() > 0 && b.len() > 0 && comp_eq(a[0], b[0]) {
        1 + common_len(a.skip(1), b.skip(1))
    } else {
        0
    }
}

/// `n` copies of `..`.
pub open spec fn ups(n: nat) -> Seq<Seq<char>> {
    Seq::new(n, |i: int| dotdot())
}

/// Pushes every component text onto `base` (`PathBuf::push`).
pub open spec fn push_all(base: Seq<char>, comps: Seq<(int, Seq<char>)>) -> Seq<char>
    decreases comps.len(),
{
    if comps.len() == 0 {
        base
    } else {
        push_all(join_spec(base, comps[0].1), comps.skip(1))
    }
}

/// Path from `vcproj_dir` to `int_dir`: one `..` per component of `vcproj_dir`
/// past the common start (or `.\` when there is none), then the rest of `int_dir`.
pub open spec fn pathdiff_spec(vcproj_dir: Seq<char>, int_dir: Seq<char>) -> Seq<char> {
    let a = full_components(vcproj_dir);
    let b = full_components(int_dir);
    let k = common_len(a, b);
    let n = a.len() - k;
    let start = if n == 0 {
        seq!['.', '\\']
    } else {
        join(ups(n as nat), backslash())
    };
    push_all(start, b.skip(k))
}

proof fn lemma_common_len(a: Seq<(int, Seq<char>)>, b: Seq<(int, Seq<char>)>)
    ensures
        0 <= common_len(a, b) <= a.len(),
        common_len(a, b) <= b.len(),
        forall|j: int| 0 <= j < common_len(a, b) ==> comp_eq(#[trigger] a[j], b[j]),
        common_len(a, b) < a.len() && common_len(a, b) < b.len() ==> !comp_eq(
            a[common_len(a, b)],
            b[common_len(a, b)],
        ),
    decreases a.len(),
{
    if a.len() > 0 && b.len() > 0 && comp_eq(a[0], b[0]) {
        lemma_common_len(a.skip(1), b.skip(1));
        assert forall|j: int| 0 <= j < common_len(a, b) implies comp_eq(#[trigger] a[j], b[j]) by {
            if j > 0 {
                assert(a[j] == a.skip(1)[j - 1]);
                assert(b[j] == b.skip(1)[j - 1]);
            }
        }
    }
}

/// Components of `s` as kinds and texts (see [`full_components`]).
fn full_components_exec(s: &str) -> (r: (Vec<u8>, Vec<String>))
    ensures
        r.0@.len() == r.1@.len(),
        forall|i: int|
            0 <= i < r.0@.len() ==> #[trigger] full_components(s@)[i] == (r.0@[i] as int, r.1@[i]@),
        full_components(s@).len() == r.0@.len(),
{
    let p = path_parts(s);
    let mut kinds: Vec<u8> = Vec::new();
    let mut texts: Vec<String> = Vec::new();
    let pv = chars_of(p.prefix.as_str());
    let ghost head: Seq<(int, Seq<char>)> = Seq::empty();
    if pv.len() > 0 {
        kinds.push(0);
        texts.push(p.prefix.clone());
    }
    if p.root {
        kinds.push(1);
        proof {
            reveal_strlit("\\");
        }
        let r = string_of(&chars_of("\\"));
        assert(r@ =~= backslash());
        texts.push(r);
    }
    let ghost h = kinds@.len();
    let ghost fc = full_components(s@);
    let ghost cs = seq_of_strings(p.comps@);
    assert(forall|i: int| 0 <= i < h ==> #[trigger] fc[i] == (kinds@[i] as int, texts@[i]@));
    let mut i: usize = 0;
    while i < p.comps.len()
        invariant
            i <= p.comps.len(),
            kinds@.len() == texts@.len() == h + i,
            fc == full_components(s@),
            cs == seq_of_strings(p.comps@),
            cs == components(s@),
            h + cs.len() == fc.len(),
            forall|j: int| 0 <= j < h + i ==> #[trigger] fc[j] == (kinds@[j] as int, texts@[j]@),
            forall|j: int| 0 <= j < cs.len() ==> #[trigger] fc[h + j] == (2int, cs[j]),
        decreases p.comps.len() - i,
    {
        kinds.push(2);
        texts.push(p.comps[i].clone());
        assert(fc[h + i] == (2int, cs[i as int]));
        i += 1;
    }
    (kinds, texts)
}

/// The relative path from `vcproj_dir` to `int_dir` (see [`pathdiff_spec`]).
pub fn pathdiff(vcproj_dir: &str, int_dir: &str) -> (r: String)
    ensures
        r@ == pathdiff_spec(vcproj_dir@, int_dir@),
{
    let (ka, ta) = full_components_exec(vcproj_dir);
    let (kb, tb) = full_components_exec(int_dir);
    let ghost a = full_components(vcproj_dir@);
    let ghost b = full_components(int_dir@);
    proof {
        lemma_common_len(a, b);
    }
    let mut k: usize = 0;
    while k < ka.len() && k < kb.len() && component_matches(ka[k], &ta[k], kb[k], &tb[k])
        invariant
            k <= ka.len() == a.len(),
            kb.len() == b.len(),
            ta@.len() == ka@.len(),
            tb@.len() == kb@.len(),
            k <= kb.len(),
            a == full_components(vcproj_dir@),
            b == full_components(int_dir@),
            forall|i: int| 0 <= i < ka@.len() ==> #[trigger] a[i] == (ka@[i] as int, ta@[i]@),
            forall|i: int| 0 <= i < kb@.len() ==> #[trigger] b[i] == (kb@[i] as int, tb@[i]@),
            forall|j: int| 0 <= j < k ==> comp_eq(#[trigger] a[j], b[j]),
            0 <= common_len(a, b) <= a.len(),
            common_len(a, b) <= b.len(),
            forall|j: int| 0 <= j < common_len(a, b) ==> comp_eq(#[trigger] a[j], b[j]),
            common_len(a, b) < a.len() && common_len(a, b) < b.len() ==> !comp_eq(
                a[common_len(a, b)],
                b[common_len(a, b)],
            ),
            k <= common_len(a, b),
        decreases ka.len() - k,
    {
        assert(a[k as int] == (ka@[k as int] as int, ta@[k as int]@));
        k += 1;
    }
    assert(k == common_len(a, b)) by {
        if k < common_len(a, b) {
            assert(comp_eq(a[k as int], b[k as int]));
            assert(a[k as int] == (ka@[k as int] as int, ta@[k as int]@));
            assert(b[k as int] == (kb@[k as int] as int, tb@[k as int]@));
        }
    }
    let n = ka.len() - k;
    let mut out: String;
    if n == 0 {
        out = string_of(&chars_of(".\\"));
        proof {
            reveal_strlit(".\\");
        }
        assert(out@ =~= seq!['.', '\\']);
    } else {
        let mut ups_v: Vec<String> = Vec::new();
        let mut j: usize = 0;
        while j < n
            invariant
                j <= n,
                seq_of_strings(ups_v@) =~= ups(j as nat),
            decreases n - j,
        {
            let up = string_of(&chars_of(".."));
            proof {
                reveal_strlit("..");
            }
            assert(up@ =~= dotdot());
            let ghost before = seq_of_strings(ups_v@);
            ups_v.push(up);
            assert(seq_of_strings(ups_v@) =~= before.push(dotdot()));
            assert(ups((j + 1) as nat) =~= ups(j as nat).push(dotdot()));
            j += 1;
        }
        proof {
            reveal_strlit("\\");
            assert("\\"@ =~= backslash());
        }
        out = join_strings(&ups_v, "\\");
    }
    let ghost start = out@;
    let mut i = k;
    assert(b.skip(k as int).skip(0) =~= b.skip(k as int));
    while i < tb.len()
        invariant
            k <= i <= tb.len() == b.len(),
            tb@.len() == kb@.len(),
            forall|x: int| 0 <= x < kb@.len() ==> #[trigger] b[x] == (kb@[x] as int, tb@[x]@),
            push_all(start, b.skip(k as int)) == push_all(out@, b.skip(i as int)),
        decreases tb.len() - i,
    {
        assert(b.skip(i as int)[0] == b[i as int]);
        assert(b.skip(i as int).skip(1) =~= b.skip(i + 1));
        out = join_path(out.as_str(), tb[i].as_str());
        i += 1;
    }
    assert(b.skip(i as int) =~= Seq::<(int, Seq<char>)>::empty());
    out
}

fn component_matches(ka: u8, ta: &String, kb: u8, tb: &String) -> (r: bool)
    ensures
        r == comp_eq((ka as int, ta@), (kb as int, tb@)),
{
    if ka != kb {
        return false;
    }
    if ka == 0 {
        let a = chars_of(ta.as_str());
        let b = chars_of(tb.as_str());
        if a.len() != b.len() {
            false
        } else if a.len() == 0 {
            true
        } else {
            a.len() == 2 && upper_char(a[0]) == upper_char(b[0])
        }
    } else {
        str_eq(ta.as_str(), tb.as_str())
    }
}

fn upper_char(c: char) -> (r: char)
    ensures
        r == crate::winpath::ascii_upper(c),
{
    if 'a' <= c && c <= 'z' {
        (((c as u32) - 32) as u8) as char
    } else {
        c
    }
}

//
// Native, Wine and build-graph path forms
//

/// `/home/x` -> `Z:\home\x`; paths not starting with `/` are unchanged.
pub open spec fn unix_to_wine_spec(p: Seq<char>) -> Seq<char> {
    if p.len() > 0 && p[0] == '/' {
        seq!['Z', ':'] + replace(p, seq!['/'], seq!['\\'])
    } else {
        p
    }
}

/// `Z:\home\x` (or `z:`) -> `/home/x`: the drive is dropped and every `\`
/// becomes `/`.
pub open spec fn wine_to_unix_spec(p: Seq<char>) -> Seq<char> {
    let rest = if p.len() >= 2 && (p[0] == 'Z' || p[0] == 'z') && p[1] == ':' {
        p.skip(2)
    } else {
        p
    };
    replace(rest, seq!['\\'], seq!['/'])
}

/// Lifts a native Linux path to the drive-rooted form Wine exposes (see
/// [`unix_to_wine_spec`]).
pub fn unix_to_wine(p: &str) -> (r: String)
    ensures
        r@ == unix_to_wine_spec(p@),
{
    let v = chars_of(p);
    if v.len() > 0 && v[0] == '/' {
        proof {
            reveal_strlit("Z:");
            reveal_strlit("/");
            reveal_strlit("\\");
            assert("Z:"@ =~= seq!['Z', ':']);
            assert("/"@ =~= seq!['/']);
            assert("\\"@ =~= seq!['\\']);
        }
        let mut out = string_of(&chars_of("Z:"));
        let replaced = replace_str(p, "/", "\\");
        push_str(&mut out, replaced.as_str());
        assert(out@ =~= seq!['Z', ':'] + replace(p@, seq!['/'], seq!['\\']));
        out
    } else {
        string_of(&v)
    }
}

/// Lowers a Wine path to the native form (see [`wine_to_unix_spec`]).
pub fn wine_to_unix(p: &str) -> (r: String)
    ensures
        r@ == wine_to_unix_spec(p@),
{
    let v = chars_of(p);
    let start: usize = if v.len() >= 2 && (v[0] == 'Z' || v[0] == 'z') && v[1] == ':' {
        2
    } else {
        0
    };
    let rest = string_of_range(&v, start, v.len());
    assert(v@.subrange(start as int, v.len() as int) =~= v@.skip(start as int));
    assert(v@.skip(0) =~= v@);
    proof {
        reveal_strlit("/");
        reveal_strlit("\\");
        assert("/"@ =~= seq!['/']);
        assert("\\"@ =~= seq!['\\']);
    }
    replace_str(rest.as_str(), "\\", "/")
}

/// Host form of a path: lowered from the Wine view under `wine`, untouched
/// otherwise.
pub open spec fn to_host_spec(p: Seq<char>, wine: bool) -> Seq<char> {
    if wine {
        wine_to_unix_spec(p)
    } else {
        p
    }
}

pub fn to_host_str(p: &str, wine: bool) -> (r: String)
    ensures
        r@ == to_host_spec(p@, wine),
{
    if wine {
        wine_to_unix(p)
    } else {
        string_of(&chars_of(p))
    }
}

/// [`to_host_str`] for values that the caller holds as paths.
pub fn to_host(p: &str, wine: bool) -> (r: String)
    ensures
        r@ == to_host_spec(p@, wine),
{
    to_host_str(p, wine)
}

/// A path of the emitted flags made into a normalized host path: trimmed,
/// lowered from the Wine view, joined to `proj_dir` unless absolute, then
/// normalized (kept as joined when normalization fails).
pub open spec fn to_host_normalized_spec(raw: Seq<char>, proj_dir: Seq<char>) -> Seq<char> {
    let host = wine_to_unix_spec(trim(raw));
    let joined = if is_absolute_spec(host) {
        host
    } else {
        join_spec(proj_dir, host)
    };
    match normalize_spec(joined) {
        Some(n) => n,
        None => joined,
    }
}

pub fn to_host_normalized(raw: &str, proj_dir: &str) -> (r: String)
    ensures
        r@ == to_host_normalized_spec(raw@, proj_dir@),
{
    let t = trim_str(raw);
    let host = wine_to_unix(t.as_str());
    let joined = if is_absolute(host.as_str()) {
        host
    } else {
        join_path(proj_dir, host.as_str())
    };
    match normalize_lexically(joined.as_str()) {
        Some(n) => n,
        None => joined,
    }
}

/// The build-graph form of a path: separators unified to `/`, then lifted to
/// the Wine view under `wine`.
pub open spec fn to_ninja_path_spec(path: Seq<char>, wine: bool) -> Seq<char> {
    let p = replace(path, seq!['\\'], seq!['/']);
    if wine {
        unix_to_wine_spec(p)
    } else {
        p
    }
}

pub fn to_ninja_path(path: &str, wine: bool) -> (r: String)
    ensures
        r@ == to_ninja_path_spec(path@, wine),
{
    proof {
        reveal_strlit("/");
        reveal_strlit("\\");
        assert("/"@ =~= seq!['/']);
        assert("\\"@ =~= seq!['\\']);
    }
    let p = replace_str(path, "\\", "/");
    if wine {
        unix_to_wine(p.as_str())
    } else {
        p
    }
}

/// A header path found by the scanner in build-graph form.
pub fn native_to_ninja(path: &str, wine: bool) -> (r: String)
    ensures
        r@ == to_ninja_path_spec(path@, wine),
{
    to_ninja_path(path, wine)
}

/// The path on disk of a build-graph path.
pub fn native_path(p: &str, wine: bool) -> (r: String)
    ensures
        r@ == to_host_spec(p@, wine),
{
    to_host_str(p, wine)
}

/// An include dir or source path of the emitted flags made into a native
/// path the scanner can open: trimmed, `\` -> `/`, a `Z:`/`z:` drive dropped,
/// joined to `proj_dir` unless absolute, normalized when possible.
pub open spec fn to_native_spec(raw: Seq<char>, proj_dir: Seq<char>) -> Seq<char> {
    let replaced = replace(trim(raw), seq!['\\'], seq!['/']);
    let stripped = if replaced.len() >= 2 && (replaced[0] == 'Z' || replaced[0] == 'z')
        && replaced[1] == ':' {
        replaced.skip(2)
    } else {
        replaced
    };
    let joined = if is_absolute_spec(stripped) {
        stripped
    } else {
        join_spec(proj_dir, stripped)
    };
    match normalize_spec(joined) {
        Some(n) => n,
        None => joined,
    }
}

pub fn to_native(raw: &str, proj_dir: &str) -> (r: String)
    ensures
        r@ == to_native_spec(raw@, proj_dir@),
{
    proof {
        reveal_strlit("/");
        reveal_strlit("\\");
        assert("/"@ =~= seq!['/']);
        assert("\\"@ =~= seq!['\\']);
    }
    let t = trim_str(raw);
    let replaced = replace_str(t.as_str(), "\\", "/");
    let v = chars_of(replaced.as_str());
    let start: usize = if v.len() >= 2 && (v[0] == 'Z' || v[0] == 'z') && v[1] == ':' {
        2
    } else {
        0
    };
    let stripped = string_of_range(&v, start, v.len());
    assert(v@.subrange(start as int, v.len() as int) =~= v@.skip(start as int));
    assert(v@.skip(0) =~= v@);
    let joined = if is_absolute(stripped.as_str()) {
        stripped
    } else {
        join_path(proj_dir, stripped.as_str())
    };
    match normalize_lexically(joined.as_str()) {
        Some(n) => n,
        None => joined,
    }
}

/// `base_path` joined with `rpath`, normalized; the join must not climb
/// above its start.
pub fn normalize_rpath(base_path: &str, rpath: &str) -> (r: String)
    requires
        normalize_spec(join_spec(base_path@, rpath@)) is Some,
    ensures
        Some(r@) == normalize_spec(join_spec(base_path@, rpath@)),
{
    let joined = join_path(base_path, rpath);
    match normalize_lexically(joined.as_str()) {
        Some(n) => n,
        None => joined,
    }
}

/// A path normalized on its own (resolving `..`).
pub fn normalize_path(path: &str) -> (r: String)
    requires
        normalize_spec(join_spec(Seq::empty(), path@)) is Some,
    ensures
        Some(r@) == normalize_spec(join_spec(Seq::empty(), path@)),
{
    proof {
        reveal_strlit("");
        assert(""@ =~= Seq::<char>::empty());
    }
    normalize_rpath("", path)
}

/// Replacing one character by another and back gives the text again when
/// the text had none of the second.
pub proof fn lemma_replace_back(p: Seq<char>, a: char, b: char)
    requires
        a != b,
        !p.contains(b),
    ensures
        replace(replace(p, seq![a], seq![b]), seq![b], seq![a]) == p,
    decreases p.len(),
{
    if p.len() > 0 {
        let rest = p.skip(1);
        assert(!rest.contains(b)) by {
            if rest.contains(b) {
                let j = choose|j: int| 0 <= j < rest.len() && rest[j] == b;
                assert(p[j + 1] == b);
            }
        }
        lemma_replace_back(rest, a, b);
        assert(p.take(1) =~= seq![p[0]]);
        let once = replace(p, seq![a], seq![b]);
        let head = if p[0] == a {
            b
        } else {
            p[0]
        };
        assert(p[0] != b) by {
            if p[0] == b {
                assert(p.contains(b));
            }
        }
        assert(once == seq![head] + replace(rest, seq![a], seq![b]));
        assert(once.take(1) =~= seq![head]);
        assert(once.skip(1) =~= replace(rest, seq![a], seq![b]));
        assert(replace(once, seq![b], seq![a]) =~= seq![p[0]] + rest);
        assert(seq![p[0]] + rest =~= p);
    }
}

/// Law: lowering a lifted path gives it back, for the paths the tool lifts:
/// absolute host paths and relative ones, neither holding `\` (and a
/// relative one not starting like a drive).
pub proof fn lemma_wine_round_trip(p: Seq<char>)
    requires
        !p.contains('\\'),
        !(p.len() > 0 && p[0] == '/') ==> !(p.len() >= 2 && (p[0] == 'Z' || p[0] == 'z') && p[1] == ':'),
    ensures
        wine_to_unix_spec(unix_to_wine_spec(p)) == p,
{
    if p.len() > 0 && p[0] == '/' {
        let w = seq!['Z', ':'] + replace(p, seq!['/'], seq!['\\']);
        assert(w.skip(2) =~= replace(p, seq!['/'], seq!['\\']));
        lemma_replace_back(p, '/', '\\');
    } else {
        lemma_replace_ident(p, '\\', '/');
    }
}

/// Replacing a character that does not occur changes nothing.
pub proof fn lemma_replace_ident(p: Seq<char>, a: char, b: char)
    requires
        !p.contains(a),
    ensures
        replace(p, seq![a], seq![b]) == p,
    decreases p.len(),
{
    if p.len() > 0 {
        let rest = p.skip(1);
        assert(!rest.contains(a)) by {
            if rest.contains(a) {
                let j = choose|j: int| 0 <= j < rest.len() && rest[j] == a;
                assert(p[j + 1] == a);
            }
        }
        lemma_replace_ident(rest, a, b);
        assert(p.take(1) =~= seq![p[0]]);
        assert(p[0] != a) by {
            if p[0] == a {
                assert(p.contains(a));
            }
        }
        assert(seq![p[0]] + rest =~= p);
    }
}


//
// The canonical form
//

/// No character of `p` is a separator.
pub open spec fn no_sep(p: Seq<char>) -> bool {
    forall|i: int| 0 <= i < p.len() ==> !seps().contains(#[trigger] p[i])
}

/// The pieces of a canonized path: none holds a separator or is `.`, only
/// the first may be empty (a root), and every `..` comes before any other
/// piece.
pub open spec fn canonical(acc: Seq<Seq<char>>) -> bool {
    forall|k: int|
        0 <= k < acc.len() ==> {
            &&& no_sep(#[trigger] acc[k])
            &&& acc[k] != dot()
            &&& (acc[k].len() == 0 ==> k == 0)
            &&& (acc[k] == dotdot() ==> forall|j: int| 0 <= j < k ==> acc[j] == dotdot())
        }
}

proof fn lemma_split_plain(s: Seq<char>, t: Seq<char>)
    requires
        no_sep(t),
    ensures
        split(s + t, seps()) == split(s, seps()).update(
            split(s, seps()).len() - 1,
            split(s, seps()).last() + t,
        ),
        split(s, seps()).len() >= 1,
    decreases t.len(),
{
    lemma_split_nonempty(s);
    if t.len() == 0 {
        assert(s + t =~= s);
        assert(split(s, seps()).last() + t =~= split(s, seps()).last());
        assert(split(s, seps()).update(split(s, seps()).len() - 1, split(s, seps()).last()) =~= split(s, seps()));
    } else {
        let t0 = t.drop_last();
        assert forall|i: int| 0 <= i < t0.len() implies !seps().contains(#[trigger] t0[i]) by {
            assert(t0[i] == t[i]);
        }
        lemma_split_plain(s, t0);
        assert((s + t).drop_last() =~= s + t0);
        assert((s + t).last() == t.last());
        assert(!seps().contains(t.last()));
        let r = split(s, seps());
        assert(r.update(r.len() - 1, r.last() + t0).last() == r.last() + t0);
        assert((r.last() + t0).push(t.last()) =~= r.last() + t);
        assert(r.update(r.len() - 1, r.last() + t0).update(r.len() - 1, r.last() + t) =~= r.update(
            r.len() - 1,
            r.last() + t,
        ));
    }
}

proof fn lemma_split_nonempty(s: Seq<char>)
    ensures
        split(s, seps()).len() >= 1,
    decreases s.len(),
{
    if s.len() > 0 {
        lemma_split_nonempty(s.drop_last());
    }
}

/// The pieces of `split` hold no separator.
proof fn lemma_split_no_sep(s: Seq<char>)
    ensures
        forall|k: int| 0 <= k < split(s, seps()).len() ==> no_sep(#[trigger] split(s, seps())[k]),
    decreases s.len(),
{
    if s.len() > 0 {
        lemma_split_no_sep(s.drop_last());
        lemma_split_nonempty(s.drop_last());
        let r = split(s.drop_last(), seps());
        if !seps().contains(s.last()) {
            let l = r.last().push(s.last());
            assert(no_sep(r[r.len() - 1]));
            assert forall|i: int| 0 <= i < l.len() implies !seps().contains(#[trigger] l[i]) by {
                if i < r.last().len() {
                    assert(l[i] == r.last()[i]);
                }
            }
            assert forall|k: int| 0 <= k < split(s, seps()).len() implies no_sep(#[trigger] split(s, seps())[k]) by {
                if k < r.len() - 1 {
                    assert(split(s, seps())[k] == r[k]);
                }
            }
        } else {
            assert forall|k: int| 0 <= k < split(s, seps()).len() implies no_sep(#[trigger] split(s, seps())[k]) by {
                if k < r.len() {
                    assert(split(s, seps())[k] == r[k]);
                } else {
                    assert(split(s, seps())[k] =~= Seq::<char>::empty());
                }
            }
        }
    }
}

/// Splitting pieces joined with `\` gives them back.
proof fn lemma_split_join(ps: Seq<Seq<char>>)
    requires
        ps.len() >= 1,
        forall|k: int| 0 <= k < ps.len() ==> no_sep(#[trigger] ps[k]),
    ensures
        split(join(ps, backslash()), seps()) == ps,
    decreases ps.len(),
{
    if ps.len() == 1 {
        assert(ps[0] == ps[0]);
        lemma_split_plain(Seq::empty(), ps[0]);
        assert(Seq::<char>::empty() + ps[0] =~= ps[0]);
        assert(split(Seq::<char>::empty(), seps()) =~= seq![Seq::<char>::empty()]);
        assert(seq![Seq::<char>::empty()].update(0, Seq::<char>::empty() + ps[0]) =~= ps);
    } else {
        let dl = ps.drop_last();
        assert forall|k: int| 0 <= k < dl.len() implies no_sep(#[trigger] dl[k]) by {
            assert(dl[k] == ps[k]);
        }
        lemma_split_join(dl);
        let a = join(dl, backslash()) + backslash();
        assert(a.drop_last() =~= join(dl, backslash()));
        assert(a.last() == '\\');
        assert(seps().contains('\\')) by {
            assert(seps()[1] == '\\');
        }
        assert(split(a, seps()) == dl.push(Seq::empty()));
        assert(no_sep(ps[ps.len() - 1]));
        lemma_split_plain(a, ps.last());
        assert(join(ps, backslash()) == a + ps.last());
        assert(dl.push(Seq::empty()).update(ps.len() - 1, Seq::<char>::empty() + ps.last()) =~= ps);
        assert(Seq::<char>::empty() + ps.last() =~= ps.last());
    }
}

/// The fold keeps its pieces canonical.
proof fn lemma_canon_fold_canonical(parts: Seq<Seq<char>>, acc: Seq<Seq<char>>)
    requires
        canonical(acc),
        forall|k: int| 0 <= k < parts.len() ==> no_sep(#[trigger] parts[k]),
    ensures
        canonical(canon_fold(parts, acc)),
    decreases parts.len(),
{
    if parts.len() > 0 {
        let part = parts[0];
        let all_dd = forall|k: int| 0 <= k < acc.len() ==> acc[k] == dotdot();
        let next = if part == dotdot() && all_dd {
            acc.push(part)
        } else if part.len() == 0 && acc.len() == 0 {
            acc.push(part)
        } else if part == dotdot() {
            acc.drop_last()
        } else if part == dot() || part.len() == 0 {
            acc
        } else {
            acc.push(part)
        };
        assert(no_sep(parts[0]));
        assert(dotdot().len() == 2);
        assert(dot().len() == 1);
        assert forall|k: int| 0 <= k < next.len() implies {
            &&& no_sep(#[trigger] next[k])
            &&& next[k] != dot()
            &&& (next[k].len() == 0 ==> k == 0)
            &&& (next[k] == dotdot() ==> forall|j: int| 0 <= j < k ==> next[j] == dotdot())
        } by {
            if k < acc.len() {
                assert(next[k] == acc[k]);
                assert forall|j: int| 0 <= j < k implies next[j] == acc[j] by {}
            } else {
                assert(next[k] == part);
                if part == dotdot() {
                    assert forall|j: int| 0 <= j < k implies next[j] == dotdot() by {
                        assert(next[j] == acc[j]);
                    }
                }
            }
        }
        let rest = parts.skip(1);
        assert forall|k: int| 0 <= k < rest.len() implies no_sep(#[trigger] rest[k]) by {
            assert(rest[k] == parts[k + 1]);
        }
        lemma_canon_fold_canonical(rest, next);
    }
}

/// Folding the rest of canonical pieces after their beginning gives all of
/// them back.
proof fn lemma_canon_fold_fixed(all: Seq<Seq<char>>, i: int)
    requires
        canonical(all),
        0 <= i <= all.len(),
    ensures
        canon_fold(all.skip(i), all.take(i)) == all,
    decreases all.len() - i,
{
    if i == all.len() {
        assert(all.take(i) =~= all);
    } else {
        let parts = all.skip(i);
        let acc = all.take(i);
        let part = parts[0];
        assert(part == all[i]);
        assert(dotdot().len() == 2);
        assert(dot().len() == 1);
        let next = if part == dotdot() && (forall|k: int| 0 <= k < acc.len() ==> acc[k] == dotdot()) {
            acc.push(part)
        } else if part.len() == 0 && acc.len() == 0 {
            acc.push(part)
        } else if part == dotdot() {
            acc.drop_last()
        } else if part == dot() || part.len() == 0 {
            acc
        } else {
            acc.push(part)
        };
        if part == dotdot() {
            assert forall|k: int| 0 <= k < acc.len() implies acc[k] == dotdot() by {
                assert(acc[k] == all[k]);
            }
        }
        assert(next =~= all.take(i + 1));
        assert(parts.skip(1) =~= all.skip(i + 1));
        lemma_canon_fold_fixed(all, i + 1);
    }
}

proof fn lemma_join_no_slash(ps: Seq<Seq<char>>)
    requires
        forall|k: int| 0 <= k < ps.len() ==> no_sep(#[trigger] ps[k]),
    ensures
        !join(ps, backslash()).contains('/'),
    decreases ps.len(),
{
    if ps.len() == 1 {
        assert(no_sep(ps[0]));
        if join(ps, backslash()).contains('/') {
            let i = choose|i: int| 0 <= i < ps[0].len() && ps[0][i] == '/';
            assert(seps().contains(ps[0][i])) by {
                assert(seps()[0] == '/');
            }
        }
    } else if ps.len() > 1 {
        let dl = ps.drop_last();
        assert forall|k: int| 0 <= k < dl.len() implies no_sep(#[trigger] dl[k]) by {
            assert(dl[k] == ps[k]);
        }
        lemma_join_no_slash(dl);
        let j = join(ps, backslash());
        let a = join(dl, backslash());
        assert(no_sep(ps[ps.len() - 1]));
        if j.contains('/') {
            let i = choose|i: int| 0 <= i < j.len() && j[i] == '/';
            if i < a.len() {
                assert(j[i] == a[i]);
            } else if i == a.len() {
                assert(j[i] == '\\');
            } else {
                assert(j[i] == ps.last()[i - a.len() - 1]);
                assert(seps().contains(ps.last()[i - a.len() - 1])) by {
                    assert(seps()[0] == '/');
                }
            }
        }
    }
}

/// Law: a canonized path is in canonical form, its pieces joined with `\`
/// (no `/`, no `.` piece, every `..` leading), and canonizing it again
/// changes nothing.
pub proof fn lemma_canonize_idempotent(s: Seq<char>)
    ensures
        canonical(canon_fold(split(s, seps()), Seq::empty())),
        canonize_spec(s) == join(canon_fold(split(s, seps()), Seq::empty()), backslash()),
        !canonize_spec(s).contains('/'),
        canonize_spec(canonize_spec(s)) == canonize_spec(s),
{
    let acc = canon_fold(split(s, seps()), Seq::empty());
    lemma_split_no_sep(s);
    assert(canonical(Seq::<Seq<char>>::empty()));
    lemma_canon_fold_canonical(split(s, seps()), Seq::empty());
    assert forall|k: int| 0 <= k < acc.len() implies no_sep(#[trigger] acc[k]) by {}
    lemma_join_no_slash(acc);
    let c = canonize_spec(s);
    if acc.len() == 0 {
        assert(c =~= Seq::<char>::empty());
        assert(split(c, seps()) =~= seq![Seq::<char>::empty()]);
        let e = seq![Seq::<char>::empty()];
        assert(e.skip(1) =~= Seq::<Seq<char>>::empty());
        assert(canon_fold(e, Seq::empty()) == canon_fold(e.skip(1), Seq::<Seq<char>>::empty().push(Seq::empty())));
        assert(canon_fold(e, Seq::empty()) =~= e);
    } else {
        lemma_split_join(acc);
        lemma_canon_fold_fixed(acc, 0);
        assert(acc.skip(0) =~= acc);
        assert(acc.take(0) =~= Seq::<Seq<char>>::empty());
    }
}

} // verus!
