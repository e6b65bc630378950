//! Lexical path arithmetic with the Windows rules of `std::path`: both `/`
//! and `\` separate components, a drive letter followed by `:` is a prefix,
//! and new separators are written as `\`. (UNC and verbatim prefixes are not
//! recognized; the projects this tool reads use drive or rooted paths.)
use vstd::prelude::*;
use crate::text::{
    ascii_alpha, chars_of, is_ascii_alpha, join, join_strings, push_str, seq_of_strings, split,
    split_str, str_eq, string_of, string_of_range,
};

verus! {

pub open spec fn is_sep(c: char) -> bool {
    c == '/' || c == '\\'
}

pub open spec fn seps() -> Seq<char> {
    seq!['/', '\\']
}

pub open spec fn dot() -> Seq<char> {
    seq!['.']
}

pub open spec fn dotdot() -> Seq<char> {
    seq!['.', '.']
}

pub open spec fn backslash() -> Seq<char> {
    seq!['\\']
}

/// Length of the drive prefix (`C:`), 0 when there is none.
pub open spec fn prefix_len(s: Seq<char>) -> int {
    if s.len() >= 2 && is_ascii_alpha(s[0]) && s[1] == ':' {
        2
    } else {
        0
    }
}

/// Does a separator follow the prefix?
pub open spec fn has_root(s: Seq<char>) -> bool {
    s.len() > prefix_len(s) && is_sep(s[prefix_len(s)])
}

/// The part of `s` after its prefix and root.
pub open spec fn body(s: Seq<char>) -> Seq<char> {
    s.skip(prefix_len(s) + if has_root(s) {
        1int
    } else {
        0int
    })
}

/// Non-empty pieces other than `.`.
pub open spec fn keep_piece(p: Seq<char>) -> bool {
    p.len() > 0 && p != dot()
}

/// Components after prefix and root: empty pieces and `.` are dropped,
/// except that a relative path keeps a leading `.`.
pub open spec fn comps_of(pieces: Seq<Seq<char>>, root: bool) -> Seq<Seq<char>> {
    if pieces.len() == 0 {
        Seq::empty()
    } else {
        let first = pieces[0];
        let head = if first == dot() && !root {
            seq![dot()]
        } else if keep_piece(first) {
            seq![first]
        } else {
            Seq::empty()
        };
        head + pieces.skip(1).filter(|p: Seq<char>| keep_piece(p))
    }
}

pub open spec fn components(s: Seq<char>) -> Seq<Seq<char>> {
    comps_of(split(body(s), seps()), has_root(s))
}

pub open spec fn prefix_of(s: Seq<char>) -> Seq<char> {
    s.take(prefix_len(s))
}

/// A path written from its prefix, root flag and components.
pub open spec fn render(prefix: Seq<char>, root: bool, comps: Seq<Seq<char>>) -> Seq<char> {
    prefix + (if root {
        backslash()
    } else {
        Seq::empty()
    }) + join(comps, backslash())
}

/// Same drive letter, compared without case.
pub open spec fn prefix_eq(a: Seq<char>, b: Seq<char>) -> bool {
    a.len() == b.len() && (a.len() == 0 || (a.len() == 2 && ascii_upper(a[0]) == ascii_upper(b[0])))
}

pub open spec fn ascii_upper(c: char) -> char {
    if 'a' <= c && c <= 'z' {
        ((c as int) - 32) as char
    } else {
        c
    }
}

/// Path equality as `std::path::Path` defines it: by components.
pub open spec fn path_eq_spec(a: Seq<char>, b: Seq<char>) -> bool {
    &&& prefix_eq(prefix_of(a), prefix_of(b))
    &&& has_root(a) == has_root(b)
    &&& components(a) == components(b)
}

/// Absolute in the Windows sense: a drive prefix and a root.
pub open spec fn is_absolute_spec(s: Seq<char>) -> bool {
    prefix_len(s) > 0 && has_root(s)
}

/// `PathBuf::push`: an absolute or prefixed `rel` replaces `base`; a rooted
/// `rel` keeps only the prefix of `base`; otherwise a `\` is inserted unless
/// `base` is empty, ends with a separator, or is a bare drive.
pub open spec fn join_spec(base: Seq<char>, rel: Seq<char>) -> Seq<char> {
    if is_absolute_spec(rel) || prefix_len(rel) > 0 {
        rel
    } else if has_root(rel) {
        prefix_of(base) + rel
    } else if base.len() > 0 && !is_sep(base.last()) && !(prefix_len(base) > 0 && prefix_len(
        base,
    ) == base.len()) {
        base + backslash() + rel
    } else {
        base + rel
    }
}

/// Folding of components for `normalize_lexically`: `.` is skipped, `..`
/// removes the last kept component and fails when none is left.
pub open spec fn norm_fold(comps: Seq<Seq<char>>, kept: Seq<Seq<char>>) -> Option<Seq<Seq<char>>>
    decreases comps.len(),
{
    if comps.len() == 0 {
        Some(kept)
    } else {
        let c = comps[0];
        if c == dot() {
            norm_fold(comps.skip(1), kept)
        } else if c == dotdot() {
            if kept.len() == 0 {
                None
            } else {
                norm_fold(comps.skip(1), kept.drop_last())
            }
        } else {
            norm_fold(comps.skip(1), kept.push(c))
        }
    }
}

/// `Path::normalize_lexically`: `None` when a `..` would climb above the
/// start (the root, the prefix, a leading `.`, or the beginning of a relative path).
pub open spec fn normalize_spec(s: Seq<char>) -> Option<Seq<char>> {
    let comps = components(s);
    let root = has_root(s);
    let prefix = prefix_of(s);
    if prefix.len() == 0 && !root && comps.len() > 0 && comps[0] == dotdot() {
        None
    } else if prefix.len() == 0 && !root && comps.len() > 0 && comps[0] == dot() {
        match norm_fold(comps.skip(1), Seq::empty()) {
            Some(k) => Some(render(prefix, root, seq![dot()] + k)),
            None => None,
        }
    } else {
        match norm_fold(comps, Seq::empty()) {
            Some(k) => Some(render(prefix, root, k)),
            None => None,
        }
    }
}

/// `Path::file_name`: the last component when it is a normal one.
pub open spec fn file_name_spec(s: Seq<char>) -> Option<Seq<char>> {
    let c = components(s);
    if c.len() > 0 && c.last() != dot() && c.last() != dotdot() {
        Some(c.last())
    } else {
        None
    }
}

/// Index of the last `.` in `s`, if any.
pub open spec fn last_dot(s: Seq<char>) -> Option<int>
    decreases s.len(),
{
    if s.len() == 0 {
        None
    } else if s.last() == '.' {
        Some(s.len() - 1)
    } else {
        last_dot(s.drop_last())
    }
}

/// `Path::file_stem`: the file name up to its last `.` (a leading `.` does
/// not start an extension).
pub open spec fn file_stem_spec(s: Seq<char>) -> Option<Seq<char>> {
    match file_name_spec(s) {
        None => None,
        Some(n) => match last_dot(n) {
            Some(k) => if k == 0 {
                Some(n)
            } else {
                Some(n.take(k))
            },
            None => Some(n),
        },
    }
}

/// `Path::extension`: the file name after its last `.`.
pub open spec fn extension_spec(s: Seq<char>) -> Option<Seq<char>> {
    match file_name_spec(s) {
        None => None,
        Some(n) => match last_dot(n) {
            Some(k) => if k == 0 {
                None
            } else {
                Some(n.skip(k + 1))
            },
            None => None,
        },
    }
}

/// `Path::parent`, written out from the remaining components.
pub open spec fn parent_spec(s: Seq<char>) -> Option<Seq<char>> {
    let c = components(s);
    if c.len() == 0 {
        None
    } else {
        Some(render(prefix_of(s), has_root(s), c.drop_last()))
    }
}

/// The parts of a path: prefix length, root flag and components.
pub struct PathParts {
    pub prefix: String,
    pub root: bool,
    pub comps: Vec<String>,
}

fn is_dot(s: &String) -> (r: bool)
    ensures
        r == (s@ == dot()),
{
    let v = chars_of(s.as_str());
    let r = v.len() == 1 && v[0] == '.';
    assert(r ==> v@ =~= dot());
    r
}

fn is_dotdot(s: &String) -> (r: bool)
    ensures
        r == (s@ == dotdot()),
{
    let v = chars_of(s.as_str());
    let r = v.len() == 2 && v[0] == '.' && v[1] == '.';
    assert(r ==> v@ =~= dotdot());
    r
}

proof fn lemma_filter_push(s: Seq<Seq<char>>, x: Seq<char>)
    ensures
        s.push(x).filter(|p: Seq<char>| keep_piece(p)) == if keep_piece(x) {
            s.filter(|p: Seq<char>| keep_piece(p)).push(x)
        } else {
            s.filter(|p: Seq<char>| keep_piece(p))
        },
{
    reveal_with_fuel(Seq::filter, 1);
    assert(s.push(x).drop_last() =~= s);
}

/// Splits a path into prefix, root flag and components (see [`components`]).
pub fn path_parts(s: &str) -> (r: PathParts)
    ensures
        r.prefix@ == prefix_of(s@),
        r.root == has_root(s@),
        seq_of_strings(r.comps@) == components(s@),
{
    let v = chars_of(s);
    let plen: usize = if v.len() >= 2 && ascii_alpha(v[0]) && v[1] == ':' {
        2
    } else {
        0
    };
    let root = v.len() > plen && (v[plen] == '/' || v[plen] == '\\');
    let start = if root {
        plen + 1
    } else {
        plen
    };
    let prefix = string_of_range(&v, 0, plen);
    assert(v@.subrange(0, plen as int) =~= v@.take(plen as int));
    let rest = string_of_range(&v, start, v.len());
    assert(v@.subrange(start as int, v.len() as int) =~= body(v@));
    let sepv: Vec<char> = vec!['/', '\\'];
    assert(sepv@ =~= seps());
    let pieces = split_str(rest.as_str(), &sepv);
    let ghost ps = seq_of_strings(pieces@);
    let mut comps: Vec<String> = Vec::new();
    let mut i: usize = 0;
    while i < pieces.len()
        invariant
            i <= pieces.len(),
            ps == seq_of_strings(pieces@),
            i > 0 ==> seq_of_strings(comps@) == comps_of(ps.take(i as int), root),
            i == 0 ==> comps@.len() == 0,
        decreases pieces.len() - i,
    {
        let p = &pieces[i];
        let ghost pv = p@;
        assert(ps[i as int] == pv);
        let keep = if i == 0 && !root && is_dot(p) {
            true
        } else {
            p.as_str().unicode_len() > 0 && !is_dot(p)
        };
        let ghost before = seq_of_strings(comps@);
        if keep {
            comps.push(p.clone());
        }
        proof {
            let t = ps.take(i + 1);
            if i == 0 {
                assert(t[0] == pv);
                assert(t.skip(1) =~= Seq::<Seq<char>>::empty());
                assert(Seq::<Seq<char>>::empty().filter(|p: Seq<char>| keep_piece(p)) =~= Seq::<
                    Seq<char>,
                >::empty()) by {
                    reveal_with_fuel(Seq::filter, 1);
                }
                assert(seq_of_strings(comps@) =~= comps_of(t, root));
            } else {
                let prev = ps.take(i as int);
                assert(keep == keep_piece(pv));
                if keep {
                    assert(seq_of_strings(comps@) =~= before.push(pv));
                } else {
                    assert(seq_of_strings(comps@) =~= before);
                }
                assert(prev[0] == t[0]);
                assert(t.skip(1) =~= prev.skip(1).push(pv));
                lemma_filter_push(prev.skip(1), pv);
                assert(seq_of_strings(comps@) =~= comps_of(t, root));
            }
        }
        i += 1;
    }
    proof {
        assert(ps.take(pieces.len() as int) =~= ps);
    }
    PathParts { prefix, root, comps }
}

/// Writes a path from its parts (see [`render`]).
pub fn render_parts(prefix: &String, root: bool, comps: &Vec<String>) -> (r: String)
    ensures
        r@ == render(prefix@, root, seq_of_strings(comps@)),
{
    let mut out = prefix.clone();
    if root {
        push_str(&mut out, "\\");
        proof {
            reveal_strlit("\\");
        }
        assert("\\"@ =~= backslash());
    } else {
        assert(out@ =~= prefix@ + Seq::<char>::empty());
    }
    let joined = join_strings(comps, "\\");
    proof {
        reveal_strlit("\\");
        assert("\\"@ =~= backslash());
    }
    push_str(&mut out, joined.as_str());
    out
}

/// `Path::is_absolute` (Windows rules).
pub fn is_absolute(s: &str) -> (r: bool)
    ensures
        r == is_absolute_spec(s@),
{
    let p = path_parts(s);
    let pv = chars_of(p.prefix.as_str());
    pv.len() > 0 && p.root
}

/// `base.join(rel)` (see [`join_spec`]).
pub fn join_path(base: &str, rel: &str) -> (r: String)
    ensures
        r@ == join_spec(base@, rel@),
{
    let rp = path_parts(rel);
    let rpv = chars_of(rp.prefix.as_str());
    if rpv.len() > 0 {
        return string_of(&chars_of(rel));
    }
    let bv = chars_of(base);
    if rp.root {
        let bp = path_parts(base);
        let mut out = bp.prefix.clone();
        push_str(&mut out, rel);
        return out;
    }
    let bplen: usize = if bv.len() >= 2 && ascii_alpha(bv[0]) && bv[1] == ':' {
        2
    } else {
        0
    };
    let mut out = string_of(&bv);
    if bv.len() > 0 && !(bv[bv.len() - 1] == '/' || bv[bv.len() - 1] == '\\') && !(bplen > 0
        && bplen == bv.len()) {
        push_str(&mut out, "\\");
        proof {
            reveal_strlit("\\");
            assert("\\"@ =~= backslash());
        }
    }
    push_str(&mut out, rel);
    out
}

/// `Path::normalize_lexically` (see [`normalize_spec`]).
pub fn normalize_lexically(s: &str) -> (r: Option<String>)
    ensures
        r matches Some(n) ==> normalize_spec(s@) == Some(n@),
        r is None ==> normalize_spec(s@) is None,
{
    let p = path_parts(s);
    let pv = chars_of(p.prefix.as_str());
    let ghost comps = seq_of_strings(p.comps@);
    let n = p.comps.len();
    let mut start: usize = 0;
    let mut kept: Vec<String> = Vec::new();
    if pv.len() == 0 && !p.root && n > 0 {
        if is_dotdot(&p.comps[0]) {
            return None;
        }
        if is_dot(&p.comps[0]) {
            kept.push(p.comps[0].clone());
            start = 1;
        }
    }
    let ghost base = seq_of_strings(kept@);
    assert(base.skip(start as int) =~= Seq::<Seq<char>>::empty());
    assert(base.take(start as int) =~= base);
    let ghost target = norm_fold(comps.skip(start as int), Seq::empty());
    proof {
        if start == 1 {
            assert(comps[0] == dot());
        } else {
            assert(comps.skip(0) =~= comps);
        }
    }
    assert(normalize_spec(s@) == match target {
        Some(k) => Some(render(p.prefix@, p.root, base + k)),
        None => None,
    }) by {
        if start == 1 {
            assert(base =~= seq![dot()]);
        } else {
            assert(base =~= Seq::<Seq<char>>::empty());
            if let Some(k) = target {
                assert(base + k =~= k);
            }
        }
    }
    let mut i = start;
    while i < n
        invariant
            start <= i <= n == p.comps@.len(),
            comps == seq_of_strings(p.comps@),
            base.len() == start,
            base == seq_of_strings(kept@).take(start as int),
            kept@.len() >= start,
            target == norm_fold(comps.skip(start as int), Seq::empty()),
            normalize_spec(s@) == match target {
                Some(k) => Some(render(p.prefix@, p.root, base + k)),
                None => None,
            },
            norm_fold(comps.skip(start as int), Seq::empty()) matches Some(res) ==> norm_fold(
                comps.skip(i as int),
                seq_of_strings(kept@).skip(start as int),
            ) == Some(res),
            norm_fold(comps.skip(start as int), Seq::empty()) is None ==> norm_fold(
                comps.skip(i as int),
                seq_of_strings(kept@).skip(start as int),
            ) is None,
        decreases n - i,
    {
        let c = &p.comps[i];
        assert(comps.skip(i as int)[0] == c@);
        assert(comps.skip(i as int).skip(1) =~= comps.skip(i + 1));
        let ghost k0 = seq_of_strings(kept@);
        if is_dot(c) {
        } else if is_dotdot(c) {
            if kept.len() == start {
                assert(k0.skip(start as int) =~= Seq::<Seq<char>>::empty());
                return None;
            }
            kept.pop();
            assert(seq_of_strings(kept@).skip(start as int) =~= k0.skip(start as int).drop_last());
        } else {
            kept.push(c.clone());
            assert(seq_of_strings(kept@).skip(start as int) =~= k0.skip(start as int).push(c@));
        }
        assert(seq_of_strings(kept@).take(start as int) =~= k0.take(start as int));
        i += 1;
    }
    proof {
        assert(comps.skip(n as int) =~= Seq::<Seq<char>>::empty());
        let kv = seq_of_strings(kept@);
        assert(kv =~= base + kv.skip(start as int));
    }
    Some(render_parts(&p.prefix, p.root, &kept))
}

/// `Path::file_name` (see [`file_name_spec`]).
pub fn file_name(s: &str) -> (r: Option<String>)
    ensures
        r matches Some(n) ==> file_name_spec(s@) == Some(n@),
        r is None ==> file_name_spec(s@) is None,
{
    let p = path_parts(s);
    let n = p.comps.len();
    if n == 0 {
        return None;
    }
    let last = &p.comps[n - 1];
    assert(seq_of_strings(p.comps@).last() == last@);
    if is_dot(last) || is_dotdot(last) {
        None
    } else {
        Some(last.clone())
    }
}

fn last_dot_index(v: &Vec<char>) -> (r: Option<usize>)
    ensures
        r matches Some(k) ==> last_dot(v@) == Some(k as int) && k < v.len(),
        r is None ==> last_dot(v@) is None,
{
    let mut i = v.len();
    assert(v@.take(i as int) =~= v@);
    while i > 0
        invariant
            i <= v.len(),
            last_dot(v@) == last_dot(v@.take(i as int)),
        decreases i,
    {
        assert(v@.take(i as int).drop_last() =~= v@.take(i - 1));
        if v[i - 1] == '.' {
            return Some(i - 1);
        }
        i -= 1;
    }
    None
}

/// `Path::file_stem` (see [`file_stem_spec`]).
pub fn file_stem(s: &str) -> (r: Option<String>)
    ensures
        r matches Some(n) ==> file_stem_spec(s@) == Some(n@),
        r is None ==> file_stem_spec(s@) is None,
{
    match file_name(s) {
        None => None,
        Some(name) => {
            let v = chars_of(name.as_str());
            match last_dot_index(&v) {
                Some(k) => {
                    if k == 0 {
                        Some(name)
                    } else {
                        assert(v@.subrange(0, k as int) =~= v@.take(k as int));
                        Some(string_of_range(&v, 0, k))
                    }
                },
                None => Some(name),
            }
        },
    }
}

/// `Path::extension` (see [`extension_spec`]).
pub fn extension(s: &str) -> (r: Option<String>)
    ensures
        r matches Some(n) ==> extension_spec(s@) == Some(n@),
        r is None ==> extension_spec(s@) is None,
{
    match file_name(s) {
        None => None,
        Some(name) => {
            let v = chars_of(name.as_str());
            match last_dot_index(&v) {
                Some(k) => {
                    if k == 0 {
                        None
                    } else {
                        assert(v@.subrange(k + 1, v@.len() as int) =~= v@.skip(k + 1));
                        Some(string_of_range(&v, k + 1, v.len()))
                    }
                },
                None => None,
            }
        },
    }
}

/// `Path::parent` (see [`parent_spec`]).
pub fn parent(s: &str) -> (r: Option<String>)
    ensures
        r matches Some(n) ==> parent_spec(s@) == Some(n@),
        r is None ==> parent_spec(s@) is None,
{
    let mut p = path_parts(s);
    if p.comps.len() == 0 {
        return None;
    }
    let ghost before = seq_of_strings(p.comps@);
    p.comps.pop();
    assert(seq_of_strings(p.comps@) =~= before.drop_last());
    Some(render_parts(&p.prefix, p.root, &p.comps))
}

/// Path equality by components (see [`path_eq_spec`]).
pub fn path_eq(a: &str, b: &str) -> (r: bool)
    ensures
        r == path_eq_spec(a@, b@),
{
    let pa = path_parts(a);
    let pb = path_parts(b);
    let xa = chars_of(pa.prefix.as_str());
    let xb = chars_of(pb.prefix.as_str());
    let prefix_same = if xa.len() != xb.len() {
        false
    } else if xa.len() == 0 {
        true
    } else {
        xa.len() == 2 && upper(xa[0]) == upper(xb[0])
    };
    if !prefix_same || pa.root != pb.root {
        return false;
    }
    if pa.comps.len() != pb.comps.len() {
        assert(seq_of_strings(pa.comps@).len() != seq_of_strings(pb.comps@).len());
        return false;
    }
    let mut i: usize = 0;
    while i < pa.comps.len()
        invariant
            i <= pa.comps.len() == pb.comps.len(),
            seq_of_strings(pa.comps@) == components(a@),
            seq_of_strings(pb.comps@) == components(b@),
            forall|j: int| 0 <= j < i ==> pa.comps@[j]@ == pb.comps@[j]@,
        decreases pa.comps.len() - i,
    {
        if !str_eq(pa.comps[i].as_str(), pb.comps[i].as_str()) {
            assert(seq_of_strings(pa.comps@)[i as int] != seq_of_strings(pb.comps@)[i as int]);
            return false;
        }
        i += 1;
    }
    assert(seq_of_strings(pa.comps@) =~= seq_of_strings(pb.comps@));
    true
}

pub(crate) fn upper(c: char) -> (r: char)
    ensures
        r == ascii_upper(c),
{
    if 'a' <= c && c <= 'z' {
        (((c as u32) - 32) as u8) as char
    } else {
        c
    }
}

} // verus!
