//! The glue of the build-graph generator: which libraries a project links,
//! the names of the generated files, and the ordering of header lists.
use vstd::prelude::*;
use crate::sln::{ProjectConfigurationPlatform, Sln};
use crate::flags::Flags;
use crate::ninja::{FinalStep, NinjaFile, char_is_alphanumeric, is_alphanumeric};
use crate::paths::{native_to_ninja, to_ninja_path_spec};
use crate::sln::{ProjectView, deps_of};
use crate::vcproj::{Configuration, VCProject};
use crate::winpath::{extension, extension_spec};
use crate::text::{chars_of, dec, digit_char, push_char, push_str, seq_of_strings, str_eq, string_of, usize_to_string};

verus! {

/// `d` taken into `visited` leaves one fewer of `dom` to visit, or as many
/// where `d` is not in `dom`.
pub proof fn lemma_visit(dom: Set<u128>, visited: Set<u128>, d: u128)
    requires
        dom.finite(),
        !visited.contains(d),
    ensures
        dom.difference(visited.insert(d)).finite(),
        dom.contains(d) ==> dom.difference(visited.insert(d)).len() < dom.difference(visited).len(),
        !dom.contains(d) ==> dom.difference(visited.insert(d)) == dom.difference(visited),
{
    vstd::set::axiom_set_difference_finite(dom, visited);
    vstd::set::axiom_set_difference_finite(dom, visited.insert(d));
    if dom.contains(d) {
        assert(dom.difference(visited.insert(d)) =~= dom.difference(visited).remove(d));
        vstd::set::axiom_set_remove_len(dom.difference(visited), d);
    } else {
        assert(dom.difference(visited.insert(d)) =~= dom.difference(visited));
    }
}

/// The libraries met by a depth-first walk over project dependencies, in
/// file order: the GUIDs on `stack` are taken from its end; one not yet
/// `visited` is marked, gives its output where it has one, and, where it is
/// a static library with dependencies, those go on the stack (so the first
/// of them is taken next). Dependencies of DLLs and programs are not
/// followed: those link their own libraries.
pub open spec fn lib_walk(
    deps: Map<u128, Seq<u128>>,
    outputs: Map<u128, Seq<char>>,
    is_lib: Map<u128, bool>,
    visited: Set<u128>,
    stack: Seq<u128>,
) -> (Set<u128>, Seq<Seq<char>>)
    decreases deps.dom().difference(visited).len(), stack.len(),
    when deps.dom().finite()
{
    if stack.len() == 0 {
        (visited, Seq::empty())
    } else {
        let d = stack.last();
        let rest = stack.drop_last();
        if visited.contains(d) {
            lib_walk(deps, outputs, is_lib, visited, rest)
        } else {
            proof {
                lemma_visit(deps.dom(), visited, d);
            }
            let out = if outputs.contains_key(d) {
                seq![outputs[d]]
            } else {
                Seq::empty()
            };
            let more = if is_lib.contains_key(d) && is_lib[d] && deps.contains_key(d) {
                deps[d].reverse()
            } else {
                Seq::empty()
            };
            let (v, o) = lib_walk(deps, outputs, is_lib, visited.insert(d), rest + more);
            (v, out + o)
        }
    }
}

pub open spec fn deps_view(m: Map<u128, Vec<u128>>) -> Map<u128, Seq<u128>> {
    m.map_values(|v: Vec<u128>| v@)
}

pub open spec fn outputs_view(m: Map<u128, String>) -> Map<u128, Seq<char>> {
    m.map_values(|s: String| s@)
}

/// What [`collect_transitive_deps`] starts from: the dependencies of `guid`,
/// the first on top.
pub open spec fn walk_start(deps: Map<u128, Seq<u128>>, guid: u128) -> Seq<u128> {
    if deps.contains_key(guid) {
        deps[guid].reverse()
    } else {
        Seq::empty()
    }
}

/// Adds to `result` the outputs of the projects that `guid` depends on,
/// directly or through static libraries, each once (see [`lib_walk`]);
/// `visited` holds the GUIDs already met.
pub fn collect_transitive_deps(
    guid: u128,
    sln_projects: &std::collections::HashMap<u128, Vec<u128>>,
    guid_to_link_output: &std::collections::HashMap<u128, String>,
    guid_to_is_static_lib: &std::collections::HashMap<u128, bool>,
    visited: &mut std::collections::HashSet<u128>,
    result: &mut Vec<String>,
)
    ensures
        ({
            let (v, o) = lib_walk(
                deps_view(sln_projects@),
                outputs_view(guid_to_link_output@),
                guid_to_is_static_lib@,
                old(visited)@,
                walk_start(deps_view(sln_projects@), guid),
            );
            &&& final(visited)@ == v
            &&& final(result)@.map_values(|s: String| s@) == old(result)@.map_values(|s: String| s@) + o
        }),
{
    broadcast use vstd::std_specs::hash::group_hash_axioms;
    let ghost d = deps_view(sln_projects@);
    let ghost o = outputs_view(guid_to_link_output@);
    let ghost l = guid_to_is_static_lib@;
    let ghost start = walk_start(d, guid);
    let ghost whole = lib_walk(d, o, l, old(visited)@, start);
    let ghost base = old(result)@.map_values(|s: String| s@);
    let mut stack: Vec<u128> = Vec::new();
    match sln_projects.get(&guid) {
        Some(ds) => {
            let mut k = ds.len();
            while k > 0
                invariant
                    k <= ds.len(),
                    stack@ == ds@.subrange(k as int, ds@.len() as int).reverse(),
                decreases k,
            {
                k -= 1;
                stack.push(ds[k]);
                assert(stack@ =~= ds@.subrange(k as int, ds@.len() as int).reverse());
            }
            assert(ds@.subrange(0, ds@.len() as int) =~= ds@);
        },
        None => {},
    }
    assert(stack@ == start);
    assert(sln_projects@.dom().finite());
    assert(d.dom() =~= sln_projects@.dom());
    assert(result@.map_values(|s: String| s@) + whole.1 =~= base + whole.1);
    while stack.len() > 0
        invariant
            d == deps_view(sln_projects@),
            o == outputs_view(guid_to_link_output@),
            l == guid_to_is_static_lib@,
            d.dom().finite(),
            whole.0 == lib_walk(d, o, l, visited@, stack@).0,
            base + whole.1 == result@.map_values(|s: String| s@) + lib_walk(d, o, l, visited@, stack@).1,
        decreases d.dom().difference(visited@).len(), stack.len(),
    {
        let ghost before_v = visited@;
        let ghost before_s = stack@;
        let ghost before_r = result@.map_values(|s: String| s@);
        let dep = stack.pop().unwrap();
        assert(stack@ =~= before_s.drop_last());
        let ghost more = if l.contains_key(dep) && l[dep] && d.contains_key(dep) {
            d[dep].reverse()
        } else {
            Seq::<u128>::empty()
        };
        if visited.insert(dep) {
            proof {
                lemma_visit(d.dom(), before_v, dep);
            }
            match guid_to_link_output.get(&dep) {
                Some(out) => {
                    result.push(out.clone());
                },
                None => {},
            }
            let is_static_lib = match guid_to_is_static_lib.get(&dep) {
                Some(b) => *b,
                None => false,
            };
            if is_static_lib {
                match sln_projects.get(&dep) {
                    Some(ds) => {
                        let ghost s0 = stack@;
                        let mut k = ds.len();
                        while k > 0
                            invariant
                                k <= ds.len(),
                                stack@ == s0 + ds@.subrange(k as int, ds@.len() as int).reverse(),
                            decreases k,
                        {
                            k -= 1;
                            stack.push(ds[k]);
                            assert(stack@ =~= s0 + ds@.subrange(k as int, ds@.len() as int).reverse());
                        }
                        assert(ds@.subrange(0, ds@.len() as int) =~= ds@);
                        assert(d[dep] == ds@);
                    },
                    None => {
                        assert(stack@ =~= stack@ + Seq::<u128>::empty());
                    },
                }
            } else {
                assert(stack@ =~= stack@ + Seq::<u128>::empty());
            }
            assert(stack@ =~= before_s.drop_last() + more);
            let ghost step_out = if o.contains_key(dep) {
                seq![o[dep]]
            } else {
                Seq::<Seq<char>>::empty()
            };
            assert(result@.map_values(|s: String| s@) =~= before_r + step_out);
            assert(lib_walk(d, o, l, before_v, before_s).1 == step_out + lib_walk(d, o, l, visited@, stack@).1);
            assert(before_r + (step_out + lib_walk(d, o, l, visited@, stack@).1) =~= (before_r + step_out)
                + lib_walk(d, o, l, visited@, stack@).1);
        } else {
            assert(visited@ =~= before_v);
            assert(lib_walk(d, o, l, before_v, before_s) == lib_walk(d, o, l, visited@, stack@));
        }
    }
    assert(result@.map_values(|s: String| s@) + Seq::<Seq<char>>::empty() =~= result@.map_values(|s: String| s@));
}

/// Law: the walk only adds to what was visited, and gives at most one
/// output for each project it visits for the first time (no library is
/// linked twice through it).
pub proof fn lemma_lib_walk_once(
    deps: Map<u128, Seq<u128>>,
    outputs: Map<u128, Seq<char>>,
    is_lib: Map<u128, bool>,
    visited: Set<u128>,
    stack: Seq<u128>,
)
    requires
        deps.dom().finite(),
        visited.finite(),
    ensures
        ({
            let (v, o) = lib_walk(deps, outputs, is_lib, visited, stack);
            &&& visited.subset_of(v)
            &&& v.finite()
            &&& o.len() <= v.len() - visited.len()
        }),
    decreases deps.dom().difference(visited).len(), stack.len(),
{
    if stack.len() > 0 {
        let d = stack.last();
        let rest = stack.drop_last();
        if visited.contains(d) {
            lemma_lib_walk_once(deps, outputs, is_lib, visited, rest);
        } else {
            lemma_visit(deps.dom(), visited, d);
            let more = if is_lib.contains_key(d) && is_lib[d] && deps.contains_key(d) {
                deps[d].reverse()
            } else {
                Seq::empty()
            };
            lemma_lib_walk_once(deps, outputs, is_lib, visited.insert(d), rest + more);
            vstd::set::axiom_set_insert_len(visited, d);
        }
    }
}

//
// File names
//

/// A character kept in a file name: alphanumeric, `-` or `.`; others
/// become `_`.
pub open spec fn stem_char(c: char) -> char {
    if char_is_alphanumeric(c) || c == '-' || c == '.' {
        c
    } else {
        '_'
    }
}

pub open spec fn stem_spec(base: Seq<char>) -> Seq<char> {
    base.map_values(|c: char| stem_char(c))
}

/// The `n`-th alternative of a name: `name_n`.
pub open spec fn numbered(b: Seq<char>, n: nat) -> Seq<char> {
    b + seq!['_'] + dec(n)
}

pub proof fn lemma_dec_injective(a: nat, b: nat)
    requires
        dec(a) == dec(b),
    ensures
        a == b,
    decreases a + b,
{
    if a < 10 && b < 10 {
        assert(dec(a)[0] == digit_char(a));
        assert(dec(b)[0] == digit_char(b));
    } else if a >= 10 && b >= 10 {
        assert(dec(a).drop_last() =~= dec(a / 10));
        assert(dec(b).drop_last() =~= dec(b / 10));
        assert(dec(a).last() == digit_char(a % 10));
        assert(dec(b).last() == digit_char(b % 10));
        lemma_dec_injective(a / 10, b / 10);
    } else if a < 10 {
        assert(dec(b / 10).len() >= 1);
        assert(dec(b).len() >= 2);
    } else {
        assert(dec(a / 10).len() >= 1);
        assert(dec(a).len() >= 2);
    }
}

pub proof fn lemma_numbered_injective(b: Seq<char>, x: nat, y: nat)
    requires
        numbered(b, x) == numbered(b, y),
    ensures
        x == y,
{
    assert(numbered(b, x).skip(b.len() as int + 1) =~= dec(x));
    assert(numbered(b, y).skip(b.len() as int + 1) =~= dec(y));
    lemma_dec_injective(x, y);
}

/// The alternatives `2..n` of a name.
pub open spec fn numbered_upto(b: Seq<char>, n: nat) -> Set<Seq<char>>
    decreases n,
{
    if n <= 2 {
        Set::empty()
    } else {
        numbered_upto(b, (n - 1) as nat).insert(numbered(b, (n - 1) as nat))
    }
}

pub proof fn lemma_numbered_upto(b: Seq<char>, n: nat)
    ensures
        numbered_upto(b, n).finite(),
        n >= 2 ==> numbered_upto(b, n).len() == n - 2,
        forall|k: nat| 2 <= k < n <==> #[trigger] numbered_upto(b, n).contains(numbered(b, k)),
        forall|x: Seq<char>| #[trigger] numbered_upto(b, n).contains(x) ==> exists|k: nat| 2 <= k < n && x == numbered(b, k),
    decreases n,
{
    if n > 2 {
        lemma_numbered_upto(b, (n - 1) as nat);
        assert forall|x: Seq<char>| #[trigger] numbered_upto(b, n).contains(x) implies exists|k: nat| 2 <= k < n && x == numbered(b, k) by {
            if x == numbered(b, (n - 1) as nat) {
                assert(2 <= (n - 1) as nat && x == numbered(b, (n - 1) as nat));
            } else {
                assert(numbered_upto(b, (n - 1) as nat).contains(x));
            }
        }
        assert forall|k: nat| 2 <= k < n <==> #[trigger] numbered_upto(b, n).contains(numbered(b, k)) by {
            if numbered_upto(b, n).contains(numbered(b, k)) && numbered(b, k) == numbered(b, (n - 1) as nat) {
                lemma_numbered_injective(b, k, (n - 1) as nat);
            }
        }
        if numbered_upto(b, (n - 1) as nat).contains(numbered(b, (n - 1) as nat)) {
            assert(false);
        }
    }
}

/// `b` with the characters that a file name cannot take replaced.
fn stem_of(base: &str) -> (r: String)
    ensures
        r@ == stem_spec(base@),
{
    let v = chars_of(base);
    let mut out = String::new();
    let mut i: usize = 0;
    while i < v.len()
        invariant
            i <= v.len(),
            v@ == base@,
            out@ == stem_spec(base@).take(i as int),
        decreases v.len() - i,
    {
        let c = v[i];
        let k = if is_alphanumeric(c) || c == '-' || c == '.' {
            c
        } else {
            '_'
        };
        push_char(&mut out, k);
        assert(stem_spec(base@).take(i + 1) =~= stem_spec(base@).take(i as int).push(k));
        i += 1;
    }
    assert(stem_spec(base@).take(v.len() as int) =~= stem_spec(base@));
    out
}

fn used_contains(used: &Vec<String>, x: &str) -> (r: bool)
    ensures
        r == seq_of_strings(used@).contains(x@),
{
    let mut k: usize = 0;
    while k < used.len()
        invariant
            k <= used.len(),
            forall|j: int| 0 <= j < k ==> used@[j]@ != x@,
        decreases used.len() - k,
    {
        if str_eq(used[k].as_str(), x) {
            assert(seq_of_strings(used@)[k as int] == x@);
            return true;
        }
        k += 1;
    }
    assert forall|j: int| 0 <= j < used@.len() implies seq_of_strings(used@)[j] != x@ by {
        assert(seq_of_strings(used@)[j] == used@[j]@);
    }
    false
}

/// A file name for `base` not in `used` (which it is then added to): the
/// name with its odd characters replaced, or else the first free of
/// `name_2`, `name_3`, ...
pub fn unique_stem(used: &mut Vec<String>, base: &str) -> (r: String)
    requires
        old(used)@.len() < usize::MAX - 2,
    ensures
        !seq_of_strings(old(used)@).contains(r@),
        seq_of_strings(final(used)@) == seq_of_strings(old(used)@).push(r@),
        !seq_of_strings(old(used)@).contains(stem_spec(base@)) ==> r@ == stem_spec(base@),
        seq_of_strings(old(used)@).contains(stem_spec(base@)) ==> exists|n: nat|
            2 <= n && r@ == numbered(stem_spec(base@), n) && forall|k: nat|
                2 <= k < n ==> seq_of_strings(old(used)@).contains(#[trigger] numbered(stem_spec(base@), k)),
{
    let b = stem_of(base);
    let ghost u = seq_of_strings(used@);
    if !used_contains(used, b.as_str()) {
        used.push(b.clone());
        assert(seq_of_strings(used@) =~= u.push(b@));
        return b;
    }
    let mut n: usize = 2;
    proof {
        lemma_numbered_upto(b@, 2);
    }
    loop
        invariant
            2 <= n <= used@.len() + 1,
            u == seq_of_strings(used@),
            u == seq_of_strings(old(used)@),
            used@.len() < usize::MAX - 2,
            b@ == stem_spec(base@),
            u.contains(b@),
            forall|k: nat| 2 <= k < n ==> u.contains(#[trigger] numbered(b@, k)),
        decreases used@.len() + 2 - n,
    {
        let mut cand = b.clone();
        push_char(&mut cand, '_');
        let digits = usize_to_string(n);
        push_str(&mut cand, digits.as_str());
        assert(cand@ =~= numbered(b@, n as nat));
        if !used_contains(used, cand.as_str()) {
            used.push(cand.clone());
            assert(seq_of_strings(used@) =~= u.push(cand@));
            return cand;
        }
        proof {
            lemma_numbered_upto(b@, (n + 1) as nat);
            let ghost all = numbered_upto(b@, (n + 1) as nat).insert(b@);
            if numbered_upto(b@, (n + 1) as nat).contains(b@) {
                let ghost k = choose|k: nat| 2 <= k < n + 1 && b@ == numbered(b@, k);
                assert(numbered(b@, k).len() > b@.len());
            }
            assert(all.subset_of(u.to_set())) by {
                assert forall|x: Seq<char>| #[trigger] all.contains(x) implies u.to_set().contains(x) by {
                    if x != b@ {
                        let ghost k = choose|k: nat| 2 <= k < n + 1 && x == numbered(b@, k);
                        assert(u.contains(numbered(b@, k)));
                    }
                }
            }
            vstd::set_lib::lemma_len_subset(all, u.to_set());
            u.lemma_cardinality_of_set();
        }
        n += 1;
    }
}

//
// Sorted lists of names
//

/// `a` comes before `b`: the order of `String`, character by character
/// (UTF-8 byte order is code point order).
pub open spec fn lex_lt(a: Seq<char>, b: Seq<char>) -> bool
    decreases a.len(),
{
    if a.len() == 0 {
        b.len() > 0
    } else if b.len() == 0 {
        false
    } else if a[0] != b[0] {
        (a[0] as int) < (b[0] as int)
    } else {
        lex_lt(a.skip(1), b.skip(1))
    }
}

pub proof fn lemma_lex_total(a: Seq<char>, b: Seq<char>)
    ensures
        a == b || lex_lt(a, b) || lex_lt(b, a),
        !(lex_lt(a, b) && lex_lt(b, a)),
        !lex_lt(a, a),
    decreases a.len(),
{
    if a.len() > 0 && b.len() > 0 && a[0] != b[0] {
        assert((a[0] as int) != (b[0] as int));
    }
    if a.len() > 0 && b.len() > 0 && a[0] == b[0] {
        lemma_lex_total(a.skip(1), b.skip(1));
        if a.skip(1) == b.skip(1) {
            assert(a =~= seq![a[0]] + a.skip(1));
            assert(b =~= seq![b[0]] + b.skip(1));
        }
    }
    if a.len() > 0 {
        lemma_lex_total(a.skip(1), a.skip(1));
    }
    if a.len() == 0 && b.len() == 0 {
        assert(a =~= b);
    }
}

pub proof fn lemma_lex_trans(a: Seq<char>, b: Seq<char>, c: Seq<char>)
    requires
        lex_lt(a, b),
        lex_lt(b, c),
    ensures
        lex_lt(a, c),
    decreases a.len(),
{
    if a.len() > 0 && b.len() > 0 && c.len() > 0 && a[0] == b[0] && b[0] == c[0] {
        lemma_lex_trans(a.skip(1), b.skip(1), c.skip(1));
    }
}

fn lex_lt_exec(a: &str, b: &str) -> (r: bool)
    ensures
        r == lex_lt(a@, b@),
{
    let x = chars_of(a);
    let y = chars_of(b);
    assert(x@.skip(0) =~= x@);
    assert(y@.skip(0) =~= y@);
    let mut k: usize = 0;
    while k < x.len() && k < y.len() && x[k] == y[k]
        invariant
            k <= x.len(),
            k <= y.len(),
            x@ == a@,
            y@ == b@,
            lex_lt(a@, b@) == lex_lt(x@.skip(k as int), y@.skip(k as int)),
        decreases x.len() - k,
    {
        assert(x@.skip(k as int).skip(1) =~= x@.skip(k + 1));
        assert(y@.skip(k as int).skip(1) =~= y@.skip(k + 1));
        k += 1;
    }
    if k == x.len() {
        k < y.len()
    } else if k == y.len() {
        false
    } else {
        assert(x@.skip(k as int)[0] == x@[k as int]);
        assert(y@.skip(k as int)[0] == y@[k as int]);
        x[k] < y[k]
    }
}

pub proof fn lemma_push_to_set(s: Seq<Seq<char>>, x: Seq<char>)
    ensures
        s.push(x).to_set() == s.to_set().insert(x),
{
    assert forall|y: Seq<char>| #[trigger] s.push(x).to_set().contains(y) <==> s.to_set().insert(x).contains(y) by {
        if s.push(x).contains(y) {
            let j = choose|j: int| 0 <= j < s.push(x).len() && s.push(x)[j] == y;
            if j < s.len() {
                assert(s[j] == y);
            }
        }
        if s.contains(y) {
            let j = choose|j: int| 0 <= j < s.len() && s[j] == y;
            assert(s.push(x)[j] == y);
        }
        if y == x {
            assert(s.push(x)[s.len() as int] == y);
        }
    }
    assert(s.push(x).to_set() =~= s.to_set().insert(x));
}

/// Strictly increasing.
pub open spec fn strictly_sorted(v: Seq<Seq<char>>) -> bool {
    forall|i: int, j: int| 0 <= i < j < v.len() ==> lex_lt(#[trigger] v[i], #[trigger] v[j])
}

/// The names in order, each once: `sort` then `dedup`.
pub fn sorted_unique(items: &Vec<String>) -> (r: Vec<String>)
    ensures
        strictly_sorted(seq_of_strings(r@)),
        seq_of_strings(r@).to_set() == seq_of_strings(items@).to_set(),
{
    let mut out: Vec<String> = Vec::new();
    let mut i: usize = 0;
    while i < items.len()
        invariant
            i <= items.len(),
            strictly_sorted(seq_of_strings(out@)),
            seq_of_strings(out@).to_set() == seq_of_strings(items@).take(i as int).to_set(),
        decreases items.len() - i,
    {
        let x = items[i].as_str();
        let ghost o = seq_of_strings(out@);
        let mut k: usize = 0;
        while k < out.len() && lex_lt_exec(out[k].as_str(), x)
            invariant
                k <= out.len(),
                o == seq_of_strings(out@),
                forall|j: int| 0 <= j < k ==> lex_lt(#[trigger] o[j], x@),
            decreases out.len() - k,
        {
            k += 1;
        }
        let ghost before = seq_of_strings(items@).take(i as int);
        assert(seq_of_strings(items@).take(i + 1) =~= before.push(x@));
        if k < out.len() && str_eq(out[k].as_str(), x) {
            assert(o.to_set().contains(x@)) by {
                assert(o[k as int] == x@);
            }
            proof {
                lemma_push_to_set(before, x@);
            }
            assert(before.to_set().insert(x@) =~= before.to_set());
        } else {
            proof {
                if k < out.len() {
                    lemma_lex_total(o[k as int], x@);
                }
            }
            out.insert(k, items[i].clone());
            let ghost n = seq_of_strings(out@);
            assert(n =~= o.insert(k as int, x@));
            assert forall|a: int, b: int| 0 <= a < b < n.len() implies lex_lt(#[trigger] n[a], #[trigger] n[b]) by {
                if b < k {
                } else if b == k {
                } else if a < k {
                    assert(lex_lt(o[a], o[b - 1]));
                } else if a == k {
                    if b - 1 > k {
                        lemma_lex_trans(x@, o[k as int], o[b - 1]);
                    }
                } else {
                }
            }
            proof {
                lemma_push_to_set(before, x@);
            }
            assert(n.to_set() =~= o.to_set().insert(x@)) by {
                assert forall|y: Seq<char>| #[trigger] n.to_set().contains(y) <==> o.to_set().contains(y) || y == x@ by {
                    if n.to_set().contains(y) {
                        let j = choose|j: int| 0 <= j < n.len() && n[j] == y;
                        if j < k {
                            assert(o[j] == y);
                        } else if j > k {
                            assert(o[j - 1] == y);
                        }
                    }
                    if o.to_set().contains(y) {
                        let j = choose|j: int| 0 <= j < o.len() && o[j] == y;
                        if j < k {
                            assert(n[j] == y);
                        } else {
                            assert(n[j + 1] == y);
                        }
                    }
                    if y == x@ {
                        assert(n[k as int] == y);
                    }
                }
            }
        }
        i += 1;
    }
    assert(seq_of_strings(items@).take(items.len() as int) =~= seq_of_strings(items@));
    out
}

/// The header dependencies of a compile step: the headers the scanner found,
/// in build-graph form, sorted, each once.
pub fn header_deps(headers: &Vec<String>, wine: bool) -> (r: Vec<String>)
    ensures
        strictly_sorted(seq_of_strings(r@)),
        seq_of_strings(r@).to_set() == seq_of_strings(headers@).map_values(
            |h: Seq<char>| to_ninja_path_spec(h, wine),
        ).to_set(),
{
    let mut mapped: Vec<String> = Vec::new();
    let mut i: usize = 0;
    while i < headers.len()
        invariant
            i <= headers.len(),
            seq_of_strings(mapped@) == seq_of_strings(headers@).take(i as int).map_values(
                |h: Seq<char>| to_ninja_path_spec(h, wine),
            ),
        decreases headers.len() - i,
    {
        let ghost before = seq_of_strings(mapped@);
        let m = native_to_ninja(headers[i].as_str(), wine);
        mapped.push(m);
        assert(seq_of_strings(mapped@) =~= before.push(m@));
        assert(seq_of_strings(headers@).take(i + 1) =~= seq_of_strings(headers@).take(i as int).push(headers@[i as int]@));
        assert(seq_of_strings(mapped@) =~= seq_of_strings(headers@).take(i + 1).map_values(
            |h: Seq<char>| to_ninja_path_spec(h, wine),
        ));
        i += 1;
    }
    assert(seq_of_strings(headers@).take(headers.len() as int) =~= seq_of_strings(headers@));
    sorted_unique(&mapped)
}

//
// Linking
//

/// What dependents link against: the import library of a DLL link step,
/// else the output file.
pub open spec fn link_output_spec(step: FinalStep) -> Seq<char> {
    match step {
        FinalStep::Link(f) => match f.import_library {
            Some(i) => i@,
            None => f.output_file@,
        },
        FinalStep::Lib(f) => f.output_file@,
    }
}

pub fn link_output(step: &FinalStep) -> (r: String)
    ensures
        r@ == link_output_spec(*step),
{
    match step {
        FinalStep::Link(f) => match &f.import_library {
            Some(i) => i.clone(),
            None => f.output_file.clone(),
        },
        FinalStep::Lib(f) => f.output_file.clone(),
    }
}

/// Each project GUID to its dependencies (the last project with a GUID
/// wins; a project without a dependency section has none).
pub open spec fn project_deps_spec(projs: Seq<ProjectView>) -> Map<u128, Seq<u128>>
    decreases projs.len(),
{
    if projs.len() == 0 {
        Map::empty()
    } else {
        project_deps_spec(projs.drop_last()).insert(projs.last().uuid, deps_of(projs.last()))
    }
}

pub fn project_deps_map(sln: &Sln) -> (r: std::collections::HashMap<u128, Vec<u128>>)
    ensures
        deps_view(r@) == project_deps_spec(sln@.projects),
{
    broadcast use vstd::std_specs::hash::group_hash_axioms;
    let ghost projs = sln@.projects;
    let mut m: std::collections::HashMap<u128, Vec<u128>> = std::collections::HashMap::new();
    assert(deps_view(m@) =~= Map::<u128, Seq<u128>>::empty());
    let mut i: usize = 0;
    while i < sln.projects.len()
        invariant
            i <= sln.projects.len(),
            projs == sln@.projects,
            deps_view(m@) == project_deps_spec(projs.take(i as int)),
        decreases sln.projects.len() - i,
    {
        let p = &sln.projects[i];
        let mut ds: Vec<u128> = Vec::new();
        match &p.section_dependencies {
            Some(sd) => {
                let mut k: usize = 0;
                while k < sd.deps.len()
                    invariant
                        k <= sd.deps.len(),
                        ds@ == crate::sln::deps_view(sd.deps@).take(k as int),
                    decreases sd.deps.len() - k,
                {
                    ds.push(sd.deps[k].uuid);
                    assert(crate::sln::deps_view(sd.deps@).take(k + 1) =~= crate::sln::deps_view(sd.deps@).take(
                        k as int,
                    ).push(sd.deps@[k as int].uuid));
                    k += 1;
                }
                assert(crate::sln::deps_view(sd.deps@).take(sd.deps.len() as int) =~= crate::sln::deps_view(
                    sd.deps@,
                ));
            },
            None => {
                assert(ds@ =~= Seq::<u128>::empty());
            },
        }
        assert(projs[i as int] == p@);
        assert(ds@ == deps_of(projs[i as int]));
        let ghost before = m@;
        m.insert(p.uuid, ds);
        assert(projs.take(i + 1).drop_last() =~= projs.take(i as int));
        assert(deps_view(m@) =~= deps_view(before).insert(projs[i as int].uuid, deps_of(projs[i as int])));
        i += 1;
    }
    assert(projs.take(sln.projects.len() as int) =~= projs);
    m
}

/// What dependents of each project link against (the last entry of a GUID
/// wins).
pub open spec fn link_outputs_spec(entries: Seq<(u128, String, NinjaFile)>) -> Map<u128, Seq<char>>
    decreases entries.len(),
{
    if entries.len() == 0 {
        Map::empty()
    } else {
        link_outputs_spec(entries.drop_last()).insert(entries.last().0, link_output_spec(entries.last().2.final_step))
    }
}

/// Whether each project is a static library (the last entry of a GUID wins).
pub open spec fn static_libs_spec(entries: Seq<(u128, String, NinjaFile)>) -> Map<u128, bool>
    decreases entries.len(),
{
    if entries.len() == 0 {
        Map::empty()
    } else {
        static_libs_spec(entries.drop_last()).insert(entries.last().0, entries.last().2.final_step is Lib)
    }
}

/// The link output and the kind of each generated project.
pub fn link_maps(entries: &Vec<(u128, String, NinjaFile)>) -> (r: (
    std::collections::HashMap<u128, String>,
    std::collections::HashMap<u128, bool>,
))
    ensures
        outputs_view(r.0@) == link_outputs_spec(entries@),
        r.1@ == static_libs_spec(entries@),
{
    broadcast use vstd::std_specs::hash::group_hash_axioms;
    let mut outs: std::collections::HashMap<u128, String> = std::collections::HashMap::new();
    let mut libs: std::collections::HashMap<u128, bool> = std::collections::HashMap::new();
    assert(outputs_view(outs@) =~= Map::<u128, Seq<char>>::empty());
    assert(libs@ =~= Map::<u128, bool>::empty());
    let mut i: usize = 0;
    while i < entries.len()
        invariant
            i <= entries.len(),
            outputs_view(outs@) == link_outputs_spec(entries@.take(i as int)),
            libs@ == static_libs_spec(entries@.take(i as int)),
        decreases entries.len() - i,
    {
        let e = &entries[i];
        let ghost before_o = outs@;
        let ghost before_l = libs@;
        outs.insert(e.0, link_output(&e.2.final_step));
        let is_lib = match &e.2.final_step {
            FinalStep::Lib(_) => true,
            FinalStep::Link(_) => false,
        };
        libs.insert(e.0, is_lib);
        assert(entries@.take(i + 1).drop_last() =~= entries@.take(i as int));
        assert(outputs_view(outs@) =~= outputs_view(before_o).insert(e.0, link_output_spec(e.2.final_step)));
        i += 1;
    }
    assert(entries@.take(entries.len() as int) =~= entries@);
    (outs, libs)
}

/// Every dependency output is a library (or has no extension): what the link
/// step can take as an input.
pub open spec fn linkable(depends_on: Seq<Seq<char>>) -> bool {
    forall|k: int| 0 <= k < depends_on.len() ==> match #[trigger] extension_spec(depends_on[k]) {
        Some(e) => e == "lib"@,
        None => true,
    }
}

/// The dependency outputs that have an extension, each after a space: the
/// inputs added to a link step's response file.
pub open spec fn link_inputs(depends_on: Seq<Seq<char>>) -> Seq<char>
    decreases depends_on.len(),
{
    if depends_on.len() == 0 {
        Seq::empty()
    } else {
        link_inputs(depends_on.drop_last()) + if extension_spec(depends_on.last()) is Some {
            seq![' '] + depends_on.last()
        } else {
            Seq::empty()
        }
    }
}

/// Whether every dependency output is a library, see [`linkable`].
pub fn linkable_check(depends_on: &Vec<String>) -> (r: bool)
    ensures
        r == linkable(seq_of_strings(depends_on@)),
{
    let ghost d = seq_of_strings(depends_on@);
    let mut i: usize = 0;
    while i < depends_on.len()
        invariant
            i <= depends_on.len(),
            d == seq_of_strings(depends_on@),
            forall|k: int| 0 <= k < i ==> match #[trigger] extension_spec(d[k]) {
                Some(e) => e == "lib"@,
                None => true,
            },
        decreases depends_on.len() - i,
    {
        assert(d[i as int] == depends_on@[i as int]@);
        match extension(depends_on[i].as_str()) {
            Some(e) => {
                if !str_eq(e.as_str(), "lib") {
                    proof { reveal_strlit("lib"); }
                    return false;
                }
                proof { reveal_strlit("lib"); }
            },
            None => {},
        }
        i += 1;
    }
    true
}

/// Adds the libraries a link step depends on to its response flags.
pub fn add_link_inputs(flags: &mut Flags, depends_on: &Vec<String>)
    requires
        linkable(seq_of_strings(depends_on@)),
    ensures
        final(flags)@ == (crate::flags::SpecFlags {
            rsp_flags: old(flags)@.rsp_flags + link_inputs(seq_of_strings(depends_on@)),
            ..old(flags)@
        }),
{
    let ghost d = seq_of_strings(depends_on@);
    let ghost start = flags@;
    let mut i: usize = 0;
    while i < depends_on.len()
        invariant
            i <= depends_on.len(),
            d == seq_of_strings(depends_on@),
            flags@ == (crate::flags::SpecFlags { rsp_flags: start.rsp_flags + link_inputs(d.take(i as int)), ..start }),
        decreases depends_on.len() - i,
    {
        let p = depends_on[i].as_str();
        assert(d.take(i + 1).drop_last() =~= d.take(i as int));
        assert(d.take(i + 1).last() == p@);
        match extension(p) {
            Some(_) => {
                let ghost before = flags.rsp_flags@;
                push_char(&mut flags.rsp_flags, ' ');
                push_str(&mut flags.rsp_flags, p);
                assert(flags.rsp_flags@ =~= before + (seq![' '] + p@));
                assert(start.rsp_flags + link_inputs(d.take(i + 1)) =~= start.rsp_flags + link_inputs(d.take(i as int)) + (seq![' '] + p@));
            },
            None => {
                assert(link_inputs(d.take(i + 1)) =~= link_inputs(d.take(i as int)) + Seq::<char>::empty());
            },
        }
        i += 1;
    }
    assert(d.take(depends_on.len() as int) =~= d);
}

//
// Choosing the configuration
//

/// The position of the first project configuration at or after `k` for
/// `guid` under the solution configuration `name`.
pub open spec fn first_cfg_platform(ps: Seq<ProjectConfigurationPlatform>, guid: u128, name: Seq<char>, k: int) -> Option<int>
    decreases ps.len() - k,
{
    if k < 0 || k >= ps.len() {
        None
    } else if ps[k].uuid == guid && ps[k].target_cfg@ == name {
        Some(k)
    } else {
        first_cfg_platform(ps, guid, name, k + 1)
    }
}

/// The first project configuration of the solution for `guid` under the
/// solution configuration `name`.
pub fn find_cfg_platform<'a>(sln: &'a Sln, guid: u128, name: &str) -> (r: Option<&'a ProjectConfigurationPlatform>)
    ensures
        match first_cfg_platform(sln.global.cfg_platforms.platforms@, guid, name@, 0) {
            Some(k) => r == Some(&sln.global.cfg_platforms.platforms@[k]),
            None => r is None,
        },
{
    let ps = &sln.global.cfg_platforms.platforms;
    let mut k: usize = 0;
    while k < ps.len()
        invariant
            k <= ps.len(),
            ps@ == sln.global.cfg_platforms.platforms@,
            first_cfg_platform(ps@, guid, name@, 0) == first_cfg_platform(ps@, guid, name@, k as int),
        decreases ps.len() - k,
    {
        if ps[k].uuid == guid && str_eq(ps[k].target_cfg.0.as_str(), name) {
            assert(first_cfg_platform(ps@, guid, name@, k as int) == Some(k as int));
            let c = &ps[k];
            assert(*c == ps@[k as int]);
            return Some(c);
        }
        k += 1;
    }
    None
}

/// The position of the first configuration called `name` at or after `k`.
pub open spec fn first_config(cs: Seq<Configuration>, name: Seq<char>, k: int) -> Option<int>
    decreases cs.len() - k,
{
    if k < 0 || k >= cs.len() {
        None
    } else if cs[k].name@ == name {
        Some(k)
    } else {
        first_config(cs, name, k + 1)
    }
}

/// The first configuration of a project called `name`.
pub fn find_build_cfg<'a>(vcproj: &'a VCProject, name: &str) -> (r: Option<&'a Configuration>)
    ensures
        match first_config(vcproj.configurations@, name@, 0) {
            Some(k) => r == Some(&vcproj.configurations@[k]),
            None => r is None,
        },
{
    let cs = &vcproj.configurations;
    let mut k: usize = 0;
    while k < cs.len()
        invariant
            k <= cs.len(),
            cs@ == vcproj.configurations@,
            first_config(cs@, name@, 0) == first_config(cs@, name@, k as int),
        decreases cs.len() - k,
    {
        if str_eq(cs[k].name.as_str(), name) {
            assert(first_config(cs@, name@, k as int) == Some(k as int));
            let c = &cs[k];
            assert(*c == cs@[k as int]);
            return Some(c);
        }
        k += 1;
    }
    None
}

/// The top-level build file: one `subninja` line per project file.
pub open spec fn subninja_text_spec(names: Seq<Seq<char>>) -> Seq<char>
    decreases names.len(),
{
    if names.len() == 0 {
        Seq::empty()
    } else {
        subninja_text_spec(names.drop_last()) + "subninja "@ + names.last() + seq!['\n']
    }
}

pub fn subninja_text(names: &Vec<String>) -> (r: String)
    ensures
        r@ == subninja_text_spec(seq_of_strings(names@)),
{
    let ghost n = seq_of_strings(names@);
    let mut out = String::new();
    let mut i: usize = 0;
    while i < names.len()
        invariant
            i <= names.len(),
            n == seq_of_strings(names@),
            out@ == subninja_text_spec(n.take(i as int)),
        decreases names.len() - i,
    {
        let ghost before = out@;
        push_str(&mut out, "subninja ");
        push_str(&mut out, names[i].as_str());
        push_char(&mut out, '\n');
        assert(n.take(i + 1).drop_last() =~= n.take(i as int));
        assert(out@ =~= before + "subninja "@ + names@[i as int]@ + seq!['\n']);
        i += 1;
    }
    assert(n.take(names.len() as int) =~= n);
    out
}

} // verus!
