//! The Visual Studio 2008 solution file (`.sln`): its grammar and model.
//!
//! Each parser reads from a character position and either succeeds (with the
//! position after what it read), fails (the text does not match; callers may
//! try something else), or aborts (the text matches but holds something the
//! tool does not support).
use vstd::prelude::*;
use crate::sln_text::{
    blank_end, charsep, charsep_at, delimited, delimited_at, find_at, find_char_at, guid_at,
    guid_at_exec, has_tag, lemma_blank_end, number_at, number_at_exec, skip_blanks, tag_at,
};
use crate::text::{chars_of, push_char, push_str, seq_of_strings, string_of_range, str_eq};

verus! {

/// Result of a parser at a position.
pub enum Outcome<T> {
    Matched(usize, T),
    Fail,
    Abort,
}

pub enum SpecOutcome<T> {
    Matched(int, T),
    Fail,
    Abort,
}

impl<T: View> View for Outcome<T> {
    type V = SpecOutcome<T::V>;

    open spec fn view(&self) -> SpecOutcome<T::V> {
        match self {
            Outcome::Matched(p, x) => SpecOutcome::Matched(*p as int, x@),
            Outcome::Fail => SpecOutcome::Fail,
            Outcome::Abort => SpecOutcome::Abort,
        }
    }
}

/// The text does not match the grammar of what was asked for.
#[derive(Debug)]
pub struct SlnError;

//
// Model
//

#[derive(Debug)]
pub struct Sln {
    pub projects: Vec<Project>,
    pub global: Global,
}

#[derive(Debug)]
pub struct Project {
    pub kind: ProjectKind,
    pub name: String,
    pub path: String,
    pub uuid: u128,
    pub section_dependencies: Option<SectionDependencies>,
}

#[derive(Clone, Copy, PartialEq, Eq, Structural, Debug)]
pub enum ProjectKind {
    Folder,
    Cpp,
    CSharp,
}

#[derive(Debug)]
pub struct SectionDependencies {
    pub deps: Vec<SectionDependency>,
}

#[derive(Debug)]
pub struct SectionDependency {
    pub uuid: u128,
}

#[derive(Debug)]
pub struct Global {
    pub sln_platforms: SolutionConfigurationPlatforms,
    pub cfg_platforms: ProjectConfigurationPlatforms,
    pub sln_properties: SolutionProperties,
    pub nested_projects: NestedProjects,
}

#[derive(Debug)]
pub struct SolutionConfigurationPlatforms {
    pub platforms: Vec<SolutionConfigurationPlatform>,
}

#[derive(Debug)]
pub struct SolutionConfigurationPlatform {
    pub platform: ConfigurationPlatform,
}

#[derive(Debug)]
pub struct ProjectConfigurationPlatforms {
    pub platforms: Vec<ProjectConfigurationPlatform>,
}

#[derive(Debug)]
pub struct ProjectConfigurationPlatform {
    pub uuid: u128,
    /// The solution configuration.
    pub target_cfg: ConfigurationPlatform,
    /// The project configuration that it builds.
    pub actual_cfg: ConfigurationPlatform,
    /// Built (a `Build.0` line follows).
    pub is_enabled: bool,
}

#[derive(Debug)]
pub struct SolutionProperties {
    pub hide_solution_node: bool,
}

#[derive(Debug)]
pub struct NestedProjects {
    pub projects: Vec<NestedProject>,
}

#[derive(Debug)]
pub struct NestedProject {
    pub from: u128,
    pub to: u128,
}

/// `Configuration|Platform`.
#[derive(Debug)]
pub struct ConfigurationPlatform(pub String);

pub struct ProjectView {
    pub kind: ProjectKind,
    pub name: Seq<char>,
    pub path: Seq<char>,
    pub uuid: u128,
    pub deps: Option<Seq<u128>>,
}

pub struct PcpView {
    pub uuid: u128,
    pub target: Seq<char>,
    pub actual: Seq<char>,
    pub is_enabled: bool,
}

pub struct GlobalView {
    pub sln_platforms: Seq<Seq<char>>,
    pub cfg_platforms: Seq<PcpView>,
    pub hide_solution_node: bool,
    pub nested: Seq<(u128, u128)>,
}

pub struct SlnView {
    pub projects: Seq<ProjectView>,
    pub global: GlobalView,
}

impl View for ConfigurationPlatform {
    type V = Seq<char>;

    open spec fn view(&self) -> Seq<char> {
        self.0@
    }
}

impl View for SolutionConfigurationPlatform {
    type V = Seq<char>;

    open spec fn view(&self) -> Seq<char> {
        self.platform@
    }
}

impl View for SectionDependency {
    type V = u128;

    open spec fn view(&self) -> u128 {
        self.uuid
    }
}

pub open spec fn deps_view(v: Seq<SectionDependency>) -> Seq<u128> {
    v.map_values(|d: SectionDependency| d.uuid)
}

impl View for SectionDependencies {
    type V = Seq<u128>;

    open spec fn view(&self) -> Seq<u128> {
        deps_view(self.deps@)
    }
}

impl View for Project {
    type V = ProjectView;

    open spec fn view(&self) -> ProjectView {
        ProjectView {
            kind: self.kind,
            name: self.name@,
            path: self.path@,
            uuid: self.uuid,
            deps: match self.section_dependencies {
                Some(d) => Some(d@),
                None => None,
            },
        }
    }
}

impl View for ProjectConfigurationPlatform {
    type V = PcpView;

    open spec fn view(&self) -> PcpView {
        PcpView {
            uuid: self.uuid,
            target: self.target_cfg@,
            actual: self.actual_cfg@,
            is_enabled: self.is_enabled,
        }
    }
}

impl View for NestedProject {
    type V = (u128, u128);

    open spec fn view(&self) -> (u128, u128) {
        (self.from, self.to)
    }
}

impl View for SolutionConfigurationPlatforms {
    type V = Seq<Seq<char>>;

    open spec fn view(&self) -> Seq<Seq<char>> {
        self.platforms@.map_values(|x: SolutionConfigurationPlatform| x@)
    }
}

impl View for ProjectConfigurationPlatforms {
    type V = Seq<PcpView>;

    open spec fn view(&self) -> Seq<PcpView> {
        self.platforms@.map_values(|x: ProjectConfigurationPlatform| x@)
    }
}

impl View for SolutionProperties {
    type V = bool;

    open spec fn view(&self) -> bool {
        self.hide_solution_node
    }
}

impl View for NestedProjects {
    type V = Seq<(u128, u128)>;

    open spec fn view(&self) -> Seq<(u128, u128)> {
        self.projects@.map_values(|x: NestedProject| x@)
    }
}

impl View for Global {
    type V = GlobalView;

    open spec fn view(&self) -> GlobalView {
        GlobalView {
            sln_platforms: self.sln_platforms@,
            cfg_platforms: self.cfg_platforms@,
            hide_solution_node: self.sln_properties@,
            nested: self.nested_projects@,
        }
    }
}

impl View for Sln {
    type V = SlnView;

    open spec fn view(&self) -> SlnView {
        SlnView { projects: self.projects@.map_values(|p: Project| p@), global: self.global@ }
    }
}

//
// Configuration|Platform
//

/// A character that ends a platform name.
pub open spec fn ends_platform(c: char) -> bool {
    c == ' ' || c == '.' || c == '\t' || c == '\r' || c == '\n'
}

pub open spec fn platform_end(s: Seq<char>, p: int) -> int
    decreases s.len() - p,
{
    if 0 <= p < s.len() && !ends_platform(s[p]) {
        platform_end(s, p + 1)
    } else {
        p
    }
}

/// `Configuration|Platform`: a non-empty run up to the first `|`, the `|`,
/// a non-empty platform name, then blanks. The value is the configuration,
/// `|` and the platform.
pub open spec fn cfg_platform(s: Seq<char>, p: int) -> Option<(int, Seq<char>)> {
    match find_at(s, p, '|') {
        Some(k) => if k > p {
            let e = platform_end(s, k + 1);
            if e > k + 1 {
                Some((blank_end(s, e), s.subrange(p, k) + seq!['|'] + s.subrange(k + 1, e)))
            } else {
                None
            }
        } else {
            None
        },
        None => None,
    }
}

fn platform_end_exec(v: &Vec<char>, p: usize) -> (r: usize)
    requires
        p <= v.len(),
    ensures
        r == platform_end(v@, p as int),
        p <= r <= v.len(),
{
    let mut q = p;
    while q < v.len() && !(v[q] == ' ' || v[q] == '.' || v[q] == '\t' || v[q] == '\r' || v[q] == '\n')
        invariant
            p <= q <= v.len(),
            platform_end(v@, p as int) == platform_end(v@, q as int),
        decreases v.len() - q,
    {
        q += 1;
    }
    q
}

fn cfg_platform_at(v: &Vec<char>, p: usize) -> (r: Option<(usize, ConfigurationPlatform)>)
    requires
        p <= v.len(),
    ensures
        match r {
            Some((q, c)) => cfg_platform(v@, p as int) == Some((q as int, c@)) && p < q <= v.len(),
            None => cfg_platform(v@, p as int) is None,
        },
{
    proof {
        crate::sln_text::lemma_find_at(v@, p as int, '|');
    }
    match find_char_at(v, p, '|') {
        Some(k) => {
            if k > p {
                let e = platform_end_exec(v, k + 1);
                if e > k + 1 {
                    let mut s = string_of_range(v, p, k);
                    push_char(&mut s, '|');
                    let plat = string_of_range(v, k + 1, e);
                    push_str(&mut s, plat.as_str());
                    let q = skip_blanks(v, e);
                    assert(s@ =~= v@.subrange(p as int, k as int) + seq!['|'] + v@.subrange(k + 1, e as int));
                    Some((q, ConfigurationPlatform(s)))
                } else {
                    None
                }
            } else {
                None
            }
        },
        None => None,
    }
}

impl ConfigurationPlatform {
    /// `Configuration|Platform` at the start of `i` (see [`cfg_platform`]):
    /// the rest of the text and the value.
    pub fn parse(i: &str) -> (r: Result<(String, ConfigurationPlatform), SlnError>)
        ensures
            match r {
                Ok((rest, c)) => cfg_platform(i@, 0) matches Some((q, x)) && x == c@ && rest@ == i@.skip(q),
                Err(_) => cfg_platform(i@, 0) is None,
            },
    {
        let v = chars_of(i);
        match cfg_platform_at(&v, 0) {
            Some((q, c)) => {
                let rest = string_of_range(&v, q, v.len());
                assert(v@.subrange(q as int, v.len() as int) =~= i@.skip(q as int));
                Ok((rest, c))
            },
            None => Err(SlnError),
        }
    }

    /// The configuration and the platform (around the first `|`).
    pub fn configuration_n_platform(&self) -> (r: (String, String))
        requires
            crate::text::find_char(self.0@, '|') is Some,
        ensures
            r.0@ == self.0@.take(crate::text::find_char(self.0@, '|')->0),
            r.1@ == self.0@.skip(crate::text::find_char(self.0@, '|')->0 + 1),
    {
        let v = chars_of(self.0.as_str());
        proof {
            crate::text::lemma_find_char_bounds(v@, '|');
        }
        let mut k: usize = 0;
        while k < v.len() && v[k] != '|'
            invariant
                k <= v.len(),
                v@ == self.0@,
                crate::text::find_char(v@, '|') is Some,
                (crate::text::find_char(v@, '|')->0) >= k,
                forall|j: int| 0 <= j < k ==> v@[j] != '|',
            decreases v.len() - k,
        {
            proof {
                crate::text::lemma_find_char_bounds(v@, '|');
            }
            k += 1;
        }
        proof {
            crate::text::lemma_find_char_bounds(v@, '|');
        }
        let a = string_of_range(&v, 0, k);
        let b = string_of_range(&v, k + 1, v.len());
        assert(v@.subrange(0, k as int) =~= v@.take(k as int));
        assert(v@.subrange(k + 1, v.len() as int) =~= v@.skip(k + 1));
        (a, b)
    }
}


//
// Grammar
//

/// `t` then blanks: the index after them.
pub open spec fn tag_sp(s: Seq<char>, p: int, t: Seq<char>) -> Option<int> {
    if tag_at(s, p, t) {
        Some(blank_end(s, p + t.len()))
    } else {
        None
    }
}

fn tag_sp_at(v: &Vec<char>, p: usize, t: &str) -> (r: Option<usize>)
    requires
        p <= v.len(),
    ensures
        match r {
            Some(q) => tag_sp(v@, p as int, t@) == Some(q as int) && p + t@.len() <= q <= v.len(),
            None => tag_sp(v@, p as int, t@) is None,
        },
{
    if has_tag(v, p, t) {
        let n = t.unicode_len();
        Some(skip_blanks(v, p + n))
    } else {
        None
    }
}

/// Zero or more items, as long as each reads something; an item that
/// aborts aborts the whole.
pub open spec fn many<T>(s: Seq<char>, p: int, item: spec_fn(Seq<char>, int) -> SpecOutcome<T>) -> SpecOutcome<Seq<T>>
    decreases s.len() - p,
{
    match item(s, p) {
        SpecOutcome::Matched(q, x) => if q <= p || q > s.len() {
            SpecOutcome::Fail
        } else {
            match many(s, q, item) {
                SpecOutcome::Matched(r, xs) => SpecOutcome::Matched(r, seq![x] + xs),
                SpecOutcome::Fail => SpecOutcome::Fail,
                SpecOutcome::Abort => SpecOutcome::Abort,
            }
        },
        SpecOutcome::Fail => SpecOutcome::Matched(p, Seq::empty()),
        SpecOutcome::Abort => SpecOutcome::Abort,
    }
}

/// Items that never abort make a list that never aborts.
pub proof fn lemma_many_no_abort<T>(s: Seq<char>, p: int, item: spec_fn(Seq<char>, int) -> SpecOutcome<T>)
    requires
        forall|q: int| !(#[trigger] item(s, q) is Abort),
    ensures
        !(many(s, p, item) is Abort),
    decreases s.len() - p,
{
    match item(s, p) {
        SpecOutcome::Matched(q, x) => {
            if p < q <= s.len() {
                lemma_many_no_abort(s, q, item);
            }
        },
        _ => {},
    }
}

pub open spec fn prepend<T>(xs: Seq<T>, o: SpecOutcome<Seq<T>>) -> SpecOutcome<Seq<T>> {
    match o {
        SpecOutcome::Matched(r, ys) => SpecOutcome::Matched(r, xs + ys),
        SpecOutcome::Fail => SpecOutcome::Fail,
        SpecOutcome::Abort => SpecOutcome::Abort,
    }
}

pub proof fn lemma_prepend<T>(xs: Seq<T>, x: T, o: SpecOutcome<Seq<T>>)
    ensures
        prepend(xs, prepend(seq![x], o)) == prepend(xs.push(x), o),
{
    match o {
        SpecOutcome::Matched(r, ys) => {
            assert(xs + (seq![x] + ys) =~= xs.push(x) + ys);
        },
        _ => {},
    }
}

pub open spec fn views<T: View>(xs: Seq<T>) -> Seq<T::V> {
    xs.map_values(|x: T| x@)
}

/// Runs `f` (whose results are `item`) as [`many`] does.
fn many_at<T: View, F: Fn(&Vec<char>, usize) -> Outcome<T>>(
    v: &Vec<char>,
    p: usize,
    f: F,
    Ghost(item): Ghost<spec_fn(Seq<char>, int) -> SpecOutcome<T::V>>,
) -> (r: Outcome<Vec<T>>)
    requires
        p <= v.len(),
        forall|q: usize| q <= v.len() ==> #[trigger] f.requires((v, q)),
        forall|q: usize, o: Outcome<T>|
            q <= v.len() && #[trigger] f.ensures((v, q), o) ==> o@ == item(v@, q as int) && (o matches Outcome::Matched(q2, _) ==> q < q2 <= v.len()),
    ensures
        match r {
            Outcome::Matched(q, xs) => many(v@, p as int, item) == SpecOutcome::Matched(q as int, views(xs@))
                && p <= q <= v.len(),
            Outcome::Fail => many(v@, p as int, item) is Fail,
            Outcome::Abort => many(v@, p as int, item) is Abort,
        },
{
    let mut xs: Vec<T> = Vec::new();
    let mut at = p;
    assert(views(xs@) =~= Seq::<T::V>::empty());
    assert(prepend(Seq::<T::V>::empty(), many(v@, p as int, item)) == many(v@, p as int, item)) by {
        match many(v@, p as int, item) {
            SpecOutcome::Matched(r, ys) => {
                assert(Seq::<T::V>::empty() + ys =~= ys);
            },
            _ => {},
        }
    }
    let mut aborted = false;
    loop
        invariant_except_break
            !aborted,
            many(v@, p as int, item) == prepend(views(xs@), many(v@, at as int, item)),
        invariant
            p <= at <= v.len(),
            forall|q: usize| q <= v.len() ==> #[trigger] f.requires((v, q)),
            forall|q: usize, o: Outcome<T>|
                q <= v.len() && #[trigger] f.ensures((v, q), o) ==> o@ == item(v@, q as int) && (o matches Outcome::Matched(q2, _) ==> q < q2 <= v.len()),
        ensures
            p <= at <= v.len(),
            aborted ==> many(v@, p as int, item) is Abort,
            !aborted ==> many(v@, p as int, item) == prepend(views(xs@), many(v@, at as int, item)),
            !aborted ==> many(v@, at as int, item) == SpecOutcome::Matched(at as int, Seq::<T::V>::empty()),
        decreases v.len() - at,
    {
        let o = f(v, at);
        match o {
            Outcome::Matched(next, x) => {
                proof {
                    lemma_prepend(views(xs@), x@, many(v@, next as int, item));
                }
                let ghost before = views(xs@);
                xs.push(x);
                assert(views(xs@) =~= before.push(x@));
                at = next;
            },
            Outcome::Fail => {
                break;
            },
            Outcome::Abort => {
                aborted = true;
                break;
            },
        }
    }
    if aborted {
        return Outcome::Abort;
    }
    assert(views(xs@) + Seq::<T::V>::empty() =~= views(xs@));
    Outcome::Matched(at, xs)
}

/// `"{guid}"`: the GUID must fill the quotes.
pub open spec fn uuid_str(s: Seq<char>, p: int) -> SpecOutcome<u128> {
    match delimited(s, p, '"', '"') {
        Some((e, a, b)) => {
            let c = s.subrange(a, b);
            match guid_at(c, 0) {
                Some((j, u)) => if j == c.len() {
                    SpecOutcome::Matched(e, u)
                } else {
                    SpecOutcome::Abort
                },
                None => SpecOutcome::Fail,
            }
        },
        None => SpecOutcome::Fail,
    }
}

fn uuid_str_at(v: &Vec<char>, p: usize) -> (r: Outcome<u128>)
    requires
        p <= v.len(),
    ensures
        r@ == uuid_str(v@, p as int),
        r matches Outcome::Matched(q, _) ==> p < q <= v.len(),
{
    match delimited_at(v, p, '"', '"') {
        Some((e, a, b)) => {
            let c = crate::text::chars_of(string_of_range(v, a, b).as_str());
            match guid_at_exec(&c, 0) {
                Some((j, u)) => {
                    if j == c.len() {
                        Outcome::Matched(e, u)
                    } else {
                        Outcome::Abort
                    }
                },
                None => Outcome::Fail,
            }
        },
        None => Outcome::Fail,
    }
}

/// `A|B = A|B`: both sides must be the same.
pub open spec fn sln_cfg_spec(s: Seq<char>, p: int) -> SpecOutcome<Seq<char>> {
    match cfg_platform(s, p) {
        Some((q, l)) => match charsep(s, q, '=') {
            Some(r) => match cfg_platform(s, r) {
                Some((t, rr)) => if l == rr {
                    SpecOutcome::Matched(blank_end(s, t), l)
                } else {
                    SpecOutcome::Abort
                },
                None => SpecOutcome::Fail,
            },
            None => SpecOutcome::Fail,
        },
        None => SpecOutcome::Fail,
    }
}

fn sln_cfg_at(v: &Vec<char>, p: usize) -> (r: Outcome<SolutionConfigurationPlatform>)
    requires
        p <= v.len(),
    ensures
        r@ == sln_cfg_spec(v@, p as int),
        r matches Outcome::Matched(q, _) ==> p < q <= v.len(),
{
    match cfg_platform_at(v, p) {
        Some((q, l)) => match charsep_at(v, q, '=') {
            Some(r) => match cfg_platform_at(v, r) {
                Some((t, rr)) => {
                    if str_eq(l.0.as_str(), rr.0.as_str()) {
                        let u = skip_blanks(v, t);
                        Outcome::Matched(u, SolutionConfigurationPlatform { platform: l })
                    } else {
                        Outcome::Abort
                    }
                },
                None => Outcome::Fail,
            },
            None => Outcome::Fail,
        },
        None => Outcome::Fail,
    }
}

impl SolutionConfigurationPlatform {
    /// `Configuration|Platform = Configuration|Platform` at the start of `i`
    /// (see [`sln_cfg_spec`]).
    pub fn parse(i: &str) -> (r: Result<(String, SolutionConfigurationPlatform), SlnError>)
        requires
            !(sln_cfg_spec(i@, 0) is Abort),
        ensures
            match r {
                Ok((rest, c)) => sln_cfg_spec(i@, 0) matches SpecOutcome::Matched(q, x) && x == c@
                    && rest@ == i@.skip(q),
                Err(_) => sln_cfg_spec(i@, 0) is Fail,
            },
    {
        let v = chars_of(i);
        match sln_cfg_at(&v, 0) {
            Outcome::Matched(q, c) => {
                let rest = string_of_range(&v, q, v.len());
                assert(v@.subrange(q as int, v.len() as int) =~= i@.skip(q as int));
                Ok((rest, c))
            },
            _ => Err(SlnError),
        }
    }
}

/// `{guid} = {guid}`: both must be the same.
pub open spec fn section_dep_spec(s: Seq<char>, p: int) -> SpecOutcome<u128> {
    match guid_at(s, p) {
        Some((q, from)) => match charsep(s, q, '=') {
            Some(r) => match guid_at(s, r) {
                Some((t, to)) => if from == to {
                    SpecOutcome::Matched(blank_end(s, t), from)
                } else {
                    SpecOutcome::Abort
                },
                None => SpecOutcome::Fail,
            },
            None => SpecOutcome::Fail,
        },
        None => SpecOutcome::Fail,
    }
}

fn section_dep_at(v: &Vec<char>, p: usize) -> (r: Outcome<SectionDependency>)
    requires
        p <= v.len(),
    ensures
        r@ == section_dep_spec(v@, p as int),
        r matches Outcome::Matched(q, _) ==> p < q <= v.len(),
{
    match guid_at_exec(v, p) {
        Some((q, from)) => match charsep_at(v, q, '=') {
            Some(r) => match guid_at_exec(v, r) {
                Some((t, to)) => {
                    if from == to {
                        Outcome::Matched(skip_blanks(v, t), SectionDependency { uuid: from })
                    } else {
                        Outcome::Abort
                    }
                },
                None => Outcome::Fail,
            },
            None => Outcome::Fail,
        },
        None => Outcome::Fail,
    }
}

impl SectionDependency {
    pub fn parse(i: &str) -> (r: Result<(String, SectionDependency), SlnError>)
        requires
            !(section_dep_spec(i@, 0) is Abort),
        ensures
            match r {
                Ok((rest, d)) => section_dep_spec(i@, 0) matches SpecOutcome::Matched(q, x) && x == d@
                    && rest@ == i@.skip(q),
                Err(_) => section_dep_spec(i@, 0) is Fail,
            },
    {
        let v = chars_of(i);
        match section_dep_at(&v, 0) {
            Outcome::Matched(q, d) => {
                let rest = string_of_range(&v, q, v.len());
                assert(v@.subrange(q as int, v.len() as int) =~= i@.skip(q as int));
                Ok((rest, d))
            },
            _ => Err(SlnError),
        }
    }
}

/// One dependency line, as an item of [`many`].
pub open spec fn section_dep_item() -> spec_fn(Seq<char>, int) -> SpecOutcome<u128> {
    |s2: Seq<char>, p2: int| section_dep_spec(s2, p2)
}

/// `header`, the items, `footer` (each tag followed by blanks).
pub open spec fn section<T>(
    s: Seq<char>,
    p: int,
    header: Seq<char>,
    item: spec_fn(Seq<char>, int) -> SpecOutcome<T>,
    footer: Seq<char>,
) -> SpecOutcome<Seq<T>> {
    match tag_sp(s, p, header) {
        Some(q) => match many(s, q, item) {
            SpecOutcome::Matched(r, xs) => match tag_sp(s, r, footer) {
                Some(t) => SpecOutcome::Matched(t, xs),
                None => SpecOutcome::Fail,
            },
            SpecOutcome::Fail => SpecOutcome::Fail,
            SpecOutcome::Abort => SpecOutcome::Abort,
        },
        None => SpecOutcome::Fail,
    }
}

fn section_at<T: View, F: Fn(&Vec<char>, usize) -> Outcome<T>>(
    v: &Vec<char>,
    p: usize,
    header: &str,
    f: F,
    Ghost(item): Ghost<spec_fn(Seq<char>, int) -> SpecOutcome<T::V>>,
    footer: &str,
) -> (r: Outcome<Vec<T>>)
    requires
        p <= v.len(),
        header@.len() > 0,
        forall|q: usize| q <= v.len() ==> #[trigger] f.requires((v, q)),
        forall|q: usize, o: Outcome<T>|
            q <= v.len() && #[trigger] f.ensures((v, q), o) ==> o@ == item(v@, q as int) && (o matches Outcome::Matched(q2, _) ==> q < q2 <= v.len()),
    ensures
        match r {
            Outcome::Matched(q, xs) => section(v@, p as int, header@, item, footer@) == SpecOutcome::Matched(q as int, views(xs@))
                && p < q <= v.len(),
            Outcome::Fail => section(v@, p as int, header@, item, footer@) is Fail,
            Outcome::Abort => section(v@, p as int, header@, item, footer@) is Abort,
        },
{
    let q = match tag_sp_at(v, p, header) {
        Some(q) => q,
        None => {
            return Outcome::Fail;
        },
    };
    match many_at(v, q, f, Ghost(item)) {
        Outcome::Matched(at, xs) => match tag_sp_at(v, at, footer) {
            Some(t) => Outcome::Matched(t, xs),
            None => Outcome::Fail,
        },
        Outcome::Fail => Outcome::Fail,
        Outcome::Abort => Outcome::Abort,
    }
}

/// `ProjectSection(ProjectDependencies) = postProject`, the dependency
/// lines, `EndProjectSection`.
pub open spec fn section_deps_spec(s: Seq<char>, p: int) -> SpecOutcome<Seq<u128>> {
    section(s, p, "ProjectSection(ProjectDependencies) = postProject"@, section_dep_item(), "EndProjectSection"@)
}

fn section_deps_at(v: &Vec<char>, p: usize) -> (r: Outcome<SectionDependencies>)
    requires
        p <= v.len(),
    ensures
        r@ == section_deps_spec(v@, p as int),
        r matches Outcome::Matched(q, _) ==> p < q <= v.len(),
{
    proof {
        reveal_strlit("ProjectSection(ProjectDependencies) = postProject");
    }
    match section_at(
        v,
        p,
        "ProjectSection(ProjectDependencies) = postProject",
        section_dep_at,
        Ghost(section_dep_item()),
        "EndProjectSection",
    ) {
        Outcome::Matched(t, deps) => {
            assert(views(deps@) =~= deps_view(deps@));
            Outcome::Matched(t, SectionDependencies { deps })
        },
        Outcome::Fail => Outcome::Fail,
        Outcome::Abort => Outcome::Abort,
    }
}

impl SectionDependencies {
    pub fn parse(i: &str) -> (r: Result<(String, SectionDependencies), SlnError>)
        requires
            !(section_deps_spec(i@, 0) is Abort),
        ensures
            match r {
                Ok((rest, d)) => section_deps_spec(i@, 0) matches SpecOutcome::Matched(q, x) && x == d@
                    && rest@ == i@.skip(q),
                Err(_) => section_deps_spec(i@, 0) is Fail,
            },
    {
        let v = chars_of(i);
        match section_deps_at(&v, 0) {
            Outcome::Matched(q, d) => {
                let rest = string_of_range(&v, q, v.len());
                assert(v@.subrange(q as int, v.len() as int) =~= i@.skip(q as int));
                Ok((rest, d))
            },
            _ => Err(SlnError),
        }
    }
}

//
// Projects
//

/// The project kind of a solution folder.
pub const VS_SOLUTION_FOLDER: u128 = 0x2150E3338FDC42A394741A3956D46DE8u128;

/// The project kind of a C++ project.
pub const VS_CPP_PROJECT: u128 = 0x8BC9CEB88B4A11D08D1100A0C91BC942u128;

/// The project kind of a C# project.
pub const VS_CSHARP_PROJECT: u128 = 0xFAE04EC0301F11D3BF4B00C04F79EFBCu128;

impl View for ProjectKind {
    type V = ProjectKind;

    open spec fn view(&self) -> ProjectKind {
        *self
    }
}

pub open spec fn kind_of(u: u128) -> Option<ProjectKind> {
    if u == VS_SOLUTION_FOLDER {
        Some(ProjectKind::Folder)
    } else if u == VS_CPP_PROJECT {
        Some(ProjectKind::Cpp)
    } else if u == VS_CSHARP_PROJECT {
        Some(ProjectKind::CSharp)
    } else {
        None
    }
}

/// `Project("{kind}")`: the index after `)` and the kind. A GUID that does
/// not fill the parentheses, or an unknown kind, aborts.
pub open spec fn project_head(s: Seq<char>, p: int) -> SpecOutcome<ProjectKind> {
    if !tag_at(s, p, "Project"@) {
        SpecOutcome::Fail
    } else {
        match delimited(s, p + "Project"@.len(), '(', ')') {
            Some((e, a, b)) => {
                let c = s.subrange(a, b);
                match uuid_str(c, 0) {
                    SpecOutcome::Matched(j, u) => if j != c.len() {
                        SpecOutcome::Abort
                    } else {
                        match kind_of(u) {
                            Some(k) => SpecOutcome::Matched(e, k),
                            None => SpecOutcome::Abort,
                        }
                    },
                    SpecOutcome::Fail => SpecOutcome::Fail,
                    SpecOutcome::Abort => SpecOutcome::Abort,
                }
            },
            None => SpecOutcome::Fail,
        }
    }
}

/// ` = "name", "path", `: the index after the second comma, the name and
/// the path.
pub open spec fn project_names(s: Seq<char>, p: int) -> Option<(int, Seq<char>, Seq<char>)> {
    match charsep(s, p, '=') {
        Some(r1) => match delimited(s, r1, '"', '"') {
            Some((e2, a2, b2)) => match charsep(s, e2, ',') {
                Some(r2) => match delimited(s, r2, '"', '"') {
                    Some((e3, a3, b3)) => match charsep(s, e3, ',') {
                        Some(r3) => Some((r3, s.subrange(a2, b2), s.subrange(a3, b3))),
                        None => None,
                    },
                    None => None,
                },
                None => None,
            },
            None => None,
        },
        None => None,
    }
}

/// An optional dependency section, then `EndProject` and blanks.
pub open spec fn project_tail(s: Seq<char>, p: int) -> SpecOutcome<Option<Seq<u128>>> {
    match section_deps_spec(s, p) {
        SpecOutcome::Matched(q, d) => match tag_sp(s, q, "EndProject"@) {
            Some(t) => SpecOutcome::Matched(t, Some(d)),
            None => SpecOutcome::Fail,
        },
        SpecOutcome::Fail => match tag_sp(s, p, "EndProject"@) {
            Some(t) => SpecOutcome::Matched(t, None),
            None => SpecOutcome::Fail,
        },
        SpecOutcome::Abort => SpecOutcome::Abort,
    }
}

/// `Project("{kind}") = "name", "path", "{guid}"`, optional dependencies,
/// `EndProject`.
pub open spec fn project_spec(s: Seq<char>, p: int) -> SpecOutcome<ProjectView> {
    match project_head(s, p) {
        SpecOutcome::Matched(e, kind) => match project_names(s, e) {
            Some((r, name, path)) => match uuid_str(s, r) {
                SpecOutcome::Matched(e2, u) => match project_tail(s, blank_end(s, e2)) {
                    SpecOutcome::Matched(t, deps) => SpecOutcome::Matched(
                        t,
                        ProjectView { kind, name, path, uuid: u, deps },
                    ),
                    SpecOutcome::Fail => SpecOutcome::Fail,
                    SpecOutcome::Abort => SpecOutcome::Abort,
                },
                SpecOutcome::Fail => SpecOutcome::Fail,
                SpecOutcome::Abort => SpecOutcome::Abort,
            },
            None => SpecOutcome::Fail,
        },
        SpecOutcome::Fail => SpecOutcome::Fail,
        SpecOutcome::Abort => SpecOutcome::Abort,
    }
}

fn kind_of_exec(u: u128) -> (r: Option<ProjectKind>)
    ensures
        r == kind_of(u),
{
    if u == VS_SOLUTION_FOLDER {
        Some(ProjectKind::Folder)
    } else if u == VS_CPP_PROJECT {
        Some(ProjectKind::Cpp)
    } else if u == VS_CSHARP_PROJECT {
        Some(ProjectKind::CSharp)
    } else {
        None
    }
}

fn project_head_at(v: &Vec<char>, p: usize) -> (r: Outcome<ProjectKind>)
    requires
        p <= v.len(),
    ensures
        r@ == project_head(v@, p as int),
        r matches Outcome::Matched(q, _) ==> p < q <= v.len(),
{
    if !has_tag(v, p, "Project") {
        return Outcome::Fail;
    }
    let n = "Project".unicode_len();
    match delimited_at(v, p + n, '(', ')') {
        Some((e, a, b)) => {
            let c = chars_of(string_of_range(v, a, b).as_str());
            match uuid_str_at(&c, 0) {
                Outcome::Matched(j, u) => {
                    if j != c.len() {
                        Outcome::Abort
                    } else {
                        match kind_of_exec(u) {
                            Some(k) => Outcome::Matched(e, k),
                            None => Outcome::Abort,
                        }
                    }
                },
                Outcome::Fail => Outcome::Fail,
                Outcome::Abort => Outcome::Abort,
            }
        },
        None => Outcome::Fail,
    }
}

fn project_names_at(v: &Vec<char>, p: usize) -> (r: Option<(usize, String, String)>)
    requires
        p <= v.len(),
    ensures
        match r {
            Some((q, name, path)) => project_names(v@, p as int) == Some((q as int, name@, path@)) && p < q
                <= v.len(),
            None => project_names(v@, p as int) is None,
        },
{
    let r1 = match charsep_at(v, p, '=') {
        Some(r1) => r1,
        None => {
            return None;
        },
    };
    let (e2, a2, b2) = match delimited_at(v, r1, '"', '"') {
        Some(x) => x,
        None => {
            return None;
        },
    };
    let r2 = match charsep_at(v, e2, ',') {
        Some(r2) => r2,
        None => {
            return None;
        },
    };
    let (e3, a3, b3) = match delimited_at(v, r2, '"', '"') {
        Some(x) => x,
        None => {
            return None;
        },
    };
    let r3 = match charsep_at(v, e3, ',') {
        Some(r3) => r3,
        None => {
            return None;
        },
    };
    Some((r3, string_of_range(v, a2, b2), string_of_range(v, a3, b3)))
}

fn project_tail_at(v: &Vec<char>, p: usize) -> (r: Outcome<Option<SectionDependencies>>)
    requires
        p <= v.len(),
    ensures
        match r {
            Outcome::Matched(q, d) => project_tail(v@, p as int) == SpecOutcome::Matched(
                q as int,
                match d {
                    Some(x) => Some(x@),
                    None => None::<Seq<u128>>,
                },
            ) && p < q <= v.len(),
            Outcome::Fail => project_tail(v@, p as int) is Fail,
            Outcome::Abort => project_tail(v@, p as int) is Abort,
        },
{
    proof {
        reveal_strlit("EndProject");
    }
    match section_deps_at(v, p) {
        Outcome::Matched(q, d) => match tag_sp_at(v, q, "EndProject") {
            Some(t) => Outcome::Matched(t, Some(d)),
            None => Outcome::Fail,
        },
        Outcome::Fail => match tag_sp_at(v, p, "EndProject") {
            Some(t) => Outcome::Matched(t, None),
            None => Outcome::Fail,
        },
        Outcome::Abort => Outcome::Abort,
    }
}

fn project_at(v: &Vec<char>, p: usize) -> (r: Outcome<Project>)
    requires
        p <= v.len(),
    ensures
        r@ == project_spec(v@, p as int),
        r matches Outcome::Matched(q, _) ==> p < q <= v.len(),
{
    let (e, kind) = match project_head_at(v, p) {
        Outcome::Matched(e, kind) => (e, kind),
        Outcome::Fail => {
            return Outcome::Fail;
        },
        Outcome::Abort => {
            return Outcome::Abort;
        },
    };
    let (r, name, path) = match project_names_at(v, e) {
        Some(x) => x,
        None => {
            return Outcome::Fail;
        },
    };
    let (e2, u) = match uuid_str_at(v, r) {
        Outcome::Matched(e2, u) => (e2, u),
        Outcome::Fail => {
            return Outcome::Fail;
        },
        Outcome::Abort => {
            return Outcome::Abort;
        },
    };
    let b = skip_blanks(v, e2);
    match project_tail_at(v, b) {
        Outcome::Matched(t, deps) => Outcome::Matched(
            t,
            Project { kind, name, path, uuid: u, section_dependencies: deps },
        ),
        Outcome::Fail => Outcome::Fail,
        Outcome::Abort => Outcome::Abort,
    }
}

/// One project, as an item of [`many`].
pub open spec fn project_item() -> spec_fn(Seq<char>, int) -> SpecOutcome<ProjectView> {
    |s2: Seq<char>, p2: int| project_spec(s2, p2)
}

impl Project {
    /// A project entry at the start of `i` (see [`project_spec`]): the rest
    /// of the text and the project.
    pub fn parse(i: &str) -> (r: Result<(String, Project), SlnError>)
        requires
            !(project_spec(i@, 0) is Abort),
        ensures
            match r {
                Ok((rest, x)) => project_spec(i@, 0) matches SpecOutcome::Matched(q, y) && y == x@
                    && rest@ == i@.skip(q),
                Err(_) => project_spec(i@, 0) is Fail,
            },
    {
        let v = chars_of(i);
        match project_at(&v, 0) {
            Outcome::Matched(q, x) => {
                let rest = string_of_range(&v, q, v.len());
                assert(v@.subrange(q as int, v.len() as int) =~= i@.skip(q as int));
                Ok((rest, x))
            },
            _ => Err(SlnError),
        }
    }
}

//
// Global sections
//

/// One `Configuration|Platform = Configuration|Platform` line, as an item of
/// [`many`].
pub open spec fn sln_cfg_item() -> spec_fn(Seq<char>, int) -> SpecOutcome<Seq<char>> {
    |s2: Seq<char>, p2: int| sln_cfg_spec(s2, p2)
}

pub open spec fn sln_platforms_spec(s: Seq<char>, p: int) -> SpecOutcome<Seq<Seq<char>>> {
    section(s, p, "GlobalSection(SolutionConfigurationPlatforms) = preSolution"@, sln_cfg_item(), "EndGlobalSection"@)
}

fn sln_platforms_at(v: &Vec<char>, p: usize) -> (r: Outcome<SolutionConfigurationPlatforms>)
    requires
        p <= v.len(),
    ensures
        r@ == sln_platforms_spec(v@, p as int),
        r matches Outcome::Matched(q, _) ==> p < q <= v.len(),
{
    proof {
        reveal_strlit("GlobalSection(SolutionConfigurationPlatforms) = preSolution");
    }
    match section_at(
        v,
        p,
        "GlobalSection(SolutionConfigurationPlatforms) = preSolution",
        sln_cfg_at,
        Ghost(sln_cfg_item()),
        "EndGlobalSection",
    ) {
        Outcome::Matched(t, platforms) => Outcome::Matched(t, SolutionConfigurationPlatforms { platforms }),
        Outcome::Fail => Outcome::Fail,
        Outcome::Abort => Outcome::Abort,
    }
}

impl SolutionConfigurationPlatforms {
    /// The solution configurations section at the start of `i`.
    pub fn parse(i: &str) -> (r: Result<(String, SolutionConfigurationPlatforms), SlnError>)
        requires
            !(sln_platforms_spec(i@, 0) is Abort),
        ensures
            match r {
                Ok((rest, x)) => sln_platforms_spec(i@, 0) matches SpecOutcome::Matched(q, y) && y == x@
                    && rest@ == i@.skip(q),
                Err(_) => sln_platforms_spec(i@, 0) is Fail,
            },
    {
        let v = chars_of(i);
        match sln_platforms_at(&v, 0) {
            Outcome::Matched(q, x) => {
                let rest = string_of_range(&v, q, v.len());
                assert(v@.subrange(q as int, v.len() as int) =~= i@.skip(q as int));
                Ok((rest, x))
            },
            _ => Err(SlnError),
        }
    }
}

/// `{guid}.Configuration|Platform.<t> = Configuration|Platform`: the index
/// after the line and the line (not yet marked as built).
pub open spec fn pcp_line(s: Seq<char>, p: int, t: Seq<char>) -> Option<(int, PcpView)> {
    match guid_at(s, p) {
        Some((q, u)) => if q < s.len() && s[q] == '.' {
            match cfg_platform(s, q + 1) {
                Some((r, target)) => if r < s.len() && s[r] == '.' && tag_at(s, r + 1, t) {
                    match charsep(s, r + 1 + t.len(), '=') {
                        Some(r2) => match cfg_platform(s, r2) {
                            Some((r3, actual)) => Some(
                                (blank_end(s, r3), PcpView { uuid: u, target, actual, is_enabled: false }),
                            ),
                            None => None,
                        },
                        None => None,
                    }
                } else {
                    None
                },
                None => None,
            }
        } else {
            None
        },
        None => None,
    }
}

/// An `ActiveCfg` line, then, if one follows, its `Build.0` line, which must
/// repeat it (else the whole aborts).
pub open spec fn pcp_spec(s: Seq<char>, p: int) -> SpecOutcome<PcpView> {
    match pcp_line(s, p, "ActiveCfg"@) {
        Some((q, x)) => match pcp_line(s, q, "Build.0"@) {
            Some((t, y)) => if y == x {
                SpecOutcome::Matched(
                    t,
                    PcpView { uuid: x.uuid, target: x.target, actual: x.actual, is_enabled: true },
                )
            } else {
                SpecOutcome::Abort
            },
            None => SpecOutcome::Matched(q, x),
        },
        None => SpecOutcome::Fail,
    }
}

fn pcp_line_at(v: &Vec<char>, p: usize, t: &str) -> (r: Option<(usize, ProjectConfigurationPlatform)>)
    requires
        p <= v.len(),
    ensures
        match r {
            Some((q, x)) => pcp_line(v@, p as int, t@) == Some((q as int, x@)) && p < q <= v.len(),
            None => pcp_line(v@, p as int, t@) is None,
        },
{
    let (q, u) = match guid_at_exec(v, p) {
        Some(x) => x,
        None => {
            return None;
        },
    };
    if !(q < v.len() && v[q] == '.') {
        return None;
    }
    let (r, target) = match cfg_platform_at(v, q + 1) {
        Some(x) => x,
        None => {
            return None;
        },
    };
    if !(r < v.len() && v[r] == '.' && has_tag(v, r + 1, t)) {
        return None;
    }
    let n = t.unicode_len();
    let r2 = match charsep_at(v, r + 1 + n, '=') {
        Some(r2) => r2,
        None => {
            return None;
        },
    };
    let (r3, actual) = match cfg_platform_at(v, r2) {
        Some(x) => x,
        None => {
            return None;
        },
    };
    let e = skip_blanks(v, r3);
    Some((e, ProjectConfigurationPlatform { uuid: u, target_cfg: target, actual_cfg: actual, is_enabled: false }))
}

fn pcp_at(v: &Vec<char>, p: usize) -> (r: Outcome<ProjectConfigurationPlatform>)
    requires
        p <= v.len(),
    ensures
        r@ == pcp_spec(v@, p as int),
        r matches Outcome::Matched(q, _) ==> p < q <= v.len(),
{
    match pcp_line_at(v, p, "ActiveCfg") {
        Some((q, x)) => match pcp_line_at(v, q, "Build.0") {
            Some((t, y)) => {
                if y.uuid == x.uuid && str_eq(y.target_cfg.0.as_str(), x.target_cfg.0.as_str())
                    && str_eq(y.actual_cfg.0.as_str(), x.actual_cfg.0.as_str()) {
                    Outcome::Matched(
                        t,
                        ProjectConfigurationPlatform {
                            uuid: x.uuid,
                            target_cfg: x.target_cfg,
                            actual_cfg: x.actual_cfg,
                            is_enabled: true,
                        },
                    )
                } else {
                    Outcome::Abort
                }
            },
            None => Outcome::Matched(q, x),
        },
        None => Outcome::Fail,
    }
}

impl ProjectConfigurationPlatform {
    /// A project configuration line (and its `Build.0` line, if one follows)
    /// at the start of `i` (see [`pcp_spec`]).
    pub fn parse(i: &str) -> (r: Result<(String, ProjectConfigurationPlatform), SlnError>)
        requires
            !(pcp_spec(i@, 0) is Abort),
        ensures
            match r {
                Ok((rest, x)) => pcp_spec(i@, 0) matches SpecOutcome::Matched(q, y) && y == x@
                    && rest@ == i@.skip(q),
                Err(_) => pcp_spec(i@, 0) is Fail,
            },
    {
        let v = chars_of(i);
        match pcp_at(&v, 0) {
            Outcome::Matched(q, x) => {
                let rest = string_of_range(&v, q, v.len());
                assert(v@.subrange(q as int, v.len() as int) =~= i@.skip(q as int));
                Ok((rest, x))
            },
            _ => Err(SlnError),
        }
    }
}

/// One project configuration, as an item of [`many`].
pub open spec fn pcp_item() -> spec_fn(Seq<char>, int) -> SpecOutcome<PcpView> {
    |s2: Seq<char>, p2: int| pcp_spec(s2, p2)
}

pub open spec fn pcps_spec(s: Seq<char>, p: int) -> SpecOutcome<Seq<PcpView>> {
    section(s, p, "GlobalSection(ProjectConfigurationPlatforms) = postSolution"@, pcp_item(), "EndGlobalSection"@)
}

fn pcps_at(v: &Vec<char>, p: usize) -> (r: Outcome<ProjectConfigurationPlatforms>)
    requires
        p <= v.len(),
    ensures
        r@ == pcps_spec(v@, p as int),
        r matches Outcome::Matched(q, _) ==> p < q <= v.len(),
{
    proof {
        reveal_strlit("GlobalSection(ProjectConfigurationPlatforms) = postSolution");
    }
    match section_at(
        v,
        p,
        "GlobalSection(ProjectConfigurationPlatforms) = postSolution",
        pcp_at,
        Ghost(pcp_item()),
        "EndGlobalSection",
    ) {
        Outcome::Matched(t, platforms) => Outcome::Matched(t, ProjectConfigurationPlatforms { platforms }),
        Outcome::Fail => Outcome::Fail,
        Outcome::Abort => Outcome::Abort,
    }
}

impl ProjectConfigurationPlatforms {
    /// The project configurations section at the start of `i`.
    pub fn parse(i: &str) -> (r: Result<(String, ProjectConfigurationPlatforms), SlnError>)
        requires
            !(pcps_spec(i@, 0) is Abort),
        ensures
            match r {
                Ok((rest, x)) => pcps_spec(i@, 0) matches SpecOutcome::Matched(q, y) && y == x@
                    && rest@ == i@.skip(q),
                Err(_) => pcps_spec(i@, 0) is Fail,
            },
    {
        let v = chars_of(i);
        match pcps_at(&v, 0) {
            Outcome::Matched(q, x) => {
                let rest = string_of_range(&v, q, v.len());
                assert(v@.subrange(q as int, v.len() as int) =~= i@.skip(q as int));
                Ok((rest, x))
            },
            _ => Err(SlnError),
        }
    }
}

/// `GlobalSection(SolutionProperties) = preSolution`,
/// `HideSolutionNode = FALSE`, `EndGlobalSection`: the index after them.
pub open spec fn sln_properties_spec(s: Seq<char>, p: int) -> Option<int> {
    match tag_sp(s, p, "GlobalSection(SolutionProperties) = preSolution"@) {
        Some(q) => match tag_sp(s, q, "HideSolutionNode = FALSE"@) {
            Some(r) => tag_sp(s, r, "EndGlobalSection"@),
            None => None,
        },
        None => None,
    }
}

fn sln_properties_at(v: &Vec<char>, p: usize) -> (r: Option<(usize, SolutionProperties)>)
    requires
        p <= v.len(),
    ensures
        match r {
            Some((q, x)) => sln_properties_spec(v@, p as int) == Some(q as int) && !x.hide_solution_node && p < q
                <= v.len(),
            None => sln_properties_spec(v@, p as int) is None,
        },
{
    proof {
        reveal_strlit("GlobalSection(SolutionProperties) = preSolution");
    }
    let q = match tag_sp_at(v, p, "GlobalSection(SolutionProperties) = preSolution") {
        Some(q) => q,
        None => {
            return None;
        },
    };
    let r = match tag_sp_at(v, q, "HideSolutionNode = FALSE") {
        Some(r) => r,
        None => {
            return None;
        },
    };
    match tag_sp_at(v, r, "EndGlobalSection") {
        Some(t) => Some((t, SolutionProperties { hide_solution_node: false })),
        None => None,
    }
}

impl SolutionProperties {
    /// The solution properties section at the start of `i` (see
    /// [`sln_properties_spec`]); the node is never hidden.
    pub fn parse(i: &str) -> (r: Result<(String, SolutionProperties), SlnError>)
        ensures
            match r {
                Ok((rest, x)) => sln_properties_spec(i@, 0) matches Some(q) && !x.hide_solution_node
                    && rest@ == i@.skip(q),
                Err(_) => sln_properties_spec(i@, 0) is None,
            },
    {
        let v = chars_of(i);
        match sln_properties_at(&v, 0) {
            Some((q, x)) => {
                let rest = string_of_range(&v, q, v.len());
                assert(v@.subrange(q as int, v.len() as int) =~= i@.skip(q as int));
                Ok((rest, x))
            },
            None => Err(SlnError),
        }
    }
}

/// `{guid} = {guid}`: the index after the line, and the child and parent.
pub open spec fn nested_spec(s: Seq<char>, p: int) -> SpecOutcome<(u128, u128)> {
    match guid_at(s, p) {
        Some((q, from)) => match charsep(s, q, '=') {
            Some(r) => match guid_at(s, r) {
                Some((t, to)) => SpecOutcome::Matched(blank_end(s, t), (from, to)),
                None => SpecOutcome::Fail,
            },
            None => SpecOutcome::Fail,
        },
        None => SpecOutcome::Fail,
    }
}

fn nested_at(v: &Vec<char>, p: usize) -> (r: Outcome<NestedProject>)
    requires
        p <= v.len(),
    ensures
        r@ == nested_spec(v@, p as int),
        r matches Outcome::Matched(q, _) ==> p < q <= v.len(),
{
    match guid_at_exec(v, p) {
        Some((q, from)) => match charsep_at(v, q, '=') {
            Some(r) => match guid_at_exec(v, r) {
                Some((t, to)) => Outcome::Matched(skip_blanks(v, t), NestedProject { from, to }),
                None => Outcome::Fail,
            },
            None => Outcome::Fail,
        },
        None => Outcome::Fail,
    }
}

impl NestedProject {
    /// A nesting line at the start of `i` (see [`nested_spec`]).
    pub fn parse(i: &str) -> (r: Result<(String, NestedProject), SlnError>)
        ensures
            match r {
                Ok((rest, x)) => nested_spec(i@, 0) matches SpecOutcome::Matched(q, y) && y == x@
                    && rest@ == i@.skip(q),
                Err(_) => nested_spec(i@, 0) is Fail,
            },
    {
        let v = chars_of(i);
        match nested_at(&v, 0) {
            Outcome::Matched(q, x) => {
                let rest = string_of_range(&v, q, v.len());
                assert(v@.subrange(q as int, v.len() as int) =~= i@.skip(q as int));
                Ok((rest, x))
            },
            _ => Err(SlnError),
        }
    }
}

/// One nesting line, as an item of [`many`].
pub open spec fn nested_item() -> spec_fn(Seq<char>, int) -> SpecOutcome<(u128, u128)> {
    |s2: Seq<char>, p2: int| nested_spec(s2, p2)
}

pub open spec fn nested_projects_spec(s: Seq<char>, p: int) -> SpecOutcome<Seq<(u128, u128)>> {
    section(s, p, "GlobalSection(NestedProjects) = preSolution"@, nested_item(), "EndGlobalSection"@)
}

fn nested_projects_at(v: &Vec<char>, p: usize) -> (r: Outcome<NestedProjects>)
    requires
        p <= v.len(),
    ensures
        r@ == nested_projects_spec(v@, p as int),
        r matches Outcome::Matched(q, _) ==> p < q <= v.len(),
{
    proof {
        reveal_strlit("GlobalSection(NestedProjects) = preSolution");
    }
    match section_at(
        v,
        p,
        "GlobalSection(NestedProjects) = preSolution",
        nested_at,
        Ghost(nested_item()),
        "EndGlobalSection",
    ) {
        Outcome::Matched(t, projects) => Outcome::Matched(t, NestedProjects { projects }),
        Outcome::Fail => Outcome::Fail,
        Outcome::Abort => Outcome::Abort,
    }
}

impl NestedProjects {
    /// The nesting section at the start of `i`; a malformed line ends the
    /// list (and then the section must end there).
    pub fn parse(i: &str) -> (r: Result<(String, NestedProjects), SlnError>)
        ensures
            !(nested_projects_spec(i@, 0) is Abort),
            match r {
                Ok((rest, x)) => nested_projects_spec(i@, 0) matches SpecOutcome::Matched(q, y) && y == x@
                    && rest@ == i@.skip(q),
                Err(_) => nested_projects_spec(i@, 0) is Fail,
            },
    {
        proof {
            assert forall|q: int| !(#[trigger] nested_item()(i@, q) is Abort) by {}
            reveal_strlit("GlobalSection(NestedProjects) = preSolution");
            match tag_sp(i@, 0, "GlobalSection(NestedProjects) = preSolution"@) {
                Some(q) => lemma_many_no_abort(i@, q, nested_item()),
                None => {},
            }
        }
        let v = chars_of(i);
        match nested_projects_at(&v, 0) {
            Outcome::Matched(q, x) => {
                let rest = string_of_range(&v, q, v.len());
                assert(v@.subrange(q as int, v.len() as int) =~= i@.skip(q as int));
                Ok((rest, x))
            },
            _ => Err(SlnError),
        }
    }
}

/// `Global`, the four sections in order, `EndGlobal`.
pub open spec fn global_spec(s: Seq<char>, p: int) -> SpecOutcome<GlobalView> {
    match tag_sp(s, p, "Global"@) {
        Some(q) => match sln_platforms_spec(s, q) {
            SpecOutcome::Matched(q1, a) => match pcps_spec(s, q1) {
                SpecOutcome::Matched(q2, b) => match sln_properties_spec(s, q2) {
                    Some(q3) => match nested_projects_spec(s, q3) {
                        SpecOutcome::Matched(q4, n) => match tag_sp(s, q4, "EndGlobal"@) {
                            Some(t) => SpecOutcome::Matched(
                                t,
                                GlobalView { sln_platforms: a, cfg_platforms: b, hide_solution_node: false, nested: n },
                            ),
                            None => SpecOutcome::Fail,
                        },
                        SpecOutcome::Fail => SpecOutcome::Fail,
                        SpecOutcome::Abort => SpecOutcome::Abort,
                    },
                    None => SpecOutcome::Fail,
                },
                SpecOutcome::Fail => SpecOutcome::Fail,
                SpecOutcome::Abort => SpecOutcome::Abort,
            },
            SpecOutcome::Fail => SpecOutcome::Fail,
            SpecOutcome::Abort => SpecOutcome::Abort,
        },
        None => SpecOutcome::Fail,
    }
}

fn global_at(v: &Vec<char>, p: usize) -> (r: Outcome<Global>)
    requires
        p <= v.len(),
    ensures
        r@ == global_spec(v@, p as int),
        r matches Outcome::Matched(q, _) ==> p < q <= v.len(),
{
    let q = match tag_sp_at(v, p, "Global") {
        Some(q) => q,
        None => {
            return Outcome::Fail;
        },
    };
    let (q1, sln_platforms) = match sln_platforms_at(v, q) {
        Outcome::Matched(q1, a) => (q1, a),
        Outcome::Fail => {
            return Outcome::Fail;
        },
        Outcome::Abort => {
            return Outcome::Abort;
        },
    };
    let (q2, cfg_platforms) = match pcps_at(v, q1) {
        Outcome::Matched(q2, b) => (q2, b),
        Outcome::Fail => {
            return Outcome::Fail;
        },
        Outcome::Abort => {
            return Outcome::Abort;
        },
    };
    let (q3, sln_properties) = match sln_properties_at(v, q2) {
        Some(x) => x,
        None => {
            return Outcome::Fail;
        },
    };
    let (q4, nested_projects) = match nested_projects_at(v, q3) {
        Outcome::Matched(q4, n) => (q4, n),
        Outcome::Fail => {
            return Outcome::Fail;
        },
        Outcome::Abort => {
            return Outcome::Abort;
        },
    };
    match tag_sp_at(v, q4, "EndGlobal") {
        Some(t) => Outcome::Matched(t, Global { sln_platforms, cfg_platforms, sln_properties, nested_projects }),
        None => Outcome::Fail,
    }
}

impl Global {
    /// The `Global` block at the start of `i` (see [`global_spec`]).
    pub fn parse(i: &str) -> (r: Result<(String, Global), SlnError>)
        requires
            !(global_spec(i@, 0) is Abort),
        ensures
            match r {
                Ok((rest, x)) => global_spec(i@, 0) matches SpecOutcome::Matched(q, y) && y == x@
                    && rest@ == i@.skip(q),
                Err(_) => global_spec(i@, 0) is Fail,
            },
    {
        let v = chars_of(i);
        match global_at(&v, 0) {
            Outcome::Matched(q, x) => {
                let rest = string_of_range(&v, q, v.len());
                assert(v@.subrange(q as int, v.len() as int) =~= i@.skip(q as int));
                Ok((rest, x))
            },
            _ => Err(SlnError),
        }
    }
}

//
// The file
//

/// `Microsoft Visual Studio Solution File, Format Version M.N`: the index
/// after it and the two numbers (each at most 255).
pub open spec fn sln_version_spec(s: Seq<char>, p: int) -> Option<(int, int, int)> {
    let t = "Microsoft Visual Studio Solution File, Format Version "@;
    if tag_at(s, p, t) {
        match number_at(s, p + t.len(), 255) {
            Some((q, major)) => if q < s.len() && s[q] == '.' {
                match number_at(s, q + 1, 255) {
                    Some((r, minor)) => Some((r, major, minor)),
                    None => None,
                }
            } else {
                None
            },
            None => None,
        }
    } else {
        None
    }
}

fn sln_version_at(v: &Vec<char>, p: usize) -> (r: Option<(usize, u8, u8)>)
    requires
        p <= v.len(),
    ensures
        match r {
            Some((q, a, b)) => sln_version_spec(v@, p as int) == Some((q as int, a as int, b as int)) && p < q
                <= v.len(),
            None => sln_version_spec(v@, p as int) is None,
        },
{
    let t = "Microsoft Visual Studio Solution File, Format Version ";
    if !has_tag(v, p, t) {
        return None;
    }
    let n = t.unicode_len();
    let (q, major) = match number_at_exec(v, p + n, 255) {
        Some(x) => x,
        None => {
            return None;
        },
    };
    if !(q < v.len() && v[q] == '.') {
        return None;
    }
    match number_at_exec(v, q + 1, 255) {
        Some((r, minor)) => Some((r, major as u8, minor as u8)),
        None => None,
    }
}

/// `# Visual Studio N`: the index after it and the number (at most 65535).
pub open spec fn vs_version_spec(s: Seq<char>, p: int) -> Option<(int, int)> {
    let t = "# Visual Studio "@;
    if tag_at(s, p, t) {
        number_at(s, p + t.len(), 65535)
    } else {
        None
    }
}

fn vs_version_at(v: &Vec<char>, p: usize) -> (r: Option<(usize, u16)>)
    requires
        p <= v.len(),
    ensures
        match r {
            Some((q, a)) => vs_version_spec(v@, p as int) == Some((q as int, a as int)) && p < q <= v.len(),
            None => vs_version_spec(v@, p as int) is None,
        },
{
    let t = "# Visual Studio ";
    if !has_tag(v, p, t) {
        return None;
    }
    let n = t.unicode_len();
    match number_at_exec(v, p + n, 65535) {
        Some((q, x)) => Some((q, x as u16)),
        None => None,
    }
}

/// The format version line at the start of `i` (see [`sln_version_spec`]):
/// the rest of the text and the major and minor numbers.
pub fn sln_version(i: &str) -> (r: Result<(String, (u8, u8)), SlnError>)
    ensures
        match r {
            Ok((rest, (a, b))) => sln_version_spec(i@, 0) matches Some((q, x, y)) && x == a && y == b
                && rest@ == i@.skip(q),
            Err(_) => sln_version_spec(i@, 0) is None,
        },
{
    let v = chars_of(i);
    match sln_version_at(&v, 0) {
        Some((q, a, b)) => {
            let rest = string_of_range(&v, q, v.len());
            assert(v@.subrange(q as int, v.len() as int) =~= i@.skip(q as int));
            Ok((rest, (a, b)))
        },
        None => Err(SlnError),
    }
}

/// `"text"` at the start of `i`: the rest after the closing quote and the
/// text between the quotes (which holds no quote).
pub fn parse_string(i: &str) -> (r: Result<(String, String), SlnError>)
    ensures
        match r {
            Ok((rest, x)) => delimited(i@, 0, '"', '"') matches Some((e, a, b)) && x@ == i@.subrange(a, b)
                && rest@ == i@.skip(e),
            Err(_) => delimited(i@, 0, '"', '"') is None,
        },
{
    let v = chars_of(i);
    match delimited_at(&v, 0, '"', '"') {
        Some((e, a, b)) => {
            let rest = string_of_range(&v, e, v.len());
            assert(v@.subrange(e as int, v.len() as int) =~= i@.skip(e as int));
            Ok((rest, string_of_range(&v, a, b)))
        },
        None => Err(SlnError),
    }
}

/// The index after an optional byte-order mark.
pub open spec fn bom_end(s: Seq<char>) -> int {
    if s.len() > 0 && s[0] == '\u{FEFF}' {
        1
    } else {
        0
    }
}

/// A whole solution: optional byte-order mark, the format version (which
/// aborts unless the major version is 10 or the minor version is 0), the
/// Visual Studio version (which must be 2008, else it aborts), the projects
/// and the `Global` block, with blanks between them.
pub open spec fn sln_spec(s: Seq<char>) -> SpecOutcome<SlnView> {
    match sln_version_spec(s, blank_end(s, bom_end(s))) {
        Some((p1, major, minor)) => if major != 10 && minor != 0 {
            SpecOutcome::Abort
        } else {
            match vs_version_spec(s, blank_end(s, p1)) {
                Some((p2, vs)) => if vs != 2008 {
                    SpecOutcome::Abort
                } else {
                    match many(s, blank_end(s, p2), project_item()) {
                        SpecOutcome::Matched(p3, projects) => match global_spec(s, blank_end(s, p3)) {
                            SpecOutcome::Matched(p4, global) => SpecOutcome::Matched(
                                p4,
                                SlnView { projects, global },
                            ),
                            SpecOutcome::Fail => SpecOutcome::Fail,
                            SpecOutcome::Abort => SpecOutcome::Abort,
                        },
                        SpecOutcome::Fail => SpecOutcome::Fail,
                        SpecOutcome::Abort => SpecOutcome::Abort,
                    }
                },
                None => SpecOutcome::Fail,
            }
        },
        None => SpecOutcome::Fail,
    }
}

fn sln_at(v: &Vec<char>) -> (r: Outcome<Sln>)
    ensures
        r@ == sln_spec(v@),
        r matches Outcome::Matched(q, _) ==> q <= v.len(),
{
    let b = if v.len() > 0 && v[0] == '\u{FEFF}' {
        1
    } else {
        0
    };
    let p0 = skip_blanks(v, b);
    let (p1, major, minor) = match sln_version_at(v, p0) {
        Some(x) => x,
        None => {
            return Outcome::Fail;
        },
    };
    if major != 10 && minor != 0 {
        return Outcome::Abort;
    }
    let p1b = skip_blanks(v, p1);
    let (p2, vs) = match vs_version_at(v, p1b) {
        Some(x) => x,
        None => {
            return Outcome::Fail;
        },
    };
    if vs != 2008 {
        return Outcome::Abort;
    }
    let p2b = skip_blanks(v, p2);
    let (p3, projects) = match many_at(v, p2b, project_at, Ghost(project_item())) {
        Outcome::Matched(p3, xs) => (p3, xs),
        Outcome::Fail => {
            return Outcome::Fail;
        },
        Outcome::Abort => {
            return Outcome::Abort;
        },
    };
    let p3b = skip_blanks(v, p3);
    match global_at(v, p3b) {
        Outcome::Matched(p4, global) => {
            let r = Sln { projects, global };
            assert(r@.projects =~= views(r.projects@));
            Outcome::Matched(p4, r)
        },
        Outcome::Fail => Outcome::Fail,
        Outcome::Abort => Outcome::Abort,
    }
}

impl Sln {
    /// A whole solution file (see [`sln_spec`]): the rest of the text and the
    /// solution.
    pub fn parse(i: &str) -> (r: Result<(String, Sln), SlnError>)
        requires
            !(sln_spec(i@) is Abort),
        ensures
            match r {
                Ok((rest, x)) => sln_spec(i@) matches SpecOutcome::Matched(q, y) && y == x@ && rest@ == i@.skip(q),
                Err(_) => sln_spec(i@) is Fail,
            },
    {
        let v = chars_of(i);
        match sln_at(&v) {
            Outcome::Matched(q, x) => {
                let rest = string_of_range(&v, q, v.len());
                assert(v@.subrange(q as int, v.len() as int) =~= i@.skip(q as int));
                Ok((rest, x))
            },
            _ => Err(SlnError),
        }
    }

    /// Reads a solution file as [`Sln::parse`] does, but reports an
    /// unsupported solution (where that one has no defined result) as `Abort`
    /// in place of reading it.
    pub fn read(i: &str) -> (r: Outcome<Sln>)
        ensures
            r is Abort <==> sln_spec(i@) is Abort,
            r is Fail <==> sln_spec(i@) is Fail,
            r matches Outcome::Matched(q, x) ==> sln_spec(i@) matches SpecOutcome::Matched(q2, y) && q == q2
                && y == x@,
    {
        let v = chars_of(i);
        sln_at(&v)
    }
}

//
// Dependencies between projects
//

/// The GUIDs a project depends on, in file order.
pub open spec fn deps_of(p: ProjectView) -> Seq<u128> {
    match p.deps {
        Some(d) => d,
        None => Seq::empty(),
    }
}

/// Each GUID to the index of the last project that has it.
pub open spec fn uuid_index(projs: Seq<ProjectView>) -> Map<u128, usize>
    decreases projs.len(),
{
    if projs.len() == 0 {
        Map::empty()
    } else {
        uuid_index(projs.drop_last()).insert(projs.last().uuid, (projs.len() - 1) as usize)
    }
}

pub proof fn lemma_uuid_index(projs: Seq<ProjectView>)
    requires
        projs.len() <= usize::MAX,
    ensures
        uuid_index(projs).dom().finite(),
        forall|u: u128| #[trigger] uuid_index(projs).contains_key(u) ==> 0 <= uuid_index(projs)[u] < projs.len()
            && projs[uuid_index(projs)[u] as int].uuid == u,
        forall|i: int| 0 <= i < projs.len() ==> #[trigger] uuid_index(projs).contains_key(projs[i].uuid),
    decreases projs.len(),
{
    if projs.len() > 0 {
        lemma_uuid_index(projs.drop_last());
        assert forall|u: u128| #[trigger] uuid_index(projs).contains_key(u) implies 0 <= uuid_index(projs)[u]
            < projs.len() && projs[uuid_index(projs)[u] as int].uuid == u by {
            if u != projs.last().uuid {
                let k = uuid_index(projs.drop_last())[u];
                assert(projs.drop_last()[k as int] == projs[k as int]);
            }
        }
        assert forall|i: int| 0 <= i < projs.len() implies #[trigger] uuid_index(projs).contains_key(projs[i].uuid) by {
            if i < projs.len() - 1 {
                assert(projs.drop_last()[i] == projs[i]);
            }
        }
    }
}

/// A step of the depth-first walk over the dependencies: enter a GUID, or
/// list a project once everything it needs has been listed.
#[derive(Clone, Copy)]
pub enum Step {
    Enter(u128),
    Leave(usize),
}

/// The steps that enter the GUIDs `ds`, the first one on top of the stack.
pub open spec fn enters(ds: Seq<u128>) -> Seq<Step> {
    ds.reverse().map_values(|u: u128| Step::Enter(u))
}

/// The indices of the projects that the walk lists, from the steps on
/// `stack` (the last one first). Entering a GUID still in `m` takes it out
/// of `m`, puts the listing of its project on the stack and enters its
/// dependencies above it, in file order; a GUID no longer (or never) in `m`
/// is passed over. So a project is listed after the projects it needs.
pub open spec fn post_walk(projs: Seq<ProjectView>, m: Map<u128, usize>, stack: Seq<Step>) -> Seq<usize>
    decreases m.dom().len(), stack.len(),
    when m.dom().finite()
{
    if stack.len() == 0 {
        Seq::empty()
    } else {
        match stack.last() {
            Step::Leave(k) => seq![k] + post_walk(projs, m, stack.drop_last()),
            Step::Enter(u) => if m.contains_key(u) {
                let k = m[u];
                post_walk(
                    projs,
                    m.remove(u),
                    stack.drop_last().push(Step::Leave(k)) + enters(deps_of(projs[k as int])),
                )
            } else {
                post_walk(projs, m, stack.drop_last())
            },
        }
    }
}

/// The index of the first project named `name` at or after `i`.
pub open spec fn first_named(projs: Seq<ProjectView>, name: Seq<char>, i: int) -> Option<int>
    decreases projs.len() - i,
{
    if i < 0 || i >= projs.len() {
        None
    } else if projs[i].name == name {
        Some(i)
    } else {
        first_named(projs, name, i + 1)
    }
}

/// The projects that the first project named `name` needs, directly or
/// not, and that project itself, each after the projects it needs (the
/// least specific first, the named project last).
pub open spec fn dependency_order(projs: Seq<ProjectView>, name: Seq<char>) -> Option<Seq<ProjectView>> {
    match first_named(projs, name, 0) {
        Some(i) => Some(
            post_walk(projs, uuid_index(projs), seq![Step::Enter(projs[i].uuid)]).map_values(
                |k: usize| projs[k as int],
            ),
        ),
        None => None,
    }
}

impl Sln {
    /// The projects that the project named `project_name` depends on,
    /// directly or not, and that project itself, from the least specific to
    /// the most specific; `None` when no project has that name.
    pub fn find_project_dependencies(&self, project_name: &str) -> (r: Option<Vec<&Project>>)
        ensures
            match r {
                Some(v) => dependency_order(self@.projects, project_name@) == Some(
                    v@.map_values(|p: &Project| p@),
                ),
                None => dependency_order(self@.projects, project_name@) is None,
            },
    {
        broadcast use vstd::std_specs::hash::group_hash_axioms;
        let ghost projs = self@.projects;
        let n = self.projects.len();
        let mut index: std::collections::HashMap<u128, usize> = std::collections::HashMap::new();
        let mut i: usize = 0;
        while i < n
            invariant
                i <= n,
                n == self.projects.len(),
                projs == self@.projects,
                index@ == uuid_index(projs.take(i as int)),
            decreases n - i,
        {
            let u = self.projects[i].uuid;
            index.insert(u, i);
            assert(projs.take(i + 1).drop_last() =~= projs.take(i as int));
            i += 1;
        }
        assert(projs.take(n as int) =~= projs);
        let mut first: usize = 0;
        while first < n && !str_eq(self.projects[first].name.as_str(), project_name)
            invariant
                first <= n,
                n == self.projects.len(),
                projs == self@.projects,
                first_named(projs, project_name@, 0) == first_named(projs, project_name@, first as int),
            decreases n - first,
        {
            first += 1;
        }
        if first == n {
            return None;
        }
        let ghost m0 = index@;
        let ghost u0 = projs[first as int].uuid;
        proof {
            lemma_uuid_index(projs);
        }
        let mut walk: Vec<usize> = Vec::new();
        let mut stack: Vec<Step> = Vec::new();
        stack.push(Step::Enter(self.projects[first].uuid));
        assert(stack@ =~= seq![Step::Enter(u0)]);
        assert(walk@ + post_walk(projs, index@, stack@) =~= post_walk(projs, m0, seq![Step::Enter(u0)]));
        while stack.len() > 0
            invariant
                n == self.projects.len(),
                projs == self@.projects,
                m0 == uuid_index(projs),
                m0.dom().finite(),
                index@.dom().finite(),
                forall|u: u128| #[trigger] index@.contains_key(u) ==> index@[u] < n,
                walk@ + post_walk(projs, index@, stack@) == post_walk(projs, m0, seq![Step::Enter(u0)]),
                forall|j: int| 0 <= j < walk@.len() ==> #[trigger] walk@[j] < n,
                forall|j: int| 0 <= j < stack@.len() ==> match #[trigger] stack@[j] {
                    Step::Leave(k) => k < n,
                    Step::Enter(_) => true,
                },
            decreases index@.dom().len(), stack.len(),
        {
            let ghost before_walk = walk@;
            let ghost before_index = index@;
            let ghost before_stack = stack@;
            let s = stack.pop().unwrap();
            assert(stack@ =~= before_stack.drop_last());
            assert(s == before_stack.last());
            match s {
                Step::Leave(k) => {
                    assert(before_stack[before_stack.len() - 1] == s);
                    walk.push(k);
                    assert(walk@ + post_walk(projs, index@, stack@) =~= before_walk + post_walk(projs, before_index, before_stack));
                },
                Step::Enter(u) => match index.remove(&u) {
                    Some(k) => {
                        assert(index@ == before_index.remove(u));
                        stack.push(Step::Leave(k));
                        let ghost mid = stack@;
                        let ghost ds = deps_of(projs[k as int]);
                        match &self.projects[k].section_dependencies {
                            Some(sd) => {
                                assert(ds == deps_view(sd.deps@));
                                let mut j: usize = sd.deps.len();
                                assert(deps_view(sd.deps@).skip(j as int).reverse() =~= Seq::<u128>::empty());
                                while j > 0
                                    invariant
                                        j <= sd.deps.len(),
                                        ds == deps_view(sd.deps@),
                                        stack@ == mid + ds.skip(j as int).reverse().map_values(|u: u128| Step::Enter(u)),
                                    decreases j,
                                {
                                    j -= 1;
                                    stack.push(Step::Enter(sd.deps[j].uuid));
                                    assert(ds.skip(j as int).reverse() =~= ds.skip(j + 1).reverse().push(ds[j as int]));
                                }
                                assert(ds.skip(0) =~= ds);
                            },
                            None => {
                                assert(ds.reverse() =~= Seq::<u128>::empty());
                            },
                        }
                        assert(stack@ =~= before_stack.drop_last().push(Step::Leave(k)) + enters(ds));
                        assert forall|j: int| 0 <= j < stack@.len() implies match #[trigger] stack@[j] {
                            Step::Leave(k) => k < n,
                            Step::Enter(_) => true,
                        } by {
                            if j < before_stack.len() - 1 {
                                assert(stack@[j] == before_stack[j]);
                            }
                        }
                        assert(walk@ + post_walk(projs, index@, stack@) =~= before_walk + post_walk(projs, before_index, before_stack));
                    },
                    None => {
                        assert(index@ == before_index);
                    },
                },
            }
        }
        let mut out: Vec<&Project> = Vec::new();
        let mut t: usize = 0;
        while t < walk.len()
            invariant
                t <= walk.len(),
                n == self.projects.len(),
                projs == self@.projects,
                forall|j: int| 0 <= j < walk@.len() ==> #[trigger] walk@[j] < n,
                out@.map_values(|p: &Project| p@) == walk@.take(t as int).map_values(|k: usize| projs[k as int]),
            decreases walk.len() - t,
        {
            let k = walk[t];
            let ghost before = out@;
            out.push(&self.projects[k]);
            proof {
                assert(walk@.take(t + 1) =~= walk@.take(t as int).push(k));
                assert(out@ =~= before.push(&self.projects[k as int]));
                assert(out@.map_values(|p: &Project| p@) =~= before.map_values(|p: &Project| p@).push(
                    self.projects[k as int]@,
                ));
                assert(self.projects[k as int]@ == projs[k as int]);
                assert(out@.map_values(|p: &Project| p@) =~= walk@.take(t + 1).map_values(|k: usize| projs[k as int]));
            }
            t += 1;
        }
        assert(walk@ + Seq::<usize>::empty() =~= walk@);
        assert(walk@.take(walk@.len() as int) =~= walk@);
        Some(out)
    }
}

/// The project that a step lists, if it is a listing step.
pub open spec fn leave_at(stack: Seq<Step>, p: int) -> Option<usize> {
    match stack[p] {
        Step::Leave(k) => Some(k),
        Step::Enter(_) => None,
    }
}

/// The GUID that a step enters, if it is an entering step.
pub open spec fn enter_at(stack: Seq<Step>, p: int) -> Option<u128> {
    match stack[p] {
        Step::Enter(u) => Some(u),
        Step::Leave(_) => None,
    }
}

/// Project `k` lists GUID `d` among its dependencies, and a project of the
/// solution has that GUID.
pub open spec fn needs(projs: Seq<ProjectView>, m0: Map<u128, usize>, k: int, d: u128) -> bool {
    deps_of(projs[k]).contains(d) && m0.contains_key(d)
}

/// Some step above position `p` enters `d` or lists its project.
pub open spec fn pending(stack: Seq<Step>, p: int, d: u128, m0: Map<u128, usize>) -> bool {
    exists|q: int| p < q < stack.len() && (#[trigger] stack[q] == Step::Enter(d) || stack[q] == Step::Leave(m0[d]))
}

/// Every project listed in `out` comes after the projects it needs.
pub open spec fn needs_first(projs: Seq<ProjectView>, m0: Map<u128, usize>, out: Seq<usize>) -> bool {
    forall|i: int, d: u128|
        0 <= i < out.len() && #[trigger] needs(projs, m0, out[i] as int, d) ==> out.take(i).contains(m0[d])
}

/// What holds at every state of the walk, given a numbering `level` in
/// which every project numbers higher than the projects it needs.
pub open spec fn walk_state(
    projs: Seq<ProjectView>,
    m0: Map<u128, usize>,
    level: spec_fn(int) -> int,
    m: Map<u128, usize>,
    stack: Seq<Step>,
    out: Seq<usize>,
) -> bool {
    &&& m.dom().finite()
    &&& forall|u: u128| #[trigger] m.contains_key(u) ==> m0.contains_key(u) && m[u] == m0[u]
    &&& forall|u: u128| #[trigger] m0.contains_key(u) ==> m0[u] < projs.len()
    &&& forall|p: int| 0 <= p < stack.len() && #[trigger] leave_at(stack, p) is Some ==> leave_at(stack, p)->0 < projs.len()
    &&& forall|p: int, d: u128|
        0 <= p < stack.len() && leave_at(stack, p) is Some && #[trigger] needs(projs, m0, leave_at(stack, p)->0 as int, d)
            ==> out.contains(m0[d]) || pending(stack, p, d, m0)
    &&& forall|p: int, q: int|
        0 <= p < q < stack.len() && #[trigger] leave_at(stack, p) is Some && #[trigger] leave_at(stack, q) is Some
            ==> level(leave_at(stack, q)->0 as int) < level(leave_at(stack, p)->0 as int)
    &&& forall|p: int, q: int|
        0 <= p < q < stack.len() && #[trigger] leave_at(stack, p) is Some && #[trigger] enter_at(stack, q) is Some
            && m0.contains_key(enter_at(stack, q)->0) ==> level(m0[enter_at(stack, q)->0] as int) < level(
            leave_at(stack, p)->0 as int,
        )
    &&& forall|d: u128|
        #[trigger] m0.contains_key(d) && !m.contains_key(d) ==> out.contains(m0[d]) || exists|q: int|
            0 <= q < stack.len() && #[trigger] stack[q] == Step::Leave(m0[d])
    &&& needs_first(projs, m0, out)
}

proof fn lemma_walk_state_leave(
    projs: Seq<ProjectView>,
    m0: Map<u128, usize>,
    level: spec_fn(int) -> int,
    m: Map<u128, usize>,
    stack: Seq<Step>,
    out: Seq<usize>,
    k: usize,
)
    requires
        walk_state(projs, m0, level, m, stack, out),
        stack.len() > 0,
        stack.last() == Step::Leave(k),
    ensures
        walk_state(projs, m0, level, m, stack.drop_last(), out.push(k)),
{
    let t = stack.len() - 1;
    let st = stack.drop_last();
    let o2 = out.push(k);
    assert(leave_at(stack, t) == Some(k));
    assert forall|x: usize| out.contains(x) implies o2.contains(x) by {
        let i = choose|i: int| 0 <= i < out.len() && out[i] == x;
        assert(o2[i] == x);
    }
    assert(o2.contains(k)) by {
        assert(o2[out.len() as int] == k);
    }
    assert forall|p: int| 0 <= p < st.len() implies #[trigger] leave_at(st, p) == leave_at(stack, p)
        && enter_at(st, p) == enter_at(stack, p) by {}
    assert forall|p: int, q: int|
        0 <= p < q < st.len() && #[trigger] leave_at(st, p) is Some && #[trigger] leave_at(st, q) is Some
        implies level(leave_at(st, q)->0 as int) < level(leave_at(st, p)->0 as int) by {
        assert(leave_at(st, p) == leave_at(stack, p));
        assert(leave_at(st, q) == leave_at(stack, q));
    }
    assert forall|p: int, q: int|
        0 <= p < q < st.len() && #[trigger] leave_at(st, p) is Some && #[trigger] enter_at(st, q) is Some
            && m0.contains_key(enter_at(st, q)->0) implies level(m0[enter_at(st, q)->0] as int) < level(
        leave_at(st, p)->0 as int,
    ) by {
        assert(leave_at(st, p) == leave_at(stack, p));
        assert(enter_at(st, q) == enter_at(stack, q));
    }
    assert forall|p: int| 0 <= p < st.len() && #[trigger] leave_at(st, p) is Some implies leave_at(st, p)->0 < projs.len() by {
        assert(leave_at(st, p) == leave_at(stack, p));
    }
    assert forall|p: int, d: u128|
        0 <= p < st.len() && leave_at(st, p) is Some && #[trigger] needs(projs, m0, leave_at(st, p)->0 as int, d)
        implies o2.contains(m0[d]) || pending(st, p, d, m0) by {
        assert(leave_at(st, p) == leave_at(stack, p));
        if !out.contains(m0[d]) {
            let q = choose|q: int| p < q < stack.len() && (#[trigger] stack[q] == Step::Enter(d) || stack[q] == Step::Leave(m0[d]));
            if q < t {
                assert(st[q] == stack[q]);
            }
        }
    }
    assert forall|d: u128| #[trigger] m0.contains_key(d) && !m.contains_key(d)
        implies o2.contains(m0[d]) || exists|q: int| 0 <= q < st.len() && #[trigger] st[q] == Step::Leave(m0[d]) by {
        if !out.contains(m0[d]) {
            let q = choose|q: int| 0 <= q < stack.len() && #[trigger] stack[q] == Step::Leave(m0[d]);
            if q < t {
                assert(st[q] == stack[q]);
            }
        }
    }
    assert forall|i: int, d: u128| 0 <= i < o2.len() && #[trigger] needs(projs, m0, o2[i] as int, d)
        implies o2.take(i).contains(m0[d]) by {
        if i < out.len() {
            assert(o2.take(i) =~= out.take(i));
            assert(o2[i] == out[i]);
        } else {
            assert(o2.take(i) =~= out);
            assert(!pending(stack, t, d, m0));
        }
    }
}

proof fn lemma_walk_state_skip(
    projs: Seq<ProjectView>,
    m0: Map<u128, usize>,
    level: spec_fn(int) -> int,
    m: Map<u128, usize>,
    stack: Seq<Step>,
    out: Seq<usize>,
    u: u128,
)
    requires
        walk_state(projs, m0, level, m, stack, out),
        stack.len() > 0,
        stack.last() == Step::Enter(u),
        !m.contains_key(u),
    ensures
        walk_state(projs, m0, level, m, stack.drop_last(), out),
{
    let t = stack.len() - 1;
    let st = stack.drop_last();
    assert(enter_at(stack, t) == Some(u));
    assert forall|p: int| 0 <= p < st.len() implies #[trigger] leave_at(st, p) == leave_at(stack, p)
        && enter_at(st, p) == enter_at(stack, p) by {}
    assert forall|p: int, q: int|
        0 <= p < q < st.len() && #[trigger] leave_at(st, p) is Some && #[trigger] leave_at(st, q) is Some
        implies level(leave_at(st, q)->0 as int) < level(leave_at(st, p)->0 as int) by {
        assert(leave_at(st, p) == leave_at(stack, p));
        assert(leave_at(st, q) == leave_at(stack, q));
    }
    assert forall|p: int, q: int|
        0 <= p < q < st.len() && #[trigger] leave_at(st, p) is Some && #[trigger] enter_at(st, q) is Some
            && m0.contains_key(enter_at(st, q)->0) implies level(m0[enter_at(st, q)->0] as int) < level(
        leave_at(st, p)->0 as int,
    ) by {
        assert(leave_at(st, p) == leave_at(stack, p));
        assert(enter_at(st, q) == enter_at(stack, q));
    }
    assert forall|p: int| 0 <= p < st.len() && #[trigger] leave_at(st, p) is Some implies leave_at(st, p)->0 < projs.len() by {
        assert(leave_at(st, p) == leave_at(stack, p));
    }
    assert forall|p: int, d: u128|
        0 <= p < st.len() && leave_at(st, p) is Some && #[trigger] needs(projs, m0, leave_at(st, p)->0 as int, d)
        implies out.contains(m0[d]) || pending(st, p, d, m0) by {
        assert(leave_at(st, p) == leave_at(stack, p));
        let k = leave_at(stack, p)->0;
        if !out.contains(m0[d]) {
            let q = choose|q: int| p < q < stack.len() && (#[trigger] stack[q] == Step::Enter(d) || stack[q] == Step::Leave(m0[d]));
            if q < t {
                assert(st[q] == stack[q]);
            } else {
                assert(d == u);
                let q2 = choose|q2: int| 0 <= q2 < stack.len() && #[trigger] stack[q2] == Step::Leave(m0[d]);
                assert(leave_at(stack, q2) == Some(m0[d]));
                assert(level(m0[d] as int) < level(k as int));
                if q2 < p {
                    assert(level(k as int) < level(m0[d] as int));
                } else if q2 == p {
                } else {
                    assert(st[q2] == stack[q2]);
                }
            }
        }
    }
    assert forall|d: u128| #[trigger] m0.contains_key(d) && !m.contains_key(d)
        implies out.contains(m0[d]) || exists|q: int| 0 <= q < st.len() && #[trigger] st[q] == Step::Leave(m0[d]) by {
        if !out.contains(m0[d]) {
            let q = choose|q: int| 0 <= q < stack.len() && #[trigger] stack[q] == Step::Leave(m0[d]);
            assert(q != t);
            assert(st[q] == stack[q]);
        }
    }
}

proof fn lemma_walk_state_enter(
    projs: Seq<ProjectView>,
    m0: Map<u128, usize>,
    level: spec_fn(int) -> int,
    m: Map<u128, usize>,
    stack: Seq<Step>,
    out: Seq<usize>,
    u: u128,
)
    requires
        walk_state(projs, m0, level, m, stack, out),
        stack.len() > 0,
        stack.last() == Step::Enter(u),
        m.contains_key(u),
        forall|k: int, d: u128| 0 <= k < projs.len() && #[trigger] needs(projs, m0, k, d) ==> level(m0[d] as int) < level(k),
    ensures
        walk_state(
            projs,
            m0,
            level,
            m.remove(u),
            stack.drop_last().push(Step::Leave(m[u])) + enters(deps_of(projs[m[u] as int])),
            out,
        ),
{
    let t = stack.len() - 1;
    let k = m[u];
    let ds = deps_of(projs[k as int]);
    let es = enters(ds);
    let st = stack.drop_last().push(Step::Leave(k)) + es;
    let m2 = m.remove(u);
    assert(enter_at(stack, t) == Some(u));
    assert(m0[u] == k && k < projs.len());
    assert(st.len() == stack.len() + ds.len());
    assert forall|q: int| t < q < st.len() implies #[trigger] st[q] == Step::Enter(ds[ds.len() - 1 - (q - t - 1)]) by {
        assert(st[q] == es[q - t - 1]);
    }
    assert forall|p: int| 0 <= p < t implies #[trigger] st[p] == stack[p] by {}
    assert(st[t] == Step::Leave(k));
    assert forall|p: int| 0 <= p < st.len() && #[trigger] leave_at(st, p) is Some implies leave_at(st, p)->0 < projs.len() by {
        if p < t {
            assert(leave_at(st, p) == leave_at(stack, p));
        } else if p > t {
            assert(st[p] == Step::Enter(ds[ds.len() - 1 - (p - t - 1)]));
        }
    }
    assert forall|p: int, d: u128|
        0 <= p < st.len() && leave_at(st, p) is Some && #[trigger] needs(projs, m0, leave_at(st, p)->0 as int, d)
        implies out.contains(m0[d]) || pending(st, p, d, m0) by {
        if p == t {
            let j = choose|j: int| 0 <= j < ds.len() && ds[j] == d;
            let q = t + 1 + (ds.len() - 1 - j);
            assert(st[q] == Step::Enter(ds[ds.len() - 1 - (q - t - 1)]));
            assert(st[q] == Step::Enter(d));
        } else if p > t {
            assert(st[p] == Step::Enter(ds[ds.len() - 1 - (p - t - 1)]));
        } else {
            assert(leave_at(st, p) == leave_at(stack, p));
            if !out.contains(m0[d]) {
                let q = choose|q: int| p < q < stack.len() && (#[trigger] stack[q] == Step::Enter(d) || stack[q] == Step::Leave(m0[d]));
                if q < t {
                    assert(st[q] == stack[q]);
                } else {
                    assert(d == u);
                    assert(st[t] == Step::Leave(m0[d]));
                }
            }
        }
    }
    assert forall|p: int, q: int|
        0 <= p < q < st.len() && #[trigger] leave_at(st, p) is Some && #[trigger] leave_at(st, q) is Some
        implies level(leave_at(st, q)->0 as int) < level(leave_at(st, p)->0 as int) by {
        if q > t {
            assert(st[q] == Step::Enter(ds[ds.len() - 1 - (q - t - 1)]));
        } else if q == t {
            assert(leave_at(st, p) == leave_at(stack, p));
            assert(leave_at(stack, p) is Some && enter_at(stack, t) is Some);
        } else {
            assert(leave_at(st, p) == leave_at(stack, p));
            assert(leave_at(st, q) == leave_at(stack, q));
        }
    }
    assert forall|p: int, q: int|
        0 <= p < q < st.len() && #[trigger] leave_at(st, p) is Some && #[trigger] enter_at(st, q) is Some
            && m0.contains_key(enter_at(st, q)->0) implies level(m0[enter_at(st, q)->0] as int) < level(
        leave_at(st, p)->0 as int,
    ) by {
        if p > t {
            assert(st[p] == Step::Enter(ds[ds.len() - 1 - (p - t - 1)]));
        } else if q <= t {
            assert(leave_at(st, p) == leave_at(stack, p));
            assert(enter_at(st, q) == enter_at(stack, q));
        } else {
            let d = ds[ds.len() - 1 - (q - t - 1)];
            assert(st[q] == Step::Enter(d));
            assert(ds.contains(d));
            assert(needs(projs, m0, k as int, d));
            if p < t {
                assert(leave_at(st, p) == leave_at(stack, p));
                assert(leave_at(stack, p) is Some && enter_at(stack, t) is Some);
            }
        }
    }
    assert forall|d: u128| #[trigger] m0.contains_key(d) && !m2.contains_key(d)
        implies out.contains(m0[d]) || exists|q: int| 0 <= q < st.len() && #[trigger] st[q] == Step::Leave(m0[d]) by {
        if d == u {
            assert(st[t] == Step::Leave(m0[d]));
        } else if !out.contains(m0[d]) {
            let q = choose|q: int| 0 <= q < stack.len() && #[trigger] stack[q] == Step::Leave(m0[d]);
            assert(q != t);
            assert(st[q] == stack[q]);
        }
    }
}

proof fn lemma_walk_needs_first(
    projs: Seq<ProjectView>,
    m0: Map<u128, usize>,
    level: spec_fn(int) -> int,
    m: Map<u128, usize>,
    stack: Seq<Step>,
    out: Seq<usize>,
)
    requires
        walk_state(projs, m0, level, m, stack, out),
        forall|k: int, d: u128| 0 <= k < projs.len() && #[trigger] needs(projs, m0, k, d) ==> level(m0[d] as int) < level(k),
    ensures
        needs_first(projs, m0, out + post_walk(projs, m, stack)),
    decreases m.dom().len(), stack.len(),
{
    if stack.len() == 0 {
        assert(out + post_walk(projs, m, stack) =~= out);
    } else {
        match stack.last() {
            Step::Leave(k) => {
                lemma_walk_state_leave(projs, m0, level, m, stack, out, k);
                lemma_walk_needs_first(projs, m0, level, m, stack.drop_last(), out.push(k));
                assert(out + post_walk(projs, m, stack) =~= out.push(k) + post_walk(projs, m, stack.drop_last()));
            },
            Step::Enter(u) => {
                if m.contains_key(u) {
                    lemma_walk_state_enter(projs, m0, level, m, stack, out, u);
                    assert(m.remove(u).dom() =~= m.dom().remove(u));
                    lemma_walk_needs_first(
                        projs,
                        m0,
                        level,
                        m.remove(u),
                        stack.drop_last().push(Step::Leave(m[u])) + enters(deps_of(projs[m[u] as int])),
                        out,
                    );
                } else {
                    lemma_walk_state_skip(projs, m0, level, m, stack, out, u);
                    lemma_walk_needs_first(projs, m0, level, m, stack.drop_last(), out);
                }
            },
        }
    }
}

/// A walk lists only projects filed in `m` or listed by a step on the
/// stack, none twice, when the stack lists none twice and none filed.
proof fn lemma_walk_lists_once(projs: Seq<ProjectView>, m: Map<u128, usize>, stack: Seq<Step>)
    requires
        m.dom().finite(),
        forall|u: u128| #[trigger] m.contains_key(u) ==> m[u] < projs.len() && projs[m[u] as int].uuid == u,
        forall|p: int, q: int|
            0 <= p < q < stack.len() && #[trigger] leave_at(stack, p) is Some && #[trigger] leave_at(stack, q) is Some
                ==> leave_at(stack, p) != leave_at(stack, q),
        forall|p: int|
            0 <= p < stack.len() && #[trigger] leave_at(stack, p) is Some ==> leave_at(stack, p)->0 < projs.len()
                && !m.contains_key(projs[leave_at(stack, p)->0 as int].uuid),
    ensures
        post_walk(projs, m, stack).no_duplicates(),
        forall|j: int| 0 <= j < post_walk(projs, m, stack).len() ==> {
            let k = #[trigger] post_walk(projs, m, stack)[j];
            ||| (k < projs.len() && m.contains_key(projs[k as int].uuid) && m[projs[k as int].uuid] == k)
            ||| exists|p: int| 0 <= p < stack.len() && #[trigger] leave_at(stack, p) == Some(k)
        },
    decreases m.dom().len(), stack.len(),
{
    if stack.len() > 0 {
        let t = stack.len() - 1;
        let st = stack.drop_last();
        assert forall|p: int| 0 <= p < st.len() implies #[trigger] leave_at(st, p) == leave_at(stack, p) by {}
        match stack.last() {
            Step::Leave(k) => {
                assert(leave_at(stack, t) == Some(k));
                lemma_walk_lists_once(projs, m, st);
                let rest = post_walk(projs, m, st);
                let w = post_walk(projs, m, stack);
                assert(w == seq![k] + rest);
                assert forall|j: int| 0 <= j < rest.len() implies #[trigger] rest[j] != k by {
                    let x = rest[j];
                    if exists|p: int| 0 <= p < st.len() && #[trigger] leave_at(st, p) == Some(x) {
                        let p = choose|p: int| 0 <= p < st.len() && #[trigger] leave_at(st, p) == Some(x);
                        assert(leave_at(stack, p) == leave_at(stack, t) ==> false);
                    }
                }
                assert forall|a: int, b: int| 0 <= a < b < w.len() implies w[a] != w[b] by {
                    if a == 0 {
                        assert(w[b] == rest[b - 1]);
                    } else {
                        assert(w[a] == rest[a - 1] && w[b] == rest[b - 1]);
                    }
                }
                assert forall|j: int| 0 <= j < w.len() implies {
                    let k = #[trigger] w[j];
                    ||| (k < projs.len() && m.contains_key(projs[k as int].uuid) && m[projs[k as int].uuid] == k)
                    ||| exists|p: int| 0 <= p < stack.len() && #[trigger] leave_at(stack, p) == Some(k)
                } by {
                    if j == 0 {
                        assert(leave_at(stack, t) == Some(w[j]));
                    } else {
                        let x = rest[j - 1];
                        assert(w[j] == x);
                        if exists|p: int| 0 <= p < st.len() && #[trigger] leave_at(st, p) == Some(x) {
                            let p = choose|p: int| 0 <= p < st.len() && #[trigger] leave_at(st, p) == Some(x);
                            assert(leave_at(stack, p) == Some(x));
                        }
                    }
                }
            },
            Step::Enter(u) => {
                if m.contains_key(u) {
                    let k = m[u];
                    let ds = deps_of(projs[k as int]);
                    let st2 = st.push(Step::Leave(k)) + enters(ds);
                    let m2 = m.remove(u);
                    assert(m2.dom() =~= m.dom().remove(u));
                    assert forall|q: int| t < q < st2.len() implies #[trigger] leave_at(st2, q) is None by {
                        assert(st2[q] == enters(ds)[q - t - 1]);
                    }
                    assert forall|p: int| 0 <= p < t implies #[trigger] leave_at(st2, p) == leave_at(stack, p) by {
                        assert(st2[p] == stack[p]);
                    }
                    assert(leave_at(st2, t) == Some(k));
                    assert(projs[k as int].uuid == u);
                    assert forall|p: int| 0 <= p < t && #[trigger] leave_at(stack, p) is Some implies leave_at(stack, p)
                        != Some(k) by {
                        assert(!m.contains_key(projs[leave_at(stack, p)->0 as int].uuid));
                    }
                    lemma_walk_lists_once(projs, m2, st2);
                    let w = post_walk(projs, m2, st2);
                    assert forall|j: int| 0 <= j < w.len() implies {
                        let x = #[trigger] w[j];
                        ||| (x < projs.len() && m.contains_key(projs[x as int].uuid) && m[projs[x as int].uuid] == x)
                        ||| exists|p: int| 0 <= p < stack.len() && #[trigger] leave_at(stack, p) == Some(x)
                    } by {
                        let x = w[j];
                        if exists|p: int| 0 <= p < st2.len() && #[trigger] leave_at(st2, p) == Some(x) {
                            let p = choose|p: int| 0 <= p < st2.len() && #[trigger] leave_at(st2, p) == Some(x);
                            if p < t {
                                assert(leave_at(stack, p) == Some(x));
                            } else if p > t {
                                assert(leave_at(st2, p) is None);
                            }
                        }
                    }
                } else {
                    assert(enter_at(stack, t) == Some(u));
                    lemma_walk_lists_once(projs, m, st);
                    let w = post_walk(projs, m, st);
                    assert forall|j: int| 0 <= j < w.len() implies {
                        let x = #[trigger] w[j];
                        ||| (x < projs.len() && m.contains_key(projs[x as int].uuid) && m[projs[x as int].uuid] == x)
                        ||| exists|p: int| 0 <= p < stack.len() && #[trigger] leave_at(stack, p) == Some(x)
                    } by {
                        let x = w[j];
                        if exists|p: int| 0 <= p < st.len() && #[trigger] leave_at(st, p) == Some(x) {
                            let p = choose|p: int| 0 <= p < st.len() && #[trigger] leave_at(st, p) == Some(x);
                            assert(leave_at(stack, p) == Some(x));
                        }
                    }
                }
            },
        }
    }
}

/// A walk whose bottom step lists `k` lists `k` last.
proof fn lemma_walk_ends_with(projs: Seq<ProjectView>, m: Map<u128, usize>, stack: Seq<Step>, k: usize)
    requires
        m.dom().finite(),
        stack.len() > 0,
        stack[0] == Step::Leave(k),
    ensures
        post_walk(projs, m, stack).len() > 0,
        post_walk(projs, m, stack).last() == k,
    decreases m.dom().len(), stack.len(),
{
    let t = stack.len() - 1;
    if t == 0 {
        assert(stack.drop_last() =~= Seq::<Step>::empty());
        assert(stack.last() == Step::Leave(k));
        assert(post_walk(projs, m, stack.drop_last()) =~= Seq::<usize>::empty());
        assert(post_walk(projs, m, stack) =~= seq![k] + Seq::<usize>::empty());
        assert(seq![k] + Seq::<usize>::empty() =~= seq![k]);
    } else {
        let st = stack.drop_last();
        assert(st[0] == stack[0]);
        match stack.last() {
            Step::Leave(x) => {
                lemma_walk_ends_with(projs, m, st, k);
            },
            Step::Enter(u) => {
                if m.contains_key(u) {
                    let st2 = st.push(Step::Leave(m[u])) + enters(deps_of(projs[m[u] as int]));
                    assert(st2[0] == stack[0]);
                    assert(m.remove(u).dom() =~= m.dom().remove(u));
                    lemma_walk_ends_with(projs, m.remove(u), st2, k);
                } else {
                    lemma_walk_ends_with(projs, m, st, k);
                }
            },
        }
    }
}

/// Law: the projects found for a name are each a project of the solution,
/// none found twice, and the last one is the one that holds the GUID of the
/// first project with that name (the most specific comes last).
pub proof fn lemma_dependency_order(projs: Seq<ProjectView>, name: Seq<char>)
    requires
        projs.len() <= usize::MAX,
    ensures
        match dependency_order(projs, name) {
            Some(v) => {
                let i = first_named(projs, name, 0)->0;
                let w = post_walk(projs, uuid_index(projs), seq![Step::Enter(projs[i].uuid)]);
                &&& 0 <= i < projs.len() && projs[i].name == name
                &&& w.no_duplicates()
                &&& forall|j: int| 0 <= j < w.len() ==> 0 <= #[trigger] w[j] < projs.len()
                &&& v.len() == w.len() > 0
                &&& v.last().uuid == projs[i].uuid
            },
            None => forall|i: int| 0 <= i < projs.len() ==> projs[i].name != name,
        },
{
    lemma_uuid_index(projs);
    lemma_first_named(projs, name, 0);
    match first_named(projs, name, 0) {
        Some(i) => {
            let m = uuid_index(projs);
            let u = projs[i].uuid;
            let start = seq![Step::Enter(u)];
            assert(leave_at(start, 0) is None);
            lemma_walk_lists_once(projs, m, start);
            let w = post_walk(projs, m, start);
            let k = m[u];
            let st2 = Seq::<Step>::empty().push(Step::Leave(k)) + enters(deps_of(projs[k as int]));
            assert(start.drop_last() =~= Seq::<Step>::empty());
            assert(m.remove(u).dom() =~= m.dom().remove(u));
            assert(w == post_walk(projs, m.remove(u), st2));
            assert(st2[0] == Step::Leave(k));
            lemma_walk_ends_with(projs, m.remove(u), st2, k);
            assert forall|j: int| 0 <= j < w.len() implies 0 <= #[trigger] w[j] < projs.len() by {
                if exists|p: int| 0 <= p < start.len() && #[trigger] leave_at(start, p) == Some(w[j]) {
                    let p = choose|p: int| 0 <= p < start.len() && #[trigger] leave_at(start, p) == Some(w[j]);
                    assert(p == 0);
                }
            }
            let v = w.map_values(|x: usize| projs[x as int]);
            assert(v.last() == projs[k as int]);
        },
        None => {},
    }
}

/// Law: when the dependencies have no cycle (shown by a numbering `level`
/// in which every project numbers higher than each project of the solution
/// that it lists as a dependency), every project found comes after each
/// project it depends on, and those are found too.
pub proof fn lemma_dependencies_first(projs: Seq<ProjectView>, name: Seq<char>, level: spec_fn(int) -> int)
    requires
        projs.len() <= usize::MAX,
        forall|k: int, d: u128|
            0 <= k < projs.len() && #[trigger] needs(projs, uuid_index(projs), k, d) ==> level(
                uuid_index(projs)[d] as int,
            ) < level(k),
    ensures
        dependency_order(projs, name) is Some ==> needs_first(
            projs,
            uuid_index(projs),
            post_walk(projs, uuid_index(projs), seq![Step::Enter(projs[first_named(projs, name, 0)->0].uuid)]),
        ),
{
    lemma_uuid_index(projs);
    lemma_first_named(projs, name, 0);
    if let Some(i) = first_named(projs, name, 0) {
        let m0 = uuid_index(projs);
        let start = seq![Step::Enter(projs[i].uuid)];
        let none = Seq::<usize>::empty();
        assert(leave_at(start, 0) is None);
        assert(enter_at(start, 0) is Some);
        assert(walk_state(projs, m0, level, m0, start, none));
        lemma_walk_needs_first(projs, m0, level, m0, start, none);
        assert(none + post_walk(projs, m0, start) =~= post_walk(projs, m0, start));
    }
}

pub proof fn lemma_first_named(projs: Seq<ProjectView>, name: Seq<char>, i: int)
    requires
        0 <= i,
    ensures
        match first_named(projs, name, i) {
            Some(k) => i <= k < projs.len() && projs[k].name == name,
            None => forall|j: int| i <= j < projs.len() ==> projs[j].name != name,
        },
    decreases projs.len() - i,
{
    if i < projs.len() && projs[i].name != name {
        lemma_first_named(projs, name, i + 1);
    }
}

} // verus!
