//! The librarian tool (`VCLibrarianTool`) and the object files of a project.
use vstd::prelude::*;
use crate::env::{EnvView, MsBuildEnvironment};
use crate::flags::{Flags, SpecFlags};
use crate::paths::{clean, pathdiff, pathdiff_spec};
use crate::text::{
    chars_of, clone_opt_string, join, join_strings, lemma_nonempty_step, list_or_empty, make_quoted,
    nonempty, opt_list_view, opt_view, opt_word, push_char, push_str, push_word, quoted,
    seq_of_strings, str_eq, trim, trim_char,
};
use crate::tool_cl::first_config;
use crate::tool_cl::lemma_first_config;
use crate::values::{VcprojError, XmlErr, flag_number, err_view, flag_err, parse_flag_number};
use crate::vcproj::{Configuration, File, Files, Filter, VCProject};
use crate::winpath::{
    extension, extension_spec, file_name, file_name_spec, file_stem, file_stem_spec, join_path,
    join_spec, normalize_lexically, normalize_spec, parent, parent_spec,
};

verus! {

#[derive(Debug)]
pub struct LibTool {
    pub additional_options: Option<String>,
    /// May hold macros such as `$(SolutionDir)`.
    pub output_file: Option<String>,
    pub additional_library_directories: Option<Vec<String>>,
    pub ignore_default_library_names: Option<Vec<String>>,
    pub suppress_startup_banner: Option<SuppressStartupBanner>,
}

/// Values of the `SuppressStartupBanner` attribute and their command-line text.
#[derive(Clone, Copy, Debug, PartialEq, Eq, Structural, Hash)]
pub enum SuppressStartupBanner {
    _0,
    _1,
}

impl SuppressStartupBanner {
    /// The value for an attribute number.
    pub open spec fn of_value(v: i8) -> Option<SuppressStartupBanner> {
        if v == 0 {
            Some(SuppressStartupBanner::_0)
        } else if v == 1 {
            Some(SuppressStartupBanner::_1)
        } else {
            None
        }
    }

    /// The command-line text of the value.
    pub open spec fn text(self) -> Seq<char> {
        match self {
            SuppressStartupBanner::_0 => ""@,
            SuppressStartupBanner::_1 => "/NOLOGO"@,
        }
    }

    pub fn as_str(&self) -> (r: &'static str)
        ensures
            r@ == self.text(),
    {
        match self {
            SuppressStartupBanner::_0 => "",
            SuppressStartupBanner::_1 => "/NOLOGO",
        }
    }

    pub fn from_value(v: i8) -> (r: Option<SuppressStartupBanner>)
        ensures
            r == SuppressStartupBanner::of_value(v),
    {
        if v == 0 {
            Some(SuppressStartupBanner::_0)
        } else if v == 1 {
            Some(SuppressStartupBanner::_1)
        } else {
            None
        }
    }

    /// The value of an attribute text.
    pub open spec fn parse_spec(s: Seq<char>) -> Option<SuppressStartupBanner> {
        match flag_number(s, true) {
            Some(v) => SuppressStartupBanner::of_value(v),
            None => None,
        }
    }

    /// The refusal of a text that is not a value of this kind.
    pub open spec fn parse_err(s: Seq<char>) -> XmlErr {
        flag_err("SuppressStartupBanner"@, s, true)
    }

    pub fn parse(s: &str) -> (r: Result<SuppressStartupBanner, VcprojError>)
        ensures
            match r {
                Ok(x) => SuppressStartupBanner::parse_spec(s@) == Some(x),
                Err(e) => SuppressStartupBanner::parse_spec(s@) is None && err_view(e) == SuppressStartupBanner::parse_err(s@),
            },
    {
        match parse_flag_number(s, true) {
            Ok(v) => match SuppressStartupBanner::from_value(v) {
                Some(x) => Ok(x),
                None => Err(VcprojError::InvalidFlag("SuppressStartupBanner".to_owned(), v)),
            },
            Err(e) => Err(e),
        }
    }
}

impl SuppressStartupBanner {
    /// The text of an optional value; nothing when absent.
    pub open spec fn opt_text(o: Option<SuppressStartupBanner>) -> Seq<char> {
        match o {
            Some(x) => x.text(),
            None => Seq::empty(),
        }
    }

    pub fn opt_as_str(o: &Option<SuppressStartupBanner>) -> (r: &'static str)
        ensures
            r@ == SuppressStartupBanner::opt_text(*o),
    {
        match o {
            Some(x) => x.as_str(),
            None => {
                proof {
                    reveal_strlit("");
                }
                ""
            },
        }
    }
}


/// A source of the librarian: its path and its `ObjectFile` setting.
pub type LibEntry = (Seq<char>, Option<Seq<char>>);

/// A `.c` or `.cpp` file that the configuration `cfg` builds, with the object
/// file its compiler settings name.
pub open spec fn lib_own_entry(f: File, cfg: Seq<char>) -> Seq<LibEntry> {
    let e = extension_spec(f.relative_path@);
    if e == Some("c"@) || e == Some("cpp"@) {
        match first_config(f.file_configurations@, cfg) {
            Some(i) => if f.file_configurations@[i].excluded_from_build == Some(true) {
                Seq::empty()
            } else {
                seq![(f.relative_path@, opt_view((f.file_configurations@[i].tool->0).object_file))]
            },
            None => seq![(f.relative_path@, None)],
        }
    } else {
        Seq::empty()
    }
}

pub open spec fn lib_file_entries(f: File, cfg: Seq<char>) -> Seq<LibEntry>
    decreases f, 0nat,
{
    lib_files_entries(f.files@, cfg) + lib_own_entry(f, cfg)
}

pub open spec fn lib_files_entries(fs: Seq<File>, cfg: Seq<char>) -> Seq<LibEntry>
    decreases fs, 1nat,
{
    if fs.len() == 0 {
        Seq::empty()
    } else {
        lib_files_entries(fs.drop_last(), cfg) + lib_file_entries(fs.last(), cfg)
    }
}

pub open spec fn lib_filter_entries(f: Filter, cfg: Seq<char>) -> Seq<LibEntry>
    decreases f, 0nat,
{
    lib_filters_entries(f.filters@, cfg) + lib_files_entries(f.files@, cfg)
}

pub open spec fn lib_filters_entries(fs: Seq<Filter>, cfg: Seq<char>) -> Seq<LibEntry>
    decreases fs, 1nat,
{
    if fs.len() == 0 {
        Seq::empty()
    } else {
        lib_filters_entries(fs.drop_last(), cfg) + lib_filter_entries(fs.last(), cfg)
    }
}

/// `e` added unless its path is already there.
pub open spec fn add_first(d: Seq<LibEntry>, e: LibEntry) -> Seq<LibEntry> {
    if exists|k: int| 0 <= k < d.len() && #[trigger] d[k].0 == e.0 {
        d
    } else {
        d.push(e)
    }
}

/// The entries of `es` added one by one to `d`, each path once (the first
/// entry of a path wins).
pub open spec fn dedup_into(d: Seq<LibEntry>, es: Seq<LibEntry>) -> Seq<LibEntry>
    decreases es.len(),
{
    if es.len() == 0 {
        d
    } else {
        add_first(dedup_into(d, es.drop_last()), es.last())
    }
}

pub proof fn lemma_dedup_into_append(d: Seq<LibEntry>, a: Seq<LibEntry>, b: Seq<LibEntry>)
    ensures
        dedup_into(d, a + b) == dedup_into(dedup_into(d, a), b),
    decreases b.len(),
{
    if b.len() == 0 {
        assert(a + b =~= a);
    } else {
        assert((a + b).drop_last() =~= a + b.drop_last());
        lemma_dedup_into_append(d, a, b.drop_last());
    }
}

/// The sources of the librarian in the configuration `cfg`, each path once,
/// in the order of the project file.
pub open spec fn lib_sources(files: Files, cfg: Seq<char>) -> Seq<LibEntry> {
    dedup_into(
        Seq::empty(),
        lib_filters_entries(files.filters@, cfg) + lib_files_entries(files.files@, cfg),
    )
}

pub open spec fn lib_entries_view(v: Seq<(String, Option<String>)>) -> Seq<LibEntry> {
    v.map_values(|e: (String, Option<String>)| (e.0@, opt_view(e.1)))
}

fn add_source(result: &mut Vec<(String, Option<String>)>, path: String, obj: Option<String>)
    ensures
        lib_entries_view(final(result)@) == add_first(lib_entries_view(old(result)@), (path@, opt_view(obj))),
{
    let ghost d = lib_entries_view(result@);
    let mut i: usize = 0;
    while i < result.len()
        invariant
            i <= result.len(),
            d == lib_entries_view(result@),
            forall|k: int| 0 <= k < i ==> d[k].0 != path@,
        decreases result.len() - i,
    {
        if str_eq(result[i].0.as_str(), path.as_str()) {
            assert(d[i as int].0 == path@);
            return;
        }
        i += 1;
    }
    let ghost e = (path@, opt_view(obj));
    result.push((path, obj));
    assert(lib_entries_view(result@) =~= d.push(e));
}

impl LibTool {
    fn parse_file(result: &mut Vec<(String, Option<String>)>, file: &File, configuration_platform: &str)
        ensures
            lib_entries_view(final(result)@) == dedup_into(
                lib_entries_view(old(result)@),
                lib_file_entries(*file, configuration_platform@),
            ),
        decreases file,
    {
        let ghost d0 = lib_entries_view(result@);
        let mut i: usize = 0;
        assert(file.files@.take(0) =~= Seq::<File>::empty());
        while i < file.files.len()
            invariant
                i <= file.files.len(),
                d0 == lib_entries_view(old(result)@),
                lib_entries_view(result@) == dedup_into(
                    d0,
                    lib_files_entries(file.files@.take(i as int), configuration_platform@),
                ),
            decreases file.files.len() - i,
        {
            assert(decreases_to!(*file => file.files));
            Self::parse_file(result, &file.files[i], configuration_platform);
            proof {
                assert(file.files@.take(i + 1).drop_last() =~= file.files@.take(i as int));
                lemma_dedup_into_append(
                    d0,
                    lib_files_entries(file.files@.take(i as int), configuration_platform@),
                    lib_file_entries(file.files@[i as int], configuration_platform@),
                );
            }
            i += 1;
        }
        assert(file.files@.take(file.files.len() as int) =~= file.files@);
        let ghost d1 = lib_entries_view(result@);
        proof {
            lemma_dedup_into_append(
                d0,
                lib_files_entries(file.files@, configuration_platform@),
                lib_own_entry(*file, configuration_platform@),
            );
            reveal_strlit("c");
            reveal_strlit("cpp");
        }
        let compiled = match extension(file.relative_path.as_str()) {
            Some(e) => str_eq(e.as_str(), "c") || str_eq(e.as_str(), "cpp"),
            None => false,
        };
        if !compiled {
            assert(lib_own_entry(*file, configuration_platform@) =~= Seq::<LibEntry>::empty());
            assert(dedup_into(d1, Seq::<LibEntry>::empty()) == d1);
            return;
        }
        let cs = &file.file_configurations;
        proof {
            lemma_first_config(cs@, configuration_platform@);
        }
        let mut k: usize = 0;
        while k < cs.len() && !(str_eq(cs[k].name.as_str(), configuration_platform) && cs[k].tool.is_some())
            invariant
                k <= cs.len(),
                cs == &file.file_configurations,
                forall|j: int| 0 <= j < k ==> !(cs@[j].name@ == configuration_platform@ && #[trigger] cs@[j].tool is Some),
            decreases cs.len() - k,
        {
            k += 1;
        }
        proof {
            lemma_first_config(cs@, configuration_platform@);
        }
        let obj: Option<String> = if k < cs.len() {
            assert(first_config(cs@, configuration_platform@) == Some(k as int));
            if cs[k].excluded_from_build == Some(true) {
                assert(lib_own_entry(*file, configuration_platform@) =~= Seq::<LibEntry>::empty());
                assert(dedup_into(d1, Seq::<LibEntry>::empty()) == d1);
                return;
            }
            match &cs[k].tool {
                Some(t) => clone_opt_string(&t.object_file),
                None => None,
            }
        } else {
            assert(first_config(cs@, configuration_platform@) is None);
            None
        };
        let ghost e = (file.relative_path@, opt_view(obj));
        assert(lib_own_entry(*file, configuration_platform@) =~= seq![e]);
        add_source(result, file.relative_path.clone(), obj);
        assert(dedup_into(d1, seq![e]) == add_first(d1, e)) by {
            assert(seq![e].drop_last() =~= Seq::<LibEntry>::empty());
            assert(dedup_into(d1, Seq::<LibEntry>::empty()) == d1);
        }
    }

    fn parse_filter(result: &mut Vec<(String, Option<String>)>, filter: &Filter, configuration_platform: &str)
        ensures
            lib_entries_view(final(result)@) == dedup_into(
                lib_entries_view(old(result)@),
                lib_filter_entries(*filter, configuration_platform@),
            ),
        decreases filter,
    {
        let ghost d0 = lib_entries_view(result@);
        let mut i: usize = 0;
        assert(filter.filters@.take(0) =~= Seq::<Filter>::empty());
        while i < filter.filters.len()
            invariant
                i <= filter.filters.len(),
                d0 == lib_entries_view(old(result)@),
                lib_entries_view(result@) == dedup_into(
                    d0,
                    lib_filters_entries(filter.filters@.take(i as int), configuration_platform@),
                ),
            decreases filter.filters.len() - i,
        {
            assert(decreases_to!(*filter => filter.filters));
            Self::parse_filter(result, &filter.filters[i], configuration_platform);
            proof {
                assert(filter.filters@.take(i + 1).drop_last() =~= filter.filters@.take(i as int));
                lemma_dedup_into_append(
                    d0,
                    lib_filters_entries(filter.filters@.take(i as int), configuration_platform@),
                    lib_filter_entries(filter.filters@[i as int], configuration_platform@),
                );
            }
            i += 1;
        }
        assert(filter.filters@.take(filter.filters.len() as int) =~= filter.filters@);
        let ghost d1 = lib_entries_view(result@);
        let mut j: usize = 0;
        assert(filter.files@.take(0) =~= Seq::<File>::empty());
        while j < filter.files.len()
            invariant
                j <= filter.files.len(),
                lib_entries_view(result@) == dedup_into(
                    d1,
                    lib_files_entries(filter.files@.take(j as int), configuration_platform@),
                ),
            decreases filter.files.len() - j,
        {
            Self::parse_file(result, &filter.files[j], configuration_platform);
            proof {
                assert(filter.files@.take(j + 1).drop_last() =~= filter.files@.take(j as int));
                lemma_dedup_into_append(
                    d1,
                    lib_files_entries(filter.files@.take(j as int), configuration_platform@),
                    lib_file_entries(filter.files@[j as int], configuration_platform@),
                );
            }
            j += 1;
        }
        assert(filter.files@.take(filter.files.len() as int) =~= filter.files@);
        proof {
            lemma_dedup_into_append(
                d0,
                lib_filters_entries(filter.filters@, configuration_platform@),
                lib_files_entries(filter.files@, configuration_platform@),
            );
        }
    }

    /// The sources of the librarian (see [`lib_sources`]).
    pub fn parse_files(files: &Files, configuration_platform: &str) -> (r: Vec<(String, Option<String>)>)
        ensures
            lib_entries_view(r@) == lib_sources(*files, configuration_platform@),
    {
        let mut result: Vec<(String, Option<String>)> = Vec::new();
        assert(lib_entries_view(result@) =~= Seq::<LibEntry>::empty());
        let ghost d0 = lib_entries_view(result@);
        let mut i: usize = 0;
        assert(files.filters@.take(0) =~= Seq::<Filter>::empty());
        while i < files.filters.len()
            invariant
                i <= files.filters.len(),
                d0 == Seq::<LibEntry>::empty(),
                lib_entries_view(result@) == dedup_into(
                    d0,
                    lib_filters_entries(files.filters@.take(i as int), configuration_platform@),
                ),
            decreases files.filters.len() - i,
        {
            Self::parse_filter(&mut result, &files.filters[i], configuration_platform);
            proof {
                assert(files.filters@.take(i + 1).drop_last() =~= files.filters@.take(i as int));
                lemma_dedup_into_append(
                    d0,
                    lib_filters_entries(files.filters@.take(i as int), configuration_platform@),
                    lib_filter_entries(files.filters@[i as int], configuration_platform@),
                );
            }
            i += 1;
        }
        assert(files.filters@.take(files.filters.len() as int) =~= files.filters@);
        let ghost d1 = lib_entries_view(result@);
        let mut j: usize = 0;
        assert(files.files@.take(0) =~= Seq::<File>::empty());
        while j < files.files.len()
            invariant
                j <= files.files.len(),
                lib_entries_view(result@) == dedup_into(
                    d1,
                    lib_files_entries(files.files@.take(j as int), configuration_platform@),
                ),
            decreases files.files.len() - j,
        {
            Self::parse_file(&mut result, &files.files[j], configuration_platform);
            proof {
                assert(files.files@.take(j + 1).drop_last() =~= files.files@.take(j as int));
                lemma_dedup_into_append(
                    d1,
                    lib_files_entries(files.files@.take(j as int), configuration_platform@),
                    lib_file_entries(files.files@[j as int], configuration_platform@),
                );
            }
            j += 1;
        }
        assert(files.files@.take(files.files.len() as int) =~= files.files@);
        proof {
            lemma_dedup_into_append(
                d0,
                lib_filters_entries(files.filters@, configuration_platform@),
                lib_files_entries(files.files@, configuration_platform@),
            );
        }
        result
    }
}


/// The project's directory: the solution directory joined with the
/// project's path, normalized, without the file name.
pub open spec fn vcproj_dir_spec(solution_dir: Seq<char>, vcproj_rpath: Seq<char>) -> Seq<char> {
    let n = normalize_spec(join_spec(solution_dir, vcproj_rpath))->0;
    match parent_spec(n) {
        Some(p) => p,
        None => n,
    }
}

/// The macros while the source `src` is handled: `InputName` is its stem.
pub open spec fn source_env(env: EnvView, src: Seq<char>) -> EnvView {
    EnvView { input_name: file_stem_spec(src)->0, ..env }
}

/// The file that names the object of a source: its `ObjectFile` setting
/// (expanded, trimmed, unquoted), else the source itself.
pub open spec fn obj_source(env: EnvView, e: LibEntry) -> Seq<char> {
    match e.1 {
        Some(o) => trim_char(trim(source_env(env, e.0).expand_spec(o)), '"'),
        None => e.0,
    }
}

/// The object file name: the stem of that file's stem, with `.obj`.
pub open spec fn obj_name(s: Seq<char>) -> Seq<char> {
    file_stem_spec(file_stem_spec(s)->0)->0 + ".obj"@
}

/// The object files of the librarian or linker, relative to the project's
/// directory: one per source (see [`lib_sources`]), in the intermediate
/// directory.
pub open spec fn file_flags_spec(files: Files, cfg: Seq<char>, vcproj_rpath: Seq<char>, env: EnvView) -> Seq<Seq<char>> {
    let int_rpath = pathdiff_spec(
        vcproj_dir_spec(env.solution_dir, vcproj_rpath),
        env.expand_spec(env.int_dir),
    );
    lib_sources(files, cfg).map_values(|e: LibEntry| join_spec(int_rpath, obj_name(obj_source(env, e))))
}

/// What one source needs: a file name and stem, an `.obj` override if any,
/// and a stem of the stem of the file naming its object.
pub open spec fn source_ok(env: EnvView, e: LibEntry) -> bool {
    &&& file_name_spec(e.0) is Some
    &&& file_stem_spec(e.0) is Some
    &&& (e.1 is Some ==> extension_spec(obj_source(env, e)) == Some("obj"@))
    &&& file_stem_spec(obj_source(env, e)) is Some
    &&& file_stem_spec(file_stem_spec(obj_source(env, e))->0) is Some
}

/// No two sources have the same file name.
pub open spec fn names_distinct(srcs: Seq<LibEntry>) -> bool {
    forall|i: int, j: int|
        0 <= i < j < srcs.len() ==> file_name_spec(#[trigger] srcs[i].0) != file_name_spec(#[trigger] srcs[j].0)
}

/// What [`LibTool::file_flags`] needs.
pub open spec fn file_flags_ok(files: Files, cfg: Seq<char>, vcproj_rpath: Seq<char>, env: EnvView) -> bool {
    &&& normalize_spec(join_spec(env.solution_dir, vcproj_rpath)) is Some
    &&& forall|k: int| 0 <= k < lib_sources(files, cfg).len() ==> source_ok(env, #[trigger] lib_sources(files, cfg)[k])
    &&& names_distinct(lib_sources(files, cfg))
}

fn stem_of(s: &str) -> (r: String)
    requires
        file_stem_spec(s@) is Some,
    ensures
        r@ == file_stem_spec(s@)->0,
{
    match file_stem(s) {
        Some(x) => x,
        None => String::new(),
    }
}

impl LibTool {
    /// Whether no two of `files` have the same file name (all must have one).
    pub fn check_no_conflicts(files: &Vec<(String, Option<String>)>) -> (r: bool)
        requires
            forall|k: int| 0 <= k < files@.len() ==> file_name_spec(#[trigger] files@[k].0@) is Some,
        ensures
            r == names_distinct(lib_entries_view(files@)),
    {
        let ghost v = lib_entries_view(files@);
        let mut names: Vec<String> = Vec::new();
        let mut i: usize = 0;
        while i < files.len()
            invariant
                i <= files.len(),
                v == lib_entries_view(files@),
                forall|k: int| 0 <= k < files@.len() ==> file_name_spec(#[trigger] files@[k].0@) is Some,
                names@.len() == i,
                forall|k: int| 0 <= k < i ==> Some(#[trigger] names@[k]@) == file_name_spec(v[k].0),
                names_distinct(v.take(i as int)),
            decreases files.len() - i,
        {
            assert(v[i as int].0 == files@[i as int].0@);
            let n = match file_name(files[i].0.as_str()) {
                Some(n) => n,
                None => String::new(),
            };
            assert(Some(n@) == file_name_spec(v[i as int].0));
            let mut j: usize = 0;
            while j < names.len()
                invariant
                    j <= names.len() == i,
                    i < v.len(),
                    v == lib_entries_view(files@),
                    forall|k: int| 0 <= k < j ==> names@[k]@ != n@,
                    forall|k: int| 0 <= k < i ==> Some(#[trigger] names@[k]@) == file_name_spec(v[k].0),
                    Some(n@) == file_name_spec(v[i as int].0),
                decreases names.len() - j,
            {
                if str_eq(names[j].as_str(), n.as_str()) {
                    assert(file_name_spec(v[j as int].0) == file_name_spec(v[i as int].0));
                    assert(!names_distinct(v));
                    return false;
                }
                j += 1;
            }
            names.push(n);
            assert(names_distinct(v.take(i + 1))) by {
                assert forall|a: int, b: int| 0 <= a < b < v.take(i + 1).len() implies file_name_spec(
                    #[trigger] v.take(i + 1)[a].0,
                ) != file_name_spec(#[trigger] v.take(i + 1)[b].0) by {
                    if b < i {
                        assert(v.take(i as int)[a] == v.take(i + 1)[a]);
                        assert(v.take(i as int)[b] == v.take(i + 1)[b]);
                    } else {
                        assert(names@[a]@ != n@);
                    }
                }
            }
            i += 1;
        }
        assert(v.take(files.len() as int) =~= v);
        true
    }

    /// The object files of the librarian or linker (see [`file_flags_spec`]).
    pub fn file_flags(files: &Files, configuration_platform: &str, vcproj_rpath: &str, env: &MsBuildEnvironment) -> (r: Vec<String>)
        requires
            file_flags_ok(*files, configuration_platform@, vcproj_rpath@, env@),
        ensures
            seq_of_strings(r@) == file_flags_spec(*files, configuration_platform@, vcproj_rpath@, env@),
    {
        let joined = join_path(env.solution_dir.as_str(), vcproj_rpath);
        let n = match normalize_lexically(joined.as_str()) {
            Some(n) => n,
            None => joined,
        };
        let vcproj_dir = match parent(n.as_str()) {
            Some(p) => p,
            None => n,
        };
        let int_dir = env.expand(env.int_dir.as_str());
        let int_rpath = pathdiff(vcproj_dir.as_str(), int_dir.as_str());
        let sources = Self::parse_files(files, configuration_platform);
        let ghost srcs = lib_entries_view(sources@);
        let ghost f = |e: LibEntry| join_spec(int_rpath@, obj_name(obj_source(env@, e)));
        let mut result: Vec<String> = Vec::new();
        let mut i: usize = 0;
        while i < sources.len()
            invariant
                i <= sources.len(),
                srcs == lib_entries_view(sources@),
                srcs == lib_sources(*files, configuration_platform@),
                file_flags_ok(*files, configuration_platform@, vcproj_rpath@, env@),
                f == (|e: LibEntry| join_spec(int_rpath@, obj_name(obj_source(env@, e)))),
                seq_of_strings(result@) == srcs.take(i as int).map_values(f),
            decreases sources.len() - i,
        {
            let src = &sources[i].0;
            assert(srcs[i as int] == (src@, opt_view(sources@[i as int].1)));
            assert(source_ok(env@, srcs[i as int]));
            let stem = stem_of(src.as_str());
            let genv = env.with_input_name(stem.as_str());
            assert(genv@ == source_env(env@, src@));
            let named: String = match &sources[i].1 {
                Some(o) => {
                    let e = genv.expand(o.as_str());
                    clean(e.as_str())
                },
                None => src.clone(),
            };
            assert(named@ == obj_source(env@, srcs[i as int]));
            let s1 = stem_of(named.as_str());
            let mut name = stem_of(s1.as_str());
            push_str(&mut name, ".obj");
            let obj = join_path(int_rpath.as_str(), name.as_str());
            assert(obj@ == f(srcs[i as int]));
            let ghost before = seq_of_strings(result@);
            result.push(obj);
            assert(seq_of_strings(result@) =~= before.push(obj@));
            assert(srcs.take(i + 1).map_values(f) =~= srcs.take(i as int).map_values(f).push(f(srcs[i as int])));
            assert(seq_of_strings(result@) =~= srcs.take(i + 1).map_values(f));
            i += 1;
        }
        assert(srcs.take(sources.len() as int) =~= srcs);
        result
    }
}


impl LibTool {
    /// Whether the sources of a configuration can be turned into object
    /// files (see [`file_flags_ok`]): what [`LibTool::file_flags`] needs.
    pub fn file_flags_ok_check(
        files: &Files,
        configuration_platform: &str,
        vcproj_rpath: &str,
        env: &MsBuildEnvironment,
    ) -> (r: bool)
        ensures
            r == file_flags_ok(*files, configuration_platform@, vcproj_rpath@, env@),
    {
        let joined = join_path(env.solution_dir.as_str(), vcproj_rpath);
        if normalize_lexically(joined.as_str()).is_none() {
            return false;
        }
        let sources = Self::parse_files(files, configuration_platform);
        let ghost srcs = lib_entries_view(sources@);
        let mut i: usize = 0;
        while i < sources.len()
            invariant
                i <= sources.len(),
                srcs == lib_entries_view(sources@),
                srcs == lib_sources(*files, configuration_platform@),
                normalize_spec(join_spec(env@.solution_dir, vcproj_rpath@)) is Some,
                forall|k: int| 0 <= k < i ==> source_ok(env@, #[trigger] srcs[k]),
            decreases sources.len() - i,
        {
            let src = &sources[i].0;
            assert(srcs[i as int] == (src@, opt_view(sources@[i as int].1)));
            if file_name(src.as_str()).is_none() {
                return false;
            }
            let stem = match file_stem(src.as_str()) {
                Some(s) => s,
                None => {
                    return false;
                },
            };
            let genv = env.with_input_name(stem.as_str());
            assert(genv@ == source_env(env@, src@));
            let named: String = match &sources[i].1 {
                Some(o) => {
                    let e = genv.expand(o.as_str());
                    clean(e.as_str())
                },
                None => src.clone(),
            };
            assert(named@ == obj_source(env@, srcs[i as int]));
            if sources[i].1.is_some() {
                let is_obj = match extension(named.as_str()) {
                    Some(e) => str_eq(e.as_str(), "obj"),
                    None => false,
                };
                if !is_obj {
                    return false;
                }
            }
            let s1 = match file_stem(named.as_str()) {
                Some(s) => s,
                None => {
                    return false;
                },
            };
            if file_stem(s1.as_str()).is_none() {
                return false;
            }
            i += 1;
        }
        assert forall|k: int| 0 <= k < sources@.len() implies file_name_spec(#[trigger] sources@[k].0@) is Some by {
            assert(srcs[k] == (sources@[k].0@, opt_view(sources@[k].1)));
            assert(source_ok(env@, srcs[k]));
        }
        Self::check_no_conflicts(&sources)
    }
}

/// `s` trimmed and without surrounding quotes.
pub open spec fn clean_spec(s: Seq<char>) -> Seq<char> {
    trim_char(trim(s), '"')
}

/// The output file of the librarian: `OutputFile`, else
/// `$(OutDir)\$(ProjectName).lib`, expanded and cleaned.
pub open spec fn lib_output_spec(t: LibTool, env: EnvView) -> Seq<char> {
    clean_spec(
        env.expand_spec(
            match opt_view(t.output_file) {
                Some(o) => o,
                None => "$(OutDir)\\$(ProjectName).lib"@,
            },
        ),
    )
}

/// `prefix"path"` for each non-empty path, expanded and cleaned.
pub open spec fn path_options(prefix: Seq<char>, xs: Option<Vec<String>>, env: EnvView) -> Seq<Seq<char>> {
    nonempty(list_or_empty(opt_list_view(xs))).map_values(
        |p: Seq<char>| quoted(prefix, clean_spec(env.expand_spec(p))),
    )
}

/// The response file options of the librarian: `/OUT`, `/LIBPATH` and
/// `/NODEFAULTLIB` options, `/LTCG` under whole program optimization, and the
/// additional options.
pub open spec fn lib_rsp_items(t: LibTool, cfg: Configuration, env: EnvView) -> Seq<Seq<char>> {
    seq![quoted("/OUT:"@, lib_output_spec(t, env))]
        + path_options("/LIBPATH:"@, t.additional_library_directories, env)
        + path_options("/NODEFAULTLIB:"@, t.ignore_default_library_names, env)
        + (if cfg.whole_program_optimization == Some(true) {
        seq!["/LTCG"@]
    } else {
        Seq::empty()
    }) + match opt_view(t.additional_options) {
        Some(a) => opt_word(a),
        None => Seq::empty(),
    }
}

fn push_path_options(items: &mut Vec<String>, prefix: &str, xs: &Option<Vec<String>>, env: &MsBuildEnvironment)
    ensures
        seq_of_strings(final(items)@) == seq_of_strings(old(items)@) + path_options(prefix@, *xs, env@),
{
    let ghost base = seq_of_strings(items@);
    let ghost f = |p: Seq<char>| quoted(prefix@, clean_spec(env@.expand_spec(p)));
    match xs {
        None => {
            assert(nonempty(Seq::<Seq<char>>::empty()) =~= Seq::<Seq<char>>::empty()) by {
                reveal(Seq::filter);
            }
            assert(seq_of_strings(items@) =~= base + path_options(prefix@, *xs, env@));
        },
        Some(v) => {
            let ghost vs = seq_of_strings(v@);
            let mut i: usize = 0;
            assert(nonempty(vs.take(0)) =~= Seq::<Seq<char>>::empty()) by {
                reveal(Seq::filter);
            }
            while i < v.len()
                invariant
                    i <= v.len(),
                    vs == seq_of_strings(v@),
                    f == (|p: Seq<char>| quoted(prefix@, clean_spec(env@.expand_spec(p)))),
                    seq_of_strings(items@) == base + nonempty(vs.take(i as int)).map_values(f),
                decreases v.len() - i,
            {
                proof {
                    lemma_nonempty_step(vs, i as int);
                }
                assert(vs[i as int] == v@[i as int]@);
                if v[i].as_str().unicode_len() > 0 {
                    let e = env.expand(v[i].as_str());
                    let c = clean(e.as_str());
                    let q = make_quoted(prefix, c.as_str());
                    let ghost before = seq_of_strings(items@);
                    items.push(q);
                    assert(seq_of_strings(items@) =~= before.push(q@));
                    assert(nonempty(vs.take(i as int)).push(vs[i as int]).map_values(f) =~= nonempty(vs.take(i as int)).map_values(f).push(f(vs[i as int])));
                }
                i += 1;
            }
            assert(vs.take(v.len() as int) =~= vs);
        },
    }
}

impl LibTool {
    /// The librarian step: its output file, `@rsp /NOLOGO`, the response file
    /// options (see [`lib_rsp_items`]) and the object files.
    pub fn to_flags(&self, vcproj_rpath: &str, cfg: &Configuration, vcproject: &VCProject, env: &MsBuildEnvironment) -> (r: Flags)
        requires
            file_flags_ok(vcproject.files, cfg.name@, vcproj_rpath@, env@),
        ensures
            r@ == (SpecFlags {
                output_file: lib_output_spec(*self, env@),
                import_library: None,
                flags: "@$(RspFile) /NOLOGO"@,
                rsp_flags: join(lib_rsp_items(*self, *cfg, env@), seq![' ']),
                files: file_flags_spec(vcproject.files, cfg.name@, vcproj_rpath@, env@),
            }),
    {
        proof {
            reveal_strlit("$(OutDir)\\$(ProjectName).lib");
            reveal_strlit(" ");
        }
        let pattern: &str = match &self.output_file {
            Some(o) => o.as_str(),
            None => "$(OutDir)\\$(ProjectName).lib",
        };
        let e = env.expand(pattern);
        let output_file = clean(e.as_str());
        assert(output_file@ == lib_output_spec(*self, env@));
        let mut items: Vec<String> = Vec::new();
        let out_opt = make_quoted("/OUT:", output_file.as_str());
        items.push(out_opt);
        assert(seq_of_strings(items@) =~= seq![quoted("/OUT:"@, lib_output_spec(*self, env@))]);
        push_path_options(&mut items, "/LIBPATH:", &self.additional_library_directories, env);
        push_path_options(&mut items, "/NODEFAULTLIB:", &self.ignore_default_library_names, env);
        let ghost mid = seq_of_strings(items@);
        if cfg.whole_program_optimization == Some(true) {
            items.push("/LTCG".to_owned());
        }
        let ghost mid2 = seq_of_strings(items@);
        assert(mid2 =~= mid + if cfg.whole_program_optimization == Some(true) {
            seq!["/LTCG"@]
        } else {
            Seq::<Seq<char>>::empty()
        });
        match &self.additional_options {
            Some(a) => push_word(&mut items, a.as_str()),
            None => {},
        }
        assert(seq_of_strings(items@) =~= mid2 + match opt_view(self.additional_options) {
            Some(a) => opt_word(a),
            None => Seq::<Seq<char>>::empty(),
        });
        assert(seq_of_strings(items@) =~= lib_rsp_items(*self, *cfg, env@));
        let files = Self::file_flags(&vcproject.files, cfg.name.as_str(), vcproj_rpath, env);
        let rsp_flags = join_strings(&items, " ");
        assert(" "@ =~= seq![' ']);
        Flags {
            output_file,
            import_library: None,
            flags: "@$(RspFile) /NOLOGO".to_owned(),
            rsp_flags,
            files,
        }
    }
}

} // verus!
