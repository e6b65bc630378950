//! The MSBuild macros (`$(IntDir)`, `$(ProjectName)`, ...) of a
//! configuration and their expansion.
use vstd::prelude::*;
use crate::text::{chars_of, find_char, lemma_find_char_bounds, opt_view, replace, replace_str, string_of_range};
use crate::vcproj::{Configuration, ConfigurationType};
use crate::winpath::{file_stem, file_stem_spec};

verus! {

/// The values of the macros of one configuration.
pub struct MsBuildEnvironment {
    /// Directory of the solution, with a trailing separator.
    pub solution_dir: String,
    /// `IntermediateDirectory` of the configuration.
    pub int_dir: String,
    /// `OutputDirectory` of the configuration.
    pub out_dir: String,
    /// Stem of the source file being compiled; set per file.
    pub input_name: String,
    pub project_name: String,
    /// Stem of the output file of the lib or link step, else the project name.
    pub target_name: String,
    /// Configuration part of `Configuration|Platform`.
    pub configuration_name: String,
    /// Platform part of `Configuration|Platform`.
    pub platform_name: String,
}

/// Mathematical view of [`MsBuildEnvironment`].
pub struct EnvView {
    pub solution_dir: Seq<char>,
    pub int_dir: Seq<char>,
    pub out_dir: Seq<char>,
    pub input_name: Seq<char>,
    pub project_name: Seq<char>,
    pub target_name: Seq<char>,
    pub configuration_name: Seq<char>,
    pub platform_name: Seq<char>,
}

impl View for MsBuildEnvironment {
    type V = EnvView;

    open spec fn view(&self) -> EnvView {
        EnvView {
            solution_dir: self.solution_dir@,
            int_dir: self.int_dir@,
            out_dir: self.out_dir@,
            input_name: self.input_name@,
            project_name: self.project_name@,
            target_name: self.target_name@,
            configuration_name: self.configuration_name@,
            platform_name: self.platform_name@,
        }
    }
}

impl EnvView {
    /// `input` with each macro replaced, in this order: `$(IntDir)`,
    /// `$(OutDir)`, `$(TargetName)`, `$(InputName)`, `$(ProjectName)`,
    /// `$(ConfigurationName)`, `$(PlatformName)`, `$(SolutionDir)`. A macro
    /// that a replacement brings in is expanded by the steps after it.
    pub open spec fn expand_spec(self, input: Seq<char>) -> Seq<char> {
        let s = replace(input, "$(IntDir)"@, self.int_dir);
        let s = replace(s, "$(OutDir)"@, self.out_dir);
        let s = replace(s, "$(TargetName)"@, self.target_name);
        let s = replace(s, "$(InputName)"@, self.input_name);
        let s = replace(s, "$(ProjectName)"@, self.project_name);
        let s = replace(s, "$(ConfigurationName)"@, self.configuration_name);
        let s = replace(s, "$(PlatformName)"@, self.platform_name);
        replace(s, "$(SolutionDir)"@, self.solution_dir)
    }
}

impl MsBuildEnvironment {
    pub fn expand(&self, input: &str) -> (r: String)
        ensures
            r@ == self@.expand_spec(input@),
    {
        proof {
            reveal_strlit("$(IntDir)");
            reveal_strlit("$(OutDir)");
            reveal_strlit("$(TargetName)");
            reveal_strlit("$(InputName)");
            reveal_strlit("$(ProjectName)");
            reveal_strlit("$(ConfigurationName)");
            reveal_strlit("$(PlatformName)");
            reveal_strlit("$(SolutionDir)");
        }
        let s = replace_str(input, "$(IntDir)", self.int_dir.as_str());
        let s = replace_str(s.as_str(), "$(OutDir)", self.out_dir.as_str());
        let s = replace_str(s.as_str(), "$(TargetName)", self.target_name.as_str());
        let s = replace_str(s.as_str(), "$(InputName)", self.input_name.as_str());
        let s = replace_str(s.as_str(), "$(ProjectName)", self.project_name.as_str());
        let s = replace_str(s.as_str(), "$(ConfigurationName)", self.configuration_name.as_str());
        let s = replace_str(s.as_str(), "$(PlatformName)", self.platform_name.as_str());
        replace_str(s.as_str(), "$(SolutionDir)", self.solution_dir.as_str())
    }
}

/// The output file that names the target: the linker's for an executable or
/// a DLL, the librarian's for a static library.
pub open spec fn target_output_file(c: Configuration) -> Option<Seq<char>> {
    match c.configuration_type {
        ConfigurationType::_1 | ConfigurationType::_2 => match c.linker_tool {
            Some(l) => opt_view(l.output_file),
            None => None,
        },
        ConfigurationType::_4 => match c.lib_tool {
            Some(l) => opt_view(l.output_file),
            None => None,
        },
        _ => None,
    }
}

/// What [`MsBuildEnvironment::get`] needs of a configuration: a name with a
/// `|`, an intermediate directory, and an output file (if any) with a stem.
pub open spec fn env_ok(c: Configuration) -> bool {
    &&& find_char(c.name@, '|') is Some
    &&& c.intermediate_directory is Some
    &&& (target_output_file(c) matches Some(o) ==> file_stem_spec(o) is Some)
}

impl MsBuildEnvironment {
    /// The same macros with `InputName` set to `name`.
    pub fn with_input_name(&self, name: &str) -> (r: MsBuildEnvironment)
        ensures
            r@ == (EnvView { input_name: name@, ..self@ }),
    {
        MsBuildEnvironment {
            solution_dir: self.solution_dir.clone(),
            int_dir: self.int_dir.clone(),
            out_dir: self.out_dir.clone(),
            input_name: name.to_owned(),
            project_name: self.project_name.clone(),
            target_name: self.target_name.clone(),
            configuration_name: self.configuration_name.clone(),
            platform_name: self.platform_name.clone(),
        }
    }

    /// The macros of `configuration` of the project `project_name`, for a
    /// solution in `sln_root`. `InputName` is empty.
    pub fn get(project_name: &str, configuration: &Configuration, sln_root: &str) -> (r:
        MsBuildEnvironment)
        requires
            env_ok(*configuration),
        ensures
            r.solution_dir@ == sln_root@,
            r.int_dir@ == configuration.intermediate_directory->0@,
            r.out_dir@ == match configuration.output_directory {
                Some(o) => o@,
                None => "$(SolutionDir)$(ConfigurationName)"@,
            },
            r.input_name@ == Seq::<char>::empty(),
            r.project_name@ == project_name@,
            r.target_name@ == match target_output_file(*configuration) {
                Some(o) => file_stem_spec(o)->0,
                None => project_name@,
            },
            r.configuration_name@ == configuration.name@.take(
                find_char(configuration.name@, '|')->0,
            ),
            r.platform_name@ == configuration.name@.skip(
                find_char(configuration.name@, '|')->0 + 1,
            ),
    {
        let name = chars_of(configuration.name.as_str());
        proof {
            lemma_find_char_bounds(name@, '|');
        }
        let mut k: usize = 0;
        while k < name.len() && name[k] != '|'
            invariant
                k <= name.len(),
                find_char(name@, '|') is Some,
                (find_char(name@, '|')->0) >= k,
                name@ == configuration.name@,
                forall|j: int| 0 <= j < k ==> name@[j] != '|',
            decreases name.len() - k,
        {
            proof {
                lemma_find_char_bounds(name@, '|');
            }
            k += 1;
        }
        proof {
            lemma_find_char_bounds(name@, '|');
        }
        assert(k == find_char(name@, '|')->0);
        let configuration_name = string_of_range(&name, 0, k);
        let platform_name = string_of_range(&name, k + 1, name.len());
        assert(name@.subrange(0, k as int) =~= name@.take(k as int));
        assert(name@.subrange(k + 1, name.len() as int) =~= name@.skip(k + 1));
        let output_file = match configuration.configuration_type {
            ConfigurationType::_1 | ConfigurationType::_2 => match &configuration.linker_tool {
                Some(l) => &l.output_file,
                None => &None,
            },
            ConfigurationType::_4 => match &configuration.lib_tool {
                Some(l) => &l.output_file,
                None => &None,
            },
            _ => &None,
        };
        assert(opt_view(*output_file) == target_output_file(*configuration));
        let target_name = match output_file {
            Some(o) => match file_stem(o.as_str()) {
                Some(stem) => stem,
                None => project_name.to_owned(),
            },
            None => project_name.to_owned(),
        };
        let int_dir = match &configuration.intermediate_directory {
            Some(d) => d.clone(),
            None => String::new(),
        };
        let out_dir = match &configuration.output_directory {
            Some(o) => o.clone(),
            None => "$(SolutionDir)$(ConfigurationName)".to_owned(),
        };
        MsBuildEnvironment {
            solution_dir: sln_root.to_owned(),
            int_dir,
            out_dir,
            input_name: String::new(),
            project_name: project_name.to_owned(),
            target_name,
            configuration_name,
            platform_name,
        }
    }
}

/// Whether [`MsBuildEnvironment::get`] can be asked for the macros of a
/// configuration (see [`env_ok`]).
pub fn env_ok_check(c: &Configuration) -> (r: bool)
    ensures
        r == env_ok(*c),
{
    if !crate::text::has_char(c.name.as_str(), '|') || c.intermediate_directory.is_none() {
        return false;
    }
    let output_file = match c.configuration_type {
        ConfigurationType::_1 | ConfigurationType::_2 => match &c.linker_tool {
            Some(l) => &l.output_file,
            None => &None,
        },
        ConfigurationType::_4 => match &c.lib_tool {
            Some(l) => &l.output_file,
            None => &None,
        },
        _ => &None,
    };
    assert(opt_view(*output_file) == target_output_file(*c));
    match output_file {
        Some(o) => file_stem(o.as_str()).is_some(),
        None => true,
    }
}

} // verus!
