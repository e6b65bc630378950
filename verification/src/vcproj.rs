//! The model of a Visual Studio 2008 project file (`.vcproj`).
use vstd::prelude::*;
use crate::tool_cl::CompilerTool;
use crate::tool_lib::LibTool;
use crate::tool_linker::LinkerTool;
use crate::values::{VcprojError, XmlErr, flag_number, err_view, flag_err, parse_flag_number};

verus! {

/// A project: its attributes, platforms, configurations and files.
#[derive(Debug)]
pub struct VCProject {
    pub name: String,
    pub project_type: String,
    pub version: String,
    /// `ProjectGUID`, as a 128-bit number.
    pub guid: u128,
    pub root_namespace: String,
    pub keyword: Option<String>,
    pub target_framework_version: String,
    pub platforms: Vec<Platform>,
    pub configurations: Vec<Configuration>,
    pub files: Files,
}

/// One configuration of a project, such as `Release|Win32`.
#[derive(Debug)]
pub struct Configuration {
    /// `Configuration|Platform`.
    pub name: String,
    /// May hold macros such as `$(SolutionDir)`.
    pub output_directory: Option<String>,
    /// May hold macros such as `$(SolutionDir)`.
    pub intermediate_directory: Option<String>,
    pub configuration_type: ConfigurationType,
    pub character_set: Option<CharacterSet>,
    pub whole_program_optimization: Option<bool>,
    pub managed_extensions: Option<ManagedExtensions>,
    pub atl_minimizes_c_runtime_library_usage: Option<bool>,
    pub delete_extensions_on_clean: Option<String>,
    pub inherited_property_sheets: Option<Vec<String>>,
    pub use_of_atl: Option<UseOfATL>,
    pub use_of_mfc: Option<UseOfMFC>,
    pub compiler_tool: Option<CompilerTool>,
    pub lib_tool: Option<LibTool>,
    pub linker_tool: Option<LinkerTool>,
}

#[derive(Debug)]
pub struct Platform {
    pub name: String,
}

/// The `Files` element: filters (folders) and files.
#[derive(Debug)]
pub struct Files {
    pub filters: Vec<Filter>,
    pub files: Vec<File>,
}

#[derive(Debug)]
pub struct Filter {
    pub name: String,
    pub filter: Option<Vec<String>>,
    pub unique_identifier: Option<String>,
    pub filters: Vec<Filter>,
    pub files: Vec<File>,
}

#[derive(Debug)]
pub struct File {
    pub relative_path: String,
    pub file_type: Option<u8>,
    pub sub_type: Option<String>,
    pub file_configurations: Vec<FileConfiguration>,
    pub files: Vec<File>,
}

/// Settings of one file in one configuration.
#[derive(Debug)]
pub struct FileConfiguration {
    pub name: String,
    pub excluded_from_build: Option<bool>,
    pub tool: Option<CompilerTool>,
}

/// Values of the `ConfigurationType` attribute and their command-line text.
#[derive(Clone, Copy, Debug, PartialEq, Eq, Structural, Hash)]
pub enum ConfigurationType {
    _1,
    _2,
    _4,
    _10,
}

impl ConfigurationType {
    /// The value for an attribute number.
    pub open spec fn of_value(v: i8) -> Option<ConfigurationType> {
        if v == 1 {
            Some(ConfigurationType::_1)
        } else if v == 2 {
            Some(ConfigurationType::_2)
        } else if v == 4 {
            Some(ConfigurationType::_4)
        } else if v == 10 {
            Some(ConfigurationType::_10)
        } else {
            None
        }
    }

    /// The command-line text of the value.
    pub open spec fn text(self) -> Seq<char> {
        match self {
            ConfigurationType::_1 => "exe"@,
            ConfigurationType::_2 => "dll"@,
            ConfigurationType::_4 => "lib"@,
            ConfigurationType::_10 => "utility"@,
        }
    }

    pub fn as_str(&self) -> (r: &'static str)
        ensures
            r@ == self.text(),
    {
        match self {
            ConfigurationType::_1 => "exe",
            ConfigurationType::_2 => "dll",
            ConfigurationType::_4 => "lib",
            ConfigurationType::_10 => "utility",
        }
    }

    pub fn from_value(v: i8) -> (r: Option<ConfigurationType>)
        ensures
            r == ConfigurationType::of_value(v),
    {
        if v == 1 {
            Some(ConfigurationType::_1)
        } else if v == 2 {
            Some(ConfigurationType::_2)
        } else if v == 4 {
            Some(ConfigurationType::_4)
        } else if v == 10 {
            Some(ConfigurationType::_10)
        } else {
            None
        }
    }

    /// The value of an attribute text.
    pub open spec fn parse_spec(s: Seq<char>) -> Option<ConfigurationType> {
        match flag_number(s, false) {
            Some(v) => ConfigurationType::of_value(v),
            None => None,
        }
    }

    /// The refusal of a text that is not a value of this kind.
    pub open spec fn parse_err(s: Seq<char>) -> XmlErr {
        flag_err("ConfigurationType"@, s, false)
    }

    pub fn parse(s: &str) -> (r: Result<ConfigurationType, VcprojError>)
        ensures
            match r {
                Ok(x) => ConfigurationType::parse_spec(s@) == Some(x),
                Err(e) => ConfigurationType::parse_spec(s@) is None && err_view(e) == ConfigurationType::parse_err(s@),
            },
    {
        match parse_flag_number(s, false) {
            Ok(v) => match ConfigurationType::from_value(v) {
                Some(x) => Ok(x),
                None => Err(VcprojError::InvalidFlag("ConfigurationType".to_owned(), v)),
            },
            Err(e) => Err(e),
        }
    }
}

/// Values of the `CharacterSet` attribute and their command-line text.
#[derive(Clone, Copy, Debug, PartialEq, Eq, Structural, Hash)]
pub enum CharacterSet {
    _0,
    _1,
    _2,
}

impl CharacterSet {
    /// The value for an attribute number.
    pub open spec fn of_value(v: i8) -> Option<CharacterSet> {
        if v == 0 {
            Some(CharacterSet::_0)
        } else if v == 1 {
            Some(CharacterSet::_1)
        } else if v == 2 {
            Some(CharacterSet::_2)
        } else {
            None
        }
    }

    /// The command-line text of the value.
    pub open spec fn text(self) -> Seq<char> {
        match self {
            CharacterSet::_0 => ""@,
            CharacterSet::_1 => "_UNICODE"@,
            CharacterSet::_2 => "_MBCS"@,
        }
    }

    pub fn as_str(&self) -> (r: &'static str)
        ensures
            r@ == self.text(),
    {
        match self {
            CharacterSet::_0 => "",
            CharacterSet::_1 => "_UNICODE",
            CharacterSet::_2 => "_MBCS",
        }
    }

    pub fn from_value(v: i8) -> (r: Option<CharacterSet>)
        ensures
            r == CharacterSet::of_value(v),
    {
        if v == 0 {
            Some(CharacterSet::_0)
        } else if v == 1 {
            Some(CharacterSet::_1)
        } else if v == 2 {
            Some(CharacterSet::_2)
        } else {
            None
        }
    }

    /// The value of an attribute text.
    pub open spec fn parse_spec(s: Seq<char>) -> Option<CharacterSet> {
        match flag_number(s, false) {
            Some(v) => CharacterSet::of_value(v),
            None => None,
        }
    }

    /// The refusal of a text that is not a value of this kind.
    pub open spec fn parse_err(s: Seq<char>) -> XmlErr {
        flag_err("CharacterSet"@, s, false)
    }

    pub fn parse(s: &str) -> (r: Result<CharacterSet, VcprojError>)
        ensures
            match r {
                Ok(x) => CharacterSet::parse_spec(s@) == Some(x),
                Err(e) => CharacterSet::parse_spec(s@) is None && err_view(e) == CharacterSet::parse_err(s@),
            },
    {
        match parse_flag_number(s, false) {
            Ok(v) => match CharacterSet::from_value(v) {
                Some(x) => Ok(x),
                None => Err(VcprojError::InvalidFlag("CharacterSet".to_owned(), v)),
            },
            Err(e) => Err(e),
        }
    }
}

/// Values of the `ManagedExtensions` attribute and their command-line text.
#[derive(Clone, Copy, Debug, PartialEq, Eq, Structural, Hash)]
pub enum ManagedExtensions {
    _0,
    _1,
}

impl ManagedExtensions {
    /// The value for an attribute number.
    pub open spec fn of_value(v: i8) -> Option<ManagedExtensions> {
        if v == 0 {
            Some(ManagedExtensions::_0)
        } else if v == 1 {
            Some(ManagedExtensions::_1)
        } else {
            None
        }
    }

    /// The command-line text of the value.
    pub open spec fn text(self) -> Seq<char> {
        match self {
            ManagedExtensions::_0 => ""@,
            ManagedExtensions::_1 => "/clr"@,
        }
    }

    pub fn as_str(&self) -> (r: &'static str)
        ensures
            r@ == self.text(),
    {
        match self {
            ManagedExtensions::_0 => "",
            ManagedExtensions::_1 => "/clr",
        }
    }

    pub fn from_value(v: i8) -> (r: Option<ManagedExtensions>)
        ensures
            r == ManagedExtensions::of_value(v),
    {
        if v == 0 {
            Some(ManagedExtensions::_0)
        } else if v == 1 {
            Some(ManagedExtensions::_1)
        } else {
            None
        }
    }

    /// The value of an attribute text.
    pub open spec fn parse_spec(s: Seq<char>) -> Option<ManagedExtensions> {
        match flag_number(s, false) {
            Some(v) => ManagedExtensions::of_value(v),
            None => None,
        }
    }

    /// The refusal of a text that is not a value of this kind.
    pub open spec fn parse_err(s: Seq<char>) -> XmlErr {
        flag_err("ManagedExtensions"@, s, false)
    }

    pub fn parse(s: &str) -> (r: Result<ManagedExtensions, VcprojError>)
        ensures
            match r {
                Ok(x) => ManagedExtensions::parse_spec(s@) == Some(x),
                Err(e) => ManagedExtensions::parse_spec(s@) is None && err_view(e) == ManagedExtensions::parse_err(s@),
            },
    {
        match parse_flag_number(s, false) {
            Ok(v) => match ManagedExtensions::from_value(v) {
                Some(x) => Ok(x),
                None => Err(VcprojError::InvalidFlag("ManagedExtensions".to_owned(), v)),
            },
            Err(e) => Err(e),
        }
    }
}

/// Values of the `UseOfATL` attribute and their command-line text.
#[derive(Clone, Copy, Debug, PartialEq, Eq, Structural, Hash)]
pub enum UseOfATL {
    _0,
    _1,
    _2,
}

impl UseOfATL {
    /// The value for an attribute number.
    pub open spec fn of_value(v: i8) -> Option<UseOfATL> {
        if v == 0 {
            Some(UseOfATL::_0)
        } else if v == 1 {
            Some(UseOfATL::_1)
        } else if v == 2 {
            Some(UseOfATL::_2)
        } else {
            None
        }
    }

    /// The command-line text of the value.
    pub open spec fn text(self) -> Seq<char> {
        match self {
            UseOfATL::_0 => ""@,
            UseOfATL::_1 => "/ATL:static"@,
            UseOfATL::_2 => "/ATL:dynamic"@,
        }
    }

    pub fn as_str(&self) -> (r: &'static str)
        ensures
            r@ == self.text(),
    {
        match self {
            UseOfATL::_0 => "",
            UseOfATL::_1 => "/ATL:static",
            UseOfATL::_2 => "/ATL:dynamic",
        }
    }

    pub fn from_value(v: i8) -> (r: Option<UseOfATL>)
        ensures
            r == UseOfATL::of_value(v),
    {
        if v == 0 {
            Some(UseOfATL::_0)
        } else if v == 1 {
            Some(UseOfATL::_1)
        } else if v == 2 {
            Some(UseOfATL::_2)
        } else {
            None
        }
    }

    /// The value of an attribute text.
    pub open spec fn parse_spec(s: Seq<char>) -> Option<UseOfATL> {
        match flag_number(s, false) {
            Some(v) => UseOfATL::of_value(v),
            None => None,
        }
    }

    /// The refusal of a text that is not a value of this kind.
    pub open spec fn parse_err(s: Seq<char>) -> XmlErr {
        flag_err("UseOfATL"@, s, false)
    }

    pub fn parse(s: &str) -> (r: Result<UseOfATL, VcprojError>)
        ensures
            match r {
                Ok(x) => UseOfATL::parse_spec(s@) == Some(x),
                Err(e) => UseOfATL::parse_spec(s@) is None && err_view(e) == UseOfATL::parse_err(s@),
            },
    {
        match parse_flag_number(s, false) {
            Ok(v) => match UseOfATL::from_value(v) {
                Some(x) => Ok(x),
                None => Err(VcprojError::InvalidFlag("UseOfATL".to_owned(), v)),
            },
            Err(e) => Err(e),
        }
    }
}

/// Values of the `UseOfMFC` attribute and their command-line text.
#[derive(Clone, Copy, Debug, PartialEq, Eq, Structural, Hash)]
pub enum UseOfMFC {
    _N1,
    _0,
    _1,
    _2,
}

impl UseOfMFC {
    /// The value for an attribute number.
    pub open spec fn of_value(v: i8) -> Option<UseOfMFC> {
        if v == -1 {
            Some(UseOfMFC::_N1)
        } else if v == 0 {
            Some(UseOfMFC::_0)
        } else if v == 1 {
            Some(UseOfMFC::_1)
        } else if v == 2 {
            Some(UseOfMFC::_2)
        } else {
            None
        }
    }

    /// The command-line text of the value.
    pub open spec fn text(self) -> Seq<char> {
        match self {
            UseOfMFC::_N1 => ""@,
            UseOfMFC::_0 => ""@,
            UseOfMFC::_1 => "/MFC:static"@,
            UseOfMFC::_2 => "/MFC:dynamic"@,
        }
    }

    pub fn as_str(&self) -> (r: &'static str)
        ensures
            r@ == self.text(),
    {
        match self {
            UseOfMFC::_N1 => "",
            UseOfMFC::_0 => "",
            UseOfMFC::_1 => "/MFC:static",
            UseOfMFC::_2 => "/MFC:dynamic",
        }
    }

    pub fn from_value(v: i8) -> (r: Option<UseOfMFC>)
        ensures
            r == UseOfMFC::of_value(v),
    {
        if v == -1 {
            Some(UseOfMFC::_N1)
        } else if v == 0 {
            Some(UseOfMFC::_0)
        } else if v == 1 {
            Some(UseOfMFC::_1)
        } else if v == 2 {
            Some(UseOfMFC::_2)
        } else {
            None
        }
    }

    /// The value of an attribute text.
    pub open spec fn parse_spec(s: Seq<char>) -> Option<UseOfMFC> {
        match flag_number(s, false) {
            Some(v) => UseOfMFC::of_value(v),
            None => None,
        }
    }

    /// The refusal of a text that is not a value of this kind.
    pub open spec fn parse_err(s: Seq<char>) -> XmlErr {
        flag_err("UseOfMFC"@, s, false)
    }

    pub fn parse(s: &str) -> (r: Result<UseOfMFC, VcprojError>)
        ensures
            match r {
                Ok(x) => UseOfMFC::parse_spec(s@) == Some(x),
                Err(e) => UseOfMFC::parse_spec(s@) is None && err_view(e) == UseOfMFC::parse_err(s@),
            },
    {
        match parse_flag_number(s, false) {
            Ok(v) => match UseOfMFC::from_value(v) {
                Some(x) => Ok(x),
                None => Err(VcprojError::InvalidFlag("UseOfMFC".to_owned(), v)),
            },
            Err(e) => Err(e),
        }
    }
}

} // verus!
