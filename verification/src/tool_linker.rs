//! The linker tool (`VCLinkerTool`) and the `link` command line.
use vstd::prelude::*;
use crate::env::{EnvView, MsBuildEnvironment};
use crate::flags::{Flags, SpecFlags};
use crate::paths::clean;
use crate::text::{
    join, join_strings, lemma_nonempty_step, list_or_empty, make_quoted, nonempty, opt_list_view,
    opt_view, opt_word, push_str, push_word, quoted, seq_of_strings,
};
use crate::tool_lib::{LibTool, clean_spec, file_flags_ok, file_flags_spec};
use crate::values::{VcprojError, XmlErr, flag_number, err_view, flag_err, parse_flag_number};
use crate::vcproj::{Configuration, ConfigurationType, VCProject};
use crate::winpath::{
    components, file_name, file_name_spec, file_stem, file_stem_spec, has_root, normalize_lexically,
    normalize_spec, path_parts, prefix_of, render, render_parts,
};

verus! {

#[derive(Debug)]
pub struct LinkerTool {
    pub additional_options: Option<String>,
    pub additional_dependencies: Option<String>,
    pub output_file: Option<String>,
    pub link_incremental: Option<LinkIncremental>,
    pub additional_library_directories: Option<Vec<String>>,
    pub ignore_default_library_names: Option<Vec<String>>,
    pub module_definition_file: Option<String>,
    pub generate_debug_information: Option<GenerateDebugInformation>,
    pub program_database_file: Option<String>,
    pub generate_map_file: Option<bool>,
    pub map_file_name: Option<String>,
    pub map_exports: Option<bool>,
    pub sub_system: Option<SubSystem>,
    pub large_address_aware: Option<LargeAddressAware>,
    pub optimize_references: Option<OptimizeReferences>,
    pub enable_comdat_folding: Option<EnableCOMDATFolding>,
    pub randomized_base_address: Option<RandomizedBaseAddress>,
    pub data_execution_prevention: Option<DataExecutionPrevention>,
    pub import_library: Option<String>,
    pub target_machine: Option<TargetMachine>,
    pub assembly_debug: Option<AssemblyDebug>,
    pub assembly_link_resource: Option<String>,
    pub base_address: Option<String>,
    pub clr_thread_attribute: Option<CLRThreadAttribute>,
    pub delay_load_dlls: Option<Vec<String>>,
    pub embed_managed_resource_file: Option<String>,
    pub entry_point_symbol: Option<String>,
    pub fixed_base_address: Option<FixedBaseAddress>,
    pub generate_manifest: Option<bool>,
    pub ignore_import_library: Option<bool>,
    pub optimize_for_windows98: Option<OptimizeForWindows98>,
    pub support_unload_of_delay_loaded_dll: Option<SupportUnloadOfDelayLoadedDLL>,
    pub version: Option<String>,
}

/// Values of the `GenerateDebugInformation` attribute and their command-line text.
#[derive(Clone, Copy, Debug, PartialEq, Eq, Structural, Hash)]
pub enum GenerateDebugInformation {
    _0,
    _1,
}

impl GenerateDebugInformation {
    /// The value for an attribute number.
    pub open spec fn of_value(v: i8) -> Option<GenerateDebugInformation> {
        if v == 0 {
            Some(GenerateDebugInformation::_0)
        } else if v == 1 {
            Some(GenerateDebugInformation::_1)
        } else {
            None
        }
    }

    /// The command-line text of the value.
    pub open spec fn text(self) -> Seq<char> {
        match self {
            GenerateDebugInformation::_0 => ""@,
            GenerateDebugInformation::_1 => "/DEBUG"@,
        }
    }

    pub fn as_str(&self) -> (r: &'static str)
        ensures
            r@ == self.text(),
    {
        match self {
            GenerateDebugInformation::_0 => "",
            GenerateDebugInformation::_1 => "/DEBUG",
        }
    }

    pub fn from_value(v: i8) -> (r: Option<GenerateDebugInformation>)
        ensures
            r == GenerateDebugInformation::of_value(v),
    {
        if v == 0 {
            Some(GenerateDebugInformation::_0)
        } else if v == 1 {
            Some(GenerateDebugInformation::_1)
        } else {
            None
        }
    }

    /// The value of an attribute text.
    pub open spec fn parse_spec(s: Seq<char>) -> Option<GenerateDebugInformation> {
        match flag_number(s, true) {
            Some(v) => GenerateDebugInformation::of_value(v),
            None => None,
        }
    }

    /// The refusal of a text that is not a value of this kind.
    pub open spec fn parse_err(s: Seq<char>) -> XmlErr {
        flag_err("GenerateDebugInformation"@, s, true)
    }

    pub fn parse(s: &str) -> (r: Result<GenerateDebugInformation, VcprojError>)
        ensures
            match r {
                Ok(x) => GenerateDebugInformation::parse_spec(s@) == Some(x),
                Err(e) => GenerateDebugInformation::parse_spec(s@) is None && err_view(e) == GenerateDebugInformation::parse_err(s@),
            },
    {
        match parse_flag_number(s, true) {
            Ok(v) => match GenerateDebugInformation::from_value(v) {
                Some(x) => Ok(x),
                None => Err(VcprojError::InvalidFlag("GenerateDebugInformation".to_owned(), v)),
            },
            Err(e) => Err(e),
        }
    }
}

/// Values of the `LinkIncremental` attribute and their command-line text.
#[derive(Clone, Copy, Debug, PartialEq, Eq, Structural, Hash)]
pub enum LinkIncremental {
    _0,
    _1,
    _2,
}

impl LinkIncremental {
    /// The value for an attribute number.
    pub open spec fn of_value(v: i8) -> Option<LinkIncremental> {
        if v == 0 {
            Some(LinkIncremental::_0)
        } else if v == 1 {
            Some(LinkIncremental::_1)
        } else if v == 2 {
            Some(LinkIncremental::_2)
        } else {
            None
        }
    }

    /// The command-line text of the value.
    pub open spec fn text(self) -> Seq<char> {
        match self {
            LinkIncremental::_0 => ""@,
            LinkIncremental::_1 => "/INCREMENTAL:NO"@,
            LinkIncremental::_2 => "/INCREMENTAL"@,
        }
    }

    pub fn as_str(&self) -> (r: &'static str)
        ensures
            r@ == self.text(),
    {
        match self {
            LinkIncremental::_0 => "",
            LinkIncremental::_1 => "/INCREMENTAL:NO",
            LinkIncremental::_2 => "/INCREMENTAL",
        }
    }

    pub fn from_value(v: i8) -> (r: Option<LinkIncremental>)
        ensures
            r == LinkIncremental::of_value(v),
    {
        if v == 0 {
            Some(LinkIncremental::_0)
        } else if v == 1 {
            Some(LinkIncremental::_1)
        } else if v == 2 {
            Some(LinkIncremental::_2)
        } else {
            None
        }
    }

    /// The value of an attribute text.
    pub open spec fn parse_spec(s: Seq<char>) -> Option<LinkIncremental> {
        match flag_number(s, false) {
            Some(v) => LinkIncremental::of_value(v),
            None => None,
        }
    }

    /// The refusal of a text that is not a value of this kind.
    pub open spec fn parse_err(s: Seq<char>) -> XmlErr {
        flag_err("LinkIncremental"@, s, false)
    }

    pub fn parse(s: &str) -> (r: Result<LinkIncremental, VcprojError>)
        ensures
            match r {
                Ok(x) => LinkIncremental::parse_spec(s@) == Some(x),
                Err(e) => LinkIncremental::parse_spec(s@) is None && err_view(e) == LinkIncremental::parse_err(s@),
            },
    {
        match parse_flag_number(s, false) {
            Ok(v) => match LinkIncremental::from_value(v) {
                Some(x) => Ok(x),
                None => Err(VcprojError::InvalidFlag("LinkIncremental".to_owned(), v)),
            },
            Err(e) => Err(e),
        }
    }
}

/// Values of the `SubSystem` attribute and their command-line text.
#[derive(Clone, Copy, Debug, PartialEq, Eq, Structural, Hash)]
pub enum SubSystem {
    _0,
    _1,
    _2,
    _3,
    _4,
    _5,
    _6,
    _7,
    _8,
}

impl SubSystem {
    /// The value for an attribute number.
    pub open spec fn of_value(v: i8) -> Option<SubSystem> {
        if v == 0 {
            Some(SubSystem::_0)
        } else if v == 1 {
            Some(SubSystem::_1)
        } else if v == 2 {
            Some(SubSystem::_2)
        } else if v == 3 {
            Some(SubSystem::_3)
        } else if v == 4 {
            Some(SubSystem::_4)
        } else if v == 5 {
            Some(SubSystem::_5)
        } else if v == 6 {
            Some(SubSystem::_6)
        } else if v == 7 {
            Some(SubSystem::_7)
        } else if v == 8 {
            Some(SubSystem::_8)
        } else {
            None
        }
    }

    /// The command-line text of the value.
    pub open spec fn text(self) -> Seq<char> {
        match self {
            SubSystem::_0 => ""@,
            SubSystem::_1 => "/SUBSYSTEM:CONSOLE"@,
            SubSystem::_2 => "/SUBSYSTEM:WINDOWS"@,
            SubSystem::_3 => "/SUBSYSTEM:NATIVE"@,
            SubSystem::_4 => "/SUBSYSTEM:EFI_APPLICATION"@,
            SubSystem::_5 => "/SUBSYSTEM:EFI_BOOT_SERVICE_DRIVER"@,
            SubSystem::_6 => "/SUBSYSTEM:EFI_ROM"@,
            SubSystem::_7 => "/SUBSYSTEM:EFI_RUNTIME_DRIVER"@,
            SubSystem::_8 => "/SUBSYSTEM:WINDOWSCE"@,
        }
    }

    pub fn as_str(&self) -> (r: &'static str)
        ensures
            r@ == self.text(),
    {
        match self {
            SubSystem::_0 => "",
            SubSystem::_1 => "/SUBSYSTEM:CONSOLE",
            SubSystem::_2 => "/SUBSYSTEM:WINDOWS",
            SubSystem::_3 => "/SUBSYSTEM:NATIVE",
            SubSystem::_4 => "/SUBSYSTEM:EFI_APPLICATION",
            SubSystem::_5 => "/SUBSYSTEM:EFI_BOOT_SERVICE_DRIVER",
            SubSystem::_6 => "/SUBSYSTEM:EFI_ROM",
            SubSystem::_7 => "/SUBSYSTEM:EFI_RUNTIME_DRIVER",
            SubSystem::_8 => "/SUBSYSTEM:WINDOWSCE",
        }
    }

    pub fn from_value(v: i8) -> (r: Option<SubSystem>)
        ensures
            r == SubSystem::of_value(v),
    {
        if v == 0 {
            Some(SubSystem::_0)
        } else if v == 1 {
            Some(SubSystem::_1)
        } else if v == 2 {
            Some(SubSystem::_2)
        } else if v == 3 {
            Some(SubSystem::_3)
        } else if v == 4 {
            Some(SubSystem::_4)
        } else if v == 5 {
            Some(SubSystem::_5)
        } else if v == 6 {
            Some(SubSystem::_6)
        } else if v == 7 {
            Some(SubSystem::_7)
        } else if v == 8 {
            Some(SubSystem::_8)
        } else {
            None
        }
    }

    /// The value of an attribute text.
    pub open spec fn parse_spec(s: Seq<char>) -> Option<SubSystem> {
        match flag_number(s, false) {
            Some(v) => SubSystem::of_value(v),
            None => None,
        }
    }

    /// The refusal of a text that is not a value of this kind.
    pub open spec fn parse_err(s: Seq<char>) -> XmlErr {
        flag_err("SubSystem"@, s, false)
    }

    pub fn parse(s: &str) -> (r: Result<SubSystem, VcprojError>)
        ensures
            match r {
                Ok(x) => SubSystem::parse_spec(s@) == Some(x),
                Err(e) => SubSystem::parse_spec(s@) is None && err_view(e) == SubSystem::parse_err(s@),
            },
    {
        match parse_flag_number(s, false) {
            Ok(v) => match SubSystem::from_value(v) {
                Some(x) => Ok(x),
                None => Err(VcprojError::InvalidFlag("SubSystem".to_owned(), v)),
            },
            Err(e) => Err(e),
        }
    }
}

/// Values of the `LargeAddressAware` attribute and their command-line text.
#[derive(Clone, Copy, Debug, PartialEq, Eq, Structural, Hash)]
pub enum LargeAddressAware {
    _0,
    _1,
    _2,
}

impl LargeAddressAware {
    /// The value for an attribute number.
    pub open spec fn of_value(v: i8) -> Option<LargeAddressAware> {
        if v == 0 {
            Some(LargeAddressAware::_0)
        } else if v == 1 {
            Some(LargeAddressAware::_1)
        } else if v == 2 {
            Some(LargeAddressAware::_2)
        } else {
            None
        }
    }

    /// The command-line text of the value.
    pub open spec fn text(self) -> Seq<char> {
        match self {
            LargeAddressAware::_0 => ""@,
            LargeAddressAware::_1 => "/LARGEADDRESSAWARE:NO"@,
            LargeAddressAware::_2 => "/LARGEADDRESSAWARE"@,
        }
    }

    pub fn as_str(&self) -> (r: &'static str)
        ensures
            r@ == self.text(),
    {
        match self {
            LargeAddressAware::_0 => "",
            LargeAddressAware::_1 => "/LARGEADDRESSAWARE:NO",
            LargeAddressAware::_2 => "/LARGEADDRESSAWARE",
        }
    }

    pub fn from_value(v: i8) -> (r: Option<LargeAddressAware>)
        ensures
            r == LargeAddressAware::of_value(v),
    {
        if v == 0 {
            Some(LargeAddressAware::_0)
        } else if v == 1 {
            Some(LargeAddressAware::_1)
        } else if v == 2 {
            Some(LargeAddressAware::_2)
        } else {
            None
        }
    }

    /// The value of an attribute text.
    pub open spec fn parse_spec(s: Seq<char>) -> Option<LargeAddressAware> {
        match flag_number(s, false) {
            Some(v) => LargeAddressAware::of_value(v),
            None => None,
        }
    }

    /// The refusal of a text that is not a value of this kind.
    pub open spec fn parse_err(s: Seq<char>) -> XmlErr {
        flag_err("LargeAddressAware"@, s, false)
    }

    pub fn parse(s: &str) -> (r: Result<LargeAddressAware, VcprojError>)
        ensures
            match r {
                Ok(x) => LargeAddressAware::parse_spec(s@) == Some(x),
                Err(e) => LargeAddressAware::parse_spec(s@) is None && err_view(e) == LargeAddressAware::parse_err(s@),
            },
    {
        match parse_flag_number(s, false) {
            Ok(v) => match LargeAddressAware::from_value(v) {
                Some(x) => Ok(x),
                None => Err(VcprojError::InvalidFlag("LargeAddressAware".to_owned(), v)),
            },
            Err(e) => Err(e),
        }
    }
}

/// Values of the `OptimizeReferences` attribute and their command-line text.
#[derive(Clone, Copy, Debug, PartialEq, Eq, Structural, Hash)]
pub enum OptimizeReferences {
    _0,
    _1,
    _2,
}

impl OptimizeReferences {
    /// The value for an attribute number.
    pub open spec fn of_value(v: i8) -> Option<OptimizeReferences> {
        if v == 0 {
            Some(OptimizeReferences::_0)
        } else if v == 1 {
            Some(OptimizeReferences::_1)
        } else if v == 2 {
            Some(OptimizeReferences::_2)
        } else {
            None
        }
    }

    /// The command-line text of the value.
    pub open spec fn text(self) -> Seq<char> {
        match self {
            OptimizeReferences::_0 => ""@,
            OptimizeReferences::_1 => "/OPT:NOREF"@,
            OptimizeReferences::_2 => "/OPT:REF"@,
        }
    }

    pub fn as_str(&self) -> (r: &'static str)
        ensures
            r@ == self.text(),
    {
        match self {
            OptimizeReferences::_0 => "",
            OptimizeReferences::_1 => "/OPT:NOREF",
            OptimizeReferences::_2 => "/OPT:REF",
        }
    }

    pub fn from_value(v: i8) -> (r: Option<OptimizeReferences>)
        ensures
            r == OptimizeReferences::of_value(v),
    {
        if v == 0 {
            Some(OptimizeReferences::_0)
        } else if v == 1 {
            Some(OptimizeReferences::_1)
        } else if v == 2 {
            Some(OptimizeReferences::_2)
        } else {
            None
        }
    }

    /// The value of an attribute text.
    pub open spec fn parse_spec(s: Seq<char>) -> Option<OptimizeReferences> {
        match flag_number(s, false) {
            Some(v) => OptimizeReferences::of_value(v),
            None => None,
        }
    }

    /// The refusal of a text that is not a value of this kind.
    pub open spec fn parse_err(s: Seq<char>) -> XmlErr {
        flag_err("OptimizeReferences"@, s, false)
    }

    pub fn parse(s: &str) -> (r: Result<OptimizeReferences, VcprojError>)
        ensures
            match r {
                Ok(x) => OptimizeReferences::parse_spec(s@) == Some(x),
                Err(e) => OptimizeReferences::parse_spec(s@) is None && err_view(e) == OptimizeReferences::parse_err(s@),
            },
    {
        match parse_flag_number(s, false) {
            Ok(v) => match OptimizeReferences::from_value(v) {
                Some(x) => Ok(x),
                None => Err(VcprojError::InvalidFlag("OptimizeReferences".to_owned(), v)),
            },
            Err(e) => Err(e),
        }
    }
}

/// Values of the `EnableCOMDATFolding` attribute and their command-line text.
#[derive(Clone, Copy, Debug, PartialEq, Eq, Structural, Hash)]
pub enum EnableCOMDATFolding {
    _0,
    _1,
    _2,
}

impl EnableCOMDATFolding {
    /// The value for an attribute number.
    pub open spec fn of_value(v: i8) -> Option<EnableCOMDATFolding> {
        if v == 0 {
            Some(EnableCOMDATFolding::_0)
        } else if v == 1 {
            Some(EnableCOMDATFolding::_1)
        } else if v == 2 {
            Some(EnableCOMDATFolding::_2)
        } else {
            None
        }
    }

    /// The command-line text of the value.
    pub open spec fn text(self) -> Seq<char> {
        match self {
            EnableCOMDATFolding::_0 => ""@,
            EnableCOMDATFolding::_1 => "/OPT:NOICF"@,
            EnableCOMDATFolding::_2 => "/OPT:ICF"@,
        }
    }

    pub fn as_str(&self) -> (r: &'static str)
        ensures
            r@ == self.text(),
    {
        match self {
            EnableCOMDATFolding::_0 => "",
            EnableCOMDATFolding::_1 => "/OPT:NOICF",
            EnableCOMDATFolding::_2 => "/OPT:ICF",
        }
    }

    pub fn from_value(v: i8) -> (r: Option<EnableCOMDATFolding>)
        ensures
            r == EnableCOMDATFolding::of_value(v),
    {
        if v == 0 {
            Some(EnableCOMDATFolding::_0)
        } else if v == 1 {
            Some(EnableCOMDATFolding::_1)
        } else if v == 2 {
            Some(EnableCOMDATFolding::_2)
        } else {
            None
        }
    }

    /// The value of an attribute text.
    pub open spec fn parse_spec(s: Seq<char>) -> Option<EnableCOMDATFolding> {
        match flag_number(s, false) {
            Some(v) => EnableCOMDATFolding::of_value(v),
            None => None,
        }
    }

    /// The refusal of a text that is not a value of this kind.
    pub open spec fn parse_err(s: Seq<char>) -> XmlErr {
        flag_err("EnableCOMDATFolding"@, s, false)
    }

    pub fn parse(s: &str) -> (r: Result<EnableCOMDATFolding, VcprojError>)
        ensures
            match r {
                Ok(x) => EnableCOMDATFolding::parse_spec(s@) == Some(x),
                Err(e) => EnableCOMDATFolding::parse_spec(s@) is None && err_view(e) == EnableCOMDATFolding::parse_err(s@),
            },
    {
        match parse_flag_number(s, false) {
            Ok(v) => match EnableCOMDATFolding::from_value(v) {
                Some(x) => Ok(x),
                None => Err(VcprojError::InvalidFlag("EnableCOMDATFolding".to_owned(), v)),
            },
            Err(e) => Err(e),
        }
    }
}

/// Values of the `RandomizedBaseAddress` attribute and their command-line text.
#[derive(Clone, Copy, Debug, PartialEq, Eq, Structural, Hash)]
pub enum RandomizedBaseAddress {
    _0,
    _1,
    _2,
}

impl RandomizedBaseAddress {
    /// The value for an attribute number.
    pub open spec fn of_value(v: i8) -> Option<RandomizedBaseAddress> {
        if v == 0 {
            Some(RandomizedBaseAddress::_0)
        } else if v == 1 {
            Some(RandomizedBaseAddress::_1)
        } else if v == 2 {
            Some(RandomizedBaseAddress::_2)
        } else {
            None
        }
    }

    /// The command-line text of the value.
    pub open spec fn text(self) -> Seq<char> {
        match self {
            RandomizedBaseAddress::_0 => ""@,
            RandomizedBaseAddress::_1 => "/DYNAMICBASE:NO"@,
            RandomizedBaseAddress::_2 => "/DYNAMICBASE"@,
        }
    }

    pub fn as_str(&self) -> (r: &'static str)
        ensures
            r@ == self.text(),
    {
        match self {
            RandomizedBaseAddress::_0 => "",
            RandomizedBaseAddress::_1 => "/DYNAMICBASE:NO",
            RandomizedBaseAddress::_2 => "/DYNAMICBASE",
        }
    }

    pub fn from_value(v: i8) -> (r: Option<RandomizedBaseAddress>)
        ensures
            r == RandomizedBaseAddress::of_value(v),
    {
        if v == 0 {
            Some(RandomizedBaseAddress::_0)
        } else if v == 1 {
            Some(RandomizedBaseAddress::_1)
        } else if v == 2 {
            Some(RandomizedBaseAddress::_2)
        } else {
            None
        }
    }

    /// The value of an attribute text.
    pub open spec fn parse_spec(s: Seq<char>) -> Option<RandomizedBaseAddress> {
        match flag_number(s, false) {
            Some(v) => RandomizedBaseAddress::of_value(v),
            None => None,
        }
    }

    /// The refusal of a text that is not a value of this kind.
    pub open spec fn parse_err(s: Seq<char>) -> XmlErr {
        flag_err("RandomizedBaseAddress"@, s, false)
    }

    pub fn parse(s: &str) -> (r: Result<RandomizedBaseAddress, VcprojError>)
        ensures
            match r {
                Ok(x) => RandomizedBaseAddress::parse_spec(s@) == Some(x),
                Err(e) => RandomizedBaseAddress::parse_spec(s@) is None && err_view(e) == RandomizedBaseAddress::parse_err(s@),
            },
    {
        match parse_flag_number(s, false) {
            Ok(v) => match RandomizedBaseAddress::from_value(v) {
                Some(x) => Ok(x),
                None => Err(VcprojError::InvalidFlag("RandomizedBaseAddress".to_owned(), v)),
            },
            Err(e) => Err(e),
        }
    }
}

/// Values of the `DataExecutionPrevention` attribute and their command-line text.
#[derive(Clone, Copy, Debug, PartialEq, Eq, Structural, Hash)]
pub enum DataExecutionPrevention {
    _0,
    _1,
    _2,
}

impl DataExecutionPrevention {
    /// The value for an attribute number.
    pub open spec fn of_value(v: i8) -> Option<DataExecutionPrevention> {
        if v == 0 {
            Some(DataExecutionPrevention::_0)
        } else if v == 1 {
            Some(DataExecutionPrevention::_1)
        } else if v == 2 {
            Some(DataExecutionPrevention::_2)
        } else {
            None
        }
    }

    /// The command-line text of the value.
    pub open spec fn text(self) -> Seq<char> {
        match self {
            DataExecutionPrevention::_0 => ""@,
            DataExecutionPrevention::_1 => "/NXCOMPAT:NO"@,
            DataExecutionPrevention::_2 => "/NXCOMPAT"@,
        }
    }

    pub fn as_str(&self) -> (r: &'static str)
        ensures
            r@ == self.text(),
    {
        match self {
            DataExecutionPrevention::_0 => "",
            DataExecutionPrevention::_1 => "/NXCOMPAT:NO",
            DataExecutionPrevention::_2 => "/NXCOMPAT",
        }
    }

    pub fn from_value(v: i8) -> (r: Option<DataExecutionPrevention>)
        ensures
            r == DataExecutionPrevention::of_value(v),
    {
        if v == 0 {
            Some(DataExecutionPrevention::_0)
        } else if v == 1 {
            Some(DataExecutionPrevention::_1)
        } else if v == 2 {
            Some(DataExecutionPrevention::_2)
        } else {
            None
        }
    }

    /// The value of an attribute text.
    pub open spec fn parse_spec(s: Seq<char>) -> Option<DataExecutionPrevention> {
        match flag_number(s, false) {
            Some(v) => DataExecutionPrevention::of_value(v),
            None => None,
        }
    }

    /// The refusal of a text that is not a value of this kind.
    pub open spec fn parse_err(s: Seq<char>) -> XmlErr {
        flag_err("DataExecutionPrevention"@, s, false)
    }

    pub fn parse(s: &str) -> (r: Result<DataExecutionPrevention, VcprojError>)
        ensures
            match r {
                Ok(x) => DataExecutionPrevention::parse_spec(s@) == Some(x),
                Err(e) => DataExecutionPrevention::parse_spec(s@) is None && err_view(e) == DataExecutionPrevention::parse_err(s@),
            },
    {
        match parse_flag_number(s, false) {
            Ok(v) => match DataExecutionPrevention::from_value(v) {
                Some(x) => Ok(x),
                None => Err(VcprojError::InvalidFlag("DataExecutionPrevention".to_owned(), v)),
            },
            Err(e) => Err(e),
        }
    }
}

/// Values of the `TargetMachine` attribute and their command-line text.
#[derive(Clone, Copy, Debug, PartialEq, Eq, Structural, Hash)]
pub enum TargetMachine {
    _0,
    _1,
    _3,
    _4,
    _5,
    _7,
    _8,
    _9,
    _10,
    _14,
    _16,
    _17,
}

impl TargetMachine {
    /// The value for an attribute number.
    pub open spec fn of_value(v: i8) -> Option<TargetMachine> {
        if v == 0 {
            Some(TargetMachine::_0)
        } else if v == 1 {
            Some(TargetMachine::_1)
        } else if v == 3 {
            Some(TargetMachine::_3)
        } else if v == 4 {
            Some(TargetMachine::_4)
        } else if v == 5 {
            Some(TargetMachine::_5)
        } else if v == 7 {
            Some(TargetMachine::_7)
        } else if v == 8 {
            Some(TargetMachine::_8)
        } else if v == 9 {
            Some(TargetMachine::_9)
        } else if v == 10 {
            Some(TargetMachine::_10)
        } else if v == 14 {
            Some(TargetMachine::_14)
        } else if v == 16 {
            Some(TargetMachine::_16)
        } else if v == 17 {
            Some(TargetMachine::_17)
        } else {
            None
        }
    }

    /// The command-line text of the value.
    pub open spec fn text(self) -> Seq<char> {
        match self {
            TargetMachine::_0 => ""@,
            TargetMachine::_1 => "/MACHINE:X86"@,
            TargetMachine::_3 => "/MACHINE:ARM"@,
            TargetMachine::_4 => "/MACHINE:EBC"@,
            TargetMachine::_5 => "/MACHINE:IA64"@,
            TargetMachine::_7 => "/MACHINE:MIPS"@,
            TargetMachine::_8 => "/MACHINE:MIPS16"@,
            TargetMachine::_9 => "/MACHINE:MIPSFPU"@,
            TargetMachine::_10 => "/MACHINE:MIPSFPU16"@,
            TargetMachine::_14 => "/MACHINE:SH4"@,
            TargetMachine::_16 => "/MACHINE:THUMB"@,
            TargetMachine::_17 => "/MACHINE:X64"@,
        }
    }

    pub fn as_str(&self) -> (r: &'static str)
        ensures
            r@ == self.text(),
    {
        match self {
            TargetMachine::_0 => "",
            TargetMachine::_1 => "/MACHINE:X86",
            TargetMachine::_3 => "/MACHINE:ARM",
            TargetMachine::_4 => "/MACHINE:EBC",
            TargetMachine::_5 => "/MACHINE:IA64",
            TargetMachine::_7 => "/MACHINE:MIPS",
            TargetMachine::_8 => "/MACHINE:MIPS16",
            TargetMachine::_9 => "/MACHINE:MIPSFPU",
            TargetMachine::_10 => "/MACHINE:MIPSFPU16",
            TargetMachine::_14 => "/MACHINE:SH4",
            TargetMachine::_16 => "/MACHINE:THUMB",
            TargetMachine::_17 => "/MACHINE:X64",
        }
    }

    pub fn from_value(v: i8) -> (r: Option<TargetMachine>)
        ensures
            r == TargetMachine::of_value(v),
    {
        if v == 0 {
            Some(TargetMachine::_0)
        } else if v == 1 {
            Some(TargetMachine::_1)
        } else if v == 3 {
            Some(TargetMachine::_3)
        } else if v == 4 {
            Some(TargetMachine::_4)
        } else if v == 5 {
            Some(TargetMachine::_5)
        } else if v == 7 {
            Some(TargetMachine::_7)
        } else if v == 8 {
            Some(TargetMachine::_8)
        } else if v == 9 {
            Some(TargetMachine::_9)
        } else if v == 10 {
            Some(TargetMachine::_10)
        } else if v == 14 {
            Some(TargetMachine::_14)
        } else if v == 16 {
            Some(TargetMachine::_16)
        } else if v == 17 {
            Some(TargetMachine::_17)
        } else {
            None
        }
    }

    /// The value of an attribute text.
    pub open spec fn parse_spec(s: Seq<char>) -> Option<TargetMachine> {
        match flag_number(s, false) {
            Some(v) => TargetMachine::of_value(v),
            None => None,
        }
    }

    /// The refusal of a text that is not a value of this kind.
    pub open spec fn parse_err(s: Seq<char>) -> XmlErr {
        flag_err("TargetMachine"@, s, false)
    }

    pub fn parse(s: &str) -> (r: Result<TargetMachine, VcprojError>)
        ensures
            match r {
                Ok(x) => TargetMachine::parse_spec(s@) == Some(x),
                Err(e) => TargetMachine::parse_spec(s@) is None && err_view(e) == TargetMachine::parse_err(s@),
            },
    {
        match parse_flag_number(s, false) {
            Ok(v) => match TargetMachine::from_value(v) {
                Some(x) => Ok(x),
                None => Err(VcprojError::InvalidFlag("TargetMachine".to_owned(), v)),
            },
            Err(e) => Err(e),
        }
    }
}

/// Values of the `AssemblyDebug` attribute and their command-line text.
#[derive(Clone, Copy, Debug, PartialEq, Eq, Structural, Hash)]
pub enum AssemblyDebug {
    _0,
    _1,
    _2,
}

impl AssemblyDebug {
    /// The value for an attribute number.
    pub open spec fn of_value(v: i8) -> Option<AssemblyDebug> {
        if v == 0 {
            Some(AssemblyDebug::_0)
        } else if v == 1 {
            Some(AssemblyDebug::_1)
        } else if v == 2 {
            Some(AssemblyDebug::_2)
        } else {
            None
        }
    }

    /// The command-line text of the value.
    pub open spec fn text(self) -> Seq<char> {
        match self {
            AssemblyDebug::_0 => ""@,
            AssemblyDebug::_1 => "/ASSEMBLYDEBUG"@,
            AssemblyDebug::_2 => "/ASSEMBLYDEBUG:DISABLE"@,
        }
    }

    pub fn as_str(&self) -> (r: &'static str)
        ensures
            r@ == self.text(),
    {
        match self {
            AssemblyDebug::_0 => "",
            AssemblyDebug::_1 => "/ASSEMBLYDEBUG",
            AssemblyDebug::_2 => "/ASSEMBLYDEBUG:DISABLE",
        }
    }

    pub fn from_value(v: i8) -> (r: Option<AssemblyDebug>)
        ensures
            r == AssemblyDebug::of_value(v),
    {
        if v == 0 {
            Some(AssemblyDebug::_0)
        } else if v == 1 {
            Some(AssemblyDebug::_1)
        } else if v == 2 {
            Some(AssemblyDebug::_2)
        } else {
            None
        }
    }

    /// The value of an attribute text.
    pub open spec fn parse_spec(s: Seq<char>) -> Option<AssemblyDebug> {
        match flag_number(s, false) {
            Some(v) => AssemblyDebug::of_value(v),
            None => None,
        }
    }

    /// The refusal of a text that is not a value of this kind.
    pub open spec fn parse_err(s: Seq<char>) -> XmlErr {
        flag_err("AssemblyDebug"@, s, false)
    }

    pub fn parse(s: &str) -> (r: Result<AssemblyDebug, VcprojError>)
        ensures
            match r {
                Ok(x) => AssemblyDebug::parse_spec(s@) == Some(x),
                Err(e) => AssemblyDebug::parse_spec(s@) is None && err_view(e) == AssemblyDebug::parse_err(s@),
            },
    {
        match parse_flag_number(s, false) {
            Ok(v) => match AssemblyDebug::from_value(v) {
                Some(x) => Ok(x),
                None => Err(VcprojError::InvalidFlag("AssemblyDebug".to_owned(), v)),
            },
            Err(e) => Err(e),
        }
    }
}

/// Values of the `CLRThreadAttribute` attribute and their command-line text.
#[derive(Clone, Copy, Debug, PartialEq, Eq, Structural, Hash)]
pub enum CLRThreadAttribute {
    _0,
    _1,
    _2,
}

impl CLRThreadAttribute {
    /// The value for an attribute number.
    pub open spec fn of_value(v: i8) -> Option<CLRThreadAttribute> {
        if v == 0 {
            Some(CLRThreadAttribute::_0)
        } else if v == 1 {
            Some(CLRThreadAttribute::_1)
        } else if v == 2 {
            Some(CLRThreadAttribute::_2)
        } else {
            None
        }
    }

    /// The command-line text of the value.
    pub open spec fn text(self) -> Seq<char> {
        match self {
            CLRThreadAttribute::_0 => "/CLRTHREADATTRIBUTE:NONE"@,
            CLRThreadAttribute::_1 => "/CLRTHREADATTRIBUTE:MTA"@,
            CLRThreadAttribute::_2 => "/CLRTHREADATTRIBUTE:STA"@,
        }
    }

    pub fn as_str(&self) -> (r: &'static str)
        ensures
            r@ == self.text(),
    {
        match self {
            CLRThreadAttribute::_0 => "/CLRTHREADATTRIBUTE:NONE",
            CLRThreadAttribute::_1 => "/CLRTHREADATTRIBUTE:MTA",
            CLRThreadAttribute::_2 => "/CLRTHREADATTRIBUTE:STA",
        }
    }

    pub fn from_value(v: i8) -> (r: Option<CLRThreadAttribute>)
        ensures
            r == CLRThreadAttribute::of_value(v),
    {
        if v == 0 {
            Some(CLRThreadAttribute::_0)
        } else if v == 1 {
            Some(CLRThreadAttribute::_1)
        } else if v == 2 {
            Some(CLRThreadAttribute::_2)
        } else {
            None
        }
    }

    /// The value of an attribute text.
    pub open spec fn parse_spec(s: Seq<char>) -> Option<CLRThreadAttribute> {
        match flag_number(s, false) {
            Some(v) => CLRThreadAttribute::of_value(v),
            None => None,
        }
    }

    /// The refusal of a text that is not a value of this kind.
    pub open spec fn parse_err(s: Seq<char>) -> XmlErr {
        flag_err("CLRThreadAttribute"@, s, false)
    }

    pub fn parse(s: &str) -> (r: Result<CLRThreadAttribute, VcprojError>)
        ensures
            match r {
                Ok(x) => CLRThreadAttribute::parse_spec(s@) == Some(x),
                Err(e) => CLRThreadAttribute::parse_spec(s@) is None && err_view(e) == CLRThreadAttribute::parse_err(s@),
            },
    {
        match parse_flag_number(s, false) {
            Ok(v) => match CLRThreadAttribute::from_value(v) {
                Some(x) => Ok(x),
                None => Err(VcprojError::InvalidFlag("CLRThreadAttribute".to_owned(), v)),
            },
            Err(e) => Err(e),
        }
    }
}

/// Values of the `FixedBaseAddress` attribute and their command-line text.
#[derive(Clone, Copy, Debug, PartialEq, Eq, Structural, Hash)]
pub enum FixedBaseAddress {
    _0,
    _1,
    _2,
}

impl FixedBaseAddress {
    /// The value for an attribute number.
    pub open spec fn of_value(v: i8) -> Option<FixedBaseAddress> {
        if v == 0 {
            Some(FixedBaseAddress::_0)
        } else if v == 1 {
            Some(FixedBaseAddress::_1)
        } else if v == 2 {
            Some(FixedBaseAddress::_2)
        } else {
            None
        }
    }

    /// The command-line text of the value.
    pub open spec fn text(self) -> Seq<char> {
        match self {
            FixedBaseAddress::_0 => ""@,
            FixedBaseAddress::_1 => "/FIXED:No"@,
            FixedBaseAddress::_2 => "/FIXED"@,
        }
    }

    pub fn as_str(&self) -> (r: &'static str)
        ensures
            r@ == self.text(),
    {
        match self {
            FixedBaseAddress::_0 => "",
            FixedBaseAddress::_1 => "/FIXED:No",
            FixedBaseAddress::_2 => "/FIXED",
        }
    }

    pub fn from_value(v: i8) -> (r: Option<FixedBaseAddress>)
        ensures
            r == FixedBaseAddress::of_value(v),
    {
        if v == 0 {
            Some(FixedBaseAddress::_0)
        } else if v == 1 {
            Some(FixedBaseAddress::_1)
        } else if v == 2 {
            Some(FixedBaseAddress::_2)
        } else {
            None
        }
    }

    /// The value of an attribute text.
    pub open spec fn parse_spec(s: Seq<char>) -> Option<FixedBaseAddress> {
        match flag_number(s, false) {
            Some(v) => FixedBaseAddress::of_value(v),
            None => None,
        }
    }

    /// The refusal of a text that is not a value of this kind.
    pub open spec fn parse_err(s: Seq<char>) -> XmlErr {
        flag_err("FixedBaseAddress"@, s, false)
    }

    pub fn parse(s: &str) -> (r: Result<FixedBaseAddress, VcprojError>)
        ensures
            match r {
                Ok(x) => FixedBaseAddress::parse_spec(s@) == Some(x),
                Err(e) => FixedBaseAddress::parse_spec(s@) is None && err_view(e) == FixedBaseAddress::parse_err(s@),
            },
    {
        match parse_flag_number(s, false) {
            Ok(v) => match FixedBaseAddress::from_value(v) {
                Some(x) => Ok(x),
                None => Err(VcprojError::InvalidFlag("FixedBaseAddress".to_owned(), v)),
            },
            Err(e) => Err(e),
        }
    }
}

/// Values of the `OptimizeForWindows98` attribute and their command-line text.
#[derive(Clone, Copy, Debug, PartialEq, Eq, Structural, Hash)]
pub enum OptimizeForWindows98 {
    _0,
    _1,
    _2,
}

impl OptimizeForWindows98 {
    /// The value for an attribute number.
    pub open spec fn of_value(v: i8) -> Option<OptimizeForWindows98> {
        if v == 0 {
            Some(OptimizeForWindows98::_0)
        } else if v == 1 {
            Some(OptimizeForWindows98::_1)
        } else if v == 2 {
            Some(OptimizeForWindows98::_2)
        } else {
            None
        }
    }

    /// The command-line text of the value.
    pub open spec fn text(self) -> Seq<char> {
        match self {
            OptimizeForWindows98::_0 => ""@,
            OptimizeForWindows98::_1 => ""@,
            OptimizeForWindows98::_2 => ""@,
        }
    }

    pub fn as_str(&self) -> (r: &'static str)
        ensures
            r@ == self.text(),
    {
        match self {
            OptimizeForWindows98::_0 => "",
            OptimizeForWindows98::_1 => "",
            OptimizeForWindows98::_2 => "",
        }
    }

    pub fn from_value(v: i8) -> (r: Option<OptimizeForWindows98>)
        ensures
            r == OptimizeForWindows98::of_value(v),
    {
        if v == 0 {
            Some(OptimizeForWindows98::_0)
        } else if v == 1 {
            Some(OptimizeForWindows98::_1)
        } else if v == 2 {
            Some(OptimizeForWindows98::_2)
        } else {
            None
        }
    }

    /// The value of an attribute text.
    pub open spec fn parse_spec(s: Seq<char>) -> Option<OptimizeForWindows98> {
        match flag_number(s, false) {
            Some(v) => OptimizeForWindows98::of_value(v),
            None => None,
        }
    }

    /// The refusal of a text that is not a value of this kind.
    pub open spec fn parse_err(s: Seq<char>) -> XmlErr {
        flag_err("OptimizeForWindows98"@, s, false)
    }

    pub fn parse(s: &str) -> (r: Result<OptimizeForWindows98, VcprojError>)
        ensures
            match r {
                Ok(x) => OptimizeForWindows98::parse_spec(s@) == Some(x),
                Err(e) => OptimizeForWindows98::parse_spec(s@) is None && err_view(e) == OptimizeForWindows98::parse_err(s@),
            },
    {
        match parse_flag_number(s, false) {
            Ok(v) => match OptimizeForWindows98::from_value(v) {
                Some(x) => Ok(x),
                None => Err(VcprojError::InvalidFlag("OptimizeForWindows98".to_owned(), v)),
            },
            Err(e) => Err(e),
        }
    }
}

/// Values of the `SupportUnloadOfDelayLoadedDLL` attribute and their command-line text.
#[derive(Clone, Copy, Debug, PartialEq, Eq, Structural, Hash)]
pub enum SupportUnloadOfDelayLoadedDLL {
    _0,
    _1,
}

impl SupportUnloadOfDelayLoadedDLL {
    /// The value for an attribute number.
    pub open spec fn of_value(v: i8) -> Option<SupportUnloadOfDelayLoadedDLL> {
        if v == 0 {
            Some(SupportUnloadOfDelayLoadedDLL::_0)
        } else if v == 1 {
            Some(SupportUnloadOfDelayLoadedDLL::_1)
        } else {
            None
        }
    }

    /// The command-line text of the value.
    pub open spec fn text(self) -> Seq<char> {
        match self {
            SupportUnloadOfDelayLoadedDLL::_0 => ""@,
            SupportUnloadOfDelayLoadedDLL::_1 => "/DELAY:UNLOAD"@,
        }
    }

    pub fn as_str(&self) -> (r: &'static str)
        ensures
            r@ == self.text(),
    {
        match self {
            SupportUnloadOfDelayLoadedDLL::_0 => "",
            SupportUnloadOfDelayLoadedDLL::_1 => "/DELAY:UNLOAD",
        }
    }

    pub fn from_value(v: i8) -> (r: Option<SupportUnloadOfDelayLoadedDLL>)
        ensures
            r == SupportUnloadOfDelayLoadedDLL::of_value(v),
    {
        if v == 0 {
            Some(SupportUnloadOfDelayLoadedDLL::_0)
        } else if v == 1 {
            Some(SupportUnloadOfDelayLoadedDLL::_1)
        } else {
            None
        }
    }

    /// The value of an attribute text.
    pub open spec fn parse_spec(s: Seq<char>) -> Option<SupportUnloadOfDelayLoadedDLL> {
        match flag_number(s, true) {
            Some(v) => SupportUnloadOfDelayLoadedDLL::of_value(v),
            None => None,
        }
    }

    /// The refusal of a text that is not a value of this kind.
    pub open spec fn parse_err(s: Seq<char>) -> XmlErr {
        flag_err("SupportUnloadOfDelayLoadedDLL"@, s, true)
    }

    pub fn parse(s: &str) -> (r: Result<SupportUnloadOfDelayLoadedDLL, VcprojError>)
        ensures
            match r {
                Ok(x) => SupportUnloadOfDelayLoadedDLL::parse_spec(s@) == Some(x),
                Err(e) => SupportUnloadOfDelayLoadedDLL::parse_spec(s@) is None && err_view(e) == SupportUnloadOfDelayLoadedDLL::parse_err(s@),
            },
    {
        match parse_flag_number(s, true) {
            Ok(v) => match SupportUnloadOfDelayLoadedDLL::from_value(v) {
                Some(x) => Ok(x),
                None => Err(VcprojError::InvalidFlag("SupportUnloadOfDelayLoadedDLL".to_owned(), v)),
            },
            Err(e) => Err(e),
        }
    }
}

impl GenerateDebugInformation {
    /// The text of an optional value; nothing when absent.
    pub open spec fn opt_text(o: Option<GenerateDebugInformation>) -> Seq<char> {
        match o {
            Some(x) => x.text(),
            None => Seq::empty(),
        }
    }

    pub fn opt_as_str(o: &Option<GenerateDebugInformation>) -> (r: &'static str)
        ensures
            r@ == GenerateDebugInformation::opt_text(*o),
    {
        match o {
            Some(x) => x.as_str(),
            None => {
                proof {
                    reveal_strlit("");
                }
                ""
            },
        }
    }
}

impl LinkIncremental {
    /// The text of an optional value; nothing when absent.
    pub open spec fn opt_text(o: Option<LinkIncremental>) -> Seq<char> {
        match o {
            Some(x) => x.text(),
            None => Seq::empty(),
        }
    }

    pub fn opt_as_str(o: &Option<LinkIncremental>) -> (r: &'static str)
        ensures
            r@ == LinkIncremental::opt_text(*o),
    {
        match o {
            Some(x) => x.as_str(),
            None => {
                proof {
                    reveal_strlit("");
                }
                ""
            },
        }
    }
}

impl SubSystem {
    /// The text of an optional value; nothing when absent.
    pub open spec fn opt_text(o: Option<SubSystem>) -> Seq<char> {
        match o {
            Some(x) => x.text(),
            None => Seq::empty(),
        }
    }

    pub fn opt_as_str(o: &Option<SubSystem>) -> (r: &'static str)
        ensures
            r@ == SubSystem::opt_text(*o),
    {
        match o {
            Some(x) => x.as_str(),
            None => {
                proof {
                    reveal_strlit("");
                }
                ""
            },
        }
    }
}

impl LargeAddressAware {
    /// The text of an optional value; nothing when absent.
    pub open spec fn opt_text(o: Option<LargeAddressAware>) -> Seq<char> {
        match o {
            Some(x) => x.text(),
            None => Seq::empty(),
        }
    }

    pub fn opt_as_str(o: &Option<LargeAddressAware>) -> (r: &'static str)
        ensures
            r@ == LargeAddressAware::opt_text(*o),
    {
        match o {
            Some(x) => x.as_str(),
            None => {
                proof {
                    reveal_strlit("");
                }
                ""
            },
        }
    }
}

impl OptimizeReferences {
    /// The text of an optional value; nothing when absent.
    pub open spec fn opt_text(o: Option<OptimizeReferences>) -> Seq<char> {
        match o {
            Some(x) => x.text(),
            None => Seq::empty(),
        }
    }

    pub fn opt_as_str(o: &Option<OptimizeReferences>) -> (r: &'static str)
        ensures
            r@ == OptimizeReferences::opt_text(*o),
    {
        match o {
            Some(x) => x.as_str(),
            None => {
                proof {
                    reveal_strlit("");
                }
                ""
            },
        }
    }
}

impl EnableCOMDATFolding {
    /// The text of an optional value; nothing when absent.
    pub open spec fn opt_text(o: Option<EnableCOMDATFolding>) -> Seq<char> {
        match o {
            Some(x) => x.text(),
            None => Seq::empty(),
        }
    }

    pub fn opt_as_str(o: &Option<EnableCOMDATFolding>) -> (r: &'static str)
        ensures
            r@ == EnableCOMDATFolding::opt_text(*o),
    {
        match o {
            Some(x) => x.as_str(),
            None => {
                proof {
                    reveal_strlit("");
                }
                ""
            },
        }
    }
}

impl RandomizedBaseAddress {
    /// The text of an optional value; nothing when absent.
    pub open spec fn opt_text(o: Option<RandomizedBaseAddress>) -> Seq<char> {
        match o {
            Some(x) => x.text(),
            None => Seq::empty(),
        }
    }

    pub fn opt_as_str(o: &Option<RandomizedBaseAddress>) -> (r: &'static str)
        ensures
            r@ == RandomizedBaseAddress::opt_text(*o),
    {
        match o {
            Some(x) => x.as_str(),
            None => {
                proof {
                    reveal_strlit("");
                }
                ""
            },
        }
    }
}

impl DataExecutionPrevention {
    /// The text of an optional value; nothing when absent.
    pub open spec fn opt_text(o: Option<DataExecutionPrevention>) -> Seq<char> {
        match o {
            Some(x) => x.text(),
            None => Seq::empty(),
        }
    }

    pub fn opt_as_str(o: &Option<DataExecutionPrevention>) -> (r: &'static str)
        ensures
            r@ == DataExecutionPrevention::opt_text(*o),
    {
        match o {
            Some(x) => x.as_str(),
            None => {
                proof {
                    reveal_strlit("");
                }
                ""
            },
        }
    }
}

impl TargetMachine {
    /// The text of an optional value; nothing when absent.
    pub open spec fn opt_text(o: Option<TargetMachine>) -> Seq<char> {
        match o {
            Some(x) => x.text(),
            None => Seq::empty(),
        }
    }

    pub fn opt_as_str(o: &Option<TargetMachine>) -> (r: &'static str)
        ensures
            r@ == TargetMachine::opt_text(*o),
    {
        match o {
            Some(x) => x.as_str(),
            None => {
                proof {
                    reveal_strlit("");
                }
                ""
            },
        }
    }
}

impl AssemblyDebug {
    /// The text of an optional value; nothing when absent.
    pub open spec fn opt_text(o: Option<AssemblyDebug>) -> Seq<char> {
        match o {
            Some(x) => x.text(),
            None => Seq::empty(),
        }
    }

    pub fn opt_as_str(o: &Option<AssemblyDebug>) -> (r: &'static str)
        ensures
            r@ == AssemblyDebug::opt_text(*o),
    {
        match o {
            Some(x) => x.as_str(),
            None => {
                proof {
                    reveal_strlit("");
                }
                ""
            },
        }
    }
}

impl CLRThreadAttribute {
    /// The text of an optional value; nothing when absent.
    pub open spec fn opt_text(o: Option<CLRThreadAttribute>) -> Seq<char> {
        match o {
            Some(x) => x.text(),
            None => Seq::empty(),
        }
    }

    pub fn opt_as_str(o: &Option<CLRThreadAttribute>) -> (r: &'static str)
        ensures
            r@ == CLRThreadAttribute::opt_text(*o),
    {
        match o {
            Some(x) => x.as_str(),
            None => {
                proof {
                    reveal_strlit("");
                }
                ""
            },
        }
    }
}

impl FixedBaseAddress {
    /// The text of an optional value; nothing when absent.
    pub open spec fn opt_text(o: Option<FixedBaseAddress>) -> Seq<char> {
        match o {
            Some(x) => x.text(),
            None => Seq::empty(),
        }
    }

    pub fn opt_as_str(o: &Option<FixedBaseAddress>) -> (r: &'static str)
        ensures
            r@ == FixedBaseAddress::opt_text(*o),
    {
        match o {
            Some(x) => x.as_str(),
            None => {
                proof {
                    reveal_strlit("");
                }
                ""
            },
        }
    }
}

impl OptimizeForWindows98 {
    /// The text of an optional value; nothing when absent.
    pub open spec fn opt_text(o: Option<OptimizeForWindows98>) -> Seq<char> {
        match o {
            Some(x) => x.text(),
            None => Seq::empty(),
        }
    }

    pub fn opt_as_str(o: &Option<OptimizeForWindows98>) -> (r: &'static str)
        ensures
            r@ == OptimizeForWindows98::opt_text(*o),
    {
        match o {
            Some(x) => x.as_str(),
            None => {
                proof {
                    reveal_strlit("");
                }
                ""
            },
        }
    }
}

impl SupportUnloadOfDelayLoadedDLL {
    /// The text of an optional value; nothing when absent.
    pub open spec fn opt_text(o: Option<SupportUnloadOfDelayLoadedDLL>) -> Seq<char> {
        match o {
            Some(x) => x.text(),
            None => Seq::empty(),
        }
    }

    pub fn opt_as_str(o: &Option<SupportUnloadOfDelayLoadedDLL>) -> (r: &'static str)
        ensures
            r@ == SupportUnloadOfDelayLoadedDLL::opt_text(*o),
    {
        match o {
            Some(x) => x.as_str(),
            None => {
                proof {
                    reveal_strlit("");
                }
                ""
            },
        }
    }
}


/// The settings that the linker does not turn into options: they must be
/// absent (or empty, or false).
pub open spec fn linker_supported(t: LinkerTool) -> bool {
    &&& t.clr_thread_attribute is None
    &&& t.assembly_debug is None
    &&& t.assembly_link_resource is None
    &&& t.embed_managed_resource_file is None
    &&& t.ignore_import_library is None
    &&& t.optimize_for_windows98 is None
    &&& (opt_view(t.map_file_name) matches Some(m) ==> m.len() == 0)
    &&& (opt_view(t.entry_point_symbol) matches Some(e) ==> e.len() == 0)
    &&& t.map_exports != Some(true)
    &&& t.generate_map_file != Some(true)
}

/// The default output file of an executable or a DLL.
pub open spec fn default_link_output(c: ConfigurationType) -> Seq<char> {
    if c == ConfigurationType::_1 {
        "$(OutDir)\\$(ProjectName).exe"@
    } else {
        "$(OutDir)\\$(ProjectName).dll"@
    }
}

pub open spec fn link_output_spec(t: LinkerTool, cfg: Configuration, env: EnvView) -> Seq<char> {
    clean_spec(
        env.expand_spec(
            match opt_view(t.output_file) {
                Some(o) => o,
                None => default_link_output(cfg.configuration_type),
            },
        ),
    )
}

/// `p` with the extension of its file name replaced by `ext`, normalized.
pub open spec fn with_extension_spec(p: Seq<char>, ext: Seq<char>) -> Option<Seq<char>> {
    normalize_spec(
        render(
            prefix_of(p),
            has_root(p),
            components(p).drop_last().push(file_stem_spec(p)->0 + seq!['.'] + ext),
        ),
    )
}

/// The program database: `ProgramDatabaseFile`, else the output file with
/// `.pdb`.
pub open spec fn pdb_file_spec(t: LinkerTool, out: Seq<char>) -> Seq<char> {
    match opt_view(t.program_database_file) {
        Some(p) => p,
        None => with_extension_spec(out, "pdb"@)->0,
    }
}

/// A `prefix` option for each entry of `xs`, cleaned (after expansion when
/// `env` is given), when it is not empty; the value is quoted when `quote`.
pub open spec fn cleaned_options(xs: Option<Vec<String>>, env: Option<EnvView>, prefix: Seq<char>, quote: bool) -> Seq<Seq<char>> {
    nonempty(
        list_or_empty(opt_list_view(xs)).map_values(
            |p: Seq<char>| clean_spec(
                match env {
                    Some(e) => e.expand_spec(p),
                    None => p,
                },
            ),
        ),
    ).map_values(
        |c: Seq<char>| if quote {
            quoted(prefix, c)
        } else {
            prefix + c
        },
    )
}

pub open spec fn env_view_opt(env: Option<&MsBuildEnvironment>) -> Option<EnvView> {
    match env {
        Some(e) => Some(e@),
        None => None,
    }
}

pub open spec fn manifest_options(t: LinkerTool, out: Seq<char>, env: EnvView) -> Seq<Seq<char>> {
    if t.generate_manifest != Some(false) {
        seq![
            "/MANIFEST"@,
            quoted(
                "/MANIFESTFILE:"@,
                clean_spec(env.expand_spec("$(IntDir)\\"@ + file_name_spec(out)->0 + ".intermediate.manifest"@)),
            ),
            "/MANIFESTUAC:\"level='asInvoker' uiAccess='false'\""@,
        ]
    } else {
        Seq::empty()
    }
}

pub open spec fn opt_quoted(prefix: Seq<char>, o: Option<String>) -> Seq<Seq<char>> {
    match opt_view(o) {
        Some(x) => seq![quoted(prefix, clean_spec(x))],
        None => Seq::empty(),
    }
}

pub open spec fn opt_str_word(o: Option<String>) -> Seq<Seq<char>> {
    match opt_view(o) {
        Some(x) => opt_word(x),
        None => Seq::empty(),
    }
}

/// The response file options of the linker up to `/PDB`.
pub open spec fn link_items_a(t: LinkerTool, cfg: Configuration, env: EnvView) -> Seq<Seq<char>> {
    let out = link_output_spec(t, cfg, env);
    seq![quoted("/OUT:"@, out)]
        + opt_word(LinkIncremental::opt_text(t.link_incremental))
        + cleaned_options(t.additional_library_directories, Some(env), "/LIBPATH:"@, true)
        + (if cfg.configuration_type == ConfigurationType::_2 {
        seq!["/DLL"@]
    } else {
        Seq::empty()
    })
        + manifest_options(t, out, env)
        + cleaned_options(t.ignore_default_library_names, None, "/NODEFAULTLIB:"@, true)
        + opt_quoted("/DEF:"@, t.module_definition_file)
        + opt_word(GenerateDebugInformation::opt_text(t.generate_debug_information))
        + seq![quoted("/PDB:"@, clean_spec(env.expand_spec(pdb_file_spec(t, out))))]
}

/// An option that is not `/DLL`: its second and third characters are not
/// `DL`.
pub open spec fn not_dll_option(e: Seq<char>) -> bool {
    e.len() >= 3 && !(e[1] == 'D' && e[2] == 'L')
}

pub open spec fn all_not_dll(s: Seq<Seq<char>>) -> bool {
    forall|k: int| 0 <= k < s.len() ==> not_dll_option(#[trigger] s[k])
}

proof fn lemma_all_not_dll_concat(a: Seq<Seq<char>>, b: Seq<Seq<char>>)
    requires
        all_not_dll(a),
        all_not_dll(b),
    ensures
        all_not_dll(a + b),
{
    assert forall|k: int| 0 <= k < (a + b).len() implies not_dll_option(#[trigger] (a + b)[k]) by {
        if k < a.len() {
            assert((a + b)[k] == a[k]);
        } else {
            assert((a + b)[k] == b[k - a.len()]);
        }
    }
}

/// An option that starts with `p` is not `/DLL` when `p` is not.
proof fn lemma_prefixed_not_dll(p: Seq<char>, x: Seq<char>)
    requires
        not_dll_option(p),
    ensures
        not_dll_option(p + x),
        not_dll_option(quoted(p, x)),
{
    assert((p + x)[1] == p[1] && (p + x)[2] == p[2]);
    assert(quoted(p, x)[1] == p[1] && quoted(p, x)[2] == p[2]);
}

proof fn lemma_cleaned_not_dll(xs: Option<Vec<String>>, env: Option<EnvView>, p: Seq<char>)
    requires
        not_dll_option(p),
    ensures
        all_not_dll(cleaned_options(xs, env, p, true)),
{
    let c = cleaned_options(xs, env, p, true);
    assert forall|k: int| 0 <= k < c.len() implies not_dll_option(#[trigger] c[k]) by {
        let inner = nonempty(
            list_or_empty(opt_list_view(xs)).map_values(
                |q: Seq<char>| clean_spec(
                    match env {
                        Some(e) => e.expand_spec(q),
                        None => q,
                    },
                ),
            ),
        );
        assert(c[k] == quoted(p, inner[k]));
        lemma_prefixed_not_dll(p, inner[k]);
    }
}

/// Law: the linker options before `/PDB` (those the tool writes itself)
/// hold `/DLL` exactly when the configuration builds a DLL; so the whole
/// response file of a DLL holds it.
pub proof fn lemma_dll_option(t: LinkerTool, cfg: Configuration, env: EnvView)
    ensures
        link_items_a(t, cfg, env).contains("/DLL"@) <==> cfg.configuration_type == ConfigurationType::_2,
        cfg.configuration_type == ConfigurationType::_2 ==> link_rsp_items(t, cfg, env).contains("/DLL"@),
{
    reveal_strlit("/DLL");
    reveal_strlit("/OUT:");
    reveal_strlit("/LIBPATH:");
    reveal_strlit("/MANIFEST");
    reveal_strlit("/MANIFESTFILE:");
    reveal_strlit("/MANIFESTUAC:\"level='asInvoker' uiAccess='false'\"");
    reveal_strlit("/NODEFAULTLIB:");
    reveal_strlit("/DEF:");
    reveal_strlit("/PDB:");
    reveal_strlit("/INCREMENTAL:NO");
    reveal_strlit("/INCREMENTAL");
    reveal_strlit("/DEBUG");
    reveal_strlit("");
    let out = link_output_spec(t, cfg, env);
    let a1 = seq![quoted("/OUT:"@, out)];
    let a2 = opt_word(LinkIncremental::opt_text(t.link_incremental));
    let a3 = cleaned_options(t.additional_library_directories, Some(env), "/LIBPATH:"@, true);
    let dll = if cfg.configuration_type == ConfigurationType::_2 {
        seq!["/DLL"@]
    } else {
        Seq::empty()
    };
    let a5 = manifest_options(t, out, env);
    let a6 = cleaned_options(t.ignore_default_library_names, None, "/NODEFAULTLIB:"@, true);
    let a7 = opt_quoted("/DEF:"@, t.module_definition_file);
    let a8 = opt_word(GenerateDebugInformation::opt_text(t.generate_debug_information));
    let a9 = seq![quoted("/PDB:"@, clean_spec(env.expand_spec(pdb_file_spec(t, out))))];
    let items = link_items_a(t, cfg, env);
    assert(items == a1 + a2 + a3 + dll + a5 + a6 + a7 + a8 + a9);
    lemma_prefixed_not_dll("/OUT:"@, out);
    assert(all_not_dll(a1));
    assert(all_not_dll(a2)) by {
        match t.link_incremental {
            Some(x) => match x {
                LinkIncremental::_0 => {},
                LinkIncremental::_1 => {},
                LinkIncremental::_2 => {},
            },
            None => {},
        }
    }
    lemma_cleaned_not_dll(t.additional_library_directories, Some(env), "/LIBPATH:"@);
    assert(all_not_dll(a5)) by {
        if t.generate_manifest != Some(false) {
            lemma_prefixed_not_dll(
                "/MANIFESTFILE:"@,
                clean_spec(env.expand_spec("$(IntDir)\\"@ + file_name_spec(out)->0 + ".intermediate.manifest"@)),
            );
        }
    }
    lemma_cleaned_not_dll(t.ignore_default_library_names, None, "/NODEFAULTLIB:"@);
    assert(all_not_dll(a7)) by {
        match opt_view(t.module_definition_file) {
            Some(x) => lemma_prefixed_not_dll("/DEF:"@, clean_spec(x)),
            None => {},
        }
    }
    assert(all_not_dll(a8)) by {
        match t.generate_debug_information {
            Some(x) => match x {
                GenerateDebugInformation::_0 => {},
                GenerateDebugInformation::_1 => {},
            },
            None => {},
        }
    }
    lemma_prefixed_not_dll("/PDB:"@, clean_spec(env.expand_spec(pdb_file_spec(t, out))));
    assert(all_not_dll(a9));
    lemma_all_not_dll_concat(a1, a2);
    lemma_all_not_dll_concat(a1 + a2, a3);
    let before = a1 + a2 + a3;
    let after = a5 + a6 + a7 + a8 + a9;
    lemma_all_not_dll_concat(a5, a6);
    lemma_all_not_dll_concat(a5 + a6, a7);
    lemma_all_not_dll_concat(a5 + a6 + a7, a8);
    lemma_all_not_dll_concat(a5 + a6 + a7 + a8, a9);
    assert(items =~= before + dll + after);
    if cfg.configuration_type == ConfigurationType::_2 {
        assert(items[before.len() as int] == "/DLL"@);
        let all = link_rsp_items(t, cfg, env);
        assert(all == items + link_items_b(t, cfg, env));
        assert(all[before.len() as int] == "/DLL"@);
    } else {
        assert(items =~= before + after);
        lemma_all_not_dll_concat(before, after);
        if items.contains("/DLL"@) {
            let k = choose|k: int| 0 <= k < items.len() && items[k] == "/DLL"@;
            assert(not_dll_option(items[k]));
        }
    }
}

/// The response file options of the linker after `/PDB`.
pub open spec fn link_items_b(t: LinkerTool, cfg: Configuration, env: EnvView) -> Seq<Seq<char>> {
    opt_word(SubSystem::opt_text(t.sub_system))
        + opt_word(LargeAddressAware::opt_text(t.large_address_aware))
        + opt_word(OptimizeReferences::opt_text(t.optimize_references))
        + opt_word(EnableCOMDATFolding::opt_text(t.enable_comdat_folding))
        + (if cfg.whole_program_optimization == Some(true) {
        seq!["/LTCG"@]
    } else {
        Seq::empty()
    })
        + opt_quoted("/BASE:"@, t.base_address)
        + opt_word(RandomizedBaseAddress::opt_text(t.randomized_base_address))
        + opt_word(DataExecutionPrevention::opt_text(t.data_execution_prevention))
        + opt_word(FixedBaseAddress::opt_text(t.fixed_base_address))
        + opt_word(SupportUnloadOfDelayLoadedDLL::opt_text(t.support_unload_of_delay_loaded_dll))
        + seq![quoted("/IMPLIB:"@, implib_spec(t, env))]
        + opt_word(TargetMachine::opt_text(t.target_machine))
        + cleaned_options(t.delay_load_dlls, None, "/delayload:"@, false)
        + opt_str_word(t.additional_options)
        + opt_str_word(t.additional_dependencies)
}

/// The response file options of the linker, in the order `link` expects.
pub open spec fn link_rsp_items(t: LinkerTool, cfg: Configuration, env: EnvView) -> Seq<Seq<char>> {
    link_items_a(t, cfg, env) + link_items_b(t, cfg, env)
}

proof fn lemma_items_a_shape(t: LinkerTool, cfg: Configuration, env: EnvView)
    ensures
        link_items_a(t, cfg, env).len() > 0,
        link_items_a(t, cfg, env)[0] == quoted("/OUT:"@, link_output_spec(t, cfg, env)),
        link_items_a(t, cfg, env).contains(
            quoted("/PDB:"@, clean_spec(env.expand_spec(pdb_file_spec(t, link_output_spec(t, cfg, env))))),
        ),
        t.generate_manifest != Some(false) ==> link_items_a(t, cfg, env).contains("/MANIFEST"@),
{
    let a = link_items_a(t, cfg, env);
    let out = link_output_spec(t, cfg, env);
    let pdb = quoted("/PDB:"@, clean_spec(env.expand_spec(pdb_file_spec(t, out))));
    let a1 = seq![quoted("/OUT:"@, out)] + opt_word(LinkIncremental::opt_text(t.link_incremental)) + cleaned_options(
        t.additional_library_directories,
        Some(env),
        "/LIBPATH:"@,
        true,
    ) + (if cfg.configuration_type == ConfigurationType::_2 {
        seq!["/DLL"@]
    } else {
        Seq::empty()
    });
    let rest = cleaned_options(t.ignore_default_library_names, None, "/NODEFAULTLIB:"@, true) + opt_quoted(
        "/DEF:"@,
        t.module_definition_file,
    ) + opt_word(GenerateDebugInformation::opt_text(t.generate_debug_information)) + seq![pdb];
    assert(a =~= a1 + manifest_options(t, out, env) + rest);
    assert(a[a.len() - 1] == pdb);
    assert(a[0] == quoted("/OUT:"@, out));
    if t.generate_manifest != Some(false) {
        assert(a[a1.len() as int] == "/MANIFEST"@);
    }
}

proof fn lemma_contains_append(s: Seq<Seq<char>>, t: Seq<Seq<char>>, x: Seq<char>)
    requires
        s.contains(x),
    ensures
        (s + t).contains(x),
{
    let i = choose|i: int| 0 <= i < s.len() && s[i] == x;
    assert((s + t)[i] == x);
}

proof fn lemma_contains_last(s: Seq<Seq<char>>, x: Seq<char>)
    ensures
        (s + seq![x]).contains(x),
{
    assert((s + seq![x])[s.len() as int] == x);
}

proof fn lemma_items_b_shape(t: LinkerTool, cfg: Configuration, env: EnvView)
    ensures
        link_items_b(t, cfg, env).contains(quoted("/IMPLIB:"@, implib_spec(t, env))),
        cfg.whole_program_optimization == Some(true) ==> link_items_b(t, cfg, env).contains("/LTCG"@),
{
    let p4 = opt_word(SubSystem::opt_text(t.sub_system)) + opt_word(LargeAddressAware::opt_text(t.large_address_aware))
        + opt_word(OptimizeReferences::opt_text(t.optimize_references)) + opt_word(
        EnableCOMDATFolding::opt_text(t.enable_comdat_folding),
    );
    let ltcg = if cfg.whole_program_optimization == Some(true) {
        seq!["/LTCG"@]
    } else {
        Seq::empty()
    };
    let p5 = p4 + ltcg;
    let p6 = p5 + opt_quoted("/BASE:"@, t.base_address);
    let p7 = p6 + opt_word(RandomizedBaseAddress::opt_text(t.randomized_base_address));
    let p8 = p7 + opt_word(DataExecutionPrevention::opt_text(t.data_execution_prevention));
    let p9 = p8 + opt_word(FixedBaseAddress::opt_text(t.fixed_base_address));
    let p10 = p9 + opt_word(SupportUnloadOfDelayLoadedDLL::opt_text(t.support_unload_of_delay_loaded_dll));
    let imp = quoted("/IMPLIB:"@, implib_spec(t, env));
    let p11 = p10 + seq![imp];
    let p12 = p11 + opt_word(TargetMachine::opt_text(t.target_machine));
    let p13 = p12 + cleaned_options(t.delay_load_dlls, None, "/delayload:"@, false);
    let p14 = p13 + opt_str_word(t.additional_options);
    let p15 = p14 + opt_str_word(t.additional_dependencies);
    assert(link_items_b(t, cfg, env) == p15);
    lemma_contains_last(p10, imp);
    lemma_contains_append(p11, opt_word(TargetMachine::opt_text(t.target_machine)), imp);
    lemma_contains_append(p12, cleaned_options(t.delay_load_dlls, None, "/delayload:"@, false), imp);
    lemma_contains_append(p13, opt_str_word(t.additional_options), imp);
    lemma_contains_append(p14, opt_str_word(t.additional_dependencies), imp);
    if cfg.whole_program_optimization == Some(true) {
        let x = "/LTCG"@;
        lemma_contains_last(p4, x);
        lemma_contains_append(p5, opt_quoted("/BASE:"@, t.base_address), x);
        lemma_contains_append(p6, opt_word(RandomizedBaseAddress::opt_text(t.randomized_base_address)), x);
        lemma_contains_append(p7, opt_word(DataExecutionPrevention::opt_text(t.data_execution_prevention)), x);
        lemma_contains_append(p8, opt_word(FixedBaseAddress::opt_text(t.fixed_base_address)), x);
        lemma_contains_append(
            p9,
            opt_word(SupportUnloadOfDelayLoadedDLL::opt_text(t.support_unload_of_delay_loaded_dll)),
            x,
        );
        lemma_contains_append(p10, seq![imp], x);
        lemma_contains_append(p11, opt_word(TargetMachine::opt_text(t.target_machine)), x);
        lemma_contains_append(p12, cleaned_options(t.delay_load_dlls, None, "/delayload:"@, false), x);
        lemma_contains_append(p13, opt_str_word(t.additional_options), x);
        lemma_contains_append(p14, opt_str_word(t.additional_dependencies), x);
    }
}

/// Law: the linker's response file begins with `/OUT:` and the output file,
/// names the program database and the import library, holds `/LTCG` under
/// whole program optimization and `/MANIFEST` unless manifests are turned
/// off.
pub proof fn lemma_link_rsp_shape(t: LinkerTool, cfg: Configuration, env: EnvView)
    ensures
        link_rsp_items(t, cfg, env)[0] == quoted("/OUT:"@, link_output_spec(t, cfg, env)),
        link_rsp_items(t, cfg, env).contains(
            quoted("/PDB:"@, clean_spec(env.expand_spec(pdb_file_spec(t, link_output_spec(t, cfg, env))))),
        ),
        link_rsp_items(t, cfg, env).contains(quoted("/IMPLIB:"@, implib_spec(t, env))),
        cfg.whole_program_optimization == Some(true) ==> link_rsp_items(t, cfg, env).contains("/LTCG"@),
        t.generate_manifest != Some(false) ==> link_rsp_items(t, cfg, env).contains("/MANIFEST"@),
{
    let a = link_items_a(t, cfg, env);
    let b = link_items_b(t, cfg, env);
    let all = link_rsp_items(t, cfg, env);
    lemma_items_a_shape(t, cfg, env);
    lemma_items_b_shape(t, cfg, env);
    assert(all == a + b);
    assert forall|x: Seq<char>| a.contains(x) implies all.contains(x) by {
        let i = choose|i: int| 0 <= i < a.len() && a[i] == x;
        assert(all[i] == x);
    }
    assert forall|x: Seq<char>| b.contains(x) implies all.contains(x) by {
        let i = choose|i: int| 0 <= i < b.len() && b[i] == x;
        assert(all[a.len() + i] == x);
    }
}

pub open spec fn implib_spec(t: LinkerTool, env: EnvView) -> Seq<char> {
    clean_spec(env.expand_spec(opt_view(t.import_library)->0))
}

/// What [`LinkerTool::to_flags`] needs: supported settings, an executable or
/// a DLL (when the output file is not given), an import library, an output
/// file with a name, and a `.pdb` name when none is given.
pub open spec fn link_ok(t: LinkerTool, cfg: Configuration, env: EnvView) -> bool {
    let out = link_output_spec(t, cfg, env);
    &&& linker_supported(t)
    &&& (t.output_file is None ==> cfg.configuration_type == ConfigurationType::_1
        || cfg.configuration_type == ConfigurationType::_2)
    &&& t.import_library is Some
    &&& (t.generate_manifest != Some(false) ==> file_name_spec(out) is Some)
    &&& (t.program_database_file is None ==> file_stem_spec(out) is Some && with_extension_spec(out, "pdb"@) is Some)
}

/// The stem of `p` with `.ext`, normalized (see [`with_extension_spec`]).
fn with_extension(p: &str, ext: &str) -> (r: Option<String>)
    requires
        file_stem_spec(p@) is Some,
    ensures
        opt_view(r) == with_extension_spec(p@, ext@),
{
    let stem = match file_stem(p) {
        Some(s) => s,
        None => String::new(),
    };
    let mut parts = path_parts(p);
    let ghost comps = seq_of_strings(parts.comps@);
    let mut name = stem;
    push_str(&mut name, ".");
    push_str(&mut name, ext);
    proof {
        reveal_strlit(".");
    }
    assert(name@ =~= file_stem_spec(p@)->0 + seq!['.'] + ext@);
    assert(comps.len() > 0);
    let ghost before = parts.comps@;
    parts.comps.pop();
    assert(seq_of_strings(parts.comps@) =~= comps.drop_last());
    let ghost name_v = name@;
    parts.comps.push(name);
    assert(seq_of_strings(parts.comps@) =~= comps.drop_last().push(name_v));
    assert(seq_of_strings(parts.comps@) =~= comps.drop_last().push(file_stem_spec(p@)->0 + seq!['.'] + ext@));
    let rendered = render_parts(&parts.prefix, parts.root, &parts.comps);
    normalize_lexically(rendered.as_str())
}

fn push_clean_options(items: &mut Vec<String>, prefix: &str, xs: &Option<Vec<String>>, env: Option<&MsBuildEnvironment>, quote: bool)
    ensures
        seq_of_strings(final(items)@) == seq_of_strings(old(items)@) + cleaned_options(*xs, env_view_opt(env), prefix@, quote),
{
    let ghost base = seq_of_strings(items@);
    let ghost ev = env_view_opt(env);
    let ghost g = |p: Seq<char>| clean_spec(
        match ev {
            Some(e) => e.expand_spec(p),
            None => p,
        },
    );
    let ghost h = |c: Seq<char>| if quote {
        quoted(prefix@, c)
    } else {
        prefix@ + c
    };
    let empty: Vec<String> = Vec::new();
    let v = match xs {
        Some(v) => v,
        None => &empty,
    };
    let ghost vs = seq_of_strings(v@).map_values(g);
    assert(vs =~= list_or_empty(opt_list_view(*xs)).map_values(g));
    let mut i: usize = 0;
    assert(nonempty(vs.take(0)) =~= Seq::<Seq<char>>::empty()) by {
        reveal(Seq::filter);
    }
    while i < v.len()
        invariant
            i <= v.len(),
            ev == env_view_opt(env),
            vs == seq_of_strings(v@).map_values(g),
            g == (|p: Seq<char>| clean_spec(
                match ev {
                    Some(e) => e.expand_spec(p),
                    None => p,
                },
            )),
            h == (|c: Seq<char>| if quote {
                quoted(prefix@, c)
            } else {
                prefix@ + c
            }),
            seq_of_strings(items@) == base + nonempty(vs.take(i as int)).map_values(h),
        decreases v.len() - i,
    {
        proof {
            lemma_nonempty_step(vs, i as int);
        }
        let c = match env {
            Some(e) => {
                let x = e.expand(v[i].as_str());
                clean(x.as_str())
            },
            None => clean(v[i].as_str()),
        };
        assert(c@ == vs[i as int]);
        if c.as_str().unicode_len() > 0 {
            let q = if quote {
                make_quoted(prefix, c.as_str())
            } else {
                let mut q = prefix.to_owned();
                push_str(&mut q, c.as_str());
                q
            };
            let ghost before = seq_of_strings(items@);
            items.push(q);
            assert(seq_of_strings(items@) =~= before.push(h(c@)));
            assert(nonempty(vs.take(i as int)).push(vs[i as int]).map_values(h) =~= nonempty(vs.take(i as int)).map_values(h).push(h(vs[i as int])));
        }
        i += 1;
    }
    assert(vs.take(v.len() as int) =~= vs);
}

fn push_opt_quoted(items: &mut Vec<String>, prefix: &str, o: &Option<String>)
    ensures
        seq_of_strings(final(items)@) == seq_of_strings(old(items)@) + opt_quoted(prefix@, *o),
{
    let ghost before = seq_of_strings(items@);
    match o {
        Some(x) => {
            let c = clean(x.as_str());
            items.push(make_quoted(prefix, c.as_str()));
        },
        None => {},
    }
    assert(seq_of_strings(items@) =~= before + opt_quoted(prefix@, *o));
}

fn push_opt_word(items: &mut Vec<String>, o: &Option<String>)
    ensures
        seq_of_strings(final(items)@) == seq_of_strings(old(items)@) + opt_str_word(*o),
{
    let ghost before = seq_of_strings(items@);
    match o {
        Some(x) => push_word(items, x.as_str()),
        None => {},
    }
    assert(seq_of_strings(items@) =~= before + opt_str_word(*o));
}

fn push_one(items: &mut Vec<String>, x: String)
    ensures
        seq_of_strings(final(items)@) == seq_of_strings(old(items)@) + seq![x@],
{
    let ghost before = seq_of_strings(items@);
    items.push(x);
    assert(seq_of_strings(items@) =~= before + seq![x@]);
}

impl LinkerTool {
    fn output_file_of(&self, cfg: &Configuration, env: &MsBuildEnvironment) -> (r: String)
        requires
            self.output_file is None ==> cfg.configuration_type == ConfigurationType::_1
                || cfg.configuration_type == ConfigurationType::_2,
        ensures
            r@ == link_output_spec(*self, *cfg, env@),
    {
        proof {
            reveal_strlit("$(OutDir)\\$(ProjectName).exe");
            reveal_strlit("$(OutDir)\\$(ProjectName).dll");
        }
        let pattern: &str = match &self.output_file {
            Some(o) => o.as_str(),
            None => if cfg.configuration_type == ConfigurationType::_1 {
                "$(OutDir)\\$(ProjectName).exe"
            } else {
                "$(OutDir)\\$(ProjectName).dll"
            },
        };
        let e = env.expand(pattern);
        clean(e.as_str())
    }

    fn items_a(&self, out: &String, cfg: &Configuration, env: &MsBuildEnvironment) -> (r: Vec<String>)
        requires
            link_ok(*self, *cfg, env@),
            out@ == link_output_spec(*self, *cfg, env@),
        ensures
            seq_of_strings(r@) == link_items_a(*self, *cfg, env@),
    {
        let mut items: Vec<String> = Vec::new();
        push_one(&mut items, make_quoted("/OUT:", out.as_str()));
        push_word(&mut items, LinkIncremental::opt_as_str(&self.link_incremental));
        push_clean_options(&mut items, "/LIBPATH:", &self.additional_library_directories, Some(env), true);
        let ghost s3 = seq_of_strings(items@);
        if cfg.configuration_type == ConfigurationType::_2 {
            items.push("/DLL".to_owned());
        }
        assert(seq_of_strings(items@) =~= s3 + if cfg.configuration_type == ConfigurationType::_2 {
            seq!["/DLL"@]
        } else {
            Seq::<Seq<char>>::empty()
        });
        let ghost s4 = seq_of_strings(items@);
        if self.generate_manifest != Some(false) {
            items.push("/MANIFEST".to_owned());
            let name = match file_name(out.as_str()) {
                Some(n) => n,
                None => String::new(),
            };
            let mut m = "$(IntDir)\\".to_owned();
            push_str(&mut m, name.as_str());
            push_str(&mut m, ".intermediate.manifest");
            let x = env.expand(m.as_str());
            let c = clean(x.as_str());
            items.push(make_quoted("/MANIFESTFILE:", c.as_str()));
            items.push("/MANIFESTUAC:\"level='asInvoker' uiAccess='false'\"".to_owned());
            proof {
                reveal_strlit("$(IntDir)\\");
                reveal_strlit(".intermediate.manifest");
            }
            assert(m@ =~= "$(IntDir)\\"@ + file_name_spec(out@)->0 + ".intermediate.manifest"@);
        }
        assert(seq_of_strings(items@) =~= s4 + manifest_options(*self, out@, env@));
        push_clean_options(&mut items, "/NODEFAULTLIB:", &self.ignore_default_library_names, None, true);
        push_opt_quoted(&mut items, "/DEF:", &self.module_definition_file);
        push_word(&mut items, GenerateDebugInformation::opt_as_str(&self.generate_debug_information));
        let pdb: String = match &self.program_database_file {
            Some(p) => p.clone(),
            None => match with_extension(out.as_str(), "pdb") {
                Some(p) => p,
                None => String::new(),
            },
        };
        proof {
            reveal_strlit("pdb");
        }
        assert(pdb@ == pdb_file_spec(*self, out@));
        let x = env.expand(pdb.as_str());
        let c = clean(x.as_str());
        push_one(&mut items, make_quoted("/PDB:", c.as_str()));
        assert(seq_of_strings(items@) =~= link_items_a(*self, *cfg, env@));
        items
    }

    fn items_b(&self, cfg: &Configuration, env: &MsBuildEnvironment) -> (r: Vec<String>)
        requires
            link_ok(*self, *cfg, env@),
        ensures
            seq_of_strings(r@) == link_items_b(*self, *cfg, env@),
    {
        let mut items: Vec<String> = Vec::new();
        assert(seq_of_strings(items@) =~= Seq::<Seq<char>>::empty());
        push_word(&mut items, SubSystem::opt_as_str(&self.sub_system));
        push_word(&mut items, LargeAddressAware::opt_as_str(&self.large_address_aware));
        push_word(&mut items, OptimizeReferences::opt_as_str(&self.optimize_references));
        push_word(&mut items, EnableCOMDATFolding::opt_as_str(&self.enable_comdat_folding));
        let ghost s1 = seq_of_strings(items@);
        if cfg.whole_program_optimization == Some(true) {
            items.push("/LTCG".to_owned());
        }
        assert(seq_of_strings(items@) =~= s1 + if cfg.whole_program_optimization == Some(true) {
            seq!["/LTCG"@]
        } else {
            Seq::<Seq<char>>::empty()
        });
        push_opt_quoted(&mut items, "/BASE:", &self.base_address);
        push_word(&mut items, RandomizedBaseAddress::opt_as_str(&self.randomized_base_address));
        push_word(&mut items, DataExecutionPrevention::opt_as_str(&self.data_execution_prevention));
        push_word(&mut items, FixedBaseAddress::opt_as_str(&self.fixed_base_address));
        push_word(&mut items, SupportUnloadOfDelayLoadedDLL::opt_as_str(&self.support_unload_of_delay_loaded_dll));
        let implib = match &self.import_library {
            Some(i) => {
                let x = env.expand(i.as_str());
                clean(x.as_str())
            },
            None => String::new(),
        };
        push_one(&mut items, make_quoted("/IMPLIB:", implib.as_str()));
        push_word(&mut items, TargetMachine::opt_as_str(&self.target_machine));
        push_clean_options(&mut items, "/delayload:", &self.delay_load_dlls, None, false);
        push_opt_word(&mut items, &self.additional_options);
        push_opt_word(&mut items, &self.additional_dependencies);
        assert(seq_of_strings(items@) =~= link_items_b(*self, *cfg, env@));
        items
    }

    /// The link step of an executable or a DLL: its output file, its import
    /// library (for a DLL), `@rsp /NOLOGO /ERRORREPORT:PROMPT`, the response
    /// file options (see [`link_rsp_items`]) and the object files.
    pub fn to_flags(&self, vcproj_rpath: &str, cfg: &Configuration, vcproject: &VCProject, env: &MsBuildEnvironment) -> (r: Flags)
        requires
            link_ok(*self, *cfg, env@),
            file_flags_ok(vcproject.files, cfg.name@, vcproj_rpath@, env@),
        ensures
            r@ == (SpecFlags {
                output_file: link_output_spec(*self, *cfg, env@),
                import_library: if cfg.configuration_type == ConfigurationType::_2 {
                    Some(implib_spec(*self, env@))
                } else {
                    None
                },
                flags: "@$(RspFile) /NOLOGO /ERRORREPORT:PROMPT"@,
                rsp_flags: join(link_rsp_items(*self, *cfg, env@), seq![' ']),
                files: file_flags_spec(vcproject.files, cfg.name@, vcproj_rpath@, env@),
            }),
    {
        let out = self.output_file_of(cfg, env);
        let mut items = self.items_a(&out, cfg, env);
        let b = self.items_b(cfg, env);
        let ghost a_v = seq_of_strings(items@);
        let mut i: usize = 0;
        while i < b.len()
            invariant
                i <= b.len(),
                seq_of_strings(items@) == a_v + seq_of_strings(b@).take(i as int),
            decreases b.len() - i,
        {
            let ghost before = seq_of_strings(items@);
            items.push(b[i].clone());
            assert(seq_of_strings(items@) =~= before.push(b@[i as int]@));
            assert(seq_of_strings(b@).take(i + 1) =~= seq_of_strings(b@).take(i as int).push(b@[i as int]@));
            i += 1;
        }
        assert(seq_of_strings(b@).take(b.len() as int) =~= seq_of_strings(b@));
        let import_library = if cfg.configuration_type == ConfigurationType::_2 {
            match &self.import_library {
                Some(x) => {
                    let e = env.expand(x.as_str());
                    Some(clean(e.as_str()))
                },
                None => None,
            }
        } else {
            None
        };
        let files = LibTool::file_flags(&vcproject.files, cfg.name.as_str(), vcproj_rpath, env);
        let rsp_flags = join_strings(&items, " ");
        proof {
            reveal_strlit(" ");
        }
        assert(" "@ =~= seq![' ']);
        Flags {
            output_file: out,
            import_library,
            flags: "@$(RspFile) /NOLOGO /ERRORREPORT:PROMPT".to_owned(),
            rsp_flags,
            files,
        }
    }

    /// The librarian step of a configuration that builds a static library
    /// with the linker: `/LIB @rsp /NOLOGO`, `/OUT` in the response file, and
    /// the object files.
    pub fn to_flags_for_lib(vcproj_rpath: &str, cfg: &Configuration, vcproject: &VCProject, env: &MsBuildEnvironment) -> (r: Flags)
        requires
            cfg.configuration_type == ConfigurationType::_1 || cfg.configuration_type == ConfigurationType::_2,
            file_flags_ok(vcproject.files, cfg.name@, vcproj_rpath@, env@),
        ensures
            r@ == (SpecFlags {
                output_file: clean_spec(env@.expand_spec(default_link_output(cfg.configuration_type))),
                import_library: None,
                flags: "/LIB @$(RspFile) /NOLOGO"@,
                rsp_flags: quoted("/OUT:"@, clean_spec(env@.expand_spec(default_link_output(cfg.configuration_type)))),
                files: file_flags_spec(vcproject.files, cfg.name@, vcproj_rpath@, env@),
            }),
    {
        proof {
            reveal_strlit("$(OutDir)\\$(ProjectName).exe");
            reveal_strlit("$(OutDir)\\$(ProjectName).dll");
        }
        let pattern: &str = if cfg.configuration_type == ConfigurationType::_1 {
            "$(OutDir)\\$(ProjectName).exe"
        } else {
            "$(OutDir)\\$(ProjectName).dll"
        };
        let e = env.expand(pattern);
        let output_file = clean(e.as_str());
        let files = LibTool::file_flags(&vcproject.files, cfg.name.as_str(), vcproj_rpath, env);
        let rsp_flags = make_quoted("/OUT:", output_file.as_str());
        Flags {
            output_file,
            import_library: None,
            flags: "/LIB @$(RspFile) /NOLOGO".to_owned(),
            rsp_flags,
            files,
        }
    }
}

impl LinkerTool {
    /// Whether the linker settings are understood and name their outputs
    /// (see [`link_ok`]): what [`LinkerTool::to_flags`] needs besides the
    /// object files.
    pub fn link_ok_check(&self, cfg: &Configuration, env: &MsBuildEnvironment) -> (r: bool)
        ensures
            r == link_ok(*self, *cfg, env@),
    {
        let empty_or_none = |o: &Option<String>| -> (b: bool)
            ensures
                b == (opt_view(*o) matches Some(m) ==> m.len() == 0),
            {
                match o {
                    Some(m) => m.unicode_len() == 0,
                    None => true,
                }
            };
        let supported = self.clr_thread_attribute.is_none() && self.assembly_debug.is_none()
            && self.assembly_link_resource.is_none() && self.embed_managed_resource_file.is_none()
            && self.ignore_import_library.is_none() && self.optimize_for_windows98.is_none()
            && empty_or_none(&self.map_file_name) && empty_or_none(&self.entry_point_symbol)
            && self.map_exports != Some(true) && self.generate_map_file != Some(true);
        if !supported {
            return false;
        }
        if self.output_file.is_none() && !(cfg.configuration_type == ConfigurationType::_1
            || cfg.configuration_type == ConfigurationType::_2) {
            return false;
        }
        if self.import_library.is_none() {
            return false;
        }
        let out = self.output_file_of(cfg, env);
        if self.generate_manifest != Some(false) && file_name(out.as_str()).is_none() {
            return false;
        }
        if self.program_database_file.is_none() {
            if file_stem(out.as_str()).is_none() {
                return false;
            }
            if with_extension(out.as_str(), "pdb").is_none() {
                return false;
            }
        }
        true
    }
}

} // verus!
