//! Reading a project file: its XML elements to the project model.
//!
//! The attribute tables of the elements mirror the model's fields: each
//! element accepts exactly its own attributes (and a few that are passed
//! over), requires some, and reads each value as its kind.
use vstd::prelude::*;
use crate::sln_text::{guid_value, parse_guid};
use crate::text::{clone_opt_string, opt_list_view, opt_view, seq_of_strings, strs_view};
use crate::tool_cl::{
    CompilerTool, CompilerToolView, Optimization, InlineFunctionExpansion, EnableIntrinsicFunctions, OmitFramePointers, EnableFiberSafeOptimizations, FavorSizeOrSpeed, WholeProgramOptimization, StringPooling, ExceptionHandling, RuntimeLibrary, BufferSecurityCheck, EnableEnhancedInstructionSet, FloatingPointModel, WarningLevel, DebugInformationFormat, UsePrecompiledHeader, CompileAs, RuntimeTypeInfo, MinimalRebuild, EnableFunctionLevelLinking, SmallerTypeCheck, FloatingPointExceptions, ForceConformanceInForLoopScope, ShowIncludes, SuppressStartupBanner, BasicRuntimeChecks, BrowseInformation, CallingConvention, GeneratePreprocessedFile, StructMemberAlignment, Detect64BitPortabilityProblems,
};
use crate::tool_lib::LibTool;
use crate::tool_linker::{
    LinkerTool, LinkIncremental, GenerateDebugInformation, SubSystem, LargeAddressAware, OptimizeReferences, EnableCOMDATFolding, RandomizedBaseAddress, DataExecutionPrevention, TargetMachine, AssemblyDebug, CLRThreadAttribute, FixedBaseAddress, OptimizeForWindows98, SupportUnloadOfDelayLoadedDLL,
};
use crate::values::{
    VcprojError, XmlErr, bool_value, err_view, list_value, parse_bool, parse_list, parse_u8, u8_value,
};
use crate::vcproj::{
    CharacterSet, Configuration, ConfigurationType, File, FileConfiguration, Files, Filter,
    ManagedExtensions, Platform, UseOfATL, UseOfMFC, VCProject,
};
use crate::text::str_eq;
use crate::xml::{
    XmlNode, XmlNodeView, attr_named, attr_values, attribute, child_elements, children,
    lemma_attr_values_len, nodes_view, opt_views, read_attrs, read_nodes, xml_nodes,
};

verus! {

/// An optional value read by `f`: absent stays absent.
pub open spec fn opt_conv<T>(v: Option<Seq<char>>, f: spec_fn(Seq<char>) -> Option<T>) -> Option<T> {
    match v {
        Some(s) => f(s),
        None => None,
    }
}

/// An optional value that is absent or reads by `f`.
pub open spec fn opt_conv_ok<T>(v: Option<Seq<char>>, f: spec_fn(Seq<char>) -> Option<T>) -> bool {
    match v {
        Some(s) => f(s) is Some,
        None => true,
    }
}

/// An optional list value.
pub open spec fn opt_list(v: Option<Seq<char>>) -> Option<Seq<Seq<char>>> {
    match v {
        Some(s) => Some(list_value(s)),
        None => None,
    }
}

/// Reads an optional attribute value with `f`, whose results `g` names and
/// whose refusals `ge` names.
fn opt_value<T, F: Fn(&str) -> Result<T, VcprojError>>(
    v: &Option<String>,
    f: F,
    Ghost(g): Ghost<spec_fn(Seq<char>) -> Option<T>>,
    Ghost(ge): Ghost<spec_fn(Seq<char>) -> XmlErr>,
) -> (r: Result<Option<T>, VcprojError>)
    requires
        forall|s: &str| #[trigger] f.requires((s,)),
        forall|s: &str, o: Result<T, VcprojError>|
            #[trigger] f.ensures((s,), o) ==> match o {
                Ok(x) => g(s@) == Some(x),
                Err(e) => g(s@) is None && err_view(e) == ge(s@),
            },
    ensures
        match r {
            Ok(x) => opt_conv_ok(opt_view(*v), g) && x == opt_conv(opt_view(*v), g),
            Err(e) => !opt_conv_ok(opt_view(*v), g) && v.is_some() && err_view(e) == ge(opt_view(*v)->0),
        },
{
    match v {
        Some(s) => match f(s.as_str()) {
            Ok(x) => Ok(Some(x)),
            Err(e) => Err(e),
        },
        None => Ok(None),
    }
}

/// Reads an optional list attribute value.
fn opt_list_value(v: &Option<String>) -> (r: Option<Vec<String>>)
    ensures
        opt_list_view(r) == opt_list(opt_view(*v)),
{
    match v {
        Some(s) => Some(parse_list(s.as_str())),
        None => None,
    }
}

/// Mathematical view of [`Files`].
pub struct FilesView {
    pub filters: Seq<FilterView>,
    pub files: Seq<FileView>,
}

impl View for Files {
    type V = FilesView;

    open spec fn view(&self) -> FilesView {
        FilesView {
            filters: filters_view(self.filters@),
            files: files_view(self.files@),
        }
    }
}

pub open spec fn filter_view(f: Filter) -> FilterView
    decreases f,
{
    FilterView {
        name: f.name@,
        filter: opt_list_view(f.filter),
        unique_identifier: opt_view(f.unique_identifier),
        filters: filters_view(f.filters@),
        files: files_view(f.files@),
    }
}

pub open spec fn filters_view(fs: Seq<Filter>) -> Seq<FilterView>
    decreases fs,
{
    if fs.len() == 0 {
        Seq::empty()
    } else {
        filters_view(fs.drop_last()).push(filter_view(fs.last()))
    }
}

pub open spec fn file_view(f: File) -> FileView
    decreases f,
{
    FileView {
        relative_path: f.relative_path@,
        file_type: f.file_type,
        sub_type: opt_view(f.sub_type),
        file_configurations: f.file_configurations@.map_values(|x: FileConfiguration| x@),
        files: files_view(f.files@),
    }
}

pub open spec fn files_view(fs: Seq<File>) -> Seq<FileView>
    decreases fs,
{
    if fs.len() == 0 {
        Seq::empty()
    } else {
        files_view(fs.drop_last()).push(file_view(fs.last()))
    }
}

impl View for Filter {
    type V = FilterView;

    open spec fn view(&self) -> FilterView {
        filter_view(*self)
    }
}

impl View for File {
    type V = FileView;

    open spec fn view(&self) -> FileView {
        file_view(*self)
    }
}

/// The attributes of `VCCLCompilerTool`, in field order.
pub open spec fn cl_names() -> Seq<Seq<char>> {
    seq!["AdditionalOptions"@, "Optimization"@, "InlineFunctionExpansion"@, "EnableIntrinsicFunctions"@, "OmitFramePointers"@, "EnableFiberSafeOptimizations"@, "FavorSizeOrSpeed"@, "WholeProgramOptimization"@, "StringPooling"@, "ExceptionHandling"@, "RuntimeLibrary"@, "BufferSecurityCheck"@, "EnableEnhancedInstructionSet"@, "FloatingPointModel"@, "WarningLevel"@, "DebugInformationFormat"@, "UsePrecompiledHeader"@, "CompileAs"@, "RuntimeTypeInfo"@, "MinimalRebuild"@, "BasicRuntimeChecks"@, "EnableFunctionLevelLinking"@, "SmallerTypeCheck"@, "BrowseInformation"@, "CallingConvention"@, "FloatingPointExceptions"@, "ForceConformanceInForLoopScope"@, "GeneratePreprocessedFile"@, "ShowIncludes"@, "StructMemberAlignment"@, "SuppressStartupBanner"@, "Detect64BitPortabilityProblems"@, "PrecompiledHeaderThrough"@, "ObjectFile"@, "PrecompiledHeaderFile"@, "ProgramDataBaseFileName"@, "DisableSpecificWarnings"@, "AdditionalIncludeDirectories"@, "PreprocessorDefinitions"@]
}

/// The attributes of `VCCLCompilerTool` that are passed over.
pub open spec fn cl_ignores() -> Seq<Seq<char>> {
    seq!["Name"@, "ExecutionBucket"@, "UseUnicodeResponseFiles"@, "XMLDocumentationFileName"@, "AssemblerListingLocation"@]
}

/// What the attributes of a `VCCLCompilerTool` element read as: the first attribute
/// that is not one of its own refuses it, then the first missing required
/// attribute, then any value that does not read as its kind.
pub open spec fn cl_attrs_spec(attrs: Seq<(Seq<char>, Seq<char>)>) -> Result<CompilerToolView, XmlErr> {
    match attr_values(attrs, cl_names(), cl_ignores()) {
        Err((n, v)) => Err(XmlErr::UnexpectedAttribute("VCCLCompilerTool"@, n, v)),
        Ok(vals) => {
            if !cl_values_ok(vals) {
                Err(cl_values_err(vals))
            } else {
                Ok(cl_view_of(vals))
            }
        },
    }
}

/// The `VCCLCompilerTool` that the attribute values make.
pub open spec fn cl_view_of(vals: Seq<Option<Seq<char>>>) -> CompilerToolView {
    CompilerToolView {
        additional_options: vals[0],
        optimization: opt_conv(vals[1], |s: Seq<char>| Optimization::parse_spec(s)),
        inline_function_expansion: opt_conv(vals[2], |s: Seq<char>| InlineFunctionExpansion::parse_spec(s)),
        enable_intrinsic_functions: opt_conv(vals[3], |s: Seq<char>| EnableIntrinsicFunctions::parse_spec(s)),
        omit_frame_pointers: opt_conv(vals[4], |s: Seq<char>| OmitFramePointers::parse_spec(s)),
        enable_fiber_safe_optimizations: opt_conv(vals[5], |s: Seq<char>| EnableFiberSafeOptimizations::parse_spec(s)),
        favor_size_or_speed: opt_conv(vals[6], |s: Seq<char>| FavorSizeOrSpeed::parse_spec(s)),
        whole_program_optimization: opt_conv(vals[7], |s: Seq<char>| WholeProgramOptimization::parse_spec(s)),
        string_pooling: opt_conv(vals[8], |s: Seq<char>| StringPooling::parse_spec(s)),
        exception_handling: opt_conv(vals[9], |s: Seq<char>| ExceptionHandling::parse_spec(s)),
        runtime_library: opt_conv(vals[10], |s: Seq<char>| RuntimeLibrary::parse_spec(s)),
        buffer_security_check: opt_conv(vals[11], |s: Seq<char>| BufferSecurityCheck::parse_spec(s)),
        enable_enhanced_instruction_set: opt_conv(vals[12], |s: Seq<char>| EnableEnhancedInstructionSet::parse_spec(s)),
        floating_point_model: opt_conv(vals[13], |s: Seq<char>| FloatingPointModel::parse_spec(s)),
        warning_level: opt_conv(vals[14], |s: Seq<char>| WarningLevel::parse_spec(s)),
        debug_information_format: opt_conv(vals[15], |s: Seq<char>| DebugInformationFormat::parse_spec(s)),
        use_precompiled_header: opt_conv(vals[16], |s: Seq<char>| UsePrecompiledHeader::parse_spec(s)),
        compile_as: opt_conv(vals[17], |s: Seq<char>| CompileAs::parse_spec(s)),
        runtime_type_info: opt_conv(vals[18], |s: Seq<char>| RuntimeTypeInfo::parse_spec(s)),
        minimal_rebuild: opt_conv(vals[19], |s: Seq<char>| MinimalRebuild::parse_spec(s)),
        basic_runtime_checks: opt_conv(vals[20], |s: Seq<char>| BasicRuntimeChecks::parse_spec(s)),
        enable_function_level_linking: opt_conv(vals[21], |s: Seq<char>| EnableFunctionLevelLinking::parse_spec(s)),
        smaller_type_check: opt_conv(vals[22], |s: Seq<char>| SmallerTypeCheck::parse_spec(s)),
        browse_information: opt_conv(vals[23], |s: Seq<char>| BrowseInformation::parse_spec(s)),
        calling_convention: opt_conv(vals[24], |s: Seq<char>| CallingConvention::parse_spec(s)),
        floating_point_exceptions: opt_conv(vals[25], |s: Seq<char>| FloatingPointExceptions::parse_spec(s)),
        force_conformance_in_for_loop_scope: opt_conv(vals[26], |s: Seq<char>| ForceConformanceInForLoopScope::parse_spec(s)),
        generate_preprocessed_file: opt_conv(vals[27], |s: Seq<char>| GeneratePreprocessedFile::parse_spec(s)),
        show_includes: opt_conv(vals[28], |s: Seq<char>| ShowIncludes::parse_spec(s)),
        struct_member_alignment: opt_conv(vals[29], |s: Seq<char>| StructMemberAlignment::parse_spec(s)),
        suppress_startup_banner: opt_conv(vals[30], |s: Seq<char>| SuppressStartupBanner::parse_spec(s)),
        detect_64_bit_portability_problems: opt_conv(vals[31], |s: Seq<char>| Detect64BitPortabilityProblems::parse_spec(s)),
        precompiled_header_through: vals[32],
        object_file: vals[33],
        precompiled_header_file: vals[34],
        program_data_base_file_name: vals[35],
        disable_specific_warnings: opt_list(vals[36]),
        additional_include_directories: opt_list(vals[37]),
        preprocessor_definitions: opt_list(vals[38]),
    }
}

/// Every present value of a `VCCLCompilerTool` reads as its kind.
pub open spec fn cl_values_ok(vals: Seq<Option<Seq<char>>>) -> bool {
    &&& opt_conv_ok(vals[1], |s: Seq<char>| Optimization::parse_spec(s))
    &&& opt_conv_ok(vals[2], |s: Seq<char>| InlineFunctionExpansion::parse_spec(s))
    &&& opt_conv_ok(vals[3], |s: Seq<char>| EnableIntrinsicFunctions::parse_spec(s))
    &&& opt_conv_ok(vals[4], |s: Seq<char>| OmitFramePointers::parse_spec(s))
    &&& opt_conv_ok(vals[5], |s: Seq<char>| EnableFiberSafeOptimizations::parse_spec(s))
    &&& opt_conv_ok(vals[6], |s: Seq<char>| FavorSizeOrSpeed::parse_spec(s))
    &&& opt_conv_ok(vals[7], |s: Seq<char>| WholeProgramOptimization::parse_spec(s))
    &&& opt_conv_ok(vals[8], |s: Seq<char>| StringPooling::parse_spec(s))
    &&& opt_conv_ok(vals[9], |s: Seq<char>| ExceptionHandling::parse_spec(s))
    &&& opt_conv_ok(vals[10], |s: Seq<char>| RuntimeLibrary::parse_spec(s))
    &&& opt_conv_ok(vals[11], |s: Seq<char>| BufferSecurityCheck::parse_spec(s))
    &&& opt_conv_ok(vals[12], |s: Seq<char>| EnableEnhancedInstructionSet::parse_spec(s))
    &&& opt_conv_ok(vals[13], |s: Seq<char>| FloatingPointModel::parse_spec(s))
    &&& opt_conv_ok(vals[14], |s: Seq<char>| WarningLevel::parse_spec(s))
    &&& opt_conv_ok(vals[15], |s: Seq<char>| DebugInformationFormat::parse_spec(s))
    &&& opt_conv_ok(vals[16], |s: Seq<char>| UsePrecompiledHeader::parse_spec(s))
    &&& opt_conv_ok(vals[17], |s: Seq<char>| CompileAs::parse_spec(s))
    &&& opt_conv_ok(vals[18], |s: Seq<char>| RuntimeTypeInfo::parse_spec(s))
    &&& opt_conv_ok(vals[19], |s: Seq<char>| MinimalRebuild::parse_spec(s))
    &&& opt_conv_ok(vals[20], |s: Seq<char>| BasicRuntimeChecks::parse_spec(s))
    &&& opt_conv_ok(vals[21], |s: Seq<char>| EnableFunctionLevelLinking::parse_spec(s))
    &&& opt_conv_ok(vals[22], |s: Seq<char>| SmallerTypeCheck::parse_spec(s))
    &&& opt_conv_ok(vals[23], |s: Seq<char>| BrowseInformation::parse_spec(s))
    &&& opt_conv_ok(vals[24], |s: Seq<char>| CallingConvention::parse_spec(s))
    &&& opt_conv_ok(vals[25], |s: Seq<char>| FloatingPointExceptions::parse_spec(s))
    &&& opt_conv_ok(vals[26], |s: Seq<char>| ForceConformanceInForLoopScope::parse_spec(s))
    &&& opt_conv_ok(vals[27], |s: Seq<char>| GeneratePreprocessedFile::parse_spec(s))
    &&& opt_conv_ok(vals[28], |s: Seq<char>| ShowIncludes::parse_spec(s))
    &&& opt_conv_ok(vals[29], |s: Seq<char>| StructMemberAlignment::parse_spec(s))
    &&& opt_conv_ok(vals[30], |s: Seq<char>| SuppressStartupBanner::parse_spec(s))
    &&& opt_conv_ok(vals[31], |s: Seq<char>| Detect64BitPortabilityProblems::parse_spec(s))
}

/// The refusal of the first value of a `VCCLCompilerTool`, in field order, that does
/// not read as its kind (when one does not).
pub open spec fn cl_values_err(vals: Seq<Option<Seq<char>>>) -> XmlErr {
    if !(opt_conv_ok(vals[1], |s: Seq<char>| Optimization::parse_spec(s))) {
        Optimization::parse_err(vals[1]->0)
    } else if !(opt_conv_ok(vals[2], |s: Seq<char>| InlineFunctionExpansion::parse_spec(s))) {
        InlineFunctionExpansion::parse_err(vals[2]->0)
    } else if !(opt_conv_ok(vals[3], |s: Seq<char>| EnableIntrinsicFunctions::parse_spec(s))) {
        EnableIntrinsicFunctions::parse_err(vals[3]->0)
    } else if !(opt_conv_ok(vals[4], |s: Seq<char>| OmitFramePointers::parse_spec(s))) {
        OmitFramePointers::parse_err(vals[4]->0)
    } else if !(opt_conv_ok(vals[5], |s: Seq<char>| EnableFiberSafeOptimizations::parse_spec(s))) {
        EnableFiberSafeOptimizations::parse_err(vals[5]->0)
    } else if !(opt_conv_ok(vals[6], |s: Seq<char>| FavorSizeOrSpeed::parse_spec(s))) {
        FavorSizeOrSpeed::parse_err(vals[6]->0)
    } else if !(opt_conv_ok(vals[7], |s: Seq<char>| WholeProgramOptimization::parse_spec(s))) {
        WholeProgramOptimization::parse_err(vals[7]->0)
    } else if !(opt_conv_ok(vals[8], |s: Seq<char>| StringPooling::parse_spec(s))) {
        StringPooling::parse_err(vals[8]->0)
    } else if !(opt_conv_ok(vals[9], |s: Seq<char>| ExceptionHandling::parse_spec(s))) {
        ExceptionHandling::parse_err(vals[9]->0)
    } else if !(opt_conv_ok(vals[10], |s: Seq<char>| RuntimeLibrary::parse_spec(s))) {
        RuntimeLibrary::parse_err(vals[10]->0)
    } else if !(opt_conv_ok(vals[11], |s: Seq<char>| BufferSecurityCheck::parse_spec(s))) {
        BufferSecurityCheck::parse_err(vals[11]->0)
    } else if !(opt_conv_ok(vals[12], |s: Seq<char>| EnableEnhancedInstructionSet::parse_spec(s))) {
        EnableEnhancedInstructionSet::parse_err(vals[12]->0)
    } else if !(opt_conv_ok(vals[13], |s: Seq<char>| FloatingPointModel::parse_spec(s))) {
        FloatingPointModel::parse_err(vals[13]->0)
    } else if !(opt_conv_ok(vals[14], |s: Seq<char>| WarningLevel::parse_spec(s))) {
        WarningLevel::parse_err(vals[14]->0)
    } else if !(opt_conv_ok(vals[15], |s: Seq<char>| DebugInformationFormat::parse_spec(s))) {
        DebugInformationFormat::parse_err(vals[15]->0)
    } else if !(opt_conv_ok(vals[16], |s: Seq<char>| UsePrecompiledHeader::parse_spec(s))) {
        UsePrecompiledHeader::parse_err(vals[16]->0)
    } else if !(opt_conv_ok(vals[17], |s: Seq<char>| CompileAs::parse_spec(s))) {
        CompileAs::parse_err(vals[17]->0)
    } else if !(opt_conv_ok(vals[18], |s: Seq<char>| RuntimeTypeInfo::parse_spec(s))) {
        RuntimeTypeInfo::parse_err(vals[18]->0)
    } else if !(opt_conv_ok(vals[19], |s: Seq<char>| MinimalRebuild::parse_spec(s))) {
        MinimalRebuild::parse_err(vals[19]->0)
    } else if !(opt_conv_ok(vals[20], |s: Seq<char>| BasicRuntimeChecks::parse_spec(s))) {
        BasicRuntimeChecks::parse_err(vals[20]->0)
    } else if !(opt_conv_ok(vals[21], |s: Seq<char>| EnableFunctionLevelLinking::parse_spec(s))) {
        EnableFunctionLevelLinking::parse_err(vals[21]->0)
    } else if !(opt_conv_ok(vals[22], |s: Seq<char>| SmallerTypeCheck::parse_spec(s))) {
        SmallerTypeCheck::parse_err(vals[22]->0)
    } else if !(opt_conv_ok(vals[23], |s: Seq<char>| BrowseInformation::parse_spec(s))) {
        BrowseInformation::parse_err(vals[23]->0)
    } else if !(opt_conv_ok(vals[24], |s: Seq<char>| CallingConvention::parse_spec(s))) {
        CallingConvention::parse_err(vals[24]->0)
    } else if !(opt_conv_ok(vals[25], |s: Seq<char>| FloatingPointExceptions::parse_spec(s))) {
        FloatingPointExceptions::parse_err(vals[25]->0)
    } else if !(opt_conv_ok(vals[26], |s: Seq<char>| ForceConformanceInForLoopScope::parse_spec(s))) {
        ForceConformanceInForLoopScope::parse_err(vals[26]->0)
    } else if !(opt_conv_ok(vals[27], |s: Seq<char>| GeneratePreprocessedFile::parse_spec(s))) {
        GeneratePreprocessedFile::parse_err(vals[27]->0)
    } else if !(opt_conv_ok(vals[28], |s: Seq<char>| ShowIncludes::parse_spec(s))) {
        ShowIncludes::parse_err(vals[28]->0)
    } else if !(opt_conv_ok(vals[29], |s: Seq<char>| StructMemberAlignment::parse_spec(s))) {
        StructMemberAlignment::parse_err(vals[29]->0)
    } else if !(opt_conv_ok(vals[30], |s: Seq<char>| SuppressStartupBanner::parse_spec(s))) {
        SuppressStartupBanner::parse_err(vals[30]->0)
    } else if !(opt_conv_ok(vals[31], |s: Seq<char>| Detect64BitPortabilityProblems::parse_spec(s))) {
        Detect64BitPortabilityProblems::parse_err(vals[31]->0)
    } else {
        XmlErr::Malformed
    }
}

impl CompilerTool {
    /// Reads the attributes of a `VCCLCompilerTool` element (see [`cl_attrs_spec`]).
    pub fn parse_xml(node: &XmlNode) -> (r: Result<CompilerTool, VcprojError>)
        ensures
            match r {
                Ok(x) => cl_attrs_spec(node@.attributes) matches Ok(y) && y == x@,
                Err(e) => cl_attrs_spec(node@.attributes) matches Err(y) && y == err_view(e),
            },
    {
        let names = vec!["AdditionalOptions", "Optimization", "InlineFunctionExpansion", "EnableIntrinsicFunctions", "OmitFramePointers", "EnableFiberSafeOptimizations", "FavorSizeOrSpeed", "WholeProgramOptimization", "StringPooling", "ExceptionHandling", "RuntimeLibrary", "BufferSecurityCheck", "EnableEnhancedInstructionSet", "FloatingPointModel", "WarningLevel", "DebugInformationFormat", "UsePrecompiledHeader", "CompileAs", "RuntimeTypeInfo", "MinimalRebuild", "BasicRuntimeChecks", "EnableFunctionLevelLinking", "SmallerTypeCheck", "BrowseInformation", "CallingConvention", "FloatingPointExceptions", "ForceConformanceInForLoopScope", "GeneratePreprocessedFile", "ShowIncludes", "StructMemberAlignment", "SuppressStartupBanner", "Detect64BitPortabilityProblems", "PrecompiledHeaderThrough", "ObjectFile", "PrecompiledHeaderFile", "ProgramDataBaseFileName", "DisableSpecificWarnings", "AdditionalIncludeDirectories", "PreprocessorDefinitions"];
        let ignores: Vec<&str> = vec!["Name", "ExecutionBucket", "UseUnicodeResponseFiles", "XMLDocumentationFileName", "AssemblerListingLocation"];
        assert(strs_view(names@) =~= cl_names());
        assert(strs_view(ignores@) =~= cl_ignores());
        let vals = match read_attrs(&node.attributes, &names, &ignores) {
            Ok(v) => v,
            Err((n, v)) => {
                return Err(VcprojError::UnexpectedAttribute("VCCLCompilerTool".to_owned(), n, v));
            },
        };
        proof {
            lemma_attr_values_len(node@.attributes, cl_names(), cl_ignores());
        }
        assert(vals@.len() == 39);
        let ghost vv = opt_views(vals@);
        assert(forall|j: int| 0 <= j < 39 ==> vv[j] == opt_view(#[trigger] vals@[j]));
        cl_from_values(&vals)
    }
}

/// The `VCCLCompilerTool` that its attribute values make.
#[verifier::rlimit(60)]
fn cl_from_values(vals: &Vec<Option<String>>) -> (r: Result<CompilerTool, VcprojError>)
    requires
        vals@.len() == 39,
    ensures
        match r {
            Ok(x) => cl_values_ok(opt_views(vals@)) && x@ == cl_view_of(opt_views(vals@)),
            Err(e) => !cl_values_ok(opt_views(vals@)) && err_view(e) == cl_values_err(opt_views(vals@)),
        },
{
    let ghost vv = opt_views(vals@);
    assert(forall|j: int| 0 <= j < 39 ==> vv[j] == opt_view(#[trigger] vals@[j]));
    let additional_options = clone_opt_string(&vals[0]);
    let optimization = opt_value(&vals[1], Optimization::parse, Ghost(|s: Seq<char>| Optimization::parse_spec(s)), Ghost(|s: Seq<char>| Optimization::parse_err(s)))?;
    let inline_function_expansion = opt_value(&vals[2], InlineFunctionExpansion::parse, Ghost(|s: Seq<char>| InlineFunctionExpansion::parse_spec(s)), Ghost(|s: Seq<char>| InlineFunctionExpansion::parse_err(s)))?;
    let enable_intrinsic_functions = opt_value(&vals[3], EnableIntrinsicFunctions::parse, Ghost(|s: Seq<char>| EnableIntrinsicFunctions::parse_spec(s)), Ghost(|s: Seq<char>| EnableIntrinsicFunctions::parse_err(s)))?;
    let omit_frame_pointers = opt_value(&vals[4], OmitFramePointers::parse, Ghost(|s: Seq<char>| OmitFramePointers::parse_spec(s)), Ghost(|s: Seq<char>| OmitFramePointers::parse_err(s)))?;
    let enable_fiber_safe_optimizations = opt_value(&vals[5], EnableFiberSafeOptimizations::parse, Ghost(|s: Seq<char>| EnableFiberSafeOptimizations::parse_spec(s)), Ghost(|s: Seq<char>| EnableFiberSafeOptimizations::parse_err(s)))?;
    let favor_size_or_speed = opt_value(&vals[6], FavorSizeOrSpeed::parse, Ghost(|s: Seq<char>| FavorSizeOrSpeed::parse_spec(s)), Ghost(|s: Seq<char>| FavorSizeOrSpeed::parse_err(s)))?;
    let whole_program_optimization = opt_value(&vals[7], WholeProgramOptimization::parse, Ghost(|s: Seq<char>| WholeProgramOptimization::parse_spec(s)), Ghost(|s: Seq<char>| WholeProgramOptimization::parse_err(s)))?;
    let string_pooling = opt_value(&vals[8], StringPooling::parse, Ghost(|s: Seq<char>| StringPooling::parse_spec(s)), Ghost(|s: Seq<char>| StringPooling::parse_err(s)))?;
    let exception_handling = opt_value(&vals[9], ExceptionHandling::parse, Ghost(|s: Seq<char>| ExceptionHandling::parse_spec(s)), Ghost(|s: Seq<char>| ExceptionHandling::parse_err(s)))?;
    let runtime_library = opt_value(&vals[10], RuntimeLibrary::parse, Ghost(|s: Seq<char>| RuntimeLibrary::parse_spec(s)), Ghost(|s: Seq<char>| RuntimeLibrary::parse_err(s)))?;
    let buffer_security_check = opt_value(&vals[11], BufferSecurityCheck::parse, Ghost(|s: Seq<char>| BufferSecurityCheck::parse_spec(s)), Ghost(|s: Seq<char>| BufferSecurityCheck::parse_err(s)))?;
    let enable_enhanced_instruction_set = opt_value(&vals[12], EnableEnhancedInstructionSet::parse, Ghost(|s: Seq<char>| EnableEnhancedInstructionSet::parse_spec(s)), Ghost(|s: Seq<char>| EnableEnhancedInstructionSet::parse_err(s)))?;
    let floating_point_model = opt_value(&vals[13], FloatingPointModel::parse, Ghost(|s: Seq<char>| FloatingPointModel::parse_spec(s)), Ghost(|s: Seq<char>| FloatingPointModel::parse_err(s)))?;
    let warning_level = opt_value(&vals[14], WarningLevel::parse, Ghost(|s: Seq<char>| WarningLevel::parse_spec(s)), Ghost(|s: Seq<char>| WarningLevel::parse_err(s)))?;
    let debug_information_format = opt_value(&vals[15], DebugInformationFormat::parse, Ghost(|s: Seq<char>| DebugInformationFormat::parse_spec(s)), Ghost(|s: Seq<char>| DebugInformationFormat::parse_err(s)))?;
    let use_precompiled_header = opt_value(&vals[16], UsePrecompiledHeader::parse, Ghost(|s: Seq<char>| UsePrecompiledHeader::parse_spec(s)), Ghost(|s: Seq<char>| UsePrecompiledHeader::parse_err(s)))?;
    let compile_as = opt_value(&vals[17], CompileAs::parse, Ghost(|s: Seq<char>| CompileAs::parse_spec(s)), Ghost(|s: Seq<char>| CompileAs::parse_err(s)))?;
    let runtime_type_info = opt_value(&vals[18], RuntimeTypeInfo::parse, Ghost(|s: Seq<char>| RuntimeTypeInfo::parse_spec(s)), Ghost(|s: Seq<char>| RuntimeTypeInfo::parse_err(s)))?;
    let minimal_rebuild = opt_value(&vals[19], MinimalRebuild::parse, Ghost(|s: Seq<char>| MinimalRebuild::parse_spec(s)), Ghost(|s: Seq<char>| MinimalRebuild::parse_err(s)))?;
    let basic_runtime_checks = opt_value(&vals[20], BasicRuntimeChecks::parse, Ghost(|s: Seq<char>| BasicRuntimeChecks::parse_spec(s)), Ghost(|s: Seq<char>| BasicRuntimeChecks::parse_err(s)))?;
    let enable_function_level_linking = opt_value(&vals[21], EnableFunctionLevelLinking::parse, Ghost(|s: Seq<char>| EnableFunctionLevelLinking::parse_spec(s)), Ghost(|s: Seq<char>| EnableFunctionLevelLinking::parse_err(s)))?;
    let smaller_type_check = opt_value(&vals[22], SmallerTypeCheck::parse, Ghost(|s: Seq<char>| SmallerTypeCheck::parse_spec(s)), Ghost(|s: Seq<char>| SmallerTypeCheck::parse_err(s)))?;
    let browse_information = opt_value(&vals[23], BrowseInformation::parse, Ghost(|s: Seq<char>| BrowseInformation::parse_spec(s)), Ghost(|s: Seq<char>| BrowseInformation::parse_err(s)))?;
    let calling_convention = opt_value(&vals[24], CallingConvention::parse, Ghost(|s: Seq<char>| CallingConvention::parse_spec(s)), Ghost(|s: Seq<char>| CallingConvention::parse_err(s)))?;
    let floating_point_exceptions = opt_value(&vals[25], FloatingPointExceptions::parse, Ghost(|s: Seq<char>| FloatingPointExceptions::parse_spec(s)), Ghost(|s: Seq<char>| FloatingPointExceptions::parse_err(s)))?;
    let force_conformance_in_for_loop_scope = opt_value(&vals[26], ForceConformanceInForLoopScope::parse, Ghost(|s: Seq<char>| ForceConformanceInForLoopScope::parse_spec(s)), Ghost(|s: Seq<char>| ForceConformanceInForLoopScope::parse_err(s)))?;
    let generate_preprocessed_file = opt_value(&vals[27], GeneratePreprocessedFile::parse, Ghost(|s: Seq<char>| GeneratePreprocessedFile::parse_spec(s)), Ghost(|s: Seq<char>| GeneratePreprocessedFile::parse_err(s)))?;
    let show_includes = opt_value(&vals[28], ShowIncludes::parse, Ghost(|s: Seq<char>| ShowIncludes::parse_spec(s)), Ghost(|s: Seq<char>| ShowIncludes::parse_err(s)))?;
    let struct_member_alignment = opt_value(&vals[29], StructMemberAlignment::parse, Ghost(|s: Seq<char>| StructMemberAlignment::parse_spec(s)), Ghost(|s: Seq<char>| StructMemberAlignment::parse_err(s)))?;
    let suppress_startup_banner = opt_value(&vals[30], SuppressStartupBanner::parse, Ghost(|s: Seq<char>| SuppressStartupBanner::parse_spec(s)), Ghost(|s: Seq<char>| SuppressStartupBanner::parse_err(s)))?;
    let detect_64_bit_portability_problems = opt_value(&vals[31], Detect64BitPortabilityProblems::parse, Ghost(|s: Seq<char>| Detect64BitPortabilityProblems::parse_spec(s)), Ghost(|s: Seq<char>| Detect64BitPortabilityProblems::parse_err(s)))?;
    let precompiled_header_through = clone_opt_string(&vals[32]);
    let object_file = clone_opt_string(&vals[33]);
    let precompiled_header_file = clone_opt_string(&vals[34]);
    let program_data_base_file_name = clone_opt_string(&vals[35]);
    let disable_specific_warnings = opt_list_value(&vals[36]);
    let additional_include_directories = opt_list_value(&vals[37]);
    let preprocessor_definitions = opt_list_value(&vals[38]);
    let x = CompilerTool { additional_options, optimization, inline_function_expansion, enable_intrinsic_functions, omit_frame_pointers, enable_fiber_safe_optimizations, favor_size_or_speed, whole_program_optimization, string_pooling, exception_handling, runtime_library, buffer_security_check, enable_enhanced_instruction_set, floating_point_model, warning_level, debug_information_format, use_precompiled_header, compile_as, runtime_type_info, minimal_rebuild, basic_runtime_checks, enable_function_level_linking, smaller_type_check, browse_information, calling_convention, floating_point_exceptions, force_conformance_in_for_loop_scope, generate_preprocessed_file, show_includes, struct_member_alignment, suppress_startup_banner, detect_64_bit_portability_problems, precompiled_header_through, object_file, precompiled_header_file, program_data_base_file_name, disable_specific_warnings, additional_include_directories, preprocessor_definitions };
    Ok(x)
}

/// The attributes of `VCLibrarianTool`, in field order.
pub open spec fn lib_names() -> Seq<Seq<char>> {
    seq!["AdditionalOptions"@, "OutputFile"@, "AdditionalLibraryDirectories"@, "IgnoreDefaultLibraryNames"@, "SuppressStartupBanner"@]
}

/// The attributes of `VCLibrarianTool` that are passed over.
pub open spec fn lib_ignores() -> Seq<Seq<char>> {
    seq!["Name"@]
}

/// Mathematical view of [`LibTool`].
pub struct LibToolView {
    pub additional_options: Option<Seq<char>>,
    pub output_file: Option<Seq<char>>,
    pub additional_library_directories: Option<Seq<Seq<char>>>,
    pub ignore_default_library_names: Option<Seq<Seq<char>>>,
    pub suppress_startup_banner: Option<crate::tool_lib::SuppressStartupBanner>,
}

/// What the attributes of a `VCLibrarianTool` element read as: the first attribute
/// that is not one of its own refuses it, then the first missing required
/// attribute, then any value that does not read as its kind.
pub open spec fn lib_attrs_spec(attrs: Seq<(Seq<char>, Seq<char>)>) -> Result<LibToolView, XmlErr> {
    match attr_values(attrs, lib_names(), lib_ignores()) {
        Err((n, v)) => Err(XmlErr::UnexpectedAttribute("VCLibrarianTool"@, n, v)),
        Ok(vals) => {
            if !lib_values_ok(vals) {
                Err(lib_values_err(vals))
            } else {
                Ok(lib_view_of(vals))
            }
        },
    }
}

/// The `VCLibrarianTool` that the attribute values make.
pub open spec fn lib_view_of(vals: Seq<Option<Seq<char>>>) -> LibToolView {
    LibToolView {
        additional_options: vals[0],
        output_file: vals[1],
        additional_library_directories: opt_list(vals[2]),
        ignore_default_library_names: opt_list(vals[3]),
        suppress_startup_banner: opt_conv(vals[4], |s: Seq<char>| crate::tool_lib::SuppressStartupBanner::parse_spec(s)),
    }
}

/// Every present value of a `VCLibrarianTool` reads as its kind.
pub open spec fn lib_values_ok(vals: Seq<Option<Seq<char>>>) -> bool {
    &&& opt_conv_ok(vals[4], |s: Seq<char>| crate::tool_lib::SuppressStartupBanner::parse_spec(s))
}

/// The refusal of the first value of a `VCLibrarianTool`, in field order, that does
/// not read as its kind (when one does not).
pub open spec fn lib_values_err(vals: Seq<Option<Seq<char>>>) -> XmlErr {
    if !(opt_conv_ok(vals[4], |s: Seq<char>| crate::tool_lib::SuppressStartupBanner::parse_spec(s))) {
        crate::tool_lib::SuppressStartupBanner::parse_err(vals[4]->0)
    } else {
        XmlErr::Malformed
    }
}

impl View for LibTool {
    type V = LibToolView;

    open spec fn view(&self) -> LibToolView {
        LibToolView {
            additional_options: opt_view(self.additional_options),
            output_file: opt_view(self.output_file),
            additional_library_directories: opt_list_view(self.additional_library_directories),
            ignore_default_library_names: opt_list_view(self.ignore_default_library_names),
            suppress_startup_banner: self.suppress_startup_banner,
        }
    }
}

impl LibTool {
    /// Reads the attributes of a `VCLibrarianTool` element (see [`lib_attrs_spec`]).
    pub fn parse_xml(node: &XmlNode) -> (r: Result<LibTool, VcprojError>)
        ensures
            match r {
                Ok(x) => lib_attrs_spec(node@.attributes) matches Ok(y) && y == x@,
                Err(e) => lib_attrs_spec(node@.attributes) matches Err(y) && y == err_view(e),
            },
    {
        let names = vec!["AdditionalOptions", "OutputFile", "AdditionalLibraryDirectories", "IgnoreDefaultLibraryNames", "SuppressStartupBanner"];
        let ignores: Vec<&str> = vec!["Name"];
        assert(strs_view(names@) =~= lib_names());
        assert(strs_view(ignores@) =~= lib_ignores());
        let vals = match read_attrs(&node.attributes, &names, &ignores) {
            Ok(v) => v,
            Err((n, v)) => {
                return Err(VcprojError::UnexpectedAttribute("VCLibrarianTool".to_owned(), n, v));
            },
        };
        proof {
            lemma_attr_values_len(node@.attributes, lib_names(), lib_ignores());
        }
        assert(vals@.len() == 5);
        let ghost vv = opt_views(vals@);
        assert(forall|j: int| 0 <= j < 5 ==> vv[j] == opt_view(#[trigger] vals@[j]));
        lib_from_values(&vals)
    }
}

/// The `VCLibrarianTool` that its attribute values make.
fn lib_from_values(vals: &Vec<Option<String>>) -> (r: Result<LibTool, VcprojError>)
    requires
        vals@.len() == 5,
    ensures
        match r {
            Ok(x) => lib_values_ok(opt_views(vals@)) && x@ == lib_view_of(opt_views(vals@)),
            Err(e) => !lib_values_ok(opt_views(vals@)) && err_view(e) == lib_values_err(opt_views(vals@)),
        },
{
    let ghost vv = opt_views(vals@);
    assert(forall|j: int| 0 <= j < 5 ==> vv[j] == opt_view(#[trigger] vals@[j]));
    let additional_options = clone_opt_string(&vals[0]);
    let output_file = clone_opt_string(&vals[1]);
    let additional_library_directories = opt_list_value(&vals[2]);
    let ignore_default_library_names = opt_list_value(&vals[3]);
    let suppress_startup_banner = opt_value(&vals[4], crate::tool_lib::SuppressStartupBanner::parse, Ghost(|s: Seq<char>| crate::tool_lib::SuppressStartupBanner::parse_spec(s)), Ghost(|s: Seq<char>| crate::tool_lib::SuppressStartupBanner::parse_err(s)))?;
    let x = LibTool { additional_options, output_file, additional_library_directories, ignore_default_library_names, suppress_startup_banner };
    Ok(x)
}

/// The attributes of `VCLinkerTool`, in field order.
pub open spec fn link_names() -> Seq<Seq<char>> {
    seq!["AdditionalOptions"@, "AdditionalDependencies"@, "OutputFile"@, "LinkIncremental"@, "AdditionalLibraryDirectories"@, "IgnoreDefaultLibraryNames"@, "ModuleDefinitionFile"@, "GenerateDebugInformation"@, "ProgramDatabaseFile"@, "GenerateMapFile"@, "MapFileName"@, "MapExports"@, "SubSystem"@, "LargeAddressAware"@, "OptimizeReferences"@, "EnableCOMDATFolding"@, "RandomizedBaseAddress"@, "DataExecutionPrevention"@, "ImportLibrary"@, "TargetMachine"@, "AssemblyDebug"@, "AssemblyLinkResource"@, "BaseAddress"@, "CLRThreadAttribute"@, "DelayLoadDLLs"@, "EmbedManagedResourceFile"@, "EntryPointSymbol"@, "FixedBaseAddress"@, "GenerateManifest"@, "IgnoreImportLibrary"@, "OptimizeForWindows98"@, "SupportUnloadOfDelayLoadedDLL"@, "Version"@]
}

/// The attributes of `VCLinkerTool` that are passed over.
pub open spec fn link_ignores() -> Seq<Seq<char>> {
    seq!["Name"@]
}

/// Mathematical view of [`LinkerTool`].
pub struct LinkerToolView {
    pub additional_options: Option<Seq<char>>,
    pub additional_dependencies: Option<Seq<char>>,
    pub output_file: Option<Seq<char>>,
    pub link_incremental: Option<LinkIncremental>,
    pub additional_library_directories: Option<Seq<Seq<char>>>,
    pub ignore_default_library_names: Option<Seq<Seq<char>>>,
    pub module_definition_file: Option<Seq<char>>,
    pub generate_debug_information: Option<GenerateDebugInformation>,
    pub program_database_file: Option<Seq<char>>,
    pub generate_map_file: Option<bool>,
    pub map_file_name: Option<Seq<char>>,
    pub map_exports: Option<bool>,
    pub sub_system: Option<SubSystem>,
    pub large_address_aware: Option<LargeAddressAware>,
    pub optimize_references: Option<OptimizeReferences>,
    pub enable_comdat_folding: Option<EnableCOMDATFolding>,
    pub randomized_base_address: Option<RandomizedBaseAddress>,
    pub data_execution_prevention: Option<DataExecutionPrevention>,
    pub import_library: Option<Seq<char>>,
    pub target_machine: Option<TargetMachine>,
    pub assembly_debug: Option<AssemblyDebug>,
    pub assembly_link_resource: Option<Seq<char>>,
    pub base_address: Option<Seq<char>>,
    pub clr_thread_attribute: Option<CLRThreadAttribute>,
    pub delay_load_dlls: Option<Seq<Seq<char>>>,
    pub embed_managed_resource_file: Option<Seq<char>>,
    pub entry_point_symbol: Option<Seq<char>>,
    pub fixed_base_address: Option<FixedBaseAddress>,
    pub generate_manifest: Option<bool>,
    pub ignore_import_library: Option<bool>,
    pub optimize_for_windows98: Option<OptimizeForWindows98>,
    pub support_unload_of_delay_loaded_dll: Option<SupportUnloadOfDelayLoadedDLL>,
    pub version: Option<Seq<char>>,
}

/// What the attributes of a `VCLinkerTool` element read as: the first attribute
/// that is not one of its own refuses it, then the first missing required
/// attribute, then any value that does not read as its kind.
pub open spec fn link_attrs_spec(attrs: Seq<(Seq<char>, Seq<char>)>) -> Result<LinkerToolView, XmlErr> {
    match attr_values(attrs, link_names(), link_ignores()) {
        Err((n, v)) => Err(XmlErr::UnexpectedAttribute("VCLinkerTool"@, n, v)),
        Ok(vals) => {
            if !link_values_ok(vals) {
                Err(link_values_err(vals))
            } else {
                Ok(link_view_of(vals))
            }
        },
    }
}

/// The `VCLinkerTool` that the attribute values make.
pub open spec fn link_view_of(vals: Seq<Option<Seq<char>>>) -> LinkerToolView {
    LinkerToolView {
        additional_options: vals[0],
        additional_dependencies: vals[1],
        output_file: vals[2],
        link_incremental: opt_conv(vals[3], |s: Seq<char>| LinkIncremental::parse_spec(s)),
        additional_library_directories: opt_list(vals[4]),
        ignore_default_library_names: opt_list(vals[5]),
        module_definition_file: vals[6],
        generate_debug_information: opt_conv(vals[7], |s: Seq<char>| GenerateDebugInformation::parse_spec(s)),
        program_database_file: vals[8],
        generate_map_file: opt_conv(vals[9], |s: Seq<char>| bool_value(s)),
        map_file_name: vals[10],
        map_exports: opt_conv(vals[11], |s: Seq<char>| bool_value(s)),
        sub_system: opt_conv(vals[12], |s: Seq<char>| SubSystem::parse_spec(s)),
        large_address_aware: opt_conv(vals[13], |s: Seq<char>| LargeAddressAware::parse_spec(s)),
        optimize_references: opt_conv(vals[14], |s: Seq<char>| OptimizeReferences::parse_spec(s)),
        enable_comdat_folding: opt_conv(vals[15], |s: Seq<char>| EnableCOMDATFolding::parse_spec(s)),
        randomized_base_address: opt_conv(vals[16], |s: Seq<char>| RandomizedBaseAddress::parse_spec(s)),
        data_execution_prevention: opt_conv(vals[17], |s: Seq<char>| DataExecutionPrevention::parse_spec(s)),
        import_library: vals[18],
        target_machine: opt_conv(vals[19], |s: Seq<char>| TargetMachine::parse_spec(s)),
        assembly_debug: opt_conv(vals[20], |s: Seq<char>| AssemblyDebug::parse_spec(s)),
        assembly_link_resource: vals[21],
        base_address: vals[22],
        clr_thread_attribute: opt_conv(vals[23], |s: Seq<char>| CLRThreadAttribute::parse_spec(s)),
        delay_load_dlls: opt_list(vals[24]),
        embed_managed_resource_file: vals[25],
        entry_point_symbol: vals[26],
        fixed_base_address: opt_conv(vals[27], |s: Seq<char>| FixedBaseAddress::parse_spec(s)),
        generate_manifest: opt_conv(vals[28], |s: Seq<char>| bool_value(s)),
        ignore_import_library: opt_conv(vals[29], |s: Seq<char>| bool_value(s)),
        optimize_for_windows98: opt_conv(vals[30], |s: Seq<char>| OptimizeForWindows98::parse_spec(s)),
        support_unload_of_delay_loaded_dll: opt_conv(vals[31], |s: Seq<char>| SupportUnloadOfDelayLoadedDLL::parse_spec(s)),
        version: vals[32],
    }
}

/// Every present value of a `VCLinkerTool` reads as its kind.
pub open spec fn link_values_ok(vals: Seq<Option<Seq<char>>>) -> bool {
    &&& opt_conv_ok(vals[3], |s: Seq<char>| LinkIncremental::parse_spec(s))
    &&& opt_conv_ok(vals[7], |s: Seq<char>| GenerateDebugInformation::parse_spec(s))
    &&& opt_conv_ok(vals[9], |s: Seq<char>| bool_value(s))
    &&& opt_conv_ok(vals[11], |s: Seq<char>| bool_value(s))
    &&& opt_conv_ok(vals[12], |s: Seq<char>| SubSystem::parse_spec(s))
    &&& opt_conv_ok(vals[13], |s: Seq<char>| LargeAddressAware::parse_spec(s))
    &&& opt_conv_ok(vals[14], |s: Seq<char>| OptimizeReferences::parse_spec(s))
    &&& opt_conv_ok(vals[15], |s: Seq<char>| EnableCOMDATFolding::parse_spec(s))
    &&& opt_conv_ok(vals[16], |s: Seq<char>| RandomizedBaseAddress::parse_spec(s))
    &&& opt_conv_ok(vals[17], |s: Seq<char>| DataExecutionPrevention::parse_spec(s))
    &&& opt_conv_ok(vals[19], |s: Seq<char>| TargetMachine::parse_spec(s))
    &&& opt_conv_ok(vals[20], |s: Seq<char>| AssemblyDebug::parse_spec(s))
    &&& opt_conv_ok(vals[23], |s: Seq<char>| CLRThreadAttribute::parse_spec(s))
    &&& opt_conv_ok(vals[27], |s: Seq<char>| FixedBaseAddress::parse_spec(s))
    &&& opt_conv_ok(vals[28], |s: Seq<char>| bool_value(s))
    &&& opt_conv_ok(vals[29], |s: Seq<char>| bool_value(s))
    &&& opt_conv_ok(vals[30], |s: Seq<char>| OptimizeForWindows98::parse_spec(s))
    &&& opt_conv_ok(vals[31], |s: Seq<char>| SupportUnloadOfDelayLoadedDLL::parse_spec(s))
}

/// The refusal of the first value of a `VCLinkerTool`, in field order, that does
/// not read as its kind (when one does not).
pub open spec fn link_values_err(vals: Seq<Option<Seq<char>>>) -> XmlErr {
    if !(opt_conv_ok(vals[3], |s: Seq<char>| LinkIncremental::parse_spec(s))) {
        LinkIncremental::parse_err(vals[3]->0)
    } else if !(opt_conv_ok(vals[7], |s: Seq<char>| GenerateDebugInformation::parse_spec(s))) {
        GenerateDebugInformation::parse_err(vals[7]->0)
    } else if !(opt_conv_ok(vals[9], |s: Seq<char>| bool_value(s))) {
        XmlErr::InvalidBool(vals[9]->0)
    } else if !(opt_conv_ok(vals[11], |s: Seq<char>| bool_value(s))) {
        XmlErr::InvalidBool(vals[11]->0)
    } else if !(opt_conv_ok(vals[12], |s: Seq<char>| SubSystem::parse_spec(s))) {
        SubSystem::parse_err(vals[12]->0)
    } else if !(opt_conv_ok(vals[13], |s: Seq<char>| LargeAddressAware::parse_spec(s))) {
        LargeAddressAware::parse_err(vals[13]->0)
    } else if !(opt_conv_ok(vals[14], |s: Seq<char>| OptimizeReferences::parse_spec(s))) {
        OptimizeReferences::parse_err(vals[14]->0)
    } else if !(opt_conv_ok(vals[15], |s: Seq<char>| EnableCOMDATFolding::parse_spec(s))) {
        EnableCOMDATFolding::parse_err(vals[15]->0)
    } else if !(opt_conv_ok(vals[16], |s: Seq<char>| RandomizedBaseAddress::parse_spec(s))) {
        RandomizedBaseAddress::parse_err(vals[16]->0)
    } else if !(opt_conv_ok(vals[17], |s: Seq<char>| DataExecutionPrevention::parse_spec(s))) {
        DataExecutionPrevention::parse_err(vals[17]->0)
    } else if !(opt_conv_ok(vals[19], |s: Seq<char>| TargetMachine::parse_spec(s))) {
        TargetMachine::parse_err(vals[19]->0)
    } else if !(opt_conv_ok(vals[20], |s: Seq<char>| AssemblyDebug::parse_spec(s))) {
        AssemblyDebug::parse_err(vals[20]->0)
    } else if !(opt_conv_ok(vals[23], |s: Seq<char>| CLRThreadAttribute::parse_spec(s))) {
        CLRThreadAttribute::parse_err(vals[23]->0)
    } else if !(opt_conv_ok(vals[27], |s: Seq<char>| FixedBaseAddress::parse_spec(s))) {
        FixedBaseAddress::parse_err(vals[27]->0)
    } else if !(opt_conv_ok(vals[28], |s: Seq<char>| bool_value(s))) {
        XmlErr::InvalidBool(vals[28]->0)
    } else if !(opt_conv_ok(vals[29], |s: Seq<char>| bool_value(s))) {
        XmlErr::InvalidBool(vals[29]->0)
    } else if !(opt_conv_ok(vals[30], |s: Seq<char>| OptimizeForWindows98::parse_spec(s))) {
        OptimizeForWindows98::parse_err(vals[30]->0)
    } else if !(opt_conv_ok(vals[31], |s: Seq<char>| SupportUnloadOfDelayLoadedDLL::parse_spec(s))) {
        SupportUnloadOfDelayLoadedDLL::parse_err(vals[31]->0)
    } else {
        XmlErr::Malformed
    }
}

impl View for LinkerTool {
    type V = LinkerToolView;

    open spec fn view(&self) -> LinkerToolView {
        LinkerToolView {
            additional_options: opt_view(self.additional_options),
            additional_dependencies: opt_view(self.additional_dependencies),
            output_file: opt_view(self.output_file),
            link_incremental: self.link_incremental,
            additional_library_directories: opt_list_view(self.additional_library_directories),
            ignore_default_library_names: opt_list_view(self.ignore_default_library_names),
            module_definition_file: opt_view(self.module_definition_file),
            generate_debug_information: self.generate_debug_information,
            program_database_file: opt_view(self.program_database_file),
            generate_map_file: self.generate_map_file,
            map_file_name: opt_view(self.map_file_name),
            map_exports: self.map_exports,
            sub_system: self.sub_system,
            large_address_aware: self.large_address_aware,
            optimize_references: self.optimize_references,
            enable_comdat_folding: self.enable_comdat_folding,
            randomized_base_address: self.randomized_base_address,
            data_execution_prevention: self.data_execution_prevention,
            import_library: opt_view(self.import_library),
            target_machine: self.target_machine,
            assembly_debug: self.assembly_debug,
            assembly_link_resource: opt_view(self.assembly_link_resource),
            base_address: opt_view(self.base_address),
            clr_thread_attribute: self.clr_thread_attribute,
            delay_load_dlls: opt_list_view(self.delay_load_dlls),
            embed_managed_resource_file: opt_view(self.embed_managed_resource_file),
            entry_point_symbol: opt_view(self.entry_point_symbol),
            fixed_base_address: self.fixed_base_address,
            generate_manifest: self.generate_manifest,
            ignore_import_library: self.ignore_import_library,
            optimize_for_windows98: self.optimize_for_windows98,
            support_unload_of_delay_loaded_dll: self.support_unload_of_delay_loaded_dll,
            version: opt_view(self.version),
        }
    }
}

impl LinkerTool {
    /// Reads the attributes of a `VCLinkerTool` element (see [`link_attrs_spec`]).
    pub fn parse_xml(node: &XmlNode) -> (r: Result<LinkerTool, VcprojError>)
        ensures
            match r {
                Ok(x) => link_attrs_spec(node@.attributes) matches Ok(y) && y == x@,
                Err(e) => link_attrs_spec(node@.attributes) matches Err(y) && y == err_view(e),
            },
    {
        let names = vec!["AdditionalOptions", "AdditionalDependencies", "OutputFile", "LinkIncremental", "AdditionalLibraryDirectories", "IgnoreDefaultLibraryNames", "ModuleDefinitionFile", "GenerateDebugInformation", "ProgramDatabaseFile", "GenerateMapFile", "MapFileName", "MapExports", "SubSystem", "LargeAddressAware", "OptimizeReferences", "EnableCOMDATFolding", "RandomizedBaseAddress", "DataExecutionPrevention", "ImportLibrary", "TargetMachine", "AssemblyDebug", "AssemblyLinkResource", "BaseAddress", "CLRThreadAttribute", "DelayLoadDLLs", "EmbedManagedResourceFile", "EntryPointSymbol", "FixedBaseAddress", "GenerateManifest", "IgnoreImportLibrary", "OptimizeForWindows98", "SupportUnloadOfDelayLoadedDLL", "Version"];
        let ignores: Vec<&str> = vec!["Name"];
        assert(strs_view(names@) =~= link_names());
        assert(strs_view(ignores@) =~= link_ignores());
        let vals = match read_attrs(&node.attributes, &names, &ignores) {
            Ok(v) => v,
            Err((n, v)) => {
                return Err(VcprojError::UnexpectedAttribute("VCLinkerTool".to_owned(), n, v));
            },
        };
        proof {
            lemma_attr_values_len(node@.attributes, link_names(), link_ignores());
        }
        assert(vals@.len() == 33);
        let ghost vv = opt_views(vals@);
        assert(forall|j: int| 0 <= j < 33 ==> vv[j] == opt_view(#[trigger] vals@[j]));
        link_from_values(&vals)
    }
}

/// The `VCLinkerTool` that its attribute values make.
#[verifier::rlimit(60)]
fn link_from_values(vals: &Vec<Option<String>>) -> (r: Result<LinkerTool, VcprojError>)
    requires
        vals@.len() == 33,
    ensures
        match r {
            Ok(x) => link_values_ok(opt_views(vals@)) && x@ == link_view_of(opt_views(vals@)),
            Err(e) => !link_values_ok(opt_views(vals@)) && err_view(e) == link_values_err(opt_views(vals@)),
        },
{
    let ghost vv = opt_views(vals@);
    assert(forall|j: int| 0 <= j < 33 ==> vv[j] == opt_view(#[trigger] vals@[j]));
    let additional_options = clone_opt_string(&vals[0]);
    let additional_dependencies = clone_opt_string(&vals[1]);
    let output_file = clone_opt_string(&vals[2]);
    let link_incremental = opt_value(&vals[3], LinkIncremental::parse, Ghost(|s: Seq<char>| LinkIncremental::parse_spec(s)), Ghost(|s: Seq<char>| LinkIncremental::parse_err(s)))?;
    let additional_library_directories = opt_list_value(&vals[4]);
    let ignore_default_library_names = opt_list_value(&vals[5]);
    let module_definition_file = clone_opt_string(&vals[6]);
    let generate_debug_information = opt_value(&vals[7], GenerateDebugInformation::parse, Ghost(|s: Seq<char>| GenerateDebugInformation::parse_spec(s)), Ghost(|s: Seq<char>| GenerateDebugInformation::parse_err(s)))?;
    let program_database_file = clone_opt_string(&vals[8]);
    let generate_map_file = opt_value(&vals[9], parse_bool, Ghost(|s: Seq<char>| bool_value(s)), Ghost(|s: Seq<char>| XmlErr::InvalidBool(s)))?;
    let map_file_name = clone_opt_string(&vals[10]);
    let map_exports = opt_value(&vals[11], parse_bool, Ghost(|s: Seq<char>| bool_value(s)), Ghost(|s: Seq<char>| XmlErr::InvalidBool(s)))?;
    let sub_system = opt_value(&vals[12], SubSystem::parse, Ghost(|s: Seq<char>| SubSystem::parse_spec(s)), Ghost(|s: Seq<char>| SubSystem::parse_err(s)))?;
    let large_address_aware = opt_value(&vals[13], LargeAddressAware::parse, Ghost(|s: Seq<char>| LargeAddressAware::parse_spec(s)), Ghost(|s: Seq<char>| LargeAddressAware::parse_err(s)))?;
    let optimize_references = opt_value(&vals[14], OptimizeReferences::parse, Ghost(|s: Seq<char>| OptimizeReferences::parse_spec(s)), Ghost(|s: Seq<char>| OptimizeReferences::parse_err(s)))?;
    let enable_comdat_folding = opt_value(&vals[15], EnableCOMDATFolding::parse, Ghost(|s: Seq<char>| EnableCOMDATFolding::parse_spec(s)), Ghost(|s: Seq<char>| EnableCOMDATFolding::parse_err(s)))?;
    let randomized_base_address = opt_value(&vals[16], RandomizedBaseAddress::parse, Ghost(|s: Seq<char>| RandomizedBaseAddress::parse_spec(s)), Ghost(|s: Seq<char>| RandomizedBaseAddress::parse_err(s)))?;
    let data_execution_prevention = opt_value(&vals[17], DataExecutionPrevention::parse, Ghost(|s: Seq<char>| DataExecutionPrevention::parse_spec(s)), Ghost(|s: Seq<char>| DataExecutionPrevention::parse_err(s)))?;
    let import_library = clone_opt_string(&vals[18]);
    let target_machine = opt_value(&vals[19], TargetMachine::parse, Ghost(|s: Seq<char>| TargetMachine::parse_spec(s)), Ghost(|s: Seq<char>| TargetMachine::parse_err(s)))?;
    let assembly_debug = opt_value(&vals[20], AssemblyDebug::parse, Ghost(|s: Seq<char>| AssemblyDebug::parse_spec(s)), Ghost(|s: Seq<char>| AssemblyDebug::parse_err(s)))?;
    let assembly_link_resource = clone_opt_string(&vals[21]);
    let base_address = clone_opt_string(&vals[22]);
    let clr_thread_attribute = opt_value(&vals[23], CLRThreadAttribute::parse, Ghost(|s: Seq<char>| CLRThreadAttribute::parse_spec(s)), Ghost(|s: Seq<char>| CLRThreadAttribute::parse_err(s)))?;
    let delay_load_dlls = opt_list_value(&vals[24]);
    let embed_managed_resource_file = clone_opt_string(&vals[25]);
    let entry_point_symbol = clone_opt_string(&vals[26]);
    let fixed_base_address = opt_value(&vals[27], FixedBaseAddress::parse, Ghost(|s: Seq<char>| FixedBaseAddress::parse_spec(s)), Ghost(|s: Seq<char>| FixedBaseAddress::parse_err(s)))?;
    let generate_manifest = opt_value(&vals[28], parse_bool, Ghost(|s: Seq<char>| bool_value(s)), Ghost(|s: Seq<char>| XmlErr::InvalidBool(s)))?;
    let ignore_import_library = opt_value(&vals[29], parse_bool, Ghost(|s: Seq<char>| bool_value(s)), Ghost(|s: Seq<char>| XmlErr::InvalidBool(s)))?;
    let optimize_for_windows98 = opt_value(&vals[30], OptimizeForWindows98::parse, Ghost(|s: Seq<char>| OptimizeForWindows98::parse_spec(s)), Ghost(|s: Seq<char>| OptimizeForWindows98::parse_err(s)))?;
    let support_unload_of_delay_loaded_dll = opt_value(&vals[31], SupportUnloadOfDelayLoadedDLL::parse, Ghost(|s: Seq<char>| SupportUnloadOfDelayLoadedDLL::parse_spec(s)), Ghost(|s: Seq<char>| SupportUnloadOfDelayLoadedDLL::parse_err(s)))?;
    let version = clone_opt_string(&vals[32]);
    let x = LinkerTool { additional_options, additional_dependencies, output_file, link_incremental, additional_library_directories, ignore_default_library_names, module_definition_file, generate_debug_information, program_database_file, generate_map_file, map_file_name, map_exports, sub_system, large_address_aware, optimize_references, enable_comdat_folding, randomized_base_address, data_execution_prevention, import_library, target_machine, assembly_debug, assembly_link_resource, base_address, clr_thread_attribute, delay_load_dlls, embed_managed_resource_file, entry_point_symbol, fixed_base_address, generate_manifest, ignore_import_library, optimize_for_windows98, support_unload_of_delay_loaded_dll, version };
    Ok(x)
}

/// The attributes of `Platform`, in field order.
pub open spec fn platform_names() -> Seq<Seq<char>> {
    seq!["Name"@]
}

/// The attributes of `Platform` that are passed over.
pub open spec fn platform_ignores() -> Seq<Seq<char>> {
    seq![]
}

/// What the attributes of a `Platform` element read as: the first attribute
/// that is not one of its own refuses it, then the first missing required
/// attribute, then any value that does not read as its kind.
pub open spec fn platform_attrs_spec(attrs: Seq<(Seq<char>, Seq<char>)>) -> Result<Seq<char>, XmlErr> {
    match attr_values(attrs, platform_names(), platform_ignores()) {
        Err((n, v)) => Err(XmlErr::UnexpectedAttribute("Platform"@, n, v)),
        Ok(vals) => {
            if vals[0] is None {
                Err(XmlErr::MissingAttribute("Platform"@, "Name"@))
            } else {
                Ok(platform_view_of(vals))
            }
        },
    }
}

/// The `Platform` that the attribute values make.
pub open spec fn platform_view_of(vals: Seq<Option<Seq<char>>>) -> Seq<char> {
    vals[0]->0
}

impl Platform {
    /// Reads the attributes of a `Platform` element (see [`platform_attrs_spec`]).
    pub fn parse_xml(node: &XmlNode) -> (r: Result<Platform, VcprojError>)
        ensures
            match r {
                Ok(x) => platform_attrs_spec(node@.attributes) matches Ok(y) && y == x.name@,
                Err(e) => platform_attrs_spec(node@.attributes) matches Err(y) && y == err_view(e),
            },
    {
        let names = vec!["Name"];
        let ignores: Vec<&str> = vec![];
        assert(strs_view(names@) =~= platform_names());
        assert(strs_view(ignores@) =~= platform_ignores());
        let vals = match read_attrs(&node.attributes, &names, &ignores) {
            Ok(v) => v,
            Err((n, v)) => {
                return Err(VcprojError::UnexpectedAttribute("Platform".to_owned(), n, v));
            },
        };
        proof {
            lemma_attr_values_len(node@.attributes, platform_names(), platform_ignores());
        }
        assert(vals@.len() == 1);
        let ghost vv = opt_views(vals@);
        assert(forall|j: int| 0 <= j < 1 ==> vv[j] == opt_view(#[trigger] vals@[j]));
        if vals[0].is_none() {
            return Err(VcprojError::MissingAttribute("Platform".to_owned(), "Name".to_owned()));
        }
        Ok(platform_from_values(&vals))
    }
}

/// The `Platform` that its attribute values make.
fn platform_from_values(vals: &Vec<Option<String>>) -> (r: Platform)
    requires
        vals@.len() == 1,
        vals@[0] is Some,
    ensures
        r.name@ == platform_view_of(opt_views(vals@)),
{
    let ghost vv = opt_views(vals@);
    assert(forall|j: int| 0 <= j < 1 ==> vv[j] == opt_view(#[trigger] vals@[j]));
    let name = match &vals[0] { Some(s) => s.clone(), None => String::new() };
    Platform { name }
}

/// The attributes of `Configuration`, in field order.
pub open spec fn config_names() -> Seq<Seq<char>> {
    seq!["Name"@, "OutputDirectory"@, "IntermediateDirectory"@, "ConfigurationType"@, "CharacterSet"@, "WholeProgramOptimization"@, "ManagedExtensions"@, "ATLMinimizesCRunTimeLibraryUsage"@, "DeleteExtensionsOnClean"@, "InheritedPropertySheets"@, "UseOfATL"@, "UseOfMFC"@]
}

/// The attributes of `Configuration` that are passed over.
pub open spec fn config_ignores() -> Seq<Seq<char>> {
    seq![]
}

/// Mathematical view of [`Configuration`].
pub struct ConfigurationView {
    pub name: Seq<char>,
    pub output_directory: Option<Seq<char>>,
    pub intermediate_directory: Option<Seq<char>>,
    pub configuration_type: ConfigurationType,
    pub character_set: Option<CharacterSet>,
    pub whole_program_optimization: Option<bool>,
    pub managed_extensions: Option<ManagedExtensions>,
    pub atl_minimizes_c_runtime_library_usage: Option<bool>,
    pub delete_extensions_on_clean: Option<Seq<char>>,
    pub inherited_property_sheets: Option<Seq<Seq<char>>>,
    pub use_of_atl: Option<UseOfATL>,
    pub use_of_mfc: Option<UseOfMFC>,
    pub compiler_tool: Option<CompilerToolView>,
    pub lib_tool: Option<LibToolView>,
    pub linker_tool: Option<LinkerToolView>,
}

/// What the attributes of a `Configuration` element read as: the first attribute
/// that is not one of its own refuses it, then the first missing required
/// attribute, then any value that does not read as its kind.
pub open spec fn config_attrs_spec(attrs: Seq<(Seq<char>, Seq<char>)>) -> Result<ConfigurationView, XmlErr> {
    match attr_values(attrs, config_names(), config_ignores()) {
        Err((n, v)) => Err(XmlErr::UnexpectedAttribute("Configuration"@, n, v)),
        Ok(vals) => {
            if vals[0] is None {
                Err(XmlErr::MissingAttribute("Configuration"@, "Name"@))
            } else if vals[3] is None {
                Err(XmlErr::MissingAttribute("Configuration"@, "ConfigurationType"@))
            } else if !config_values_ok(vals) {
                Err(config_values_err(vals))
            } else {
                Ok(config_view_of(vals))
            }
        },
    }
}

/// The `Configuration` that the attribute values make.
pub open spec fn config_view_of(vals: Seq<Option<Seq<char>>>) -> ConfigurationView {
    ConfigurationView {
        name: vals[0]->0,
        output_directory: vals[1],
        intermediate_directory: vals[2],
        configuration_type: ConfigurationType::parse_spec(vals[3]->0)->0,
        character_set: opt_conv(vals[4], |s: Seq<char>| CharacterSet::parse_spec(s)),
        whole_program_optimization: opt_conv(vals[5], |s: Seq<char>| bool_value(s)),
        managed_extensions: opt_conv(vals[6], |s: Seq<char>| ManagedExtensions::parse_spec(s)),
        atl_minimizes_c_runtime_library_usage: opt_conv(vals[7], |s: Seq<char>| bool_value(s)),
        delete_extensions_on_clean: vals[8],
        inherited_property_sheets: opt_list(vals[9]),
        use_of_atl: opt_conv(vals[10], |s: Seq<char>| UseOfATL::parse_spec(s)),
        use_of_mfc: opt_conv(vals[11], |s: Seq<char>| UseOfMFC::parse_spec(s)),
        compiler_tool: None,
        lib_tool: None,
        linker_tool: None,
    }
}

/// Every present value of a `Configuration` reads as its kind.
pub open spec fn config_values_ok(vals: Seq<Option<Seq<char>>>) -> bool {
    &&& ConfigurationType::parse_spec(vals[3]->0) is Some
    &&& opt_conv_ok(vals[4], |s: Seq<char>| CharacterSet::parse_spec(s))
    &&& opt_conv_ok(vals[5], |s: Seq<char>| bool_value(s))
    &&& opt_conv_ok(vals[6], |s: Seq<char>| ManagedExtensions::parse_spec(s))
    &&& opt_conv_ok(vals[7], |s: Seq<char>| bool_value(s))
    &&& opt_conv_ok(vals[10], |s: Seq<char>| UseOfATL::parse_spec(s))
    &&& opt_conv_ok(vals[11], |s: Seq<char>| UseOfMFC::parse_spec(s))
}

/// The refusal of the first value of a `Configuration`, in field order, that does
/// not read as its kind (when one does not).
pub open spec fn config_values_err(vals: Seq<Option<Seq<char>>>) -> XmlErr {
    if !(ConfigurationType::parse_spec(vals[3]->0) is Some) {
        ConfigurationType::parse_err(vals[3]->0)
    } else if !(opt_conv_ok(vals[4], |s: Seq<char>| CharacterSet::parse_spec(s))) {
        CharacterSet::parse_err(vals[4]->0)
    } else if !(opt_conv_ok(vals[5], |s: Seq<char>| bool_value(s))) {
        XmlErr::InvalidBool(vals[5]->0)
    } else if !(opt_conv_ok(vals[6], |s: Seq<char>| ManagedExtensions::parse_spec(s))) {
        ManagedExtensions::parse_err(vals[6]->0)
    } else if !(opt_conv_ok(vals[7], |s: Seq<char>| bool_value(s))) {
        XmlErr::InvalidBool(vals[7]->0)
    } else if !(opt_conv_ok(vals[10], |s: Seq<char>| UseOfATL::parse_spec(s))) {
        UseOfATL::parse_err(vals[10]->0)
    } else if !(opt_conv_ok(vals[11], |s: Seq<char>| UseOfMFC::parse_spec(s))) {
        UseOfMFC::parse_err(vals[11]->0)
    } else {
        XmlErr::Malformed
    }
}

impl View for Configuration {
    type V = ConfigurationView;

    open spec fn view(&self) -> ConfigurationView {
        ConfigurationView {
            name: self.name@,
            output_directory: opt_view(self.output_directory),
            intermediate_directory: opt_view(self.intermediate_directory),
            configuration_type: self.configuration_type,
            character_set: self.character_set,
            whole_program_optimization: self.whole_program_optimization,
            managed_extensions: self.managed_extensions,
            atl_minimizes_c_runtime_library_usage: self.atl_minimizes_c_runtime_library_usage,
            delete_extensions_on_clean: opt_view(self.delete_extensions_on_clean),
            inherited_property_sheets: opt_list_view(self.inherited_property_sheets),
            use_of_atl: self.use_of_atl,
            use_of_mfc: self.use_of_mfc,
            compiler_tool: match self.compiler_tool { Some(t) => Some(t@), None => None },
            lib_tool: match self.lib_tool { Some(t) => Some(t@), None => None },
            linker_tool: match self.linker_tool { Some(t) => Some(t@), None => None },
        }
    }
}

impl Configuration {
    /// Reads the attributes of a `Configuration` element (see [`config_attrs_spec`]).
    pub fn parse_xml_inner(node: &XmlNode) -> (r: Result<Configuration, VcprojError>)
        ensures
            match r {
                Ok(x) => config_attrs_spec(node@.attributes) matches Ok(y) && y == x@,
                Err(e) => config_attrs_spec(node@.attributes) matches Err(y) && y == err_view(e),
            },
    {
        let names = vec!["Name", "OutputDirectory", "IntermediateDirectory", "ConfigurationType", "CharacterSet", "WholeProgramOptimization", "ManagedExtensions", "ATLMinimizesCRunTimeLibraryUsage", "DeleteExtensionsOnClean", "InheritedPropertySheets", "UseOfATL", "UseOfMFC"];
        let ignores: Vec<&str> = vec![];
        assert(strs_view(names@) =~= config_names());
        assert(strs_view(ignores@) =~= config_ignores());
        let vals = match read_attrs(&node.attributes, &names, &ignores) {
            Ok(v) => v,
            Err((n, v)) => {
                return Err(VcprojError::UnexpectedAttribute("Configuration".to_owned(), n, v));
            },
        };
        proof {
            lemma_attr_values_len(node@.attributes, config_names(), config_ignores());
        }
        assert(vals@.len() == 12);
        let ghost vv = opt_views(vals@);
        assert(forall|j: int| 0 <= j < 12 ==> vv[j] == opt_view(#[trigger] vals@[j]));
        if vals[0].is_none() {
            return Err(VcprojError::MissingAttribute("Configuration".to_owned(), "Name".to_owned()));
        }
        if vals[3].is_none() {
            return Err(VcprojError::MissingAttribute("Configuration".to_owned(), "ConfigurationType".to_owned()));
        }
        config_from_values(&vals)
    }
}

/// The `Configuration` that its attribute values make.
fn config_from_values(vals: &Vec<Option<String>>) -> (r: Result<Configuration, VcprojError>)
    requires
        vals@.len() == 12,
        vals@[0] is Some,
        vals@[3] is Some,
    ensures
        match r {
            Ok(x) => config_values_ok(opt_views(vals@)) && x@ == config_view_of(opt_views(vals@)),
            Err(e) => !config_values_ok(opt_views(vals@)) && err_view(e) == config_values_err(opt_views(vals@)),
        },
{
    let ghost vv = opt_views(vals@);
    assert(forall|j: int| 0 <= j < 12 ==> vv[j] == opt_view(#[trigger] vals@[j]));
    let name = match &vals[0] { Some(s) => s.clone(), None => String::new() };
    let output_directory = clone_opt_string(&vals[1]);
    let intermediate_directory = clone_opt_string(&vals[2]);
    let configuration_type = match &vals[3] { Some(s) => ConfigurationType::parse(s.as_str())?, None => { return Err(VcprojError::MissingAttribute("Configuration".to_owned(), "ConfigurationType".to_owned())); } };
    let character_set = opt_value(&vals[4], CharacterSet::parse, Ghost(|s: Seq<char>| CharacterSet::parse_spec(s)), Ghost(|s: Seq<char>| CharacterSet::parse_err(s)))?;
    let whole_program_optimization = opt_value(&vals[5], parse_bool, Ghost(|s: Seq<char>| bool_value(s)), Ghost(|s: Seq<char>| XmlErr::InvalidBool(s)))?;
    let managed_extensions = opt_value(&vals[6], ManagedExtensions::parse, Ghost(|s: Seq<char>| ManagedExtensions::parse_spec(s)), Ghost(|s: Seq<char>| ManagedExtensions::parse_err(s)))?;
    let atl_minimizes_c_runtime_library_usage = opt_value(&vals[7], parse_bool, Ghost(|s: Seq<char>| bool_value(s)), Ghost(|s: Seq<char>| XmlErr::InvalidBool(s)))?;
    let delete_extensions_on_clean = clone_opt_string(&vals[8]);
    let inherited_property_sheets = opt_list_value(&vals[9]);
    let use_of_atl = opt_value(&vals[10], UseOfATL::parse, Ghost(|s: Seq<char>| UseOfATL::parse_spec(s)), Ghost(|s: Seq<char>| UseOfATL::parse_err(s)))?;
    let use_of_mfc = opt_value(&vals[11], UseOfMFC::parse, Ghost(|s: Seq<char>| UseOfMFC::parse_spec(s)), Ghost(|s: Seq<char>| UseOfMFC::parse_err(s)))?;
    let x = Configuration { name, output_directory, intermediate_directory, configuration_type, character_set, whole_program_optimization, managed_extensions, atl_minimizes_c_runtime_library_usage, delete_extensions_on_clean, inherited_property_sheets, use_of_atl, use_of_mfc, compiler_tool: None, lib_tool: None, linker_tool: None };
    Ok(x)
}

/// The attributes of `Filter`, in field order.
pub open spec fn filter_names() -> Seq<Seq<char>> {
    seq!["Name"@, "Filter"@, "UniqueIdentifier"@]
}

/// The attributes of `Filter` that are passed over.
pub open spec fn filter_ignores() -> Seq<Seq<char>> {
    seq![]
}

/// Mathematical view of [`Filter`].
pub struct FilterView {
    pub name: Seq<char>,
    pub filter: Option<Seq<Seq<char>>>,
    pub unique_identifier: Option<Seq<char>>,
    pub filters: Seq<FilterView>,
    pub files: Seq<FileView>,
}

/// What the attributes of a `Filter` element read as: the first attribute
/// that is not one of its own refuses it, then the first missing required
/// attribute, then any value that does not read as its kind.
pub open spec fn filter_attrs_spec(attrs: Seq<(Seq<char>, Seq<char>)>) -> Result<FilterView, XmlErr> {
    match attr_values(attrs, filter_names(), filter_ignores()) {
        Err((n, v)) => Err(XmlErr::UnexpectedAttribute("Filter"@, n, v)),
        Ok(vals) => {
            if vals[0] is None {
                Err(XmlErr::MissingAttribute("Filter"@, "Name"@))
            } else {
                Ok(filter_view_of(vals))
            }
        },
    }
}

/// The `Filter` that the attribute values make.
pub open spec fn filter_view_of(vals: Seq<Option<Seq<char>>>) -> FilterView {
    FilterView {
        name: vals[0]->0,
        filter: opt_list(vals[1]),
        unique_identifier: vals[2],
        filters: Seq::empty(),
        files: Seq::empty(),
    }
}

impl Filter {
    /// Reads the attributes of a `Filter` element (see [`filter_attrs_spec`]).
    pub fn parse_xml_inner(node: &XmlNode) -> (r: Result<Filter, VcprojError>)
        ensures
            match r {
                Ok(x) => filter_attrs_spec(node@.attributes) matches Ok(y) && y == x@,
                Err(e) => filter_attrs_spec(node@.attributes) matches Err(y) && y == err_view(e),
            },
    {
        let names = vec!["Name", "Filter", "UniqueIdentifier"];
        let ignores: Vec<&str> = vec![];
        assert(strs_view(names@) =~= filter_names());
        assert(strs_view(ignores@) =~= filter_ignores());
        let vals = match read_attrs(&node.attributes, &names, &ignores) {
            Ok(v) => v,
            Err((n, v)) => {
                return Err(VcprojError::UnexpectedAttribute("Filter".to_owned(), n, v));
            },
        };
        proof {
            lemma_attr_values_len(node@.attributes, filter_names(), filter_ignores());
        }
        assert(vals@.len() == 3);
        let ghost vv = opt_views(vals@);
        assert(forall|j: int| 0 <= j < 3 ==> vv[j] == opt_view(#[trigger] vals@[j]));
        if vals[0].is_none() {
            return Err(VcprojError::MissingAttribute("Filter".to_owned(), "Name".to_owned()));
        }
        Ok(filter_from_values(&vals))
    }
}

/// The `Filter` that its attribute values make.
fn filter_from_values(vals: &Vec<Option<String>>) -> (r: Filter)
    requires
        vals@.len() == 3,
        vals@[0] is Some,
    ensures
        r@ == filter_view_of(opt_views(vals@)),
{
    let ghost vv = opt_views(vals@);
    assert(forall|j: int| 0 <= j < 3 ==> vv[j] == opt_view(#[trigger] vals@[j]));
    let name = match &vals[0] { Some(s) => s.clone(), None => String::new() };
    let filter = opt_list_value(&vals[1]);
    let unique_identifier = clone_opt_string(&vals[2]);
    let x = Filter { name, filter, unique_identifier, filters: Vec::new(), files: Vec::new() };
    assert(filters_view(x.filters@) =~= Seq::<FilterView>::empty());
    assert(files_view(x.files@) =~= Seq::<FileView>::empty());
    x
}

/// The attributes of `File`, in field order.
pub open spec fn file_names() -> Seq<Seq<char>> {
    seq!["RelativePath"@, "FileType"@, "SubType"@]
}

/// The attributes of `File` that are passed over.
pub open spec fn file_ignores() -> Seq<Seq<char>> {
    seq![]
}

/// Mathematical view of [`File`].
pub struct FileView {
    pub relative_path: Seq<char>,
    pub file_type: Option<u8>,
    pub sub_type: Option<Seq<char>>,
    pub file_configurations: Seq<FileConfigurationView>,
    pub files: Seq<FileView>,
}

/// What the attributes of a `File` element read as: the first attribute
/// that is not one of its own refuses it, then the first missing required
/// attribute, then any value that does not read as its kind.
pub open spec fn file_attrs_spec(attrs: Seq<(Seq<char>, Seq<char>)>) -> Result<FileView, XmlErr> {
    match attr_values(attrs, file_names(), file_ignores()) {
        Err((n, v)) => Err(XmlErr::UnexpectedAttribute("File"@, n, v)),
        Ok(vals) => {
            if vals[0] is None {
                Err(XmlErr::MissingAttribute("File"@, "RelativePath"@))
            } else if !file_values_ok(vals) {
                Err(file_values_err(vals))
            } else {
                Ok(file_view_of(vals))
            }
        },
    }
}

/// The `File` that the attribute values make.
pub open spec fn file_view_of(vals: Seq<Option<Seq<char>>>) -> FileView {
    FileView {
        relative_path: vals[0]->0,
        file_type: opt_conv(vals[1], |s: Seq<char>| u8_value(s)),
        sub_type: vals[2],
        file_configurations: Seq::empty(),
        files: Seq::empty(),
    }
}

/// Every present value of a `File` reads as its kind.
pub open spec fn file_values_ok(vals: Seq<Option<Seq<char>>>) -> bool {
    &&& opt_conv_ok(vals[1], |s: Seq<char>| u8_value(s))
}

/// The refusal of the first value of a `File`, in field order, that does
/// not read as its kind (when one does not).
pub open spec fn file_values_err(vals: Seq<Option<Seq<char>>>) -> XmlErr {
    if !(opt_conv_ok(vals[1], |s: Seq<char>| u8_value(s))) {
        XmlErr::InvalidInt(vals[1]->0)
    } else {
        XmlErr::Malformed
    }
}

impl File {
    /// Reads the attributes of a `File` element (see [`file_attrs_spec`]).
    pub fn parse_xml_inner(node: &XmlNode) -> (r: Result<File, VcprojError>)
        ensures
            match r {
                Ok(x) => file_attrs_spec(node@.attributes) matches Ok(y) && y == x@,
                Err(e) => file_attrs_spec(node@.attributes) matches Err(y) && y == err_view(e),
            },
    {
        let names = vec!["RelativePath", "FileType", "SubType"];
        let ignores: Vec<&str> = vec![];
        assert(strs_view(names@) =~= file_names());
        assert(strs_view(ignores@) =~= file_ignores());
        let vals = match read_attrs(&node.attributes, &names, &ignores) {
            Ok(v) => v,
            Err((n, v)) => {
                return Err(VcprojError::UnexpectedAttribute("File".to_owned(), n, v));
            },
        };
        proof {
            lemma_attr_values_len(node@.attributes, file_names(), file_ignores());
        }
        assert(vals@.len() == 3);
        let ghost vv = opt_views(vals@);
        assert(forall|j: int| 0 <= j < 3 ==> vv[j] == opt_view(#[trigger] vals@[j]));
        if vals[0].is_none() {
            return Err(VcprojError::MissingAttribute("File".to_owned(), "RelativePath".to_owned()));
        }
        file_from_values(&vals)
    }
}

/// The `File` that its attribute values make.
fn file_from_values(vals: &Vec<Option<String>>) -> (r: Result<File, VcprojError>)
    requires
        vals@.len() == 3,
        vals@[0] is Some,
    ensures
        match r {
            Ok(x) => file_values_ok(opt_views(vals@)) && x@ == file_view_of(opt_views(vals@)),
            Err(e) => !file_values_ok(opt_views(vals@)) && err_view(e) == file_values_err(opt_views(vals@)),
        },
{
    let ghost vv = opt_views(vals@);
    assert(forall|j: int| 0 <= j < 3 ==> vv[j] == opt_view(#[trigger] vals@[j]));
    let relative_path = match &vals[0] { Some(s) => s.clone(), None => String::new() };
    let file_type = opt_value(&vals[1], parse_u8, Ghost(|s: Seq<char>| u8_value(s)), Ghost(|s: Seq<char>| XmlErr::InvalidInt(s)))?;
    let sub_type = clone_opt_string(&vals[2]);
    let x = File { relative_path, file_type, sub_type, file_configurations: Vec::new(), files: Vec::new() };
    assert(x.file_configurations@.map_values(|y: FileConfiguration| y@) =~= Seq::<FileConfigurationView>::empty());
    assert(files_view(x.files@) =~= Seq::<FileView>::empty());
    Ok(x)
}

/// The attributes of `FileConfiguration`, in field order.
pub open spec fn file_cfg_names() -> Seq<Seq<char>> {
    seq!["Name"@, "ExcludedFromBuild"@]
}

/// The attributes of `FileConfiguration` that are passed over.
pub open spec fn file_cfg_ignores() -> Seq<Seq<char>> {
    seq![]
}

/// Mathematical view of [`FileConfiguration`].
pub struct FileConfigurationView {
    pub name: Seq<char>,
    pub excluded_from_build: Option<bool>,
    pub tool: Option<CompilerToolView>,
}

/// What the attributes of a `FileConfiguration` element read as: the first attribute
/// that is not one of its own refuses it, then the first missing required
/// attribute, then any value that does not read as its kind.
pub open spec fn file_cfg_attrs_spec(attrs: Seq<(Seq<char>, Seq<char>)>) -> Result<FileConfigurationView, XmlErr> {
    match attr_values(attrs, file_cfg_names(), file_cfg_ignores()) {
        Err((n, v)) => Err(XmlErr::UnexpectedAttribute("FileConfiguration"@, n, v)),
        Ok(vals) => {
            if vals[0] is None {
                Err(XmlErr::MissingAttribute("FileConfiguration"@, "Name"@))
            } else if !file_cfg_values_ok(vals) {
                Err(file_cfg_values_err(vals))
            } else {
                Ok(file_cfg_view_of(vals))
            }
        },
    }
}

/// The `FileConfiguration` that the attribute values make.
pub open spec fn file_cfg_view_of(vals: Seq<Option<Seq<char>>>) -> FileConfigurationView {
    FileConfigurationView {
        name: vals[0]->0,
        excluded_from_build: opt_conv(vals[1], |s: Seq<char>| bool_value(s)),
        tool: None,
    }
}

/// Every present value of a `FileConfiguration` reads as its kind.
pub open spec fn file_cfg_values_ok(vals: Seq<Option<Seq<char>>>) -> bool {
    &&& opt_conv_ok(vals[1], |s: Seq<char>| bool_value(s))
}

/// The refusal of the first value of a `FileConfiguration`, in field order, that does
/// not read as its kind (when one does not).
pub open spec fn file_cfg_values_err(vals: Seq<Option<Seq<char>>>) -> XmlErr {
    if !(opt_conv_ok(vals[1], |s: Seq<char>| bool_value(s))) {
        XmlErr::InvalidBool(vals[1]->0)
    } else {
        XmlErr::Malformed
    }
}

impl View for FileConfiguration {
    type V = FileConfigurationView;

    open spec fn view(&self) -> FileConfigurationView {
        FileConfigurationView {
            name: self.name@,
            excluded_from_build: self.excluded_from_build,
            tool: match self.tool { Some(t) => Some(t@), None => None },
        }
    }
}

impl FileConfiguration {
    /// Reads the attributes of a `FileConfiguration` element (see [`file_cfg_attrs_spec`]).
    pub fn parse_xml_inner(node: &XmlNode) -> (r: Result<FileConfiguration, VcprojError>)
        ensures
            match r {
                Ok(x) => file_cfg_attrs_spec(node@.attributes) matches Ok(y) && y == x@,
                Err(e) => file_cfg_attrs_spec(node@.attributes) matches Err(y) && y == err_view(e),
            },
    {
        let names = vec!["Name", "ExcludedFromBuild"];
        let ignores: Vec<&str> = vec![];
        assert(strs_view(names@) =~= file_cfg_names());
        assert(strs_view(ignores@) =~= file_cfg_ignores());
        let vals = match read_attrs(&node.attributes, &names, &ignores) {
            Ok(v) => v,
            Err((n, v)) => {
                return Err(VcprojError::UnexpectedAttribute("FileConfiguration".to_owned(), n, v));
            },
        };
        proof {
            lemma_attr_values_len(node@.attributes, file_cfg_names(), file_cfg_ignores());
        }
        assert(vals@.len() == 2);
        let ghost vv = opt_views(vals@);
        assert(forall|j: int| 0 <= j < 2 ==> vv[j] == opt_view(#[trigger] vals@[j]));
        if vals[0].is_none() {
            return Err(VcprojError::MissingAttribute("FileConfiguration".to_owned(), "Name".to_owned()));
        }
        file_cfg_from_values(&vals)
    }
}

/// The `FileConfiguration` that its attribute values make.
fn file_cfg_from_values(vals: &Vec<Option<String>>) -> (r: Result<FileConfiguration, VcprojError>)
    requires
        vals@.len() == 2,
        vals@[0] is Some,
    ensures
        match r {
            Ok(x) => file_cfg_values_ok(opt_views(vals@)) && x@ == file_cfg_view_of(opt_views(vals@)),
            Err(e) => !file_cfg_values_ok(opt_views(vals@)) && err_view(e) == file_cfg_values_err(opt_views(vals@)),
        },
{
    let ghost vv = opt_views(vals@);
    assert(forall|j: int| 0 <= j < 2 ==> vv[j] == opt_view(#[trigger] vals@[j]));
    let name = match &vals[0] { Some(s) => s.clone(), None => String::new() };
    let excluded_from_build = opt_value(&vals[1], parse_bool, Ghost(|s: Seq<char>| bool_value(s)), Ghost(|s: Seq<char>| XmlErr::InvalidBool(s)))?;
    let x = FileConfiguration { name, excluded_from_build, tool: None };
    Ok(x)
}

/// The attributes of `VCProject`, in field order.
pub open spec fn project_names() -> Seq<Seq<char>> {
    seq!["Name"@, "ProjectType"@, "Version"@, "ProjectGUID"@, "RootNamespace"@, "Keyword"@, "TargetFrameworkVersion"@]
}

/// The attributes of `VCProject` that are passed over.
pub open spec fn project_ignores() -> Seq<Seq<char>> {
    seq![]
}

/// Mathematical view of [`VCProject`].
pub struct VCProjectView {
    pub name: Seq<char>,
    pub project_type: Seq<char>,
    pub version: Seq<char>,
    pub guid: u128,
    pub root_namespace: Seq<char>,
    pub keyword: Option<Seq<char>>,
    pub target_framework_version: Seq<char>,
    pub platforms: Seq<Seq<char>>,
    pub configurations: Seq<ConfigurationView>,
    pub files: FilesView,
}

/// What the attributes of a `VCProject` element read as: the first attribute
/// that is not one of its own refuses it, then the first missing required
/// attribute, then any value that does not read as its kind.
pub open spec fn project_attrs_spec(attrs: Seq<(Seq<char>, Seq<char>)>) -> Result<VCProjectView, XmlErr> {
    match attr_values(attrs, project_names(), project_ignores()) {
        Err((n, v)) => Err(XmlErr::UnexpectedAttribute("VCProject"@, n, v)),
        Ok(vals) => {
            if vals[0] is None {
                Err(XmlErr::MissingAttribute("VCProject"@, "Name"@))
            } else if vals[1] is None {
                Err(XmlErr::MissingAttribute("VCProject"@, "ProjectType"@))
            } else if vals[2] is None {
                Err(XmlErr::MissingAttribute("VCProject"@, "Version"@))
            } else if vals[3] is None {
                Err(XmlErr::MissingAttribute("VCProject"@, "ProjectGUID"@))
            } else if vals[4] is None {
                Err(XmlErr::MissingAttribute("VCProject"@, "RootNamespace"@))
            } else if vals[6] is None {
                Err(XmlErr::MissingAttribute("VCProject"@, "TargetFrameworkVersion"@))
            } else if !project_values_ok(vals) {
                Err(project_values_err(vals))
            } else {
                Ok(project_view_of(vals))
            }
        },
    }
}

/// The `VCProject` that the attribute values make.
pub open spec fn project_view_of(vals: Seq<Option<Seq<char>>>) -> VCProjectView {
    VCProjectView {
        name: vals[0]->0,
        project_type: vals[1]->0,
        version: vals[2]->0,
        guid: guid_value(vals[3]->0)->0,
        root_namespace: vals[4]->0,
        keyword: vals[5],
        target_framework_version: vals[6]->0,
        platforms: Seq::empty(),
        configurations: Seq::empty(),
        files: FilesView { filters: Seq::empty(), files: Seq::empty() },
    }
}

/// Every present value of a `VCProject` reads as its kind.
pub open spec fn project_values_ok(vals: Seq<Option<Seq<char>>>) -> bool {
    &&& guid_value(vals[3]->0) is Some
}

/// The refusal of the first value of a `VCProject`, in field order, that does
/// not read as its kind (when one does not).
pub open spec fn project_values_err(vals: Seq<Option<Seq<char>>>) -> XmlErr {
    if !(guid_value(vals[3]->0) is Some) {
        XmlErr::InvalidGuid(vals[3]->0)
    } else {
        XmlErr::Malformed
    }
}

impl View for VCProject {
    type V = VCProjectView;

    open spec fn view(&self) -> VCProjectView {
        VCProjectView {
            name: self.name@,
            project_type: self.project_type@,
            version: self.version@,
            guid: self.guid,
            root_namespace: self.root_namespace@,
            keyword: opt_view(self.keyword),
            target_framework_version: self.target_framework_version@,
            platforms: self.platforms@.map_values(|x: Platform| x.name@),
            configurations: self.configurations@.map_values(|x: Configuration| x@),
            files: self.files@,
        }
    }
}

impl VCProject {
    /// Reads the attributes of a `VCProject` element (see [`project_attrs_spec`]).
    pub fn parse_xml_inner(node: &XmlNode) -> (r: Result<VCProject, VcprojError>)
        ensures
            match r {
                Ok(x) => project_attrs_spec(node@.attributes) matches Ok(y) && y == x@,
                Err(e) => project_attrs_spec(node@.attributes) matches Err(y) && y == err_view(e),
            },
    {
        let names = vec!["Name", "ProjectType", "Version", "ProjectGUID", "RootNamespace", "Keyword", "TargetFrameworkVersion"];
        let ignores: Vec<&str> = vec![];
        assert(strs_view(names@) =~= project_names());
        assert(strs_view(ignores@) =~= project_ignores());
        let vals = match read_attrs(&node.attributes, &names, &ignores) {
            Ok(v) => v,
            Err((n, v)) => {
                return Err(VcprojError::UnexpectedAttribute("VCProject".to_owned(), n, v));
            },
        };
        proof {
            lemma_attr_values_len(node@.attributes, project_names(), project_ignores());
        }
        assert(vals@.len() == 7);
        let ghost vv = opt_views(vals@);
        assert(forall|j: int| 0 <= j < 7 ==> vv[j] == opt_view(#[trigger] vals@[j]));
        if vals[0].is_none() {
            return Err(VcprojError::MissingAttribute("VCProject".to_owned(), "Name".to_owned()));
        }
        if vals[1].is_none() {
            return Err(VcprojError::MissingAttribute("VCProject".to_owned(), "ProjectType".to_owned()));
        }
        if vals[2].is_none() {
            return Err(VcprojError::MissingAttribute("VCProject".to_owned(), "Version".to_owned()));
        }
        if vals[3].is_none() {
            return Err(VcprojError::MissingAttribute("VCProject".to_owned(), "ProjectGUID".to_owned()));
        }
        if vals[4].is_none() {
            return Err(VcprojError::MissingAttribute("VCProject".to_owned(), "RootNamespace".to_owned()));
        }
        if vals[6].is_none() {
            return Err(VcprojError::MissingAttribute("VCProject".to_owned(), "TargetFrameworkVersion".to_owned()));
        }
        project_from_values(&vals)
    }
}

/// The `VCProject` that its attribute values make.
fn project_from_values(vals: &Vec<Option<String>>) -> (r: Result<VCProject, VcprojError>)
    requires
        vals@.len() == 7,
        vals@[0] is Some,
        vals@[1] is Some,
        vals@[2] is Some,
        vals@[3] is Some,
        vals@[4] is Some,
        vals@[6] is Some,
    ensures
        match r {
            Ok(x) => project_values_ok(opt_views(vals@)) && x@ == project_view_of(opt_views(vals@)),
            Err(e) => !project_values_ok(opt_views(vals@)) && err_view(e) == project_values_err(opt_views(vals@)),
        },
{
    let ghost vv = opt_views(vals@);
    assert(forall|j: int| 0 <= j < 7 ==> vv[j] == opt_view(#[trigger] vals@[j]));
    let name = match &vals[0] { Some(s) => s.clone(), None => String::new() };
    let project_type = match &vals[1] { Some(s) => s.clone(), None => String::new() };
    let version = match &vals[2] { Some(s) => s.clone(), None => String::new() };
    let guid = match &vals[3] {
        Some(s) => match parse_guid(s.as_str()) {
            Some(u) => u,
            None => {
                return Err(VcprojError::InvalidGuid(s.clone()));
            },
        },
        None => 0,
    };
    let root_namespace = match &vals[4] { Some(s) => s.clone(), None => String::new() };
    let keyword = clone_opt_string(&vals[5]);
    let target_framework_version = match &vals[6] { Some(s) => s.clone(), None => String::new() };
    let x = VCProject { name, project_type, version, guid, root_namespace, keyword, target_framework_version, platforms: Vec::new(), configurations: Vec::new(), files: Files { filters: Vec::new(), files: Vec::new() } };
    assert(x.platforms@.map_values(|y: Platform| y.name@) =~= Seq::<Seq<char>>::empty());
    assert(x.configurations@.map_values(|y: Configuration| y@) =~= Seq::<ConfigurationView>::empty());
    assert(filters_view(x.files.filters@) =~= Seq::<FilterView>::empty());
    assert(files_view(x.files.files@) =~= Seq::<FileView>::empty());
    Ok(x)
}

//
// The element tree
//

/// What reading an element gives: its value, a refusal, or an abort (a
/// file configuration with a second compiler tool, which the tool does not
/// support).
pub enum Read<T> {
    Done(T),
    Refused(VcprojError),
    Abort,
}

pub enum ReadSpec<T> {
    Done(T),
    Refused(XmlErr),
    Aborted,
}

impl<T: View> View for Read<T> {
    type V = ReadSpec<T::V>;

    open spec fn view(&self) -> ReadSpec<T::V> {
        match self {
            Read::Done(x) => ReadSpec::Done(x@),
            Read::Refused(e) => ReadSpec::Refused(err_view(*e)),
            Read::Abort => ReadSpec::Aborted,
        }
    }
}

/// Node `j` is an element child of node `i`.
pub open spec fn is_child(ns: Seq<XmlNodeView>, i: int, j: int) -> bool {
    0 <= i < ns.len() && 0 <= j < ns.len() && ns[j].element && ns[j].parent == Some(ns[i].id)
}

/// The compiler tools of a file configuration, from position `j` on: each
/// `Tool` child needs a `Name`; a second `VCCLCompilerTool` aborts.
pub open spec fn file_cfg_tools(
    ns: Seq<XmlNodeView>,
    i: int,
    j: int,
    have: Option<CompilerToolView>,
) -> ReadSpec<Option<CompilerToolView>>
    decreases ns.len() - j,
{
    if j < 0 || j >= ns.len() {
        ReadSpec::Done(have)
    } else if j <= i || !is_child(ns, i, j) || ns[j].name != "Tool"@ {
        file_cfg_tools(ns, i, j + 1, have)
    } else {
        match attr_named(ns[j].attributes, "Name"@) {
            None => ReadSpec::Refused(XmlErr::ToolWithoutName),
            Some(n) => if n == "VCCLCompilerTool"@ {
                if have is Some {
                    ReadSpec::Aborted
                } else {
                    match cl_attrs_spec(ns[j].attributes) {
                        Ok(t) => file_cfg_tools(ns, i, j + 1, Some(t)),
                        Err(e) => ReadSpec::Refused(e),
                    }
                }
            } else {
                file_cfg_tools(ns, i, j + 1, have)
            },
        }
    }
}

/// A `FileConfiguration` element: its attributes and its compiler tool.
pub open spec fn file_cfg_spec(ns: Seq<XmlNodeView>, i: int) -> ReadSpec<FileConfigurationView> {
    match file_cfg_attrs_spec(ns[i].attributes) {
        Err(e) => ReadSpec::Refused(e),
        Ok(base) => match file_cfg_tools(ns, i, i + 1, None) {
            ReadSpec::Done(t) => ReadSpec::Done(FileConfigurationView { tool: t, ..base }),
            ReadSpec::Refused(e) => ReadSpec::Refused(e),
            ReadSpec::Aborted => ReadSpec::Aborted,
        },
    }
}

/// The children of a `Files` or `Filter` element from position `j` on,
/// added to `fs` and `gs`: filters and files; anything else refuses it.
pub open spec fn filter_children(
    ns: Seq<XmlNodeView>,
    i: int,
    j: int,
    fs: Seq<FilterView>,
    gs: Seq<FileView>,
) -> ReadSpec<(Seq<FilterView>, Seq<FileView>)>
    decreases ns.len() - i, ns.len() - j,
{
    if i < 0 || j < 0 || j >= ns.len() {
        ReadSpec::Done((fs, gs))
    } else if j <= i || !is_child(ns, i, j) {
        filter_children(ns, i, j + 1, fs, gs)
    } else if ns[j].name == "Filter"@ {
        match filter_spec(ns, j) {
            ReadSpec::Done(f) => filter_children(ns, i, j + 1, fs.push(f), gs),
            ReadSpec::Refused(e) => ReadSpec::Refused(e),
            ReadSpec::Aborted => ReadSpec::Aborted,
        }
    } else if ns[j].name == "File"@ {
        match file_spec(ns, j) {
            ReadSpec::Done(g) => filter_children(ns, i, j + 1, fs, gs.push(g)),
            ReadSpec::Refused(e) => ReadSpec::Refused(e),
            ReadSpec::Aborted => ReadSpec::Aborted,
        }
    } else {
        ReadSpec::Refused(XmlErr::UnexpectedTag(ns[j].name))
    }
}

/// A `Filter` element: its attributes, its filters and its files.
pub open spec fn filter_spec(ns: Seq<XmlNodeView>, i: int) -> ReadSpec<FilterView>
    decreases ns.len() - i + 1, 0int,
{
    if i < 0 || i >= ns.len() {
        ReadSpec::Refused(XmlErr::Malformed)
    } else {
        match filter_attrs_spec(ns[i].attributes) {
            Err(e) => ReadSpec::Refused(e),
            Ok(base) => match filter_children(ns, i, i + 1, Seq::empty(), Seq::empty()) {
                ReadSpec::Done((fs, gs)) => ReadSpec::Done(FilterView { filters: fs, files: gs, ..base }),
                ReadSpec::Refused(e) => ReadSpec::Refused(e),
                ReadSpec::Aborted => ReadSpec::Aborted,
            },
        }
    }
}

/// The children of a `File` element from position `j` on, added to `cs`
/// and `gs`: file configurations and nested files; a `Tool` is passed over,
/// anything else refuses it.
pub open spec fn file_children(
    ns: Seq<XmlNodeView>,
    i: int,
    j: int,
    cs: Seq<FileConfigurationView>,
    gs: Seq<FileView>,
) -> ReadSpec<(Seq<FileConfigurationView>, Seq<FileView>)>
    decreases ns.len() - i, ns.len() - j,
{
    if i < 0 || j < 0 || j >= ns.len() {
        ReadSpec::Done((cs, gs))
    } else if j <= i || !is_child(ns, i, j) || ns[j].name == "Tool"@ {
        file_children(ns, i, j + 1, cs, gs)
    } else if ns[j].name == "FileConfiguration"@ {
        match file_cfg_spec(ns, j) {
            ReadSpec::Done(c) => file_children(ns, i, j + 1, cs.push(c), gs),
            ReadSpec::Refused(e) => ReadSpec::Refused(e),
            ReadSpec::Aborted => ReadSpec::Aborted,
        }
    } else if ns[j].name == "File"@ {
        match file_spec(ns, j) {
            ReadSpec::Done(g) => file_children(ns, i, j + 1, cs, gs.push(g)),
            ReadSpec::Refused(e) => ReadSpec::Refused(e),
            ReadSpec::Aborted => ReadSpec::Aborted,
        }
    } else {
        ReadSpec::Refused(XmlErr::UnexpectedTag(ns[j].name))
    }
}

/// A `File` element: its attributes, its configurations and nested files.
pub open spec fn file_spec(ns: Seq<XmlNodeView>, i: int) -> ReadSpec<FileView>
    decreases ns.len() - i + 1, 0int,
{
    if i < 0 || i >= ns.len() {
        ReadSpec::Refused(XmlErr::Malformed)
    } else {
        match file_attrs_spec(ns[i].attributes) {
            Err(e) => ReadSpec::Refused(e),
            Ok(base) => match file_children(ns, i, i + 1, Seq::empty(), Seq::empty()) {
                ReadSpec::Done((cs, gs)) => ReadSpec::Done(
                    FileView { file_configurations: cs, files: gs, ..base },
                ),
                ReadSpec::Refused(e) => ReadSpec::Refused(e),
                ReadSpec::Aborted => ReadSpec::Aborted,
            },
        }
    }
}

/// A `Files` element: its filters and its files.
pub open spec fn files_spec(ns: Seq<XmlNodeView>, i: int) -> ReadSpec<FilesView> {
    match filter_children(ns, i, i + 1, Seq::empty(), Seq::empty()) {
        ReadSpec::Done((fs, gs)) => ReadSpec::Done(FilesView { filters: fs, files: gs }),
        ReadSpec::Refused(e) => ReadSpec::Refused(e),
        ReadSpec::Aborted => ReadSpec::Aborted,
    }
}

pub proof fn lemma_filters_view_push(fs: Seq<Filter>, f: Filter)
    ensures
        filters_view(fs.push(f)) == filters_view(fs).push(filter_view(f)),
{
    assert(fs.push(f).drop_last() =~= fs);
}

pub proof fn lemma_files_view_push(fs: Seq<File>, f: File)
    ensures
        files_view(fs.push(f)) == files_view(fs).push(file_view(f)),
{
    assert(fs.push(f).drop_last() =~= fs);
}

impl FileConfiguration {
    /// A file configuration element and its compiler tool (see
    /// [`file_cfg_spec`]).
    pub fn parse_xml(ns: &Vec<XmlNode>, i: usize) -> (r: Read<FileConfiguration>)
        requires
            i < ns.len(),
        ensures
            r@ == file_cfg_spec(nodes_view(ns@), i as int),
    {
        let ghost nv = nodes_view(ns@);
        let mut this = match FileConfiguration::parse_xml_inner(&ns[i]) {
            Ok(x) => x,
            Err(e) => {
                return Read::Refused(e);
            },
        };
        let ghost base = this@;
        assert(nv[i as int] == ns@[i as int]@);
        let mut j = i + 1;
        while j < ns.len()
            invariant
                i < j <= ns.len(),
                nv == nodes_view(ns@),
                nv[i as int] == ns@[i as int]@,
                file_cfg_attrs_spec(nv[i as int].attributes) matches Ok(b) && b == base,
                this@ == (FileConfigurationView { tool: this@.tool, ..base }),
                file_cfg_tools(nv, i as int, i + 1, None) == file_cfg_tools(nv, i as int, j as int, this@.tool),
            decreases ns.len() - j,
        {
            assert(nv[j as int] == ns@[j as int]@);
            if ns[j].element && ns[j].parent == Some(ns[i].id) && str_eq(ns[j].name.as_str(), "Tool") {
                match attribute(&ns[j], "Name") {
                    None => {
                        return Read::Refused(VcprojError::ToolWithoutName);
                    },
                    Some(n) => {
                        if str_eq(n.as_str(), "VCCLCompilerTool") {
                            if this.tool.is_some() {
                                return Read::Abort;
                            }
                            match CompilerTool::parse_xml(&ns[j]) {
                                Ok(t) => {
                                    this.tool = Some(t);
                                },
                                Err(e) => {
                                    return Read::Refused(e);
                                },
                            }
                        }
                    },
                }
            }
            j += 1;
        }
        Read::Done(this)
    }
}

impl Filter {
    /// A filter element, its filters and its files (see [`filter_spec`]).
    pub fn parse_xml(ns: &Vec<XmlNode>, i: usize) -> (r: Read<Filter>)
        requires
            i < ns.len(),
        ensures
            r@ == filter_spec(nodes_view(ns@), i as int),
        decreases ns.len() - i, 1int,
    {
        let ghost nv = nodes_view(ns@);
        let mut this = match Filter::parse_xml_inner(&ns[i]) {
            Ok(x) => x,
            Err(e) => {
                return Read::Refused(e);
            },
        };
        let ghost base = this@;
        assert(nv[i as int] == ns@[i as int]@);
        let mut j = i + 1;
        while j < ns.len()
            invariant
                i < j <= ns.len(),
                nv == nodes_view(ns@),
                nv[i as int] == ns@[i as int]@,
                filter_attrs_spec(nv[i as int].attributes) matches Ok(b) && b == base,
                this@ == (FilterView { filters: this@.filters, files: this@.files, ..base }),
                filter_children(nv, i as int, i + 1, Seq::empty(), Seq::empty()) == filter_children(
                    nv,
                    i as int,
                    j as int,
                    this@.filters,
                    this@.files,
                ),
            decreases ns.len() - j,
        {
            assert(nv[j as int] == ns@[j as int]@);
            if ns[j].element && ns[j].parent == Some(ns[i].id) {
                if str_eq(ns[j].name.as_str(), "Filter") {
                    match Filter::parse_xml(ns, j) {
                        Read::Done(f) => {
                            proof {
                                lemma_filters_view_push(this.filters@, f);
                            }
                            this.filters.push(f);
                        },
                        Read::Refused(e) => {
                            return Read::Refused(e);
                        },
                        Read::Abort => {
                            return Read::Abort;
                        },
                    }
                } else if str_eq(ns[j].name.as_str(), "File") {
                    match File::parse_xml(ns, j) {
                        Read::Done(f) => {
                            proof {
                                lemma_files_view_push(this.files@, f);
                            }
                            this.files.push(f);
                        },
                        Read::Refused(e) => {
                            return Read::Refused(e);
                        },
                        Read::Abort => {
                            return Read::Abort;
                        },
                    }
                } else {
                    return Read::Refused(VcprojError::UnexpectedTag(ns[j].name.clone()));
                }
            }
            j += 1;
        }
        Read::Done(this)
    }
}

impl File {
    /// A file element, its configurations and nested files (see
    /// [`file_spec`]).
    pub fn parse_xml(ns: &Vec<XmlNode>, i: usize) -> (r: Read<File>)
        requires
            i < ns.len(),
        ensures
            r@ == file_spec(nodes_view(ns@), i as int),
        decreases ns.len() - i, 1int,
    {
        let ghost nv = nodes_view(ns@);
        let mut this = match File::parse_xml_inner(&ns[i]) {
            Ok(x) => x,
            Err(e) => {
                return Read::Refused(e);
            },
        };
        let ghost base = this@;
        assert(nv[i as int] == ns@[i as int]@);
        let mut j = i + 1;
        while j < ns.len()
            invariant
                i < j <= ns.len(),
                nv == nodes_view(ns@),
                nv[i as int] == ns@[i as int]@,
                file_attrs_spec(nv[i as int].attributes) matches Ok(b) && b == base,
                this@ == (FileView { file_configurations: this@.file_configurations, files: this@.files, ..base }),
                file_children(nv, i as int, i + 1, Seq::empty(), Seq::empty()) == file_children(
                    nv,
                    i as int,
                    j as int,
                    this@.file_configurations,
                    this@.files,
                ),
            decreases ns.len() - j,
        {
            assert(nv[j as int] == ns@[j as int]@);
            if ns[j].element && ns[j].parent == Some(ns[i].id) && !str_eq(ns[j].name.as_str(), "Tool") {
                if str_eq(ns[j].name.as_str(), "FileConfiguration") {
                    match FileConfiguration::parse_xml(ns, j) {
                        Read::Done(c) => {
                            let ghost before = this.file_configurations@;
                            this.file_configurations.push(c);
                            assert(this.file_configurations@.map_values(|y: FileConfiguration| y@) =~= before.map_values(
                                |y: FileConfiguration| y@,
                            ).push(c@));
                        },
                        Read::Refused(e) => {
                            return Read::Refused(e);
                        },
                        Read::Abort => {
                            return Read::Abort;
                        },
                    }
                } else if str_eq(ns[j].name.as_str(), "File") {
                    match File::parse_xml(ns, j) {
                        Read::Done(f) => {
                            proof {
                                lemma_files_view_push(this.files@, f);
                            }
                            this.files.push(f);
                        },
                        Read::Refused(e) => {
                            return Read::Refused(e);
                        },
                        Read::Abort => {
                            return Read::Abort;
                        },
                    }
                } else {
                    return Read::Refused(VcprojError::UnexpectedTag(ns[j].name.clone()));
                }
            }
            j += 1;
        }
        Read::Done(this)
    }
}

/// Whether an optional text is present and equal to `t`.
fn opt_is(o: &Option<String>, t: &str) -> (b: bool)
    ensures
        b == (opt_view(*o) == Some(t@)),
{
    match o {
        Some(n) => str_eq(n.as_str(), t),
        None => false,
    }
}

/// The tools of a configuration, from position `j` on: the last
/// `VCCLCompilerTool`, `VCLibrarianTool` and `VCLinkerTool` children win;
/// other tools are passed over.
pub open spec fn config_tools(ns: Seq<XmlNodeView>, i: int, j: int, acc: ConfigurationView) -> Result<
    ConfigurationView,
    XmlErr,
>
    decreases ns.len() - j,
{
    if j < 0 || j >= ns.len() {
        Ok(acc)
    } else if j <= i || !is_child(ns, i, j) || ns[j].name != "Tool"@ {
        config_tools(ns, i, j + 1, acc)
    } else {
        let a = ns[j].attributes;
        if attr_named(a, "Name"@) == Some("VCCLCompilerTool"@) {
            match cl_attrs_spec(a) {
                Ok(t) => config_tools(ns, i, j + 1, ConfigurationView { compiler_tool: Some(t), ..acc }),
                Err(e) => Err(e),
            }
        } else if attr_named(a, "Name"@) == Some("VCLibrarianTool"@) {
            match lib_attrs_spec(a) {
                Ok(t) => config_tools(ns, i, j + 1, ConfigurationView { lib_tool: Some(t), ..acc }),
                Err(e) => Err(e),
            }
        } else if attr_named(a, "Name"@) == Some("VCLinkerTool"@) {
            match link_attrs_spec(a) {
                Ok(t) => config_tools(ns, i, j + 1, ConfigurationView { linker_tool: Some(t), ..acc }),
                Err(e) => Err(e),
            }
        } else {
            config_tools(ns, i, j + 1, acc)
        }
    }
}

/// A `Configuration` element: its attributes and its tools.
pub open spec fn config_spec(ns: Seq<XmlNodeView>, i: int) -> Result<ConfigurationView, XmlErr> {
    match config_attrs_spec(ns[i].attributes) {
        Err(e) => Err(e),
        Ok(base) => config_tools(ns, i, i + 1, base),
    }
}

impl Configuration {
    /// A configuration element and its tools (see [`config_spec`]).
    pub fn parse_xml(ns: &Vec<XmlNode>, i: usize) -> (r: Result<Configuration, VcprojError>)
        requires
            i < ns.len(),
        ensures
            match r {
                Ok(x) => config_spec(nodes_view(ns@), i as int) matches Ok(y) && y == x@,
                Err(e) => config_spec(nodes_view(ns@), i as int) matches Err(y) && y == err_view(e),
            },
    {
        let ghost nv = nodes_view(ns@);
        let mut this = Configuration::parse_xml_inner(&ns[i])?;
        assert(nv[i as int] == ns@[i as int]@);
        let mut j = i + 1;
        while j < ns.len()
            invariant
                i < j <= ns.len(),
                nv == nodes_view(ns@),
                nv[i as int] == ns@[i as int]@,
                config_spec(nv, i as int) == config_tools(nv, i as int, j as int, this@),
            decreases ns.len() - j,
        {
            assert(nv[j as int] == ns@[j as int]@);
            if ns[j].element && ns[j].parent == Some(ns[i].id) && str_eq(ns[j].name.as_str(), "Tool") {
                let name = attribute(&ns[j], "Name");
                if opt_is(&name, "VCCLCompilerTool") {
                    let t = CompilerTool::parse_xml(&ns[j])?;
                    this.compiler_tool = Some(t);
                } else if opt_is(&name, "VCLibrarianTool") {
                    let t = LibTool::parse_xml(&ns[j])?;
                    this.lib_tool = Some(t);
                } else if opt_is(&name, "VCLinkerTool") {
                    let t = LinkerTool::parse_xml(&ns[j])?;
                    this.linker_tool = Some(t);
                }
            }
            j += 1;
        }
        Ok(this)
    }
}

/// The `Platform` children of node `p` from position `k` on, added to `acc`.
pub open spec fn platforms_of(ns: Seq<XmlNodeView>, p: int, k: int, acc: Seq<Seq<char>>) -> Result<
    Seq<Seq<char>>,
    XmlErr,
>
    decreases ns.len() - k,
{
    if k < 0 || k >= ns.len() {
        Ok(acc)
    } else if k <= p || !is_child(ns, p, k) || ns[k].name != "Platform"@ {
        platforms_of(ns, p, k + 1, acc)
    } else {
        match platform_attrs_spec(ns[k].attributes) {
            Ok(x) => platforms_of(ns, p, k + 1, acc.push(x)),
            Err(e) => Err(e),
        }
    }
}

/// The `Configuration` children of node `p` from position `k` on, added to
/// `acc`.
pub open spec fn configs_of(ns: Seq<XmlNodeView>, p: int, k: int, acc: Seq<ConfigurationView>) -> Result<
    Seq<ConfigurationView>,
    XmlErr,
>
    decreases ns.len() - k,
{
    if k < 0 || k >= ns.len() {
        Ok(acc)
    } else if k <= p || !is_child(ns, p, k) || ns[k].name != "Configuration"@ {
        configs_of(ns, p, k + 1, acc)
    } else {
        match config_spec(ns, k) {
            Ok(x) => configs_of(ns, p, k + 1, acc.push(x)),
            Err(e) => Err(e),
        }
    }
}

/// The children of the project element from position `j` on, read into
/// `acc`: platforms and configurations are added, a `Files` element replaces
/// the files, `ToolFiles` must be empty, `References` and `Globals` are
/// passed over, anything else refuses the project.
pub open spec fn project_children(ns: Seq<XmlNodeView>, r: int, j: int, acc: VCProjectView) -> ReadSpec<
    VCProjectView,
>
    decreases ns.len() - j,
{
    if j < 0 || j >= ns.len() {
        ReadSpec::Done(acc)
    } else if j <= r || !is_child(ns, r, j) {
        project_children(ns, r, j + 1, acc)
    } else {
        let name = ns[j].name;
        if name == "Platforms"@ {
            match platforms_of(ns, j, j + 1, acc.platforms) {
                Ok(ps) => project_children(ns, r, j + 1, VCProjectView { platforms: ps, ..acc }),
                Err(e) => ReadSpec::Refused(e),
            }
        } else if name == "Configurations"@ {
            match configs_of(ns, j, j + 1, acc.configurations) {
                Ok(cs) => project_children(ns, r, j + 1, VCProjectView { configurations: cs, ..acc }),
                Err(e) => ReadSpec::Refused(e),
            }
        } else if name == "Files"@ {
            match files_spec(ns, j) {
                ReadSpec::Done(f) => project_children(ns, r, j + 1, VCProjectView { files: f, ..acc }),
                ReadSpec::Refused(e) => ReadSpec::Refused(e),
                ReadSpec::Aborted => ReadSpec::Aborted,
            }
        } else if name == "ToolFiles"@ {
            if children(ns, j).len() > 0 {
                ReadSpec::Refused(XmlErr::NonEmptyToolFiles)
            } else {
                project_children(ns, r, j + 1, acc)
            }
        } else if name == "References"@ || name == "Globals"@ || name.len() == 0 {
            project_children(ns, r, j + 1, acc)
        } else {
            ReadSpec::Refused(XmlErr::UnexpectedTag(name))
        }
    }
}

/// The root element: the first element child of the document node.
pub open spec fn root_of(ns: Seq<XmlNodeView>) -> Option<int> {
    if ns.len() > 0 && children(ns, 0).len() > 0 {
        Some(children(ns, 0)[0])
    } else {
        None
    }
}

/// The project that the nodes of a document describe: the root must be
/// `VisualStudioProject`; its attributes, then its children.
pub open spec fn project_spec(ns: Seq<XmlNodeView>) -> ReadSpec<VCProjectView> {
    match root_of(ns) {
        None => ReadSpec::Refused(XmlErr::NotAProject),
        Some(r) => if ns[r].name != "VisualStudioProject"@ {
            ReadSpec::Refused(XmlErr::NotAProject)
        } else {
            match project_attrs_spec(ns[r].attributes) {
                Err(e) => ReadSpec::Refused(e),
                Ok(base) => project_children(ns, r, r + 1, base),
            }
        },
    }
}

impl Files {
    /// The filters and files of a `Files` element (see [`files_spec`]).
    pub fn parse_xml(ns: &Vec<XmlNode>, i: usize) -> (r: Read<Files>)
        requires
            i < ns.len(),
        ensures
            r@ == files_spec(nodes_view(ns@), i as int),
    {
        let ghost nv = nodes_view(ns@);
        let mut this = Files { filters: Vec::new(), files: Vec::new() };
        assert(filters_view(this.filters@) =~= Seq::<FilterView>::empty());
        assert(files_view(this.files@) =~= Seq::<FileView>::empty());
        let mut j = i + 1;
        while j < ns.len()
            invariant
                i < j <= ns.len(),
                nv == nodes_view(ns@),
                filter_children(nv, i as int, i + 1, Seq::empty(), Seq::empty()) == filter_children(
                    nv,
                    i as int,
                    j as int,
                    this@.filters,
                    this@.files,
                ),
            decreases ns.len() - j,
        {
            assert(nv[j as int] == ns@[j as int]@);
            assert(nv[i as int] == ns@[i as int]@);
            if ns[j].element && ns[j].parent == Some(ns[i].id) {
                if str_eq(ns[j].name.as_str(), "Filter") {
                    match Filter::parse_xml(ns, j) {
                        Read::Done(f) => {
                            proof {
                                lemma_filters_view_push(this.filters@, f);
                            }
                            this.filters.push(f);
                        },
                        Read::Refused(e) => {
                            return Read::Refused(e);
                        },
                        Read::Abort => {
                            return Read::Abort;
                        },
                    }
                } else if str_eq(ns[j].name.as_str(), "File") {
                    match File::parse_xml(ns, j) {
                        Read::Done(f) => {
                            proof {
                                lemma_files_view_push(this.files@, f);
                            }
                            this.files.push(f);
                        },
                        Read::Refused(e) => {
                            return Read::Refused(e);
                        },
                        Read::Abort => {
                            return Read::Abort;
                        },
                    }
                } else {
                    return Read::Refused(VcprojError::UnexpectedTag(ns[j].name.clone()));
                }
            }
            j += 1;
        }
        Read::Done(this)
    }
}

/// Adds the `Platform` children of node `p` to `out`.
fn platforms_at(ns: &Vec<XmlNode>, p: usize, out: &mut Vec<Platform>) -> (r: Result<(), VcprojError>)
    requires
        p < ns.len(),
    ensures
        match platforms_of(nodes_view(ns@), p as int, p + 1, old(out)@.map_values(|x: Platform| x.name@)) {
            Ok(ps) => r is Ok && final(out)@.map_values(|x: Platform| x.name@) == ps,
            Err(e) => r matches Err(x) && err_view(x) == e,
        },
{
    let ghost nv = nodes_view(ns@);
    let ghost start = old(out)@.map_values(|x: Platform| x.name@);
    let mut k = p + 1;
    while k < ns.len()
        invariant
            p < k <= ns.len(),
            nv == nodes_view(ns@),
            start == old(out)@.map_values(|x: Platform| x.name@),
            platforms_of(nv, p as int, p + 1, start) == platforms_of(
                nv,
                p as int,
                k as int,
                out@.map_values(|x: Platform| x.name@),
            ),
        decreases ns.len() - k,
    {
        assert(nv[k as int] == ns@[k as int]@);
        assert(nv[p as int] == ns@[p as int]@);
        if ns[k].element && ns[k].parent == Some(ns[p].id) && str_eq(ns[k].name.as_str(), "Platform") {
            let x = match Platform::parse_xml(&ns[k]) {
                Ok(x) => x,
                Err(e) => {
                    return Err(e);
                },
            };
            let ghost before = out@;
            out.push(x);
            assert(out@.map_values(|x: Platform| x.name@) =~= before.map_values(|x: Platform| x.name@).push(
                x.name@,
            ));
        }
        k += 1;
    }
    Ok(())
}

/// Adds the `Configuration` children of node `p` to `out`.
fn configs_at(ns: &Vec<XmlNode>, p: usize, out: &mut Vec<Configuration>) -> (r: Result<(), VcprojError>)
    requires
        p < ns.len(),
    ensures
        match configs_of(nodes_view(ns@), p as int, p + 1, old(out)@.map_values(|x: Configuration| x@)) {
            Ok(cs) => r is Ok && final(out)@.map_values(|x: Configuration| x@) == cs,
            Err(e) => r matches Err(x) && err_view(x) == e,
        },
{
    let ghost nv = nodes_view(ns@);
    let ghost start = old(out)@.map_values(|x: Configuration| x@);
    let mut k = p + 1;
    while k < ns.len()
        invariant
            p < k <= ns.len(),
            nv == nodes_view(ns@),
            start == old(out)@.map_values(|x: Configuration| x@),
            configs_of(nv, p as int, p + 1, start) == configs_of(
                nv,
                p as int,
                k as int,
                out@.map_values(|x: Configuration| x@),
            ),
        decreases ns.len() - k,
    {
        assert(nv[k as int] == ns@[k as int]@);
        assert(nv[p as int] == ns@[p as int]@);
        if ns[k].element && ns[k].parent == Some(ns[p].id) && str_eq(ns[k].name.as_str(), "Configuration") {
            let x = match Configuration::parse_xml(ns, k) {
                Ok(x) => x,
                Err(e) => {
                    return Err(e);
                },
            };
            let ghost before = out@;
            out.push(x);
            assert(out@.map_values(|x: Configuration| x@) =~= before.map_values(|x: Configuration| x@).push(
                x@,
            ));
        }
        k += 1;
    }
    Ok(())
}

impl VCProject {
    /// The project that the nodes of a document describe (see
    /// [`project_spec`]).
    pub fn from_xml(ns: &Vec<XmlNode>) -> (r: Read<VCProject>)
        ensures
            r@ == project_spec(nodes_view(ns@)),
    {
        let ghost nv = nodes_view(ns@);
        if ns.len() == 0 {
            return Read::Refused(VcprojError::NotAProject);
        }
        let top = child_elements(ns, 0);
        if top.len() == 0 {
            assert(top@.map_values(|k: usize| k as int).len() == 0);
            return Read::Refused(VcprojError::NotAProject);
        }
        let root = top[0];
        assert(top@.map_values(|k: usize| k as int)[0] == root as int);
        assert(nv[root as int] == ns@[root as int]@);
        if !str_eq(ns[root].name.as_str(), "VisualStudioProject") {
            return Read::Refused(VcprojError::NotAProject);
        }
        let mut this = match VCProject::parse_xml_inner(&ns[root]) {
            Ok(x) => x,
            Err(e) => {
                return Read::Refused(e);
            },
        };
        let mut j = root + 1;
        while j < ns.len()
            invariant
                root < j <= ns.len(),
                nv == nodes_view(ns@),
                nv[root as int] == ns@[root as int]@,
                project_spec(nv) == project_children(nv, root as int, j as int, this@),
            decreases ns.len() - j,
        {
            assert(nv[j as int] == ns@[j as int]@);
            if ns[j].element && ns[j].parent == Some(ns[root].id) {
                let name = ns[j].name.as_str();
                if str_eq(name, "Platforms") {
                    match platforms_at(ns, j, &mut this.platforms) {
                        Ok(()) => {},
                        Err(e) => {
                            return Read::Refused(e);
                        },
                    }
                } else if str_eq(name, "Configurations") {
                    match configs_at(ns, j, &mut this.configurations) {
                        Ok(()) => {},
                        Err(e) => {
                            return Read::Refused(e);
                        },
                    }
                } else if str_eq(name, "Files") {
                    match Files::parse_xml(ns, j) {
                        Read::Done(f) => {
                            this.files = f;
                        },
                        Read::Refused(e) => {
                            return Read::Refused(e);
                        },
                        Read::Abort => {
                            return Read::Abort;
                        },
                    }
                } else if str_eq(name, "ToolFiles") {
                    let inner = child_elements(ns, j);
                    if inner.len() > 0 {
                        return Read::Refused(VcprojError::NonEmptyToolFiles);
                    }
                } else if str_eq(name, "References") || str_eq(name, "Globals") || name.unicode_len() == 0 {
                } else {
                    return Read::Refused(VcprojError::UnexpectedTag(ns[j].name.clone()));
                }
            }
            j += 1;
        }
        Read::Done(this)
    }

    /// Reads a project file: the text must be well-formed XML, then see
    /// [`project_spec`].
    pub fn parse_xml(input: &str) -> (r: Result<VCProject, VcprojError>)
        requires
            xml_nodes(input@) matches Some(ns) ==> !(project_spec(ns) is Aborted),
        ensures
            match xml_nodes(input@) {
                None => r matches Err(e) && e is Xml,
                Some(ns) => match project_spec(ns) {
                    ReadSpec::Done(v) => r matches Ok(x) && x@ == v,
                    ReadSpec::Refused(e) => r matches Err(x) && err_view(x) == e,
                    ReadSpec::Aborted => false,
                },
            },
    {
        let ns = match read_nodes(input) {
            Ok(ns) => ns,
            Err(msg) => {
                return Err(VcprojError::Xml(msg));
            },
        };
        match VCProject::from_xml(&ns) {
            Read::Done(x) => Ok(x),
            Read::Refused(e) => Err(e),
            Read::Abort => Err(VcprojError::NotAProject),
        }
    }

    /// Reads a project file as [`VCProject::parse_xml`] does, but reports a
    /// project that the tool does not support (where that one has no
    /// defined result) as `None` in place of reading it.
    pub fn read_xml(input: &str) -> (r: Option<Result<VCProject, VcprojError>>)
        ensures
            r is None <==> (xml_nodes(input@) matches Some(ns) && project_spec(ns) is Aborted),
            r matches Some(x) ==> match xml_nodes(input@) {
                None => x matches Err(e) && e is Xml,
                Some(ns) => match project_spec(ns) {
                    ReadSpec::Done(v) => x matches Ok(p) && p@ == v,
                    ReadSpec::Refused(e) => x matches Err(p) && err_view(p) == e,
                    ReadSpec::Aborted => false,
                },
            },
    {
        match read_nodes(input) {
            Ok(ns) => {
                if let Read::Abort = VCProject::from_xml(&ns) {
                    return None;
                }
            },
            Err(_) => {},
        }
        Some(VCProject::parse_xml(input))
    }
}

} // verus!
