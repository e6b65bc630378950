use vs2008_parser::tool_cl::{Optimization, RuntimeLibrary};
use vs2008_parser::values::VcprojError;
use vs2008_parser::vcproj::{ConfigurationType, VCProject};

const PROJECT: &str = r#"<?xml version="1.0" encoding="Windows-1252"?>
<VisualStudioProject
	ProjectType="Visual C++"
	Version="9,00"
	Name="core"
	ProjectGUID="{A0327856-D686-4659-90B9-226877A9D11F}"
	RootNamespace="core"
	Keyword="Win32Proj"
	TargetFrameworkVersion="131072"
	>
	<Platforms>
		<Platform
			Name="Win32"
		/>
	</Platforms>
	<ToolFiles>
	</ToolFiles>
	<Configurations>
		<Configuration
			Name="Release|Win32"
			OutputDirectory="$(SolutionDir)out"
			IntermediateDirectory="$(SolutionDir)int\$(ProjectName)"
			ConfigurationType="4"
			CharacterSet="2"
			WholeProgramOptimization="1"
			>
			<Tool
				Name="VCPreBuildEventTool"
			/>
			<Tool
				Name="VCCLCompilerTool"
				Optimization="2"
				RuntimeLibrary="0"
				PreprocessorDefinitions="WIN32;NDEBUG;_LIB"
				ExecutionBucket="7"
			/>
			<Tool
				Name="VCLibrarianTool"
				OutputFile="$(OutDir)\core.lib"
			/>
		</Configuration>
	</Configurations>
	<References>
	</References>
	<Files>
		<Filter
			Name="Source Files"
			Filter="cpp;c"
			>
			<File
				RelativePath=".\a.cpp"
				>
				<FileConfiguration
					Name="Release|Win32"
					>
					<Tool
						Name="VCCLCompilerTool"
						Optimization="0"
					/>
				</FileConfiguration>
			</File>
			<File
				RelativePath=".\b.cpp"
				>
			</File>
		</Filter>
		<File
			RelativePath=".\readme.txt"
			FileType="3"
			>
		</File>
	</Files>
	<Globals>
	</Globals>
</VisualStudioProject>
"#;

#[test]
fn reads_a_project_file() {
    let p = VCProject::parse_xml(PROJECT).unwrap();
    assert_eq!(p.name, "core");
    assert_eq!(p.project_type, "Visual C++");
    assert_eq!(p.version, "9,00");
    assert_eq!(p.guid, 0xA0327856_D686_4659_90B9_226877A9D11Fu128);
    assert_eq!(p.keyword.as_deref(), Some("Win32Proj"));
    assert_eq!(p.platforms.len(), 1);
    assert_eq!(p.platforms[0].name, "Win32");
    assert_eq!(p.configurations.len(), 1);
    let c = &p.configurations[0];
    assert_eq!(c.name, "Release|Win32");
    assert_eq!(c.configuration_type, ConfigurationType::_4);
    assert_eq!(c.whole_program_optimization, Some(true));
    let cl = c.compiler_tool.as_ref().unwrap();
    assert_eq!(cl.optimization, Some(Optimization::_2));
    assert_eq!(cl.runtime_library, Some(RuntimeLibrary::_0));
    assert_eq!(
        cl.preprocessor_definitions.clone().unwrap(),
        vec!["WIN32".to_string(), "NDEBUG".to_string(), "_LIB".to_string()]
    );
    assert_eq!(c.lib_tool.as_ref().unwrap().output_file.as_deref(), Some("$(OutDir)\\core.lib"));
    assert!(c.linker_tool.is_none());
    assert_eq!(p.files.filters.len(), 1);
    assert_eq!(p.files.filters[0].name, "Source Files");
    assert_eq!(p.files.filters[0].filter.clone().unwrap(), vec!["cpp".to_string(), "c".to_string()]);
    assert_eq!(p.files.filters[0].files.len(), 2);
    let a = &p.files.filters[0].files[0];
    assert_eq!(a.relative_path, ".\\a.cpp");
    assert_eq!(a.file_configurations.len(), 1);
    assert_eq!(
        a.file_configurations[0].tool.as_ref().unwrap().optimization,
        Some(Optimization::_0)
    );
    assert_eq!(p.files.files.len(), 1);
    assert_eq!(p.files.files[0].file_type, Some(3));
}

#[test]
fn refuses_what_it_does_not_know() {
    let bad_attr = PROJECT.replace("Keyword=\"Win32Proj\"", "Keywords=\"Win32Proj\"");
    match VCProject::parse_xml(&bad_attr) {
        Err(VcprojError::UnexpectedAttribute(e, a, v)) => {
            assert_eq!(e, "VCProject");
            assert_eq!(a, "Keywords");
            assert_eq!(v, "Win32Proj");
        }
        other => panic!("{other:?}"),
    }
    let missing = PROJECT.replace("RootNamespace=\"core\"", "");
    match VCProject::parse_xml(&missing) {
        Err(VcprojError::MissingAttribute(e, a)) => {
            assert_eq!(e, "VCProject");
            assert_eq!(a, "RootNamespace");
        }
        other => panic!("{other:?}"),
    }
    let bad_flag = PROJECT.replace("Optimization=\"2\"", "Optimization=\"9\"");
    assert!(matches!(VCProject::parse_xml(&bad_flag), Err(VcprojError::InvalidFlag(_, 9))));
    let bad_bool = PROJECT.replace("WholeProgramOptimization=\"1\"", "WholeProgramOptimization=\"yes\"");
    assert!(matches!(VCProject::parse_xml(&bad_bool), Err(VcprojError::InvalidBool(_))));
    let bad_guid = PROJECT.replace("{A0327856-D686-4659-90B9-226877A9D11F}", "{not-a-guid}");
    assert!(matches!(VCProject::parse_xml(&bad_guid), Err(VcprojError::InvalidGuid(_))));
    let tag = PROJECT.replace("<References>", "<Surprise>").replace("</References>", "</Surprise>");
    match VCProject::parse_xml(&tag) {
        Err(VcprojError::UnexpectedTag(t)) => assert_eq!(t, "Surprise"),
        other => panic!("{other:?}"),
    }
    let tools = PROJECT.replace("<ToolFiles>", "<ToolFiles><ToolFile Path=\"x\"/>");
    assert!(matches!(VCProject::parse_xml(&tools), Err(VcprojError::NonEmptyToolFiles)));
    assert!(matches!(VCProject::parse_xml("<Solution/>"), Err(VcprojError::NotAProject)));
    assert!(matches!(VCProject::parse_xml("<VisualStudioProject"), Err(VcprojError::Xml(_))));
}

#[test]
fn a_tool_without_name_is_refused() {
    let text = PROJECT.replacen(
        "<Tool\n\t\t\t\t\t\tName=\"VCCLCompilerTool\"",
        "<Tool\n\t\t\t\t\t\tNaming=\"VCCLCompilerTool\"",
        1,
    );
    assert!(matches!(VCProject::parse_xml(&text), Err(VcprojError::ToolWithoutName)));
}

#[test]
fn a_second_compiler_tool_of_a_file_is_not_read() {
    let text = PROJECT.replace(
        "Optimization=\"0\"\n\t\t\t\t\t/>",
        "Optimization=\"0\"\n\t\t\t\t\t/>\n\t\t\t\t\t<Tool Name=\"VCCLCompilerTool\"/>",
    );
    assert!(VCProject::read_xml(&text).is_none());
    assert!(VCProject::read_xml(PROJECT).unwrap().is_ok());
}

#[test]
fn value_errors_name_the_value() {
    let bad_flag = PROJECT.replace("Optimization=\"2\"", "Optimization=\"9\"");
    match VCProject::parse_xml(&bad_flag) {
        Err(VcprojError::InvalidFlag(kind, v)) => {
            assert_eq!(kind, "Optimization");
            assert_eq!(v, 9);
        }
        other => panic!("{other:?}"),
    }
    let not_a_number = PROJECT.replace("Optimization=\"2\"", "Optimization=\"fast\"");
    match VCProject::parse_xml(&not_a_number) {
        Err(VcprojError::InvalidInt(t)) => assert_eq!(t, "fast"),
        other => panic!("{other:?}"),
    }
    let bad_bool = PROJECT.replace("WholeProgramOptimization=\"1\"", "WholeProgramOptimization=\"yes\"");
    match VCProject::parse_xml(&bad_bool) {
        Err(VcprojError::InvalidBool(t)) => assert_eq!(t, "yes"),
        other => panic!("{other:?}"),
    }
    let bad_guid = PROJECT.replace("{A0327856-D686-4659-90B9-226877A9D11F}", "{not-a-guid}");
    match VCProject::parse_xml(&bad_guid) {
        Err(VcprojError::InvalidGuid(t)) => assert_eq!(t, "{not-a-guid}"),
        other => panic!("{other:?}"),
    }
}
