use vs2008_parser::sln::{
    sln_version, parse_string, Outcome, Project, ProjectConfigurationPlatforms, ProjectKind, Sln,
    SolutionConfigurationPlatform,
};

fn guid(s: &str) -> u128 {
    uuid::Uuid::parse_str(s).unwrap().as_u128()
}

#[test]
fn parses_sln_version() {
    let input = "Microsoft Visual Studio Solution File, Format Version 12.13";
    assert_eq!(sln_version(input).unwrap().1, (12, 13));
}

#[test]
fn parses_escaped_str() {
    let input = "\"hello\"";
    assert_eq!(parse_string(input).unwrap().1, "hello");
}

#[test]
fn parses_empty_project() {
    let input = r#"
Project("{2150E333-8FDC-42A3-9474-1A3956D46DE8}") = "survarium", "survarium", "{4E2399DA-D511-4F61-ACCB-894F87214FC5}"
EndProject
"#
    .trim();

    let project = Project::parse(input).unwrap().1;
    assert_eq!(project.name, "survarium");
    assert_eq!(project.path, "survarium");
    assert_eq!(project.kind, ProjectKind::Folder);
    assert_eq!(project.uuid, guid("{4E2399DA-D511-4F61-ACCB-894F87214FC5}"));
}

#[test]
fn parse_project() {
    let input = r#"
Project("{8BC9CEB8-8B4A-11D0-8D11-00A0C91BC942}") = "bugtrap", "BugTrap\BugTrap.vcproj", "{E8CF1ADA-264A-4127-86C2-FD7057D3792C}"
	ProjectSection(ProjectDependencies) = postProject
		{CA2604CA-A2AC-49A1-A468-8AB5A2E6CBC9} = {CA2604CA-A2AC-49A1-A468-8AB5A2E6CBC9}
		{893279CB-0805-405F-B484-9BB728A18261} = {893279CB-0805-405F-B484-9BB728A18261}
	EndProjectSection
EndProject
"#
    .trim();

    let project = Project::parse(input).unwrap().1;
    assert_eq!(project.name, "bugtrap");
    assert_eq!(project.path, "BugTrap\\BugTrap.vcproj");
    assert_eq!(project.section_dependencies.unwrap().deps.len(), 2);
}

#[test]
fn parse_configuration_platform() {
    let input = r#"
		Master Gold|Win32 = Master Gold|Win32
        "#
    .trim();
    let (i, conf) = SolutionConfigurationPlatform::parse(input).unwrap();

    assert_eq!(i, "");
    assert_eq!(conf.platform.0, "Master Gold|Win32");
}

#[test]
fn parse_configuration_platforms() {
    let input = r#"
            GlobalSection(ProjectConfigurationPlatforms) = postSolution
            	{A0327856-D686-4659-90B9-226877A9D11F}.Master Gold|Win32.ActiveCfg = Master Gold|Win32
            	{A0327856-D686-4659-90B9-226877A9D11F}.Master Gold|Win32.Build.0 = Master Gold|Win32
            	{E7FF01A9-20EA-431D-8EE5-71631F8C05A5}.Master Gold|Win32.ActiveCfg = Master Gold|Win32
            	{E7FF01A9-20EA-431D-8EE5-71631F8C05A5}.Master Gold|Win32.ActiveCfg = Master Gold|Win32
            EndGlobalSection
        "#
    .trim();
    let (i, conf) = ProjectConfigurationPlatforms::parse(input).unwrap();

    assert_eq!(i, "");
    assert_eq!(conf.platforms.len(), 3);
    assert_eq!(conf.platforms[0].is_enabled, true);
    assert_eq!(conf.platforms[1].is_enabled, false);
    assert_eq!(conf.platforms[2].is_enabled, false);
}

const SMALL_SLN: &str = "\u{FEFF}
Microsoft Visual Studio Solution File, Format Version 10.00
# Visual Studio 2008
Project(\"{8BC9CEB8-8B4A-11D0-8D11-00A0C91BC942}\") = \"app\", \"app\\app.vcproj\", \"{00000000-0000-0000-0000-000000000001}\"
	ProjectSection(ProjectDependencies) = postProject
		{00000000-0000-0000-0000-000000000002} = {00000000-0000-0000-0000-000000000002}
		{00000000-0000-0000-0000-000000000003} = {00000000-0000-0000-0000-000000000003}
	EndProjectSection
EndProject
Project(\"{8BC9CEB8-8B4A-11D0-8D11-00A0C91BC942}\") = \"core\", \"core\\core.vcproj\", \"{00000000-0000-0000-0000-000000000002}\"
	ProjectSection(ProjectDependencies) = postProject
		{00000000-0000-0000-0000-000000000003} = {00000000-0000-0000-0000-000000000003}
	EndProjectSection
EndProject
Project(\"{8BC9CEB8-8B4A-11D0-8D11-00A0C91BC942}\") = \"base\", \"base\\base.vcproj\", \"{00000000-0000-0000-0000-000000000003}\"
EndProject
Global
	GlobalSection(SolutionConfigurationPlatforms) = preSolution
		Release|Win32 = Release|Win32
	EndGlobalSection
	GlobalSection(ProjectConfigurationPlatforms) = postSolution
		{00000000-0000-0000-0000-000000000001}.Release|Win32.ActiveCfg = Release|Win32
		{00000000-0000-0000-0000-000000000001}.Release|Win32.Build.0 = Release|Win32
	EndGlobalSection
	GlobalSection(SolutionProperties) = preSolution
		HideSolutionNode = FALSE
	EndGlobalSection
	GlobalSection(NestedProjects) = preSolution
	EndGlobalSection
EndGlobal
";

#[test]
fn parses_a_whole_solution() {
    let (rest, sln) = Sln::parse(SMALL_SLN).unwrap();
    assert_eq!(rest, "");
    assert_eq!(sln.projects.len(), 3);
    assert_eq!(sln.projects[1].name, "core");
    assert_eq!(sln.projects[0].path, "app\\app.vcproj");
    assert_eq!(sln.global.sln_platforms.platforms.len(), 1);
    assert_eq!(sln.global.cfg_platforms.platforms.len(), 1);
    assert!(sln.global.cfg_platforms.platforms[0].is_enabled);
    assert!(!sln.global.sln_properties.hide_solution_node);
    assert_eq!(sln.global.nested_projects.projects.len(), 0);
}

#[test]
fn dependencies_come_least_specific_first() {
    let (_, sln) = Sln::parse(SMALL_SLN).unwrap();
    let deps = sln.find_project_dependencies("app").unwrap();
    let names: Vec<&str> = deps.iter().map(|p| p.name.as_str()).collect();
    // app needs core and base, core needs base: each comes after what it needs.
    assert_eq!(names, vec!["base", "core", "app"]);
    let deps = sln.find_project_dependencies("base").unwrap();
    assert_eq!(deps.len(), 1);
    assert!(sln.find_project_dependencies("missing").is_none());
}

#[test]
fn unsupported_versions_are_reported() {
    let other_vs = SMALL_SLN.replace("# Visual Studio 2008", "# Visual Studio 2010");
    assert!(matches!(Sln::read(&other_vs), Outcome::Abort));
    let other_format = SMALL_SLN.replace("Format Version 10.00", "Format Version 11.01");
    assert!(matches!(Sln::read(&other_format), Outcome::Abort));
    // one of the two numbers as expected is enough
    let minor_only = SMALL_SLN.replace("Format Version 10.00", "Format Version 9.00");
    assert!(matches!(Sln::read(&minor_only), Outcome::Matched(_, _)));
    assert!(matches!(Sln::read("garbage"), Outcome::Fail));
}

#[test]
fn unknown_project_kind_is_reported() {
    let text = SMALL_SLN.replacen("8BC9CEB8-8B4A-11D0-8D11-00A0C91BC942", "11111111-8B4A-11D0-8D11-00A0C91BC942", 1);
    assert!(matches!(Sln::read(&text), Outcome::Abort));
}

#[test]
fn build_line_of_another_project_is_reported() {
    let text = SMALL_SLN.replace(
        "{00000000-0000-0000-0000-000000000001}.Release|Win32.Build.0",
        "{00000000-0000-0000-0000-000000000002}.Release|Win32.Build.0",
    );
    assert!(matches!(Sln::read(&text), Outcome::Abort));
}

#[test]
fn configuration_and_platform_split_at_the_bar() {
    let (_, conf) = SolutionConfigurationPlatform::parse("Master Gold|Win32 = Master Gold|Win32").unwrap();
    let (c, p) = conf.platform.configuration_n_platform();
    assert_eq!(c, "Master Gold");
    assert_eq!(p, "Win32");
}

#[test]
fn guid_text_is_read_by_value() {
    let input = "Project(\"{2150E333-8FDC-42A3-9474-1A3956D46DE8}\") = \"a\", \"b\", \"{4e2399da-d511-4f61-accb-894f87214fc5}\"\nEndProject";
    let project = Project::parse(input).unwrap().1;
    assert_eq!(project.uuid, 0x4E2399DA_D511_4F61_ACCB_894F87214FC5u128);
}
