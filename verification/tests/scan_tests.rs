use std::collections::HashMap;

use vs2008_parser::scan::{scan_translation_units, FileCache, ScanRequest, ScanResult};
use vs2008_parser::env::{env_ok_check, MsBuildEnvironment};
use vs2008_parser::flags::Flags;
use vs2008_parser::generate::header_deps;
use vs2008_parser::ninja::{FinalStep, NinjaFile};
use vs2008_parser::paths::to_native;
use vs2008_parser::tool_cl::cl_cfg_ok_check;
use vs2008_parser::vcproj::VCProject;

/// Runs a scan over an in-memory file system: `files` maps a path to its text.
fn run_scan(files: &[(&str, &str)], sources: &[&str], include_dirs: &[&str], defines: &[&str]) -> ScanResult {
    let fs: HashMap<String, String> = files.iter().map(|(p, t)| (p.to_string(), t.to_string())).collect();
    let sources: Vec<String> = sources.iter().map(|s| s.to_string()).collect();
    let include_dirs: Vec<String> = include_dirs.iter().map(|s| s.to_string()).collect();
    let defines: Vec<String> = defines.iter().map(|s| s.to_string()).collect();
    let mut cache = FileCache::new();
    let mut scanner = scan_translation_units(&sources, &include_dirs, &defines);
    let mut steps = 0usize;
    loop {
        steps += 1;
        assert!(steps < 10_000, "the scan does not end");
        match scanner.next_request() {
            ScanRequest::Read(path) => {
                let content = match cache.get(&path) {
                    Some(c) => c,
                    None => {
                        let c = fs.get(&host(&path)).cloned();
                        cache.insert(path.clone(), c.clone());
                        c
                    }
                };
                scanner.give_content(content);
            }
            ScanRequest::IsFile(path) => scanner.give_is_file(fs.contains_key(&host(&path))),
            ScanRequest::Busy => {}
            ScanRequest::Done => break,
        }
    }
    scanner.result()
}

/// The scanner works on Windows paths; the in-memory file system is keyed
/// by forward-slash paths.
fn host(p: &str) -> String {
    p.replace('\\', "/")
}

fn host_headers(result: &ScanResult) -> Vec<String> {
    result.headers.iter().map(|p| host(p)).collect()
}

fn file_names(result: &ScanResult) -> Vec<String> {
    host_headers(result).iter().map(|p| p.rsplit('/').next().unwrap().to_string()).collect()
}

#[test]
fn scans_transitive_headers_respecting_if_zero() {
    let result = run_scan(
        &[
            ("/pp/a.h", "#include \"b.h\"\n"),
            ("/pp/b.h", "// leaf\n"),
            ("/pp/dead.h", "// must not be picked up\n"),
            (
                "/pp/root.cpp",
                "#include \"a.h\"\n#if 0\n#include \"dead.h\"\n#endif\n#pragma comment(lib, \"z.lib\")\n",
            ),
        ],
        &["/pp/root.cpp"],
        &["/pp"],
        &[],
    );
    let names = file_names(&result);
    assert!(names.contains(&"a.h".to_string()), "a.h should be a dependency");
    assert!(names.contains(&"b.h".to_string()), "b.h (transitive) should be a dependency");
    assert!(!names.contains(&"dead.h".to_string()), "#if 0 block must be pruned");
    assert_eq!(result.pragma_libs, vec!["z.lib".to_string()]);
}

#[test]
fn unknown_conditional_is_traversed() {
    let result = run_scan(
        &[
            ("/pp2/maybe.h", "// conditional leaf\n"),
            ("/pp2/root.cpp", "#ifdef SOME_UNKNOWN_MACRO\n#include \"maybe.h\"\n#endif\n"),
        ],
        &["/pp2/root.cpp"],
        &["/pp2"],
        &[],
    );
    assert!(
        file_names(&result).contains(&"maybe.h".to_string()),
        "unknown #ifdef must be traversed (over-approximate)"
    );
}

#[test]
fn unknown_directives_are_reported() {
    let result = run_scan(
        &[("/unk/root.cpp", "#define X 1\n#import \"legacy.tlb\"\n#import \"other.tlb\"\n")],
        &["/unk/root.cpp"],
        &["/unk"],
        &[],
    );
    assert_eq!(result.unknown_directives.len(), 1);
    assert_eq!(result.unknown_directives[0].keyword, "import");
    assert!(result.unknown_directives[0].line.contains("legacy.tlb"));
}

#[test]
fn headers_are_listed_once_and_sources_are_not_headers() {
    let result = run_scan(
        &[
            ("/d/x.h", "#pragma once\n"),
            ("/d/one.cpp", "#include \"x.h\"\n#include \"x.h\"\n"),
            ("/d/two.cpp", "#include \"x.h\"\n"),
        ],
        &["/d/one.cpp", "/d/two.cpp"],
        &[],
        &[],
    );
    assert_eq!(host_headers(&result), vec!["/d/x.h".to_string()]);
}

#[test]
fn includes_are_searched_in_the_include_dirs() {
    let result = run_scan(
        &[
            ("/inc/lib.h", "// library\n"),
            ("/src/main.cpp", "#include <lib.h>\n#include \"missing.h\"\n"),
        ],
        &["/src/main.cpp"],
        &["/inc"],
        &[],
    );
    assert_eq!(host_headers(&result), vec!["/inc/lib.h".to_string()]);
}

#[test]
fn defines_select_the_branch() {
    let files = [
        ("/m/on.h", "// on\n"),
        ("/m/off.h", "// off\n"),
        ("/m/root.cpp", "#if FEATURE == 2\n#include \"on.h\"\n#else\n#include \"off.h\"\n#endif\n"),
    ];
    let with = run_scan(&files, &["/m/root.cpp"], &[], &["FEATURE=2"]);
    assert_eq!(host_headers(&with), vec!["/m/on.h".to_string()]);
    let without = run_scan(&files, &["/m/root.cpp"], &[], &["FEATURE=3"]);
    assert_eq!(host_headers(&without), vec!["/m/off.h".to_string()]);
}

#[test]
fn unreadable_sources_give_nothing() {
    let result = run_scan(&[], &["/nowhere/root.cpp"], &[], &[]);
    assert!(result.headers.is_empty());
    assert!(result.pragma_libs.is_empty());
    assert!(result.unknown_directives.is_empty());
}

#[test]
fn header_dependencies_reach_generated_ninja() {

    let proj_dir = "/e2e/proj";
    let vcproj_xml = r#"<?xml version="1.0" encoding="Windows-1252"?>
<VisualStudioProject ProjectType="Visual C++" Version="9,00" Name="myproject"
    ProjectGUID="{00000000-0000-0000-0000-000000000001}" RootNamespace="myproject"
    TargetFrameworkVersion="196613">
    <Platforms><Platform Name="Win32"/></Platforms>
    <Configurations>
        <Configuration Name="Release|Win32" OutputDirectory="/e2e/int"
            IntermediateDirectory="/e2e/int" ConfigurationType="4">
            <Tool Name="VCCLCompilerTool" AdditionalIncludeDirectories="/e2e/inc"/>
            <Tool Name="VCLibrarianTool" OutputFile="/e2e/int/myproject.lib"/>
        </Configuration>
    </Configurations>
    <Files>
        <File RelativePath=".\main.cpp"/>
    </Files>
</VisualStudioProject>"#;

    let vcproj = VCProject::read_xml(vcproj_xml).expect("supported").expect("parsed");
    let cfg = &vcproj.configurations[0];
    assert!(env_ok_check(cfg));
    let env = MsBuildEnvironment::get(&vcproj.name, cfg, "/sln/");
    let cl = cfg.compiler_tool.as_ref().unwrap();
    assert!(cl_cfg_ok_check(cfg));
    let mut cl_flags = cl.to_flags(cfg, &vcproj, &env);

    let files = [
        ("/e2e/proj/main.cpp", "#include \"shared.h\"\n#if 0\n#include \"dead.h\"\n#endif\n"),
        ("/e2e/inc/shared.h", "#include \"deep.h\"\n"),
        ("/e2e/inc/deep.h", "// leaf\n"),
        ("/e2e/inc/dead.h", "// must be pruned\n"),
    ];
    for group in &mut cl_flags {
        let include_dirs: Vec<String> = group.include_dirs.iter().map(|d| to_native(d, proj_dir)).collect();
        let sources: Vec<String> = group.flags.files.iter().map(|f| to_native(f, proj_dir)).collect();
        let incs: Vec<&str> = include_dirs.iter().map(|s| s.as_str()).collect();
        let srcs: Vec<&str> = sources.iter().map(|s| s.as_str()).collect();
        let defs: Vec<&str> = group.defines.iter().map(|s| s.as_str()).collect();
        let result = run_scan(&files, &srcs, &incs, &defs);
        group.header_deps = header_deps(&result.headers, false);
    }

    let ninja_file = NinjaFile {
        cl: cl_flags,
        final_step: FinalStep::Lib(Flags {
            output_file: "/e2e/int/myproject.lib".to_string(),
            import_library: None,
            flags: "@$(RspFile)".to_string(),
            rsp_flags: String::new(),
            files: vec![],
        }),
        proj_dir: proj_dir.to_string(),
        depends_on: vec![],
    };
    assert!(ninja_file.write_ok_check());
    let text = ninja_file.write("myproject", "/e2e/rsp").ninja_text;
    assert!(text.contains("/e2e/inc/shared.h"), "shared.h must be an implicit input:\n{text}");
    assert!(text.contains("/e2e/inc/deep.h"), "deep.h (transitive) must be an implicit input:\n{text}");
    assert!(!text.contains("/e2e/inc/dead.h"), "dead.h behind #if 0 must be pruned:\n{text}");
}

#[test]
fn sources_with_equal_settings_share_one_step() {
    let xml = r#"<?xml version="1.0" encoding="Windows-1252"?>
<VisualStudioProject ProjectType="Visual C++" Version="9,00" Name="grp"
    ProjectGUID="{00000000-0000-0000-0000-000000000002}" RootNamespace="grp"
    TargetFrameworkVersion="196613">
    <Platforms><Platform Name="Win32"/></Platforms>
    <Configurations>
        <Configuration Name="Release|Win32" OutputDirectory="/g/int"
            IntermediateDirectory="/g/int" ConfigurationType="4">
            <Tool Name="VCCLCompilerTool" Optimization="2" AdditionalOptions="/MP /Zm200"/>
            <Tool Name="VCLibrarianTool" OutputFile="/g/int/grp.lib"/>
        </Configuration>
    </Configurations>
    <Files>
        <File RelativePath=".\a.cpp"/>
        <File RelativePath=".\b.cpp">
            <FileConfiguration Name="Release|Win32">
                <Tool Name="VCCLCompilerTool" Optimization="2"/>
            </FileConfiguration>
        </File>
        <File RelativePath=".\c.cpp"/>
    </Files>
</VisualStudioProject>"#;
    let vcproj = VCProject::read_xml(xml).expect("supported").expect("parsed");
    let cfg = &vcproj.configurations[0];
    assert!(env_ok_check(cfg));
    let env = MsBuildEnvironment::get(&vcproj.name, cfg, "/sln/");
    let cl = cfg.compiler_tool.as_ref().unwrap();
    assert!(cl_cfg_ok_check(cfg));
    let groups = cl.to_flags(cfg, &vcproj, &env);
    let mut all: Vec<String> = groups.iter().flat_map(|g| g.flags.files.clone()).collect();
    all.sort();
    assert_eq!(all, vec![".\\a.cpp".to_string(), ".\\b.cpp".to_string(), ".\\c.cpp".to_string()]);
    let with_a: Vec<_> = groups.iter().filter(|g| g.flags.files.contains(&".\\a.cpp".to_string())).collect();
    assert_eq!(with_a.len(), 1);
    assert!(with_a[0].flags.files.contains(&".\\b.cpp".to_string()));
    // /MP is dropped from the additional options, the rest is kept.
    let words: Vec<&str> = with_a[0].flags.rsp_flags.split_whitespace().collect();
    assert!(words.contains(&"/Zm200"));
    assert!(!words.contains(&"/MP"));
}

#[test]
fn object_directory_flag_sits_between_pch_and_pdb() {
    let xml = r#"<?xml version="1.0" encoding="Windows-1252"?>
<VisualStudioProject ProjectType="Visual C++" Version="9,00" Name="fo"
    ProjectGUID="{00000000-0000-0000-0000-000000000003}" RootNamespace="fo"
    TargetFrameworkVersion="196613">
    <Platforms><Platform Name="Win32"/></Platforms>
    <Configurations>
        <Configuration Name="Release|Win32" OutputDirectory="C:\out"
            IntermediateDirectory="C:\int" ConfigurationType="4">
            <Tool Name="VCCLCompilerTool" Optimization="2"/>
            <Tool Name="VCLibrarianTool" OutputFile="C:\out\fo.lib"/>
        </Configuration>
    </Configurations>
    <Files><File RelativePath=".\a.cpp"/></Files>
</VisualStudioProject>"#;
    let vcproj = VCProject::read_xml(xml).expect("supported").expect("parsed");
    let cfg = &vcproj.configurations[0];
    assert!(env_ok_check(cfg));
    let env = MsBuildEnvironment::get(&vcproj.name, cfg, "C:\\sln\\");
    let cl = cfg.compiler_tool.as_ref().unwrap();
    assert!(cl_cfg_ok_check(cfg));
    let plain = cl.to_flags_impl(cfg, &env);
    let with = cl.to_flags_impl_with_object_file(cfg, &env);
    assert!(with.contains(" /Fo\"C:\\int\\\""), "{with}");
    assert_eq!(with.replace(" /Fo\"C:\\int\\\"", ""), plain);
    let fo = with.find("/Fo").unwrap();
    let fd = with.find("/Fd").unwrap();
    assert!(fo < fd);
}
