use std::collections::{HashMap, HashSet};
use vs2008_parser::cache::{cached_headers, diff_rows, headers_record, is_header, is_skipped_dir, is_tracked_ext, old_record_headers};
use vs2008_parser::compdb::{
    compile_commands, entry_tail, include_dirs_of, json_escape, overlay_dir_entry, overlay_document,
    overlay_file_entry, overlay_skips, parse_cl_args, translate_flags, ClArg,
};
use vs2008_parser::generate::{collect_transitive_deps, header_deps, sorted_unique, subninja_text, unique_stem};
use vs2008_parser::flags::Flags;
use vs2008_parser::generate::{add_link_inputs, linkable_check};
use vs2008_parser::cache::{all_distinct, insert_unique};

fn strings(v: &[&str]) -> Vec<String> {
    v.iter().map(|s| s.to_string()).collect()
}

#[test]
fn transitive_deps_stop_at_dlls() {
    // 1 -> [2, 3]; 2 (lib) -> [4]; 3 (dll) -> [5]; 4 (lib) -> [2]
    let mut projects: HashMap<u128, Vec<u128>> = HashMap::new();
    projects.insert(1, vec![2, 3]);
    projects.insert(2, vec![4]);
    projects.insert(3, vec![5]);
    projects.insert(4, vec![2]);
    let mut outputs: HashMap<u128, String> = HashMap::new();
    outputs.insert(2, "two.lib".into());
    outputs.insert(3, "three.lib".into());
    outputs.insert(4, "four.lib".into());
    outputs.insert(5, "five.lib".into());
    let mut libs: HashMap<u128, bool> = HashMap::new();
    libs.insert(2, true);
    libs.insert(3, false);
    libs.insert(4, true);
    libs.insert(5, true);
    let mut visited: HashSet<u128> = HashSet::new();
    visited.insert(1);
    let mut result = vec![];
    collect_transitive_deps(1, &projects, &outputs, &libs, &mut visited, &mut result);
    assert_eq!(result, strings(&["two.lib", "four.lib", "three.lib"]));
    assert!(visited.contains(&4) && !visited.contains(&5));
}

#[test]
fn stems_are_unique() {
    let mut used = vec![];
    assert_eq!(unique_stem(&mut used, "my project"), "my_project");
    assert_eq!(unique_stem(&mut used, "my project"), "my_project_2");
    assert_eq!(unique_stem(&mut used, "my:project"), "my_project_3");
    assert_eq!(unique_stem(&mut used, "a-b.c"), "a-b.c");
    assert_eq!(used.len(), 4);
}

#[test]
fn lists_are_sorted_once() {
    let v = strings(&["b", "a", "c", "a", "B"]);
    assert_eq!(sorted_unique(&v), strings(&["B", "a", "b", "c"]));
    let deps = header_deps(&strings(&["/x/b.h", "\\x\\a.h", "/x/b.h"]), true);
    assert_eq!(deps, strings(&["Z:\\x\\a.h", "Z:\\x\\b.h"]));
    assert_eq!(subninja_text(&strings(&["a.ninja", "b_2.ninja"])), "subninja a.ninja\nsubninja b_2.ninja\n");
}

#[test]
fn cl_arguments_are_read_like_cl() {
    let args = parse_cl_args(r#"/I "C:\a b" /Iinc /D"X=1" /Fp"a b.pch" x.cpp"#);
    assert_eq!(args.len(), 5);
    assert!(matches!(&args[0], ClArg::Include(d) if d == "C:\\a b"));
    assert!(matches!(&args[1], ClArg::Include(d) if d == "inc"));
    assert!(matches!(&args[2], ClArg::Define(d) if d == "X=1"));
    assert!(matches!(&args[3], ClArg::Other(t) if t == "/Fpa b.pch"));
    assert!(matches!(&args[4], ClArg::Other(t) if t == "x.cpp"));
    // a trailing /I with no value is a plain token
    let args = parse_cl_args("/W3 /I");
    assert!(matches!(&args[1], ClArg::Other(t) if t == "/I"));
}

#[test]
fn flags_are_translated_for_clang() {
    let out = translate_flags(r#"/O2 /IZ:\inc /DWIN32 /Yu"pch.h" /Fo"out\\" /nologo /c a.cpp /EHsc"#, true);
    assert_eq!(out, strings(&["/O2", "/I/inc", "/DWIN32", "/EHsc"]));
}

#[test]
fn json_is_escaped() {
    assert_eq!(json_escape(r#"a\b"c"#), r#"a\\b\"c"#);
    assert_eq!(
        overlay_file_entry("x.h", "/p/x.h"),
        r#"{"name": "x.h", "type": "file", "external-contents": "/p/x.h"}"#
    );
    assert_eq!(
        overlay_dir_entry("/p", "F"),
        r#"{"name": "/p", "type": "directory", "contents": [F]}"#
    );
    assert_eq!(overlay_document("R"), r#"{"version": 0, "case-sensitive": "false", "roots": [R]}"#);
    assert!(overlay_skips("CPP") && overlay_skips("lib") && !overlay_skips("h"));
}

#[test]
fn include_dirs_come_from_the_environment_value() {
    assert_eq!(include_dirs_of("Z:\\vc\\include; ;Z:\\sdk", true), strings(&["/vc/include", "/sdk"]));
    let tail = entry_tail(&strings(&["/vc"]), Some("/o/vfs.yaml"), &strings(&["-x"]));
    assert_eq!(
        tail,
        strings(&[
            "-fms-compatibility-version=14.00",
            "/clang:--target=i686-pc-windows-msvc",
            "/clang:-std=c++98",
            "-Wno-non-pod-varargs",
            "-imsvc/vc",
            "/D_STLP_NATIVE_INCLUDE_PATH=/vc",
            "/clang:-ivfsoverlay/o/vfs.yaml",
            "-x",
        ])
    );
    let (text, n) = compile_commands(&vec![], &tail, false);
    assert_eq!((text.as_str(), n), ("[\n\n]\n", 0));
}

#[test]
fn cache_decisions() {
    assert!(is_header("a/b.hpp") && is_header("x.inl") && !is_header("x.cpp"));
    assert!(is_tracked_ext("cxx") && !is_tracked_ext("txt"));
    assert!(is_skipped_dir("node_modules") && !is_skipped_dir("src"));
    let rows = vec![
        ("a.cpp".to_string(), 5, None),
        ("b.h".to_string(), 7, Some(6)),
        ("c.h".to_string(), 7, Some(7)),
        ("a.cpp".to_string(), 5, None),
    ];
    let (diff, changed) = diff_rows(&rows, &strings(&["gone.h", "gone.h"]));
    assert_eq!(diff.needs_scan, strings(&["a.cpp", "b.h"]));
    assert_eq!(diff.deleted, strings(&["gone.h"]));
    assert_eq!(changed, strings(&["b.h"]));
}

#[test]
fn cached_records_read_back() {
    let hs = strings(&["C:\\a \"b\".h", "/x/y.h"]);
    let rec = headers_record(&hs);
    assert_eq!(cached_headers(12, 12, &rec), Some(hs.clone()));
    assert_eq!(cached_headers(11, 12, &rec), None);
    assert_eq!(cached_headers(12, 12, "not json"), None);
    assert_eq!(old_record_headers(Some(&rec)), Some(hs));
    assert_eq!(old_record_headers(None), Some(vec![]));
}

#[test]
fn only_libraries_can_be_linked() {
    let deps = strings(&["C:\\out\\core.lib", "C:\\out\\tool"]);
    assert!(linkable_check(&deps));
    assert!(!linkable_check(&strings(&["C:\\out\\core.lib", "C:\\out\\app.dll"])));
    let mut flags = Flags {
        output_file: "C:\\out\\app.exe".to_string(),
        import_library: None,
        flags: "@$(RspFile)".to_string(),
        rsp_flags: "/NOLOGO".to_string(),
        files: vec![],
    };
    add_link_inputs(&mut flags, &deps);
    assert_eq!(flags.rsp_flags, "/NOLOGO C:\\out\\core.lib");
    assert_eq!(flags.output_file, "C:\\out\\app.exe");
}

#[test]
fn duplicate_free_lists_are_recognized() {
    let mut v = strings(&["a", "b"]);
    assert!(all_distinct(&v));
    assert!(!all_distinct(&strings(&["a", "b", "a"])));
    assert!(insert_unique(&mut v, "c".to_string()));
    assert!(!insert_unique(&mut v, "a".to_string()));
    assert_eq!(v, strings(&["a", "b", "c"]));
}
