use vs2008_parser::paths::{canonize_path, pathdiff, to_host_str, unix_to_wine, wine_to_unix};
use vs2008_parser::winpath::path_eq;

#[test]
fn canonize_path_works() {
    assert_eq!(canonize_path("path/../to/file.txt"), "to\\file.txt");
    assert_eq!(canonize_path("../path/../to/file.txt"), "..\\to\\file.txt");
    assert_eq!(canonize_path("../../path/../to/file.txt"), "..\\..\\to\\file.txt");
    assert_eq!(canonize_path("path/../../to/file.txt"), "..\\to\\file.txt");
    assert_eq!(canonize_path("path/../../to/../../file.txt"), "..\\..\\file.txt");
}

#[test]
fn pathdiff_works() {
    fn diff(a: &str, b: &str) -> String {
        pathdiff(a, b)
    }
    assert!(path_eq(&diff("/a/b/x/y", "/a/b/c/d"), "../../c/d"));
    assert!(path_eq(&diff("/a/b/c", "/a/b/c"), ".\\"));
    assert!(path_eq(&diff("/a/b", "/a/b/c/d"), ".\\c\\d"));
    assert!(path_eq(&diff("/a/b/c/d", "/a/b"), "../.."));
}

#[test]
fn wine_round_trip_is_identity() {
    for p in [
        "/home/sheep/Projects/surv/vostok",
        "/home/sheep/Projects/surv/vostok_1/sources/vostok v2.0.sln",
        "/nix/store/abc123-vostok-toolchain/msvc/VC/include",
        "/",
        "relative/path.cpp",
        "pch.cpp",
    ] {
        assert_eq!(wine_to_unix(&unix_to_wine(p)), p, "round trip of {p:?}");
    }
}

#[test]
fn wine_to_unix_lowers_both_drive_cases() {
    assert_eq!(wine_to_unix("Z:\\home\\x"), "/home/x");
    assert_eq!(wine_to_unix("z:\\home\\x"), "/home/x");
}

#[test]
fn to_host_str_is_untouched_on_windows() {
    assert_eq!(
        to_host_str("C:\\Projects\\vostok", false),
        "C:\\Projects\\vostok"
    );
    assert_eq!(to_host_str("Z:\\home\\x", true), "/home/x");
}
