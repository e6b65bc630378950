use vs2008_parser::cexpr::eval_expr;
use vs2008_parser::macro_table::MacroTable;
use vs2008_parser::pptext::{
    parse_directive, parse_include, parse_pragma_comment_lib, preprocess_text, Directive,
    IncludeKind,
};

fn macros(pairs: &[(&str, &str)]) -> MacroTable {
    let mut m = MacroTable::new();
    for (k, v) in pairs {
        m.insert(k.to_string(), v.to_string());
    }
    m
}

#[test]
fn evaluates_constants() {
    let m = MacroTable::new();
    assert_eq!(eval_expr("0", &m), Some(0));
    assert_eq!(eval_expr("1", &m), Some(1));
    assert_eq!(eval_expr("1 + 2 * 3", &m), Some(7));
    assert_eq!(eval_expr("(1 + 2) * 3", &m), Some(9));
    assert_eq!(eval_expr("1 << 4", &m), Some(16));
    assert_eq!(eval_expr("0x10 == 16", &m), Some(1));
    assert_eq!(eval_expr("5 > 3 && 2 < 4", &m), Some(1));
}

#[test]
fn unknown_identifiers_are_unknown_not_zero() {
    let m = MacroTable::new();
    assert_eq!(eval_expr("FOO", &m), None);
    assert_eq!(eval_expr("FOO > 3", &m), None);
    assert_eq!(eval_expr("0 && FOO", &m), Some(0));
    assert_eq!(eval_expr("1 || FOO", &m), Some(1));
}

#[test]
fn defined_operator() {
    let m = macros(&[("WIN32", "1")]);
    assert_eq!(eval_expr("defined(WIN32)", &m), Some(1));
    assert_eq!(eval_expr("defined WIN32", &m), Some(1));
    assert_eq!(eval_expr("defined(NOPE)", &m), None);
    assert_eq!(eval_expr("defined(WIN32) && 0", &m), Some(0));
}

#[test]
fn macro_value_substitution() {
    let m = macros(&[("VER", "0x0600")]);
    assert_eq!(eval_expr("VER >= 0x0500", &m), Some(1));
    assert_eq!(eval_expr("VER == 1536", &m), Some(1));
}

#[test]
fn strips_comments_and_splices() {
    let src = "a /* block\ncomment */ b // line\nc\\\nd";
    let lines = preprocess_text(src);
    assert_eq!(lines[0].trim(), "a");
    assert!(lines[1].trim().starts_with('b'));
    assert!(lines.iter().any(|l| l.contains("cd")));
}

#[test]
fn directive_parsing() {
    assert!(matches!(
        parse_directive("#include \"foo.h\""),
        Some(Directive::Include(_))
    ));
    assert!(matches!(
        parse_directive("  #  ifdef BAR"),
        Some(Directive::Ifdef(name)) if name == "BAR"
    ));
    assert!(parse_directive("int x = 1;").is_none());
    assert!(matches!(
        parse_directive("#define FOO 1"),
        Some(Directive::Ignored)
    ));
    assert!(matches!(
        parse_directive("#undef FOO"),
        Some(Directive::Ignored)
    ));
    assert!(matches!(
        parse_directive("# 1 \"foo.h\""),
        Some(Directive::Ignored)
    ));
    for line in [
        "#error nope",
        "#warning hmm",
        "#line 42",
        "#include_next <foo.h>",
    ] {
        assert!(
            matches!(parse_directive(line), Some(Directive::Ignored)),
            "{line:?} should be Ignored"
        );
    }
    assert!(matches!(
        parse_directive("#import \"x.tlb\""),
        Some(Directive::Unknown { keyword }) if keyword == "import"
    ));
}

#[test]
fn include_spec_parsing() {
    assert!(matches!(
        parse_include("\"a/b.h\""),
        Some((IncludeKind::Quote, n)) if n == "a/b.h"
    ));
    assert!(matches!(
        parse_include("<vector>"),
        Some((IncludeKind::Angle, n)) if n == "vector"
    ));
    assert!(parse_include("HEADER_MACRO").is_none());
}

#[test]
fn pragma_comment_lib_parsing() {
    assert_eq!(
        parse_pragma_comment_lib("comment(lib, \"ws2_32.lib\")"),
        Some("ws2_32.lib".to_string())
    );
    assert_eq!(
        parse_pragma_comment_lib("comment ( lib , \"foo.lib\" )"),
        Some("foo.lib".to_string())
    );
    assert_eq!(parse_pragma_comment_lib("once"), None);
    assert_eq!(parse_pragma_comment_lib("comment(linker, \"/x\")"), None);
}

#[test]
fn negating_the_smallest_number_wraps() {
    let m = macros(&[]);
    assert_eq!(eval_expr("-(-9223372036854775807 - 1)", &m), Some(i64::MIN));
    assert_eq!(eval_expr("-(-9223372036854775807 - 1) < 0", &m), Some(1));
    assert_eq!(eval_expr("-5", &m), Some(-5));
}

#[test]
fn a_new_define_keeps_decided_conditions() {
    let none = macros(&[]);
    let with = macros(&[("FOO", "5")]);
    for e in ["0 && FOO", "1 || FOO", "FOO ? 2 : 2", "defined(BAR) || 1"] {
        let before = eval_expr(e, &none);
        assert!(before.is_some(), "{e}");
        assert_eq!(eval_expr(e, &with), before, "{e}");
    }
    assert_eq!(eval_expr("FOO > 3", &none), None);
    assert_eq!(eval_expr("FOO > 3", &with), Some(1));
}
