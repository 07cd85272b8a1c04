use ru::args::{split_into_subargs, ArgType};
use ru::makefile::parse_makefile_targets;
use ru::package_json::parse_package_json_scripts;

#[test]
fn tokens_classify_by_whitespace_and_dash() {
    assert!(matches!(ArgType::of_token("build"), ArgType::Command));
    assert!(matches!(ArgType::of_token(""), ArgType::Command));
    assert!(matches!(ArgType::of_token("--watch"), ArgType::Flag));
    assert!(matches!(ArgType::of_token("-q"), ArgType::Flag));
    assert!(matches!(ArgType::of_token("two words"), ArgType::Subargs));
    // Whitespace wins even when a dash is present.
    assert!(matches!(ArgType::of_token("--a b"), ArgType::Subargs));
}

#[test]
fn subarg_bundles_split_on_ascii_whitespace() {
    assert_eq!(split_into_subargs("run this"), vec!["run", "this"]);
    assert_eq!(split_into_subargs("  a \t b\nc  "), vec!["a", "b", "c"]);
    assert!(split_into_subargs("").is_empty());
    assert!(split_into_subargs("   ").is_empty());
}

#[test]
fn makefile_targets_extracted_in_order() {
    let text = "build:\n\techo building\ntest: build\n\techo testing\n";
    assert_eq!(parse_makefile_targets(text), vec!["build", "test"]);
}

#[test]
fn makefile_parse_is_idempotent() {
    let text = "alpha:\nbeta=1\ngamma:\n";
    let first = parse_makefile_targets(text);
    let second = parse_makefile_targets(text);
    assert_eq!(first, second);
    assert_eq!(first, vec!["alpha", "gamma"]);
}

#[test]
fn makefile_lines_without_top_level_colon_are_skipped() {
    // A non-alphabetic character inside the name abandons the line, and
    // text without any colon yields nothing.
    assert!(parse_makefile_targets("ab1c:\n").is_empty());
    assert!(parse_makefile_targets("no targets here\nat all\n").is_empty());
    assert_eq!(parse_makefile_targets("deploy me: x\nship:\n"), vec!["ship"]);
}

#[test]
fn makefile_leading_spaces_before_name_are_allowed() {
    assert_eq!(parse_makefile_targets("   clean:\n"), vec!["clean"]);
}

#[test]
fn package_json_scripts_read_from_scripts_object() {
    let raw = br#"{"name":"demo","scripts":{"dev":"vite","build":"vite build"}}"#.to_vec();
    let mut names = parse_package_json_scripts(raw);
    names.sort();
    assert_eq!(names, vec!["build".to_string(), "dev".to_string()]);
}

#[test]
fn package_json_without_scripts_yields_nothing() {
    assert!(parse_package_json_scripts(br#"{"name":"demo"}"#.to_vec()).is_empty());
    assert!(parse_package_json_scripts(b"not json at all".to_vec()).is_empty());
    assert!(parse_package_json_scripts(br#"{"scripts":"oops"}"#.to_vec()).is_empty());
}
