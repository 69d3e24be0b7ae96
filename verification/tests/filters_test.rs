use rusync::filters::{match_string, Filters};
use std::path::Path;

/// The components of a relative path, each converted lossily to UTF-8, as
/// the walk worker hands them to the filters.
fn components(rel_path: &Path) -> Vec<String> {
    rel_path
        .iter()
        .map(|component| component.to_string_lossy().into_owned())
        .collect()
}

fn make(include_list: &[&str], exclude_list: &[&str]) -> Filters {
    let include_list: Vec<String> = include_list.iter().map(|s| s.to_string()).collect();
    let exclude_list: Vec<String> = exclude_list.iter().map(|s| s.to_string()).collect();
    Filters::new(&include_list, &exclude_list).expect("valid patterns")
}

fn passes(filters: &Filters, rel_path: &str) -> bool {
    filters.passes(&components(Path::new(rel_path)))
}

fn pruned(filters: &Filters, rel_path: &str) -> bool {
    filters.dir_pruned(&components(Path::new(rel_path)))
}

#[test]
fn empty_filters_pass_everything() {
    let filters = make(&[], &[]);
    assert!(passes(&filters, "a.txt"));
    assert!(passes(&filters, "docs/a.txt"));
    assert!(!pruned(&filters, "target"));
}

#[test]
fn default_filters_pass_everything() {
    let filters = Filters::default();
    assert!(passes(&filters, "a/b.txt"));
    assert!(!pruned(&filters, "a"));
}

#[test]
fn invalid_include_pattern_is_rejected() {
    let include_list = vec![String::from("foo(")];
    let err = Filters::new(&include_list, &[]).unwrap_err();
    let msg = err.message();
    assert!(msg.contains("--include"), "message was: {}", msg);
    assert!(msg.contains("foo("), "message was: {}", msg);
}

#[test]
fn invalid_exclude_pattern_is_rejected() {
    let exclude_list = vec![String::from("[")];
    let err = Filters::new(&[], &exclude_list).unwrap_err();
    let msg = err.message();
    assert!(msg.contains("--exclude"), "message was: {}", msg);
    assert!(msg.contains('['), "message was: {}", msg);
}

#[test]
fn error_names_the_first_invalid_pattern() {
    let include_list = vec![String::from("ok"), String::from("(")];
    let err = Filters::new(&include_list, &[]).unwrap_err();
    let msg = err.message();
    assert!(msg.contains("'('"), "message was: {}", msg);
}

#[test]
fn filters_include_whitelist() {
    let filters = make(&[r"^docs/"], &[]);
    assert!(passes(&filters, "docs/a.txt"));
    assert!(passes(&filters, "docs/sub/b.md"));
    assert!(!passes(&filters, "other/a.txt"));
}

#[test]
fn include_anchors_are_user_supplied() {
    let filters = make(&[r"^docs/"], &[]);
    assert!(!passes(&filters, "docsx/a.txt"));
    assert!(!passes(&filters, "a/docs/x.txt"));
}

#[test]
fn unanchored_include_matches_anywhere() {
    let filters = make(&["docs"], &[]);
    assert!(passes(&filters, "a/docs/b.txt"));
    assert!(passes(&filters, "docs/c.txt"));
    assert!(!passes(&filters, "other/x.txt"));
}

#[test]
fn filters_exclude_extension() {
    let filters = make(&[], &[r"\.log$"]);
    assert!(!passes(&filters, "a.log"));
    assert!(!passes(&filters, "a/b/c.log"));
    assert!(passes(&filters, "a.txt"));
    assert!(passes(&filters, "a.logg"));
    assert!(passes(&filters, "log"));
}

#[test]
fn exclude_directory_pattern() {
    let filters = make(&[], &[r"(^|/)target$"]);
    assert!(pruned(&filters, "target"));
    assert!(pruned(&filters, "sub/target"));
    assert!(!pruned(&filters, "targetx"));
    assert!(!pruned(&filters, "target/inner.txt"));
    assert!(!pruned(&filters, "sub/targetx"));
    // A file below a pruned directory is never enumerated, but the
    // pattern for the directory itself does not match the file path:
    assert!(passes(&filters, "target/inner.txt"));
}

#[test]
fn filters_exclude_takes_precedence_over_include() {
    let filters = make(&[r"\.log$"], &[r"^docs/"]);
    assert!(!passes(&filters, "docs/a.log"));
    assert!(passes(&filters, "keep.log"));
    assert!(!passes(&filters, "docs/readme.txt"));
    assert!(!passes(&filters, "plain.txt"));
}

#[test]
fn pattern_order_within_a_list_does_not_matter() {
    let a = make(&[r"^docs/", r"\.tmp$"], &[r"\.log$"]);
    let b = make(&[r"\.tmp$", r"^docs/"], &[r"\.log$"]);
    let samples = [
        "docs/a.txt",
        "docs/b.log",
        "docs/c.tmp",
        "other/d.tmp",
        "other/e.txt",
    ];
    for sample in samples {
        assert_eq!(passes(&a, sample), passes(&b, sample), "sample: {}", sample);
    }
}

#[test]
fn empty_pattern_matches_everything() {
    let include_all = make(&[""], &[]);
    assert!(passes(&include_all, "anything/here.txt"));
    let exclude_all = make(&[], &[""]);
    assert!(!passes(&exclude_all, "anything/here.txt"));
    assert!(pruned(&exclude_all, "somedir"));
}

#[test]
fn matching_is_case_sensitive() {
    let filters = make(&[], &[r"\.JPG$"]);
    assert!(!passes(&filters, "a.JPG"));
    assert!(passes(&filters, "a.jpg"));
}

#[test]
fn inline_case_insensitive_flag_is_supported() {
    let filters = make(&[], &[r"(?i)\.jpg$"]);
    assert!(!passes(&filters, "a.JPG"));
    assert!(!passes(&filters, "b.jpg"));
}

#[test]
fn unicode_paths_can_be_matched() {
    let filters = make(&[r"^中文/"], &[]);
    assert!(passes(&filters, "中文/a.txt"));
    assert!(!passes(&filters, "english/a.txt"));
    // `\w` matches non-ASCII word characters by default:
    let word = make(&[r"^\w+\.txt$"], &[]);
    assert!(passes(&word, "中文.txt"));
}

#[test]
fn match_string_joins_components_with_forward_slash() {
    assert_eq!(match_string(&components(Path::new("a.txt"))), "a.txt");
    let joined = Path::new("a").join("b.log");
    assert_eq!(match_string(&components(&joined)), "a/b.log");
}

#[test]
fn match_string_normalizes_windows_separators() {
    // Only Windows reads a backslash as a separator.
    if std::path::MAIN_SEPARATOR == '\\' {
        assert_eq!(match_string(&components(Path::new(r"a\b.log"))), "a/b.log");
        assert_eq!(match_string(&components(Path::new(r"a\b\c.txt"))), "a/b/c.txt");
    }
}

#[test]
fn regex_features_pass_through() {
    let alternation = make(&[r"^(docs|tools)/"], &[]);
    assert!(passes(&alternation, "docs/a"));
    assert!(passes(&alternation, "tools/b"));
    assert!(!passes(&alternation, "other/c"));

    let optional = make(&[], &[r"\.jpe?g$"]);
    assert!(!passes(&optional, "a.jpg"));
    assert!(!passes(&optional, "b.jpeg"));
    assert!(passes(&optional, "c.png"));

    let class = make(&[], &[r"^[a-c]\.txt$"]);
    assert!(!passes(&class, "b.txt"));
    assert!(passes(&class, "d.txt"));

    let repetition = make(&[], &[r"^x{2}\.txt$"]);
    assert!(!passes(&repetition, "xx.txt"));
    assert!(passes(&repetition, "xxx.txt"));
}

#[test]
fn patterns_starting_with_a_dash_are_valid() {
    let filters = make(&[], &["-weird"]);
    assert!(!passes(&filters, "-weird"));
    assert!(passes(&filters, "normal.txt"));
}

#[test]
fn joining_two_paths_joins_their_match_strings() {
    let a = Path::new("docs").join("sub");
    let b = Path::new("x").join("y.txt");
    assert_eq!(
        match_string(&components(&a.join(&b))),
        format!("{}/{}", match_string(&components(&a)), match_string(&components(&b)))
    );
}
