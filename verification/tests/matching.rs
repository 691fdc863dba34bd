use gitbutler::matching::{
    contains_text, kept_unless_ignored, path_pattern, sort_paths, walk_decision,
    WalkDecision,
};

fn walk_entry_passes(is_root: bool, is_dir: bool, rel: &str, pattern: &str, ignored: Option<bool>) -> bool {
    match walk_decision(is_root, is_dir, rel, pattern) {
        WalkDecision::Keep => true,
        WalkDecision::Skip => false,
        WalkDecision::KeepUnlessIgnored => kept_unless_ignored(ignored),
    }
}

#[test]
fn empty_requested_pattern_is_empty() {
    assert_eq!(path_pattern(""), "");
}

#[test]
fn contains_finds_substrings() {
    assert!(contains_text("src/main.rs", "main"));
    assert!(contains_text("src/main.rs", ""));
    assert!(contains_text("abc", "abc"));
    assert!(!contains_text("abc", "abcd"));
    assert!(!contains_text("src/lib.rs", "main"));
    assert!(contains_text("aab", "ab"));
}

#[test]
fn pattern_is_lowercased() {
    assert_eq!(path_pattern("ReadMe.MD"), "readme.md");
    assert_eq!(path_pattern("ÄÖ"), "äö");
}

#[test]
fn root_is_always_walked() {
    assert!(walk_entry_passes(true, true, "", "zzz", None));
}

#[test]
fn matching_files_are_kept_case_insensitively() {
    assert!(walk_entry_passes(false, false, "Docs/README.md", "readme", Some(false)));
    assert!(!walk_entry_passes(false, false, "Docs/README.md", "license", Some(false)));
}

#[test]
fn directories_are_walked_unless_ignored() {
    assert!(walk_entry_passes(false, true, "target", "readme", Some(false)));
    assert!(!walk_entry_passes(false, true, "target", "readme", Some(true)));
}

#[test]
fn failed_ignore_lookup_counts_as_ignored() {
    assert!(!walk_entry_passes(false, false, "readme", "readme", None));
}

#[test]
fn empty_pattern_matches_every_file() {
    assert!(walk_entry_passes(false, false, "any/file.txt", "", Some(false)));
}

#[test]
fn paths_are_sorted() {
    let paths = vec!["b.txt".to_string(), "a/z.txt".to_string(), "B.txt".to_string(), "a".to_string(), "b.txt".to_string()];
    let mut expected = paths.clone();
    expected.sort();
    assert_eq!(sort_paths(paths), expected);
}

#[test]
fn sorting_uses_code_point_order() {
    let paths = vec!["é".to_string(), "z".to_string(), "Z".to_string(), "".to_string()];
    assert_eq!(sort_paths(paths), vec!["".to_string(), "Z".to_string(), "z".to_string(), "é".to_string()]);
}

#[test]
fn walk_decision_asks_git_only_when_needed() {
    assert_eq!(walk_decision(true, true, "", "x"), WalkDecision::Keep);
    assert_eq!(walk_decision(false, true, "dir", "x"), WalkDecision::KeepUnlessIgnored);
    assert_eq!(walk_decision(false, false, "Src/X.rs", "x.rs"), WalkDecision::KeepUnlessIgnored);
    assert_eq!(walk_decision(false, false, "src/y.rs", "x.rs"), WalkDecision::Skip);
    assert!(kept_unless_ignored(Some(false)));
    assert!(!kept_unless_ignored(Some(true)));
    assert!(!kept_unless_ignored(None));
}
