use gitbutler::diff::{diff_context_lines, group_diff_lines, DiffLine};

fn line(path: &str, origin: char, content: &str) -> DiffLine {
    DiffLine { path: path.to_string(), origin, content: content.to_string() }
}

fn text(map: &gitbutler::path_map::PathMap<String>, path: &str) -> Option<String> {
    map.get(&path.to_string()).cloned()
}

#[test]
fn zero_context_lines_means_default() {
    assert_eq!(diff_context_lines(0).unwrap(), 3);
}

#[test]
fn context_lines_are_kept() {
    assert_eq!(diff_context_lines(7).unwrap(), 7);
    assert_eq!(diff_context_lines(u32::MAX as usize).unwrap(), u32::MAX);
}

#[test]
fn too_many_context_lines_are_refused() {
    if usize::BITS > 32 {
        assert!(diff_context_lines(u32::MAX as usize + 1).is_err());
    }
}

#[test]
fn no_lines_give_only_the_empty_path() {
    let map = group_diff_lines(&vec![]);
    assert_eq!(map.len(), 1);
    assert_eq!(text(&map, ""), Some(String::new()));
}

#[test]
fn lines_are_grouped_by_file_with_markers() {
    let lines = vec![
        line("a.txt", 'F', "diff --git a/a.txt b/a.txt\n"),
        line("a.txt", 'H', "@@ -1 +1 @@\n"),
        line("a.txt", '-', "old\n"),
        line("a.txt", '+', "new\n"),
        line("b.txt", ' ', "same\n"),
    ];
    let map = group_diff_lines(&lines);
    assert_eq!(map.len(), 3);
    assert_eq!(text(&map, ""), Some(String::new()));
    assert_eq!(
        text(&map, "a.txt"),
        Some("diff --git a/a.txt b/a.txt\n@@ -1 +1 @@\n-old\n+new\n".to_string())
    );
    assert_eq!(text(&map, "b.txt"), Some(" same\n".to_string()));
}

#[test]
fn a_file_seen_again_keeps_its_last_run() {
    let lines = vec![line("a", '+', "1\n"), line("b", '+', "2\n"), line("a", '-', "3\n")];
    let map = group_diff_lines(&lines);
    assert_eq!(text(&map, "a"), Some("-3\n".to_string()));
    assert_eq!(text(&map, "b"), Some("+2\n".to_string()));
}
