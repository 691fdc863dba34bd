use gitbutler::activity::{select_activity, Timed};

fn timed(ts: u128, name: &str) -> Option<Timed<String>> {
    Some(Timed { timestamp_ms: ts, item: name.to_string() })
}

#[test]
fn without_start_every_parsed_entry_is_kept() {
    let parsed = vec![timed(5, "a"), None, timed(1, "b")];
    assert_eq!(select_activity(parsed, None), vec!["a".to_string(), "b".to_string()]);
}

#[test]
fn with_start_only_later_entries_are_kept() {
    let parsed = vec![timed(5, "a"), timed(10, "b"), None, timed(11, "c")];
    assert_eq!(select_activity(parsed, Some(10)), vec!["c".to_string()]);
}

#[test]
fn empty_reflog_has_no_activity() {
    let parsed: Vec<Option<Timed<String>>> = vec![];
    assert!(select_activity(parsed, Some(0)).is_empty());
}
