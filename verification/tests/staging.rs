use gitbutler::staging::{
    find_head_entry, plan_stage, plan_unstage, stage_action, unstage_action, StageAction, UnstageAction,
};

fn bytes(s: &str) -> Vec<u8> {
    s.as_bytes().to_vec()
}

#[test]
fn staging_adds_existing_and_removes_missing_files() {
    assert_eq!(
        plan_stage(&vec![true, false, true]),
        vec![StageAction::AddPath, StageAction::RemovePath, StageAction::AddPath]
    );
}

#[test]
fn head_entry_is_the_first_with_the_path() {
    let entries = vec![bytes("a"), bytes("b"), bytes("b")];
    assert_eq!(find_head_entry(&entries, &bytes("b")), Some(1));
    assert_eq!(find_head_entry(&entries, &bytes("c")), None);
    assert_eq!(find_head_entry(&entries, &bytes("")), None);
}

#[test]
fn unstaging_restores_head_entries_or_removes() {
    let entries = vec![bytes("src/lib.rs"), bytes("README.md")];
    let paths = vec![bytes("README.md"), bytes("new.rs")];
    assert_eq!(
        plan_unstage(&entries, &paths),
        vec![UnstageAction::RestoreEntry(1), UnstageAction::RemovePath]
    );
}

#[test]
fn single_path_actions() {
    assert_eq!(stage_action(true), StageAction::AddPath);
    assert_eq!(stage_action(false), StageAction::RemovePath);
    let entries = vec![bytes("a"), bytes("b")];
    assert_eq!(unstage_action(&entries, &bytes("b")), UnstageAction::RestoreEntry(1));
    assert_eq!(unstage_action(&entries, &bytes("c")), UnstageAction::RemovePath);
}
