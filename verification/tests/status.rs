use gitbutler::path_map::PathMap;
use gitbutler::status::{
    git_status, merge_file_statuses, statuses_by_path, FileStatus, FileStatusType, StatusEntry,
};

fn entry(path: &str, bits: u32) -> StatusEntry {
    StatusEntry { path: Some(path.to_string()), bits }
}

#[test]
fn new_in_index_is_added() {
    assert_eq!(FileStatusType::from_status_bits(0x1), FileStatusType::Added);
}

#[test]
fn new_in_worktree_is_added() {
    assert_eq!(FileStatusType::from_status_bits(0x80), FileStatusType::Added);
}

#[test]
fn added_wins_over_modified() {
    assert_eq!(FileStatusType::from_status_bits(0x80 | 0x100), FileStatusType::Added);
}

#[test]
fn modified_deleted_renamed_typechange() {
    assert_eq!(FileStatusType::from_status_bits(0x2), FileStatusType::Modified);
    assert_eq!(FileStatusType::from_status_bits(0x100), FileStatusType::Modified);
    assert_eq!(FileStatusType::from_status_bits(0x4), FileStatusType::Deleted);
    assert_eq!(FileStatusType::from_status_bits(0x200), FileStatusType::Deleted);
    assert_eq!(FileStatusType::from_status_bits(0x8), FileStatusType::Renamed);
    assert_eq!(FileStatusType::from_status_bits(0x800), FileStatusType::Renamed);
    assert_eq!(FileStatusType::from_status_bits(0x10), FileStatusType::TypeChange);
    assert_eq!(FileStatusType::from_status_bits(0x400), FileStatusType::TypeChange);
}

#[test]
fn modified_wins_over_deleted() {
    assert_eq!(FileStatusType::from_status_bits(0x2 | 0x200), FileStatusType::Modified);
}

#[test]
fn unflagged_or_ignored_is_other() {
    assert_eq!(FileStatusType::from_status_bits(0), FileStatusType::Other);
    // IGNORED and CONFLICTED are not change kinds.
    assert_eq!(FileStatusType::from_status_bits(0x4000), FileStatusType::Other);
    assert_eq!(FileStatusType::from_status_bits(0x8000), FileStatusType::Other);
}

#[test]
fn flags_agree_with_git2() {
    let cases = [
        (git2::Status::INDEX_NEW, FileStatusType::Added),
        (git2::Status::WT_MODIFIED, FileStatusType::Modified),
        (git2::Status::INDEX_DELETED, FileStatusType::Deleted),
        (git2::Status::WT_RENAMED, FileStatusType::Renamed),
        (git2::Status::INDEX_TYPECHANGE, FileStatusType::TypeChange),
        (git2::Status::CURRENT, FileStatusType::Other),
    ];
    for (status, expected) in cases {
        assert_eq!(FileStatusType::from_status_bits(status.bits()), expected);
    }
}

#[test]
fn listing_skips_entries_without_path_and_keeps_last() {
    let entries = vec![
        entry("a.txt", 0x100),
        StatusEntry { path: None, bits: 0x80 },
        entry("b.txt", 0x80),
        entry("a.txt", 0x200),
    ];
    let map = statuses_by_path(&entries);
    assert_eq!(map.len(), 2);
    assert_eq!(map.get(&"a.txt".to_string()), Some(&FileStatusType::Deleted));
    assert_eq!(map.get(&"b.txt".to_string()), Some(&FileStatusType::Added));
    assert_eq!(map.get(&"c.txt".to_string()), None);
}

#[test]
fn merge_combines_both_sides() {
    let mut staged = PathMap::new();
    staged.insert("both.rs".to_string(), FileStatusType::Added);
    staged.insert("staged.rs".to_string(), FileStatusType::Renamed);
    let mut unstaged = PathMap::new();
    unstaged.insert("both.rs".to_string(), FileStatusType::Modified);
    unstaged.insert("unstaged.rs".to_string(), FileStatusType::Deleted);
    let merged = merge_file_statuses(&staged, &unstaged);
    assert_eq!(merged.len(), 3);
    assert_eq!(
        merged.get(&"both.rs".to_string()),
        Some(&FileStatus { staged: Some(FileStatusType::Added), unstaged: Some(FileStatusType::Modified) })
    );
    assert_eq!(
        merged.get(&"staged.rs".to_string()),
        Some(&FileStatus { staged: Some(FileStatusType::Renamed), unstaged: None })
    );
    assert_eq!(
        merged.get(&"unstaged.rs".to_string()),
        Some(&FileStatus { staged: None, unstaged: Some(FileStatusType::Deleted) })
    );
}

#[test]
fn git_status_of_empty_listings_is_empty() {
    let status = git_status(&vec![], &vec![]);
    assert_eq!(status.len(), 0);
}

#[test]
fn git_status_from_listings() {
    let staged = vec![entry("src/lib.rs", 0x2)];
    let unstaged = vec![entry("src/lib.rs", 0x100), entry("new.txt", 0x80)];
    let status = git_status(&staged, &unstaged);
    assert_eq!(status.len(), 2);
    assert_eq!(
        status.get(&"src/lib.rs".to_string()),
        Some(&FileStatus { staged: Some(FileStatusType::Modified), unstaged: Some(FileStatusType::Modified) })
    );
    assert_eq!(
        status.get(&"new.txt".to_string()),
        Some(&FileStatus { staged: None, unstaged: Some(FileStatusType::Added) })
    );
}

#[test]
fn path_map_insert_replaces() {
    let mut m = PathMap::new();
    m.insert("x".to_string(), 1u32);
    m.insert("y".to_string(), 2u32);
    m.insert("x".to_string(), 3u32);
    assert_eq!(m.len(), 2);
    assert_eq!(m.get(&"x".to_string()), Some(&3));
    let (k, v) = m.entry(1);
    assert_eq!((k.as_str(), *v), ("y", 2));
}
