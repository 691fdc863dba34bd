use vstd::prelude::*;

use crate::path_map::{entries_map, has_key, PathMap};

verus! {

/// Bit of `git2::Status` for a file added to the index.
pub const INDEX_NEW: u32 = 0x1;
/// Bit of `git2::Status` for a file modified in the index.
pub const INDEX_MODIFIED: u32 = 0x2;
/// Bit of `git2::Status` for a file deleted from the index.
pub const INDEX_DELETED: u32 = 0x4;
/// Bit of `git2::Status` for a file renamed in the index.
pub const INDEX_RENAMED: u32 = 0x8;
/// Bit of `git2::Status` for a file whose type changed in the index.
pub const INDEX_TYPECHANGE: u32 = 0x10;
/// Bit of `git2::Status` for a new file in the working tree.
pub const WT_NEW: u32 = 0x80;
/// Bit of `git2::Status` for a file modified in the working tree.
pub const WT_MODIFIED: u32 = 0x100;
/// Bit of `git2::Status` for a file deleted from the working tree.
pub const WT_DELETED: u32 = 0x200;
/// Bit of `git2::Status` for a file whose type changed in the working tree.
pub const WT_TYPECHANGE: u32 = 0x400;
/// Bit of `git2::Status` for a file renamed in the working tree.
pub const WT_RENAMED: u32 = 0x800;

/// Whether the status word `bits` has the flag `flag` set.
pub open spec fn has_flag(bits: u32, flag: u32) -> bool {
    bits & flag != 0
}

/// `git2::Status::from_bits_truncate(bits).is_index_new()`: true exactly when the
/// INDEX_NEW bit is set (the method is `intersects(INDEX_NEW)` on the truncated word).
#[verifier::external_body]
fn status_is_index_new(bits: u32) -> (r: bool)
    ensures r == has_flag(bits, INDEX_NEW),
{
    git2::Status::from_bits_truncate(bits).is_index_new()
}

/// `git2::Status::from_bits_truncate(bits).is_wt_new()`: true exactly when the WT_NEW bit is set.
#[verifier::external_body]
fn status_is_wt_new(bits: u32) -> (r: bool)
    ensures r == has_flag(bits, WT_NEW),
{
    git2::Status::from_bits_truncate(bits).is_wt_new()
}

/// `git2::Status::from_bits_truncate(bits).is_index_modified()`: true exactly when the
/// INDEX_MODIFIED bit is set.
#[verifier::external_body]
fn status_is_index_modified(bits: u32) -> (r: bool)
    ensures r == has_flag(bits, INDEX_MODIFIED),
{
    git2::Status::from_bits_truncate(bits).is_index_modified()
}

/// `git2::Status::from_bits_truncate(bits).is_wt_modified()`: true exactly when the
/// WT_MODIFIED bit is set.
#[verifier::external_body]
fn status_is_wt_modified(bits: u32) -> (r: bool)
    ensures r == has_flag(bits, WT_MODIFIED),
{
    git2::Status::from_bits_truncate(bits).is_wt_modified()
}

/// `git2::Status::from_bits_truncate(bits).is_index_deleted()`: true exactly when the
/// INDEX_DELETED bit is set.
#[verifier::external_body]
fn status_is_index_deleted(bits: u32) -> (r: bool)
    ensures r == has_flag(bits, INDEX_DELETED),
{
    git2::Status::from_bits_truncate(bits).is_index_deleted()
}

/// `git2::Status::from_bits_truncate(bits).is_wt_deleted()`: true exactly when the
/// WT_DELETED bit is set.
#[verifier::external_body]
fn status_is_wt_deleted(bits: u32) -> (r: bool)
    ensures r == has_flag(bits, WT_DELETED),
{
    git2::Status::from_bits_truncate(bits).is_wt_deleted()
}

/// `git2::Status::from_bits_truncate(bits).is_index_renamed()`: true exactly when the
/// INDEX_RENAMED bit is set.
#[verifier::external_body]
fn status_is_index_renamed(bits: u32) -> (r: bool)
    ensures r == has_flag(bits, INDEX_RENAMED),
{
    git2::Status::from_bits_truncate(bits).is_index_renamed()
}

/// `git2::Status::from_bits_truncate(bits).is_wt_renamed()`: true exactly when the
/// WT_RENAMED bit is set.
#[verifier::external_body]
fn status_is_wt_renamed(bits: u32) -> (r: bool)
    ensures r == has_flag(bits, WT_RENAMED),
{
    git2::Status::from_bits_truncate(bits).is_wt_renamed()
}

/// `git2::Status::from_bits_truncate(bits).is_index_typechange()`: true exactly when the
/// INDEX_TYPECHANGE bit is set.
#[verifier::external_body]
fn status_is_index_typechange(bits: u32) -> (r: bool)
    ensures r == has_flag(bits, INDEX_TYPECHANGE),
{
    git2::Status::from_bits_truncate(bits).is_index_typechange()
}

/// `git2::Status::from_bits_truncate(bits).is_wt_typechange()`: true exactly when the
/// WT_TYPECHANGE bit is set.
#[verifier::external_body]
fn status_is_wt_typechange(bits: u32) -> (r: bool)
    ensures r == has_flag(bits, WT_TYPECHANGE),
{
    git2::Status::from_bits_truncate(bits).is_wt_typechange()
}

/// The kind of change a file has, in the index or in the working tree.
#[derive(Clone, Copy, Debug, PartialEq, Eq, Structural)]
pub enum FileStatusType {
    Added,
    Modified,
    Deleted,
    Renamed,
    TypeChange,
    Other,
}

/// The staged (index) and unstaged (working tree) change of one file.
#[derive(Clone, Copy, Debug, PartialEq, Eq, Structural)]
pub struct FileStatus {
    pub staged: Option<FileStatusType>,
    pub unstaged: Option<FileStatusType>,
}

/// The kind of change that a status word reports: the first of added, modified,
/// deleted, renamed and type change whose index or working-tree flag is set.
pub open spec fn status_type_of(bits: u32) -> FileStatusType {
    if has_flag(bits, INDEX_NEW) || has_flag(bits, WT_NEW) {
        FileStatusType::Added
    } else if has_flag(bits, INDEX_MODIFIED) || has_flag(bits, WT_MODIFIED) {
        FileStatusType::Modified
    } else if has_flag(bits, INDEX_DELETED) || has_flag(bits, WT_DELETED) {
        FileStatusType::Deleted
    } else if has_flag(bits, INDEX_RENAMED) || has_flag(bits, WT_RENAMED) {
        FileStatusType::Renamed
    } else if has_flag(bits, INDEX_TYPECHANGE) || has_flag(bits, WT_TYPECHANGE) {
        FileStatusType::TypeChange
    } else {
        FileStatusType::Other
    }
}

impl FileStatusType {
    /// Classifies the status word of a `git2::Status` (its `bits()`).
    pub fn from_status_bits(bits: u32) -> (r: FileStatusType)
        ensures r == status_type_of(bits),
    {
        if status_is_index_new(bits) || status_is_wt_new(bits) {
            FileStatusType::Added
        } else if status_is_index_modified(bits) || status_is_wt_modified(bits) {
            FileStatusType::Modified
        } else if status_is_index_deleted(bits) || status_is_wt_deleted(bits) {
            FileStatusType::Deleted
        } else if status_is_index_renamed(bits) || status_is_wt_renamed(bits) {
            FileStatusType::Renamed
        } else if status_is_index_typechange(bits) || status_is_wt_typechange(bits) {
            FileStatusType::TypeChange
        } else {
            FileStatusType::Other
        }
    }
}


/// One entry of a status listing: the file's path, when it is valid UTF-8, and
/// the entry's status word (`git2::Status::bits`).
pub struct StatusEntry {
    pub path: Option<String>,
    pub bits: u32,
}

/// The statuses that a listing reports, by path: entries without a path are
/// skipped, and of two entries for one path the later one counts.
pub open spec fn listed_statuses(entries: Seq<StatusEntry>) -> Map<Seq<char>, FileStatusType>
    decreases entries.len(),
{
    if entries.len() == 0 {
        Map::empty()
    } else {
        let rest = listed_statuses(entries.drop_last());
        match entries.last().path {
            Some(p) => rest.insert(p@, status_type_of(entries.last().bits)),
            None => rest,
        }
    }
}

/// The combined status of every path that has a staged or an unstaged change:
/// each side is the change that side reports, or none.
pub open spec fn merged_statuses(
    staged: Map<Seq<char>, FileStatusType>,
    unstaged: Map<Seq<char>, FileStatusType>,
) -> Map<Seq<char>, FileStatus> {
    Map::new(
        |p: Seq<char>| staged.contains_key(p) || unstaged.contains_key(p),
        |p: Seq<char>|
            FileStatus {
                staged: if staged.contains_key(p) {
                    Some(staged[p])
                } else {
                    None
                },
                unstaged: if unstaged.contains_key(p) {
                    Some(unstaged[p])
                } else {
                    None
                },
            },
    )
}

/// Classifies each entry of a status listing by path.
pub fn statuses_by_path(entries: &Vec<StatusEntry>) -> (r: PathMap<FileStatusType>)
    ensures
        r@ == listed_statuses(entries@),
{
    let mut r = PathMap::new();
    let mut i: usize = 0;
    while i < entries.len()
        invariant
            i <= entries@.len(),
            r@ == listed_statuses(entries@.take(i as int)),
        decreases entries@.len() - i,
    {
        assert(entries@.take(i + 1).drop_last() == entries@.take(i as int));
        match &entries[i].path {
            Some(p) => {
                let t = FileStatusType::from_status_bits(entries[i].bits);
                r.insert(p.clone(), t);
            },
            None => {},
        }
        i = i + 1;
    }
    assert(entries@.take(entries@.len() as int) == entries@);
    r
}

/// Combines the staged and the unstaged status of each path.
pub fn merge_file_statuses(
    staged: &PathMap<FileStatusType>,
    unstaged: &PathMap<FileStatusType>,
) -> (r: PathMap<FileStatus>)
    ensures
        r@ == merged_statuses(staged@, unstaged@),
{
    let mut r = PathMap::new();
    let unstaged_count = unstaged.len();
    let staged_count = staged.len();
    let mut i: usize = 0;
    while i < unstaged_count
        invariant
            i <= unstaged.entries().len(),
            unstaged_count == unstaged.entries().len(),
            r@ == Map::new(
                |p: Seq<char>| has_key(unstaged.entries().take(i as int), p),
                |p: Seq<char>| FileStatus { staged: None, unstaged: Some(unstaged@[p]) },
            ),
        decreases unstaged.entries().len() - i,
    {
        let (p, t) = unstaged.entry(i);
        r.insert(p.clone(), FileStatus { staged: None, unstaged: Some(*t) });
        proof {
            let pre = unstaged.entries().take(i as int);
            let post = unstaged.entries().take(i + 1);
            assert forall|k: Seq<char>| #[trigger] has_key(post, k) == (has_key(pre, k) || k == p@) by {
                if has_key(pre, k) {
                    let j = choose|j: int| 0 <= j < pre.len() && pre[j].0@ == k;
                    assert(post[j] == pre[j]);
                }
                if has_key(post, k) && k != p@ {
                    let j = choose|j: int| 0 <= j < post.len() && post[j].0@ == k;
                    assert(pre[j] == post[j]);
                }
                if k == p@ {
                    assert(post[i as int].0@ == k);
                }
            }
            assert(r@ =~= Map::new(
                |k: Seq<char>| has_key(post, k),
                |k: Seq<char>| FileStatus { staged: None, unstaged: Some(unstaged@[k]) },
            ));
        }
        i = i + 1;
    }
    proof {
        assert(unstaged.entries().take(unstaged.entries().len() as int) == unstaged.entries());
        assert forall|k: Seq<char>| #[trigger] unstaged@.contains_key(k) == has_key(unstaged.entries(), k) by {}
    }
    let mut i: usize = 0;
    while i < staged_count
        invariant
            i <= staged.entries().len(),
            staged_count == staged.entries().len(),
            unstaged@ == entries_map(unstaged.entries()),
            r@ == Map::new(
                |p: Seq<char>| unstaged@.contains_key(p) || has_key(staged.entries().take(i as int), p),
                |p: Seq<char>|
                    FileStatus {
                        staged: if has_key(staged.entries().take(i as int), p) {
                            Some(staged@[p])
                        } else {
                            None
                        },
                        unstaged: if unstaged@.contains_key(p) {
                            Some(unstaged@[p])
                        } else {
                            None
                        },
                    },
            ),
        decreases staged.entries().len() - i,
    {
        let (p, t) = staged.entry(i);
        let next = match r.get(p) {
            Some(st) => FileStatus { staged: Some(*t), unstaged: st.unstaged },
            None => FileStatus { staged: Some(*t), unstaged: None },
        };
        r.insert(p.clone(), next);
        proof {
            let pre = staged.entries().take(i as int);
            let post = staged.entries().take(i + 1);
            assert forall|k: Seq<char>| #[trigger] has_key(post, k) == (has_key(pre, k) || k == p@) by {
                if has_key(pre, k) {
                    let j = choose|j: int| 0 <= j < pre.len() && pre[j].0@ == k;
                    assert(post[j] == pre[j]);
                }
                if has_key(post, k) && k != p@ {
                    let j = choose|j: int| 0 <= j < post.len() && post[j].0@ == k;
                    assert(pre[j] == post[j]);
                }
                if k == p@ {
                    assert(post[i as int].0@ == k);
                }
            }
            assert(r@ =~= Map::new(
                |k: Seq<char>| unstaged@.contains_key(k) || has_key(post, k),
                |k: Seq<char>|
                    FileStatus {
                        staged: if has_key(post, k) {
                            Some(staged@[k])
                        } else {
                            None
                        },
                        unstaged: if unstaged@.contains_key(k) {
                            Some(unstaged@[k])
                        } else {
                            None
                        },
                    },
            ));
        }
        i = i + 1;
    }
    proof {
        assert(staged.entries().take(staged.entries().len() as int) == staged.entries());
        assert forall|k: Seq<char>| #[trigger] staged@.contains_key(k) == has_key(staged.entries(), k) by {}
        assert(r@ =~= merged_statuses(staged@, unstaged@));
    }
    r
}

/// The status of every changed path of a repository, from its index listing
/// (staged changes) and its working-tree listing (unstaged changes).
pub fn git_status(staged_entries: &Vec<StatusEntry>, unstaged_entries: &Vec<StatusEntry>) -> (r:
    PathMap<FileStatus>)
    ensures
        r@ == merged_statuses(listed_statuses(staged_entries@), listed_statuses(unstaged_entries@)),
{
    let staged = statuses_by_path(staged_entries);
    let unstaged = statuses_by_path(unstaged_entries);
    merge_file_statuses(&staged, &unstaged)
}

/// A file that is new in the index or in the working tree counts as added,
/// whatever other flags its status has.
pub proof fn law_new_file_is_added(bits: u32)
    requires
        has_flag(bits, INDEX_NEW) || has_flag(bits, WT_NEW),
    ensures
        status_type_of(bits) == FileStatusType::Added,
{
}

/// A status word with none of the change flags set is classified as other.
pub proof fn law_unflagged_is_other(bits: u32)
    requires
        bits & (INDEX_NEW | INDEX_MODIFIED | INDEX_DELETED | INDEX_RENAMED | INDEX_TYPECHANGE | WT_NEW
            | WT_MODIFIED | WT_DELETED | WT_TYPECHANGE | WT_RENAMED) == 0,
    ensures
        status_type_of(bits) == FileStatusType::Other,
{
    assert(bits & (INDEX_NEW | INDEX_MODIFIED | INDEX_DELETED | INDEX_RENAMED | INDEX_TYPECHANGE
        | WT_NEW | WT_MODIFIED | WT_DELETED | WT_TYPECHANGE | WT_RENAMED) == 0 ==> (bits & 0x1 == 0
        && bits & 0x2 == 0 && bits & 0x4 == 0 && bits & 0x8 == 0 && bits & 0x10 == 0 && bits & 0x80
        == 0 && bits & 0x100 == 0 && bits & 0x200 == 0 && bits & 0x400 == 0 && bits & 0x800 == 0))
        by (bit_vector);
}

/// Whether a listing entry has the path `p`.
pub open spec fn entry_has_path(e: StatusEntry, p: Seq<char>) -> bool {
    match e.path {
        Some(q) => q@ == p,
        None => false,
    }
}

/// A listing reports a status for exactly the paths of its entries that have
/// one, and for each the status of the last entry with that path.
pub proof fn law_listing_reports_last_entry(entries: Seq<StatusEntry>, p: Seq<char>)
    ensures
        listed_statuses(entries).contains_key(p) <==> exists|i: int|
            0 <= i < entries.len() && entry_has_path(#[trigger] entries[i], p),
        forall|i: int|
            0 <= i < entries.len() && (entry_has_path(#[trigger] entries[i], p)) && (forall|
                j: int,
            | i < j < entries.len() ==> !entry_has_path(#[trigger] entries[j], p))
                ==> listed_statuses(entries)[p] == status_type_of(entries[i].bits),
    decreases entries.len(),
{
    if entries.len() > 0 {
        let n = entries.len() - 1;
        let pre = entries.drop_last();
        law_listing_reports_last_entry(pre, p);
        assert forall|i: int| 0 <= i < n implies #[trigger] entries[i] == pre[i] by {}
        if listed_statuses(entries).contains_key(p) && !entry_has_path(entries[n], p) {
            let i = choose|i: int| 0 <= i < pre.len() && entry_has_path(#[trigger] pre[i], p);
            assert(entries[i] == pre[i]);
        }
        if exists|i: int| 0 <= i < entries.len() && entry_has_path(#[trigger] entries[i], p) {
            let i = choose|i: int| 0 <= i < entries.len() && entry_has_path(#[trigger] entries[i], p);
            if i < n {
                assert(pre[i] == entries[i]);
            }
        }
        assert forall|i: int|
            0 <= i < entries.len() && (entry_has_path(#[trigger] entries[i], p)) && (forall|
                j: int,
            | i < j < entries.len() ==> !entry_has_path(#[trigger] entries[j], p))
                implies listed_statuses(entries)[p] == status_type_of(entries[i].bits) by {
            if i < n {
                assert(pre[i] == entries[i]);
                assert forall|j: int| i < j < pre.len() implies !entry_has_path(#[trigger] pre[j], p) by {
                    assert(entries[j] == pre[j]);
                }
            }
        }
    }
}

/// The combined status lists every path with a staged or an unstaged change;
/// each side of a path's status is that side's change, or none when the path
/// has no change on that side.
pub proof fn law_status_lists_every_changed_path(
    staged: Map<Seq<char>, FileStatusType>,
    unstaged: Map<Seq<char>, FileStatusType>,
    p: Seq<char>,
)
    ensures
        merged_statuses(staged, unstaged).contains_key(p) <==> (staged.contains_key(p)
            || unstaged.contains_key(p)),
        merged_statuses(staged, unstaged).contains_key(p) ==> ({
            let st = merged_statuses(staged, unstaged)[p];
            &&& (st.staged is Some <==> staged.contains_key(p))
            &&& (st.unstaged is Some <==> unstaged.contains_key(p))
            &&& (st.staged matches Some(t) ==> t == staged[p])
            &&& (st.unstaged matches Some(t) ==> t == unstaged[p])
        }),
{
}

/// The kind of a change is the first of added, modified, deleted, renamed and
/// type change whose flag is set in the index or the working tree: a kind
/// holds exactly when its flag is set and no earlier kind's flag is.
pub proof fn law_status_kind_precedence(bits: u32)
    ensures
        ({
            let new = has_flag(bits, INDEX_NEW) || has_flag(bits, WT_NEW);
            let modified = has_flag(bits, INDEX_MODIFIED) || has_flag(bits, WT_MODIFIED);
            let deleted = has_flag(bits, INDEX_DELETED) || has_flag(bits, WT_DELETED);
            let renamed = has_flag(bits, INDEX_RENAMED) || has_flag(bits, WT_RENAMED);
            let typechange = has_flag(bits, INDEX_TYPECHANGE) || has_flag(bits, WT_TYPECHANGE);
            &&& (status_type_of(bits) == FileStatusType::Added <==> new)
            &&& (status_type_of(bits) == FileStatusType::Modified <==> !new && modified)
            &&& (status_type_of(bits) == FileStatusType::Deleted <==> !new && !modified && deleted)
            &&& (status_type_of(bits) == FileStatusType::Renamed <==> !new && !modified && !deleted
                && renamed)
            &&& (status_type_of(bits) == FileStatusType::TypeChange <==> !new && !modified && !deleted
                && !renamed && typechange)
            &&& (status_type_of(bits) == FileStatusType::Other <==> !new && !modified && !deleted
                && !renamed && !typechange)
        }),
{
}

} // verus!
