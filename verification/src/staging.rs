use vstd::prelude::*;

verus! {

/// What staging does to one path's index entry.
#[derive(Clone, Copy, Debug, PartialEq, Eq, Structural)]
pub enum StageAction {
    /// The file exists in the working directory: write its current content to the index.
    AddPath,
    /// The file is gone from the working directory: drop it from the index.
    RemovePath,
}

/// What unstaging does to one path's index entry.
#[derive(Clone, Copy, Debug, PartialEq, Eq, Structural)]
pub enum UnstageAction {
    /// Put back the entry at this position of the head tree's index.
    RestoreEntry(usize),
    /// The path is not in the head tree: drop it from the index.
    RemovePath,
}

/// Staging action for a path, from whether the file exists in the working directory.
pub open spec fn stage_action_for(exists: bool) -> StageAction {
    if exists {
        StageAction::AddPath
    } else {
        StageAction::RemovePath
    }
}

/// The staging action for one path, from whether its file exists in the
/// working directory.
pub fn stage_action(exists: bool) -> (r: StageAction)
    ensures
        r == stage_action_for(exists),
{
    if exists {
        StageAction::AddPath
    } else {
        StageAction::RemovePath
    }
}

/// Plans staging: one action per path, in order, from whether each path's file
/// exists in the working directory.
pub fn plan_stage(exists: &Vec<bool>) -> (r: Vec<StageAction>)
    ensures
        r@.len() == exists@.len(),
        forall|i: int| 0 <= i < r@.len() ==> r@[i] == stage_action_for(#[trigger] exists@[i]),
{
    let mut r: Vec<StageAction> = Vec::new();
    let mut i: usize = 0;
    while i < exists.len()
        invariant
            i <= exists@.len(),
            r@.len() == i,
            forall|k: int| 0 <= k < i ==> r@[k] == stage_action_for(#[trigger] exists@[k]),
        decreases exists@.len() - i,
    {
        r.push(stage_action(exists[i]));
        i = i + 1;
    }
    r
}

/// Whether two byte strings are equal.
fn bytes_equal(a: &Vec<u8>, b: &Vec<u8>) -> (r: bool)
    ensures
        r == (a@ == b@),
{
    if a.len() != b.len() {
        return false;
    }
    let mut i: usize = 0;
    while i < a.len()
        invariant
            a@.len() == b@.len(),
            i <= a@.len(),
            forall|k: int| 0 <= k < i ==> a@[k] == b@[k],
        decreases a@.len() - i,
    {
        if a[i] != b[i] {
            return false;
        }
        i = i + 1;
    }
    assert(a@ =~= b@);
    true
}

/// Whether `action` is the unstaging action for `path`: restoring the first
/// head-tree entry with that path, or removing the path when no entry has it.
pub open spec fn is_unstage_action(entry_paths: Seq<Vec<u8>>, path: Seq<u8>, action: UnstageAction) -> bool {
    match action {
        UnstageAction::RestoreEntry(i) => i < entry_paths.len() && entry_paths[i as int]@ == path
            && forall|k: int| 0 <= k < i ==> #[trigger] entry_paths[k]@ != path,
        UnstageAction::RemovePath => forall|k: int|
            0 <= k < entry_paths.len() ==> #[trigger] entry_paths[k]@ != path,
    }
}

/// Finds the first head-tree index entry whose path is `path`.
pub fn find_head_entry(entry_paths: &Vec<Vec<u8>>, path: &Vec<u8>) -> (r: Option<usize>)
    ensures
        match r {
            Some(i) => i < entry_paths@.len() && entry_paths@[i as int]@ == path@ && forall|k: int|
                0 <= k < i ==> #[trigger] entry_paths@[k]@ != path@,
            None => forall|k: int| 0 <= k < entry_paths@.len() ==> #[trigger] entry_paths@[k]@ != path@,
        },
{
    let mut i: usize = 0;
    while i < entry_paths.len()
        invariant
            i <= entry_paths@.len(),
            forall|k: int| 0 <= k < i ==> #[trigger] entry_paths@[k]@ != path@,
        decreases entry_paths@.len() - i,
    {
        if bytes_equal(&entry_paths[i], path) {
            return Some(i);
        }
        i = i + 1;
    }
    None
}

/// The unstaging action for one path, from the paths of the head tree's index entries.
pub fn unstage_action(entry_paths: &Vec<Vec<u8>>, path: &Vec<u8>) -> (r: UnstageAction)
    ensures
        is_unstage_action(entry_paths@, path@, r),
{
    match find_head_entry(entry_paths, path) {
        Some(j) => UnstageAction::RestoreEntry(j),
        None => UnstageAction::RemovePath,
    }
}

/// Plans unstaging: one action per path, in order, from the paths of the head
/// tree's index entries.
pub fn plan_unstage(entry_paths: &Vec<Vec<u8>>, paths: &Vec<Vec<u8>>) -> (r: Vec<UnstageAction>)
    ensures
        r@.len() == paths@.len(),
        forall|i: int|
            0 <= i < r@.len() ==> is_unstage_action(entry_paths@, (#[trigger] paths@[i])@, r@[i]),
{
    let mut r: Vec<UnstageAction> = Vec::new();
    let mut i: usize = 0;
    while i < paths.len()
        invariant
            i <= paths@.len(),
            r@.len() == i,
            forall|k: int|
                0 <= k < i ==> is_unstage_action(entry_paths@, (#[trigger] paths@[k])@, r@[k]),
        decreases paths@.len() - i,
    {
        let action = unstage_action(entry_paths, &paths[i]);
        r.push(action);
        i = i + 1;
    }
    r
}

/// Staging writes a file's content to the index when the file exists, and
/// drops the path from the index when it does not.
pub proof fn law_stage_adds_existing_and_removes_missing()
    ensures
        stage_action_for(true) == StageAction::AddPath,
        stage_action_for(false) == StageAction::RemovePath,
{
}

} // verus!
