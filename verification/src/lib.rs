//! The decision logic of a git-backed project workspace: classifying file
//! statuses, merging staged and unstaged changes, grouping working-directory
//! diffs by file, matching paths, planning index updates and routing watcher
//! events.

pub mod status;
pub mod path_map;
pub mod diff;
pub mod matching;
pub mod activity;
pub mod staging;
pub mod handlers;
