# gitbutler

The decision logic of a git-backed project workspace, with its contracts and proofs.

- `src/status.rs`: classifying git status words, listing statuses by path and
  combining staged and unstaged changes.
- `src/diff.rs`: the context-line setting of a working-directory diff and the
  grouping of its printed lines by file.
- `src/matching.rs`: case-insensitive path matching, the walk's keep decision
  and the ordering of matched paths.
- `src/activity.rs`: selecting reflog activity after a start time.
- `src/staging.rs`: planning index updates for staging and unstaging.
- `src/handlers.rs`: the steps that each watcher event takes and how their
  outcomes make up the handler's result.
- `src/path_map.rs`: a map from paths to values without repeated paths.

`app/` holds the I/O around the library: the git repository, the file system
walk, the reflog, and the runner of watcher steps.
