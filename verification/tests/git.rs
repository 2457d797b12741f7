use director_brain::adapters::git::observer::{
    commit_info, map_delta_type, normalize_path, parse_oid, short_sha, signature_display,
    CanonicalReading, CommitReading, DeltaKind, DeltaReading, FileStamp, HeadReading, OpenAction,
    OpenEvent, SignatureReading, WorkdirReading, MAX_WALK,
};
use director_brain::adapters::git::service::{
    CommitObservation, RepositoryReading, SyncReading, BASELINE_COMMIT_LIMIT,
};
use director_brain::{
    CommitInfo, EventKind, FileChange, FileChangeRecord, GitObserver, GitService, ProjectId,
    ProjectStateSnapshot, RepositoryError, RepositoryId, RepositoryStatus, RepositoryStore,
    StoredRepository, SyncStatus, Timestamp, WorktreeState,
};

fn at(secs: i64) -> Timestamp {
    Timestamp::from_unix(secs, 0).unwrap()
}

fn repo() -> RepositoryId {
    RepositoryId::from_string("REPO-1")
}

fn head(branch: Option<&str>, target: Option<&str>) -> Option<HeadReading> {
    Some(HeadReading {
        is_branch: branch.is_some(),
        shorthand: branch.map(str::to_string),
        target: target.map(str::to_string),
    })
}

fn delta(status: DeltaKind, old: Option<&str>, new: Option<&str>, id: Option<&str>) -> DeltaReading {
    DeltaReading {
        status,
        old_path: old.map(str::to_string),
        new_path: new.map(str::to_string),
        new_id: id.map(str::to_string),
        stamp: None,
        insertions: 0,
        deletions: 0,
    }
}

fn commit(sha: &str, secs: i64) -> CommitInfo {
    CommitInfo {
        sha: sha.into(),
        summary: "s".into(),
        author: "a".into(),
        committed_at: at(secs),
        parents: vec![],
        committer: "a".into(),
        message: "m".into(),
    }
}

#[test]
fn opening_checks_the_path_and_the_root() {
    let observer = GitObserver::new();
    assert_eq!(
        observer.open(OpenEvent::Requested("/repo".into())),
        OpenAction::Resolve("/repo".into())
    );
    assert!(matches!(
        observer.open(OpenEvent::Requested("repo".into())),
        OpenAction::Refuse(RepositoryError::UnsafePath { .. })
    ));
    let resolved = |reading: CanonicalReading| {
        observer.open(OpenEvent::Resolved { path: "/repo".into(), reading })
    };
    assert_eq!(
        resolved(CanonicalReading::Missing),
        OpenAction::Refuse(RepositoryError::PathMissing { path: "/repo".into() })
    );
    assert!(matches!(
        resolved(CanonicalReading::NotText),
        OpenAction::Refuse(RepositoryError::UnsafePath { .. })
    ));
    assert_eq!(
        resolved(CanonicalReading::Path("/real".into())),
        OpenAction::Open("/real".into())
    );
    let opened = |reading: WorkdirReading| {
        observer.open(OpenEvent::Opened { canonical: "/real".into(), reading })
    };
    assert_eq!(opened(WorkdirReading::Path("/real".into())), OpenAction::Use("/real".into()));
    assert_eq!(
        opened(WorkdirReading::Bare),
        OpenAction::Refuse(RepositoryError::NotARepository { path: "/real".into() })
    );
    assert!(matches!(
        opened(WorkdirReading::NotARepository),
        OpenAction::Refuse(RepositoryError::NotARepository { .. })
    ));
    assert!(matches!(
        opened(WorkdirReading::Unreadable),
        OpenAction::Refuse(RepositoryError::UnsafePath { .. })
    ));
    assert_eq!(
        opened(WorkdirReading::Path("/".into())),
        OpenAction::Refuse(RepositoryError::UnsafePath {
            reason: "path /real is inside a repository rooted at /, which is outside the \
                     authorized scope"
                .into()
        })
    );
}

#[test]
fn head_tells_branch_commit_and_status() {
    let observer = GitObserver::default();
    let on_branch = head(Some("main"), Some("abc"));
    assert_eq!(observer.read_branch(&on_branch), Some("main".into()));
    assert_eq!(observer.read_head_commit(&on_branch), Ok("abc".into()));
    assert_eq!(observer.read_status(&on_branch), RepositoryStatus::OnBranch);
    let detached = head(None, Some("abc"));
    assert_eq!(observer.read_branch(&detached), None);
    assert_eq!(observer.read_status(&detached), RepositoryStatus::DetachedHead);
    assert_eq!(observer.read_head_commit(&None), Err(RepositoryError::Empty));
    assert_eq!(observer.read_status(&None), RepositoryStatus::Empty);
}

#[test]
fn the_trunk_is_main_or_master_or_the_first() {
    let observer = GitObserver::new();
    let names = |names: &[&str]| names.iter().map(|n| n.to_string()).collect::<Vec<String>>();
    let trunk = |list: &[&str]| observer.read_default_branch(&names(list));
    assert_eq!(trunk(&["a", "master", "main"]), Some("main".into()));
    assert_eq!(trunk(&["a", "master"]), Some("master".into()));
    assert_eq!(trunk(&["trunk", "develop", "x"]), Some("develop".into()));
    assert_eq!(trunk(&[]), None);
}

#[test]
fn a_diff_becomes_records() {
    let observer = GitObserver::new();
    let mut untracked = delta(DeltaKind::Untracked, None, Some("new\\file.txt"), None);
    untracked.stamp = Some(FileStamp { len: 12, modified_secs: Some(34) });
    let deltas = vec![
        delta(DeltaKind::Deleted, Some("gone.rs"), Some("gone.rs"), Some("00")),
        delta(DeltaKind::Renamed, Some("old.rs"), Some("new.rs"), Some("beef")),
        untracked,
        delta(DeltaKind::Added, None, Some("odd"), None),
        delta(DeltaKind::Modified, None, None, Some("ff")),
    ];
    let records = observer.records_from_diff(&deltas, &repo(), "abc", at(1)).unwrap();
    let seen: Vec<(&str, Option<&str>, &str)> = records
        .iter()
        .map(|r| (r.path.as_str(), r.old_path.as_deref(), r.fingerprint.as_str()))
        .collect();
    assert_eq!(
        seen,
        vec![
            ("gone.rs", None, "deleted"),
            ("new.rs", Some("old.rs"), "beef"),
            ("new/file.txt", None, "len:12:mtime:34"),
            ("odd", None, "unknown"),
        ]
    );
    assert!(records.iter().all(|r| r.commit_sha == "abc" && r.insertions.is_none()));
    let bad = vec![delta(DeltaKind::Renamed, Some("a"), Some("a"), Some("1"))];
    assert!(matches!(
        observer.records_from_diff(&bad, &repo(), "abc", at(1)),
        Err(RepositoryError::MalformedChange { .. })
    ));
}

#[test]
fn the_working_tree_holds_staged_and_unstaged_changes() {
    let observer = GitObserver::new();
    let staged = vec![delta(DeltaKind::Added, None, Some("a"), Some("1"))];
    let unstaged = vec![delta(DeltaKind::Modified, Some("a"), Some("a"), Some("2"))];
    let tree = observer
        .read_worktree(&repo(), &head(Some("main"), Some("abc")), &staged, &unstaged, at(1))
        .unwrap();
    assert!(!tree.clean);
    assert_eq!(tree.added.len(), 1);
    assert_eq!(tree.modified.len(), 1);
    assert_eq!(tree.modified[0].commit_sha, "abc");
    let empty = observer.read_worktree(&repo(), &None, &vec![], &vec![], at(1)).unwrap();
    assert!(empty.clean);
}

#[test]
fn a_commit_changes_files_with_line_counts() {
    let observer = GitObserver::new();
    let mut a = delta(DeltaKind::Added, None, Some("a"), Some("same"));
    a.insertions = 3;
    let mut b = delta(DeltaKind::Modified, Some("b"), Some("b"), Some("same"));
    b.insertions = 4;
    b.deletions = 1;
    let mut c = delta(DeltaKind::Deleted, Some("c"), None, None);
    c.deletions = 3;
    let mut d = delta(DeltaKind::Deleted, Some("d"), None, None);
    d.deletions = 5;
    let records =
        observer.read_commit_changes(&repo(), "sha", &vec![a, b, c, d], at(1)).unwrap();
    let seen: Vec<(&str, Option<u32>, Option<u32>, &str)> = records
        .iter()
        .map(|r| (r.path.as_str(), r.insertions, r.deletions, r.fingerprint.as_str()))
        .collect();
    assert_eq!(
        seen,
        vec![
            ("a", Some(3), Some(0), "same"),
            ("b", Some(4), Some(1), "same"),
            ("c", Some(0), Some(3), "deleted"),
            ("d", Some(0), Some(5), "deleted"),
        ]
    );
}

#[test]
fn a_diff_tells_what_changed_in_the_working_tree() {
    let observer = GitObserver::new();
    let mut moved = delta(DeltaKind::Copied, Some("from\\x"), Some("to\\x"), Some("1"));
    moved.insertions = 2;
    let mut same = delta(DeltaKind::Modified, Some("m"), Some("m"), Some("1"));
    same.deletions = u32::MAX;
    let diffs = observer.read_diff(
        &vec![moved, same],
        &head(Some("main"), Some("abc")),
        &Some("main".into()),
        at(5),
    );
    assert_eq!(diffs[0].old_path, Some("from/x".into()));
    assert_eq!(diffs[0].new_path, "to/x");
    assert_eq!((diffs[0].insertions, diffs[0].deletions), (2, 0));
    assert_eq!((diffs[1].insertions, diffs[1].deletions), (0, u32::MAX));
    assert_eq!(diffs[0].commit_sha, "abc");
    assert_eq!(diffs[0].branch, Some("main".into()));
    assert_eq!(diffs[1].old_path, None);
    assert_eq!(diffs[1].change_type, FileChange::Modified);
}

#[test]
fn kinds_and_paths_are_put_in_other_words() {
    assert_eq!(map_delta_type(DeltaKind::Ignored), FileChange::Untracked);
    assert_eq!(map_delta_type(DeltaKind::Typechange), FileChange::Modified);
    assert_eq!(map_delta_type(DeltaKind::Conflicted), FileChange::Conflicted);
    assert_eq!(normalize_path("a\\b/c"), "a/b/c");
    assert_eq!(short_sha("0123456789"), "0123456");
    assert_eq!(short_sha("0123"), "0123");
}

#[test]
fn commits_are_read_whole() {
    let signature = |name: Option<&str>, email: Option<&str>| SignatureReading {
        name: name.map(str::to_string),
        email: email.map(str::to_string),
        seconds: 77,
    };
    assert_eq!(signature_display(&signature(Some("Ada"), Some("ada@x"))), "Ada <ada@x>");
    assert_eq!(signature_display(&signature(Some("Ada"), None)), "Ada");
    assert_eq!(signature_display(&signature(None, Some("ada@x"))), "");
    let reading = CommitReading {
        id: "abc".into(),
        summary: None,
        author: signature(Some("Ada"), Some("ada@x")),
        committer: signature(Some("Bob"), None),
        parents: vec!["p1".into(), "p2".into()],
        message: Some("first\n\nmore".into()),
    };
    let info = commit_info(&reading);
    assert_eq!(info.sha, "abc");
    assert_eq!(info.summary, "");
    assert_eq!(info.author, "Ada <ada@x>");
    assert_eq!(info.committer, "Bob");
    assert_eq!(info.parents, vec!["p1", "p2"]);
    assert_eq!(info.message, "first\n\nmore");
    assert_eq!(info.committed_at, at(77));
    let observer = GitObserver::new();
    assert_eq!(observer.read_commit("abc", Some(reading)).unwrap().sha, "abc");
    assert_eq!(
        observer.read_commit("zzz", None).unwrap_err().to_string(),
        "git observation failed: unknown commit zzz"
    );
    assert_eq!(observer.read_recent_commits(vec![commit("a", 2), commit("b", 1)], 1).len(), 1);
}

#[test]
fn whole_object_ids_stand_for_themselves() {
    let whole = "ABCDEF0123456789abcdef0123456789ABCDEF01";
    assert_eq!(parse_oid(whole, None).unwrap(), whole.to_lowercase());
    assert_eq!(parse_oid("abc1234", Some("resolved".into())).unwrap(), "resolved");
    let odd = "g".repeat(40);
    assert_eq!(parse_oid(&odd, Some("tag".into())).unwrap(), "tag");
    assert_eq!(
        parse_oid("nope", None).unwrap_err().to_string(),
        "git observation failed: not a commit sha: nope"
    );
}

fn walk(previous: Option<&str>, head: &str, anchor: Option<&str>, shas: &[&str]) -> (Vec<String>, bool) {
    let window: Vec<CommitInfo> = shas.iter().map(|sha| commit(sha, 1)).collect();
    let walk = GitObserver::new().walk_new_commits(previous, head, anchor, &window);
    (walk.commits.into_iter().map(|c| c.sha).collect(), walk.history_rewritten)
}

fn shas(list: &[&str]) -> Vec<String> {
    list.iter().map(|s| s.to_string()).collect()
}

#[test]
fn a_walk_is_the_range_since_the_last_observation() {
    assert_eq!(walk(Some("c"), "c", Some("c"), &["c", "b"]), (vec![], false));
    assert_eq!(walk(Some(""), "", None, &[]), (vec![], false));
    assert_eq!(walk(Some("a"), "c", Some("a"), &["c", "b", "a", "z"]), (shas(&["b", "c"]), false));
    assert_eq!(walk(Some("x"), "c", Some("x"), &["c", "b"]), (shas(&["b", "c"]), true));
    assert_eq!(walk(Some("x"), "c", None, &["c"]), (shas(&["c"]), true));
    assert_eq!(walk(None, "c", None, &["c", "b"]), (shas(&["b", "c"]), false));
    assert_eq!(walk(Some(""), "c", None, &["c", "b"]), (shas(&["b", "c"]), false));
}

#[test]
fn a_walk_is_bounded() {
    let names: Vec<String> = (0..MAX_WALK + 10).map(|n| format!("s{n}")).collect();
    let list: Vec<&str> = names.iter().map(|s| s.as_str()).collect();
    let (found, rewritten) = walk(Some("s205"), "s0", Some("s205"), &list);
    assert_eq!(found.len(), MAX_WALK);
    assert_eq!(found.last().unwrap(), "s0");
    assert!(rewritten);
}

fn reading(head: &str, branch: Option<&str>, worktree: WorktreeState) -> RepositoryReading {
    RepositoryReading {
        branch: branch.map(str::to_string),
        head: head.into(),
        status: if head.is_empty() { RepositoryStatus::Empty } else { RepositoryStatus::OnBranch },
        remote_url: None,
        default_branch: Some("main".into()),
        worktree,
    }
}

fn register(head: &str, recent: Vec<CommitInfo>) -> StoredRepository {
    let (repository, stored) = GitService::new()
        .initialize_repository(
            &RepositoryStore::new("/state"),
            ProjectId::from_string("PROJ-1"),
            repo(),
            "/repo/x",
            reading(head, Some("main"), WorktreeState::default()),
            recent,
            false,
            at(10),
        )
        .unwrap();
    assert_eq!(repository, stored.repository);
    stored
}

fn sync_reading(head: &str, branch: &str, commits: Vec<CommitObservation>) -> SyncReading {
    SyncReading {
        branch: Some(branch.into()),
        head: head.into(),
        status: if head.is_empty() { RepositoryStatus::Empty } else { RepositoryStatus::OnBranch },
        worktree: WorktreeState::default(),
        commits,
    }
}

fn change(path: &str, sha: &str) -> FileChangeRecord {
    FileChangeRecord::new(repo(), path, None, FileChange::Modified, "fp", sha, at(20)).unwrap()
}

#[test]
fn a_status_view_carries_the_snapshot_and_record() {
    let snapshot = ProjectStateSnapshot::initial(
        ProjectId::from_string("PROJ-1"),
        RepositoryId::from_string("REPO-1"),
        Some("main".into()),
        "abc".into(),
        WorktreeState::default(),
        Timestamp::now(),
    );
    assert_eq!(snapshot.state_version, 1);
    let stored = register("abc", vec![]);
    let status = GitService::new().status(stored.clone());
    assert_eq!(status.repository, stored.repository);
    assert_eq!(status.snapshot, stored.snapshot);
}

#[test]
fn registering_establishes_the_baseline() {
    let recent: Vec<CommitInfo> =
        (0..60).map(|n| commit(&format!("c{n}"), 1000 - n)).collect();
    let stored = register("c0", recent);
    assert_eq!(stored.commits.len(), BASELINE_COMMIT_LIMIT);
    assert_eq!(stored.commits[0].sha, "c0");
    assert_eq!(stored.events.len(), 1);
    assert_eq!(stored.events[0].kind, EventKind::RepositorySynced);
    assert_eq!(stored.repository.last_observed_commit, Some("c0".into()));
    assert_eq!(stored.snapshot.state_version, 1);
    let refuse = |id: &str, taken: bool| {
        GitService::new()
            .initialize_repository(
                &RepositoryStore::new("/state"),
                ProjectId::from_string("PROJ-1"),
                RepositoryId::from_string(id),
                "/repo/x",
                reading("c0", None, WorktreeState::default()),
                vec![],
                taken,
                at(1),
            )
            .unwrap_err()
            .to_string()
    };
    assert_eq!(
        refuse("R", true),
        "repository store failed: repository already registered: R"
    );
    assert_eq!(
        refuse("a/b", false),
        "repository store failed: repository id is not a safe filename: a/b"
    );
}

#[test]
fn a_sync_without_changes_records_nothing() {
    let service = GitService::new();
    let mut stored = register("c0", vec![]);
    let before = stored.events.clone();
    let result =
        service.sync_repository(&repo(), &mut stored, sync_reading("c0", "main", vec![]), at(20));
    assert_eq!(result.status, SyncStatus::NoChange);
    assert_eq!(result.events_created, 0);
    assert_eq!(result.state_version, 1);
    assert!(!result.branch_changed && !result.commit_changed && !result.working_tree_changed);
    assert_eq!(result.previous_commit, Some("c0".into()));
    assert_eq!(stored.events, before);
    assert_eq!(stored.repository.observation_version, 2);
}

#[test]
fn a_repository_without_commits_reports_its_baseline() {
    let mut stored = register("", vec![commit("ignored", 1)]);
    assert!(stored.commits.is_empty());
    let result = GitService::new().sync_repository(
        &repo(),
        &mut stored,
        sync_reading("", "main", vec![]),
        at(20),
    );
    assert_eq!(result.status, SyncStatus::Baseline);
    assert_eq!(result.previous_commit, None);
    assert_eq!(stored.repository.last_observed_commit, None);
}

#[test]
fn a_sync_records_commits_files_and_branches_once() {
    let service = GitService::new();
    let mut stored = register("c0", vec![]);
    let observed = || {
        vec![
            CommitObservation { commit: commit("c1", 1), changes: vec![change("a", "c1")] },
            CommitObservation {
                commit: commit("c2", 2),
                changes: vec![change("a", "c2"), change("b", "c2")],
            },
        ]
    };
    let result = service.sync_repository(
        &repo(),
        &mut stored,
        sync_reading("c2", "feature", observed()),
        at(20),
    );
    assert_eq!(result.status, SyncStatus::Synced);
    assert!(result.branch_changed && result.commit_changed && !result.working_tree_changed);
    assert_eq!(result.events_created, 7);
    assert_eq!(result.state_version, 2);
    assert_eq!(result.current_commit, "c2");
    assert_eq!(stored.snapshot.last_observed_commit, "c2");
    assert_eq!(stored.commits.len(), 2);
    assert_eq!(stored.file_changes.len(), 3);
    let again = service.sync_repository(
        &repo(),
        &mut stored,
        sync_reading("c2", "feature", vec![]),
        at(30),
    );
    assert_eq!(again.status, SyncStatus::NoChange);
    assert_eq!(again.state_version, 2);
    let counts = service.event_counts(stored.clone());
    assert_eq!(counts[0], (EventKind::FileModified, 3));
    assert_eq!(counts.iter().map(|(_, n)| n).sum::<usize>(), 8);
    let events = service.events(stored.clone());
    assert_eq!(events[0].timestamp, at(20));
    assert_eq!(events.last().unwrap().timestamp, at(10));
    assert_eq!(service.changes(stored.clone()).len(), 3);
    assert_eq!(service.commits(stored.clone())[0].sha, "c2");
    assert_eq!(service.snapshot(stored.clone()), stored.snapshot);
    assert_eq!(service.repository(stored.clone()), stored.repository);
}

#[test]
fn a_dirty_tree_makes_events_once() {
    let service = GitService::new();
    let mut stored = register("c0", vec![]);
    let dirty = |secs: i64| {
        let mut reading = sync_reading("c0", "main", vec![]);
        reading.worktree = WorktreeState::from_changes(vec![FileChangeRecord::new(
            repo(),
            "x",
            None,
            FileChange::Untracked,
            "fp",
            "c0",
            at(secs),
        )
        .unwrap()]);
        reading
    };
    let first = service.sync_repository(&repo(), &mut stored, dirty(20), at(20));
    assert!(first.working_tree_changed);
    assert_eq!(first.events_created, 1);
    assert_eq!(first.state_version, 2);
    let second = service.sync_repository(&repo(), &mut stored, dirty(30), at(30));
    assert!(!second.working_tree_changed);
    assert_eq!(second.events_created, 0);
    assert_eq!(second.state_version, 2);
}

#[test]
fn projects_find_their_repositories() {
    let service = GitService::new();
    let mut b = register("c0", vec![]);
    b.repository.id = RepositoryId::from_string("B");
    let mut a = register("c1", vec![]);
    a.repository.id = RepositoryId::from_string("A");
    let mut other = register("c2", vec![]);
    other.repository.project_id = ProjectId::from_string("PROJ-2");
    let project = ProjectId::from_string("PROJ-1");
    let listed = vec![other, b, a];
    assert!(!service.belongs_to(&listed[0], &project));
    assert_eq!(service.snapshot_for_project(&project, &listed).unwrap().head_commit, "c0");
    let ids: Vec<String> = service
        .repositories_for_project(&project, &listed)
        .into_iter()
        .map(|r| r.id.to_string())
        .collect();
    assert_eq!(ids, vec!["A", "B"]);
    assert_eq!(
        service
            .snapshot_for_project(&ProjectId::from_string("none"), &listed)
            .unwrap_err(),
        RepositoryError::NotRegistered("none".into())
    );
}

fn edited(path: &str, fingerprint: &str) -> SyncReading {
    let mut reading = sync_reading("c0", "main", vec![]);
    reading.worktree = WorktreeState::from_changes(vec![FileChangeRecord::new(
        repo(),
        path,
        None,
        FileChange::Modified,
        fingerprint,
        "c0",
        at(20),
    )
    .unwrap()]);
    reading
}

#[test]
fn a_file_edited_again_at_one_head_is_a_new_fact() {
    let service = GitService::new();
    let mut stored = register("c0", vec![]);
    let first = service.sync_repository(&repo(), &mut stored, edited("a.rs", "fp1"), at(20));
    assert_eq!((first.status, first.events_created), (SyncStatus::Synced, 1));
    let second = service.sync_repository(&repo(), &mut stored, edited("a.rs", "fp2"), at(30));
    assert_eq!(second.status, SyncStatus::Synced);
    assert!(second.working_tree_changed);
    assert_eq!(second.events_created, 1);
    assert_eq!(second.state_version, 3);
    let third = service.sync_repository(&repo(), &mut stored, edited("a.rs", "fp2"), at(40));
    assert_eq!((third.status, third.events_created), (SyncStatus::NoChange, 0));
    assert_eq!(third.state_version, 3);
}

#[test]
fn a_sync_that_finds_a_difference_is_never_no_change() {
    let service = GitService::new();
    let mut stored = register("c0", vec![]);
    for (branch, at_secs) in [("feature", 20), ("main", 30), ("feature", 40), ("main", 50)] {
        let result = service.sync_repository(
            &repo(),
            &mut stored,
            sync_reading("c0", branch, vec![]),
            at(at_secs),
        );
        assert!(result.branch_changed);
        assert_eq!(result.status, SyncStatus::Synced);
    }
    assert_eq!(stored.snapshot.state_version, 5);
    service.sync_repository(&repo(), &mut stored, edited("a.rs", "fp1"), at(60));
    service.sync_repository(&repo(), &mut stored, sync_reading("c0", "main", vec![]), at(70));
    let back = service.sync_repository(&repo(), &mut stored, edited("a.rs", "fp1"), at(80));
    assert_eq!((back.status, back.events_created), (SyncStatus::Synced, 0));
    assert!(back.working_tree_changed);
}

#[test]
fn a_first_sync_of_an_empty_repository_with_files_is_a_change() {
    let mut stored = register("", vec![]);
    let mut reading = edited("a.rs", "fp1");
    reading.head = "".into();
    reading.status = RepositoryStatus::Empty;
    let result = GitService::new().sync_repository(&repo(), &mut stored, reading, at(20));
    assert_eq!(result.status, SyncStatus::Synced);
    assert!(result.working_tree_changed);
}
