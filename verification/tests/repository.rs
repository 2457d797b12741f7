use director_brain::{
    CommitInfo, EventData, EventKind, FileChange, FileChangeRecord, ObservationEvent, ProjectId,
    ProjectStateSnapshot, Repository, RepositoryError, RepositoryId, RepositoryStatus,
    StateChangeKind, Timestamp, WorktreeState, EVENT_SOURCE_GIT,
};

fn repo_id() -> RepositoryId {
    RepositoryId::from_string("REPO-1")
}

fn project_id() -> ProjectId {
    ProjectId::from_string("PROJ-1")
}

fn record(path: &str, change_type: FileChange, commit: &str) -> FileChangeRecord {
    record_fp(path, change_type, commit, "fp-default")
}

fn record_fp(path: &str, change_type: FileChange, commit: &str, fp: &str) -> FileChangeRecord {
    let old_path: Option<String> =
        if change_type.has_old_path() { Some(format!("old/{path}")) } else { None };
    FileChangeRecord::new(repo_id(), path, old_path, change_type, fp, commit, Timestamp::now())
        .expect("a well-formed record")
}

fn snapshot(
    commit: &str,
    branch: Option<&str>,
    changes: Vec<FileChangeRecord>,
) -> ProjectStateSnapshot {
    ProjectStateSnapshot::initial(
        project_id(),
        repo_id(),
        branch.map(str::to_string),
        commit.to_string(),
        WorktreeState::from_changes(changes),
        Timestamp::now(),
    )
}

fn refusal(path: &str) -> String {
    Repository::validate_path(path).unwrap_err().to_string()
}

#[test]
fn an_absolute_path_is_accepted() {
    assert!(Repository::validate_path("/repo/checkout").is_ok());
    assert!(Repository::validate_path("C:\\repo\\checkout").is_ok());
    assert!(Repository::validate_path("D:/repo/checkout").is_ok());
}

#[test]
fn a_relative_path_is_rejected() {
    assert!(Repository::validate_path("repo/checkout").is_err());
    assert!(Repository::validate_path("./repo").is_err());
}

#[test]
fn a_path_traversal_is_rejected() {
    assert!(Repository::validate_path("/repo/../etc").is_err());
    assert!(Repository::validate_path("/repo/..").is_err());
}

#[test]
fn an_empty_path_is_rejected() {
    assert!(Repository::validate_path("").is_err());
    assert!(Repository::validate_path(" /repo").is_err());
}

#[test]
fn a_refused_path_is_explained() {
    assert_eq!(refusal(""), "unsafe repository path: path is empty");
    assert_eq!(
        refusal("a\t\"b\""),
        "unsafe repository path: repository path must be absolute, got \"a\\t\\\"b\\\"\""
    );
    assert_eq!(
        refusal("//"),
        "unsafe repository path: repository path must not be the filesystem root"
    );
    assert_eq!(
        refusal("/repo/.."),
        "unsafe repository path: repository path must not contain a `..` component"
    );
}

#[test]
fn repository_errors_have_readable_messages() {
    assert_eq!(
        RepositoryError::NotARepository { path: "/x".into() }.to_string(),
        "not a git repository: /x"
    );
    assert_eq!(
        RepositoryError::PathMissing { path: "/x".into() }.to_string(),
        "path does not exist: /x"
    );
    assert_eq!(RepositoryError::Empty.to_string(), "repository has no commits yet");
    assert_eq!(
        RepositoryError::ConcurrentModification { stored: 99, observed: 1 }.to_string(),
        "concurrent modification: stored version 99 is newer than 1"
    );
    assert_eq!(
        RepositoryError::ObservationFailed("walk".into()).to_string(),
        "git observation failed: walk"
    );
    assert_eq!(
        RepositoryError::NotRegistered("R".into()).to_string(),
        "repository not registered: R"
    );
}

#[test]
fn a_rename_requires_an_old_path() {
    let err = FileChangeRecord::new(
        repo_id(),
        "src/new.rs",
        None,
        FileChange::Renamed,
        "fp",
        "abc",
        Timestamp::now(),
    )
    .unwrap_err();
    assert!(matches!(err, RepositoryError::MalformedChange { .. }));
}

#[test]
fn a_modified_change_must_not_carry_an_old_path() {
    assert!(FileChangeRecord::new(
        repo_id(),
        "src/lib.rs",
        Some("src/other.rs".to_string()),
        FileChange::Modified,
        "fp",
        "abc",
        Timestamp::now(),
    )
    .is_err());
}

#[test]
fn line_counts_are_optional_but_attachable() {
    let r = record("src/lib.rs", FileChange::Modified, "abc").with_line_counts(10, 2);
    assert_eq!(r.insertions, Some(10));
    assert_eq!(r.deletions, Some(2));
    assert_eq!(record("a", FileChange::Added, "b").insertions, None);
}

#[test]
fn an_empty_change_list_is_clean() {
    assert!(WorktreeState::from_changes(vec![]).clean);
    assert!(WorktreeState::default().clean);
}

#[test]
fn changes_are_bucketed_by_kind() {
    let state = WorktreeState::from_changes(vec![
        record("a.rs", FileChange::Modified, "c1"),
        record("b.rs", FileChange::Added, "c1"),
        record("c.rs", FileChange::Deleted, "c1"),
        record("d.rs", FileChange::Renamed, "c1"),
        record("e.rs", FileChange::Copied, "c1"),
        record("f.rs", FileChange::Untracked, "c1"),
    ]);
    assert!(!state.clean);
    assert_eq!(state.modified.len(), 1);
    assert_eq!(state.added.len(), 1);
    assert_eq!(state.deleted.len(), 1);
    assert_eq!(state.renamed.len(), 1);
    assert_eq!(state.copied.len(), 1);
    assert_eq!(state.untracked.len(), 1);
    assert_eq!(state.all_changes().len(), 6);
}

#[test]
fn all_changes_come_list_by_list_and_by_path_within_a_list() {
    let state = WorktreeState::from_changes(vec![
        record("a.rs", FileChange::Untracked, "c1"),
        record("d.rs", FileChange::Added, "c1"),
        record("z.rs", FileChange::Modified, "c1"),
        record("c.rs", FileChange::Added, "c1"),
        record("y.rs", FileChange::Modified, "c1"),
    ]);
    let all = state.all_changes();
    let paths: Vec<&str> = all.iter().map(|r| r.path.as_str()).collect();
    assert_eq!(paths, vec!["y.rs", "z.rs", "c.rs", "d.rs", "a.rs"]);
}

#[test]
fn a_conflicted_file_is_reported_as_modified_not_dropped() {
    let state = WorktreeState::from_changes(vec![record("a.rs", FileChange::Conflicted, "c1")]);
    assert_eq!(state.modified.len(), 1);
}

#[test]
fn a_renamed_file_keeps_both_paths() {
    let state = WorktreeState::from_changes(vec![record("a.rs", FileChange::Renamed, "c1")]);
    let renamed = &state.renamed[0];
    assert_eq!(renamed.path, "a.rs");
    assert_eq!(renamed.old_path.as_deref(), Some("old/a.rs"));
}

#[test]
fn identical_snapshots_have_no_changes() {
    let a = snapshot("abc", Some("main"), vec![]);
    let b = snapshot("abc", Some("main"), vec![]);
    assert!(a.state_changes(&b).is_empty());
    assert!(!a.has_important_change(&b));
}

#[test]
fn a_commit_change_is_detected() {
    let a = snapshot("abc", Some("main"), vec![]);
    let b = snapshot("def", Some("main"), vec![]);
    assert_eq!(a.state_changes(&b), vec![StateChangeKind::CommitChanged]);
}

#[test]
fn a_branch_change_is_detected_and_reported_first() {
    let a = snapshot("abc", Some("main"), vec![]);
    let b = snapshot("def", Some("feature/auth"), vec![]);
    let changes = a.state_changes(&b);
    assert_eq!(
        changes,
        vec![StateChangeKind::BranchChanged, StateChangeKind::CommitChanged]
    );
}

#[test]
fn a_new_worktree_change_is_detected() {
    let a = snapshot("abc", Some("main"), vec![]);
    let b = snapshot(
        "abc",
        Some("main"),
        vec![record("auth.py", FileChange::Modified, "abc")],
    );
    assert_eq!(a.state_changes(&b), vec![StateChangeKind::WorktreeChanged]);
}

#[test]
fn the_same_uncommitted_change_is_not_a_new_change() {
    let previous =
        WorktreeState::from_changes(vec![record("auth.py", FileChange::Modified, "abc")]);
    let current = WorktreeState::from_changes(vec![record("auth.py", FileChange::Modified, "abc")]);
    assert!(current.new_changes(&previous).is_empty());
}

#[test]
fn the_same_edit_after_a_new_commit_is_a_new_change() {
    let previous =
        WorktreeState::from_changes(vec![record("auth.py", FileChange::Modified, "abc")]);
    let current = WorktreeState::from_changes(vec![record("auth.py", FileChange::Modified, "def")]);
    assert_eq!(current.new_changes(&previous).len(), 1);
}

#[test]
fn an_edit_of_the_same_file_is_a_new_change() {
    let previous =
        WorktreeState::from_changes(vec![record_fp("auth.py", FileChange::Added, "abc", "fp1")]);
    let current =
        WorktreeState::from_changes(vec![record_fp("auth.py", FileChange::Modified, "abc", "fp2")]);
    assert_eq!(current.new_changes(&previous).len(), 1);
}

#[test]
fn re_observing_the_same_content_is_not_a_new_change() {
    let previous =
        WorktreeState::from_changes(vec![record_fp("auth.py", FileChange::Added, "abc", "fp1")]);
    let current =
        WorktreeState::from_changes(vec![record_fp("auth.py", FileChange::Added, "abc", "fp1")]);
    assert!(current.new_changes(&previous).is_empty());
}

#[test]
fn a_committed_change_is_not_reported_as_a_deletion() {
    let previous =
        WorktreeState::from_changes(vec![record("auth.py", FileChange::Modified, "abc")]);
    let current = WorktreeState::from_changes(vec![]);
    assert!(current.new_changes(&previous).is_empty());
}

#[test]
fn a_transition_from_dirty_to_clean_is_a_worktree_change() {
    let a = snapshot("abc", Some("main"), vec![record("x", FileChange::Modified, "abc")]);
    let b = snapshot("abc", Some("main"), vec![]);
    assert_eq!(a.state_changes(&b), vec![StateChangeKind::WorktreeChanged]);
}

#[test]
fn the_initial_snapshot_establishes_version_one() {
    assert_eq!(snapshot("abc", Some("main"), vec![]).state_version, 1);
}

#[test]
fn bumping_advances_the_version_by_one() {
    let s = snapshot("abc", Some("main"), vec![]);
    assert_eq!(s.with_bumped_version().state_version, 2);
    assert_eq!(s.with_bumped_version().with_bumped_version().state_version, 3);
}

#[test]
fn the_same_fact_yields_the_same_event_id() {
    let a = ObservationEvent::key_for(&repo_id(), EventKind::CommitCreated, "abc123", None, None);
    let b = ObservationEvent::key_for(&repo_id(), EventKind::CommitCreated, "abc123", None, None);
    assert_eq!(a, b);
}

#[test]
fn different_facts_yield_different_event_ids() {
    let commit = ObservationEvent::key_for(&repo_id(), EventKind::CommitCreated, "abc", None, None);
    let other = ObservationEvent::key_for(&repo_id(), EventKind::CommitCreated, "def", None, None);
    let file = ObservationEvent::key_for(
        &repo_id(),
        EventKind::FileModified,
        "abc",
        Some("auth.py"),
        None,
    );
    assert_ne!(commit, other);
    assert_ne!(commit, file);
}

#[test]
fn event_ids_differ_across_repositories() {
    let a = ObservationEvent::key_for(
        &RepositoryId::from_string("REPO-1"),
        EventKind::CommitCreated,
        "abc",
        None,
        None,
    );
    let b = ObservationEvent::key_for(
        &RepositoryId::from_string("REPO-2"),
        EventKind::CommitCreated,
        "abc",
        None,
        None,
    );
    assert_ne!(a, b);
}

#[test]
fn a_rename_and_a_modification_of_the_same_path_differ() {
    let modified = ObservationEvent::key_for(
        &repo_id(),
        EventKind::FileModified,
        "abc",
        Some("auth.py"),
        None,
    );
    let renamed = ObservationEvent::key_for(
        &repo_id(),
        EventKind::FileRenamed,
        "abc",
        Some("auth/service.py"),
        Some("auth.py"),
    );
    assert_ne!(modified, renamed);
}

#[test]
fn event_ids_are_digests_of_their_facts() {
    let commit = ObservationEvent::key_for(&repo_id(), EventKind::CommitCreated, "abc", None, None);
    assert_eq!(commit.as_str(), "EVT-48edf5cbe8f5400d");
    let renamed = ObservationEvent::key_for(
        &repo_id(),
        EventKind::FileRenamed,
        "abc",
        Some("auth/service.py"),
        Some("auth.py"),
    );
    assert_eq!(renamed.as_str(), "EVT-19fed2d8c0f697d4");
    assert_eq!(
        ObservationEvent::key_input(&repo_id(), EventKind::FileAdded, "a", Some("p"), None),
        b"REPO-1\0file_added\0a\0p\0".to_vec()
    );
}

#[test]
fn every_change_kind_has_an_event_kind() {
    assert_eq!(EventKind::for_file_change(FileChange::Added), Some(EventKind::FileAdded));
    assert_eq!(EventKind::for_file_change(FileChange::Conflicted), Some(EventKind::FileModified));
}

#[test]
fn a_file_event_can_be_built_from_a_record() {
    let event = ObservationEvent::file(
        record("auth.py", FileChange::Added, "abc"),
        &project_id(),
        Timestamp::now(),
    )
    .expect("an added file has an event");
    assert_eq!(event.kind, EventKind::FileAdded);
    assert!(event.event_id.as_str().starts_with("EVT-"));
    assert_eq!(event.source, EVENT_SOURCE_GIT);
}

#[test]
fn an_untracked_file_maps_to_a_file_added_event() {
    assert_eq!(EventKind::for_file_change(FileChange::Untracked), Some(EventKind::FileAdded));
}

#[test]
fn events_carry_their_facts() {
    let now = Timestamp::now();
    let commit = CommitInfo {
        sha: "abc".into(),
        summary: "one".into(),
        author: "ada".into(),
        committed_at: now,
        parents: vec!["000".into()],
        committer: "ada".into(),
        message: "one\n".into(),
    };
    let event = ObservationEvent::commit(&repo_id(), &project_id(), commit.clone(), now);
    assert_eq!(event.kind, EventKind::CommitCreated);
    assert_eq!(event.data, EventData::Commit(commit));
    let moved = ObservationEvent::branch_change(
        &repo_id(),
        &project_id(),
        Some("main".into()),
        None,
        "abc",
        now,
    );
    assert_eq!(moved.data, EventData::Branch { from: Some("main".into()), to: None });
    let sync = ObservationEvent::sync(&snapshot("abc", Some("main"), vec![]), now);
    assert_eq!(
        sync.data,
        EventData::Sync {
            commit: "abc".into(),
            branch: Some("main".into()),
            working_tree_clean: true
        }
    );
}

#[test]
fn an_observation_is_recorded_on_the_repository() {
    let mut repo = Repository::new(
        repo_id(),
        project_id(),
        "/repo/checkout",
        Some("https://example.com/checkout.git".into()),
        Some("main".into()),
        Some("feature/auth".into()),
        "a81c2d9f00".into(),
        RepositoryStatus::OnBranch,
        Some("a81c2d9f00".into()),
    );
    assert_eq!(repo.short_commit(), "a81c2d9");
    assert_eq!(repo.observation_version, 1);
    repo.mark_observed(None, "def".into(), RepositoryStatus::DetachedHead);
    assert_eq!(repo.observation_version, 2);
    assert_eq!(repo.current_branch, None);
    assert_eq!(repo.short_commit(), "def");
    repo.set_last_observed_commit("def".into());
    assert_eq!(repo.last_observed_commit, Some("def".into()));
}

#[test]
fn new_files_are_additions() {
    assert!(FileChange::Added.is_addition());
    assert!(FileChange::Untracked.is_addition());
    assert!(!FileChange::Modified.is_addition());
    assert!(!FileChange::Renamed.is_addition());
}

#[test]
fn a_changed_record_is_stamped_with_the_clock() {
    let past = Timestamp::from_unix(-1, 0).unwrap();
    let mut repo = Repository::new(
        repo_id(),
        project_id(),
        "/repo/checkout",
        None,
        None,
        None,
        "abc".into(),
        RepositoryStatus::OnBranch,
        None,
    );
    repo.touch_at(past);
    assert_eq!(repo.updated_at, past);
    repo.touch();
    assert!(past.is_before(repo.updated_at));
    assert_eq!(repo.observation_version, 1);
}

#[test]
fn a_file_that_leaves_or_changes_its_state_is_a_worktree_change() {
    let x = || record("x", FileChange::Modified, "abc");
    let both = snapshot("abc", Some("main"), vec![x(), record("y", FileChange::Added, "abc")]);
    let one = snapshot("abc", Some("main"), vec![x()]);
    assert_eq!(one.state_changes(&both), vec![StateChangeKind::WorktreeChanged]);
    let removed = snapshot("abc", Some("main"), vec![record("x", FileChange::Deleted, "abc")]);
    assert_eq!(removed.state_changes(&one), vec![StateChangeKind::WorktreeChanged]);
    assert!(one.state_changes(&snapshot("abc", Some("main"), vec![x()])).is_empty());
    assert!(one.working_tree.has_same_changes(&snapshot("abc", None, vec![x()]).working_tree));
}

#[test]
fn two_contents_of_one_file_are_two_facts() {
    let event = |fp: &str| {
        let change = record_fp("a.rs", FileChange::Modified, "abc", fp);
        ObservationEvent::file(change, &project_id(), Timestamp::now()).unwrap()
    };
    assert_eq!(event("fp1").event_id.as_str(), "EVT-f119a7c04f7b5322");
    assert_eq!(event("fp2").event_id.as_str(), "EVT-0e3f59b665d2d34e");
    assert_eq!(event("fp1").event_id, event("fp1").event_id);
    let change = record_fp("a.rs", FileChange::Modified, "abc", "fp1");
    assert_eq!(
        ObservationEvent::content_key_input(&change, EventKind::FileModified),
        b"REPO-1\0file_modified\0abc\0a.rs\0\0fp1".to_vec()
    );
}

#[test]
fn an_event_id_is_a_prefix_and_sixteen_hex_digits() {
    for anchor in ["", "abc", "a longer anchor, with ümlauts"] {
        let id = ObservationEvent::key_for(&repo_id(), EventKind::CommitCreated, anchor, None, None);
        assert_eq!(id.as_str().len(), 20);
        assert!(id.as_str().starts_with("EVT-"));
        assert!(id.as_str()[4..].chars().all(|c| matches!(c, '0'..='9' | 'a'..='f')));
    }
}

#[test]
fn a_drive_root_is_an_absolute_path() {
    assert!(Repository::validate_path("C:/").is_ok());
    assert!(Repository::validate_path("/").is_err());
}
