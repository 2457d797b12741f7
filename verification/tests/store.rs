use director_brain::adapters::git::store::{FileReading, MAX_EVENTS};
use director_brain::{
    CommitInfo, EventKind, FileChange, FileChangeRecord, ObservationEvent, ProjectId,
    ProjectStateSnapshot, Repository, RepositoryError, RepositoryId, RepositoryStatus,
    RepositoryStore, StoredRepository, Timestamp, WorktreeState,
};
use std::collections::HashMap;

/// A directory in memory: what each file holds.
struct Directory {
    store: RepositoryStore,
    files: HashMap<String, StoredRepository>,
}

impl Directory {
    fn new() -> Self {
        Directory { store: RepositoryStore::new("/state"), files: HashMap::new() }
    }

    fn read(&self, id: &RepositoryId) -> FileReading {
        match self.files.get(&self.store.file_for(id).unwrap()) {
            Some(record) => FileReading::Record(record.clone()),
            None => FileReading::Missing,
        }
    }

    fn load(&self, id: &RepositoryId) -> Result<StoredRepository, RepositoryError> {
        self.store.load(id, &self.store.file_for(id)?, self.read(id))
    }

    fn has_file(&self, id: &RepositoryId) -> bool {
        self.files.contains_key(&self.store.file_for(id).unwrap())
    }

    fn write(&mut self, record: &StoredRepository) {
        let file = self.store.file_for(&record.repository.id).unwrap();
        self.files.insert(file, record.clone());
    }

    fn initialize(
        &mut self,
        repository: Repository,
        snapshot: ProjectStateSnapshot,
    ) -> Result<StoredRepository, RepositoryError> {
        let taken = self.has_file(&repository.id);
        let record = self.store.initialize(repository, snapshot, vec![], taken)?;
        self.write(&record);
        Ok(record)
    }
}

fn repository(id: &str) -> Repository {
    Repository::new(
        RepositoryId::from_string(id),
        ProjectId::from_string("PROJ-1"),
        "/repo/x",
        None,
        Some("main".into()),
        Some("main".into()),
        "abc".into(),
        RepositoryStatus::OnBranch,
        Some("abc".into()),
    )
}

fn snapshot(id: &str) -> ProjectStateSnapshot {
    ProjectStateSnapshot::initial(
        ProjectId::from_string("PROJ-1"),
        RepositoryId::from_string(id),
        Some("main".into()),
        "abc".into(),
        WorktreeState::default(),
        Timestamp::now(),
    )
}

fn baseline(directory: &mut Directory, id: &str, version: u64) -> StoredRepository {
    let mut snapshot = snapshot(id);
    snapshot.state_version = version;
    directory.initialize(repository(id), snapshot).expect("initialized")
}

fn at(secs: i64) -> Timestamp {
    Timestamp::from_unix(secs, 0).unwrap()
}

fn commit(sha: &str, secs: i64) -> CommitInfo {
    CommitInfo {
        sha: sha.into(),
        summary: "one".into(),
        author: "ada".into(),
        committed_at: at(secs),
        parents: vec![],
        committer: "ada".into(),
        message: "one".into(),
    }
}

#[test]
fn an_unsafe_repository_id_is_rejected_as_a_filename() {
    let store = RepositoryStore::new("/state");
    assert!(store.file_for(&RepositoryId::from_string("../escape")).is_err());
    assert!(store.file_for(&RepositoryId::from_string("a:b")).is_err());
    assert_eq!(
        store.file_for(&RepositoryId::from_string("a/b")).unwrap_err().to_string(),
        "repository store failed: repository id is not a safe filename: a/b"
    );
    assert!(store.file_for(&RepositoryId::from_string("a\\b")).is_err());
    assert!(store.file_for(&RepositoryId::from_string("")).is_err());
    assert_eq!(store.file_for(&RepositoryId::from_string("REPO-1")).unwrap(), "REPO-1.json");
    assert_eq!(store.root(), "/state");
}

#[test]
fn a_registered_repository_can_be_loaded_and_listed() {
    let mut directory = Directory::new();
    baseline(&mut directory, "REPO-load", 1);
    assert!(directory.has_file(&RepositoryId::from_string("REPO-load")));
    assert!(directory.load(&RepositoryId::from_string("REPO-load")).is_ok());
    let names: Vec<String> = directory.files.keys().cloned().collect();
    assert!(directory.store.list(&names).contains(&RepositoryId::from_string("REPO-load")));
}

#[test]
fn ids_are_listed_in_order_and_other_files_are_passed_over() {
    let store = RepositoryStore::new("/state");
    let names: Vec<String> = ["b.json", "a.tmp", "a.json", ".json", "c.d.json", "json"]
        .iter()
        .map(|name| name.to_string())
        .collect();
    let ids: Vec<String> = store.list(&names).iter().map(|id| id.to_string()).collect();
    assert_eq!(ids, vec!["a", "b", "c.d"]);
}

#[test]
fn an_unregistered_repository_is_not_registered_not_missing_data() {
    let directory = Directory::new();
    let err = directory.load(&RepositoryId::from_string("REPO-none")).unwrap_err();
    assert!(matches!(err, RepositoryError::NotRegistered(_)));
}

#[test]
fn a_file_that_does_not_parse_is_a_failure_of_the_store() {
    let store = RepositoryStore::new("/state");
    let id = RepositoryId::from_string("R");
    assert_eq!(
        store
            .load(&id, "/state/R.json", FileReading::Unparsable("bad".into()))
            .unwrap_err()
            .to_string(),
        "repository store failed: parse /state/R.json: bad"
    );
    assert_eq!(
        store
            .verify_unchanged(1, &FileReading::Unparsable("bad".into()))
            .unwrap_err()
            .to_string(),
        "repository store failed: re-parse: bad"
    );
}

#[test]
fn initializing_the_same_id_twice_is_rejected() {
    let mut directory = Directory::new();
    baseline(&mut directory, "REPO-dupe", 1);
    assert!(directory.initialize(repository("REPO-dupe"), snapshot("REPO-dupe")).is_err());
}

#[test]
fn duplicate_events_are_dropped_not_duplicated() {
    let mut record = baseline(&mut Directory::new(), "REPO-dupes", 1);
    let event = ObservationEvent::commit(
        &record.repository.id,
        &record.repository.project_id,
        commit("abc", 1),
        Timestamp::now(),
    );
    assert_eq!(record.append_events(vec![event.clone()]), 1);
    assert_eq!(record.append_events(vec![event.clone()]), 0);
    assert_eq!(record.events.len(), 1);
    assert_eq!(record.known_event_ids(), vec![event.event_id.clone()]);
    record.events.clear();
    assert_eq!(record.append_events(vec![event.clone(), event]), 1);
}

#[test]
fn duplicate_file_changes_are_dropped() {
    let mut record = baseline(&mut Directory::new(), "REPO-files", 1);
    let change = FileChangeRecord::new(
        record.repository.id.clone(),
        "src/lib.rs",
        None,
        FileChange::Modified,
        "blob1",
        "abc",
        Timestamp::now(),
    )
    .unwrap();
    assert_eq!(record.append_file_changes(vec![change.clone()]), 1);
    assert_eq!(record.append_file_changes(vec![change]), 0);
}

#[test]
fn duplicate_commits_are_dropped() {
    let mut record = baseline(&mut Directory::new(), "REPO-commits", 1);
    assert_eq!(record.append_commits(vec![commit("abc", 1)]), 1);
    assert_eq!(record.append_commits(vec![commit("abc", 1)]), 0);
}

#[test]
fn events_come_oldest_first_and_commits_newest_first() {
    let mut record = baseline(&mut Directory::new(), "REPO-order", 1);
    let event = |sha: &str, secs: i64| {
        ObservationEvent::commit(
            &RepositoryId::from_string("REPO-order"),
            &ProjectId::from_string("PROJ-1"),
            commit(sha, secs),
            at(secs),
        )
    };
    record.append_events(vec![event("c", 30), event("a", 10), event("b", 20)]);
    let times: Vec<i64> = record.events.iter().map(|e| e.timestamp.unix_secs()).collect();
    assert_eq!(times, vec![10, 20, 30]);
    record.append_commits(vec![commit("a", 10), commit("c", 30), commit("b", 20)]);
    let shas: Vec<&str> = record.commits.iter().map(|c| c.sha.as_str()).collect();
    assert_eq!(shas, vec!["c", "b", "a"]);
}

#[test]
fn the_oldest_events_are_dropped_first() {
    let mut record = baseline(&mut Directory::new(), "REPO-cap", 1);
    let events: Vec<ObservationEvent> = (0..MAX_EVENTS as i64 + 3)
        .map(|n| {
            ObservationEvent::commit(
                &record.repository.id,
                &record.repository.project_id,
                commit(&format!("sha-{n}"), n),
                at(n),
            )
        })
        .collect();
    assert_eq!(record.append_events(events), MAX_EVENTS + 3);
    assert_eq!(record.events.len(), MAX_EVENTS);
    assert_eq!(record.events[0].timestamp, at(3));
    assert_eq!(record.events[0].kind, EventKind::CommitCreated);
}

#[test]
fn a_locked_cycle_sees_its_own_write() {
    let mut directory = Directory::new();
    baseline(&mut directory, "REPO-locked", 1);
    let id = RepositoryId::from_string("REPO-locked");
    let mut record = directory.load(&id).unwrap();
    let version = record.snapshot.state_version;
    record.repository.bump_observation_version();
    let seen = record.repository.observation_version;
    let reading = directory.read(&id);
    directory.store.with_locked(&mut record, version, &reading).unwrap();
    directory.write(&record);
    assert_eq!(seen, 2);
    assert_eq!(directory.load(&id).unwrap().repository.observation_version, 2);
}

#[test]
fn an_external_write_between_read_and_write_is_detected() {
    let mut directory = Directory::new();
    baseline(&mut directory, "REPO-race", 1);
    let id = RepositoryId::from_string("REPO-race");

    let observed_version = directory.load(&id).unwrap().snapshot.state_version;

    let mut newer = directory.load(&id).unwrap();
    newer.snapshot.state_version = 99;
    directory.write(&newer);

    let err =
        directory.store.verify_unchanged(observed_version, &directory.read(&id)).unwrap_err();
    assert!(
        matches!(err, RepositoryError::ConcurrentModification { stored, observed } if stored == 99 && observed == 1)
    );
    assert_eq!(directory.load(&id).unwrap().snapshot.state_version, 99);
}

#[test]
fn a_unchanged_file_passes_the_version_check() {
    let mut directory = Directory::new();
    baseline(&mut directory, "REPO-stable", 1);
    let id = RepositoryId::from_string("REPO-stable");
    let observed = directory.load(&id).unwrap().snapshot.state_version;
    assert!(directory.store.verify_unchanged(observed, &directory.read(&id)).is_ok());
    assert!(directory.store.verify_unchanged(observed, &FileReading::Missing).is_ok());
}
