//! What an observation of git means for the project's state.
//!
//! A synchronization is idempotent and incremental: it looks only at commits that
//! it has not seen, records only facts that are not recorded, and advances the
//! state version only where something changed.

use crate::adapters::git::store::{
    change_key_of, changes_after, commit_key_of, commits_after, event_key_of, events_after,
    first_of, histories_kept, law_a_new_commit_is_kept, law_a_new_event_is_kept,
    law_a_new_file_change_is_kept, law_appending_keeps_the_histories, same_file_change,
    store_outcome, unsafe_name, unsafe_name_error, NewestFirst, OldestFirst, RepositoryStore,
    StoredRepository, StoredRepositoryView, MAX_COMMITS, MAX_EVENTS, MAX_FILE_CHANGES,
    STORE_FORMAT_VERSION,
};
use crate::domain::event::{
    branch_event, commit_event, event_key, file_event, sync_event, EventDataView, EventKind,
    ObservationEvent, ObservationEventView,
};
use crate::domain::ids::{ProjectId, RepositoryId};
use crate::domain::repository::{
    Repository, RepositoryError, RepositoryErrorView, RepositoryStatus, RepositoryView,
    SyncResult, SyncResultView, SyncStatus,
};
use crate::domain::snapshot::{
    branch_differs, commit_differs, differences, first_snapshot,
    law_differences_are_complete_and_ordered, worktree_differs, ProjectStateSnapshot,
    ProjectStateSnapshotView, StateChangeKind,
};
use crate::domain::state::{CommitInfo, CommitInfoView};
use crate::domain::worktree::{
    fresh_changes, law_a_new_change_was_not_there_before, law_same_changes_are_not_new,
    same_changes, FileChangeRecord, FileChangeRecordView, WorktreeState, WorktreeStateView,
};
use crate::history::{
    holds, law_taking_in_adds_only_new_keys, lemma_in_order_holds, lemma_merged,
    lemma_merged_known, merged,
};
use crate::order::{
    in_order, is_ordered, lemma_in_order, lemma_in_order_of_ordered, sorted, Precedence,
};
use crate::text::{
    chars_of, lemma_text_lt_irreflexive, lemma_text_lt_total, lemma_text_lt_transitive,
    text_before, text_lt,
};
use crate::time::{clock_time, earlier, Timestamp};
use vstd::prelude::*;
use vstd::string::*;

verus! {

/// How many recent commits are recorded when a repository is registered.
pub const BASELINE_COMMIT_LIMIT: usize = 50;

/// The observed state of one repository: its record and its latest snapshot.
#[derive(Debug, PartialEq, Eq)]
pub struct RepositoryStatusView {
    /// The record.
    pub repository: Repository,
    /// The latest snapshot.
    pub snapshot: ProjectStateSnapshot,
}

/// What a [`RepositoryStatusView`] holds.
#[verifier::ext_equal]
pub struct RepositoryStatusViewView {
    pub repository: RepositoryView,
    pub snapshot: ProjectStateSnapshotView,
}

impl View for RepositoryStatusView {
    type V = RepositoryStatusViewView;

    open spec fn view(&self) -> RepositoryStatusViewView {
        RepositoryStatusViewView {
            repository: self.repository.deep_view(),
            snapshot: self.snapshot.deep_view(),
        }
    }
}

impl DeepView for RepositoryStatusView {
    type V = RepositoryStatusViewView;

    open spec fn deep_view(&self) -> RepositoryStatusViewView {
        self.view()
    }
}

impl Clone for RepositoryStatusView {
    fn clone(&self) -> (r: Self)
        ensures
            r@ == self@,
    {
        let r: RepositoryStatusView = RepositoryStatusView {
            repository: self.repository.clone(),
            snapshot: self.snapshot.clone(),
        };
        r
    }
}

/// What git says when a repository is registered.
#[derive(Debug, PartialEq, Eq)]
pub struct RepositoryReading {
    /// The branch that is checked out.
    pub branch: Option<String>,
    /// The commit that `HEAD` points at; empty when there is none.
    pub head: String,
    /// The state of the repository.
    pub status: RepositoryStatus,
    /// The URL of the remote, if there is one.
    pub remote_url: Option<String>,
    /// The trunk, if there is one.
    pub default_branch: Option<String>,
    /// The working tree.
    pub worktree: WorktreeState,
}

/// What a [`RepositoryReading`] holds.
#[verifier::ext_equal]
pub struct RepositoryReadingView {
    pub branch: Option<Seq<char>>,
    pub head: Seq<char>,
    pub status: RepositoryStatus,
    pub remote_url: Option<Seq<char>>,
    pub default_branch: Option<Seq<char>>,
    pub worktree: WorktreeStateView,
}

impl View for RepositoryReading {
    type V = RepositoryReadingView;

    open spec fn view(&self) -> RepositoryReadingView {
        RepositoryReadingView {
            branch: self.branch.deep_view(),
            head: self.head.deep_view(),
            status: self.status,
            remote_url: self.remote_url.deep_view(),
            default_branch: self.default_branch.deep_view(),
            worktree: self.worktree.deep_view(),
        }
    }
}

impl DeepView for RepositoryReading {
    type V = RepositoryReadingView;

    open spec fn deep_view(&self) -> RepositoryReadingView {
        self.view()
    }
}

impl Clone for RepositoryReading {
    fn clone(&self) -> (r: Self)
        ensures
            r@ == self@,
    {
        let r: RepositoryReading = RepositoryReading {
            branch: self.branch.clone(),
            head: self.head.clone(),
            status: self.status,
            remote_url: self.remote_url.clone(),
            default_branch: self.default_branch.clone(),
            worktree: self.worktree.clone(),
        };
        r
    }
}

/// A commit, with the files that it changed.
#[derive(Debug, PartialEq, Eq)]
pub struct CommitObservation {
    /// The commit.
    pub commit: CommitInfo,
    /// The files that it changed.
    pub changes: Vec<FileChangeRecord>,
}

/// What a [`CommitObservation`] holds.
#[verifier::ext_equal]
pub struct CommitObservationView {
    pub commit: CommitInfoView,
    pub changes: Seq<FileChangeRecordView>,
}

impl View for CommitObservation {
    type V = CommitObservationView;

    open spec fn view(&self) -> CommitObservationView {
        CommitObservationView {
            commit: self.commit.deep_view(),
            changes: self.changes.deep_view(),
        }
    }
}

impl DeepView for CommitObservation {
    type V = CommitObservationView;

    open spec fn deep_view(&self) -> CommitObservationView {
        self.view()
    }
}

impl Clone for CommitObservation {
    fn clone(&self) -> (r: Self)
        ensures
            r@ == self@,
    {
        let r: CommitObservation = CommitObservation {
            commit: self.commit.clone(),
            changes: self.changes.clone(),
        };
        assert(r.changes.deep_view() =~= self.changes.deep_view());
        r
    }
}

/// What git says when a repository is synchronized.
#[derive(Debug, PartialEq, Eq)]
pub struct SyncReading {
    /// The branch that is checked out.
    pub branch: Option<String>,
    /// The commit that `HEAD` points at; empty when there is none.
    pub head: String,
    /// The state of the repository.
    pub status: RepositoryStatus,
    /// The working tree.
    pub worktree: WorktreeState,
    /// The commits since the last observation, oldest first.
    pub commits: Vec<CommitObservation>,
}

/// What a [`SyncReading`] holds.
#[verifier::ext_equal]
pub struct SyncReadingView {
    pub branch: Option<Seq<char>>,
    pub head: Seq<char>,
    pub status: RepositoryStatus,
    pub worktree: WorktreeStateView,
    pub commits: Seq<CommitObservationView>,
}

impl View for SyncReading {
    type V = SyncReadingView;

    open spec fn view(&self) -> SyncReadingView {
        SyncReadingView {
            branch: self.branch.deep_view(),
            head: self.head.deep_view(),
            status: self.status,
            worktree: self.worktree.deep_view(),
            commits: self.commits.deep_view(),
        }
    }
}

impl DeepView for SyncReading {
    type V = SyncReadingView;

    open spec fn deep_view(&self) -> SyncReadingView {
        self.view()
    }
}

impl Clone for SyncReading {
    fn clone(&self) -> (r: Self)
        ensures
            r@ == self@,
    {
        let r: SyncReading = SyncReading {
            branch: self.branch.clone(),
            head: self.head.clone(),
            status: self.status,
            worktree: self.worktree.clone(),
            commits: self.commits.clone(),
        };
        assert(r.commits.deep_view() =~= self.commits.deep_view());
        r
    }
}

/// A commit sha, or none where it is empty.
pub open spec fn known_commit(sha: Seq<char>) -> Option<Seq<char>> {
    if sha.len() == 0 {
        None
    } else {
        Some(sha)
    }
}

/// The record of a repository that is registered now.
pub open spec fn registered(
    project_id: Seq<char>,
    repository_id: Seq<char>,
    local_path: Seq<char>,
    reading: RepositoryReadingView,
    at: Timestamp,
) -> RepositoryView {
    RepositoryView {
        id: repository_id,
        project_id,
        local_path,
        remote_url: reading.remote_url,
        default_branch: reading.default_branch,
        current_branch: reading.branch,
        current_commit: reading.head,
        status: reading.status,
        last_observed_at: at,
        last_observed_commit: known_commit(reading.head),
        observation_version: 1,
        created_at: at,
        updated_at: at,
    }
}

/// The commits that are recorded when a repository is registered. They were found,
/// not watched, so they make no events.
pub open spec fn baseline_commits(
    status: RepositoryStatus,
    recent: Seq<CommitInfoView>,
) -> Seq<CommitInfoView> {
    if status == RepositoryStatus::Empty {
        Seq::empty()
    } else {
        commits_after(Seq::empty(), first_of(recent, BASELINE_COMMIT_LIMIT as nat))
    }
}

/// What is stored when a repository is registered: one event, for the baseline.
pub open spec fn baseline(
    repository: RepositoryView,
    reading: RepositoryReadingView,
    recent: Seq<CommitInfoView>,
    at: Timestamp,
) -> StoredRepositoryView {
    let snapshot = first_snapshot(
        repository.project_id,
        repository.id,
        reading.branch,
        reading.head,
        reading.worktree,
        at,
    );
    StoredRepositoryView {
        format_version: STORE_FORMAT_VERSION,
        repository,
        snapshot,
        events: seq![sync_event(snapshot, at)],
        commits: baseline_commits(reading.status, recent),
        file_changes: Seq::empty(),
    }
}

/// The snapshot of what was observed, before it is decided whether the version
/// advances.
pub open spec fn candidate(
    previous: ProjectStateSnapshotView,
    project_id: Seq<char>,
    repository_id: Seq<char>,
    reading: SyncReadingView,
    at: Timestamp,
) -> ProjectStateSnapshotView {
    ProjectStateSnapshotView {
        last_observed_commit: previous.last_observed_commit,
        state_version: previous.state_version,
        ..first_snapshot(
            project_id,
            repository_id,
            reading.branch,
            reading.head,
            reading.worktree,
            at,
        )
    }
}

/// The snapshot that is stored: one version on where anything differs, and the same
/// version otherwise.
pub open spec fn next_snapshot(
    previous: ProjectStateSnapshotView,
    current: ProjectStateSnapshotView,
) -> ProjectStateSnapshotView {
    ProjectStateSnapshotView {
        last_observed_commit: current.head_commit,
        state_version: if differences(current, previous).len() > 0 {
            (previous.state_version + 1) as u64
        } else {
            previous.state_version
        },
        ..current
    }
}

/// The events for file changes, in order.
pub open spec fn file_events(
    changes: Seq<FileChangeRecordView>,
    project_id: Seq<char>,
    at: Timestamp,
) -> Seq<ObservationEventView> {
    changes.map_values(|r: FileChangeRecordView| file_event(r, project_id, at))
}

/// The events for commits, in order: each commit, and then the files it changed.
pub open spec fn commit_events(
    commits: Seq<CommitObservationView>,
    repository_id: Seq<char>,
    project_id: Seq<char>,
    at: Timestamp,
) -> Seq<ObservationEventView>
    decreases commits.len(),
{
    if commits.len() == 0 {
        Seq::empty()
    } else {
        let last = commits.last();
        commit_events(commits.drop_last(), repository_id, project_id, at).push(
            commit_event(repository_id, project_id, last.commit, at),
        ) + file_events(last.changes, project_id, at)
    }
}

/// The files that commits changed, in order.
pub open spec fn committed_changes(commits: Seq<CommitObservationView>) -> Seq<
    FileChangeRecordView,
>
    decreases commits.len(),
{
    if commits.len() == 0 {
        Seq::empty()
    } else {
        committed_changes(commits.drop_last()) + commits.last().changes
    }
}

/// The commits themselves, in order.
pub open spec fn plain_commits(commits: Seq<CommitObservationView>) -> Seq<CommitInfoView> {
    commits.map_values(|c: CommitObservationView| c.commit)
}

/// The event for a change of branch, where there was one.
pub open spec fn branch_events(
    previous: ProjectStateSnapshotView,
    current: ProjectStateSnapshotView,
    at: Timestamp,
) -> Seq<ObservationEventView> {
    if branch_differs(current, previous) {
        seq![
            branch_event(
                current.repository_id,
                current.project_id,
                previous.branch,
                current.branch,
                current.head_commit,
                at,
            ),
        ]
    } else {
        Seq::empty()
    }
}

/// The facts of one synchronization: commits with their files, new changes of the
/// working tree, a change of branch, and the synchronization itself.
pub open spec fn sync_facts(
    previous: ProjectStateSnapshotView,
    current: ProjectStateSnapshotView,
    commits: Seq<CommitObservationView>,
    at: Timestamp,
) -> Seq<ObservationEventView> {
    (commit_events(commits, current.repository_id, current.project_id, at) + file_events(
        fresh_changes(current.working_tree, previous.working_tree),
        current.project_id,
        at,
    ) + branch_events(previous, current, at)).push(sync_event(current, at))
}

/// How many facts of a synchronization are new.
pub open spec fn new_facts(
    stored: StoredRepositoryView,
    facts: Seq<ObservationEventView>,
) -> int {
    merged(stored.events, facts, event_key_of()).len() - stored.events.len()
}

/// What is stored after a synchronization. The stamps of the repository's record
/// are those of the writing.
pub open spec fn synchronized(
    stored: StoredRepositoryView,
    repository_id: Seq<char>,
    reading: SyncReadingView,
    at: Timestamp,
    observed_at: Timestamp,
    updated_at: Timestamp,
) -> StoredRepositoryView {
    let previous = stored.snapshot;
    let current = candidate(
        previous,
        stored.repository.project_id,
        repository_id,
        reading,
        at,
    );
    StoredRepositoryView {
        format_version: stored.format_version,
        repository: RepositoryView {
            current_branch: reading.branch,
            current_commit: reading.head,
            status: reading.status,
            last_observed_at: observed_at,
            last_observed_commit: known_commit(reading.head),
            observation_version: (stored.repository.observation_version + 1) as u64,
            updated_at,
            ..stored.repository
        },
        snapshot: next_snapshot(previous, current),
        events: events_after(stored.events, sync_facts(previous, current, reading.commits, at)),
        commits: commits_after(stored.commits, plain_commits(reading.commits)),
        file_changes: changes_after(stored.file_changes, committed_changes(reading.commits)),
    }
}

/// What a synchronization concludes. Where anything differs it is never said that
/// nothing changed. Where nothing differs, nothing but its own event is new and
/// nothing was known before, it has found the baseline.
pub open spec fn conclusion(
    previous: ProjectStateSnapshotView,
    current: ProjectStateSnapshotView,
    commits: Seq<CommitObservationView>,
    created: int,
) -> SyncStatus {
    if differences(current, previous).len() > 0 {
        SyncStatus::Synced
    } else if previous.last_observed_commit.len() == 0 && previous.state_version == 1 && commits.len()
        == 0 && created <= 1 {
        SyncStatus::Baseline
    } else if created == 0 {
        SyncStatus::NoChange
    } else {
        SyncStatus::Synced
    }
}

/// The outcome of a synchronization.
pub open spec fn sync_outcome(
    stored: StoredRepositoryView,
    repository_id: Seq<char>,
    reading: SyncReadingView,
    at: Timestamp,
) -> SyncResultView {
    let previous = stored.snapshot;
    let current = candidate(
        previous,
        stored.repository.project_id,
        repository_id,
        reading,
        at,
    );
    let created = new_facts(stored, sync_facts(previous, current, reading.commits, at));
    SyncResultView {
        status: conclusion(previous, current, reading.commits, created),
        branch_changed: branch_differs(current, previous),
        commit_changed: commit_differs(current, previous),
        working_tree_changed: worktree_differs(current, previous),
        events_created: created as usize,
        previous_commit: known_commit(previous.last_observed_commit),
        current_commit: reading.head,
        state_version: next_snapshot(previous, current).state_version,
    }
}

/// Whether a kind of change is among `changes`.
fn has_change(changes: &Vec<StateChangeKind>, kind: StateChangeKind) -> (r: bool)
    ensures
        r == changes@.contains(kind),
{
    let mut i: usize = 0;
    while i < changes.len()
        invariant
            i <= changes.len(),
            forall|j: int| 0 <= j < i ==> changes@[j] != kind,
        decreases changes.len() - i,
    {
        if changes[i] == kind {
            return true;
        }
        i += 1;
    }
    false
}

/// A commit sha, or none where it is empty.
fn non_empty(sha: &String) -> (r: Option<String>)
    ensures
        r.deep_view() == known_commit(sha@),
{
    if chars_of(sha.as_str()).len() == 0 {
        None
    } else {
        Some(sha.clone())
    }
}

/// Appends the events for file changes.
fn append_file_events(
    events: &mut Vec<ObservationEvent>,
    changes: &Vec<FileChangeRecord>,
    project_id: &ProjectId,
    now: Timestamp,
)
    ensures
        final(events).deep_view() == old(events).deep_view() + file_events(
            changes.deep_view(),
            project_id@,
            now,
        ),
{
    let ghost start = events.deep_view();
    let ghost all = changes.deep_view();
    let mut i: usize = 0;
    assert(events.deep_view() =~= start + file_events(all.take(0), project_id@, now));
    while i < changes.len()
        invariant
            i <= changes.len(),
            all == changes.deep_view(),
            events.deep_view() == start + file_events(all.take(i as int), project_id@, now),
        decreases changes.len() - i,
    {
        let ghost before = events.deep_view();
        assert(all[i as int] == changes@[i as int]@);
        if let Some(event) = ObservationEvent::file(changes[i].clone(), project_id, now) {
            events.push(event);
            assert(events.deep_view() =~= before.push(event@));
        }
        assert(events.deep_view() =~= start + file_events(all.take(i + 1), project_id@, now));
        i += 1;
    }
    assert(all.take(all.len() as int) =~= all);
}

/// Appends copies of file changes.
fn append_changes(to: &mut Vec<FileChangeRecord>, from: &Vec<FileChangeRecord>)
    ensures
        final(to).deep_view() == old(to).deep_view() + from.deep_view(),
{
    let ghost start = to.deep_view();
    let ghost all = from.deep_view();
    let mut i: usize = 0;
    assert(to.deep_view() =~= start + all.take(0));
    while i < from.len()
        invariant
            i <= from.len(),
            all == from.deep_view(),
            to.deep_view() == start + all.take(i as int),
        decreases from.len() - i,
    {
        let ghost before = to.deep_view();
        assert(all[i as int] == from@[i as int]@);
        to.push(from[i].clone());
        assert(to.deep_view() =~= before.push(all[i as int]));
        assert(to.deep_view() =~= start + all.take(i + 1));
        i += 1;
    }
    assert(all.take(all.len() as int) =~= all);
}

/// Reads, compares and records the state of working trees.
#[derive(Debug, Clone, Copy, PartialEq, Eq, Structural)]
pub struct GitService;

impl GitService {
    /// The service.
    pub fn new() -> (r: Self)
        ensures
            r == GitService,
    {
        GitService
    }

    /// Registers a repository, by what git says of it and its recent commits, newest
    /// first. `exists` says whether the id is taken. The record of the repository
    /// comes back, and what is to be stored.
    pub fn initialize_repository(
        &self,
        store: &RepositoryStore,
        project_id: ProjectId,
        repository_id: RepositoryId,
        local_path: &str,
        reading: RepositoryReading,
        recent: Vec<CommitInfo>,
        exists: bool,
        now: Timestamp,
    ) -> (r: Result<(Repository, StoredRepository), RepositoryError>)
        ensures
            exists ==> store_outcome(r) == Err::<(RepositoryView, StoredRepositoryView), _>(
                RepositoryErrorView::Store("repository already registered: "@ + repository_id@),
            ),
            !exists && unsafe_name(repository_id@) ==> store_outcome(r) == Err::<
                (RepositoryView, StoredRepositoryView),
                _,
            >(unsafe_name_error(repository_id@)),
            !exists && !unsafe_name(repository_id@) ==> r is Ok,
            r matches Ok((repository, stored)) ==> {
                &&& clock_time(repository.created_at@)
                &&& repository@ == registered(
                    project_id@,
                    repository_id@,
                    local_path@,
                    reading@,
                    repository.created_at,
                )
                &&& stored@ == baseline(repository@, reading@, recent.deep_view(), now)
            },
    {
        let repository: Repository = Repository::new(
            repository_id.clone(),
            project_id.clone(),
            local_path,
            reading.remote_url.clone(),
            reading.default_branch.clone(),
            reading.branch.clone(),
            reading.head.clone(),
            reading.status,
            non_empty(&reading.head),
        );
        let snapshot: ProjectStateSnapshot = ProjectStateSnapshot::initial(
            project_id,
            repository_id,
            reading.branch.clone(),
            reading.head.clone(),
            reading.worktree.clone(),
            now,
        );
        let mut events: Vec<ObservationEvent> = Vec::new();
        events.push(ObservationEvent::sync(&snapshot, now));
        assert(events.deep_view() =~= seq![sync_event(snapshot@, now)]);
        let mut stored: StoredRepository = match store.initialize(
            repository.clone(),
            snapshot,
            events,
            exists,
        ) {
            Ok(stored) => stored,
            Err(error) => {
                return Err(error);
            },
        };
        if reading.status != RepositoryStatus::Empty {
            let ghost all = recent.deep_view();
            let mut recent: Vec<CommitInfo> = recent;
            recent.truncate(BASELINE_COMMIT_LIMIT);
            assert(recent.deep_view() =~= first_of(all, BASELINE_COMMIT_LIMIT as nat));
            stored.append_commits(recent);
        }
        Ok((repository, stored))
    }

    /// Synchronizes a repository: compares what git says now with what is stored,
    /// and records what is new.
    pub fn sync_repository(
        &self,
        repository_id: &RepositoryId,
        stored: &mut StoredRepository,
        reading: SyncReading,
        now: Timestamp,
    ) -> (r: SyncResult)
        requires
            differences(
                candidate(
                    old(stored)@.snapshot,
                    old(stored)@.repository.project_id,
                    repository_id@,
                    reading@,
                    now,
                ),
                old(stored)@.snapshot,
            ).len() > 0 ==> old(stored).snapshot.state_version < u64::MAX,
            old(stored).repository.observation_version < u64::MAX,
        ensures
            clock_time(final(stored).repository.last_observed_at@),
            clock_time(final(stored).repository.updated_at@),
            r@ == sync_outcome(old(stored)@, repository_id@, reading@, now),
            r.events_created == new_facts(
                old(stored)@,
                sync_facts(
                    old(stored)@.snapshot,
                    candidate(
                        old(stored)@.snapshot,
                        old(stored)@.repository.project_id,
                        repository_id@,
                        reading@,
                        now,
                    ),
                    reading@.commits,
                    now,
                ),
            ),
            final(stored)@ == synchronized(
                old(stored)@,
                repository_id@,
                reading@,
                now,
                final(stored).repository.last_observed_at,
                final(stored).repository.updated_at,
            ),
    {
        let ghost start = stored@;
        let project_id: ProjectId = stored.repository.project_id.clone();
        let previous: ProjectStateSnapshot = stored.snapshot.clone();
        let mut current: ProjectStateSnapshot = ProjectStateSnapshot::initial(
            project_id.clone(),
            repository_id.clone(),
            reading.branch.clone(),
            reading.head.clone(),
            reading.worktree.clone(),
            now,
        );
        current.last_observed_commit = previous.last_observed_commit.clone();
        current.state_version = previous.state_version;
        let ghost cand = current@;
        assert(cand == candidate(start.snapshot, project_id@, repository_id@, reading@, now));
        let changes: Vec<StateChangeKind> = current.state_changes(&previous);
        proof {
            law_differences_are_complete_and_ordered(cand, previous@);
        }
        let branch_changed: bool = has_change(&changes, StateChangeKind::BranchChanged);

        let mut events: Vec<ObservationEvent> = Vec::new();
        let mut new_commits: Vec<CommitInfo> = Vec::new();
        let mut new_file_changes: Vec<FileChangeRecord> = Vec::new();
        let ghost all = reading.commits.deep_view();
        let mut i: usize = 0;
        proof {
            assert(all.take(0) =~= Seq::empty());
            assert(events.deep_view() =~= Seq::empty());
            assert(new_commits.deep_view() =~= plain_commits(all.take(0)));
            assert(new_file_changes.deep_view() =~= Seq::empty());
        }
        while i < reading.commits.len()
            invariant
                i <= reading.commits.len(),
                all == reading.commits.deep_view(),
                events.deep_view() == commit_events(
                    all.take(i as int),
                    repository_id@,
                    project_id@,
                    now,
                ),
                new_commits.deep_view() == plain_commits(all.take(i as int)),
                new_file_changes.deep_view() == committed_changes(all.take(i as int)),
            decreases reading.commits.len() - i,
        {
            let observation: &CommitObservation = &reading.commits[i];
            let ghost facts = events.deep_view();
            let ghost commits = new_commits.deep_view();
            proof {
                assert(all[i as int] == observation@);
                assert(all.take(i + 1).drop_last() =~= all.take(i as int));
            }
            events.push(
                ObservationEvent::commit(
                    repository_id,
                    &project_id,
                    observation.commit.clone(),
                    now,
                ),
            );
            assert(events.deep_view() =~= facts.push(
                commit_event(repository_id@, project_id@, observation@.commit, now),
            ));
            append_file_events(&mut events, &observation.changes, &project_id, now);
            append_changes(&mut new_file_changes, &observation.changes);
            new_commits.push(observation.commit.clone());
            assert(new_commits.deep_view() =~= commits.push(observation@.commit));
            assert(new_commits.deep_view() =~= plain_commits(all.take(i + 1)));
            i += 1;
        }
        assert(all.take(all.len() as int) =~= all);

        let fresh: Vec<FileChangeRecord> = current.working_tree.new_changes(&previous.working_tree);
        append_file_events(&mut events, &fresh, &project_id, now);
        if branch_changed {
            let ghost facts = events.deep_view();
            let event: ObservationEvent = ObservationEvent::branch_change(
                repository_id,
                &project_id,
                previous.branch.clone(),
                reading.branch.clone(),
                reading.head.as_str(),
                now,
            );
            events.push(event);
            assert(events.deep_view() =~= facts + seq![event@]);
        }
        let ghost facts = events.deep_view();
        let sync: ObservationEvent = ObservationEvent::sync(&current, now);
        events.push(sync);
        proof {
            assert(events.deep_view() =~= facts.push(sync@));
            assert(events.deep_view() =~= sync_facts(start.snapshot, cand, all, now));
        }

        stored.append_commits(new_commits);
        stored.append_file_changes(new_file_changes);
        let events_created: usize = stored.append_events(events);

        if changes.len() > 0 {
            current.state_version = previous.state_version + 1;
        }
        current.last_observed_commit = reading.head.clone();
        let state_version: u64 = current.state_version;
        assert(current@ == next_snapshot(start.snapshot, cand));
        stored.set_snapshot(current);

        stored.repository.mark_observed(
            reading.branch.clone(),
            reading.head.clone(),
            reading.status,
        );
        if chars_of(reading.head.as_str()).len() == 0 {
            stored.repository.last_observed_commit = None;
        } else {
            stored.repository.set_last_observed_commit(reading.head.clone());
        }

        let status: SyncStatus = if changes.len() > 0 {
            SyncStatus::Synced
        } else if chars_of(previous.last_observed_commit.as_str()).len() == 0
            && previous.state_version == 1 && reading.commits.len() == 0 && events_created <= 1 {
            SyncStatus::Baseline
        } else if events_created == 0 {
            SyncStatus::NoChange
        } else {
            SyncStatus::Synced
        };
        SyncResult {
            status,
            branch_changed,
            commit_changed: has_change(&changes, StateChangeKind::CommitChanged),
            working_tree_changed: has_change(&changes, StateChangeKind::WorktreeChanged),
            events_created,
            previous_commit: non_empty(&previous.last_observed_commit),
            current_commit: reading.head,
            state_version,
        }
    }

    /// The record of a repository.
    pub fn repository(&self, stored: StoredRepository) -> (r: Repository)
        ensures
            r@ == stored@.repository,
    {
        stored.repository
    }

    /// The observed state of a repository.
    pub fn status(&self, stored: StoredRepository) -> (r: RepositoryStatusView)
        ensures
            r@.repository == stored@.repository,
            r@.snapshot == stored@.snapshot,
    {
        RepositoryStatusView { repository: stored.repository, snapshot: stored.snapshot }
    }

    /// The latest snapshot of a repository.
    pub fn snapshot(&self, stored: StoredRepository) -> (r: ProjectStateSnapshot)
        ensures
            r@ == stored@.snapshot,
    {
        stored.snapshot
    }

    /// The commits that are recorded, newest first.
    pub fn commits(&self, stored: StoredRepository) -> (r: Vec<CommitInfo>)
        ensures
            r.deep_view() == stored@.commits,
    {
        stored.commits
    }

    /// Whether a repository belongs to a project.
    pub fn belongs_to(&self, stored: &StoredRepository, project_id: &ProjectId) -> (r: bool)
        ensures
            r == (stored@.repository.project_id == project_id@),
    {
        stored.repository.project_id.same_as(project_id)
    }

    /// The latest snapshot of the first listed repository that belongs to a project.
    pub fn snapshot_for_project(
        &self,
        project_id: &ProjectId,
        listed: &Vec<StoredRepository>,
    ) -> (r: Result<ProjectStateSnapshot, RepositoryError>)
        ensures
            store_outcome(r) == (match first_of_project(listed.deep_view(), project_id@) {
                Some(stored) => Ok(stored.snapshot),
                None => Err(RepositoryErrorView::NotRegistered(project_id@)),
            }),
    {
        let ghost all = listed.deep_view();
        let mut i: usize = 0;
        assert(all.skip(0) =~= all);
        while i < listed.len()
            invariant
                i <= listed.len(),
                all == listed.deep_view(),
                first_of_project(all, project_id@) == first_of_project(
                    all.skip(i as int),
                    project_id@,
                ),
            decreases listed.len() - i,
        {
            assert(all.skip(i as int)[0] == listed@[i as int]@);
            assert(all.skip(i as int).skip(1) =~= all.skip(i + 1));
            if self.belongs_to(&listed[i], project_id) {
                return Ok(listed[i].snapshot.clone());
            }
            i += 1;
        }
        assert(all.skip(i as int) =~= Seq::empty());
        Err(RepositoryError::NotRegistered(project_id.to_string()))
    }

    /// The repositories that belong to a project, by id.
    pub fn repositories_for_project(
        &self,
        project_id: &ProjectId,
        listed: &Vec<StoredRepository>,
    ) -> (r: Vec<Repository>)
        ensures
            r.deep_view() == in_order::<Repository, ById>(
                repositories_of(listed.deep_view(), project_id@),
            ),
    {
        let ghost all = listed.deep_view();
        let mut found: Vec<Repository> = Vec::new();
        let mut i: usize = 0;
        assert(found.deep_view() =~= repositories_of(all.take(0), project_id@));
        while i < listed.len()
            invariant
                i <= listed.len(),
                all == listed.deep_view(),
                found.deep_view() == repositories_of(all.take(i as int), project_id@),
            decreases listed.len() - i,
        {
            let ghost before = found.deep_view();
            assert(all[i as int] == listed@[i as int]@);
            assert(all.take(i + 1).drop_last() =~= all.take(i as int));
            if self.belongs_to(&listed[i], project_id) {
                found.push(listed[i].repository.clone());
                assert(found.deep_view() =~= before.push(all[i as int].repository));
            }
            i += 1;
        }
        assert(all.take(all.len() as int) =~= all);
        sorted::<Repository, ById>(found)
    }

    /// The file changes that are recorded, the latest observation first.
    pub fn changes(&self, stored: StoredRepository) -> (r: Vec<FileChangeRecord>)
        ensures
            r.deep_view() == in_order::<FileChangeRecord, LatestChangeFirst>(
                stored@.file_changes,
            ),
    {
        sorted::<FileChangeRecord, LatestChangeFirst>(stored.file_changes)
    }

    /// The events that are recorded, the latest first.
    pub fn events(&self, stored: StoredRepository) -> (r: Vec<ObservationEvent>)
        ensures
            r.deep_view() == latest_events(stored@),
    {
        sorted::<ObservationEvent, LatestEventFirst>(stored.events)
    }

    /// The kinds of events that are recorded, with counts, the most frequent first.
    pub fn event_counts(&self, stored: StoredRepository) -> (r: Vec<(EventKind, usize)>)
        ensures
            r.deep_view() == in_order::<(EventKind, usize), MostFrequentFirst>(
                tallied(latest_events(stored@)),
            ),
    {
        let events: Vec<ObservationEvent> = self.events(stored);
        let ghost all = events.deep_view();
        let mut counts: Vec<(EventKind, usize)> = Vec::new();
        let mut i: usize = 0;
        assert(counts.deep_view() =~= tallied(all.take(0)));
        while i < events.len()
            invariant
                i <= events.len(),
                all == events.deep_view(),
                counts.deep_view() == tallied(all.take(i as int)),
                forall|j: int| 0 <= j < counts@.len() ==> (#[trigger] counts@[j]).1 <= i,
            decreases events.len() - i,
        {
            let ghost before = counts.deep_view();
            let kind: EventKind = events[i].kind;
            assert(all[i as int] == events@[i as int]@);
            assert(all.take(i + 1).drop_last() =~= all.take(i as int));
            let mut k: usize = 0;
            let mut found: bool = false;
            while k < counts.len() && !found
                invariant
                    k <= counts.len(),
                    before == counts.deep_view(),
                    found ==> k < counts.len() && before[k as int].0 == kind,
                    forall|j: int| 0 <= j < k ==> (#[trigger] before[j]).0 != kind,
                decreases
                    counts.len() - k + if found {
                        0int
                    } else {
                        1
                    },
            {
                assert(before[k as int] == counts@[k as int].deep_view());
                if counts[k].0 == kind {
                    found = true;
                } else {
                    k += 1;
                }
            }
            if found {
                let count: usize = counts[k].1;
                assert(before[k as int] == counts@[k as int].deep_view());
                proof {
                    lemma_counted(before, kind, k as int);
                }
                counts.set(k, (kind, count + 1));
                assert(counts.deep_view() =~= before.update(
                    k as int,
                    (kind, (before[k as int].1 + 1) as usize),
                ));
            } else {
                proof {
                    lemma_not_counted(before, kind);
                }
                counts.push((kind, 1));
                assert(counts.deep_view() =~= before.push((kind, 1usize)));
            }
            i += 1;
        }
        assert(all.take(all.len() as int) =~= all);
        sorted::<(EventKind, usize), MostFrequentFirst>(counts)
    }
}

/// The first record that belongs to a project.
pub open spec fn first_of_project(
    listed: Seq<StoredRepositoryView>,
    project_id: Seq<char>,
) -> Option<StoredRepositoryView>
    decreases listed.len(),
{
    if listed.len() == 0 {
        None
    } else if listed[0].repository.project_id == project_id {
        Some(listed[0])
    } else {
        first_of_project(listed.skip(1), project_id)
    }
}

/// The repositories that belong to a project, as they are listed.
pub open spec fn repositories_of(
    listed: Seq<StoredRepositoryView>,
    project_id: Seq<char>,
) -> Seq<RepositoryView>
    decreases listed.len(),
{
    if listed.len() == 0 {
        Seq::empty()
    } else {
        let rest = repositories_of(listed.drop_last(), project_id);
        if listed.last().repository.project_id == project_id {
            rest.push(listed.last().repository)
        } else {
            rest
        }
    }
}

/// Repositories by id.
pub struct ById;

impl Precedence<Repository> for ById {
    open spec fn before(a: RepositoryView, b: RepositoryView) -> bool {
        text_lt(a.id, b.id)
    }

    proof fn weak_order(a: RepositoryView, b: RepositoryView, c: RepositoryView) {
        let (x, y, z) = (a.id, b.id, c.id);
        lemma_text_lt_irreflexive(x);
        if text_lt(x, y) && text_lt(y, x) {
            lemma_text_lt_transitive(x, y, x);
        }
        if !text_lt(y, x) && !text_lt(z, y) && text_lt(z, x) {
            lemma_text_lt_total(x, y);
            lemma_text_lt_total(y, z);
            if text_lt(x, y) {
                lemma_text_lt_transitive(z, x, y);
            }
        }
    }

    fn is_before(a: &Repository, b: &Repository) -> (r: bool) {
        text_before(a.id.as_str(), b.id.as_str())
    }
}

/// File changes, the latest observation first.
pub struct LatestChangeFirst;

impl Precedence<FileChangeRecord> for LatestChangeFirst {
    open spec fn before(a: FileChangeRecordView, b: FileChangeRecordView) -> bool {
        earlier(b.observed_at@, a.observed_at@)
    }

    proof fn weak_order(
        a: FileChangeRecordView,
        b: FileChangeRecordView,
        c: FileChangeRecordView,
    ) {
    }

    fn is_before(a: &FileChangeRecord, b: &FileChangeRecord) -> (r: bool) {
        b.observed_at.is_before(a.observed_at)
    }
}

/// Events, the latest first.
pub struct LatestEventFirst;

impl Precedence<ObservationEvent> for LatestEventFirst {
    open spec fn before(a: ObservationEventView, b: ObservationEventView) -> bool {
        earlier(b.timestamp@, a.timestamp@)
    }

    proof fn weak_order(
        a: ObservationEventView,
        b: ObservationEventView,
        c: ObservationEventView,
    ) {
    }

    fn is_before(a: &ObservationEvent, b: &ObservationEvent) -> (r: bool) {
        b.timestamp.is_before(a.timestamp)
    }
}

/// Counts, the largest first.
pub struct MostFrequentFirst;

impl Precedence<(EventKind, usize)> for MostFrequentFirst {
    open spec fn before(a: (EventKind, usize), b: (EventKind, usize)) -> bool {
        a.1 > b.1
    }

    proof fn weak_order(a: (EventKind, usize), b: (EventKind, usize), c: (EventKind, usize)) {
    }

    fn is_before(a: &(EventKind, usize), b: &(EventKind, usize)) -> (r: bool) {
        a.1 > b.1
    }
}

/// The recorded events, the latest first; of events of one time, the one that
/// stands first stays first.
pub open spec fn latest_events(stored: StoredRepositoryView) -> Seq<ObservationEventView> {
    in_order::<ObservationEvent, LatestEventFirst>(stored.events)
}

/// One more event of a kind.
pub open spec fn counted(counts: Seq<(EventKind, usize)>, kind: EventKind) -> Seq<
    (EventKind, usize),
>
    decreases counts.len(),
{
    if counts.len() == 0 {
        seq![(kind, 1usize)]
    } else if counts[0].0 == kind {
        counts.update(0, (kind, (counts[0].1 + 1) as usize))
    } else {
        seq![counts[0]] + counted(counts.skip(1), kind)
    }
}

/// How many events there are of each kind, in the order in which the kinds occur.
pub open spec fn tallied(events: Seq<ObservationEventView>) -> Seq<(EventKind, usize)>
    decreases events.len(),
{
    if events.len() == 0 {
        Seq::empty()
    } else {
        counted(tallied(events.drop_last()), events.last().kind)
    }
}

proof fn lemma_counted(counts: Seq<(EventKind, usize)>, kind: EventKind, k: int)
    requires
        0 <= k < counts.len(),
        counts[k].0 == kind,
        forall|j: int| 0 <= j < k ==> (#[trigger] counts[j]).0 != kind,
    ensures
        counted(counts, kind) == counts.update(k, (kind, (counts[k].1 + 1) as usize)),
    decreases k,
{
    if k > 0 {
        let rest = counts.skip(1);
        assert forall|j: int| 0 <= j < k - 1 implies (#[trigger] rest[j]).0 != kind by {
            assert(rest[j] == counts[j + 1]);
        }
        lemma_counted(rest, kind, k - 1);
        assert(seq![counts[0]] + rest.update(k - 1, (kind, (rest[k - 1].1 + 1) as usize))
            =~= counts.update(k, (kind, (counts[k].1 + 1) as usize)));
    }
}

proof fn lemma_not_counted(counts: Seq<(EventKind, usize)>, kind: EventKind)
    requires
        forall|j: int| 0 <= j < counts.len() ==> (#[trigger] counts[j]).0 != kind,
    ensures
        counted(counts, kind) == counts.push((kind, 1usize)),
    decreases counts.len(),
{
    if counts.len() > 0 {
        let rest = counts.skip(1);
        assert forall|j: int| 0 <= j < rest.len() implies (#[trigger] rest[j]).0 != kind by {
            assert(rest[j] == counts[j + 1]);
        }
        lemma_not_counted(rest, kind);
        assert(seq![counts[0]] + rest.push((kind, 1usize)) =~= counts.push((kind, 1usize)));
    } else {
        assert(counted(counts, kind) =~= counts.push((kind, 1usize)));
    }
}

/// The count of a kind.
pub open spec fn count_of(counts: Seq<(EventKind, usize)>, kind: EventKind) -> int
    decreases counts.len(),
{
    if counts.len() == 0 {
        0
    } else if counts[0].0 == kind {
        counts[0].1 as int
    } else {
        count_of(counts.skip(1), kind)
    }
}

proof fn lemma_count_grows(counts: Seq<(EventKind, usize)>, kind: EventKind, asked: EventKind)
    requires
        count_of(counts, kind) < usize::MAX,
    ensures
        count_of(counted(counts, kind), asked) == count_of(counts, asked) + if asked == kind {
            1int
        } else {
            0
        },
    decreases counts.len(),
{
    reveal_with_fuel(count_of, 2);
    let next = counted(counts, kind);
    if counts.len() == 0 {
        assert(next.skip(1) =~= Seq::empty());
    } else if counts[0].0 == kind {
        assert(next.skip(1) =~= counts.skip(1));
    } else {
        lemma_count_grows(counts.skip(1), kind, asked);
        assert(next.skip(1) =~= counted(counts.skip(1), kind));
    }
}

/// Every event is counted once: the count of a kind is the number of events of that
/// kind.
pub proof fn law_every_event_is_counted_once(events: Seq<ObservationEventView>, kind: EventKind)
    requires
        events.len() <= usize::MAX,
    ensures
        count_of(tallied(events), kind) == events.filter(
            |e: ObservationEventView| e.kind == kind,
        ).len(),
    decreases events.len(),
{
    reveal(Seq::filter);
    if events.len() > 0 {
        let rest = events.drop_last();
        let last = events.last().kind;
        law_every_event_is_counted_once(rest, kind);
        law_every_event_is_counted_once(rest, last);
        lemma_filter_len(rest, |e: ObservationEventView| e.kind == last);
        lemma_count_grows(tallied(rest), last, kind);
    }
}

proof fn lemma_filter_len<A>(s: Seq<A>, p: spec_fn(A) -> bool)
    ensures
        s.filter(p).len() <= s.len(),
    decreases s.len(),
{
    reveal(Seq::filter);
    if s.len() > 0 {
        lemma_filter_len(s.drop_last(), p);
    }
}

/// The state version advances by exactly one where the branch, the commit or the
/// working tree differs from what was stored, and stays otherwise.
pub proof fn law_the_version_advances_once_per_change(
    stored: StoredRepositoryView,
    repository_id: Seq<char>,
    reading: SyncReadingView,
    at: Timestamp,
    observed_at: Timestamp,
    updated_at: Timestamp,
)
    requires
        stored.snapshot.state_version < u64::MAX,
    ensures
        ({
            let current = candidate(
                stored.snapshot,
                stored.repository.project_id,
                repository_id,
                reading,
                at,
            );
            let after = synchronized(
                stored,
                repository_id,
                reading,
                at,
                observed_at,
                updated_at,
            );
            let changed = branch_differs(current, stored.snapshot) || commit_differs(
                current,
                stored.snapshot,
            ) || worktree_differs(current, stored.snapshot);
            &&& after.snapshot.state_version == stored.snapshot.state_version + if changed {
                1int
            } else {
                0
            }
            &&& sync_outcome(stored, repository_id, reading, at).state_version
                == after.snapshot.state_version
        }),
{
    let current = candidate(
        stored.snapshot,
        stored.repository.project_id,
        repository_id,
        reading,
        at,
    );
    law_differences_are_complete_and_ordered(current, stored.snapshot);
}

/// A synchronization says that nothing changed, or that it found the baseline, only
/// where the branch, the commit and the working tree are as they were; and that
/// nothing changed only where no event was created.
pub proof fn law_no_change_means_nothing_changed(
    stored: StoredRepositoryView,
    repository_id: Seq<char>,
    reading: SyncReadingView,
    at: Timestamp,
)
    ensures
        ({
            let current = candidate(
                stored.snapshot,
                stored.repository.project_id,
                repository_id,
                reading,
                at,
            );
            let outcome = sync_outcome(stored, repository_id, reading, at);
            &&& outcome.status != SyncStatus::Synced ==> {
                &&& !outcome.branch_changed
                &&& !outcome.commit_changed
                &&& !outcome.working_tree_changed
                &&& outcome.state_version == stored.snapshot.state_version
            }
            &&& outcome.status == SyncStatus::NoChange ==> new_facts(
                stored,
                sync_facts(stored.snapshot, current, reading.commits, at),
            ) == 0
        }),
{
    let current = candidate(
        stored.snapshot,
        stored.repository.project_id,
        repository_id,
        reading,
        at,
    );
    law_differences_are_complete_and_ordered(current, stored.snapshot);
}

/// A change of the working tree whose event is not recorded yet, such as a file with
/// a content that was not seen before, makes an event, and the synchronization does
/// not say that nothing changed.
pub proof fn law_a_new_change_makes_an_event(
    stored: StoredRepositoryView,
    repository_id: Seq<char>,
    reading: SyncReadingView,
    at: Timestamp,
    i: int,
)
    requires
        0 <= i < fresh_changes(reading.worktree, stored.snapshot.working_tree).len(),
        !holds(
            stored.events,
            event_key_of(),
            file_event(
                fresh_changes(reading.worktree, stored.snapshot.working_tree)[i],
                stored.repository.project_id,
                at,
            ).event_id,
        ),
    ensures
        ({
            let current = candidate(
                stored.snapshot,
                stored.repository.project_id,
                repository_id,
                reading,
                at,
            );
            &&& new_facts(
                stored,
                sync_facts(stored.snapshot, current, reading.commits, at),
            ) >= 1
            &&& sync_outcome(stored, repository_id, reading, at).working_tree_changed
            &&& sync_outcome(stored, repository_id, reading, at).status == SyncStatus::Synced
        }),
{
    let previous = stored.snapshot;
    let current = candidate(previous, stored.repository.project_id, repository_id, reading, at);
    law_differences_are_complete_and_ordered(current, previous);
    let fresh = fresh_changes(reading.worktree, previous.working_tree);
    if same_changes(reading.worktree, previous.working_tree) {
        law_same_changes_are_not_new(reading.worktree, previous.working_tree);
    }
    let facts = sync_facts(previous, current, reading.commits, at);
    let part = commit_events(reading.commits, repository_id, current.project_id, at);
    let fact = file_event(fresh[i], current.project_id, at);
    let key = event_key_of();
    assert(facts[part.len() + i] == fact);
    assert(holds(facts, key, key(fact)));
    lemma_merged(stored.events, facts, key);
    let all = merged(stored.events, facts, key);
    assert(holds(all, key, key(fact)));
    if all.len() == stored.events.len() {
        assert(all.take(stored.events.len() as int) =~= all);
    }
}

/// A synchronization keeps the histories as they must be.
pub proof fn law_a_sync_keeps_the_histories(
    stored: StoredRepositoryView,
    repository_id: Seq<char>,
    reading: SyncReadingView,
    at: Timestamp,
    observed_at: Timestamp,
    updated_at: Timestamp,
)
    requires
        histories_kept(stored),
    ensures
        histories_kept(
            synchronized(stored, repository_id, reading, at, observed_at, updated_at),
        ),
{
    let current = candidate(
        stored.snapshot,
        stored.repository.project_id,
        repository_id,
        reading,
        at,
    );
    law_appending_keeps_the_histories(
        stored,
        sync_facts(stored.snapshot, current, reading.commits, at),
        plain_commits(reading.commits),
        committed_changes(reading.commits),
    );
}

/// Registering a repository records one event, for the baseline, and no commit as
/// new; the histories are as they must be.
pub proof fn law_a_baseline_is_one_event(
    repository: RepositoryView,
    reading: RepositoryReadingView,
    recent: Seq<CommitInfoView>,
    at: Timestamp,
)
    ensures
        histories_kept(baseline(repository, reading, recent, at)),
        baseline(repository, reading, recent, at).events.len() == 1,
        baseline(repository, reading, recent, at).events[0].kind == EventKind::RepositorySynced,
        baseline(repository, reading, recent, at).commits.len() <= BASELINE_COMMIT_LIMIT,
        baseline(repository, reading, recent, at).snapshot.state_version == 1,
{
    let plain = StoredRepositoryView {
        commits: Seq::empty(),
        ..baseline(repository, reading, recent, at)
    };
    let some = first_of(recent, BASELINE_COMMIT_LIMIT as nat);
    law_appending_keeps_the_histories(plain, Seq::empty(), some, Seq::empty());
    lemma_merged(Seq::<CommitInfoView>::empty(), some, commit_key_of());
    lemma_in_order::<CommitInfo, NewestFirst>(
        merged(Seq::<CommitInfoView>::empty(), some, commit_key_of()),
    );
}

/// What a synchronization finds when nothing moved: only its own fact, which is
/// recorded already.
proof fn lemma_nothing_new(
    stored: StoredRepositoryView,
    repository_id: Seq<char>,
    reading: SyncReadingView,
    at: Timestamp,
)
    requires
        reading.branch == stored.snapshot.branch,
        reading.head == stored.snapshot.head_commit,
        reading.worktree.clean == stored.snapshot.working_tree_clean,
        same_changes(reading.worktree, stored.snapshot.working_tree),
        reading.commits.len() == 0,
        holds(
            stored.events,
            event_key_of(),
            event_key(repository_id, EventKind::RepositorySynced, reading.head, None, None),
        ),
        is_ordered::<ObservationEvent, OldestFirst>(stored.events),
        stored.events.len() <= MAX_EVENTS,
    ensures
        ({
            let current = candidate(
                stored.snapshot,
                stored.repository.project_id,
                repository_id,
                reading,
                at,
            );
            let facts = sync_facts(stored.snapshot, current, reading.commits, at);
            &&& differences(current, stored.snapshot).len() == 0
            &&& new_facts(stored, facts) == 0
            &&& events_after(stored.events, facts) == stored.events
            &&& next_snapshot(stored.snapshot, current).state_version
                == stored.snapshot.state_version
        }),
{
    let previous = stored.snapshot;
    let current = candidate(previous, stored.repository.project_id, repository_id, reading, at);
    law_differences_are_complete_and_ordered(current, previous);
    let facts = sync_facts(previous, current, reading.commits, at);
    let fresh = fresh_changes(current.working_tree, previous.working_tree);
    law_same_changes_are_not_new(current.working_tree, previous.working_tree);
    assert(fresh =~= Seq::empty());
    assert(facts =~= seq![sync_event(current, at)]);
    assert(event_key_of()(facts[0]) == event_key(
        repository_id,
        EventKind::RepositorySynced,
        reading.head,
        None,
        None,
    ));
    lemma_merged_known(stored.events, facts, event_key_of());
    lemma_in_order_of_ordered::<ObservationEvent, OldestFirst>(stored.events);
}

/// Synchronizing again when nothing moved records nothing: no event is created, the
/// version stays, and the histories are the same. Left out are histories that the
/// first synchronization cut because they were too long.
pub proof fn law_a_second_sync_records_nothing(
    stored: StoredRepositoryView,
    repository_id: Seq<char>,
    first: SyncReadingView,
    second: SyncReadingView,
    at: Timestamp,
    later: Timestamp,
    observed_at: Timestamp,
    updated_at: Timestamp,
)
    requires
        histories_kept(stored),
        second.branch == first.branch,
        second.head == first.head,
        second.worktree.clean == first.worktree.clean,
        same_changes(second.worktree, first.worktree),
        second.commits.len() == 0,
        merged(
            stored.events,
            sync_facts(
                stored.snapshot,
                candidate(
                    stored.snapshot,
                    stored.repository.project_id,
                    repository_id,
                    first,
                    at,
                ),
                first.commits,
                at,
            ),
            event_key_of(),
        ).len() <= MAX_EVENTS,
    ensures
        ({
            let once = synchronized(stored, repository_id, first, at, observed_at, updated_at);
            let twice = synchronized(once, repository_id, second, later, observed_at, updated_at);
            let outcome = sync_outcome(once, repository_id, second, later);
            &&& outcome.events_created == 0
            &&& !outcome.branch_changed
            &&& !outcome.commit_changed
            &&& !outcome.working_tree_changed
            &&& outcome.status != SyncStatus::Synced
            &&& outcome.state_version == once.snapshot.state_version
            &&& twice.snapshot.state_version == once.snapshot.state_version
            &&& twice.events == once.events
            &&& twice.commits == once.commits
            &&& twice.file_changes == once.file_changes
        }),
{
    let once = synchronized(stored, repository_id, first, at, observed_at, updated_at);
    law_a_sync_keeps_the_histories(
        stored,
        repository_id,
        first,
        at,
        observed_at,
        updated_at,
    );
    let key = event_key_of();
    let current = candidate(
        stored.snapshot,
        stored.repository.project_id,
        repository_id,
        first,
        at,
    );
    let facts = sync_facts(stored.snapshot, current, first.commits, at);
    let all = merged(stored.events, facts, key);
    lemma_merged(stored.events, facts, key);
    lemma_in_order::<ObservationEvent, OldestFirst>(all);
    let k = event_key(repository_id, EventKind::RepositorySynced, first.head, None, None);
    assert(facts.last() == sync_event(current, at));
    assert(key(facts[facts.len() - 1]) == k);
    assert(holds(facts, key, k));
    assert(holds(all, key, k));
    lemma_in_order_holds::<ObservationEvent, OldestFirst, Seq<char>>(all, key, k);
    lemma_nothing_new(once, repository_id, second, later);
    let again = candidate(
        once.snapshot,
        once.repository.project_id,
        repository_id,
        second,
        later,
    );
    law_differences_are_complete_and_ordered(again, once.snapshot);
    assert(plain_commits(second.commits) =~= Seq::empty());
    lemma_in_order_of_ordered::<CommitInfo, NewestFirst>(once.commits);
}

/// The first synchronization after a repository was registered records nothing
/// where nothing moved since; in a repository without commits it reports the
/// baseline.
pub proof fn law_the_first_sync_records_nothing(
    repository: RepositoryView,
    reading: RepositoryReadingView,
    recent: Seq<CommitInfoView>,
    at: Timestamp,
    next: SyncReadingView,
    later: Timestamp,
)
    requires
        next.branch == reading.branch,
        next.head == reading.head,
        next.worktree.clean == reading.worktree.clean,
        same_changes(next.worktree, reading.worktree),
        next.commits.len() == 0,
    ensures
        ({
            let stored = baseline(repository, reading, recent, at);
            let outcome = sync_outcome(stored, repository.id, next, later);
            &&& outcome.events_created == 0
            &&& outcome.state_version == 1
            &&& outcome.status == if reading.head.len() == 0 {
                SyncStatus::Baseline
            } else {
                SyncStatus::NoChange
            }
        }),
{
    let stored = baseline(repository, reading, recent, at);
    law_a_baseline_is_one_event(repository, reading, recent, at);
    let k = event_key(repository.id, EventKind::RepositorySynced, reading.head, None, None);
    assert(event_key_of()(stored.events[0]) == k);
    lemma_nothing_new(stored, repository.id, next, later);
}

/// Every new commit is recorded, as a commit and as an event. Left out are
/// histories that are cut because they are too long.
pub proof fn law_every_new_commit_is_recorded(
    stored: StoredRepositoryView,
    repository_id: Seq<char>,
    reading: SyncReadingView,
    at: Timestamp,
    observed_at: Timestamp,
    updated_at: Timestamp,
    i: int,
)
    requires
        0 <= i < reading.commits.len(),
        merged(
            stored.events,
            sync_facts(
                stored.snapshot,
                candidate(
                    stored.snapshot,
                    stored.repository.project_id,
                    repository_id,
                    reading,
                    at,
                ),
                reading.commits,
                at,
            ),
            event_key_of(),
        ).len() <= MAX_EVENTS,
        merged(stored.commits, plain_commits(reading.commits), commit_key_of()).len()
            <= MAX_COMMITS,
    ensures
        ({
            let after = synchronized(
                stored,
                repository_id,
                reading,
                at,
                observed_at,
                updated_at,
            );
            let sha = reading.commits[i].commit.sha;
            &&& holds(after.commits, commit_key_of(), sha)
            &&& holds(
                after.events,
                event_key_of(),
                event_key(repository_id, EventKind::CommitCreated, sha, None, None),
            )
        }),
{
    let current = candidate(
        stored.snapshot,
        stored.repository.project_id,
        repository_id,
        reading,
        at,
    );
    let sha = reading.commits[i].commit.sha;
    let facts = sync_facts(stored.snapshot, current, reading.commits, at);
    let k = event_key(repository_id, EventKind::CommitCreated, sha, None, None);
    let part = commit_events(reading.commits, repository_id, current.project_id, at);
    lemma_commit_event_is_there(reading.commits, repository_id, current.project_id, at, i);
    let j = choose|j: int| 0 <= j < part.len() && event_key_of()(#[trigger] part[j]) == k;
    assert(facts[j] == part[j]);
    assert(holds(facts, event_key_of(), k));
    let all = merged(stored.events, facts, event_key_of());
    lemma_merged(stored.events, facts, event_key_of());
    lemma_in_order_holds::<ObservationEvent, OldestFirst, Seq<char>>(all, event_key_of(), k);
    lemma_in_order::<ObservationEvent, OldestFirst>(all);
    let commits = plain_commits(reading.commits);
    assert(commit_key_of()(commits[i]) == sha);
    assert(holds(commits, commit_key_of(), sha));
    let both = merged(stored.commits, commits, commit_key_of());
    lemma_merged(stored.commits, commits, commit_key_of());
    lemma_in_order_holds::<CommitInfo, NewestFirst, Seq<char>>(both, commit_key_of(), sha);
    lemma_in_order::<CommitInfo, NewestFirst>(both);
}

proof fn lemma_commit_event_is_there(
    commits: Seq<CommitObservationView>,
    repository_id: Seq<char>,
    project_id: Seq<char>,
    at: Timestamp,
    i: int,
)
    requires
        0 <= i < commits.len(),
    ensures
        holds(
            commit_events(commits, repository_id, project_id, at),
            event_key_of(),
            event_key(
                repository_id,
                EventKind::CommitCreated,
                commits[i].commit.sha,
                None,
                None,
            ),
        ),
    decreases commits.len(),
{
    let rest = commits.drop_last();
    let before = commit_events(rest, repository_id, project_id, at);
    let all = commit_events(commits, repository_id, project_id, at);
    let k = event_key(
        repository_id,
        EventKind::CommitCreated,
        commits[i].commit.sha,
        None,
        None,
    );
    if i == commits.len() - 1 {
        assert(all[before.len() as int] == commit_event(
            repository_id,
            project_id,
            commits.last().commit,
            at,
        ));
        assert(event_key_of()(all[before.len() as int]) == k);
    } else {
        lemma_commit_event_is_there(rest, repository_id, project_id, at, i);
        assert(rest[i] == commits[i]);
        let j = choose|j: int| 0 <= j < before.len() && event_key_of()(#[trigger] before[j]) == k;
        assert(all[j] == before[j]);
    }
}

/// The facts that a synchronization finds.
pub open spec fn facts_of(
    stored: StoredRepositoryView,
    repository_id: Seq<char>,
    reading: SyncReadingView,
    at: Timestamp,
) -> Seq<ObservationEventView> {
    sync_facts(
        stored.snapshot,
        candidate(stored.snapshot, stored.repository.project_id, repository_id, reading, at),
        reading.commits,
        at,
    )
}

/// The commit at `i` brought a change.
pub open spec fn brought(commits: Seq<CommitObservationView>, i: int, r: FileChangeRecordView) -> bool {
    0 <= i < commits.len() && commits[i].changes.contains(r)
}

/// The change stands in the tree that was read and did not stand in the stored one.
pub open spec fn appeared(
    stored: StoredRepositoryView,
    reading: SyncReadingView,
    r: FileChangeRecordView,
) -> bool {
    reading.worktree.listed().contains(r) && forall|s: FileChangeRecordView| #[trigger]
        stored.snapshot.working_tree.listed().contains(s) ==> !same_file_change(s, r)
}

/// Each commit has its fact.
proof fn lemma_commit_is_told(
    commits: Seq<CommitObservationView>,
    repository_id: Seq<char>,
    project_id: Seq<char>,
    at: Timestamp,
    i: int,
)
    requires
        0 <= i < commits.len(),
    ensures
        commit_events(commits, repository_id, project_id, at).contains(
            commit_event(repository_id, project_id, commits[i].commit, at),
        ),
    decreases commits.len(),
{
    let rest = commits.drop_last();
    let before = commit_events(rest, repository_id, project_id, at);
    let all = commit_events(commits, repository_id, project_id, at);
    let e = commit_event(repository_id, project_id, commits[i].commit, at);
    if i < rest.len() {
        assert(rest[i] == commits[i]);
        lemma_commit_is_told(rest, repository_id, project_id, at, i);
        let k = choose|k: int| 0 <= k < before.len() && before[k] == e;
        assert(all[k] == e);
    } else {
        assert(all[before.len() as int] == e);
    }
}

/// Each change that a commit brought has its fact.
proof fn lemma_change_is_told(
    commits: Seq<CommitObservationView>,
    repository_id: Seq<char>,
    project_id: Seq<char>,
    at: Timestamp,
    i: int,
    r: FileChangeRecordView,
)
    requires
        brought(commits, i, r),
    ensures
        commit_events(commits, repository_id, project_id, at).contains(
            file_event(r, project_id, at),
        ),
    decreases commits.len(),
{
    let rest = commits.drop_last();
    let before = commit_events(rest, repository_id, project_id, at);
    let all = commit_events(commits, repository_id, project_id, at);
    let e = file_event(r, project_id, at);
    if i < rest.len() {
        assert(rest[i] == commits[i]);
        lemma_change_is_told(rest, repository_id, project_id, at, i, r);
        let k = choose|k: int| 0 <= k < before.len() && before[k] == e;
        assert(all[k] == e);
    } else {
        let k = choose|k: int| 0 <= k < commits[i].changes.len() && commits[i].changes[k] == r;
        assert(file_events(commits.last().changes, project_id, at)[k] == e);
        assert(all[before.len() + 1 + k] == e);
    }
}

/// The event is that of the commit at `i`.
spec fn of_commit(
    commits: Seq<CommitObservationView>,
    i: int,
    repository_id: Seq<char>,
    project_id: Seq<char>,
    at: Timestamp,
    e: ObservationEventView,
) -> bool {
    0 <= i < commits.len() && e == commit_event(repository_id, project_id, commits[i].commit, at)
}

/// The event is that of a change that the commit at `i` brought.
spec fn of_change(
    commits: Seq<CommitObservationView>,
    i: int,
    r: FileChangeRecordView,
    project_id: Seq<char>,
    at: Timestamp,
    e: ObservationEventView,
) -> bool {
    brought(commits, i, r) && e == file_event(r, project_id, at)
}

/// The facts about commits are those of the commits and of what they brought.
proof fn lemma_commit_fact(
    commits: Seq<CommitObservationView>,
    repository_id: Seq<char>,
    project_id: Seq<char>,
    at: Timestamp,
    k: int,
)
    requires
        0 <= k < commit_events(commits, repository_id, project_id, at).len(),
    ensures
        ({
            let e = commit_events(commits, repository_id, project_id, at)[k];
            ||| exists|i: int| of_commit(commits, i, repository_id, project_id, at, e)
            ||| exists|i: int, r: FileChangeRecordView|
                of_change(commits, i, r, project_id, at, e)
        }),
    decreases commits.len(),
{
    let rest = commits.drop_last();
    let n = commits.len() - 1;
    let before = commit_events(rest, repository_id, project_id, at);
    let e = commit_events(commits, repository_id, project_id, at)[k];
    if k < before.len() {
        lemma_commit_fact(rest, repository_id, project_id, at, k);
        assert(before[k] == e);
        if exists|i: int| of_commit(rest, i, repository_id, project_id, at, e) {
            let i = choose|i: int| of_commit(rest, i, repository_id, project_id, at, e);
            assert(of_commit(commits, i, repository_id, project_id, at, e));
        } else {
            let (i, r) = choose|i: int, r: FileChangeRecordView|
                of_change(rest, i, r, project_id, at, e);
            assert(rest[i] == commits[i]);
            assert(of_change(commits, i, r, project_id, at, e));
        }
    } else if k == before.len() {
        assert(of_commit(commits, n, repository_id, project_id, at, e));
    } else {
        let j = k - before.len() - 1;
        let r = commits.last().changes[j];
        assert(e == file_events(commits.last().changes, project_id, at)[j]);
        assert(commits[n].changes.contains(r));
        assert(of_change(commits, n, r, project_id, at, e));
    }
}

/// Where another branch is checked out, the facts hold a change of branches that says
/// which was left and which was taken up: the stored one and the one that was read. It
/// is the only one, and there is none where the branch is the same. Where its id is not
/// recorded yet, by an event or by another fact, and the history is not cut, it stands
/// in the history afterwards.
pub proof fn law_a_branch_change_tells_from_where_to_where(
    stored: StoredRepositoryView,
    repository_id: Seq<char>,
    reading: SyncReadingView,
    at: Timestamp,
    observed_at: Timestamp,
    updated_at: Timestamp,
    e: ObservationEventView,
)
    requires
        e.kind == EventKind::BranchChanged,
    ensures
        facts_of(stored, repository_id, reading, at).contains(e) ==> {
            &&& stored.snapshot.branch != reading.branch
            &&& e.data == (EventDataView::Branch {
                from: stored.snapshot.branch,
                to: reading.branch,
            })
            &&& e.repository_id == repository_id
            &&& e.project_id == stored.repository.project_id
            &&& e.timestamp == at
        },
        stored.snapshot.branch != reading.branch ==> exists|told: ObservationEventView| #[trigger]
            facts_of(stored, repository_id, reading, at).contains(told) && told.kind
                == EventKind::BranchChanged && told.data == (EventDataView::Branch {
                from: stored.snapshot.branch,
                to: reading.branch,
            }),
        facts_of(stored, repository_id, reading, at).contains(e) && (forall|j: int|
            0 <= j < stored.events.len() ==> (#[trigger] stored.events[j]).event_id != e.event_id)
            && (forall|other: ObservationEventView| #[trigger]
            facts_of(stored, repository_id, reading, at).contains(other) && other.event_id
                == e.event_id ==> other == e) && merged(
            stored.events,
            facts_of(stored, repository_id, reading, at),
            event_key_of(),
        ).len() <= MAX_EVENTS ==> synchronized(
            stored,
            repository_id,
            reading,
            at,
            observed_at,
            updated_at,
        ).events.contains(e),
{
    let facts = facts_of(stored, repository_id, reading, at);
    if facts.contains(e) {
        law_facts_tell_what_was_read(stored, repository_id, reading, at, e);
    }
    law_what_was_read_is_told(stored, repository_id, reading, at);
    if facts.contains(e) && (forall|j: int|
        0 <= j < stored.events.len() ==> (#[trigger] stored.events[j]).event_id != e.event_id) && (
    forall|other: ObservationEventView| #[trigger]
        facts.contains(other) && other.event_id == e.event_id ==> other == e) && merged(
        stored.events,
        facts,
        event_key_of(),
    ).len() <= MAX_EVENTS {
        law_a_new_fact_is_stored(
            stored,
            repository_id,
            reading,
            at,
            observed_at,
            updated_at,
            e,
        );
    }
}

/// A fact whose id is not recorded yet, by an event or by another fact, stands in the
/// history afterwards, as it is, unless the history is cut. What stood there before
/// still does.
pub proof fn law_a_new_fact_is_stored(
    stored: StoredRepositoryView,
    repository_id: Seq<char>,
    reading: SyncReadingView,
    at: Timestamp,
    observed_at: Timestamp,
    updated_at: Timestamp,
    e: ObservationEventView,
)
    requires
        merged(
            stored.events,
            facts_of(stored, repository_id, reading, at),
            event_key_of(),
        ).len() <= MAX_EVENTS,
    ensures
        facts_of(stored, repository_id, reading, at).contains(e) && (forall|j: int|
            0 <= j < stored.events.len() ==> (#[trigger] stored.events[j]).event_id != e.event_id)
            && (forall|other: ObservationEventView| #[trigger]
            facts_of(stored, repository_id, reading, at).contains(other) && other.event_id
                == e.event_id ==> other == e) ==> synchronized(
            stored,
            repository_id,
            reading,
            at,
            observed_at,
            updated_at,
        ).events.contains(e),
        stored.events.contains(e) ==> synchronized(
            stored,
            repository_id,
            reading,
            at,
            observed_at,
            updated_at,
        ).events.contains(e),
        synchronized(stored, repository_id, reading, at, observed_at, updated_at).events.contains(
            e,
        ) ==> stored.events.contains(e) || facts_of(stored, repository_id, reading, at).contains(e),
{
    let facts = facts_of(stored, repository_id, reading, at);
    if facts.contains(e) && (forall|j: int|
        0 <= j < stored.events.len() ==> (#[trigger] stored.events[j]).event_id != e.event_id) && (
    forall|other: ObservationEventView| #[trigger]
        facts.contains(other) && other.event_id == e.event_id ==> other == e) {
        let i = lemma_first_place(facts, e);
        assert forall|j: int| 0 <= j < i implies (#[trigger] facts[j]).event_id
            != facts[i].event_id by {
            assert(facts.contains(facts[j]));
        }
        law_a_new_event_is_kept(stored.events, facts, i);
    }
    law_a_new_event_is_kept(stored.events, facts, -1);
    if stored.events.contains(e) {
        let i = choose|i: int| 0 <= i < stored.events.len() && stored.events[i] == e;
        law_a_new_event_is_kept(stored.events, facts, i);
    }
}

/// The first place of an element.
proof fn lemma_first_place<A>(s: Seq<A>, x: A) -> (i: int)
    requires
        s.contains(x),
    ensures
        0 <= i < s.len(),
        s[i] == x,
        forall|j: int| 0 <= j < i ==> #[trigger] s[j] != x,
    decreases s.len(),
{
    let rest = s.drop_last();
    if rest.contains(x) {
        let i = lemma_first_place(rest, x);
        assert(rest[i] == s[i]);
        assert forall|j: int| 0 <= j < i implies #[trigger] s[j] != x by {
            assert(rest[j] == s[j]);
        }
        i
    } else {
        let k = choose|k: int| 0 <= k < s.len() && s[k] == x;
        if k < rest.len() {
            assert(rest[k] == x);
        }
        assert forall|j: int| 0 <= j < s.len() - 1 implies #[trigger] s[j] != x by {
            if s[j] == x {
                assert(rest[j] == x);
            }
        }
        s.len() - 1
    }
}

/// Every fact tells of something that was read: a commit of the walk, a file change of
/// one of them or one that appeared in the tree, a change of branches where there is
/// one, or the synchronization itself; and it says so rightly.
pub proof fn law_facts_tell_what_was_read(
    stored: StoredRepositoryView,
    repository_id: Seq<char>,
    reading: SyncReadingView,
    at: Timestamp,
    e: ObservationEventView,
)
    requires
        facts_of(stored, repository_id, reading, at).contains(e),
    ensures
        e.timestamp == at && e.project_id == stored.repository.project_id && e.source == "git"@,
        match e.data {
            EventDataView::Commit(commit) => e.kind == EventKind::CommitCreated && e.repository_id
                == repository_id && exists|i: int|
                0 <= i < reading.commits.len() && (#[trigger] reading.commits[i]).commit == commit,
            EventDataView::File(r) => e.repository_id == r.repository_id && ((exists|i: int|
                #[trigger] brought(reading.commits, i, r)) || appeared(stored, reading, r)),
            EventDataView::Branch { from, to } => e.kind == EventKind::BranchChanged
                && e.repository_id == repository_id && from == stored.snapshot.branch && to
                == reading.branch && from != to,
            EventDataView::Sync { commit, branch, working_tree_clean } => e.kind
                == EventKind::RepositorySynced && e.repository_id == repository_id && commit
                == reading.head && branch == reading.branch && working_tree_clean
                == reading.worktree.clean,
        },
        e.kind == EventKind::BranchChanged <==> e.data is Branch,
        e.kind == EventKind::CommitCreated <==> e.data is Commit,
        e.kind == EventKind::RepositorySynced <==> e.data is Sync,
{
    let previous = stored.snapshot;
    let project_id = stored.repository.project_id;
    let current = candidate(previous, project_id, repository_id, reading, at);
    let facts = facts_of(stored, repository_id, reading, at);
    let part = commit_events(reading.commits, repository_id, project_id, at);
    let fresh = fresh_changes(reading.worktree, previous.working_tree);
    let files = file_events(fresh, project_id, at);
    let branches = branch_events(previous, current, at);
    let k = choose|k: int| 0 <= k < facts.len() && facts[k] == e;
    if k < part.len() {
        assert(part[k] == e);
        lemma_commit_fact(reading.commits, repository_id, project_id, at, k);
        if exists|i: int| of_commit(reading.commits, i, repository_id, project_id, at, e) {
            let i = choose|i: int|
                of_commit(reading.commits, i, repository_id, project_id, at, e);
            assert(e.data == EventDataView::Commit(reading.commits[i].commit));
        } else {
            let (i, r) = choose|i: int, r: FileChangeRecordView|
                of_change(reading.commits, i, r, project_id, at, e);
            assert(brought(reading.commits, i, r));
        }
    } else if k < part.len() + files.len() {
        let j = k - part.len();
        let r = fresh[j];
        assert(e == files[j]);
        assert(fresh.contains(r));
        law_a_new_change_was_not_there_before(reading.worktree, previous.working_tree, r);
        assert(appeared(stored, reading, r));
    } else if k < part.len() + files.len() + branches.len() {
        assert(e == branches[k - part.len() - files.len()]);
    } else {
        assert(e == sync_event(current, at));
    }
}

/// Everything that was read is told: each commit of the walk, each file change that one
/// of them brought, each that appeared in the tree, a change of branches where there is
/// one, and the synchronization itself.
pub proof fn law_what_was_read_is_told(
    stored: StoredRepositoryView,
    repository_id: Seq<char>,
    reading: SyncReadingView,
    at: Timestamp,
)
    ensures
        forall|i: int|
            0 <= i < reading.commits.len() ==> exists|e: ObservationEventView| #[trigger]
                facts_of(stored, repository_id, reading, at).contains(e) && e.data
                    == EventDataView::Commit((#[trigger] reading.commits[i]).commit),
        forall|i: int, r: FileChangeRecordView| #[trigger]
            brought(reading.commits, i, r) ==> exists|e: ObservationEventView| #[trigger]
                facts_of(stored, repository_id, reading, at).contains(e) && e.data
                    == EventDataView::File(r),
        forall|r: FileChangeRecordView| #[trigger]
            appeared(stored, reading, r) ==> exists|e: ObservationEventView| #[trigger]
                facts_of(stored, repository_id, reading, at).contains(e) && e.data
                    == EventDataView::File(r),
        stored.snapshot.branch != reading.branch ==> exists|e: ObservationEventView| #[trigger]
            facts_of(stored, repository_id, reading, at).contains(e) && e.kind
                == EventKind::BranchChanged && e.data == (EventDataView::Branch {
                from: stored.snapshot.branch,
                to: reading.branch,
            }),
        exists|e: ObservationEventView| #[trigger]
            facts_of(stored, repository_id, reading, at).contains(e) && e.data == (
            EventDataView::Sync {
                commit: reading.head,
                branch: reading.branch,
                working_tree_clean: reading.worktree.clean,
            }),
{
    let previous = stored.snapshot;
    let project_id = stored.repository.project_id;
    let current = candidate(previous, project_id, repository_id, reading, at);
    let facts = facts_of(stored, repository_id, reading, at);
    let part = commit_events(reading.commits, repository_id, project_id, at);
    let fresh = fresh_changes(reading.worktree, previous.working_tree);
    let files = file_events(fresh, project_id, at);
    let branches = branch_events(previous, current, at);
    assert forall|i: int| 0 <= i < reading.commits.len() implies exists|e: ObservationEventView|
        #[trigger] facts.contains(e) && e.data == EventDataView::Commit(
            (#[trigger] reading.commits[i]).commit,
        ) by {
        let e = commit_event(repository_id, project_id, reading.commits[i].commit, at);
        lemma_commit_is_told(reading.commits, repository_id, project_id, at, i);
        let k = choose|k: int| 0 <= k < part.len() && part[k] == e;
        assert(facts[k] == e);
        assert(facts.contains(e));
    }
    assert forall|i: int, r: FileChangeRecordView| #[trigger]
        brought(reading.commits, i, r) implies exists|e: ObservationEventView| #[trigger]
        facts.contains(e) && e.data == EventDataView::File(r) by {
        let e = file_event(r, project_id, at);
        lemma_change_is_told(reading.commits, repository_id, project_id, at, i, r);
        let k = choose|k: int| 0 <= k < part.len() && part[k] == e;
        assert(facts[k] == e);
        assert(facts.contains(e));
    }
    assert forall|r: FileChangeRecordView| #[trigger] appeared(stored, reading, r) implies exists|
        e: ObservationEventView,
    | #[trigger]
        facts.contains(e) && e.data == EventDataView::File(r) by {
        assert forall|s: FileChangeRecordView| #[trigger]
            previous.working_tree.listed().contains(s) implies s.path != r.path || s.old_path
            != r.old_path || s.commit_sha != r.commit_sha || s.fingerprint != r.fingerprint by {
            assert(!same_file_change(s, r));
        }
        law_a_new_change_was_not_there_before(reading.worktree, previous.working_tree, r);
        let j = choose|j: int| 0 <= j < fresh.len() && fresh[j] == r;
        let e = file_event(r, project_id, at);
        assert(files[j] == e);
        assert(facts[part.len() + j] == e);
        assert(facts.contains(e));
    }
    if previous.branch != reading.branch {
        assert(facts[part.len() as int + files.len()] == branches[0]);
        assert(facts.contains(branches[0]));
    }
    assert(facts.last() == sync_event(current, at));
    assert(facts.contains(sync_event(current, at)));
}

/// A synchronization takes over what was read: branch, head, tree and status become the
/// known ones, the head is the last commit that was seen, and one more observation is
/// counted; where the repository lies and whose it is stays.
pub proof fn law_a_sync_takes_over_the_reading(
    stored: StoredRepositoryView,
    repository_id: Seq<char>,
    reading: SyncReadingView,
    at: Timestamp,
    observed_at: Timestamp,
    updated_at: Timestamp,
)
    requires
        stored.repository.observation_version < u64::MAX,
    ensures
        ({
            let after = synchronized(stored, repository_id, reading, at, observed_at, updated_at);
            let outcome = sync_outcome(stored, repository_id, reading, at);
            &&& after.snapshot.branch == reading.branch
            &&& after.snapshot.head_commit == reading.head
            &&& after.snapshot.working_tree == reading.worktree
            &&& after.snapshot.working_tree_clean == reading.worktree.clean
            &&& after.snapshot.last_observed_commit == reading.head
            &&& after.snapshot.observed_at == at
            &&& after.snapshot.project_id == stored.repository.project_id
            &&& after.snapshot.repository_id == repository_id
            &&& after.repository.current_branch == reading.branch
            &&& after.repository.current_commit == reading.head
            &&& after.repository.status == reading.status
            &&& reading.head.len() > 0 ==> after.repository.last_observed_commit == Some(
                reading.head,
            )
            &&& reading.head.len() == 0 ==> after.repository.last_observed_commit is None
            &&& after.repository.observation_version == stored.repository.observation_version + 1
            &&& after.repository.id == stored.repository.id
            &&& after.repository.project_id == stored.repository.project_id
            &&& after.repository.local_path == stored.repository.local_path
            &&& after.repository.remote_url == stored.repository.remote_url
            &&& after.repository.default_branch == stored.repository.default_branch
            &&& after.repository.created_at == stored.repository.created_at
            &&& after.format_version == stored.format_version
            &&& outcome.current_commit == reading.head
            &&& stored.snapshot.last_observed_commit.len() > 0 ==> outcome.previous_commit == Some(
                stored.snapshot.last_observed_commit,
            )
            &&& stored.snapshot.last_observed_commit.len() == 0 ==> outcome.previous_commit is None
        }),
{
}

/// A synchronization tells what changed by comparing what was read with what is stored,
/// and where anything did the version goes up by one.
pub proof fn law_a_sync_tells_what_changed(
    stored: StoredRepositoryView,
    repository_id: Seq<char>,
    reading: SyncReadingView,
    at: Timestamp,
)
    requires
        stored.snapshot.state_version < u64::MAX,
    ensures
        ({
            let outcome = sync_outcome(stored, repository_id, reading, at);
            let tree_changed = reading.worktree.clean != stored.snapshot.working_tree_clean
                || !same_changes(reading.worktree, stored.snapshot.working_tree);
            let changed = reading.branch != stored.snapshot.branch || reading.head
                != stored.snapshot.head_commit || tree_changed;
            &&& outcome.branch_changed <==> reading.branch != stored.snapshot.branch
            &&& outcome.commit_changed <==> reading.head != stored.snapshot.head_commit
            &&& outcome.working_tree_changed <==> tree_changed
            &&& changed ==> outcome.status == SyncStatus::Synced && outcome.state_version
                == stored.snapshot.state_version + 1
            &&& !changed ==> outcome.state_version == stored.snapshot.state_version
        }),
{
    let current = candidate(
        stored.snapshot,
        stored.repository.project_id,
        repository_id,
        reading,
        at,
    );
    law_differences_are_complete_and_ordered(current, stored.snapshot);
}

/// No event is counted as created exactly where each fact's id is recorded already; and
/// where the history is not cut, it is longer by as many events as are counted.
pub proof fn law_created_events_are_the_new_ones(
    stored: StoredRepositoryView,
    repository_id: Seq<char>,
    reading: SyncReadingView,
    at: Timestamp,
    observed_at: Timestamp,
    updated_at: Timestamp,
)
    ensures
        new_facts(stored, facts_of(stored, repository_id, reading, at)) == 0 <==> forall|
            e: ObservationEventView,
        | #[trigger]
            facts_of(stored, repository_id, reading, at).contains(e) ==> exists|j: int|
                0 <= j < stored.events.len() && (#[trigger] stored.events[j]).event_id
                    == e.event_id,
        merged(
            stored.events,
            facts_of(stored, repository_id, reading, at),
            event_key_of(),
        ).len() <= MAX_EVENTS ==> synchronized(
            stored,
            repository_id,
            reading,
            at,
            observed_at,
            updated_at,
        ).events.len() == stored.events.len() + new_facts(
            stored,
            facts_of(stored, repository_id, reading, at),
        ),
{
    let facts = facts_of(stored, repository_id, reading, at);
    let key = event_key_of();
    law_taking_in_adds_only_new_keys(stored.events, facts, key);
    lemma_in_order::<ObservationEvent, OldestFirst>(merged(stored.events, facts, key));
    if new_facts(stored, facts) == 0 {
        assert forall|e: ObservationEventView| #[trigger] facts.contains(e) implies exists|j: int|
            0 <= j < stored.events.len() && (#[trigger] stored.events[j]).event_id
                == e.event_id by {
            let i = choose|i: int| 0 <= i < facts.len() && facts[i] == e;
            assert(holds(stored.events, key, key(facts[i])));
            let j = choose|j: int|
                0 <= j < stored.events.len() && key(#[trigger] stored.events[j]) == key(facts[i]);
            assert(stored.events[j].event_id == e.event_id);
        }
    }
    if forall|e: ObservationEventView| #[trigger]
        facts.contains(e) ==> exists|j: int|
            0 <= j < stored.events.len() && (#[trigger] stored.events[j]).event_id == e.event_id {
        assert forall|i: int| 0 <= i < facts.len() implies holds(
            stored.events,
            key,
            key(#[trigger] facts[i]),
        ) by {
            assert(facts.contains(facts[i]));
            let j = choose|j: int|
                0 <= j < stored.events.len() && (#[trigger] stored.events[j]).event_id
                    == facts[i].event_id;
            assert(key(stored.events[j]) == key(facts[i]));
        }
    }
}

/// A commit of the walk that was not known is kept, as it is, unless the history is cut;
/// so is each file change that one of them brought. Nothing else comes in.
pub proof fn law_new_commits_and_their_changes_are_kept(
    stored: StoredRepositoryView,
    repository_id: Seq<char>,
    reading: SyncReadingView,
    at: Timestamp,
    observed_at: Timestamp,
    updated_at: Timestamp,
    i: int,
    r: FileChangeRecordView,
)
    requires
        merged(stored.commits, plain_commits(reading.commits), commit_key_of()).len()
            <= MAX_COMMITS,
        merged(
            stored.file_changes,
            committed_changes(reading.commits),
            change_key_of(),
        ).len() <= MAX_FILE_CHANGES,
        0 <= i < reading.commits.len(),
    ensures
        ({
            let after = synchronized(stored, repository_id, reading, at, observed_at, updated_at);
            let commit = reading.commits[i].commit;
            &&& (forall|j: int|
                0 <= j < stored.commits.len() ==> (#[trigger] stored.commits[j]).sha != commit.sha)
                && (forall|j: int|
                0 <= j < i ==> (#[trigger] reading.commits[j]).commit.sha != commit.sha)
                ==> after.commits.contains(commit)
            &&& forall|c: CommitInfoView| #[trigger]
                after.commits.contains(c) ==> stored.commits.contains(c) || exists|j: int|
                    0 <= j < reading.commits.len() && (#[trigger] reading.commits[j]).commit == c
            &&& brought(reading.commits, i, r) ==> exists|kept: FileChangeRecordView| #[trigger]
                after.file_changes.contains(kept) && same_file_change(kept, r)
            &&& after.file_changes.contains(r) ==> stored.file_changes.contains(r) || exists|j: int|
                #[trigger] brought(reading.commits, j, r)
        }),
{
    let after = synchronized(stored, repository_id, reading, at, observed_at, updated_at);
    let commits = plain_commits(reading.commits);
    let commit = reading.commits[i].commit;
    let changes = committed_changes(reading.commits);
    let key = change_key_of();
    assert(commits[i] == commit);
    if (forall|j: int|
        0 <= j < stored.commits.len() ==> (#[trigger] stored.commits[j]).sha != commit.sha) && (
    forall|j: int| 0 <= j < i ==> (#[trigger] reading.commits[j]).commit.sha != commit.sha) {
        assert forall|j: int| 0 <= j < i implies (#[trigger] commits[j]).sha
            != commits[i].sha by {
            assert(commits[j] == reading.commits[j].commit);
        }
        law_a_new_commit_is_kept(stored.commits, commits, i);
    }
    law_a_new_commit_is_kept(stored.commits, commits, -1);
    assert forall|c: CommitInfoView| #[trigger] after.commits.contains(c) implies
        stored.commits.contains(c) || exists|j: int|
        0 <= j < reading.commits.len() && (#[trigger] reading.commits[j]).commit == c by {
        if commits.contains(c) {
            let j = choose|j: int| 0 <= j < commits.len() && commits[j] == c;
            assert(reading.commits[j].commit == c);
        }
    }
    lemma_committed_changes(reading.commits, r);
    law_a_new_file_change_is_kept(stored.file_changes, changes, -1);
    if brought(reading.commits, i, r) {
        let all = merged(stored.file_changes, changes, key);
        lemma_merged(stored.file_changes, changes, key);
        let k = choose|k: int| 0 <= k < changes.len() && changes[k] == r;
        assert(key(changes[k]) == key(r));
        assert(holds(changes, key, key(r)));
        assert(holds(all, key, key(r)));
        let m = choose|m: int| 0 <= m < all.len() && key(#[trigger] all[m]) == key(r);
        assert(after.file_changes[m] == all[m]);
        assert(after.file_changes.contains(all[m]));
        assert(same_file_change(all[m], r));
    }
}

/// The changes that commits brought are all of theirs.
proof fn lemma_committed_changes(commits: Seq<CommitObservationView>, r: FileChangeRecordView)
    ensures
        committed_changes(commits).contains(r) <==> exists|i: int| #[trigger]
            brought(commits, i, r),
    decreases commits.len(),
{
    if commits.len() > 0 {
        let rest = commits.drop_last();
        let n = commits.len() - 1;
        let all = committed_changes(commits);
        let front = committed_changes(rest);
        lemma_committed_changes(rest, r);
        if all.contains(r) {
            let k = choose|k: int| 0 <= k < all.len() && all[k] == r;
            if k < front.len() {
                assert(front[k] == r);
                let i = choose|i: int| #[trigger] brought(rest, i, r);
                assert(rest[i] == commits[i]);
                assert(brought(commits, i, r));
            } else {
                assert(commits.last().changes[k - front.len()] == r);
                assert(brought(commits, n, r));
            }
        }
        if exists|i: int| #[trigger] brought(commits, i, r) {
            let i = choose|i: int| #[trigger] brought(commits, i, r);
            if i < n {
                assert(rest[i] == commits[i]);
                assert(brought(rest, i, r));
                let k = choose|k: int| 0 <= k < front.len() && front[k] == r;
                assert(all[k] == r);
            } else {
                let k = choose|k: int|
                    0 <= k < commits[i].changes.len() && commits[i].changes[k] == r;
                assert(all[front.len() + k] == r);
            }
        }
    }
}

/// Registering a repository takes over what was read, and tells of it in one event; the
/// commits that it starts with are among the latest ones, the first of them first.
pub proof fn law_registering_takes_over_the_reading(
    project_id: Seq<char>,
    repository_id: Seq<char>,
    local_path: Seq<char>,
    reading: RepositoryReadingView,
    recent: Seq<CommitInfoView>,
    created_at: Timestamp,
    at: Timestamp,
)
    ensures
        ({
            let repository = registered(
                project_id,
                repository_id,
                local_path,
                reading,
                created_at,
            );
            let stored = baseline(repository, reading, recent, at);
            &&& repository.id == repository_id && repository.project_id == project_id
            &&& repository.local_path == local_path
            &&& repository.remote_url == reading.remote_url && repository.default_branch
                == reading.default_branch
            &&& repository.current_branch == reading.branch && repository.current_commit
                == reading.head && repository.status == reading.status
            &&& repository.observation_version == 1
            &&& reading.head.len() > 0 ==> repository.last_observed_commit == Some(reading.head)
            &&& reading.head.len() == 0 ==> repository.last_observed_commit is None
            &&& stored.repository == repository
            &&& stored.snapshot.branch == reading.branch && stored.snapshot.head_commit
                == reading.head && stored.snapshot.working_tree == reading.worktree
            &&& stored.snapshot.last_observed_commit == reading.head
            &&& stored.events.len() == 1 && stored.events[0].data == (EventDataView::Sync {
                commit: reading.head,
                branch: reading.branch,
                working_tree_clean: reading.worktree.clean,
            })
            &&& stored.file_changes.len() == 0
            &&& reading.status == RepositoryStatus::Empty ==> stored.commits.len() == 0
            &&& forall|c: CommitInfoView| #[trigger]
                stored.commits.contains(c) ==> recent.contains(c)
            &&& reading.status != RepositoryStatus::Empty && recent.len() > 0
                ==> stored.commits.contains(recent[0])
        }),
{
    let repository = registered(project_id, repository_id, local_path, reading, created_at);
    let stored = baseline(repository, reading, recent, at);
    if reading.status != RepositoryStatus::Empty {
        let batch = first_of(recent, BASELINE_COMMIT_LIMIT as nat);
        let none = Seq::<CommitInfoView>::empty();
        lemma_merged(none, batch, commit_key_of());
        law_a_new_commit_is_kept(none, batch, 0);
        assert forall|c: CommitInfoView| #[trigger] stored.commits.contains(c) implies
            recent.contains(c) by {
            assert(batch.contains(c));
            let k = choose|k: int| 0 <= k < batch.len() && batch[k] == c;
            assert(recent[k] == c);
        }
        if recent.len() > 0 {
            assert(batch[0] == recent[0]);
        }
    }
}

/// The first listed repository of a project is found, and none exactly where none is
/// listed.
pub proof fn law_the_first_of_a_project_is_found(
    listed: Seq<StoredRepositoryView>,
    project_id: Seq<char>,
)
    ensures
        first_of_project(listed, project_id) is None <==> forall|i: int|
            0 <= i < listed.len() ==> (#[trigger] listed[i]).repository.project_id != project_id,
        first_of_project(listed, project_id) matches Some(found) ==> exists|i: int|
            0 <= i < listed.len() && #[trigger] listed[i] == found
                && found.repository.project_id == project_id && forall|j: int|
                0 <= j < i ==> (#[trigger] listed[j]).repository.project_id != project_id,
    decreases listed.len(),
{
    if listed.len() > 0 && listed[0].repository.project_id != project_id {
        let rest = listed.skip(1);
        law_the_first_of_a_project_is_found(rest, project_id);
        if first_of_project(listed, project_id) is Some {
            let found = first_of_project(listed, project_id)->0;
            let i = choose|i: int|
                0 <= i < rest.len() && #[trigger] rest[i] == found
                    && found.repository.project_id == project_id && forall|j: int|
                    0 <= j < i ==> (#[trigger] rest[j]).repository.project_id != project_id;
            assert(listed[i + 1] == found);
            assert forall|j: int| 0 <= j < i + 1 implies (#[trigger] listed[
                j
            ]).repository.project_id != project_id by {
                if j > 0 {
                    assert(rest[j - 1] == listed[j]);
                }
            }
        } else {
            assert forall|i: int| 0 <= i < listed.len() implies (#[trigger] listed[
                i
            ]).repository.project_id != project_id by {
                if i > 0 {
                    assert(rest[i - 1] == listed[i]);
                }
            }
        }
    } else if listed.len() > 0 {
        assert(listed[0] == first_of_project(listed, project_id)->0);
    }
}

/// The repositories of a project are those that are listed with it, in the order of
/// their ids.
pub proof fn law_repositories_of_a_project_are_its_own(
    listed: Seq<StoredRepositoryView>,
    project_id: Seq<char>,
    r: RepositoryView,
)
    ensures
        in_order::<Repository, ById>(repositories_of(listed, project_id)).contains(r) <==> exists|
            i: int,
        |
            0 <= i < listed.len() && (#[trigger] listed[i]).repository == r && r.project_id
                == project_id,
        forall|i: int, j: int|
            0 <= i < j < in_order::<Repository, ById>(repositories_of(listed, project_id)).len()
                ==> !text_lt(
                (#[trigger] in_order::<Repository, ById>(repositories_of(listed, project_id))[j]).id,
                (#[trigger] in_order::<Repository, ById>(repositories_of(listed, project_id))[i]).id,
            ),
{
    let own = repositories_of(listed, project_id);
    let out = in_order::<Repository, ById>(own);
    lemma_in_order::<Repository, ById>(own);
    lemma_repositories_of(listed, project_id, r);
    assert forall|i: int, j: int| 0 <= i < j < out.len() implies !text_lt(
        (#[trigger] out[j]).id,
        (#[trigger] out[i]).id,
    ) by {
        assert(!<ById as Precedence<Repository>>::before(out[j], out[i]));
    }
}

proof fn lemma_repositories_of(
    listed: Seq<StoredRepositoryView>,
    project_id: Seq<char>,
    r: RepositoryView,
)
    ensures
        repositories_of(listed, project_id).contains(r) <==> exists|i: int|
            0 <= i < listed.len() && (#[trigger] listed[i]).repository == r && r.project_id
                == project_id,
    decreases listed.len(),
{
    if listed.len() > 0 {
        let rest = listed.drop_last();
        let front = repositories_of(rest, project_id);
        lemma_repositories_of(rest, project_id, r);
        vstd::seq_lib::lemma_seq_contains_after_push(front, listed.last().repository, r);
        if repositories_of(listed, project_id).contains(r) {
            if front.contains(r) {
                let i = choose|i: int|
                    0 <= i < rest.len() && (#[trigger] rest[i]).repository == r && r.project_id
                        == project_id;
                assert(listed[i].repository == r);
            } else {
                assert(listed[listed.len() - 1].repository == r);
            }
        }
        if exists|i: int|
            0 <= i < listed.len() && (#[trigger] listed[i]).repository == r && r.project_id
                == project_id {
            let i = choose|i: int|
                0 <= i < listed.len() && (#[trigger] listed[i]).repository == r && r.project_id
                    == project_id;
            if i < rest.len() {
                assert(rest[i] == listed[i]);
            }
        }
    }
}

/// Events and file changes are given with the latest first, all of them.
pub proof fn law_the_latest_comes_first(stored: StoredRepositoryView, i: int, j: int)
    requires
        0 <= i < j,
    ensures
        latest_events(stored).to_multiset() == stored.events.to_multiset(),
        latest_events(stored).len() == stored.events.len(),
        j < stored.events.len() ==> !earlier(
            latest_events(stored)[i].timestamp@,
            latest_events(stored)[j].timestamp@,
        ),
        in_order::<FileChangeRecord, LatestChangeFirst>(stored.file_changes).to_multiset()
            == stored.file_changes.to_multiset(),
        j < stored.file_changes.len() ==> !earlier(
            in_order::<FileChangeRecord, LatestChangeFirst>(
                stored.file_changes,
            )[i].observed_at@,
            in_order::<FileChangeRecord, LatestChangeFirst>(
                stored.file_changes,
            )[j].observed_at@,
        ),
{
    lemma_in_order::<ObservationEvent, LatestEventFirst>(stored.events);
    lemma_in_order::<FileChangeRecord, LatestChangeFirst>(stored.file_changes);
    let e = latest_events(stored);
    let c = in_order::<FileChangeRecord, LatestChangeFirst>(stored.file_changes);
    if j < e.len() {
        assert(!<LatestEventFirst as Precedence<ObservationEvent>>::before(e[j], e[i]));
    }
    if j < c.len() {
        assert(!<LatestChangeFirst as Precedence<FileChangeRecord>>::before(c[j], c[i]));
    }
}

/// Kinds of events are counted with the most frequent first.
pub proof fn law_the_most_frequent_kind_comes_first(counts: Seq<(EventKind, usize)>, i: int, j: int)
    requires
        0 <= i < j < counts.len(),
    ensures
        in_order::<(EventKind, usize), MostFrequentFirst>(counts)[i].1 >= in_order::<
            (EventKind, usize),
            MostFrequentFirst,
        >(counts)[j].1,
        in_order::<(EventKind, usize), MostFrequentFirst>(counts).to_multiset()
            == counts.to_multiset(),
{
    lemma_in_order::<(EventKind, usize), MostFrequentFirst>(counts);
    let c = in_order::<(EventKind, usize), MostFrequentFirst>(counts);
    assert(!<MostFrequentFirst as Precedence<(EventKind, usize)>>::before(c[j], c[i]));
}

/// A baseline is told only where nothing was seen before and nothing was found: no commit
/// was ever observed, none came, the state is still the first, and no event but that of
/// the synchronization is new.
pub proof fn law_a_baseline_is_told_only_of_nothing(
    stored: StoredRepositoryView,
    repository_id: Seq<char>,
    reading: SyncReadingView,
    at: Timestamp,
)
    ensures
        sync_outcome(stored, repository_id, reading, at).status == SyncStatus::Baseline ==> {
            &&& stored.snapshot.last_observed_commit.len() == 0
            &&& stored.snapshot.state_version == 1
            &&& reading.commits.len() == 0
            &&& reading.branch == stored.snapshot.branch && reading.head
                == stored.snapshot.head_commit
            &&& new_facts(stored, facts_of(stored, repository_id, reading, at)) <= 1
        },
        sync_outcome(stored, repository_id, reading, at).status == SyncStatus::NoChange
            ==> new_facts(stored, facts_of(stored, repository_id, reading, at)) == 0,
        stored.snapshot.last_observed_commit.len() > 0 && new_facts(
            stored,
            facts_of(stored, repository_id, reading, at),
        ) > 0 ==> sync_outcome(stored, repository_id, reading, at).status == SyncStatus::Synced,
{
    let current = candidate(
        stored.snapshot,
        stored.repository.project_id,
        repository_id,
        reading,
        at,
    );
    law_differences_are_complete_and_ordered(current, stored.snapshot);
}

} // verus!
