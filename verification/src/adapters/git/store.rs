//! What is kept of an observed repository: its record, the latest snapshot, and
//! histories that hold each fact once.

use crate::domain::event::{ObservationEvent, ObservationEventView};
use crate::domain::ids::{EventId, RepositoryId};
use crate::domain::repository::{
    Repository, RepositoryError, RepositoryErrorView, RepositoryView,
};
use crate::domain::snapshot::{ProjectStateSnapshot, ProjectStateSnapshotView};
use crate::domain::state::{CommitInfo, CommitInfoView};
use crate::domain::worktree::{
    identity_of, is_recorded, ChangeIdentity, FileChangeRecord, FileChangeRecordView,
};
use crate::history::{
    distinct, holds, law_the_first_with_a_new_key_is_taken_in, lemma_in_order_distinct,
    lemma_in_order_holds, lemma_merged, lemma_merged_known, merged,
};
use crate::order::{
    in_order, is_ordered, lemma_in_order, lemma_in_order_of_ordered, sorted, Precedence,
};
use crate::registry::{lemma_filter_from, lemma_filter_into};
use crate::text::{
    chars_of, contains_text, has_part, joined, lemma_text_lt_irreflexive, lemma_text_lt_total,
    lemma_text_lt_transitive, matches_at, occurs_at, same_text, string_of, text_before, text_lt,
};
use crate::time::{clock_time, earlier};
use vstd::prelude::*;
use vstd::string::*;

verus! {

/// The version of the stored layout.
pub const STORE_FORMAT_VERSION: u32 = 1;

/// How many events are kept. The oldest go first.
pub const MAX_EVENTS: usize = 2000;

/// How many file changes are kept.
pub const MAX_FILE_CHANGES: usize = 5000;

/// How many commits are kept.
pub const MAX_COMMITS: usize = 2000;

/// Everything that is known of one repository.
#[derive(Debug, PartialEq, Eq)]
pub struct StoredRepository {
    /// The version of the layout that it was stored in.
    pub format_version: u32,
    /// The repository.
    pub repository: Repository,
    /// The latest snapshot.
    pub snapshot: ProjectStateSnapshot,
    /// Events, oldest first.
    pub events: Vec<ObservationEvent>,
    /// Commits, newest first.
    pub commits: Vec<CommitInfo>,
    /// File changes, in the order in which they were observed.
    pub file_changes: Vec<FileChangeRecord>,
}

/// What a [`StoredRepository`] holds.
#[verifier::ext_equal]
pub struct StoredRepositoryView {
    pub format_version: u32,
    pub repository: RepositoryView,
    pub snapshot: ProjectStateSnapshotView,
    pub events: Seq<ObservationEventView>,
    pub commits: Seq<CommitInfoView>,
    pub file_changes: Seq<FileChangeRecordView>,
}

impl View for StoredRepository {
    type V = StoredRepositoryView;

    open spec fn view(&self) -> StoredRepositoryView {
        StoredRepositoryView {
            format_version: self.format_version,
            repository: self.repository.deep_view(),
            snapshot: self.snapshot.deep_view(),
            events: self.events.deep_view(),
            commits: self.commits.deep_view(),
            file_changes: self.file_changes.deep_view(),
        }
    }
}

impl DeepView for StoredRepository {
    type V = StoredRepositoryView;

    open spec fn deep_view(&self) -> StoredRepositoryView {
        self.view()
    }
}

impl Clone for StoredRepository {
    fn clone(&self) -> (r: Self)
        ensures
            r@ == self@,
    {
        let r: StoredRepository = StoredRepository {
            format_version: self.format_version,
            repository: self.repository.clone(),
            snapshot: self.snapshot.clone(),
            events: self.events.clone(),
            commits: self.commits.clone(),
            file_changes: self.file_changes.clone(),
        };
        assert(r.events.deep_view() =~= self.events.deep_view());
        assert(r.commits.deep_view() =~= self.commits.deep_view());
        assert(r.file_changes.deep_view() =~= self.file_changes.deep_view());
        r
    }
}

/// What a read of a repository's file gave.
#[derive(Debug, PartialEq, Eq)]
pub enum FileReading {
    /// There is no such file, or it cannot be read.
    Missing,
    /// The file does not hold a record; the reason why.
    Unparsable(String),
    /// The record.
    Record(StoredRepository),
}

/// What a [`FileReading`] holds.
#[verifier::ext_equal]
pub enum FileReadingView {
    Missing,
    Unparsable(Seq<char>),
    Record(StoredRepositoryView),
}

impl View for FileReading {
    type V = FileReadingView;

    open spec fn view(&self) -> FileReadingView {
        match self {
            FileReading::Missing => FileReadingView::Missing,
            FileReading::Unparsable(x) => FileReadingView::Unparsable(x.deep_view()),
            FileReading::Record(x) => FileReadingView::Record(x.deep_view()),
        }
    }
}

impl DeepView for FileReading {
    type V = FileReadingView;

    open spec fn deep_view(&self) -> FileReadingView {
        self.view()
    }
}

impl Clone for FileReading {
    fn clone(&self) -> (r: Self)
        ensures
            r@ == self@,
    {
        match self {
            FileReading::Missing => FileReading::Missing,
            FileReading::Unparsable(x) => FileReading::Unparsable(x.clone()),
            FileReading::Record(x) => FileReading::Record(x.clone()),
        }
    }
}

/// The result of an operation on the store, by view.
pub open spec fn store_outcome<T: DeepView>(r: Result<T, RepositoryError>) -> Result<
    T::V,
    RepositoryErrorView,
> {
    match r {
        Ok(value) => Ok(value.deep_view()),
        Err(e) => Err(e@),
    }
}

/// Why a record that was read at version `observed` may not be written, by what a
/// second read of its file gave: another writer was faster, or the file no longer
/// holds a record. A file that is gone conflicts with nothing.
pub open spec fn write_refusal(reading: FileReadingView, observed: u64) -> Option<
    RepositoryErrorView,
> {
    match reading {
        FileReadingView::Missing => None,
        FileReadingView::Unparsable(reason) => Some(
            RepositoryErrorView::Store("re-parse: "@ + reason),
        ),
        FileReadingView::Record(record) => if record.snapshot.state_version != observed {
            Some(
                RepositoryErrorView::ConcurrentModification {
                    stored: record.snapshot.state_version,
                    observed,
                },
            )
        } else {
            None
        },
    }
}

/// The id cannot be the name of a file in the store's directory.
pub open spec fn unsafe_name(name: Seq<char>) -> bool {
    ||| name.len() == 0
    ||| has_part(name, "/"@)
    ||| has_part(name, "\\"@)
    ||| has_part(name, ".."@)
    ||| has_part(name, ":"@)
}

/// The error for an id that cannot be a file's name.
pub open spec fn unsafe_name_error(name: Seq<char>) -> RepositoryErrorView {
    RepositoryErrorView::Store("repository id is not a safe filename: "@ + name)
}

/// The name of a file that holds a record: a name and then `.json`.
pub open spec fn is_record_name(name: Seq<char>) -> bool {
    name.len() > 5 && occurs_at(name, ".json"@, name.len() - 5)
}

/// The ids that the files of the store are named by.
pub open spec fn ids_of_names(names: Seq<Seq<char>>) -> Seq<Seq<char>> {
    names.filter(|name: Seq<char>| is_record_name(name)).map_values(
        |name: Seq<char>| name.take(name.len() - 5),
    )
}

/// Ids by their text.
pub struct ByText;

impl Precedence<RepositoryId> for ByText {
    open spec fn before(a: Seq<char>, b: Seq<char>) -> bool {
        text_lt(a, b)
    }

    proof fn weak_order(x: Seq<char>, y: Seq<char>, z: Seq<char>) {
        lemma_text_lt_irreflexive(x);
        if text_lt(x, y) && text_lt(y, x) {
            lemma_text_lt_transitive(x, y, x);
        }
        if !text_lt(y, x) && !text_lt(z, y) && text_lt(z, x) {
            lemma_text_lt_total(x, y);
            lemma_text_lt_total(y, z);
            if text_lt(x, y) {
                lemma_text_lt_transitive(z, x, y);
            }
        }
    }

    fn is_before(a: &RepositoryId, b: &RepositoryId) -> (r: bool) {
        text_before(a.as_str(), b.as_str())
    }
}

/// Events by their time, oldest first.
pub struct OldestFirst;

impl Precedence<ObservationEvent> for OldestFirst {
    open spec fn before(a: ObservationEventView, b: ObservationEventView) -> bool {
        earlier(a.timestamp@, b.timestamp@)
    }

    proof fn weak_order(
        a: ObservationEventView,
        b: ObservationEventView,
        c: ObservationEventView,
    ) {
    }

    fn is_before(a: &ObservationEvent, b: &ObservationEvent) -> (r: bool) {
        a.timestamp.is_before(b.timestamp)
    }
}

/// Commits by their time, newest first.
pub struct NewestFirst;

impl Precedence<CommitInfo> for NewestFirst {
    open spec fn before(a: CommitInfoView, b: CommitInfoView) -> bool {
        earlier(b.committed_at@, a.committed_at@)
    }

    proof fn weak_order(a: CommitInfoView, b: CommitInfoView, c: CommitInfoView) {
    }

    fn is_before(a: &CommitInfo, b: &CommitInfo) -> (r: bool) {
        b.committed_at.is_before(a.committed_at)
    }
}

/// What tells one event from another.
pub open spec fn event_key_of() -> spec_fn(ObservationEventView) -> Seq<char> {
    |e: ObservationEventView| e.event_id
}

/// What tells one commit from another.
pub open spec fn commit_key_of() -> spec_fn(CommitInfoView) -> Seq<char> {
    |c: CommitInfoView| c.sha
}

/// What tells one file change from another.
pub open spec fn change_key_of() -> spec_fn(FileChangeRecordView) -> ChangeIdentity {
    |r: FileChangeRecordView| identity_of(r)
}

/// The last elements of a sequence, at most so many.
pub open spec fn latest<A>(s: Seq<A>, limit: nat) -> Seq<A> {
    if s.len() <= limit {
        s
    } else {
        s.skip(s.len() - limit)
    }
}

/// The first elements of a sequence, at most so many.
pub open spec fn first_of<A>(s: Seq<A>, limit: nat) -> Seq<A> {
    if s.len() <= limit {
        s
    } else {
        s.take(limit as int)
    }
}

/// The events that are kept after a batch came in.
pub open spec fn events_after(
    events: Seq<ObservationEventView>,
    batch: Seq<ObservationEventView>,
) -> Seq<ObservationEventView> {
    latest(
        in_order::<ObservationEvent, OldestFirst>(merged(events, batch, event_key_of())),
        MAX_EVENTS as nat,
    )
}

/// The commits that are kept after a batch came in.
pub open spec fn commits_after(commits: Seq<CommitInfoView>, batch: Seq<CommitInfoView>) -> Seq<
    CommitInfoView,
> {
    first_of(
        in_order::<CommitInfo, NewestFirst>(merged(commits, batch, commit_key_of())),
        MAX_COMMITS as nat,
    )
}

/// The file changes that are kept after a batch came in.
pub open spec fn changes_after(
    changes: Seq<FileChangeRecordView>,
    batch: Seq<FileChangeRecordView>,
) -> Seq<FileChangeRecordView> {
    first_of(merged(changes, batch, change_key_of()), MAX_FILE_CHANGES as nat)
}

/// Whether an event with the same id is among `events`.
fn event_is_known(events: &Vec<ObservationEvent>, id: &EventId) -> (r: bool)
    ensures
        r == holds(events.deep_view(), event_key_of(), id@),
{
    let ghost all = events.deep_view();
    let mut i: usize = 0;
    while i < events.len()
        invariant
            i <= events.len(),
            all == events.deep_view(),
            forall|j: int| 0 <= j < i ==> event_key_of()(#[trigger] all[j]) != id@,
        decreases events.len() - i,
    {
        assert(all[i as int] == events@[i as int]@);
        if events[i].event_id.same_as(id) {
            assert(event_key_of()(all[i as int]) == id@);
            return true;
        }
        i += 1;
    }
    false
}

/// Whether a commit with the same object id is among `commits`.
fn commit_is_known(commits: &Vec<CommitInfo>, sha: &str) -> (r: bool)
    ensures
        r == holds(commits.deep_view(), commit_key_of(), sha@),
{
    let ghost all = commits.deep_view();
    let mut i: usize = 0;
    while i < commits.len()
        invariant
            i <= commits.len(),
            all == commits.deep_view(),
            forall|j: int| 0 <= j < i ==> commit_key_of()(#[trigger] all[j]) != sha@,
        decreases commits.len() - i,
    {
        assert(all[i as int] == commits@[i as int]@);
        if same_text(commits[i].sha.as_str(), sha) {
            assert(commit_key_of()(all[i as int]) == sha@);
            return true;
        }
        i += 1;
    }
    false
}

impl StoredRepository {
    /// The ids of every event that is recorded, each once.
    pub fn known_event_ids(&self) -> (r: Vec<EventId>)
        ensures
            r.deep_view().no_duplicates(),
            forall|id: Seq<char>| #[trigger]
                r.deep_view().contains(id) <==> holds(self@.events, event_key_of(), id),
    {
        let ghost all = self.events.deep_view();
        let mut ids: Vec<EventId> = Vec::new();
        let mut i: usize = 0;
        while i < self.events.len()
            invariant
                i <= self.events.len(),
                all == self.events.deep_view(),
                ids.deep_view().no_duplicates(),
                forall|id: Seq<char>| #[trigger]
                    ids.deep_view().contains(id) <==> holds(
                        all.take(i as int),
                        event_key_of(),
                        id,
                    ),
            decreases self.events.len() - i,
        {
            let event: &ObservationEvent = &self.events[i];
            let ghost before = ids.deep_view();
            let ghost part = all.take(i as int);
            let ghost longer = all.take(i + 1);
            assert(all[i as int] == event@);
            assert(longer =~= part.push(event@));
            if !id_is_listed(&ids, &event.event_id) {
                ids.push(event.event_id.clone());
                assert(ids.deep_view() =~= before.push(event@.event_id));
            }
            assert forall|id: Seq<char>| #[trigger]
                ids.deep_view().contains(id) <==> holds(longer, event_key_of(), id) by {
                if before.contains(id) {
                    let k = choose|k: int| 0 <= k < before.len() && before[k] == id;
                    assert(ids.deep_view()[k] == id);
                }
                if holds(part, event_key_of(), id) {
                    let k = choose|k: int|
                        0 <= k < part.len() && event_key_of()(#[trigger] part[k]) == id;
                    assert(longer[k] == part[k]);
                }
                if holds(longer, event_key_of(), id) {
                    let k = choose|k: int|
                        0 <= k < longer.len() && event_key_of()(#[trigger] longer[k]) == id;
                    if k < part.len() {
                        assert(part[k] == longer[k]);
                        assert(holds(part, event_key_of(), id));
                        assert(before.contains(id));
                    }
                }
                if id == event@.event_id {
                    assert(event_key_of()(longer[i as int]) == id);
                    if !before.contains(id) {
                        assert(ids.deep_view()[before.len() as int] == id);
                    }
                }
            }
            i += 1;
        }
        assert(all.take(all.len() as int) =~= all);
        ids
    }

    /// Adds the events that are not known yet, and says how many there were. An
    /// event whose id is present is dropped, not duplicated. Where there are too
    /// many events, the oldest are dropped.
    pub fn append_events(&mut self, events: Vec<ObservationEvent>) -> (added: usize)
        ensures
            final(self)@ == (StoredRepositoryView {
                events: events_after(old(self)@.events, events.deep_view()),
                ..old(self)@
            }),
            added == merged(old(self)@.events, events.deep_view(), event_key_of()).len()
                - old(self)@.events.len(),
    {
        let ghost start = self.events.deep_view();
        let ghost batch = events.deep_view();
        let ghost key = event_key_of();
        let mut all: Vec<ObservationEvent> = Vec::new();
        std::mem::swap(&mut all, &mut self.events);
        let known: usize = all.len();
        assert(batch.take(0) =~= Seq::empty());
        for event in it: events.into_iter()
            invariant
                it.seq() == events@,
                batch == events.deep_view(),
                key == event_key_of(),
                all.deep_view() == merged(start, batch.take(it.index() as int), key),
                known <= all@.len(),
        {
            let ghost i = it.index() as int;
            let ghost before = all.deep_view();
            proof {
                assert(batch[i] == event@);
                assert(batch.take(i + 1).drop_last() =~= batch.take(i));
                assert(before.len() == all@.len());
            }
            if !event_is_known(&all, &event.event_id) {
                all.push(event);
                assert(all.deep_view() =~= before.push(event@));
            }
        }
        assert(batch.take(batch.len() as int) =~= batch);
        let added: usize = all.len() - known;
        let mut ordered: Vec<ObservationEvent> = sorted::<ObservationEvent, OldestFirst>(all);
        if ordered.len() > MAX_EVENTS {
            let cut: usize = ordered.len() - MAX_EVENTS;
            let ghost whole = ordered.deep_view();
            let kept: Vec<ObservationEvent> = ordered.split_off(cut);
            assert(kept.deep_view() =~= whole.skip(cut as int));
            self.events = kept;
        } else {
            assert(ordered.deep_view().len() == ordered@.len());
            self.events = ordered;
        }
        added
    }

    /// Adds the commits that are not known yet, by object id, and says how many
    /// there were. Where there are too many commits, the oldest are dropped.
    pub fn append_commits(&mut self, commits: Vec<CommitInfo>) -> (added: usize)
        ensures
            final(self)@ == (StoredRepositoryView {
                commits: commits_after(old(self)@.commits, commits.deep_view()),
                ..old(self)@
            }),
            added == merged(old(self)@.commits, commits.deep_view(), commit_key_of()).len()
                - old(self)@.commits.len(),
    {
        let ghost start = self.commits.deep_view();
        let ghost batch = commits.deep_view();
        let ghost key = commit_key_of();
        let mut all: Vec<CommitInfo> = Vec::new();
        std::mem::swap(&mut all, &mut self.commits);
        let known: usize = all.len();
        assert(batch.take(0) =~= Seq::empty());
        for commit in it: commits.into_iter()
            invariant
                it.seq() == commits@,
                batch == commits.deep_view(),
                key == commit_key_of(),
                all.deep_view() == merged(start, batch.take(it.index() as int), key),
                known <= all@.len(),
        {
            let ghost i = it.index() as int;
            let ghost before = all.deep_view();
            proof {
                assert(batch[i] == commit@);
                assert(batch.take(i + 1).drop_last() =~= batch.take(i));
                assert(before.len() == all@.len());
            }
            if !commit_is_known(&all, commit.sha.as_str()) {
                all.push(commit);
                assert(all.deep_view() =~= before.push(commit@));
            }
        }
        assert(batch.take(batch.len() as int) =~= batch);
        let added: usize = all.len() - known;
        let mut ordered: Vec<CommitInfo> = sorted::<CommitInfo, NewestFirst>(all);
        let ghost whole = ordered.deep_view();
        ordered.truncate(MAX_COMMITS);
        assert(ordered.deep_view() =~= first_of(whole, MAX_COMMITS as nat));
        self.commits = ordered;
        added
    }

    /// Adds the file changes that are not known yet, by their identity, and says
    /// how many there were. No more are kept than there is room for.
    pub fn append_file_changes(&mut self, changes: Vec<FileChangeRecord>) -> (added: usize)
        ensures
            final(self)@ == (StoredRepositoryView {
                file_changes: changes_after(old(self)@.file_changes, changes.deep_view()),
                ..old(self)@
            }),
            added == merged(old(self)@.file_changes, changes.deep_view(), change_key_of()).len()
                - old(self)@.file_changes.len(),
    {
        let ghost start = self.file_changes.deep_view();
        let ghost batch = changes.deep_view();
        let ghost key = change_key_of();
        let mut all: Vec<FileChangeRecord> = Vec::new();
        std::mem::swap(&mut all, &mut self.file_changes);
        let known: usize = all.len();
        assert(batch.take(0) =~= Seq::empty());
        for change in it: changes.into_iter()
            invariant
                it.seq() == changes@,
                batch == changes.deep_view(),
                key == change_key_of(),
                all.deep_view() == merged(start, batch.take(it.index() as int), key),
                known <= all@.len(),
        {
            let ghost i = it.index() as int;
            let ghost before = all.deep_view();
            proof {
                assert(batch[i] == change@);
                assert(batch.take(i + 1).drop_last() =~= batch.take(i));
                assert(before.len() == all@.len());
            }
            if !is_recorded(&all, &change) {
                all.push(change);
                assert(all.deep_view() =~= before.push(change@));
            }
        }
        assert(batch.take(batch.len() as int) =~= batch);
        let added: usize = all.len() - known;
        let ghost whole = all.deep_view();
        all.truncate(MAX_FILE_CHANGES);
        assert(all.deep_view() =~= first_of(whole, MAX_FILE_CHANGES as nat));
        self.file_changes = all;
        added
    }

    /// Replaces the snapshot.
    pub fn set_snapshot(&mut self, snapshot: ProjectStateSnapshot)
        ensures
            final(self)@ == (StoredRepositoryView { snapshot: snapshot@, ..old(self)@ }),
    {
        self.snapshot = snapshot;
    }
}

/// Whether an id is among `ids`.
fn id_is_listed(ids: &Vec<EventId>, id: &EventId) -> (r: bool)
    ensures
        r == ids.deep_view().contains(id@),
{
    let mut i: usize = 0;
    while i < ids.len()
        invariant
            i <= ids.len(),
            forall|j: int| 0 <= j < i ==> ids.deep_view()[j] != id@,
        decreases ids.len() - i,
    {
        assert(ids.deep_view()[i as int] == ids@[i as int]@);
        if ids[i].same_as(id) {
            return true;
        }
        i += 1;
    }
    false
}

/// A directory with one file for each repository.
#[derive(Debug, PartialEq, Eq)]
pub struct RepositoryStore {
    /// The directory.
    pub root: String,
}

/// What a [`RepositoryStore`] holds.
#[verifier::ext_equal]
pub struct RepositoryStoreView {
    pub root: Seq<char>,
}

impl View for RepositoryStore {
    type V = RepositoryStoreView;

    open spec fn view(&self) -> RepositoryStoreView {
        RepositoryStoreView {
            root: self.root.deep_view(),
        }
    }
}

impl DeepView for RepositoryStore {
    type V = RepositoryStoreView;

    open spec fn deep_view(&self) -> RepositoryStoreView {
        self.view()
    }
}

impl Clone for RepositoryStore {
    fn clone(&self) -> (r: Self)
        ensures
            r@ == self@,
    {
        let r: RepositoryStore = RepositoryStore {
            root: self.root.clone(),
        };
        r
    }
}

impl RepositoryStore {
    /// The store in a directory.
    pub fn new(root: &str) -> (r: Self)
        ensures
            r@.root == root@,
    {
        RepositoryStore { root: root.to_owned() }
    }

    /// The directory that holds the files.
    pub fn root(&self) -> (r: &str)
        ensures
            r@ == self@.root,
    {
        self.root.as_str()
    }

    /// The name of the file for a repository. An id that could lead out of the
    /// store's directory is refused.
    pub fn file_for(&self, id: &RepositoryId) -> (r: Result<String, RepositoryError>)
        ensures
            store_outcome(r) == (if unsafe_name(id@) {
                Err(unsafe_name_error(id@))
            } else {
                Ok(id@ + ".json"@)
            }),
    {
        let name: &str = id.as_str();
        if chars_of(name).len() == 0 || contains_text(name, "/") || contains_text(name, "\\")
            || contains_text(name, "..") || contains_text(name, ":") {
            return Err(
                RepositoryError::Store(joined("repository id is not a safe filename: ", name)),
            );
        }
        Ok(joined(name, ".json"))
    }

    /// The record of a repository, by what a read of its file gave.
    pub fn load(&self, id: &RepositoryId, path: &str, reading: FileReading) -> (r: Result<
        StoredRepository,
        RepositoryError,
    >)
        ensures
            store_outcome(r) == (match reading@ {
                FileReadingView::Missing => Err(RepositoryErrorView::NotRegistered(id@)),
                FileReadingView::Unparsable(reason) => Err(
                    RepositoryErrorView::Store("parse "@ + path@ + ": "@ + reason),
                ),
                FileReadingView::Record(record) => Ok(record),
            }),
    {
        match reading {
            FileReading::Missing => Err(RepositoryError::NotRegistered(id.to_string())),
            FileReading::Unparsable(reason) => {
                let mut text: String = joined("parse ", path);
                text.append(": ");
                text.append(reason.as_str());
                Err(RepositoryError::Store(text))
            },
            FileReading::Record(record) => Ok(record),
        }
    }

    /// The ids of the registered repositories in order, by the names of the files
    /// in the directory.
    pub fn list(&self, names: &Vec<String>) -> (r: Vec<RepositoryId>)
        ensures
            r.deep_view() == in_order::<RepositoryId, ByText>(ids_of_names(names.deep_view())),
    {
        let ghost all = names.deep_view();
        let ghost p = |name: Seq<char>| is_record_name(name);
        let ghost f = |name: Seq<char>| name.take(name.len() - 5);
        let mut ids: Vec<RepositoryId> = Vec::new();
        let mut i: usize = 0;
        proof {
            reveal(Seq::filter);
            reveal_strlit(".json");
            assert(ids.deep_view() =~= all.take(0).filter(p).map_values(f));
        }
        let suffix: Vec<char> = chars_of(".json");
        while i < names.len()
            invariant
                i <= names.len(),
                all == names.deep_view(),
                p == (|name: Seq<char>| is_record_name(name)),
                f == (|name: Seq<char>| name.take(name.len() - 5)),
                suffix@ == ".json"@,
                suffix@.len() == 5,
                ids.deep_view() == all.take(i as int).filter(p).map_values(f),
            decreases names.len() - i,
        {
            let ghost before = ids.deep_view();
            let mut chars: Vec<char> = chars_of(names[i].as_str());
            let ghost name = chars@;
            proof {
                reveal(Seq::filter);
                assert(all[i as int] == names@[i as int]@);
                assert(all.take(i + 1).drop_last() =~= all.take(i as int));
                assert(all.take(i as int).filter(p).push(name).map_values(f)
                    =~= all.take(i as int).filter(p).map_values(f).push(f(name)));
            }
            if chars.len() > 5 && matches_at(&chars, &suffix, chars.len() - 5) {
                let keep: usize = chars.len() - 5;
                chars.truncate(keep);
                assert(chars@ =~= name.take(name.len() - 5));
                let id: RepositoryId = RepositoryId::from_string(string_of(&chars).as_str());
                ids.push(id);
                assert(ids.deep_view() =~= before.push(f(name)));
            }
            i += 1;
        }
        assert(all.take(all.len() as int) =~= all);
        sorted::<RepositoryId, ByText>(ids)
    }

    /// The record of a repository that is registered now. An id that is taken is
    /// refused, and so is one that cannot be a file's name.
    pub fn initialize(
        &self,
        repository: Repository,
        snapshot: ProjectStateSnapshot,
        events: Vec<ObservationEvent>,
        exists: bool,
    ) -> (r: Result<StoredRepository, RepositoryError>)
        ensures
            store_outcome(r) == (if exists {
                Err(
                    RepositoryErrorView::Store(
                        "repository already registered: "@ + repository@.id,
                    ),
                )
            } else if unsafe_name(repository@.id) {
                Err(unsafe_name_error(repository@.id))
            } else {
                Ok(
                    StoredRepositoryView {
                        format_version: STORE_FORMAT_VERSION,
                        repository: repository@,
                        snapshot: snapshot@,
                        events: events.deep_view(),
                        commits: Seq::empty(),
                        file_changes: Seq::empty(),
                    },
                )
            }),
    {
        if exists {
            return Err(
                RepositoryError::Store(
                    joined("repository already registered: ", repository.id.as_str()),
                ),
            );
        }
        if let Err(error) = self.file_for(&repository.id) {
            return Err(error);
        }
        let record: StoredRepository = StoredRepository {
            format_version: STORE_FORMAT_VERSION,
            repository,
            snapshot,
            events,
            commits: Vec::new(),
            file_changes: Vec::new(),
        };
        assert(record.commits.deep_view() =~= Seq::empty());
        assert(record.file_changes.deep_view() =~= Seq::empty());
        Ok(record)
    }

    /// Refuses to write where another writer moved the stored version since it was
    /// observed. A file that is gone conflicts with nothing.
    pub fn verify_unchanged(&self, observed: u64, reading: &FileReading) -> (r: Result<
        (),
        RepositoryError,
    >)
        ensures
            r is Ok <==> write_refusal(reading@, observed) is None,
            r matches Err(e) ==> write_refusal(reading@, observed) == Some(e@),
    {
        match reading {
            FileReading::Missing => Ok(()),
            FileReading::Unparsable(reason) => Err(
                RepositoryError::Store(joined("re-parse: ", reason.as_str())),
            ),
            FileReading::Record(record) => {
                let stored: u64 = record.snapshot.state_version;
                if stored != observed {
                    return Err(RepositoryError::ConcurrentModification { stored, observed });
                }
                Ok(())
            },
        }
    }

    /// Ends a cycle of reading, changing and writing a record that was read at
    /// version `observed`: stamps the record, and says whether it may be written,
    /// by what a second read of the file gave.
    pub fn with_locked(
        &self,
        record: &mut StoredRepository,
        observed: u64,
        reading: &FileReading,
    ) -> (r: Result<(), RepositoryError>)
        ensures
            clock_time(final(record).repository.updated_at@),
            final(record)@ == (StoredRepositoryView {
                repository: RepositoryView {
                    updated_at: final(record).repository.updated_at,
                    ..old(record)@.repository
                },
                ..old(record)@
            }),
            r is Ok <==> write_refusal(reading@, observed) is None,
            r matches Err(e) ==> write_refusal(reading@, observed) == Some(e@),
    {
        record.repository.touch();
        self.verify_unchanged(observed, reading)
    }
}

/// The histories hold each fact once, in their order, and no more than there is
/// room for.
pub open spec fn histories_kept(record: StoredRepositoryView) -> bool {
    &&& distinct(record.events, event_key_of())
    &&& distinct(record.commits, commit_key_of())
    &&& distinct(record.file_changes, change_key_of())
    &&& is_ordered::<ObservationEvent, OldestFirst>(record.events)
    &&& is_ordered::<CommitInfo, NewestFirst>(record.commits)
    &&& record.events.len() <= MAX_EVENTS
    &&& record.commits.len() <= MAX_COMMITS
    &&& record.file_changes.len() <= MAX_FILE_CHANGES
}

proof fn lemma_part_of_distinct<A, K>(s: Seq<A>, from: int, to: int, key: spec_fn(A) -> K)
    requires
        distinct(s, key),
        0 <= from <= to <= s.len(),
    ensures
        distinct(s.subrange(from, to), key),
{
    let part = s.subrange(from, to);
    assert forall|i: int, j: int| 0 <= i < j < part.len() implies key(#[trigger] part[i]) != key(
        #[trigger] part[j],
    ) by {
        assert(part[i] == s[from + i] && part[j] == s[from + j]);
    }
}

/// Appending keeps the histories as they must be: what is kept of events, of
/// commits and of file changes holds each fact once, in order and within its
/// bound.
pub proof fn law_appending_keeps_the_histories(
    record: StoredRepositoryView,
    events: Seq<ObservationEventView>,
    commits: Seq<CommitInfoView>,
    changes: Seq<FileChangeRecordView>,
)
    requires
        histories_kept(record),
    ensures
        histories_kept(
            StoredRepositoryView { events: events_after(record.events, events), ..record },
        ),
        histories_kept(
            StoredRepositoryView { commits: commits_after(record.commits, commits), ..record },
        ),
        histories_kept(
            StoredRepositoryView {
                file_changes: changes_after(record.file_changes, changes),
                ..record
            },
        ),
{
    let all_events = merged(record.events, events, event_key_of());
    lemma_merged(record.events, events, event_key_of());
    lemma_in_order_distinct::<ObservationEvent, OldestFirst, Seq<char>>(
        all_events,
        event_key_of(),
    );
    lemma_in_order::<ObservationEvent, OldestFirst>(all_events);
    let ordered = in_order::<ObservationEvent, OldestFirst>(all_events);
    if ordered.len() > MAX_EVENTS {
        let n = ordered.len() as int;
        lemma_part_of_distinct(ordered, n - MAX_EVENTS, n, event_key_of());
        assert(ordered.skip(n - MAX_EVENTS) =~= ordered.subrange(n - MAX_EVENTS, n));
    }
    let all_commits = merged(record.commits, commits, commit_key_of());
    lemma_merged(record.commits, commits, commit_key_of());
    lemma_in_order_distinct::<CommitInfo, NewestFirst, Seq<char>>(all_commits, commit_key_of());
    lemma_in_order::<CommitInfo, NewestFirst>(all_commits);
    let newest = in_order::<CommitInfo, NewestFirst>(all_commits);
    if newest.len() > MAX_COMMITS {
        lemma_part_of_distinct(newest, 0, MAX_COMMITS as int, commit_key_of());
        assert(newest.take(MAX_COMMITS as int) =~= newest.subrange(0, MAX_COMMITS as int));
    }
    let all_changes = merged(record.file_changes, changes, change_key_of());
    lemma_merged(record.file_changes, changes, change_key_of());
    if all_changes.len() > MAX_FILE_CHANGES {
        lemma_part_of_distinct(all_changes, 0, MAX_FILE_CHANGES as int, change_key_of());
        assert(all_changes.take(MAX_FILE_CHANGES as int) =~= all_changes.subrange(
            0,
            MAX_FILE_CHANGES as int,
        ));
    }
}

/// An event that is recorded is not recorded again: the same batch a second time
/// adds nothing and changes nothing. Left out are histories that are cut because
/// they are too long.
pub proof fn law_appending_events_twice_is_appending_once(
    events: Seq<ObservationEventView>,
    batch: Seq<ObservationEventView>,
)
    requires
        merged(events, batch, event_key_of()).len() <= MAX_EVENTS,
    ensures
        merged(events_after(events, batch), batch, event_key_of()) == events_after(events, batch),
        events_after(events_after(events, batch), batch) == events_after(events, batch),
{
    let key = event_key_of();
    let all = merged(events, batch, key);
    lemma_merged(events, batch, key);
    lemma_in_order::<ObservationEvent, OldestFirst>(all);
    let once = in_order::<ObservationEvent, OldestFirst>(all);
    assert forall|i: int| 0 <= i < batch.len() implies holds(
        once,
        key,
        key(#[trigger] batch[i]),
    ) by {
        assert(holds(batch, key, key(batch[i])));
        assert(holds(all, key, key(batch[i])));
        lemma_in_order_holds::<ObservationEvent, OldestFirst, Seq<char>>(
            all,
            key,
            key(batch[i]),
        );
    }
    lemma_merged_known(once, batch, key);
    lemma_in_order_of_ordered::<ObservationEvent, OldestFirst>(once);
}

/// A commit that is recorded is not recorded again. Left out are histories that
/// are cut because they are too long.
pub proof fn law_appending_commits_twice_is_appending_once(
    commits: Seq<CommitInfoView>,
    batch: Seq<CommitInfoView>,
)
    requires
        merged(commits, batch, commit_key_of()).len() <= MAX_COMMITS,
    ensures
        merged(commits_after(commits, batch), batch, commit_key_of()) == commits_after(
            commits,
            batch,
        ),
        commits_after(commits_after(commits, batch), batch) == commits_after(commits, batch),
{
    let key = commit_key_of();
    let all = merged(commits, batch, key);
    lemma_merged(commits, batch, key);
    lemma_in_order::<CommitInfo, NewestFirst>(all);
    let once = in_order::<CommitInfo, NewestFirst>(all);
    assert forall|i: int| 0 <= i < batch.len() implies holds(
        once,
        key,
        key(#[trigger] batch[i]),
    ) by {
        assert(holds(batch, key, key(batch[i])));
        assert(holds(all, key, key(batch[i])));
        lemma_in_order_holds::<CommitInfo, NewestFirst, Seq<char>>(all, key, key(batch[i]));
    }
    lemma_merged_known(once, batch, key);
    lemma_in_order_of_ordered::<CommitInfo, NewestFirst>(once);
}

/// A file change that is recorded is not recorded again. Left out are histories
/// that are cut because they are too long.
pub proof fn law_appending_file_changes_twice_is_appending_once(
    changes: Seq<FileChangeRecordView>,
    batch: Seq<FileChangeRecordView>,
)
    requires
        merged(changes, batch, change_key_of()).len() <= MAX_FILE_CHANGES,
    ensures
        merged(changes_after(changes, batch), batch, change_key_of()) == changes_after(
            changes,
            batch,
        ),
        changes_after(changes_after(changes, batch), batch) == changes_after(changes, batch),
{
    let key = change_key_of();
    let all = merged(changes, batch, key);
    lemma_merged(changes, batch, key);
    assert forall|i: int| 0 <= i < batch.len() implies holds(all, key, key(#[trigger] batch[i])) by {
        assert(holds(batch, key, key(batch[i])));
    }
    lemma_merged_known(all, batch, key);
}

/// Where events are dropped for want of room, they are the oldest: none that is
/// kept is older than one that is dropped.
pub proof fn law_the_oldest_events_go_first(
    events: Seq<ObservationEventView>,
    batch: Seq<ObservationEventView>,
    kept: ObservationEventView,
    dropped: ObservationEventView,
)
    requires
        events_after(events, batch).contains(kept),
        merged(events, batch, event_key_of()).contains(dropped),
        !events_after(events, batch).contains(dropped),
    ensures
        !earlier(kept.timestamp@, dropped.timestamp@),
{
    let all = merged(events, batch, event_key_of());
    lemma_in_order::<ObservationEvent, OldestFirst>(all);
    let ordered = in_order::<ObservationEvent, OldestFirst>(all);
    let rest = events_after(events, batch);
    assert(ordered.contains(dropped));
    let d = choose|d: int| 0 <= d < ordered.len() && ordered[d] == dropped;
    let k = choose|k: int| 0 <= k < rest.len() && rest[k] == kept;
    if ordered.len() > MAX_EVENTS {
        let cut = ordered.len() - MAX_EVENTS;
        assert(rest[k] == ordered[cut + k]);
        if d >= cut {
            assert(rest[d - cut] == dropped);
        }
        assert(!OldestFirst::before(ordered[cut + k], ordered[d]));
    } else {
        assert(rest[d] == dropped);
    }
}

/// Newer state is never written over: a record that was read at another version
/// than the stored one is refused.
pub proof fn law_newer_state_is_not_overwritten(stored: StoredRepositoryView, observed: u64)
    requires
        stored.snapshot.state_version != observed,
    ensures
        write_refusal(FileReadingView::Record(stored), observed) == Some(
            RepositoryErrorView::ConcurrentModification {
                stored: stored.snapshot.state_version,
                observed,
            },
        ),
{
}

/// The name of a repository's file leads back to its id.
pub proof fn law_file_names_lead_back_to_ids(id: Seq<char>)
    requires
        !unsafe_name(id),
    ensures
        ids_of_names(seq![id + ".json"@]) == seq![id],
{
    reveal_strlit(".json");
    let name = id + ".json"@;
    let p = |name: Seq<char>| is_record_name(name);
    assert(name.skip(name.len() - 5) =~= ".json"@);
    assert(name.subrange(name.len() - 5, name.len() as int) =~= ".json"@);
    assert(is_record_name(name));
    reveal_with_fuel(Seq::filter, 2);
    let names = seq![name];
    assert(names.drop_last() =~= Seq::empty());
    assert(names.filter(p) =~= seq![name]);
    assert(name.take(name.len() - 5) =~= id);
    assert(ids_of_names(names) =~= seq![id]);
}

/// A kept history names each event, each commit and each file change once; events go
/// from the oldest to the newest, commits from the newest to the oldest.
pub proof fn law_kept_histories_name_everything_once(
    record: StoredRepositoryView,
    i: int,
    j: int,
)
    requires
        histories_kept(record),
        0 <= i < j,
    ensures
        j < record.events.len() ==> record.events[i].event_id != record.events[j].event_id
            && !earlier(record.events[j].timestamp@, record.events[i].timestamp@),
        j < record.commits.len() ==> record.commits[i].sha != record.commits[j].sha && !earlier(
            record.commits[i].committed_at@,
            record.commits[j].committed_at@,
        ),
        j < record.file_changes.len() ==> {
            ||| record.file_changes[i].path != record.file_changes[j].path
            ||| record.file_changes[i].old_path != record.file_changes[j].old_path
            ||| record.file_changes[i].commit_sha != record.file_changes[j].commit_sha
            ||| record.file_changes[i].fingerprint != record.file_changes[j].fingerprint
        },
{
    if j < record.events.len() {
        assert(event_key_of()(record.events[i]) != event_key_of()(record.events[j]));
        assert(!OldestFirst::before(record.events[j], record.events[i]));
    }
    if j < record.commits.len() {
        assert(commit_key_of()(record.commits[i]) != commit_key_of()(record.commits[j]));
        assert(!NewestFirst::before(record.commits[j], record.commits[i]));
    }
    if j < record.file_changes.len() {
        assert(change_key_of()(record.file_changes[i]) != change_key_of()(record.file_changes[j]));
    }
}

/// An event whose id is new, to the history and among those before it in the batch, is
/// kept as it is, unless the history is too long; and every event that was kept stays.
pub proof fn law_a_new_event_is_kept(
    events: Seq<ObservationEventView>,
    batch: Seq<ObservationEventView>,
    i: int,
)
    requires
        merged(events, batch, event_key_of()).len() <= MAX_EVENTS,
    ensures
        0 <= i < batch.len() && (forall|j: int|
            0 <= j < events.len() ==> (#[trigger] events[j]).event_id != batch[i].event_id) && (
        forall|j: int|
            0 <= j < i ==> (#[trigger] batch[j]).event_id != batch[i].event_id) ==> events_after(
            events,
            batch,
        ).contains(batch[i]),
        0 <= i < events.len() ==> events_after(events, batch).contains(events[i]),
        forall|e: ObservationEventView| #[trigger]
            events_after(events, batch).contains(e) ==> events.contains(e) || batch.contains(e),
{
    let key = event_key_of();
    let all = merged(events, batch, key);
    lemma_in_order::<ObservationEvent, OldestFirst>(all);
    lemma_merged(events, batch, key);
    if 0 <= i < batch.len() && (forall|j: int|
        0 <= j < events.len() ==> (#[trigger] events[j]).event_id != batch[i].event_id) && (forall|
        j: int,
    |
        0 <= j < i ==> (#[trigger] batch[j]).event_id != batch[i].event_id) {
        law_the_first_with_a_new_key_is_taken_in(events, batch, key, i);
    }
    if 0 <= i < events.len() {
        assert(all.take(events.len() as int)[i] == events[i]);
        assert(all[i] == events[i]);
        assert(all.contains(events[i]));
    }
    assert forall|e: ObservationEventView| #[trigger]
        events_after(events, batch).contains(e) implies events.contains(e) || batch.contains(e) by {
        assert(all.contains(e));
    }
}

/// A commit whose object id is new is kept as it is, unless the history is too long;
/// and every commit that was kept stays.
pub proof fn law_a_new_commit_is_kept(
    commits: Seq<CommitInfoView>,
    batch: Seq<CommitInfoView>,
    i: int,
)
    requires
        merged(commits, batch, commit_key_of()).len() <= MAX_COMMITS,
    ensures
        0 <= i < batch.len() && (forall|j: int|
            0 <= j < commits.len() ==> (#[trigger] commits[j]).sha != batch[i].sha) && (forall|
            j: int,
        |
            0 <= j < i ==> (#[trigger] batch[j]).sha != batch[i].sha) ==> commits_after(
            commits,
            batch,
        ).contains(batch[i]),
        0 <= i < commits.len() ==> commits_after(commits, batch).contains(commits[i]),
        forall|c: CommitInfoView| #[trigger]
            commits_after(commits, batch).contains(c) ==> commits.contains(c) || batch.contains(c),
{
    let key = commit_key_of();
    let all = merged(commits, batch, key);
    lemma_in_order::<CommitInfo, NewestFirst>(all);
    lemma_merged(commits, batch, key);
    if 0 <= i < batch.len() && (forall|j: int|
        0 <= j < commits.len() ==> (#[trigger] commits[j]).sha != batch[i].sha) && (forall|j: int|
        0 <= j < i ==> (#[trigger] batch[j]).sha != batch[i].sha) {
        law_the_first_with_a_new_key_is_taken_in(commits, batch, key, i);
    }
    if 0 <= i < commits.len() {
        assert(all.take(commits.len() as int)[i] == commits[i]);
        assert(all[i] == commits[i]);
        assert(all.contains(commits[i]));
    }
    assert forall|c: CommitInfoView| #[trigger]
        commits_after(commits, batch).contains(c) implies commits.contains(c) || batch.contains(
        c,
    ) by {
        assert(all.contains(c));
    }
}

/// Where commits are dropped for want of room, none that is dropped is newer than one
/// that is kept.
pub proof fn law_the_oldest_commits_go_first(
    commits: Seq<CommitInfoView>,
    batch: Seq<CommitInfoView>,
    kept: CommitInfoView,
    dropped: CommitInfoView,
)
    requires
        commits_after(commits, batch).contains(kept),
        merged(commits, batch, commit_key_of()).contains(dropped),
        !commits_after(commits, batch).contains(dropped),
    ensures
        !earlier(kept.committed_at@, dropped.committed_at@),
        commits_after(commits, batch).len() == MAX_COMMITS,
{
    let all = merged(commits, batch, commit_key_of());
    lemma_in_order::<CommitInfo, NewestFirst>(all);
    let ordered = in_order::<CommitInfo, NewestFirst>(all);
    let rest = commits_after(commits, batch);
    assert(ordered.contains(dropped));
    let d = choose|d: int| 0 <= d < ordered.len() && ordered[d] == dropped;
    let k = choose|k: int| 0 <= k < rest.len() && rest[k] == kept;
    assert(rest[k] == ordered[k]);
    if d < rest.len() {
        assert(rest[d] == dropped);
    }
    assert(!NewestFirst::before(ordered[d], ordered[k]));
}

/// A file change that is new is kept as it is, behind those that were there, unless the
/// history is too long; and every change that was kept stays where it is.
pub proof fn law_a_new_file_change_is_kept(
    changes: Seq<FileChangeRecordView>,
    batch: Seq<FileChangeRecordView>,
    i: int,
)
    requires
        merged(changes, batch, change_key_of()).len() <= MAX_FILE_CHANGES,
    ensures
        0 <= i < batch.len() && (forall|j: int|
            0 <= j < changes.len() ==> !same_file_change(#[trigger] changes[j], batch[i])) && (
        forall|j: int|
            0 <= j < i ==> !same_file_change(#[trigger] batch[j], batch[i])) ==> changes_after(
            changes,
            batch,
        ).contains(batch[i]),
        0 <= i < changes.len() ==> changes_after(changes, batch)[i] == changes[i],
        forall|r: FileChangeRecordView| #[trigger]
            changes_after(changes, batch).contains(r) ==> changes.contains(r) || batch.contains(r),
{
    let key = change_key_of();
    let all = merged(changes, batch, key);
    lemma_merged(changes, batch, key);
    if 0 <= i < batch.len() && (forall|j: int|
        0 <= j < changes.len() ==> !same_file_change(#[trigger] changes[j], batch[i])) && (forall|
        j: int,
    |
        0 <= j < i ==> !same_file_change(#[trigger] batch[j], batch[i])) {
        assert forall|j: int| 0 <= j < changes.len() implies key(#[trigger] changes[j]) != key(
            batch[i],
        ) by {
            assert(!same_file_change(changes[j], batch[i]));
        }
        assert forall|j: int| 0 <= j < i implies key(#[trigger] batch[j]) != key(batch[i]) by {
            assert(!same_file_change(batch[j], batch[i]));
        }
        law_the_first_with_a_new_key_is_taken_in(changes, batch, key, i);
    }
    if 0 <= i < changes.len() {
        assert(all.take(changes.len() as int)[i] == changes[i]);
    }
}

/// Two records tell of the same change of the same file.
pub open spec fn same_file_change(a: FileChangeRecordView, b: FileChangeRecordView) -> bool {
    a.path == b.path && a.old_path == b.old_path && a.commit_sha == b.commit_sha && a.fingerprint
        == b.fingerprint
}

/// A record may be written exactly where the file is gone or still holds the version
/// that was read.
pub proof fn law_only_the_version_that_was_read_is_overwritten(
    reading: FileReadingView,
    observed: u64,
)
    ensures
        write_refusal(reading, observed) is None <==> (reading is Missing || (reading matches
            FileReadingView::Record(record) && record.snapshot.state_version == observed)),
        reading matches FileReadingView::Record(record) && record.snapshot.state_version != observed
            ==> (write_refusal(reading, observed) matches Some(e) && e is ConcurrentModification),
{
}

/// An id is safe as a file name exactly where it is not empty and holds no separator, no
/// colon and no two dots in a row.
pub proof fn law_a_safe_name_stays_in_its_directory(name: Seq<char>)
    ensures
        !unsafe_name(name) <==> name.len() > 0 && (forall|i: int|
            0 <= i < name.len() ==> #[trigger] name[i] != '/' && name[i] != '\\' && name[i] != ':')
            && (forall|i: int|
            0 <= i < name.len() - 1 ==> !(#[trigger] name[i] == '.' && name[i + 1] == '.')),
{
    reveal_strlit("/");
    reveal_strlit("\\");
    reveal_strlit(":");
    reveal_strlit("..");
    if !unsafe_name(name) {
        assert forall|i: int| 0 <= i < name.len() implies #[trigger] name[i] != '/' && name[i]
            != '\\' && name[i] != ':' by {
            assert(!occurs_at(name, "/"@, i) && !occurs_at(name, "\\"@, i) && !occurs_at(
                name,
                ":"@,
                i,
            ));
            if name[i] == '/' {
                assert(name.subrange(i, i + 1) =~= "/"@);
            }
            if name[i] == '\\' {
                assert(name.subrange(i, i + 1) =~= "\\"@);
            }
            if name[i] == ':' {
                assert(name.subrange(i, i + 1) =~= ":"@);
            }
        }
        assert forall|i: int| 0 <= i < name.len() - 1 implies !(#[trigger] name[i] == '.' && name[i
            + 1] == '.') by {
            assert(!occurs_at(name, ".."@, i));
            if name[i] == '.' && name[i + 1] == '.' {
                assert(name.subrange(i, i + 2) =~= ".."@);
            }
        }
    }
    if has_part(name, "/"@) {
        let i = choose|i: int| occurs_at(name, "/"@, i);
        assert(name.subrange(i, i + 1)[0] == name[i]);
    }
    if has_part(name, "\\"@) {
        let i = choose|i: int| occurs_at(name, "\\"@, i);
        assert(name.subrange(i, i + 1)[0] == name[i]);
    }
    if has_part(name, ":"@) {
        let i = choose|i: int| occurs_at(name, ":"@, i);
        assert(name.subrange(i, i + 1)[0] == name[i]);
    }
    if has_part(name, ".."@) {
        let i = choose|i: int| occurs_at(name, ".."@, i);
        assert(name.subrange(i, i + 2)[0] == name[i]);
        assert(name.subrange(i, i + 2)[1] == name[i + 1]);
    }
}

/// The listed ids are those of the files that end in `.json`, and nothing else.
pub proof fn law_ids_are_read_off_the_record_files(names: Seq<Seq<char>>, id: Seq<char>)
    requires
        id.len() > 0,
    ensures
        ids_of_names(names).contains(id) <==> names.contains(id + ".json"@),
{
    reveal_strlit(".json");
    let p = |name: Seq<char>| is_record_name(name);
    let f = |name: Seq<char>| name.take(name.len() - 5);
    let picked = names.filter(p);
    let full = id + ".json"@;
    assert(full.subrange(full.len() - 5, full.len() as int) =~= ".json"@);
    assert(full.take(full.len() - 5) =~= id);
    if names.contains(full) {
        lemma_filter_into(names, p, full);
        let k = choose|k: int| 0 <= k < picked.len() && picked[k] == full;
        assert(ids_of_names(names)[k] == id);
    }
    if ids_of_names(names).contains(id) {
        let k = choose|k: int|
            0 <= k < ids_of_names(names).len() && ids_of_names(names)[k] == id;
        let name = picked[k];
        assert(picked.contains(name));
        lemma_filter_from(names, p, name);
        assert(name =~= full) by {
            assert(name.subrange(name.len() - 5, name.len() as int) == ".json"@);
            assert(name =~= name.take(name.len() - 5) + name.subrange(
                name.len() - 5,
                name.len() as int,
            ));
        }
    }
}

/// The history of file changes fills up to its limit and then takes no more: what was
/// recorded within the limit keeps its place, whatever comes after it.
pub proof fn law_recorded_file_changes_keep_their_place(
    changes: Seq<FileChangeRecordView>,
    batch: Seq<FileChangeRecordView>,
    i: int,
)
    ensures
        changes_after(changes, batch).len() <= MAX_FILE_CHANGES,
        0 <= i < changes.len() && i < MAX_FILE_CHANGES ==> i < changes_after(changes, batch).len()
            && changes_after(changes, batch)[i] == changes[i],
{
    lemma_merged_start(changes, batch, change_key_of());
}

/// What is merged in stands behind what was there.
proof fn lemma_merged_start<A, K>(s: Seq<A>, batch: Seq<A>, key: spec_fn(A) -> K)
    ensures
        s.len() <= merged(s, batch, key).len(),
        forall|i: int| 0 <= i < s.len() ==> #[trigger] merged(s, batch, key)[i] == s[i],
    decreases batch.len(),
{
    if batch.len() > 0 {
        lemma_merged_start(s, batch.drop_last(), key);
    }
}

/// No history outgrows its limit, and one that has reached it is full.
pub proof fn law_histories_are_full_or_hold_everything(
    events: Seq<ObservationEventView>,
    new_events: Seq<ObservationEventView>,
    commits: Seq<CommitInfoView>,
    new_commits: Seq<CommitInfoView>,
)
    ensures
        events_after(events, new_events).len() <= MAX_EVENTS,
        events_after(events, new_events).len() == MAX_EVENTS || events_after(
            events,
            new_events,
        ).len() == merged(events, new_events, event_key_of()).len(),
        commits_after(commits, new_commits).len() <= MAX_COMMITS,
        commits_after(commits, new_commits).len() == MAX_COMMITS || commits_after(
            commits,
            new_commits,
        ).len() == merged(commits, new_commits, commit_key_of()).len(),
{
    lemma_in_order::<ObservationEvent, OldestFirst>(merged(events, new_events, event_key_of()));
    lemma_in_order::<CommitInfo, NewestFirst>(merged(commits, new_commits, commit_key_of()));
}

} // verus!
