//! Facts that Director learned by looking at git.

use crate::digest::{
    hex, hex_text, is_lower_hex, law_hexadecimal_text_tells_bytes_apart, lemma_hex_digits, sha256,
    sha256_digest,
};
use crate::domain::ids::{EventId, ProjectId, RepositoryId};
use crate::domain::snapshot::{ProjectStateSnapshot, ProjectStateSnapshotView};
use crate::domain::state::{CommitInfo, CommitInfoView, FileChange};
use crate::domain::worktree::{FileChangeRecord, FileChangeRecordView};
use crate::text::joined;
use crate::time::Timestamp;
use vstd::prelude::*;
use vstd::string::*;
use vstd::utf8::encode_utf8;

verus! {

/// The origin of the events that come from observing git.
pub const EVENT_SOURCE_GIT: &'static str = "git";

/// What kind of fact an event records.
#[derive(Debug, Clone, Copy, PartialEq, Eq, Hash, Structural)]
pub enum EventKind {
    /// A repository was synchronized.
    RepositorySynced,
    /// Another branch was checked out.
    BranchChanged,
    /// A commit that was not seen before.
    CommitCreated,
    /// A file entered the tree.
    FileAdded,
    /// A file's content changed.
    FileModified,
    /// A file left the tree.
    FileDeleted,
    /// A file moved to a new path.
    FileRenamed,
    /// A file was copied to a new path.
    FileCopied,
}

impl DeepView for EventKind {
    type V = EventKind;

    open spec fn deep_view(&self) -> EventKind {
        *self
    }
}

/// The name of a kind of event, as it enters an event's key.
pub open spec fn key_component(kind: EventKind) -> Seq<char> {
    match kind {
        EventKind::RepositorySynced => "repository_synced"@,
        EventKind::BranchChanged => "branch_changed"@,
        EventKind::CommitCreated => "commit_created"@,
        EventKind::FileAdded => "file_added"@,
        EventKind::FileModified => "file_modified"@,
        EventKind::FileDeleted => "file_deleted"@,
        EventKind::FileRenamed => "file_renamed"@,
        EventKind::FileCopied => "file_copied"@,
    }
}

/// The kind of event that records a file change.
pub open spec fn event_kind_of(change: FileChange) -> EventKind {
    match change {
        FileChange::Added => EventKind::FileAdded,
        FileChange::Untracked => EventKind::FileAdded,
        FileChange::Modified => EventKind::FileModified,
        FileChange::Conflicted => EventKind::FileModified,
        FileChange::Deleted => EventKind::FileDeleted,
        FileChange::Renamed => EventKind::FileRenamed,
        FileChange::Copied => EventKind::FileCopied,
    }
}

impl EventKind {
    /// The name of the kind, as it enters an event's key.
    pub fn as_key_component(self) -> (r: &'static str)
        ensures
            r@ == key_component(self),
    {
        match self {
            EventKind::RepositorySynced => "repository_synced",
            EventKind::BranchChanged => "branch_changed",
            EventKind::CommitCreated => "commit_created",
            EventKind::FileAdded => "file_added",
            EventKind::FileModified => "file_modified",
            EventKind::FileDeleted => "file_deleted",
            EventKind::FileRenamed => "file_renamed",
            EventKind::FileCopied => "file_copied",
        }
    }

    /// The kind of event that records a file change. Every kind of change has
    /// one: a file that git does not track yet has been added all the same, and a
    /// conflict is a modification.
    pub fn for_file_change(change: FileChange) -> (r: Option<Self>)
        ensures
            r == Some(event_kind_of(change)),
    {
        match change {
            FileChange::Added | FileChange::Untracked => Some(EventKind::FileAdded),
            FileChange::Modified | FileChange::Conflicted => Some(EventKind::FileModified),
            FileChange::Deleted => Some(EventKind::FileDeleted),
            FileChange::Renamed => Some(EventKind::FileRenamed),
            FileChange::Copied => Some(EventKind::FileCopied),
        }
    }
}

/// The fact that an event records.
#[derive(Debug, PartialEq, Eq)]
pub enum EventData {
    /// A synchronization: where it landed.
    Sync { commit: String, branch: Option<String>, working_tree_clean: bool },
    /// A change of branch.
    Branch { from: Option<String>, to: Option<String> },
    /// A commit.
    Commit(CommitInfo),
    /// A file change.
    File(FileChangeRecord),
}

/// What a [`EventData`] holds.
#[verifier::ext_equal]
pub enum EventDataView {
    Sync { commit: Seq<char>, branch: Option<Seq<char>>, working_tree_clean: bool },
    Branch { from: Option<Seq<char>>, to: Option<Seq<char>> },
    Commit(CommitInfoView),
    File(FileChangeRecordView),
}

impl View for EventData {
    type V = EventDataView;

    open spec fn view(&self) -> EventDataView {
        match self {
            EventData::Sync { commit, branch, working_tree_clean } => EventDataView::Sync { commit: commit.deep_view(), branch: branch.deep_view(), working_tree_clean: *working_tree_clean },
            EventData::Branch { from, to } => EventDataView::Branch { from: from.deep_view(), to: to.deep_view() },
            EventData::Commit(x) => EventDataView::Commit(x.deep_view()),
            EventData::File(x) => EventDataView::File(x.deep_view()),
        }
    }
}

impl DeepView for EventData {
    type V = EventDataView;

    open spec fn deep_view(&self) -> EventDataView {
        self.view()
    }
}

impl Clone for EventData {
    fn clone(&self) -> (r: Self)
        ensures
            r@ == self@,
    {
        match self {
            EventData::Sync { commit, branch, working_tree_clean } => EventData::Sync { commit: commit.clone(), branch: branch.clone(), working_tree_clean: *working_tree_clean },
            EventData::Branch { from, to } => EventData::Branch { from: from.clone(), to: to.clone() },
            EventData::Commit(x) => EventData::Commit(x.clone()),
            EventData::File(x) => EventData::File(x.clone()),
        }
    }
}

/// One fact that Director learned by looking at git. Its id is derived from what
/// it describes, so that the same fact observed again is the same event.
#[derive(Debug, PartialEq, Eq)]
pub struct ObservationEvent {
    /// The event's identifier.
    pub event_id: EventId,
    /// The project.
    pub project_id: ProjectId,
    /// The repository.
    pub repository_id: RepositoryId,
    /// What kind of fact it is.
    pub kind: EventKind,
    /// When it was recorded.
    pub timestamp: Timestamp,
    /// Where it came from.
    pub source: String,
    /// The fact.
    pub data: EventData,
}

/// What a [`ObservationEvent`] holds.
#[verifier::ext_equal]
pub struct ObservationEventView {
    pub event_id: Seq<char>,
    pub project_id: Seq<char>,
    pub repository_id: Seq<char>,
    pub kind: EventKind,
    pub timestamp: Timestamp,
    pub source: Seq<char>,
    pub data: EventDataView,
}

impl View for ObservationEvent {
    type V = ObservationEventView;

    open spec fn view(&self) -> ObservationEventView {
        ObservationEventView {
            event_id: self.event_id.deep_view(),
            project_id: self.project_id.deep_view(),
            repository_id: self.repository_id.deep_view(),
            kind: self.kind,
            timestamp: self.timestamp,
            source: self.source.deep_view(),
            data: self.data.deep_view(),
        }
    }
}

impl DeepView for ObservationEvent {
    type V = ObservationEventView;

    open spec fn deep_view(&self) -> ObservationEventView {
        self.view()
    }
}

impl Clone for ObservationEvent {
    fn clone(&self) -> (r: Self)
        ensures
            r@ == self@,
    {
        let r: ObservationEvent = ObservationEvent {
            event_id: self.event_id.clone(),
            project_id: self.project_id.clone(),
            repository_id: self.repository_id.clone(),
            kind: self.kind,
            timestamp: self.timestamp,
            source: self.source.clone(),
            data: self.data.clone(),
        };
        r
    }
}

/// The bytes of an optional text; nothing when it is absent.
pub open spec fn optional_bytes(text: Option<Seq<char>>) -> Seq<u8> {
    match text {
        Some(t) => encode_utf8(t),
        None => Seq::empty(),
    }
}

/// Everything that makes a fact this fact, its parts divided by zero bytes.
pub open spec fn key_bytes(
    repository: Seq<char>,
    kind: EventKind,
    anchor: Seq<char>,
    path: Option<Seq<char>>,
    old_path: Option<Seq<char>>,
) -> Seq<u8> {
    encode_utf8(repository).push(0u8) + encode_utf8(key_component(kind)).push(0u8) + encode_utf8(
        anchor,
    ).push(0u8) + optional_bytes(path).push(0u8) + optional_bytes(old_path)
}

/// Everything that makes a fact about a file's content this fact: the content's
/// fingerprint stands behind the other parts, so that two contents of one file are
/// two facts.
pub open spec fn content_key_bytes(
    repository: Seq<char>,
    kind: EventKind,
    anchor: Seq<char>,
    path: Seq<char>,
    old_path: Option<Seq<char>>,
    fingerprint: Seq<char>,
) -> Seq<u8> {
    key_bytes(repository, kind, anchor, Some(path), old_path).push(0u8) + encode_utf8(
        fingerprint,
    )
}

/// The id with a given digest: its first eight bytes in hexadecimal.
pub open spec fn id_of_digest(digest: Seq<u8>) -> Seq<char> {
    "EVT-"@ + hex(digest.take(8))
}

/// The id of a fact.
pub open spec fn event_key(
    repository: Seq<char>,
    kind: EventKind,
    anchor: Seq<char>,
    path: Option<Seq<char>>,
    old_path: Option<Seq<char>>,
) -> Seq<char> {
    id_of_digest(sha256(key_bytes(repository, kind, anchor, path, old_path)))
}

/// The id of a fact about a file's content.
pub open spec fn content_key(
    repository: Seq<char>,
    kind: EventKind,
    anchor: Seq<char>,
    path: Seq<char>,
    old_path: Option<Seq<char>>,
    fingerprint: Seq<char>,
) -> Seq<char> {
    id_of_digest(
        sha256(content_key_bytes(repository, kind, anchor, path, old_path, fingerprint)),
    )
}

/// The text is `EVT-` and sixteen hexadecimal digits in lower case.
pub open spec fn has_event_id_shape(id: Seq<char>) -> bool {
    &&& id.len() == 20
    &&& id.take(4) == "EVT-"@
    &&& forall|i: int| 4 <= i < 20 ==> is_lower_hex(#[trigger] id[i])
}

/// The event for a synchronization.
pub open spec fn sync_event(s: ProjectStateSnapshotView, at: Timestamp) -> ObservationEventView {
    ObservationEventView {
        event_id: event_key(
            s.repository_id,
            EventKind::RepositorySynced,
            s.head_commit,
            None,
            None,
        ),
        project_id: s.project_id,
        repository_id: s.repository_id,
        kind: EventKind::RepositorySynced,
        timestamp: at,
        source: "git"@,
        data: EventDataView::Sync {
            commit: s.head_commit,
            branch: s.branch,
            working_tree_clean: s.working_tree_clean,
        },
    }
}

/// The event for a change of branch.
pub open spec fn branch_event(
    repository_id: Seq<char>,
    project_id: Seq<char>,
    from: Option<Seq<char>>,
    to: Option<Seq<char>>,
    anchor: Seq<char>,
    at: Timestamp,
) -> ObservationEventView {
    ObservationEventView {
        event_id: event_key(repository_id, EventKind::BranchChanged, anchor, to, from),
        project_id,
        repository_id,
        kind: EventKind::BranchChanged,
        timestamp: at,
        source: "git"@,
        data: EventDataView::Branch { from, to },
    }
}

/// The event for a commit.
pub open spec fn commit_event(
    repository_id: Seq<char>,
    project_id: Seq<char>,
    commit: CommitInfoView,
    at: Timestamp,
) -> ObservationEventView {
    ObservationEventView {
        event_id: event_key(repository_id, EventKind::CommitCreated, commit.sha, None, None),
        project_id,
        repository_id,
        kind: EventKind::CommitCreated,
        timestamp: at,
        source: "git"@,
        data: EventDataView::Commit(commit),
    }
}

/// The event for a file change.
pub open spec fn file_event(
    r: FileChangeRecordView,
    project_id: Seq<char>,
    at: Timestamp,
) -> ObservationEventView {
    ObservationEventView {
        event_id: content_key(
            r.repository_id,
            event_kind_of(r.change_type),
            r.commit_sha,
            r.path,
            r.old_path,
            r.fingerprint,
        ),
        project_id,
        repository_id: r.repository_id,
        kind: event_kind_of(r.change_type),
        timestamp: at,
        source: "git"@,
        data: EventDataView::File(r),
    }
}

/// Appends the bytes of a text.
fn append_bytes(to: &mut Vec<u8>, text: &str)
    ensures
        final(to)@ == old(to)@ + encode_utf8(text@),
{
    let bytes = text.as_bytes();
    let ghost start = to@;
    let mut i: usize = 0;
    assert(bytes@.take(0) =~= Seq::empty());
    assert(to@ =~= start + bytes@.take(0));
    while i < bytes.len()
        invariant
            i <= bytes.len(),
            to@ == start + bytes@.take(i as int),
        decreases bytes.len() - i,
    {
        to.push(bytes[i]);
        assert(bytes@.take(i + 1) =~= bytes@.take(i as int).push(bytes@[i as int]));
        i += 1;
        assert(to@ =~= start + bytes@.take(i as int));
    }
    assert(bytes@.take(bytes@.len() as int) =~= bytes@);
}

impl ObservationEvent {
    /// The bytes that an event's id is the digest of.
    pub fn key_input(
        repository_id: &RepositoryId,
        kind: EventKind,
        anchor: &str,
        path: Option<&str>,
        old_path: Option<&str>,
    ) -> (r: Vec<u8>)
        ensures
            r@ == key_bytes(
                repository_id@,
                kind,
                anchor@,
                path.deep_view(),
                old_path.deep_view(),
            ),
    {
        let mut bytes: Vec<u8> = Vec::new();
        append_bytes(&mut bytes, repository_id.as_str());
        bytes.push(0);
        append_bytes(&mut bytes, kind.as_key_component());
        bytes.push(0);
        append_bytes(&mut bytes, anchor);
        bytes.push(0);
        if let Some(path) = path {
            append_bytes(&mut bytes, path);
        }
        bytes.push(0);
        if let Some(old_path) = old_path {
            append_bytes(&mut bytes, old_path);
        }
        assert(bytes@ =~= key_bytes(
            repository_id@,
            kind,
            anchor@,
            path.deep_view(),
            old_path.deep_view(),
        ));
        bytes
    }

    /// The id with a given digest.
    pub fn id_from_digest(digest: &Vec<u8>) -> (r: EventId)
        requires
            digest@.len() >= 8,
        ensures
            r@ == id_of_digest(digest@),
            has_event_id_shape(r@),
    {
        proof {
            law_event_id_has_its_shape(digest@);
        }
        EventId::from_string(joined("EVT-", hex_text(digest, 8).as_str()).as_str())
    }

    /// The id of a fact: a digest of the repository, the kind, the commit that it
    /// is measured from and the paths involved.
    pub fn key_for(
        repository_id: &RepositoryId,
        kind: EventKind,
        anchor: &str,
        path: Option<&str>,
        old_path: Option<&str>,
    ) -> (r: EventId)
        ensures
            r@ == event_key(
                repository_id@,
                kind,
                anchor@,
                path.deep_view(),
                old_path.deep_view(),
            ),
            has_event_id_shape(r@),
    {
        let input: Vec<u8> = Self::key_input(repository_id, kind, anchor, path, old_path);
        Self::id_from_digest(&sha256_digest(&input))
    }

    /// The bytes that the id of a fact about a file's content is the digest of.
    pub fn content_key_input(record: &FileChangeRecord, kind: EventKind) -> (r: Vec<u8>)
        ensures
            r@ == content_key_bytes(
                record@.repository_id,
                kind,
                record@.commit_sha,
                record@.path,
                record@.old_path,
                record@.fingerprint,
            ),
    {
        let old_path: Option<&str> = match &record.old_path {
            Some(path) => Some(path.as_str()),
            None => None,
        };
        let mut bytes: Vec<u8> = Self::key_input(
            &record.repository_id,
            kind,
            record.commit_sha.as_str(),
            Some(record.path.as_str()),
            old_path,
        );
        bytes.push(0);
        append_bytes(&mut bytes, record.fingerprint.as_str());
        bytes
    }

    /// The id of a fact about a file: a digest of the repository, the kind, the commit
    /// that it is measured from, the paths involved and the content.
    pub fn key_for_content(record: &FileChangeRecord, kind: EventKind) -> (r: EventId)
        ensures
            r@ == content_key(
                record@.repository_id,
                kind,
                record@.commit_sha,
                record@.path,
                record@.old_path,
                record@.fingerprint,
            ),
            has_event_id_shape(r@),
    {
        Self::id_from_digest(&sha256_digest(&Self::content_key_input(record, kind)))
    }

    /// The event for a synchronization that led to `snapshot`.
    pub fn sync(snapshot: &ProjectStateSnapshot, timestamp: Timestamp) -> (r: Self)
        ensures
            r@ == sync_event(snapshot@, timestamp),
    {
        let event_id: EventId = Self::key_for(
            &snapshot.repository_id,
            EventKind::RepositorySynced,
            snapshot.head_commit.as_str(),
            None,
            None,
        );
        ObservationEvent {
            event_id,
            project_id: snapshot.project_id.clone(),
            repository_id: snapshot.repository_id.clone(),
            kind: EventKind::RepositorySynced,
            timestamp,
            source: EVENT_SOURCE_GIT.to_owned(),
            data: EventData::Sync {
                commit: snapshot.head_commit.clone(),
                branch: snapshot.branch.clone(),
                working_tree_clean: snapshot.working_tree_clean,
            },
        }
    }

    /// The event for a change of branch.
    pub fn branch_change(
        repository_id: &RepositoryId,
        project_id: &ProjectId,
        from: Option<String>,
        to: Option<String>,
        anchor: &str,
        timestamp: Timestamp,
    ) -> (r: Self)
        ensures
            r@ == branch_event(
                repository_id@,
                project_id@,
                from.deep_view(),
                to.deep_view(),
                anchor@,
                timestamp,
            ),
    {
        let to_text: Option<&str> = match &to {
            Some(name) => Some(name.as_str()),
            None => None,
        };
        let from_text: Option<&str> = match &from {
            Some(name) => Some(name.as_str()),
            None => None,
        };
        let event_id: EventId = Self::key_for(
            repository_id,
            EventKind::BranchChanged,
            anchor,
            to_text,
            from_text,
        );
        ObservationEvent {
            event_id,
            project_id: project_id.clone(),
            repository_id: repository_id.clone(),
            kind: EventKind::BranchChanged,
            timestamp,
            source: EVENT_SOURCE_GIT.to_owned(),
            data: EventData::Branch { from, to },
        }
    }

    /// The event for a commit.
    pub fn commit(
        repository_id: &RepositoryId,
        project_id: &ProjectId,
        commit: CommitInfo,
        timestamp: Timestamp,
    ) -> (r: Self)
        ensures
            r@ == commit_event(repository_id@, project_id@, commit@, timestamp),
    {
        let event_id: EventId = Self::key_for(
            repository_id,
            EventKind::CommitCreated,
            commit.sha.as_str(),
            None,
            None,
        );
        ObservationEvent {
            event_id,
            project_id: project_id.clone(),
            repository_id: repository_id.clone(),
            kind: EventKind::CommitCreated,
            timestamp,
            source: EVENT_SOURCE_GIT.to_owned(),
            data: EventData::Commit(commit),
        }
    }

    /// The event for a file change. Every kind of change has one.
    pub fn file(record: FileChangeRecord, project_id: &ProjectId, timestamp: Timestamp) -> (r:
        Option<Self>)
        ensures
            r is Some,
            r->0@ == file_event(record@, project_id@, timestamp),
    {
        match EventKind::for_file_change(record.change_type) {
            None => None,
            Some(kind) => {
                let event_id: EventId = Self::key_for_content(&record, kind);
                Some(
                    ObservationEvent {
                        event_id,
                        project_id: project_id.clone(),
                        repository_id: record.repository_id.clone(),
                        kind,
                        timestamp,
                        source: EVENT_SOURCE_GIT.to_owned(),
                        data: EventData::File(record),
                    },
                )
            },
        }
    }
}

/// Kinds of events have different names.
proof fn lemma_key_component_injective(a: EventKind, b: EventKind)
    requires
        key_component(a) == key_component(b),
    ensures
        a == b,
{
    reveal_strlit("repository_synced");
    reveal_strlit("branch_changed");
    reveal_strlit("commit_created");
    reveal_strlit("file_added");
    reveal_strlit("file_modified");
    reveal_strlit("file_deleted");
    reveal_strlit("file_renamed");
    reveal_strlit("file_copied");
    let (x, y) = (key_component(a), key_component(b));
    assert(x.len() == y.len());
    assert(x[0] == y[0]);
    assert(x[5] == y[5]);
    assert(x[7] == y[7]);
}

/// What stands before the first zero byte is determined by the whole.
proof fn lemma_first_part(a: Seq<u8>, rest: Seq<u8>, b: Seq<u8>, other: Seq<u8>)
    requires
        a.push(0u8) + rest == b.push(0u8) + other,
        !a.contains(0u8),
        !b.contains(0u8),
    ensures
        a == b,
        rest == other,
{
    let s = a.push(0u8) + rest;
    let t = b.push(0u8) + other;
    assert(s.len() == a.len() + 1 + rest.len());
    assert(t.len() == b.len() + 1 + other.len());
    if a.len() < b.len() {
        assert(s[a.len() as int] == 0u8);
        assert(t[a.len() as int] == b[a.len() as int]);
        assert(b.contains(0u8));
    } else if b.len() < a.len() {
        assert(t[b.len() as int] == 0u8);
        assert(s[b.len() as int] == a[b.len() as int]);
        assert(a.contains(0u8));
    } else {
        assert(a =~= s.take(a.len() as int));
        assert(b =~= t.take(b.len() as int));
        assert(rest =~= s.skip(a.len() as int + 1));
        assert(other =~= t.skip(b.len() as int + 1));
    }
}

/// Four parts that zero bytes end are determined by the whole, and so is what stands
/// behind them.
proof fn lemma_four_parts(
    a: Seq<Seq<u8>>,
    rest: Seq<u8>,
    b: Seq<Seq<u8>>,
    other: Seq<u8>,
)
    requires
        a.len() == 4,
        b.len() == 4,
        forall|i: int| 0 <= i < 4 ==> !(#[trigger] a[i]).contains(0u8),
        forall|i: int| 0 <= i < 4 ==> !(#[trigger] b[i]).contains(0u8),
        a[0].push(0u8) + a[1].push(0u8) + a[2].push(0u8) + a[3].push(0u8) + rest
            == b[0].push(0u8) + b[1].push(0u8) + b[2].push(0u8) + b[3].push(0u8) + other,
    ensures
        a[0] == b[0],
        a[1] == b[1],
        a[2] == b[2],
        a[3] == b[3],
        rest == other,
{
    let z = 0u8;
    let (a3, b3) = (a[3].push(z) + rest, b[3].push(z) + other);
    let (a2, b2) = (a[2].push(z) + a3, b[2].push(z) + b3);
    let (a1, b1) = (a[1].push(z) + a2, b[1].push(z) + b2);
    assert(a[0].push(z) + a[1].push(z) + a[2].push(z) + a[3].push(z) + rest =~= a[0].push(z) + a1);
    assert(b[0].push(z) + b[1].push(z) + b[2].push(z) + b[3].push(z) + other =~= b[0].push(z)
        + b1);
    lemma_first_part(a[0], a1, b[0], b1);
    lemma_first_part(a[1], a2, b[1], b2);
    lemma_first_part(a[2], a3, b[2], b3);
    lemma_first_part(a[3], rest, b[3], other);
}

/// Different texts have different bytes.
proof fn lemma_bytes_injective(a: Seq<char>, b: Seq<char>)
    requires
        encode_utf8(a) == encode_utf8(b),
    ensures
        a == b,
{
    vstd::utf8::encode_utf8_decode_utf8(a);
    vstd::utf8::encode_utf8_decode_utf8(b);
}

/// Names of kinds of events are ASCII text without a zero character.
proof fn lemma_key_component_has_no_zero(kind: EventKind)
    ensures
        !encode_utf8(key_component(kind)).contains(0u8),
{
    reveal_strlit("repository_synced");
    reveal_strlit("branch_changed");
    reveal_strlit("commit_created");
    reveal_strlit("file_added");
    reveal_strlit("file_modified");
    reveal_strlit("file_deleted");
    reveal_strlit("file_renamed");
    reveal_strlit("file_copied");
    let s = key_component(kind);
    assert(vstd::utf8::is_ascii_chars(s)) by {
        assert forall|i: int| 0 <= i < s.len() implies (s[i] as nat) < 128 by {}
    }
    vstd::utf8::is_ascii_chars_encode_utf8(s);
    let e = encode_utf8(s);
    if e.contains(0u8) {
        let i = choose|i: int| 0 <= i < e.len() && e[i] == 0u8;
        assert(e[i] == s[i] as u8);
    }
}

/// The same fact always has the same id: for a file, the id depends on nothing else
/// than the repository, the kind, the anchor, the paths and the content.
pub proof fn law_event_id_is_stable(
    r: FileChangeRecordView,
    other: FileChangeRecordView,
    project: Seq<char>,
    at: Timestamp,
    later: Timestamp,
)
    requires
        r.repository_id == other.repository_id,
        r.change_type == other.change_type,
        r.commit_sha == other.commit_sha,
        r.path == other.path,
        r.old_path == other.old_path,
        r.fingerprint == other.fingerprint,
    ensures
        file_event(r, project, at).event_id == file_event(other, project, later).event_id,
{
}

/// Facts that differ in the repository, the kind, the anchor or a path are told
/// apart by the bytes that their ids are digests of, as long as none of these
/// holds a zero character. An absent path counts as an empty one.
pub proof fn law_different_facts_have_different_key_bytes(
    repository: Seq<char>,
    kind: EventKind,
    anchor: Seq<char>,
    path: Option<Seq<char>>,
    old_path: Option<Seq<char>>,
    repository2: Seq<char>,
    kind2: EventKind,
    anchor2: Seq<char>,
    path2: Option<Seq<char>>,
    old_path2: Option<Seq<char>>,
)
    requires
        !encode_utf8(repository).contains(0u8),
        !encode_utf8(repository2).contains(0u8),
        !encode_utf8(anchor).contains(0u8),
        !encode_utf8(anchor2).contains(0u8),
        !optional_bytes(path).contains(0u8),
        !optional_bytes(path2).contains(0u8),
        key_bytes(repository, kind, anchor, path, old_path) == key_bytes(
            repository2,
            kind2,
            anchor2,
            path2,
            old_path2,
        ),
    ensures
        repository == repository2,
        kind == kind2,
        anchor == anchor2,
        optional_bytes(path) == optional_bytes(path2),
        optional_bytes(old_path) == optional_bytes(old_path2),
{
    let (r1, r2) = (encode_utf8(repository), encode_utf8(repository2));
    let (k1, k2) = (encode_utf8(key_component(kind)), encode_utf8(key_component(kind2)));
    let (a1, a2) = (encode_utf8(anchor), encode_utf8(anchor2));
    let (p1, p2) = (optional_bytes(path), optional_bytes(path2));
    let (o1, o2) = (optional_bytes(old_path), optional_bytes(old_path2));
    lemma_key_component_has_no_zero(kind);
    lemma_key_component_has_no_zero(kind2);
    lemma_four_parts(seq![r1, k1, a1, p1], o1, seq![r2, k2, a2, p2], o2);
    lemma_bytes_injective(repository, repository2);
    lemma_bytes_injective(key_component(kind), key_component(kind2));
    lemma_bytes_injective(anchor, anchor2);
    lemma_key_component_injective(kind, kind2);
}

/// Facts about files that differ in the repository, the kind, the anchor, a path or
/// the content are told apart by the bytes that their ids are digests of, as long as
/// none of these holds a zero character: two contents of one file are two facts. An
/// absent previous path counts as an empty one.
pub proof fn law_different_contents_have_different_key_bytes(
    a: FileChangeRecordView,
    b: FileChangeRecordView,
)
    requires
        !encode_utf8(a.repository_id).contains(0u8),
        !encode_utf8(b.repository_id).contains(0u8),
        !encode_utf8(a.commit_sha).contains(0u8),
        !encode_utf8(b.commit_sha).contains(0u8),
        !encode_utf8(a.path).contains(0u8),
        !encode_utf8(b.path).contains(0u8),
        !optional_bytes(a.old_path).contains(0u8),
        !optional_bytes(b.old_path).contains(0u8),
        content_key_bytes(
            a.repository_id,
            event_kind_of(a.change_type),
            a.commit_sha,
            a.path,
            a.old_path,
            a.fingerprint,
        ) == content_key_bytes(
            b.repository_id,
            event_kind_of(b.change_type),
            b.commit_sha,
            b.path,
            b.old_path,
            b.fingerprint,
        ),
    ensures
        a.repository_id == b.repository_id,
        event_kind_of(a.change_type) == event_kind_of(b.change_type),
        a.commit_sha == b.commit_sha,
        a.path == b.path,
        optional_bytes(a.old_path) == optional_bytes(b.old_path),
        a.fingerprint == b.fingerprint,
{
    let (kind, kind2) = (event_kind_of(a.change_type), event_kind_of(b.change_type));
    let (r1, r2) = (encode_utf8(a.repository_id), encode_utf8(b.repository_id));
    let (k1, k2) = (encode_utf8(key_component(kind)), encode_utf8(key_component(kind2)));
    let (a1, a2) = (encode_utf8(a.commit_sha), encode_utf8(b.commit_sha));
    let (p1, p2) = (encode_utf8(a.path), encode_utf8(b.path));
    let (o1, o2) = (optional_bytes(a.old_path), optional_bytes(b.old_path));
    let (f1, f2) = (encode_utf8(a.fingerprint), encode_utf8(b.fingerprint));
    lemma_key_component_has_no_zero(kind);
    lemma_key_component_has_no_zero(kind2);
    let z = 0u8;
    let front1 = r1.push(z) + k1.push(z) + a1.push(z) + p1.push(z);
    let front2 = r2.push(z) + k2.push(z) + a2.push(z) + p2.push(z);
    assert((front1 + o1).push(z) + f1 =~= front1 + (o1.push(z) + f1));
    assert((front2 + o2).push(z) + f2 =~= front2 + (o2.push(z) + f2));
    lemma_four_parts(
        seq![r1, k1, a1, p1],
        o1.push(z) + f1,
        seq![r2, k2, a2, p2],
        o2.push(z) + f2,
    );
    lemma_first_part(o1, f1, o2, f2);
    lemma_bytes_injective(a.repository_id, b.repository_id);
    lemma_bytes_injective(key_component(kind), key_component(kind2));
    lemma_bytes_injective(a.commit_sha, b.commit_sha);
    lemma_bytes_injective(a.path, b.path);
    lemma_bytes_injective(a.fingerprint, b.fingerprint);
    lemma_key_component_injective(kind, kind2);
}

/// An event id is `EVT-` and sixteen hexadecimal digits in lower case.
pub proof fn law_event_id_has_its_shape(digest: Seq<u8>)
    requires
        digest.len() >= 8,
    ensures
        has_event_id_shape(id_of_digest(digest)),
{
    reveal_strlit("EVT-");
    let digits = hex(digest.take(8));
    lemma_hex_digits(digest.take(8));
    let id = id_of_digest(digest);
    assert(id.take(4) =~= "EVT-"@);
    assert forall|i: int| 4 <= i < 20 implies is_lower_hex(#[trigger] id[i]) by {
        assert(id[i] == digits[i - 4]);
    }
}

/// Every event carries what it tells of: whose it is, when and from where it comes, and
/// the very fact; a change of branches says which was left and which was taken up.
pub proof fn law_events_carry_their_facts(
    s: ProjectStateSnapshotView,
    repository: Seq<char>,
    project: Seq<char>,
    from: Option<Seq<char>>,
    to: Option<Seq<char>>,
    anchor: Seq<char>,
    commit: CommitInfoView,
    r: FileChangeRecordView,
    at: Timestamp,
)
    ensures
        ({
            let e = sync_event(s, at);
            &&& e.kind == EventKind::RepositorySynced && e.timestamp == at && e.source == "git"@
            &&& e.project_id == s.project_id && e.repository_id == s.repository_id
            &&& e.data == (EventDataView::Sync {
                commit: s.head_commit,
                branch: s.branch,
                working_tree_clean: s.working_tree_clean,
            })
        }),
        ({
            let e = branch_event(repository, project, from, to, anchor, at);
            &&& e.kind == EventKind::BranchChanged && e.timestamp == at && e.source == "git"@
            &&& e.project_id == project && e.repository_id == repository
            &&& e.data == (EventDataView::Branch { from, to })
        }),
        ({
            let e = commit_event(repository, project, commit, at);
            &&& e.kind == EventKind::CommitCreated && e.timestamp == at && e.source == "git"@
            &&& e.project_id == project && e.repository_id == repository
            &&& e.data == EventDataView::Commit(commit)
        }),
        ({
            let e = file_event(r, project, at);
            &&& e.timestamp == at && e.source == "git"@
            &&& e.project_id == project && e.repository_id == r.repository_id
            &&& e.data == EventDataView::File(r)
        }),
{
}

/// What an event says of a file follows from the change: a file that appears is added,
/// one whose content is in question is modified, and each other kind has its own.
pub proof fn law_file_events_tell_the_kind_of_change(r: FileChangeRecordView, at: Timestamp)
    ensures
        file_event(r, r.repository_id, at).kind == EventKind::FileAdded <==> r.change_type
            == FileChange::Added || r.change_type == FileChange::Untracked,
        file_event(r, r.repository_id, at).kind == EventKind::FileModified <==> r.change_type
            == FileChange::Modified || r.change_type == FileChange::Conflicted,
        file_event(r, r.repository_id, at).kind == EventKind::FileDeleted <==> r.change_type
            == FileChange::Deleted,
        file_event(r, r.repository_id, at).kind == EventKind::FileRenamed <==> r.change_type
            == FileChange::Renamed,
        file_event(r, r.repository_id, at).kind == EventKind::FileCopied <==> r.change_type
            == FileChange::Copied,
{
}

/// The id of an event rests on the fact alone: the time at which it is told makes no
/// difference, nor do a commit's other parts or the state of the tree.
pub proof fn law_ids_rest_on_the_fact_alone(
    s: ProjectStateSnapshotView,
    other: ProjectStateSnapshotView,
    repository: Seq<char>,
    project: Seq<char>,
    commit: CommitInfoView,
    same: CommitInfoView,
    from: Option<Seq<char>>,
    to: Option<Seq<char>>,
    anchor: Seq<char>,
    at: Timestamp,
    later: Timestamp,
)
    requires
        s.repository_id == other.repository_id,
        s.head_commit == other.head_commit,
        commit.sha == same.sha,
    ensures
        sync_event(s, at).event_id == sync_event(other, later).event_id,
        commit_event(repository, project, commit, at).event_id == commit_event(
            repository,
            project,
            same,
            later,
        ).event_id,
        branch_event(repository, project, from, to, anchor, at).event_id == branch_event(
            repository,
            project,
            from,
            to,
            anchor,
            later,
        ).event_id,
{
}

/// The id of an event is the digest of its fact and of nothing else: the repository, the
/// kind and what the fact is measured from, then the paths or branches involved and, for a
/// file, its content, with a zero byte between each two.
pub proof fn law_an_event_id_is_the_digest_of_its_fact(
    s: ProjectStateSnapshotView,
    repository: Seq<char>,
    project: Seq<char>,
    from: Seq<char>,
    to: Seq<char>,
    anchor: Seq<char>,
    commit: CommitInfoView,
    r: FileChangeRecordView,
    at: Timestamp,
)
    requires
        r.old_path is None,
        r.change_type == FileChange::Modified,
    ensures
        sync_event(s, at).event_id == id_of_digest(
            sha256(
                encode_utf8(s.repository_id) + seq![0u8] + encode_utf8("repository_synced"@) + seq![
                    0u8,
                ] + encode_utf8(s.head_commit) + seq![0u8, 0u8],
            ),
        ),
        commit_event(repository, project, commit, at).event_id == id_of_digest(
            sha256(
                encode_utf8(repository) + seq![0u8] + encode_utf8("commit_created"@) + seq![0u8]
                    + encode_utf8(commit.sha) + seq![0u8, 0u8],
            ),
        ),
        branch_event(repository, project, Some(from), Some(to), anchor, at).event_id
            == id_of_digest(
            sha256(
                encode_utf8(repository) + seq![0u8] + encode_utf8("branch_changed"@) + seq![0u8]
                    + encode_utf8(anchor) + seq![0u8] + encode_utf8(to) + seq![0u8] + encode_utf8(
                    from,
                ),
            ),
        ),
        file_event(r, project, at).event_id == id_of_digest(
            sha256(
                encode_utf8(r.repository_id) + seq![0u8] + encode_utf8("file_modified"@) + seq![0u8]
                    + encode_utf8(r.commit_sha) + seq![0u8] + encode_utf8(r.path) + seq![0u8, 0u8]
                    + encode_utf8(r.fingerprint),
            ),
        ),
{
    assert(key_bytes(s.repository_id, EventKind::RepositorySynced, s.head_commit, None, None)
        =~= encode_utf8(s.repository_id) + seq![0u8] + encode_utf8("repository_synced"@) + seq![0u8]
        + encode_utf8(s.head_commit) + seq![0u8, 0u8]);
    assert(key_bytes(repository, EventKind::CommitCreated, commit.sha, None, None) =~= encode_utf8(
        repository,
    ) + seq![0u8] + encode_utf8("commit_created"@) + seq![0u8] + encode_utf8(commit.sha) + seq![
        0u8,
        0u8,
    ]);
    assert(key_bytes(repository, EventKind::BranchChanged, anchor, Some(to), Some(from))
        =~= encode_utf8(repository) + seq![0u8] + encode_utf8("branch_changed"@) + seq![0u8]
        + encode_utf8(anchor) + seq![0u8] + encode_utf8(to) + seq![0u8] + encode_utf8(from));
    assert(content_key_bytes(
        r.repository_id,
        EventKind::FileModified,
        r.commit_sha,
        r.path,
        None,
        r.fingerprint,
    ) =~= encode_utf8(r.repository_id) + seq![0u8] + encode_utf8("file_modified"@) + seq![0u8]
        + encode_utf8(r.commit_sha) + seq![0u8] + encode_utf8(r.path) + seq![0u8, 0u8]
        + encode_utf8(r.fingerprint));
}

/// An id tells digests apart by their first eight bytes.
pub proof fn law_an_id_is_the_first_eight_bytes(a: Seq<u8>, b: Seq<u8>)
    requires
        a.len() >= 8,
        b.len() >= 8,
    ensures
        id_of_digest(a) == id_of_digest(b) <==> a.take(8) == b.take(8),
{
    if id_of_digest(a) == id_of_digest(b) {
        let n = "EVT-"@.len() as int;
        assert(hex(a.take(8)) =~= id_of_digest(a).skip(n));
        assert(hex(b.take(8)) =~= id_of_digest(b).skip(n));
        law_hexadecimal_text_tells_bytes_apart(a.take(8), b.take(8));
    }
}

} // verus!
