//! What git says of a working tree, in Director's words. The observer gets plain
//! readings of git, and turns them into records. It keeps nothing, and compares
//! nothing with history.

use crate::domain::ids::RepositoryId;
use crate::domain::repository::{
    abbreviate, abbreviated, path_refusal, Repository, RepositoryError, RepositoryErrorView,
    RepositoryStatus,
};
use crate::domain::state::{CommitInfo, CommitInfoView, FileChange};
use crate::domain::worktree::{
    incoherence, law_parting_loses_nothing, parted, DiffInfo, DiffInfoView, FileChangeRecord,
    FileChangeRecordView, WorktreeState, WorktreeStateView,
};
use crate::text::{
    chars_of, decimal, decimal_text, is_listed, joined, lemma_decimal_value,
    lemma_text_lt_irreflexive, lemma_text_lt_total, lemma_text_lt_transitive, same_text, string_of,
    text_before, text_le, text_lt,
};
use crate::time::{clock_time, valid_instant, Timestamp};
use vstd::prelude::*;
use vstd::string::*;

verus! {

/// The fingerprint of a deletion, which has no content.
pub const DELETED_FINGERPRINT: &'static str = "deleted";

/// The fingerprint of a file of which nothing is known.
pub const UNKNOWN_FINGERPRINT: &'static str = "unknown";

/// How many commits one walk looks at. It bounds the work after a rewrite of
/// history.
pub const MAX_WALK: usize = 200;

/// How many hexadecimal digits a whole object id has.
pub const OID_DIGITS: usize = 40;

/// The character is a hexadecimal digit.
pub open spec fn is_hex_digit(c: char) -> bool {
    ('0' <= c && c <= '9') || ('a' <= c && c <= 'f') || ('A' <= c && c <= 'F')
}

/// A hexadecimal digit in lower case.
pub open spec fn lower_digit(c: char) -> char {
    if 'A' <= c && c <= 'F' {
        ((c as int) + 32) as char
    } else {
        c
    }
}

/// The object id that hexadecimal digits stand for, in lower case. What is missing
/// at the end counts as zeros.
pub open spec fn oid_of_hex(s: Seq<char>) -> Option<Seq<char>> {
    if 0 < s.len() && s.len() <= OID_DIGITS && (forall|i: int|
        0 <= i < s.len() ==> is_hex_digit(#[trigger] s[i])) {
        Some(
            Seq::new(
                OID_DIGITS as nat,
                |i: int|
                    if i < s.len() {
                        lower_digit(s[i])
                    } else {
                        '0'
                    },
            ),
        )
    } else {
        None
    }
}

/// The object id that a text stands for. It calls `git2::Oid::from_str` and gives
/// the id back as `to_string` writes it. Trusted of the call: it accepts one to
/// forty hexadecimal digits of either case and nothing else, and what it gives
/// back are these digits in lower case, with zeros behind them up to forty.
#[verifier::external_body]
fn oid_text(text: &str) -> (r: Option<String>)
    ensures
        r.deep_view() == oid_of_hex(text@),
{
    match git2::Oid::from_str(text) {
        Ok(oid) => Some(oid.to_string()),
        Err(_) => None,
    }
}

/// What a commit is asked for by, once it is resolved: a whole object id stands for
/// itself, and anything else for what git makes of it.
pub open spec fn resolved_oid(sha: Seq<char>, found: Option<Seq<char>>) -> Option<Seq<char>> {
    if sha.len() == OID_DIGITS && oid_of_hex(sha) is Some {
        oid_of_hex(sha)
    } else {
        found
    }
}

/// What `HEAD` says.
#[derive(Debug, PartialEq, Eq)]
pub struct HeadReading {
    /// Whether it points at a branch.
    pub is_branch: bool,
    /// The short name of what it points at, if that is text.
    pub shorthand: Option<String>,
    /// The object id that it points at, if it points at one directly.
    pub target: Option<String>,
}

/// What a [`HeadReading`] holds.
#[verifier::ext_equal]
pub struct HeadReadingView {
    pub is_branch: bool,
    pub shorthand: Option<Seq<char>>,
    pub target: Option<Seq<char>>,
}

impl View for HeadReading {
    type V = HeadReadingView;

    open spec fn view(&self) -> HeadReadingView {
        HeadReadingView {
            is_branch: self.is_branch,
            shorthand: self.shorthand.deep_view(),
            target: self.target.deep_view(),
        }
    }
}

impl DeepView for HeadReading {
    type V = HeadReadingView;

    open spec fn deep_view(&self) -> HeadReadingView {
        self.view()
    }
}

impl Clone for HeadReading {
    fn clone(&self) -> (r: Self)
        ensures
            r@ == self@,
    {
        let r: HeadReading = HeadReading {
            is_branch: self.is_branch,
            shorthand: self.shorthand.clone(),
            target: self.target.clone(),
        };
        r
    }
}

/// What git says happened to a file.
#[derive(Debug, Clone, Copy, PartialEq, Eq, Hash, Structural)]
pub enum DeltaKind {
    /// Nothing.
    Unmodified,
    /// The file is new.
    Added,
    /// The file is gone.
    Deleted,
    /// The content changed.
    Modified,
    /// The file has a new path.
    Renamed,
    /// The file is a copy of another.
    Copied,
    /// The file is ignored.
    Ignored,
    /// Git does not track the file.
    Untracked,
    /// The kind of the file changed.
    Typechange,
    /// The file cannot be read.
    Unreadable,
    /// The file is in conflict.
    Conflicted,
}

impl DeepView for DeltaKind {
    type V = DeltaKind;

    open spec fn deep_view(&self) -> DeltaKind {
        *self
    }
}

/// What the file system says of a file.
#[derive(Debug, PartialEq, Eq)]
pub struct FileStamp {
    /// The length in bytes.
    pub len: u64,
    /// When it last changed, in seconds since 1970, if that is known.
    pub modified_secs: Option<u64>,
}

/// What a [`FileStamp`] holds.
#[verifier::ext_equal]
pub struct FileStampView {
    pub len: u64,
    pub modified_secs: Option<u64>,
}

impl View for FileStamp {
    type V = FileStampView;

    open spec fn view(&self) -> FileStampView {
        FileStampView {
            len: self.len,
            modified_secs: self.modified_secs,
        }
    }
}

impl DeepView for FileStamp {
    type V = FileStampView;

    open spec fn deep_view(&self) -> FileStampView {
        self.view()
    }
}

impl Clone for FileStamp {
    fn clone(&self) -> (r: Self)
        ensures
            r@ == self@,
    {
        let r: FileStamp = FileStamp {
            len: self.len,
            modified_secs: self.modified_secs,
        };
        r
    }
}

/// One entry of a diff.
#[derive(Debug, PartialEq, Eq)]
pub struct DeltaReading {
    /// What happened.
    pub status: DeltaKind,
    /// The path before, if there is one.
    pub old_path: Option<String>,
    /// The path after, if there is one.
    pub new_path: Option<String>,
    /// The object id of the content after, unless git has none.
    pub new_id: Option<String>,
    /// What the file system says of the file after, if it can be asked.
    pub stamp: Option<FileStamp>,
    /// Lines added by this entry.
    pub insertions: u32,
    /// Lines removed by this entry.
    pub deletions: u32,
}

/// What a [`DeltaReading`] holds.
#[verifier::ext_equal]
pub struct DeltaReadingView {
    pub status: DeltaKind,
    pub old_path: Option<Seq<char>>,
    pub new_path: Option<Seq<char>>,
    pub new_id: Option<Seq<char>>,
    pub stamp: Option<FileStampView>,
    pub insertions: u32,
    pub deletions: u32,
}

impl View for DeltaReading {
    type V = DeltaReadingView;

    open spec fn view(&self) -> DeltaReadingView {
        DeltaReadingView {
            status: self.status,
            old_path: self.old_path.deep_view(),
            new_path: self.new_path.deep_view(),
            new_id: self.new_id.deep_view(),
            stamp: self.stamp.deep_view(),
            insertions: self.insertions,
            deletions: self.deletions,
        }
    }
}

impl DeepView for DeltaReading {
    type V = DeltaReadingView;

    open spec fn deep_view(&self) -> DeltaReadingView {
        self.view()
    }
}

impl Clone for DeltaReading {
    fn clone(&self) -> (r: Self)
        ensures
            r@ == self@,
    {
        let r: DeltaReading = DeltaReading {
            status: self.status,
            old_path: self.old_path.clone(),
            new_path: self.new_path.clone(),
            new_id: self.new_id.clone(),
            stamp: self.stamp.clone(),
            insertions: self.insertions,
            deletions: self.deletions,
        };
        r
    }
}

/// Who signed a commit, and when.
#[derive(Debug, PartialEq, Eq)]
pub struct SignatureReading {
    /// The name, if it is text.
    pub name: Option<String>,
    /// The email address, if it is text.
    pub email: Option<String>,
    /// When, in seconds since 1970.
    pub seconds: i64,
}

/// What a [`SignatureReading`] holds.
#[verifier::ext_equal]
pub struct SignatureReadingView {
    pub name: Option<Seq<char>>,
    pub email: Option<Seq<char>>,
    pub seconds: i64,
}

impl View for SignatureReading {
    type V = SignatureReadingView;

    open spec fn view(&self) -> SignatureReadingView {
        SignatureReadingView {
            name: self.name.deep_view(),
            email: self.email.deep_view(),
            seconds: self.seconds,
        }
    }
}

impl DeepView for SignatureReading {
    type V = SignatureReadingView;

    open spec fn deep_view(&self) -> SignatureReadingView {
        self.view()
    }
}

impl Clone for SignatureReading {
    fn clone(&self) -> (r: Self)
        ensures
            r@ == self@,
    {
        let r: SignatureReading = SignatureReading {
            name: self.name.clone(),
            email: self.email.clone(),
            seconds: self.seconds,
        };
        r
    }
}

/// A commit as git has it.
#[derive(Debug, PartialEq, Eq)]
pub struct CommitReading {
    /// The object id.
    pub id: String,
    /// The first line of the message, if there is one that is text.
    pub summary: Option<String>,
    /// The author.
    pub author: SignatureReading,
    /// The committer.
    pub committer: SignatureReading,
    /// The object ids of the parents.
    pub parents: Vec<String>,
    /// The whole message, if it is text.
    pub message: Option<String>,
}

/// What a [`CommitReading`] holds.
#[verifier::ext_equal]
pub struct CommitReadingView {
    pub id: Seq<char>,
    pub summary: Option<Seq<char>>,
    pub author: SignatureReadingView,
    pub committer: SignatureReadingView,
    pub parents: Seq<Seq<char>>,
    pub message: Option<Seq<char>>,
}

impl View for CommitReading {
    type V = CommitReadingView;

    open spec fn view(&self) -> CommitReadingView {
        CommitReadingView {
            id: self.id.deep_view(),
            summary: self.summary.deep_view(),
            author: self.author.deep_view(),
            committer: self.committer.deep_view(),
            parents: self.parents.deep_view(),
            message: self.message.deep_view(),
        }
    }
}

impl DeepView for CommitReading {
    type V = CommitReadingView;

    open spec fn deep_view(&self) -> CommitReadingView {
        self.view()
    }
}

impl Clone for CommitReading {
    fn clone(&self) -> (r: Self)
        ensures
            r@ == self@,
    {
        let r: CommitReading = CommitReading {
            id: self.id.clone(),
            summary: self.summary.clone(),
            author: self.author.clone(),
            committer: self.committer.clone(),
            parents: self.parents.clone(),
            message: self.message.clone(),
        };
        assert(r.parents.deep_view() =~= self.parents.deep_view());
        r
    }
}

/// The commits between two observations.
#[derive(Debug, PartialEq, Eq)]
pub struct RangeWalk {
    /// New commits, oldest first: in the order in which they happened.
    pub commits: Vec<CommitInfo>,
    /// Whether the commit that the previous observation ended on was not met: history
    /// was rewritten, or the walk is too short to reach it.
    pub history_rewritten: bool,
}

/// What a [`RangeWalk`] holds.
#[verifier::ext_equal]
pub struct RangeWalkView {
    pub commits: Seq<CommitInfoView>,
    pub history_rewritten: bool,
}

impl View for RangeWalk {
    type V = RangeWalkView;

    open spec fn view(&self) -> RangeWalkView {
        RangeWalkView {
            commits: self.commits.deep_view(),
            history_rewritten: self.history_rewritten,
        }
    }
}

impl DeepView for RangeWalk {
    type V = RangeWalkView;

    open spec fn deep_view(&self) -> RangeWalkView {
        self.view()
    }
}

impl Clone for RangeWalk {
    fn clone(&self) -> (r: Self)
        ensures
            r@ == self@,
    {
        let r: RangeWalk = RangeWalk {
            commits: self.commits.clone(),
            history_rewritten: self.history_rewritten,
        };
        assert(r.commits.deep_view() =~= self.commits.deep_view());
        r
    }
}

/// What resolving a path gave.
#[derive(Debug, PartialEq, Eq)]
pub enum CanonicalReading {
    /// There is nothing at the path.
    Missing,
    /// The resolved path is not text.
    NotText,
    /// The resolved path.
    Path(String),
}

/// What a [`CanonicalReading`] holds.
#[verifier::ext_equal]
pub enum CanonicalReadingView {
    Missing,
    NotText,
    Path(Seq<char>),
}

impl View for CanonicalReading {
    type V = CanonicalReadingView;

    open spec fn view(&self) -> CanonicalReadingView {
        match self {
            CanonicalReading::Missing => CanonicalReadingView::Missing,
            CanonicalReading::NotText => CanonicalReadingView::NotText,
            CanonicalReading::Path(x) => CanonicalReadingView::Path(x.deep_view()),
        }
    }
}

impl DeepView for CanonicalReading {
    type V = CanonicalReadingView;

    open spec fn deep_view(&self) -> CanonicalReadingView {
        self.view()
    }
}

impl Clone for CanonicalReading {
    fn clone(&self) -> (r: Self)
        ensures
            r@ == self@,
    {
        match self {
            CanonicalReading::Missing => CanonicalReading::Missing,
            CanonicalReading::NotText => CanonicalReading::NotText,
            CanonicalReading::Path(x) => CanonicalReading::Path(x.clone()),
        }
    }
}

/// What opening a repository gave: where its working tree is.
#[derive(Debug, PartialEq, Eq)]
pub enum WorkdirReading {
    /// There is no repository.
    NotARepository,
    /// The repository has no working tree.
    Bare,
    /// The working tree's path cannot be resolved.
    Unreadable,
    /// The resolved path of the working tree is not text; this is how it is shown.
    NotText(String),
    /// The resolved path of the working tree.
    Path(String),
}

/// What a [`WorkdirReading`] holds.
#[verifier::ext_equal]
pub enum WorkdirReadingView {
    NotARepository,
    Bare,
    Unreadable,
    NotText(Seq<char>),
    Path(Seq<char>),
}

impl View for WorkdirReading {
    type V = WorkdirReadingView;

    open spec fn view(&self) -> WorkdirReadingView {
        match self {
            WorkdirReading::NotARepository => WorkdirReadingView::NotARepository,
            WorkdirReading::Bare => WorkdirReadingView::Bare,
            WorkdirReading::Unreadable => WorkdirReadingView::Unreadable,
            WorkdirReading::NotText(x) => WorkdirReadingView::NotText(x.deep_view()),
            WorkdirReading::Path(x) => WorkdirReadingView::Path(x.deep_view()),
        }
    }
}

impl DeepView for WorkdirReading {
    type V = WorkdirReadingView;

    open spec fn deep_view(&self) -> WorkdirReadingView {
        self.view()
    }
}

impl Clone for WorkdirReading {
    fn clone(&self) -> (r: Self)
        ensures
            r@ == self@,
    {
        match self {
            WorkdirReading::NotARepository => WorkdirReading::NotARepository,
            WorkdirReading::Bare => WorkdirReading::Bare,
            WorkdirReading::Unreadable => WorkdirReading::Unreadable,
            WorkdirReading::NotText(x) => WorkdirReading::NotText(x.clone()),
            WorkdirReading::Path(x) => WorkdirReading::Path(x.clone()),
        }
    }
}

/// How far the opening of a repository has come.
#[derive(Debug, PartialEq, Eq)]
pub enum OpenEvent {
    /// It was asked for, by a path.
    Requested(String),
    /// The path was resolved.
    Resolved { path: String, reading: CanonicalReading },
    /// The repository at the resolved path was opened.
    Opened { canonical: String, reading: WorkdirReading },
}

/// What a [`OpenEvent`] holds.
#[verifier::ext_equal]
pub enum OpenEventView {
    Requested(Seq<char>),
    Resolved { path: Seq<char>, reading: CanonicalReadingView },
    Opened { canonical: Seq<char>, reading: WorkdirReadingView },
}

impl View for OpenEvent {
    type V = OpenEventView;

    open spec fn view(&self) -> OpenEventView {
        match self {
            OpenEvent::Requested(x) => OpenEventView::Requested(x.deep_view()),
            OpenEvent::Resolved { path, reading } => OpenEventView::Resolved { path: path.deep_view(), reading: reading.deep_view() },
            OpenEvent::Opened { canonical, reading } => OpenEventView::Opened { canonical: canonical.deep_view(), reading: reading.deep_view() },
        }
    }
}

impl DeepView for OpenEvent {
    type V = OpenEventView;

    open spec fn deep_view(&self) -> OpenEventView {
        self.view()
    }
}

impl Clone for OpenEvent {
    fn clone(&self) -> (r: Self)
        ensures
            r@ == self@,
    {
        match self {
            OpenEvent::Requested(x) => OpenEvent::Requested(x.clone()),
            OpenEvent::Resolved { path, reading } => OpenEvent::Resolved { path: path.clone(), reading: reading.clone() },
            OpenEvent::Opened { canonical, reading } => OpenEvent::Opened { canonical: canonical.clone(), reading: reading.clone() },
        }
    }
}

/// What the opening of a repository calls for.
#[derive(Debug, PartialEq, Eq)]
pub enum OpenAction {
    /// Resolve the path.
    Resolve(String),
    /// Open the repository at the resolved path.
    Open(String),
    /// The repository is open, and rooted exactly at the resolved path.
    Use(String),
    /// The repository is not to be observed.
    Refuse(RepositoryError),
}

/// What a [`OpenAction`] holds.
#[verifier::ext_equal]
pub enum OpenActionView {
    Resolve(Seq<char>),
    Open(Seq<char>),
    Use(Seq<char>),
    Refuse(RepositoryErrorView),
}

impl View for OpenAction {
    type V = OpenActionView;

    open spec fn view(&self) -> OpenActionView {
        match self {
            OpenAction::Resolve(x) => OpenActionView::Resolve(x.deep_view()),
            OpenAction::Open(x) => OpenActionView::Open(x.deep_view()),
            OpenAction::Use(x) => OpenActionView::Use(x.deep_view()),
            OpenAction::Refuse(x) => OpenActionView::Refuse(x.deep_view()),
        }
    }
}

impl DeepView for OpenAction {
    type V = OpenActionView;

    open spec fn deep_view(&self) -> OpenActionView {
        self.view()
    }
}

impl Clone for OpenAction {
    fn clone(&self) -> (r: Self)
        ensures
            r@ == self@,
    {
        match self {
            OpenAction::Resolve(x) => OpenAction::Resolve(x.clone()),
            OpenAction::Open(x) => OpenAction::Open(x.clone()),
            OpenAction::Use(x) => OpenAction::Use(x.clone()),
            OpenAction::Refuse(x) => OpenAction::Refuse(x.clone()),
        }
    }
}

/// A refusal because of the path, or else the action.
pub open spec fn unless_refused(path: Seq<char>, action: OpenActionView) -> OpenActionView {
    match path_refusal(path) {
        Some(reason) => OpenActionView::Refuse(RepositoryErrorView::UnsafePath { reason }),
        None => action,
    }
}

/// The refusal of a repository that is rooted elsewhere.
pub open spec fn rooted_elsewhere(canonical: Seq<char>, root: Seq<char>) -> OpenActionView {
    OpenActionView::Refuse(
        RepositoryErrorView::UnsafePath {
            reason: "path "@ + canonical + " is inside a repository rooted at "@ + root
                + ", which is outside the authorized scope"@,
        },
    )
}

/// What the opening of a repository calls for. The path is checked as it was given
/// and as it resolves, and the repository must be rooted exactly there.
pub open spec fn open_step(event: OpenEventView) -> OpenActionView {
    match event {
        OpenEventView::Requested(path) => unless_refused(path, OpenActionView::Resolve(path)),
        OpenEventView::Resolved { path, reading } => match reading {
            CanonicalReadingView::Missing => OpenActionView::Refuse(
                RepositoryErrorView::PathMissing { path },
            ),
            CanonicalReadingView::NotText => OpenActionView::Refuse(
                RepositoryErrorView::UnsafePath { reason: "repository path is not valid UTF-8"@ },
            ),
            CanonicalReadingView::Path(canonical) => unless_refused(
                canonical,
                OpenActionView::Open(canonical),
            ),
        },
        OpenEventView::Opened { canonical, reading } => match reading {
            WorkdirReadingView::NotARepository => OpenActionView::Refuse(
                RepositoryErrorView::NotARepository { path: canonical },
            ),
            WorkdirReadingView::Bare => OpenActionView::Refuse(
                RepositoryErrorView::NotARepository { path: canonical },
            ),
            WorkdirReadingView::Unreadable => OpenActionView::Refuse(
                RepositoryErrorView::UnsafePath {
                    reason: "repository working directory is not readable"@,
                },
            ),
            WorkdirReadingView::NotText(root) => rooted_elsewhere(canonical, root),
            WorkdirReadingView::Path(root) => if root == canonical {
                OpenActionView::Use(canonical)
            } else {
                rooted_elsewhere(canonical, root)
            },
        },
    }
}

/// The branch that is checked out.
pub open spec fn branch_of(head: Option<HeadReadingView>) -> Option<Seq<char>> {
    match head {
        Some(h) => if h.is_branch {
            h.shorthand
        } else {
            None
        },
        None => None,
    }
}

/// The commit that `HEAD` points at.
pub open spec fn head_commit_of(head: Option<HeadReadingView>) -> Option<Seq<char>> {
    match head {
        Some(h) => h.target,
        None => None,
    }
}

/// The state of the repository.
pub open spec fn status_of_head(head: Option<HeadReadingView>) -> RepositoryStatus {
    match head {
        Some(h) => if h.is_branch {
            RepositoryStatus::OnBranch
        } else {
            RepositoryStatus::DetachedHead
        },
        None => RepositoryStatus::Empty,
    }
}

/// The branch with this name is the trunk among `branches`: `main`, or else
/// `master`, or else the one that sorts first.
pub open spec fn is_trunk(branches: Seq<Seq<char>>, name: Seq<char>) -> bool {
    if branches.contains("main"@) {
        name == "main"@
    } else if branches.contains("master"@) {
        name == "master"@
    } else {
        branches.contains(name) && forall|i: int|
            0 <= i < branches.len() ==> text_le(name, #[trigger] branches[i])
    }
}

/// What happened to a file, in Director's words.
pub open spec fn change_of_delta(status: DeltaKind) -> FileChange {
    match status {
        DeltaKind::Added => FileChange::Added,
        DeltaKind::Modified => FileChange::Modified,
        DeltaKind::Deleted => FileChange::Deleted,
        DeltaKind::Renamed => FileChange::Renamed,
        DeltaKind::Copied => FileChange::Copied,
        DeltaKind::Untracked => FileChange::Untracked,
        DeltaKind::Ignored => FileChange::Untracked,
        DeltaKind::Conflicted => FileChange::Conflicted,
        DeltaKind::Unmodified => FileChange::Modified,
        DeltaKind::Typechange => FileChange::Modified,
        DeltaKind::Unreadable => FileChange::Modified,
    }
}

/// A path with forward slashes only.
pub open spec fn slashed(path: Seq<char>) -> Seq<char> {
    path.map_values(
        |c: char|
            if c == '\\' {
                '/'
            } else {
                c
            },
    )
}

/// An optional path with forward slashes only; empty when there is none.
pub open spec fn slashed_or_empty(path: Option<Seq<char>>) -> Seq<char> {
    match path {
        Some(p) => slashed(p),
        None => Seq::empty(),
    }
}

/// The path that a change is about: for a deletion the one that went away.
pub open spec fn delta_path(d: DeltaReadingView) -> Seq<char> {
    if change_of_delta(d.status) == FileChange::Deleted && d.old_path is Some {
        slashed(d.old_path->0)
    } else {
        slashed_or_empty(d.new_path)
    }
}

/// The path that a change came from, for a rename or a copy.
pub open spec fn delta_old_path(d: DeltaReadingView) -> Option<Seq<char>> {
    if change_of_delta(d.status).moves() && d.old_path is Some && slashed(d.old_path->0)
        != delta_path(d) {
        Some(slashed(d.old_path->0))
    } else {
        None
    }
}

/// What stands for the content of a file in the working tree: its object id, or
/// else what the file system says of it.
pub open spec fn worktree_fingerprint(d: DeltaReadingView) -> Seq<char> {
    if d.status == DeltaKind::Deleted {
        "deleted"@
    } else {
        match d.new_id {
            Some(id) => id,
            None => match d.stamp {
                Some(stamp) => "len:"@ + decimal(stamp.len as nat) + ":mtime:"@ + decimal(
                    (match stamp.modified_secs {
                        Some(secs) => secs,
                        None => 0,
                    }) as nat,
                ),
                None => "unknown"@,
            },
        }
    }
}

/// What stands for the content of a file in a commit.
pub open spec fn commit_fingerprint(d: DeltaReadingView) -> Seq<char> {
    match d.new_id {
        Some(id) => id,
        None => "deleted"@,
    }
}

/// The record of an entry, with a fingerprint and line counts.
pub open spec fn record_of_delta(
    repository_id: Seq<char>,
    d: DeltaReadingView,
    fingerprint: Seq<char>,
    lines: Option<(u32, u32)>,
    anchor: Seq<char>,
    at: Timestamp,
) -> FileChangeRecordView {
    FileChangeRecordView {
        repository_id,
        path: delta_path(d),
        old_path: delta_old_path(d),
        change_type: change_of_delta(d.status),
        insertions: match lines {
            Some(counts) => Some(counts.0),
            None => None,
        },
        deletions: match lines {
            Some(counts) => Some(counts.1),
            None => None,
        },
        fingerprint,
        commit_sha: anchor,
        observed_at: at,
    }
}

/// Why an entry makes no record.
pub open spec fn delta_refusal(d: DeltaReadingView) -> Option<RepositoryErrorView> {
    match incoherence(change_of_delta(d.status), delta_old_path(d) is Some) {
        Some(reason) => Some(
            RepositoryErrorView::MalformedChange { path: delta_path(d), reason },
        ),
        None => None,
    }
}

/// The records of the entries of a diff of the working tree, in order. An entry
/// without a path is passed over; one that contradicts itself fails the whole.
pub open spec fn worktree_records(
    repository_id: Seq<char>,
    deltas: Seq<DeltaReadingView>,
    anchor: Seq<char>,
    at: Timestamp,
) -> Result<Seq<FileChangeRecordView>, RepositoryErrorView>
    decreases deltas.len(),
{
    if deltas.len() == 0 {
        Ok(Seq::empty())
    } else {
        let d = deltas.last();
        match worktree_records(repository_id, deltas.drop_last(), anchor, at) {
            Err(e) => Err(e),
            Ok(records) => if delta_path(d).len() == 0 {
                Ok(records)
            } else {
                match delta_refusal(d) {
                    Some(e) => Err(e),
                    None => Ok(
                        records.push(
                            record_of_delta(
                                repository_id,
                                d,
                                worktree_fingerprint(d),
                                None,
                                anchor,
                                at,
                            ),
                        ),
                    ),
                }
            },
        }
    }
}

/// The records of the first `n` entries of a commit's diff, in order, each with its
/// own line counts.
pub open spec fn commit_records(
    repository_id: Seq<char>,
    deltas: Seq<DeltaReadingView>,
    n: int,
    sha: Seq<char>,
    at: Timestamp,
) -> Result<Seq<FileChangeRecordView>, RepositoryErrorView>
    decreases n,
{
    if n <= 0 {
        Ok(Seq::empty())
    } else {
        let d = deltas[n - 1];
        match commit_records(repository_id, deltas, n - 1, sha, at) {
            Err(e) => Err(e),
            Ok(records) => if delta_path(d).len() == 0 {
                Ok(records)
            } else {
                match delta_refusal(d) {
                    Some(e) => Err(e),
                    None => Ok(
                        records.push(
                            record_of_delta(
                                repository_id,
                                d,
                                commit_fingerprint(d),
                                Some((d.insertions, d.deletions)),
                                sha,
                                at,
                            ),
                        ),
                    ),
                }
            },
        }
    }
}

/// The diff information of an entry.
pub open spec fn diff_of_delta(
    d: DeltaReadingView,
    head: Seq<char>,
    branch: Option<Seq<char>>,
    at: Timestamp,
) -> DiffInfoView {
    DiffInfoView {
        old_path: if change_of_delta(d.status).moves() && slashed_or_empty(d.old_path).len() > 0 {
            Some(slashed_or_empty(d.old_path))
        } else {
            None
        },
        new_path: slashed_or_empty(d.new_path),
        change_type: change_of_delta(d.status),
        insertions: d.insertions,
        deletions: d.deletions,
        commit_sha: head,
        branch,
        observed_at: at,
    }
}

/// The state of the working tree: staged changes and then unstaged ones. Where
/// either holds an entry that contradicts itself, there is none.
pub open spec fn worktree_of(
    repository_id: Seq<char>,
    staged: Seq<DeltaReadingView>,
    unstaged: Seq<DeltaReadingView>,
    anchor: Seq<char>,
    at: Timestamp,
) -> Result<WorktreeStateView, RepositoryErrorView> {
    match worktree_records(repository_id, staged, anchor, at) {
        Err(e) => Err(e),
        Ok(first) => match worktree_records(repository_id, unstaged, anchor, at) {
            Err(e) => Err(e),
            Ok(second) => Ok(parted(first + second)),
        },
    }
}

/// How a signature is shown.
pub open spec fn signature_text(s: SignatureReadingView) -> Seq<char> {
    match s.name {
        Some(name) => match s.email {
            Some(email) => name + " <"@ + email + ">"@,
            None => name,
        },
        None => Seq::empty(),
    }
}

/// A text, or nothing.
pub open spec fn text_or_empty(text: Option<Seq<char>>) -> Seq<char> {
    match text {
        Some(t) => t,
        None => Seq::empty(),
    }
}

/// An instant is that of a commit, or where its seconds are out of range what the clock
/// showed at the reading.
pub open spec fn commit_instant(instant: Timestamp, seconds: i64) -> bool {
    if valid_instant(seconds as int, 0) {
        instant@ == (seconds as int, 0int)
    } else {
        clock_time(instant@)
    }
}

/// A commit record is what a commit reads as. A time out of range is left open: the
/// reader puts the time of reading in its place.
pub open spec fn commit_reads_as(info: CommitInfoView, c: CommitReadingView) -> bool {
    &&& info == (CommitInfoView {
        sha: c.id,
        summary: text_or_empty(c.summary),
        author: signature_text(c.author),
        committed_at: info.committed_at,
        parents: c.parents,
        committer: signature_text(c.committer),
        message: text_or_empty(c.message),
    })
    &&& commit_instant(info.committed_at, c.committer.seconds)
}

/// How many commits of a walk are new: those in front of the anchor.
pub open spec fn new_in_window(window: Seq<CommitInfoView>, anchor: Option<Seq<char>>) -> nat
    decreases window.len(),
{
    if window.len() == 0 || Some(window[0].sha) == anchor {
        0
    } else {
        1 + new_in_window(window.skip(1), anchor)
    }
}

/// The commits that one walk looks at.
pub open spec fn walk_window(window: Seq<CommitInfoView>) -> Seq<CommitInfoView> {
    if window.len() <= MAX_WALK {
        window
    } else {
        window.take(MAX_WALK as int)
    }
}

/// The commits between a previous observation and `HEAD`. `anchor` is the commit
/// that the previous observation ended on, where git still knows it, and `window`
/// the commits from `HEAD` on, newest first.
pub open spec fn range_of(
    previous: Option<Seq<char>>,
    head: Seq<char>,
    anchor: Option<Seq<char>>,
    window: Seq<CommitInfoView>,
) -> RangeWalkView {
    if previous == Some(head) {
        RangeWalkView { commits: Seq::empty(), history_rewritten: false }
    } else {
        let seen = walk_window(window);
        let known = text_or_empty(previous).len() > 0;
        let stop = if known {
            anchor
        } else {
            None
        };
        let n = new_in_window(seen, stop);
        RangeWalkView {
            commits: seen.take(n as int).reverse(),
            history_rewritten: known && n == seen.len(),
        }
    }
}

/// What happened to a file, in Director's words.
pub fn map_delta_type(status: DeltaKind) -> (r: FileChange)
    ensures
        r == change_of_delta(status),
{
    match status {
        DeltaKind::Added => FileChange::Added,
        DeltaKind::Modified => FileChange::Modified,
        DeltaKind::Deleted => FileChange::Deleted,
        DeltaKind::Renamed => FileChange::Renamed,
        DeltaKind::Copied => FileChange::Copied,
        DeltaKind::Untracked => FileChange::Untracked,
        DeltaKind::Ignored => FileChange::Untracked,
        DeltaKind::Conflicted => FileChange::Conflicted,
        DeltaKind::Unmodified => FileChange::Modified,
        DeltaKind::Typechange => FileChange::Modified,
        DeltaKind::Unreadable => FileChange::Modified,
    }
}

/// A path with forward slashes only.
pub fn normalize_path(path: &str) -> (r: String)
    ensures
        r@ == slashed(path@),
{
    let chars: Vec<char> = chars_of(path);
    let mut out: Vec<char> = Vec::new();
    let mut i: usize = 0;
    while i < chars.len()
        invariant
            i <= chars.len(),
            out@.len() == i,
            forall|j: int|
                0 <= j < i ==> #[trigger] out@[j] == (if chars@[j] == '\\' {
                    '/'
                } else {
                    chars@[j]
                }),
        decreases chars.len() - i,
    {
        if chars[i] == '\\' {
            out.push('/');
        } else {
            out.push(chars[i]);
        }
        i += 1;
    }
    assert(out@ =~= slashed(path@));
    string_of(&out)
}

/// An optional path with forward slashes only; empty when there is none.
fn normalize_optional(path: &Option<String>) -> (r: String)
    ensures
        r@ == slashed_or_empty(path.deep_view()),
{
    match path {
        Some(p) => normalize_path(p.as_str()),
        None => {
            let none: String = String::new();
            assert(none@ =~= Seq::<char>::empty());
            none
        },
    }
}

/// The path that a change is about.
fn path_of(d: &DeltaReading) -> (r: String)
    ensures
        r@ == delta_path(d@),
{
    if map_delta_type(d.status) == FileChange::Deleted {
        if let Some(old) = &d.old_path {
            return normalize_path(old.as_str());
        }
    }
    normalize_optional(&d.new_path)
}

/// The path that a change came from.
fn old_path_of(d: &DeltaReading, path: &str) -> (r: Option<String>)
    requires
        path@ == delta_path(d@),
    ensures
        r.deep_view() == delta_old_path(d@),
{
    if !map_delta_type(d.status).has_old_path() {
        return None;
    }
    match &d.old_path {
        Some(old) => {
            let old: String = normalize_path(old.as_str());
            if same_text(old.as_str(), path) {
                None
            } else {
                Some(old)
            }
        },
        None => None,
    }
}

/// How a signature is shown: the name, and the address in angle brackets.
pub fn signature_display(signature: &SignatureReading) -> (r: String)
    ensures
        r@ == signature_text(signature@),
{
    match &signature.name {
        Some(name) => match &signature.email {
            Some(email) => {
                let mut text: String = joined(name.as_str(), " <");
                text.append(email.as_str());
                text.append(">");
                text
            },
            None => name.clone(),
        },
        None => {
            let none: String = String::new();
            assert(none@ =~= Seq::<char>::empty());
            none
        },
    }
}

/// The instant of a commit, or the time of the call where it is out of range.
pub fn commit_time(seconds: i64) -> (r: Timestamp)
    ensures
        commit_instant(r, seconds),
{
    match Timestamp::from_unix(seconds, 0) {
        Some(instant) => instant,
        None => Timestamp::now(),
    }
}

/// A text, or nothing.
fn unwrap_text(text: &Option<String>) -> (r: String)
    ensures
        r@ == text_or_empty(text.deep_view()),
{
    match text {
        Some(t) => t.clone(),
        None => {
            let none: String = String::new();
            assert(none@ =~= Seq::<char>::empty());
            none
        },
    }
}

/// The record of a commit.
pub fn commit_info(commit: &CommitReading) -> (r: CommitInfo)
    ensures
        commit_reads_as(r@, commit@),
{
    let r: CommitInfo = CommitInfo {
        sha: commit.id.clone(),
        summary: unwrap_text(&commit.summary),
        author: signature_display(&commit.author),
        committed_at: commit_time(commit.committer.seconds),
        parents: commit.parents.clone(),
        committer: signature_display(&commit.committer),
        message: unwrap_text(&commit.message),
    };
    assert(r.parents.deep_view() =~= commit.parents.deep_view());
    r
}

/// The object id of the commit that `sha` asks for: a whole object id is taken as
/// it is, and anything else as what git resolved it to.
pub fn parse_oid(sha: &str, resolved: Option<String>) -> (r: Result<String, RepositoryError>)
    ensures
        r is Ok <==> resolved_oid(sha@, resolved.deep_view()) is Some,
        r matches Ok(oid) ==> resolved_oid(sha@, resolved.deep_view()) == Some(oid@),
        r matches Err(e) ==> e@ == RepositoryErrorView::ObservationFailed(
            "not a commit sha: "@ + sha@,
        ),
{
    if chars_of(sha).len() == OID_DIGITS {
        if let Some(oid) = oid_text(sha) {
            return Ok(oid);
        }
    }
    match resolved {
        Some(oid) => Ok(oid),
        None => Err(RepositoryError::ObservationFailed(joined("not a commit sha: ", sha))),
    }
}

/// An object id abbreviated for display.
pub fn short_sha(sha: &str) -> (r: &str)
    ensures
        r.spec_bytes() == abbreviated(sha.spec_bytes()),
{
    abbreviate(sha)
}

/// Turns readings of git into records.
#[derive(Debug, Clone, Copy, PartialEq, Eq, Structural)]
pub struct GitObserver;

impl Default for GitObserver {
    /// An observer.
    fn default() -> (r: Self)
        ensures
            r == GitObserver,
    {
        GitObserver
    }
}

/// The result of an observation, by view.
pub open spec fn observed<T: DeepView>(r: Result<T, RepositoryError>) -> Result<
    T::V,
    RepositoryErrorView,
> {
    match r {
        Ok(value) => Ok(value.deep_view()),
        Err(e) => Err(e@),
    }
}

impl GitObserver {
    /// An observer. It has no state of its own.
    pub fn new() -> (r: Self)
        ensures
            r == GitObserver,
    {
        GitObserver
    }

    /// What the opening of a repository calls for. The path is checked before it
    /// is resolved and again afterwards. Opening searches upward, so a repository
    /// that is rooted above the path is refused: Director observes exactly the
    /// working tree that it was pointed at.
    pub fn open(&self, event: OpenEvent) -> (r: OpenAction)
        ensures
            r@ == open_step(event@),
    {
        match event {
            OpenEvent::Requested(path) => match Repository::validate_path(path.as_str()) {
                Ok(()) => OpenAction::Resolve(path),
                Err(error) => OpenAction::Refuse(error),
            },
            OpenEvent::Resolved { path, reading } => match reading {
                CanonicalReading::Missing => OpenAction::Refuse(
                    RepositoryError::PathMissing { path },
                ),
                CanonicalReading::NotText => OpenAction::Refuse(
                    RepositoryError::UnsafePath {
                        reason: "repository path is not valid UTF-8".to_owned(),
                    },
                ),
                CanonicalReading::Path(canonical) => match Repository::validate_path(
                    canonical.as_str(),
                ) {
                    Ok(()) => OpenAction::Open(canonical),
                    Err(error) => OpenAction::Refuse(error),
                },
            },
            OpenEvent::Opened { canonical, reading } => match reading {
                WorkdirReading::NotARepository | WorkdirReading::Bare => OpenAction::Refuse(
                    RepositoryError::NotARepository { path: canonical },
                ),
                WorkdirReading::Unreadable => OpenAction::Refuse(
                    RepositoryError::UnsafePath {
                        reason: "repository working directory is not readable".to_owned(),
                    },
                ),
                WorkdirReading::NotText(root) => refuse_elsewhere(
                    canonical.as_str(),
                    root.as_str(),
                ),
                WorkdirReading::Path(root) => if same_text(root.as_str(), canonical.as_str()) {
                    OpenAction::Use(canonical)
                } else {
                    refuse_elsewhere(canonical.as_str(), root.as_str())
                },
            },
        }
    }

    /// The branch that `HEAD` points at, or `None` under a detached HEAD.
    pub fn read_branch(&self, head: &Option<HeadReading>) -> (r: Option<String>)
        ensures
            r.deep_view() == branch_of(head.deep_view()),
    {
        match head {
            Some(h) => if h.is_branch {
                h.shorthand.clone()
            } else {
                None
            },
            None => None,
        }
    }

    /// The commit that `HEAD` points at. A repository without commits has none, and
    /// none is made up for it.
    pub fn read_head_commit(&self, head: &Option<HeadReading>) -> (r: Result<
        String,
        RepositoryError,
    >)
        ensures
            observed(r) == (match head_commit_of(head.deep_view()) {
                Some(sha) => Ok(sha),
                None => Err(RepositoryErrorView::Empty),
            }),
    {
        match head {
            Some(h) => match &h.target {
                Some(sha) => Ok(sha.clone()),
                None => Err(RepositoryError::Empty),
            },
            None => Err(RepositoryError::Empty),
        }
    }

    /// The state of the repository itself.
    pub fn read_status(&self, head: &Option<HeadReading>) -> (r: RepositoryStatus)
        ensures
            r == status_of_head(head.deep_view()),
    {
        match head {
            Some(h) => if h.is_branch {
                RepositoryStatus::OnBranch
            } else {
                RepositoryStatus::DetachedHead
            },
            None => RepositoryStatus::Empty,
        }
    }

    /// The branch that the repository treats as its trunk, by the names of its local
    /// branches: `main`, or else `master`, or else the one that sorts first.
    pub fn read_default_branch(&self, branches: &Vec<String>) -> (r: Option<String>)
        ensures
            r is Some <==> branches@.len() > 0,
            r matches Some(name) ==> is_trunk(branches.deep_view(), name@),
    {
        let ghost all = branches.deep_view();
        if is_listed(branches, "main") {
            return Some("main".to_owned());
        }
        if is_listed(branches, "master") {
            return Some("master".to_owned());
        }
        if branches.len() == 0 {
            return None;
        }
        let mut best: usize = 0;
        let mut i: usize = 1;
        assert(all[0] == branches@[0]@);
        while i < branches.len()
            invariant
                best < i <= branches.len(),
                all == branches.deep_view(),
                forall|j: int| 0 <= j < i ==> text_le(all[best as int], #[trigger] all[j]),
            decreases branches.len() - i,
        {
            proof {
                assert(all[i as int] == branches@[i as int]@);
                assert(all[best as int] == branches@[best as int]@);
                lemma_text_lt_total(all[i as int], all[best as int]);
            }
            if text_before(branches[i].as_str(), branches[best].as_str()) {
                proof {
                    assert forall|j: int| 0 <= j < i + 1 implies text_le(
                        all[i as int],
                        #[trigger] all[j],
                    ) by {
                        if j < i && all[best as int] != all[j] {
                            lemma_text_lt_transitive(all[i as int], all[best as int], all[j]);
                        }
                    }
                }
                best = i;
            }
            i += 1;
        }
        assert(all[best as int] == branches@[best as int]@);
        Some(branches[best].clone())
    }

    /// What stands for the content of a file in the working tree.
    fn fingerprint_for(&self, d: &DeltaReading) -> (r: String)
        ensures
            r@ == worktree_fingerprint(d@),
    {
        if d.status == DeltaKind::Deleted {
            return DELETED_FINGERPRINT.to_owned();
        }
        if let Some(id) = &d.new_id {
            return id.clone();
        }
        match &d.stamp {
            Some(stamp) => {
                let secs: u64 = match stamp.modified_secs {
                    Some(secs) => secs,
                    None => 0,
                };
                let mut text: String = joined("len:", decimal_text(stamp.len).as_str());
                text.append(":mtime:");
                text.append(decimal_text(secs).as_str());
                text
            },
            None => UNKNOWN_FINGERPRINT.to_owned(),
        }
    }

    /// The records of the entries of a diff of the working tree.
    pub fn records_from_diff(
        &self,
        deltas: &Vec<DeltaReading>,
        repository_id: &RepositoryId,
        anchor: &str,
        now: Timestamp,
    ) -> (r: Result<Vec<FileChangeRecord>, RepositoryError>)
        ensures
            observed(r) == worktree_records(repository_id@, deltas.deep_view(), anchor@, now),
    {
        let ghost all = deltas.deep_view();
        let mut records: Vec<FileChangeRecord> = Vec::new();
        let mut i: usize = 0;
        assert(all.take(0) =~= Seq::empty());
        assert(records.deep_view() =~= Seq::empty());
        while i < deltas.len()
            invariant
                i <= deltas.len(),
                all == deltas.deep_view(),
                worktree_records(repository_id@, all.take(i as int), anchor@, now) == Ok::<
                    Seq<FileChangeRecordView>,
                    RepositoryErrorView,
                >(records.deep_view()),
            decreases deltas.len() - i,
        {
            let d: &DeltaReading = &deltas[i];
            let ghost before = records.deep_view();
            proof {
                assert(all[i as int] == d@);
                assert(all.take(i + 1).drop_last() =~= all.take(i as int));
            }
            let path: String = path_of(d);
            if chars_of(path.as_str()).len() > 0 {
                let old_path: Option<String> = old_path_of(d, path.as_str());
                match FileChangeRecord::new(
                    repository_id.clone(),
                    path.as_str(),
                    old_path,
                    map_delta_type(d.status),
                    self.fingerprint_for(d).as_str(),
                    anchor,
                    now,
                ) {
                    Ok(record) => {
                        records.push(record);
                        assert(records.deep_view() =~= before.push(record@));
                    },
                    Err(error) => {
                        proof {
                            lemma_worktree_failure(repository_id@, all, anchor@, now, i + 1);
                        }
                        return Err(error);
                    },
                }
            }
            i += 1;
        }
        assert(all.take(all.len() as int) =~= all);
        Ok(records)
    }

    /// The working tree, as staged and unstaged changes against `HEAD`. Both are
    /// kept: a file that is staged as new and was changed since is two facts.
    pub fn read_worktree(
        &self,
        repository_id: &RepositoryId,
        head: &Option<HeadReading>,
        staged: &Vec<DeltaReading>,
        unstaged: &Vec<DeltaReading>,
        now: Timestamp,
    ) -> (r: Result<WorktreeState, RepositoryError>)
        ensures
            observed(r) == worktree_of(
                repository_id@,
                staged.deep_view(),
                unstaged.deep_view(),
                text_or_empty(head_commit_of(head.deep_view())),
                now,
            ),
    {
        let anchor: String = match self.read_head_commit(head) {
            Ok(sha) => sha,
            Err(_) => {
                let none: String = String::new();
                assert(none@ =~= Seq::<char>::empty());
                none
            },
        };
        let mut records: Vec<FileChangeRecord> = match self.records_from_diff(
            staged,
            repository_id,
            anchor.as_str(),
            now,
        ) {
            Ok(records) => records,
            Err(error) => {
                return Err(error);
            },
        };
        let mut more: Vec<FileChangeRecord> = match self.records_from_diff(
            unstaged,
            repository_id,
            anchor.as_str(),
            now,
        ) {
            Ok(records) => records,
            Err(error) => {
                return Err(error);
            },
        };
        let ghost first = records.deep_view();
        let ghost second = more.deep_view();
        records.append(&mut more);
        assert(records.deep_view() =~= first + second);
        Ok(WorktreeState::from_changes(records))
    }

    /// The commit that was asked for, where git has it.
    pub fn read_commit(&self, sha: &str, found: Option<CommitReading>) -> (r: Result<
        CommitInfo,
        RepositoryError,
    >)
        ensures
            match found.deep_view() {
                Some(commit) => r matches Ok(info) && commit_reads_as(info@, commit),
                None => observed(r) == Err::<CommitInfoView, _>(
                    RepositoryErrorView::ObservationFailed("unknown commit "@ + sha@),
                ),
            },
    {
        match found {
            Some(commit) => Ok(commit_info(&commit)),
            None => Err(RepositoryError::ObservationFailed(joined("unknown commit ", sha))),
        }
    }

    /// The most recent commits, newest first: at most `limit` of those that a walk
    /// from `HEAD` met.
    pub fn read_recent_commits(&self, walk: Vec<CommitInfo>, limit: usize) -> (r: Vec<CommitInfo>)
        ensures
            r.deep_view() == (if walk@.len() <= limit {
                walk.deep_view()
            } else {
                walk.deep_view().take(limit as int)
            }),
    {
        let ghost all = walk.deep_view();
        let mut walk: Vec<CommitInfo> = walk;
        let whole: bool = walk.len() <= limit;
        walk.truncate(limit);
        assert(walk.deep_view() =~= if whole {
            all
        } else {
            all.take(limit as int)
        });
        walk
    }

    /// Whether there is nothing to walk: the previous observation ended on `HEAD`.
    pub fn nothing_new(&self, previous: Option<&str>, head: &str) -> (r: bool)
        ensures
            r == (previous.deep_view() == Some(head@)),
    {
        match previous {
            Some(previous) => same_text(previous, head),
            None => false,
        }
    }

    /// The commits between a previous observation and `HEAD`, oldest first.
    ///
    /// Where the previous observation ended on `HEAD`, there are none. Where it
    /// ended on an ancestor, they are exactly those in between. Where that commit
    /// is not met, they are a bounded window of recent commits, and the walk says
    /// so.
    pub fn walk_new_commits(
        &self,
        previous: Option<&str>,
        head: &str,
        anchor: Option<&str>,
        window: &Vec<CommitInfo>,
    ) -> (r: RangeWalk)
        ensures
            r@ == range_of(
                previous.deep_view(),
                head@,
                anchor.deep_view(),
                window.deep_view(),
            ),
    {
        if self.nothing_new(previous, head) {
            let r: RangeWalk = RangeWalk { commits: Vec::new(), history_rewritten: false };
            assert(r.commits.deep_view() =~= Seq::empty());
            return r;
        }
        let known: bool = match previous {
            Some(previous) => chars_of(previous).len() > 0,
            None => false,
        };
        let stop: Option<&str> = if known {
            anchor
        } else {
            None
        };
        let limit: usize = if window.len() <= MAX_WALK {
            window.len()
        } else {
            MAX_WALK
        };
        let ghost seen = walk_window(window.deep_view());
        let ghost want = stop.deep_view();
        let mut n: usize = 0;
        let mut reached: bool = false;
        assert(seen.skip(0) =~= seen);
        while n < limit && !reached
            invariant
                n <= limit,
                limit <= window@.len(),
                limit == seen.len(),
                seen == walk_window(window.deep_view()),
                want == stop.deep_view(),
                !reached ==> new_in_window(seen, want) == n + new_in_window(
                    seen.skip(n as int),
                    want,
                ),
                reached ==> n < limit && new_in_window(seen, want) == n,
            decreases
                limit - n + if reached {
                    0int
                } else {
                    1
                },
        {
            proof {
                assert(seen.skip(n as int)[0] == window@[n as int]@);
                assert(seen.skip(n as int).skip(1) =~= seen.skip(n + 1));
            }
            let met: bool = match stop {
                Some(sha) => same_text(window[n].sha.as_str(), sha),
                None => false,
            };
            if met {
                reached = true;
            } else {
                n += 1;
            }
        }
        proof {
            if !reached {
                assert(seen.skip(n as int) =~= Seq::empty());
            }
        }
        let mut commits: Vec<CommitInfo> = Vec::new();
        let mut i: usize = n;
        while i > 0
            invariant
                i <= n,
                n <= window@.len(),
                commits@.len() == n - i,
                forall|j: int|
                    0 <= j < n - i ==> (#[trigger] commits@[j])@ == window@[n - 1 - j]@,
            decreases i,
        {
            i -= 1;
            commits.push(window[i].clone());
        }
        assert(commits.deep_view() =~= seen.take(n as int).reverse()) by {
            assert forall|j: int| 0 <= j < n implies #[trigger] commits.deep_view()[j]
                == seen.take(n as int).reverse()[j] by {
                assert(commits.deep_view()[j] == commits@[j]@);
                assert(window.deep_view()[n - 1 - j] == window@[n - 1 - j]@);
            }
        }
        RangeWalk { commits, history_rewritten: known && n == limit }
    }

    /// The files that a commit changed, with line counts, by its diff against its
    /// first parent.
    pub fn read_commit_changes(
        &self,
        repository_id: &RepositoryId,
        sha: &str,
        deltas: &Vec<DeltaReading>,
        now: Timestamp,
    ) -> (r: Result<Vec<FileChangeRecord>, RepositoryError>)
        ensures
            observed(r) == commit_records(
                repository_id@,
                deltas.deep_view(),
                deltas@.len() as int,
                sha@,
                now,
            ),
    {
        let ghost all = deltas.deep_view();
        let mut records: Vec<FileChangeRecord> = Vec::new();
        let mut i: usize = 0;
        assert(records.deep_view() =~= Seq::empty());
        while i < deltas.len()
            invariant
                i <= deltas.len(),
                all == deltas.deep_view(),
                commit_records(repository_id@, all, i as int, sha@, now) == Ok::<
                    Seq<FileChangeRecordView>,
                    RepositoryErrorView,
                >(records.deep_view()),
            decreases deltas.len() - i,
        {
            let d: &DeltaReading = &deltas[i];
            let ghost before = records.deep_view();
            assert(all[i as int] == d@);
            let path: String = path_of(d);
            if chars_of(path.as_str()).len() > 0 {
                let old_path: Option<String> = old_path_of(d, path.as_str());
                let fingerprint: String = match &d.new_id {
                    Some(id) => id.clone(),
                    None => DELETED_FINGERPRINT.to_owned(),
                };
                match FileChangeRecord::new(
                    repository_id.clone(),
                    path.as_str(),
                    old_path,
                    map_delta_type(d.status),
                    fingerprint.as_str(),
                    sha,
                    now,
                ) {
                    Ok(record) => {
                        let record: FileChangeRecord = record.with_line_counts(
                            d.insertions,
                            d.deletions,
                        );
                        records.push(record);
                        assert(records.deep_view() =~= before.push(record@));
                    },
                    Err(error) => {
                        proof {
                            lemma_commit_failure(
                                repository_id@,
                                all,
                                i + 1,
                                all.len() as int,
                                sha@,
                                now,
                            );
                        }
                        return Err(error);
                    },
                }
            }
            i += 1;
        }
        Ok(records)
    }

    /// What changed in the working tree against `HEAD`, with line counts.
    pub fn read_diff(
        &self,
        deltas: &Vec<DeltaReading>,
        head: &Option<HeadReading>,
        branch: &Option<String>,
        now: Timestamp,
    ) -> (r: Vec<DiffInfo>)
        ensures
            r.deep_view() == deltas.deep_view().map_values(
                |d: DeltaReadingView|
                    diff_of_delta(
                        d,
                        text_or_empty(head_commit_of(head.deep_view())),
                        branch.deep_view(),
                        now,
                    ),
            ),
    {
        let ghost all = deltas.deep_view();
        let ghost sha = text_or_empty(head_commit_of(head.deep_view()));
        let head_sha: String = match self.read_head_commit(head) {
            Ok(sha) => sha,
            Err(_) => {
                let none: String = String::new();
                assert(none@ =~= Seq::<char>::empty());
                none
            },
        };
        let mut diffs: Vec<DiffInfo> = Vec::new();
        let mut i: usize = 0;
        while i < deltas.len()
            invariant
                i <= deltas.len(),
                all == deltas.deep_view(),
                head_sha@ == sha,
                diffs@.len() == i,
                forall|j: int|
                    0 <= j < i ==> (#[trigger] diffs@[j])@ == diff_of_delta(
                        all[j],
                        sha,
                        branch.deep_view(),
                        now,
                    ),
            decreases deltas.len() - i,
        {
            let d: &DeltaReading = &deltas[i];
            assert(all[i as int] == d@);
            let change_type: FileChange = map_delta_type(d.status);
            let old_path: String = normalize_optional(&d.old_path);
            diffs.push(
                DiffInfo {
                    old_path: if change_type.has_old_path() && chars_of(old_path.as_str()).len()
                        > 0 {
                        Some(old_path)
                    } else {
                        None
                    },
                    new_path: normalize_optional(&d.new_path),
                    change_type,
                    insertions: d.insertions,
                    deletions: d.deletions,
                    commit_sha: head_sha.clone(),
                    branch: branch.clone(),
                    observed_at: now,
                },
            );
            i += 1;
        }
        assert(diffs.deep_view() =~= all.map_values(
            |d: DeltaReadingView| diff_of_delta(d, sha, branch.deep_view(), now),
        ));
        diffs
    }
}

/// The refusal of a repository that is rooted elsewhere.
fn refuse_elsewhere(canonical: &str, root: &str) -> (r: OpenAction)
    ensures
        r@ == rooted_elsewhere(canonical@, root@),
{
    let mut reason: String = joined("path ", canonical);
    reason.append(" is inside a repository rooted at ");
    reason.append(root);
    reason.append(", which is outside the authorized scope");
    OpenAction::Refuse(RepositoryError::UnsafePath { reason })
}

/// Once an entry has failed, the whole has.
proof fn lemma_worktree_failure(
    repository_id: Seq<char>,
    deltas: Seq<DeltaReadingView>,
    anchor: Seq<char>,
    at: Timestamp,
    n: int,
)
    requires
        0 <= n <= deltas.len(),
        worktree_records(repository_id, deltas.take(n), anchor, at) is Err,
    ensures
        worktree_records(repository_id, deltas, anchor, at) == worktree_records(
            repository_id,
            deltas.take(n),
            anchor,
            at,
        ),
    decreases deltas.len() - n,
{
    if n == deltas.len() {
        assert(deltas.take(n) =~= deltas);
    } else {
        assert(deltas.take(n + 1).drop_last() =~= deltas.take(n));
        lemma_worktree_failure(repository_id, deltas, anchor, at, n + 1);
    }
}

/// Once an entry has failed, the whole has.
proof fn lemma_commit_failure(
    repository_id: Seq<char>,
    deltas: Seq<DeltaReadingView>,
    n: int,
    m: int,
    sha: Seq<char>,
    at: Timestamp,
)
    requires
        0 <= n <= m <= deltas.len(),
        commit_records(repository_id, deltas, n, sha, at) is Err,
    ensures
        commit_records(repository_id, deltas, m, sha, at) == commit_records(
            repository_id,
            deltas,
            n,
            sha,
            at,
        ),
    decreases m - n,
{
    if n < m {
        lemma_commit_failure(repository_id, deltas, n, m - 1, sha, at);
    }
}

/// A repository is used only where it is rooted exactly at the path that was
/// resolved, and opened only where the resolved path is acceptable.
pub proof fn law_only_the_requested_tree_is_observed(event: OpenEventView, path: Seq<char>)
    ensures
        open_step(event) == OpenActionView::Use(path) ==> event == (OpenEventView::Opened {
            canonical: path,
            reading: WorkdirReadingView::Path(path),
        }),
        open_step(event) == OpenActionView::Open(path) ==> path_refusal(path) is None,
        open_step(event) == OpenActionView::Resolve(path) ==> path_refusal(path) is None,
{
}

proof fn lemma_new_in_window(window: Seq<CommitInfoView>, anchor: Option<Seq<char>>)
    ensures
        new_in_window(window, anchor) <= window.len(),
        forall|i: int|
            0 <= i < new_in_window(window, anchor) ==> Some(#[trigger] window[i].sha) != anchor,
        new_in_window(window, anchor) < window.len() ==> Some(
            window[new_in_window(window, anchor) as int].sha,
        ) == anchor,
    decreases window.len(),
{
    if window.len() > 0 && Some(window[0].sha) != anchor {
        let rest = window.skip(1);
        lemma_new_in_window(rest, anchor);
        let n = new_in_window(rest, anchor) as int;
        assert(new_in_window(window, anchor) == 1 + n);
        assert forall|i: int| 0 <= i < n + 1 implies Some(#[trigger] window[i].sha) != anchor by {
            if i > 0 {
                assert(window[i] == rest[i - 1]);
            }
        }
        if n < rest.len() {
            assert(window[n + 1] == rest[n]);
        }
    }
}

/// A previous observation that ended on `HEAD` leaves nothing to walk.
pub proof fn law_nothing_is_new_at_the_same_commit(
    head: Seq<char>,
    anchor: Option<Seq<char>>,
    window: Seq<CommitInfoView>,
)
    ensures
        range_of(Some(head), head, anchor, window).commits.len() == 0,
        !range_of(Some(head), head, anchor, window).history_rewritten,
{
}

/// Where the commit that the previous observation ended on is met within the
/// bound, the new commits are exactly those in front of it, oldest first, and
/// history was not rewritten.
pub proof fn law_the_walk_is_the_range_to_the_anchor(
    previous: Seq<char>,
    head: Seq<char>,
    window: Seq<CommitInfoView>,
    k: int,
)
    requires
        previous.len() > 0,
        previous != head,
        0 <= k < window.len(),
        k < MAX_WALK,
        window[k].sha == previous,
        forall|i: int| 0 <= i < k ==> (#[trigger] window[i]).sha != previous,
    ensures
        range_of(Some(previous), head, Some(previous), window) == (RangeWalkView {
            commits: window.take(k).reverse(),
            history_rewritten: false,
        }),
{
    let seen = walk_window(window);
    let anchor = Some(previous);
    lemma_new_in_window(seen, anchor);
    let n = new_in_window(seen, anchor) as int;
    assert(seen[k] == window[k]);
    if n > k {
        assert(Some(seen[k].sha) != anchor);
    }
    if n < k {
        assert(seen[n] == window[n]);
    }
    assert(seen.take(n) =~= window.take(k));
}

/// Where that commit is not met, the walk says so and gives the whole window.
pub proof fn law_a_lost_anchor_is_reported(
    previous: Seq<char>,
    head: Seq<char>,
    anchor: Option<Seq<char>>,
    window: Seq<CommitInfoView>,
)
    requires
        previous.len() > 0,
        previous != head,
        forall|i: int|
            0 <= i < walk_window(window).len() ==> Some((#[trigger] walk_window(window)[i]).sha)
                != anchor,
    ensures
        range_of(Some(previous), head, anchor, window) == (RangeWalkView {
            commits: walk_window(window).reverse(),
            history_rewritten: true,
        }),
{
    let seen = walk_window(window);
    lemma_new_in_window(seen, anchor);
    assert(seen.take(seen.len() as int) =~= seen);
}

/// A walk does bounded work.
pub proof fn law_a_walk_is_bounded(
    previous: Option<Seq<char>>,
    head: Seq<char>,
    anchor: Option<Seq<char>>,
    window: Seq<CommitInfoView>,
)
    ensures
        range_of(previous, head, anchor, window).commits.len() <= MAX_WALK,
{
    let seen = walk_window(window);
    lemma_new_in_window(seen, anchor);
    lemma_new_in_window(seen, None);
}

/// The fingerprints for a deletion and for a file of which nothing is known differ
/// from each other and from every object id.
pub proof fn law_constant_fingerprints_are_no_object_ids(id: Seq<char>)
    requires
        id.len() == OID_DIGITS,
    ensures
        id != DELETED_FINGERPRINT@,
        id != UNKNOWN_FINGERPRINT@,
        DELETED_FINGERPRINT@ != UNKNOWN_FINGERPRINT@,
{
    reveal_strlit("deleted");
    reveal_strlit("unknown");
    assert("deleted"@.len() == 7 && "unknown"@.len() == 7);
    assert("deleted"@[0] != "unknown"@[0]);
}

/// The trunk is one branch.
pub proof fn law_the_trunk_is_unique(branches: Seq<Seq<char>>, a: Seq<char>, b: Seq<char>)
    requires
        is_trunk(branches, a),
        is_trunk(branches, b),
    ensures
        a == b,
{
    if !branches.contains("main"@) && !branches.contains("master"@) {
        let i = choose|i: int| 0 <= i < branches.len() && branches[i] == a;
        let j = choose|j: int| 0 <= j < branches.len() && branches[j] == b;
        assert(text_le(a, branches[j]));
        assert(text_le(b, branches[i]));
        if a != b {
            lemma_text_lt_transitive(a, b, a);
            lemma_text_lt_irreflexive(a);
        }
    }
}

/// Opening goes step by step, and each step only where the one before allows it: a path
/// that is accepted is resolved, a resolved path that is accepted is opened, and a
/// repository is used exactly where its working tree is the one that was opened.
pub proof fn law_opening_goes_step_by_step(
    path: Seq<char>,
    canonical: Seq<char>,
    reading: WorkdirReadingView,
)
    ensures
        open_step(OpenEventView::Requested(path)) == OpenActionView::Resolve(path)
            <==> path_refusal(path) is None,
        open_step(OpenEventView::Requested(path)) is Refuse <==> path_refusal(path) is Some,
        open_step(
            OpenEventView::Resolved { path, reading: CanonicalReadingView::Path(canonical) },
        ) == OpenActionView::Open(canonical) <==> path_refusal(canonical) is None,
        open_step(
            OpenEventView::Resolved { path, reading: CanonicalReadingView::Path(canonical) },
        ) is Refuse <==> path_refusal(canonical) is Some,
        open_step(OpenEventView::Resolved { path, reading: CanonicalReadingView::Missing })
            == OpenActionView::Refuse(RepositoryErrorView::PathMissing { path }),
        open_step(OpenEventView::Opened { canonical, reading }) == OpenActionView::Use(canonical)
            <==> reading == WorkdirReadingView::Path(canonical),
        open_step(OpenEventView::Opened { canonical, reading }) is Refuse <==> reading
            != WorkdirReadingView::Path(canonical),
        reading is NotARepository || reading is Bare ==> open_step(
            OpenEventView::Opened { canonical, reading },
        ) == OpenActionView::Refuse(RepositoryErrorView::NotARepository { path: canonical }),
{
}

/// A repository without a head is empty; one whose head is a branch is on it, under its
/// short name, and any other head is detached and on no branch.
pub proof fn law_the_head_tells_the_branch(head: Option<HeadReadingView>)
    ensures
        status_of_head(head) == RepositoryStatus::Empty <==> head is None,
        status_of_head(head) == RepositoryStatus::OnBranch <==> (head matches Some(h)
            && h.is_branch),
        branch_of(head) is Some ==> status_of_head(head) == RepositoryStatus::OnBranch
            && branch_of(head) == head->0.shorthand,
        status_of_head(head) == RepositoryStatus::OnBranch ==> branch_of(head)
            == head->0.shorthand,
        head is Some ==> head_commit_of(head) == head->0.target,
        head is None ==> head_commit_of(head) is None,
{
}

/// The trunk is a branch that is there: `main` before `master`, and without either the
/// first in the order of names.
pub proof fn law_the_trunk_is_main_before_master(branches: Seq<Seq<char>>, name: Seq<char>)
    requires
        is_trunk(branches, name),
    ensures
        branches.contains(name),
        branches.contains("main"@) ==> name == "main"@,
        !branches.contains("main"@) && branches.contains("master"@) ==> name == "master"@,
        !branches.contains("main"@) && !branches.contains("master"@) ==> forall|other: Seq<char>|
            #[trigger] branches.contains(other) ==> !text_lt(other, name),
{
    if !branches.contains("main"@) && !branches.contains("master"@) {
        assert forall|other: Seq<char>| #[trigger] branches.contains(other) implies !text_lt(
            other,
            name,
        ) by {
            let i = choose|i: int| 0 <= i < branches.len() && branches[i] == other;
            assert(text_le(name, branches[i]));
            lemma_text_lt_irreflexive(name);
            if text_lt(other, name) && text_lt(name, other) {
                lemma_text_lt_transitive(name, other, name);
            }
        }
    }
}

/// What git calls a change is called the same; a file that is ignored counts as
/// untracked, and whatever is none of the other kinds as modified.
pub proof fn law_changes_keep_their_kind(status: DeltaKind)
    ensures
        change_of_delta(status) == FileChange::Added <==> status == DeltaKind::Added,
        change_of_delta(status) == FileChange::Deleted <==> status == DeltaKind::Deleted,
        change_of_delta(status) == FileChange::Renamed <==> status == DeltaKind::Renamed,
        change_of_delta(status) == FileChange::Copied <==> status == DeltaKind::Copied,
        change_of_delta(status) == FileChange::Conflicted <==> status == DeltaKind::Conflicted,
        change_of_delta(status) == FileChange::Untracked <==> status == DeltaKind::Untracked
            || status == DeltaKind::Ignored,
        change_of_delta(status) == FileChange::Modified <==> status == DeltaKind::Modified || status
            == DeltaKind::Unmodified || status == DeltaKind::Typechange || status
            == DeltaKind::Unreadable,
{
}

/// Paths are written with slashes: each backslash becomes one, and nothing else changes.
pub proof fn law_only_backslashes_become_slashes(path: Seq<char>, i: int)
    requires
        0 <= i < path.len(),
    ensures
        slashed(path).len() == path.len(),
        slashed(path)[i] != '\\',
        path[i] == '\\' ==> slashed(path)[i] == '/',
        path[i] != '\\' ==> slashed(path)[i] == path[i],
{
}

/// A record is that of an entry of a diff: it has its kind and its path, which is the
/// former one where the file was deleted, and names the former path exactly where the
/// file moved.
pub open spec fn tells_of(r: FileChangeRecordView, d: DeltaReadingView) -> bool {
    &&& r.change_type == change_of_delta(d.status)
    &&& d.status == DeltaKind::Deleted && d.old_path is Some ==> r.path == slashed(d.old_path->0)
    &&& !(d.status == DeltaKind::Deleted && d.old_path is Some) ==> (d.new_path matches Some(p)
        && r.path == slashed(p))
    &&& d.status == DeltaKind::Renamed || d.status == DeltaKind::Copied ==> (d.old_path matches Some(
        p,
    ) && r.old_path == Some(slashed(p)) && slashed(p) != r.path)
    &&& d.status != DeltaKind::Renamed && d.status != DeltaKind::Copied ==> r.old_path is None
}

/// An entry that has a path has a coherent record, or is refused.
proof fn lemma_tells_of(
    repository_id: Seq<char>,
    d: DeltaReadingView,
    fingerprint: Seq<char>,
    lines: Option<(u32, u32)>,
    anchor: Seq<char>,
    at: Timestamp,
)
    requires
        delta_path(d).len() > 0,
        delta_refusal(d) is None,
    ensures
        tells_of(record_of_delta(repository_id, d, fingerprint, lines, anchor, at), d),
{
}

/// The records of a working tree tell of the entries of a diff that have a path, each of
/// one, with its content, and measured from the commit that was given; none is missing.
pub proof fn law_worktree_records_tell_of_the_entries(
    repository_id: Seq<char>,
    deltas: Seq<DeltaReadingView>,
    anchor: Seq<char>,
    at: Timestamp,
    records: Seq<FileChangeRecordView>,
)
    requires
        worktree_records(repository_id, deltas, anchor, at) == Ok::<_, RepositoryErrorView>(
            records,
        ),
    ensures
        forall|k: int| #![trigger records[k]]
            0 <= k < records.len() ==> {
                &&& records[k].repository_id == repository_id && records[k].commit_sha == anchor
                &&& records[k].observed_at == at
                &&& records[k].insertions is None && records[k].deletions is None
                &&& exists|i: int|
                    0 <= i < deltas.len() && tells_of(records[k], #[trigger] deltas[i])
                        && records[k].fingerprint == worktree_fingerprint(deltas[i])
            },
        forall|i: int|
            0 <= i < deltas.len() && #[trigger] delta_path(deltas[i]).len() > 0 ==> exists|k: int|
                0 <= k < records.len() && tells_of(#[trigger] records[k], deltas[i])
                    && records[k].fingerprint == worktree_fingerprint(deltas[i]),
        records.len() <= deltas.len(),
    decreases deltas.len(),
{
    if deltas.len() > 0 {
        let rest = deltas.drop_last();
        let d = deltas.last();
        let n = deltas.len() - 1;
        let front = worktree_records(repository_id, rest, anchor, at)->Ok_0;
        law_worktree_records_tell_of_the_entries(repository_id, rest, anchor, at, front);
        if delta_path(d).len() > 0 {
            lemma_tells_of(repository_id, d, worktree_fingerprint(d), None, anchor, at);
            assert(records.drop_last() =~= front);
            assert(deltas[n] == d);
            assert(tells_of(records[front.len() as int], deltas[n]));
        }
        assert forall|k: int| #![trigger records[k]] 0 <= k < records.len() implies {
            &&& records[k].repository_id == repository_id && records[k].commit_sha == anchor
            &&& records[k].observed_at == at
            &&& records[k].insertions is None && records[k].deletions is None
            &&& exists|i: int|
                0 <= i < deltas.len() && tells_of(records[k], #[trigger] deltas[i])
                    && records[k].fingerprint == worktree_fingerprint(deltas[i])
        } by {
            if k < front.len() {
                assert(records[k] == front[k]);
                let i = choose|i: int|
                    0 <= i < rest.len() && tells_of(front[k], #[trigger] rest[i])
                        && front[k].fingerprint == worktree_fingerprint(rest[i]);
                assert(tells_of(records[k], deltas[i]));
            }
        }
        assert forall|i: int|
            0 <= i < deltas.len() && #[trigger] delta_path(deltas[i]).len() > 0 implies exists|
            k: int,
        |
            0 <= k < records.len() && tells_of(#[trigger] records[k], deltas[i])
                && records[k].fingerprint == worktree_fingerprint(deltas[i]) by {
            if i < n {
                assert(rest[i] == deltas[i]);
                let k = choose|k: int|
                    0 <= k < front.len() && tells_of(#[trigger] front[k], rest[i])
                        && front[k].fingerprint == worktree_fingerprint(rest[i]);
                assert(records[k] == front[k]);
            }
        }
    }
}

/// A record is that of an entry of a commit's diff, with its content and with the lines
/// of that entry alone.
pub open spec fn counts_of(r: FileChangeRecordView, d: DeltaReadingView) -> bool {
    &&& tells_of(r, d)
    &&& r.fingerprint == commit_fingerprint(d)
    &&& r.insertions == Some(d.insertions) && r.deletions == Some(d.deletions)
}

/// A record is that of one of the first `n` entries of a commit's diff.
pub open spec fn comes_from(r: FileChangeRecordView, deltas: Seq<DeltaReadingView>, n: int) -> bool {
    exists|i: int| 0 <= i < n && #[trigger] counts_of(r, deltas[i])
}

/// The file changes of a commit tell of the entries of its diff that have a path, each of
/// one; none is missing.
pub proof fn law_commit_records_tell_of_the_entries(
    repository_id: Seq<char>,
    deltas: Seq<DeltaReadingView>,
    n: int,
    sha: Seq<char>,
    at: Timestamp,
    records: Seq<FileChangeRecordView>,
)
    requires
        0 <= n <= deltas.len(),
        commit_records(repository_id, deltas, n, sha, at) == Ok::<_, RepositoryErrorView>(records),
    ensures
        forall|k: int|
            0 <= k < records.len() ==> (#[trigger] records[k]).repository_id == repository_id
                && records[k].commit_sha == sha && records[k].observed_at == at,
        forall|k: int|
            0 <= k < records.len() ==> comes_from(#[trigger] records[k], deltas, n),
        forall|i: int|
            0 <= i < n && #[trigger] delta_path(deltas[i]).len() > 0 ==> exists|k: int|
                0 <= k < records.len() && #[trigger] counts_of(records[k], deltas[i]),
        records.len() <= n,
    decreases n,
{
    if n > 0 {
        let d = deltas[n - 1];
        let front = commit_records(repository_id, deltas, n - 1, sha, at)->Ok_0;
        let m = front.len() as int;
        law_commit_records_tell_of_the_entries(repository_id, deltas, n - 1, sha, at, front);
        if delta_path(d).len() > 0 {
            let lines = Some((d.insertions, d.deletions));
            lemma_tells_of(repository_id, d, commit_fingerprint(d), lines, sha, at);
            assert(records == front.push(
                record_of_delta(repository_id, d, commit_fingerprint(d), lines, sha, at),
            ));
            assert(counts_of(records[m], deltas[n - 1]));
        } else {
            assert(records == front);
        }
        assert forall|k: int| 0 <= k < records.len() implies comes_from(
            #[trigger] records[k],
            deltas,
            n,
        ) by {
            if k < m {
                assert(records[k] == front[k]);
                assert(comes_from(front[k], deltas, n - 1));
                let i = choose|i: int|
                    0 <= i < n - 1 && #[trigger] counts_of(front[k], deltas[i]);
                assert(counts_of(records[k], deltas[i]));
            } else {
                assert(counts_of(records[k], deltas[n - 1]));
            }
        }
        assert forall|i: int|
            0 <= i < n && #[trigger] delta_path(deltas[i]).len() > 0 implies exists|k: int|
            0 <= k < records.len() && #[trigger] counts_of(records[k], deltas[i]) by {
            if i < n - 1 {
                let k = choose|k: int|
                    0 <= k < front.len() && #[trigger] counts_of(front[k], deltas[i]);
                assert(records[k] == front[k]);
                assert(counts_of(records[k], deltas[i]));
            } else {
                assert(counts_of(records[m], deltas[n - 1]));
            }
        }
    }
}

/// A diff is refused exactly where some entry that has a path tells of a move without a
/// former path that differs.
pub proof fn law_only_a_move_from_nowhere_is_refused(
    repository_id: Seq<char>,
    deltas: Seq<DeltaReadingView>,
    anchor: Seq<char>,
    at: Timestamp,
)
    ensures
        worktree_records(repository_id, deltas, anchor, at) is Err <==> exists|i: int|
            0 <= i < deltas.len() && moves_from_nowhere(#[trigger] deltas[i]),
    decreases deltas.len(),
{
    if deltas.len() > 0 {
        let rest = deltas.drop_last();
        let n = deltas.len() - 1;
        law_only_a_move_from_nowhere_is_refused(repository_id, rest, anchor, at);
        if worktree_records(repository_id, rest, anchor, at) is Err {
            let i = choose|i: int| 0 <= i < rest.len() && moves_from_nowhere(#[trigger] rest[i]);
            assert(deltas[i] == rest[i]);
        } else if moves_from_nowhere(deltas[n]) {
            assert(worktree_records(repository_id, deltas, anchor, at) is Err);
        } else if exists|i: int| 0 <= i < deltas.len() && moves_from_nowhere(#[trigger] deltas[i]) {
            let i = choose|i: int|
                0 <= i < deltas.len() && moves_from_nowhere(#[trigger] deltas[i]);
            assert(rest[i] == deltas[i]);
        }
    }
}

/// The entry has a path and tells of a move, but of no former path that differs.
pub open spec fn moves_from_nowhere(d: DeltaReadingView) -> bool {
    &&& d.new_path matches Some(p) && p.len() > 0
    &&& d.status == DeltaKind::Renamed || d.status == DeltaKind::Copied
    &&& d.old_path is None || slashed(d.old_path->0) == slashed(d.new_path->0)
}

/// A working tree holds the changes that are staged and those that are not, each of them
/// and nothing else.
pub proof fn law_a_tree_holds_staged_and_unstaged_changes(
    repository_id: Seq<char>,
    staged: Seq<DeltaReadingView>,
    unstaged: Seq<DeltaReadingView>,
    anchor: Seq<char>,
    at: Timestamp,
    r: FileChangeRecordView,
)
    requires
        worktree_of(repository_id, staged, unstaged, anchor, at) is Ok,
    ensures
        worktree_records(repository_id, staged, anchor, at) is Ok,
        worktree_records(repository_id, unstaged, anchor, at) is Ok,
        worktree_of(repository_id, staged, unstaged, anchor, at)->Ok_0.listed().contains(r) <==> {
            ||| worktree_records(repository_id, staged, anchor, at)->Ok_0.contains(r)
            ||| worktree_records(repository_id, unstaged, anchor, at)->Ok_0.contains(r)
        },
{
    let first = worktree_records(repository_id, staged, anchor, at)->Ok_0;
    let second = worktree_records(repository_id, unstaged, anchor, at)->Ok_0;
    let both = first + second;
    law_parting_loses_nothing(both);
    if both.contains(r) {
        let k = choose|k: int| 0 <= k < both.len() && both[k] == r;
        if k < first.len() {
            assert(first[k] == r);
        } else {
            assert(second[k - first.len()] == r);
        }
    }
    if first.contains(r) {
        let k = choose|k: int| 0 <= k < first.len() && first[k] == r;
        assert(both[k] == r);
    }
    if second.contains(r) {
        let k = choose|k: int| 0 <= k < second.len() && second[k] == r;
        assert(both[first.len() + k] == r);
    }
}

/// The digits of a number are no colons.
proof fn lemma_decimal_has_no_colon(n: nat)
    ensures
        !decimal(n).contains(':'),
    decreases n,
{
    if n < 10 {
        assert forall|i: int| 0 <= i < decimal(n).len() implies decimal(n)[i] != ':' by {}
    } else {
        lemma_decimal_has_no_colon(n / 10);
        assert forall|i: int| 0 <= i < decimal(n).len() implies decimal(n)[i] != ':' by {
            if i < decimal(n / 10).len() {
                assert(decimal(n / 10)[i] != ':') by {
                    if decimal(n / 10)[i] == ':' {
                        assert(decimal(n / 10).contains(':'));
                    }
                }
            }
        }
    }
}

/// What stands before the first colon is determined by the whole text.
proof fn lemma_before_the_colon(a: Seq<char>, x: Seq<char>, b: Seq<char>, y: Seq<char>)
    requires
        !a.contains(':'),
        !b.contains(':'),
        a.push(':') + x == b.push(':') + y,
    ensures
        a == b,
        x == y,
{
    let s = a.push(':') + x;
    let t = b.push(':') + y;
    if a.len() < b.len() {
        assert(s[a.len() as int] == ':');
        assert(t[a.len() as int] == b[a.len() as int]);
        assert(b.contains(':'));
    } else if b.len() < a.len() {
        assert(t[b.len() as int] == ':');
        assert(s[b.len() as int] == a[b.len() as int]);
        assert(a.contains(':'));
    }
    assert(a =~= s.take(a.len() as int));
    assert(b =~= t.take(b.len() as int));
    assert(x =~= s.skip(a.len() as int + 1));
    assert(y =~= t.skip(b.len() as int + 1));
}

/// Contents are told apart: by their object ids where git knows them, and else by the
/// length of the file and the second of its last change. A deletion is always the same.
pub proof fn law_contents_are_told_apart(d: DeltaReadingView, e: DeltaReadingView)
    requires
        d.status != DeltaKind::Deleted,
        e.status != DeltaKind::Deleted,
    ensures
        d.new_id is Some && e.new_id is Some ==> (worktree_fingerprint(d) == worktree_fingerprint(e)
            <==> d.new_id == e.new_id),
        d.new_id is Some && e.new_id is Some ==> (commit_fingerprint(d) == commit_fingerprint(e)
            <==> d.new_id == e.new_id),
        d.new_id is None && e.new_id is None && d.stamp is Some && e.stamp is Some ==> (
        worktree_fingerprint(d) == worktree_fingerprint(e) <==> d.stamp->0.len == e.stamp->0.len
            && seconds_of(d.stamp->0) == seconds_of(e.stamp->0)),
        forall|gone: DeltaReadingView|
            gone.status == DeltaKind::Deleted ==> #[trigger] worktree_fingerprint(gone)
                == DELETED_FINGERPRINT@,
{
    if d.new_id is None && e.new_id is None && d.stamp is Some && e.stamp is Some {
        let (a, b) = (decimal(d.stamp->0.len as nat), decimal(e.stamp->0.len as nat));
        let (x, y) = (
            decimal(seconds_of(d.stamp->0) as nat),
            decimal(seconds_of(e.stamp->0) as nat),
        );
        if worktree_fingerprint(d) == worktree_fingerprint(e) {
            reveal_strlit("len:");
            reveal_strlit(":mtime:");
            let tail = ":mtime:"@.skip(1);
            let n = "len:"@.len() as int;
            assert(worktree_fingerprint(d) == "len:"@ + a + ":mtime:"@ + x);
            assert(worktree_fingerprint(e) == "len:"@ + b + ":mtime:"@ + y);
            assert(worktree_fingerprint(d).skip(n) =~= a.push(':') + (tail + x));
            assert(worktree_fingerprint(e).skip(n) =~= b.push(':') + (tail + y));
            lemma_decimal_has_no_colon(d.stamp->0.len as nat);
            lemma_decimal_has_no_colon(e.stamp->0.len as nat);
            lemma_before_the_colon(a, tail + x, b, tail + y);
            assert(x =~= (tail + x).skip(tail.len() as int));
            assert(y =~= (tail + y).skip(tail.len() as int));
            lemma_decimal_value(d.stamp->0.len as nat);
            lemma_decimal_value(e.stamp->0.len as nat);
            lemma_decimal_value(seconds_of(d.stamp->0) as nat);
            lemma_decimal_value(seconds_of(e.stamp->0) as nat);
        }
    }
}

/// The second of a file's last change, or the first where it is not known.
pub open spec fn seconds_of(stamp: FileStampView) -> u64 {
    match stamp.modified_secs {
        Some(secs) => secs,
        None => 0,
    }
}

/// A commit is read part by part; the time that counts is that of the committer.
pub proof fn law_a_commit_is_read_part_by_part(info: CommitInfoView, c: CommitReadingView)
    requires
        commit_reads_as(info, c),
    ensures
        info.sha == c.id,
        info.parents == c.parents,
        c.summary matches Some(text) ==> info.summary == text,
        c.message matches Some(text) ==> info.message == text,
        c.author.name is Some && c.author.email is Some ==> info.author == c.author.name->0 + " <"@
            + c.author.email->0 + ">"@,
        c.committer.name is Some && c.committer.email is Some ==> info.committer
            == c.committer.name->0 + " <"@ + c.committer.email->0 + ">"@,
        c.author.name is Some && c.author.email is None ==> info.author == c.author.name->0,
        c.author.name is None ==> info.author.len() == 0,
        valid_instant(c.committer.seconds as int, 0) ==> info.committed_at@ == (
            c.committer.seconds as int,
            0int,
        ),
{
}

/// Where nothing was observed before, the walk gives the whole window, oldest first, and
/// does not speak of a rewritten history.
pub proof fn law_a_first_walk_is_the_whole_window(
    head: Seq<char>,
    anchor: Option<Seq<char>>,
    window: Seq<CommitInfoView>,
)
    requires
        window.len() <= MAX_WALK,
    ensures
        range_of(None, head, anchor, window) == (RangeWalkView {
            commits: window.reverse(),
            history_rewritten: false,
        }),
        head.len() > 0 ==> range_of(Some(Seq::empty()), head, anchor, window) == (RangeWalkView {
            commits: window.reverse(),
            history_rewritten: false,
        }),
{
    lemma_new_in_window(window, None);
    assert(new_in_window(window, None) == window.len()) by {
        lemma_new_in_window(window, None);
        let n = new_in_window(window, None) as int;
        if n < window.len() {
            assert(Some(window[n].sha) == None::<Seq<char>>);
        }
    }
    assert(window.take(window.len() as int) =~= window);
    if head.len() > 0 {
        assert(Seq::<char>::empty() != head);
    }
}

/// Every commit that a walk gives stands in the window in front of the anchor, and each
/// comes after those that are older.
pub proof fn law_a_walk_gives_what_is_in_front_of_the_anchor(
    previous: Option<Seq<char>>,
    head: Seq<char>,
    anchor: Option<Seq<char>>,
    window: Seq<CommitInfoView>,
    k: int,
)
    requires
        0 <= k < range_of(previous, head, anchor, window).commits.len(),
    ensures
        ({
            let commits = range_of(previous, head, anchor, window).commits;
            let i = commits.len() - 1 - k;
            &&& i < window.len() && commits[k] == window[i]
            &&& (previous is Some && previous->0.len() > 0) ==> forall|j: int|
                0 <= j <= i ==> Some((#[trigger] window[j]).sha) != anchor
        }),
{
    let seen = walk_window(window);
    let known = text_or_empty(previous).len() > 0;
    let stop = if known {
        anchor
    } else {
        None
    };
    lemma_new_in_window(seen, stop);
    let n = new_in_window(seen, stop) as int;
    let commits = range_of(previous, head, anchor, window).commits;
    let i = commits.len() - 1 - k;
    assert(commits[k] == seen.take(n)[i]);
    assert(seen[i] == window[i]);
    if known {
        assert forall|j: int| 0 <= j <= i implies Some((#[trigger] window[j]).sha) != anchor by {
            assert(seen[j] == window[j]);
        }
    }
}

/// A full object id is taken as it is, its digits in small letters; whatever is shorter or
/// no object id is what git resolved it to, if anything.
pub proof fn law_a_full_object_id_needs_no_resolving(
    sha: Seq<char>,
    found: Option<Seq<char>>,
    i: int,
)
    requires
        0 <= i < OID_DIGITS,
    ensures
        sha.len() != OID_DIGITS ==> resolved_oid(sha, found) == found,
        sha.len() == OID_DIGITS && (forall|j: int|
            0 <= j < sha.len() ==> is_hex_digit(#[trigger] sha[j])) ==> (resolved_oid(
            sha,
            found,
        ) matches Some(oid) && oid.len() == OID_DIGITS && oid[i] == (if 'A' <= sha[i] && sha[i]
            <= 'F' {
            ((sha[i] as int) + 32) as char
        } else {
            sha[i]
        })),
        (exists|j: int| 0 <= j < sha.len() && !is_hex_digit(#[trigger] sha[j])) ==> resolved_oid(
            sha,
            found,
        ) == found,
{
}

/// What is told of a changed file is that of its entry: its kind, its paths with slashes,
/// its own lines, and where it was seen.
pub proof fn law_a_diff_tells_of_its_entry(
    d: DeltaReadingView,
    head: Seq<char>,
    branch: Option<Seq<char>>,
    at: Timestamp,
)
    ensures
        ({
            let diff = diff_of_delta(d, head, branch, at);
            &&& diff.change_type == change_of_delta(d.status)
            &&& d.new_path matches Some(p) ==> diff.new_path == slashed(p)
            &&& diff.insertions == d.insertions && diff.deletions == d.deletions
            &&& diff.commit_sha == head && diff.branch == branch && diff.observed_at == at
            &&& diff.old_path is Some ==> d.old_path is Some && diff.old_path == Some(
                slashed(d.old_path->0),
            ) && (d.status == DeltaKind::Renamed || d.status == DeltaKind::Copied)
            &&& (d.status == DeltaKind::Renamed || d.status == DeltaKind::Copied) && d.old_path
                is Some && d.old_path->0.len() > 0 ==> diff.old_path is Some
        }),
{
}

} // verus!
