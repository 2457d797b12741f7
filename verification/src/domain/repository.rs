//! A git working tree that Director observes, and what can go wrong with it.

use crate::domain::ids::{ProjectId, RepositoryId};
use crate::text::{
    chars_of, debug_form, debug_text, decimal, decimal_text, is_space, joined,
    law_trimming_takes_off_the_blank_ends, trim_chars, trim_end, trim_start, trimmed,
};
use crate::time::{clock_time, Timestamp};
use vstd::prelude::*;
use vstd::string::*;

verus! {

/// How many characters of an object id are shown.
pub const SHORT_SHA_LEN: usize = 7;

/// The state that a repository is in after it was read.
#[derive(Debug, Clone, Copy, PartialEq, Eq, Hash, Structural)]
pub enum RepositoryStatus {
    /// `HEAD` points at a branch.
    OnBranch,
    /// `HEAD` points directly at a commit.
    DetachedHead,
    /// There are no commits.
    Empty,
}

impl DeepView for RepositoryStatus {
    type V = RepositoryStatus;

    open spec fn deep_view(&self) -> RepositoryStatus {
        *self
    }
}

/// What a repository's observation can fail with.
#[derive(Debug, PartialEq, Eq)]
pub enum RepositoryError {
    /// The path is not a git repository.
    NotARepository { path: String },
    /// The path does not exist.
    PathMissing { path: String },
    /// The path is not acceptable.
    UnsafePath { reason: String },
    /// Reading git failed.
    ObservationFailed(String),
    /// A change record contradicts itself.
    MalformedChange { path: String, reason: String },
    /// The repository has no commits, and one is needed.
    Empty,
    /// Another writer was faster.
    ConcurrentModification { stored: u64, observed: u64 },
    /// The store could not be read or written.
    Store(String),
    /// No repository is registered under this id.
    NotRegistered(String),
}

/// What a [`RepositoryError`] holds.
#[verifier::ext_equal]
pub enum RepositoryErrorView {
    NotARepository { path: Seq<char> },
    PathMissing { path: Seq<char> },
    UnsafePath { reason: Seq<char> },
    ObservationFailed(Seq<char>),
    MalformedChange { path: Seq<char>, reason: Seq<char> },
    Empty,
    ConcurrentModification { stored: u64, observed: u64 },
    Store(Seq<char>),
    NotRegistered(Seq<char>),
}

impl View for RepositoryError {
    type V = RepositoryErrorView;

    open spec fn view(&self) -> RepositoryErrorView {
        match self {
            RepositoryError::NotARepository { path } => RepositoryErrorView::NotARepository { path: path.deep_view() },
            RepositoryError::PathMissing { path } => RepositoryErrorView::PathMissing { path: path.deep_view() },
            RepositoryError::UnsafePath { reason } => RepositoryErrorView::UnsafePath { reason: reason.deep_view() },
            RepositoryError::ObservationFailed(x) => RepositoryErrorView::ObservationFailed(x.deep_view()),
            RepositoryError::MalformedChange { path, reason } => RepositoryErrorView::MalformedChange { path: path.deep_view(), reason: reason.deep_view() },
            RepositoryError::Empty => RepositoryErrorView::Empty,
            RepositoryError::ConcurrentModification { stored, observed } => RepositoryErrorView::ConcurrentModification { stored: *stored, observed: *observed },
            RepositoryError::Store(x) => RepositoryErrorView::Store(x.deep_view()),
            RepositoryError::NotRegistered(x) => RepositoryErrorView::NotRegistered(x.deep_view()),
        }
    }
}

impl DeepView for RepositoryError {
    type V = RepositoryErrorView;

    open spec fn deep_view(&self) -> RepositoryErrorView {
        self.view()
    }
}

impl Clone for RepositoryError {
    fn clone(&self) -> (r: Self)
        ensures
            r@ == self@,
    {
        match self {
            RepositoryError::NotARepository { path } => RepositoryError::NotARepository { path: path.clone() },
            RepositoryError::PathMissing { path } => RepositoryError::PathMissing { path: path.clone() },
            RepositoryError::UnsafePath { reason } => RepositoryError::UnsafePath { reason: reason.clone() },
            RepositoryError::ObservationFailed(x) => RepositoryError::ObservationFailed(x.clone()),
            RepositoryError::MalformedChange { path, reason } => RepositoryError::MalformedChange { path: path.clone(), reason: reason.clone() },
            RepositoryError::Empty => RepositoryError::Empty,
            RepositoryError::ConcurrentModification { stored, observed } => RepositoryError::ConcurrentModification { stored: *stored, observed: *observed },
            RepositoryError::Store(x) => RepositoryError::Store(x.clone()),
            RepositoryError::NotRegistered(x) => RepositoryError::NotRegistered(x.clone()),
        }
    }
}

/// An error in words.
pub open spec fn repository_error_text(e: RepositoryErrorView) -> Seq<char> {
    match e {
        RepositoryErrorView::NotARepository { path } => "not a git repository: "@ + path,
        RepositoryErrorView::PathMissing { path } => "path does not exist: "@ + path,
        RepositoryErrorView::UnsafePath { reason } => "unsafe repository path: "@ + reason,
        RepositoryErrorView::ObservationFailed(what) => "git observation failed: "@ + what,
        RepositoryErrorView::MalformedChange { path, reason } => "malformed change for "@ + path
            + ": "@ + reason,
        RepositoryErrorView::Empty => "repository has no commits yet"@,
        RepositoryErrorView::ConcurrentModification { stored, observed } =>
            "concurrent modification: stored version "@ + decimal(stored as nat)
            + " is newer than "@ + decimal(observed as nat),
        RepositoryErrorView::Store(what) => "repository store failed: "@ + what,
        RepositoryErrorView::NotRegistered(what) => "repository not registered: "@ + what,
    }
}

impl RepositoryError {
    /// The error in words.
    pub fn to_string(&self) -> (r: String)
        ensures
            r@ == repository_error_text(self@),
    {
        match self {
            RepositoryError::NotARepository { path } => joined(
                "not a git repository: ",
                path.as_str(),
            ),
            RepositoryError::PathMissing { path } => joined("path does not exist: ", path.as_str()),
            RepositoryError::UnsafePath { reason } => joined(
                "unsafe repository path: ",
                reason.as_str(),
            ),
            RepositoryError::ObservationFailed(what) => joined(
                "git observation failed: ",
                what.as_str(),
            ),
            RepositoryError::MalformedChange { path, reason } => {
                let mut text: String = joined("malformed change for ", path.as_str());
                text.append(": ");
                text.append(reason.as_str());
                text
            },
            RepositoryError::Empty => "repository has no commits yet".to_owned(),
            RepositoryError::ConcurrentModification { stored, observed } => {
                let mut text: String = joined(
                    "concurrent modification: stored version ",
                    decimal_text(*stored).as_str(),
                );
                text.append(" is newer than ");
                text.append(decimal_text(*observed).as_str());
                text
            },
            RepositoryError::Store(what) => joined("repository store failed: ", what.as_str()),
            RepositoryError::NotRegistered(what) => joined(
                "repository not registered: ",
                what.as_str(),
            ),
        }
    }
}

/// A git working tree that Director observes: a record of what was seen, not a
/// handle to git.
#[derive(Debug, PartialEq, Eq)]
pub struct Repository {
    /// The repository's identifier.
    pub id: RepositoryId,
    /// The project it belongs to.
    pub project_id: ProjectId,
    /// The absolute path of the working tree.
    pub local_path: String,
    /// The remote's URL, if there is one.
    pub remote_url: Option<String>,
    /// The branch that the repository treats as its trunk, if known.
    pub default_branch: Option<String>,
    /// The branch that is checked out, or `None` under a detached HEAD.
    pub current_branch: Option<String>,
    /// The commit that `HEAD` pointed at.
    pub current_commit: String,
    /// The state of the repository.
    pub status: RepositoryStatus,
    /// When it was last read.
    pub last_observed_at: Timestamp,
    /// The last commit that was turned into events.
    pub last_observed_commit: Option<String>,
    /// How many times it was observed.
    pub observation_version: u64,
    /// When it was registered.
    pub created_at: Timestamp,
    /// When the record last changed.
    pub updated_at: Timestamp,
}

/// What a [`Repository`] holds.
#[verifier::ext_equal]
pub struct RepositoryView {
    pub id: Seq<char>,
    pub project_id: Seq<char>,
    pub local_path: Seq<char>,
    pub remote_url: Option<Seq<char>>,
    pub default_branch: Option<Seq<char>>,
    pub current_branch: Option<Seq<char>>,
    pub current_commit: Seq<char>,
    pub status: RepositoryStatus,
    pub last_observed_at: Timestamp,
    pub last_observed_commit: Option<Seq<char>>,
    pub observation_version: u64,
    pub created_at: Timestamp,
    pub updated_at: Timestamp,
}

impl View for Repository {
    type V = RepositoryView;

    open spec fn view(&self) -> RepositoryView {
        RepositoryView {
            id: self.id.deep_view(),
            project_id: self.project_id.deep_view(),
            local_path: self.local_path.deep_view(),
            remote_url: self.remote_url.deep_view(),
            default_branch: self.default_branch.deep_view(),
            current_branch: self.current_branch.deep_view(),
            current_commit: self.current_commit.deep_view(),
            status: self.status,
            last_observed_at: self.last_observed_at,
            last_observed_commit: self.last_observed_commit.deep_view(),
            observation_version: self.observation_version,
            created_at: self.created_at,
            updated_at: self.updated_at,
        }
    }
}

impl DeepView for Repository {
    type V = RepositoryView;

    open spec fn deep_view(&self) -> RepositoryView {
        self.view()
    }
}

impl Clone for Repository {
    fn clone(&self) -> (r: Self)
        ensures
            r@ == self@,
    {
        let r: Repository = Repository {
            id: self.id.clone(),
            project_id: self.project_id.clone(),
            local_path: self.local_path.clone(),
            remote_url: self.remote_url.clone(),
            default_branch: self.default_branch.clone(),
            current_branch: self.current_branch.clone(),
            current_commit: self.current_commit.clone(),
            status: self.status,
            last_observed_at: self.last_observed_at,
            last_observed_commit: self.last_observed_commit.clone(),
            observation_version: self.observation_version,
            created_at: self.created_at,
            updated_at: self.updated_at,
        };
        r
    }
}

/// `/` and `\` part the components of a path.
pub open spec fn is_separator(c: char) -> bool {
    c == '/' || c == '\\'
}

/// A letter of the English alphabet.
pub open spec fn is_ascii_letter(c: char) -> bool {
    ('a' <= c && c <= 'z') || ('A' <= c && c <= 'Z')
}

/// A path that begins with a separator, or with a drive such as `C:\`.
pub open spec fn is_absolute(path: Seq<char>) -> bool {
    ||| path.len() > 0 && is_separator(path[0])
    ||| path.len() >= 3 && is_ascii_letter(path[0]) && path[1] == ':' && is_separator(path[2])
}

/// A path of separators alone.
pub open spec fn is_bare_root(path: Seq<char>) -> bool {
    forall|i: int| 0 <= i < path.len() ==> is_separator(#[trigger] path[i])
}

/// The component of `path` that starts at `i` is `..`.
pub open spec fn parent_component_at(path: Seq<char>, i: int) -> bool {
    &&& 0 <= i && i + 2 <= path.len()
    &&& path[i] == '.' && path[i + 1] == '.'
    &&& i == 0 || is_separator(path[i - 1])
    &&& i + 2 == path.len() || is_separator(path[i + 2])
}

/// Some component of `path` is `..`.
pub open spec fn has_parent_component(path: Seq<char>) -> bool {
    exists|i: int| parent_component_at(path, i)
}

/// Why a repository path is refused, if it is.
pub open spec fn path_refusal(path: Seq<char>) -> Option<Seq<char>> {
    if path.len() == 0 {
        Some("path is empty"@)
    } else if trimmed(path) != path {
        Some("path has surrounding whitespace"@)
    } else if !is_absolute(path) {
        Some("repository path must be absolute, got "@ + debug_form(path))
    } else if is_bare_root(path) {
        Some("repository path must not be the filesystem root"@)
    } else if has_parent_component(path) {
        Some("repository path must not contain a `..` component"@)
    } else {
        None
    }
}

/// What an abbreviated object id is: its first seven bytes, or the whole of it
/// when it is shorter or they would end inside a character.
pub open spec fn abbreviated(bytes: Seq<u8>) -> Seq<u8> {
    if bytes.len() >= SHORT_SHA_LEN && vstd::utf8::is_char_boundary(bytes, SHORT_SHA_LEN as int) {
        bytes.take(SHORT_SHA_LEN as int)
    } else {
        bytes
    }
}

/// An object id abbreviated for display.
pub fn abbreviate(sha: &str) -> (r: &str)
    ensures
        r.spec_bytes() == abbreviated(sha.spec_bytes()),
{
    proof {
        vstd::utf8::encode_utf8_valid_utf8(sha@);
    }
    if sha.is_char_boundary(SHORT_SHA_LEN) {
        let parts = sha.split_at(SHORT_SHA_LEN);
        assert(sha.spec_bytes().subrange(0, SHORT_SHA_LEN as int) =~= sha.spec_bytes().take(
            SHORT_SHA_LEN as int,
        ));
        parts.0
    } else {
        sha
    }
}

/// Whether `c` parts the components of a path.
fn separator(c: char) -> (r: bool)
    ensures
        r == is_separator(c),
{
    c == '/' || c == '\\'
}

/// Whether a path is absolute.
fn absolute(path: &Vec<char>) -> (r: bool)
    ensures
        r == is_absolute(path@),
{
    if path.len() > 0 && separator(path[0]) {
        return true;
    }
    if path.len() < 3 {
        return false;
    }
    let c: char = path[0];
    let letter: bool = ('a' <= c && c <= 'z') || ('A' <= c && c <= 'Z');
    letter && path[1] == ':' && separator(path[2])
}

/// Whether a path consists of separators alone.
fn bare_root(path: &Vec<char>) -> (r: bool)
    ensures
        r == is_bare_root(path@),
{
    let mut i: usize = 0;
    while i < path.len()
        invariant
            i <= path.len(),
            forall|j: int| 0 <= j < i ==> is_separator(#[trigger] path@[j]),
        decreases path.len() - i,
    {
        if !separator(path[i]) {
            assert(!is_separator(path@[i as int]));
            return false;
        }
        i += 1;
    }
    true
}

/// Whether a component of a path is `..`.
fn parent_component(path: &Vec<char>) -> (r: bool)
    ensures
        r == has_parent_component(path@),
{
    let mut i: usize = 0;
    while i < path.len()
        invariant
            i <= path.len(),
            forall|j: int| 0 <= j < i ==> !parent_component_at(path@, j),
        decreases path.len() - i,
    {
        if path.len() - i >= 2 && path[i] == '.' && path[i + 1] == '.' {
            let starts: bool = i == 0 || separator(path[i - 1]);
            let ends: bool = path.len() - i == 2 || separator(path[i + 2]);
            if starts && ends {
                assert(parent_component_at(path@, i as int));
                return true;
            }
        }
        i += 1;
    }
    false
}

/// The error for a path that is not acceptable.
fn unsafe_path(reason: &str) -> (r: Result<(), RepositoryError>)
    ensures
        r is Err,
        r->Err_0@ == (RepositoryErrorView::UnsafePath { reason: reason@ }),
{
    Err(RepositoryError::UnsafePath { reason: reason.to_owned() })
}

impl Repository {
    /// Registers a repository.
    pub fn new(
        id: RepositoryId,
        project_id: ProjectId,
        local_path: &str,
        remote_url: Option<String>,
        default_branch: Option<String>,
        current_branch: Option<String>,
        current_commit: String,
        status: RepositoryStatus,
        last_observed_commit: Option<String>,
    ) -> (r: Self)
        ensures
            clock_time(r.created_at@),
            r@ == (RepositoryView {
                id: id@,
                project_id: project_id@,
                local_path: local_path@,
                remote_url: remote_url.deep_view(),
                default_branch: default_branch.deep_view(),
                current_branch: current_branch.deep_view(),
                current_commit: current_commit@,
                status,
                last_observed_at: r.created_at,
                last_observed_commit: last_observed_commit.deep_view(),
                observation_version: 1,
                created_at: r.created_at,
                updated_at: r.created_at,
            }),
    {
        let now: Timestamp = Timestamp::now();
        Repository {
            id,
            project_id,
            local_path: local_path.to_owned(),
            remote_url,
            default_branch,
            current_branch,
            current_commit,
            status,
            last_observed_at: now,
            last_observed_commit,
            observation_version: 1,
            created_at: now,
            updated_at: now,
        }
    }

    /// Records a change, stamping `updated_at` with what the clock shows.
    pub fn touch(&mut self)
        ensures
            clock_time(final(self).updated_at@),
            final(self)@ == (RepositoryView { updated_at: final(self).updated_at, ..old(self)@ }),
    {
        self.touch_at(Timestamp::now());
    }

    /// Records a change that was made at `now`.
    pub fn touch_at(&mut self, now: Timestamp)
        ensures
            final(self)@ == (RepositoryView { updated_at: now, ..old(self)@ }),
    {
        self.updated_at = now;
    }

    /// Records that the repository was observed again.
    pub fn mark_observed(
        &mut self,
        current_branch: Option<String>,
        current_commit: String,
        status: RepositoryStatus,
    )
        requires
            old(self).observation_version < u64::MAX,
        ensures
            clock_time(final(self).updated_at@),
            final(self)@ == (RepositoryView {
                current_branch: current_branch.deep_view(),
                current_commit: current_commit@,
                status,
                last_observed_at: final(self).updated_at,
                updated_at: final(self).updated_at,
                observation_version: (old(self).observation_version + 1) as u64,
                ..old(self)@
            }),
    {
        let now: Timestamp = Timestamp::now();
        self.current_branch = current_branch;
        self.current_commit = current_commit;
        self.status = status;
        self.last_observed_at = now;
        self.updated_at = now;
        self.observation_version = self.observation_version + 1;
    }

    /// Records the last commit that was turned into events.
    pub fn set_last_observed_commit(&mut self, sha: String)
        ensures
            clock_time(final(self).updated_at@),
            final(self)@ == (RepositoryView {
                last_observed_commit: Some(sha@),
                updated_at: final(self).updated_at,
                ..old(self)@
            }),
    {
        self.last_observed_commit = Some(sha);
        self.updated_at = Timestamp::now();
    }

    /// Counts one more observation without reading git.
    pub fn bump_observation_version(&mut self)
        requires
            old(self).observation_version < u64::MAX,
        ensures
            clock_time(final(self).updated_at@),
            final(self)@ == (RepositoryView {
                observation_version: (old(self).observation_version + 1) as u64,
                updated_at: final(self).updated_at,
                ..old(self)@
            }),
    {
        self.observation_version = self.observation_version + 1;
        self.updated_at = Timestamp::now();
    }

    /// Refuses a path that is not safe to observe. It must be absolute, must not
    /// be the filesystem root, must have no `..` component, and is taken as it is
    /// given, so that no traversal slips in before it is resolved. The filesystem
    /// root is a path of separators alone; the root of a drive, such as `C:/`, is
    /// an absolute path like any other and is accepted.
    pub fn validate_path(path: &str) -> (r: Result<(), RepositoryError>)
        ensures
            r is Ok <==> path_refusal(path@) is None,
            r is Err ==> r->Err_0@ == (RepositoryErrorView::UnsafePath {
                reason: path_refusal(path@)->0,
            }),
    {
        let chars: Vec<char> = chars_of(path);
        if chars.len() == 0 {
            return unsafe_path("path is empty");
        }
        let inner: Vec<char> = trim_chars(path);
        if inner.len() != chars.len() {
            return unsafe_path("path has surrounding whitespace");
        }
        proof {
            crate::text::lemma_trimmed_of_same_length(path@);
        }
        if !absolute(&chars) {
            return unsafe_path(
                joined(
                    "repository path must be absolute, got ",
                    debug_text(path).as_str(),
                ).as_str(),
            );
        }
        if bare_root(&chars) {
            return unsafe_path("repository path must not be the filesystem root");
        }
        if parent_component(&chars) {
            return unsafe_path("repository path must not contain a `..` component");
        }
        Ok(())
    }

    /// The head commit abbreviated for display.
    pub fn short_commit(&self) -> (r: &str)
        ensures
            r.spec_bytes() == abbreviated(vstd::utf8::encode_utf8(self@.current_commit)),
    {
        abbreviate(self.current_commit.as_str())
    }
}

/// A path that is accepted is absolute and never leads out of itself.
pub proof fn law_accepted_path_is_absolute_and_closed(path: Seq<char>)
    requires
        path_refusal(path) is None,
    ensures
        is_absolute(path),
        !has_parent_component(path),
        !is_bare_root(path),
        trimmed(path) == path,
{
}

/// What a synchronization concluded.
#[derive(Debug, Clone, Copy, PartialEq, Eq, Hash, Structural)]
pub enum SyncStatus {
    /// Something changed, or a new fact was recorded.
    Synced,
    /// Nothing had changed, and nothing was recorded.
    NoChange,
    /// A baseline was established, and no change was found.
    Baseline,
}

impl DeepView for SyncStatus {
    type V = SyncStatus;

    open spec fn deep_view(&self) -> SyncStatus {
        *self
    }
}

/// The outcome of a synchronization.
#[derive(Debug, PartialEq, Eq)]
pub struct SyncResult {
    /// What it concluded.
    pub status: SyncStatus,
    /// The branch changed.
    pub branch_changed: bool,
    /// `HEAD` moved to another commit.
    pub commit_changed: bool,
    /// The working tree changed.
    pub working_tree_changed: bool,
    /// How many events were new.
    pub events_created: usize,
    /// The commit it started from, if the repository was seen before.
    pub previous_commit: Option<String>,
    /// The commit it landed on.
    pub current_commit: String,
    /// The state version after it.
    pub state_version: u64,
}

/// What a [`SyncResult`] holds.
#[verifier::ext_equal]
pub struct SyncResultView {
    pub status: SyncStatus,
    pub branch_changed: bool,
    pub commit_changed: bool,
    pub working_tree_changed: bool,
    pub events_created: usize,
    pub previous_commit: Option<Seq<char>>,
    pub current_commit: Seq<char>,
    pub state_version: u64,
}

impl View for SyncResult {
    type V = SyncResultView;

    open spec fn view(&self) -> SyncResultView {
        SyncResultView {
            status: self.status,
            branch_changed: self.branch_changed,
            commit_changed: self.commit_changed,
            working_tree_changed: self.working_tree_changed,
            events_created: self.events_created,
            previous_commit: self.previous_commit.deep_view(),
            current_commit: self.current_commit.deep_view(),
            state_version: self.state_version,
        }
    }
}

impl DeepView for SyncResult {
    type V = SyncResultView;

    open spec fn deep_view(&self) -> SyncResultView {
        self.view()
    }
}

impl Clone for SyncResult {
    fn clone(&self) -> (r: Self)
        ensures
            r@ == self@,
    {
        let r: SyncResult = SyncResult {
            status: self.status,
            branch_changed: self.branch_changed,
            commit_changed: self.commit_changed,
            working_tree_changed: self.working_tree_changed,
            events_created: self.events_created,
            previous_commit: self.previous_commit.clone(),
            current_commit: self.current_commit.clone(),
            state_version: self.state_version,
        };
        r
    }
}

/// Nothing is trimmed off a path that begins and ends with no whitespace.
proof fn lemma_nothing_to_trim(path: Seq<char>)
    requires
        path.len() > 0,
    ensures
        trimmed(path) == path <==> !is_space(path[0]) && !is_space(path.last()),
{
    law_trimming_takes_off_the_blank_ends(path);
    if !is_space(path[0]) && !is_space(path.last()) {
        assert(trim_start(path) == path);
        assert(trim_end(path) == path);
    }
}

/// At `i` there are two dots that a separator, or an end of the path, parts from the
/// rest on either side.
pub open spec fn dots_at(path: Seq<char>, i: int) -> bool {
    &&& 0 <= i && i + 2 <= path.len() && path[i] == '.' && path[i + 1] == '.'
    &&& i == 0 || path[i - 1] == '/' || path[i - 1] == '\\'
    &&& i + 2 == path.len() || path[i + 2] == '/' || path[i + 2] == '\\'
}

/// A path is accepted exactly where it begins and ends with no whitespace, begins with a
/// separator or with a drive and a separator, is more than separators, and none of what
/// its separators part is two dots.
pub proof fn law_a_path_is_accepted_by_its_shape(path: Seq<char>)
    ensures
        path_refusal(path) is None <==> {
            &&& path.len() > 0 && !is_space(path[0]) && !is_space(path.last())
            &&& path[0] == '/' || path[0] == '\\' || (path.len() >= 3 && (('a' <= path[0] && path[0]
                <= 'z') || ('A' <= path[0] && path[0] <= 'Z')) && path[1] == ':' && (path[2] == '/'
                || path[2] == '\\'))
            &&& exists|i: int|
                0 <= i < path.len() && #[trigger] path[i] != '/' && path[i] != '\\'
            &&& forall|i: int| !dots_at(path, i)
        },
{
    assert(has_parent_component(path) <==> exists|i: int| dots_at(path, i)) by {
        if has_parent_component(path) {
            let i = choose|i: int| parent_component_at(path, i);
            assert(dots_at(path, i));
        }
        if exists|i: int| dots_at(path, i) {
            let i = choose|i: int| dots_at(path, i);
            assert(parent_component_at(path, i));
        }
    }
    assert(is_bare_root(path) <==> !exists|i: int|
        0 <= i < path.len() && #[trigger] path[i] != '/' && path[i] != '\\');
    if path.len() > 0 {
        lemma_nothing_to_trim(path);
    }
}

/// An abbreviation is the start of what it stands for, and never longer than the usual
/// length unless it is all of it.
pub proof fn law_an_abbreviation_is_a_start(bytes: Seq<u8>)
    ensures
        abbreviated(bytes).len() <= bytes.len(),
        abbreviated(bytes) == bytes.take(abbreviated(bytes).len() as int),
        abbreviated(bytes) == bytes || abbreviated(bytes).len() == SHORT_SHA_LEN,
        bytes.len() < SHORT_SHA_LEN ==> abbreviated(bytes) == bytes,
{
    assert(bytes.take(bytes.len() as int) =~= bytes);
}

/// What an error says ends with what it is about: the path, the reason or the name that it
/// was given.
pub proof fn law_an_error_names_what_it_is_about(what: Seq<char>)
    ensures
        repository_error_text(RepositoryErrorView::NotARepository { path: what }) == (
        "not a git repository: "@ + what),
        repository_error_text(RepositoryErrorView::PathMissing { path: what }) == (
        "path does not exist: "@ + what),
        repository_error_text(RepositoryErrorView::UnsafePath { reason: what }) == (
        "unsafe repository path: "@ + what),
        repository_error_text(RepositoryErrorView::ObservationFailed(what)) == (
        "git observation failed: "@ + what),
        repository_error_text(RepositoryErrorView::Store(what)) == ("repository store failed: "@
            + what),
        repository_error_text(RepositoryErrorView::NotRegistered(what)) == (
        "repository not registered: "@ + what),
{
}

} // verus!
