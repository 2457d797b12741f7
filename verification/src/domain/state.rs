//! Observed state of a project on disk and in git.
//!
//! Everything here is observed, never remembered: comparing what a checkpoint
//! recorded with a fresh observation is what tells whether the checkpoint is
//! stale.

use crate::domain::ids::{CheckpointId, MachineId};
use crate::time::Timestamp;
use vstd::prelude::*;
use vstd::string::*;

verus! {

/// A commit as git reports it. A commit message is evidence, not verified truth.
#[derive(Debug, PartialEq, Eq)]
pub struct CommitInfo {
    /// The full object id.
    pub sha: String,
    /// The first line of the message.
    pub summary: String,
    /// The author.
    pub author: String,
    /// When the commit was made.
    pub committed_at: Timestamp,
    /// The parents' object ids: none for a root commit, two for a merge.
    pub parents: Vec<String>,
    /// The committer.
    pub committer: String,
    /// The whole message.
    pub message: String,
}

/// What a [`CommitInfo`] holds.
#[verifier::ext_equal]
pub struct CommitInfoView {
    pub sha: Seq<char>,
    pub summary: Seq<char>,
    pub author: Seq<char>,
    pub committed_at: Timestamp,
    pub parents: Seq<Seq<char>>,
    pub committer: Seq<char>,
    pub message: Seq<char>,
}

impl View for CommitInfo {
    type V = CommitInfoView;

    open spec fn view(&self) -> CommitInfoView {
        CommitInfoView {
            sha: self.sha.deep_view(),
            summary: self.summary.deep_view(),
            author: self.author.deep_view(),
            committed_at: self.committed_at,
            parents: self.parents.deep_view(),
            committer: self.committer.deep_view(),
            message: self.message.deep_view(),
        }
    }
}

impl DeepView for CommitInfo {
    type V = CommitInfoView;

    open spec fn deep_view(&self) -> CommitInfoView {
        self.view()
    }
}

impl Clone for CommitInfo {
    fn clone(&self) -> (r: Self)
        ensures
            r@ == self@,
    {
        let r: CommitInfo = CommitInfo {
            sha: self.sha.clone(),
            summary: self.summary.clone(),
            author: self.author.clone(),
            committed_at: self.committed_at,
            parents: self.parents.clone(),
            committer: self.committer.clone(),
            message: self.message.clone(),
        };
        assert(r.parents.deep_view() =~= self.parents.deep_view());
        r
    }
}

/// The kind of change that git reports for one path.
#[derive(Debug, Clone, Copy, PartialEq, Eq, Hash, Structural)]
pub enum FileChange {
    /// A new file.
    Added,
    /// A changed file.
    Modified,
    /// A removed file.
    Deleted,
    /// A file at a new path.
    Renamed,
    /// A file copied to a new path.
    Copied,
    /// A file that git does not track.
    Untracked,
    /// A path with unresolved merge markers.
    Conflicted,
}

impl DeepView for FileChange {
    type V = FileChange;

    open spec fn deep_view(&self) -> FileChange {
        *self
    }
}

impl FileChange {
    /// Renames and copies come from another path.
    pub open spec fn moves(self) -> bool {
        self == FileChange::Renamed || self == FileChange::Copied
    }

    /// Whether a change of this kind carries the path it came from.
    pub fn has_old_path(self) -> (r: bool)
        ensures
            r == self.moves(),
    {
        matches!(self, FileChange::Renamed | FileChange::Copied)
    }

    /// Whether a change of this kind puts a new file into the working tree.
    pub fn is_addition(self) -> (r: bool)
        ensures
            r == (self == FileChange::Added || self == FileChange::Untracked),
    {
        matches!(self, FileChange::Added | FileChange::Untracked)
    }
}

/// One entry of the working-tree status.
#[derive(Debug, PartialEq, Eq)]
pub struct ChangedFile {
    /// The changed path, relative to the repository.
    pub path: String,
    /// What kind of change git reported.
    pub change: FileChange,
}

/// What a [`ChangedFile`] holds.
#[verifier::ext_equal]
pub struct ChangedFileView {
    pub path: Seq<char>,
    pub change: FileChange,
}

impl View for ChangedFile {
    type V = ChangedFileView;

    open spec fn view(&self) -> ChangedFileView {
        ChangedFileView {
            path: self.path.deep_view(),
            change: self.change,
        }
    }
}

impl DeepView for ChangedFile {
    type V = ChangedFileView;

    open spec fn deep_view(&self) -> ChangedFileView {
        self.view()
    }
}

impl Clone for ChangedFile {
    fn clone(&self) -> (r: Self)
        ensures
            r@ == self@,
    {
        let r: ChangedFile = ChangedFile {
            path: self.path.clone(),
            change: self.change,
        };
        r
    }
}

/// The outcome of a test run that Director observed itself.
#[derive(Debug, PartialEq, Eq)]
pub struct TestResults {
    /// Tests that succeeded.
    pub passed: u32,
    /// Tests that did not.
    pub failed: u32,
    /// Tests that were not run.
    pub skipped: u32,
    /// The names of failing tests, up to a bounded number.
    pub failures: Vec<String>,
    /// When the suite ran.
    pub run_at: Timestamp,
}

/// What a [`TestResults`] holds.
#[verifier::ext_equal]
pub struct TestResultsView {
    pub passed: u32,
    pub failed: u32,
    pub skipped: u32,
    pub failures: Seq<Seq<char>>,
    pub run_at: Timestamp,
}

impl View for TestResults {
    type V = TestResultsView;

    open spec fn view(&self) -> TestResultsView {
        TestResultsView {
            passed: self.passed,
            failed: self.failed,
            skipped: self.skipped,
            failures: self.failures.deep_view(),
            run_at: self.run_at,
        }
    }
}

impl DeepView for TestResults {
    type V = TestResultsView;

    open spec fn deep_view(&self) -> TestResultsView {
        self.view()
    }
}

impl Clone for TestResults {
    fn clone(&self) -> (r: Self)
        ensures
            r@ == self@,
    {
        let r: TestResults = TestResults {
            passed: self.passed,
            failed: self.failed,
            skipped: self.skipped,
            failures: self.failures.clone(),
            run_at: self.run_at,
        };
        assert(r.failures.deep_view() =~= self.failures.deep_view());
        r
    }
}

/// The observed state of a project at one moment.
#[derive(Debug, PartialEq, Eq)]
pub struct ProjectState {
    /// The branch that is checked out, or `None` under a detached HEAD.
    pub branch: Option<String>,
    /// The commit that `HEAD` points at.
    pub head_commit: String,
    /// The status of the working tree; empty when it is clean.
    pub working_tree: Vec<ChangedFile>,
    /// The most recent commits, newest first.
    pub recent_commits: Vec<CommitInfo>,
    /// The last test results that Director observed, if any.
    pub test_results: Option<TestResults>,
    /// The machine on which the observation was made.
    pub observed_on: MachineId,
    /// When it was made.
    pub observed_at: Timestamp,
}

/// What a [`ProjectState`] holds.
#[verifier::ext_equal]
pub struct ProjectStateView {
    pub branch: Option<Seq<char>>,
    pub head_commit: Seq<char>,
    pub working_tree: Seq<ChangedFileView>,
    pub recent_commits: Seq<CommitInfoView>,
    pub test_results: Option<TestResultsView>,
    pub observed_on: Seq<char>,
    pub observed_at: Timestamp,
}

impl View for ProjectState {
    type V = ProjectStateView;

    open spec fn view(&self) -> ProjectStateView {
        ProjectStateView {
            branch: self.branch.deep_view(),
            head_commit: self.head_commit.deep_view(),
            working_tree: self.working_tree.deep_view(),
            recent_commits: self.recent_commits.deep_view(),
            test_results: self.test_results.deep_view(),
            observed_on: self.observed_on.deep_view(),
            observed_at: self.observed_at,
        }
    }
}

impl DeepView for ProjectState {
    type V = ProjectStateView;

    open spec fn deep_view(&self) -> ProjectStateView {
        self.view()
    }
}

impl Clone for ProjectState {
    fn clone(&self) -> (r: Self)
        ensures
            r@ == self@,
    {
        let r: ProjectState = ProjectState {
            branch: self.branch.clone(),
            head_commit: self.head_commit.clone(),
            working_tree: self.working_tree.clone(),
            recent_commits: self.recent_commits.clone(),
            test_results: self.test_results.clone(),
            observed_on: self.observed_on.clone(),
            observed_at: self.observed_at,
        };
        assert(r.working_tree.deep_view() =~= self.working_tree.deep_view());
        assert(r.recent_commits.deep_view() =~= self.recent_commits.deep_view());
        r
    }
}

impl ProjectState {
    /// Whether the working tree has uncommitted changes.
    pub fn is_dirty(&self) -> (r: bool)
        ensures
            r == (self@.working_tree.len() > 0),
    {
        self.working_tree.len() > 0
    }

    /// The paths that changed in the working tree.
    pub fn changed_paths(&self) -> (r: Vec<&str>)
        ensures
            r.deep_view() == self@.working_tree.map_values(|c: ChangedFileView| c.path),
    {
        let mut r: Vec<&str> = Vec::new();
        let mut i: usize = 0;
        while i < self.working_tree.len()
            invariant
                i <= self.working_tree.len(),
                r@.len() == i,
                forall|j: int| 0 <= j < i ==> (#[trigger] r@[j])@ == self.working_tree@[j].path@,
            decreases self.working_tree.len() - i,
        {
            r.push(self.working_tree[i].path.as_str());
            i += 1;
        }
        assert(r.deep_view() =~= self@.working_tree.map_values(|c: ChangedFileView| c.path));
        r
    }
}

/// How a stored checkpoint compares with freshly observed state.
#[derive(Debug, Clone, Copy, PartialEq, Eq, Hash, Structural)]
pub enum StateComparison {
    /// The same commit and a clean tree: the checkpoint is still accurate.
    Unchanged,
    /// The same commit, but the working tree changed.
    WorkingTreeChanged,
    /// `HEAD` advanced. Resuming must reconcile.
    HeadAdvanced,
    /// The branch changed.
    BranchChanged,
    /// The recorded commit is gone from history.
    CommitGone,
}

impl DeepView for StateComparison {
    type V = StateComparison;

    open spec fn deep_view(&self) -> StateComparison {
        *self
    }
}

impl StateComparison {
    /// Whether the checkpoint can be trusted as a picture of what is true now.
    pub fn checkpoint_is_current(self) -> (r: bool)
        ensures
            r == (self == StateComparison::Unchanged),
    {
        matches!(self, StateComparison::Unchanged)
    }

    /// Whether task state must be derived again before resuming.
    pub fn requires_reconciliation(self) -> (r: bool)
        ensures
            r == (self != StateComparison::Unchanged),
    {
        !self.checkpoint_is_current()
    }
}

/// An observation, with the checkpoint that was current when it was made.
#[derive(Debug, PartialEq, Eq)]
pub struct ProjectStateRef {
    /// The checkpoint that was current.
    pub checkpoint_id: CheckpointId,
    /// The observed state.
    pub state: ProjectState,
}

/// What a [`ProjectStateRef`] holds.
#[verifier::ext_equal]
pub struct ProjectStateRefView {
    pub checkpoint_id: Seq<char>,
    pub state: ProjectStateView,
}

impl View for ProjectStateRef {
    type V = ProjectStateRefView;

    open spec fn view(&self) -> ProjectStateRefView {
        ProjectStateRefView {
            checkpoint_id: self.checkpoint_id.deep_view(),
            state: self.state.deep_view(),
        }
    }
}

impl DeepView for ProjectStateRef {
    type V = ProjectStateRefView;

    open spec fn deep_view(&self) -> ProjectStateRefView {
        self.view()
    }
}

impl Clone for ProjectStateRef {
    fn clone(&self) -> (r: Self)
        ensures
            r@ == self@,
    {
        let r: ProjectStateRef = ProjectStateRef {
            checkpoint_id: self.checkpoint_id.clone(),
            state: self.state.clone(),
        };
        r
    }
}

} // verus!
