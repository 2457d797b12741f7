//! A photograph of a repository's state, comparable with another.

use crate::domain::ids::{ProjectId, RepositoryId};
use crate::domain::worktree::{
    law_a_tree_has_its_own_changes, same_changes, WorktreeState, WorktreeStateView,
};
use crate::text::{same_optional_text, same_text};
use crate::time::Timestamp;
use vstd::prelude::*;
use vstd::string::*;

verus! {

/// A kind of difference between two snapshots.
#[derive(Debug, Clone, Copy, PartialEq, Eq, Hash, Structural)]
pub enum StateChangeKind {
    /// Another branch is checked out.
    BranchChanged,
    /// `HEAD` is at another commit.
    CommitChanged,
    /// The working tree differs.
    WorktreeChanged,
}

impl DeepView for StateChangeKind {
    type V = StateChangeKind;

    open spec fn deep_view(&self) -> StateChangeKind {
        *self
    }
}

/// A repository's state at one observation.
#[derive(Debug, PartialEq, Eq)]
pub struct ProjectStateSnapshot {
    /// The project.
    pub project_id: ProjectId,
    /// The repository.
    pub repository_id: RepositoryId,
    /// The branch that is checked out, or `None` under a detached HEAD.
    pub branch: Option<String>,
    /// The commit that `HEAD` points at; empty when there are no commits.
    pub head_commit: String,
    /// The working tree.
    pub working_tree: WorktreeState,
    /// Whether the working tree has no uncommitted change.
    pub working_tree_clean: bool,
    /// The commit up to which history was processed.
    pub last_observed_commit: String,
    /// When the observation was made.
    pub observed_at: Timestamp,
    /// Counts the important changes that were recorded.
    pub state_version: u64,
}

/// What a [`ProjectStateSnapshot`] holds.
#[verifier::ext_equal]
pub struct ProjectStateSnapshotView {
    pub project_id: Seq<char>,
    pub repository_id: Seq<char>,
    pub branch: Option<Seq<char>>,
    pub head_commit: Seq<char>,
    pub working_tree: WorktreeStateView,
    pub working_tree_clean: bool,
    pub last_observed_commit: Seq<char>,
    pub observed_at: Timestamp,
    pub state_version: u64,
}

impl View for ProjectStateSnapshot {
    type V = ProjectStateSnapshotView;

    open spec fn view(&self) -> ProjectStateSnapshotView {
        ProjectStateSnapshotView {
            project_id: self.project_id.deep_view(),
            repository_id: self.repository_id.deep_view(),
            branch: self.branch.deep_view(),
            head_commit: self.head_commit.deep_view(),
            working_tree: self.working_tree.deep_view(),
            working_tree_clean: self.working_tree_clean,
            last_observed_commit: self.last_observed_commit.deep_view(),
            observed_at: self.observed_at,
            state_version: self.state_version,
        }
    }
}

impl DeepView for ProjectStateSnapshot {
    type V = ProjectStateSnapshotView;

    open spec fn deep_view(&self) -> ProjectStateSnapshotView {
        self.view()
    }
}

impl Clone for ProjectStateSnapshot {
    fn clone(&self) -> (r: Self)
        ensures
            r@ == self@,
    {
        let r: ProjectStateSnapshot = ProjectStateSnapshot {
            project_id: self.project_id.clone(),
            repository_id: self.repository_id.clone(),
            branch: self.branch.clone(),
            head_commit: self.head_commit.clone(),
            working_tree: self.working_tree.clone(),
            working_tree_clean: self.working_tree_clean,
            last_observed_commit: self.last_observed_commit.clone(),
            observed_at: self.observed_at,
            state_version: self.state_version,
        };
        r
    }
}

/// The first snapshot of a repository.
pub open spec fn first_snapshot(
    project_id: Seq<char>,
    repository_id: Seq<char>,
    branch: Option<Seq<char>>,
    head: Seq<char>,
    tree: WorktreeStateView,
    at: Timestamp,
) -> ProjectStateSnapshotView {
    ProjectStateSnapshotView {
        project_id,
        repository_id,
        branch,
        head_commit: head,
        working_tree: tree,
        working_tree_clean: tree.clean,
        last_observed_commit: head,
        observed_at: at,
        state_version: 1,
    }
}

/// Another branch is checked out in `current` than in `previous`.
pub open spec fn branch_differs(
    current: ProjectStateSnapshotView,
    previous: ProjectStateSnapshotView,
) -> bool {
    current.branch != previous.branch
}

/// `HEAD` is at another commit.
pub open spec fn commit_differs(
    current: ProjectStateSnapshotView,
    previous: ProjectStateSnapshotView,
) -> bool {
    current.head_commit != previous.head_commit
}

/// The working tree became clean or dirty, or files entered or left it or changed
/// their state.
pub open spec fn worktree_differs(
    current: ProjectStateSnapshotView,
    previous: ProjectStateSnapshotView,
) -> bool {
    current.working_tree_clean != previous.working_tree_clean || !same_changes(
        current.working_tree,
        previous.working_tree,
    )
}

/// The differences between two snapshots: the branch before the commit and the
/// commit before the working tree, because each explains the next.
pub open spec fn differences(
    current: ProjectStateSnapshotView,
    previous: ProjectStateSnapshotView,
) -> Seq<StateChangeKind> {
    let branch = if branch_differs(current, previous) {
        seq![StateChangeKind::BranchChanged]
    } else {
        Seq::empty()
    };
    let commit = if commit_differs(current, previous) {
        seq![StateChangeKind::CommitChanged]
    } else {
        Seq::empty()
    };
    let tree = if worktree_differs(current, previous) {
        seq![StateChangeKind::WorktreeChanged]
    } else {
        Seq::empty()
    };
    branch + commit + tree
}

impl ProjectStateSnapshot {
    /// The first snapshot of a repository: the baseline, at version one.
    pub fn initial(
        project_id: ProjectId,
        repository_id: RepositoryId,
        branch: Option<String>,
        head_commit: String,
        working_tree: WorktreeState,
        observed_at: Timestamp,
    ) -> (r: Self)
        ensures
            r@ == first_snapshot(
                project_id@,
                repository_id@,
                branch.deep_view(),
                head_commit@,
                working_tree@,
                observed_at,
            ),
    {
        let clean: bool = working_tree.clean;
        ProjectStateSnapshot {
            project_id,
            repository_id,
            branch,
            head_commit: head_commit.clone(),
            working_tree,
            working_tree_clean: clean,
            last_observed_commit: head_commit,
            observed_at,
            state_version: 1,
        }
    }

    /// The differences from `previous`, in the order in which they explain each
    /// other.
    pub fn state_changes(&self, previous: &ProjectStateSnapshot) -> (r: Vec<StateChangeKind>)
        ensures
            r@ == differences(self@, previous@),
    {
        let mut changes: Vec<StateChangeKind> = Vec::new();
        if !same_optional_text(&self.branch, &previous.branch) {
            changes.push(StateChangeKind::BranchChanged);
        }
        if !same_text(self.head_commit.as_str(), previous.head_commit.as_str()) {
            changes.push(StateChangeKind::CommitChanged);
        }
        if self.working_tree_clean != previous.working_tree_clean
            || !self.working_tree.has_same_changes(&previous.working_tree) {
            changes.push(StateChangeKind::WorktreeChanged);
        }
        assert(changes@ =~= differences(self@, previous@));
        changes
    }

    /// Whether anything differs from `previous`.
    pub fn has_important_change(&self, previous: &ProjectStateSnapshot) -> (r: bool)
        ensures
            r == (differences(self@, previous@).len() > 0),
    {
        self.state_changes(previous).len() > 0
    }

    /// The same snapshot, one version on.
    pub fn with_bumped_version(&self) -> (r: Self)
        requires
            self.state_version < u64::MAX,
        ensures
            r@ == (ProjectStateSnapshotView {
                state_version: (self.state_version + 1) as u64,
                ..self@
            }),
    {
        let mut next: ProjectStateSnapshot = self.clone();
        next.state_version = next.state_version + 1;
        next
    }
}

/// A snapshot does not differ from another of the same state, whenever the two
/// were taken and whatever their versions.
pub proof fn law_same_state_has_no_differences(
    a: ProjectStateSnapshotView,
    b: ProjectStateSnapshotView,
)
    requires
        a.branch == b.branch,
        a.head_commit == b.head_commit,
        a.working_tree == b.working_tree,
        a.working_tree_clean == b.working_tree_clean,
    ensures
        differences(a, b).len() == 0,
{
    law_a_tree_has_its_own_changes(a.working_tree);
}

/// Each kind of difference is reported exactly when it is there, and a branch
/// change before a commit change before a change of the working tree.
pub proof fn law_differences_are_complete_and_ordered(
    a: ProjectStateSnapshotView,
    b: ProjectStateSnapshotView,
)
    ensures
        differences(a, b).contains(StateChangeKind::BranchChanged) <==> branch_differs(a, b),
        differences(a, b).contains(StateChangeKind::CommitChanged) <==> commit_differs(a, b),
        differences(a, b).contains(StateChangeKind::WorktreeChanged) <==> worktree_differs(a, b),
        branch_differs(a, b) ==> differences(a, b)[0] == StateChangeKind::BranchChanged,
        worktree_differs(a, b) ==> differences(a, b).last() == StateChangeKind::WorktreeChanged,
        differences(a, b).len() > 0 <==> branch_differs(a, b) || commit_differs(a, b)
            || worktree_differs(a, b),
{
    let d = differences(a, b);
    if branch_differs(a, b) {
        assert(d[0] == StateChangeKind::BranchChanged);
    }
    if commit_differs(a, b) {
        let i: int = if branch_differs(a, b) {
            1
        } else {
            0
        };
        assert(d[i] == StateChangeKind::CommitChanged);
    }
    if worktree_differs(a, b) {
        assert(d[d.len() - 1] == StateChangeKind::WorktreeChanged);
    }
}

/// The branch is told to have changed exactly where its name did, the commit exactly
/// where `HEAD` did, and the working tree exactly where it became clean or dirty or its
/// changes did; each is told once, the branch before the commit and that before the
/// tree.
pub proof fn law_each_difference_is_told_once_and_in_order(
    a: ProjectStateSnapshotView,
    b: ProjectStateSnapshotView,
)
    ensures
        differences(a, b).contains(StateChangeKind::BranchChanged) <==> a.branch != b.branch,
        differences(a, b).contains(StateChangeKind::CommitChanged) <==> a.head_commit
            != b.head_commit,
        differences(a, b).contains(StateChangeKind::WorktreeChanged) <==> a.working_tree_clean
            != b.working_tree_clean || !same_changes(a.working_tree, b.working_tree),
        differences(a, b).no_duplicates(),
        a.branch != b.branch ==> differences(a, b)[0] == StateChangeKind::BranchChanged,
        a.branch != b.branch && a.head_commit != b.head_commit ==> differences(a, b)[1]
            == StateChangeKind::CommitChanged,
        a.branch == b.branch && a.head_commit != b.head_commit ==> differences(a, b)[0]
            == StateChangeKind::CommitChanged,
{
    law_differences_are_complete_and_ordered(a, b);
}

/// What differs does so either way round.
pub proof fn law_differences_are_mutual(a: ProjectStateSnapshotView, b: ProjectStateSnapshotView)
    ensures
        differences(a, b) == differences(b, a),
{
}

/// The first snapshot holds what was read, at version one, and takes its own head as
/// the last commit that was seen.
pub proof fn law_the_first_snapshot_is_what_was_read(
    project_id: Seq<char>,
    repository_id: Seq<char>,
    branch: Option<Seq<char>>,
    head: Seq<char>,
    tree: WorktreeStateView,
    at: Timestamp,
)
    ensures
        ({
            let s = first_snapshot(project_id, repository_id, branch, head, tree, at);
            &&& s.project_id == project_id && s.repository_id == repository_id
            &&& s.branch == branch && s.head_commit == head && s.working_tree == tree
            &&& s.working_tree_clean <==> tree.clean
            &&& s.last_observed_commit == head && s.observed_at == at && s.state_version == 1
        }),
{
}

} // verus!
