//! The snapshot that lets a task be resumed by another agent.

use crate::domain::context::{RecentContext, RecentContextView};
use crate::domain::ids::{AgentId, BlockerId, CheckpointId, DecisionId, SessionId, TaskId};
use crate::domain::state::{
    ChangedFileView, CommitInfo, CommitInfoView, ProjectState, ProjectStateView, StateComparison,
    TestResults, TestResultsView,
};
use crate::text::{same_optional_text, same_text};
use crate::time::{clock_time, Timestamp};
use vstd::prelude::*;
use vstd::string::*;

verus! {

/// The version of the checkpoint's layout.
pub const CHECKPOINT_FORMAT_VERSION: u32 = 1;

/// Everything that is needed to continue a task with a fresh agent, machine and
/// harness.
#[derive(Debug, PartialEq, Eq)]
pub struct Checkpoint {
    /// The checkpoint's identifier.
    pub id: CheckpointId,
    /// The task that it resumes.
    pub task_id: TaskId,
    /// The objective as it was understood.
    pub objective: String,
    /// What was accomplished, in order.
    pub progress: String,
    /// How far along the task is, as the bits of a single-precision fraction from
    /// zero to one.
    pub progress_bits: u32,
    /// The branch, if known.
    pub branch: Option<String>,
    /// The commit that `HEAD` pointed at, if known.
    pub commit_sha: Option<String>,
    /// What was changed in the working tree.
    pub changed_files: Vec<String>,
    /// The last test results that were observed.
    pub test_results: Option<TestResults>,
    /// What is in the way, if anything.
    pub current_blocker: Option<String>,
    /// Decisions that the next agent must honour.
    pub important_decisions: Vec<DecisionId>,
    /// What was assumed to be true.
    pub current_assumptions: Vec<String>,
    /// The first step for the next agent.
    pub next_action: String,
    /// The version of the layout.
    pub context_version: u32,
    /// When the checkpoint was taken.
    pub created_at: Timestamp,
    /// The agent that produced it, for attribution only.
    pub created_by_agent: Option<AgentId>,
    /// The session that produced it, for attribution only.
    pub created_by_session: Option<SessionId>,
}

/// What a [`Checkpoint`] holds.
#[verifier::ext_equal]
pub struct CheckpointView {
    pub id: Seq<char>,
    pub task_id: Seq<char>,
    pub objective: Seq<char>,
    pub progress: Seq<char>,
    pub progress_bits: u32,
    pub branch: Option<Seq<char>>,
    pub commit_sha: Option<Seq<char>>,
    pub changed_files: Seq<Seq<char>>,
    pub test_results: Option<TestResultsView>,
    pub current_blocker: Option<Seq<char>>,
    pub important_decisions: Seq<Seq<char>>,
    pub current_assumptions: Seq<Seq<char>>,
    pub next_action: Seq<char>,
    pub context_version: u32,
    pub created_at: Timestamp,
    pub created_by_agent: Option<Seq<char>>,
    pub created_by_session: Option<Seq<char>>,
}

impl View for Checkpoint {
    type V = CheckpointView;

    open spec fn view(&self) -> CheckpointView {
        CheckpointView {
            id: self.id.deep_view(),
            task_id: self.task_id.deep_view(),
            objective: self.objective.deep_view(),
            progress: self.progress.deep_view(),
            progress_bits: self.progress_bits,
            branch: self.branch.deep_view(),
            commit_sha: self.commit_sha.deep_view(),
            changed_files: self.changed_files.deep_view(),
            test_results: self.test_results.deep_view(),
            current_blocker: self.current_blocker.deep_view(),
            important_decisions: self.important_decisions.deep_view(),
            current_assumptions: self.current_assumptions.deep_view(),
            next_action: self.next_action.deep_view(),
            context_version: self.context_version,
            created_at: self.created_at,
            created_by_agent: self.created_by_agent.deep_view(),
            created_by_session: self.created_by_session.deep_view(),
        }
    }
}

impl DeepView for Checkpoint {
    type V = CheckpointView;

    open spec fn deep_view(&self) -> CheckpointView {
        self.view()
    }
}

impl Clone for Checkpoint {
    fn clone(&self) -> (r: Self)
        ensures
            r@ == self@,
    {
        let r: Checkpoint = Checkpoint {
            id: self.id.clone(),
            task_id: self.task_id.clone(),
            objective: self.objective.clone(),
            progress: self.progress.clone(),
            progress_bits: self.progress_bits,
            branch: self.branch.clone(),
            commit_sha: self.commit_sha.clone(),
            changed_files: self.changed_files.clone(),
            test_results: self.test_results.clone(),
            current_blocker: self.current_blocker.clone(),
            important_decisions: self.important_decisions.clone(),
            current_assumptions: self.current_assumptions.clone(),
            next_action: self.next_action.clone(),
            context_version: self.context_version,
            created_at: self.created_at,
            created_by_agent: self.created_by_agent.clone(),
            created_by_session: self.created_by_session.clone(),
        };
        assert(r.changed_files.deep_view() =~= self.changed_files.deep_view());
        assert(r.important_decisions.deep_view() =~= self.important_decisions.deep_view());
        assert(r.current_assumptions.deep_view() =~= self.current_assumptions.deep_view());
        r
    }
}

/// The working tree decides between the two comparisons of an unmoved head.
pub open spec fn tree_comparison(observed: ProjectStateView) -> StateComparison {
    if observed.working_tree.len() > 0 {
        StateComparison::WorkingTreeChanged
    } else {
        StateComparison::Unchanged
    }
}

/// Some commit of `history` has the object id `sha`.
pub open spec fn in_history(history: Seq<CommitInfoView>, sha: Seq<char>) -> bool {
    exists|i: int| 0 <= i < history.len() && (#[trigger] history[i]).sha == sha
}

/// How a checkpoint compares with what is observed now.
pub open spec fn comparison(
    cp: CheckpointView,
    observed: ProjectStateView,
    history: Seq<CommitInfoView>,
) -> StateComparison {
    match cp.commit_sha {
        None => tree_comparison(observed),
        Some(recorded) => if recorded == observed.head_commit {
            tree_comparison(observed)
        } else if !in_history(history, recorded) {
            StateComparison::CommitGone
        } else if cp.branch != observed.branch {
            StateComparison::BranchChanged
        } else {
            StateComparison::HeadAdvanced
        },
    }
}

impl Checkpoint {
    /// Takes a checkpoint of a task.
    pub fn new(
        id: CheckpointId,
        task_id: TaskId,
        objective: &str,
        progress: &str,
        next_action: &str,
    ) -> (r: Self)
        ensures
            clock_time(r.created_at@),
            r@ == (CheckpointView {
                id: id@,
                task_id: task_id@,
                objective: objective@,
                progress: progress@,
                progress_bits: 0,
                branch: None,
                commit_sha: None,
                changed_files: Seq::empty(),
                test_results: None,
                current_blocker: None,
                important_decisions: Seq::empty(),
                current_assumptions: Seq::empty(),
                next_action: next_action@,
                context_version: CHECKPOINT_FORMAT_VERSION,
                created_at: r.created_at,
                created_by_agent: None,
                created_by_session: None,
            }),
    {
        let r: Checkpoint = Checkpoint {
            id,
            task_id,
            objective: objective.to_owned(),
            progress: progress.to_owned(),
            progress_bits: 0,
            branch: None,
            commit_sha: None,
            changed_files: Vec::new(),
            test_results: None,
            current_blocker: None,
            important_decisions: Vec::new(),
            current_assumptions: Vec::new(),
            next_action: next_action.to_owned(),
            context_version: CHECKPOINT_FORMAT_VERSION,
            created_at: Timestamp::now(),
            created_by_agent: None,
            created_by_session: None,
        };
        assert(r.changed_files.deep_view() =~= Seq::empty());
        assert(r.important_decisions.deep_view() =~= Seq::empty());
        assert(r.current_assumptions.deep_view() =~= Seq::empty());
        r
    }

    /// Whether the checkpoint records exactly the observed commit.
    pub fn matches_commit(&self, observed_sha: &str) -> (r: bool)
        ensures
            r == (self@.commit_sha == Some(observed_sha@)),
    {
        match &self.commit_sha {
            Some(sha) => same_text(sha.as_str(), observed_sha),
            None => false,
        }
    }

    /// Compares the checkpoint with freshly observed state. This guards every
    /// resume: when the world has moved on, the caller must reconcile.
    pub fn compare_with(&self, observed: &ProjectState, observed_history: &[CommitInfo]) -> (r:
        StateComparison)
        ensures
            r == comparison(
                self@,
                observed@,
                observed_history@.map_values(|c: CommitInfo| c@),
            ),
    {
        let unmoved: StateComparison = if observed.is_dirty() {
            StateComparison::WorkingTreeChanged
        } else {
            StateComparison::Unchanged
        };
        let recorded: &String = match &self.commit_sha {
            None => {
                return unmoved;
            },
            Some(sha) => sha,
        };
        if same_text(recorded.as_str(), observed.head_commit.as_str()) {
            return unmoved;
        }
        let ghost history = observed_history@.map_values(|c: CommitInfo| c@);
        let mut i: usize = 0;
        while i < observed_history.len()
            invariant
                i <= observed_history.len(),
                history == observed_history@.map_values(|c: CommitInfo| c@),
                self@.commit_sha == Some(recorded@),
                recorded@ != observed@.head_commit,
                forall|j: int| 0 <= j < i ==> (#[trigger] history[j]).sha != recorded@,
            decreases observed_history.len() - i,
        {
            assert(history[i as int].sha == observed_history@[i as int].sha@);
            if same_text(observed_history[i].sha.as_str(), recorded.as_str()) {
                return if same_optional_text(&self.branch, &observed.branch) {
                    StateComparison::HeadAdvanced
                } else {
                    StateComparison::BranchChanged
                };
            }
            i += 1;
        }
        StateComparison::CommitGone
    }
}

/// A checkpoint is trusted as it stands only when the working tree is clean and
/// no other commit was recorded than the one that is checked out.
pub proof fn law_current_checkpoint_means_clean_and_unmoved(
    cp: CheckpointView,
    observed: ProjectStateView,
    history: Seq<CommitInfoView>,
)
    ensures
        comparison(cp, observed, history) == StateComparison::Unchanged <==> {
            &&& observed.working_tree.len() == 0
            &&& cp.commit_sha is None || cp.commit_sha == Some(observed.head_commit)
        },
{
}

/// A recorded commit that is neither checked out nor in history is reported as
/// gone, and only such a one.
pub proof fn law_commit_gone_means_absent(
    cp: CheckpointView,
    observed: ProjectStateView,
    history: Seq<CommitInfoView>,
)
    ensures
        comparison(cp, observed, history) == StateComparison::CommitGone <==> {
            &&& cp.commit_sha is Some
            &&& cp.commit_sha->0 != observed.head_commit
            &&& !in_history(history, cp.commit_sha->0)
        },
{
}

/// Whether a task can be resumed as it stands.
#[derive(Debug, Clone, Copy, PartialEq, Eq, Hash, Structural)]
pub enum ResumeStatus {
    /// Everything is in place.
    Ready,
    /// The world has moved on; reconcile first.
    Stale,
    /// Two sources disagree about the task.
    Conflicted,
    /// A blocker stands in the way.
    Blocked,
    /// Too little is known to resume safely.
    Insufficient,
}

impl DeepView for ResumeStatus {
    type V = ResumeStatus;

    open spec fn deep_view(&self) -> ResumeStatus {
        *self
    }
}

/// The latest checkpoint of a task, with what a new agent needs to continue.
#[derive(Debug, PartialEq, Eq)]
pub struct ContinuationPackage {
    /// The task to resume.
    pub task_id: TaskId,
    /// Its latest checkpoint.
    pub checkpoint: Checkpoint,
    /// Recent activity.
    pub recent_context: RecentContext,
    /// Freshly observed state.
    pub observed_state: ProjectState,
    /// How the checkpoint compares with it.
    pub comparison: StateComparison,
    /// Agents at work in the project.
    pub active_agents: Vec<AgentId>,
    /// Open blockers on the task.
    pub blockers: Vec<BlockerId>,
    /// The first step.
    pub next_action: String,
    /// Whether resumption can proceed.
    pub resume_status: ResumeStatus,
}

/// What a [`ContinuationPackage`] holds.
#[verifier::ext_equal]
pub struct ContinuationPackageView {
    pub task_id: Seq<char>,
    pub checkpoint: CheckpointView,
    pub recent_context: RecentContextView,
    pub observed_state: ProjectStateView,
    pub comparison: StateComparison,
    pub active_agents: Seq<Seq<char>>,
    pub blockers: Seq<Seq<char>>,
    pub next_action: Seq<char>,
    pub resume_status: ResumeStatus,
}

impl View for ContinuationPackage {
    type V = ContinuationPackageView;

    open spec fn view(&self) -> ContinuationPackageView {
        ContinuationPackageView {
            task_id: self.task_id.deep_view(),
            checkpoint: self.checkpoint.deep_view(),
            recent_context: self.recent_context.deep_view(),
            observed_state: self.observed_state.deep_view(),
            comparison: self.comparison,
            active_agents: self.active_agents.deep_view(),
            blockers: self.blockers.deep_view(),
            next_action: self.next_action.deep_view(),
            resume_status: self.resume_status,
        }
    }
}

impl DeepView for ContinuationPackage {
    type V = ContinuationPackageView;

    open spec fn deep_view(&self) -> ContinuationPackageView {
        self.view()
    }
}

impl Clone for ContinuationPackage {
    fn clone(&self) -> (r: Self)
        ensures
            r@ == self@,
    {
        let r: ContinuationPackage = ContinuationPackage {
            task_id: self.task_id.clone(),
            checkpoint: self.checkpoint.clone(),
            recent_context: self.recent_context.clone(),
            observed_state: self.observed_state.clone(),
            comparison: self.comparison,
            active_agents: self.active_agents.clone(),
            blockers: self.blockers.clone(),
            next_action: self.next_action.clone(),
            resume_status: self.resume_status,
        };
        assert(r.active_agents.deep_view() =~= self.active_agents.deep_view());
        assert(r.blockers.deep_view() =~= self.blockers.deep_view());
        r
    }
}

/// Where another commit was recorded than the one that is checked out, and history
/// still holds it, the branches alone decide what is told: the branch changed, or the
/// head advanced on it. What stands in the working tree makes no difference.
pub proof fn law_a_moved_head_is_told_whatever_the_tree(
    cp: CheckpointView,
    observed: ProjectStateView,
    history: Seq<CommitInfoView>,
    k: int,
)
    requires
        0 <= k < history.len(),
        cp.commit_sha == Some(history[k].sha),
        history[k].sha != observed.head_commit,
    ensures
        cp.branch != observed.branch ==> comparison(cp, observed, history)
            == StateComparison::BranchChanged,
        cp.branch == observed.branch ==> comparison(cp, observed, history)
            == StateComparison::HeadAdvanced,
        forall|tree: Seq<ChangedFileView>| #[trigger]
            comparison(cp, (ProjectStateView { working_tree: tree, ..observed }), history)
                == comparison(cp, observed, history),
{
}

/// A changed working tree is told exactly where it is all that changed: there is a
/// changed file, and no other commit was recorded than the one that is checked out.
pub proof fn law_a_changed_tree_means_the_same_commit(
    cp: CheckpointView,
    observed: ProjectStateView,
    history: Seq<CommitInfoView>,
)
    ensures
        comparison(cp, observed, history) == StateComparison::WorkingTreeChanged <==> {
            &&& observed.working_tree.len() > 0
            &&& forall|sha: Seq<char>|
                cp.commit_sha == Some(sha) ==> sha == observed.head_commit
        },
{
    if cp.commit_sha is Some {
        assert(cp.commit_sha == Some(cp.commit_sha->0));
    }
}

/// A commit is told to be gone exactly where one was recorded that is not checked out
/// and that no commit of the history is.
pub proof fn law_a_gone_commit_is_nowhere(
    cp: CheckpointView,
    observed: ProjectStateView,
    history: Seq<CommitInfoView>,
)
    ensures
        comparison(cp, observed, history) == StateComparison::CommitGone <==> (cp.commit_sha matches
            Some(sha) && sha != observed.head_commit && forall|i: int|
            0 <= i < history.len() ==> (#[trigger] history[i]).sha != sha),
{
}

/// Moving the head back to the recorded commit, the tree clean, makes a checkpoint
/// current again, whatever is told meanwhile.
pub proof fn law_going_back_to_the_commit_makes_it_current(
    cp: CheckpointView,
    observed: ProjectStateView,
    history: Seq<CommitInfoView>,
)
    requires
        cp.commit_sha is Some,
    ensures
        comparison(
            cp,
            (ProjectStateView {
                head_commit: cp.commit_sha->0,
                working_tree: Seq::empty(),
                ..observed
            }),
            history,
        ) == StateComparison::Unchanged,
{
}

} // verus!
