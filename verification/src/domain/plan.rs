//! A decomposed objective. A plan is superseded, never edited into another.

use crate::domain::ids::{AgentId, PlanId, ProjectId, TaskId};
use crate::time::{clock_time, Timestamp};
use vstd::prelude::*;
use vstd::string::*;

verus! {

/// Lifecycle state of a plan.
#[derive(Debug, Clone, Copy, PartialEq, Eq, Hash, Structural)]
pub enum PlanStatus {
    /// It is being assembled.
    Draft,
    /// It is the one to execute.
    Active,
    /// A newer plan replaced it.
    Superseded,
    /// It was retired without a successor.
    Archived,
}

impl DeepView for PlanStatus {
    type V = PlanStatus;

    open spec fn deep_view(&self) -> PlanStatus {
        *self
    }
}

impl PlanStatus {
    /// Whether the plan is the one to execute.
    pub fn is_authoritative(self) -> (r: bool)
        ensures
            r == (self == PlanStatus::Active),
    {
        matches!(self, PlanStatus::Active)
    }

    /// Whether the plan is history only.
    pub fn is_historical(self) -> (r: bool)
        ensures
            r == (self == PlanStatus::Superseded || self == PlanStatus::Archived),
    {
        matches!(self, PlanStatus::Superseded | PlanStatus::Archived)
    }
}

/// An ordered set of tasks, with the reasoning that produced it.
#[derive(Debug, PartialEq, Eq)]
pub struct Plan {
    /// The plan's identifier.
    pub id: PlanId,
    /// The project it is for.
    pub project_id: ProjectId,
    /// The objective that it decomposes.
    pub objective: String,
    /// The tasks, in the order of intended execution.
    pub task_ids: Vec<TaskId>,
    /// Why the plan looks like this.
    pub rationale: String,
    /// Draft, active or historical.
    pub status: PlanStatus,
    /// The plan that this one replaced, if any.
    pub supersedes: Option<PlanId>,
    /// The plan that replaced this one, if any.
    pub superseded_by: Option<PlanId>,
    /// The agent that authorized it, if known.
    pub created_by: Option<AgentId>,
    /// When it was first written.
    pub created_at: Timestamp,
    /// When it last changed.
    pub updated_at: Timestamp,
}

/// What a [`Plan`] holds.
#[verifier::ext_equal]
pub struct PlanView {
    pub id: Seq<char>,
    pub project_id: Seq<char>,
    pub objective: Seq<char>,
    pub task_ids: Seq<Seq<char>>,
    pub rationale: Seq<char>,
    pub status: PlanStatus,
    pub supersedes: Option<Seq<char>>,
    pub superseded_by: Option<Seq<char>>,
    pub created_by: Option<Seq<char>>,
    pub created_at: Timestamp,
    pub updated_at: Timestamp,
}

impl View for Plan {
    type V = PlanView;

    open spec fn view(&self) -> PlanView {
        PlanView {
            id: self.id.deep_view(),
            project_id: self.project_id.deep_view(),
            objective: self.objective.deep_view(),
            task_ids: self.task_ids.deep_view(),
            rationale: self.rationale.deep_view(),
            status: self.status,
            supersedes: self.supersedes.deep_view(),
            superseded_by: self.superseded_by.deep_view(),
            created_by: self.created_by.deep_view(),
            created_at: self.created_at,
            updated_at: self.updated_at,
        }
    }
}

impl DeepView for Plan {
    type V = PlanView;

    open spec fn deep_view(&self) -> PlanView {
        self.view()
    }
}

impl Clone for Plan {
    fn clone(&self) -> (r: Self)
        ensures
            r@ == self@,
    {
        let r: Plan = Plan {
            id: self.id.clone(),
            project_id: self.project_id.clone(),
            objective: self.objective.clone(),
            task_ids: self.task_ids.clone(),
            rationale: self.rationale.clone(),
            status: self.status,
            supersedes: self.supersedes.clone(),
            superseded_by: self.superseded_by.clone(),
            created_by: self.created_by.clone(),
            created_at: self.created_at,
            updated_at: self.updated_at,
        };
        assert(r.task_ids.deep_view() =~= self.task_ids.deep_view());
        r
    }
}

impl Plan {
    /// Drafts a plan for a project's objective.
    pub fn draft(id: PlanId, project_id: ProjectId, objective: &str, rationale: &str) -> (r: Self)
        ensures
            clock_time(r.created_at@),
            r@ == (PlanView {
                id: id@,
                project_id: project_id@,
                objective: objective@,
                task_ids: Seq::empty(),
                rationale: rationale@,
                status: PlanStatus::Draft,
                supersedes: None,
                superseded_by: None,
                created_by: None,
                created_at: r.created_at,
                updated_at: r.created_at,
            }),
    {
        let now: Timestamp = Timestamp::now();
        let r: Plan = Plan {
            id,
            project_id,
            objective: objective.to_owned(),
            task_ids: Vec::new(),
            rationale: rationale.to_owned(),
            status: PlanStatus::Draft,
            supersedes: None,
            superseded_by: None,
            created_by: None,
            created_at: now,
            updated_at: now,
        };
        assert(r.task_ids.deep_view() =~= Seq::empty());
        r
    }

    /// Makes the plan the one to execute, and records who authorized it.
    pub fn activate(&mut self, created_by: AgentId)
        ensures
            clock_time(final(self).updated_at@),
            final(self)@ == (PlanView {
                created_by: Some(created_by@),
                status: PlanStatus::Active,
                updated_at: final(self).updated_at,
                ..old(self)@
            }),
    {
        self.created_by = Some(created_by);
        self.status = PlanStatus::Active;
        self.touch();
    }

    /// Marks the plan superseded by `successor`, and returns the link that the
    /// successor's `supersedes` is to hold: this plan's id.
    pub fn supersede(&mut self, successor: PlanId) -> (link: PlanId)
        ensures
            clock_time(final(self).updated_at@),
            link@ == old(self)@.id,
            final(self)@ == (PlanView {
                status: PlanStatus::Superseded,
                superseded_by: Some(successor@),
                updated_at: final(self).updated_at,
                ..old(self)@
            }),
    {
        self.status = PlanStatus::Superseded;
        self.superseded_by = Some(successor);
        self.touch();
        self.id.clone()
    }

    /// Adds a task at the end, unless it is in the plan.
    pub fn add_task(&mut self, task_id: TaskId)
        ensures
            !old(self)@.task_ids.contains(task_id@) ==> clock_time(final(self).updated_at@),
            old(self)@.task_ids.contains(task_id@) ==> *final(self) == *old(self),
            !old(self)@.task_ids.contains(task_id@) ==> final(self)@ == (PlanView {
                task_ids: old(self)@.task_ids.push(task_id@),
                updated_at: final(self).updated_at,
                ..old(self)@
            }),
            final(self)@ == planned(old(self)@, task_id@, final(self).updated_at),
    {
        if !task_id.is_among(&self.task_ids) {
            let ghost before = self.task_ids.deep_view();
            self.task_ids.push(task_id);
            assert(self.task_ids.deep_view() =~= before.push(task_id@));
            self.touch();
        }
    }

    /// Records a change, stamping `updated_at` with what the clock shows.
    pub fn touch(&mut self)
        ensures
            clock_time(final(self).updated_at@),
            final(self)@ == (PlanView { updated_at: final(self).updated_at, ..old(self)@ }),
    {
        self.touch_at(Timestamp::now());
    }

    /// Records a change that was made at `now`.
    pub fn touch_at(&mut self, now: Timestamp)
        ensures
            final(self)@ == (PlanView { updated_at: now, ..old(self)@ }),
    {
        self.updated_at = now;
    }
}

/// Adding tasks never makes a plan name one twice.
pub proof fn law_plan_names_a_task_once(tasks: Seq<Seq<char>>, task: Seq<char>)
    requires
        tasks.no_duplicates(),
        !tasks.contains(task),
    ensures
        tasks.push(task).no_duplicates(),
{
}

/// A plan with one more task, unless it names the task already.
pub open spec fn planned(plan: PlanView, task: Seq<char>, at: Timestamp) -> PlanView {
    if plan.task_ids.contains(task) {
        plan
    } else {
        PlanView { task_ids: plan.task_ids.push(task), updated_at: at, ..plan }
    }
}

/// Adding a task makes the plan name it, behind the tasks that it named before, which keep
/// their places. A plan that names no task twice goes on to name none twice, and adding the
/// same task again changes nothing. Nothing of the plan but its tasks and its time changes.
pub proof fn law_adding_a_task_extends_the_plan(
    plan: PlanView,
    task: Seq<char>,
    at: Timestamp,
    later: Timestamp,
)
    ensures
        ({
            let new = planned(plan, task, at);
            &&& new.task_ids.contains(task)
            &&& plan.task_ids.len() <= new.task_ids.len() <= plan.task_ids.len() + 1
            &&& forall|i: int|
                0 <= i < plan.task_ids.len() ==> #[trigger] new.task_ids[i] == plan.task_ids[i]
            &&& plan.task_ids.no_duplicates() ==> new.task_ids.no_duplicates()
            &&& planned(new, task, later) == new
            &&& (PlanView { task_ids: plan.task_ids, updated_at: plan.updated_at, ..new }) == plan
        }),
{
    let new = planned(plan, task, at);
    if !plan.task_ids.contains(task) {
        assert(new.task_ids.last() == task);
        assert(new.task_ids[plan.task_ids.len() as int] == task);
    }
}

} // verus!
