//! The shapes that handoff-mcp puts on the wire. They are not the domain types:
//! every difference between the two models is dealt with where they are mapped.

use crate::registry::{Keyed, Registry};
use vstd::prelude::*;
use vstd::string::*;

verus! {

/// A value beyond the named fields of a task.
#[derive(Debug, PartialEq, Eq)]
pub enum ExtraValue {
    /// A string.
    Text(String),
    /// A boolean.
    Flag(bool),
    /// An array; what is not a string in it is `None`.
    List(Vec<Option<String>>),
    /// Any other value.
    Opaque,
}

/// What a [`ExtraValue`] holds.
#[verifier::ext_equal]
pub enum ExtraValueView {
    Text(Seq<char>),
    Flag(bool),
    List(Seq<Option<Seq<char>>>),
    Opaque,
}

impl View for ExtraValue {
    type V = ExtraValueView;

    open spec fn view(&self) -> ExtraValueView {
        match self {
            ExtraValue::Text(x) => ExtraValueView::Text(x.deep_view()),
            ExtraValue::Flag(x) => ExtraValueView::Flag(*x),
            ExtraValue::List(x) => ExtraValueView::List(x.deep_view()),
            ExtraValue::Opaque => ExtraValueView::Opaque,
        }
    }
}

impl DeepView for ExtraValue {
    type V = ExtraValueView;

    open spec fn deep_view(&self) -> ExtraValueView {
        self.view()
    }
}

impl Clone for ExtraValue {
    fn clone(&self) -> (r: Self)
        ensures
            r@ == self@,
    {
        match self {
            ExtraValue::Text(x) => ExtraValue::Text(x.clone()),
            ExtraValue::Flag(x) => ExtraValue::Flag(*x),
            ExtraValue::List(x) => ExtraValue::List(x.clone()),
            ExtraValue::Opaque => ExtraValue::Opaque,
        }
    }
}

/// A field beyond the named ones.
#[derive(Debug, PartialEq, Eq)]
pub struct ExtraEntry {
    /// The field's name.
    pub name: String,
    /// Its value.
    pub value: ExtraValue,
}

/// What a [`ExtraEntry`] holds.
#[verifier::ext_equal]
pub struct ExtraEntryView {
    pub name: Seq<char>,
    pub value: ExtraValueView,
}

impl View for ExtraEntry {
    type V = ExtraEntryView;

    open spec fn view(&self) -> ExtraEntryView {
        ExtraEntryView {
            name: self.name.deep_view(),
            value: self.value.deep_view(),
        }
    }
}

impl DeepView for ExtraEntry {
    type V = ExtraEntryView;

    open spec fn deep_view(&self) -> ExtraEntryView {
        self.view()
    }
}

impl Clone for ExtraEntry {
    fn clone(&self) -> (r: Self)
        ensures
            r@ == self@,
    {
        let r: ExtraEntry = ExtraEntry {
            name: self.name.clone(),
            value: self.value.clone(),
        };
        r
    }
}

impl Keyed for ExtraEntry {
    open spec fn key_of(v: ExtraEntryView) -> Seq<char> {
        v.name
    }

    fn key(&self) -> (k: &str) {
        self.name.as_str()
    }

    fn duplicate(&self) -> (r: Self) {
        self.clone()
    }
}

/// A link from a task to something else.
#[derive(Debug, PartialEq, Eq)]
pub struct TaskLink {
    /// What it leads to.
    pub target: String,
    /// What kind of link it is.
    pub link_type: String,
}

/// What a [`TaskLink`] holds.
#[verifier::ext_equal]
pub struct TaskLinkView {
    pub target: Seq<char>,
    pub link_type: Seq<char>,
}

impl View for TaskLink {
    type V = TaskLinkView;

    open spec fn view(&self) -> TaskLinkView {
        TaskLinkView {
            target: self.target.deep_view(),
            link_type: self.link_type.deep_view(),
        }
    }
}

impl DeepView for TaskLink {
    type V = TaskLinkView;

    open spec fn deep_view(&self) -> TaskLinkView {
        self.view()
    }
}

impl Clone for TaskLink {
    fn clone(&self) -> (r: Self)
        ensures
            r@ == self@,
    {
        let r: TaskLink = TaskLink {
            target: self.target.clone(),
            link_type: self.link_type.clone(),
        };
        r
    }
}

/// One acceptance criterion: a box that an agent can tick by itself.
#[derive(Debug, PartialEq, Eq)]
pub struct DoneCriterion {
    /// The criterion in words.
    pub item: String,
    /// Whether some agent reported it met. It is never taken as verification.
    pub checked: bool,
}

/// What a [`DoneCriterion`] holds.
#[verifier::ext_equal]
pub struct DoneCriterionView {
    pub item: Seq<char>,
    pub checked: bool,
}

impl View for DoneCriterion {
    type V = DoneCriterionView;

    open spec fn view(&self) -> DoneCriterionView {
        DoneCriterionView {
            item: self.item.deep_view(),
            checked: self.checked,
        }
    }
}

impl DeepView for DoneCriterion {
    type V = DoneCriterionView;

    open spec fn deep_view(&self) -> DoneCriterionView {
        self.view()
    }
}

impl Clone for DoneCriterion {
    fn clone(&self) -> (r: Self)
        ensures
            r@ == self@,
    {
        let r: DoneCriterion = DoneCriterion {
            item: self.item.clone(),
            checked: self.checked,
        };
        r
    }
}

/// A task's schedule. It is read, and never written.
#[derive(Debug, PartialEq, Eq)]
pub struct Schedule {
    /// The estimated hours, as the bits of a double-precision number.
    pub estimate_hours_bits: Option<u64>,
    /// The hours that were reported, as the bits of a double-precision number.
    pub actual_hours_bits: Option<u64>,
    /// The planned start.
    pub start_date: Option<String>,
    /// The planned end.
    pub due_date: Option<String>,
}

/// What a [`Schedule`] holds.
#[verifier::ext_equal]
pub struct ScheduleView {
    pub estimate_hours_bits: Option<u64>,
    pub actual_hours_bits: Option<u64>,
    pub start_date: Option<Seq<char>>,
    pub due_date: Option<Seq<char>>,
}

impl View for Schedule {
    type V = ScheduleView;

    open spec fn view(&self) -> ScheduleView {
        ScheduleView {
            estimate_hours_bits: self.estimate_hours_bits,
            actual_hours_bits: self.actual_hours_bits,
            start_date: self.start_date.deep_view(),
            due_date: self.due_date.deep_view(),
        }
    }
}

impl DeepView for Schedule {
    type V = ScheduleView;

    open spec fn deep_view(&self) -> ScheduleView {
        self.view()
    }
}

impl Clone for Schedule {
    fn clone(&self) -> (r: Self)
        ensures
            r@ == self@,
    {
        let r: Schedule = Schedule {
            estimate_hours_bits: self.estimate_hours_bits,
            actual_hours_bits: self.actual_hours_bits,
            start_date: self.start_date.clone(),
            due_date: self.due_date.clone(),
        };
        r
    }
}

/// A claim on a task.
#[derive(Debug, PartialEq, Eq)]
pub struct TaskLock {
    /// The agent that holds it.
    pub agent_id: String,
    /// The session that made it.
    pub session_id: String,
    /// When it was made.
    pub claimed_at: String,
    /// When it expires.
    pub lease_expires_at: String,
    /// How long it lasts, in seconds.
    pub lease_ttl_seconds: u64,
}

/// What a [`TaskLock`] holds.
#[verifier::ext_equal]
pub struct TaskLockView {
    pub agent_id: Seq<char>,
    pub session_id: Seq<char>,
    pub claimed_at: Seq<char>,
    pub lease_expires_at: Seq<char>,
    pub lease_ttl_seconds: u64,
}

impl View for TaskLock {
    type V = TaskLockView;

    open spec fn view(&self) -> TaskLockView {
        TaskLockView {
            agent_id: self.agent_id.deep_view(),
            session_id: self.session_id.deep_view(),
            claimed_at: self.claimed_at.deep_view(),
            lease_expires_at: self.lease_expires_at.deep_view(),
            lease_ttl_seconds: self.lease_ttl_seconds,
        }
    }
}

impl DeepView for TaskLock {
    type V = TaskLockView;

    open spec fn deep_view(&self) -> TaskLockView {
        self.view()
    }
}

impl Clone for TaskLock {
    fn clone(&self) -> (r: Self)
        ensures
            r@ == self@,
    {
        let r: TaskLock = TaskLock {
            agent_id: self.agent_id.clone(),
            session_id: self.session_id.clone(),
            claimed_at: self.claimed_at.clone(),
            lease_expires_at: self.lease_expires_at.clone(),
            lease_ttl_seconds: self.lease_ttl_seconds,
        };
        r
    }
}

/// A task, as the substrate keeps it.
#[derive(Debug, PartialEq, Eq)]
pub struct TaskData {
    /// The task's id.
    pub id: String,
    /// Its title.
    pub title: String,
    /// One of the substrate's statuses.
    pub status: String,
    /// Notes, if any.
    pub notes: Option<String>,
    /// `low`, `medium` or `high`.
    pub priority: Option<String>,
    /// When it was created.
    pub created_at: String,
    /// When it last changed.
    pub updated_at: String,
    /// When it was finished, if it was.
    pub completed_at: Option<String>,
    /// Labels.
    pub labels: Vec<String>,
    /// Attached URLs.
    pub links: Vec<String>,
    /// Links of a known kind.
    pub task_links: Vec<TaskLink>,
    /// Acceptance criteria.
    pub done_criteria: Vec<DoneCriterion>,
    /// The schedule.
    pub schedule: Option<Schedule>,
    /// Tasks that this one waits for.
    pub dependencies: Vec<String>,
    /// Tasks that wait for this one, when they were asked for.
    pub dependents: Option<Vec<String>>,
    /// A position within a list.
    pub order: Option<u32>,
    /// The agent that holds the task, if any.
    pub assignee: Option<String>,
    /// The claim on it, if any.
    pub lock: Option<TaskLock>,
    /// Paths that the task may touch.
    pub scope_paths: Vec<String>,
    /// Fields beyond the named ones.
    pub extra: Registry<ExtraEntry>,
}

/// What a [`TaskData`] holds.
#[verifier::ext_equal]
pub struct TaskDataView {
    pub id: Seq<char>,
    pub title: Seq<char>,
    pub status: Seq<char>,
    pub notes: Option<Seq<char>>,
    pub priority: Option<Seq<char>>,
    pub created_at: Seq<char>,
    pub updated_at: Seq<char>,
    pub completed_at: Option<Seq<char>>,
    pub labels: Seq<Seq<char>>,
    pub links: Seq<Seq<char>>,
    pub task_links: Seq<TaskLinkView>,
    pub done_criteria: Seq<DoneCriterionView>,
    pub schedule: Option<ScheduleView>,
    pub dependencies: Seq<Seq<char>>,
    pub dependents: Option<Seq<Seq<char>>>,
    pub order: Option<u32>,
    pub assignee: Option<Seq<char>>,
    pub lock: Option<TaskLockView>,
    pub scope_paths: Seq<Seq<char>>,
    pub extra: Map<Seq<char>, ExtraEntryView>,
}

impl View for TaskData {
    type V = TaskDataView;

    open spec fn view(&self) -> TaskDataView {
        TaskDataView {
            id: self.id.deep_view(),
            title: self.title.deep_view(),
            status: self.status.deep_view(),
            notes: self.notes.deep_view(),
            priority: self.priority.deep_view(),
            created_at: self.created_at.deep_view(),
            updated_at: self.updated_at.deep_view(),
            completed_at: self.completed_at.deep_view(),
            labels: self.labels.deep_view(),
            links: self.links.deep_view(),
            task_links: self.task_links.deep_view(),
            done_criteria: self.done_criteria.deep_view(),
            schedule: self.schedule.deep_view(),
            dependencies: self.dependencies.deep_view(),
            dependents: self.dependents.deep_view(),
            order: self.order,
            assignee: self.assignee.deep_view(),
            lock: self.lock.deep_view(),
            scope_paths: self.scope_paths.deep_view(),
            extra: self.extra.deep_view(),
        }
    }
}

impl DeepView for TaskData {
    type V = TaskDataView;

    open spec fn deep_view(&self) -> TaskDataView {
        self.view()
    }
}

impl Clone for TaskData {
    fn clone(&self) -> (r: Self)
        ensures
            r@ == self@,
    {
        let r: TaskData = TaskData {
            id: self.id.clone(),
            title: self.title.clone(),
            status: self.status.clone(),
            notes: self.notes.clone(),
            priority: self.priority.clone(),
            created_at: self.created_at.clone(),
            updated_at: self.updated_at.clone(),
            completed_at: self.completed_at.clone(),
            labels: self.labels.clone(),
            links: self.links.clone(),
            task_links: self.task_links.clone(),
            done_criteria: self.done_criteria.clone(),
            schedule: self.schedule.clone(),
            dependencies: self.dependencies.clone(),
            dependents: self.dependents.clone(),
            order: self.order,
            assignee: self.assignee.clone(),
            lock: self.lock.clone(),
            scope_paths: self.scope_paths.clone(),
            extra: self.extra.clone(),
        };
        assert(r.labels.deep_view() =~= self.labels.deep_view());
        assert(r.links.deep_view() =~= self.links.deep_view());
        assert(r.task_links.deep_view() =~= self.task_links.deep_view());
        assert(r.done_criteria.deep_view() =~= self.done_criteria.deep_view());
        assert(r.dependencies.deep_view() =~= self.dependencies.deep_view());
        assert(r.scope_paths.deep_view() =~= self.scope_paths.deep_view());
        r
    }
}

/// An agent, as the substrate lists it.
#[derive(Debug, PartialEq, Eq)]
pub struct AgentRecord {
    /// The agent's id.
    pub agent_id: String,
    /// Its session, when one is live.
    pub session_id: Option<String>,
    /// The working tree that it operates in.
    pub worktree: String,
    /// Its branch, if known.
    pub branch: Option<String>,
    /// `active`, `stale` or `disconnected`.
    pub status: String,
    /// When it registered.
    pub registered_at: String,
    /// When it was last heard from.
    pub last_heartbeat: String,
    /// The tasks that it holds.
    pub claimed_tasks: Vec<String>,
}

/// What a [`AgentRecord`] holds.
#[verifier::ext_equal]
pub struct AgentRecordView {
    pub agent_id: Seq<char>,
    pub session_id: Option<Seq<char>>,
    pub worktree: Seq<char>,
    pub branch: Option<Seq<char>>,
    pub status: Seq<char>,
    pub registered_at: Seq<char>,
    pub last_heartbeat: Seq<char>,
    pub claimed_tasks: Seq<Seq<char>>,
}

impl View for AgentRecord {
    type V = AgentRecordView;

    open spec fn view(&self) -> AgentRecordView {
        AgentRecordView {
            agent_id: self.agent_id.deep_view(),
            session_id: self.session_id.deep_view(),
            worktree: self.worktree.deep_view(),
            branch: self.branch.deep_view(),
            status: self.status.deep_view(),
            registered_at: self.registered_at.deep_view(),
            last_heartbeat: self.last_heartbeat.deep_view(),
            claimed_tasks: self.claimed_tasks.deep_view(),
        }
    }
}

impl DeepView for AgentRecord {
    type V = AgentRecordView;

    open spec fn deep_view(&self) -> AgentRecordView {
        self.view()
    }
}

impl Clone for AgentRecord {
    fn clone(&self) -> (r: Self)
        ensures
            r@ == self@,
    {
        let r: AgentRecord = AgentRecord {
            agent_id: self.agent_id.clone(),
            session_id: self.session_id.clone(),
            worktree: self.worktree.clone(),
            branch: self.branch.clone(),
            status: self.status.clone(),
            registered_at: self.registered_at.clone(),
            last_heartbeat: self.last_heartbeat.clone(),
            claimed_tasks: self.claimed_tasks.clone(),
        };
        assert(r.claimed_tasks.deep_view() =~= self.claimed_tasks.deep_view());
        r
    }
}

/// A list of agents.
#[derive(Debug, PartialEq, Eq)]
pub struct AgentList {
    /// The agents.
    pub agents: Vec<AgentRecord>,
    /// How many there are.
    pub total: u32,
}

/// What a [`AgentList`] holds.
#[verifier::ext_equal]
pub struct AgentListView {
    pub agents: Seq<AgentRecordView>,
    pub total: u32,
}

impl View for AgentList {
    type V = AgentListView;

    open spec fn view(&self) -> AgentListView {
        AgentListView {
            agents: self.agents.deep_view(),
            total: self.total,
        }
    }
}

impl DeepView for AgentList {
    type V = AgentListView;

    open spec fn deep_view(&self) -> AgentListView {
        self.view()
    }
}

impl Clone for AgentList {
    fn clone(&self) -> (r: Self)
        ensures
            r@ == self@,
    {
        let r: AgentList = AgentList {
            agents: self.agents.clone(),
            total: self.total,
        };
        assert(r.agents.deep_view() =~= self.agents.deep_view());
        r
    }
}

/// A session, as the substrate lists it.
#[derive(Debug, PartialEq, Eq)]
pub struct SessionSummary {
    /// The session's id.
    pub id: String,
    /// Its status.
    pub status: String,
    /// What it recorded of itself.
    pub summary: String,
    /// When it started, if known.
    pub started_at: Option<String>,
    /// When it ended, if it has.
    pub ended_at: Option<String>,
    /// The branch it worked on, if recorded.
    pub branch: Option<String>,
    /// The commit it reached, if recorded.
    pub commit: Option<String>,
    /// How many decisions it logged.
    pub decisions_count: u32,
    /// Its progress, such as `3/7`.
    pub checklist_progress: String,
    /// The agent that ran it, if recorded.
    pub agent_id: Option<String>,
    /// The session that it was forked from, if any.
    pub parent_session_id: Option<String>,
    /// The working tree that it ran in, if recorded.
    pub worktree: Option<String>,
}

/// What a [`SessionSummary`] holds.
#[verifier::ext_equal]
pub struct SessionSummaryView {
    pub id: Seq<char>,
    pub status: Seq<char>,
    pub summary: Seq<char>,
    pub started_at: Option<Seq<char>>,
    pub ended_at: Option<Seq<char>>,
    pub branch: Option<Seq<char>>,
    pub commit: Option<Seq<char>>,
    pub decisions_count: u32,
    pub checklist_progress: Seq<char>,
    pub agent_id: Option<Seq<char>>,
    pub parent_session_id: Option<Seq<char>>,
    pub worktree: Option<Seq<char>>,
}

impl View for SessionSummary {
    type V = SessionSummaryView;

    open spec fn view(&self) -> SessionSummaryView {
        SessionSummaryView {
            id: self.id.deep_view(),
            status: self.status.deep_view(),
            summary: self.summary.deep_view(),
            started_at: self.started_at.deep_view(),
            ended_at: self.ended_at.deep_view(),
            branch: self.branch.deep_view(),
            commit: self.commit.deep_view(),
            decisions_count: self.decisions_count,
            checklist_progress: self.checklist_progress.deep_view(),
            agent_id: self.agent_id.deep_view(),
            parent_session_id: self.parent_session_id.deep_view(),
            worktree: self.worktree.deep_view(),
        }
    }
}

impl DeepView for SessionSummary {
    type V = SessionSummaryView;

    open spec fn deep_view(&self) -> SessionSummaryView {
        self.view()
    }
}

impl Clone for SessionSummary {
    fn clone(&self) -> (r: Self)
        ensures
            r@ == self@,
    {
        let r: SessionSummary = SessionSummary {
            id: self.id.clone(),
            status: self.status.clone(),
            summary: self.summary.clone(),
            started_at: self.started_at.clone(),
            ended_at: self.ended_at.clone(),
            branch: self.branch.clone(),
            commit: self.commit.clone(),
            decisions_count: self.decisions_count,
            checklist_progress: self.checklist_progress.clone(),
            agent_id: self.agent_id.clone(),
            parent_session_id: self.parent_session_id.clone(),
            worktree: self.worktree.clone(),
        };
        r
    }
}

/// One task of a tree, with the tasks below it.
#[derive(Debug, PartialEq, Eq)]
pub struct TaskTreeNode {
    /// The task's id.
    pub id: String,
    /// Its title.
    pub title: String,
    /// Its status.
    pub status: String,
    /// The tasks below it.
    pub children: Vec<TaskTreeNode>,
}

/// A tree of tasks.
#[derive(Debug, PartialEq, Eq)]
pub struct TaskTree {
    /// The tasks at the top.
    pub task_tree: Vec<TaskTreeNode>,
}

} // verus!
