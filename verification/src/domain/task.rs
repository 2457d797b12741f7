//! The task, Director's unit of work.
//!
//! A task has no agent field. Assignment is an entity of its own, so that a task
//! passing from agent to agent is an ordinary reassignment: its identity,
//! objective, dependencies and history outlive every agent that touches it.

use crate::domain::capability::{Capability, CapabilityView};
use crate::domain::ids::{SubtaskId, TaskId};
use crate::text::{chars_of, has_prefix, law_a_prefix_has_a_back, starts_with_chars};
use crate::time::{clock_time, Timestamp};
use vstd::prelude::*;
use vstd::string::*;

verus! {

/// Scheduling priority.
#[derive(Debug, Clone, Copy, PartialEq, Eq, Hash, Structural)]
pub enum Priority {
    /// Before anything else.
    Critical,
    /// Important, though it blocks nothing.
    High,
    /// Normal.
    Medium,
    /// It can wait.
    Low,
}

impl DeepView for Priority {
    type V = Priority;

    open spec fn deep_view(&self) -> Priority {
        *self
    }
}

/// The position of a priority: critical first.
pub open spec fn rank_of(p: Priority) -> u32 {
    match p {
        Priority::Critical => 0,
        Priority::High => 1,
        Priority::Medium => 2,
        Priority::Low => 3,
    }
}

/// The name of a priority.
pub open spec fn priority_text(p: Priority) -> Seq<char> {
    match p {
        Priority::Critical => "critical"@,
        Priority::High => "high"@,
        Priority::Medium => "medium"@,
        Priority::Low => "low"@,
    }
}

impl Priority {
    /// The position in scheduling order: lower comes first.
    pub fn rank(self) -> (r: u32)
        ensures
            r == rank_of(self),
    {
        match self {
            Priority::Critical => 0,
            Priority::High => 1,
            Priority::Medium => 2,
            Priority::Low => 3,
        }
    }

    /// The priority's name.
    pub fn to_string(self) -> (r: String)
        ensures
            r@ == priority_text(self),
    {
        match self {
            Priority::Critical => "critical".to_owned(),
            Priority::High => "high".to_owned(),
            Priority::Medium => "medium".to_owned(),
            Priority::Low => "low".to_owned(),
        }
    }
}

/// Rough size, for load balancing.
#[derive(Debug, Clone, Copy, PartialEq, Eq, Hash, Structural)]
pub enum Complexity {
    /// A change of one line.
    Trivial,
    /// A small, contained change.
    Small,
    /// A change of several files.
    Medium,
    /// A change of many files.
    Large,
    /// Not estimated.
    Unknown,
}

impl DeepView for Complexity {
    type V = Complexity;

    open spec fn deep_view(&self) -> Complexity {
        *self
    }
}

/// The weight of a size; what is not estimated weighs most.
pub open spec fn weight_of(c: Complexity) -> u32 {
    match c {
        Complexity::Trivial => 1,
        Complexity::Small => 2,
        Complexity::Medium => 4,
        Complexity::Large => 8,
        Complexity::Unknown => 16,
    }
}

impl Complexity {
    /// The weight in load balancing. What is not estimated weighs most, so that
    /// it is never silently preferred to a task of known size.
    pub fn weight(self) -> (r: u32)
        ensures
            r == weight_of(self),
    {
        match self {
            Complexity::Trivial => 1,
            Complexity::Small => 2,
            Complexity::Medium => 4,
            Complexity::Large => 8,
            Complexity::Unknown => 16,
        }
    }
}

/// Lifecycle state of a task.
///
/// An agent that reports "done" moves its task to
/// [`TaskStatus::VerificationPending`], never to [`TaskStatus::Done`].
#[derive(Debug, Clone, Copy, PartialEq, Eq, Hash, Structural)]
pub enum TaskStatus {
    /// Known, not in an active plan.
    Backlog,
    /// In an active plan, waiting for a dependency or an agent.
    Todo,
    /// An agent is expected to work on it.
    InProgress,
    /// Something blocks it.
    Blocked,
    /// An agent claims completion; nothing has verified it.
    VerificationPending,
    /// Verification passed.
    Done,
    /// Verification failed.
    Failed,
    /// Superseded or abandoned.
    Cancelled,
}

impl DeepView for TaskStatus {
    type V = TaskStatus;

    open spec fn deep_view(&self) -> TaskStatus {
        *self
    }
}

impl TaskStatus {
    /// The states that still ask for work.
    pub open spec fn open_state(self) -> bool {
        ||| self == TaskStatus::Backlog
        ||| self == TaskStatus::Todo
        ||| self == TaskStatus::InProgress
        ||| self == TaskStatus::Blocked
        ||| self == TaskStatus::VerificationPending
    }

    /// The states that end a task.
    pub open spec fn terminal_state(self) -> bool {
        self == TaskStatus::Done || self == TaskStatus::Failed || self == TaskStatus::Cancelled
    }

    /// The states that an agent's own report can lead to.
    pub open spec fn reportable(self) -> bool {
        self == TaskStatus::InProgress || self == TaskStatus::Blocked || self
            == TaskStatus::VerificationPending
    }

    /// Whether the task still asks for work.
    pub fn is_open(self) -> (r: bool)
        ensures
            r == self.open_state(),
    {
        matches!(
            self,
            TaskStatus::Backlog
                | TaskStatus::Todo
                | TaskStatus::InProgress
                | TaskStatus::Blocked
                | TaskStatus::VerificationPending
        )
    }

    /// Whether the task is finished, one way or another.
    pub fn is_terminal(self) -> (r: bool)
        ensures
            r == self.terminal_state(),
    {
        matches!(self, TaskStatus::Done | TaskStatus::Failed | TaskStatus::Cancelled)
    }

    /// Whether an agent's report can put the task into this state.
    pub fn reachable_by_agent_report(self) -> (r: bool)
        ensures
            r == self.reportable(),
    {
        matches!(
            self,
            TaskStatus::InProgress | TaskStatus::Blocked | TaskStatus::VerificationPending
        )
    }
}

/// Something that must be observably true for the task to be done.
#[derive(Debug, PartialEq, Eq)]
pub struct ExpectedOutput {
    /// The criterion in words.
    pub criterion: String,
    /// A form that a machine can check, such as a command.
    pub check: Option<String>,
}

/// What a [`ExpectedOutput`] holds.
#[verifier::ext_equal]
pub struct ExpectedOutputView {
    pub criterion: Seq<char>,
    pub check: Option<Seq<char>>,
}

impl View for ExpectedOutput {
    type V = ExpectedOutputView;

    open spec fn view(&self) -> ExpectedOutputView {
        ExpectedOutputView {
            criterion: self.criterion.deep_view(),
            check: self.check.deep_view(),
        }
    }
}

impl DeepView for ExpectedOutput {
    type V = ExpectedOutputView;

    open spec fn deep_view(&self) -> ExpectedOutputView {
        self.view()
    }
}

impl Clone for ExpectedOutput {
    fn clone(&self) -> (r: Self)
        ensures
            r@ == self@,
    {
        let r: ExpectedOutput = ExpectedOutput {
            criterion: self.criterion.clone(),
            check: self.check.clone(),
        };
        r
    }
}

/// A part of a task. It shares the task's identity, and has no dependencies or
/// capabilities of its own.
#[derive(Debug, PartialEq, Eq)]
pub struct Subtask {
    /// The subtask's identifier.
    pub id: SubtaskId,
    /// The task it belongs to.
    pub parent: TaskId,
    /// A short label.
    pub title: String,
    /// Whether it is complete.
    pub done: bool,
    /// Its position among its siblings.
    pub order: u32,
}

/// What a [`Subtask`] holds.
#[verifier::ext_equal]
pub struct SubtaskView {
    pub id: Seq<char>,
    pub parent: Seq<char>,
    pub title: Seq<char>,
    pub done: bool,
    pub order: u32,
}

impl View for Subtask {
    type V = SubtaskView;

    open spec fn view(&self) -> SubtaskView {
        SubtaskView {
            id: self.id.deep_view(),
            parent: self.parent.deep_view(),
            title: self.title.deep_view(),
            done: self.done,
            order: self.order,
        }
    }
}

impl DeepView for Subtask {
    type V = SubtaskView;

    open spec fn deep_view(&self) -> SubtaskView {
        self.view()
    }
}

impl Clone for Subtask {
    fn clone(&self) -> (r: Self)
        ensures
            r@ == self@,
    {
        let r: Subtask = Subtask {
            id: self.id.clone(),
            parent: self.parent.clone(),
            title: self.title.clone(),
            done: self.done,
            order: self.order,
        };
        r
    }
}

/// A unit of work.
#[derive(Debug, PartialEq, Eq)]
pub struct Task {
    /// The identifier, whichever agent works on the task.
    pub id: TaskId,
    /// A short label.
    pub title: String,
    /// What "done" means.
    pub objective: String,
    /// Criteria for completion.
    pub expected_outputs: Vec<ExpectedOutput>,
    /// Lifecycle state.
    pub status: TaskStatus,
    /// Scheduling priority, if set.
    pub priority: Option<Priority>,
    /// Rough size.
    pub complexity: Complexity,
    /// Tasks that must be done before this one starts.
    pub dependencies: Vec<TaskId>,
    /// Paths that the task may touch.
    pub scope_paths: Vec<String>,
    /// What an agent must be able to do to be given the task.
    pub required_capabilities: Vec<Capability>,
    /// The parts of a larger task.
    pub subtasks: Vec<Subtask>,
    /// When the task was first recorded.
    pub created_at: Timestamp,
    /// When it last changed.
    pub updated_at: Timestamp,
}

/// What a [`Task`] holds.
#[verifier::ext_equal]
pub struct TaskView {
    pub id: Seq<char>,
    pub title: Seq<char>,
    pub objective: Seq<char>,
    pub expected_outputs: Seq<ExpectedOutputView>,
    pub status: TaskStatus,
    pub priority: Option<Priority>,
    pub complexity: Complexity,
    pub dependencies: Seq<Seq<char>>,
    pub scope_paths: Seq<Seq<char>>,
    pub required_capabilities: Seq<CapabilityView>,
    pub subtasks: Seq<SubtaskView>,
    pub created_at: Timestamp,
    pub updated_at: Timestamp,
}

impl View for Task {
    type V = TaskView;

    open spec fn view(&self) -> TaskView {
        TaskView {
            id: self.id.deep_view(),
            title: self.title.deep_view(),
            objective: self.objective.deep_view(),
            expected_outputs: self.expected_outputs.deep_view(),
            status: self.status,
            priority: self.priority,
            complexity: self.complexity,
            dependencies: self.dependencies.deep_view(),
            scope_paths: self.scope_paths.deep_view(),
            required_capabilities: self.required_capabilities.deep_view(),
            subtasks: self.subtasks.deep_view(),
            created_at: self.created_at,
            updated_at: self.updated_at,
        }
    }
}

impl DeepView for Task {
    type V = TaskView;

    open spec fn deep_view(&self) -> TaskView {
        self.view()
    }
}

impl Clone for Task {
    fn clone(&self) -> (r: Self)
        ensures
            r@ == self@,
    {
        let r: Task = Task {
            id: self.id.clone(),
            title: self.title.clone(),
            objective: self.objective.clone(),
            expected_outputs: self.expected_outputs.clone(),
            status: self.status,
            priority: self.priority,
            complexity: self.complexity,
            dependencies: self.dependencies.clone(),
            scope_paths: self.scope_paths.clone(),
            required_capabilities: self.required_capabilities.clone(),
            subtasks: self.subtasks.clone(),
            created_at: self.created_at,
            updated_at: self.updated_at,
        };
        assert(r.expected_outputs.deep_view() =~= self.expected_outputs.deep_view());
        assert(r.dependencies.deep_view() =~= self.dependencies.deep_view());
        assert(r.scope_paths.deep_view() =~= self.scope_paths.deep_view());
        assert(r.required_capabilities.deep_view() =~= self.required_capabilities.deep_view());
        assert(r.subtasks.deep_view() =~= self.subtasks.deep_view());
        r
    }
}

/// A task that was just recorded.
pub open spec fn fresh_task(
    id: Seq<char>,
    title: Seq<char>,
    objective: Seq<char>,
    at: Timestamp,
) -> TaskView {
    TaskView {
        id,
        title,
        objective,
        expected_outputs: Seq::empty(),
        status: TaskStatus::Backlog,
        priority: None,
        complexity: Complexity::Unknown,
        dependencies: Seq::empty(),
        scope_paths: Seq::empty(),
        required_capabilities: Seq::empty(),
        subtasks: Seq::empty(),
        created_at: at,
        updated_at: at,
    }
}

/// A scope path without the slashes at its end.
pub open spec fn scope_root(path: Seq<char>) -> Seq<char>
    decreases path.len(),
{
    if path.len() > 0 && path.last() == '/' {
        scope_root(path.drop_last())
    } else {
        path
    }
}

/// One of two paths is the other, or lies below it.
pub open spec fn paths_overlap(a: Seq<char>, b: Seq<char>) -> bool {
    let (x, y) = (scope_root(a), scope_root(b));
    x == y || has_prefix(x, y.push('/')) || has_prefix(y, x.push('/'))
}

/// Two tasks may touch the same paths.
pub open spec fn scopes_overlap(a: TaskView, b: TaskView) -> bool {
    a.id != b.id && exists|i: int, j: int|
        0 <= i < a.scope_paths.len() && 0 <= j < b.scope_paths.len() && paths_overlap(
            #[trigger] a.scope_paths[i],
            #[trigger] b.scope_paths[j],
        )
}

/// Where the slashes at the end of a path begin.
proof fn lemma_scope_root_at(path: Seq<char>, k: int)
    requires
        0 <= k <= path.len(),
        forall|j: int| k <= j < path.len() ==> path[j] == '/',
        k > 0 ==> path[k - 1] != '/',
    ensures
        scope_root(path) == path.take(k),
    decreases path.len() - k,
{
    if k == path.len() {
        assert(path.take(k) =~= path);
    } else {
        assert(path.drop_last().take(k) =~= path.take(k));
        lemma_scope_root_at(path.drop_last(), k);
    }
}

/// The characters of a scope path without the slashes at its end.
fn scope_root_chars(path: &str) -> (out: Vec<char>)
    ensures
        out@ == scope_root(path@),
{
    let mut out: Vec<char> = chars_of(path);
    let ghost all = out@;
    while out.len() > 0 && out[out.len() - 1] == '/'
        invariant
            out@.len() <= all.len(),
            out@ == all.take(out@.len() as int),
            forall|j: int| out@.len() <= j < all.len() ==> all[j] == '/',
        decreases out@.len(),
    {
        let ghost n = out@.len() as int;
        out.pop();
        assert(out@ =~= all.take(n - 1));
    }
    proof {
        lemma_scope_root_at(all, out@.len() as int);
    }
    out
}

/// Whether one of two scope paths is the other, or lies below it.
fn overlapping_paths(a: &str, b: &str) -> (r: bool)
    ensures
        r == paths_overlap(a@, b@),
{
    let x: Vec<char> = scope_root_chars(a);
    let y: Vec<char> = scope_root_chars(b);
    let mut below_x: Vec<char> = scope_root_chars(a);
    below_x.push('/');
    let mut below_y: Vec<char> = scope_root_chars(b);
    below_y.push('/');
    if x.len() == y.len() && starts_with_chars(&x, &y) {
        assert(x@ =~= x@.take(y@.len() as int));
        return true;
    }
    proof {
        if x@ == y@ {
            assert(x@.take(y@.len() as int) =~= x@);
        }
    }
    starts_with_chars(&x, &below_y) || starts_with_chars(&y, &below_x)
}

impl Task {
    /// Records a task in the backlog, without dependencies or subtasks.
    pub fn new(id: TaskId, title: &str, objective: &str) -> (r: Self)
        ensures
            clock_time(r.created_at@),
            r@ == fresh_task(id@, title@, objective@, r.created_at),
    {
        let now: Timestamp = Timestamp::now();
        let r: Task = Task {
            id,
            title: title.to_owned(),
            objective: objective.to_owned(),
            expected_outputs: Vec::new(),
            status: TaskStatus::Backlog,
            priority: None,
            complexity: Complexity::Unknown,
            dependencies: Vec::new(),
            scope_paths: Vec::new(),
            required_capabilities: Vec::new(),
            subtasks: Vec::new(),
            created_at: now,
            updated_at: now,
        };
        assert(r@ =~= fresh_task(id@, title@, objective@, r.created_at));
        r
    }

    /// Whether every dependency is done, by the statuses that `status_of` gives.
    ///
    /// A dependency that failed, was cancelled or is not known does not unblock
    /// the task.
    pub fn is_ready_given<F: Fn(&TaskId) -> Option<TaskStatus>>(&self, status_of: F) -> (r: bool)
        requires
            forall|i: int|
                0 <= i < self.dependencies@.len() ==> call_requires(
                    status_of,
                    (&#[trigger] self.dependencies@[i],),
                ),
        ensures
            r ==> forall|i: int|
                0 <= i < self.dependencies@.len() ==> call_ensures(
                    status_of,
                    (&#[trigger] self.dependencies@[i],),
                    Some(TaskStatus::Done),
                ),
            !r ==> exists|i: int, status: Option<TaskStatus>|
                0 <= i < self.dependencies@.len() && #[trigger] call_ensures(
                    status_of,
                    (&self.dependencies@[i],),
                    status,
                ) && status != Some(TaskStatus::Done),
    {
        let mut i: usize = 0;
        while i < self.dependencies.len()
            invariant
                i <= self.dependencies.len(),
                forall|k: int|
                    0 <= k < self.dependencies@.len() ==> call_requires(
                        status_of,
                        (&#[trigger] self.dependencies@[k],),
                    ),
                forall|k: int|
                    0 <= k < i ==> call_ensures(
                        status_of,
                        (&#[trigger] self.dependencies@[k],),
                        Some(TaskStatus::Done),
                    ),
            decreases self.dependencies.len() - i,
        {
            let status: Option<TaskStatus> = status_of(&self.dependencies[i]);
            let done: bool = matches!(status, Some(TaskStatus::Done));
            if !done {
                assert(call_ensures(status_of, (&self.dependencies@[i as int],), status));
                return false;
            }
            assert(status == Some(TaskStatus::Done));
            i += 1;
        }
        true
    }

    /// Whether the task and `other` may touch the same paths: one has a scope
    /// path that is, or lies below, one of the other's. Slashes at the end of a
    /// scope path do not matter.
    pub fn overlaps_scope(&self, other: &Task) -> (r: bool)
        ensures
            r == scopes_overlap(self@, other@),
    {
        if self.id.same_as(&other.id) {
            return false;
        }
        let mut i: usize = 0;
        while i < self.scope_paths.len()
            invariant
                i <= self.scope_paths.len(),
                self@.id != other@.id,
                forall|a: int, b: int|
                    0 <= a < i && 0 <= b < other@.scope_paths.len() ==> !paths_overlap(
                        #[trigger] self@.scope_paths[a],
                        #[trigger] other@.scope_paths[b],
                    ),
            decreases self.scope_paths.len() - i,
        {
            let mut j: usize = 0;
            while j < other.scope_paths.len()
                invariant
                    i < self.scope_paths.len(),
                    j <= other.scope_paths.len(),
                    self@.id != other@.id,
                    forall|b: int|
                        0 <= b < j ==> !paths_overlap(
                            self@.scope_paths[i as int],
                            #[trigger] other@.scope_paths[b],
                        ),
                decreases other.scope_paths.len() - j,
            {
                assert(self@.scope_paths[i as int] == self.scope_paths@[i as int]@);
                assert(other@.scope_paths[j as int] == other.scope_paths@[j as int]@);
                if overlapping_paths(self.scope_paths[i].as_str(), other.scope_paths[j].as_str()) {
                    return true;
                }
                j += 1;
            }
            i += 1;
        }
        false
    }

    /// Records a change, stamping `updated_at` with what the clock shows.
    pub fn touch(&mut self)
        ensures
            clock_time(final(self).updated_at@),
            final(self)@ == (TaskView { updated_at: final(self).updated_at, ..old(self)@ }),
    {
        self.touch_at(Timestamp::now());
    }

    /// Records a change that was made at `now`.
    pub fn touch_at(&mut self, now: Timestamp)
        ensures
            final(self)@ == (TaskView { updated_at: now, ..old(self)@ }),
    {
        self.updated_at = now;
    }
}

/// No agent's report completes a task.
pub proof fn law_no_report_reaches_done(status: TaskStatus)
    ensures
        status.reportable() ==> status != TaskStatus::Done && status.open_state(),
{
}

/// Every status is open or terminal, and none is both.
pub proof fn law_open_and_terminal_partition(status: TaskStatus)
    ensures
        status.open_state() <==> !status.terminal_state(),
{
}

/// Scope overlap is symmetric.
pub proof fn law_scope_overlap_is_symmetric(a: TaskView, b: TaskView)
    ensures
        scopes_overlap(a, b) == scopes_overlap(b, a),
{
    if scopes_overlap(a, b) {
        let (i, j) = choose|i: int, j: int|
            0 <= i < a.scope_paths.len() && 0 <= j < b.scope_paths.len() && paths_overlap(
                #[trigger] a.scope_paths[i],
                #[trigger] b.scope_paths[j],
            );
        assert(paths_overlap(b.scope_paths[j], a.scope_paths[i]));
    }
    if scopes_overlap(b, a) {
        let (i, j) = choose|i: int, j: int|
            0 <= i < b.scope_paths.len() && 0 <= j < a.scope_paths.len() && paths_overlap(
                #[trigger] b.scope_paths[i],
                #[trigger] a.scope_paths[j],
            );
        assert(paths_overlap(a.scope_paths[j], b.scope_paths[i]));
    }
}

/// A task does not overlap itself.
pub proof fn law_task_does_not_overlap_itself(a: TaskView)
    ensures
        !scopes_overlap(a, a),
{
}

/// A slash at the end of a scope path changes nothing.
pub proof fn law_trailing_slash_is_ignored(path: Seq<char>, other: Seq<char>)
    ensures
        paths_overlap(path.push('/'), other) == paths_overlap(path, other),
        paths_overlap(path, path.push('/')),
{
    assert(path.push('/').drop_last() =~= path);
}

/// More urgent priorities have lower ranks, and no two share one.
pub proof fn law_priority_ranks_are_distinct(a: Priority, b: Priority)
    ensures
        rank_of(a) == rank_of(b) <==> a == b,
        rank_of(Priority::Critical) <= rank_of(a) <= rank_of(Priority::Low),
{
}

/// A task of unknown size weighs more than any that was estimated.
pub proof fn law_unknown_weighs_most(c: Complexity)
    ensures
        c != Complexity::Unknown ==> weight_of(c) < weight_of(Complexity::Unknown),
{
}

/// Paths without a slash at the end overlap exactly where they are the same or one lies
/// in the other, behind a slash: a name that merely begins alike does not.
pub proof fn law_paths_overlap_where_one_lies_in_the_other(a: Seq<char>, b: Seq<char>)
    requires
        a.len() == 0 || a.last() != '/',
        b.len() == 0 || b.last() != '/',
    ensures
        paths_overlap(a, b) <==> a == b || (exists|rest: Seq<char>| #[trigger]
            (a.push('/') + rest) == b) || (exists|rest: Seq<char>| #[trigger]
            (b.push('/') + rest) == a),
{
    law_a_prefix_has_a_back(a, b.push('/'));
    law_a_prefix_has_a_back(b, a.push('/'));
}

/// Two tasks overlap exactly where they are different ones and some path of one overlaps
/// some path of the other.
pub proof fn law_tasks_overlap_by_their_paths(a: TaskView, b: TaskView)
    ensures
        scopes_overlap(a, b) <==> a.id != b.id && exists|p: Seq<char>, q: Seq<char>|
            a.scope_paths.contains(p) && b.scope_paths.contains(q) && #[trigger] paths_overlap(
                p,
                q,
            ),
{
    if scopes_overlap(a, b) {
        let (i, j) = choose|i: int, j: int|
            0 <= i < a.scope_paths.len() && 0 <= j < b.scope_paths.len() && paths_overlap(
                #[trigger] a.scope_paths[i],
                #[trigger] b.scope_paths[j],
            );
        assert(a.scope_paths.contains(a.scope_paths[i]));
        assert(b.scope_paths.contains(b.scope_paths[j]));
        assert(paths_overlap(a.scope_paths[i], b.scope_paths[j]));
    }
    if a.id != b.id && exists|p: Seq<char>, q: Seq<char>|
        a.scope_paths.contains(p) && b.scope_paths.contains(q) && #[trigger] paths_overlap(p, q) {
        let (p, q) = choose|p: Seq<char>, q: Seq<char>|
            a.scope_paths.contains(p) && b.scope_paths.contains(q) && #[trigger] paths_overlap(
                p,
                q,
            );
        let i = choose|i: int| 0 <= i < a.scope_paths.len() && a.scope_paths[i] == p;
        let j = choose|j: int| 0 <= j < b.scope_paths.len() && b.scope_paths[j] == q;
        assert(paths_overlap(a.scope_paths[i], b.scope_paths[j]));
    }
}

/// Critical comes before high, that before medium, and that before low.
pub proof fn law_the_more_urgent_ranks_lower()
    ensures
        rank_of(Priority::Critical) < rank_of(Priority::High) < rank_of(Priority::Medium) < rank_of(
            Priority::Low,
        ),
{
}

/// The larger a task, the more it weighs.
pub proof fn law_the_larger_weighs_more()
    ensures
        weight_of(Complexity::Trivial) < weight_of(Complexity::Small) < weight_of(
            Complexity::Medium,
        ) < weight_of(Complexity::Large) < weight_of(Complexity::Unknown),
{
}

/// A task is finished exactly where it is done, failed or cancelled, and an agent can
/// report exactly that it works on it, is blocked, or awaits verification.
pub proof fn law_what_is_finished_and_what_can_be_reported(status: TaskStatus)
    ensures
        status.terminal_state() <==> status == TaskStatus::Done || status == TaskStatus::Failed
            || status == TaskStatus::Cancelled,
        status.reportable() <==> status == TaskStatus::InProgress || status == TaskStatus::Blocked
            || status == TaskStatus::VerificationPending,
{
}

/// A new task is open and bare: it waits in the backlog for nothing, and nothing is
/// known of it but what it was given.
pub proof fn law_a_new_task_is_open_and_bare(
    id: Seq<char>,
    title: Seq<char>,
    objective: Seq<char>,
    at: Timestamp,
)
    ensures
        ({
            let t = fresh_task(id, title, objective, at);
            &&& t.id == id && t.title == title && t.objective == objective
            &&& t.status == TaskStatus::Backlog && t.status.open_state()
            &&& t.dependencies.len() == 0 && t.scope_paths.len() == 0 && t.subtasks.len() == 0
            &&& t.expected_outputs.len() == 0 && t.required_capabilities.len() == 0
            &&& t.priority is None && t.complexity == Complexity::Unknown
            &&& t.created_at == at && t.updated_at == at
        }),
{
}

} // verus!
