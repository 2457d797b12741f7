//! A complete substrate in memory.
//!
//! It keeps what a real substrate must keep: ids occur once, handoffs are claimed
//! once, and a task is ready only when everything it depends on is done.

use crate::domain::agent::{
    liveness_after, silence_minutes, Agent, AgentStatus, AgentView,
};
use crate::domain::handoff::{
    accepted, acceptance, Handoff, HandoffError, HandoffState, HandoffView,
};
use crate::domain::ids::{AgentId, HandoffId, ProjectId, SessionId, TaskId};
use crate::domain::project::{Project, ProjectView};
use crate::domain::providers::{
    Memory, MemoryQuery, MemoryView, ProviderError, ProviderErrorView,
};
use crate::domain::session::{closed, forked, AgentSession, AgentSessionView, SessionEnd};
use crate::domain::state::{ProjectState, ProjectStateView};
use crate::domain::task::{Task, TaskStatus, TaskView};
use crate::order::{in_order, lemma_in_order, sorted, Precedence};
use crate::path::{
    is_verbatim, lemma_trailing_slash, normal_path, normalized, with_slashes, PathStyle,
};
use crate::registry::{
    lemma_filter_from, lemma_filter_into, lists, lists_by, All, Keyed, Registry, Selection,
};
use crate::text::{
    chars_of, contains_chars, has_part, joined, law_words_are_the_stretches_without_whitespace,
    lowercase, lowercase_text, split_words, text_lt, word_at, words,
};
use crate::time::{clock_time, earlier, Timestamp};
use vstd::prelude::*;
use vstd::string::*;

verus! {

/// What the in-memory substrate can fail with.
#[derive(Debug, PartialEq, Eq)]
pub enum InMemoryError {
    /// There is no record with the id.
    NotFound(String),
    /// There is a record with the id.
    AlreadyExists(String),
    /// A handoff was consumed, or is addressed elsewhere.
    Handoff(HandoffError),
}

/// What a [`InMemoryError`] holds.
#[verifier::ext_equal]
pub enum InMemoryErrorView {
    NotFound(Seq<char>),
    AlreadyExists(Seq<char>),
    Handoff(HandoffError),
}

impl View for InMemoryError {
    type V = InMemoryErrorView;

    open spec fn view(&self) -> InMemoryErrorView {
        match self {
            InMemoryError::NotFound(x) => InMemoryErrorView::NotFound(x.deep_view()),
            InMemoryError::AlreadyExists(x) => InMemoryErrorView::AlreadyExists(x.deep_view()),
            InMemoryError::Handoff(x) => InMemoryErrorView::Handoff(*x),
        }
    }
}

impl DeepView for InMemoryError {
    type V = InMemoryErrorView;

    open spec fn deep_view(&self) -> InMemoryErrorView {
        self.view()
    }
}

impl Clone for InMemoryError {
    fn clone(&self) -> (r: Self)
        ensures
            r@ == self@,
    {
        match self {
            InMemoryError::NotFound(x) => InMemoryError::NotFound(x.clone()),
            InMemoryError::AlreadyExists(x) => InMemoryError::AlreadyExists(x.clone()),
            InMemoryError::Handoff(x) => InMemoryError::Handoff(*x),
        }
    }
}

/// An error in words.
pub open spec fn in_memory_error_text(e: InMemoryErrorView) -> Seq<char> {
    match e {
        InMemoryErrorView::NotFound(what) => "not found: "@ + what,
        InMemoryErrorView::AlreadyExists(what) => "already exists: "@ + what,
        InMemoryErrorView::Handoff(HandoffError::AlreadyConsumed) =>
            "handoff error: handoff is no longer open"@,
        InMemoryErrorView::Handoff(HandoffError::WrongAgent) =>
            "handoff error: handoff is addressed to a different agent"@,
    }
}

/// An error in the words of the provider boundary.
pub open spec fn provider_error_of(e: InMemoryErrorView) -> ProviderErrorView {
    match e {
        InMemoryErrorView::NotFound(what) => ProviderErrorView::NotFound(what),
        InMemoryErrorView::AlreadyExists(what) => ProviderErrorView::Conflict(what),
        InMemoryErrorView::Handoff(HandoffError::WrongAgent) => ProviderErrorView::Conflict(
            "handoff addressed to a different agent"@,
        ),
        InMemoryErrorView::Handoff(HandoffError::AlreadyConsumed) => ProviderErrorView::Conflict(
            "handoff already consumed"@,
        ),
    }
}

impl InMemoryError {
    /// The error in words.
    pub fn to_string(&self) -> (r: String)
        ensures
            r@ == in_memory_error_text(self@),
    {
        match self {
            InMemoryError::NotFound(what) => joined("not found: ", what.as_str()),
            InMemoryError::AlreadyExists(what) => joined("already exists: ", what.as_str()),
            InMemoryError::Handoff(HandoffError::AlreadyConsumed) =>
                "handoff error: handoff is no longer open".to_owned(),
            InMemoryError::Handoff(HandoffError::WrongAgent) =>
                "handoff error: handoff is addressed to a different agent".to_owned(),
        }
    }
}

impl vstd::std_specs::convert::FromSpecImpl<InMemoryError> for ProviderError {
    open spec fn obeys_from_spec() -> bool {
        false
    }

    open spec fn from_spec(v: InMemoryError) -> ProviderError {
        arbitrary()
    }
}

impl From<InMemoryError> for ProviderError {
    /// The error in the vocabulary that all providers share.
    fn from(err: InMemoryError) -> (r: Self)
        ensures
            r@ == provider_error_of(err@),
    {
        match err {
            InMemoryError::NotFound(what) => ProviderError::NotFound(what),
            InMemoryError::AlreadyExists(what) => ProviderError::Conflict(what),
            InMemoryError::Handoff(HandoffError::WrongAgent) => ProviderError::Conflict(
                "handoff addressed to a different agent".to_owned(),
            ),
            InMemoryError::Handoff(HandoffError::AlreadyConsumed) => ProviderError::Conflict(
                "handoff already consumed".to_owned(),
            ),
        }
    }
}

/// The state to be observed at a path.
#[derive(Debug, PartialEq, Eq)]
pub struct SeededState {
    /// The path, in normal form.
    pub root: String,
    /// The state.
    pub state: ProjectState,
}

/// What a [`SeededState`] holds.
#[verifier::ext_equal]
pub struct SeededStateView {
    pub root: Seq<char>,
    pub state: ProjectStateView,
}

impl View for SeededState {
    type V = SeededStateView;

    open spec fn view(&self) -> SeededStateView {
        SeededStateView {
            root: self.root.deep_view(),
            state: self.state.deep_view(),
        }
    }
}

impl DeepView for SeededState {
    type V = SeededStateView;

    open spec fn deep_view(&self) -> SeededStateView {
        self.view()
    }
}

impl Clone for SeededState {
    fn clone(&self) -> (r: Self)
        ensures
            r@ == self@,
    {
        let r: SeededState = SeededState {
            root: self.root.clone(),
            state: self.state.clone(),
        };
        r
    }
}

impl Keyed for Task {
    open spec fn key_of(v: TaskView) -> Seq<char> {
        v.id
    }

    fn key(&self) -> (k: &str) {
        self.id.as_str()
    }

    fn duplicate(&self) -> (r: Self) {
        self.clone()
    }
}

impl Keyed for Agent {
    open spec fn key_of(v: AgentView) -> Seq<char> {
        v.id
    }

    fn key(&self) -> (k: &str) {
        self.id.as_str()
    }

    fn duplicate(&self) -> (r: Self) {
        self.clone()
    }
}

impl Keyed for AgentSession {
    open spec fn key_of(v: AgentSessionView) -> Seq<char> {
        v.id
    }

    fn key(&self) -> (k: &str) {
        self.id.as_str()
    }

    fn duplicate(&self) -> (r: Self) {
        self.clone()
    }
}

impl Keyed for Handoff {
    open spec fn key_of(v: HandoffView) -> Seq<char> {
        v.id
    }

    fn key(&self) -> (k: &str) {
        self.id.as_str()
    }

    fn duplicate(&self) -> (r: Self) {
        self.clone()
    }
}

impl Keyed for Project {
    open spec fn key_of(v: ProjectView) -> Seq<char> {
        v.id
    }

    fn key(&self) -> (k: &str) {
        self.id.as_str()
    }

    fn duplicate(&self) -> (r: Self) {
        self.clone()
    }
}

impl Keyed for SeededState {
    open spec fn key_of(v: SeededStateView) -> Seq<char> {
        v.root
    }

    fn key(&self) -> (k: &str) {
        self.root.as_str()
    }

    fn duplicate(&self) -> (r: Self) {
        self.clone()
    }
}

/// The status of a task, when it is known.
pub open spec fn status_in(tasks: Map<Seq<char>, TaskView>, id: Seq<char>) -> Option<TaskStatus> {
    if tasks.contains_key(id) {
        Some(tasks[id].status)
    } else {
        None
    }
}

/// Every dependency of the task is done.
pub open spec fn dependencies_done(tasks: Map<Seq<char>, TaskView>, task: TaskView) -> bool {
    forall|i: int|
        0 <= i < task.dependencies.len() ==> status_in(tasks, #[trigger] task.dependencies[i])
            == Some(TaskStatus::Done)
}

/// The task can be worked on: it is not finished, and every dependency is done.
pub open spec fn is_ready(tasks: Map<Seq<char>, TaskView>, task: TaskView) -> bool {
    !task.status.terminal_state() && dependencies_done(tasks, task)
}

/// Tasks that can be worked on.
struct ReadyAmong<'a> {
    tasks: &'a Registry<Task>,
}

impl<'a> Selection<Task> for ReadyAmong<'a> {
    closed spec fn selects(&self, v: TaskView) -> bool {
        is_ready(self.tasks@, v)
    }

    closed spec fn ready(&self) -> bool {
        self.tasks.well_formed()
    }

    fn test(&self, row: &Task) -> (r: bool) {
        if row.status.is_terminal() {
            return false;
        }
        let tasks: &Registry<Task> = self.tasks;
        let status_of = |id: &TaskId| -> (status: Option<TaskStatus>)
            requires
                tasks.well_formed(),
            ensures
                status == status_in(tasks@, id@),
            {
                match tasks.get(id.as_str()) {
                    Some(task) => Some(task.status),
                    None => None,
                }
            };
        let r: bool = row.is_ready_given(status_of);
        proof {
            let deps = row@.dependencies;
            if r {
                assert forall|i: int| 0 <= i < deps.len() implies status_in(
                    tasks@,
                    #[trigger] deps[i],
                ) == Some(TaskStatus::Done) by {
                    assert(call_ensures(
                        status_of,
                        (&row.dependencies@[i],),
                        Some(TaskStatus::Done),
                    ));
                }
            } else {
                let (i, status) = choose|i: int, status: Option<TaskStatus>|
                    0 <= i < row.dependencies@.len() && #[trigger] call_ensures(
                        status_of,
                        (&row.dependencies@[i],),
                        status,
                    ) && status != Some(TaskStatus::Done);
                assert(status_in(tasks@, deps[i]) != Some(TaskStatus::Done));
            }
        }
        r
    }
}

/// Agents that can be given work.
struct CanAcceptWork;

impl Selection<Agent> for CanAcceptWork {
    closed spec fn selects(&self, v: AgentView) -> bool {
        v.status == AgentStatus::Available
    }

    closed spec fn ready(&self) -> bool {
        true
    }

    fn test(&self, row: &Agent) -> (r: bool) {
        row.status.can_accept_work()
    }
}

/// Sessions that were launched against a task.
struct ForTask<'a> {
    task: &'a TaskId,
}

impl<'a> Selection<AgentSession> for ForTask<'a> {
    closed spec fn selects(&self, v: AgentSessionView) -> bool {
        v.task_id == Some(self.task@)
    }

    closed spec fn ready(&self) -> bool {
        true
    }

    fn test(&self, row: &AgentSession) -> (r: bool) {
        match &row.task_id {
            Some(id) => id.same_as(self.task),
            None => false,
        }
    }
}

/// Handoffs that wait to be claimed.
struct StillOpen;

impl Selection<Handoff> for StillOpen {
    closed spec fn selects(&self, v: HandoffView) -> bool {
        v.state == HandoffState::Open
    }

    closed spec fn ready(&self) -> bool {
        true
    }

    fn test(&self, row: &Handoff) -> (r: bool) {
        row.state.is_open()
    }
}

/// Sessions in the order in which they began.
pub struct ByStart;

impl Precedence<AgentSession> for ByStart {
    open spec fn before(a: AgentSessionView, b: AgentSessionView) -> bool {
        earlier(a.started_at@, b.started_at@)
    }

    proof fn weak_order(a: AgentSessionView, b: AgentSessionView, c: AgentSessionView) {
    }

    fn is_before(a: &AgentSession, b: &AgentSession) -> (r: bool) {
        a.started_at.is_before(b.started_at)
    }
}

/// Handoffs in the order in which they were opened.
pub struct ByCreation;

impl Precedence<Handoff> for ByCreation {
    open spec fn before(a: HandoffView, b: HandoffView) -> bool {
        earlier(a.created_at@, b.created_at@)
    }

    proof fn weak_order(a: HandoffView, b: HandoffView, c: HandoffView) {
    }

    fn is_before(a: &Handoff, b: &Handoff) -> (r: bool) {
        a.created_at.is_before(b.created_at)
    }
}

/// Memories, the latest first.
pub struct NewestFirst;

impl Precedence<Memory> for NewestFirst {
    open spec fn before(a: MemoryView, b: MemoryView) -> bool {
        earlier(b.updated_at@, a.updated_at@)
    }

    proof fn weak_order(a: MemoryView, b: MemoryView, c: MemoryView) {
    }

    fn is_before(a: &Memory, b: &Memory) -> (r: bool) {
        b.updated_at.is_before(a.updated_at)
    }
}

/// Each word of `needle` stands in the body or in the title.
pub open spec fn mentions(needle: Seq<char>, body: Seq<char>, title: Seq<char>) -> bool {
    forall|i: int|
        0 <= i < words(needle).len() ==> has_part(body, #[trigger] words(needle)[i]) || has_part(
            title,
            words(needle)[i],
        )
}

/// A memory answers a query, whatever the letters' case.
pub open spec fn answers(m: MemoryView, text: Seq<char>) -> bool {
    mentions(lowercase(text), lowercase(m.body), lowercase(m.title))
}

/// The first `n` elements, or all when there are fewer.
pub open spec fn at_most<A>(s: Seq<A>, n: int) -> Seq<A> {
    if n < s.len() {
        s.take(n)
    } else {
        s
    }
}

/// The memories that a query finds: of those that answer it the first that were saved,
/// as many as asked for, the newest of them first.
pub open spec fn memories_found(
    memories: Seq<MemoryView>,
    text: Seq<char>,
    limit: int,
) -> Seq<MemoryView> {
    in_order::<Memory, NewestFirst>(
        at_most(memories.filter(|m: MemoryView| answers(m, text)), limit),
    )
}

/// The newest memories, as many as asked for.
pub open spec fn latest_memories(memories: Seq<MemoryView>, limit: int) -> Seq<MemoryView> {
    at_most(in_order::<Memory, NewestFirst>(memories), limit)
}

/// Whether each word of `needle` stands in the body or in the title.
pub fn mentioned(needle: &str, body: &str, title: &str) -> (r: bool)
    ensures
        r == mentions(needle@, body@, title@),
{
    let wanted: Vec<Vec<char>> = split_words(needle);
    let in_body: Vec<char> = chars_of(body);
    let in_title: Vec<char> = chars_of(title);
    let ghost all = words(needle@);
    let mut i: usize = 0;
    while i < wanted.len()
        invariant
            i <= wanted.len(),
            wanted.deep_view() == all,
            all == words(needle@),
            in_body@ == body@,
            in_title@ == title@,
            forall|j: int|
                0 <= j < i ==> has_part(body@, #[trigger] all[j]) || has_part(title@, all[j]),
        decreases wanted.len() - i,
    {
        assert(all[i as int] == wanted@[i as int].deep_view());
        assert(all[i as int] =~= wanted@[i as int]@);
        if !contains_chars(&in_body, &wanted[i]) && !contains_chars(&in_title, &wanted[i]) {
            assert(!has_part(body@, all[i as int]) && !has_part(title@, all[i as int]));
            return false;
        }
        i += 1;
    }
    true
}

/// What the provider holds.
#[verifier::ext_equal]
pub struct InMemoryView {
    pub tasks: Map<Seq<char>, TaskView>,
    pub agents: Map<Seq<char>, AgentView>,
    pub sessions: Map<Seq<char>, AgentSessionView>,
    pub handoffs: Map<Seq<char>, HandoffView>,
    pub memories: Seq<MemoryView>,
    pub projects: Map<Seq<char>, ProjectView>,
    pub states: Map<Seq<char>, SeededStateView>,
    pub path_style: PathStyle,
}

/// The contents of a provider that holds nothing.
pub open spec fn nothing(path_style: PathStyle) -> InMemoryView {
    InMemoryView {
        tasks: Map::empty(),
        agents: Map::empty(),
        sessions: Map::empty(),
        handoffs: Map::empty(),
        memories: Seq::empty(),
        projects: Map::empty(),
        states: Map::empty(),
        path_style,
    }
}

/// The contents after a task was written.
pub open spec fn with_task(s: InMemoryView, task: TaskView) -> InMemoryView {
    InMemoryView { tasks: s.tasks.insert(task.id, task), ..s }
}

/// The contents after an agent was registered.
pub open spec fn with_agent(s: InMemoryView, agent: AgentView) -> InMemoryView {
    InMemoryView { agents: s.agents.insert(agent.id, agent), ..s }
}

/// The contents after a session was started.
pub open spec fn with_session(s: InMemoryView, session: AgentSessionView) -> InMemoryView {
    InMemoryView { sessions: s.sessions.insert(session.id, session), ..s }
}

/// The contents after a handoff was opened.
pub open spec fn with_handoff(s: InMemoryView, handoff: HandoffView) -> InMemoryView {
    InMemoryView { handoffs: s.handoffs.insert(handoff.id, handoff), ..s }
}

/// The contents after a memory was saved.
pub open spec fn with_memory(s: InMemoryView, memory: MemoryView) -> InMemoryView {
    InMemoryView { memories: s.memories.push(memory), ..s }
}

/// The contents after it was set what is observed at `root`.
pub open spec fn with_state(
    s: InMemoryView,
    root: Seq<char>,
    state: ProjectStateView,
) -> InMemoryView {
    InMemoryView {
        states: s.states.insert(
            normal_path(s.path_style, root),
            (SeededStateView { root: normal_path(s.path_style, root), state }),
        ),
        ..s
    }
}

/// Every provider in one, in memory.
#[derive(Debug)]
pub struct InMemoryProvider {
    tasks: Registry<Task>,
    agents: Registry<Agent>,
    sessions: Registry<AgentSession>,
    handoffs: Registry<Handoff>,
    memories: Vec<Memory>,
    projects: Registry<Project>,
    states: Registry<SeededState>,
    path_style: PathStyle,
}

impl View for InMemoryProvider {
    type V = InMemoryView;

    closed spec fn view(&self) -> InMemoryView {
        InMemoryView {
            tasks: self.tasks@,
            agents: self.agents@,
            sessions: self.sessions@,
            handoffs: self.handoffs@,
            memories: self.memories.deep_view(),
            projects: self.projects@,
            states: self.states@,
            path_style: self.path_style,
        }
    }
}

impl Default for InMemoryProvider {
    /// A provider that holds nothing.
    fn default() -> (r: Self)
        ensures
            r.well_formed(),
            r@ == nothing(r@.path_style),
    {
        InMemoryProvider::new()
    }
}

/// The error for a record that is not there.
fn not_found(id: &str) -> (r: InMemoryError)
    ensures
        r@ == InMemoryErrorView::NotFound(id@),
{
    InMemoryError::NotFound(id.to_owned())
}

/// The error for a record that is there.
fn already_exists(id: &str) -> (r: InMemoryError)
    ensures
        r@ == InMemoryErrorView::AlreadyExists(id@),
{
    InMemoryError::AlreadyExists(id.to_owned())
}

impl InMemoryProvider {
    /// Every id occurs once.
    pub closed spec fn well_formed(self) -> bool {
        &&& self.tasks.well_formed()
        &&& self.agents.well_formed()
        &&& self.sessions.well_formed()
        &&& self.handoffs.well_formed()
        &&& self.projects.well_formed()
        &&& self.states.well_formed()
    }

    /// A provider that holds nothing and takes paths as this platform writes them. Which
    /// of the two styles that is rests on the platform.
    pub fn new() -> (r: Self)
        ensures
            r.well_formed(),
            r@ == nothing(r@.path_style),
    {
        Self::with_path_style(PathStyle::by_backslash(std::path::is_separator('\\')))
    }

    /// A provider that holds nothing and takes paths as they are written in a style.
    pub fn with_path_style(path_style: PathStyle) -> (r: Self)
        ensures
            r.well_formed(),
            r@ == nothing(path_style),
    {
        let r: InMemoryProvider = InMemoryProvider {
            tasks: Registry::new(),
            agents: Registry::new(),
            sessions: Registry::new(),
            handoffs: Registry::new(),
            memories: Vec::new(),
            projects: Registry::new(),
            states: Registry::new(),
            path_style,
        };
        assert(r.memories.deep_view() =~= Seq::empty());
        r
    }

    /// Sets what will be observed at `root`.
    pub fn seed_state(&mut self, root: &str, state: ProjectState)
        requires
            old(self).well_formed(),
        ensures
            final(self).well_formed(),
            final(self)@ == with_state(old(self)@, root@, state@),
    {
        self.states.insert(SeededState { root: normalized(self.path_style, root), state });
    }

    /// The number of tasks.
    pub fn task_count(&self) -> (n: usize)
        requires
            self.well_formed(),
        ensures
            n == self@.tasks.dom().len(),
    {
        self.tasks.len()
    }

    /// The number of agents.
    pub fn agent_count(&self) -> (n: usize)
        requires
            self.well_formed(),
        ensures
            n == self@.agents.dom().len(),
    {
        self.agents.len()
    }

    /// Stores a new task.
    pub fn create_task(&mut self, task: Task) -> (r: Result<Task, InMemoryError>)
        requires
            old(self).well_formed(),
        ensures
            final(self).well_formed(),
            match r {
                Ok(stored) => {
                    &&& !old(self)@.tasks.contains_key(task@.id)
                    &&& stored@ == task@
                    &&& final(self)@ == with_task(old(self)@, task@)
                },
                Err(e) => {
                    &&& old(self)@.tasks.contains_key(task@.id)
                    &&& e@ == InMemoryErrorView::AlreadyExists(task@.id)
                    &&& final(self)@ == old(self)@
                },
            },
    {
        if self.tasks.contains_key(task.id.as_str()) {
            return Err(already_exists(task.id.as_str()));
        }
        self.tasks.insert(task.clone());
        Ok(task)
    }

    /// The task with `id`; `None` when there is none.
    pub fn get_task(&self, id: &TaskId) -> (r: Result<Option<Task>, InMemoryError>)
        requires
            self.well_formed(),
        ensures
            r is Ok,
            r->Ok_0 is Some <==> self@.tasks.contains_key(id@),
            r->Ok_0 is Some ==> r->Ok_0->0@ == self@.tasks[id@],
    {
        match self.tasks.get(id.as_str()) {
            Some(task) => Ok(Some(task.clone())),
            None => Ok(None),
        }
    }

    /// Every task, in ascending order of ids.
    pub fn list_tasks(&self) -> (r: Result<Vec<Task>, InMemoryError>)
        requires
            self.well_formed(),
        ensures
            r is Ok,
            lists::<Task>(r->Ok_0.deep_view(), self@.tasks, |t: TaskView| true),
    {
        let out: Vec<Task> = self.tasks.listed(&All);
        assert(lists::<Task>(out.deep_view(), self@.tasks, |t: TaskView| true));
        Ok(out)
    }

    /// Replaces a task.
    pub fn update_task(&mut self, task: Task) -> (r: Result<Task, InMemoryError>)
        requires
            old(self).well_formed(),
        ensures
            final(self).well_formed(),
            match r {
                Ok(stored) => {
                    &&& old(self)@.tasks.contains_key(task@.id)
                    &&& stored@ == task@
                    &&& final(self)@ == with_task(old(self)@, task@)
                },
                Err(e) => {
                    &&& !old(self)@.tasks.contains_key(task@.id)
                    &&& e@ == InMemoryErrorView::NotFound(task@.id)
                    &&& final(self)@ == old(self)@
                },
            },
    {
        if !self.tasks.contains_key(task.id.as_str()) {
            return Err(not_found(task.id.as_str()));
        }
        self.tasks.insert(task.clone());
        Ok(task)
    }

    /// Records a task's status.
    pub fn set_task_status(&mut self, id: &TaskId, status: TaskStatus) -> (r: Result<
        (),
        InMemoryError,
    >)
        requires
            old(self).well_formed(),
        ensures
            final(self).well_formed(),
            match r {
                Ok(_) => {
                    &&& old(self)@.tasks.contains_key(id@)
                    &&& final(self)@.tasks.contains_key(id@)
                    &&& clock_time(final(self)@.tasks[id@].updated_at@)
                    &&& final(self)@ == (InMemoryView {
                        tasks: old(self)@.tasks.insert(
                            id@,
                            (TaskView {
                                status,
                                updated_at: final(self)@.tasks[id@].updated_at,
                                ..old(self)@.tasks[id@]
                            }),
                        ),
                        ..old(self)@
                    })
                },
                Err(e) => {
                    &&& !old(self)@.tasks.contains_key(id@)
                    &&& e@ == InMemoryErrorView::NotFound(id@)
                    &&& final(self)@ == old(self)@
                },
            },
            r is Ok ==> final(self)@ == with_status(
                old(self)@,
                id@,
                status,
                final(self)@.tasks[id@].updated_at,
            ),
    {
        let mut task: Task = match self.tasks.get(id.as_str()) {
            Some(task) => task.clone(),
            None => {
                return Err(not_found(id.as_str()));
            },
        };
        task.status = status;
        task.touch();
        self.tasks.insert(task);
        Ok(())
    }

    /// The tasks that can be worked on, in ascending order of ids: those that are
    /// not finished and whose dependencies are all done.
    pub fn ready_tasks(&self) -> (r: Result<Vec<Task>, InMemoryError>)
        requires
            self.well_formed(),
        ensures
            r is Ok,
            lists::<Task>(
                r->Ok_0.deep_view(),
                self@.tasks,
                |t: TaskView| is_ready(self@.tasks, t),
            ),
    {
        let selection: ReadyAmong = ReadyAmong { tasks: &self.tasks };
        let out: Vec<Task> = self.tasks.listed(&selection);
        assert(lists::<Task>(out.deep_view(), self@.tasks, |t: TaskView| selection.selects(t)));
        assert(lists::<Task>(
            out.deep_view(),
            self@.tasks,
            |t: TaskView| is_ready(self@.tasks, t),
        ));
        Ok(out)
    }

    /// Records that `task` depends on `dependency`, once.
    pub fn add_dependency(&mut self, task: &TaskId, dependency: &TaskId) -> (r: Result<
        (),
        InMemoryError,
    >)
        requires
            old(self).well_formed(),
        ensures
            final(self).well_formed(),
            match r {
                Ok(_) => {
                    &&& old(self)@.tasks.contains_key(task@)
                    &&& final(self)@.tasks.contains_key(task@)
                    &&& old(self)@.tasks[task@].dependencies.contains(dependency@) ==> final(self)@ == old(self)@
                    &&& !old(self)@.tasks[task@].dependencies.contains(dependency@) ==> clock_time(
                        final(self)@.tasks[task@].updated_at@,
                    )
                    &&& !old(self)@.tasks[task@].dependencies.contains(dependency@) ==> final(self)@ == (InMemoryView {
                        tasks: old(self)@.tasks.insert(
                            task@,
                            (TaskView {
                                dependencies: old(self)@.tasks[task@].dependencies.push(
                                    dependency@,
                                ),
                                updated_at: final(self)@.tasks[task@].updated_at,
                                ..old(self)@.tasks[task@]
                            }),
                        ),
                        ..old(self)@
                    })
                },
                Err(e) => {
                    &&& !old(self)@.tasks.contains_key(task@)
                    &&& e@ == InMemoryErrorView::NotFound(task@)
                    &&& final(self)@ == old(self)@
                },
            },
            r is Ok ==> final(self)@ == with_dependency(
                old(self)@,
                task@,
                dependency@,
                final(self)@.tasks[task@].updated_at,
            ),
    {
        let mut owner: Task = match self.tasks.get(task.as_str()) {
            Some(found) => found.clone(),
            None => {
                return Err(not_found(task.as_str()));
            },
        };
        if !dependency.is_among(&owner.dependencies) {
            let ghost before = owner.dependencies.deep_view();
            owner.dependencies.push(dependency.clone());
            assert(owner.dependencies.deep_view() =~= before.push(dependency@));
            owner.touch();
            self.tasks.insert(owner);
        }
        Ok(())
    }

    /// Registers an agent.
    pub fn register_agent(&mut self, agent: Agent) -> (r: Result<Agent, InMemoryError>)
        requires
            old(self).well_formed(),
        ensures
            final(self).well_formed(),
            match r {
                Ok(stored) => {
                    &&& !old(self)@.agents.contains_key(agent@.id)
                    &&& stored@ == agent@
                    &&& final(self)@ == with_agent(old(self)@, agent@)
                },
                Err(e) => {
                    &&& old(self)@.agents.contains_key(agent@.id)
                    &&& e@ == InMemoryErrorView::AlreadyExists(agent@.id)
                    &&& final(self)@ == old(self)@
                },
            },
    {
        if self.agents.contains_key(agent.id.as_str()) {
            return Err(already_exists(agent.id.as_str()));
        }
        self.agents.insert(agent.clone());
        Ok(agent)
    }

    /// The agent with `id`; `None` when there is none.
    pub fn get_agent(&self, id: &AgentId) -> (r: Result<Option<Agent>, InMemoryError>)
        requires
            self.well_formed(),
        ensures
            r is Ok,
            r->Ok_0 is Some <==> self@.agents.contains_key(id@),
            r->Ok_0 is Some ==> r->Ok_0->0@ == self@.agents[id@],
    {
        match self.agents.get(id.as_str()) {
            Some(agent) => Ok(Some(agent.clone())),
            None => Ok(None),
        }
    }

    /// Every agent, in ascending order of ids.
    pub fn list_agents(&self) -> (r: Result<Vec<Agent>, InMemoryError>)
        requires
            self.well_formed(),
        ensures
            r is Ok,
            lists::<Agent>(r->Ok_0.deep_view(), self@.agents, |a: AgentView| true),
    {
        let out: Vec<Agent> = self.agents.listed(&All);
        assert(lists::<Agent>(out.deep_view(), self@.agents, |a: AgentView| true));
        Ok(out)
    }

    /// Records a heartbeat, and tells the liveness that follows from the time
    /// since. The recorded status stays as it is: availability is a matter of
    /// assignment.
    pub fn heartbeat(&mut self, id: &AgentId) -> (r: Result<AgentStatus, InMemoryError>)
        requires
            old(self).well_formed(),
        ensures
            final(self).well_formed(),
            match r {
                Ok(status) => {
                    &&& old(self)@.agents.contains_key(id@)
                    &&& final(self)@.agents.contains_key(id@)
                    &&& final(self)@ == (InMemoryView {
                        agents: old(self)@.agents.insert(
                            id@,
                            (AgentView {
                                last_seen: final(self)@.agents[id@].last_seen,
                                ..old(self)@.agents[id@]
                            }),
                        ),
                        ..old(self)@
                    })
                    &&& clock_time(final(self)@.agents[id@].last_seen@)
                    &&& exists|now: Timestamp|
                        clock_time(now@) && status == liveness_after(
                            #[trigger] silence_minutes(now, final(self)@.agents[id@].last_seen),
                        )
                },
                Err(e) => {
                    &&& !old(self)@.agents.contains_key(id@)
                    &&& e@ == InMemoryErrorView::NotFound(id@)
                    &&& final(self)@ == old(self)@
                },
            },
            r is Ok ==> final(self)@ == with_last_seen(
                old(self)@,
                id@,
                final(self)@.agents[id@].last_seen,
            ),
    {
        let mut agent: Agent = match self.agents.get(id.as_str()) {
            Some(agent) => agent.clone(),
            None => {
                return Err(not_found(id.as_str()));
            },
        };
        agent.heartbeat();
        let now: Timestamp = Timestamp::now();
        let status: AgentStatus = agent.liveness_at(now);
        let ghost seen = agent@.last_seen;
        self.agents.insert(agent);
        assert(status == liveness_after(silence_minutes(now, seen)));
        Ok(status)
    }

    /// Sets an agent's status.
    pub fn set_agent_status(&mut self, id: &AgentId, status: AgentStatus) -> (r: Result<
        (),
        InMemoryError,
    >)
        requires
            old(self).well_formed(),
        ensures
            final(self).well_formed(),
            match r {
                Ok(_) => {
                    &&& old(self)@.agents.contains_key(id@)
                    &&& final(self)@ == (InMemoryView {
                        agents: old(self)@.agents.insert(
                            id@,
                            (AgentView { status, ..old(self)@.agents[id@] }),
                        ),
                        ..old(self)@
                    })
                },
                Err(e) => {
                    &&& !old(self)@.agents.contains_key(id@)
                    &&& e@ == InMemoryErrorView::NotFound(id@)
                    &&& final(self)@ == old(self)@
                },
            },
            r is Ok ==> final(self)@ == with_agent_status(old(self)@, id@, status),
    {
        let mut agent: Agent = match self.agents.get(id.as_str()) {
            Some(agent) => agent.clone(),
            None => {
                return Err(not_found(id.as_str()));
            },
        };
        agent.status = status;
        self.agents.insert(agent);
        Ok(())
    }

    /// The agents that can be given work, in ascending order of ids.
    pub fn available_agents(&self) -> (r: Result<Vec<Agent>, InMemoryError>)
        requires
            self.well_formed(),
        ensures
            r is Ok,
            lists::<Agent>(
                r->Ok_0.deep_view(),
                self@.agents,
                |a: AgentView| a.status == AgentStatus::Available,
            ),
    {
        let out: Vec<Agent> = self.agents.listed(&CanAcceptWork);
        assert(lists::<Agent>(
            out.deep_view(),
            self@.agents,
            |a: AgentView| a.status == AgentStatus::Available,
        ));
        Ok(out)
    }

    /// Records that a session started.
    pub fn start_session(&mut self, session: AgentSession) -> (r: Result<
        AgentSession,
        InMemoryError,
    >)
        requires
            old(self).well_formed(),
        ensures
            final(self).well_formed(),
            match r {
                Ok(stored) => {
                    &&& !old(self)@.sessions.contains_key(session@.id)
                    &&& stored@ == session@
                    &&& final(self)@ == with_session(old(self)@, session@)
                },
                Err(e) => {
                    &&& old(self)@.sessions.contains_key(session@.id)
                    &&& e@ == InMemoryErrorView::AlreadyExists(session@.id)
                    &&& final(self)@ == old(self)@
                },
            },
    {
        if self.sessions.contains_key(session.id.as_str()) {
            return Err(already_exists(session.id.as_str()));
        }
        self.sessions.insert(session.clone());
        Ok(session)
    }

    /// The session with `id`; `None` when there is none.
    pub fn get_session(&self, id: &SessionId) -> (r: Result<Option<AgentSession>, InMemoryError>)
        requires
            self.well_formed(),
        ensures
            r is Ok,
            r->Ok_0 is Some <==> self@.sessions.contains_key(id@),
            r->Ok_0 is Some ==> r->Ok_0->0@ == self@.sessions[id@],
    {
        match self.sessions.get(id.as_str()) {
            Some(session) => Ok(Some(session.clone())),
            None => Ok(None),
        }
    }

    /// Closes a session.
    pub fn close_session(&mut self, id: &SessionId, end: SessionEnd) -> (r: Result<
        (),
        InMemoryError,
    >)
        requires
            old(self).well_formed(),
        ensures
            final(self).well_formed(),
            match r {
                Ok(_) => {
                    &&& old(self)@.sessions.contains_key(id@)
                    &&& final(self)@.sessions.contains_key(id@)
                    &&& final(self)@.sessions[id@].ended_at is Some
                    &&& clock_time(final(self)@.sessions[id@].ended_at->0@)
                    &&& final(self)@ == (InMemoryView {
                        sessions: old(self)@.sessions.insert(
                            id@,
                            closed(
                                old(self)@.sessions[id@],
                                end,
                                final(self)@.sessions[id@].ended_at,
                            ),
                        ),
                        ..old(self)@
                    })
                },
                Err(e) => {
                    &&& !old(self)@.sessions.contains_key(id@)
                    &&& e@ == InMemoryErrorView::NotFound(id@)
                    &&& final(self)@ == old(self)@
                },
            },
    {
        let mut session: AgentSession = match self.sessions.get(id.as_str()) {
            Some(session) => session.clone(),
            None => {
                return Err(not_found(id.as_str()));
            },
        };
        session.close(end);
        self.sessions.insert(session);
        Ok(())
    }

    /// The sessions that were launched against a task, in the order in which they
    /// began.
    pub fn sessions_for_task(&self, task: &TaskId) -> (r: Result<
        Vec<AgentSession>,
        InMemoryError,
    >)
        requires
            self.well_formed(),
        ensures
            r is Ok,
            lists_by::<AgentSession, ByStart>(
                r->Ok_0.deep_view(),
                self@.sessions,
                |s: AgentSessionView| s.task_id == Some(task@),
            ),
    {
        let selection: ForTask = ForTask { task };
        let out: Vec<AgentSession> = self.sessions.listed_by::<ByStart, ForTask>(&selection);
        assert(lists_by::<AgentSession, ByStart>(
            out.deep_view(),
            self@.sessions,
            |s: AgentSessionView| s.task_id == Some(task@),
        ));
        Ok(out)
    }

    /// Forks a session, and records where the new one comes from.
    pub fn fork_session(&mut self, parent: &SessionId, new_id: SessionId) -> (r: Result<
        AgentSession,
        InMemoryError,
    >)
        requires
            old(self).well_formed(),
        ensures
            final(self).well_formed(),
            match r {
                Ok(child) => {
                    &&& old(self)@.sessions.contains_key(parent@)
                    &&& !old(self)@.sessions.contains_key(new_id@)
                    &&& clock_time(child@.started_at@)
                    &&& child@ == forked(old(self)@.sessions[parent@], new_id@, child@.started_at)
                    &&& final(self)@ == (InMemoryView {
                        sessions: old(self)@.sessions.insert(new_id@, child@),
                        ..old(self)@
                    })
                },
                Err(e) => {
                    &&& final(self)@ == old(self)@
                    &&& if !old(self)@.sessions.contains_key(parent@) {
                        e@ == InMemoryErrorView::NotFound(parent@)
                    } else {
                        old(self)@.sessions.contains_key(new_id@) && e@
                            == InMemoryErrorView::AlreadyExists(new_id@)
                    }
                },
            },
    {
        let existing: AgentSession = match self.sessions.get(parent.as_str()) {
            Some(session) => session.clone(),
            None => {
                return Err(not_found(parent.as_str()));
            },
        };
        if self.sessions.contains_key(new_id.as_str()) {
            return Err(already_exists(new_id.as_str()));
        }
        let child: AgentSession = existing.fork(new_id);
        self.sessions.insert(child.clone());
        Ok(child)
    }

    /// Opens a handoff.
    pub fn open_handoff(&mut self, handoff: Handoff) -> (r: Result<Handoff, InMemoryError>)
        requires
            old(self).well_formed(),
        ensures
            final(self).well_formed(),
            match r {
                Ok(stored) => {
                    &&& !old(self)@.handoffs.contains_key(handoff@.id)
                    &&& stored@ == handoff@
                    &&& final(self)@ == with_handoff(old(self)@, handoff@)
                },
                Err(e) => {
                    &&& old(self)@.handoffs.contains_key(handoff@.id)
                    &&& e@ == InMemoryErrorView::AlreadyExists(handoff@.id)
                    &&& final(self)@ == old(self)@
                },
            },
    {
        if self.handoffs.contains_key(handoff.id.as_str()) {
            return Err(already_exists(handoff.id.as_str()));
        }
        self.handoffs.insert(handoff.clone());
        Ok(handoff)
    }

    /// The handoff with `id`; `None` when there is none.
    pub fn get_handoff(&self, id: &HandoffId) -> (r: Result<Option<Handoff>, InMemoryError>)
        requires
            self.well_formed(),
        ensures
            r is Ok,
            r->Ok_0 is Some <==> self@.handoffs.contains_key(id@),
            r->Ok_0 is Some ==> r->Ok_0->0@ == self@.handoffs[id@],
    {
        match self.handoffs.get(id.as_str()) {
            Some(handoff) => Ok(Some(handoff.clone())),
            None => Ok(None),
        }
    }

    /// Accepts a handoff: only the agent it is addressed to can, and only once.
    pub fn accept_handoff(&mut self, id: &HandoffId, acceptor: &AgentId, session: &SessionId) -> (r:
        Result<Handoff, InMemoryError>)
        requires
            old(self).well_formed(),
        ensures
            final(self).well_formed(),
            match r {
                Ok(taken) => {
                    &&& old(self)@.handoffs.contains_key(id@)
                    &&& acceptance(old(self)@.handoffs[id@], acceptor@) is Ok
                    &&& taken@.accepted_at is Some
                    &&& clock_time(taken@.accepted_at->0@)
                    &&& taken@ == accepted(
                        old(self)@.handoffs[id@],
                        session@,
                        taken@.accepted_at,
                    )
                    &&& final(self)@ == (InMemoryView {
                        handoffs: old(self)@.handoffs.insert(id@, taken@),
                        ..old(self)@
                    })
                },
                Err(e) => {
                    &&& final(self)@ == old(self)@
                    &&& if !old(self)@.handoffs.contains_key(id@) {
                        e@ == InMemoryErrorView::NotFound(id@)
                    } else {
                        acceptance(old(self)@.handoffs[id@], acceptor@) is Err && e@
                            == InMemoryErrorView::Handoff(
                            acceptance(old(self)@.handoffs[id@], acceptor@)->Err_0,
                        )
                    }
                },
            },
    {
        let mut handoff: Handoff = match self.handoffs.get(id.as_str()) {
            Some(handoff) => handoff.clone(),
            None => {
                return Err(not_found(id.as_str()));
            },
        };
        match handoff.accept(acceptor.clone(), session.clone()) {
            Ok(_) => {},
            Err(e) => {
                return Err(InMemoryError::Handoff(e));
            },
        }
        self.handoffs.insert(handoff.clone());
        Ok(handoff)
    }

    /// The handoffs that wait to be claimed, in the order in which they were
    /// opened.
    pub fn open_handoffs(&self) -> (r: Result<Vec<Handoff>, InMemoryError>)
        requires
            self.well_formed(),
        ensures
            r is Ok,
            lists_by::<Handoff, ByCreation>(
                r->Ok_0.deep_view(),
                self@.handoffs,
                |h: HandoffView| h.state == HandoffState::Open,
            ),
    {
        let out: Vec<Handoff> = self.handoffs.listed_by::<ByCreation, StillOpen>(&StillOpen);
        assert(lists_by::<Handoff, ByCreation>(
            out.deep_view(),
            self@.handoffs,
            |h: HandoffView| h.state == HandoffState::Open,
        ));
        Ok(out)
    }

    /// Saves a piece of knowledge.
    pub fn save_memory(&mut self, memory: Memory) -> (r: Result<Memory, InMemoryError>)
        requires
            old(self).well_formed(),
        ensures
            final(self).well_formed(),
            r is Ok,
            r->Ok_0@ == memory@,
            final(self)@ == with_memory(old(self)@, memory@),
    {
        let ghost before = self.memories.deep_view();
        self.memories.push(memory.clone());
        assert(self.memories.deep_view() =~= before.push(memory@));
        Ok(memory)
    }

    /// The first memories that answer a query, up to its limit, the latest first.
    pub fn query_memories(&self, query: &MemoryQuery) -> (r: Result<Vec<Memory>, InMemoryError>)
        ensures
            r is Ok,
            r->Ok_0.deep_view() == in_order::<Memory, NewestFirst>(
                at_most(
                    self@.memories.filter(|m: MemoryView| answers(m, query@.text)),
                    query@.limit as int,
                ),
            ),
            r->Ok_0.deep_view() == memories_found(
                self@.memories,
                query@.text,
                query@.limit as int,
            ),
    {
        let needle: String = lowercase_text(query.text.as_str());
        let ghost all = self.memories.deep_view();
        let ghost p = |m: MemoryView| answers(m, query@.text);
        let mut hits: Vec<Memory> = Vec::new();
        let mut i: usize = 0;
        proof {
            reveal(Seq::filter);
            assert(all.take(0) =~= Seq::empty());
            assert(hits.deep_view() =~= Seq::empty());
        }
        while i < self.memories.len()
            invariant
                i <= self.memories.len(),
                all == self.memories.deep_view(),
                p == (|m: MemoryView| answers(m, query@.text)),
                needle@ == lowercase(query@.text),
                hits.deep_view() == all.take(i as int).filter(p),
            decreases self.memories.len() - i,
        {
            let ghost before = hits.deep_view();
            let memory: &Memory = &self.memories[i];
            let body: String = lowercase_text(memory.body.as_str());
            let title: String = lowercase_text(memory.title.as_str());
            proof {
                reveal(Seq::filter);
                assert(all.take(i + 1).drop_last() =~= all.take(i as int));
                assert(all[i as int] == memory@);
            }
            if mentioned(needle.as_str(), body.as_str(), title.as_str()) {
                assert(p(memory@));
                hits.push(memory.clone());
                assert(hits.deep_view() =~= before.push(memory@));
            }
            i += 1;
        }
        assert(all.take(all.len() as int) =~= all);
        let limit: usize = query.limit as usize;
        let ghost found = hits.deep_view();
        hits.truncate(limit);
        assert(hits.deep_view() =~= at_most(found, limit as int));
        Ok(sorted::<Memory, NewestFirst>(hits))
    }

    /// The latest memories, up to `limit`.
    pub fn recent_memories(&self, limit: u32) -> (r: Result<Vec<Memory>, InMemoryError>)
        ensures
            r is Ok,
            r->Ok_0.deep_view() == at_most(
                in_order::<Memory, NewestFirst>(self@.memories),
                limit as int,
            ),
            r->Ok_0.deep_view() == latest_memories(self@.memories, limit as int),
    {
        let copies: Vec<Memory> = self.memories.clone();
        assert(copies.deep_view() =~= self.memories.deep_view());
        let mut memories: Vec<Memory> = sorted::<Memory, NewestFirst>(copies);
        let n: usize = limit as usize;
        let ghost all = memories.deep_view();
        memories.truncate(n);
        assert(memories.deep_view() =~= at_most(all, n as int));
        Ok(memories)
    }

    /// The state that was set for `root`; nothing is ever invented.
    pub fn observe(&self, root: &str) -> (r: Result<ProjectState, InMemoryError>)
        requires
            self.well_formed(),
        ensures
            match r {
                Ok(state) => self@.states.contains_key(normal_path(self@.path_style, root@)) && state@
                    == self@.states[normal_path(self@.path_style, root@)].state,
                Err(e) => !self@.states.contains_key(normal_path(self@.path_style, root@)) && e@
                    == InMemoryErrorView::NotFound(root@),
            },
    {
        match self.states.get(normalized(self.path_style, root).as_str()) {
            Some(seeded) => Ok(seeded.state.clone()),
            None => Err(not_found(root)),
        }
    }

    /// The state that was set for a project's root, if both are known.
    pub fn latest_state(&self, project: &ProjectId) -> (r: Result<
        Option<ProjectState>,
        InMemoryError,
    >)
        requires
            self.well_formed(),
        ensures
            r is Ok,
            r->Ok_0 is Some <==> self@.projects.contains_key(project@) && self@.states.contains_key(
                normal_path(self@.path_style, self@.projects[project@].root),
            ),
            r->Ok_0 is Some ==> r->Ok_0->0@ == self@.states[normal_path(
                self@.path_style,
                self@.projects[project@].root,
            )].state,
    {
        match self.projects.get(project.as_str()) {
            Some(found) => match self.states.get(normalized(
                self.path_style,
                found.root.as_str(),
            ).as_str()) {
                Some(seeded) => Ok(Some(seeded.state.clone())),
                None => Ok(None),
            },
            None => Ok(None),
        }
    }

    /// Registers a project.
    pub fn register_project(&mut self, project: Project) -> (r: Result<Project, InMemoryError>)
        requires
            old(self).well_formed(),
        ensures
            final(self).well_formed(),
            match r {
                Ok(stored) => {
                    &&& !old(self)@.projects.contains_key(project@.id)
                    &&& stored@ == project@
                    &&& final(self)@ == (InMemoryView {
                        projects: old(self)@.projects.insert(project@.id, project@),
                        ..old(self)@
                    })
                },
                Err(e) => {
                    &&& old(self)@.projects.contains_key(project@.id)
                    &&& e@ == InMemoryErrorView::AlreadyExists(project@.id)
                    &&& final(self)@ == old(self)@
                },
            },
    {
        if self.projects.contains_key(project.id.as_str()) {
            return Err(already_exists(project.id.as_str()));
        }
        self.projects.insert(project.clone());
        Ok(project)
    }
}

/// A task is ready only when everything it depends on is known and done.
pub proof fn law_ready_task_has_done_dependencies(
    tasks: Map<Seq<char>, TaskView>,
    task: TaskView,
    dependency: Seq<char>,
)
    requires
        is_ready(tasks, task),
        task.dependencies.contains(dependency),
    ensures
        tasks.contains_key(dependency),
        tasks[dependency].status == TaskStatus::Done,
{
    let i = choose|i: int| 0 <= i < task.dependencies.len() && task.dependencies[i] == dependency;
    assert(status_in(tasks, task.dependencies[i]) == Some(TaskStatus::Done));
}

/// A task that is not done unblocks nothing, whether it failed or was cancelled or
/// is still open.
pub proof fn law_only_done_unblocks(
    tasks: Map<Seq<char>, TaskView>,
    task: TaskView,
    dependency: Seq<char>,
)
    requires
        task.dependencies.contains(dependency),
        tasks.contains_key(dependency),
        tasks[dependency].status != TaskStatus::Done,
    ensures
        !is_ready(tasks, task),
{
    if is_ready(tasks, task) {
        law_ready_task_has_done_dependencies(tasks, task, dependency);
    }
}

/// A finished task is never ready.
pub proof fn law_finished_task_is_not_ready(tasks: Map<Seq<char>, TaskView>, task: TaskView)
    requires
        task.status.terminal_state(),
    ensures
        !is_ready(tasks, task),
{
}

/// A task that was written is read back as it was written, and every other task as
/// before.
pub proof fn law_a_written_task_reads_back(s: InMemoryView, task: TaskView, other: Seq<char>)
    ensures
        with_task(s, task).tasks.contains_key(task.id),
        with_task(s, task).tasks[task.id] == task,
        other != task.id ==> {
            &&& with_task(s, task).tasks.contains_key(other) <==> s.tasks.contains_key(other)
            &&& with_task(s, task).tasks[other] == s.tasks[other]
        },
{
}

/// What is registered as an agent, started as a session or opened as a handoff is
/// read back as it was given.
pub proof fn law_a_new_record_reads_back(
    s: InMemoryView,
    agent: AgentView,
    session: AgentSessionView,
    handoff: HandoffView,
)
    ensures
        with_agent(s, agent).agents.contains_key(agent.id),
        with_agent(s, agent).agents[agent.id] == agent,
        with_session(s, session).sessions.contains_key(session.id),
        with_session(s, session).sessions[session.id] == session,
        with_handoff(s, handoff).handoffs.contains_key(handoff.id),
        with_handoff(s, handoff).handoffs[handoff.id] == handoff,
{
}

/// A stored handoff that one agent claimed is refused to everyone who asks later.
pub proof fn law_a_stored_handoff_is_claimed_once(
    s: InMemoryView,
    id: Seq<char>,
    first: Seq<char>,
    session: Seq<char>,
    at: Option<Timestamp>,
    second: Seq<char>,
)
    requires
        s.handoffs.contains_key(id),
        acceptance(s.handoffs[id], first) is Ok,
    ensures
        acceptance(
            s.handoffs.insert(id, accepted(s.handoffs[id], session, at))[id],
            second,
        ) == Err::<(), HandoffError>(HandoffError::AlreadyConsumed),
{
}

/// What was set for a path is observed there, whichever way the path is written,
/// and nothing changes at any other place.
pub proof fn law_only_set_states_are_observed(
    s: InMemoryView,
    root: Seq<char>,
    state: ProjectStateView,
    path: Seq<char>,
)
    ensures
        normal_path(s.path_style, path) == normal_path(s.path_style, root) ==> {
            &&& with_state(s, root, state).states.contains_key(normal_path(s.path_style, path))
            &&& with_state(s, root, state).states[normal_path(s.path_style, path)].state == state
        },
        normal_path(s.path_style, path) != normal_path(s.path_style, root) ==> {
            &&& with_state(s, root, state).states.contains_key(normal_path(s.path_style, path))
                <==> s.states.contains_key(normal_path(s.path_style, path))
            &&& with_state(s, root, state).states[normal_path(s.path_style, path)]
                == s.states[normal_path(s.path_style, path)]
        },
{
}

/// A memory that was saved is among the latest ones, where there is room for all.
pub proof fn law_a_saved_memory_is_recalled(s: InMemoryView, memory: MemoryView, limit: u32)
    requires
        s.memories.len() < limit,
    ensures
        at_most(
            in_order::<Memory, NewestFirst>(with_memory(s, memory).memories),
            limit as int,
        ).contains(memory),
{
    let all = with_memory(s, memory).memories;
    assert(all.last() == memory);
    assert(all.contains(memory));
    lemma_in_order::<Memory, NewestFirst>(all);
}

/// A slash at the end of a path does not make it another place.
pub proof fn law_trailing_slash_names_the_same_place(path: Seq<char>)
    requires
        path.len() > 0,
    ensures
        normal_path(PathStyle::Unix, path.push('/')) == normal_path(PathStyle::Unix, path),
{
    lemma_trailing_slash(path);
}

/// Where paths are written as on Windows, a slash and a backslash divide alike: unless
/// a path is verbatim, two paths that differ in nothing else name the same place.
pub proof fn law_both_dividers_name_the_same_place(path: Seq<char>, other: Seq<char>)
    requires
        with_slashes(path) == with_slashes(other),
        !is_verbatim(path),
        !is_verbatim(other),
    ensures
        normal_path(PathStyle::Windows, path) == normal_path(PathStyle::Windows, other),
{
}

/// A text is mentioned exactly where every single word of it stands in the body or in
/// the title: one word that stands in neither is enough to miss.
pub proof fn law_every_word_must_be_found(needle: Seq<char>, body: Seq<char>, title: Seq<char>)
    ensures
        mentions(needle, body, title) <==> forall|i: int, j: int| #[trigger]
            word_at(needle, i, j) ==> has_part(body, needle.subrange(i, j)) || has_part(
                title,
                needle.subrange(i, j),
            ),
{
    let ws = words(needle);
    if mentions(needle, body, title) {
        assert forall|i: int, j: int| #[trigger] word_at(needle, i, j) implies has_part(
            body,
            needle.subrange(i, j),
        ) || has_part(title, needle.subrange(i, j)) by {
            let w = needle.subrange(i, j);
            law_words_are_the_stretches_without_whitespace(needle, w);
            let k = choose|k: int| 0 <= k < ws.len() && ws[k] == w;
            assert(has_part(body, ws[k]) || has_part(title, ws[k]));
        }
    }
    if forall|i: int, j: int| #[trigger]
        word_at(needle, i, j) ==> has_part(body, needle.subrange(i, j)) || has_part(
            title,
            needle.subrange(i, j),
        ) {
        assert forall|k: int| 0 <= k < ws.len() implies has_part(body, #[trigger] ws[k])
            || has_part(title, ws[k]) by {
            assert(ws.contains(ws[k]));
            law_words_are_the_stretches_without_whitespace(needle, ws[k]);
            let (i, j) = choose|i: int, j: int|
                #[trigger] word_at(needle, i, j) && needle.subrange(i, j) == ws[k];
            assert(word_at(needle, i, j));
        }
    }
}

/// Every hit of a query is a saved memory, and each word of the query, in small
/// letters, stands in its body or title, in small letters.
pub proof fn law_a_hit_holds_every_word(
    memories: Seq<MemoryView>,
    text: Seq<char>,
    limit: int,
    hit: MemoryView,
)
    requires
        0 <= limit,
        memories_found(memories, text, limit).contains(hit),
    ensures
        memories.contains(hit),
        forall|i: int, j: int| #[trigger]
            word_at(lowercase(text), i, j) ==> has_part(
                lowercase(hit.body),
                lowercase(text).subrange(i, j),
            ) || has_part(lowercase(hit.title), lowercase(text).subrange(i, j)),
{
    let p = |m: MemoryView| answers(m, text);
    let all = memories.filter(p);
    lemma_in_order::<Memory, NewestFirst>(at_most(all, limit));
    assert(memories_found(memories, text, limit) == in_order::<Memory, NewestFirst>(
        at_most(all, limit),
    ));
    assert(at_most(all, limit).contains(hit));
    let k = choose|k: int|
        0 <= k < at_most(all, limit).len() && at_most(all, limit)[k] == hit;
    assert(all[k] == hit);
    lemma_filter_from(memories, p, hit);
    law_every_word_must_be_found(lowercase(text), lowercase(hit.body), lowercase(hit.title));
}

/// A saved memory that holds every word of a query is a hit, unless as many others as
/// were asked for are.
pub proof fn law_a_memory_with_every_word_is_a_hit(
    memories: Seq<MemoryView>,
    text: Seq<char>,
    limit: int,
    memory: MemoryView,
)
    requires
        0 <= limit,
        memories.contains(memory),
        forall|i: int, j: int| #[trigger]
            word_at(lowercase(text), i, j) ==> has_part(
                lowercase(memory.body),
                lowercase(text).subrange(i, j),
            ) || has_part(lowercase(memory.title), lowercase(text).subrange(i, j)),
    ensures
        memories_found(memories, text, limit).contains(memory) || memories_found(
            memories,
            text,
            limit,
        ).len() == limit,
        memories_found(memories, text, memories.len() as int).contains(memory),
{
    let p = |m: MemoryView| answers(m, text);
    let all = memories.filter(p);
    law_every_word_must_be_found(
        lowercase(text),
        lowercase(memory.body),
        lowercase(memory.title),
    );
    assert(p(memory));
    lemma_filter_into(memories, p, memory);
    memories.lemma_filter_len(p);
    lemma_in_order::<Memory, NewestFirst>(at_most(all, limit));
    lemma_in_order::<Memory, NewestFirst>(at_most(all, memories.len() as int));
}

/// A query gives no more than it was asked for, and the newest first.
pub proof fn law_hits_are_limited_and_newest_first(
    memories: Seq<MemoryView>,
    text: Seq<char>,
    limit: int,
    i: int,
    j: int,
)
    requires
        0 <= limit,
        0 <= i < j < memories_found(memories, text, limit).len(),
    ensures
        memories_found(memories, text, limit).len() <= limit,
        !earlier(
            memories_found(memories, text, limit)[i].updated_at@,
            memories_found(memories, text, limit)[j].updated_at@,
        ),
{
    let all = memories.filter(|m: MemoryView| answers(m, text));
    lemma_in_order::<Memory, NewestFirst>(at_most(all, limit));
    let found = memories_found(memories, text, limit);
    assert(!<NewestFirst as Precedence<Memory>>::before(found[j], found[i]));
}

/// The latest memories are the newest ones: as many as asked for or all there are,
/// newest first, and none that is left out is newer than one that is given.
pub proof fn law_the_latest_memories_are_the_newest(memories: Seq<MemoryView>, limit: int)
    requires
        0 <= limit,
    ensures
        latest_memories(memories, limit).len() == if limit < memories.len() {
            limit
        } else {
            memories.len() as int
        },
        forall|m: MemoryView| #[trigger]
            latest_memories(memories, limit).contains(m) ==> memories.contains(m),
        forall|i: int, j: int|
            0 <= i < j < latest_memories(memories, limit).len() ==> !earlier(
                (#[trigger] latest_memories(memories, limit)[i]).updated_at@,
                (#[trigger] latest_memories(memories, limit)[j]).updated_at@,
            ),
        forall|given: MemoryView, out: MemoryView|
            #[trigger] latest_memories(memories, limit).contains(given) && #[trigger]
            memories.contains(out) && !latest_memories(memories, limit).contains(out)
                ==> !earlier(given.updated_at@, out.updated_at@),
{
    let all = in_order::<Memory, NewestFirst>(memories);
    let latest = latest_memories(memories, limit);
    lemma_in_order::<Memory, NewestFirst>(memories);
    assert forall|m: MemoryView| #[trigger] latest.contains(m) implies memories.contains(m) by {
        let k = choose|k: int| 0 <= k < latest.len() && latest[k] == m;
        assert(all[k] == m);
        assert(all.contains(m));
    }
    assert forall|i: int, j: int| 0 <= i < j < latest.len() implies !earlier(
        (#[trigger] latest[i]).updated_at@,
        (#[trigger] latest[j]).updated_at@,
    ) by {
        assert(!<NewestFirst as Precedence<Memory>>::before(all[j], all[i]));
    }
    assert forall|given: MemoryView, out: MemoryView|
        #[trigger] latest.contains(given) && #[trigger] memories.contains(out) && !latest.contains(
            out,
        ) implies !earlier(given.updated_at@, out.updated_at@) by {
        let i = choose|i: int| 0 <= i < latest.len() && latest[i] == given;
        assert(all.contains(out));
        let j = choose|j: int| 0 <= j < all.len() && all[j] == out;
        if j < latest.len() {
            assert(latest[j] == out);
        }
        assert(!<NewestFirst as Precedence<Memory>>::before(all[j], all[i]));
    }
}

/// A task is ready exactly where it is not finished and each task that it depends on
/// is there and done.
pub proof fn law_ready_means_open_and_unblocked(
    tasks: Map<Seq<char>, TaskView>,
    task: TaskView,
)
    ensures
        is_ready(tasks, task) <==> {
            &&& task.status != TaskStatus::Done && task.status != TaskStatus::Failed && task.status
                != TaskStatus::Cancelled
            &&& forall|d: Seq<char>| #[trigger]
                task.dependencies.contains(d) ==> tasks.contains_key(d) && tasks[d].status
                    == TaskStatus::Done
        },
{
    if forall|d: Seq<char>| #[trigger]
        task.dependencies.contains(d) ==> tasks.contains_key(d) && tasks[d].status
            == TaskStatus::Done {
        assert forall|i: int| 0 <= i < task.dependencies.len() implies status_in(
            tasks,
            #[trigger] task.dependencies[i],
        ) == Some(TaskStatus::Done) by {
            assert(task.dependencies.contains(task.dependencies[i]));
        }
    }
    if is_ready(tasks, task) {
        assert forall|d: Seq<char>| #[trigger] task.dependencies.contains(d) implies
            tasks.contains_key(d) && tasks[d].status == TaskStatus::Done by {
            law_ready_task_has_done_dependencies(tasks, task, d);
        }
    }
}

/// Completing what a task depends on never makes it wait, and once all is done an open
/// task is ready.
pub proof fn law_completing_a_dependency_helps(
    tasks: Map<Seq<char>, TaskView>,
    task: TaskView,
    id: Seq<char>,
)
    requires
        tasks.contains_key(id),
        is_ready(tasks, task),
    ensures
        is_ready(
            tasks.insert(id, (TaskView { status: TaskStatus::Done, ..tasks[id] })),
            task,
        ),
{
    let after = tasks.insert(id, (TaskView { status: TaskStatus::Done, ..tasks[id] }));
    law_ready_means_open_and_unblocked(tasks, task);
    law_ready_means_open_and_unblocked(after, task);
}

/// A listing of sessions goes from the first that was started to the last.
pub proof fn law_sessions_come_in_the_order_of_their_start(
    out: Seq<AgentSessionView>,
    sessions: Map<Seq<char>, AgentSessionView>,
    p: spec_fn(AgentSessionView) -> bool,
    i: int,
    j: int,
)
    requires
        lists_by::<AgentSession, ByStart>(out, sessions, p),
        0 <= i < j < out.len(),
    ensures
        !earlier(out[j].started_at@, out[i].started_at@),
        out[i].id != out[j].id,
        p(out[i]),
        sessions.contains_key(out[i].id) && sessions[out[i].id] == out[i],
{
    assert(!<ByStart as Precedence<AgentSession>>::before(out[j], out[i]));
    assert(out.contains(out[i]));
}

/// A listing of handoffs goes from the first that was opened to the last.
pub proof fn law_handoffs_come_in_the_order_of_their_opening(
    out: Seq<HandoffView>,
    handoffs: Map<Seq<char>, HandoffView>,
    p: spec_fn(HandoffView) -> bool,
    i: int,
    j: int,
)
    requires
        lists_by::<Handoff, ByCreation>(out, handoffs, p),
        0 <= i < j < out.len(),
    ensures
        !earlier(out[j].created_at@, out[i].created_at@),
        out[i].id != out[j].id,
        p(out[i]),
        handoffs.contains_key(out[i].id) && handoffs[out[i].id] == out[i],
{
    assert(!<ByCreation as Precedence<Handoff>>::before(out[j], out[i]));
    assert(out.contains(out[i]));
}

/// A listing of tasks names each once, in the order of their ids.
pub proof fn law_tasks_come_by_id(
    out: Seq<TaskView>,
    tasks: Map<Seq<char>, TaskView>,
    p: spec_fn(TaskView) -> bool,
    i: int,
    j: int,
)
    requires
        lists::<Task>(out, tasks, p),
        0 <= i < j < out.len(),
    ensures
        text_lt(out[i].id, out[j].id),
        p(out[i]),
        tasks.contains_key(out[i].id) && tasks[out[i].id] == out[i],
{
    assert(out.contains(out[i]));
}

/// Writing one record changes nothing else that the provider holds.
pub proof fn law_a_write_changes_one_record(
    s: InMemoryView,
    task: TaskView,
    agent: AgentView,
    session: AgentSessionView,
    handoff: HandoffView,
    memory: MemoryView,
    other: Seq<char>,
)
    ensures
        with_task(s, task) == (InMemoryView { tasks: with_task(s, task).tasks, ..s }),
        with_agent(s, agent) == (InMemoryView { agents: with_agent(s, agent).agents, ..s }),
        with_session(s, session) == (InMemoryView {
            sessions: with_session(s, session).sessions,
            ..s
        }),
        with_handoff(s, handoff) == (InMemoryView {
            handoffs: with_handoff(s, handoff).handoffs,
            ..s
        }),
        with_memory(s, memory) == (InMemoryView {
            memories: with_memory(s, memory).memories,
            ..s
        }),
        other != agent.id ==> (with_agent(s, agent).agents.contains_key(other)
            <==> s.agents.contains_key(other)) && with_agent(s, agent).agents[other]
            == s.agents[other],
        other != session.id ==> (with_session(s, session).sessions.contains_key(other)
            <==> s.sessions.contains_key(other)) && with_session(s, session).sessions[other]
            == s.sessions[other],
        other != handoff.id ==> (with_handoff(s, handoff).handoffs.contains_key(other)
            <==> s.handoffs.contains_key(other)) && with_handoff(s, handoff).handoffs[other]
            == s.handoffs[other],
        with_memory(s, memory).memories.len() == s.memories.len() + 1,
        with_memory(s, memory).memories.last() == memory,
        with_memory(s, memory).memories.drop_last() == s.memories,
{
    assert(with_memory(s, memory).memories.drop_last() =~= s.memories);
}

/// What is missing stays missing in the words of a provider's error; everything else
/// is a conflict.
pub proof fn law_only_a_missing_record_is_not_found(e: InMemoryErrorView)
    ensures
        e matches InMemoryErrorView::NotFound(what) ==> provider_error_of(e)
            == ProviderErrorView::NotFound(what),
        e !is NotFound ==> provider_error_of(e) is Conflict,
        e matches InMemoryErrorView::AlreadyExists(what) ==> provider_error_of(e)
            == ProviderErrorView::Conflict(what),
{
}

/// What is held once the task with an id has a status.
pub open spec fn with_status(
    s: InMemoryView,
    id: Seq<char>,
    status: TaskStatus,
    at: Timestamp,
) -> InMemoryView {
    InMemoryView {
        tasks: s.tasks.insert(id, (TaskView { status, updated_at: at, ..s.tasks[id] })),
        ..s
    }
}

/// What is held once the task with an id waits for another, unless it did already.
pub open spec fn with_dependency(
    s: InMemoryView,
    id: Seq<char>,
    dependency: Seq<char>,
    at: Timestamp,
) -> InMemoryView {
    if s.tasks[id].dependencies.contains(dependency) {
        s
    } else {
        InMemoryView {
            tasks: s.tasks.insert(
                id,
                (TaskView {
                    dependencies: s.tasks[id].dependencies.push(dependency),
                    updated_at: at,
                    ..s.tasks[id]
                }),
            ),
            ..s
        }
    }
}

/// What is held once the agent with an id was seen.
pub open spec fn with_last_seen(s: InMemoryView, id: Seq<char>, at: Timestamp) -> InMemoryView {
    InMemoryView {
        agents: s.agents.insert(id, (AgentView { last_seen: at, ..s.agents[id] })),
        ..s
    }
}

/// What is held once the agent with an id has a status.
pub open spec fn with_agent_status(
    s: InMemoryView,
    id: Seq<char>,
    status: AgentStatus,
) -> InMemoryView {
    InMemoryView {
        agents: s.agents.insert(id, (AgentView { status, ..s.agents[id] })),
        ..s
    }
}

/// Setting the status of a task sets that task's status and time, and leaves the rest of
/// the task, every other task and everything else alone.
pub proof fn law_a_status_is_set_on_one_task(
    s: InMemoryView,
    id: Seq<char>,
    status: TaskStatus,
    at: Timestamp,
    other: Seq<char>,
)
    requires
        s.tasks.contains_key(id),
    ensures
        ({
            let new = with_status(s, id, status, at);
            &&& status_in(new.tasks, id) == Some(status)
            &&& (TaskView {
                status: s.tasks[id].status,
                updated_at: s.tasks[id].updated_at,
                ..new.tasks[id]
            }) == s.tasks[id]
            &&& new.tasks.dom() == s.tasks.dom()
            &&& other != id && s.tasks.contains_key(other) ==> new.tasks[other] == s.tasks[other]
            &&& (InMemoryView { tasks: s.tasks, ..new }) == s
        }),
{
    assert(with_status(s, id, status, at).tasks.dom() =~= s.tasks.dom());
}

/// Adding a dependency makes the task wait for it, behind what it waited for before: the
/// task is ready from there on only once that dependency is done. Adding it again changes
/// nothing, and every other task and everything else is left alone.
pub proof fn law_an_added_dependency_is_waited_for(
    s: InMemoryView,
    id: Seq<char>,
    dependency: Seq<char>,
    at: Timestamp,
    later: Timestamp,
    other: Seq<char>,
)
    requires
        s.tasks.contains_key(id),
    ensures
        ({
            let new = with_dependency(s, id, dependency, at);
            let before = s.tasks[id].dependencies;
            let after = new.tasks[id].dependencies;
            &&& after.contains(dependency)
            &&& before.len() <= after.len() <= before.len() + 1
            &&& forall|i: int| 0 <= i < before.len() ==> #[trigger] after[i] == before[i]
            &&& is_ready(new.tasks, new.tasks[id]) ==> status_in(new.tasks, dependency) == Some(
                TaskStatus::Done,
            )
            &&& with_dependency(new, id, dependency, later) == new
            &&& (TaskView {
                dependencies: before,
                updated_at: s.tasks[id].updated_at,
                ..new.tasks[id]
            }) == s.tasks[id]
            &&& new.tasks.dom() == s.tasks.dom()
            &&& other != id && s.tasks.contains_key(other) ==> new.tasks[other] == s.tasks[other]
            &&& (InMemoryView { tasks: s.tasks, ..new }) == s
        }),
{
    let new = with_dependency(s, id, dependency, at);
    let after = new.tasks[id].dependencies;
    if !s.tasks[id].dependencies.contains(dependency) {
        assert(after.last() == dependency);
        assert(after[s.tasks[id].dependencies.len() as int] == dependency);
    }
    assert(new.tasks.dom() =~= s.tasks.dom());
    let k = choose|k: int| 0 <= k < after.len() && after[k] == dependency;
    assert(after[k] == dependency);
}

/// A sign of life and a status change touch that one field of that one agent.
pub proof fn law_an_agent_is_changed_in_one_field(
    s: InMemoryView,
    id: Seq<char>,
    status: AgentStatus,
    at: Timestamp,
    other: Seq<char>,
)
    requires
        s.agents.contains_key(id),
    ensures
        ({
            let seen = with_last_seen(s, id, at);
            &&& seen.agents[id].last_seen == at
            &&& (AgentView { last_seen: s.agents[id].last_seen, ..seen.agents[id] }) == s.agents[id]
            &&& seen.agents.dom() == s.agents.dom()
            &&& other != id && s.agents.contains_key(other) ==> seen.agents[other]
                == s.agents[other]
            &&& (InMemoryView { agents: s.agents, ..seen }) == s
        }),
        ({
            let set = with_agent_status(s, id, status);
            &&& set.agents[id].status == status
            &&& (AgentView { status: s.agents[id].status, ..set.agents[id] }) == s.agents[id]
            &&& set.agents.dom() == s.agents.dom()
            &&& other != id && s.agents.contains_key(other) ==> set.agents[other]
                == s.agents[other]
            &&& (InMemoryView { agents: s.agents, ..set }) == s
        }),
{
    assert(with_last_seen(s, id, at).agents.dom() =~= s.agents.dom());
    assert(with_agent_status(s, id, status).agents.dom() =~= s.agents.dom());
}

/// A fresh store holds nothing.
pub proof fn law_a_fresh_store_is_empty(path_style: PathStyle, id: Seq<char>)
    ensures
        ({
            let s = nothing(path_style);
            &&& !s.tasks.contains_key(id) && !s.agents.contains_key(id)
            &&& !s.sessions.contains_key(id) && !s.handoffs.contains_key(id)
            &&& !s.projects.contains_key(id) && !s.states.contains_key(id)
            &&& s.memories.len() == 0 && s.path_style == path_style
        }),
{
}

/// An error names the record that is missing or already there, and a refused handoff says
/// which of the two reasons holds.
pub proof fn law_a_refusal_names_its_record(what: Seq<char>)
    ensures
        in_memory_error_text(InMemoryErrorView::NotFound(what)) == "not found: "@ + what,
        in_memory_error_text(InMemoryErrorView::AlreadyExists(what)) == "already exists: "@ + what,
        in_memory_error_text(InMemoryErrorView::Handoff(HandoffError::AlreadyConsumed))
            != in_memory_error_text(InMemoryErrorView::Handoff(HandoffError::WrongAgent)),
{
    reveal_strlit("handoff error: handoff is no longer open");
    reveal_strlit("handoff error: handoff is addressed to a different agent");
    assert("handoff error: handoff is no longer open"@.len()
        != "handoff error: handoff is addressed to a different agent"@.len());
}

} // verus!
