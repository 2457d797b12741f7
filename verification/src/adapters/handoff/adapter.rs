//! Director's dealings with handoff-mcp: what to ask of the substrate, and what
//! its replies mean.
//!
//! The substrate cannot say which `done` states Director itself produced, so the
//! adapter keeps the set of those tasks. Only its own completed writes add to it.

use crate::adapters::handoff::mapping::{
    agent_from_wire, agent_reads_as, agent_status_of_wire, extra_is_set, extra_text,
    law_self_reported_done_is_not_done, law_status_survives_the_wire, session_from_wire,
    session_reads_as, session_status_of_wire, task_from_wire, task_reads_as, task_to_wire,
    wire_of_task, DIRECTOR_STATUS_KEY, DIRECTOR_VERIFIED_KEY,
};
use crate::adapters::handoff::wire::{
    AgentList, AgentRecordView, DoneCriterion, DoneCriterionView, ExtraValue, ExtraValueView,
    SessionSummary, SessionSummaryView, TaskData, TaskDataView, TaskTree, TaskTreeNode,
};
use crate::adapters::stdio_mcp::{transport_error_text, TransportError, TransportErrorView};
use crate::domain::agent::{Agent, AgentStatus, AgentView};
use crate::domain::ids::{AgentId, SessionId, TaskId};
use crate::domain::session::{AgentSession, AgentSessionView, SessionEnd, SessionStatus};
use crate::domain::task::{Task, TaskStatus, TaskView};
use crate::registry::{lemma_filter_from, lemma_filter_into};
use crate::text::{
    chars_of, contains_text, has_part, is_listed, joined, same_text, string_of,
};
use vstd::prelude::*;
use vstd::string::*;

verus! {

/// How much of a reply that does not parse is quoted.
pub const QUOTED_REPLY_CHARS: usize = 512;

/// The description of a project that Director manages.
pub const MANAGED_BY: &'static str = "Managed by director-brain.";

/// The key under which the details of a session list its tasks.
pub const RELATED_TASKS_KEY: &'static str = "related_task_ids";

/// The key under which the reply to a fork names the new session.
pub const SESSION_ID_KEY: &'static str = "session_id";

/// What the handoff adapter can fail with.
#[derive(Debug, PartialEq, Eq)]
pub enum HandoffAdapterError {
    /// The substrate could not be reached, or broke the protocol.
    Transport(TransportError),
    /// The substrate ran a tool, and the tool reported failure.
    Tool { tool: String, message: String },
    /// A reply does not have the shape that is expected of it.
    Malformed { tool: String, message: String },
    /// The substrate has no way to do what was asked.
    Unsupported(String),
    /// The substrate has no such record.
    NotFound(String),
}

/// What a [`HandoffAdapterError`] holds.
#[verifier::ext_equal]
pub enum HandoffAdapterErrorView {
    Transport(TransportErrorView),
    Tool { tool: Seq<char>, message: Seq<char> },
    Malformed { tool: Seq<char>, message: Seq<char> },
    Unsupported(Seq<char>),
    NotFound(Seq<char>),
}

impl View for HandoffAdapterError {
    type V = HandoffAdapterErrorView;

    open spec fn view(&self) -> HandoffAdapterErrorView {
        match self {
            HandoffAdapterError::Transport(x) => HandoffAdapterErrorView::Transport(x.deep_view()),
            HandoffAdapterError::Tool { tool, message } => HandoffAdapterErrorView::Tool { tool: tool.deep_view(), message: message.deep_view() },
            HandoffAdapterError::Malformed { tool, message } => HandoffAdapterErrorView::Malformed { tool: tool.deep_view(), message: message.deep_view() },
            HandoffAdapterError::Unsupported(x) => HandoffAdapterErrorView::Unsupported(x.deep_view()),
            HandoffAdapterError::NotFound(x) => HandoffAdapterErrorView::NotFound(x.deep_view()),
        }
    }
}

impl DeepView for HandoffAdapterError {
    type V = HandoffAdapterErrorView;

    open spec fn deep_view(&self) -> HandoffAdapterErrorView {
        self.view()
    }
}

impl Clone for HandoffAdapterError {
    fn clone(&self) -> (r: Self)
        ensures
            r@ == self@,
    {
        match self {
            HandoffAdapterError::Transport(x) => HandoffAdapterError::Transport(x.clone()),
            HandoffAdapterError::Tool { tool, message } => HandoffAdapterError::Tool { tool: tool.clone(), message: message.clone() },
            HandoffAdapterError::Malformed { tool, message } => HandoffAdapterError::Malformed { tool: tool.clone(), message: message.clone() },
            HandoffAdapterError::Unsupported(x) => HandoffAdapterError::Unsupported(x.clone()),
            HandoffAdapterError::NotFound(x) => HandoffAdapterError::NotFound(x.clone()),
        }
    }
}

/// An error in words.
pub open spec fn adapter_error_text(e: HandoffAdapterErrorView) -> Seq<char> {
    match e {
        HandoffAdapterErrorView::Transport(source) => "handoff-mcp transport failed: "@
            + transport_error_text(source),
        HandoffAdapterErrorView::Tool { tool, message } => "handoff-mcp tool '"@ + tool
            + "' failed: "@ + message,
        HandoffAdapterErrorView::Malformed { tool, message } =>
            "could not parse handoff-mcp's reply to '"@ + tool + "': "@ + message,
        HandoffAdapterErrorView::Unsupported(what) =>
            "the handoff-mcp substrate cannot do this: "@ + what,
        HandoffAdapterErrorView::NotFound(what) => "no such task in handoff-mcp: "@ + what,
    }
}

impl HandoffAdapterError {
    /// The error in words.
    pub fn to_string(&self) -> (r: String)
        ensures
            r@ == adapter_error_text(self@),
    {
        match self {
            HandoffAdapterError::Transport(source) => joined(
                "handoff-mcp transport failed: ",
                source.to_string().as_str(),
            ),
            HandoffAdapterError::Tool { tool, message } => {
                let mut text: String = joined("handoff-mcp tool '", tool.as_str());
                text.append("' failed: ");
                text.append(message.as_str());
                text
            },
            HandoffAdapterError::Malformed { tool, message } => {
                let mut text: String = joined(
                    "could not parse handoff-mcp's reply to '",
                    tool.as_str(),
                );
                text.append("': ");
                text.append(message.as_str());
                text
            },
            HandoffAdapterError::Unsupported(what) => joined(
                "the handoff-mcp substrate cannot do this: ",
                what.as_str(),
            ),
            HandoffAdapterError::NotFound(what) => joined(
                "no such task in handoff-mcp: ",
                what.as_str(),
            ),
        }
    }
}

/// What is asked of the substrate.
#[derive(Debug, PartialEq, Eq)]
pub enum HandoffRequest {
    /// Set a project up.
    Init { project_name: String, description: String },
    /// Say whether work on a task needs an estimate.
    UpdateConfig { require_estimate_hours: bool },
    /// Read one task.
    GetTask { task_id: String, include_dependents: bool },
    /// List the tasks.
    ListTasks,
    /// Write a task, whether or not it exists.
    UpdateTask { task: TaskData },
    /// List the agents.
    ListAgents { include_tasks: bool },
    /// Load the context, which registers this connection's agent.
    LoadContext,
    /// Save the context, which starts, pauses or closes a session.
    SaveContext { summary: String, session_status: Option<String>, related_task_ids: Option<Vec<String>>, pause_session_id: Option<String>, close_session_id: Option<String> },
    /// List the sessions.
    ListSessions,
    /// Read one session.
    GetSession { session_id: String },
    /// Fork a session.
    ForkSession { source_session_id: String, summary: String },
}

/// What a [`HandoffRequest`] holds.
#[verifier::ext_equal]
pub enum HandoffRequestView {
    Init { project_name: Seq<char>, description: Seq<char> },
    UpdateConfig { require_estimate_hours: bool },
    GetTask { task_id: Seq<char>, include_dependents: bool },
    ListTasks,
    UpdateTask { task: TaskDataView },
    ListAgents { include_tasks: bool },
    LoadContext,
    SaveContext { summary: Seq<char>, session_status: Option<Seq<char>>, related_task_ids: Option<Seq<Seq<char>>>, pause_session_id: Option<Seq<char>>, close_session_id: Option<Seq<char>> },
    ListSessions,
    GetSession { session_id: Seq<char> },
    ForkSession { source_session_id: Seq<char>, summary: Seq<char> },
}

impl View for HandoffRequest {
    type V = HandoffRequestView;

    open spec fn view(&self) -> HandoffRequestView {
        match self {
            HandoffRequest::Init { project_name, description } => HandoffRequestView::Init { project_name: project_name.deep_view(), description: description.deep_view() },
            HandoffRequest::UpdateConfig { require_estimate_hours } => HandoffRequestView::UpdateConfig { require_estimate_hours: *require_estimate_hours },
            HandoffRequest::GetTask { task_id, include_dependents } => HandoffRequestView::GetTask { task_id: task_id.deep_view(), include_dependents: *include_dependents },
            HandoffRequest::ListTasks => HandoffRequestView::ListTasks,
            HandoffRequest::UpdateTask { task } => HandoffRequestView::UpdateTask { task: task.deep_view() },
            HandoffRequest::ListAgents { include_tasks } => HandoffRequestView::ListAgents { include_tasks: *include_tasks },
            HandoffRequest::LoadContext => HandoffRequestView::LoadContext,
            HandoffRequest::SaveContext { summary, session_status, related_task_ids, pause_session_id, close_session_id } => HandoffRequestView::SaveContext { summary: summary.deep_view(), session_status: session_status.deep_view(), related_task_ids: related_task_ids.deep_view(), pause_session_id: pause_session_id.deep_view(), close_session_id: close_session_id.deep_view() },
            HandoffRequest::ListSessions => HandoffRequestView::ListSessions,
            HandoffRequest::GetSession { session_id } => HandoffRequestView::GetSession { session_id: session_id.deep_view() },
            HandoffRequest::ForkSession { source_session_id, summary } => HandoffRequestView::ForkSession { source_session_id: source_session_id.deep_view(), summary: summary.deep_view() },
        }
    }
}

impl DeepView for HandoffRequest {
    type V = HandoffRequestView;

    open spec fn deep_view(&self) -> HandoffRequestView {
        self.view()
    }
}

impl Clone for HandoffRequest {
    fn clone(&self) -> (r: Self)
        ensures
            r@ == self@,
    {
        match self {
            HandoffRequest::Init { project_name, description } => HandoffRequest::Init { project_name: project_name.clone(), description: description.clone() },
            HandoffRequest::UpdateConfig { require_estimate_hours } => HandoffRequest::UpdateConfig { require_estimate_hours: *require_estimate_hours },
            HandoffRequest::GetTask { task_id, include_dependents } => HandoffRequest::GetTask { task_id: task_id.clone(), include_dependents: *include_dependents },
            HandoffRequest::ListTasks => HandoffRequest::ListTasks,
            HandoffRequest::UpdateTask { task } => HandoffRequest::UpdateTask { task: task.clone() },
            HandoffRequest::ListAgents { include_tasks } => HandoffRequest::ListAgents { include_tasks: *include_tasks },
            HandoffRequest::LoadContext => HandoffRequest::LoadContext,
            HandoffRequest::SaveContext { summary, session_status, related_task_ids, pause_session_id, close_session_id } => HandoffRequest::SaveContext { summary: summary.clone(), session_status: session_status.clone(), related_task_ids: related_task_ids.clone(), pause_session_id: pause_session_id.clone(), close_session_id: close_session_id.clone() },
            HandoffRequest::ListSessions => HandoffRequest::ListSessions,
            HandoffRequest::GetSession { session_id } => HandoffRequest::GetSession { session_id: session_id.clone() },
            HandoffRequest::ForkSession { source_session_id, summary } => HandoffRequest::ForkSession { source_session_id: source_session_id.clone(), summary: summary.clone() },
        }
    }
}

/// The tool that serves a request.
pub open spec fn tool_name(request: HandoffRequestView) -> Seq<char> {
    match request {
        HandoffRequestView::Init { .. } => "handoff_init"@,
        HandoffRequestView::UpdateConfig { .. } => "handoff_update_config"@,
        HandoffRequestView::GetTask { .. } => "handoff_get_task"@,
        HandoffRequestView::ListTasks => "handoff_list_tasks"@,
        HandoffRequestView::UpdateTask { .. } => "handoff_update_task"@,
        HandoffRequestView::ListAgents { .. } => "handoff_list_agents"@,
        HandoffRequestView::LoadContext => "handoff_load_context"@,
        HandoffRequestView::SaveContext { .. } => "handoff_save_context"@,
        HandoffRequestView::ListSessions => "handoff_list_sessions"@,
        HandoffRequestView::GetSession { .. } => "handoff_get_session"@,
        HandoffRequestView::ForkSession { .. } => "handoff_fork_session"@,
    }
}

impl HandoffRequest {
    /// The tool that serves the request.
    pub fn tool(&self) -> (r: &'static str)
        ensures
            r@ == tool_name(self@),
    {
        match self {
            HandoffRequest::Init { .. } => "handoff_init",
            HandoffRequest::UpdateConfig { .. } => "handoff_update_config",
            HandoffRequest::GetTask { .. } => "handoff_get_task",
            HandoffRequest::ListTasks => "handoff_list_tasks",
            HandoffRequest::UpdateTask { .. } => "handoff_update_task",
            HandoffRequest::ListAgents { .. } => "handoff_list_agents",
            HandoffRequest::LoadContext => "handoff_load_context",
            HandoffRequest::SaveContext { .. } => "handoff_save_context",
            HandoffRequest::ListSessions => "handoff_list_sessions",
            HandoffRequest::GetSession { .. } => "handoff_get_session",
            HandoffRequest::ForkSession { .. } => "handoff_fork_session",
        }
    }
}

/// A call to make. The substrate finds the project by its arguments, so the
/// project's directory goes with every call.
#[derive(Debug, PartialEq, Eq)]
pub struct ToolCall {
    /// The tool to call.
    pub tool: String,
    /// The project's directory.
    pub project_dir: String,
    /// What to ask.
    pub request: HandoffRequest,
}

/// What a [`ToolCall`] holds.
#[verifier::ext_equal]
pub struct ToolCallView {
    pub tool: Seq<char>,
    pub project_dir: Seq<char>,
    pub request: HandoffRequestView,
}

impl View for ToolCall {
    type V = ToolCallView;

    open spec fn view(&self) -> ToolCallView {
        ToolCallView {
            tool: self.tool.deep_view(),
            project_dir: self.project_dir.deep_view(),
            request: self.request.deep_view(),
        }
    }
}

impl DeepView for ToolCall {
    type V = ToolCallView;

    open spec fn deep_view(&self) -> ToolCallView {
        self.view()
    }
}

impl Clone for ToolCall {
    fn clone(&self) -> (r: Self)
        ensures
            r@ == self@,
    {
        let r: ToolCall = ToolCall {
            tool: self.tool.clone(),
            project_dir: self.project_dir.clone(),
            request: self.request.clone(),
        };
        r
    }
}

/// What comes back of a call: a value, or why there is none.
pub open spec fn outcome<T: DeepView>(r: Result<T, HandoffAdapterError>) -> Result<
    T::V,
    HandoffAdapterErrorView,
> {
    match r {
        Ok(value) => Ok(value.deep_view()),
        Err(e) => Err(e@),
    }
}

/// The error for a failed call. A tool's own failure keeps the tool's name.
pub open spec fn call_failure(tool: Seq<char>, e: TransportErrorView) -> HandoffAdapterErrorView {
    match e {
        TransportErrorView::ToolFailed(message) => HandoffAdapterErrorView::Tool { tool, message },
        _ => HandoffAdapterErrorView::Transport(e),
    }
}

/// The first characters of a text, at most so many.
pub open spec fn leading(s: Seq<char>, limit: nat) -> Seq<char> {
    if s.len() <= limit {
        s
    } else {
        s.take(limit as int)
    }
}

/// The error for a reply that does not parse: the reason, and the start of the
/// reply.
pub open spec fn parse_failure(
    tool: Seq<char>,
    reason: Seq<char>,
    reply: Seq<char>,
) -> HandoffAdapterErrorView {
    HandoffAdapterErrorView::Malformed {
        tool,
        message: reason + ": "@ + leading(reply, QUOTED_REPLY_CHARS as nat),
    }
}

/// What `serde_json` reads in a JSON text under a key: the member of the object, or
/// `None` where the text is no object or has no such member, or why the text is no
/// JSON.
pub uninterp spec fn json_member(text: Seq<char>, key: Seq<char>) -> Result<
    Option<ExtraValueView>,
    Seq<char>,
>;

/// A member that was read, as its view.
pub open spec fn member_read(r: Result<Option<ExtraValue>, String>) -> Result<
    Option<ExtraValueView>,
    Seq<char>,
> {
    match r {
        Ok(member) => Ok(member.deep_view()),
        Err(reason) => Err(reason@),
    }
}

/// The member of a JSON text under a key, by `serde_json::from_str` to a
/// `serde_json::Value` and `Value::get`. What comes back depends on the text and the
/// key alone. Which texts are JSON, and in which words a text is refused, is not
/// stated.
#[verifier::external_body]
fn member_of(text: &str, key: &str) -> (r: Result<Option<ExtraValue>, String>)
    ensures
        member_read(r) == json_member(text@, key@),
{
    let value: serde_json::Value = serde_json::from_str(text).map_err(|e| e.to_string())?;
    Ok(value.get(key).map(|member| match member {
        serde_json::Value::String(text) => ExtraValue::Text(text.clone()),
        serde_json::Value::Bool(flag) => ExtraValue::Flag(*flag),
        serde_json::Value::Array(items) => ExtraValue::List(
            items.iter().map(|item| item.as_str().map(str::to_string)).collect(),
        ),
        _ => ExtraValue::Opaque,
    }))
}

/// The strings among the items of an array, in order.
pub open spec fn strings_among(items: Seq<Option<Seq<char>>>) -> Seq<Seq<char>>
    decreases items.len(),
{
    if items.len() == 0 {
        Seq::empty()
    } else {
        match items.last() {
            Some(text) => strings_among(items.drop_last()).push(text),
            None => strings_among(items.drop_last()),
        }
    }
}

/// The tasks that a session's details list: the strings of an array, and nothing
/// where there is no array.
pub open spec fn tasks_listed(member: Option<ExtraValueView>) -> Seq<Seq<char>> {
    match member {
        Some(ExtraValueView::List(items)) => strings_among(items),
        _ => Seq::empty(),
    }
}

/// The session that the reply to a fork names, which must be a string.
pub open spec fn session_named(member: Option<ExtraValueView>) -> Result<
    Seq<char>,
    HandoffAdapterErrorView,
> {
    match member {
        Some(ExtraValueView::Text(id)) => Ok(id),
        _ => Err(
            HandoffAdapterErrorView::Malformed {
                tool: "handoff_fork_session"@,
                message: "no session_id in the reply"@,
            },
        ),
    }
}

/// A tool failed with a message that says so much.
pub open spec fn tool_said(e: HandoffAdapterErrorView, part: Seq<char>) -> bool {
    match e {
        HandoffAdapterErrorView::Tool { tool, message } => has_part(message, part),
        _ => false,
    }
}

/// What follows a setup request. A project that exists already is as good as one
/// that was just set up.
pub open spec fn after_init(reply: Result<(), HandoffAdapterErrorView>) -> Result<
    HandoffRequestView,
    HandoffAdapterErrorView,
> {
    match reply {
        Ok(_) => Ok(HandoffRequestView::UpdateConfig { require_estimate_hours: false }),
        Err(e) => if tool_said(e, "already exists"@) {
            Ok(HandoffRequestView::UpdateConfig { require_estimate_hours: false })
        } else {
            Err(e)
        },
    }
}

/// What a read of a task found. A substrate without the task says so in words.
pub open spec fn task_found(reply: Result<TaskDataView, HandoffAdapterErrorView>) -> Result<
    Option<TaskDataView>,
    HandoffAdapterErrorView,
> {
    match reply {
        Ok(data) => Ok(Some(data)),
        Err(e) => if tool_said(e, "not found"@) {
            Ok(None)
        } else {
            Err(e)
        },
    }
}

/// The record to write for a task. A completed task has every criterion ticked:
/// the tick records Director's own verdict.
pub open spec fn record_to_write(t: TaskView) -> TaskDataView {
    let wire = wire_of_task(t);
    if t.status == TaskStatus::Done {
        TaskDataView {
            done_criteria: wire.done_criteria.map_values(
                |c: DoneCriterionView| DoneCriterionView { item: c.item, checked: true },
            ),
            ..wire
        }
    } else {
        wire
    }
}

/// The ids with one more, unless it is there.
pub open spec fn with_id(ids: Seq<Seq<char>>, id: Seq<char>) -> Seq<Seq<char>> {
    if ids.contains(id) {
        ids
    } else {
        ids.push(id)
    }
}

/// The ids without one of them.
pub open spec fn without_id(ids: Seq<Seq<char>>, id: Seq<char>) -> Seq<Seq<char>> {
    ids.filter(|other: Seq<char>| other != id)
}

/// The tasks whose `done` is trusted after Director wrote a task. A completion that was
/// found stored adds the task; any other status takes it out, whether or not the task
/// could be read back.
pub open spec fn trusted_after(
    ids: Seq<Seq<char>>,
    written: TaskView,
    found: bool,
) -> Seq<Seq<char>> {
    if written.status != TaskStatus::Done {
        without_id(ids, written.id)
    } else if found {
        with_id(ids, written.id)
    } else {
        ids
    }
}

/// The task that Director writes to give a task another status. A task that has the
/// status already is not written, unless its `done` would still be trusted: then the
/// write takes the trust back.
pub open spec fn status_write(
    ids: Seq<Seq<char>>,
    status: TaskStatus,
    found: TaskView,
) -> Option<TaskView> {
    if found.status == status && (status == TaskStatus::Done || !ids.contains(found.id)) {
        None
    } else {
        Some(TaskView { status, ..found })
    }
}

/// The tasks whose `done` is trusted after Director set the status of a task that it
/// found, where `stored` says whether what it wrote could be read back.
pub open spec fn trusted_after_status(
    ids: Seq<Seq<char>>,
    status: TaskStatus,
    found: TaskView,
    stored: bool,
) -> Seq<Seq<char>> {
    match status_write(ids, status, found) {
        Some(written) => trusted_after(ids, written, stored),
        None => ids,
    }
}

/// The records that were found, in order.
pub open spec fn present<A>(found: Seq<Option<A>>) -> Seq<A>
    decreases found.len(),
{
    if found.len() == 0 {
        Seq::empty()
    } else {
        match found.last() {
            Some(data) => present(found.drop_last()).push(data),
            None => present(found.drop_last()),
        }
    }
}

/// The tasks are what the records read as, one for one.
pub open spec fn tasks_read_as(
    tasks: Seq<TaskView>,
    records: Seq<TaskDataView>,
    trusted: Seq<Seq<char>>,
) -> bool {
    &&& tasks.len() == records.len()
    &&& forall|i: int|
        0 <= i < tasks.len() ==> task_reads_as(
            #[trigger] tasks[i],
            records[i],
            trusted.contains(records[i].id),
        )
}

/// The agents are what the records read as, one for one.
pub open spec fn agents_read_as(agents: Seq<AgentView>, records: Seq<AgentRecordView>) -> bool {
    &&& agents.len() == records.len()
    &&& forall|i: int| 0 <= i < agents.len() ==> agent_reads_as(#[trigger] agents[i], records[i])
}

/// The sessions are what the summaries read as, one for one.
pub open spec fn sessions_read_as(
    sessions: Seq<AgentSessionView>,
    summaries: Seq<SessionSummaryView>,
) -> bool {
    &&& sessions.len() == summaries.len()
    &&& forall|i: int|
        0 <= i < sessions.len() ==> session_reads_as(#[trigger] sessions[i], summaries[i])
}

/// The status of the last listed task with an id.
pub open spec fn listed_status(tasks: Seq<TaskView>, id: Seq<char>) -> Option<TaskStatus>
    decreases tasks.len(),
{
    if tasks.len() == 0 {
        None
    } else if tasks.last().id == id {
        Some(tasks.last().status)
    } else {
        listed_status(tasks.drop_last(), id)
    }
}

/// The task can be assigned: it is not finished, and everything that it depends
/// on is listed as done.
pub open spec fn can_be_assigned(tasks: Seq<TaskView>, t: TaskView) -> bool {
    &&& !t.status.terminal_state()
    &&& forall|i: int|
        0 <= i < t.dependencies.len() ==> listed_status(tasks, #[trigger] t.dependencies[i])
            == Some(TaskStatus::Done)
}

/// The listed tasks that can be assigned, in their order.
pub open spec fn ready_among(tasks: Seq<TaskView>) -> Seq<TaskView> {
    tasks.filter(|t: TaskView| can_be_assigned(tasks, t))
}

/// The first agent record with an id.
pub open spec fn record_of(records: Seq<AgentRecordView>, id: Seq<char>) -> Option<AgentRecordView>
    decreases records.len(),
{
    if records.len() == 0 {
        None
    } else if records[0].agent_id == id {
        Some(records[0])
    } else {
        record_of(records.skip(1), id)
    }
}

/// The first session summary with an id.
pub open spec fn summary_of(
    summaries: Seq<SessionSummaryView>,
    id: Seq<char>,
) -> Option<SessionSummaryView>
    decreases summaries.len(),
{
    if summaries.len() == 0 {
        None
    } else if summaries[0].id == id {
        Some(summaries[0])
    } else {
        summary_of(summaries.skip(1), id)
    }
}

/// The first session summary that is active.
pub open spec fn active_summary(summaries: Seq<SessionSummaryView>) -> Option<SessionSummaryView>
    decreases summaries.len(),
{
    if summaries.len() == 0 {
        None
    } else if session_status_of_wire(summaries[0].status) == SessionStatus::Active {
        Some(summaries[0])
    } else {
        active_summary(summaries.skip(1))
    }
}

/// The summaries of the sessions that worked on a task, in order: those whose
/// related tasks hold it.
pub open spec fn related_summaries(
    summaries: Seq<SessionSummaryView>,
    related: Seq<Seq<Seq<char>>>,
    task: Seq<char>,
) -> Seq<SessionSummaryView>
    decreases summaries.len(),
{
    if summaries.len() == 0 {
        Seq::empty()
    } else {
        let rest = related_summaries(summaries.drop_last(), related, task);
        if related[summaries.len() - 1].contains(task) {
            rest.push(summaries.last())
        } else {
            rest
        }
    }
}

/// The ids of a node and of the tasks below it, in tree order.
pub open spec fn node_ids(node: TaskTreeNode) -> Seq<Seq<char>>
    decreases node,
{
    seq![node.id@] + forest_ids(node.children@)
}

/// The ids of some nodes and of the tasks below them, in tree order.
pub open spec fn forest_ids(nodes: Seq<TaskTreeNode>) -> Seq<Seq<char>>
    decreases nodes,
{
    if nodes.len() == 0 {
        Seq::empty()
    } else {
        forest_ids(nodes.drop_last()) + node_ids(nodes.last())
    }
}

/// Appends the ids of a node and of the tasks below it.
fn collect_ids(node: &TaskTreeNode, ids: &mut Vec<String>)
    ensures
        final(ids).deep_view() == old(ids).deep_view() + node_ids(*node),
    decreases node,
{
    let ghost before = ids.deep_view();
    ids.push(node.id.clone());
    assert(ids.deep_view() =~= before + seq![node.id@]);
    let mut i: usize = 0;
    let ghost children = node.children@;
    assert(children.take(0) =~= Seq::empty());
    assert(ids.deep_view() =~= before + seq![node.id@] + forest_ids(children.take(0)));
    while i < node.children.len()
        invariant
            i <= node.children.len(),
            children == node.children@,
            ids.deep_view() == before + seq![node.id@] + forest_ids(children.take(i as int)),
        decreases node.children.len() - i,
    {
        assert(children.take(i + 1).drop_last() =~= children.take(i as int));
        assert(decreases_to!(node => node.children));
        collect_ids(&node.children[i], ids);
        assert(ids.deep_view() =~= before + seq![node.id@] + forest_ids(children.take(i + 1)));
        i += 1;
    }
    assert(children.take(children.len() as int) =~= children);
    assert(ids.deep_view() =~= before + node_ids(*node));
}

/// Every task id in a tree, in tree order.
pub fn tree_ids(tree: &TaskTree) -> (r: Vec<String>)
    ensures
        r.deep_view() == forest_ids(tree.task_tree@),
{
    let mut ids: Vec<String> = Vec::new();
    let ghost nodes = tree.task_tree@;
    assert(nodes.take(0) =~= Seq::empty());
    assert(ids.deep_view() =~= forest_ids(nodes.take(0)));
    let mut i: usize = 0;
    while i < tree.task_tree.len()
        invariant
            i <= tree.task_tree.len(),
            nodes == tree.task_tree@,
            ids.deep_view() == forest_ids(nodes.take(i as int)),
        decreases tree.task_tree.len() - i,
    {
        assert(nodes.take(i + 1).drop_last() =~= nodes.take(i as int));
        collect_ids(&tree.task_tree[i], &mut ids);
        i += 1;
    }
    assert(nodes.take(nodes.len() as int) =~= nodes);
    ids
}

/// Director's side of a connection to the substrate. A connection speaks as
/// exactly one agent.
#[derive(Debug)]
pub struct HandoffAdapter {
    project_dir: String,
    project_name: String,
    trusted_done_ids: Vec<String>,
    agent_id: AgentId,
}

/// What a [`HandoffAdapter`] holds.
#[verifier::ext_equal]
pub struct HandoffAdapterView {
    /// The project's directory.
    pub project_dir: Seq<char>,
    /// The project's name.
    pub project_name: Seq<char>,
    /// The tasks that Director itself completed.
    pub trusted_done_ids: Seq<Seq<char>>,
    /// The agent that the connection speaks as.
    pub agent_id: Seq<char>,
}

impl View for HandoffAdapter {
    type V = HandoffAdapterView;

    closed spec fn view(&self) -> HandoffAdapterView {
        HandoffAdapterView {
            project_dir: self.project_dir@,
            project_name: self.project_name@,
            trusted_done_ids: self.trusted_done_ids.deep_view(),
            agent_id: self.agent_id@,
        }
    }
}

impl HandoffAdapter {
    /// An adapter for a connection that speaks as `agent_id`. It trusts no `done`
    /// yet.
    pub fn new(agent_id: AgentId, project_dir: &str, project_name: &str) -> (r: Self)
        ensures
            r@ == (HandoffAdapterView {
                project_dir: project_dir@,
                project_name: project_name@,
                trusted_done_ids: Seq::empty(),
                agent_id: agent_id@,
            }),
    {
        let r: HandoffAdapter = HandoffAdapter {
            project_dir: project_dir.to_owned(),
            project_name: project_name.to_owned(),
            trusted_done_ids: Vec::new(),
            agent_id,
        };
        assert(r.trusted_done_ids.deep_view() =~= Seq::empty());
        r
    }

    /// The agent that the adapter speaks as.
    pub fn agent_identity(&self) -> (r: AgentId)
        ensures
            r@ == self@.agent_id,
    {
        self.agent_id.clone()
    }

    /// The call for a request.
    pub fn call(&self, request: HandoffRequest) -> (r: ToolCall)
        ensures
            r@ == (ToolCallView {
                tool: tool_name(request@),
                project_dir: self@.project_dir,
                request: request@,
            }),
    {
        ToolCall {
            tool: request.tool().to_owned(),
            project_dir: self.project_dir.clone(),
            request,
        }
    }

    /// The error for a failed call. A tool's own failure keeps the tool's name, so
    /// that the caller knows which call to mend.
    pub fn call_error(tool: &str, error: TransportError) -> (r: HandoffAdapterError)
        ensures
            r@ == call_failure(tool@, error@),
    {
        match error {
            TransportError::ToolFailed(message) => HandoffAdapterError::Tool {
                tool: tool.to_owned(),
                message,
            },
            other => HandoffAdapterError::Transport(other),
        }
    }

    /// The error for a reply that does not parse. Only the start of the reply is
    /// quoted.
    pub fn parse_error(tool: &str, reason: &str, reply: &str) -> (r: HandoffAdapterError)
        ensures
            r@ == parse_failure(tool@, reason@, reply@),
    {
        let mut chars: Vec<char> = chars_of(reply);
        chars.truncate(QUOTED_REPLY_CHARS);
        assert(chars@ =~= leading(reply@, QUOTED_REPLY_CHARS as nat));
        let mut message: String = joined(reason, ": ");
        message.append(string_of(&chars).as_str());
        HandoffAdapterError::Malformed { tool: tool.to_owned(), message }
    }

    /// Whether a tool failed with a message that says so much.
    fn tool_said(error: &HandoffAdapterError, part: &str) -> (r: bool)
        ensures
            r == tool_said(error@, part@),
    {
        match error {
            HandoffAdapterError::Tool { message, .. } => contains_text(message.as_str(), part),
            _ => false,
        }
    }

    /// The request that sets the project up.
    pub fn init_request(&self) -> (r: HandoffRequest)
        ensures
            r@ == (HandoffRequestView::Init {
                project_name: self@.project_name,
                description: "Managed by director-brain."@,
            }),
    {
        HandoffRequest::Init {
            project_name: self.project_name.clone(),
            description: MANAGED_BY.to_owned(),
        }
    }

    /// What follows the setup request: the substrate is told not to demand
    /// estimates, which Director has no basis to invent. A project that exists
    /// already is no failure.
    pub fn ensure_project(&self, init: Result<(), HandoffAdapterError>) -> (r: Result<
        HandoffRequest,
        HandoffAdapterError,
    >)
        ensures
            outcome(r) == after_init(
                match init {
                    Ok(_) => Ok(()),
                    Err(e) => Err(e@),
                },
            ),
    {
        if let Err(error) = init {
            if !HandoffAdapter::tool_said(&error, "already exists") {
                return Err(error);
            }
        }
        Ok(HandoffRequest::UpdateConfig { require_estimate_hours: false })
    }

    /// The request that reads one task.
    pub fn task_request(id: &str) -> (r: HandoffRequest)
        ensures
            r@ == (HandoffRequestView::GetTask { task_id: id@, include_dependents: false }),
    {
        HandoffRequest::GetTask { task_id: id.to_owned(), include_dependents: false }
    }

    /// What a read of a task found. The substrate has no code for a missing task;
    /// its message says that the task was not found.
    pub fn fetch_task(&self, reply: Result<TaskData, HandoffAdapterError>) -> (r: Result<
        Option<TaskData>,
        HandoffAdapterError,
    >)
        ensures
            outcome(r) == task_found(outcome(reply)),
            r matches Ok(Some(data)) ==> reply == Ok::<TaskData, HandoffAdapterError>(data),
    {
        match reply {
            Ok(data) => Ok(Some(data)),
            Err(error) => if HandoffAdapter::tool_said(&error, "not found") {
                Ok(None)
            } else {
                Err(error)
            },
        }
    }

    /// Director's task for a record. A `done` counts only where Director itself
    /// completed the task.
    pub fn to_task(&self, data: &TaskData) -> (r: Task)
        requires
            data.extra.well_formed(),
        ensures
            task_reads_as(r@, data@, self@.trusted_done_ids.contains(data@.id)),
    {
        task_from_wire(data, &self.trusted_done_ids)
    }

    /// Records that Director itself completed a task.
    fn trust_done(&mut self, id: &str)
        ensures
            final(self)@ == (HandoffAdapterView {
                trusted_done_ids: with_id(old(self)@.trusted_done_ids, id@),
                ..old(self)@
            }),
    {
        if !is_listed(&self.trusted_done_ids, id) {
            let ghost before = self.trusted_done_ids.deep_view();
            self.trusted_done_ids.push(id.to_owned());
            assert(self.trusted_done_ids.deep_view() =~= before.push(id@));
        }
    }

    /// Records that a task is not one that Director completed.
    fn distrust_done(&mut self, id: &str)
        ensures
            final(self)@ == (HandoffAdapterView {
                trusted_done_ids: without_id(old(self)@.trusted_done_ids, id@),
                ..old(self)@
            }),
    {
        let ghost all = self.trusted_done_ids.deep_view();
        let ghost p = |other: Seq<char>| other != id@;
        let mut rest: Vec<String> = Vec::new();
        let mut i: usize = 0;
        proof {
            reveal(Seq::filter);
            assert(all.take(0) =~= Seq::empty());
            assert(rest.deep_view() =~= Seq::empty());
        }
        while i < self.trusted_done_ids.len()
            invariant
                i <= self.trusted_done_ids.len(),
                all == self.trusted_done_ids.deep_view(),
                p == (|other: Seq<char>| other != id@),
                rest.deep_view() == all.take(i as int).filter(p),
                *self == *old(self),
            decreases self.trusted_done_ids.len() - i,
        {
            let ghost before = rest.deep_view();
            proof {
                reveal(Seq::filter);
                assert(all.take(i + 1).drop_last() =~= all.take(i as int));
                assert(all[i as int] == self.trusted_done_ids@[i as int]@);
            }
            if !same_text(self.trusted_done_ids[i].as_str(), id) {
                rest.push(self.trusted_done_ids[i].clone());
                assert(rest.deep_view() =~= before.push(all[i as int]));
            }
            i += 1;
        }
        assert(all.take(all.len() as int) =~= all);
        self.trusted_done_ids = rest;
    }

    /// The request that writes a task. The substrate accepts a `done` only with
    /// every criterion ticked; Director reaches done by its own verdict alone, so
    /// the ticks record that verdict.
    pub fn write_task(&self, task: &Task) -> (r: HandoffRequest)
        ensures
            r@ == (HandoffRequestView::UpdateTask { task: record_to_write(task@) }),
            r matches HandoffRequest::UpdateTask { task } && task.extra.well_formed(),
    {
        let mut wire: TaskData = task_to_wire(task);
        if task.status == TaskStatus::Done {
            let ghost plain = wire@;
            let mut ticked: Vec<DoneCriterion> = Vec::new();
            let mut i: usize = 0;
            while i < wire.done_criteria.len()
                invariant
                    i <= wire.done_criteria.len(),
                    ticked@.len() == i,
                    forall|j: int|
                        0 <= j < i ==> (#[trigger] ticked@[j])@ == (DoneCriterionView {
                            item: wire.done_criteria@[j].item@,
                            checked: true,
                        }),
                decreases wire.done_criteria.len() - i,
            {
                ticked.push(
                    DoneCriterion { item: wire.done_criteria[i].item.clone(), checked: true },
                );
                i += 1;
            }
            assert(ticked.deep_view() =~= plain.done_criteria.map_values(
                |c: DoneCriterionView| DoneCriterionView { item: c.item, checked: true },
            ));
            wire.done_criteria = ticked;
        }
        HandoffRequest::UpdateTask { task: wire }
    }

    /// What a written task was stored as, by what a read of it found. With this a
    /// completed task becomes one whose `done` is trusted, and a task that Director
    /// wrote with any other status is no longer one.
    pub fn stored_task(
        &mut self,
        task: &Task,
        found: Result<Option<TaskData>, HandoffAdapterError>,
    ) -> (r: Result<Task, HandoffAdapterError>)
        requires
            found matches Ok(Some(data)) ==> data.extra.well_formed(),
        ensures
            match found {
                Ok(Some(data)) => {
                    &&& r is Ok
                    &&& task_reads_as(
                        r->Ok_0@,
                        data@,
                        final(self)@.trusted_done_ids.contains(data@.id),
                    )
                },
                Ok(None) => outcome(r) == Err::<TaskView, _>(
                    HandoffAdapterErrorView::NotFound(task@.id),
                ),
                Err(e) => outcome(r) == Err::<TaskView, _>(e@),
            },
            final(self)@ == (HandoffAdapterView {
                trusted_done_ids: trusted_after(
                    old(self)@.trusted_done_ids,
                    task@,
                    found matches Ok(Some(_)),
                ),
                ..old(self)@
            }),
    {
        if task.status != TaskStatus::Done {
            self.distrust_done(task.id.as_str());
        }
        match found {
            Ok(Some(data)) => {
                if task.status == TaskStatus::Done {
                    self.trust_done(task.id.as_str());
                }
                Ok(self.to_task(&data))
            },
            Ok(None) => Err(HandoffAdapterError::NotFound(task.id.to_string())),
            Err(error) => Err(error),
        }
    }

    /// Director's task for what a read found.
    pub fn get_task(&self, found: Result<Option<TaskData>, HandoffAdapterError>) -> (r: Result<
        Option<Task>,
        HandoffAdapterError,
    >)
        requires
            found matches Ok(Some(data)) ==> data.extra.well_formed(),
        ensures
            match found {
                Ok(Some(data)) => r matches Ok(Some(task)) && task_reads_as(
                    task@,
                    data@,
                    self@.trusted_done_ids.contains(data@.id),
                ),
                Ok(None) => outcome(r) == Ok::<Option<TaskView>, HandoffAdapterErrorView>(None),
                Err(e) => outcome(r) == Err::<Option<TaskView>, _>(e@),
            },
    {
        match found {
            Ok(Some(data)) => Ok(Some(self.to_task(&data))),
            Ok(None) => Ok(None),
            Err(error) => Err(error),
        }
    }

    /// Director's tasks for the records that were found, in their order. A task
    /// that is gone by the time it is read is passed over.
    pub fn list_tasks(&self, found: &Vec<Option<TaskData>>) -> (r: Vec<Task>)
        requires
            forall|i: int|
                0 <= i < found@.len() ==> (#[trigger] found@[i] matches Some(data)
                    ==> data.extra.well_formed()),
        ensures
            tasks_read_as(r.deep_view(), present(found.deep_view()), self@.trusted_done_ids),
    {
        let mut tasks: Vec<Task> = Vec::new();
        let ghost all = found.deep_view();
        assert(all.take(0) =~= Seq::empty());
        let mut i: usize = 0;
        while i < found.len()
            invariant
                i <= found.len(),
                all == found.deep_view(),
                forall|i: int|
                    0 <= i < found@.len() ==> (#[trigger] found@[i] matches Some(data)
                        ==> data.extra.well_formed()),
                tasks_read_as(
                    tasks.deep_view(),
                    present(all.take(i as int)),
                    self@.trusted_done_ids,
                ),
            decreases found.len() - i,
        {
            assert(all.take(i + 1).drop_last() =~= all.take(i as int));
            assert(all[i as int] == found@[i as int].deep_view());
            if let Some(data) = &found[i] {
                let ghost before = tasks.deep_view();
                let task: Task = self.to_task(data);
                tasks.push(task);
                assert(tasks.deep_view() =~= before.push(task@));
            }
            i += 1;
        }
        assert(all.take(all.len() as int) =~= all);
        tasks
    }

    /// The task to write to change a status: the task that was found with the new
    /// status. There is none where it has that status already and nothing is left to
    /// take back: a task that Director had completed is written even though an agent
    /// reopened it meanwhile, so that its `done` is trusted no longer.
    pub fn set_task_status(
        &self,
        id: &TaskId,
        status: TaskStatus,
        found: Option<Task>,
    ) -> (r: Result<Option<Task>, HandoffAdapterError>)
        ensures
            outcome(r) == (match found.deep_view() {
                None => Err::<Option<TaskView>, _>(HandoffAdapterErrorView::NotFound(id@)),
                Some(t) => Ok(status_write(self@.trusted_done_ids, status, t)),
            }),
    {
        match found {
            None => Err(HandoffAdapterError::NotFound(id.to_string())),
            Some(mut task) => {
                if task.status == status && (status == TaskStatus::Done || !is_listed(
                    &self.trusted_done_ids,
                    task.id.as_str(),
                )) {
                    return Ok(None);
                }
                task.status = status;
                Ok(Some(task))
            },
        }
    }

    /// The task to write to add a dependency: the task that was found with the
    /// dependency added at the end, or none where it has the dependency already.
    pub fn add_dependency(&self, id: &TaskId, dependency: &TaskId, found: Option<Task>) -> (r:
        Result<Option<Task>, HandoffAdapterError>)
        ensures
            outcome(r) == (match found.deep_view() {
                None => Err::<Option<TaskView>, _>(HandoffAdapterErrorView::NotFound(id@)),
                Some(t) => if t.dependencies.contains(dependency@) {
                    Ok(None)
                } else {
                    Ok(Some(TaskView { dependencies: t.dependencies.push(dependency@), ..t }))
                },
            }),
            outcome(r) == dependency_write(id@, dependency@, found.deep_view()),
    {
        match found {
            None => Err(HandoffAdapterError::NotFound(id.to_string())),
            Some(mut task) => {
                if dependency.is_among(&task.dependencies) {
                    return Ok(None);
                }
                let ghost before = task@;
                task.dependencies.push(dependency.clone());
                assert(task.dependencies.deep_view() =~= before.dependencies.push(dependency@));
                assert(task@ == (TaskView {
                    dependencies: before.dependencies.push(dependency@),
                    ..before
                }));
                Ok(Some(task))
            },
        }
    }

    /// The status of the last listed task with an id.
    fn status_among(tasks: &Vec<Task>, id: &TaskId) -> (r: Option<TaskStatus>)
        ensures
            r == listed_status(tasks.deep_view(), id@),
    {
        let ghost all = tasks.deep_view();
        let mut i: usize = tasks.len();
        assert(all.take(all.len() as int) =~= all);
        while i > 0
            invariant
                i <= tasks.len(),
                all == tasks.deep_view(),
                listed_status(all, id@) == listed_status(all.take(i as int), id@),
            decreases i,
        {
            assert(all.take(i as int).drop_last() =~= all.take(i - 1));
            assert(all.take(i as int).last() == tasks@[i - 1]@);
            i -= 1;
            if tasks[i].id.same_as(id) {
                return Some(tasks[i].status);
            }
        }
        None
    }

    /// The listed tasks that can be assigned, in their order.
    pub fn ready_tasks(&self, tasks: &Vec<Task>) -> (r: Vec<Task>)
        ensures
            r.deep_view() == tasks.deep_view().filter(
                |t: TaskView| can_be_assigned(tasks.deep_view(), t),
            ),
            r.deep_view() == ready_among(tasks.deep_view()),
    {
        let ghost all = tasks.deep_view();
        let ghost p = |t: TaskView| can_be_assigned(all, t);
        let mut ready: Vec<Task> = Vec::new();
        let mut i: usize = 0;
        proof {
            reveal(Seq::filter);
            assert(all.take(0).filter(p) =~= Seq::empty());
            assert(ready.deep_view() =~= all.take(0).filter(p));
        }
        while i < tasks.len()
            invariant
                i <= tasks.len(),
                all == tasks.deep_view(),
                p == (|t: TaskView| can_be_assigned(all, t)),
                ready.deep_view() == all.take(i as int).filter(p),
            decreases tasks.len() - i,
        {
            let task: &Task = &tasks[i];
            let mut assignable: bool = !task.status.is_terminal();
            let mut k: usize = 0;
            assert(task@ == all[i as int]);
            while k < task.dependencies.len()
                invariant
                    k <= task.dependencies.len(),
                    all == tasks.deep_view(),
                    assignable == (!task@.status.terminal_state() && forall|j: int|
                        0 <= j < k ==> listed_status(all, #[trigger] task@.dependencies[j])
                            == Some(TaskStatus::Done)),
                decreases task.dependencies.len() - k,
            {
                assert(task@.dependencies[k as int] == task.dependencies@[k as int]@);
                let status: Option<TaskStatus> = HandoffAdapter::status_among(
                    tasks,
                    &task.dependencies[k],
                );
                if status != Some(TaskStatus::Done) {
                    assignable = false;
                }
                k += 1;
            }
            assert(assignable == p(all[i as int]));
            let ghost before = ready.deep_view();
            proof {
                reveal(Seq::filter);
                assert(all.take(i + 1).drop_last() =~= all.take(i as int));
            }
            if assignable {
                ready.push(task.clone());
                assert(ready.deep_view() =~= before.push(task@));
            }
            i += 1;
        }
        assert(all.take(all.len() as int) =~= all);
        ready
    }

    /// Refuses an agent operation for anyone but the agent that the connection
    /// speaks as, which is all that the substrate can act as.
    pub fn require_own_identity(&self, id: &AgentId) -> (r: Result<(), HandoffAdapterError>)
        ensures
            r is Ok <==> self@.agent_id == id@,
            r matches Err(e) ==> e@ == HandoffAdapterErrorView::Unsupported(
                "this handoff-mcp connection speaks as '"@ + self@.agent_id + "', not '"@ + id@
                    + "'"@,
            ),
    {
        if !self.agent_id.same_as(id) {
            let mut text: String = joined(
                "this handoff-mcp connection speaks as '",
                self.agent_id.as_str(),
            );
            text.append("', not '");
            text.append(id.as_str());
            text.append("'");
            return Err(HandoffAdapterError::Unsupported(text));
        }
        Ok(())
    }

    /// The request that lists the agents. Their tasks are asked for: they alone
    /// tell a busy agent from an available one.
    pub fn agents_request() -> (r: HandoffRequest)
        ensures
            r@ == (HandoffRequestView::ListAgents { include_tasks: true }),
    {
        HandoffRequest::ListAgents { include_tasks: true }
    }

    /// The listed agent with an id.
    pub fn agent_record(&self, id: &AgentId, list: &AgentList) -> (r: Option<Agent>)
        ensures
            match record_of(list@.agents, id@) {
                Some(record) => r matches Some(agent) && agent_reads_as(agent@, record),
                None => r is None,
            },
    {
        let ghost all = list@.agents;
        let mut i: usize = 0;
        assert(all.skip(0) =~= all);
        while i < list.agents.len()
            invariant
                i <= list.agents.len(),
                all == list.agents.deep_view(),
                record_of(all, id@) == record_of(all.skip(i as int), id@),
            decreases list.agents.len() - i,
        {
            assert(all.skip(i as int)[0] == list.agents@[i as int]@);
            assert(all.skip(i as int).skip(1) =~= all.skip(i + 1));
            if same_text(list.agents[i].agent_id.as_str(), id.as_str()) {
                return Some(agent_from_wire(&list.agents[i]));
            }
            i += 1;
        }
        assert(all.skip(i as int) =~= Seq::empty());
        None
    }

    /// The agent that loading the context registered.
    pub fn register_agent(&self, id: &AgentId, list: &AgentList) -> (r: Result<
        Agent,
        HandoffAdapterError,
    >)
        ensures
            match record_of(list@.agents, id@) {
                Some(record) => r matches Ok(agent) && agent_reads_as(agent@, record),
                None => outcome(r) == Err::<AgentView, _>(
                    HandoffAdapterErrorView::Malformed {
                        tool: "handoff_list_agents"@,
                        message: "load_context did not register the agent"@,
                    },
                ),
            },
    {
        match self.agent_record(id, list) {
            Some(agent) => Ok(agent),
            None => Err(
                HandoffAdapterError::Malformed {
                    tool: "handoff_list_agents".to_owned(),
                    message: "load_context did not register the agent".to_owned(),
                },
            ),
        }
    }

    /// The status that a heartbeat left the agent with.
    pub fn heartbeat(&self, id: &AgentId, list: &AgentList) -> (r: Result<
        AgentStatus,
        HandoffAdapterError,
    >)
        ensures
            match record_of(list@.agents, id@) {
                Some(record) => r == Ok::<AgentStatus, HandoffAdapterError>(
                    agent_status_of_wire(record.status, record.claimed_tasks.len() > 0),
                ),
                None => outcome(r) == Err::<AgentStatus, _>(
                    HandoffAdapterErrorView::Malformed {
                        tool: "handoff_list_agents"@,
                        message: "heartbeat did not refresh the agent"@,
                    },
                ),
            },
    {
        match self.agent_record(id, list) {
            Some(agent) => Ok(agent.status),
            None => Err(
                HandoffAdapterError::Malformed {
                    tool: "handoff_list_agents".to_owned(),
                    message: "heartbeat did not refresh the agent".to_owned(),
                },
            ),
        }
    }

    /// Director's agents for the listed ones, in their order.
    pub fn list_agents(&self, list: &AgentList) -> (r: Vec<Agent>)
        ensures
            agents_read_as(r.deep_view(), list@.agents),
    {
        let mut agents: Vec<Agent> = Vec::new();
        let mut i: usize = 0;
        while i < list.agents.len()
            invariant
                i <= list.agents.len(),
                agents@.len() == i,
                forall|j: int|
                    0 <= j < i ==> agent_reads_as(
                        (#[trigger] agents@[j])@,
                        list.agents@[j]@,
                    ),
            decreases list.agents.len() - i,
        {
            agents.push(agent_from_wire(&list.agents[i]));
            i += 1;
        }
        assert forall|j: int| 0 <= j < agents@.len() implies agent_reads_as(
            #[trigger] agents.deep_view()[j],
            list@.agents[j],
        ) by {
            assert(agents.deep_view()[j] == agents@[j]@);
        }
        agents
    }

    /// An agent's status cannot be set: the substrate derives it from the age of
    /// the last heartbeat.
    pub fn set_agent_status(&self, _id: &AgentId, _status: AgentStatus) -> (r: Result<
        (),
        HandoffAdapterError,
    >)
        ensures
            r matches Err(e) && e@ == HandoffAdapterErrorView::Unsupported(
                "handoff-mcp derives agent status from heartbeat age and cannot be set directly"@,
            ),
    {
        Err(
            HandoffAdapterError::Unsupported(
                "handoff-mcp derives agent status from heartbeat age and cannot be set directly".to_owned(),
            ),
        )
    }

    /// The agents that are available, in their order.
    pub fn available_agents(&self, agents: &Vec<Agent>) -> (r: Vec<Agent>)
        ensures
            r.deep_view() == agents.deep_view().filter(
                |a: AgentView| a.status == AgentStatus::Available,
            ),
            r.deep_view() == available_among(agents.deep_view()),
    {
        let ghost all = agents.deep_view();
        let ghost p = |a: AgentView| a.status == AgentStatus::Available;
        let mut available: Vec<Agent> = Vec::new();
        let mut i: usize = 0;
        proof {
            reveal(Seq::filter);
            assert(available.deep_view() =~= all.take(0).filter(p));
        }
        while i < agents.len()
            invariant
                i <= agents.len(),
                all == agents.deep_view(),
                p == (|a: AgentView| a.status == AgentStatus::Available),
                available.deep_view() == all.take(i as int).filter(p),
            decreases agents.len() - i,
        {
            let ghost before = available.deep_view();
            proof {
                reveal(Seq::filter);
                assert(all.take(i + 1).drop_last() =~= all.take(i as int));
                assert(all[i as int] == agents@[i as int]@);
            }
            if agents[i].status == AgentStatus::Available {
                available.push(agents[i].clone());
                assert(available.deep_view() =~= before.push(all[i as int]));
            }
            i += 1;
        }
        assert(all.take(all.len() as int) =~= all);
        available
    }

    /// The request that starts a session. The substrate picks the session's id
    /// itself.
    pub fn start_session(&self, session: &AgentSession) -> (r: HandoffRequest)
        ensures
            r@ == session_start(session@),
    {
        let mut related: Vec<String> = Vec::new();
        if let Some(task) = &session.task_id {
            related.push(task.to_string());
        }
        assert(related.deep_view() =~= related_tasks(session@));
        HandoffRequest::SaveContext {
            summary: session_summary_for(session),
            session_status: Some("active".to_owned()),
            related_task_ids: Some(related),
            pause_session_id: None,
            close_session_id: None,
        }
    }

    /// The session that is active once one was started.
    pub fn active_session(&self, summaries: &Vec<SessionSummary>) -> (r: Result<
        AgentSession,
        HandoffAdapterError,
    >)
        ensures
            match active_summary(summaries.deep_view()) {
                Some(summary) => r matches Ok(session) && session_reads_as(session@, summary),
                None => outcome(r) == Err::<AgentSessionView, _>(
                    HandoffAdapterErrorView::Malformed {
                        tool: "handoff_save_context"@,
                        message: "no active session after starting one"@,
                    },
                ),
            },
    {
        let ghost all = summaries.deep_view();
        let mut i: usize = 0;
        assert(all.skip(0) =~= all);
        while i < summaries.len()
            invariant
                i <= summaries.len(),
                all == summaries.deep_view(),
                active_summary(all) == active_summary(all.skip(i as int)),
            decreases summaries.len() - i,
        {
            assert(all.skip(i as int)[0] == summaries@[i as int]@);
            assert(all.skip(i as int).skip(1) =~= all.skip(i + 1));
            let session: AgentSession = session_from_wire(&summaries[i]);
            if session.status == SessionStatus::Active {
                return Ok(session);
            }
            i += 1;
        }
        assert(all.skip(i as int) =~= Seq::empty());
        Err(
            HandoffAdapterError::Malformed {
                tool: "handoff_save_context".to_owned(),
                message: "no active session after starting one".to_owned(),
            },
        )
    }

    /// The listed session with an id.
    pub fn get_session(&self, id: &SessionId, summaries: &Vec<SessionSummary>) -> (r: Option<
        AgentSession,
    >)
        ensures
            match summary_of(summaries.deep_view(), id@) {
                Some(summary) => r matches Some(session) && session_reads_as(session@, summary),
                None => r is None,
            },
    {
        let ghost all = summaries.deep_view();
        let mut i: usize = 0;
        assert(all.skip(0) =~= all);
        while i < summaries.len()
            invariant
                i <= summaries.len(),
                all == summaries.deep_view(),
                summary_of(all, id@) == summary_of(all.skip(i as int), id@),
            decreases summaries.len() - i,
        {
            assert(all.skip(i as int)[0] == summaries@[i as int]@);
            assert(all.skip(i as int).skip(1) =~= all.skip(i + 1));
            if same_text(summaries[i].id.as_str(), id.as_str()) {
                return Some(session_from_wire(&summaries[i]));
            }
            i += 1;
        }
        assert(all.skip(i as int) =~= Seq::empty());
        None
    }

    /// The request that ends a session. The substrate knows only closed and
    /// paused: a session that ran out of context is paused.
    pub fn close_session(&self, id: &SessionId, end: SessionEnd) -> (r: HandoffRequest)
        ensures
            r@ == session_close(id@, end),
    {
        let pause: bool = end == SessionEnd::ContextExhausted;
        HandoffRequest::SaveContext {
            summary: session_end_summary(end),
            session_status: None,
            related_task_ids: None,
            pause_session_id: if pause {
                Some(id.to_string())
            } else {
                None
            },
            close_session_id: if pause {
                None
            } else {
                Some(id.to_string())
            },
        }
    }

    /// The sessions that worked on a task, oldest first: the substrate lists the
    /// newest first. `related` holds the tasks of each listed session.
    pub fn sessions_for_task(
        &self,
        task: &TaskId,
        summaries: &Vec<SessionSummary>,
        related: &Vec<Vec<String>>,
    ) -> (r: Vec<AgentSession>)
        requires
            summaries@.len() == related@.len(),
        ensures
            sessions_read_as(
                r.deep_view(),
                related_summaries(
                    summaries.deep_view(),
                    related.deep_view(),
                    task@,
                ).reverse(),
            ),
    {
        let ghost all = summaries.deep_view();
        let ghost tasks = related.deep_view();
        let mut sessions: Vec<AgentSession> = Vec::new();
        let ghost mut chosen: Seq<SessionSummaryView> = Seq::empty();
        let mut i: usize = summaries.len();
        assert(all.take(all.len() as int) =~= all);
        let ghost total = related_summaries(all, tasks, task@);
        assert(related_summaries(all, tasks, task@) + chosen =~= total);
        while i > 0
            invariant
                i <= summaries.len(),
                summaries@.len() == related@.len(),
                all == summaries.deep_view(),
                tasks == related.deep_view(),
                related_summaries(all.take(i as int), tasks, task@) + chosen == total,
                sessions_read_as(sessions.deep_view(), chosen.reverse()),
            decreases i,
        {
            proof {
                assert(all.take(i as int).drop_last() =~= all.take(i - 1));
                assert(all.take(i as int).last() == summaries@[i - 1]@);
                assert(tasks[i - 1] == related@[i - 1].deep_view());
            }
            i -= 1;
            if is_listed(&related[i], task.as_str()) {
                let ghost before = sessions.deep_view();
                let session: AgentSession = session_from_wire(&summaries[i]);
                sessions.push(session);
                proof {
                    let earlier = chosen;
                    let summary = summaries@[i as int]@;
                    chosen = seq![summary] + earlier;
                    assert(sessions.deep_view() =~= before.push(session@));
                    assert(chosen.reverse() =~= earlier.reverse().push(summary));
                    assert(related_summaries(all.take(i as int), tasks, task@) + chosen
                        =~= related_summaries(all.take(i as int), tasks, task@).push(summary)
                        + earlier);
                }
            }
        }
        assert(chosen =~= total);
        sessions
    }

    /// The request that forks a session. The substrate picks the fork's id itself;
    /// the id that Director issued goes into the summary.
    pub fn fork_session(&self, parent: &SessionId, new_id: &SessionId) -> (r: HandoffRequest)
        ensures
            r@ == (HandoffRequestView::ForkSession {
                source_session_id: parent@,
                summary: "Forked by director-brain as "@ + new_id@,
            }),
    {
        HandoffRequest::ForkSession {
            source_session_id: parent.to_string(),
            summary: joined("Forked by director-brain as ", new_id.as_str()),
        }
    }

    /// The tasks that a session's details list, from the member under the key.
    pub fn related_in(member: &Option<ExtraValue>) -> (r: Vec<String>)
        ensures
            r.deep_view() == tasks_listed(member.deep_view()),
    {
        let mut r: Vec<String> = Vec::new();
        assert(r.deep_view() =~= Seq::empty());
        let items: &Vec<Option<String>> = match member {
            Some(ExtraValue::List(items)) => items,
            _ => {
                return r;
            },
        };
        let ghost all = items.deep_view();
        let mut i: usize = 0;
        assert(all.take(0) =~= Seq::empty());
        while i < items.len()
            invariant
                i <= items.len(),
                all == items.deep_view(),
                r.deep_view() == strings_among(all.take(i as int)),
            decreases items.len() - i,
        {
            let ghost before = r.deep_view();
            assert(all.take(i + 1).drop_last() =~= all.take(i as int));
            assert(all[i as int] == items@[i as int].deep_view());
            if let Some(text) = &items[i] {
                r.push(text.clone());
                assert(r.deep_view() =~= before.push(text@));
            }
            i += 1;
        }
        assert(all.take(all.len() as int) =~= all);
        r
    }

    /// The tasks that a session lists, by the substrate's details of it.
    pub fn related_tasks_of(reply: &str) -> (r: Result<Vec<String>, HandoffAdapterError>)
        ensures
            outcome(r) == (match json_member(reply@, RELATED_TASKS_KEY@) {
                Ok(member) => Ok(tasks_listed(member)),
                Err(reason) => Err(parse_failure("handoff_get_session"@, reason, reply@)),
            }),
    {
        match member_of(reply, RELATED_TASKS_KEY) {
            Ok(member) => Ok(Self::related_in(&member)),
            Err(reason) => Err(Self::parse_error("handoff_get_session", reason.as_str(), reply)),
        }
    }

    /// The id that the substrate gave to a fork, from the member of its reply.
    pub fn session_id_in(member: &Option<ExtraValue>) -> (r: Result<
        SessionId,
        HandoffAdapterError,
    >)
        ensures
            outcome(r) == session_named(member.deep_view()),
    {
        match member {
            Some(ExtraValue::Text(id)) => Ok(SessionId::from_string(id.as_str())),
            _ => Err(
                HandoffAdapterError::Malformed {
                    tool: "handoff_fork_session".to_owned(),
                    message: "no session_id in the reply".to_owned(),
                },
            ),
        }
    }

    /// The id that the substrate gave to a fork, which its reply must name.
    pub fn forked_id(reply: &str) -> (r: Result<SessionId, HandoffAdapterError>)
        ensures
            outcome(r) == (match json_member(reply@, SESSION_ID_KEY@) {
                Ok(member) => session_named(member),
                Err(reason) => Err(parse_failure("handoff_fork_session"@, reason, reply@)),
            }),
    {
        match member_of(reply, SESSION_ID_KEY) {
            Ok(member) => Self::session_id_in(&member),
            Err(reason) => Err(Self::parse_error("handoff_fork_session", reason.as_str(), reply)),
        }
    }

    /// The fork itself, which the substrate must list.
    pub fn forked_session(&self, id: &SessionId, summaries: &Vec<SessionSummary>) -> (r: Result<
        AgentSession,
        HandoffAdapterError,
    >)
        ensures
            match summary_of(summaries.deep_view(), id@) {
                Some(summary) => r matches Ok(session) && session_reads_as(session@, summary),
                None => outcome(r) == Err::<AgentSessionView, _>(
                    HandoffAdapterErrorView::NotFound(id@),
                ),
            },
    {
        match self.get_session(id, summaries) {
            Some(session) => Ok(session),
            None => Err(HandoffAdapterError::NotFound(id.to_string())),
        }
    }
}

/// The tasks that a session is linked to when it starts.
pub open spec fn related_tasks(session: AgentSessionView) -> Seq<Seq<char>> {
    match session.task_id {
        Some(task) => seq![task],
        None => Seq::empty(),
    }
}

/// A session in one line.
pub open spec fn session_line(session: AgentSessionView) -> Seq<char> {
    match session.task_id {
        Some(task) => "Working on "@ + task,
        None => "Session started by director-brain"@,
    }
}

/// The request that starts a session.
pub open spec fn session_start(session: AgentSessionView) -> HandoffRequestView {
    HandoffRequestView::SaveContext {
        summary: session_line(session),
        session_status: Some("active"@),
        related_task_ids: Some(related_tasks(session)),
        pause_session_id: None,
        close_session_id: None,
    }
}

/// Why a session ended, in one line.
pub open spec fn session_end_line(end: SessionEnd) -> Seq<char> {
    match end {
        SessionEnd::Clean => "Closed cleanly"@,
        SessionEnd::Vanished => "Heartbeat stopped; closed by director-brain"@,
        SessionEnd::Terminated => "Terminated by director-brain"@,
        SessionEnd::ContextExhausted => "Context window exhausted; paused"@,
        SessionEnd::Forked => "Forked"@,
    }
}

/// The request that ends a session.
pub open spec fn session_close(id: Seq<char>, end: SessionEnd) -> HandoffRequestView {
    let pause = end == SessionEnd::ContextExhausted;
    HandoffRequestView::SaveContext {
        summary: session_end_line(end),
        session_status: None,
        related_task_ids: None,
        pause_session_id: if pause {
            Some(id)
        } else {
            None
        },
        close_session_id: if pause {
            None
        } else {
            Some(id)
        },
    }
}

/// A session in one line, by what Director knows of it.
fn session_summary_for(session: &AgentSession) -> (r: String)
    ensures
        r@ == session_line(session@),
{
    match &session.task_id {
        Some(task) => joined("Working on ", task.as_str()),
        None => "Session started by director-brain".to_owned(),
    }
}

/// Why a session ended, in one line.
fn session_end_summary(end: SessionEnd) -> (r: String)
    ensures
        r@ == session_end_line(end),
{
    match end {
        SessionEnd::Clean => "Closed cleanly".to_owned(),
        SessionEnd::Vanished => "Heartbeat stopped; closed by director-brain".to_owned(),
        SessionEnd::Terminated => "Terminated by director-brain".to_owned(),
        SessionEnd::ContextExhausted => "Context window exhausted; paused".to_owned(),
        SessionEnd::Forked => "Forked".to_owned(),
    }
}

/// What an agent reports does not complete a task: a record that carries no mark
/// of Director's, of a task that Director did not complete, never reads as done,
/// whatever status stands in it or beside it.
pub proof fn law_an_agent_reported_done_does_not_complete(
    adapter: HandoffAdapterView,
    data: TaskDataView,
    read: TaskView,
)
    requires
        !adapter.trusted_done_ids.contains(data.id),
        !extra_is_set(data.extra, DIRECTOR_VERIFIED_KEY@),
        task_reads_as(read, data, adapter.trusted_done_ids.contains(data.id)),
    ensures
        read.status != TaskStatus::Done,
        data.status == "done"@ && extra_text(data.extra, DIRECTOR_STATUS_KEY@) is None
            ==> read.status == TaskStatus::VerificationPending,
{
    law_self_reported_done_is_not_done(data.status, data.extra);
}

/// A task that Director took back is open to no agent's report: once Director wrote a
/// task with any status but done, a record of that task without the mark never reads
/// as done, even where Director had completed the task before.
pub proof fn law_a_task_taken_back_is_not_trusted(
    before: HandoffAdapterView,
    after: HandoffAdapterView,
    written: TaskView,
    found: bool,
    data: TaskDataView,
    read: TaskView,
)
    requires
        written.status != TaskStatus::Done,
        after.trusted_done_ids == trusted_after(before.trusted_done_ids, written, found),
        data.id == written.id,
        !extra_is_set(data.extra, DIRECTOR_VERIFIED_KEY@),
        task_reads_as(read, data, after.trusted_done_ids.contains(data.id)),
    ensures
        !after.trusted_done_ids.contains(written.id),
        read.status != TaskStatus::Done,
        data.status == "done"@ && extra_text(data.extra, DIRECTOR_STATUS_KEY@) is None
            ==> read.status == TaskStatus::VerificationPending,
{
    lemma_without_id(before.trusted_done_ids, written.id);
    law_self_reported_done_is_not_done(data.status, data.extra);
}

/// No agent can promote a task that Director took back by writing `done`: once
/// Director set its status to anything else, a record of it without the mark never
/// reads as done. This holds whatever Director found when it set the status, an
/// agent's report included, and whether or not it had completed the task before.
pub proof fn law_an_agent_cannot_promote_a_task_taken_back(
    before: HandoffAdapterView,
    after: HandoffAdapterView,
    status: TaskStatus,
    found: TaskView,
    stored: bool,
    data: TaskDataView,
    read: TaskView,
)
    requires
        status != TaskStatus::Done,
        after.trusted_done_ids == trusted_after_status(
            before.trusted_done_ids,
            status,
            found,
            stored,
        ),
        data.id == found.id,
        !extra_is_set(data.extra, DIRECTOR_VERIFIED_KEY@),
        task_reads_as(read, data, after.trusted_done_ids.contains(data.id)),
    ensures
        !after.trusted_done_ids.contains(found.id),
        read.status != TaskStatus::Done,
        data.status == "done"@ && extra_text(data.extra, DIRECTOR_STATUS_KEY@) is None
            ==> read.status == TaskStatus::VerificationPending,
{
    lemma_without_id(before.trusted_done_ids, found.id);
    law_an_agent_reported_done_does_not_complete(after, data, read);
}

proof fn lemma_without_id(ids: Seq<Seq<char>>, id: Seq<char>)
    ensures
        !without_id(ids, id).contains(id),
        forall|other: Seq<char>|
            other != id ==> (without_id(ids, id).contains(other) <==> ids.contains(other)),
    decreases ids.len(),
{
    reveal(Seq::filter);
    if ids.len() > 0 {
        let rest = ids.drop_last();
        lemma_without_id(rest, id);
        let before = without_id(rest, id);
        assert(ids =~= rest.push(ids.last()));
        assert forall|other: Seq<char>|
            without_id(ids, id).contains(other) <==> other != id && ids.contains(other) by {
            vstd::seq_lib::lemma_seq_contains_after_push(before, ids.last(), other);
            vstd::seq_lib::lemma_seq_contains_after_push(rest, ids.last(), other);
        }
    }
}

/// Writing one task changes the trust in no other.
pub proof fn law_trust_in_other_tasks_stays(
    ids: Seq<Seq<char>>,
    written: TaskView,
    found: bool,
    other: Seq<char>,
)
    requires
        other != written.id,
    ensures
        trusted_after(ids, written, found).contains(other) <==> ids.contains(other),
{
    lemma_without_id(ids, written.id);
    vstd::seq_lib::lemma_seq_contains_after_push(ids, written.id, other);
}

/// A completion by Director reads as done: once Director wrote a task as done and
/// found it stored, any record of that task with the substrate's `done` and no
/// status of Director's beside it reads as done, whether or not the substrate
/// kept the mark.
pub proof fn law_a_director_completion_reads_as_done(
    before: HandoffAdapterView,
    after: HandoffAdapterView,
    written: TaskView,
    data: TaskDataView,
    read: TaskView,
)
    requires
        written.status == TaskStatus::Done,
        after.trusted_done_ids == trusted_after(before.trusted_done_ids, written, true),
        data.id == written.id,
        data.status == "done"@,
        extra_text(data.extra, DIRECTOR_STATUS_KEY@) is None,
        task_reads_as(read, data, after.trusted_done_ids.contains(data.id)),
    ensures
        read.status == TaskStatus::Done,
{
    assert(after.trusted_done_ids.contains(data.id)) by {
        if !before.trusted_done_ids.contains(written.id) {
            assert(after.trusted_done_ids.last() == written.id);
        }
    }
    reveal_strlit("todo");
    reveal_strlit("in_progress");
    reveal_strlit("blocked");
    reveal_strlit("review");
    reveal_strlit("done");
    assert("todo"@[0] != "done"@[0]);
    assert("in_progress"@.len() == 11 && "blocked"@.len() == 7 && "review"@.len() == 6);
}

/// The substrate's own rules accept what is written: a record for a completed
/// task has every criterion ticked, and no other record has any.
pub proof fn law_criteria_are_ticked_only_by_completion(t: TaskView, i: int)
    requires
        0 <= i < record_to_write(t).done_criteria.len(),
    ensures
        record_to_write(t).done_criteria[i].checked == (t.status == TaskStatus::Done),
        record_to_write(t).done_criteria.len() == t.expected_outputs.len(),
        record_to_write(t).done_criteria[i].item == t.expected_outputs[i].criterion,
{
}

/// A record as it was written reads as the status it was written with.
pub proof fn law_a_written_status_reads_back(t: TaskView, trusted: bool, read: TaskView)
    requires
        task_reads_as(read, record_to_write(t), trusted),
    ensures
        read.status == t.status,
        read.id == t.id,
        read.dependencies == t.dependencies,
{
    law_status_survives_the_wire(t, trusted);
}

/// Setting a project up twice is as good as once: a refusal because the project
/// exists leads to the same next request as a success.
pub proof fn law_setup_is_repeatable(tool: Seq<char>, message: Seq<char>)
    requires
        has_part(message, "already exists"@),
    ensures
        after_init(Err(call_failure(tool, TransportErrorView::ToolFailed(message)))) == after_init(
            Ok(()),
        ),
{
}

/// A missing task is no failure of a read.
pub proof fn law_a_missing_task_is_not_an_error(tool: Seq<char>, message: Seq<char>)
    requires
        has_part(message, "not found"@),
    ensures
        task_found(Err(call_failure(tool, TransportErrorView::ToolFailed(message)))) == Ok::<
            Option<TaskDataView>,
            HandoffAdapterErrorView,
        >(None),
{
}

/// The task at `j` is the last that is listed with an id.
pub open spec fn last_listed(tasks: Seq<TaskView>, id: Seq<char>, j: int) -> bool {
    &&& 0 <= j < tasks.len()
    &&& tasks[j].id == id
    &&& forall|k: int| j < k < tasks.len() ==> (#[trigger] tasks[k]).id != id
}

/// The status by an id is that of the last task that is listed with it.
proof fn lemma_listed_status(tasks: Seq<TaskView>, id: Seq<char>)
    ensures
        listed_status(tasks, id) is None <==> forall|k: int|
            0 <= k < tasks.len() ==> (#[trigger] tasks[k]).id != id,
        forall|j: int| #[trigger]
            last_listed(tasks, id, j) ==> listed_status(tasks, id) == Some(tasks[j].status),
        listed_status(tasks, id) is Some ==> exists|j: int| #[trigger] last_listed(tasks, id, j),
    decreases tasks.len(),
{
    if tasks.len() > 0 {
        let front = tasks.drop_last();
        let n = tasks.len() - 1;
        lemma_listed_status(front, id);
        if tasks.last().id == id {
            assert(last_listed(tasks, id, n));
        } else {
            assert forall|j: int| #[trigger] last_listed(tasks, id, j) implies listed_status(
                tasks,
                id,
            ) == Some(tasks[j].status) by {
                assert(front[j] == tasks[j]);
                assert forall|k: int| j < k < front.len() implies (#[trigger] front[k]).id
                    != id by {
                    assert(front[k] == tasks[k]);
                }
                assert(last_listed(front, id, j));
            }
            if listed_status(tasks, id) is Some {
                let j = choose|j: int| #[trigger] last_listed(front, id, j);
                assert(front[j] == tasks[j]);
                assert forall|k: int| j < k < tasks.len() implies (#[trigger] tasks[k]).id
                    != id by {
                    if k < n {
                        assert(front[k] == tasks[k]);
                    }
                }
                assert(last_listed(tasks, id, j));
            } else {
                assert forall|k: int| 0 <= k < tasks.len() implies (#[trigger] tasks[k]).id
                    != id by {
                    if k < n {
                        assert(front[k] == tasks[k]);
                    }
                }
            }
            if forall|k: int| 0 <= k < tasks.len() ==> (#[trigger] tasks[k]).id != id {
                assert forall|k: int| 0 <= k < front.len() implies (#[trigger] front[k]).id
                    != id by {
                    assert(front[k] == tasks[k]);
                }
            }
        }
    }
}

/// A listed task is ready exactly where it is not finished itself and each task that
/// it depends on is listed and done; and the ready tasks stand in the order of the
/// list.
pub proof fn law_ready_tasks_wait_for_nothing(tasks: Seq<TaskView>, t: TaskView)
    ensures
        ready_among(tasks).contains(t) <==> {
            &&& tasks.contains(t)
            &&& t.status != TaskStatus::Done && t.status != TaskStatus::Failed && t.status
                != TaskStatus::Cancelled
            &&& forall|d: Seq<char>| #[trigger]
                t.dependencies.contains(d) ==> exists|j: int|
                    #[trigger] last_listed(tasks, d, j) && tasks[j].status == TaskStatus::Done
        },
        exists|chosen: spec_fn(TaskView) -> bool| #[trigger]
            tasks.filter(chosen) == ready_among(tasks),
{
    let p = |t: TaskView| can_be_assigned(tasks, t);
    assert(tasks.filter(p) == ready_among(tasks));
    if ready_among(tasks).contains(t) {
        lemma_filter_from(tasks, p, t);
        assert forall|d: Seq<char>| #[trigger] t.dependencies.contains(d) implies exists|j: int|
            #[trigger] last_listed(tasks, d, j) && tasks[j].status == TaskStatus::Done by {
            let i = choose|i: int| 0 <= i < t.dependencies.len() && t.dependencies[i] == d;
            assert(listed_status(tasks, t.dependencies[i]) == Some(TaskStatus::Done));
            lemma_listed_status(tasks, d);
            let j = choose|j: int| #[trigger] last_listed(tasks, d, j);
            assert(last_listed(tasks, d, j));
        }
    }
    if tasks.contains(t) && t.status != TaskStatus::Done && t.status != TaskStatus::Failed
        && t.status != TaskStatus::Cancelled && (forall|d: Seq<char>| #[trigger]
        t.dependencies.contains(d) ==> exists|j: int|
            #[trigger] last_listed(tasks, d, j) && tasks[j].status == TaskStatus::Done) {
        assert forall|i: int| 0 <= i < t.dependencies.len() implies listed_status(
            tasks,
            #[trigger] t.dependencies[i],
        ) == Some(TaskStatus::Done) by {
            let d = t.dependencies[i];
            assert(t.dependencies.contains(d));
            lemma_listed_status(tasks, d);
            let j = choose|j: int|
                #[trigger] last_listed(tasks, d, j) && tasks[j].status == TaskStatus::Done;
            assert(last_listed(tasks, d, j));
        }
        assert(p(t));
        lemma_filter_into(tasks, p, t);
    }
}

/// Only a done dependency unblocks: where the task that a task depends on is listed
/// once with any other status, failed and cancelled included, or not listed at all, it
/// is not ready.
pub proof fn law_only_a_done_dependency_unblocks(tasks: Seq<TaskView>, t: TaskView, d: Seq<char>)
    requires
        t.dependencies.contains(d),
        forall|k: int|
            0 <= k < tasks.len() && (#[trigger] tasks[k]).id == d ==> tasks[k].status
                != TaskStatus::Done,
    ensures
        !ready_among(tasks).contains(t),
{
    law_ready_tasks_wait_for_nothing(tasks, t);
    if ready_among(tasks).contains(t) {
        let j = choose|j: int|
            #[trigger] last_listed(tasks, d, j) && tasks[j].status == TaskStatus::Done;
        assert(tasks[j].id == d);
    }
}

/// A tool's own failure keeps the tool's name and words; any other is one of the
/// transport, passed on as it is.
pub proof fn law_a_failed_tool_keeps_its_words(tool: Seq<char>, e: TransportErrorView)
    ensures
        e matches TransportErrorView::ToolFailed(message) ==> call_failure(tool, e)
            == (HandoffAdapterErrorView::Tool { tool, message }),
        e !is ToolFailed ==> call_failure(tool, e) == HandoffAdapterErrorView::Transport(e),
{
}

/// A reply that does not parse is quoted from its start, as far as the limit goes, behind
/// the reason.
pub proof fn law_an_unparsable_reply_is_quoted_from_its_start(
    tool: Seq<char>,
    reason: Seq<char>,
    reply: Seq<char>,
)
    ensures
        parse_failure(tool, reason, reply) matches HandoffAdapterErrorView::Malformed {
            tool: named,
            message,
        } && named == tool && exists|n: int|
            0 <= n <= reply.len() && n <= QUOTED_REPLY_CHARS && (n == reply.len() || n
                == QUOTED_REPLY_CHARS) && message == #[trigger] (reason + ": "@ + reply.take(n)),
{
    let n = if reply.len() <= QUOTED_REPLY_CHARS {
        reply.len() as int
    } else {
        QUOTED_REPLY_CHARS as int
    };
    assert(reply.take(reply.len() as int) =~= reply);
    assert(reason + ": "@ + reply.take(n) == reason + ": "@ + leading(
        reply,
        QUOTED_REPLY_CHARS as nat,
    ));
}

/// Setting up goes on exactly where the project was made or is there already; every other
/// failure is passed on as it is.
pub proof fn law_setup_goes_on_where_the_project_is_there(
    reply: Result<(), HandoffAdapterErrorView>,
)
    ensures
        after_init(reply) is Ok <==> (reply is Ok || (reply matches Err(
            HandoffAdapterErrorView::Tool { tool, message },
        ) && has_part(message, "already exists"@))),
        after_init(reply) matches Ok(request) ==> request == (HandoffRequestView::UpdateConfig {
            require_estimate_hours: false,
        }),
        after_init(reply) matches Err(e) ==> reply == Err::<(), _>(e),
{
}

/// A task is found exactly where the substrate gave its record, and missing exactly where
/// the tool said so; every other failure is passed on as it is.
pub proof fn law_a_task_is_found_or_missing_or_the_call_failed(
    reply: Result<TaskDataView, HandoffAdapterErrorView>,
)
    ensures
        forall|data: TaskDataView|
            #[trigger] task_found(reply) == Ok::<_, HandoffAdapterErrorView>(Some(data)) <==> reply
                == Ok::<_, HandoffAdapterErrorView>(data),
        task_found(reply) == Ok::<Option<TaskDataView>, HandoffAdapterErrorView>(None) <==> (reply
            matches Err(HandoffAdapterErrorView::Tool { tool, message }) && has_part(
            message,
            "not found"@,
        )),
        task_found(reply) matches Err(e) ==> reply == Err::<TaskDataView, _>(e),
{
}

/// The record of an agent is the first with its id.
pub proof fn law_the_first_record_of_an_agent_counts(
    records: Seq<AgentRecordView>,
    id: Seq<char>,
)
    ensures
        record_of(records, id) is None <==> forall|i: int|
            0 <= i < records.len() ==> (#[trigger] records[i]).agent_id != id,
        record_of(records, id) matches Some(found) ==> found.agent_id == id && exists|i: int|
            0 <= i < records.len() && #[trigger] records[i] == found && forall|j: int|
                0 <= j < i ==> (#[trigger] records[j]).agent_id != id,
    decreases records.len(),
{
    if records.len() > 0 {
        let rest = records.skip(1);
        law_the_first_record_of_an_agent_counts(rest, id);
        if records[0].agent_id == id {
            assert(records[0] == record_of(records, id)->0);
        } else if record_of(records, id) is Some {
            let found = record_of(records, id)->0;
            let i = choose|i: int|
                0 <= i < rest.len() && #[trigger] rest[i] == found && forall|j: int|
                    0 <= j < i ==> (#[trigger] rest[j]).agent_id != id;
            assert(records[i + 1] == found);
            assert forall|j: int| 0 <= j < i + 1 implies (#[trigger] records[j]).agent_id != id by {
                if j > 0 {
                    assert(rest[j - 1] == records[j]);
                }
            }
        } else {
            assert forall|i: int| 0 <= i < records.len() implies (#[trigger] records[i]).agent_id
                != id by {
                if i > 0 {
                    assert(rest[i - 1] == records[i]);
                }
            }
        }
    }
}

/// The summary of a session is the first with its id.
pub proof fn law_the_first_summary_of_a_session_counts(
    summaries: Seq<SessionSummaryView>,
    id: Seq<char>,
)
    ensures
        summary_of(summaries, id) is None <==> forall|i: int|
            0 <= i < summaries.len() ==> (#[trigger] summaries[i]).id != id,
        summary_of(summaries, id) matches Some(found) ==> found.id == id && exists|i: int|
            0 <= i < summaries.len() && #[trigger] summaries[i] == found && forall|j: int|
                0 <= j < i ==> (#[trigger] summaries[j]).id != id,
    decreases summaries.len(),
{
    if summaries.len() > 0 {
        let rest = summaries.skip(1);
        law_the_first_summary_of_a_session_counts(rest, id);
        if summaries[0].id == id {
            assert(summaries[0] == summary_of(summaries, id)->0);
        } else if summary_of(summaries, id) is Some {
            let found = summary_of(summaries, id)->0;
            let i = choose|i: int|
                0 <= i < rest.len() && #[trigger] rest[i] == found && forall|j: int|
                    0 <= j < i ==> (#[trigger] rest[j]).id != id;
            assert(summaries[i + 1] == found);
            assert forall|j: int| 0 <= j < i + 1 implies (#[trigger] summaries[j]).id != id by {
                if j > 0 {
                    assert(rest[j - 1] == summaries[j]);
                }
            }
        } else {
            assert forall|i: int| 0 <= i < summaries.len() implies (#[trigger] summaries[i]).id
                != id by {
                if i > 0 {
                    assert(rest[i - 1] == summaries[i]);
                }
            }
        }
    }
}

/// The active session is the first that the substrate calls active.
pub proof fn law_the_first_active_session_counts(summaries: Seq<SessionSummaryView>)
    ensures
        active_summary(summaries) is None <==> forall|i: int|
            0 <= i < summaries.len() ==> (#[trigger] summaries[i]).status != "active"@,
        active_summary(summaries) matches Some(found) ==> found.status == "active"@ && exists|i: int|
            0 <= i < summaries.len() && #[trigger] summaries[i] == found && forall|j: int|
                0 <= j < i ==> (#[trigger] summaries[j]).status != "active"@,
    decreases summaries.len(),
{
    if summaries.len() > 0 {
        let rest = summaries.skip(1);
        reveal_strlit("open");
        reveal_strlit("active");
        assert("open"@.len() == 4 && "active"@.len() == 6);
        law_the_first_active_session_counts(rest);
        if summaries[0].status == "active"@ {
            assert(summaries[0] == active_summary(summaries)->0);
        } else if active_summary(summaries) is Some {
            let found = active_summary(summaries)->0;
            let i = choose|i: int|
                0 <= i < rest.len() && #[trigger] rest[i] == found && forall|j: int|
                    0 <= j < i ==> (#[trigger] rest[j]).status != "active"@;
            assert(summaries[i + 1] == found);
            assert forall|j: int| 0 <= j < i + 1 implies (#[trigger] summaries[j]).status
                != "active"@ by {
                if j > 0 {
                    assert(rest[j - 1] == summaries[j]);
                }
            }
        } else {
            assert forall|i: int| 0 <= i < summaries.len() implies (#[trigger] summaries[i]).status
                != "active"@ by {
                if i > 0 {
                    assert(rest[i - 1] == summaries[i]);
                }
            }
        }
    }
}

/// The sessions of a task are those whose related tasks hold it, in the order in which
/// they are listed.
pub proof fn law_sessions_of_a_task_are_related_to_it(
    summaries: Seq<SessionSummaryView>,
    related: Seq<Seq<Seq<char>>>,
    task: Seq<char>,
    s: SessionSummaryView,
)
    requires
        summaries.len() == related.len(),
    ensures
        related_summaries(summaries, related, task).contains(s) <==> exists|i: int|
            0 <= i < summaries.len() && #[trigger] summaries[i] == s && related[i].contains(task),
        summaries.len() > 0 && related.last().contains(task) ==> related_summaries(
            summaries,
            related,
            task,
        ).len() > 0 && related_summaries(summaries, related, task).last() == summaries.last(),
{
    lemma_related_summaries(summaries, related, task, s);
}

proof fn lemma_related_summaries(
    summaries: Seq<SessionSummaryView>,
    related: Seq<Seq<Seq<char>>>,
    task: Seq<char>,
    s: SessionSummaryView,
)
    requires
        summaries.len() <= related.len(),
    ensures
        related_summaries(summaries, related, task).contains(s) <==> exists|i: int|
            0 <= i < summaries.len() && #[trigger] summaries[i] == s && related[i].contains(task),
    decreases summaries.len(),
{
    if summaries.len() > 0 {
        let rest = summaries.drop_last();
        let n = summaries.len() - 1;
        let front = related_summaries(rest, related, task);
        lemma_related_summaries(rest, related, task, s);
        vstd::seq_lib::lemma_seq_contains_after_push(front, summaries.last(), s);
        if related_summaries(summaries, related, task).contains(s) {
            if front.contains(s) {
                let i = choose|i: int|
                    0 <= i < rest.len() && #[trigger] rest[i] == s && related[i].contains(task);
                assert(summaries[i] == s);
            } else {
                assert(summaries[n] == s);
            }
        }
        if exists|i: int|
            0 <= i < summaries.len() && #[trigger] summaries[i] == s && related[i].contains(task) {
            let i = choose|i: int|
                0 <= i < summaries.len() && #[trigger] summaries[i] == s && related[i].contains(
                    task,
                );
            if i < n {
                assert(rest[i] == s);
            }
        }
    }
}

/// Of a list that a reply holds, the texts are taken and whatever else is in it is passed
/// over; what is no list holds none.
pub proof fn law_only_texts_of_a_list_are_taken(member: Option<ExtraValueView>, text: Seq<char>)
    ensures
        tasks_listed(member).contains(text) <==> (member matches Some(ExtraValueView::List(items))
            && items.contains(Some(text))),
        member !is Some ==> tasks_listed(member).len() == 0,
{
    if member is Some && member->0 is List {
        lemma_strings_among(member->0->List_0, text);
    }
}

proof fn lemma_strings_among(items: Seq<Option<Seq<char>>>, text: Seq<char>)
    ensures
        strings_among(items).contains(text) <==> items.contains(Some(text)),
    decreases items.len(),
{
    if items.len() > 0 {
        let rest = items.drop_last();
        lemma_strings_among(rest, text);
        vstd::seq_lib::lemma_seq_contains_after_push(rest, items.last(), Some(text));
        assert(items =~= rest.push(items.last()));
        if items.last() is Some {
            vstd::seq_lib::lemma_seq_contains_after_push(
                strings_among(rest),
                items.last()->0,
                text,
            );
        }
    }
}

/// The records that were found are all there, and nothing else is.
pub proof fn law_what_was_found_is_present<A>(found: Seq<Option<A>>, x: A)
    ensures
        present(found).contains(x) <==> found.contains(Some(x)),
        present(found).len() <= found.len(),
    decreases found.len(),
{
    if found.len() > 0 {
        let rest = found.drop_last();
        law_what_was_found_is_present(rest, x);
        vstd::seq_lib::lemma_seq_contains_after_push(rest, found.last(), Some(x));
        assert(found =~= rest.push(found.last()));
        if found.last() is Some {
            vstd::seq_lib::lemma_seq_contains_after_push(present(rest), found.last()->0, x);
        }
    }
}

/// A task of a tree is named before those below it, and all of them before the next one
/// beside it.
pub proof fn law_a_tree_is_named_from_the_top(nodes: Seq<TaskTreeNode>, node: TaskTreeNode)
    ensures
        node_ids(node).len() > 0 && node_ids(node)[0] == node.id@,
        node_ids(node).skip(1) == forest_ids(node.children@),
        forest_ids(nodes.push(node)) == forest_ids(nodes) + node_ids(node),
        forest_ids(Seq::<TaskTreeNode>::empty()).len() == 0,
{
    assert(nodes.push(node).drop_last() =~= nodes);
    assert(node_ids(node).skip(1) =~= forest_ids(node.children@));
}

/// A session whose context is exhausted is paused, every other one closed: the id stands
/// in one place, never in both.
pub proof fn law_only_an_exhausted_session_is_paused(id: Seq<char>, end: SessionEnd)
    ensures
        session_close(id, end) matches HandoffRequestView::SaveContext {
            summary: _,
            session_status,
            related_task_ids: _,
            pause_session_id,
            close_session_id,
        } && session_status is None && (end == SessionEnd::ContextExhausted ==> pause_session_id
            == Some(id) && close_session_id is None) && (end != SessionEnd::ContextExhausted
            ==> close_session_id == Some(id) && pause_session_id is None),
{
}

/// A session that is started is announced as active, with the task that it works on and
/// no other.
pub proof fn law_a_started_session_names_its_task(session: AgentSessionView, task: Seq<char>)
    ensures
        session_start(session) matches HandoffRequestView::SaveContext {
            summary: _,
            session_status,
            related_task_ids,
            pause_session_id,
            close_session_id,
        } && session_status == Some("active"@) && pause_session_id is None && close_session_id
            is None && (related_task_ids matches Some(ids) && (ids.contains(task)
            <==> session.task_id == Some(task))),
{
    if session.task_id is Some {
        assert(seq![session.task_id->0][0] == session.task_id->0);
    }
}

/// To change a status is to write the same task with that status; nothing is written
/// only where it has the status, and a completed task is not written twice.
pub proof fn law_a_status_change_changes_the_status_alone(
    ids: Seq<Seq<char>>,
    status: TaskStatus,
    found: TaskView,
)
    ensures
        status_write(ids, status, found) matches Some(written) ==> written.status == status && (
        TaskView { status: found.status, ..written }) == found,
        status_write(ids, status, found) is None ==> found.status == status,
        found.status != status ==> status_write(ids, status, found) is Some,
        found.status == status && !ids.contains(found.id) ==> status_write(ids, status, found)
            is None,
{
}

/// Director's own completion makes a task trusted, and nothing but a completion that was
/// found stored does.
pub proof fn law_only_a_stored_completion_is_trusted(
    ids: Seq<Seq<char>>,
    written: TaskView,
    found: bool,
)
    ensures
        trusted_after(ids, written, found).contains(written.id) <==> written.status
            == TaskStatus::Done && (found || ids.contains(written.id)),
{
    lemma_without_id(ids, written.id);
    vstd::seq_lib::lemma_seq_contains_after_push(ids, written.id, written.id);
}

/// The task to write so that it waits for another: none where it does already, and an error
/// where there is no such task.
pub open spec fn dependency_write(
    id: Seq<char>,
    dependency: Seq<char>,
    found: Option<TaskView>,
) -> Result<Option<TaskView>, HandoffAdapterErrorView> {
    match found {
        None => Err(HandoffAdapterErrorView::NotFound(id)),
        Some(t) => if t.dependencies.contains(dependency) {
            Ok(None)
        } else {
            Ok(Some(TaskView { dependencies: t.dependencies.push(dependency), ..t }))
        },
    }
}

/// The agents that can be given work, in their order.
pub open spec fn available_among(agents: Seq<AgentView>) -> Seq<AgentView> {
    agents.filter(|a: AgentView| a.status == AgentStatus::Available)
}

/// A dependency is written exactly where it is new. What is written waits for it last and
/// keeps the rest of the task, so that writing it a second time writes nothing. Only a task
/// that is not there is an error, which names it.
pub proof fn law_a_dependency_is_written_once(
    id: Seq<char>,
    dependency: Seq<char>,
    found: Option<TaskView>,
)
    ensures
        dependency_write(id, dependency, found) is Err <==> found is None,
        dependency_write(id, dependency, None) == Err::<Option<TaskView>, HandoffAdapterErrorView>(
            HandoffAdapterErrorView::NotFound(id),
        ),
        found matches Some(t) ==> {
            &&& dependency_write(id, dependency, found) == Ok::<_, HandoffAdapterErrorView>(
                None::<TaskView>,
            ) <==> t.dependencies.contains(dependency)
            &&& dependency_write(id, dependency, found) matches Ok(Some(new)) ==> {
                &&& new.dependencies.len() == t.dependencies.len() + 1
                &&& new.dependencies.last() == dependency
                &&& new.dependencies.drop_last() == t.dependencies
                &&& (TaskView { dependencies: t.dependencies, ..new }) == t
                &&& dependency_write(id, dependency, Some(new)) == Ok::<_, HandoffAdapterErrorView>(
                    None::<TaskView>,
                )
            }
        },
{
    if let Some(t) = found {
        let deps = t.dependencies.push(dependency);
        assert(deps.drop_last() =~= t.dependencies);
        assert(deps[t.dependencies.len() as int] == dependency);
        assert(deps.contains(dependency));
    }
}

/// An agent is offered work exactly where it is listed and available: a busy, a stale or a
/// vanished one is not.
pub proof fn law_only_available_agents_are_offered(agents: Seq<AgentView>, a: AgentView)
    ensures
        available_among(agents).contains(a) <==> agents.contains(a) && a.status
            == AgentStatus::Available,
        available_among(agents).len() <= agents.len(),
        (forall|i: int|
            0 <= i < agents.len() ==> (#[trigger] agents[i]).status == AgentStatus::Available)
            ==> available_among(agents) == agents,
{
    let p = |a: AgentView| a.status == AgentStatus::Available;
    if available_among(agents).contains(a) {
        lemma_filter_from(agents, p, a);
    }
    if agents.contains(a) && p(a) {
        lemma_filter_into(agents, p, a);
    }
    lemma_filter_keeps(agents);
}

/// Each request goes to the tool of its name.
pub proof fn law_requests_go_to_the_tool_of_their_name(request: HandoffRequestView)
    ensures
        request is Init ==> tool_name(request) == "handoff_init"@,
        request is UpdateConfig ==> tool_name(request) == "handoff_update_config"@,
        request is GetTask ==> tool_name(request) == "handoff_get_task"@,
        request is ListTasks ==> tool_name(request) == "handoff_list_tasks"@,
        request is UpdateTask ==> tool_name(request) == "handoff_update_task"@,
        request is ListAgents ==> tool_name(request) == "handoff_list_agents"@,
        request is LoadContext ==> tool_name(request) == "handoff_load_context"@,
        request is SaveContext ==> tool_name(request) == "handoff_save_context"@,
        request is ListSessions ==> tool_name(request) == "handoff_list_sessions"@,
        request is GetSession ==> tool_name(request) == "handoff_get_session"@,
        request is ForkSession ==> tool_name(request) == "handoff_fork_session"@,
{
}

/// An id is taken from a reply only where it is a text.
pub proof fn law_a_session_is_named_by_a_text(member: Option<ExtraValueView>, id: Seq<char>)
    ensures
        session_named(member) == Ok::<_, HandoffAdapterErrorView>(id) <==> member == Some(
            ExtraValueView::Text(id),
        ),
        session_named(member) is Err ==> session_named(member)->Err_0 is Malformed,
{
}

/// What the filter for available agents keeps: no more than there is, and all of it where
/// all are available.
proof fn lemma_filter_keeps(agents: Seq<AgentView>)
    ensures
        available_among(agents).len() <= agents.len(),
        (forall|i: int|
            0 <= i < agents.len() ==> (#[trigger] agents[i]).status == AgentStatus::Available)
            ==> available_among(agents) == agents,
    decreases agents.len(),
{
    reveal(Seq::filter);
    if agents.len() > 0 {
        let rest = agents.drop_last();
        lemma_filter_keeps(rest);
        if forall|i: int|
            0 <= i < agents.len() ==> (#[trigger] agents[i]).status == AgentStatus::Available {
            assert forall|i: int| 0 <= i < rest.len() implies (#[trigger] rest[i]).status
                == AgentStatus::Available by {
                assert(rest[i] == agents[i]);
            }
            assert(agents[agents.len() - 1].status == AgentStatus::Available);
            assert(rest.push(agents.last()) =~= agents);
        }
    } else {
        assert(available_among(agents) =~= agents);
    }
}

/// What a failed call says names the tool, where one was asked, and ends with the reason.
pub proof fn law_a_failed_call_names_its_tool_and_reason(
    source: TransportErrorView,
    tool: Seq<char>,
    message: Seq<char>,
)
    ensures
        adapter_error_text(HandoffAdapterErrorView::Transport(source))
            == "handoff-mcp transport failed: "@ + transport_error_text(source),
        adapter_error_text(HandoffAdapterErrorView::Tool { tool, message })
            == "handoff-mcp tool '"@ + tool + "' failed: "@ + message,
        adapter_error_text(HandoffAdapterErrorView::Malformed { tool, message })
            == "could not parse handoff-mcp's reply to '"@ + tool + "': "@ + message,
        adapter_error_text(HandoffAdapterErrorView::Unsupported(message))
            == "the handoff-mcp substrate cannot do this: "@ + message,
        adapter_error_text(HandoffAdapterErrorView::NotFound(message))
            == "no such task in handoff-mcp: "@ + message,
{
}

} // verus!
