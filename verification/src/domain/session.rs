//! One invocation of one agent on one machine.

use crate::domain::ids::{AgentId, MachineId, SessionId, TaskId};
use crate::time::{clock_time, Timestamp};
use vstd::prelude::*;
use vstd::string::*;

verus! {

/// How a session ended.
#[derive(Debug, Clone, Copy, PartialEq, Eq, Hash, Structural)]
pub enum SessionEnd {
    /// The agent closed out properly.
    Clean,
    /// The heartbeat stopped before a clean close.
    Vanished,
    /// It was terminated.
    Terminated,
    /// The context window filled; the session was paused or rotated.
    ContextExhausted,
    /// It was forked; both sessions go on.
    Forked,
}

impl DeepView for SessionEnd {
    type V = SessionEnd;

    open spec fn deep_view(&self) -> SessionEnd {
        *self
    }
}

/// Lifecycle state of a session.
#[derive(Debug, Clone, Copy, PartialEq, Eq, Hash, Structural)]
pub enum SessionStatus {
    /// Registered, not yet at work.
    Open,
    /// At work.
    Active,
    /// Paused; it can be resumed.
    Paused,
    /// Ended.
    Closed,
}

impl DeepView for SessionStatus {
    type V = SessionStatus;

    open spec fn deep_view(&self) -> SessionStatus {
        *self
    }
}

impl SessionStatus {
    /// Whether the session can still produce observations.
    pub fn is_live(self) -> (r: bool)
        ensures
            r == (self != SessionStatus::Closed),
    {
        matches!(self, SessionStatus::Open | SessionStatus::Active | SessionStatus::Paused)
    }
}

/// One invocation of an agent.
#[derive(Debug, PartialEq, Eq)]
pub struct AgentSession {
    /// The session's identifier.
    pub id: SessionId,
    /// The agent that runs it.
    pub agent_id: AgentId,
    /// The machine it runs on.
    pub machine_id: MachineId,
    /// The task it was launched against, if any.
    pub task_id: Option<TaskId>,
    /// Lifecycle state.
    pub status: SessionStatus,
    /// The session that this one was forked from, if any.
    pub parent_session_id: Option<SessionId>,
    /// When it began.
    pub started_at: Timestamp,
    /// When it ended, if it has.
    pub ended_at: Option<Timestamp>,
    /// How it ended, if it has.
    pub end: Option<SessionEnd>,
    /// The directory it runs in.
    pub workdir: Option<String>,
}

/// What a [`AgentSession`] holds.
#[verifier::ext_equal]
pub struct AgentSessionView {
    pub id: Seq<char>,
    pub agent_id: Seq<char>,
    pub machine_id: Seq<char>,
    pub task_id: Option<Seq<char>>,
    pub status: SessionStatus,
    pub parent_session_id: Option<Seq<char>>,
    pub started_at: Timestamp,
    pub ended_at: Option<Timestamp>,
    pub end: Option<SessionEnd>,
    pub workdir: Option<Seq<char>>,
}

impl View for AgentSession {
    type V = AgentSessionView;

    open spec fn view(&self) -> AgentSessionView {
        AgentSessionView {
            id: self.id.deep_view(),
            agent_id: self.agent_id.deep_view(),
            machine_id: self.machine_id.deep_view(),
            task_id: self.task_id.deep_view(),
            status: self.status,
            parent_session_id: self.parent_session_id.deep_view(),
            started_at: self.started_at,
            ended_at: self.ended_at,
            end: self.end,
            workdir: self.workdir.deep_view(),
        }
    }
}

impl DeepView for AgentSession {
    type V = AgentSessionView;

    open spec fn deep_view(&self) -> AgentSessionView {
        self.view()
    }
}

impl Clone for AgentSession {
    fn clone(&self) -> (r: Self)
        ensures
            r@ == self@,
    {
        let r: AgentSession = AgentSession {
            id: self.id.clone(),
            agent_id: self.agent_id.clone(),
            machine_id: self.machine_id.clone(),
            task_id: self.task_id.clone(),
            status: self.status,
            parent_session_id: self.parent_session_id.clone(),
            started_at: self.started_at,
            ended_at: self.ended_at,
            end: self.end,
            workdir: self.workdir.clone(),
        };
        r
    }
}

/// A live session that was just started.
pub open spec fn started(
    id: Seq<char>,
    agent: Seq<char>,
    machine: Seq<char>,
    task: Option<Seq<char>>,
    at: Timestamp,
) -> AgentSessionView {
    AgentSessionView {
        id,
        agent_id: agent,
        machine_id: machine,
        task_id: task,
        status: SessionStatus::Active,
        parent_session_id: None,
        started_at: at,
        ended_at: None,
        end: None,
        workdir: None,
    }
}

/// A session forked from `parent`: the same agent, machine, task and directory,
/// with the parent on record.
pub open spec fn forked(parent: AgentSessionView, id: Seq<char>, at: Timestamp) -> AgentSessionView {
    AgentSessionView {
        parent_session_id: Some(parent.id),
        workdir: parent.workdir,
        ..started(id, parent.agent_id, parent.machine_id, parent.task_id, at)
    }
}

/// A closed session.
pub open spec fn closed(
    s: AgentSessionView,
    end: SessionEnd,
    at: Option<Timestamp>,
) -> AgentSessionView {
    AgentSessionView { status: SessionStatus::Closed, end: Some(end), ended_at: at, ..s }
}

impl AgentSession {
    /// Starts a live session.
    pub fn start(
        id: SessionId,
        agent_id: AgentId,
        machine_id: MachineId,
        task_id: Option<TaskId>,
    ) -> (r: Self)
        ensures
            clock_time(r.started_at@),
            r@ == started(id@, agent_id@, machine_id@, task_id.deep_view(), r.started_at),
    {
        AgentSession {
            id,
            agent_id,
            machine_id,
            task_id,
            status: SessionStatus::Active,
            parent_session_id: None,
            started_at: Timestamp::now(),
            ended_at: None,
            end: None,
            workdir: None,
        }
    }

    /// Forks the session into a new one.
    pub fn fork(&self, new_id: SessionId) -> (r: AgentSession)
        ensures
            clock_time(r.started_at@),
            r@ == forked(self@, new_id@, r.started_at),
    {
        let mut child: AgentSession = AgentSession::start(
            new_id,
            self.agent_id.clone(),
            self.machine_id.clone(),
            self.task_id.clone(),
        );
        child.parent_session_id = Some(self.id.clone());
        child.workdir = self.workdir.clone();
        child
    }

    /// Closes the session.
    pub fn close(&mut self, end: SessionEnd)
        ensures
            final(self).ended_at is Some && clock_time(final(self).ended_at->0@),
            final(self)@ == closed(old(self)@, end, final(self).ended_at),
    {
        self.status = SessionStatus::Closed;
        self.end = Some(end);
        self.ended_at = Some(Timestamp::now());
    }

    /// Whether the session ended without a clean close, so that its last
    /// checkpoint may be incomplete.
    pub fn ended_uncleanly(&self) -> (r: bool)
        ensures
            r == (self@.end == Some(SessionEnd::Vanished) || self@.end == Some(
                SessionEnd::Terminated,
            )),
    {
        matches!(self.end, Some(SessionEnd::Vanished) | Some(SessionEnd::Terminated))
    }
}

/// A fork keeps the parent's agent, machine, task and directory.
pub proof fn law_fork_inherits_scope(parent: AgentSessionView, id: Seq<char>, at: Timestamp)
    ensures
        forked(parent, id, at).agent_id == parent.agent_id,
        forked(parent, id, at).machine_id == parent.machine_id,
        forked(parent, id, at).task_id == parent.task_id,
        forked(parent, id, at).workdir == parent.workdir,
        forked(parent, id, at).parent_session_id == Some(parent.id),
        forked(parent, id, at).id == id,
{
}

/// A session that is closed is over, for the reason and at the time that were given;
/// what it was stays.
pub proof fn law_closing_ends_a_session_and_changes_nothing_else(
    s: AgentSessionView,
    end: SessionEnd,
    at: Option<Timestamp>,
)
    ensures
        closed(s, end, at).status == SessionStatus::Closed,
        closed(s, end, at).end == Some(end),
        closed(s, end, at).ended_at == at,
        (AgentSessionView {
            status: s.status,
            end: s.end,
            ended_at: s.ended_at,
            ..closed(s, end, at)
        }) == s,
{
}

/// A session that is started is active, has no parent and has not ended; a fork is a
/// session of its own beside its parent.
pub proof fn law_a_started_session_is_active(
    id: Seq<char>,
    agent: Seq<char>,
    machine: Seq<char>,
    task: Option<Seq<char>>,
    parent: AgentSessionView,
    at: Timestamp,
)
    ensures
        ({
            let s = started(id, agent, machine, task, at);
            &&& s.id == id && s.agent_id == agent && s.machine_id == machine && s.task_id == task
            &&& s.status == SessionStatus::Active && s.started_at == at
            &&& s.parent_session_id is None && s.end is None && s.ended_at is None
        }),
        ({
            let child = forked(parent, id, at);
            &&& child.status == SessionStatus::Active && child.started_at == at
            &&& child.end is None && child.ended_at is None
        }),
{
}

} // verus!
