//! The link between a task and the agent that does it.
//!
//! It is an entity of its own, not a field of the task: the task outlives the
//! agent, and every reassignment is a record with its own history.

use crate::domain::ids::{AgentId, AssignmentId, SessionId, TaskId};
use crate::time::{clock_time, Timestamp};
use vstd::prelude::*;
use vstd::string::*;

verus! {

/// Why an assignment ended.
#[derive(Debug, Clone, Copy, PartialEq, Eq, Hash, Structural)]
pub enum ReleaseReason {
    /// The agent reported completion and the task went to verification.
    WorkComplete,
    /// The task was given to another agent.
    Reassigned,
    /// The agent's session vanished.
    AgentCrashed,
    /// An operator released the agent.
    ReleasedByOperator,
    /// The task was cancelled or superseded.
    TaskCancelled,
    /// The lease expired with no heartbeat.
    LeaseExpired,
}

impl DeepView for ReleaseReason {
    type V = ReleaseReason;

    open spec fn deep_view(&self) -> ReleaseReason {
        *self
    }
}

/// Lifecycle state of an assignment.
#[derive(Debug, Clone, Copy, PartialEq, Eq, Hash, Structural)]
pub enum AssignmentStatus {
    /// An agent was chosen and has not acknowledged.
    Proposed,
    /// The agent holds the task.
    Active,
    /// The agent released it.
    Released,
}

impl DeepView for AssignmentStatus {
    type V = AssignmentStatus;

    open spec fn deep_view(&self) -> AssignmentStatus {
        *self
    }
}

/// One agent's tenure on one task.
#[derive(Debug, PartialEq, Eq)]
pub struct AgentAssignment {
    /// The assignment's identifier.
    pub id: AssignmentId,
    /// The task.
    pub task_id: TaskId,
    /// The agent that holds it.
    pub agent_id: AgentId,
    /// The session that does the work, if known.
    pub session_id: Option<SessionId>,
    /// Proposed, active or released.
    pub status: AssignmentStatus,
    /// When it was proposed.
    pub assigned_at: Timestamp,
    /// When it ended, if it has.
    pub released_at: Option<Timestamp>,
    /// Why it ended, if it has.
    pub release_reason: Option<ReleaseReason>,
    /// A note.
    pub note: Option<String>,
}

/// What a [`AgentAssignment`] holds.
#[verifier::ext_equal]
pub struct AgentAssignmentView {
    pub id: Seq<char>,
    pub task_id: Seq<char>,
    pub agent_id: Seq<char>,
    pub session_id: Option<Seq<char>>,
    pub status: AssignmentStatus,
    pub assigned_at: Timestamp,
    pub released_at: Option<Timestamp>,
    pub release_reason: Option<ReleaseReason>,
    pub note: Option<Seq<char>>,
}

impl View for AgentAssignment {
    type V = AgentAssignmentView;

    open spec fn view(&self) -> AgentAssignmentView {
        AgentAssignmentView {
            id: self.id.deep_view(),
            task_id: self.task_id.deep_view(),
            agent_id: self.agent_id.deep_view(),
            session_id: self.session_id.deep_view(),
            status: self.status,
            assigned_at: self.assigned_at,
            released_at: self.released_at,
            release_reason: self.release_reason,
            note: self.note.deep_view(),
        }
    }
}

impl DeepView for AgentAssignment {
    type V = AgentAssignmentView;

    open spec fn deep_view(&self) -> AgentAssignmentView {
        self.view()
    }
}

impl Clone for AgentAssignment {
    fn clone(&self) -> (r: Self)
        ensures
            r@ == self@,
    {
        let r: AgentAssignment = AgentAssignment {
            id: self.id.clone(),
            task_id: self.task_id.clone(),
            agent_id: self.agent_id.clone(),
            session_id: self.session_id.clone(),
            status: self.status,
            assigned_at: self.assigned_at,
            released_at: self.released_at,
            release_reason: self.release_reason,
            note: self.note.clone(),
        };
        r
    }
}

impl AgentAssignment {
    /// Proposes an assignment; nothing is active until the agent acknowledges.
    pub fn propose(id: AssignmentId, task_id: TaskId, agent_id: AgentId) -> (r: Self)
        ensures
            clock_time(r.assigned_at@),
            r@ == (AgentAssignmentView {
                id: id@,
                task_id: task_id@,
                agent_id: agent_id@,
                session_id: None,
                status: AssignmentStatus::Proposed,
                assigned_at: r.assigned_at,
                released_at: None,
                release_reason: None,
                note: None,
            }),
    {
        AgentAssignment {
            id,
            task_id,
            agent_id,
            session_id: None,
            status: AssignmentStatus::Proposed,
            assigned_at: Timestamp::now(),
            released_at: None,
            release_reason: None,
            note: None,
        }
    }

    /// The agent accepted; records the session that does the work.
    pub fn activate(&mut self, session_id: SessionId)
        ensures
            final(self)@ == (AgentAssignmentView {
                session_id: Some(session_id@),
                status: AssignmentStatus::Active,
                ..old(self)@
            }),
    {
        self.session_id = Some(session_id);
        self.status = AssignmentStatus::Active;
    }

    /// Ends the assignment.
    pub fn release(&mut self, reason: ReleaseReason)
        ensures
            final(self).released_at is Some && clock_time(final(self).released_at->0@),
            final(self)@ == (AgentAssignmentView {
                status: AssignmentStatus::Released,
                release_reason: Some(reason),
                released_at: final(self).released_at,
                ..old(self)@
            }),
    {
        self.status = AssignmentStatus::Released;
        self.release_reason = Some(reason);
        self.released_at = Some(Timestamp::now());
    }

    /// Whether the assignment is in force.
    pub fn is_active(&self) -> (r: bool)
        ensures
            r == (self@.status == AssignmentStatus::Active),
    {
        matches!(self.status, AssignmentStatus::Active)
    }

    /// Whether the assignment was `agent`'s.
    pub fn was_held_by(&self, agent: &AgentId) -> (r: bool)
        ensures
            r == (self@.agent_id == agent@),
    {
        self.agent_id.same_as(agent)
    }
}

} // verus!
