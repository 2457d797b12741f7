//! Something that stands between a task and its next step.

use crate::domain::ids::{AgentId, BlockerId, TaskId};
use crate::time::{clock_time, Timestamp};
use vstd::prelude::*;
use vstd::string::*;

verus! {

/// What kind of thing blocks.
#[derive(Debug, Clone, Copy, PartialEq, Eq, Hash, Structural)]
pub enum BlockerKind {
    /// It needs a person.
    External,
    /// It waits on another task.
    Dependency,
    /// The way forward is not known.
    Unknown,
    /// Two sources disagree.
    Conflict,
}

impl DeepView for BlockerKind {
    type V = BlockerKind;

    open spec fn deep_view(&self) -> BlockerKind {
        *self
    }
}

/// Lifecycle state of a blocker.
#[derive(Debug, Clone, Copy, PartialEq, Eq, Hash, Structural)]
pub enum BlockerStatus {
    /// It blocks.
    Open,
    /// It was cleared.
    Resolved,
    /// It no longer matters, though nobody cleared it.
    Obsolete,
}

impl DeepView for BlockerStatus {
    type V = BlockerStatus;

    open spec fn deep_view(&self) -> BlockerStatus {
        *self
    }
}

impl BlockerStatus {
    /// Whether the blocker still stands in the way.
    pub fn is_blocking(self) -> (r: bool)
        ensures
            r == (self == BlockerStatus::Open),
    {
        matches!(self, BlockerStatus::Open)
    }
}

/// Something that prevents progress on a task.
#[derive(Debug, PartialEq, Eq)]
pub struct Blocker {
    /// The blocker's identifier.
    pub id: BlockerId,
    /// The task it stands against.
    pub task_id: TaskId,
    /// What kind of thing blocks.
    pub kind: BlockerKind,
    /// Open, resolved or obsolete.
    pub status: BlockerStatus,
    /// What blocks.
    pub description: String,
    /// What clearing it looks like, if known.
    pub resolution: Option<String>,
    /// The agent that noticed it, if any.
    pub raised_by: Option<AgentId>,
    /// When it was raised.
    pub raised_at: Timestamp,
    /// When it was cleared, if it was.
    pub resolved_at: Option<Timestamp>,
}

/// What a [`Blocker`] holds.
#[verifier::ext_equal]
pub struct BlockerView {
    pub id: Seq<char>,
    pub task_id: Seq<char>,
    pub kind: BlockerKind,
    pub status: BlockerStatus,
    pub description: Seq<char>,
    pub resolution: Option<Seq<char>>,
    pub raised_by: Option<Seq<char>>,
    pub raised_at: Timestamp,
    pub resolved_at: Option<Timestamp>,
}

impl View for Blocker {
    type V = BlockerView;

    open spec fn view(&self) -> BlockerView {
        BlockerView {
            id: self.id.deep_view(),
            task_id: self.task_id.deep_view(),
            kind: self.kind,
            status: self.status,
            description: self.description.deep_view(),
            resolution: self.resolution.deep_view(),
            raised_by: self.raised_by.deep_view(),
            raised_at: self.raised_at,
            resolved_at: self.resolved_at,
        }
    }
}

impl DeepView for Blocker {
    type V = BlockerView;

    open spec fn deep_view(&self) -> BlockerView {
        self.view()
    }
}

impl Clone for Blocker {
    fn clone(&self) -> (r: Self)
        ensures
            r@ == self@,
    {
        let r: Blocker = Blocker {
            id: self.id.clone(),
            task_id: self.task_id.clone(),
            kind: self.kind,
            status: self.status,
            description: self.description.clone(),
            resolution: self.resolution.clone(),
            raised_by: self.raised_by.clone(),
            raised_at: self.raised_at,
            resolved_at: self.resolved_at,
        };
        r
    }
}

impl Blocker {
    /// Raises an open blocker against a task.
    pub fn raise(id: BlockerId, task_id: TaskId, kind: BlockerKind, description: &str) -> (r: Self)
        ensures
            clock_time(r.raised_at@),
            r@ == (BlockerView {
                id: id@,
                task_id: task_id@,
                kind,
                status: BlockerStatus::Open,
                description: description@,
                resolution: None,
                raised_by: None,
                raised_at: r.raised_at,
                resolved_at: None,
            }),
    {
        Blocker {
            id,
            task_id,
            kind,
            status: BlockerStatus::Open,
            description: description.to_owned(),
            resolution: None,
            raised_by: None,
            raised_at: Timestamp::now(),
            resolved_at: None,
        }
    }

    /// The blocker, attributed to the agent that noticed it.
    pub fn attributed_to(self, agent_id: AgentId) -> (r: Self)
        ensures
            r@ == (BlockerView { raised_by: Some(agent_id@), ..self@ }),
    {
        Blocker { raised_by: Some(agent_id), ..self }
    }

    /// The blocker, with a note on how it will be cleared.
    pub fn resolvable_by(self, resolution: &str) -> (r: Self)
        ensures
            r@ == (BlockerView { resolution: Some(resolution@), ..self@ }),
    {
        Blocker { resolution: Some(resolution.to_owned()), ..self }
    }

    /// Marks the blocker cleared.
    pub fn resolve(&mut self)
        ensures
            final(self).resolved_at is Some && clock_time(final(self).resolved_at->0@),
            final(self)@ == (BlockerView {
                status: BlockerStatus::Resolved,
                resolved_at: final(self).resolved_at,
                ..old(self)@
            }),
    {
        self.status = BlockerStatus::Resolved;
        self.resolved_at = Some(Timestamp::now());
    }

    /// Marks the blocker no longer relevant.
    pub fn make_obsolete(&mut self)
        ensures
            final(self).resolved_at is Some && clock_time(final(self).resolved_at->0@),
            final(self)@ == (BlockerView {
                status: BlockerStatus::Obsolete,
                resolved_at: final(self).resolved_at,
                ..old(self)@
            }),
    {
        self.status = BlockerStatus::Obsolete;
        self.resolved_at = Some(Timestamp::now());
    }
}

} // verus!
