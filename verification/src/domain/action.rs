//! One entry of recent context: what happened, as it was observed.

use crate::domain::ids::{ActionId, AgentId, SessionId, TaskId};
use crate::time::{clock_time, Timestamp};
use vstd::prelude::*;
use vstd::string::*;

verus! {

/// What kind of thing happened.
#[derive(Debug, Clone, Copy, PartialEq, Eq, Hash, Structural)]
pub enum ActionKind {
    /// A goal was stated.
    Prompt,
    /// A shell command ran.
    Command,
    /// A tool was invoked.
    ToolCall,
    /// A file changed.
    FileChange,
    /// Something failed.
    Error,
    /// A checkpoint was taken.
    Checkpoint,
    /// A note worth remembering.
    Note,
}

impl DeepView for ActionKind {
    type V = ActionKind;

    open spec fn deep_view(&self) -> ActionKind {
        *self
    }
}

/// The name of a kind of action.
pub open spec fn action_kind_text(kind: ActionKind) -> Seq<char> {
    match kind {
        ActionKind::Prompt => "prompt"@,
        ActionKind::Command => "command"@,
        ActionKind::ToolCall => "tool-call"@,
        ActionKind::FileChange => "file-change"@,
        ActionKind::Error => "error"@,
        ActionKind::Checkpoint => "checkpoint"@,
        ActionKind::Note => "note"@,
    }
}

/// How important a kind of action is.
pub open spec fn importance_of(kind: ActionKind) -> u32 {
    match kind {
        ActionKind::Error => 5,
        ActionKind::Checkpoint => 4,
        ActionKind::Prompt => 3,
        ActionKind::Note => 2,
        ActionKind::Command => 1,
        ActionKind::ToolCall => 1,
        ActionKind::FileChange => 1,
    }
}

impl ActionKind {
    /// The name of the kind.
    pub fn to_string(self) -> (r: String)
        ensures
            r@ == action_kind_text(self),
    {
        match self {
            ActionKind::Prompt => "prompt".to_owned(),
            ActionKind::Command => "command".to_owned(),
            ActionKind::ToolCall => "tool-call".to_owned(),
            ActionKind::FileChange => "file-change".to_owned(),
            ActionKind::Error => "error".to_owned(),
            ActionKind::Checkpoint => "checkpoint".to_owned(),
            ActionKind::Note => "note".to_owned(),
        }
    }

    /// How long the kind survives compaction: errors and checkpoints are what the
    /// next agent most needs to know about.
    pub fn importance(self) -> (r: u32)
        ensures
            r == importance_of(self),
    {
        match self {
            ActionKind::Error => 5,
            ActionKind::Checkpoint => 4,
            ActionKind::Prompt => 3,
            ActionKind::Note => 2,
            ActionKind::Command | ActionKind::ToolCall | ActionKind::FileChange => 1,
        }
    }
}

/// One observed event, short enough to hand to a fresh agent.
#[derive(Debug, PartialEq, Eq)]
pub struct Action {
    /// The action's identifier.
    pub id: ActionId,
    /// The task it belongs to, if any.
    pub task_id: Option<TaskId>,
    /// The agent that performed it, if known.
    pub agent_id: Option<AgentId>,
    /// The session in which it happened, if known.
    pub session_id: Option<SessionId>,
    /// What kind of thing happened.
    pub kind: ActionKind,
    /// One line about it.
    pub summary: String,
    /// More about it: the command, the error text, the files.
    pub detail: Option<String>,
    /// When it happened.
    pub at: Timestamp,
}

/// What a [`Action`] holds.
#[verifier::ext_equal]
pub struct ActionView {
    pub id: Seq<char>,
    pub task_id: Option<Seq<char>>,
    pub agent_id: Option<Seq<char>>,
    pub session_id: Option<Seq<char>>,
    pub kind: ActionKind,
    pub summary: Seq<char>,
    pub detail: Option<Seq<char>>,
    pub at: Timestamp,
}

impl View for Action {
    type V = ActionView;

    open spec fn view(&self) -> ActionView {
        ActionView {
            id: self.id.deep_view(),
            task_id: self.task_id.deep_view(),
            agent_id: self.agent_id.deep_view(),
            session_id: self.session_id.deep_view(),
            kind: self.kind,
            summary: self.summary.deep_view(),
            detail: self.detail.deep_view(),
            at: self.at,
        }
    }
}

impl DeepView for Action {
    type V = ActionView;

    open spec fn deep_view(&self) -> ActionView {
        self.view()
    }
}

impl Clone for Action {
    fn clone(&self) -> (r: Self)
        ensures
            r@ == self@,
    {
        let r: Action = Action {
            id: self.id.clone(),
            task_id: self.task_id.clone(),
            agent_id: self.agent_id.clone(),
            session_id: self.session_id.clone(),
            kind: self.kind,
            summary: self.summary.clone(),
            detail: self.detail.clone(),
            at: self.at,
        };
        r
    }
}

impl Action {
    /// Records an action now.
    pub fn new(id: ActionId, kind: ActionKind, summary: &str) -> (r: Self)
        ensures
            clock_time(r.at@),
            r@ == (ActionView {
                id: id@,
                task_id: None,
                agent_id: None,
                session_id: None,
                kind,
                summary: summary@,
                detail: None,
                at: r.at,
            }),
    {
        Action {
            id,
            task_id: None,
            agent_id: None,
            session_id: None,
            kind,
            summary: summary.to_owned(),
            detail: None,
            at: Timestamp::now(),
        }
    }

    /// The action, attached to a task.
    pub fn for_task(self, task_id: TaskId) -> (r: Self)
        ensures
            r@ == (ActionView { task_id: Some(task_id@), ..self@ }),
    {
        Action { task_id: Some(task_id), ..self }
    }

    /// The action, attributed to an agent and a session.
    pub fn attributed_to(self, agent_id: AgentId, session_id: SessionId) -> (r: Self)
        ensures
            r@ == (ActionView {
                agent_id: Some(agent_id@),
                session_id: Some(session_id@),
                ..self@
            }),
    {
        Action { agent_id: Some(agent_id), session_id: Some(session_id), ..self }
    }
}

/// An error matters more than a checkpoint, that more than a prompt, that more than a
/// note, and that more than what agents do all the time, which matters all the same.
pub proof fn law_errors_matter_most(kind: ActionKind)
    ensures
        importance_of(ActionKind::Error) > importance_of(ActionKind::Checkpoint),
        importance_of(ActionKind::Checkpoint) > importance_of(ActionKind::Prompt),
        importance_of(ActionKind::Prompt) > importance_of(ActionKind::Note),
        kind != ActionKind::Error && kind != ActionKind::Checkpoint && kind != ActionKind::Prompt
            && kind != ActionKind::Note ==> importance_of(kind) < importance_of(ActionKind::Note)
            && importance_of(kind) == importance_of(ActionKind::Command),
{
}

/// No two kinds of action have the same name.
pub proof fn law_kinds_of_action_are_told_apart(a: ActionKind, b: ActionKind)
    ensures
        action_kind_text(a) == action_kind_text(b) <==> a == b,
{
    reveal_strlit("prompt");
    reveal_strlit("command");
    reveal_strlit("tool-call");
    reveal_strlit("file-change");
    reveal_strlit("error");
    reveal_strlit("checkpoint");
    reveal_strlit("note");
    if action_kind_text(a) == action_kind_text(b) {
        assert(action_kind_text(a).len() == action_kind_text(b).len());
        assert(action_kind_text(a)[0] == action_kind_text(b)[0]);
    }
}

} // verus!
