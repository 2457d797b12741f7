//! Identity types, one per kind of entity.
//!
//! Every identity is a type of its own: a [`TaskId`] can never stand for an
//! [`AgentId`], though both hold text. A task is therefore never "owned" by an
//! agent at the level of types, and its identity outlives every agent that works
//! on it.

use crate::domain::sealed::Sealed;
use crate::registry::{Keyed, Registry};
use crate::text::{decimal, decimal_text, lemma_decimal_value};
use vstd::prelude::*;
use vstd::string::*;

verus! {

/// Implemented by every identity type, for code that works on any of them.
pub trait Id: Sealed + Sized {
    /// The text of the id.
    spec fn text(&self) -> Seq<char>;

    /// The prefix of ids of this kind.
    spec fn prefix_text() -> Seq<char>;

    /// The prefix of ids of this kind, such as `TASK`.
    fn prefix() -> (r: &'static str)
        ensures
            r@ == Self::prefix_text(),
    ;

    /// The text of the id.
    fn as_str(&self) -> (r: &str)
        ensures
            r@ == self.text(),
    ;

    /// The id with the text `value`.
    fn from_string(value: &str) -> (r: Self)
        ensures
            r.text() == value@,
    ;
}

/// Identifies a project, such as `PROJ-checkout-service`.
#[derive(Debug, PartialEq, Eq, Hash)]
pub struct ProjectId(pub String);

impl View for ProjectId {
    type V = Seq<char>;

    open spec fn view(&self) -> Seq<char> {
        self.0@
    }
}

impl DeepView for ProjectId {
    type V = Seq<char>;

    open spec fn deep_view(&self) -> Seq<char> {
        self.0@
    }
}

impl Clone for ProjectId {
    fn clone(&self) -> (r: Self)
        ensures
            r == *self,
    {
        ProjectId(self.0.clone())
    }
}

impl ProjectId {
    /// The id with the text `value`.
    pub fn from_string(value: &str) -> (r: Self)
        ensures
            r@ == value@,
    {
        ProjectId(value.to_owned())
    }

    /// The text of the id.
    pub fn as_str(&self) -> (r: &str)
        ensures
            r@ == self@,
    {
        self.0.as_str()
    }

    /// The text of the id, as a string of its own.
    pub fn to_string(&self) -> (r: String)
        ensures
            r@ == self@,
    {
        self.0.clone()
    }

    /// Whether both ids have the same text.
    pub fn same_as(&self, other: &ProjectId) -> (r: bool)
        ensures
            r == (self@ == other@),
    {
        self.0 == other.0
    }
}

impl Sealed for ProjectId {

}

impl Id for ProjectId {
    open spec fn text(&self) -> Seq<char> {
        self@
    }

    open spec fn prefix_text() -> Seq<char> {
        "PROJ"@
    }

    fn prefix() -> (r: &'static str) {
        "PROJ"
    }

    fn as_str(&self) -> (r: &str) {
        self.0.as_str()
    }

    fn from_string(value: &str) -> (r: Self) {
        ProjectId(value.to_owned())
    }
}

/// Identifies a task, such as `AUTH-42`, whichever agent works on it.
#[derive(Debug, PartialEq, Eq, Hash)]
pub struct TaskId(pub String);

impl View for TaskId {
    type V = Seq<char>;

    open spec fn view(&self) -> Seq<char> {
        self.0@
    }
}

impl DeepView for TaskId {
    type V = Seq<char>;

    open spec fn deep_view(&self) -> Seq<char> {
        self.0@
    }
}

impl Clone for TaskId {
    fn clone(&self) -> (r: Self)
        ensures
            r == *self,
    {
        TaskId(self.0.clone())
    }
}

impl TaskId {
    /// The id with the text `value`.
    pub fn from_string(value: &str) -> (r: Self)
        ensures
            r@ == value@,
    {
        TaskId(value.to_owned())
    }

    /// The text of the id.
    pub fn as_str(&self) -> (r: &str)
        ensures
            r@ == self@,
    {
        self.0.as_str()
    }

    /// The text of the id, as a string of its own.
    pub fn to_string(&self) -> (r: String)
        ensures
            r@ == self@,
    {
        self.0.clone()
    }

    /// Whether both ids have the same text.
    pub fn same_as(&self, other: &TaskId) -> (r: bool)
        ensures
            r == (self@ == other@),
    {
        self.0 == other.0
    }

    /// Whether the id is one of `ids`.
    pub fn is_among(&self, ids: &Vec<TaskId>) -> (r: bool)
        ensures
            r == ids.deep_view().contains(self@),
    {
        let mut i: usize = 0;
        while i < ids.len()
            invariant
                i <= ids.len(),
                forall|j: int| 0 <= j < i ==> ids.deep_view()[j] != self@,
            decreases ids.len() - i,
        {
            assert(ids.deep_view()[i as int] == ids@[i as int]@);
            if self.same_as(&ids[i]) {
                return true;
            }
            i += 1;
        }
        false
    }
}

impl Sealed for TaskId {

}

impl Id for TaskId {
    open spec fn text(&self) -> Seq<char> {
        self@
    }

    open spec fn prefix_text() -> Seq<char> {
        "TASK"@
    }

    fn prefix() -> (r: &'static str) {
        "TASK"
    }

    fn as_str(&self) -> (r: &str) {
        self.0.as_str()
    }

    fn from_string(value: &str) -> (r: Self) {
        TaskId(value.to_owned())
    }
}

/// Identifies a subtask, such as `AUTH-42.1`.
#[derive(Debug, PartialEq, Eq, Hash)]
pub struct SubtaskId(pub String);

impl View for SubtaskId {
    type V = Seq<char>;

    open spec fn view(&self) -> Seq<char> {
        self.0@
    }
}

impl DeepView for SubtaskId {
    type V = Seq<char>;

    open spec fn deep_view(&self) -> Seq<char> {
        self.0@
    }
}

impl Clone for SubtaskId {
    fn clone(&self) -> (r: Self)
        ensures
            r == *self,
    {
        SubtaskId(self.0.clone())
    }
}

impl SubtaskId {
    /// The id with the text `value`.
    pub fn from_string(value: &str) -> (r: Self)
        ensures
            r@ == value@,
    {
        SubtaskId(value.to_owned())
    }

    /// The text of the id.
    pub fn as_str(&self) -> (r: &str)
        ensures
            r@ == self@,
    {
        self.0.as_str()
    }

    /// The text of the id, as a string of its own.
    pub fn to_string(&self) -> (r: String)
        ensures
            r@ == self@,
    {
        self.0.clone()
    }

    /// Whether both ids have the same text.
    pub fn same_as(&self, other: &SubtaskId) -> (r: bool)
        ensures
            r == (self@ == other@),
    {
        self.0 == other.0
    }
}

impl Sealed for SubtaskId {

}

impl Id for SubtaskId {
    open spec fn text(&self) -> Seq<char> {
        self@
    }

    open spec fn prefix_text() -> Seq<char> {
        "SUB"@
    }

    fn prefix() -> (r: &'static str) {
        "SUB"
    }

    fn as_str(&self) -> (r: &str) {
        self.0.as_str()
    }

    fn from_string(value: &str) -> (r: Self) {
        SubtaskId(value.to_owned())
    }
}

/// Identifies an agent: one harness and model on one machine.
#[derive(Debug, PartialEq, Eq, Hash)]
pub struct AgentId(pub String);

impl View for AgentId {
    type V = Seq<char>;

    open spec fn view(&self) -> Seq<char> {
        self.0@
    }
}

impl DeepView for AgentId {
    type V = Seq<char>;

    open spec fn deep_view(&self) -> Seq<char> {
        self.0@
    }
}

impl Clone for AgentId {
    fn clone(&self) -> (r: Self)
        ensures
            r == *self,
    {
        AgentId(self.0.clone())
    }
}

impl AgentId {
    /// The id with the text `value`.
    pub fn from_string(value: &str) -> (r: Self)
        ensures
            r@ == value@,
    {
        AgentId(value.to_owned())
    }

    /// The text of the id.
    pub fn as_str(&self) -> (r: &str)
        ensures
            r@ == self@,
    {
        self.0.as_str()
    }

    /// The text of the id, as a string of its own.
    pub fn to_string(&self) -> (r: String)
        ensures
            r@ == self@,
    {
        self.0.clone()
    }

    /// Whether both ids have the same text.
    pub fn same_as(&self, other: &AgentId) -> (r: bool)
        ensures
            r == (self@ == other@),
    {
        self.0 == other.0
    }

    /// Whether the id is one of `ids`.
    pub fn is_among(&self, ids: &Vec<AgentId>) -> (r: bool)
        ensures
            r == ids.deep_view().contains(self@),
    {
        let mut i: usize = 0;
        while i < ids.len()
            invariant
                i <= ids.len(),
                forall|j: int| 0 <= j < i ==> ids.deep_view()[j] != self@,
            decreases ids.len() - i,
        {
            assert(ids.deep_view()[i as int] == ids@[i as int]@);
            if self.same_as(&ids[i]) {
                return true;
            }
            i += 1;
        }
        false
    }
}

impl Sealed for AgentId {

}

impl Id for AgentId {
    open spec fn text(&self) -> Seq<char> {
        self@
    }

    open spec fn prefix_text() -> Seq<char> {
        "AGENT"@
    }

    fn prefix() -> (r: &'static str) {
        "AGENT"
    }

    fn as_str(&self) -> (r: &str) {
        self.0.as_str()
    }

    fn from_string(value: &str) -> (r: Self) {
        AgentId(value.to_owned())
    }
}

/// Identifies one invocation of one agent on one machine.
#[derive(Debug, PartialEq, Eq, Hash)]
pub struct SessionId(pub String);

impl View for SessionId {
    type V = Seq<char>;

    open spec fn view(&self) -> Seq<char> {
        self.0@
    }
}

impl DeepView for SessionId {
    type V = Seq<char>;

    open spec fn deep_view(&self) -> Seq<char> {
        self.0@
    }
}

impl Clone for SessionId {
    fn clone(&self) -> (r: Self)
        ensures
            r == *self,
    {
        SessionId(self.0.clone())
    }
}

impl SessionId {
    /// The id with the text `value`.
    pub fn from_string(value: &str) -> (r: Self)
        ensures
            r@ == value@,
    {
        SessionId(value.to_owned())
    }

    /// The text of the id.
    pub fn as_str(&self) -> (r: &str)
        ensures
            r@ == self@,
    {
        self.0.as_str()
    }

    /// The text of the id, as a string of its own.
    pub fn to_string(&self) -> (r: String)
        ensures
            r@ == self@,
    {
        self.0.clone()
    }

    /// Whether both ids have the same text.
    pub fn same_as(&self, other: &SessionId) -> (r: bool)
        ensures
            r == (self@ == other@),
    {
        self.0 == other.0
    }
}

impl Sealed for SessionId {

}

impl Id for SessionId {
    open spec fn text(&self) -> Seq<char> {
        self@
    }

    open spec fn prefix_text() -> Seq<char> {
        "SESS"@
    }

    fn prefix() -> (r: &'static str) {
        "SESS"
    }

    fn as_str(&self) -> (r: &str) {
        self.0.as_str()
    }

    fn from_string(value: &str) -> (r: Self) {
        SessionId(value.to_owned())
    }
}

/// Identifies a machine.
#[derive(Debug, PartialEq, Eq, Hash)]
pub struct MachineId(pub String);

impl View for MachineId {
    type V = Seq<char>;

    open spec fn view(&self) -> Seq<char> {
        self.0@
    }
}

impl DeepView for MachineId {
    type V = Seq<char>;

    open spec fn deep_view(&self) -> Seq<char> {
        self.0@
    }
}

impl Clone for MachineId {
    fn clone(&self) -> (r: Self)
        ensures
            r == *self,
    {
        MachineId(self.0.clone())
    }
}

impl MachineId {
    /// The id with the text `value`.
    pub fn from_string(value: &str) -> (r: Self)
        ensures
            r@ == value@,
    {
        MachineId(value.to_owned())
    }

    /// The text of the id.
    pub fn as_str(&self) -> (r: &str)
        ensures
            r@ == self@,
    {
        self.0.as_str()
    }

    /// The text of the id, as a string of its own.
    pub fn to_string(&self) -> (r: String)
        ensures
            r@ == self@,
    {
        self.0.clone()
    }

    /// Whether both ids have the same text.
    pub fn same_as(&self, other: &MachineId) -> (r: bool)
        ensures
            r == (self@ == other@),
    {
        self.0 == other.0
    }
}

impl Sealed for MachineId {

}

impl Id for MachineId {
    open spec fn text(&self) -> Seq<char> {
        self@
    }

    open spec fn prefix_text() -> Seq<char> {
        "MACH"@
    }

    fn prefix() -> (r: &'static str) {
        "MACH"
    }

    fn as_str(&self) -> (r: &str) {
        self.0.as_str()
    }

    fn from_string(value: &str) -> (r: Self) {
        MachineId(value.to_owned())
    }
}

/// Identifies a checkpoint.
#[derive(Debug, PartialEq, Eq, Hash)]
pub struct CheckpointId(pub String);

impl View for CheckpointId {
    type V = Seq<char>;

    open spec fn view(&self) -> Seq<char> {
        self.0@
    }
}

impl DeepView for CheckpointId {
    type V = Seq<char>;

    open spec fn deep_view(&self) -> Seq<char> {
        self.0@
    }
}

impl Clone for CheckpointId {
    fn clone(&self) -> (r: Self)
        ensures
            r == *self,
    {
        CheckpointId(self.0.clone())
    }
}

impl CheckpointId {
    /// The id with the text `value`.
    pub fn from_string(value: &str) -> (r: Self)
        ensures
            r@ == value@,
    {
        CheckpointId(value.to_owned())
    }

    /// The text of the id.
    pub fn as_str(&self) -> (r: &str)
        ensures
            r@ == self@,
    {
        self.0.as_str()
    }

    /// The text of the id, as a string of its own.
    pub fn to_string(&self) -> (r: String)
        ensures
            r@ == self@,
    {
        self.0.clone()
    }

    /// Whether both ids have the same text.
    pub fn same_as(&self, other: &CheckpointId) -> (r: bool)
        ensures
            r == (self@ == other@),
    {
        self.0 == other.0
    }
}

impl Sealed for CheckpointId {

}

impl Id for CheckpointId {
    open spec fn text(&self) -> Seq<char> {
        self@
    }

    open spec fn prefix_text() -> Seq<char> {
        "CHK"@
    }

    fn prefix() -> (r: &'static str) {
        "CHK"
    }

    fn as_str(&self) -> (r: &str) {
        self.0.as_str()
    }

    fn from_string(value: &str) -> (r: Self) {
        CheckpointId(value.to_owned())
    }
}

/// Identifies an action recorded in recent context.
#[derive(Debug, PartialEq, Eq, Hash)]
pub struct ActionId(pub String);

impl View for ActionId {
    type V = Seq<char>;

    open spec fn view(&self) -> Seq<char> {
        self.0@
    }
}

impl DeepView for ActionId {
    type V = Seq<char>;

    open spec fn deep_view(&self) -> Seq<char> {
        self.0@
    }
}

impl Clone for ActionId {
    fn clone(&self) -> (r: Self)
        ensures
            r == *self,
    {
        ActionId(self.0.clone())
    }
}

impl ActionId {
    /// The id with the text `value`.
    pub fn from_string(value: &str) -> (r: Self)
        ensures
            r@ == value@,
    {
        ActionId(value.to_owned())
    }

    /// The text of the id.
    pub fn as_str(&self) -> (r: &str)
        ensures
            r@ == self@,
    {
        self.0.as_str()
    }

    /// The text of the id, as a string of its own.
    pub fn to_string(&self) -> (r: String)
        ensures
            r@ == self@,
    {
        self.0.clone()
    }

    /// Whether both ids have the same text.
    pub fn same_as(&self, other: &ActionId) -> (r: bool)
        ensures
            r == (self@ == other@),
    {
        self.0 == other.0
    }
}

impl Sealed for ActionId {

}

impl Id for ActionId {
    open spec fn text(&self) -> Seq<char> {
        self@
    }

    open spec fn prefix_text() -> Seq<char> {
        "ACT"@
    }

    fn prefix() -> (r: &'static str) {
        "ACT"
    }

    fn as_str(&self) -> (r: &str) {
        self.0.as_str()
    }

    fn from_string(value: &str) -> (r: Self) {
        ActionId(value.to_owned())
    }
}

/// Identifies a plan.
#[derive(Debug, PartialEq, Eq, Hash)]
pub struct PlanId(pub String);

impl View for PlanId {
    type V = Seq<char>;

    open spec fn view(&self) -> Seq<char> {
        self.0@
    }
}

impl DeepView for PlanId {
    type V = Seq<char>;

    open spec fn deep_view(&self) -> Seq<char> {
        self.0@
    }
}

impl Clone for PlanId {
    fn clone(&self) -> (r: Self)
        ensures
            r == *self,
    {
        PlanId(self.0.clone())
    }
}

impl PlanId {
    /// The id with the text `value`.
    pub fn from_string(value: &str) -> (r: Self)
        ensures
            r@ == value@,
    {
        PlanId(value.to_owned())
    }

    /// The text of the id.
    pub fn as_str(&self) -> (r: &str)
        ensures
            r@ == self@,
    {
        self.0.as_str()
    }

    /// The text of the id, as a string of its own.
    pub fn to_string(&self) -> (r: String)
        ensures
            r@ == self@,
    {
        self.0.clone()
    }

    /// Whether both ids have the same text.
    pub fn same_as(&self, other: &PlanId) -> (r: bool)
        ensures
            r == (self@ == other@),
    {
        self.0 == other.0
    }
}

impl Sealed for PlanId {

}

impl Id for PlanId {
    open spec fn text(&self) -> Seq<char> {
        self@
    }

    open spec fn prefix_text() -> Seq<char> {
        "PLAN"@
    }

    fn prefix() -> (r: &'static str) {
        "PLAN"
    }

    fn as_str(&self) -> (r: &str) {
        self.0.as_str()
    }

    fn from_string(value: &str) -> (r: Self) {
        PlanId(value.to_owned())
    }
}

/// Identifies a decision.
#[derive(Debug, PartialEq, Eq, Hash)]
pub struct DecisionId(pub String);

impl View for DecisionId {
    type V = Seq<char>;

    open spec fn view(&self) -> Seq<char> {
        self.0@
    }
}

impl DeepView for DecisionId {
    type V = Seq<char>;

    open spec fn deep_view(&self) -> Seq<char> {
        self.0@
    }
}

impl Clone for DecisionId {
    fn clone(&self) -> (r: Self)
        ensures
            r == *self,
    {
        DecisionId(self.0.clone())
    }
}

impl DecisionId {
    /// The id with the text `value`.
    pub fn from_string(value: &str) -> (r: Self)
        ensures
            r@ == value@,
    {
        DecisionId(value.to_owned())
    }

    /// The text of the id.
    pub fn as_str(&self) -> (r: &str)
        ensures
            r@ == self@,
    {
        self.0.as_str()
    }

    /// The text of the id, as a string of its own.
    pub fn to_string(&self) -> (r: String)
        ensures
            r@ == self@,
    {
        self.0.clone()
    }

    /// Whether both ids have the same text.
    pub fn same_as(&self, other: &DecisionId) -> (r: bool)
        ensures
            r == (self@ == other@),
    {
        self.0 == other.0
    }
}

impl Sealed for DecisionId {

}

impl Id for DecisionId {
    open spec fn text(&self) -> Seq<char> {
        self@
    }

    open spec fn prefix_text() -> Seq<char> {
        "DEC"@
    }

    fn prefix() -> (r: &'static str) {
        "DEC"
    }

    fn as_str(&self) -> (r: &str) {
        self.0.as_str()
    }

    fn from_string(value: &str) -> (r: Self) {
        DecisionId(value.to_owned())
    }
}

/// Identifies a blocker.
#[derive(Debug, PartialEq, Eq, Hash)]
pub struct BlockerId(pub String);

impl View for BlockerId {
    type V = Seq<char>;

    open spec fn view(&self) -> Seq<char> {
        self.0@
    }
}

impl DeepView for BlockerId {
    type V = Seq<char>;

    open spec fn deep_view(&self) -> Seq<char> {
        self.0@
    }
}

impl Clone for BlockerId {
    fn clone(&self) -> (r: Self)
        ensures
            r == *self,
    {
        BlockerId(self.0.clone())
    }
}

impl BlockerId {
    /// The id with the text `value`.
    pub fn from_string(value: &str) -> (r: Self)
        ensures
            r@ == value@,
    {
        BlockerId(value.to_owned())
    }

    /// The text of the id.
    pub fn as_str(&self) -> (r: &str)
        ensures
            r@ == self@,
    {
        self.0.as_str()
    }

    /// The text of the id, as a string of its own.
    pub fn to_string(&self) -> (r: String)
        ensures
            r@ == self@,
    {
        self.0.clone()
    }

    /// Whether both ids have the same text.
    pub fn same_as(&self, other: &BlockerId) -> (r: bool)
        ensures
            r == (self@ == other@),
    {
        self.0 == other.0
    }
}

impl Sealed for BlockerId {

}

impl Id for BlockerId {
    open spec fn text(&self) -> Seq<char> {
        self@
    }

    open spec fn prefix_text() -> Seq<char> {
        "BLK"@
    }

    fn prefix() -> (r: &'static str) {
        "BLK"
    }

    fn as_str(&self) -> (r: &str) {
        self.0.as_str()
    }

    fn from_string(value: &str) -> (r: Self) {
        BlockerId(value.to_owned())
    }
}

/// Identifies a handoff from one agent to another.
#[derive(Debug, PartialEq, Eq, Hash)]
pub struct HandoffId(pub String);

impl View for HandoffId {
    type V = Seq<char>;

    open spec fn view(&self) -> Seq<char> {
        self.0@
    }
}

impl DeepView for HandoffId {
    type V = Seq<char>;

    open spec fn deep_view(&self) -> Seq<char> {
        self.0@
    }
}

impl Clone for HandoffId {
    fn clone(&self) -> (r: Self)
        ensures
            r == *self,
    {
        HandoffId(self.0.clone())
    }
}

impl HandoffId {
    /// The id with the text `value`.
    pub fn from_string(value: &str) -> (r: Self)
        ensures
            r@ == value@,
    {
        HandoffId(value.to_owned())
    }

    /// The text of the id.
    pub fn as_str(&self) -> (r: &str)
        ensures
            r@ == self@,
    {
        self.0.as_str()
    }

    /// The text of the id, as a string of its own.
    pub fn to_string(&self) -> (r: String)
        ensures
            r@ == self@,
    {
        self.0.clone()
    }

    /// Whether both ids have the same text.
    pub fn same_as(&self, other: &HandoffId) -> (r: bool)
        ensures
            r == (self@ == other@),
    {
        self.0 == other.0
    }
}

impl Sealed for HandoffId {

}

impl Id for HandoffId {
    open spec fn text(&self) -> Seq<char> {
        self@
    }

    open spec fn prefix_text() -> Seq<char> {
        "HOF"@
    }

    fn prefix() -> (r: &'static str) {
        "HOF"
    }

    fn as_str(&self) -> (r: &str) {
        self.0.as_str()
    }

    fn from_string(value: &str) -> (r: Self) {
        HandoffId(value.to_owned())
    }
}

/// Identifies an agent's assignment to a task.
#[derive(Debug, PartialEq, Eq, Hash)]
pub struct AssignmentId(pub String);

impl View for AssignmentId {
    type V = Seq<char>;

    open spec fn view(&self) -> Seq<char> {
        self.0@
    }
}

impl DeepView for AssignmentId {
    type V = Seq<char>;

    open spec fn deep_view(&self) -> Seq<char> {
        self.0@
    }
}

impl Clone for AssignmentId {
    fn clone(&self) -> (r: Self)
        ensures
            r == *self,
    {
        AssignmentId(self.0.clone())
    }
}

impl AssignmentId {
    /// The id with the text `value`.
    pub fn from_string(value: &str) -> (r: Self)
        ensures
            r@ == value@,
    {
        AssignmentId(value.to_owned())
    }

    /// The text of the id.
    pub fn as_str(&self) -> (r: &str)
        ensures
            r@ == self@,
    {
        self.0.as_str()
    }

    /// The text of the id, as a string of its own.
    pub fn to_string(&self) -> (r: String)
        ensures
            r@ == self@,
    {
        self.0.clone()
    }

    /// Whether both ids have the same text.
    pub fn same_as(&self, other: &AssignmentId) -> (r: bool)
        ensures
            r == (self@ == other@),
    {
        self.0 == other.0
    }
}

impl Sealed for AssignmentId {

}

impl Id for AssignmentId {
    open spec fn text(&self) -> Seq<char> {
        self@
    }

    open spec fn prefix_text() -> Seq<char> {
        "ASG"@
    }

    fn prefix() -> (r: &'static str) {
        "ASG"
    }

    fn as_str(&self) -> (r: &str) {
        self.0.as_str()
    }

    fn from_string(value: &str) -> (r: Self) {
        AssignmentId(value.to_owned())
    }
}

/// Identifies a repository that Director observes.
#[derive(Debug, PartialEq, Eq, Hash)]
pub struct RepositoryId(pub String);

impl View for RepositoryId {
    type V = Seq<char>;

    open spec fn view(&self) -> Seq<char> {
        self.0@
    }
}

impl DeepView for RepositoryId {
    type V = Seq<char>;

    open spec fn deep_view(&self) -> Seq<char> {
        self.0@
    }
}

impl Clone for RepositoryId {
    fn clone(&self) -> (r: Self)
        ensures
            r == *self,
    {
        RepositoryId(self.0.clone())
    }
}

impl RepositoryId {
    /// The id with the text `value`.
    pub fn from_string(value: &str) -> (r: Self)
        ensures
            r@ == value@,
    {
        RepositoryId(value.to_owned())
    }

    /// The text of the id.
    pub fn as_str(&self) -> (r: &str)
        ensures
            r@ == self@,
    {
        self.0.as_str()
    }

    /// The text of the id, as a string of its own.
    pub fn to_string(&self) -> (r: String)
        ensures
            r@ == self@,
    {
        self.0.clone()
    }

    /// Whether both ids have the same text.
    pub fn same_as(&self, other: &RepositoryId) -> (r: bool)
        ensures
            r == (self@ == other@),
    {
        self.0 == other.0
    }
}

impl Sealed for RepositoryId {

}

impl Id for RepositoryId {
    open spec fn text(&self) -> Seq<char> {
        self@
    }

    open spec fn prefix_text() -> Seq<char> {
        "REPO"@
    }

    fn prefix() -> (r: &'static str) {
        "REPO"
    }

    fn as_str(&self) -> (r: &str) {
        self.0.as_str()
    }

    fn from_string(value: &str) -> (r: Self) {
        RepositoryId(value.to_owned())
    }
}

/// Identifies one fact that Director learned by looking at git.
#[derive(Debug, PartialEq, Eq, Hash)]
pub struct EventId(pub String);

impl View for EventId {
    type V = Seq<char>;

    open spec fn view(&self) -> Seq<char> {
        self.0@
    }
}

impl DeepView for EventId {
    type V = Seq<char>;

    open spec fn deep_view(&self) -> Seq<char> {
        self.0@
    }
}

impl Clone for EventId {
    fn clone(&self) -> (r: Self)
        ensures
            r == *self,
    {
        EventId(self.0.clone())
    }
}

impl EventId {
    /// The id with the text `value`.
    pub fn from_string(value: &str) -> (r: Self)
        ensures
            r@ == value@,
    {
        EventId(value.to_owned())
    }

    /// The text of the id.
    pub fn as_str(&self) -> (r: &str)
        ensures
            r@ == self@,
    {
        self.0.as_str()
    }

    /// The text of the id, as a string of its own.
    pub fn to_string(&self) -> (r: String)
        ensures
            r@ == self@,
    {
        self.0.clone()
    }

    /// Whether both ids have the same text.
    pub fn same_as(&self, other: &EventId) -> (r: bool)
        ensures
            r == (self@ == other@),
    {
        self.0 == other.0
    }
}

impl Sealed for EventId {

}

impl Id for EventId {
    open spec fn text(&self) -> Seq<char> {
        self@
    }

    open spec fn prefix_text() -> Seq<char> {
        "EVT"@
    }

    fn prefix() -> (r: &'static str) {
        "EVT"
    }

    fn as_str(&self) -> (r: &str) {
        self.0.as_str()
    }

    fn from_string(value: &str) -> (r: Self) {
        EventId(value.to_owned())
    }
}

/// How many ids of one kind have been issued.
#[derive(Debug, PartialEq, Eq)]
pub struct Counter {
    /// The prefix of the kind.
    pub prefix: String,
    /// The number issued so far.
    pub count: u64,
}

/// What a [`Counter`] holds.
#[verifier::ext_equal]
pub struct CounterView {
    pub prefix: Seq<char>,
    pub count: u64,
}

impl View for Counter {
    type V = CounterView;

    open spec fn view(&self) -> CounterView {
        CounterView {
            prefix: self.prefix.deep_view(),
            count: self.count,
        }
    }
}

impl DeepView for Counter {
    type V = CounterView;

    open spec fn deep_view(&self) -> CounterView {
        self.view()
    }
}

impl Clone for Counter {
    fn clone(&self) -> (r: Self)
        ensures
            r@ == self@,
    {
        let r: Counter = Counter {
            prefix: self.prefix.clone(),
            count: self.count,
        };
        r
    }
}

impl Keyed for Counter {
    open spec fn key_of(v: CounterView) -> Seq<char> {
        v.prefix
    }

    fn key(&self) -> (k: &str) {
        self.prefix.as_str()
    }

    fn duplicate(&self) -> (r: Self) {
        self.clone()
    }
}

/// Issues ids of the form `<PREFIX>-<key>-<n>`, such as `TASK-auth-1`, where `n`
/// counts up from one for each kind of id.
#[derive(Debug)]
pub struct IdGenerator {
    counters: Registry<Counter>,
}

impl Clone for IdGenerator {
    /// A generator that goes on where this one stands.
    fn clone(&self) -> (r: Self)
        ensures
            r.well_formed() == self.well_formed(),
            forall|prefix: Seq<char>| #[trigger] r.issued(prefix) == self.issued(prefix),
    {
        IdGenerator { counters: self.counters.clone() }
    }
}

impl Default for IdGenerator {
    /// A generator that has issued nothing.
    fn default() -> (r: Self)
        ensures
            r.well_formed(),
            forall|prefix: Seq<char>| #[trigger] r.issued(prefix) == 0,
    {
        IdGenerator::new()
    }
}

/// The text of the `n`th id of a kind.
pub open spec fn issued_text(prefix: Seq<char>, key: Seq<char>, n: nat) -> Seq<char> {
    prefix + "-"@ + key + "-"@ + decimal(n)
}

impl IdGenerator {
    /// Every kind has one counter.
    pub closed spec fn well_formed(self) -> bool {
        self.counters.well_formed()
    }

    /// How many ids with `prefix` have been issued.
    pub closed spec fn issued(self, prefix: Seq<char>) -> nat {
        if self.counters@.contains_key(prefix) {
            self.counters@[prefix].count as nat
        } else {
            0
        }
    }

    /// A generator that has issued nothing.
    pub fn new() -> (r: Self)
        ensures
            r.well_formed(),
            forall|prefix: Seq<char>| r.issued(prefix) == 0,
    {
        IdGenerator { counters: Registry::new() }
    }

    /// The next id of kind `T` under `key`.
    pub fn next<T: Id>(&mut self, key: &str) -> (r: T)
        requires
            old(self).well_formed(),
            old(self).issued(T::prefix_text()) < u64::MAX,
        ensures
            final(self).well_formed(),
            r.text() == issued_text(
                T::prefix_text(),
                key@,
                old(self).issued(T::prefix_text()) + 1,
            ),
            final(self).issued(T::prefix_text()) == old(self).issued(T::prefix_text()) + 1,
            forall|other: Seq<char>|
                other != T::prefix_text() ==> #[trigger] final(self).issued(other) == old(
                    self,
                ).issued(other),
    {
        let prefix: &str = T::prefix();
        let count: u64 = match self.counters.get(prefix) {
            Some(counter) => counter.count + 1,
            None => 1,
        };
        self.counters.insert(Counter { prefix: prefix.to_owned(), count });
        let mut text: String = prefix.to_owned();
        text.append("-");
        text.append(key);
        text.append("-");
        text.append(decimal_text(count).as_str());
        T::from_string(text.as_str())
    }
}

/// Every character of a number in decimal is a digit.
proof fn lemma_decimal_has_no_dash(n: nat)
    ensures
        !decimal(n).contains('-'),
        decimal(n).len() > 0,
    decreases n,
{
    if n < 10 {
        assert forall|i: int| 0 <= i < decimal(n).len() implies decimal(n)[i] != '-' by {}
    } else {
        lemma_decimal_has_no_dash(n / 10);
        assert forall|i: int| 0 <= i < decimal(n).len() implies decimal(n)[i] != '-' by {
            if i < decimal(n / 10).len() {
                assert(decimal(n / 10)[i] != '-') by {
                    if decimal(n / 10)[i] == '-' {
                        assert(decimal(n / 10).contains('-'));
                    }
                }
            }
        }
    }
}

/// What stands behind the last dash is determined by the whole text.
proof fn lemma_last_part(front: Seq<char>, back: Seq<char>, front2: Seq<char>, back2: Seq<char>)
    requires
        front + "-"@ + back == front2 + "-"@ + back2,
        !back.contains('-'),
        !back2.contains('-'),
    ensures
        back == back2,
{
    reveal_strlit("-");
    let s = front + "-"@ + back;
    let t = front2 + "-"@ + back2;
    assert("-"@.len() == 1);
    assert(s.len() == front.len() + 1 + back.len());
    assert(t.len() == front2.len() + 1 + back2.len());
    if front.len() < front2.len() {
        assert(t[front2.len() as int] == '-');
        assert(s[front2.len() as int] == back[front2.len() - front.len() - 1]);
        assert(back.contains('-'));
    } else if front2.len() < front.len() {
        assert(s[front.len() as int] == '-');
        assert(t[front.len() as int] == back2[front.len() - front2.len() - 1]);
        assert(back2.contains('-'));
    } else {
        assert(back =~= s.skip(front.len() as int + 1));
        assert(back2 =~= t.skip(front2.len() as int + 1));
    }
}

/// Ids that one generator issues for one kind never repeat, whatever their keys:
/// the counter alone tells them apart.
pub proof fn law_issued_ids_are_unique(
    prefix: Seq<char>,
    key: Seq<char>,
    n: nat,
    other_key: Seq<char>,
    m: nat,
)
    requires
        n != m,
    ensures
        issued_text(prefix, key, n) != issued_text(prefix, other_key, m),
{
    if issued_text(prefix, key, n) == issued_text(prefix, other_key, m) {
        lemma_decimal_has_no_dash(n);
        lemma_decimal_has_no_dash(m);
        lemma_last_part(
            prefix + "-"@ + key,
            decimal(n),
            prefix + "-"@ + other_key,
            decimal(m),
        );
        lemma_decimal_value(n);
        lemma_decimal_value(m);
    }
}

/// An issued id starts with the prefix of its kind and tells both its key and its number:
/// two ids of one kind are the same only where both agree.
pub proof fn law_an_issued_id_tells_its_key_and_number(
    prefix: Seq<char>,
    key: Seq<char>,
    n: nat,
    other_key: Seq<char>,
    m: nat,
)
    ensures
        prefix.push('-').is_prefix_of(issued_text(prefix, key, n)),
        issued_text(prefix, key, n) == issued_text(prefix, other_key, m) <==> key == other_key && n
            == m,
{
    reveal_strlit("-");
    let dash = "-"@;
    assert(dash.len() == 1 && dash[0] == '-');
    let id = issued_text(prefix, key, n);
    assert(prefix.push('-') =~= id.take(prefix.len() as int + 1));
    if id == issued_text(prefix, other_key, m) {
        if n != m {
            law_issued_ids_are_unique(prefix, key, n, other_key, m);
        }
        assert(n == m);
        let tail = decimal(n).len() + 1;
        assert(id.len() == prefix.len() + 1 + key.len() + tail);
        assert(issued_text(prefix, other_key, m).len() == prefix.len() + 1 + other_key.len()
            + tail);
        assert(key =~= id.subrange(prefix.len() as int + 1, id.len() - tail));
        assert(other_key =~= id.subrange(prefix.len() as int + 1, id.len() - tail));
    }
}

} // verus!
