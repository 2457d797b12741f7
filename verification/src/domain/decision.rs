//! A choice that the project is committed to.

use crate::domain::ids::{AgentId, DecisionId, TaskId};
use crate::time::{clock_time, Timestamp};
use vstd::prelude::*;
use vstd::string::*;

verus! {

/// Lifecycle state of a decision.
#[derive(Debug, Clone, Copy, PartialEq, Eq, Hash, Structural)]
pub enum DecisionStatus {
    /// It stands.
    Active,
    /// A later decision reversed it.
    Superseded,
    /// It was found moot or wrong, without a direct reversal.
    Withdrawn,
}

impl DeepView for DecisionStatus {
    type V = DecisionStatus;

    open spec fn deep_view(&self) -> DecisionStatus {
        *self
    }
}

impl DecisionStatus {
    /// Whether the decision is in force.
    pub fn stands(self) -> (r: bool)
        ensures
            r == (self == DecisionStatus::Active),
    {
        matches!(self, DecisionStatus::Active)
    }
}

/// A committed choice.
#[derive(Debug, PartialEq, Eq)]
pub struct Decision {
    /// The decision's identifier.
    pub id: DecisionId,
    /// The task in which it arose, if any.
    pub task_id: Option<TaskId>,
    /// The choice, stated as a rule.
    pub title: String,
    /// Why it was made.
    pub rationale: String,
    /// What was considered and rejected.
    pub alternatives_considered: Vec<String>,
    /// Active, superseded or withdrawn.
    pub status: DecisionStatus,
    /// The decision that reversed this one.
    pub superseded_by: Option<DecisionId>,
    /// The agent that made it, if known.
    pub made_by: Option<AgentId>,
    /// When it was made.
    pub made_at: Timestamp,
    /// When it last changed.
    pub updated_at: Timestamp,
}

/// What a [`Decision`] holds.
#[verifier::ext_equal]
pub struct DecisionView {
    pub id: Seq<char>,
    pub task_id: Option<Seq<char>>,
    pub title: Seq<char>,
    pub rationale: Seq<char>,
    pub alternatives_considered: Seq<Seq<char>>,
    pub status: DecisionStatus,
    pub superseded_by: Option<Seq<char>>,
    pub made_by: Option<Seq<char>>,
    pub made_at: Timestamp,
    pub updated_at: Timestamp,
}

impl View for Decision {
    type V = DecisionView;

    open spec fn view(&self) -> DecisionView {
        DecisionView {
            id: self.id.deep_view(),
            task_id: self.task_id.deep_view(),
            title: self.title.deep_view(),
            rationale: self.rationale.deep_view(),
            alternatives_considered: self.alternatives_considered.deep_view(),
            status: self.status,
            superseded_by: self.superseded_by.deep_view(),
            made_by: self.made_by.deep_view(),
            made_at: self.made_at,
            updated_at: self.updated_at,
        }
    }
}

impl DeepView for Decision {
    type V = DecisionView;

    open spec fn deep_view(&self) -> DecisionView {
        self.view()
    }
}

impl Clone for Decision {
    fn clone(&self) -> (r: Self)
        ensures
            r@ == self@,
    {
        let r: Decision = Decision {
            id: self.id.clone(),
            task_id: self.task_id.clone(),
            title: self.title.clone(),
            rationale: self.rationale.clone(),
            alternatives_considered: self.alternatives_considered.clone(),
            status: self.status,
            superseded_by: self.superseded_by.clone(),
            made_by: self.made_by.clone(),
            made_at: self.made_at,
            updated_at: self.updated_at,
        };
        assert(r.alternatives_considered.deep_view() =~= self.alternatives_considered.deep_view());
        r
    }
}

impl Decision {
    /// Records a decision that stands.
    pub fn new(id: DecisionId, title: &str, rationale: &str) -> (r: Self)
        ensures
            clock_time(r.made_at@),
            r@ == (DecisionView {
                id: id@,
                task_id: None,
                title: title@,
                rationale: rationale@,
                alternatives_considered: Seq::empty(),
                status: DecisionStatus::Active,
                superseded_by: None,
                made_by: None,
                made_at: r.made_at,
                updated_at: r.made_at,
            }),
    {
        let now: Timestamp = Timestamp::now();
        let r: Decision = Decision {
            id,
            task_id: None,
            title: title.to_owned(),
            rationale: rationale.to_owned(),
            alternatives_considered: Vec::new(),
            status: DecisionStatus::Active,
            superseded_by: None,
            made_by: None,
            made_at: now,
            updated_at: now,
        };
        assert(r.alternatives_considered.deep_view() =~= Seq::empty());
        r
    }

    /// The decision, scoped to the task it arose from.
    pub fn in_task(self, task_id: TaskId) -> (r: Self)
        ensures
            r@ == (DecisionView { task_id: Some(task_id@), ..self@ }),
    {
        Decision { task_id: Some(task_id), ..self }
    }

    /// The decision, attributed to an agent.
    pub fn attributed_to(self, agent_id: AgentId) -> (r: Self)
        ensures
            r@ == (DecisionView { made_by: Some(agent_id@), ..self@ }),
    {
        Decision { made_by: Some(agent_id), ..self }
    }

    /// The decision, with one more rejected alternative on record.
    pub fn considered(self, alternative: &str) -> (r: Self)
        ensures
            r@ == (DecisionView {
                alternatives_considered: self@.alternatives_considered.push(alternative@),
                ..self@
            }),
    {
        let ghost before = self.alternatives_considered.deep_view();
        let mut r: Decision = self;
        r.alternatives_considered.push(alternative.to_owned());
        assert(r.alternatives_considered.deep_view() =~= before.push(alternative@));
        r
    }

    /// Reverses the decision in favour of `replacement`.
    pub fn supersede(&mut self, replacement: DecisionId)
        ensures
            clock_time(final(self).updated_at@),
            final(self)@ == (DecisionView {
                status: DecisionStatus::Superseded,
                superseded_by: Some(replacement@),
                updated_at: final(self).updated_at,
                ..old(self)@
            }),
    {
        self.status = DecisionStatus::Superseded;
        self.superseded_by = Some(replacement);
        self.updated_at = Timestamp::now();
    }

    /// Withdraws the decision without a replacement.
    pub fn withdraw(&mut self)
        ensures
            clock_time(final(self).updated_at@),
            final(self)@ == (DecisionView {
                status: DecisionStatus::Withdrawn,
                updated_at: final(self).updated_at,
                ..old(self)@
            }),
    {
        self.status = DecisionStatus::Withdrawn;
        self.updated_at = Timestamp::now();
    }
}

} // verus!
