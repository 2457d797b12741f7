//! The transfer of a task from one agent to another.
//!
//! A handoff is addressed to one agent and can be accepted once, so two agents
//! never pick up the same task from the same transfer.

use crate::domain::ids::{AgentId, HandoffId, SessionId, TaskId};
use crate::time::{clock_time, Timestamp};
use vstd::prelude::*;
use vstd::string::*;

verus! {

/// Lifecycle state of a handoff.
#[derive(Debug, Clone, Copy, PartialEq, Eq, Hash, Structural)]
pub enum HandoffState {
    /// It waits for the agent it is addressed to.
    Open,
    /// It was accepted.
    Accepted,
    /// Nobody claimed it while it mattered.
    Expired,
}

impl DeepView for HandoffState {
    type V = HandoffState;

    open spec fn deep_view(&self) -> HandoffState {
        *self
    }
}

impl HandoffState {
    /// Whether the handoff can still be picked up.
    pub fn is_open(self) -> (r: bool)
        ensures
            r == (self == HandoffState::Open),
    {
        matches!(self, HandoffState::Open)
    }

    /// Whether an agent consumed the handoff.
    pub fn was_accepted(self) -> (r: bool)
        ensures
            r == (self == HandoffState::Accepted),
    {
        matches!(self, HandoffState::Accepted)
    }
}

/// Why a handoff could not be accepted.
#[derive(Debug, Clone, Copy, PartialEq, Eq, Hash, Structural)]
pub enum HandoffError {
    /// It was accepted or expired before.
    AlreadyConsumed,
    /// It is addressed to another agent.
    WrongAgent,
}

impl DeepView for HandoffError {
    type V = HandoffError;

    open spec fn deep_view(&self) -> HandoffError {
        *self
    }
}

impl HandoffError {
    /// The error in words.
    pub fn to_string(self) -> (r: String)
        ensures
            r@ == (match self {
                HandoffError::AlreadyConsumed => "handoff is no longer open"@,
                HandoffError::WrongAgent => "handoff is addressed to a different agent"@,
            }),
    {
        match self {
            HandoffError::AlreadyConsumed => "handoff is no longer open".to_owned(),
            HandoffError::WrongAgent => "handoff is addressed to a different agent".to_owned(),
        }
    }
}

/// A task on its way from one agent to another.
#[derive(Debug, PartialEq, Eq)]
pub struct Handoff {
    /// The handoff's identifier.
    pub id: HandoffId,
    /// The task.
    pub task_id: TaskId,
    /// The agent that hands it off.
    pub from_agent: AgentId,
    /// The session that produced the handoff, for attribution.
    pub from_session: Option<SessionId>,
    /// The agent that may accept it.
    pub to_agent: AgentId,
    /// Open, accepted or expired.
    pub state: HandoffState,
    /// What the receiver needs to know, in short.
    pub summary: String,
    /// Questions that are open.
    pub open_questions: Vec<String>,
    /// What to do next, in order.
    pub next_steps: Vec<String>,
    /// Files that the outgoing agent touched.
    pub files_touched: Vec<String>,
    /// When the handoff was opened.
    pub created_at: Timestamp,
    /// When it was accepted, if it was.
    pub accepted_at: Option<Timestamp>,
    /// The session that accepted it, if any.
    pub accepted_by_session: Option<SessionId>,
}

/// What a [`Handoff`] holds.
#[verifier::ext_equal]
pub struct HandoffView {
    pub id: Seq<char>,
    pub task_id: Seq<char>,
    pub from_agent: Seq<char>,
    pub from_session: Option<Seq<char>>,
    pub to_agent: Seq<char>,
    pub state: HandoffState,
    pub summary: Seq<char>,
    pub open_questions: Seq<Seq<char>>,
    pub next_steps: Seq<Seq<char>>,
    pub files_touched: Seq<Seq<char>>,
    pub created_at: Timestamp,
    pub accepted_at: Option<Timestamp>,
    pub accepted_by_session: Option<Seq<char>>,
}

impl View for Handoff {
    type V = HandoffView;

    open spec fn view(&self) -> HandoffView {
        HandoffView {
            id: self.id.deep_view(),
            task_id: self.task_id.deep_view(),
            from_agent: self.from_agent.deep_view(),
            from_session: self.from_session.deep_view(),
            to_agent: self.to_agent.deep_view(),
            state: self.state,
            summary: self.summary.deep_view(),
            open_questions: self.open_questions.deep_view(),
            next_steps: self.next_steps.deep_view(),
            files_touched: self.files_touched.deep_view(),
            created_at: self.created_at,
            accepted_at: self.accepted_at,
            accepted_by_session: self.accepted_by_session.deep_view(),
        }
    }
}

impl DeepView for Handoff {
    type V = HandoffView;

    open spec fn deep_view(&self) -> HandoffView {
        self.view()
    }
}

impl Clone for Handoff {
    fn clone(&self) -> (r: Self)
        ensures
            r@ == self@,
    {
        let r: Handoff = Handoff {
            id: self.id.clone(),
            task_id: self.task_id.clone(),
            from_agent: self.from_agent.clone(),
            from_session: self.from_session.clone(),
            to_agent: self.to_agent.clone(),
            state: self.state,
            summary: self.summary.clone(),
            open_questions: self.open_questions.clone(),
            next_steps: self.next_steps.clone(),
            files_touched: self.files_touched.clone(),
            created_at: self.created_at,
            accepted_at: self.accepted_at,
            accepted_by_session: self.accepted_by_session.clone(),
        };
        assert(r.open_questions.deep_view() =~= self.open_questions.deep_view());
        assert(r.next_steps.deep_view() =~= self.next_steps.deep_view());
        assert(r.files_touched.deep_view() =~= self.files_touched.deep_view());
        r
    }
}

/// What accepting a handoff gives: only the agent it is addressed to can accept
/// it, and only while it is open.
pub open spec fn acceptance(h: HandoffView, acceptor: Seq<char>) -> Result<(), HandoffError> {
    if h.state != HandoffState::Open {
        Err(HandoffError::AlreadyConsumed)
    } else if acceptor != h.to_agent {
        Err(HandoffError::WrongAgent)
    } else {
        Ok(())
    }
}

/// An accepted handoff, by the session that accepted it and the time.
pub open spec fn accepted(h: HandoffView, session: Seq<char>, at: Option<Timestamp>) -> HandoffView {
    HandoffView {
        state: HandoffState::Accepted,
        accepted_at: at,
        accepted_by_session: Some(session),
        ..h
    }
}

impl Handoff {
    /// Opens a handoff addressed to `to_agent`.
    pub fn open(
        id: HandoffId,
        task_id: TaskId,
        from_agent: AgentId,
        to_agent: AgentId,
        summary: &str,
    ) -> (r: Self)
        ensures
            clock_time(r.created_at@),
            r@ == (HandoffView {
                id: id@,
                task_id: task_id@,
                from_agent: from_agent@,
                from_session: None,
                to_agent: to_agent@,
                state: HandoffState::Open,
                summary: summary@,
                open_questions: Seq::empty(),
                next_steps: Seq::empty(),
                files_touched: Seq::empty(),
                created_at: r.created_at,
                accepted_at: None,
                accepted_by_session: None,
            }),
    {
        let r: Handoff = Handoff {
            id,
            task_id,
            from_agent,
            from_session: None,
            to_agent,
            state: HandoffState::Open,
            summary: summary.to_owned(),
            open_questions: Vec::new(),
            next_steps: Vec::new(),
            files_touched: Vec::new(),
            created_at: Timestamp::now(),
            accepted_at: None,
            accepted_by_session: None,
        };
        assert(r.open_questions.deep_view() =~= Seq::empty());
        assert(r.next_steps.deep_view() =~= Seq::empty());
        assert(r.files_touched.deep_view() =~= Seq::empty());
        r
    }

    /// The handoff, with the session that produced it.
    pub fn from(self, session_id: SessionId) -> (r: Self)
        ensures
            r@ == (HandoffView { from_session: Some(session_id@), ..self@ }),
    {
        Handoff { from_session: Some(session_id), ..self }
    }

    /// The handoff, with one more step for the receiver.
    pub fn and_then(self, step: &str) -> (r: Self)
        ensures
            r@ == (HandoffView { next_steps: self@.next_steps.push(step@), ..self@ }),
    {
        let ghost before = self.next_steps.deep_view();
        let mut r: Handoff = self;
        r.next_steps.push(step.to_owned());
        assert(r.next_steps.deep_view() =~= before.push(step@));
        r
    }

    /// The handoff, with one more open question.
    pub fn asking(self, question: &str) -> (r: Self)
        ensures
            r@ == (HandoffView { open_questions: self@.open_questions.push(question@), ..self@ }),
    {
        let ghost before = self.open_questions.deep_view();
        let mut r: Handoff = self;
        r.open_questions.push(question.to_owned());
        assert(r.open_questions.deep_view() =~= before.push(question@));
        r
    }

    /// The handoff, with one more file that was touched.
    pub fn touched(self, path: &str) -> (r: Self)
        ensures
            r@ == (HandoffView { files_touched: self@.files_touched.push(path@), ..self@ }),
    {
        let ghost before = self.files_touched.deep_view();
        let mut r: Handoff = self;
        r.files_touched.push(path.to_owned());
        assert(r.files_touched.deep_view() =~= before.push(path@));
        r
    }

    /// Accepts the handoff on behalf of `acceptor`.
    pub fn accept(&mut self, acceptor: AgentId, session_id: SessionId) -> (r: Result<
        (),
        HandoffError,
    >)
        ensures
            r == acceptance(old(self)@, acceptor@),
            r is Err ==> *final(self) == *old(self),
            r is Ok ==> final(self).accepted_at is Some && clock_time(
                final(self).accepted_at->0@,
            ) && final(self)@ == accepted(
                old(self)@,
                session_id@,
                final(self).accepted_at,
            ),
    {
        if self.state != HandoffState::Open {
            return Err(HandoffError::AlreadyConsumed);
        }
        if !acceptor.same_as(&self.to_agent) {
            return Err(HandoffError::WrongAgent);
        }
        self.state = HandoffState::Accepted;
        self.accepted_at = Some(Timestamp::now());
        self.accepted_by_session = Some(session_id);
        Ok(())
    }

    /// Expires a handoff that nobody claimed.
    pub fn expire(&mut self)
        ensures
            final(self)@ == (HandoffView { state: HandoffState::Expired, ..old(self)@ }),
    {
        self.state = HandoffState::Expired;
    }
}

/// A handoff is claimed at most once: after one acceptance every further one is
/// refused, whoever asks.
pub proof fn law_handoff_is_claimed_once(
    h: HandoffView,
    first: Seq<char>,
    session: Seq<char>,
    at: Option<Timestamp>,
    second: Seq<char>,
)
    requires
        acceptance(h, first) is Ok,
    ensures
        acceptance(accepted(h, session, at), second) == Err::<(), HandoffError>(
            HandoffError::AlreadyConsumed,
        ),
{
}

/// Only the agent that a handoff is addressed to can accept it.
pub proof fn law_only_the_addressee_accepts(h: HandoffView, acceptor: Seq<char>)
    ensures
        acceptance(h, acceptor) is Ok ==> acceptor == h.to_agent,
{
}

/// An expired handoff cannot be accepted.
pub proof fn law_expired_handoff_is_refused(h: HandoffView, acceptor: Seq<char>)
    ensures
        acceptance((HandoffView { state: HandoffState::Expired, ..h }), acceptor) == Err::<
            (),
            HandoffError,
        >(HandoffError::AlreadyConsumed),
{
}

/// A handoff is accepted exactly where it is open and the one who accepts is the one
/// whom it is addressed to; once it is no longer open, that is what is told, whoever
/// asks.
pub proof fn law_acceptance_takes_an_open_handoff_and_its_addressee(
    h: HandoffView,
    acceptor: Seq<char>,
)
    ensures
        acceptance(h, acceptor) is Ok <==> h.state == HandoffState::Open && acceptor == h.to_agent,
        acceptance(h, acceptor) == Err::<(), HandoffError>(HandoffError::AlreadyConsumed)
            <==> h.state != HandoffState::Open,
        acceptance(h, acceptor) == Err::<(), HandoffError>(HandoffError::WrongAgent) <==> h.state
            == HandoffState::Open && acceptor != h.to_agent,
{
}

/// Accepting a handoff notes who took it up and when, and leaves what is handed over.
pub proof fn law_accepting_leaves_what_is_handed_over(
    h: HandoffView,
    session: Seq<char>,
    at: Option<Timestamp>,
)
    ensures
        accepted(h, session, at).state == HandoffState::Accepted,
        accepted(h, session, at).accepted_by_session == Some(session),
        accepted(h, session, at).accepted_at == at,
        (HandoffView {
            state: h.state,
            accepted_at: h.accepted_at,
            accepted_by_session: h.accepted_by_session,
            ..accepted(h, session, at)
        }) == h,
{
}

} // verus!
