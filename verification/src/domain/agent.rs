//! Agents and machines: the replaceable side of the system.

use crate::domain::capability::{satisfies, Capability, CapabilityView};
use crate::domain::ids::{AgentId, MachineId, TaskId};
use crate::time::{clock_time, nanos_between, truncating_div, Timestamp};
use vstd::prelude::*;
use vstd::string::*;

verus! {

/// The harness that an agent runs in.
#[derive(Debug, PartialEq, Eq)]
pub enum Harness {
    /// The command line agent of that name.
    ClaudeCode,
    /// The Codex CLI.
    Codex,
    /// DeepSeek's coding agent.
    DeepSeek,
    /// The OpenCode CLI.
    OpenCode,
    /// The Goose agent.
    Goose,
    /// The Cursor editor's agent.
    Cursor,
    /// The Gemini CLI.
    GeminiCli,
    /// The Antigravity CLI.
    Antigravity,
    /// The Crush agent.
    Crush,
    /// Kimi Code.
    KimiCode,
    /// A person who works in the repository.
    Human,
    /// Any other agent, by name.
    Other(String),
}

/// What a [`Harness`] holds.
#[verifier::ext_equal]
pub enum HarnessView {
    ClaudeCode,
    Codex,
    DeepSeek,
    OpenCode,
    Goose,
    Cursor,
    GeminiCli,
    Antigravity,
    Crush,
    KimiCode,
    Human,
    Other(Seq<char>),
}

impl View for Harness {
    type V = HarnessView;

    open spec fn view(&self) -> HarnessView {
        match self {
            Harness::ClaudeCode => HarnessView::ClaudeCode,
            Harness::Codex => HarnessView::Codex,
            Harness::DeepSeek => HarnessView::DeepSeek,
            Harness::OpenCode => HarnessView::OpenCode,
            Harness::Goose => HarnessView::Goose,
            Harness::Cursor => HarnessView::Cursor,
            Harness::GeminiCli => HarnessView::GeminiCli,
            Harness::Antigravity => HarnessView::Antigravity,
            Harness::Crush => HarnessView::Crush,
            Harness::KimiCode => HarnessView::KimiCode,
            Harness::Human => HarnessView::Human,
            Harness::Other(x) => HarnessView::Other(x.deep_view()),
        }
    }
}

impl DeepView for Harness {
    type V = HarnessView;

    open spec fn deep_view(&self) -> HarnessView {
        self.view()
    }
}

impl Clone for Harness {
    fn clone(&self) -> (r: Self)
        ensures
            r@ == self@,
    {
        match self {
            Harness::ClaudeCode => Harness::ClaudeCode,
            Harness::Codex => Harness::Codex,
            Harness::DeepSeek => Harness::DeepSeek,
            Harness::OpenCode => Harness::OpenCode,
            Harness::Goose => Harness::Goose,
            Harness::Cursor => Harness::Cursor,
            Harness::GeminiCli => Harness::GeminiCli,
            Harness::Antigravity => Harness::Antigravity,
            Harness::Crush => Harness::Crush,
            Harness::KimiCode => Harness::KimiCode,
            Harness::Human => Harness::Human,
            Harness::Other(x) => Harness::Other(x.clone()),
        }
    }
}

/// The name of a harness as text: an unknown one verbatim, any other in double
/// quotes.
pub open spec fn harness_text(h: HarnessView) -> Seq<char> {
    match h {
        HarnessView::ClaudeCode => "\"claude_code\""@,
        HarnessView::Codex => "\"codex\""@,
        HarnessView::DeepSeek => "\"deep_seek\""@,
        HarnessView::OpenCode => "\"open_code\""@,
        HarnessView::Goose => "\"goose\""@,
        HarnessView::Cursor => "\"cursor\""@,
        HarnessView::GeminiCli => "\"gemini_cli\""@,
        HarnessView::Antigravity => "\"antigravity\""@,
        HarnessView::Crush => "\"crush\""@,
        HarnessView::KimiCode => "\"kimi_code\""@,
        HarnessView::Human => "\"human\""@,
        HarnessView::Other(name) => name,
    }
}

impl Harness {
    /// A harness by its own name.
    pub fn other(name: &str) -> (r: Self)
        ensures
            r@ == HarnessView::Other(name@),
    {
        Harness::Other(name.to_owned())
    }

    /// The harness as text.
    pub fn to_string(&self) -> (r: String)
        ensures
            r@ == harness_text(self@),
    {
        match self {
            Harness::ClaudeCode => "\"claude_code\"".to_owned(),
            Harness::Codex => "\"codex\"".to_owned(),
            Harness::DeepSeek => "\"deep_seek\"".to_owned(),
            Harness::OpenCode => "\"open_code\"".to_owned(),
            Harness::Goose => "\"goose\"".to_owned(),
            Harness::Cursor => "\"cursor\"".to_owned(),
            Harness::GeminiCli => "\"gemini_cli\"".to_owned(),
            Harness::Antigravity => "\"antigravity\"".to_owned(),
            Harness::Crush => "\"crush\"".to_owned(),
            Harness::KimiCode => "\"kimi_code\"".to_owned(),
            Harness::Human => "\"human\"".to_owned(),
            Harness::Other(name) => name.clone(),
        }
    }
}

/// Lifecycle state of an agent.
#[derive(Debug, Clone, Copy, PartialEq, Eq, Hash, Structural)]
pub enum AgentStatus {
    /// It was heard from recently and holds no task.
    Available,
    /// It was heard from recently and works on a task.
    Busy,
    /// It has gone quiet, though not for long enough to be given up.
    Stale,
    /// It has been silent past the stale window.
    Disconnected,
    /// It was deregistered or taken out by an operator.
    Offline,
}

impl DeepView for AgentStatus {
    type V = AgentStatus;

    open spec fn deep_view(&self) -> AgentStatus {
        *self
    }
}

impl AgentStatus {
    /// Whether the agent can be given work now.
    pub fn can_accept_work(self) -> (r: bool)
        ensures
            r == (self == AgentStatus::Available),
    {
        matches!(self, AgentStatus::Available)
    }

    /// Whether the agent may still be alive.
    pub fn is_live(self) -> (r: bool)
        ensures
            r == (self == AgentStatus::Available || self == AgentStatus::Busy || self
                == AgentStatus::Stale),
    {
        matches!(self, AgentStatus::Available | AgentStatus::Busy | AgentStatus::Stale)
    }

    /// Whether the agent is gone and its claims can be taken back.
    pub fn is_gone(self) -> (r: bool)
        ensures
            r == (self == AgentStatus::Disconnected || self == AgentStatus::Offline),
    {
        matches!(self, AgentStatus::Disconnected | AgentStatus::Offline)
    }
}

/// A worker: one harness, as one process, on one machine.
#[derive(Debug, PartialEq, Eq)]
pub struct Agent {
    /// The agent's identifier.
    pub id: AgentId,
    /// A name for display.
    pub name: String,
    /// The harness it runs in.
    pub harness: Harness,
    /// The model or tier, for attribution only.
    pub model: Option<String>,
    /// What it declares it can do.
    pub capabilities: Vec<Capability>,
    /// The machine it runs on.
    pub machine: MachineId,
    /// Its recorded state.
    pub status: AgentStatus,
    /// The task it is assigned, as a copy for fast lookups.
    pub current_task: Option<TaskId>,
    /// When it was registered.
    pub registered_at: Timestamp,
    /// When it was last heard from.
    pub last_seen: Timestamp,
}

/// What a [`Agent`] holds.
#[verifier::ext_equal]
pub struct AgentView {
    pub id: Seq<char>,
    pub name: Seq<char>,
    pub harness: HarnessView,
    pub model: Option<Seq<char>>,
    pub capabilities: Seq<CapabilityView>,
    pub machine: Seq<char>,
    pub status: AgentStatus,
    pub current_task: Option<Seq<char>>,
    pub registered_at: Timestamp,
    pub last_seen: Timestamp,
}

impl View for Agent {
    type V = AgentView;

    open spec fn view(&self) -> AgentView {
        AgentView {
            id: self.id.deep_view(),
            name: self.name.deep_view(),
            harness: self.harness.deep_view(),
            model: self.model.deep_view(),
            capabilities: self.capabilities.deep_view(),
            machine: self.machine.deep_view(),
            status: self.status,
            current_task: self.current_task.deep_view(),
            registered_at: self.registered_at,
            last_seen: self.last_seen,
        }
    }
}

impl DeepView for Agent {
    type V = AgentView;

    open spec fn deep_view(&self) -> AgentView {
        self.view()
    }
}

impl Clone for Agent {
    fn clone(&self) -> (r: Self)
        ensures
            r@ == self@,
    {
        let r: Agent = Agent {
            id: self.id.clone(),
            name: self.name.clone(),
            harness: self.harness.clone(),
            model: self.model.clone(),
            capabilities: self.capabilities.clone(),
            machine: self.machine.clone(),
            status: self.status,
            current_task: self.current_task.clone(),
            registered_at: self.registered_at,
            last_seen: self.last_seen,
        };
        assert(r.capabilities.deep_view() =~= self.capabilities.deep_view());
        r
    }
}

/// Some declared capability satisfies `need`.
pub open spec fn any_satisfies(have: Seq<CapabilityView>, need: CapabilityView) -> bool {
    exists|i: int| 0 <= i < have.len() && satisfies(#[trigger] have[i], need)
}

/// The whole minutes since an agent was last heard from.
pub open spec fn silence_minutes(now: Timestamp, last_seen: Timestamp) -> int {
    truncating_div(nanos_between(now@, last_seen@), 60_000_000_000)
}

/// The liveness that follows from the whole minutes since the last heartbeat.
pub open spec fn liveness_after(minutes: int) -> AgentStatus {
    if minutes < 30 {
        AgentStatus::Busy
    } else if minutes < 60 {
        AgentStatus::Stale
    } else {
        AgentStatus::Disconnected
    }
}

impl Agent {
    /// Registers an agent as available, with no task.
    pub fn register(
        id: AgentId,
        name: &str,
        harness: Harness,
        machine: MachineId,
        capabilities: Vec<Capability>,
    ) -> (r: Self)
        ensures
            clock_time(r.registered_at@),
            r@ == (AgentView {
                id: id@,
                name: name@,
                harness: harness@,
                model: None,
                capabilities: capabilities.deep_view(),
                machine: machine@,
                status: AgentStatus::Available,
                current_task: None,
                registered_at: r.registered_at,
                last_seen: r.registered_at,
            }),
    {
        let now: Timestamp = Timestamp::now();
        Agent {
            id,
            name: name.to_owned(),
            harness,
            model: None,
            capabilities,
            machine,
            status: AgentStatus::Available,
            current_task: None,
            registered_at: now,
            last_seen: now,
        }
    }

    /// Whether the agent declares a capability that satisfies `required`.
    pub fn has_capability(&self, required: &Capability) -> (r: bool)
        ensures
            r == any_satisfies(self@.capabilities, required@),
    {
        let mut i: usize = 0;
        while i < self.capabilities.len()
            invariant
                i <= self.capabilities.len(),
                forall|j: int|
                    0 <= j < i ==> !satisfies(#[trigger] self@.capabilities[j], required@),
            decreases self.capabilities.len() - i,
        {
            assert(self@.capabilities[i as int] == self.capabilities@[i as int]@);
            if self.capabilities[i].matches(required) {
                return true;
            }
            i += 1;
        }
        false
    }

    /// Whether the agent declares every required capability.
    pub fn has_all_capabilities(&self, required: &[Capability]) -> (r: bool)
        ensures
            r == (forall|k: int|
                0 <= k < required@.len() ==> any_satisfies(
                    self@.capabilities,
                    (#[trigger] required@[k])@,
                )),
    {
        let mut i: usize = 0;
        while i < required.len()
            invariant
                i <= required.len(),
                forall|k: int|
                    0 <= k < i ==> any_satisfies(
                        self@.capabilities,
                        (#[trigger] required@[k])@,
                    ),
            decreases required.len() - i,
        {
            if !self.has_capability(&required[i]) {
                return false;
            }
            i += 1;
        }
        true
    }

    /// Records a heartbeat and returns when the agent was last heard from before.
    pub fn heartbeat(&mut self) -> (previous: Timestamp)
        ensures
            previous == old(self).last_seen,
            clock_time(final(self).last_seen@),
            final(self)@ == (AgentView { last_seen: final(self).last_seen, ..old(self)@ }),
    {
        let previous: Timestamp = self.last_seen;
        self.last_seen = Timestamp::now();
        previous
    }

    /// The liveness of the agent, as it is seen at `now`.
    pub fn liveness_at(&self, now: Timestamp) -> (r: AgentStatus)
        ensures
            r == liveness_after(silence_minutes(now, self@.last_seen)),
    {
        Agent::status_from_heartbeat(now.minutes_since(self.last_seen))
    }

    /// The liveness that follows from the whole minutes since the last heartbeat:
    /// half an hour until the agent is stale, twice that until it is given up.
    pub fn status_from_heartbeat(age_minutes: i64) -> (r: AgentStatus)
        ensures
            r == liveness_after(age_minutes as int),
    {
        if age_minutes < 30 {
            AgentStatus::Busy
        } else if age_minutes < 60 {
            AgentStatus::Stale
        } else {
            AgentStatus::Disconnected
        }
    }
}

/// The longer an agent is silent, the less alive it is taken to be: one that is
/// stale was never busy later, and one that is given up is gone.
pub proof fn law_liveness_only_decays(sooner: int, later: int)
    requires
        sooner <= later,
    ensures
        liveness_after(later) == AgentStatus::Busy ==> liveness_after(sooner) == AgentStatus::Busy,
        liveness_after(sooner) == AgentStatus::Disconnected ==> liveness_after(later)
            == AgentStatus::Disconnected,
{
}

/// An agent that is gone is not live, and one that can be given work is.
pub proof fn law_agent_is_live_or_gone(status: AgentStatus)
    ensures
        (status == AgentStatus::Available || status == AgentStatus::Busy || status
            == AgentStatus::Stale) <==> !(status == AgentStatus::Disconnected || status
            == AgentStatus::Offline),
{
}

/// A machine that agents run on.
#[derive(Debug, PartialEq, Eq)]
pub struct Machine {
    /// The machine's identifier.
    pub id: MachineId,
    /// Its network name.
    pub hostname: String,
    /// A label for display.
    pub label: Option<String>,
    /// When an agent on it was last heard from.
    pub last_seen: Timestamp,
    /// Whether an agent on it was heard from recently.
    pub online: bool,
}

/// What a [`Machine`] holds.
#[verifier::ext_equal]
pub struct MachineView {
    pub id: Seq<char>,
    pub hostname: Seq<char>,
    pub label: Option<Seq<char>>,
    pub last_seen: Timestamp,
    pub online: bool,
}

impl View for Machine {
    type V = MachineView;

    open spec fn view(&self) -> MachineView {
        MachineView {
            id: self.id.deep_view(),
            hostname: self.hostname.deep_view(),
            label: self.label.deep_view(),
            last_seen: self.last_seen,
            online: self.online,
        }
    }
}

impl DeepView for Machine {
    type V = MachineView;

    open spec fn deep_view(&self) -> MachineView {
        self.view()
    }
}

impl Clone for Machine {
    fn clone(&self) -> (r: Self)
        ensures
            r@ == self@,
    {
        let r: Machine = Machine {
            id: self.id.clone(),
            hostname: self.hostname.clone(),
            label: self.label.clone(),
            last_seen: self.last_seen,
            online: self.online,
        };
        r
    }
}

impl Machine {
    /// A machine that just came online.
    pub fn new(id: MachineId, hostname: &str) -> (r: Self)
        ensures
            clock_time(r.last_seen@),
            r@ == (MachineView {
                id: id@,
                hostname: hostname@,
                label: None,
                last_seen: r.last_seen,
                online: true,
            }),
    {
        Machine {
            id,
            hostname: hostname.to_owned(),
            label: None,
            last_seen: Timestamp::now(),
            online: true,
        }
    }
}

/// An agent is busy for half an hour after it was heard of, stale for another half, and
/// disconnected from then on.
pub proof fn law_silence_decides_liveness(minutes: int)
    ensures
        liveness_after(minutes) == AgentStatus::Busy <==> minutes < 30,
        liveness_after(minutes) == AgentStatus::Stale <==> 30 <= minutes < 60,
        liveness_after(minutes) == AgentStatus::Disconnected <==> 60 <= minutes,
{
}

/// Silence is counted in whole minutes: those that have passed in full since the agent
/// was last seen, and none where that lies ahead.
pub proof fn law_silence_is_counted_in_whole_minutes(now: Timestamp, last_seen: Timestamp)
    requires
        now@.1 < 1_000_000_000,
        last_seen@.1 < 1_000_000_000,
    ensures
        ({
            let nanos = (now@.0 - last_seen@.0) * 1_000_000_000 + (now@.1 - last_seen@.1);
            let minutes = silence_minutes(now, last_seen);
            &&& nanos >= 0 ==> minutes * 60_000_000_000 <= nanos < (minutes + 1) * 60_000_000_000
            &&& nanos < 0 ==> minutes <= 0 && (minutes - 1) * 60_000_000_000 < nanos <= minutes
                * 60_000_000_000
        }),
{
}

/// An agent has a capability exactly where one that it was registered with satisfies it.
pub proof fn law_a_capability_is_had_by_one_of_them(
    have: Seq<CapabilityView>,
    need: CapabilityView,
)
    ensures
        any_satisfies(have, need) <==> exists|c: CapabilityView| #[trigger]
            have.contains(c) && satisfies(c, need),
{
    if any_satisfies(have, need) {
        let i = choose|i: int| 0 <= i < have.len() && satisfies(#[trigger] have[i], need);
        assert(have.contains(have[i]));
    }
}

} // verus!
