use director_brain::{
    Action, ActionId, ActionKind, Agent, AgentAssignment, AgentId, AgentStatus, AssignmentId,
    AssignmentStatus, Blocker, BlockerId, BlockerKind, BlockerStatus, Capability, Harness,
    Machine, MachineId, ReleaseReason, SessionId, TaskId, Timestamp,
};

#[test]
fn errors_and_checkpoints_outrank_routine_work() {
    assert!(ActionKind::Error.importance() > ActionKind::ToolCall.importance());
    assert!(ActionKind::Checkpoint.importance() > ActionKind::Command.importance());
    assert!(ActionKind::Prompt.importance() > ActionKind::Note.importance());
}

#[test]
fn an_action_can_be_scoped_after_construction() {
    let a = Action::new(ActionId::from_string("ACT-1"), ActionKind::Command, "ran cargo test")
        .for_task(TaskId::from_string("AUTH-42"))
        .attributed_to(AgentId::from_string("AGENT-alpha"), SessionId::from_string("SESS-1"));

    assert_eq!(a.task_id, Some(TaskId::from_string("AUTH-42")));
    assert_eq!(a.agent_id, Some(AgentId::from_string("AGENT-alpha")));
    assert_eq!(a.session_id, Some(SessionId::from_string("SESS-1")));
    assert!(a.detail.is_none());
}

#[test]
fn action_kinds_have_names_and_weights() {
    assert_eq!(ActionKind::ToolCall.to_string(), "tool-call");
    assert_eq!(ActionKind::FileChange.to_string(), "file-change");
    assert_eq!(ActionKind::Error.importance(), 5);
    assert_eq!(ActionKind::Checkpoint.importance(), 4);
    assert_eq!(ActionKind::FileChange.importance(), 1);
}

fn agent(caps: Vec<Capability>) -> Agent {
    Agent::register(
        AgentId::from_string("AGENT-1"),
        "alpha-a",
        Harness::ClaudeCode,
        MachineId::from_string("MACH-a"),
        caps,
    )
}

#[test]
fn a_registered_agent_is_available_with_no_task() {
    let a = agent(vec![Capability::Coding]);
    assert_eq!(a.status, AgentStatus::Available);
    assert!(a.current_task.is_none());
    assert!(a.status.can_accept_work());
}

#[test]
fn capability_matching_is_used_for_assignment_eligibility() {
    let generalist = agent(vec![Capability::Coding]);
    let specialist = agent(vec![Capability::Database]);

    assert!(generalist.has_all_capabilities(&[Capability::Database]));
    assert!(specialist.has_all_capabilities(&[Capability::Database]));
    assert!(!specialist.has_all_capabilities(&[Capability::Frontend]));
}

#[test]
fn heartbeat_advances_last_seen() {
    let mut a = agent(vec![]);
    let before = a.last_seen;
    while !before.is_before(Timestamp::now()) {}
    let previous = a.heartbeat();
    assert_eq!(previous, before);
    assert!(before.is_before(a.last_seen));
}

#[test]
fn liveness_windows_follow_the_substrate_convention() {
    assert_eq!(Agent::status_from_heartbeat(5), AgentStatus::Busy);
    assert_eq!(Agent::status_from_heartbeat(45), AgentStatus::Stale);
    assert_eq!(Agent::status_from_heartbeat(90), AgentStatus::Disconnected);
}

#[test]
fn liveness_follows_from_the_time_of_the_last_heartbeat() {
    let mut a = agent(vec![]);
    a.last_seen = Timestamp::from_unix(1_000_000, 0).unwrap();
    let at = |secs: i64, nanos: u32| Timestamp::from_unix(1_000_000 + secs, nanos).unwrap();
    assert_eq!(a.liveness_at(at(0, 0)), AgentStatus::Busy);
    assert_eq!(a.liveness_at(at(29 * 60 + 59, 999_999_999)), AgentStatus::Busy);
    assert_eq!(a.liveness_at(at(45 * 60, 0)), AgentStatus::Stale);
    assert_eq!(a.liveness_at(at(90 * 60, 0)), AgentStatus::Disconnected);
}

#[test]
fn gone_agents_cannot_accept_work() {
    assert!(AgentStatus::Available.can_accept_work());
    assert!(!AgentStatus::Busy.can_accept_work());
    assert!(!AgentStatus::Stale.can_accept_work());
    assert!(!AgentStatus::Disconnected.can_accept_work());
    assert!(!AgentStatus::Offline.can_accept_work());

    assert!(AgentStatus::Stale.is_live());
    assert!(AgentStatus::Disconnected.is_gone());
    assert!(AgentStatus::Offline.is_gone());
}

#[test]
fn harnesses_and_machines_are_named() {
    assert_eq!(Harness::other("kimi-cli"), Harness::Other("kimi-cli".to_string()));
    assert_eq!(Harness::Codex.to_string(), "\"codex\"");
    let machine = Machine::new(MachineId::from_string("MACH-a"), "workstation");
    assert_eq!(machine.hostname, "workstation");
    assert!(machine.online);
    assert!(machine.label.is_none());
}

fn task() -> TaskId {
    TaskId::from_string("AUTH-42")
}

#[test]
fn a_proposed_assignment_is_not_active() {
    let a = AgentAssignment::propose(
        AssignmentId::from_string("ASG-1"),
        task(),
        AgentId::from_string("AGENT-alpha"),
    );
    assert!(!a.is_active());
    assert_eq!(a.status, AssignmentStatus::Proposed);
}

#[test]
fn activation_records_the_session() {
    let mut a = AgentAssignment::propose(
        AssignmentId::from_string("ASG-1"),
        task(),
        AgentId::from_string("AGENT-alpha"),
    );
    a.activate(SessionId::from_string("SESS-1"));
    assert!(a.is_active());
    assert_eq!(a.session_id, Some(SessionId::from_string("SESS-1")));
}

#[test]
fn release_records_reason_and_time() {
    let mut a = AgentAssignment::propose(
        AssignmentId::from_string("ASG-1"),
        task(),
        AgentId::from_string("AGENT-alpha"),
    );
    a.activate(SessionId::from_string("SESS-1"));
    a.release(ReleaseReason::AgentCrashed);

    assert!(!a.is_active());
    assert_eq!(a.release_reason, Some(ReleaseReason::AgentCrashed));
    assert!(a.released_at.is_some());
}

#[test]
fn the_same_task_can_be_assigned_to_three_different_agents() {
    let t = task();
    let a = AgentAssignment::propose(
        AssignmentId::from_string("ASG-1"),
        t.clone(),
        AgentId::from_string("AGENT-alpha"),
    );
    let b = AgentAssignment::propose(
        AssignmentId::from_string("ASG-2"),
        t.clone(),
        AgentId::from_string("AGENT-codex"),
    );
    let c = AgentAssignment::propose(
        AssignmentId::from_string("ASG-3"),
        t,
        AgentId::from_string("AGENT-deepseek"),
    );

    assert_eq!(a.task_id, b.task_id);
    assert_eq!(b.task_id, c.task_id);
    assert_ne!(a.agent_id, b.agent_id);
    assert_ne!(b.agent_id, c.agent_id);

    assert!(a.was_held_by(&AgentId::from_string("AGENT-alpha")));
    assert!(!a.was_held_by(&AgentId::from_string("AGENT-codex")));
}

#[test]
fn a_raised_blocker_is_open_and_blocking() {
    let b = Blocker::raise(
        BlockerId::from_string("BLK-1"),
        TaskId::from_string("AUTH-42"),
        BlockerKind::External,
        "need SSO credentials",
    );
    assert!(b.status.is_blocking());
    assert!(b.resolution.is_none());
}

#[test]
fn resolving_clears_the_blocker_and_records_when() {
    let mut b = Blocker::raise(
        BlockerId::from_string("BLK-1"),
        TaskId::from_string("AUTH-42"),
        BlockerKind::External,
        "need SSO credentials",
    );
    b.resolve();
    assert!(!b.status.is_blocking());
    assert!(b.resolved_at.is_some());
}

#[test]
fn obsoleting_is_distinct_from_resolving() {
    let mut b = Blocker::raise(
        BlockerId::from_string("BLK-1"),
        TaskId::from_string("AUTH-42"),
        BlockerKind::Dependency,
        "waiting on AUTH-1",
    );
    b.make_obsolete();
    assert!(!b.status.is_blocking());
    assert_eq!(b.status, BlockerStatus::Obsolete);
}

#[test]
fn provenance_and_resolution_are_chainable() {
    let b = Blocker::raise(
        BlockerId::from_string("BLK-1"),
        TaskId::from_string("AUTH-42"),
        BlockerKind::Unknown,
        "flaky on windows",
    )
    .attributed_to(AgentId::from_string("AGENT-codex"))
    .resolvable_by("reproduce on a clean runner");

    assert_eq!(b.raised_by, Some(AgentId::from_string("AGENT-codex")));
    assert_eq!(b.resolution, Some("reproduce on a clean runner".into()));
}

#[test]
fn exact_capabilities_match() {
    assert!(Capability::Testing.matches(&Capability::Testing));
    assert!(Capability::Database.matches(&Capability::Database));
}

#[test]
fn mismatched_capabilities_do_not_match() {
    assert!(!Capability::Frontend.matches(&Capability::Backend));
}

#[test]
fn coding_is_a_generalist_super_capability() {
    assert!(Capability::Coding.matches(&Capability::Database));
    assert!(Capability::Coding.matches(&Capability::Security));
}

#[test]
fn only_a_human_satisfies_a_human_requirement() {
    assert!(Capability::Human.matches(&Capability::Human));
    assert!(!Capability::Coding.matches(&Capability::Human));
    assert!(!Capability::Backend.matches(&Capability::Human));
}

#[test]
fn custom_capabilities_match_case_insensitively() {
    assert!(Capability::Custom("Payments".into()).matches(&Capability::Custom("payments".into())));
    assert!(!Capability::Custom("Payments".into()).matches(&Capability::Custom("Billing".into())));
}

#[test]
fn custom_capabilities_ignore_surrounding_space() {
    assert!(
        Capability::Custom("  Payments ".into()).matches(&Capability::Custom("payments".into()))
    );
    assert_eq!(Capability::Coding.to_string(), "\"coding\"");
}
