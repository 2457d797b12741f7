use director_brain::{
    AgentId, AgentSession, ChangedFile, CommandOutcome, Complexity, DefaultBranch, FileChange,
    MachineId, MemoryQuery, Plan, PlanId, PlanStatus, Priority, Project, ProjectId, ProjectState,
    ProviderError, SessionEnd, SessionId, SessionStatus, StateComparison, Task, TaskId,
    TaskStatus, Timestamp,
};
use std::collections::HashMap;

fn plan() -> Plan {
    Plan::draft(
        PlanId::from_string("PLAN-1"),
        ProjectId::from_string("PROJ-x"),
        "ship auth",
        "login first, then sessions",
    )
}

#[test]
fn a_new_plan_is_a_draft_and_not_authoritative() {
    let p = plan();
    assert_eq!(p.status, PlanStatus::Draft);
    assert!(!p.status.is_authoritative());
    assert!(!p.status.is_historical());
}

#[test]
fn activation_records_the_planner() {
    let mut p = plan();
    p.activate(AgentId::from_string("AGENT-alpha"));
    assert!(p.status.is_authoritative());
    assert_eq!(p.created_by, Some(AgentId::from_string("AGENT-alpha")));
}

#[test]
fn supersession_links_both_ways() {
    let mut old = plan();
    old.activate(AgentId::from_string("AGENT-alpha"));
    let link = old.supersede(PlanId::from_string("PLAN-2"));
    assert!(old.status.is_historical());
    assert!(!old.status.is_authoritative());
    assert_eq!(old.superseded_by, Some(PlanId::from_string("PLAN-2")));
    assert_eq!(link, PlanId::from_string("PLAN-1"));
}

#[test]
fn tasks_are_added_once_and_in_order() {
    let mut p = plan();
    p.add_task(TaskId::from_string("AUTH-1"));
    p.add_task(TaskId::from_string("AUTH-2"));
    p.add_task(TaskId::from_string("AUTH-1"));
    assert_eq!(
        p.task_ids,
        vec![TaskId::from_string("AUTH-1"), TaskId::from_string("AUTH-2")]
    );
}

#[test]
fn a_new_project_defaults_to_main() {
    let p = Project::new(
        ProjectId::from_string("PROJ-checkout"),
        "checkout-service",
        "/repo/checkout",
    );
    assert_eq!(p.default_branch.to_string(), "main");
    assert_eq!(p.name, "checkout-service");
}

#[test]
fn named_default_branches_display_verbatim() {
    assert_eq!(DefaultBranch::Named("trunk".into()).to_string(), "trunk");
    assert_eq!(DefaultBranch::Master.to_string(), "master");
}

#[test]
fn a_query_caps_results() {
    let q = MemoryQuery::new("login auth", 5);
    assert_eq!(q.text, "login auth");
    assert_eq!(q.limit, 5);
    assert!(q.tags.is_empty());
}

#[test]
fn command_success_is_exit_zero_without_timeout() {
    let ok = CommandOutcome {
        exit_code: 0,
        stdout: "1 passed".into(),
        stderr: String::new(),
        timed_out: false,
    };
    let fail = CommandOutcome {
        exit_code: 1,
        stdout: String::new(),
        stderr: "1 failed".into(),
        timed_out: false,
    };
    let hang = CommandOutcome {
        exit_code: 0,
        stdout: String::new(),
        stderr: String::new(),
        timed_out: true,
    };
    assert!(ok.succeeded());
    assert!(!fail.succeeded());
    assert!(!hang.succeeded(), "a timed-out command is not a success");
}

#[test]
fn provider_errors_have_readable_messages() {
    let e = ProviderError::NotFound("TASK-42".into());
    assert!(e.to_string().contains("TASK-42"));
    assert!(ProviderError::Conflict("lease held".into()).to_string().contains("conflict"));
    assert!(ProviderError::Unsupported("x".into()).to_string().contains("unsupported"));
    assert!(ProviderError::Transport("connection reset".into()).to_string().contains("transport"));
}

fn session() -> AgentSession {
    AgentSession::start(
        SessionId::from_string("SESS-1"),
        AgentId::from_string("AGENT-1"),
        MachineId::from_string("MACH-a"),
        Some(TaskId::from_string("AUTH-42")),
    )
}

#[test]
fn a_started_session_is_active() {
    let s = session();
    assert_eq!(s.status, SessionStatus::Active);
    assert!(s.status.is_live());
    assert!(s.ended_at.is_none());
}

#[test]
fn a_clean_close_records_the_reason() {
    let mut s = session();
    s.close(SessionEnd::Clean);
    assert_eq!(s.status, SessionStatus::Closed);
    assert!(!s.status.is_live());
    assert_eq!(s.end, Some(SessionEnd::Clean));
    assert!(!s.ended_uncleanly());
}

#[test]
fn a_vanished_session_is_flagged_unclean() {
    let mut s = session();
    s.close(SessionEnd::Vanished);
    assert!(s.ended_uncleanly());
}

#[test]
fn context_exhaustion_is_not_an_unclean_end() {
    let mut s = session();
    s.close(SessionEnd::ContextExhausted);
    assert!(!s.ended_uncleanly());
}

#[test]
fn fork_records_parent_lineage_and_inherits_scope() {
    let mut parent = session();
    parent.workdir = Some("/repo".into());
    let child = parent.fork(SessionId::from_string("SESS-2"));

    assert_eq!(child.parent_session_id, Some(SessionId::from_string("SESS-1")));
    assert_eq!(child.workdir, Some("/repo".into()));
    assert_eq!(child.task_id, parent.task_id);
    assert_ne!(child.id, parent.id);
}

fn state(commit: &str) -> ProjectState {
    ProjectState {
        branch: Some("main".into()),
        head_commit: commit.into(),
        working_tree: vec![],
        recent_commits: vec![],
        test_results: None,
        observed_on: MachineId::from_string("MACH-a"),
        observed_at: Timestamp::now(),
    }
}

#[test]
fn clean_state_is_not_dirty() {
    assert!(!state("a").is_dirty());
}

#[test]
fn dirty_state_reports_changed_paths() {
    let mut s = state("a");
    s.working_tree.push(ChangedFile { path: "src/lib.rs".into(), change: FileChange::Modified });
    assert!(s.is_dirty());
    assert_eq!(s.changed_paths(), vec!["src/lib.rs"]);
}

#[test]
fn unchanged_is_the_only_current_comparison() {
    assert!(StateComparison::Unchanged.checkpoint_is_current());
    assert!(!StateComparison::WorkingTreeChanged.checkpoint_is_current());
    assert!(!StateComparison::HeadAdvanced.checkpoint_is_current());
    assert!(!StateComparison::BranchChanged.checkpoint_is_current());
    assert!(!StateComparison::CommitGone.checkpoint_is_current());
}

#[test]
fn every_non_unchanged_comparison_requires_reconciliation() {
    assert!(!StateComparison::Unchanged.requires_reconciliation());
    assert!(StateComparison::WorkingTreeChanged.requires_reconciliation());
    assert!(StateComparison::HeadAdvanced.requires_reconciliation());
    assert!(StateComparison::BranchChanged.requires_reconciliation());
    assert!(StateComparison::CommitGone.requires_reconciliation());
}

#[test]
fn a_new_task_has_no_agent() {
    let t = Task::new(TaskId::from_string("AUTH-42"), "Auth", "Build login");
    assert_eq!(t.status, TaskStatus::Backlog);
    assert!(t.dependencies.is_empty());
    assert!(t.subtasks.is_empty());
}

#[test]
fn done_is_not_reachable_by_agent_report() {
    assert!(!TaskStatus::Done.reachable_by_agent_report());
    assert!(TaskStatus::VerificationPending.reachable_by_agent_report());
}

#[test]
fn open_and_terminal_partition_the_lifecycle() {
    assert!(TaskStatus::Todo.is_open());
    assert!(!TaskStatus::Todo.is_terminal());
    assert!(TaskStatus::Done.is_terminal());
    assert!(!TaskStatus::Done.is_open());
    assert!(TaskStatus::Failed.is_terminal());
    assert!(TaskStatus::Cancelled.is_terminal());
}

#[test]
fn readiness_follows_terminal_dependencies() {
    let mut t = Task::new(TaskId::from_string("AUTH-42"), "Auth", "Build login");
    t.dependencies = vec![TaskId::from_string("DB-1"), TaskId::from_string("DB-2")];

    let mut statuses = HashMap::new();
    assert!(!t.is_ready_given(|id| statuses.get(id).copied()));
    statuses.insert(TaskId::from_string("DB-1"), TaskStatus::Done);
    assert!(!t.is_ready_given(|id| statuses.get(id).copied()));
    statuses.insert(TaskId::from_string("DB-2"), TaskStatus::Done);
    assert!(t.is_ready_given(|id| statuses.get(id).copied()));
}

#[test]
fn a_failed_dependency_blocks_readiness() {
    let mut t = Task::new(TaskId::from_string("AUTH-42"), "Auth", "Build login");
    t.dependencies = vec![TaskId::from_string("DB-1")];

    let failed: HashMap<TaskId, TaskStatus> =
        [(TaskId::from_string("DB-1"), TaskStatus::Failed)].into_iter().collect();
    assert!(!t.is_ready_given(|id| failed.get(id).copied()));

    let done: HashMap<TaskId, TaskStatus> =
        [(TaskId::from_string("DB-1"), TaskStatus::Done)].into_iter().collect();
    assert!(t.is_ready_given(|id| done.get(id).copied()));
}

#[test]
fn an_unknown_dependency_blocks_readiness() {
    let mut t = Task::new(TaskId::from_string("AUTH-42"), "Auth", "Build login");
    t.dependencies = vec![TaskId::from_string("MISSING-1")];
    assert!(!t.is_ready_given(|_| None));
}

#[test]
fn scope_overlap_is_symmetric_and_path_aware() {
    let mut a = Task::new(TaskId::from_string("A"), "A", "A");
    let mut b = Task::new(TaskId::from_string("B"), "B", "B");
    a.scope_paths = vec!["src/auth/".into()];
    b.scope_paths = vec!["src/auth/login.rs".into()];
    assert!(a.overlaps_scope(&b));
    assert!(b.overlaps_scope(&a));
}

#[test]
fn a_common_beginning_of_a_name_is_no_overlap() {
    let mut a = Task::new(TaskId::from_string("A"), "A", "A");
    let mut b = Task::new(TaskId::from_string("B"), "B", "B");
    a.scope_paths = vec!["src/auth".into()];
    b.scope_paths = vec!["src/authority.rs".into()];
    assert!(!a.overlaps_scope(&b));
    b.scope_paths.push("src/auth//".into());
    assert!(a.overlaps_scope(&b));
}

#[test]
fn disjoint_scopes_do_not_overlap() {
    let mut a = Task::new(TaskId::from_string("A"), "A", "A");
    let mut b = Task::new(TaskId::from_string("B"), "B", "B");
    a.scope_paths = vec!["src/auth/".into()];
    b.scope_paths = vec!["src/db/".into()];
    assert!(!a.overlaps_scope(&b));
}

#[test]
fn a_task_does_not_overlap_itself() {
    let mut a = Task::new(TaskId::from_string("A"), "A", "A");
    a.scope_paths = vec!["src/".into()];
    assert!(!a.overlaps_scope(&a));
}

#[test]
fn priority_and_complexity_order_sensibly() {
    assert!(Priority::Critical.rank() < Priority::Low.rank());
    assert!(Complexity::Trivial.weight() < Complexity::Large.weight());
    assert_eq!(Complexity::Unknown.weight(), 16);
}

#[test]
fn priorities_have_names() {
    assert_eq!(Priority::Critical.to_string(), "critical");
    assert_eq!(Priority::Low.to_string(), "low");
    assert_eq!(Priority::Critical.rank(), 0);
}

#[test]
fn a_change_is_stamped_with_the_clock() {
    let past = Timestamp::from_unix(-1, 0).unwrap();
    let mut p = plan();
    p.touch_at(past);
    assert_eq!(p.updated_at, past);
    p.touch();
    assert!(past.is_before(p.updated_at));
    assert!(p.updated_at.unix_secs() >= 0);
    assert_eq!(p.objective, "ship auth");

    let mut project = Project::new(ProjectId::from_string("PROJ-x"), "x", "/repo/x");
    project.touch_at(past);
    assert_eq!(project.updated_at, past);
    project.touch();
    assert!(past.is_before(project.updated_at));

    let mut t = Task::new(TaskId::from_string("AUTH-42"), "Auth", "Build login");
    t.touch_at(past);
    assert_eq!(t.updated_at, past);
    t.touch();
    assert!(past.is_before(t.updated_at));
    assert_eq!(t.status, TaskStatus::Backlog);
}
