use director_brain::{
    Action, ActionId, ActionKind, AgentAssignment, AgentId, AssignmentId, ChangedFile, Checkpoint,
    CheckpointId, CommitInfo, ContextSnapshot, Decision, DecisionId, ExpectedOutput, FileChange,
    Handoff, HandoffError, HandoffId, IdGenerator, MachineId, ProjectState, RecentContext,
    ReleaseReason, SessionId, StateComparison, Task, TaskId, TaskStatus, Timestamp,
    CHECKPOINT_FORMAT_VERSION, DEFAULT_MAX_ACTIONS,
};

fn observed(commit: &str, branch: Option<&str>) -> ProjectState {
    ProjectState {
        branch: branch.map(|b| b.to_string()),
        head_commit: commit.to_string(),
        working_tree: vec![],
        recent_commits: vec![],
        test_results: None,
        observed_on: MachineId::from_string("MACH-a"),
        observed_at: Timestamp::now(),
    }
}

fn history(shas: &[&str]) -> Vec<CommitInfo> {
    shas.iter()
        .map(|sha| CommitInfo {
            sha: sha.to_string(),
            summary: "c".into(),
            author: "a".into(),
            committed_at: Timestamp::now(),
            parents: vec![],
            committer: "a".into(),
            message: "c".into(),
        })
        .collect()
}

fn checkpoint() -> Checkpoint {
    Checkpoint::new(
        CheckpointId::from_string("CHK-1"),
        TaskId::from_string("AUTH-42"),
        "auth",
        "did a thing",
        "write tests",
    )
}

#[test]
fn a_checkpoint_of_the_current_head_on_a_clean_tree_is_unchanged() {
    let mut cp = checkpoint();
    cp.commit_sha = Some("abc".into());
    cp.branch = Some("main".into());

    let state = observed("abc", Some("main"));
    assert_eq!(cp.compare_with(&state, &history(&["abc"])), StateComparison::Unchanged);
    assert!(cp.compare_with(&state, &history(&["abc"])).checkpoint_is_current());
}

#[test]
fn a_dirty_tree_on_the_same_head_is_a_working_tree_change() {
    let mut cp = checkpoint();
    cp.commit_sha = Some("abc".into());

    let mut state = observed("abc", Some("main"));
    state.working_tree.push(ChangedFile {
        path: "src/lib.rs".into(),
        change: FileChange::Modified,
    });
    assert_eq!(cp.compare_with(&state, &history(&["abc"])), StateComparison::WorkingTreeChanged);
    assert!(cp.compare_with(&state, &history(&["abc"])).requires_reconciliation());
}

#[test]
fn an_advanced_head_is_detected_when_the_old_commit_remains() {
    let mut cp = checkpoint();
    cp.commit_sha = Some("abc".into());
    cp.branch = Some("main".into());

    let state = observed("def", Some("main"));
    assert_eq!(
        cp.compare_with(&state, &history(&["def", "abc"])),
        StateComparison::HeadAdvanced
    );
}

#[test]
fn a_rebased_away_commit_is_detected_as_gone() {
    let mut cp = checkpoint();
    cp.commit_sha = Some("abc".into());
    cp.branch = Some("main".into());

    let state = observed("def", Some("main"));
    assert_eq!(cp.compare_with(&state, &history(&["def", "xyz"])), StateComparison::CommitGone);
}

#[test]
fn a_branch_change_is_detected() {
    let mut cp = checkpoint();
    cp.commit_sha = Some("abc".into());
    cp.branch = Some("main".into());

    let state = observed("def", Some("feature/auth"));
    assert_eq!(
        cp.compare_with(&state, &history(&["def", "abc"])),
        StateComparison::BranchChanged
    );
}

#[test]
fn a_checkpoint_with_no_recorded_commit_needs_reconciliation_when_dirty() {
    let cp = checkpoint();
    let mut state = observed("abc", Some("main"));
    state.working_tree.push(ChangedFile { path: "x".into(), change: FileChange::Added });
    assert_eq!(cp.compare_with(&state, &[]), StateComparison::WorkingTreeChanged);
}

#[test]
fn a_checkpoint_with_no_recorded_commit_is_current_on_a_clean_tree() {
    assert_eq!(
        checkpoint().compare_with(&observed("abc", Some("main")), &[]),
        StateComparison::Unchanged
    );
}

#[test]
fn matches_commit_is_decisive_and_conservative() {
    let mut cp = Checkpoint::new(
        CheckpointId::from_string("CHK-1"),
        TaskId::from_string("AUTH-42"),
        "auth",
        "p",
        "n",
    );
    assert!(!cp.matches_commit("abc"));
    cp.commit_sha = Some("abc".into());
    assert!(cp.matches_commit("abc"));
    assert!(!cp.matches_commit("def"));
    assert_eq!(cp.context_version, CHECKPOINT_FORMAT_VERSION);
}

fn action(n: u64, kind: ActionKind) -> Action {
    Action::new(
        ActionId::from_string(&format!("ACT-{n}")),
        kind,
        &format!("action {n}"),
    )
}

#[test]
fn a_fresh_context_is_empty() {
    let ctx = RecentContext::for_task(TaskId::from_string("AUTH-42"));
    assert!(ctx.is_empty());
    assert_eq!(ctx.len(), 0);
    assert!(ctx.respects_bound());
    assert_eq!(ctx.max_actions, DEFAULT_MAX_ACTIONS);
}

#[test]
fn pushing_grows_the_window_and_counts() {
    let mut ctx = RecentContext::for_task(TaskId::from_string("AUTH-42"));
    ctx.push(action(1, ActionKind::Command));
    ctx.push(action(2, ActionKind::Command));
    assert_eq!(ctx.len(), 2);
    assert_eq!(ctx.total_recorded, 2);
    assert_eq!(ctx.actions[0].summary, "action 1");
}

#[test]
fn the_window_never_exceeds_its_bound() {
    let mut ctx = RecentContext::new(None, 3);
    for n in 1..=20 {
        ctx.push(action(n, ActionKind::Command));
    }
    assert!(ctx.len() <= 3, "window grew to {}", ctx.len());
    assert!(ctx.respects_bound());
    assert_eq!(ctx.total_recorded, 20);
    assert_eq!(ctx.actions.last().unwrap().summary, "action 20");
}

#[test]
fn compaction_produces_a_summary_and_keeps_accounting() {
    let mut ctx = RecentContext::new(None, 2);
    ctx.push(action(1, ActionKind::Command));
    ctx.push(action(2, ActionKind::Command));
    ctx.push(action(3, ActionKind::Command));

    assert!(ctx.compacted_summary.is_some());
    assert!(ctx.compacted_summary.as_ref().unwrap().contains("action 1"));
    assert_eq!(ctx.total_recorded, 3);
}

#[test]
fn important_actions_are_promoted_not_dropped() {
    let mut ctx = RecentContext::new(None, 2);
    ctx.push(action(1, ActionKind::Error));
    ctx.push(action(2, ActionKind::Error));
    ctx.push(action(3, ActionKind::Error));
    assert_eq!(ctx.len(), 3);
    assert!(ctx.respects_bound());
}

#[test]
fn checkpoints_are_kept_where_commands_are_compacted() {
    let mut ctx = RecentContext::new(None, 2);
    ctx.push(action(1, ActionKind::Checkpoint));
    ctx.push(action(2, ActionKind::Command));
    ctx.push(action(3, ActionKind::Command));
    assert_eq!(ctx.actions[0].summary, "action 1");
    assert_eq!(ctx.total_recorded, 3);
}

#[test]
fn participants_accumulate_without_duplicates() {
    let mut ctx = RecentContext::new(None, 10);
    let mut a1 = action(1, ActionKind::Command);
    a1.agent_id = Some(AgentId::from_string("AGENT-alpha"));
    let mut a2 = action(2, ActionKind::Command);
    a2.agent_id = Some(AgentId::from_string("AGENT-alpha"));
    let mut a3 = action(3, ActionKind::Command);
    a3.agent_id = Some(AgentId::from_string("AGENT-codex"));
    ctx.push(a1);
    ctx.push(a2);
    ctx.push(a3);
    assert_eq!(ctx.participants.len(), 2);
}

#[test]
fn a_snapshot_freezes_the_window() {
    let mut ctx = RecentContext::new(None, 10);
    ctx.push(action(1, ActionKind::Command));
    let snap = ContextSnapshot::from_window(&ctx);
    ctx.push(action(2, ActionKind::Command));
    assert_eq!(snap.actions.len(), 1);
    assert_eq!(ctx.len(), 2);
}

#[test]
fn a_new_decision_stands() {
    let d = Decision::new(DecisionId::from_string("DEC-1"), "use JWTs", "stateless scaling");
    assert!(d.status.stands());
    assert_eq!(d.alternatives_considered, Vec::<String>::new());
}

#[test]
fn a_superseded_decision_no_longer_stands() {
    let mut d = Decision::new(DecisionId::from_string("DEC-1"), "use JWTs", "stateless scaling");
    d.supersede(DecisionId::from_string("DEC-2"));
    assert!(!d.status.stands());
    assert_eq!(d.superseded_by, Some(DecisionId::from_string("DEC-2")));
}

#[test]
fn a_withdrawn_decision_does_not_stand() {
    let mut d = Decision::new(DecisionId::from_string("DEC-1"), "use JWTs", "stateless scaling");
    d.withdraw();
    assert!(!d.status.stands());
}

#[test]
fn provenance_is_optional_and_chainable() {
    let d = Decision::new(DecisionId::from_string("DEC-1"), "use JWTs", "scaling")
        .in_task(TaskId::from_string("AUTH-42"))
        .attributed_to(AgentId::from_string("AGENT-alpha"))
        .considered("server sessions")
        .considered("mTLS");

    assert_eq!(d.task_id, Some(TaskId::from_string("AUTH-42")));
    assert_eq!(d.made_by, Some(AgentId::from_string("AGENT-alpha")));
    assert_eq!(d.alternatives_considered.len(), 2);
}

fn handoff() -> Handoff {
    Handoff::open(
        HandoffId::from_string("HOF-1"),
        TaskId::from_string("AUTH-42"),
        AgentId::from_string("AGENT-alpha"),
        AgentId::from_string("AGENT-codex"),
        "auth mostly done, tests outstanding",
    )
}

#[test]
fn a_new_handoff_is_open() {
    let h = handoff();
    assert!(h.state.is_open());
    assert!(!h.state.was_accepted());
    assert!(h.accepted_at.is_none());
}

#[test]
fn the_intended_agent_can_accept() {
    let mut h = handoff();
    h.accept(AgentId::from_string("AGENT-codex"), SessionId::from_string("SESS-2")).unwrap();
    assert!(h.state.was_accepted());
    assert_eq!(h.accepted_by_session, Some(SessionId::from_string("SESS-2")));
}

#[test]
fn another_agent_cannot_accept() {
    let mut h = handoff();
    let err = h
        .accept(AgentId::from_string("AGENT-deepseek"), SessionId::from_string("SESS-3"))
        .unwrap_err();
    assert_eq!(err, HandoffError::WrongAgent);
    assert!(h.state.is_open());
}

#[test]
fn a_handoff_cannot_be_accepted_twice() {
    let mut h = handoff();
    h.accept(AgentId::from_string("AGENT-codex"), SessionId::from_string("SESS-2")).unwrap();
    let err = h
        .accept(AgentId::from_string("AGENT-codex"), SessionId::from_string("SESS-2"))
        .unwrap_err();
    assert_eq!(err, HandoffError::AlreadyConsumed);
}

#[test]
fn expiring_makes_a_handoff_unacceptable() {
    let mut h = handoff();
    h.expire();
    assert!(!h.state.is_open());
    assert!(h
        .accept(AgentId::from_string("AGENT-codex"), SessionId::from_string("SESS-2"))
        .is_err());
}

#[test]
fn a_handoff_accumulates_next_steps_questions_and_files() {
    let h = handoff()
        .from(SessionId::from_string("SESS-1"))
        .and_then("write the login test")
        .asking("do we support SSO?")
        .touched("src/auth/login.rs");

    assert_eq!(h.from_session, Some(SessionId::from_string("SESS-1")));
    assert_eq!(h.next_steps, vec!["write the login test"]);
    assert_eq!(h.open_questions, vec!["do we support SSO?"]);
    assert_eq!(h.files_touched, vec!["src/auth/login.rs"]);
}

#[test]
fn handoff_errors_have_readable_messages() {
    assert_eq!(HandoffError::AlreadyConsumed.to_string(), "handoff is no longer open");
    assert_eq!(
        HandoffError::WrongAgent.to_string(),
        "handoff is addressed to a different agent"
    );
}

fn takes_task(_id: TaskId) {}

fn takes_agent(_id: AgentId) {}

fn takes_checkpoint(_id: CheckpointId) {}

#[test]
fn task_and_agent_ids_are_distinct_types() {
    let task = TaskId::from_string("AUTH-42");
    let agent = AgentId::from_string("AGENT-1");
    takes_task(task);
    takes_agent(agent);
}

#[test]
fn id_generator_is_monotonic_per_kind() {
    let mut gen = IdGenerator::new();
    let t1: TaskId = gen.next("auth");
    let t2: TaskId = gen.next("auth");
    let a1: AgentId = gen.next("alpha");
    let a2: AgentId = gen.next("codex");

    assert_eq!(t1.as_str(), "TASK-auth-1");
    assert_eq!(t2.as_str(), "TASK-auth-2");
    assert_eq!(a1.as_str(), "AGENT-alpha-1");
    assert_eq!(a2.as_str(), "AGENT-codex-2");
}

#[test]
fn ids_display_as_their_raw_string() {
    assert_eq!(TaskId::from_string("AUTH-42").to_string(), "AUTH-42");
}

#[test]
fn identity_newtypes_are_not_interchangeable() {
    takes_task(TaskId::from_string("AUTH-42"));
    takes_agent(AgentId::from_string("AGENT-1"));
    takes_checkpoint(CheckpointId::from_string("CHK-1"));
}

#[test]
fn task_identity_survives_reassignment_across_agents() {
    let task_id = TaskId::from_string("AUTH-42");
    let alpha = AgentId::from_string("AGENT-alpha");
    let codex = AgentId::from_string("AGENT-codex");
    let deepseek = AgentId::from_string("AGENT-deepseek");

    let task = Task::new(task_id.clone(), "Auth", "Build login");
    assert_eq!(task.status, TaskStatus::Backlog);

    let mut a1 = AgentAssignment::propose(
        AssignmentId::from_string("ASG-1"),
        task_id.clone(),
        alpha.clone(),
    );
    a1.activate(SessionId::from_string("SESS-1"));
    a1.release(ReleaseReason::Reassigned);

    let mut a2 = AgentAssignment::propose(
        AssignmentId::from_string("ASG-2"),
        task_id.clone(),
        codex.clone(),
    );
    a2.activate(SessionId::from_string("SESS-2"));
    a2.release(ReleaseReason::AgentCrashed);

    let mut a3 =
        AgentAssignment::propose(AssignmentId::from_string("ASG-3"), task_id.clone(), deepseek);
    a3.activate(SessionId::from_string("SESS-3"));

    assert_eq!(task.id, task_id);
    assert_eq!(task.status, TaskStatus::Backlog);

    let history = [&a1, &a2, &a3];
    assert_eq!(history.iter().filter(|a| a.was_held_by(&alpha)).count(), 1);
    assert_eq!(history.iter().filter(|a| a.was_held_by(&codex)).count(), 1);
    assert!(a3.is_active());
}

#[test]
fn reassigning_a_task_preserves_its_fields() {
    let task_id = TaskId::from_string("AUTH-42");
    let mut task = Task::new(task_id.clone(), "Auth", "Build login");
    task.status = TaskStatus::InProgress;
    task.expected_outputs.push(ExpectedOutput {
        criterion: "login works".into(),
        check: Some("cargo test".into()),
    });
    let snapshot = task.clone();

    let _assignment = AgentAssignment::propose(
        AssignmentId::from_string("ASG-1"),
        task_id,
        AgentId::from_string("AGENT-alpha"),
    );

    assert_eq!(task.id, snapshot.id);
    assert_eq!(task.status, snapshot.status);
    assert_eq!(task.expected_outputs, snapshot.expected_outputs);
}

#[test]
fn assignment_history_is_retained_after_release() {
    let task_id = TaskId::from_string("AUTH-42");
    let mut history = Vec::new();

    for (i, agent) in ["alpha", "codex", "deepseek", "human"].iter().enumerate() {
        let mut a = AgentAssignment::propose(
            AssignmentId::from_string(&format!("ASG-{}", i + 1)),
            task_id.clone(),
            AgentId::from_string(&format!("AGENT-{agent}")),
        );
        a.release(ReleaseReason::Reassigned);
        history.push(a);
    }

    assert_eq!(history.len(), 4);
    assert!(history.iter().all(|a| !a.is_active()));
    assert!(history.iter().all(|a| a.release_reason == Some(ReleaseReason::Reassigned)));
    assert!(history.iter().all(|a| a.task_id == task_id));
}

#[test]
fn a_context_for_no_task_has_the_usual_bound() {
    let ctx = RecentContext::unbounded_from_task();
    assert!(ctx.is_empty());
    assert_eq!(ctx.task_id, None);
    assert_eq!(ctx.max_actions, 50);
}

#[test]
fn a_routine_action_is_folded_where_evidence_fills_the_window() {
    let mut ctx = RecentContext::new(None, 2);
    ctx.push(action(1, ActionKind::Error));
    ctx.push(action(2, ActionKind::Error));
    ctx.push(action(3, ActionKind::Command));
    assert!(ctx.respects_bound());
    assert_eq!(ctx.len(), 2);
    assert!(ctx.compacted_summary.as_ref().unwrap().contains("action 3"));
    assert_eq!(ctx.total_recorded, 3);
    ctx.push(action(4, ActionKind::Error));
    assert_eq!(ctx.len(), 3);
    assert!(ctx.respects_bound());
    assert_eq!(ctx.actions.last().unwrap().summary, "action 4");
    assert_eq!(ctx.total_recorded, 4);
}

#[test]
fn a_cloned_generator_goes_on_by_itself() {
    let mut gen = IdGenerator::default();
    let first: TaskId = gen.next("auth");
    assert_eq!(first.as_str(), "TASK-auth-1");
    let mut other = gen.clone();
    let a: TaskId = gen.next("auth");
    let b: TaskId = other.next("auth");
    let c: AgentId = other.next("alpha");
    assert_eq!((a.as_str(), b.as_str(), c.as_str()), ("TASK-auth-2", "TASK-auth-2", "AGENT-alpha-1"));
}
