use director_brain::path::PathStyle;
use director_brain::{
    Agent, AgentId, AgentSession, AgentStatus, Handoff, HandoffId, Harness, InMemoryError,
    InMemoryProvider, MachineId, Memory, MemoryQuery, Project, ProjectId, ProjectState,
    ProviderError, SessionEnd, SessionId, SessionStatus, Task, TaskId, TaskStatus, Timestamp,
};
use std::path::Path;

fn task(id: &str) -> Task {
    Task::new(TaskId::from_string(id), id, "objective")
}

fn ready(p: &InMemoryProvider) -> Vec<TaskId> {
    p.ready_tasks().unwrap().into_iter().map(|t| t.id).collect()
}

#[test]
fn a_task_can_be_created_and_fetched() {
    let mut p = InMemoryProvider::new();
    let created = p.create_task(task("TASK-1")).unwrap();
    let fetched = p.get_task(&TaskId::from_string("TASK-1")).unwrap();
    assert_eq!(created, fetched.unwrap());
    assert_eq!(p.task_count(), 1);
}

#[test]
fn duplicate_task_creation_is_rejected() {
    let mut p = InMemoryProvider::new();
    p.create_task(task("TASK-1")).unwrap();
    let err = p.create_task(task("TASK-1")).unwrap_err();
    assert!(matches!(err, InMemoryError::AlreadyExists(_)));
    assert_eq!(ProviderError::from(err), ProviderError::Conflict("TASK-1".into()));
}

#[test]
fn a_missing_task_is_none_not_an_error() {
    let p = InMemoryProvider::new();
    assert!(p.get_task(&TaskId::from_string("nope")).unwrap().is_none());
}

#[test]
fn status_changes_are_persisted() {
    let mut p = InMemoryProvider::new();
    p.create_task(task("TASK-1")).unwrap();
    p.set_task_status(&TaskId::from_string("TASK-1"), TaskStatus::InProgress).unwrap();
    let t = p.get_task(&TaskId::from_string("TASK-1")).unwrap().unwrap();
    assert_eq!(t.status, TaskStatus::InProgress);
}

#[test]
fn readiness_follows_dependencies() {
    let mut p = InMemoryProvider::new();
    p.create_task(task("DB-1")).unwrap();
    p.create_task(task("AUTH-1")).unwrap();
    p.add_dependency(&TaskId::from_string("AUTH-1"), &TaskId::from_string("DB-1")).unwrap();

    assert_eq!(ready(&p), vec![TaskId::from_string("DB-1")]);

    p.set_task_status(&TaskId::from_string("DB-1"), TaskStatus::Done).unwrap();
    assert_eq!(ready(&p), vec![TaskId::from_string("AUTH-1")]);
}

#[test]
fn a_completed_task_is_not_ready_again() {
    let mut p = InMemoryProvider::new();
    p.create_task(task("AUTH-1")).unwrap();
    p.set_task_status(&TaskId::from_string("AUTH-1"), TaskStatus::Done).unwrap();
    assert!(p.ready_tasks().unwrap().is_empty());
}

#[test]
fn missing_records_cannot_be_changed() {
    let mut p = InMemoryProvider::new();
    let id = TaskId::from_string("nope");
    assert_eq!(
        p.set_task_status(&id, TaskStatus::Todo).unwrap_err(),
        InMemoryError::NotFound("nope".into())
    );
    assert!(p.update_task(task("nope")).is_err());
    assert!(p.add_dependency(&id, &id).is_err());
    assert!(p.heartbeat(&AgentId::from_string("nope")).is_err());
    assert!(p.close_session(&SessionId::from_string("nope"), SessionEnd::Clean).is_err());
    assert_eq!(InMemoryError::NotFound("nope".into()).to_string(), "not found: nope");
    assert_eq!(InMemoryError::AlreadyExists("x".into()).to_string(), "already exists: x");
}

#[test]
fn an_agent_registers_and_heartbeats() {
    let mut p = InMemoryProvider::new();
    let agent = Agent::register(
        AgentId::from_string("AGENT-1"),
        "alpha",
        Harness::ClaudeCode,
        MachineId::from_string("MACH-a"),
        vec![],
    );
    p.register_agent(agent).unwrap();

    assert_eq!(p.available_agents().unwrap().len(), 1);

    let status = p.heartbeat(&AgentId::from_string("AGENT-1")).unwrap();
    assert_eq!(status, AgentStatus::Busy);
    let recorded = p.get_agent(&AgentId::from_string("AGENT-1")).unwrap().unwrap();
    assert_eq!(recorded.status, AgentStatus::Available);

    p.set_agent_status(&AgentId::from_string("AGENT-1"), AgentStatus::Offline).unwrap();
    assert!(p.available_agents().unwrap().is_empty());
}

#[test]
fn sessions_accumulate_per_task() {
    let mut p = InMemoryProvider::new();
    let s1 = AgentSession::start(
        SessionId::from_string("SESS-1"),
        AgentId::from_string("AGENT-1"),
        MachineId::from_string("MACH-a"),
        Some(TaskId::from_string("AUTH-1")),
    );
    p.start_session(s1).unwrap();
    let child = p
        .fork_session(&SessionId::from_string("SESS-1"), SessionId::from_string("SESS-2"))
        .unwrap();
    assert_eq!(child.parent_session_id, Some(SessionId::from_string("SESS-1")));

    let for_task = p.sessions_for_task(&TaskId::from_string("AUTH-1")).unwrap();
    assert_eq!(for_task.len(), 2);

    p.close_session(&SessionId::from_string("SESS-1"), SessionEnd::Clean).unwrap();
    assert_eq!(
        p.get_session(&SessionId::from_string("SESS-1")).unwrap().unwrap().status,
        SessionStatus::Closed
    );
}

#[test]
fn handoffs_are_claim_once() {
    let mut p = InMemoryProvider::new();
    let h = Handoff::open(
        HandoffId::from_string("HOF-1"),
        TaskId::from_string("AUTH-1"),
        AgentId::from_string("AGENT-alpha"),
        AgentId::from_string("AGENT-codex"),
        "summary",
    );
    p.open_handoff(h).unwrap();
    assert_eq!(p.open_handoffs().unwrap().len(), 1);

    assert!(p
        .accept_handoff(
            &HandoffId::from_string("HOF-1"),
            &AgentId::from_string("AGENT-deepseek"),
            &SessionId::from_string("SESS-3")
        )
        .is_err());
    assert_eq!(p.open_handoffs().unwrap().len(), 1);

    p.accept_handoff(
        &HandoffId::from_string("HOF-1"),
        &AgentId::from_string("AGENT-codex"),
        &SessionId::from_string("SESS-2"),
    )
    .unwrap();
    assert!(p.open_handoffs().unwrap().is_empty());

    let err = p
        .accept_handoff(
            &HandoffId::from_string("HOF-1"),
            &AgentId::from_string("AGENT-codex"),
            &SessionId::from_string("SESS-2"),
        )
        .unwrap_err();
    assert_eq!(err.to_string(), "handoff error: handoff is no longer open");
}

fn memory(title: &str, body: &str, at: Timestamp) -> Memory {
    Memory {
        id: title.to_string(),
        title: title.into(),
        body: body.into(),
        kind: Some("decision".into()),
        tags: vec![],
        score_bits: None,
        updated_at: at,
    }
}

#[test]
fn memories_are_queryable() {
    let mut p = InMemoryProvider::new();
    let now = Timestamp::now();
    for (title, body) in [
        ("Auth design", "we chose stateless JWTs for login"),
        ("DB schema", "the users table holds credentials"),
    ] {
        p.save_memory(memory(title, body, now)).unwrap();
    }
    let hits = p.query_memories(&MemoryQuery::new("JWTs login", 10)).unwrap();
    assert_eq!(hits.len(), 1);
    assert_eq!(hits[0].title, "Auth design");

    let recent = p.recent_memories(5).unwrap();
    assert_eq!(recent.len(), 2);
}

#[test]
fn memories_are_found_in_any_case_and_come_newest_first() {
    let mut p = InMemoryProvider::new();
    for (n, title) in ["old ÄPFEL", "new äpfel"].iter().enumerate() {
        p.save_memory(memory(title, "", Timestamp::from_unix(n as i64, 0).unwrap())).unwrap();
    }
    let hits = p.query_memories(&MemoryQuery::new("Äpfel", 10)).unwrap();
    let titles: Vec<&str> = hits.iter().map(|m| m.title.as_str()).collect();
    assert_eq!(titles, vec!["new äpfel", "old ÄPFEL"]);
    assert_eq!(p.recent_memories(1).unwrap()[0].title, "new äpfel");
}

#[test]
fn observing_an_unseeded_path_is_an_error_not_invention() {
    let p = InMemoryProvider::new();
    let err = p.observe("/nope").unwrap_err();
    assert!(matches!(err, InMemoryError::NotFound(_)));
}

fn state() -> ProjectState {
    ProjectState {
        branch: Some("main".into()),
        head_commit: "abc".into(),
        working_tree: vec![],
        recent_commits: vec![],
        test_results: None,
        observed_on: MachineId::from_string("MACH-a"),
        observed_at: Timestamp::now(),
    }
}

#[test]
fn seeded_state_is_returned_verbatim() {
    let mut p = InMemoryProvider::new();
    let state = state();
    p.seed_state("/repo", state.clone());
    let observed = p.observe("/repo").unwrap();
    assert_eq!(observed, state);
}

#[test]
fn a_path_is_the_same_however_it_is_written() {
    let mut p = InMemoryProvider::new();
    let state = state();
    p.seed_state("/repo//./x/", state.clone());
    assert_eq!(p.observe("/repo/x").unwrap(), state);
    let project = Project::new(ProjectId::from_string("PROJ-1"), "x", "/repo/x/");
    p.register_project(project).unwrap();
    assert_eq!(p.latest_state(&ProjectId::from_string("PROJ-1")).unwrap(), Some(state));
}

#[test]
fn a_write_leaves_other_records_alone() {
    let mut p = InMemoryProvider::new();
    p.create_task(task("TASK-1")).unwrap();
    let first = p.get_task(&TaskId::from_string("TASK-1")).unwrap();
    p.create_task(task("TASK-2")).unwrap();
    p.set_task_status(&TaskId::from_string("TASK-2"), TaskStatus::Blocked).unwrap();
    assert_eq!(p.get_task(&TaskId::from_string("TASK-1")).unwrap(), first);
    assert_eq!(p.agent_count(), 0);
}

#[test]
fn a_saved_memory_is_among_the_latest() {
    let mut p = InMemoryProvider::new();
    for (id, secs) in [("page-1", 30), ("page-2", 10), ("page-3", 20)] {
        p.save_memory(Memory {
            id: id.into(),
            title: id.into(),
            body: "text".into(),
            kind: None,
            tags: vec![],
            score_bits: None,
            updated_at: Timestamp::from_unix(secs, 0).unwrap(),
        })
        .unwrap();
    }
    let ids: Vec<String> = p.recent_memories(3).unwrap().into_iter().map(|m| m.id).collect();
    assert_eq!(ids, vec!["page-1", "page-3", "page-2"]);
    assert_eq!(p.recent_memories(2).unwrap().len(), 2);
    assert!(p.recent_memories(0).unwrap().is_empty());
    assert_eq!(p.query_memories(&MemoryQuery::new("text", 1)).unwrap()[0].id, "page-1");
    assert!(p.query_memories(&MemoryQuery::new("text", 0)).unwrap().is_empty());
}

#[test]
fn windows_paths_are_the_same_whichever_divider_they_have() {
    let mut p = InMemoryProvider::with_path_style(PathStyle::Windows);
    let state = state();
    p.seed_state("C:/repo", state.clone());
    assert_eq!(p.observe("C:\\repo").unwrap(), state);
    assert_eq!(p.observe("c:\\repo\\").unwrap(), state);
    assert!(p.observe("D:\\repo").is_err());
    let project = Project::new(ProjectId::from_string("PROJ-1"), "x", "C:\\.\\repo");
    p.register_project(project).unwrap();
    assert_eq!(p.latest_state(&ProjectId::from_string("PROJ-1")).unwrap(), Some(state.clone()));

    let mut unix = InMemoryProvider::with_path_style(PathStyle::Unix);
    unix.seed_state("C:/repo", state.clone());
    assert!(unix.observe("C:\\repo").is_err());
    assert_eq!(unix.observe("C:/repo/").unwrap(), state);
}

#[test]
fn paths_are_told_apart_as_the_platform_does() {
    let paths = [
        "", ".", "/", "//", "repo", "./repo", "repo/", "/repo", "/repo/.", "//repo", "a/b", "a\\b",
        "a/./b", "a/../b", "a//b", "C:", "C:/", "C:\\", "C:/repo", "C:\\repo", "c:/repo", "C:repo",
        "//server/share", "\\\\server\\share\\", "/server/share", "\\\\?\\C:\\repo",
        "\\\\?\\c:\\repo\\",
    ];
    for seeded in paths {
        let mut p = InMemoryProvider::new();
        p.seed_state(seeded, state());
        for asked in paths {
            let same = Path::new(seeded) == Path::new(asked);
            assert_eq!(p.observe(asked).is_ok(), same, "{seeded:?} and {asked:?}");
        }
    }
}

#[test]
fn a_provider_holds_nothing_by_default() {
    let p = InMemoryProvider::default();
    assert_eq!((p.task_count(), p.agent_count()), (0, 0));
    assert!(p.recent_memories(9).unwrap().is_empty());
    assert!(p.observe("/repo").is_err());
}
