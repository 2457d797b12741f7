use director_brain::adapters::handoff::adapter::{tree_ids, HandoffRequest};
use director_brain::adapters::handoff::mapping::{
    agent_from_wire, parse_timestamp, session_from_wire, status_from_director_string,
    task_from_wire, task_to_wire, unknown_agent_id, DIRECTOR_STATUS_KEY, DIRECTOR_VERIFIED_KEY,
};
use director_brain::adapters::handoff::wire::{
    AgentList, AgentRecord, ExtraEntry, ExtraValue, SessionSummary, TaskData, TaskTree,
    TaskTreeNode,
};
use director_brain::registry::Registry;
use director_brain::{
    Agent, AgentId, AgentSession, AgentStatus, Capability, Complexity, ExpectedOutput,
    HandoffAdapter, HandoffAdapterError, Harness, MachineId, Priority, SessionEnd, SessionId,
    SessionStatus, Task, TaskId, TaskStatus, TransportError,
};
use std::collections::HashMap;

fn wire_with_status(status: &str) -> TaskData {
    TaskData {
        id: "AUTH-42".into(),
        title: "Auth".into(),
        status: status.into(),
        notes: None,
        priority: None,
        created_at: "2026-09-24T19:34:17.427288500+00:00".into(),
        updated_at: "2026-09-24T19:34:17.427288500+00:00".into(),
        completed_at: None,
        labels: vec![],
        links: vec![],
        task_links: vec![],
        done_criteria: vec![],
        schedule: None,
        dependencies: vec![],
        dependents: None,
        order: None,
        assignee: None,
        lock: None,
        scope_paths: vec![],
        extra: Registry::new(),
    }
}

fn objective_task() -> Task {
    Task::new(TaskId::from_string("AUTH-42"), "Auth", "objective")
}

fn extra_of(wire: &TaskData, name: &str) -> Option<ExtraValue> {
    wire.extra.get(name).map(|entry| entry.value.clone())
}

#[test]
fn a_substrate_done_without_verification_is_not_done() {
    let data = wire_with_status("done");
    let trusted = vec![];
    let task = task_from_wire(&data, &trusted);
    assert_eq!(task.status, TaskStatus::VerificationPending);
}

#[test]
fn a_director_marked_done_round_trips_as_done() {
    let mut task = objective_task();
    task.status = TaskStatus::Done;

    let wire = task_to_wire(&task);
    assert_eq!(wire.status, "done");
    assert_eq!(extra_of(&wire, DIRECTOR_VERIFIED_KEY), Some(ExtraValue::Flag(true)));

    let trusted = vec!["AUTH-42".to_string()];
    let back = task_from_wire(&wire, &trusted);
    assert_eq!(back.status, TaskStatus::Done);
}

#[test]
fn shared_statuses_map_directly() {
    let trusted = vec![];
    assert_eq!(task_from_wire(&wire_with_status("todo"), &trusted).status, TaskStatus::Todo);
    assert_eq!(
        task_from_wire(&wire_with_status("in_progress"), &trusted).status,
        TaskStatus::InProgress
    );
    assert_eq!(task_from_wire(&wire_with_status("blocked"), &trusted).status, TaskStatus::Blocked);
}

#[test]
fn substrate_skipped_is_director_cancelled() {
    let trusted = vec![];
    assert_eq!(
        task_from_wire(&wire_with_status("skipped"), &trusted).status,
        TaskStatus::Cancelled
    );
}

#[test]
fn substrate_review_awaits_verification() {
    let trusted = vec![];
    assert_eq!(
        task_from_wire(&wire_with_status("review"), &trusted).status,
        TaskStatus::VerificationPending
    );
}

#[test]
fn director_only_statuses_survive_a_round_trip() {
    for status in [
        TaskStatus::Backlog,
        TaskStatus::VerificationPending,
        TaskStatus::Failed,
        TaskStatus::Cancelled,
    ] {
        let mut task = objective_task();
        task.status = status;
        let wire = task_to_wire(&task);
        let director_status = match extra_of(&wire, DIRECTOR_STATUS_KEY) {
            Some(ExtraValue::Text(text)) => text,
            _ => "missing".to_string(),
        };
        let restored = status_from_director_string(&director_status);
        assert_eq!(restored, status, "round trip lost status {status:?}");
        assert_eq!(task_from_wire(&wire, &vec![]).status, status);
    }
}

#[test]
fn critical_priority_round_trips_through_extra() {
    let mut task = objective_task();
    task.priority = Some(Priority::Critical);

    let wire = task_to_wire(&task);
    assert_eq!(wire.priority.as_deref(), Some("high"));

    let task = task_from_wire(&wire, &vec![]);
    assert_eq!(task.priority, Some(Priority::Critical));
}

#[test]
fn ordinary_priorities_map_directly() {
    let mut task = objective_task();
    task.priority = Some(Priority::Low);
    assert_eq!(task_to_wire(&task).priority.as_deref(), Some("low"));

    let mut wire = wire_with_status("todo");
    wire.priority = Some("medium".into());
    let task = task_from_wire(&wire, &vec![]);
    assert_eq!(task.priority, Some(Priority::Medium));
}

#[test]
fn dependencies_and_scope_round_trip() {
    let mut task = objective_task();
    task.dependencies = vec![TaskId::from_string("DB-1"), TaskId::from_string("DB-2")];
    task.scope_paths = vec!["src/auth/".into()];

    let wire = task_to_wire(&task);
    assert_eq!(wire.dependencies, vec!["DB-1", "DB-2"]);
    assert_eq!(wire.scope_paths, vec!["src/auth/"]);
}

#[test]
fn expected_outputs_become_criteria_but_are_never_checked() {
    let mut task = objective_task();
    task.expected_outputs.push(ExpectedOutput {
        criterion: "login returns 200".into(),
        check: None,
    });
    let wire = task_to_wire(&task);
    assert_eq!(wire.done_criteria.len(), 1);
    assert!(!wire.done_criteria[0].checked);
    assert_eq!(wire.done_criteria[0].item, "login returns 200");
}

#[test]
fn an_unknown_substrate_status_does_not_silently_become_done() {
    let trusted = vec![];
    let task = task_from_wire(&wire_with_status("not_a_real_status"), &trusted);
    assert_eq!(task.status, TaskStatus::VerificationPending);
}

#[test]
fn a_task_survives_the_wire() {
    let mut task = objective_task();
    task.status = TaskStatus::InProgress;
    task.complexity = Complexity::Large;
    task.priority = Some(Priority::High);
    task.required_capabilities =
        vec![Capability::DevOps, Capability::Custom("payments".into()), Capability::Human];
    task.expected_outputs.push(ExpectedOutput { criterion: "it works".into(), check: None });
    let back = task_from_wire(&task_to_wire(&task), &vec![]);
    assert_eq!(back, task);
    task.objective = task.title.clone();
    let wire = task_to_wire(&task);
    assert_eq!(wire.notes, None);
    assert_eq!(task_from_wire(&wire, &vec![]).objective, "Auth");
}

#[test]
fn only_terminal_tasks_have_a_completion_time() {
    let mut task = objective_task();
    assert_eq!(task_to_wire(&task).completed_at, None);
    task.status = TaskStatus::Failed;
    let wire = task_to_wire(&task);
    assert_eq!(wire.status, "done");
    assert_eq!(wire.completed_at, Some(wire.updated_at.clone()));
}

#[test]
fn blank_notes_leave_the_title_as_the_objective() {
    let mut wire = wire_with_status("todo");
    wire.notes = Some("  \n".into());
    assert_eq!(task_from_wire(&wire, &vec![]).objective, "Auth");
    wire.notes = Some(" do it ".into());
    assert_eq!(task_from_wire(&wire, &vec![]).objective, " do it ");
}

#[test]
fn extra_fields_decide_what_the_substrate_cannot() {
    let mut wire = wire_with_status("done");
    wire.extra.insert(ExtraEntry {
        name: "director_verified".into(),
        value: ExtraValue::Flag(false),
    });
    assert_eq!(task_from_wire(&wire, &vec![]).status, TaskStatus::VerificationPending);
    wire.extra.insert(ExtraEntry {
        name: "director_verified".into(),
        value: ExtraValue::Flag(true),
    });
    assert_eq!(task_from_wire(&wire, &vec![]).status, TaskStatus::Done);
    wire.extra.insert(ExtraEntry {
        name: "director_capabilities".into(),
        value: ExtraValue::List(vec![Some("backend".into()), None, Some("sql".into())]),
    });
    assert_eq!(
        task_from_wire(&wire, &vec![]).required_capabilities,
        vec![Capability::Backend, Capability::Custom("sql".into())]
    );
}

#[test]
fn timestamp_parsing_handles_the_servers_form() {
    let parsed = parse_timestamp("2026-09-24T19:34:17.427288500+00:00");
    assert!(parsed.is_some());
    assert_eq!(parsed.unwrap().unix_secs(), 1790278457);
    assert_eq!(parsed.unwrap().subsec_nanos(), 427288500);
}

#[test]
fn times_without_an_offset_are_in_utc() {
    let parsed = parse_timestamp("2026-09-24T19:34:17.427").unwrap();
    assert_eq!((parsed.unix_secs(), parsed.subsec_nanos()), (1790278457, 0));
    let shifted = parse_timestamp("2026-09-24T21:34:17+02:00").unwrap();
    assert_eq!(shifted.unix_secs(), 1790278457);
    assert!(parse_timestamp("yesterday").is_none());
}

fn agent_record(status: &str) -> AgentRecord {
    AgentRecord {
        agent_id: "AGENT-1".into(),
        session_id: None,
        worktree: "C:/repo".into(),
        branch: None,
        status: status.into(),
        registered_at: "2026-09-24T19:00:00+00:00".into(),
        last_heartbeat: "2026-09-24T20:00:00+00:00".into(),
        claimed_tasks: vec![],
    }
}

#[test]
fn an_active_agent_with_tasks_is_busy_not_available() {
    let mut record = agent_record("active");
    assert_eq!(agent_from_wire(&record).status, AgentStatus::Available);

    record.claimed_tasks = vec!["AUTH-42".into()];
    assert_eq!(agent_from_wire(&record).status, AgentStatus::Busy);
}

#[test]
fn a_stale_or_disconnected_agent_maps_through() {
    let mut record = agent_record("stale");
    assert_eq!(agent_from_wire(&record).status, AgentStatus::Stale);
    record.status = "disconnected".into();
    assert_eq!(agent_from_wire(&record).status, AgentStatus::Disconnected);
    record.status = "napping".into();
    assert_eq!(agent_from_wire(&record).status, AgentStatus::Offline);
}

#[test]
fn an_agent_is_on_the_machine_of_its_working_tree() {
    let mut record = agent_record("active");
    record.claimed_tasks = vec!["AUTH-42".into(), "AUTH-43".into()];
    let agent = agent_from_wire(&record);
    assert_eq!(agent.machine.as_str(), "MACH-C--repo");
    assert_eq!(agent.current_task, None);
    assert_eq!(agent.registered_at.unix_secs(), 1790276400);
    record.session_id = Some("sess-1".into());
    assert_eq!(
        agent_from_wire(&record).current_task,
        Some(TaskId::from_string("AUTH-42"))
    );
}

fn summary(id: &str, status: &str) -> SessionSummary {
    SessionSummary {
        id: id.into(),
        status: status.into(),
        summary: String::new(),
        started_at: None,
        ended_at: None,
        branch: None,
        commit: None,
        decisions_count: 0,
        checklist_progress: String::new(),
        agent_id: None,
        parent_session_id: None,
        worktree: None,
    }
}

#[test]
fn a_session_summary_carries_owner_lineage_and_workdir() {
    let summary = SessionSummary {
        id: "SESS-2".into(),
        status: "closed".into(),
        summary: "shipped the login page".into(),
        started_at: Some("2026-09-24T19:00:00+00:00".into()),
        ended_at: Some("2026-09-24T21:00:00+00:00".into()),
        branch: Some("feat/login".into()),
        commit: Some("abc123".into()),
        decisions_count: 3,
        checklist_progress: "2/2".into(),
        agent_id: Some("AGENT-7".into()),
        parent_session_id: Some("SESS-1".into()),
        worktree: Some("C:/repo/worktrees/login".into()),
    };
    let session = session_from_wire(&summary);
    assert_eq!(session.id, SessionId::from_string("SESS-2"));
    assert_eq!(session.agent_id, AgentId::from_string("AGENT-7"));
    assert_eq!(session.parent_session_id, Some(SessionId::from_string("SESS-1")));
    assert_eq!(session.status, SessionStatus::Closed);
    assert_eq!(session.end, Some(SessionEnd::Clean));
    assert_eq!(session.workdir.as_deref(), Some("C:/repo/worktrees/login"));
}

#[test]
fn an_unattributed_session_falls_back_to_unknown_not_to_a_guess() {
    let session = session_from_wire(&summary("SESS-9", "closed"));
    assert_eq!(session.agent_id, AgentId::from_string(unknown_agent_id()));
    assert!(session.parent_session_id.is_none());
    assert!(session.ended_at.is_none(), "a session that never ended has no end reason");
    assert!(session.end.is_none());
}

/// A substrate in memory, spoken to through the adapter's own requests.
struct Substrate {
    adapter: HandoffAdapter,
    tasks: HashMap<String, TaskData>,
    order: Vec<String>,
    sent: Vec<HandoffRequest>,
    sessions: Vec<(SessionSummary, Vec<String>)>,
}

impl Substrate {
    fn new(agent: &str) -> Self {
        Substrate {
            adapter: HandoffAdapter::new(AgentId::from_string(agent), "C:/repo", "test-project"),
            tasks: HashMap::new(),
            order: vec![],
            sent: vec![],
            sessions: vec![],
        }
    }

    fn fetch(&self, id: &str) -> Result<Option<TaskData>, HandoffAdapterError> {
        let reply = match self.tasks.get(id) {
            Some(data) => Ok(data.clone()),
            None => Err(HandoffAdapter::call_error(
                "handoff_get_task",
                TransportError::ToolFailed(format!("Task not found: '{id}'.")),
            )),
        };
        self.adapter.fetch_task(reply)
    }

    fn write(&mut self, task: &Task) -> Task {
        let request = self.adapter.write_task(task);
        if let HandoffRequest::UpdateTask { task: data } = &request {
            // The substrate drops the extra fields, as the live one does.
            let mut kept = data.clone();
            kept.extra = Registry::new();
            if !self.tasks.contains_key(&kept.id) {
                self.order.push(kept.id.clone());
            }
            self.tasks.insert(kept.id.clone(), kept);
        }
        self.sent.push(request);
        let found = self.fetch(task.id.as_str());
        self.adapter.stored_task(task, found).unwrap()
    }

    fn get(&self, id: &str) -> Option<Task> {
        self.adapter.get_task(self.fetch(id)).unwrap()
    }

    fn set_status(&mut self, id: &str, status: TaskStatus) {
        let id = TaskId::from_string(id);
        let found = self.get(id.as_str());
        if let Some(task) = self.adapter.set_task_status(&id, status, found).unwrap() {
            self.write(&task);
        }
    }

    fn start(&mut self, session: &AgentSession) -> AgentSession {
        if let HandoffRequest::SaveContext { session_status, related_task_ids, .. } =
            self.adapter.start_session(session)
        {
            let mut s = summary(
                &format!("sess-{}", self.sessions.len() + 1),
                &session_status.unwrap(),
            );
            s.agent_id = Some(self.adapter.agent_identity().to_string());
            self.sessions.push((s, related_task_ids.unwrap()));
        }
        self.adapter.active_session(&self.summaries()).unwrap()
    }

    fn summaries(&self) -> Vec<SessionSummary> {
        self.sessions.iter().map(|(s, _)| s.clone()).collect()
    }
}

fn task(id: &str, status: TaskStatus) -> Task {
    let mut task = Task::new(TaskId::from_string(id), &format!("Task {id}"), "objective");
    task.status = status;
    task
}

#[test]
fn creating_a_task_round_trips_its_id_and_status() {
    let mut substrate = Substrate::new("AGENT-1");
    let created = substrate.write(&task("AUTH-1", TaskStatus::Todo));

    assert_eq!(created.id, TaskId::from_string("AUTH-1"));
    assert_eq!(created.status, TaskStatus::Todo);
    assert_eq!(created.title, "Task AUTH-1");
    assert_eq!(substrate.get("AUTH-1").map(|t| t.id), Some(created.id));
}

#[test]
fn get_task_returns_none_when_the_substrate_has_no_such_task() {
    let substrate = Substrate::new("AGENT-1");
    assert!(substrate.get("NOPE-9").is_none());
}

#[test]
fn an_agent_reported_done_does_not_complete_the_task() {
    let mut substrate = Substrate::new("AGENT-1");
    substrate.write(&task("AUTH-2", TaskStatus::Todo));
    substrate.tasks.get_mut("AUTH-2").unwrap().status = "done".to_string();

    assert_eq!(
        substrate.get("AUTH-2").unwrap().status,
        TaskStatus::VerificationPending,
        "an agent's done must not become Director's Done"
    );
}

#[test]
fn a_director_completion_comes_back_as_done() {
    let mut substrate = Substrate::new("AGENT-1");
    substrate.write(&task("AUTH-3", TaskStatus::Todo));
    substrate.set_status("AUTH-3", TaskStatus::Done);
    assert_eq!(substrate.get("AUTH-3").unwrap().status, TaskStatus::Done);
    let writes = substrate.sent.len();
    substrate.set_status("AUTH-3", TaskStatus::Done);
    assert_eq!(substrate.sent.len(), writes, "the same status is not written again");
}

#[test]
fn completing_a_task_ticks_its_criteria_on_the_wire() {
    let mut substrate = Substrate::new("AGENT-1");
    let mut t = task("AUTH-4", TaskStatus::Todo);
    t.expected_outputs.push(ExpectedOutput {
        criterion: "login returns 200".into(),
        check: None,
    });
    substrate.write(&t);
    substrate.set_status("AUTH-4", TaskStatus::Done);

    match substrate.sent.last() {
        Some(HandoffRequest::UpdateTask { task }) => {
            assert_eq!(task.done_criteria.len(), 1);
            assert!(
                task.done_criteria.iter().all(|c| c.checked),
                "every criterion was checked"
            );
        }
        other => panic!("unexpected {other:?}"),
    }
}

#[test]
fn ensure_project_is_idempotent_across_repeated_calls() {
    let adapter = HandoffAdapter::new(AgentId::from_string("AGENT-1"), "C:/repo", "test-project");
    let init = adapter.call(adapter.init_request());
    assert_eq!(init.tool, "handoff_init");
    assert_eq!(init.project_dir, "C:/repo");
    assert_eq!(
        init.request,
        HandoffRequest::Init {
            project_name: "test-project".into(),
            description: "Managed by director-brain.".into()
        }
    );
    let config = HandoffRequest::UpdateConfig { require_estimate_hours: false };
    assert_eq!(adapter.ensure_project(Ok(())), Ok(config.clone()));
    let refused = HandoffAdapter::call_error(
        "handoff_init",
        TransportError::ToolFailed(".handoff/ already exists".into()),
    );
    assert_eq!(adapter.ensure_project(Err(refused)), Ok(config));
    let gone = HandoffAdapter::call_error("handoff_init", TransportError::NoContent);
    assert_eq!(
        adapter.ensure_project(Err(gone)).unwrap_err().to_string(),
        "handoff-mcp transport failed: the server returned no content"
    );
}

fn node(id: &str, children: Vec<TaskTreeNode>) -> TaskTreeNode {
    TaskTreeNode { id: id.into(), title: id.into(), status: "todo".into(), children }
}

#[test]
fn list_tasks_reflects_what_was_created() {
    let mut substrate = Substrate::new("AGENT-1");
    substrate.write(&task("AUTH-5", TaskStatus::InProgress));
    substrate.write(&task("AUTH-6", TaskStatus::Todo));

    let found: Vec<Option<TaskData>> =
        substrate.order.iter().map(|id| substrate.fetch(id).unwrap()).collect();
    let ids: Vec<String> =
        substrate.adapter.list_tasks(&found).into_iter().map(|t| t.id.to_string()).collect();
    assert!(ids.contains(&"AUTH-5".to_string()));
    assert!(ids.contains(&"AUTH-6".to_string()));
}

#[test]
fn a_tree_is_walked_in_order() {
    let tree = TaskTree {
        task_tree: vec![
            node("a", vec![node("a1", vec![node("a11", vec![])]), node("a2", vec![])]),
            node("b", vec![]),
        ],
    };
    assert_eq!(tree_ids(&tree), vec!["a", "a1", "a11", "a2", "b"]);
}

#[test]
fn a_dependency_added_twice_is_stored_once() {
    let mut substrate = Substrate::new("AGENT-1");
    substrate.write(&task("AUTH-7", TaskStatus::Todo));
    substrate.write(&task("AUTH-8", TaskStatus::Todo));
    let (a, b) = (TaskId::from_string("AUTH-7"), TaskId::from_string("AUTH-8"));
    for _ in 0..2 {
        let found = substrate.get("AUTH-7");
        if let Some(task) = substrate.adapter.add_dependency(&a, &b, found).unwrap() {
            substrate.write(&task);
        }
    }
    assert_eq!(substrate.get("AUTH-7").unwrap().dependencies.len(), 1);
    assert_eq!(
        substrate.adapter.add_dependency(&a, &b, None).unwrap_err().to_string(),
        "no such task in handoff-mcp: AUTH-7"
    );
}

#[test]
fn only_unfinished_tasks_with_done_dependencies_are_ready() {
    let adapter = HandoffAdapter::new(AgentId::from_string("AGENT-1"), "C:/repo", "p");
    let done = task("A", TaskStatus::Done);
    let mut waiting = task("B", TaskStatus::Todo);
    waiting.dependencies = vec![TaskId::from_string("C")];
    let mut next = task("C", TaskStatus::Todo);
    next.dependencies = vec![TaskId::from_string("A")];
    let ready = adapter.ready_tasks(&vec![done, waiting, next]);
    let ids: Vec<String> = ready.into_iter().map(|t| t.id.to_string()).collect();
    assert_eq!(ids, vec!["C"]);
}

#[test]
fn agent_operations_are_refused_for_another_identity() {
    let adapter = HandoffAdapter::new(AgentId::from_string("AGENT-1"), "C:/repo", "p");
    let other = Agent::register(
        AgentId::from_string("AGENT-2"),
        "two",
        Harness::Other("test".into()),
        MachineId::from_string("MACH-x"),
        vec![],
    );
    let error = adapter.require_own_identity(&other.id).unwrap_err();
    assert!(matches!(error, HandoffAdapterError::Unsupported(_)));
    assert_eq!(
        error.to_string(),
        "the handoff-mcp substrate cannot do this: this handoff-mcp connection speaks as \
         'AGENT-1', not 'AGENT-2'"
    );
}

#[test]
fn the_connections_own_agent_registers_and_heartbeats() {
    let adapter = HandoffAdapter::new(AgentId::from_string("AGENT-1"), "C:/repo", "p");
    assert_eq!(HandoffAdapter::agents_request().tool(), "handoff_list_agents");
    let mut record = agent_record("active");
    record.claimed_tasks = vec!["AUTH-42".into()];
    let list = AgentList { agents: vec![record], total: 1 };

    let id = adapter.agent_identity();
    assert!(adapter.require_own_identity(&id).is_ok());
    let registered = adapter.register_agent(&id, &list).unwrap();
    assert_eq!(registered.id, AgentId::from_string("AGENT-1"));
    assert_eq!(registered.status, AgentStatus::Busy);

    let status = adapter.heartbeat(&AgentId::from_string("AGENT-1"), &list).unwrap();
    assert_eq!(status, AgentStatus::Busy);

    let agents = adapter.list_agents(&list);
    assert_eq!(agents.len(), 1);
    assert!(adapter.available_agents(&agents).is_empty());
    let nobody = AgentList { agents: vec![], total: 0 };
    assert_eq!(
        adapter.register_agent(&id, &nobody).unwrap_err().to_string(),
        "could not parse handoff-mcp's reply to 'handoff_list_agents': load_context did not \
         register the agent"
    );
    assert!(adapter.heartbeat(&id, &nobody).is_err());
}

#[test]
fn setting_an_agent_status_is_unsupported_not_approximated() {
    let adapter = HandoffAdapter::new(AgentId::from_string("AGENT-1"), "C:/repo", "p");
    let error = adapter
        .set_agent_status(&AgentId::from_string("AGENT-1"), AgentStatus::Offline)
        .unwrap_err();
    assert!(matches!(error, HandoffAdapterError::Unsupported(_)));
}

fn session(adapter: &HandoffAdapter, task: Option<&str>) -> AgentSession {
    AgentSession::start(
        SessionId::from_string("ignored"),
        adapter.agent_identity(),
        MachineId::from_string("MACH-x"),
        task.map(TaskId::from_string),
    )
}

#[test]
fn starting_a_session_records_its_task() {
    let mut substrate = Substrate::new("AGENT-1");
    let s = session(&substrate.adapter, Some("AUTH-9"));
    let started = substrate.start(&s);
    assert_eq!(started.agent_id, substrate.adapter.agent_identity());

    let related: Vec<Vec<String>> =
        substrate.sessions.iter().map(|(_, related)| related.clone()).collect();
    let for_task = substrate.adapter.sessions_for_task(
        &TaskId::from_string("AUTH-9"),
        &substrate.summaries(),
        &related,
    );
    assert_eq!(for_task.len(), 1, "the session is linked to its task");
    assert!(substrate
        .adapter
        .sessions_for_task(&TaskId::from_string("AUTH-1"), &substrate.summaries(), &related)
        .is_empty());
}

#[test]
fn the_sessions_of_a_task_come_oldest_first() {
    let adapter = HandoffAdapter::new(AgentId::from_string("AGENT-1"), "C:/repo", "p");
    let summaries = vec![summary("new", "active"), summary("mid", "closed"), summary("old", "closed")];
    let related = vec![vec!["T".to_string()], vec![], vec!["X".to_string(), "T".to_string()]];
    let ids: Vec<String> = adapter
        .sessions_for_task(&TaskId::from_string("T"), &summaries, &related)
        .into_iter()
        .map(|s| s.id.to_string())
        .collect();
    assert_eq!(ids, vec!["old", "new"]);
}

#[test]
fn closing_a_session_marks_it_closed_in_the_substrate() {
    let mut substrate = Substrate::new("AGENT-1");
    let s = session(&substrate.adapter, None);
    let started = substrate.start(&s);
    match substrate.adapter.close_session(&started.id, SessionEnd::Clean) {
        HandoffRequest::SaveContext { summary, close_session_id, pause_session_id, .. } => {
            assert_eq!(summary, "Closed cleanly");
            assert_eq!(close_session_id, Some(started.id.to_string()));
            assert_eq!(pause_session_id, None);
        }
        other => panic!("unexpected {other:?}"),
    }
    substrate.sessions[0].0.status = "closed".into();
    substrate.sessions[0].0.ended_at = Some("2026-09-25T11:00:00+00:00".into());
    let closed = substrate.adapter.get_session(&started.id, &substrate.summaries()).unwrap();
    assert_eq!(closed.status, SessionStatus::Closed);
    assert_eq!(closed.end, Some(SessionEnd::Clean));
}

#[test]
fn a_session_out_of_context_is_paused() {
    let adapter = HandoffAdapter::new(AgentId::from_string("AGENT-1"), "C:/repo", "p");
    match adapter.close_session(&SessionId::from_string("s"), SessionEnd::ContextExhausted) {
        HandoffRequest::SaveContext { close_session_id, pause_session_id, .. } => {
            assert_eq!(close_session_id, None);
            assert_eq!(pause_session_id, Some("s".into()));
        }
        other => panic!("unexpected {other:?}"),
    }
    assert_eq!(
        adapter.active_session(&vec![summary("s", "paused")]).unwrap_err().to_string(),
        "could not parse handoff-mcp's reply to 'handoff_save_context': no active session after \
         starting one"
    );
}

#[test]
fn forking_a_session_records_parent_lineage() {
    let mut substrate = Substrate::new("AGENT-1");
    let s = session(&substrate.adapter, None);
    let parent = substrate.start(&s);
    let request = substrate
        .adapter
        .fork_session(&parent.id, &SessionId::from_string("director-issued"));
    assert_eq!(
        request,
        HandoffRequest::ForkSession {
            source_session_id: parent.id.to_string(),
            summary: "Forked by director-brain as director-issued".into()
        }
    );
    let mut fork = summary("forked-1", "active");
    fork.parent_session_id = Some(parent.id.to_string());
    substrate.sessions.push((fork, vec![]));

    let id = HandoffAdapter::forked_id("{\"session_id\":\"forked-1\",\"n\":1}").unwrap();
    let forked = substrate.adapter.forked_session(&id, &substrate.summaries()).unwrap();
    assert_eq!(
        forked.parent_session_id,
        Some(parent.id.clone()),
        "the substrate's lineage is what Director keeps"
    );
    assert_ne!(forked.id, parent.id);
    let unnamed = HandoffAdapter::forked_id("{\"session_id\":7}").unwrap_err();
    assert_eq!(
        unnamed.to_string(),
        "could not parse handoff-mcp's reply to 'handoff_fork_session': no session_id in the reply"
    );
    assert!(HandoffAdapter::session_id_in(&None).is_err());
    assert_eq!(
        HandoffAdapter::session_id_in(&Some(ExtraValue::Text("S-1".into()))).unwrap(),
        SessionId::from_string("S-1")
    );
    assert!(substrate
        .adapter
        .forked_session(&SessionId::from_string("gone"), &substrate.summaries())
        .is_err());
}

#[test]
fn an_unparsed_reply_is_reported_as_malformed_not_as_success() {
    let adapter = HandoffAdapter::new(AgentId::from_string("AGENT-1"), "C:/repo", "p");
    let error = HandoffAdapter::parse_error(
        "handoff_get_task",
        "missing field `id`",
        "{\"status\": \"todo\"}",
    );
    assert_eq!(
        error.to_string(),
        "could not parse handoff-mcp's reply to 'handoff_get_task': missing field `id`: \
         {\"status\": \"todo\"}"
    );
    assert!(matches!(adapter.fetch_task(Err(error)), Err(HandoffAdapterError::Malformed { .. })));
    match HandoffAdapter::parse_error("t", "r", &"x".repeat(600)) {
        HandoffAdapterError::Malformed { message, .. } => assert_eq!(message.len(), 3 + 512),
        other => panic!("unexpected {other:?}"),
    }
}

#[test]
fn the_details_of_a_session_list_its_tasks() {
    let reply = "{\"id\":\"S-1\",\"related_task_ids\":[\"AUTH-1\",7,\"DB-2\"]}";
    assert_eq!(HandoffAdapter::related_tasks_of(reply).unwrap(), vec!["AUTH-1", "DB-2"]);
    assert!(HandoffAdapter::related_tasks_of("{}").unwrap().is_empty());
    assert!(HandoffAdapter::related_tasks_of("[1]").unwrap().is_empty());
    let member = Some(ExtraValue::List(vec![Some("A".into()), None, Some("B".into())]));
    assert_eq!(HandoffAdapter::related_in(&member), vec!["A", "B"]);
    assert!(HandoffAdapter::related_in(&Some(ExtraValue::Opaque)).is_empty());
}

#[test]
fn a_reply_that_is_no_json_is_malformed() {
    let error = HandoffAdapter::related_tasks_of("Created task t1").unwrap_err();
    assert!(matches!(
        &error,
        HandoffAdapterError::Malformed { tool, message }
            if tool == "handoff_get_session" && message.ends_with(": Created task t1")
    ));
    let error = HandoffAdapter::forked_id("forked").unwrap_err();
    assert!(matches!(
        &error,
        HandoffAdapterError::Malformed { tool, .. } if tool == "handoff_fork_session"
    ));
}

#[test]
fn a_written_done_counts_only_where_it_is_vouched_for() {
    let claimed = |substrate: &str, verified: bool| {
        let mut wire = wire_with_status(substrate);
        wire.extra.insert(ExtraEntry {
            name: DIRECTOR_STATUS_KEY.to_string(),
            value: ExtraValue::Text("done".into()),
        });
        if verified {
            wire.extra.insert(ExtraEntry {
                name: DIRECTOR_VERIFIED_KEY.to_string(),
                value: ExtraValue::Flag(true),
            });
        }
        wire
    };
    let trusted = vec!["AUTH-42".to_string()];
    let read = |wire: TaskData, ids: &Vec<String>| task_from_wire(&wire, ids).status;
    assert_eq!(read(claimed("done", false), &vec![]), TaskStatus::VerificationPending);
    assert_eq!(read(claimed("in_progress", true), &trusted), TaskStatus::VerificationPending);
    assert_eq!(read(claimed("done", true), &vec![]), TaskStatus::Done);
    assert_eq!(read(claimed("done", false), &trusted), TaskStatus::Done);
}

#[test]
fn a_task_taken_back_is_no_longer_trusted() {
    let mut substrate = Substrate::new("AGENT-1");
    substrate.write(&task("AUTH-6", TaskStatus::Todo));
    substrate.write(&task("AUTH-7", TaskStatus::Todo));
    substrate.set_status("AUTH-6", TaskStatus::Done);
    substrate.set_status("AUTH-7", TaskStatus::Done);
    substrate.set_status("AUTH-6", TaskStatus::InProgress);
    assert_eq!(substrate.get("AUTH-6").unwrap().status, TaskStatus::InProgress);
    substrate.tasks.get_mut("AUTH-6").unwrap().status = "done".to_string();
    assert_eq!(substrate.get("AUTH-6").unwrap().status, TaskStatus::VerificationPending);
    assert_eq!(substrate.get("AUTH-7").unwrap().status, TaskStatus::Done);
}

#[test]
fn a_task_is_distrusted_though_its_reading_fails() {
    let mut substrate = Substrate::new("AGENT-1");
    substrate.write(&task("AUTH-8", TaskStatus::Todo));
    substrate.set_status("AUTH-8", TaskStatus::Done);
    let refused = substrate.adapter.stored_task(&task("AUTH-8", TaskStatus::Todo), Ok(None));
    assert!(refused.is_err());
    assert_eq!(substrate.get("AUTH-8").unwrap().status, TaskStatus::VerificationPending);
}

#[test]
fn an_agent_that_reopened_a_task_cannot_promote_it_after_it_was_taken_back() {
    let mut substrate = Substrate::new("AGENT-1");
    substrate.write(&task("AUTH-9", TaskStatus::Todo));
    substrate.set_status("AUTH-9", TaskStatus::Done);
    substrate.tasks.get_mut("AUTH-9").unwrap().status = "in_progress".to_string();
    assert_eq!(substrate.get("AUTH-9").unwrap().status, TaskStatus::InProgress);
    let writes = substrate.sent.len();
    substrate.set_status("AUTH-9", TaskStatus::InProgress);
    assert_eq!(substrate.sent.len(), writes + 1, "the trust is taken back by a write");
    substrate.set_status("AUTH-9", TaskStatus::InProgress);
    assert_eq!(substrate.sent.len(), writes + 1, "nothing is left to take back");
    substrate.tasks.get_mut("AUTH-9").unwrap().status = "done".to_string();
    assert_eq!(substrate.get("AUTH-9").unwrap().status, TaskStatus::VerificationPending);
}
