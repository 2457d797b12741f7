//! Mapping between handoff-mcp's records and Director's.
//!
//! The two models do not line up. Statuses, priorities, sizes and capabilities
//! that the substrate cannot express ride in a task's extra fields. And the
//! substrate's `done` is an agent's own report: it becomes
//! [`TaskStatus::VerificationPending`], unless Director itself produced it.

use crate::adapters::handoff::wire::{
    AgentRecord, AgentRecordView, DoneCriterion, DoneCriterionView, ExtraEntry, ExtraEntryView,
    ExtraValue, ExtraValueView, SessionSummary, SessionSummaryView, TaskData, TaskDataView,
};
use crate::domain::agent::{Agent, AgentStatus, AgentView, Harness, HarnessView};
use crate::domain::capability::{Capability, CapabilityView};
use crate::domain::ids::{AgentId, MachineId, SessionId, TaskId};
use crate::domain::session::{
    AgentSession, AgentSessionView, SessionEnd, SessionStatus,
};
use crate::domain::task::{
    priority_text, Complexity, ExpectedOutput, ExpectedOutputView, Priority, Task, TaskStatus,
    TaskView,
};
use crate::registry::Registry;
use crate::text::{
    chars_of, is_listed, is_space, joined, law_pieces_are_what_the_separators_part,
    law_trimming_takes_off_the_blank_ends, lemma_pieces_nonempty, pieces, same_text, split_text,
    string_of, trim_chars, trimmed,
};
use crate::time::{
    clock_time, four_digit_year, instant_of, naive_instant, rfc3339_instant, rfc3339_text, Timestamp,
};
use vstd::prelude::*;
use vstd::string::*;

verus! {

/// The extra field for a status that the substrate cannot express.
pub const DIRECTOR_STATUS_KEY: &'static str = "director_status";

/// The extra field that marks a `done` as Director's own decision.
pub const DIRECTOR_VERIFIED_KEY: &'static str = "director_verified";

/// The extra field for a priority that the substrate cannot express.
pub const DIRECTOR_PRIORITY_KEY: &'static str = "director_priority";

/// The extra field for required capabilities.
pub const DIRECTOR_CAPABILITIES_KEY: &'static str = "director_capabilities";

/// The extra field for a task's size.
pub const DIRECTOR_COMPLEXITY_KEY: &'static str = "director_complexity";

/// How the substrate writes a time without an offset.
pub const NAIVE_TIME_FORMAT: &'static str = "%Y-%m-%dT%H:%M:%S";

/// The extra fields of a task, by name.
pub type ExtraFields = Map<Seq<char>, ExtraEntryView>;

/// The text of an extra field, when it is there and is text.
pub open spec fn extra_text(extra: ExtraFields, name: Seq<char>) -> Option<Seq<char>> {
    if extra.contains_key(name) {
        match extra[name].value {
            ExtraValueView::Text(text) => Some(text),
            _ => None,
        }
    } else {
        None
    }
}

/// Whether an extra field is there and is true.
pub open spec fn extra_is_set(extra: ExtraFields, name: Seq<char>) -> bool {
    extra.contains_key(name) && extra[name].value == ExtraValueView::Flag(true)
}

/// The items of an extra field, when it is there and is a list.
pub open spec fn extra_list(extra: ExtraFields, name: Seq<char>) -> Option<
    Seq<Option<Seq<char>>>,
> {
    if extra.contains_key(name) {
        match extra[name].value {
            ExtraValueView::List(items) => Some(items),
            _ => None,
        }
    } else {
        None
    }
}

/// Extra fields with one more.
pub open spec fn with_field(extra: ExtraFields, name: Seq<char>, value: ExtraValueView) -> ExtraFields {
    extra.insert(name, ExtraEntryView { name, value })
}

/// The status that Director wrote under [`DIRECTOR_STATUS_KEY`].
pub open spec fn director_status(s: Seq<char>) -> TaskStatus {
    if s == "backlog"@ {
        TaskStatus::Backlog
    } else if s == "todo"@ {
        TaskStatus::Todo
    } else if s == "in_progress"@ {
        TaskStatus::InProgress
    } else if s == "blocked"@ {
        TaskStatus::Blocked
    } else if s == "verification_pending"@ {
        TaskStatus::VerificationPending
    } else if s == "done"@ {
        TaskStatus::Done
    } else if s == "failed"@ {
        TaskStatus::Failed
    } else if s == "cancelled"@ {
        TaskStatus::Cancelled
    } else {
        TaskStatus::VerificationPending
    }
}

/// What a substrate status means. A `done` counts only where Director vouches for
/// it; what is not known waits for a verdict.
pub open spec fn substrate_status(s: Seq<char>, vouched: bool) -> TaskStatus {
    if s == "todo"@ {
        TaskStatus::Todo
    } else if s == "in_progress"@ {
        TaskStatus::InProgress
    } else if s == "blocked"@ {
        TaskStatus::Blocked
    } else if s == "review"@ {
        TaskStatus::VerificationPending
    } else if s == "done"@ {
        if vouched {
            TaskStatus::Done
        } else {
            TaskStatus::VerificationPending
        }
    } else if s == "skipped"@ {
        TaskStatus::Cancelled
    } else {
        TaskStatus::VerificationPending
    }
}

/// Director vouches for a `done`: it is marked as verified, or is one that Director
/// itself produced.
pub open spec fn is_vouched(extra: ExtraFields, trusted: bool) -> bool {
    extra_is_set(extra, DIRECTOR_VERIFIED_KEY@) || trusted
}

/// What a task's status means, with its extra fields and whether its `done` is
/// one that Director itself produced. A status kept beside the substrate's own comes
/// first, but for a `done`, which counts only where the substrate says so too and
/// Director vouches for it.
pub open spec fn status_of_wire(s: Seq<char>, extra: ExtraFields, trusted: bool) -> TaskStatus {
    match extra_text(extra, DIRECTOR_STATUS_KEY@) {
        Some(written) => if director_status(written) != TaskStatus::Done {
            director_status(written)
        } else if s == "done"@ && is_vouched(extra, trusted) {
            TaskStatus::Done
        } else {
            TaskStatus::VerificationPending
        },
        None => substrate_status(s, is_vouched(extra, trusted)),
    }
}

/// The nearest status that the substrate has, and what must be kept beside it.
pub open spec fn wire_status(status: TaskStatus) -> (Seq<char>, Option<Seq<char>>) {
    match status {
        TaskStatus::Todo => ("todo"@, None),
        TaskStatus::InProgress => ("in_progress"@, None),
        TaskStatus::Blocked => ("blocked"@, None),
        TaskStatus::Done => ("done"@, None),
        TaskStatus::Backlog => ("todo"@, Some("backlog"@)),
        TaskStatus::VerificationPending => ("in_progress"@, Some("verification_pending"@)),
        TaskStatus::Failed => ("done"@, Some("failed"@)),
        TaskStatus::Cancelled => ("done"@, Some("cancelled"@)),
    }
}

/// What a substrate priority means.
pub open spec fn priority_of_wire(priority: Option<Seq<char>>, extra: ExtraFields) -> Option<Priority> {
    if extra_text(extra, DIRECTOR_PRIORITY_KEY@) == Some("critical"@) {
        Some(Priority::Critical)
    } else {
        match priority {
            None => None,
            Some(p) => if p == "high"@ {
                Some(Priority::High)
            } else if p == "medium"@ {
                Some(Priority::Medium)
            } else if p == "low"@ {
                Some(Priority::Low)
            } else {
                Some(Priority::Medium)
            },
        }
    }
}

/// The nearest priority that the substrate has, and what must be kept beside it.
pub open spec fn wire_priority(priority: Option<Priority>) -> (Option<Seq<char>>, Option<Seq<char>>) {
    match priority {
        None => (None, None),
        Some(Priority::Critical) => (Some("high"@), Some("critical"@)),
        Some(Priority::High) => (Some("high"@), None),
        Some(Priority::Medium) => (Some("medium"@), None),
        Some(Priority::Low) => (Some("low"@), None),
    }
}

/// The size with a given name.
pub open spec fn complexity_of_name(s: Seq<char>) -> Complexity {
    if s == "trivial"@ {
        Complexity::Trivial
    } else if s == "small"@ {
        Complexity::Small
    } else if s == "medium"@ {
        Complexity::Medium
    } else if s == "large"@ {
        Complexity::Large
    } else {
        Complexity::Unknown
    }
}

/// The name of a size.
pub open spec fn complexity_name(c: Complexity) -> Seq<char> {
    match c {
        Complexity::Trivial => "trivial"@,
        Complexity::Small => "small"@,
        Complexity::Medium => "medium"@,
        Complexity::Large => "large"@,
        Complexity::Unknown => "unknown"@,
    }
}

/// What a task's size is, by its extra fields.
pub open spec fn complexity_of_wire(extra: ExtraFields) -> Complexity {
    match extra_text(extra, DIRECTOR_COMPLEXITY_KEY@) {
        Some(name) => complexity_of_name(name),
        None => Complexity::Unknown,
    }
}

/// The capability with a given name; any other name is a custom one.
pub open spec fn capability_of_name(s: Seq<char>) -> CapabilityView {
    if s == "coding"@ {
        CapabilityView::Coding
    } else if s == "testing"@ {
        CapabilityView::Testing
    } else if s == "reviewing"@ {
        CapabilityView::Reviewing
    } else if s == "planning"@ {
        CapabilityView::Planning
    } else if s == "documentation"@ {
        CapabilityView::Documentation
    } else if s == "research"@ {
        CapabilityView::Research
    } else if s == "frontend"@ {
        CapabilityView::Frontend
    } else if s == "backend"@ {
        CapabilityView::Backend
    } else if s == "database"@ {
        CapabilityView::Database
    } else if s == "devops"@ {
        CapabilityView::DevOps
    } else if s == "security"@ {
        CapabilityView::Security
    } else if s == "human"@ {
        CapabilityView::Human
    } else {
        CapabilityView::Custom(s)
    }
}

/// The name of a capability.
pub open spec fn capability_name(c: CapabilityView) -> Seq<char> {
    match c {
        CapabilityView::Coding => "coding"@,
        CapabilityView::Testing => "testing"@,
        CapabilityView::Reviewing => "reviewing"@,
        CapabilityView::Planning => "planning"@,
        CapabilityView::Documentation => "documentation"@,
        CapabilityView::Research => "research"@,
        CapabilityView::Frontend => "frontend"@,
        CapabilityView::Backend => "backend"@,
        CapabilityView::Database => "database"@,
        CapabilityView::DevOps => "devops"@,
        CapabilityView::Security => "security"@,
        CapabilityView::Human => "human"@,
        CapabilityView::Custom(name) => name,
    }
}

/// The capabilities that a list names; what is not text in it is passed over.
pub open spec fn capabilities_named(items: Seq<Option<Seq<char>>>) -> Seq<CapabilityView>
    decreases items.len(),
{
    if items.len() == 0 {
        Seq::empty()
    } else {
        match items.last() {
            Some(name) => capabilities_named(items.drop_last()).push(capability_of_name(name)),
            None => capabilities_named(items.drop_last()),
        }
    }
}

/// The capabilities that a task requires, by its extra fields.
pub open spec fn capabilities_of_wire(extra: ExtraFields) -> Seq<CapabilityView> {
    match extra_list(extra, DIRECTOR_CAPABILITIES_KEY@) {
        Some(items) => capabilities_named(items),
        None => Seq::empty(),
    }
}

/// The objective of a task: its notes, unless they are blank, or else its title.
pub open spec fn objective_of_wire(data: TaskDataView) -> Seq<char> {
    match data.notes {
        Some(notes) => if trimmed(notes).len() > 0 {
            notes
        } else {
            data.title
        },
        None => data.title,
    }
}

/// The instant that a time on the wire stands for. Where it is not RFC 3339, what
/// stands before its first dot is read as a time in UTC.
pub open spec fn wire_instant(text: Seq<char>) -> Option<(int, int)> {
    match rfc3339_instant(text) {
        Some(instant) => Some(instant),
        None => naive_instant(pieces(text, '.')[0], NAIVE_TIME_FORMAT@),
    }
}

/// A stamp is the time on the wire, or where that cannot be read what the clock
/// showed at the reading.
pub open spec fn stamped(stamp: Timestamp, text: Seq<char>) -> bool {
    match wire_instant(text) {
        Some(instant) => stamp@ == instant,
        None => clock_time(stamp@),
    }
}

/// Director's task for a substrate task.
pub open spec fn task_of_wire(
    data: TaskDataView,
    trusted: bool,
    created_at: Timestamp,
    updated_at: Timestamp,
) -> TaskView {
    TaskView {
        id: data.id,
        title: data.title,
        objective: objective_of_wire(data),
        expected_outputs: data.done_criteria.map_values(
            |c: DoneCriterionView| ExpectedOutputView { criterion: c.item, check: None },
        ),
        status: status_of_wire(data.status, data.extra, trusted),
        priority: priority_of_wire(data.priority, data.extra),
        complexity: complexity_of_wire(data.extra),
        dependencies: data.dependencies,
        scope_paths: data.scope_paths,
        required_capabilities: capabilities_of_wire(data.extra),
        subtasks: Seq::empty(),
        created_at,
        updated_at,
    }
}

/// A task is what a substrate task reads as. The reader puts the time of reading in
/// the place of a time that cannot be read.
pub open spec fn task_reads_as(t: TaskView, data: TaskDataView, trusted: bool) -> bool {
    &&& t == task_of_wire(data, trusted, t.created_at, t.updated_at)
    &&& stamped(t.created_at, data.created_at)
    &&& stamped(t.updated_at, data.updated_at)
}

/// The extra fields that a task is written with.
pub open spec fn extra_of_task(t: TaskView) -> ExtraFields {
    let none: ExtraFields = Map::empty();
    let status = match wire_status(t.status).1 {
        Some(s) => with_field(none, DIRECTOR_STATUS_KEY@, ExtraValueView::Text(s)),
        None => none,
    };
    let priority = match wire_priority(t.priority).1 {
        Some(p) => with_field(status, DIRECTOR_PRIORITY_KEY@, ExtraValueView::Text(p)),
        None => status,
    };
    let complexity = if t.complexity != Complexity::Unknown {
        with_field(
            priority,
            DIRECTOR_COMPLEXITY_KEY@,
            ExtraValueView::Text(complexity_name(t.complexity)),
        )
    } else {
        priority
    };
    let capabilities = if t.required_capabilities.len() > 0 {
        with_field(
            complexity,
            DIRECTOR_CAPABILITIES_KEY@,
            ExtraValueView::List(
                t.required_capabilities.map_values(
                    |c: CapabilityView| Some(capability_name(c)),
                ),
            ),
        )
    } else {
        complexity
    };
    if t.status == TaskStatus::Done {
        with_field(capabilities, DIRECTOR_VERIFIED_KEY@, ExtraValueView::Flag(true))
    } else {
        capabilities
    }
}

/// The substrate task for Director's.
pub open spec fn wire_of_task(t: TaskView) -> TaskDataView {
    TaskDataView {
        id: t.id,
        title: t.title,
        status: wire_status(t.status).0,
        notes: if t.objective != t.title {
            Some(t.objective)
        } else {
            None
        },
        priority: wire_priority(t.priority).0,
        created_at: rfc3339_text(t.created_at@),
        updated_at: rfc3339_text(t.updated_at@),
        completed_at: if t.status.terminal_state() {
            Some(rfc3339_text(t.updated_at@))
        } else {
            None
        },
        labels: Seq::empty(),
        links: Seq::empty(),
        task_links: Seq::empty(),
        done_criteria: t.expected_outputs.map_values(
            |o: ExpectedOutputView| DoneCriterionView { item: o.criterion, checked: false },
        ),
        schedule: None,
        dependencies: t.dependencies,
        dependents: None,
        order: None,
        assignee: None,
        lock: None,
        scope_paths: t.scope_paths,
        extra: extra_of_task(t),
    }
}

/// The text of an extra field.
fn text_field<'a>(extra: &'a Registry<ExtraEntry>, name: &str) -> (r: Option<&'a String>)
    requires
        extra.well_formed(),
    ensures
        r.deep_view() == extra_text(extra@, name@),
{
    match extra.get(name) {
        Some(entry) => match &entry.value {
            ExtraValue::Text(text) => Some(text),
            _ => None,
        },
        None => None,
    }
}

/// Whether an extra field is there and is true.
fn flag_is_set(extra: &Registry<ExtraEntry>, name: &str) -> (r: bool)
    requires
        extra.well_formed(),
    ensures
        r == extra_is_set(extra@, name@),
{
    match extra.get(name) {
        Some(entry) => match &entry.value {
            ExtraValue::Flag(flag) => *flag,
            _ => false,
        },
        None => false,
    }
}

/// Reads a status that Director wrote.
pub fn status_from_director_string(s: &str) -> (r: TaskStatus)
    ensures
        r == director_status(s@),
{
    if same_text(s, "backlog") {
        TaskStatus::Backlog
    } else if same_text(s, "todo") {
        TaskStatus::Todo
    } else if same_text(s, "in_progress") {
        TaskStatus::InProgress
    } else if same_text(s, "blocked") {
        TaskStatus::Blocked
    } else if same_text(s, "verification_pending") {
        TaskStatus::VerificationPending
    } else if same_text(s, "done") {
        TaskStatus::Done
    } else if same_text(s, "failed") {
        TaskStatus::Failed
    } else if same_text(s, "cancelled") {
        TaskStatus::Cancelled
    } else {
        TaskStatus::VerificationPending
    }
}

/// Reads a substrate status as Director's. A `done` counts as done only when it is
/// marked as verified, or its task is one that Director itself completed.
pub fn status_from_wire(
    substrate: &str,
    extra: &Registry<ExtraEntry>,
    task_id: &str,
    trusted_done_ids: &Vec<String>,
) -> (r: TaskStatus)
    requires
        extra.well_formed(),
    ensures
        r == status_of_wire(
            substrate@,
            extra@,
            trusted_done_ids.deep_view().contains(task_id@),
        ),
{
    let vouched: bool = flag_is_set(extra, DIRECTOR_VERIFIED_KEY) || is_listed(
        trusted_done_ids,
        task_id,
    );
    if let Some(written) = text_field(extra, DIRECTOR_STATUS_KEY) {
        let status: TaskStatus = status_from_director_string(written.as_str());
        return if status != TaskStatus::Done {
            status
        } else if same_text(substrate, "done") && vouched {
            TaskStatus::Done
        } else {
            TaskStatus::VerificationPending
        };
    }
    if same_text(substrate, "todo") {
        TaskStatus::Todo
    } else if same_text(substrate, "in_progress") {
        TaskStatus::InProgress
    } else if same_text(substrate, "blocked") {
        TaskStatus::Blocked
    } else if same_text(substrate, "review") {
        TaskStatus::VerificationPending
    } else if same_text(substrate, "done") {
        if vouched {
            TaskStatus::Done
        } else {
            TaskStatus::VerificationPending
        }
    } else if same_text(substrate, "skipped") {
        TaskStatus::Cancelled
    } else {
        TaskStatus::VerificationPending
    }
}

/// The substrate's nearest status, and the status to keep beside it where the
/// substrate cannot express it.
pub fn status_to_wire(status: TaskStatus) -> (r: (String, Option<String>))
    ensures
        (r.0@, r.1.deep_view()) == wire_status(status),
{
    match status {
        TaskStatus::Todo => ("todo".to_owned(), None),
        TaskStatus::InProgress => ("in_progress".to_owned(), None),
        TaskStatus::Blocked => ("blocked".to_owned(), None),
        TaskStatus::Done => ("done".to_owned(), None),
        TaskStatus::Backlog => ("todo".to_owned(), Some("backlog".to_owned())),
        TaskStatus::VerificationPending => (
            "in_progress".to_owned(),
            Some("verification_pending".to_owned()),
        ),
        TaskStatus::Failed => ("done".to_owned(), Some("failed".to_owned())),
        TaskStatus::Cancelled => ("done".to_owned(), Some("cancelled".to_owned())),
    }
}

/// Reads a substrate priority as Director's.
fn priority_from_wire(priority: &Option<String>, extra: &Registry<ExtraEntry>) -> (r: Option<
    Priority,
>)
    requires
        extra.well_formed(),
    ensures
        r == priority_of_wire(priority.deep_view(), extra@),
{
    if let Some(written) = text_field(extra, DIRECTOR_PRIORITY_KEY) {
        if same_text(written.as_str(), "critical") {
            return Some(Priority::Critical);
        }
    }
    match priority {
        None => None,
        Some(p) => if same_text(p.as_str(), "high") {
            Some(Priority::High)
        } else if same_text(p.as_str(), "medium") {
            Some(Priority::Medium)
        } else if same_text(p.as_str(), "low") {
            Some(Priority::Low)
        } else {
            Some(Priority::Medium)
        },
    }
}

/// The substrate's nearest priority, and the priority to keep beside it.
fn priority_to_wire(priority: Option<Priority>) -> (r: (Option<String>, Option<String>))
    ensures
        (r.0.deep_view(), r.1.deep_view()) == wire_priority(priority),
{
    match priority {
        None => (None, None),
        Some(Priority::Critical) => (Some("high".to_owned()), Some("critical".to_owned())),
        Some(Priority::High) => (Some("high".to_owned()), None),
        Some(Priority::Medium) => (Some("medium".to_owned()), None),
        Some(Priority::Low) => (Some("low".to_owned()), None),
    }
}

/// The size with a given name.
fn complexity_from_wire(s: &str) -> (r: Complexity)
    ensures
        r == complexity_of_name(s@),
{
    if same_text(s, "trivial") {
        Complexity::Trivial
    } else if same_text(s, "small") {
        Complexity::Small
    } else if same_text(s, "medium") {
        Complexity::Medium
    } else if same_text(s, "large") {
        Complexity::Large
    } else {
        Complexity::Unknown
    }
}

/// The name of a size.
fn complexity_to_wire(c: Complexity) -> (r: String)
    ensures
        r@ == complexity_name(c),
{
    match c {
        Complexity::Trivial => "trivial".to_owned(),
        Complexity::Small => "small".to_owned(),
        Complexity::Medium => "medium".to_owned(),
        Complexity::Large => "large".to_owned(),
        Complexity::Unknown => "unknown".to_owned(),
    }
}

/// The capability with a given name.
fn capability_from_wire(s: &str) -> (r: Capability)
    ensures
        r@ == capability_of_name(s@),
{
    if same_text(s, "coding") {
        Capability::Coding
    } else if same_text(s, "testing") {
        Capability::Testing
    } else if same_text(s, "reviewing") {
        Capability::Reviewing
    } else if same_text(s, "planning") {
        Capability::Planning
    } else if same_text(s, "documentation") {
        Capability::Documentation
    } else if same_text(s, "research") {
        Capability::Research
    } else if same_text(s, "frontend") {
        Capability::Frontend
    } else if same_text(s, "backend") {
        Capability::Backend
    } else if same_text(s, "database") {
        Capability::Database
    } else if same_text(s, "devops") {
        Capability::DevOps
    } else if same_text(s, "security") {
        Capability::Security
    } else if same_text(s, "human") {
        Capability::Human
    } else {
        Capability::Custom(s.to_owned())
    }
}

/// The name of a capability.
fn capability_to_wire(c: &Capability) -> (r: String)
    ensures
        r@ == capability_name(c@),
{
    match c {
        Capability::Coding => "coding".to_owned(),
        Capability::Testing => "testing".to_owned(),
        Capability::Reviewing => "reviewing".to_owned(),
        Capability::Planning => "planning".to_owned(),
        Capability::Documentation => "documentation".to_owned(),
        Capability::Research => "research".to_owned(),
        Capability::Frontend => "frontend".to_owned(),
        Capability::Backend => "backend".to_owned(),
        Capability::Database => "database".to_owned(),
        Capability::DevOps => "devops".to_owned(),
        Capability::Security => "security".to_owned(),
        Capability::Human => "human".to_owned(),
        Capability::Custom(name) => name.clone(),
    }
}

/// The capabilities that a task requires, by its extra fields.
fn capabilities_from_wire(extra: &Registry<ExtraEntry>) -> (r: Vec<Capability>)
    requires
        extra.well_formed(),
    ensures
        r.deep_view() == capabilities_of_wire(extra@),
{
    let mut r: Vec<Capability> = Vec::new();
    assert(r.deep_view() =~= Seq::empty());
    let items: &Vec<Option<String>> = match extra.get(DIRECTOR_CAPABILITIES_KEY) {
        Some(entry) => match &entry.value {
            ExtraValue::List(items) => items,
            _ => {
                return r;
            },
        },
        None => {
            return r;
        },
    };
    let ghost all = items.deep_view();
    let mut i: usize = 0;
    assert(all.take(0) =~= Seq::empty());
    while i < items.len()
        invariant
            i <= items.len(),
            all == items.deep_view(),
            r.deep_view() == capabilities_named(all.take(i as int)),
        decreases items.len() - i,
    {
        let ghost before = r.deep_view();
        assert(all.take(i + 1).drop_last() =~= all.take(i as int));
        assert(all[i as int] == items@[i as int].deep_view());
        if let Some(name) = &items[i] {
            r.push(capability_from_wire(name.as_str()));
            assert(r.deep_view() =~= before.push(capability_of_name(name@)));
        }
        i += 1;
    }
    assert(all.take(all.len() as int) =~= all);
    r
}

/// The objective of a substrate task.
fn objective_of(data: &TaskData) -> (r: String)
    ensures
        r@ == objective_of_wire(data@),
{
    if let Some(notes) = &data.notes {
        if trim_chars(notes.as_str()).len() > 0 {
            return notes.clone();
        }
    }
    data.title.clone()
}

/// Reads a time on the wire.
pub fn parse_timestamp(s: &str) -> (r: Option<Timestamp>)
    ensures
        instant_of(r) == wire_instant(s@),
{
    match Timestamp::parse_rfc3339(s) {
        Some(instant) => Some(instant),
        None => {
            let parts: Vec<Vec<char>> = split_text(s, '.');
            proof {
                crate::text::lemma_pieces_nonempty(s@, '.');
                assert(pieces(s@, '.')[0] == parts@[0].deep_view());
                assert(parts@[0].deep_view() =~= parts@[0]@);
            }
            let front: String = string_of(&parts[0]);
            Timestamp::parse_naive(front.as_str(), NAIVE_TIME_FORMAT)
        },
    }
}

/// Director's task for a substrate task. `trusted_done_ids` are the tasks whose
/// `done` Director itself produced.
pub fn task_from_wire(data: &TaskData, trusted_done_ids: &Vec<String>) -> (r: Task)
    requires
        data.extra.well_formed(),
    ensures
        task_reads_as(r@, data@, trusted_done_ids.deep_view().contains(data@.id)),
{
    let mut task: Task = Task::new(
        TaskId::from_string(data.id.as_str()),
        data.title.as_str(),
        objective_of(data).as_str(),
    );
    task.status = status_from_wire(
        data.status.as_str(),
        &data.extra,
        data.id.as_str(),
        trusted_done_ids,
    );
    task.priority = priority_from_wire(&data.priority, &data.extra);
    task.complexity = match text_field(&data.extra, DIRECTOR_COMPLEXITY_KEY) {
        Some(name) => complexity_from_wire(name.as_str()),
        None => Complexity::Unknown,
    };
    task.required_capabilities = capabilities_from_wire(&data.extra);
    let mut dependencies: Vec<TaskId> = Vec::new();
    let mut i: usize = 0;
    while i < data.dependencies.len()
        invariant
            i <= data.dependencies.len(),
            dependencies@.len() == i,
            forall|j: int|
                0 <= j < i ==> (#[trigger] dependencies@[j])@ == data.dependencies@[j]@,
        decreases data.dependencies.len() - i,
    {
        dependencies.push(TaskId::from_string(data.dependencies[i].as_str()));
        i += 1;
    }
    assert(dependencies.deep_view() =~= data.dependencies.deep_view());
    task.dependencies = dependencies;
    task.scope_paths = data.scope_paths.clone();
    assert(task.scope_paths.deep_view() =~= data.scope_paths.deep_view());
    let mut outputs: Vec<ExpectedOutput> = Vec::new();
    let mut k: usize = 0;
    while k < data.done_criteria.len()
        invariant
            k <= data.done_criteria.len(),
            outputs@.len() == k,
            forall|j: int|
                0 <= j < k ==> (#[trigger] outputs@[j])@ == (ExpectedOutputView {
                    criterion: data.done_criteria@[j].item@,
                    check: None,
                }),
        decreases data.done_criteria.len() - k,
    {
        outputs.push(
            ExpectedOutput { criterion: data.done_criteria[k].item.clone(), check: None },
        );
        k += 1;
    }
    assert(outputs.deep_view() =~= data@.done_criteria.map_values(
        |c: DoneCriterionView| ExpectedOutputView { criterion: c.item, check: None },
    ));
    task.expected_outputs = outputs;
    task.created_at = match parse_timestamp(data.created_at.as_str()) {
        Some(instant) => instant,
        None => Timestamp::now(),
    };
    task.updated_at = match parse_timestamp(data.updated_at.as_str()) {
        Some(instant) => instant,
        None => Timestamp::now(),
    };
    task
}

/// The extra fields that a task is written with.
fn extra_to_wire(task: &Task) -> (extra: Registry<ExtraEntry>)
    ensures
        extra.well_formed(),
        extra@ == extra_of_task(task@),
{
    let mut extra: Registry<ExtraEntry> = Registry::new();
    if let Some(status) = status_to_wire(task.status).1 {
        extra.insert(
            ExtraEntry { name: DIRECTOR_STATUS_KEY.to_owned(), value: ExtraValue::Text(status) },
        );
    }
    if let Some(priority) = priority_to_wire(task.priority).1 {
        extra.insert(
            ExtraEntry {
                name: DIRECTOR_PRIORITY_KEY.to_owned(),
                value: ExtraValue::Text(priority),
            },
        );
    }
    if task.complexity != Complexity::Unknown {
        extra.insert(
            ExtraEntry {
                name: DIRECTOR_COMPLEXITY_KEY.to_owned(),
                value: ExtraValue::Text(complexity_to_wire(task.complexity)),
            },
        );
    }
    if task.required_capabilities.len() > 0 {
        let mut names: Vec<Option<String>> = Vec::new();
        let mut i: usize = 0;
        while i < task.required_capabilities.len()
            invariant
                i <= task.required_capabilities.len(),
                names@.len() == i,
                forall|j: int|
                    0 <= j < i ==> (#[trigger] names@[j]).deep_view() == Some(
                        capability_name(task.required_capabilities@[j]@),
                    ),
            decreases task.required_capabilities.len() - i,
        {
            names.push(Some(capability_to_wire(&task.required_capabilities[i])));
            i += 1;
        }
        assert(names.deep_view() =~= task@.required_capabilities.map_values(
            |c: CapabilityView| Some(capability_name(c)),
        ));
        extra.insert(
            ExtraEntry {
                name: DIRECTOR_CAPABILITIES_KEY.to_owned(),
                value: ExtraValue::List(names),
            },
        );
    }
    if task.status == TaskStatus::Done {
        extra.insert(
            ExtraEntry { name: DIRECTOR_VERIFIED_KEY.to_owned(), value: ExtraValue::Flag(true) },
        );
    }
    extra
}

/// The substrate task for Director's. What the substrate cannot express rides in
/// the extra fields; no criterion is ticked.
pub fn task_to_wire(task: &Task) -> (r: TaskData)
    ensures
        r@ == wire_of_task(task@),
        r.extra.well_formed(),
        four_digit_year(task.created_at@.0) ==> wire_instant(r@.created_at) == Some(
            task.created_at@,
        ),
        four_digit_year(task.updated_at@.0) ==> wire_instant(r@.updated_at) == Some(
            task.updated_at@,
        ),
{
    let mut dependencies: Vec<String> = Vec::new();
    let mut i: usize = 0;
    while i < task.dependencies.len()
        invariant
            i <= task.dependencies.len(),
            dependencies@.len() == i,
            forall|j: int|
                0 <= j < i ==> (#[trigger] dependencies@[j])@ == task.dependencies@[j]@,
        decreases task.dependencies.len() - i,
    {
        dependencies.push(task.dependencies[i].to_string());
        i += 1;
    }
    assert(dependencies.deep_view() =~= task.dependencies.deep_view());
    let mut criteria: Vec<DoneCriterion> = Vec::new();
    let mut k: usize = 0;
    while k < task.expected_outputs.len()
        invariant
            k <= task.expected_outputs.len(),
            criteria@.len() == k,
            forall|j: int|
                0 <= j < k ==> (#[trigger] criteria@[j])@ == (DoneCriterionView {
                    item: task.expected_outputs@[j].criterion@,
                    checked: false,
                }),
        decreases task.expected_outputs.len() - k,
    {
        criteria.push(
            DoneCriterion { item: task.expected_outputs[k].criterion.clone(), checked: false },
        );
        k += 1;
    }
    assert(criteria.deep_view() =~= task@.expected_outputs.map_values(
        |o: ExpectedOutputView| DoneCriterionView { item: o.criterion, checked: false },
    ));
    let updated_at: String = task.updated_at.to_rfc3339();
    let r: TaskData = TaskData {
        id: task.id.to_string(),
        title: task.title.clone(),
        status: status_to_wire(task.status).0,
        notes: if !same_text(task.objective.as_str(), task.title.as_str()) {
            Some(task.objective.clone())
        } else {
            None
        },
        priority: priority_to_wire(task.priority).0,
        created_at: task.created_at.to_rfc3339(),
        updated_at: updated_at.clone(),
        completed_at: if task.status.is_terminal() {
            Some(updated_at)
        } else {
            None
        },
        labels: Vec::new(),
        links: Vec::new(),
        task_links: Vec::new(),
        done_criteria: criteria,
        schedule: None,
        dependencies,
        dependents: None,
        order: None,
        assignee: None,
        lock: None,
        scope_paths: task.scope_paths.clone(),
        extra: extra_to_wire(task),
    };
    assert(r.labels.deep_view() =~= Seq::empty());
    assert(r.links.deep_view() =~= Seq::empty());
    assert(r.task_links.deep_view() =~= Seq::empty());
    assert(r.scope_paths.deep_view() =~= task.scope_paths.deep_view());
    r
}

/// What a substrate agent's status means. `active` says only that the agent is
/// alive; whether it is free depends on whether it holds a task.
pub open spec fn agent_status_of_wire(s: Seq<char>, holds_tasks: bool) -> AgentStatus {
    if s == "active"@ {
        if holds_tasks {
            AgentStatus::Busy
        } else {
            AgentStatus::Available
        }
    } else if s == "stale"@ {
        AgentStatus::Stale
    } else if s == "disconnected"@ {
        AgentStatus::Disconnected
    } else {
        AgentStatus::Offline
    }
}

/// A character of a machine id: letters, digits and dashes stay, anything else
/// becomes a dash.
pub open spec fn slug_char(c: char) -> char {
    if ('a' <= c && c <= 'z') || ('A' <= c && c <= 'Z') || ('0' <= c && c <= '9') || c == '-' {
        c
    } else {
        '-'
    }
}

/// The id of the machine that a working tree is on, as far as its path tells.
pub open spec fn machine_of_worktree(worktree: Seq<char>) -> Seq<char> {
    "MACH-"@ + worktree.map_values(|c: char| slug_char(c))
}

/// Director's agent for a substrate agent.
pub open spec fn agent_of_wire(
    record: AgentRecordView,
    registered_at: Timestamp,
    last_seen: Timestamp,
) -> AgentView {
    AgentView {
        id: record.agent_id,
        name: record.agent_id,
        harness: HarnessView::Other("handoff-mcp"@),
        model: None,
        capabilities: Seq::empty(),
        machine: machine_of_worktree(record.worktree),
        status: agent_status_of_wire(record.status, record.claimed_tasks.len() > 0),
        current_task: if record.session_id is Some && record.claimed_tasks.len() > 0 {
            Some(record.claimed_tasks[0])
        } else {
            None
        },
        registered_at,
        last_seen,
    }
}

/// An agent is what a substrate agent reads as.
pub open spec fn agent_reads_as(a: AgentView, record: AgentRecordView) -> bool {
    &&& a == agent_of_wire(record, a.registered_at, a.last_seen)
    &&& stamped(a.registered_at, record.registered_at)
    &&& stamped(a.last_seen, record.last_heartbeat)
}

/// What a substrate agent's status means.
fn agent_status_from_wire(substrate: &str, holds_tasks: bool) -> (r: AgentStatus)
    ensures
        r == agent_status_of_wire(substrate@, holds_tasks),
{
    if same_text(substrate, "active") {
        if holds_tasks {
            AgentStatus::Busy
        } else {
            AgentStatus::Available
        }
    } else if same_text(substrate, "stale") {
        AgentStatus::Stale
    } else if same_text(substrate, "disconnected") {
        AgentStatus::Disconnected
    } else {
        AgentStatus::Offline
    }
}

/// The id of the machine that a working tree is on: two agents in the same
/// working tree are on the same machine.
fn machine_id_for(worktree: &str) -> (r: String)
    ensures
        r@ == machine_of_worktree(worktree@),
{
    let chars: Vec<char> = chars_of(worktree);
    let mut slug: Vec<char> = Vec::new();
    let mut i: usize = 0;
    while i < chars.len()
        invariant
            i <= chars.len(),
            slug@.len() == i,
            forall|j: int| 0 <= j < i ==> #[trigger] slug@[j] == slug_char(chars@[j]),
        decreases chars.len() - i,
    {
        let c: char = chars[i];
        if ('a' <= c && c <= 'z') || ('A' <= c && c <= 'Z') || ('0' <= c && c <= '9') || c == '-' {
            slug.push(c);
        } else {
            slug.push('-');
        }
        i += 1;
    }
    assert(slug@ =~= worktree@.map_values(|c: char| slug_char(c)));
    joined("MACH-", string_of(&slug).as_str())
}

/// Director's agent for a substrate agent. A time that cannot be read is replaced
/// by the time of the call.
pub fn agent_from_wire(record: &AgentRecord) -> (r: Agent)
    ensures
        agent_reads_as(r@, record@),
{
    let mut agent: Agent = Agent::register(
        AgentId::from_string(record.agent_id.as_str()),
        record.agent_id.as_str(),
        Harness::other("handoff-mcp"),
        MachineId::from_string(machine_id_for(record.worktree.as_str()).as_str()),
        Vec::new(),
    );
    assert(agent.capabilities.deep_view() =~= Seq::empty());
    agent.status = agent_status_from_wire(record.status.as_str(), record.claimed_tasks.len() > 0);
    if let Some(instant) = parse_timestamp(record.registered_at.as_str()) {
        agent.registered_at = instant;
    }
    if let Some(instant) = parse_timestamp(record.last_heartbeat.as_str()) {
        agent.last_seen = instant;
    }
    if record.session_id.is_some() && record.claimed_tasks.len() > 0 {
        agent.current_task = Some(TaskId::from_string(record.claimed_tasks[0].as_str()));
    }
    agent
}

/// The agent id for a session that names no owner.
pub fn unknown_agent_id() -> (r: &'static str)
    ensures
        r@ == "AGENT-unknown"@,
{
    "AGENT-unknown"
}

/// What a substrate session's status means.
pub open spec fn session_status_of_wire(s: Seq<char>) -> SessionStatus {
    if s == "open"@ {
        SessionStatus::Open
    } else if s == "active"@ {
        SessionStatus::Active
    } else if s == "paused"@ {
        SessionStatus::Paused
    } else {
        SessionStatus::Closed
    }
}

/// How a session with this status ended, once it has.
pub open spec fn session_end_of_wire(s: Seq<char>) -> SessionEnd {
    if s == "closed"@ {
        SessionEnd::Clean
    } else if s == "paused"@ {
        SessionEnd::ContextExhausted
    } else {
        SessionEnd::Forked
    }
}

/// The instant of an optional time on the wire.
pub open spec fn optional_wire_instant(text: Option<Seq<char>>) -> Option<(int, int)> {
    match text {
        Some(text) => wire_instant(text),
        None => None,
    }
}

/// Director's session for a substrate session. An owner that is not named is not
/// guessed.
pub open spec fn session_of_wire(
    summary: SessionSummaryView,
    started_at: Timestamp,
    ended_at: Option<Timestamp>,
) -> AgentSessionView {
    AgentSessionView {
        id: summary.id,
        agent_id: match summary.agent_id {
            Some(agent) => agent,
            None => "AGENT-unknown"@,
        },
        machine_id: machine_of_worktree(
            match summary.worktree {
                Some(worktree) => worktree,
                None => "unknown"@,
            },
        ),
        task_id: None,
        status: session_status_of_wire(summary.status),
        parent_session_id: summary.parent_session_id,
        started_at,
        ended_at,
        end: if ended_at is Some {
            Some(session_end_of_wire(summary.status))
        } else {
            None
        },
        workdir: summary.worktree,
    }
}

/// A session is what a substrate session reads as.
pub open spec fn session_reads_as(s: AgentSessionView, summary: SessionSummaryView) -> bool {
    &&& s == session_of_wire(summary, s.started_at, s.ended_at)
    &&& instant_of(s.ended_at) == optional_wire_instant(summary.ended_at)
    &&& match optional_wire_instant(summary.started_at) {
        Some(instant) => s.started_at@ == instant,
        None => clock_time(s.started_at@),
    }
}

/// What a substrate session's status means.
fn session_status_from_wire(status: &str) -> (r: SessionStatus)
    ensures
        r == session_status_of_wire(status@),
{
    if same_text(status, "open") {
        SessionStatus::Open
    } else if same_text(status, "active") {
        SessionStatus::Active
    } else if same_text(status, "paused") {
        SessionStatus::Paused
    } else {
        SessionStatus::Closed
    }
}

/// How a session with this status ended.
fn session_end_from_wire(status: &str) -> (r: SessionEnd)
    ensures
        r == session_end_of_wire(status@),
{
    if same_text(status, "closed") {
        SessionEnd::Clean
    } else if same_text(status, "paused") {
        SessionEnd::ContextExhausted
    } else {
        SessionEnd::Forked
    }
}

/// Reads an optional time on the wire.
fn parse_optional(text: &Option<String>) -> (r: Option<Timestamp>)
    ensures
        instant_of(r) == optional_wire_instant(text.deep_view()),
{
    match text {
        Some(text) => parse_timestamp(text.as_str()),
        None => None,
    }
}

/// Director's session for a substrate session. A start that cannot be read is
/// replaced by the time of the call.
pub fn session_from_wire(summary: &SessionSummary) -> (r: AgentSession)
    ensures
        session_reads_as(r@, summary@),
{
    let agent_id: AgentId = match &summary.agent_id {
        Some(agent) => AgentId::from_string(agent.as_str()),
        None => AgentId::from_string(unknown_agent_id()),
    };
    let machine: String = match &summary.worktree {
        Some(worktree) => machine_id_for(worktree.as_str()),
        None => machine_id_for("unknown"),
    };
    let mut session: AgentSession = AgentSession::start(
        SessionId::from_string(summary.id.as_str()),
        agent_id,
        MachineId::from_string(machine.as_str()),
        None,
    );
    session.parent_session_id = match &summary.parent_session_id {
        Some(parent) => Some(SessionId::from_string(parent.as_str())),
        None => None,
    };
    session.workdir = summary.worktree.clone();
    if let Some(instant) = parse_optional(&summary.started_at) {
        session.started_at = instant;
    }
    session.status = session_status_from_wire(summary.status.as_str());
    session.ended_at = parse_optional(&summary.ended_at);
    session.end = match session.ended_at {
        Some(_) => Some(session_end_from_wire(summary.status.as_str())),
        None => None,
    };
    session
}

/// The names of the extra fields are all different.
proof fn lemma_names_differ()
    ensures
        DIRECTOR_STATUS_KEY@ != DIRECTOR_VERIFIED_KEY@,
        DIRECTOR_STATUS_KEY@ != DIRECTOR_PRIORITY_KEY@,
        DIRECTOR_STATUS_KEY@ != DIRECTOR_CAPABILITIES_KEY@,
        DIRECTOR_STATUS_KEY@ != DIRECTOR_COMPLEXITY_KEY@,
        DIRECTOR_VERIFIED_KEY@ != DIRECTOR_PRIORITY_KEY@,
        DIRECTOR_VERIFIED_KEY@ != DIRECTOR_CAPABILITIES_KEY@,
        DIRECTOR_VERIFIED_KEY@ != DIRECTOR_COMPLEXITY_KEY@,
        DIRECTOR_PRIORITY_KEY@ != DIRECTOR_CAPABILITIES_KEY@,
        DIRECTOR_PRIORITY_KEY@ != DIRECTOR_COMPLEXITY_KEY@,
        DIRECTOR_CAPABILITIES_KEY@ != DIRECTOR_COMPLEXITY_KEY@,
{
    reveal_strlit("director_status");
    reveal_strlit("director_verified");
    reveal_strlit("director_priority");
    reveal_strlit("director_capabilities");
    reveal_strlit("director_complexity");
    assert("director_status"@.len() == 15);
    assert("director_capabilities"@.len() == 21);
    assert("director_complexity"@.len() == 19);
    assert("director_verified"@[9] != "director_priority"@[9]);
}

/// A task reads as done only where the substrate says so and Director vouches for it,
/// by the mark or because it completed the task itself.
pub proof fn law_only_a_vouched_done_is_done(s: Seq<char>, extra: ExtraFields, trusted: bool)
    ensures
        status_of_wire(s, extra, trusted) == TaskStatus::Done ==> {
            &&& s == "done"@
            &&& extra_is_set(extra, DIRECTOR_VERIFIED_KEY@) || trusted
        },
{
}

/// An agent's `done` is never Director's: where the mark is missing and Director did
/// not produce it, no substrate status reads as done, whatever else the extra fields
/// say.
pub proof fn law_self_reported_done_is_not_done(s: Seq<char>, extra: ExtraFields)
    requires
        !extra_is_set(extra, DIRECTOR_VERIFIED_KEY@),
    ensures
        status_of_wire(s, extra, false) != TaskStatus::Done,
        s == "done"@ && extra_text(extra, DIRECTOR_STATUS_KEY@) is None ==> status_of_wire(
            s,
            extra,
            false,
        ) == TaskStatus::VerificationPending,
        extra_text(extra, DIRECTOR_STATUS_KEY@) == Some("done"@) ==> status_of_wire(
            s,
            extra,
            false,
        ) == TaskStatus::VerificationPending,
{
    reveal_strlit("backlog");
    reveal_strlit("verification_pending");
    assert("backlog"@.len() == 7 && "verification_pending"@.len() == 20);
    reveal_strlit("todo");
    reveal_strlit("in_progress");
    reveal_strlit("blocked");
    reveal_strlit("review");
    reveal_strlit("done");
    assert("todo"@[0] != "done"@[0]);
}

/// Every status survives the wire, whether or not the reader trusts the task:
/// what the substrate cannot express, and that a `done` was decided here, are
/// read back from the extra fields.
pub proof fn law_status_survives_the_wire(t: TaskView, trusted: bool)
    ensures
        status_of_wire(wire_of_task(t).status, wire_of_task(t).extra, trusted) == t.status,
{
    lemma_names_differ();
    reveal_strlit("backlog");
    reveal_strlit("todo");
    reveal_strlit("in_progress");
    reveal_strlit("blocked");
    reveal_strlit("verification_pending");
    reveal_strlit("done");
    reveal_strlit("failed");
    reveal_strlit("cancelled");
    reveal_strlit("review");
    assert("todo"@.len() == 4 && "todo"@[0] == 't');
    assert("in_progress"@.len() == 11 && "in_progress"@[0] == 'i');
    assert("verification_pending"@.len() == 20 && "verification_pending"@[0] == 'v');
    assert("done"@.len() == 4 && "done"@[0] == 'd');
    assert("failed"@.len() == 6 && "failed"@[0] == 'f');
    assert("cancelled"@.len() == 9 && "cancelled"@[0] == 'c');
    assert("review"@.len() == 6 && "review"@[0] == 'r');
    assert("backlog"@.len() == 7 && "blocked"@.len() == 7);
    assert("backlog"@[1] != "blocked"@[1]);
    let extra = extra_of_task(t);
    assert(extra_text(extra, DIRECTOR_STATUS_KEY@) == wire_status(t.status).1);
    assert(extra_is_set(extra, DIRECTOR_VERIFIED_KEY@) == (t.status == TaskStatus::Done));
}

/// Every priority survives the wire.
pub proof fn law_priority_survives_the_wire(t: TaskView)
    ensures
        priority_of_wire(wire_of_task(t).priority, wire_of_task(t).extra) == t.priority,
{
    lemma_names_differ();
    reveal_strlit("high");
    reveal_strlit("medium");
    reveal_strlit("low");
    assert("high"@.len() == 4);
    assert("medium"@.len() == 6);
    assert(extra_text(extra_of_task(t), DIRECTOR_PRIORITY_KEY@) == wire_priority(t.priority).1);
}

/// Every size survives the wire.
pub proof fn law_complexity_survives_the_wire(t: TaskView)
    ensures
        complexity_of_wire(wire_of_task(t).extra) == t.complexity,
{
    lemma_names_differ();
    reveal_strlit("trivial");
    reveal_strlit("small");
    reveal_strlit("medium");
    reveal_strlit("large");
    reveal_strlit("unknown");
    assert("small"@[0] != "large"@[0]);
    assert("trivial"@[0] != "unknown"@[0]);
}

/// A capability is read back from its name. A custom one is, unless it has the
/// name of a fixed one.
pub open spec fn name_is_its_own(c: CapabilityView) -> bool {
    c matches CapabilityView::Custom(name) ==> capability_of_name(name) == c
}

proof fn lemma_capability_of_name(c: CapabilityView)
    requires
        name_is_its_own(c),
    ensures
        capability_of_name(capability_name(c)) == c,
{
    reveal_strlit("coding");
    reveal_strlit("testing");
    reveal_strlit("reviewing");
    reveal_strlit("planning");
    reveal_strlit("documentation");
    reveal_strlit("research");
    reveal_strlit("frontend");
    reveal_strlit("backend");
    reveal_strlit("database");
    reveal_strlit("devops");
    reveal_strlit("security");
    reveal_strlit("human");
    assert("coding"@.len() == 6 && "coding"@[0] == 'c');
    assert("testing"@.len() == 7 && "testing"@[0] == 't');
    assert("reviewing"@.len() == 9 && "reviewing"@[0] == 'r');
    assert("planning"@.len() == 8 && "planning"@[0] == 'p');
    assert("documentation"@.len() == 13 && "documentation"@[0] == 'd');
    assert("research"@.len() == 8 && "research"@[0] == 'r');
    assert("frontend"@.len() == 8 && "frontend"@[0] == 'f');
    assert("backend"@.len() == 7 && "backend"@[0] == 'b');
    assert("database"@.len() == 8 && "database"@[0] == 'd');
    assert("devops"@.len() == 6 && "devops"@[0] == 'd');
    assert("security"@.len() == 8 && "security"@[0] == 's');
    assert("human"@.len() == 5 && "human"@[0] == 'h');
}

proof fn lemma_capabilities_named(caps: Seq<CapabilityView>)
    requires
        forall|i: int| 0 <= i < caps.len() ==> name_is_its_own(#[trigger] caps[i]),
    ensures
        capabilities_named(caps.map_values(|c: CapabilityView| Some(capability_name(c)))) == caps,
    decreases caps.len(),
{
    let items = caps.map_values(|c: CapabilityView| Some(capability_name(c)));
    if caps.len() > 0 {
        let rest = caps.drop_last();
        lemma_capabilities_named(rest);
        lemma_capability_of_name(caps.last());
        assert(items.drop_last() =~= rest.map_values(
            |c: CapabilityView| Some(capability_name(c)),
        ));
        assert(rest.push(caps.last()) =~= caps);
    } else {
        assert(capabilities_named(items) =~= caps);
    }
}

/// Required capabilities survive the wire, in their order, where no custom one
/// has the name of a fixed one.
pub proof fn law_capabilities_survive_the_wire(t: TaskView)
    requires
        forall|i: int|
            0 <= i < t.required_capabilities.len() ==> name_is_its_own(
                #[trigger] t.required_capabilities[i],
            ),
    ensures
        capabilities_of_wire(wire_of_task(t).extra) == t.required_capabilities,
{
    lemma_names_differ();
    lemma_capabilities_named(t.required_capabilities);
    assert(t.required_capabilities.len() == 0 ==> t.required_capabilities =~= Seq::empty());
}

/// A task written to the wire and read back is the same task. Left out are a
/// blank objective that is not the title, custom capabilities with a fixed one's
/// name, and what the substrate has no place for: a criterion's check, and
/// subtasks.
pub proof fn law_task_survives_the_wire(t: TaskView, trusted: bool)
    requires
        t.objective == t.title || trimmed(t.objective).len() > 0,
        forall|i: int|
            0 <= i < t.required_capabilities.len() ==> name_is_its_own(
                #[trigger] t.required_capabilities[i],
            ),
        forall|i: int|
            0 <= i < t.expected_outputs.len() ==> (#[trigger] t.expected_outputs[i]).check is None,
        t.subtasks.len() == 0,
    ensures
        task_of_wire(wire_of_task(t), trusted, t.created_at, t.updated_at) == t,
        forall|read: TaskView| #[trigger]
            task_reads_as(read, wire_of_task(t), trusted) ==> read == (TaskView {
                created_at: read.created_at,
                updated_at: read.updated_at,
                ..t
            }),
{
    law_status_survives_the_wire(t, trusted);
    law_priority_survives_the_wire(t);
    law_complexity_survives_the_wire(t);
    law_capabilities_survive_the_wire(t);
    let back = task_of_wire(wire_of_task(t), trusted, t.created_at, t.updated_at);
    assert(back.expected_outputs =~= t.expected_outputs);
    assert(back.subtasks =~= t.subtasks);
}

/// Writing a task ticks none of its criteria.
pub proof fn law_writing_ticks_nothing(t: TaskView, i: int)
    requires
        0 <= i < t.expected_outputs.len(),
    ensures
        !wire_of_task(t).done_criteria[i].checked,
        wire_of_task(t).done_criteria[i].item == t.expected_outputs[i].criterion,
{
}

/// Only a live agent that holds no task is available.
pub proof fn law_only_idle_live_agents_are_available(
    record: AgentRecordView,
    registered_at: Timestamp,
    last_seen: Timestamp,
)
    ensures
        agent_of_wire(record, registered_at, last_seen).status == AgentStatus::Available
            <==> record.status == "active"@ && record.claimed_tasks.len() == 0,
{
}

/// A session that names no owner belongs to nobody known, and one has an outcome
/// exactly when it has an end.
pub proof fn law_session_owner_is_not_guessed(
    summary: SessionSummaryView,
    started_at: Timestamp,
    ended_at: Option<Timestamp>,
)
    ensures
        summary.agent_id is None ==> session_of_wire(summary, started_at, ended_at).agent_id
            == "AGENT-unknown"@,
        session_of_wire(summary, started_at, ended_at).end is Some <==> ended_at is Some,
{
}

/// The words for statuses differ.
proof fn lemma_status_words_differ()
    ensures
        "todo"@.len() == 4 && "done"@.len() == 4 && "todo"@ != "done"@,
        "review"@.len() == 6 && "failed"@.len() == 6 && "review"@ != "failed"@,
        "blocked"@.len() == 7 && "skipped"@.len() == 7 && "backlog"@.len() == 7,
        "blocked"@ != "skipped"@ && "blocked"@ != "backlog"@ && "skipped"@ != "backlog"@,
        "in_progress"@.len() == 11 && "verification_pending"@.len() == 20 && "cancelled"@.len()
            == 9,
{
    reveal_strlit("todo");
    reveal_strlit("done");
    reveal_strlit("review");
    reveal_strlit("failed");
    reveal_strlit("blocked");
    reveal_strlit("skipped");
    reveal_strlit("backlog");
    reveal_strlit("in_progress");
    reveal_strlit("verification_pending");
    reveal_strlit("cancelled");
    assert("todo"@[0] != "done"@[0]);
    assert("review"@[0] != "failed"@[0]);
    assert("blocked"@[0] != "skipped"@[0]);
    assert("blocked"@[1] != "backlog"@[1]);
    assert("skipped"@[0] != "backlog"@[0]);
}

/// Where Director wrote no status of its own, the substrate's word decides: each of its
/// words has one meaning, `done` only where Director vouches for it, and whatever else
/// it says awaits verification.
pub proof fn law_the_word_of_the_substrate_decides(s: Seq<char>, extra: ExtraFields, trusted: bool)
    requires
        extra_text(extra, DIRECTOR_STATUS_KEY@) is None,
    ensures
        status_of_wire(s, extra, trusted) == TaskStatus::Todo <==> s == "todo"@,
        status_of_wire(s, extra, trusted) == TaskStatus::InProgress <==> s == "in_progress"@,
        status_of_wire(s, extra, trusted) == TaskStatus::Blocked <==> s == "blocked"@,
        status_of_wire(s, extra, trusted) == TaskStatus::Cancelled <==> s == "skipped"@,
        status_of_wire(s, extra, trusted) == TaskStatus::Done <==> s == "done"@ && (trusted
            || extra_is_set(extra, DIRECTOR_VERIFIED_KEY@)),
        status_of_wire(s, extra, trusted) != TaskStatus::Backlog,
        status_of_wire(s, extra, trusted) != TaskStatus::Failed,
{
    lemma_status_words_differ();
}

/// A status that Director wrote stands over the substrate's word, whatever that is: all
/// but `done`, which takes the substrate's `done` and Director's voucher besides.
pub proof fn law_a_status_that_director_wrote_stands(
    s: Seq<char>,
    extra: ExtraFields,
    trusted: bool,
    written: Seq<char>,
)
    requires
        extra_text(extra, DIRECTOR_STATUS_KEY@) == Some(written),
    ensures
        status_of_wire(s, extra, trusted) == TaskStatus::Backlog <==> written == "backlog"@,
        status_of_wire(s, extra, trusted) == TaskStatus::Todo <==> written == "todo"@,
        status_of_wire(s, extra, trusted) == TaskStatus::InProgress <==> written == "in_progress"@,
        status_of_wire(s, extra, trusted) == TaskStatus::Blocked <==> written == "blocked"@,
        status_of_wire(s, extra, trusted) == TaskStatus::Failed <==> written == "failed"@,
        status_of_wire(s, extra, trusted) == TaskStatus::Cancelled <==> written == "cancelled"@,
        status_of_wire(s, extra, trusted) == TaskStatus::Done <==> written == "done"@ && s
            == "done"@ && (trusted || extra_is_set(extra, DIRECTOR_VERIFIED_KEY@)),
        written == "verification_pending"@ ==> status_of_wire(s, extra, trusted)
            == TaskStatus::VerificationPending,
{
    lemma_status_words_differ();
}

/// What is written to the substrate are words that it knows, by how far the task is; only
/// a finished task is written as done and with the time of its end, and only one that
/// Director completed is marked.
pub proof fn law_the_substrate_is_told_how_far_a_task_is(t: TaskView)
    ensures
        wire_of_task(t).status == "todo"@ <==> t.status == TaskStatus::Todo || t.status
            == TaskStatus::Backlog,
        wire_of_task(t).status == "in_progress"@ <==> t.status == TaskStatus::InProgress || t.status
            == TaskStatus::VerificationPending,
        wire_of_task(t).status == "blocked"@ <==> t.status == TaskStatus::Blocked,
        wire_of_task(t).status == "done"@ <==> t.status == TaskStatus::Done || t.status
            == TaskStatus::Failed || t.status == TaskStatus::Cancelled,
        wire_of_task(t).completed_at is Some <==> wire_of_task(t).status == "done"@,
        extra_is_set(wire_of_task(t).extra, DIRECTOR_VERIFIED_KEY@) <==> t.status
            == TaskStatus::Done,
        t.priority is None <==> wire_of_task(t).priority is None,
        wire_of_task(t).priority == Some("high"@) <==> t.priority == Some(Priority::High)
            || t.priority == Some(Priority::Critical),
        wire_of_task(t).priority == Some("low"@) <==> t.priority == Some(Priority::Low),
        wire_of_task(t).priority == Some("medium"@) <==> t.priority == Some(Priority::Medium),
{
    lemma_status_words_differ();
    lemma_names_differ();
    reveal_strlit("high");
    reveal_strlit("low");
    reveal_strlit("medium");
    assert("high"@.len() == 4 && "low"@.len() == 3 && "medium"@.len() == 6);
}

/// A task is written part by part: what it is called, what it depends on and what it
/// covers as they are, one criterion for each expected output, and its objective as
/// notes unless that is the title.
pub proof fn law_a_task_is_written_part_by_part(t: TaskView)
    ensures
        wire_of_task(t).id == t.id,
        wire_of_task(t).title == t.title,
        wire_of_task(t).dependencies == t.dependencies,
        wire_of_task(t).scope_paths == t.scope_paths,
        wire_of_task(t).done_criteria.len() == t.expected_outputs.len(),
        forall|i: int|
            0 <= i < t.expected_outputs.len() ==> (#[trigger] wire_of_task(
                t,
            ).done_criteria[i]).item == t.expected_outputs[i].criterion,
        t.objective == t.title ==> wire_of_task(t).notes is None,
        t.objective != t.title ==> wire_of_task(t).notes == Some(t.objective),
        wire_of_task(t).created_at == rfc3339_text(t.created_at@),
        wire_of_task(t).updated_at == rfc3339_text(t.updated_at@),
{
}

/// A record is read part by part: ids, title, dependencies and scope as they are, one
/// expected output for each criterion, and the notes as the objective where they say
/// anything, the title where they do not.
pub proof fn law_a_record_is_read_part_by_part(data: TaskDataView, trusted: bool, t: TaskView)
    requires
        task_reads_as(t, data, trusted),
    ensures
        t.id == data.id,
        t.title == data.title,
        t.dependencies == data.dependencies,
        t.scope_paths == data.scope_paths,
        t.expected_outputs.len() == data.done_criteria.len(),
        forall|i: int|
            0 <= i < data.done_criteria.len() ==> (#[trigger] t.expected_outputs[i]).criterion
                == data.done_criteria[i].item,
        data.notes is None ==> t.objective == data.title,
        data.notes is Some && (exists|i: int|
            0 <= i < data.notes->0.len() && !is_space(#[trigger] data.notes->0[i])) ==> t.objective
            == data.notes->0,
        data.notes is Some && (forall|i: int|
            0 <= i < data.notes->0.len() ==> is_space(#[trigger] data.notes->0[i])) ==> t.objective
            == data.title,
        rfc3339_instant(data.created_at) is Some ==> rfc3339_instant(data.created_at) == Some(
            t.created_at@,
        ),
        rfc3339_instant(data.updated_at) is Some ==> rfc3339_instant(data.updated_at) == Some(
            t.updated_at@,
        ),
{
    if data.notes is Some {
        let notes = data.notes->0;
        law_trimming_takes_off_the_blank_ends(notes);
        let (from, to) = choose|from: int, to: int|
            0 <= from <= to <= notes.len() && #[trigger] notes.subrange(from, to) == trimmed(notes)
                && (forall|k: int|
                0 <= k < from || to <= k < notes.len() ==> is_space(#[trigger] notes[k]));
        if trimmed(notes).len() > 0 {
            assert(notes[from] == trimmed(notes)[0]);
        } else {
            assert forall|i: int| 0 <= i < notes.len() implies is_space(#[trigger] notes[i]) by {
                assert(i < from || to <= i);
            }
        }
    }
}

/// The substrate's priorities are read by their names, and a critical one by Director's
/// own mark; a priority that is not known counts as medium.
pub proof fn law_priorities_are_read_by_name(priority: Option<Seq<char>>, extra: ExtraFields)
    ensures
        priority_of_wire(priority, extra) == Some(Priority::Critical) <==> extra_text(
            extra,
            DIRECTOR_PRIORITY_KEY@,
        ) == Some("critical"@),
        extra_text(extra, DIRECTOR_PRIORITY_KEY@) is None ==> {
            &&& priority_of_wire(priority, extra) is None <==> priority is None
            &&& priority_of_wire(priority, extra) == Some(Priority::High) <==> priority == Some(
                "high"@,
            )
            &&& priority_of_wire(priority, extra) == Some(Priority::Low) <==> priority == Some(
                "low"@,
            )
        },
{
    reveal_strlit("high");
    reveal_strlit("low");
    reveal_strlit("medium");
    assert("high"@.len() == 4 && "low"@.len() == 3 && "medium"@.len() == 6);
}

/// An agent that the substrate calls active is busy exactly where it holds a task; a
/// stale or disconnected one is just that, and any other is offline.
pub proof fn law_agents_are_read_by_their_word(s: Seq<char>, holds_tasks: bool)
    ensures
        agent_status_of_wire(s, holds_tasks) == AgentStatus::Busy <==> s == "active"@
            && holds_tasks,
        agent_status_of_wire(s, holds_tasks) == AgentStatus::Available <==> s == "active"@
            && !holds_tasks,
        agent_status_of_wire(s, holds_tasks) == AgentStatus::Stale <==> s == "stale"@,
        agent_status_of_wire(s, holds_tasks) == AgentStatus::Disconnected <==> s
            == "disconnected"@,
{
    reveal_strlit("active");
    reveal_strlit("stale");
    reveal_strlit("disconnected");
    assert("active"@.len() == 6 && "stale"@.len() == 5 && "disconnected"@.len() == 12);
}

/// An agent keeps the name that the substrate has for it; what it works on is the first
/// task that it claimed, in a session.
pub proof fn law_an_agent_is_read_part_by_part(a: AgentView, record: AgentRecordView)
    requires
        agent_reads_as(a, record),
    ensures
        a.id == record.agent_id,
        a.name == record.agent_id,
        a.current_task is Some <==> record.session_id is Some && record.claimed_tasks.len() > 0,
        a.current_task matches Some(task) ==> task == record.claimed_tasks[0],
        a.status == AgentStatus::Busy <==> record.status == "active"@ && record.claimed_tasks.len()
            > 0,
        rfc3339_instant(record.last_heartbeat) is Some ==> rfc3339_instant(record.last_heartbeat)
            == Some(a.last_seen@),
        rfc3339_instant(record.registered_at) is Some ==> rfc3339_instant(record.registered_at)
            == Some(a.registered_at@),
{
    law_agents_are_read_by_their_word(record.status, record.claimed_tasks.len() > 0);
}

/// The name of a machine is its directory, with a dash for each character that is no
/// ASCII letter, digit or dash.
pub proof fn law_a_machine_is_named_by_its_directory(worktree: Seq<char>, i: int)
    requires
        0 <= i < worktree.len(),
    ensures
        machine_of_worktree(worktree).len() == "MACH-"@.len() + worktree.len(),
        machine_of_worktree(worktree).take("MACH-"@.len() as int) == "MACH-"@,
        ({
            let c = worktree[i];
            let d = machine_of_worktree(worktree)["MACH-"@.len() + i];
            let plain = ('a' <= c && c <= 'z') || ('A' <= c && c <= 'Z') || ('0' <= c && c <= '9');
            &&& plain ==> d == c
            &&& !plain ==> d == '-'
        }),
{
    assert(machine_of_worktree(worktree).take("MACH-"@.len() as int) =~= "MACH-"@);
}

/// A session is open, active or paused where the substrate says so, and else closed; it
/// has an end exactly where the time of it can be read.
pub proof fn law_sessions_are_read_by_their_word(s: AgentSessionView, summary: SessionSummaryView)
    requires
        session_reads_as(s, summary),
    ensures
        s.id == summary.id,
        s.status == SessionStatus::Open <==> summary.status == "open"@,
        s.status == SessionStatus::Active <==> summary.status == "active"@,
        s.status == SessionStatus::Paused <==> summary.status == "paused"@,
        s.parent_session_id == summary.parent_session_id,
        s.workdir == summary.worktree,
        summary.agent_id matches Some(agent) ==> s.agent_id == agent,
        s.end is Some <==> s.ended_at is Some,
        s.end == Some(SessionEnd::Clean) <==> s.ended_at is Some && summary.status == "closed"@,
        s.end == Some(SessionEnd::ContextExhausted) <==> s.ended_at is Some && summary.status
            == "paused"@,
        summary.ended_at is None ==> s.ended_at is None,
        summary.ended_at is Some && rfc3339_instant(summary.ended_at->0) is Some ==> (
        s.ended_at matches Some(at) && rfc3339_instant(summary.ended_at->0) == Some(at@)),
        summary.started_at is Some && rfc3339_instant(summary.started_at->0) is Some
            ==> rfc3339_instant(summary.started_at->0) == Some(s.started_at@),
{
    reveal_strlit("open");
    reveal_strlit("active");
    reveal_strlit("paused");
    reveal_strlit("closed");
    assert("open"@.len() == 4 && "active"@.len() == 6 && "paused"@.len() == 6 && "closed"@.len()
        == 6);
    assert("active"@[0] != "paused"@[0] && "active"@[0] != "closed"@[0] && "paused"@[0]
        != "closed"@[0]);
}

/// Sizes are written by their names, and a size that is not known is not written.
pub proof fn law_sizes_are_written_by_name(t: TaskView)
    ensures
        t.complexity == Complexity::Unknown <==> extra_text(
            wire_of_task(t).extra,
            DIRECTOR_COMPLEXITY_KEY@,
        ) is None,
        t.complexity == Complexity::Trivial <==> extra_text(
            wire_of_task(t).extra,
            DIRECTOR_COMPLEXITY_KEY@,
        ) == Some("trivial"@),
        t.complexity == Complexity::Small <==> extra_text(
            wire_of_task(t).extra,
            DIRECTOR_COMPLEXITY_KEY@,
        ) == Some("small"@),
        t.complexity == Complexity::Medium <==> extra_text(
            wire_of_task(t).extra,
            DIRECTOR_COMPLEXITY_KEY@,
        ) == Some("medium"@),
        t.complexity == Complexity::Large <==> extra_text(
            wire_of_task(t).extra,
            DIRECTOR_COMPLEXITY_KEY@,
        ) == Some("large"@),
{
    lemma_names_differ();
    reveal_strlit("trivial");
    reveal_strlit("small");
    reveal_strlit("medium");
    reveal_strlit("large");
    assert("trivial"@.len() == 7 && "small"@.len() == 5 && "medium"@.len() == 6 && "large"@.len()
        == 5);
    assert("small"@[0] != "large"@[0]);
}

/// A time is read as the standard writes it, and else as one without a zone, up to its
/// first point.
pub proof fn law_a_time_is_read_by_the_standard_first(text: Seq<char>)
    ensures
        rfc3339_instant(text) is Some ==> wire_instant(text) == rfc3339_instant(text),
        rfc3339_instant(text) is None && !text.contains('.') ==> wire_instant(text)
            == naive_instant(text, NAIVE_TIME_FORMAT@),
        forall|front: Seq<char>, back: Seq<char>|
            text == #[trigger] (front.push('.') + back) && !front.contains('.') && rfc3339_instant(
                text,
            ) is None ==> wire_instant(text) == naive_instant(front, NAIVE_TIME_FORMAT@),
{
    let ps = pieces(text, '.');
    law_pieces_are_what_the_separators_part(text, '.');
    if !text.contains('.') {
        lemma_first_piece(text, Seq::empty(), '.');
        assert(text + Seq::empty() =~= text);
    }
    assert forall|front: Seq<char>, back: Seq<char>|
        text == #[trigger] (front.push('.') + back) && !front.contains('.') && rfc3339_instant(text)
            is None implies wire_instant(text) == naive_instant(front, NAIVE_TIME_FORMAT@) by {
        lemma_first_piece(front, seq!['.'] + back, '.');
        assert(front + (seq!['.'] + back) =~= text);
    }
}

/// The first piece of a text goes up to the first separator.
proof fn lemma_first_piece(front: Seq<char>, back: Seq<char>, sep: char)
    requires
        !front.contains(sep),
        back.len() == 0 || back[0] == sep,
    ensures
        pieces(front + back, sep).len() > 0,
        pieces(front + back, sep)[0] == front,
        back.len() == 0 ==> pieces(front + back, sep).len() == 1,
    decreases front.len() + back.len(),
{
    let s = front + back;
    if back.len() > 0 {
        let t = back.drop_last();
        if t.len() > 0 {
            assert(t[0] == back[0]);
        }
        lemma_first_piece(front, t, sep);
        assert(s.drop_last() =~= front + t);
        if t.len() == 0 {
            assert(s.last() == sep);
        }
        let before = pieces(front + t, sep);
        if s.last() != sep {
            assert(t.len() > 0);
            assert(before.len() > 1) by {
                lemma_more_pieces(front, t, sep);
            }
        }
    } else if front.len() > 0 {
        let f = front.drop_last();
        assert forall|i: int| 0 <= i < f.len() implies f[i] != sep by {
            assert(front[i] == f[i]);
            assert(front.contains(front[i]));
        }
        lemma_first_piece(f, back, sep);
        assert(s.drop_last() =~= f + back);
        assert(s =~= front);
        assert(front.contains(front.last()));
        assert(front =~= f.push(front.last()));
    } else {
        assert(s =~= Seq::empty());
        assert(front =~= Seq::empty());
    }
}

/// Behind a separator there is another piece.
proof fn lemma_more_pieces(front: Seq<char>, back: Seq<char>, sep: char)
    requires
        back.len() > 0,
        back[0] == sep,
    ensures
        pieces(front + back, sep).len() > 1,
    decreases back.len(),
{
    let s = front + back;
    let t = back.drop_last();
    assert(s.drop_last() =~= front + t);
    lemma_pieces_nonempty(front + t, sep);
    if t.len() > 0 {
        assert(t[0] == sep);
        lemma_more_pieces(front, t, sep);
    } else {
        assert(s.last() == sep);
    }
}

/// A capability is read by its name, each of the fixed ones by one name, and every other
/// name stands for itself.
pub proof fn law_capabilities_are_read_by_name(s: Seq<char>)
    ensures
        capability_of_name(s) == CapabilityView::Coding <==> s == "coding"@,
        capability_of_name(s) == CapabilityView::Testing <==> s == "testing"@,
        capability_of_name(s) == CapabilityView::Reviewing <==> s == "reviewing"@,
        capability_of_name(s) == CapabilityView::Planning <==> s == "planning"@,
        capability_of_name(s) == CapabilityView::Documentation <==> s == "documentation"@,
        capability_of_name(s) == CapabilityView::Research <==> s == "research"@,
        capability_of_name(s) == CapabilityView::Frontend <==> s == "frontend"@,
        capability_of_name(s) == CapabilityView::Backend <==> s == "backend"@,
        capability_of_name(s) == CapabilityView::Database <==> s == "database"@,
        capability_of_name(s) == CapabilityView::DevOps <==> s == "devops"@,
        capability_of_name(s) == CapabilityView::Security <==> s == "security"@,
        capability_of_name(s) == CapabilityView::Human <==> s == "human"@,
        capability_of_name(s) matches CapabilityView::Custom(name) ==> name == s,
        capability_name(capability_of_name(s)) == s,
{
    reveal_strlit("coding");
    reveal_strlit("testing");
    reveal_strlit("reviewing");
    reveal_strlit("planning");
    reveal_strlit("documentation");
    reveal_strlit("research");
    reveal_strlit("frontend");
    reveal_strlit("backend");
    reveal_strlit("database");
    reveal_strlit("devops");
    reveal_strlit("security");
    reveal_strlit("human");
    assert("coding"@.len() == 6 && "coding"@[0] == 'c');
    assert("testing"@.len() == 7 && "testing"@[0] == 't');
    assert("reviewing"@.len() == 9);
    assert("planning"@.len() == 8 && "planning"@[0] == 'p');
    assert("documentation"@.len() == 13);
    assert("research"@.len() == 8 && "research"@[0] == 'r');
    assert("frontend"@.len() == 8 && "frontend"@[0] == 'f');
    assert("backend"@.len() == 7 && "backend"@[0] == 'b');
    assert("database"@.len() == 8 && "database"@[0] == 'd');
    assert("devops"@.len() == 6 && "devops"@[0] == 'd');
    assert("security"@.len() == 8 && "security"@[0] == 's');
    assert("human"@.len() == 5);
}

/// The names of capabilities that a record lists are read one by one, in order; what is no
/// name is passed over.
pub proof fn law_capabilities_are_read_in_order(items: Seq<Option<Seq<char>>>, name: Seq<char>)
    ensures
        capabilities_named(items.push(Some(name))) == capabilities_named(items).push(
            capability_of_name(name),
        ),
        capabilities_named(items.push(None)) == capabilities_named(items),
        capabilities_named(Seq::<Option<Seq<char>>>::empty()).len() == 0,
{
    assert(items.push(Some(name)).drop_last() =~= items);
    assert(items.push(None).drop_last() =~= items);
}

/// A priority is written by the word that names it. The substrate has no word for the
/// highest one: it is written there as the next, and its own word rides beside it.
pub proof fn law_a_priority_is_written_by_its_word(p: Priority)
    ensures
        p != Priority::Critical ==> wire_priority(Some(p)) == (
            Some(priority_text(p)),
            None::<Seq<char>>,
        ),
        p == Priority::Critical ==> wire_priority(Some(p)) == (
            Some(priority_text(Priority::High)),
            Some(priority_text(p)),
        ),
{
}

} // verus!
