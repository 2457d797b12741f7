//! Director Brain: the domain model of a coordinator for coding agents, and the
//! logic of the adapters around it.
//!
//! A task outlives every agent that works on it, so a task has no agent field and
//! task ids and agent ids are types of their own. And nothing reports its own
//! completion: done is a verdict of Director's, never of the agent that did the
//! work.
//!
//! Everything here works on plain values. Reading git, files, processes and
//! servers is left to the caller, who hands the readings in and carries the
//! decisions out.

pub mod adapters;
pub mod digest;
pub mod domain;
pub mod history;
pub mod order;
pub mod path;
pub mod registry;
pub mod text;
pub mod time;

pub use adapters::executor::LocalExecutor;
pub use adapters::git::observer::{GitObserver, RangeWalk};
pub use adapters::git::service::{GitService, RepositoryStatusView};
pub use adapters::git::store::{RepositoryStore, StoredRepository};
pub use adapters::handoff::adapter::{HandoffAdapter, HandoffAdapterError};
pub use adapters::memory::{InMemoryError, InMemoryProvider};
pub use adapters::stdio_mcp::{StdioMcpTransport, TransportError};
pub use domain::action::{Action, ActionKind};
pub use domain::agent::{Agent, AgentStatus, Harness, Machine};
pub use domain::assignment::{AgentAssignment, AssignmentStatus, ReleaseReason};
pub use domain::blocker::{Blocker, BlockerKind, BlockerStatus};
pub use domain::capability::Capability;
pub use domain::checkpoint::{
    Checkpoint, ContinuationPackage, ResumeStatus, CHECKPOINT_FORMAT_VERSION,
};
pub use domain::context::{ContextSnapshot, RecentContext, DEFAULT_MAX_ACTIONS};
pub use domain::decision::{Decision, DecisionStatus};
pub use domain::event::{EventData, EventKind, ObservationEvent, EVENT_SOURCE_GIT};
pub use domain::handoff::{Handoff, HandoffError, HandoffState};
pub use domain::ids::{
    ActionId, AgentId, AssignmentId, BlockerId, CheckpointId, DecisionId, EventId, HandoffId, Id,
    IdGenerator, MachineId, PlanId, ProjectId, RepositoryId, SessionId, SubtaskId, TaskId,
};
pub use domain::plan::{Plan, PlanStatus};
pub use domain::project::{DefaultBranch, Project};
pub use domain::providers::{
    CommandOutcome, CommandSpec, Memory, MemoryQuery, ProviderError,
};
pub use domain::repository::{
    Repository, RepositoryError, RepositoryStatus, SyncResult, SyncStatus, SHORT_SHA_LEN,
};
pub use domain::session::{AgentSession, SessionEnd, SessionStatus};
pub use domain::snapshot::{ProjectStateSnapshot, StateChangeKind};
pub use domain::state::{
    ChangedFile, CommitInfo, FileChange, ProjectState, ProjectStateRef, StateComparison,
    TestResults,
};
pub use domain::task::{Complexity, ExpectedOutput, Priority, Subtask, Task, TaskStatus};
pub use domain::worktree::{DiffInfo, FileChangeRecord, WorktreeState};
pub use time::Timestamp;
