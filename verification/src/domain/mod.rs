//! The vocabulary of Director: every entity, identity and status that the rest
//! of the system speaks of. It knows of no substrate.

pub mod action;
pub mod agent;
pub mod assignment;
pub mod blocker;
pub mod capability;
pub mod checkpoint;
pub mod context;
pub mod decision;
pub mod event;
pub mod handoff;
pub mod ids;
pub mod plan;
pub mod project;
pub mod providers;
pub mod repository;
pub mod sealed;
pub mod session;
pub mod snapshot;
pub mod state;
pub mod task;
pub mod worktree;
