//! The adapter for the handoff-mcp substrate.

pub mod adapter;
pub mod mapping;
pub mod wire;
