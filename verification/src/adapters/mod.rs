//! What turns Director's providers into something concrete.

pub mod executor;
pub mod git;
pub mod handoff;
pub mod memory;
pub mod stdio_mcp;
