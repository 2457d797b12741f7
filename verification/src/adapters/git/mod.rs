//! Observing git: what happened in a working tree, what has been recorded of it,
//! and what that means for the project's state.

pub mod observer;
pub mod service;
pub mod store;
