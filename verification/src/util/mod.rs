//! Helpers shared by the node's tasks.
pub mod backoff;
