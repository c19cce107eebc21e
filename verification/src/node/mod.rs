//! The node's own background work.
pub mod maintenance;
pub mod pending;
