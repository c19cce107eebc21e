//! Contracts: their keys and their life on this node.
pub mod key;
pub mod lifecycle;
