//! The verified core of a peer-to-peer node.
pub mod auth;
pub mod authz;
pub mod client_events;
pub mod clock;
pub mod consensus;
pub mod contract;
pub mod counters;
pub mod crypto;
pub mod linear_map;
pub mod ml;
pub mod node;
pub mod performance;
mod random;
pub mod ratio;
pub mod ring;
pub mod text;
pub mod time;
pub mod util;
