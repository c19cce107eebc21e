//! Agreement among several nodes.
pub mod bft;
pub mod shamir;
pub mod threshold;
