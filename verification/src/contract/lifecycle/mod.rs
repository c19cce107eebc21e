//! The end of a contract's life on this node: garbage collection, deletion and
//! storage quota. No exemption from collection is permanent.
pub mod deletion;
pub mod gc;
