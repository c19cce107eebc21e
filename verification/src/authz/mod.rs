//! Authorization: roles, what they allow, and the context that travels with a
//! request.
pub mod context;
pub mod policy;
