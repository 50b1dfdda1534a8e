//! A token broker's trust decisions: which signed token is accepted under
//! which locally configured policy, and which permissions it may be given.
//!
//! The crate holds the decisions only. Reading policy files, fetching key
//! sets and talking to the upstream token endpoint are left to the caller.

pub mod algorithm;
pub mod authorizer;
pub mod broker;
pub mod jwt;
pub mod loader;
pub mod policy;
pub mod registry;
pub mod scopes;
pub mod search;
pub mod text;
