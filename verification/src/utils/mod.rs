//! Helpers that are not about servers.
pub mod rid;
