//! The HTTP API: who may do what, and what is answered.
pub mod auth;
pub mod metrics;
pub mod routes;
