//! What is kept in the database.

pub mod incidents;
pub mod server;
