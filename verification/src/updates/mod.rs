//! New builds: which one to take, whether it arrived whole, how it is put in
//! place.
pub mod checksum;
pub mod error;
pub mod install;
pub mod manifest;
pub mod run;

pub use error::{UResult, UpdateError};
