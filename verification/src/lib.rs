//! The decision-making core of a game server watchdog.

pub mod api;
pub mod cli;
pub mod config;
pub mod db;
pub mod instances;
pub mod keymap;
pub mod logging;
pub mod paths;
pub mod supervisor;
pub mod text;
pub mod updates;
pub mod utils;
