//! The command line: which daemon is meant, what is asked of it, how its answers
//! are shown.
use vstd::prelude::*;

pub mod calendar;
pub mod daemons;
pub mod json;
pub mod list;
pub mod requests;
pub mod show;
pub mod sse;

verus! {

/// The command line of the program.
pub struct Cli {
    /// The file that configures the daemon.
    pub config: String,
    /// Address and token of a daemon, in place of any that is configured.
    pub api: Option<String>,
    pub token: Option<String>,
    /// The name of a configured daemon.
    pub daemon: Option<String>,
    /// The file that configures the command line.
    pub cli_config: Option<String>,
    pub command: Option<Command>,
}

/// What is asked for.
#[derive(Debug)]
pub enum Command {
    Daemon,
    List,
    Status { target: String },
    Start { target: String },
    Stop { target: String },
    Restart { target: String },
    ForceRestart { target: String },
    Update { target: String },
    Reload,
    Silence { target: String },
    Unsilence { target: String },
    History { target: String, limit: i64 },
    Logs { target: String, follow: bool },
    /// The name of a shell.
    Completions { shell: String },
}

} // verus!
