//! One supervisor per server: starts it, restarts it on a crash, honours the
//! commands of the operator.
//!
//! A supervisor is a state machine. [`Supervisor::action`] says what has to be
//! done next in the outside world, [`Supervisor::step`] takes in what came of
//! it. Moments are nanoseconds since the daemon started.
use vstd::prelude::*;
use vstd::string::*;

use crate::config::ServerConfig;
use crate::instances::SilenceRegistry;
use crate::paths::{path_joined, path_of, FilePath, Step};

use machine::{current_api, pinged, InternalState, Phase, Query};
use reports::{looks, snapshot};

pub mod actions;
pub mod backoff;
pub mod conduct;
pub mod laws;
pub mod machine;
pub mod reports;
pub mod watchdog;

pub use machine::Supervisor;
pub use watchdog::{ReloadReport, Watchdog};

verus! {

/// Nanoseconds in a second.
pub const NANOS: u64 = 1_000_000_000;

/// What came of a request to update.
#[derive(Debug, Clone)]
pub enum UpdateOutcome {
    NoUpdate,
    /// The running server was told to wind down; the build is installed when it
    /// exits.
    Notified { notification_sent: bool },
    /// Nothing was running, the build was installed at once.
    Applied,
    Failed { reason: String },
}

/// What an instance is doing.
#[derive(Debug, Clone)]
pub enum Status {
    Stopped,
    Starting,
    Running {
        pid: u32,
        version: String,
        uptime_secs: u64,
        last_ping_secs_ago: Option<u64>,
    },
    Backoff { wait_secs: u64, failures: u32 },
    Stopping,
    Updating,
    Failed { reason: String },
}

/// Why a command got no answer.
#[derive(Debug, Clone, Copy, PartialEq, Eq, Structural)]
pub enum SupervisorError {
    TaskGone,
}

impl SupervisorError {
    /// The error in words.
    pub fn message(&self) -> (r: &'static str)
        ensures
            r@ == "supervisor task is not running"@,
    {
        "supervisor task is not running"
    }
}

/// The directory under which every instance has its own.
pub const INSTANCE_ROOT: &'static str = "./instances";

/// The path to the directory of the instance `key`.
pub open spec fn dir_of(key: Seq<char>) -> Seq<Step> {
    path_joined(path_of("./instances"@), key)
}

/// The path to the build of the instance `key`.
pub open spec fn bin_dir_of(key: Seq<char>) -> Seq<Step> {
    path_joined(dir_of(key), "bin"@)
}

/// The directory of the instance `key`.
pub fn instance_dir(key: &str) -> (r: FilePath)
    ensures
        r@ == dir_of(key@),
{
    FilePath::new(INSTANCE_ROOT).join(key)
}

/// Where the build of the instance `key` is installed.
pub fn instance_bin_dir(key: &str) -> (r: FilePath)
    ensures
        r@ == bin_dir_of(key@),
{
    instance_dir(key).join("bin")
}

/// A supervisor that has done nothing yet. It is on its way to a start, and the
/// name it shows stays that of its first configuration.
pub open spec fn fresh(s: Supervisor, key: Seq<char>, base_url: Seq<char>) -> bool {
    &&& s.key@ == key
    &&& s.display_name@ == s.server.name@
    &&& s.admin_base_url@ == base_url
    &&& s.state == InternalState::Stopped
    &&& s.issued == s.server.api
    &&& s.last_ping is None
    &&& s.last_seen is None
    &&& !s.pending_update
    &&& s.failures == 0
    &&& s.phase == Phase::Reading(Query::Ensure)
}

impl Supervisor {
    /// A supervisor for the server `key`.
    pub fn spawn(key: String, server: ServerConfig, admin_base_url: String) -> (r: Self)
        ensures
            fresh(r, key@, admin_base_url@),
            r.server == server,
    {
        let display_name = server.name.clone();
        let issued = server.api.duplicate();
        Supervisor {
            key,
            display_name,
            server,
            issued,
            state: InternalState::Stopped,
            last_ping: None,
            last_seen: None,
            admin_base_url,
            pending_update: false,
            failures: 0,
            phase: Phase::Reading(Query::Ensure),
        }
    }

    /// The key of the server.
    pub fn key(&self) -> (r: &str)
        ensures
            r@ == self.key@,
    {
        self.key.as_str()
    }

    /// The name to show.
    pub fn display_name(&self) -> (r: &str)
        ensures
            r@ == self.display_name@,
    {
        self.display_name.as_str()
    }

    /// What the game server proves its identity with: the token that its process
    /// was started with, while there is one.
    pub fn api_token(&self) -> (r: String)
        ensures
            r@ == current_api(*self).token@,
    {
        self.api().token.clone()
    }

    /// Takes a new configuration. A process that runs goes on undisturbed, with
    /// the token and port that it was started with; the next start goes by the
    /// new configuration.
    pub fn apply_config(self, new: ServerConfig) -> (r: Self)
        ensures
            r == (Supervisor { server: new, ..self }),
    {
        Supervisor { server: new, ..self }
    }

    /// Drops the server's output from the logs, or lets it through again.
    pub fn set_silent(&self, silenced: &mut SilenceRegistry, silent: bool)
        ensures
            final(silenced)@ == if silent {
                old(silenced)@.insert(self.key@)
            } else {
                old(silenced)@.remove(self.key@)
            },
    {
        if silent {
            let _ = silenced.insert(self.key.clone());
        } else {
            silenced.remove(self.key.as_str());
        }
    }

    /// Whether the server's output is dropped from the logs.
    pub fn is_silent(&self, silenced: &SilenceRegistry) -> (r: bool)
        ensures
            r == silenced@.contains(self.key@),
    {
        silenced.contains(self.key.as_str())
    }

    /// Takes in a ping of the server.
    pub fn record_ping(self, now: u64) -> (r: Self)
        ensures
            r == pinged(self, now),
    {
        Supervisor { last_ping: Some(now), last_seen: Some(now), ..self }
    }

    /// What the server is doing.
    pub fn status(&self, now: u64) -> (r: Status)
        ensures
            looks(self.state, self.last_ping, now, r),
    {
        snapshot(&self.state, self.last_ping, now)
    }
}

/// A new supervisor has done nothing yet: nothing is queued or counted, no ping came,
/// it shows the configured name and stopped, and it looks up first what is installed.
pub proof fn law_fresh_supervisor(s: Supervisor, key: Seq<char>, base_url: Seq<char>)
    requires
        fresh(s, key, base_url),
    ensures
        s.key@ == key,
        s.display_name@ == s.server.name@,
        s.admin_base_url@ == base_url,
        s.issued == s.server.api,
        s.state is Stopped,
        s.last_ping is None && s.last_seen is None,
        !s.pending_update,
        s.failures == 0,
        s.phase == Phase::Reading(Query::Ensure),
{
}

/// A ping counts from the moment it came, for the process and for good, and changes
/// nothing else.
pub proof fn law_ping(s: Supervisor, now: u64)
    ensures
        pinged(s, now) == (Supervisor { last_ping: Some(now), last_seen: Some(now), ..s }),
{
}

/// Every instance has a directory of its own under one root, and its build in it.
pub proof fn law_directories(key: Seq<char>)
    ensures
        dir_of(key) == seq![Step::Into("./instances"@), Step::Into(key)],
        bin_dir_of(key) == seq![Step::Into("./instances"@), Step::Into(key), Step::Into("bin"@)],
{
}

} // verus!
