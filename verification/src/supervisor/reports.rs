//! What a supervisor tells about itself.
use vstd::prelude::*;
use vstd::string::*;

use crate::db::incidents::Kind;
use crate::text::{dec, push_dec};

use super::machine::{
    elapsed, elapsed_secs, is_clean, Command, ExitReport, Failure, InternalState, Note, Verdict,
};
use super::{Status, UpdateOutcome, NANOS};

verus! {

/// A failure in words.
pub open spec fn failure_text(f: Failure) -> Seq<char> {
    match f {
        Failure::NoVersion => "no version installed"@,
        Failure::Lookup(e) => "db error: "@ + e@,
        Failure::Directory(e) => "create instance dir: "@ + e@,
        Failure::NothingInstalled => "no version installed and update produced none"@,
        Failure::NotUpdated => "update produced no new version"@,
        Failure::Reported(e) => e@,
    }
}

impl Failure {
    /// The failure in words.
    pub fn text(&self) -> (r: String)
        ensures
            r@ == failure_text(*self),
    {
        match self {
            Failure::NoVersion => "no version installed".to_string(),
            Failure::Lookup(e) => {
                let mut r = "db error: ".to_string();
                r.append(e.as_str());
                r
            },
            Failure::Directory(e) => {
                let mut r = "create instance dir: ".to_string();
                r.append(e.as_str());
                r
            },
            Failure::NothingInstalled => {
                "no version installed and update produced none".to_string()
            },
            Failure::NotUpdated => "update produced no new version".to_string(),
            Failure::Reported(e) => e.clone(),
        }
    }
}

/// Whole seconds from `now` to `until`, as far as 64 bits can hold; none if
/// `until` is past.
pub open spec fn remaining_secs(until: u128, now: u64) -> int {
    let secs = if until > now {
        (until - now) / (NANOS as int)
    } else {
        0
    };
    if secs > u64::MAX {
        u64::MAX as int
    } else {
        secs
    }
}

/// Whole seconds from `now` to `until`.
pub fn remaining(until: u128, now: u64) -> (r: u64)
    ensures
        r == remaining_secs(until, now),
{
    if until > now as u128 {
        let secs: u128 = (until - now as u128) / NANOS as u128;
        if secs > u64::MAX as u128 {
            u64::MAX
        } else {
            secs as u64
        }
    } else {
        0
    }
}

/// Whether `r` is how the state `s` looks at the moment `now`.
pub open spec fn looks(s: InternalState, last_ping: Option<u64>, now: u64, r: Status) -> bool {
    match s {
        InternalState::Stopped => r == Status::Stopped,
        InternalState::Starting => r == Status::Starting,
        InternalState::Running { pid, started_at, version } => r == (Status::Running {
            pid,
            version,
            uptime_secs: elapsed_secs(started_at, now),
            last_ping_secs_ago: match last_ping {
                Some(t) => Some(elapsed_secs(t, now)),
                None => None,
            },
        }),
        InternalState::Backoff { until, failures } => r == (Status::Backoff {
            wait_secs: remaining_secs(until, now) as u64,
            failures,
        }),
        InternalState::Stopping => r == Status::Stopping,
        InternalState::Updating => r == Status::Updating,
        InternalState::Failed { reason } => r matches Status::Failed { reason: t } && t@
            == failure_text(reason),
    }
}

/// How the state `s` looks at the moment `now`.
pub fn snapshot(s: &InternalState, last_ping: Option<u64>, now: u64) -> (r: Status)
    ensures
        looks(*s, last_ping, now, r),
{
    match s {
        InternalState::Stopped => Status::Stopped,
        InternalState::Starting => Status::Starting,
        InternalState::Running { pid, started_at, version } => {
            let last_ping_secs_ago = match last_ping {
                Some(t) => Some(elapsed(t, now)),
                None => None,
            };
            Status::Running {
                pid: *pid,
                version: version.clone(),
                uptime_secs: elapsed(*started_at, now),
                last_ping_secs_ago,
            }
        },
        InternalState::Backoff { until, failures } => Status::Backoff {
            wait_secs: remaining(*until, now),
            failures: *failures,
        },
        InternalState::Stopping => Status::Stopping,
        InternalState::Updating => Status::Updating,
        InternalState::Failed { reason } => Status::Failed { reason: reason.text() },
    }
}

/// The name of a command in the history.
pub open spec fn command_name(c: Command) -> Seq<char> {
    match c {
        Command::Stop => "stop"@,
        Command::Kill => "kill"@,
        Command::Restart => "restart"@,
        Command::ForceRestart => "force_restart"@,
        Command::Update => "update"@,
        Command::Shutdown => "shutdown"@,
    }
}

impl Command {
    /// The name of the command in the history.
    pub fn name(&self) -> (r: &'static str)
        ensures
            r@ == command_name(*self),
    {
        match self {
            Command::Stop => "stop",
            Command::Kill => "kill",
            Command::Restart => "restart",
            Command::ForceRestart => "force_restart",
            Command::Update => "update",
            Command::Shutdown => "shutdown",
        }
    }
}

/// Under which kind a note is filed.
pub open spec fn note_kind(n: Note) -> Kind {
    match n {
        Note::Admin(_) => Kind::Admin,
        Note::Start { .. } => Kind::Start,
        Note::SpawnFailed { .. } => Kind::SpawnFailed,
        Note::Exit { report, .. } => match report {
            ExitReport::Status { success, .. } => if success {
                Kind::CleanExit
            } else {
                Kind::Crashed
            },
            ExitReport::IoError => Kind::WaitFailed,
        },
        Note::HeartbeatLost { .. } => Kind::HeartbeatLost,
    }
}

/// What a note says.
pub open spec fn note_detail(n: Note) -> Seq<char> {
    match n {
        Note::Admin(c) => command_name(c),
        Note::Start { pid, version } => "pid="@ + dec(pid as nat) + " version="@ + version@,
        Note::SpawnFailed { reason } => reason@,
        Note::Exit { report, uptime_secs } => match report {
            ExitReport::Status { text, .. } => "status="@ + text@ + " uptime_s="@ + dec(
                uptime_secs as nat,
            ),
            ExitReport::IoError => "io_error uptime_s="@ + dec(uptime_secs as nat),
        },
        Note::HeartbeatLost { uptime_secs } => "uptime_s="@ + dec(uptime_secs as nat),
    }
}

impl Note {
    /// Under which kind the note is filed.
    pub fn kind(&self) -> (r: Kind)
        ensures
            r == note_kind(*self),
    {
        match self {
            Note::Admin(_) => Kind::Admin,
            Note::Start { .. } => Kind::Start,
            Note::SpawnFailed { .. } => Kind::SpawnFailed,
            Note::Exit { report, uptime_secs: _ } => match report {
                ExitReport::Status { success, .. } => if *success {
                    Kind::CleanExit
                } else {
                    Kind::Crashed
                },
                ExitReport::IoError => Kind::WaitFailed,
            },
            Note::HeartbeatLost { .. } => Kind::HeartbeatLost,
        }
    }

    /// What the note says.
    pub fn detail(&self) -> (r: String)
        ensures
            r@ == note_detail(*self),
    {
        match self {
            Note::Admin(c) => c.name().to_string(),
            Note::Start { pid, version } => {
                let mut r = "pid=".to_string();
                push_dec(&mut r, *pid as u64);
                r.append(" version=");
                r.append(version.as_str());
                r
            },
            Note::SpawnFailed { reason } => reason.clone(),
            Note::Exit { report, uptime_secs } => match report {
                ExitReport::Status { success: _, text } => {
                    let mut r = "status=".to_string();
                    r.append(text.as_str());
                    r.append(" uptime_s=");
                    push_dec(&mut r, *uptime_secs);
                    r
                },
                ExitReport::IoError => {
                    let mut r = "io_error uptime_s=".to_string();
                    push_dec(&mut r, *uptime_secs);
                    r
                },
            },
            Note::HeartbeatLost { uptime_secs } => {
                let mut r = "uptime_s=".to_string();
                push_dec(&mut r, *uptime_secs);
                r
            },
        }
    }
}

/// An end with status zero is filed as a clean exit, one with any other status or
/// by a signal as a crash; and nothing else is filed as either.
pub proof fn law_crashes_and_clean_exits(n: Note)
    ensures
        note_kind(n) is CleanExit <==> n is Exit && is_clean(n->report),
        note_kind(n) is Crashed <==> n is Exit && (n->report matches ExitReport::Status {
            success,
            ..
        } && !success),
{
}

/// Whether `r` puts the verdict `v` into words.
pub open spec fn words(v: Verdict, r: UpdateOutcome) -> bool {
    match v {
        Verdict::NoUpdate => r == UpdateOutcome::NoUpdate,
        Verdict::Notified { sent } => r == (UpdateOutcome::Notified { notification_sent: sent }),
        Verdict::Applied => r == UpdateOutcome::Applied,
        Verdict::Failed(f) => r matches UpdateOutcome::Failed { reason } && reason@ == failure_text(
            f,
        ),
    }
}

impl Verdict {
    /// The verdict as it is reported.
    pub fn outcome(&self) -> (r: UpdateOutcome)
        ensures
            words(*self, r),
    {
        match self {
            Verdict::NoUpdate => UpdateOutcome::NoUpdate,
            Verdict::Notified { sent } => UpdateOutcome::Notified { notification_sent: *sent },
            Verdict::Applied => UpdateOutcome::Applied,
            Verdict::Failed(f) => UpdateOutcome::Failed { reason: f.text() },
        }
    }
}

/// Each reason for which a server is down, and for which an update failed, in words.
pub proof fn law_failures_in_words(why: String)
    ensures
        failure_text(Failure::NoVersion) == "no version installed"@,
        failure_text(Failure::Lookup(why)) == "db error: "@ + why@,
        failure_text(Failure::Directory(why)) == "create instance dir: "@ + why@,
        failure_text(Failure::NothingInstalled) == "no version installed and update produced none"@,
        failure_text(Failure::NotUpdated) == "update produced no new version"@,
        failure_text(Failure::Reported(why)) == why@,
{
}

/// What is shown of a server: its state, for a running one since how many whole
/// seconds it runs and since how many it has not pinged, for one that waits the whole
/// seconds left and its failures.
pub proof fn law_shown_status(s: InternalState, last_ping: Option<u64>, now: u64, r: Status)
    requires
        looks(s, last_ping, now, r),
    ensures
        s is Stopped <==> r is Stopped,
        s is Starting <==> r is Starting,
        s is Stopping <==> r is Stopping,
        s is Updating <==> r is Updating,
        s matches InternalState::Running { pid, started_at, version } ==> {
            &&& r matches Status::Running {
                pid: p,
                version: v,
                uptime_secs,
                last_ping_secs_ago,
            }
            &&& p == pid && v == version
            &&& now >= started_at ==> uptime_secs == (now - started_at) / 1_000_000_000
            &&& now < started_at ==> uptime_secs == 0
            &&& match last_ping {
                Some(at) => last_ping_secs_ago is Some && last_ping_secs_ago->0 == if now >= at {
                    (now - at) / 1_000_000_000
                } else {
                    0
                },
                None => last_ping_secs_ago is None,
            }
        },
        s matches InternalState::Backoff { until, failures } ==> {
            &&& r matches Status::Backoff { wait_secs, failures: f }
            &&& f == failures
            &&& until <= now ==> wait_secs == 0
            &&& now < until && until - now < 0x1_0000_0000_0000_0000 ==> wait_secs == (until - now)
                / 1_000_000_000
        },
        s matches InternalState::Failed { reason } ==> r matches Status::Failed { reason: t } && t@
            == failure_text(reason),
{
}

/// A wait that is too long to be told is told as the longest.
pub proof fn law_long_waits(until: u128, now: u64)
    ensures
        until > now && (until - now) / 1_000_000_000 > 0xffff_ffff_ffff_ffff ==> remaining_secs(
            until,
            now,
        ) == 0xffff_ffff_ffff_ffff,
        until > now && (until - now) / 1_000_000_000 <= 0xffff_ffff_ffff_ffff ==> remaining_secs(
            until,
            now,
        ) == (until - now) / 1_000_000_000,
        until <= now ==> remaining_secs(until, now) == 0,
{
}

/// Under which kind each note is filed, and what it says.
pub proof fn law_notes(
    c: Command,
    pid: u32,
    version: String,
    reason: String,
    success: bool,
    text: String,
    uptime_secs: u64,
)
    ensures
        note_kind(Note::Admin(c)) is Admin,
        note_detail(Note::Admin(c)) == match c {
            Command::Stop => "stop"@,
            Command::Kill => "kill"@,
            Command::Restart => "restart"@,
            Command::ForceRestart => "force_restart"@,
            Command::Update => "update"@,
            Command::Shutdown => "shutdown"@,
        },
        note_kind(Note::Start { pid, version }) is Start,
        note_detail(Note::Start { pid, version }) == "pid="@ + dec(pid as nat) + " version="@
            + version@,
        note_kind(Note::SpawnFailed { reason }) is SpawnFailed,
        note_detail(Note::SpawnFailed { reason }) == reason@,
        note_kind(Note::Exit { report: ExitReport::Status { success, text }, uptime_secs })
            == if success {
            Kind::CleanExit
        } else {
            Kind::Crashed
        },
        note_detail(Note::Exit { report: ExitReport::Status { success, text }, uptime_secs })
            == "status="@ + text@ + " uptime_s="@ + dec(uptime_secs as nat),
        note_kind(Note::Exit { report: ExitReport::IoError, uptime_secs }) is WaitFailed,
        note_detail(Note::Exit { report: ExitReport::IoError, uptime_secs })
            == "io_error uptime_s="@ + dec(uptime_secs as nat),
        note_kind(Note::HeartbeatLost { uptime_secs }) is HeartbeatLost,
        note_detail(Note::HeartbeatLost { uptime_secs }) == "uptime_s="@ + dec(uptime_secs as nat),
{
}

/// The outcome that is reported is the verdict, with the reason of a failure in words.
pub proof fn law_outcomes(v: Verdict, r: UpdateOutcome)
    requires
        words(v, r),
    ensures
        v is NoUpdate <==> r is NoUpdate,
        v is Applied <==> r is Applied,
        v matches Verdict::Notified { sent } ==> r == (UpdateOutcome::Notified {
            notification_sent: sent,
        }),
        v matches Verdict::Failed(why) ==> r matches UpdateOutcome::Failed { reason } && reason@
            == failure_text(why),
{
}

} // verus!
