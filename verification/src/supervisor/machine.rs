//! The decisions of a supervisor, one event at a time.
use vstd::prelude::*;

use crate::config::{ApiConfig, ServerConfig};
use crate::db::server::{current_version, version_in, Server};

use super::backoff::{backoff, backoff_secs};
use super::NANOS;

verus! {

/// What an operator can ask of a supervisor.
#[derive(Debug, Clone, Copy, PartialEq, Eq, Structural)]
pub enum Command {
    Stop,
    Kill,
    Restart,
    ForceRestart,
    /// Never disturbs a running server.
    Update,
    Shutdown,
}

/// Why an instance could not be started or updated.
pub enum Failure {
    /// There is nothing to start.
    NoVersion,
    /// The installed version could not be looked up for a start.
    Lookup(String),
    /// The directory of the instance could not be made.
    Directory(String),
    /// Nothing was installed, and no build could be.
    NothingInstalled,
    /// A newer build was found, but not installed.
    NotUpdated,
    /// What the outside world had to say.
    Reported(String),
}

/// What an instance is doing, with the moments that matter.
pub enum InternalState {
    Stopped,
    Starting,
    Running { pid: u32, started_at: u64, version: String },
    Backoff { until: u128, failures: u32 },
    Stopping,
    Updating,
    Failed { reason: Failure },
}

/// Where a supervisor waits for commands while nothing runs.
#[derive(Clone, Copy)]
pub enum Place {
    /// It was stopped.
    Idle,
    /// It could not start the server.
    Halted,
    /// It starts the server again at the given moment.
    BackingOff { until: u128 },
}

/// A running process under watch. The timeout is the one that was configured
/// when the process started.
#[derive(Clone, Copy)]
pub struct Watch {
    pub started_at: u64,
    pub timeout_secs: u64,
}

/// On whose behalf a build is installed.
#[derive(Clone, Copy)]
pub enum Origin {
    /// An update was found while the server ran.
    Queued,
    /// Nothing is installed yet.
    Missing,
    /// An operator asked for it.
    Ordered(Place),
}

/// What the installed version is looked up for.
#[derive(Clone, Copy)]
pub enum Query {
    /// To see whether anything is installed.
    Ensure,
    /// To start it.
    Launch,
    /// To replace it.
    Install(Origin),
    /// To look for a newer one while nothing runs.
    Check(Place),
    /// To look for a newer one while the server runs.
    CheckRunning(Watch),
}

/// Why a running process is taken down.
#[derive(Clone, Copy)]
pub enum After {
    Stop,
    Kill,
    Restart,
    ForceRestart,
    Shutdown,
    /// Nobody is left to give commands.
    Abandoned,
    HeartbeatLost { uptime_secs: u64 },
}

/// What a supervisor is waiting for.
pub enum Phase {
    /// A command, while nothing runs.
    Waiting(Place),
    /// The row of the installed version.
    Reading(Query),
    /// Whether there is a newer build than `current`.
    Checking { place: Place, current: Option<String> },
    /// The same, while the server runs.
    CheckingRunning { watch: Watch, current: Option<String> },
    /// The directory of the instance.
    Preparing { origin: Origin, current: Option<String> },
    /// The installation of a build.
    Installing { origin: Origin, current: Option<String> },
    /// The version to be written down; `first` where none was before.
    Saving { origin: Origin, version: String, first: bool },
    /// The process.
    Spawning { version: String },
    /// A command, the end of the process, or the next tick of the clock.
    Watching(Watch),
    /// The answer of the server to the news of an update.
    Notifying { watch: Watch, port: u16 },
    /// The answer of the server to the request to shut down.
    Asking { after: After, port: u16 },
    /// The end of a process that agreed to shut down.
    Leaving(After),
    /// The end of a process that was killed.
    Killing(After),
    /// Nothing any more.
    Finished,
}

/// How a process ended.
pub enum ExitReport {
    Status { success: bool, text: String },
    IoError,
}

/// What happened in the outside world.
pub enum Event {
    /// A command came in.
    Command(Command),
    /// No more commands can come.
    Abandoned,
    /// The wait of [`Place::BackingOff`] is over.
    WaitOver,
    /// The row was looked up.
    VersionRead(Result<Option<Server>, String>),
    /// It was looked whether there is a newer build.
    UpdateChecked(bool),
    /// The directory is there, or could not be made.
    DirectoryReady(Result<(), String>),
    /// The installation is over; the version, if one was installed.
    UpdateRan(Option<String>),
    /// The version was written down, or could not be.
    VersionSaved(Result<(), String>),
    /// The process runs, or could not be started.
    Spawned(Result<u32, String>),
    /// Whether the server took the message.
    Answered(bool),
    /// The process did not end in the time that it was given.
    GraceOver,
    /// The process ended.
    Exited(ExitReport),
    /// The clock ticked.
    Tick,
}

/// Something for the history.
pub enum Note {
    Admin(Command),
    Start { pid: u32, version: String },
    SpawnFailed { reason: String },
    Exit { report: ExitReport, uptime_secs: u64 },
    HeartbeatLost { uptime_secs: u64 },
}

/// What came of a request to update.
pub enum Verdict {
    NoUpdate,
    Notified { sent: bool },
    Applied,
    Failed(Failure),
}

/// The answer to a command.
pub enum Answer {
    Done,
    Update(Verdict),
}

/// What an event brought about besides the change of the supervisor: something
/// for the history first, then the answer to the command in hand.
pub struct Reaction {
    pub note: Option<Note>,
    pub answer: Option<Answer>,
}

/// The state of one supervised server.
pub struct Supervisor {
    pub key: String,
    pub display_name: String,
    pub server: ServerConfig,
    /// What the last process was started with, which counts for as long as it
    /// runs.
    pub issued: ApiConfig,
    pub state: InternalState,
    /// The last ping since the last start.
    pub last_ping: Option<u64>,
    /// The last ping of all.
    pub last_seen: Option<u64>,
    pub admin_base_url: String,
    /// Set when a newer build is found while the server runs, taken up when it
    /// is next started.
    pub pending_update: bool,
    pub failures: u32,
    pub phase: Phase,
}

/// Whether a process runs.
pub open spec fn alive(p: Phase) -> bool {
    match p {
        Phase::Watching(_)
        | Phase::Reading(Query::CheckRunning(_))
        | Phase::CheckingRunning { .. }
        | Phase::Notifying { .. }
        | Phase::Asking { .. }
        | Phase::Leaving(_)
        | Phase::Killing(_) => true,
        _ => false,
    }
}

/// How the game server and the watchdog know each other: as it was when the
/// process was started, while it is started and while it runs, and as it is
/// configured while there is none.
pub open spec fn current_api(s: Supervisor) -> ApiConfig {
    if s.phase is Spawning || alive(s.phase) {
        s.issued
    } else {
        s.server.api
    }
}

/// After a ping at the moment `now`.
pub open spec fn pinged(s: Supervisor, now: u64) -> Supervisor {
    Supervisor { last_ping: Some(now), last_seen: Some(now), ..s }
}

/// Whole seconds from `since` to `now`; none if `since` is later.
pub open spec fn elapsed_secs(since: u64, now: u64) -> u64 {
    if now > since {
        ((now - since) / (NANOS as int)) as u64
    } else {
        0
    }
}

/// Whole seconds from `since` to `now`.
pub fn elapsed(since: u64, now: u64) -> (r: u64)
    ensures
        r == elapsed_secs(since, now),
{
    if now > since {
        (now - since) / NANOS
    } else {
        0
    }
}

/// How long a process may take to send its first ping.
pub open spec fn boot_grace(timeout_secs: u64) -> u64 {
    if timeout_secs > 30 {
        timeout_secs
    } else {
        30
    }
}

/// Whether a process counts as hung: never with a timeout of zero; without a
/// ping yet, once the time to boot is over; with one, once the last is as old
/// as the timeout.
pub open spec fn is_hung(w: Watch, last_ping: Option<u64>, now: u64) -> bool {
    &&& w.timeout_secs != 0
    &&& match last_ping {
        Some(t) => elapsed_secs(t, now) >= w.timeout_secs,
        None => elapsed_secs(w.started_at, now) >= boot_grace(w.timeout_secs),
    }
}

/// Whether a process counts as hung.
pub fn hung(w: Watch, last_ping: Option<u64>, now: u64) -> (r: bool)
    ensures
        r == is_hung(w, last_ping, now),
{
    if w.timeout_secs == 0 {
        return false;
    }
    match last_ping {
        Some(t) => elapsed(t, now) >= w.timeout_secs,
        None => {
            let grace: u64 = if w.timeout_secs > 30 {
                w.timeout_secs
            } else {
                30
            };
            elapsed(w.started_at, now) >= grace
        },
    }
}

/// The failures in a row once a server that was up for `uptime_secs` went down:
/// one more, after forgetting the earlier ones if it had been healthy.
pub open spec fn failures_after(failures: u32, uptime_secs: u64, healthy_after_secs: u64) -> u32 {
    if uptime_secs >= healthy_after_secs {
        1
    } else if failures == u32::MAX {
        u32::MAX
    } else {
        (failures + 1) as u32
    }
}

/// The failures in a row once a server went down.
pub fn count_failure(failures: u32, uptime_secs: u64, healthy_after_secs: u64) -> (r: u32)
    ensures
        r == failures_after(failures, uptime_secs, healthy_after_secs),
{
    let base: u32 = if uptime_secs >= healthy_after_secs {
        0
    } else {
        failures
    };
    base.saturating_add(1)
}

/// On the way to a start: a queued build is installed first, otherwise it is
/// made sure that there is one.
pub open spec fn resumed(s: Supervisor) -> Supervisor {
    if s.pending_update {
        Supervisor {
            pending_update: false,
            state: InternalState::Updating,
            phase: Phase::Reading(Query::Install(Origin::Queued)),
            ..s
        }
    } else {
        Supervisor { phase: Phase::Reading(Query::Ensure), ..s }
    }
}

/// Starting.
pub open spec fn launching(s: Supervisor) -> Supervisor {
    Supervisor {
        state: InternalState::Starting,
        last_ping: None,
        phase: Phase::Reading(Query::Launch),
        ..s
    }
}

/// Given up until the next command.
pub open spec fn halted(s: Supervisor, why: Failure) -> Supervisor {
    Supervisor {
        state: InternalState::Failed { reason: why },
        phase: Phase::Waiting(Place::Halted),
        ..s
    }
}

/// Done for good.
pub open spec fn finished(s: Supervisor) -> Supervisor {
    Supervisor { state: InternalState::Stopped, phase: Phase::Finished, ..s }
}

/// Down after a crash or a lost heartbeat: waiting for the next start.
pub open spec fn backing_off(s: Supervisor, uptime_secs: u64, now: u64) -> Supervisor {
    let failures = failures_after(s.failures, uptime_secs, s.server.healthy_after_secs);
    let wait = backoff_secs(s.server.restart_min_secs, s.server.restart_max_secs, failures);
    let until = (now + wait * NANOS) as u128;
    Supervisor {
        failures,
        state: InternalState::Backoff { until, failures },
        phase: Phase::Waiting(Place::BackingOff { until }),
        ..s
    }
}

/// After a command that asks for nothing new: a stopped server stays stopped,
/// any other is started.
pub open spec fn as_before(s: Supervisor, place: Place) -> Supervisor {
    match place {
        Place::Idle => Supervisor { phase: Phase::Waiting(Place::Idle), ..s },
        _ => resumed(s),
    }
}

/// Taking a process down at its own pace: it is asked to leave where it can be,
/// and killed where it cannot.
pub open spec fn leaving(s: Supervisor, after: After) -> Supervisor {
    Supervisor {
        state: InternalState::Stopping,
        phase: match current_api(s).port {
            Some(port) => Phase::Asking { after, port },
            None => Phase::Killing(after),
        },
        ..s
    }
}

/// Taking a process down at once.
pub open spec fn killing(s: Supervisor, after: After) -> Supervisor {
    Supervisor { state: InternalState::Stopping, phase: Phase::Killing(after), ..s }
}

/// Once the process is gone.
pub open spec fn gone(s: Supervisor, after: After, now: u64) -> Supervisor {
    match after {
        After::Stop | After::Kill => Supervisor { phase: Phase::Waiting(Place::Idle), ..s },
        After::Restart | After::ForceRestart => resumed(Supervisor { failures: 0, ..s }),
        After::Shutdown | After::Abandoned => finished(s),
        After::HeartbeatLost { uptime_secs } => backing_off(s, uptime_secs, now),
    }
}

/// The answer that is due once the process is gone.
pub open spec fn due(after: After) -> Option<Answer> {
    match after {
        After::Abandoned | After::HeartbeatLost { .. } => None,
        _ => Some(Answer::Done),
    }
}

/// Once an installation is over.
pub open spec fn installed(s: Supervisor, origin: Origin, result: Result<(), Failure>) -> (
    Supervisor,
    Option<Answer>,
) {
    match origin {
        Origin::Queued => (Supervisor { phase: Phase::Reading(Query::Ensure), ..s }, None),
        Origin::Missing => match result {
            Ok(()) => (launching(s), None),
            Err(why) => (halted(s, why), None),
        },
        Origin::Ordered(place) => match result {
            Ok(()) => (resumed(s), Some(Answer::Update(Verdict::Applied))),
            Err(why) => (as_before(s, place), Some(Answer::Update(Verdict::Failed(why)))),
        },
    }
}

/// What an installation that brought no build comes to: where an operator asked
/// for one, or there is none yet, it failed.
pub open spec fn without_build(origin: Origin, current: Option<String>) -> Result<(), Failure> {
    match (origin, current) {
        (_, None) => Err(Failure::NothingInstalled),
        (Origin::Ordered(_), Some(_)) => Err(Failure::NotUpdated),
        _ => Ok(()),
    }
}

/// A command that comes in while nothing runs.
pub open spec fn commanded_waiting(s: Supervisor, place: Place, c: Command) -> (
    Supervisor,
    Option<Answer>,
) {
    match c {
        Command::Stop => (
            Supervisor {
                state: match place {
                    Place::Idle => s.state,
                    _ => InternalState::Stopped,
                },
                phase: Phase::Waiting(Place::Idle),
                ..s
            },
            Some(Answer::Done),
        ),
        Command::Kill => (as_before(s, place), Some(Answer::Done)),
        Command::Restart | Command::ForceRestart => (resumed(s), Some(Answer::Done)),
        Command::Update => (Supervisor { phase: Phase::Reading(Query::Check(place)), ..s }, None),
        Command::Shutdown => (finished(s), Some(Answer::Done)),
    }
}

/// A command that comes in while the server runs.
pub open spec fn commanded_running(s: Supervisor, w: Watch, c: Command) -> Supervisor {
    match c {
        Command::Stop => leaving(s, After::Stop),
        Command::Kill => killing(s, After::Kill),
        Command::Restart => leaving(s, After::Restart),
        Command::ForceRestart => killing(s, After::ForceRestart),
        Command::Update => Supervisor { phase: Phase::Reading(Query::CheckRunning(w)), ..s },
        Command::Shutdown => leaving(s, After::Shutdown),
    }
}

/// What the looked-up version leads to.
pub open spec fn version_read(
    s: Supervisor,
    q: Query,
    found: Result<Option<String>, String>,
) -> (Supervisor, Option<Answer>) {
    match q {
        Query::Ensure => match found {
            Ok(Some(_)) => (launching(s), None),
            Ok(None) => (
                Supervisor { phase: Phase::Reading(Query::Install(Origin::Missing)), ..s },
                None,
            ),
            Err(e) => (halted(s, Failure::Reported(e)), None),
        },
        Query::Launch => match found {
            Ok(Some(version)) => (
                Supervisor { issued: s.server.api, phase: Phase::Spawning { version }, ..s },
                None,
            ),
            Ok(None) => (halted(s, Failure::NoVersion), None),
            Err(e) => (halted(s, Failure::Lookup(e)), None),
        },
        Query::Install(origin) => match found {
            Ok(current) => (Supervisor { phase: Phase::Preparing { origin, current }, ..s }, None),
            Err(e) => installed(s, origin, Err(Failure::Reported(e))),
        },
        Query::Check(place) => match found {
            Ok(current) => (Supervisor { phase: Phase::Checking { place, current }, ..s }, None),
            Err(e) => (
                as_before(s, place),
                Some(Answer::Update(Verdict::Failed(Failure::Reported(e)))),
            ),
        },
        Query::CheckRunning(watch) => match found {
            Ok(current) => (
                Supervisor { phase: Phase::CheckingRunning { watch, current }, ..s },
                None,
            ),
            Err(e) => (
                Supervisor { phase: Phase::Watching(watch), ..s },
                Some(Answer::Update(Verdict::Failed(Failure::Reported(e)))),
            ),
        },
    }
}

/// The version that a look-up found.
pub open spec fn version_found(r: Result<Option<Server>, String>) -> Result<Option<String>, String> {
    match r {
        Ok(row) => Ok(version_in(row)),
        Err(e) => Err(e),
    }
}

/// What an event makes of a supervisor, and what else it brings about; `None`
/// for an event that it is not waiting for.
pub open spec fn next(s: Supervisor, e: Event, now: u64) -> Option<(Supervisor, Reaction)> {
    match (s.phase, e) {
        (Phase::Waiting(place), Event::Command(c)) => {
            let (t, answer) = commanded_waiting(s, place, c);
            Some((t, Reaction { note: Some(Note::Admin(c)), answer }))
        },
        (Phase::Waiting(Place::BackingOff { .. }), Event::WaitOver) => Some(
            (resumed(s), Reaction { note: None, answer: None }),
        ),
        (Phase::Waiting(place), Event::Abandoned) => Some(
            (
                match place {
                    Place::BackingOff { .. } => resumed(s),
                    _ => finished(s),
                },
                Reaction { note: None, answer: None },
            ),
        ),
        (Phase::Reading(q), Event::VersionRead(r)) => {
            let (t, answer) = version_read(s, q, version_found(r));
            Some((t, Reaction { note: None, answer }))
        },
        (Phase::Checking { place, current }, Event::UpdateChecked(newer)) => Some(
            if newer {
                (
                    Supervisor {
                        state: InternalState::Updating,
                        phase: Phase::Reading(Query::Install(Origin::Ordered(place))),
                        ..s
                    },
                    Reaction { note: None, answer: None },
                )
            } else {
                (
                    Supervisor { phase: Phase::Waiting(place), ..s },
                    Reaction { note: None, answer: Some(Answer::Update(Verdict::NoUpdate)) },
                )
            },
        ),
        (Phase::CheckingRunning { watch, current }, Event::UpdateChecked(newer)) => Some(
            if !newer {
                (
                    Supervisor { phase: Phase::Watching(watch), ..s },
                    Reaction { note: None, answer: Some(Answer::Update(Verdict::NoUpdate)) },
                )
            } else {
                match current_api(s).port {
                    Some(port) => (
                        Supervisor {
                            pending_update: true,
                            phase: Phase::Notifying { watch, port },
                            ..s
                        },
                        Reaction { note: None, answer: None },
                    ),
                    None => (
                        Supervisor { pending_update: true, phase: Phase::Watching(watch), ..s },
                        Reaction {
                            note: None,
                            answer: Some(Answer::Update(Verdict::Notified { sent: false })),
                        },
                    ),
                }
            },
        ),
        (Phase::Preparing { origin, current }, Event::DirectoryReady(r)) => match r {
            Ok(()) => Some(
                (
                    Supervisor { phase: Phase::Installing { origin, current }, ..s },
                    Reaction { note: None, answer: None },
                ),
            ),
            Err(e) => {
                let (t, answer) = installed(s, origin, Err(Failure::Directory(e)));
                Some((t, Reaction { note: None, answer }))
            },
        },
        (Phase::Installing { origin, current }, Event::UpdateRan(new)) => match new {
            Some(version) => Some(
                (
                    Supervisor {
                        phase: Phase::Saving { origin, version, first: current is None },
                        ..s
                    },
                    Reaction { note: None, answer: None },
                ),
            ),
            None => {
                let (t, answer) = installed(s, origin, without_build(origin, current));
                Some((t, Reaction { note: None, answer }))
            },
        },
        (Phase::Saving { origin, version, first }, Event::VersionSaved(r)) => {
            let result = match r {
                Ok(()) => Ok(()),
                Err(e) => Err(Failure::Reported(e)),
            };
            let (t, answer) = installed(s, origin, result);
            Some((t, Reaction { note: None, answer }))
        },
        (Phase::Spawning { version }, Event::Spawned(r)) => match r {
            Ok(pid) => Some(
                (
                    Supervisor {
                        state: InternalState::Running { pid, started_at: now, version },
                        phase: Phase::Watching(
                            Watch { started_at: now, timeout_secs: s.server.heartbeat_timeout },
                        ),
                        ..s
                    },
                    Reaction { note: Some(Note::Start { pid, version }), answer: None },
                ),
            ),
            Err(reason) => Some(
                (
                    halted(s, Failure::Reported(reason)),
                    Reaction { note: Some(Note::SpawnFailed { reason }), answer: None },
                ),
            ),
        },
        (Phase::Watching(w), Event::Command(c)) => Some(
            (
                commanded_running(s, w, c),
                Reaction { note: Some(Note::Admin(c)), answer: None },
            ),
        ),
        (Phase::Watching(w), Event::Abandoned) => Some(
            (leaving(s, After::Abandoned), Reaction { note: None, answer: None }),
        ),
        (Phase::Watching(w), Event::Exited(report)) => {
            let uptime_secs = elapsed_secs(w.started_at, now);
            Some(
                (
                    if is_clean(report) {
                        resumed(Supervisor { failures: 0, ..s })
                    } else {
                        backing_off(s, uptime_secs, now)
                    },
                    Reaction { note: Some(Note::Exit { report, uptime_secs }), answer: None },
                ),
            )
        },
        (Phase::Watching(w), Event::Tick) => Some(
            if is_hung(w, s.last_ping, now) {
                let uptime_secs = elapsed_secs(w.started_at, now);
                (
                    killing(s, After::HeartbeatLost { uptime_secs }),
                    Reaction { note: Some(Note::HeartbeatLost { uptime_secs }), answer: None },
                )
            } else {
                (s, Reaction { note: None, answer: None })
            },
        ),
        (Phase::Notifying { watch, port }, Event::Answered(sent)) => Some(
            (
                Supervisor { phase: Phase::Watching(watch), ..s },
                Reaction { note: None, answer: Some(Answer::Update(Verdict::Notified { sent })) },
            ),
        ),
        (Phase::Asking { after, port }, Event::Answered(agreed)) => Some(
            (
                Supervisor {
                    phase: if agreed {
                        Phase::Leaving(after)
                    } else {
                        Phase::Killing(after)
                    },
                    ..s
                },
                Reaction { note: None, answer: None },
            ),
        ),
        (Phase::Leaving(after), Event::GraceOver) => Some(
            (
                Supervisor { phase: Phase::Killing(after), ..s },
                Reaction { note: None, answer: None },
            ),
        ),
        (Phase::Leaving(after), Event::Exited(_)) | (Phase::Killing(after), Event::Exited(_)) => Some(
            (gone(s, after, now), Reaction { note: None, answer: due(after) }),
        ),
        _ => None,
    }
}

/// Whether a process ended with status zero.
pub open spec fn is_clean(report: ExitReport) -> bool {
    report matches ExitReport::Status { success, .. } && success
}

/// No reaction but the change itself.
fn nothing() -> (r: Reaction)
    ensures
        r == (Reaction { note: None, answer: None }),
{
    Reaction { note: None, answer: None }
}

impl Supervisor {
    fn at(self, phase: Phase) -> (r: Supervisor)
        ensures
            r == (Supervisor { phase, ..self }),
    {
        Supervisor { phase, ..self }
    }

    fn resume(self) -> (r: Supervisor)
        ensures
            r == resumed(self),
    {
        if self.pending_update {
            Supervisor {
                pending_update: false,
                state: InternalState::Updating,
                phase: Phase::Reading(Query::Install(Origin::Queued)),
                ..self
            }
        } else {
            self.at(Phase::Reading(Query::Ensure))
        }
    }

    fn launch(self) -> (r: Supervisor)
        ensures
            r == launching(self),
    {
        Supervisor {
            state: InternalState::Starting,
            last_ping: None,
            phase: Phase::Reading(Query::Launch),
            ..self
        }
    }

    fn halt(self, why: Failure) -> (r: Supervisor)
        ensures
            r == halted(self, why),
    {
        Supervisor {
            state: InternalState::Failed { reason: why },
            phase: Phase::Waiting(Place::Halted),
            ..self
        }
    }

    fn finish(self) -> (r: Supervisor)
        ensures
            r == finished(self),
    {
        Supervisor { state: InternalState::Stopped, phase: Phase::Finished, ..self }
    }

    fn back_off(self, uptime_secs: u64, now: u64) -> (r: Supervisor)
        ensures
            r == backing_off(self, uptime_secs, now),
    {
        let failures = count_failure(self.failures, uptime_secs, self.server.healthy_after_secs);
        let wait = backoff(self.server.restart_min_secs, self.server.restart_max_secs, failures);
        let until: u128 = now as u128 + wait as u128 * NANOS as u128;
        Supervisor {
            failures,
            state: InternalState::Backoff { until, failures },
            phase: Phase::Waiting(Place::BackingOff { until }),
            ..self
        }
    }

    fn keep(self, place: Place) -> (r: Supervisor)
        ensures
            r == as_before(self, place),
    {
        match place {
            Place::Idle => self.at(Phase::Waiting(Place::Idle)),
            _ => self.resume(),
        }
    }

    /// How the game server and the watchdog know each other.
    pub fn api(&self) -> (r: &ApiConfig)
        ensures
            *r == current_api(*self),
    {
        match &self.phase {
            Phase::Spawning { .. }
            | Phase::Watching(_)
            | Phase::Reading(Query::CheckRunning(_))
            | Phase::CheckingRunning { .. }
            | Phase::Notifying { .. }
            | Phase::Asking { .. }
            | Phase::Leaving(_)
            | Phase::Killing(_) => &self.issued,
            _ => &self.server.api,
        }
    }

    fn leave(self, after: After) -> (r: Supervisor)
        ensures
            r == leaving(self, after),
    {
        let phase = match self.api().port {
            Some(port) => Phase::Asking { after, port },
            None => Phase::Killing(after),
        };
        Supervisor { state: InternalState::Stopping, phase, ..self }
    }

    fn kill(self, after: After) -> (r: Supervisor)
        ensures
            r == killing(self, after),
    {
        Supervisor { state: InternalState::Stopping, phase: Phase::Killing(after), ..self }
    }

    fn conclude(self, after: After, now: u64) -> (r: (Supervisor, Option<Answer>))
        ensures
            r == (gone(self, after, now), due(after)),
    {
        match after {
            After::Stop | After::Kill => (
                self.at(Phase::Waiting(Place::Idle)),
                Some(Answer::Done),
            ),
            After::Restart | After::ForceRestart => (
                Supervisor { failures: 0, ..self }.resume(),
                Some(Answer::Done),
            ),
            After::Shutdown => (self.finish(), Some(Answer::Done)),
            After::Abandoned => (self.finish(), None),
            After::HeartbeatLost { uptime_secs } => (self.back_off(uptime_secs, now), None),
        }
    }

    fn settle(self, origin: Origin, result: Result<(), Failure>) -> (r: (
        Supervisor,
        Option<Answer>,
    ))
        ensures
            r == installed(self, origin, result),
    {
        match origin {
            Origin::Queued => (self.at(Phase::Reading(Query::Ensure)), None),
            Origin::Missing => match result {
                Ok(()) => (self.launch(), None),
                Err(why) => (self.halt(why), None),
            },
            Origin::Ordered(place) => match result {
                Ok(()) => (self.resume(), Some(Answer::Update(Verdict::Applied))),
                Err(why) => (self.keep(place), Some(Answer::Update(Verdict::Failed(why)))),
            },
        }
    }

    /// A command that comes in while nothing runs.
    fn apply_command_while_stopped(self, place: Place, c: Command) -> (r: (
        Supervisor,
        Option<Answer>,
    ))
        ensures
            r == commanded_waiting(self, place, c),
    {
        match c {
            Command::Stop => {
                let state = match place {
                    Place::Idle => self.state,
                    _ => InternalState::Stopped,
                };
                let phase = Phase::Waiting(Place::Idle);
                (Supervisor { state, phase, ..self }, Some(Answer::Done))
            },
            Command::Kill => (self.keep(place), Some(Answer::Done)),
            Command::Restart | Command::ForceRestart => (self.resume(), Some(Answer::Done)),
            Command::Update => (self.at(Phase::Reading(Query::Check(place))), None),
            Command::Shutdown => (self.finish(), Some(Answer::Done)),
        }
    }

    /// A command that comes in while the server runs.
    fn apply_command_while_running(self, w: Watch, c: Command) -> (r: Supervisor)
        ensures
            r == commanded_running(self, w, c),
    {
        match c {
            Command::Stop => self.leave(After::Stop),
            Command::Kill => self.kill(After::Kill),
            Command::Restart => self.leave(After::Restart),
            Command::ForceRestart => self.kill(After::ForceRestart),
            Command::Update => self.at(Phase::Reading(Query::CheckRunning(w))),
            Command::Shutdown => self.leave(After::Shutdown),
        }
    }

    fn take_version(self, q: Query, found: Result<Option<String>, String>) -> (r: (
        Supervisor,
        Option<Answer>,
    ))
        ensures
            r == version_read(self, q, found),
    {
        match q {
            Query::Ensure => match found {
                Ok(Some(_)) => (self.launch(), None),
                Ok(None) => (self.at(Phase::Reading(Query::Install(Origin::Missing))), None),
                Err(e) => (self.halt(Failure::Reported(e)), None),
            },
            Query::Launch => match found {
                Ok(Some(version)) => {
                    let issued = self.server.api.duplicate();
                    (Supervisor { issued, phase: Phase::Spawning { version }, ..self }, None)
                },
                Ok(None) => (self.halt(Failure::NoVersion), None),
                Err(e) => (self.halt(Failure::Lookup(e)), None),
            },
            Query::Install(origin) => match found {
                Ok(current) => (self.at(Phase::Preparing { origin, current }), None),
                Err(e) => self.settle(origin, Err(Failure::Reported(e))),
            },
            Query::Check(place) => match found {
                Ok(current) => (self.at(Phase::Checking { place, current }), None),
                Err(e) => (
                    self.keep(place),
                    Some(Answer::Update(Verdict::Failed(Failure::Reported(e)))),
                ),
            },
            Query::CheckRunning(watch) => match found {
                Ok(current) => (self.at(Phase::CheckingRunning { watch, current }), None),
                Err(e) => (
                    self.at(Phase::Watching(watch)),
                    Some(Answer::Update(Verdict::Failed(Failure::Reported(e)))),
                ),
            },
        }
    }

    /// Takes in what happened at the moment `now`. An event that is not waited
    /// for changes nothing and gives no reaction.
    pub fn step(self, event: Event, now: u64) -> (r: (Supervisor, Option<Reaction>))
        ensures
            match next(self, event, now) {
                Some((t, reaction)) => r == (t, Some(reaction)),
                None => r == (self, None::<Reaction>),
            },
    {
        let mut s = self;
        let mut phase = Phase::Finished;
        std::mem::swap(&mut phase, &mut s.phase);
        match (phase, event) {
            (Phase::Waiting(place), Event::Command(c)) => {
                let (t, answer) = s.at(Phase::Waiting(place)).apply_command_while_stopped(place, c);
                (t, Some(Reaction { note: Some(Note::Admin(c)), answer }))
            },
            (Phase::Waiting(Place::BackingOff { .. }), Event::WaitOver) => (
                s.resume(),
                Some(nothing()),
            ),
            (Phase::Waiting(Place::BackingOff { .. }), Event::Abandoned) => (
                s.resume(),
                Some(nothing()),
            ),
            (Phase::Waiting(_), Event::Abandoned) => (s.finish(), Some(nothing())),
            (Phase::Reading(q), Event::VersionRead(r)) => {
                let found = match r {
                    Ok(row) => Ok(current_version(row)),
                    Err(e) => Err(e),
                };
                let (t, answer) = s.take_version(q, found);
                (t, Some(Reaction { note: None, answer }))
            },
            (Phase::Checking { place, current: _ }, Event::UpdateChecked(newer)) => {
                if newer {
                    let state = InternalState::Updating;
                    let phase = Phase::Reading(Query::Install(Origin::Ordered(place)));
                    (Supervisor { state, phase, ..s }, Some(nothing()))
                } else {
                    (
                        s.at(Phase::Waiting(place)),
                        Some(
                            Reaction { note: None, answer: Some(Answer::Update(Verdict::NoUpdate)) },
                        ),
                    )
                }
            },
            (Phase::CheckingRunning { watch, current: _ }, Event::UpdateChecked(newer)) => {
                if !newer {
                    (
                        s.at(Phase::Watching(watch)),
                        Some(
                            Reaction { note: None, answer: Some(Answer::Update(Verdict::NoUpdate)) },
                        ),
                    )
                } else {
                    match s.issued.port {
                        Some(port) => (
                            Supervisor {
                                pending_update: true,
                                phase: Phase::Notifying { watch, port },
                                ..s
                            },
                            Some(nothing()),
                        ),
                        None => (
                            Supervisor { pending_update: true, phase: Phase::Watching(watch), ..s },
                            Some(
                                Reaction {
                                    note: None,
                                    answer: Some(Answer::Update(Verdict::Notified { sent: false })),
                                },
                            ),
                        ),
                    }
                }
            },
            (Phase::Preparing { origin, current }, Event::DirectoryReady(r)) => match r {
                Ok(()) => (s.at(Phase::Installing { origin, current }), Some(nothing())),
                Err(e) => {
                    let (t, answer) = s.settle(origin, Err(Failure::Directory(e)));
                    (t, Some(Reaction { note: None, answer }))
                },
            },
            (Phase::Installing { origin, current }, Event::UpdateRan(new)) => match new {
                Some(version) => (
                    s.at(Phase::Saving { origin, version, first: current.is_none() }),
                    Some(nothing()),
                ),
                None => {
                    let result = match (origin, current) {
                        (_, None) => Err(Failure::NothingInstalled),
                        (Origin::Ordered(_), Some(_)) => Err(Failure::NotUpdated),
                        _ => Ok(()),
                    };
                    let (t, answer) = s.settle(origin, result);
                    (t, Some(Reaction { note: None, answer }))
                },
            },
            (Phase::Saving { origin, version: _, first: _ }, Event::VersionSaved(r)) => {
                let result = match r {
                    Ok(()) => Ok(()),
                    Err(e) => Err(Failure::Reported(e)),
                };
                let (t, answer) = s.settle(origin, result);
                (t, Some(Reaction { note: None, answer }))
            },
            (Phase::Spawning { version }, Event::Spawned(r)) => match r {
                Ok(pid) => {
                    let timeout_secs = s.server.heartbeat_timeout;
                    let note = Note::Start { pid, version: version.clone() };
                    (
                        Supervisor {
                            state: InternalState::Running { pid, started_at: now, version },
                            phase: Phase::Watching(Watch { started_at: now, timeout_secs }),
                            ..s
                        },
                        Some(Reaction { note: Some(note), answer: None }),
                    )
                },
                Err(reason) => {
                    let note = Note::SpawnFailed { reason: reason.clone() };
                    (
                        s.halt(Failure::Reported(reason)),
                        Some(Reaction { note: Some(note), answer: None }),
                    )
                },
            },
            (Phase::Watching(w), Event::Command(c)) => (
                s.at(Phase::Watching(w)).apply_command_while_running(w, c),
                Some(Reaction { note: Some(Note::Admin(c)), answer: None }),
            ),
            (Phase::Watching(w), Event::Abandoned) => (
                s.at(Phase::Watching(w)).leave(After::Abandoned),
                Some(nothing()),
            ),
            (Phase::Watching(w), Event::Exited(report)) => {
                let uptime_secs = elapsed(w.started_at, now);
                let clean = match &report {
                    ExitReport::Status { success, .. } => *success,
                    ExitReport::IoError => false,
                };
                let t = if clean {
                    Supervisor { failures: 0, ..s }.resume()
                } else {
                    s.back_off(uptime_secs, now)
                };
                (
                    t,
                    Some(Reaction { note: Some(Note::Exit { report, uptime_secs }), answer: None }),
                )
            },
            (Phase::Watching(w), Event::Tick) => {
                if hung(w, s.last_ping, now) {
                    let uptime_secs = elapsed(w.started_at, now);
                    (
                        s.kill(After::HeartbeatLost { uptime_secs }),
                        Some(
                            Reaction {
                                note: Some(Note::HeartbeatLost { uptime_secs }),
                                answer: None,
                            },
                        ),
                    )
                } else {
                    (s.at(Phase::Watching(w)), Some(nothing()))
                }
            },
            (Phase::Notifying { watch, port: _ }, Event::Answered(sent)) => (
                s.at(Phase::Watching(watch)),
                Some(
                    Reaction {
                        note: None,
                        answer: Some(Answer::Update(Verdict::Notified { sent })),
                    },
                ),
            ),
            (Phase::Asking { after, port: _ }, Event::Answered(agreed)) => {
                if agreed {
                    (s.at(Phase::Leaving(after)), Some(nothing()))
                } else {
                    (s.at(Phase::Killing(after)), Some(nothing()))
                }
            },
            (Phase::Leaving(after), Event::GraceOver) => (
                s.at(Phase::Killing(after)),
                Some(nothing()),
            ),
            (Phase::Leaving(after), Event::Exited(_)) | (Phase::Killing(after), Event::Exited(_)) => {
                let (t, answer) = s.conclude(after, now);
                (t, Some(Reaction { note: None, answer }))
            },
            (phase, _) => (s.at(phase), None),
        }
    }
}

} // verus!
