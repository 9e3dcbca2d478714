//! What each event does to a supervisor, in full.
use vstd::arithmetic::power2::{lemma_pow2_pos, lemma_pow2_unfold, pow2};
use vstd::prelude::*;

use crate::db::server::Server;

use super::laws::{after_events, consistent, law_stays_consistent};
use super::machine::{
    next, pinged, After, Answer, Command, Event, ExitReport, Failure, InternalState, Note, Origin,
    Phase, Place, Query, Reaction, Supervisor, Verdict, Watch,
};

verus! {

/// Whole seconds from one moment to a later one, in nanoseconds.
pub open spec fn secs_between(since: u64, now: u64) -> int {
    if now > since {
        (now - since) / 1_000_000_000
    } else {
        0
    }
}

/// The failures in a row after one more, by the settings of `s`: the earlier ones
/// count unless the server was up long enough.
pub open spec fn one_more_failure(s: Supervisor, up_secs: int) -> int {
    if up_secs >= s.server.healthy_after_secs {
        1
    } else if s.failures == 0xffff_ffff {
        0xffff_ffff
    } else {
        s.failures + 1
    }
}

/// The wait after so many failures in a row, in seconds: the floor, doubled with
/// every failure after the first, twenty times at the most, up to the ceiling;
/// never less than the floor or one second.
pub open spec fn wait_after(floor: u64, ceiling: u64, failures: int) -> int {
    let times: int = if failures > 21 {
        20
    } else if failures > 1 {
        failures - 1
    } else {
        0
    };
    let grown = floor * pow2(times as nat);
    let most: int = if ceiling > floor {
        ceiling as int
    } else {
        floor as int
    };
    let wait = if grown < most {
        grown
    } else {
        most
    };
    if wait < 1 {
        1
    } else {
        wait
    }
}

/// Whether `t` is `s` after a failure of a server that was up so long: it waits
/// for exactly the time that its failures in a row ask for, and forgets nothing.
pub open spec fn waits_out(s: Supervisor, up_secs: int, now: u64, t: Supervisor) -> bool {
    let failures = one_more_failure(s, up_secs);
    let wait = wait_after(s.server.restart_min_secs, s.server.restart_max_secs, failures);
    &&& t.phase matches Phase::Waiting(Place::BackingOff { until })
    &&& until == now + wait * 1_000_000_000
    &&& t.failures == failures
    &&& t.state == (InternalState::Backoff { until, failures: t.failures })
    &&& t == (Supervisor { phase: t.phase, state: t.state, failures: t.failures, ..s })
}

/// Whether `t` is `s` on its way to a start: a queued build is installed first,
/// and what is installed is looked up where none is queued.
pub open spec fn on_its_way(s: Supervisor, t: Supervisor) -> bool {
    if s.pending_update {
        t == (Supervisor {
            pending_update: false,
            state: InternalState::Updating,
            phase: Phase::Reading(Query::Install(Origin::Queued)),
            ..s
        })
    } else {
        t == (Supervisor { phase: Phase::Reading(Query::Ensure), ..s })
    }
}

/// Whether an event was taken up and led to `t`, with nothing for the history and
/// no answer.
pub open spec fn quietly(n: Option<(Supervisor, Reaction)>, t: Supervisor) -> bool {
    n == Some((t, Reaction { note: None, answer: None }))
}

proof fn lemma_wait_fits(floor: u64, ceiling: u64, failures: int, now: u64)
    ensures
        ({
            let wait = wait_after(floor, ceiling, failures);
            &&& 1 <= wait <= 0xffff_ffff_ffff_ffff
            &&& 0 <= now + wait * 1_000_000_000 <= 0xffff_ffff_ffff_ffff_ffff_ffff
        }),
{
    let times: int = if failures > 21 {
        20
    } else if failures > 1 {
        failures - 1
    } else {
        0
    };
    lemma_pow2_pos(times as nat);
    let p = pow2(times as nat);
    assert(floor * p >= 0) by (nonlinear_arith)
        requires
            p >= 0,
            floor >= 0,
    ;
}

/// A start that succeeds is written down, and the process is watched from that
/// moment on with exactly the timeout that is configured then.
pub proof fn law_started_process_is_watched(s: Supervisor, version: String, pid: u32, now: u64)
    requires
        s.phase == (Phase::Spawning { version }),
    ensures
        next(s, Event::Spawned(Ok(pid)), now) == Some(
            (
                Supervisor {
                    state: InternalState::Running { pid, started_at: now, version },
                    phase: Phase::Watching(
                        Watch { started_at: now, timeout_secs: s.server.heartbeat_timeout },
                    ),
                    ..s
                },
                Reaction { note: Some(Note::Start { pid, version }), answer: None },
            ),
        ),
{
}

/// A start that fails is written down, and the server stays down for that reason
/// until the next command.
pub proof fn law_failed_start_is_told(s: Supervisor, why: String, now: u64)
    requires
        s.phase is Spawning,
    ensures
        next(s, Event::Spawned(Err(why)), now) == Some(
            (
                Supervisor {
                    state: InternalState::Failed { reason: Failure::Reported(why) },
                    phase: Phase::Waiting(Place::Halted),
                    ..s
                },
                Reaction { note: Some(Note::SpawnFailed { reason: why }), answer: None },
            ),
        ),
{
}

/// From the start on, a server is killed on a tick for want of a ping exactly when
/// its last ping is as old as the timeout that was configured when it started, or,
/// as long as it sent none, when it had that time and half a minute at least; and
/// never with a timeout of zero. Killing it is written down with its uptime.
pub proof fn law_configured_timeout_decides(
    s: Supervisor,
    version: String,
    pid: u32,
    start: u64,
    ping: Option<u64>,
    now: u64,
)
    requires
        s.phase == (Phase::Spawning { version }),
        s.last_ping is None,
    ensures
        ({
            let timeout = s.server.heartbeat_timeout;
            let up = next(s, Event::Spawned(Ok(pid)), start).unwrap().0;
            let u = match ping {
                Some(at) => pinged(up, at),
                None => up,
            };
            let late = match ping {
                Some(at) => now >= at + timeout * 1_000_000_000,
                None => now >= start + timeout * 1_000_000_000 && now >= start + 30_000_000_000,
            };
            &&& u == (Supervisor { last_ping: ping, last_seen: u.last_seen, ..up })
            &&& ping is Some ==> u.last_seen == ping
            &&& next(u, Event::Tick, now) == if timeout != 0 && late {
                let uptime_secs = secs_between(start, now) as u64;
                Some(
                    (
                        Supervisor {
                            state: InternalState::Stopping,
                            phase: Phase::Killing(After::HeartbeatLost { uptime_secs }),
                            ..u
                        },
                        Reaction { note: Some(Note::HeartbeatLost { uptime_secs }), answer: None },
                    ),
                )
            } else {
                Some((u, Reaction { note: None, answer: None }))
            }
        }),
{
    let timeout = s.server.heartbeat_timeout;
    let since = match ping {
        Some(at) => at,
        None => start,
    };
    if now > since {
        let d = now - since;
        assert(d / 1_000_000_000 >= timeout <==> d >= timeout * 1_000_000_000);
        assert(d / 1_000_000_000 >= 30 <==> d >= 30_000_000_000);
    } else if timeout != 0 {
        assert(timeout * 1_000_000_000 >= 1_000_000_000);
    }
}

/// The same of a server that has been watched for some time, by the timeout that
/// it is watched with.
pub proof fn law_tick(s: Supervisor, w: Watch, now: u64)
    requires
        s.phase == Phase::Watching(w),
    ensures
        ({
            let late = match s.last_ping {
                Some(at) => now >= at + w.timeout_secs * 1_000_000_000,
                None => now >= w.started_at + w.timeout_secs * 1_000_000_000 && now >= w.started_at
                    + 30_000_000_000,
            };
            next(s, Event::Tick, now) == if w.timeout_secs != 0 && late {
                let uptime_secs = secs_between(w.started_at, now) as u64;
                Some(
                    (
                        Supervisor {
                            state: InternalState::Stopping,
                            phase: Phase::Killing(After::HeartbeatLost { uptime_secs }),
                            ..s
                        },
                        Reaction { note: Some(Note::HeartbeatLost { uptime_secs }), answer: None },
                    ),
                )
            } else {
                Some((s, Reaction { note: None, answer: None }))
            }
        }),
{
    let since = match s.last_ping {
        Some(at) => at,
        None => w.started_at,
    };
    if now > since {
        let d = now - since;
        assert(d / 1_000_000_000 >= w.timeout_secs <==> d >= w.timeout_secs * 1_000_000_000);
        assert(d / 1_000_000_000 >= 30 <==> d >= 30_000_000_000);
    } else if w.timeout_secs != 0 {
        assert(w.timeout_secs * 1_000_000_000 >= 1_000_000_000);
    }
}

/// A server that ends of its own accord, other than with status zero, is started
/// again after exactly the wait that its failures in a row ask for: the floor,
/// doubled with every failure after the first, up to the ceiling.
pub proof fn law_crash_waits_exactly(s: Supervisor, w: Watch, report: ExitReport, now: u64)
    requires
        s.phase == Phase::Watching(w),
        !(report matches ExitReport::Status { success: true, .. }),
    ensures
        next(s, Event::Exited(report), now) matches Some((t, r)) && waits_out(
            s,
            secs_between(w.started_at, now),
            now,
            t,
        ) && r == (Reaction {
            note: Some(
                Note::Exit { report, uptime_secs: secs_between(w.started_at, now) as u64 },
            ),
            answer: None,
        }),
{
    let up = secs_between(w.started_at, now);
    let failures = one_more_failure(s, up);
    lemma_wait_fits(s.server.restart_min_secs, s.server.restart_max_secs, failures, now);
}

/// A server that was killed for want of a ping is started again after exactly the
/// wait of a crash, by its uptime when the ping was missed.
pub proof fn law_lost_heartbeat_waits_exactly(
    s: Supervisor,
    uptime_secs: u64,
    report: ExitReport,
    now: u64,
)
    requires
        s.phase == Phase::Killing(After::HeartbeatLost { uptime_secs }),
    ensures
        next(s, Event::Exited(report), now) matches Some((t, r)) && waits_out(
            s,
            uptime_secs as int,
            now,
            t,
        ) && r == (Reaction { note: None, answer: None }),
{
    let failures = one_more_failure(s, uptime_secs as int);
    lemma_wait_fits(s.server.restart_min_secs, s.server.restart_max_secs, failures, now);
}

/// Of two quick crashes in a row the second is waited out twice as long as the
/// first, until the ceiling is reached.
pub proof fn law_waits_of_quick_crashes_double(
    a: Supervisor,
    wa: Watch,
    ra: ExitReport,
    crash_a: u64,
    b: Supervisor,
    wb: Watch,
    rb: ExitReport,
    crash_b: u64,
)
    requires
        a.phase == Phase::Watching(wa),
        b.phase == Phase::Watching(wb),
        !(ra matches ExitReport::Status { success: true, .. }),
        !(rb matches ExitReport::Status { success: true, .. }),
        b.server == a.server,
        b.failures == next(a, Event::Exited(ra), crash_a).unwrap().0.failures,
        b.failures <= 20,
        secs_between(wb.started_at, crash_b) < b.server.healthy_after_secs,
        a.server.restart_min_secs >= 1,
    ensures
        ({
            let t = next(a, Event::Exited(ra), crash_a).unwrap().0;
            let u = next(b, Event::Exited(rb), crash_b).unwrap().0;
            let first = t.phase->Waiting_0->until - crash_a;
            let second = u.phase->Waiting_0->until - crash_b;
            let most = if a.server.restart_max_secs > a.server.restart_min_secs {
                a.server.restart_max_secs * 1_000_000_000
            } else {
                a.server.restart_min_secs * 1_000_000_000
            };
            &&& u.failures == t.failures + 1
            &&& second == if 2 * first < most {
                2 * first
            } else {
                most
            }
        }),
{
    law_crash_waits_exactly(a, wa, ra, crash_a);
    law_crash_waits_exactly(b, wb, rb, crash_b);
    let f = b.failures;
    let floor = a.server.restart_min_secs;
    let p = pow2((f - 1) as nat);
    lemma_pow2_unfold(f as nat);
    lemma_pow2_pos((f - 1) as nat);
    assert(floor * (2 * p) == 2 * (floor * p)) by (nonlinear_arith);
    assert(floor * p >= floor) by (nonlinear_arith)
        requires
            p >= 1,
            floor >= 1,
    ;
}

/// A server that ends with status zero is on its way to a start at once, with no
/// failures counted.
pub proof fn law_clean_exit_starts_at_once(s: Supervisor, w: Watch, report: ExitReport, now: u64)
    requires
        s.phase == Phase::Watching(w),
        report matches ExitReport::Status { success: true, .. },
    ensures
        next(s, Event::Exited(report), now) matches Some((t, r)) && on_its_way(
            Supervisor { failures: 0, ..s },
            t,
        ) && r == (Reaction {
            note: Some(
                Note::Exit { report, uptime_secs: secs_between(w.started_at, now) as u64 },
            ),
            answer: None,
        }),
{
}

/// A command to a running server: a stop, a restart and a shutdown ask it to leave
/// where the process was given a port to be asked at, and kill it where not; a kill
/// and a forced restart kill it; an update only looks up what is installed. Each is
/// written down and answered later.
pub proof fn law_command_while_running(s: Supervisor, w: Watch, c: Command, now: u64)
    requires
        s.phase == Phase::Watching(w),
    ensures
        next(s, Event::Command(c), now) == Some(
            (
                match c {
                    Command::Update => Supervisor {
                        phase: Phase::Reading(Query::CheckRunning(w)),
                        ..s
                    },
                    Command::Kill => Supervisor {
                        state: InternalState::Stopping,
                        phase: Phase::Killing(After::Kill),
                        ..s
                    },
                    Command::ForceRestart => Supervisor {
                        state: InternalState::Stopping,
                        phase: Phase::Killing(After::ForceRestart),
                        ..s
                    },
                    _ => {
                        let after = match c {
                            Command::Stop => After::Stop,
                            Command::Restart => After::Restart,
                            _ => After::Shutdown,
                        };
                        Supervisor {
                            state: InternalState::Stopping,
                            phase: match s.issued.port {
                                Some(port) => Phase::Asking { after, port },
                                None => Phase::Killing(after),
                            },
                            ..s
                        }
                    },
                },
                Reaction { note: Some(Note::Admin(c)), answer: None },
            ),
        ),
        quietly(
            next(s, Event::Abandoned, now),
            Supervisor {
                state: InternalState::Stopping,
                phase: match s.issued.port {
                    Some(port) => Phase::Asking { after: After::Abandoned, port },
                    None => Phase::Killing(After::Abandoned),
                },
                ..s
            },
        ),
{
}

/// A server that was asked to leave is waited for if it agreed and killed if it did
/// not, and killed when the time it was given is over. Why it has to go stays.
pub proof fn law_asked_server_leaves_or_is_killed(
    s: Supervisor,
    after: After,
    agreed: bool,
    now: u64,
)
    ensures
        s.phase matches Phase::Asking { after: a, .. } && a == after ==> quietly(
            next(s, Event::Answered(agreed), now),
            Supervisor {
                phase: if agreed {
                    Phase::Leaving(after)
                } else {
                    Phase::Killing(after)
                },
                ..s
            },
        ),
        s.phase == Phase::Leaving(after) ==> quietly(
            next(s, Event::GraceOver, now),
            Supervisor { phase: Phase::Killing(after), ..s },
        ),
{
}

/// Once a process that was taken down is gone, it stays down after a stop or a
/// kill, is on its way to a new start with no failures counted after a restart, and
/// the supervisor ends after a shutdown. The command is answered then.
pub proof fn law_process_taken_down_is_gone(
    s: Supervisor,
    after: After,
    report: ExitReport,
    now: u64,
)
    requires
        s.phase == Phase::Leaving(after) || s.phase == Phase::Killing(after),
        !(after is HeartbeatLost),
    ensures
        next(s, Event::Exited(report), now) matches Some((t, r)) && r.note is None && match after {
            After::Stop | After::Kill => {
                &&& t == (Supervisor { phase: Phase::Waiting(Place::Idle), ..s })
                &&& r.answer == Some(Answer::Done)
            },
            After::Restart | After::ForceRestart => {
                &&& on_its_way(Supervisor { failures: 0, ..s }, t)
                &&& r.answer == Some(Answer::Done)
            },
            After::Shutdown => {
                &&& t == (Supervisor {
                    state: InternalState::Stopped,
                    phase: Phase::Finished,
                    ..s
                })
                &&& r.answer == Some(Answer::Done)
            },
            _ => {
                &&& t == (Supervisor {
                    state: InternalState::Stopped,
                    phase: Phase::Finished,
                    ..s
                })
                &&& r.answer is None
            },
        },
{
}

/// Whether the end of the process puts the server on its way to a start with no
/// failures counted, and answers the command.
pub open spec fn comes_back(u: Supervisor, queued: bool, report: ExitReport, now: u64) -> bool {
    &&& next(u, Event::Exited(report), now) matches Some((t, r))
    &&& t.phase == Phase::Reading(
        if queued {
            Query::Install(Origin::Queued)
        } else {
            Query::Ensure
        },
    )
    &&& t.failures == 0
    &&& r.answer == Some(Answer::Done)
}

/// A running server that is told to restart comes back: however it is taken down
/// and whatever happens until its process ends, the end of the process puts it on
/// its way to a start, by way of a queued build if there is one, with no failures
/// counted, and answers the command.
pub proof fn law_restarted_server_comes_back(
    s: Supervisor,
    c: Command,
    told: u64,
    events: Seq<(Event, u64)>,
    report: ExitReport,
    now: u64,
)
    requires
        s.phase is Watching,
        c is Restart || c is ForceRestart,
        forall|i: int| 0 <= i < events.len() ==> !((#[trigger] events[i]).0 is Exited),
    ensures
        ({
            let u = after_events(next(s, Event::Command(c), told).unwrap().0, events);
            &&& u == (Supervisor { phase: u.phase, state: InternalState::Stopping, ..s })
            &&& if u.phase is Asking {
                forall|agreed: bool| #[trigger]
                    comes_back(
                        next(u, Event::Answered(agreed), now).unwrap().0,
                        s.pending_update,
                        report,
                        now,
                    )
            } else {
                comes_back(u, s.pending_update, report, now)
            }
        }),
{
    let after = if c is Restart {
        After::Restart
    } else {
        After::ForceRestart
    };
    lemma_still_going_down(s, c, told, events, after);
}

proof fn lemma_still_going_down(
    s: Supervisor,
    c: Command,
    told: u64,
    events: Seq<(Event, u64)>,
    after: After,
)
    requires
        s.phase is Watching,
        (c is Restart && after is Restart) || (c is ForceRestart && after is ForceRestart),
        forall|i: int| 0 <= i < events.len() ==> !((#[trigger] events[i]).0 is Exited),
    ensures
        ({
            let u = after_events(next(s, Event::Command(c), told).unwrap().0, events);
            &&& u == (Supervisor { phase: u.phase, state: InternalState::Stopping, ..s })
            &&& u.phase == Phase::Leaving(after) || u.phase == Phase::Killing(after) || (
            u.phase matches Phase::Asking { after: a, .. } && a == after)
        }),
    decreases events.len(),
{
    if events.len() > 0 {
        let before = events.drop_last();
        assert forall|i: int| 0 <= i < before.len() implies !((#[trigger] before[i]).0 is Exited) by {
            assert(before[i] == events[i]);
        }
        lemma_still_going_down(s, c, told, before, after);
        assert(!(events[events.len() - 1].0 is Exited));
    }
}

/// A command while nothing runs: a stop keeps the server down, a restart puts it on
/// its way to a start, a shutdown ends the supervisor, a kill has nothing to kill
/// and leaves a stopped server stopped, and an update looks up what is installed.
/// Each is written down, and all but the update are answered at once.
pub proof fn law_command_while_down(s: Supervisor, place: Place, c: Command, now: u64)
    requires
        s.phase == Phase::Waiting(place),
    ensures
        next(s, Event::Command(c), now) matches Some((t, r)) && {
            &&& r.note == Some(Note::Admin(c))
            &&& r.answer == if c is Update {
                None
            } else {
                Some(Answer::Done)
            }
            &&& match c {
                Command::Stop => t == (Supervisor {
                    state: if place is Idle {
                        s.state
                    } else {
                        InternalState::Stopped
                    },
                    phase: Phase::Waiting(Place::Idle),
                    ..s
                }),
                Command::Kill => if place is Idle {
                    t == s
                } else {
                    on_its_way(s, t)
                },
                Command::Restart | Command::ForceRestart => on_its_way(s, t),
                Command::Update => t == (Supervisor {
                    phase: Phase::Reading(Query::Check(place)),
                    ..s
                }),
                Command::Shutdown => t == (Supervisor {
                    state: InternalState::Stopped,
                    phase: Phase::Finished,
                    ..s
                }),
            }
        },
{
}

/// When the wait is over the server is on its way to a start. With nobody left to
/// give commands a wait is over too, and any other rest is the end.
pub proof fn law_end_of_a_wait(s: Supervisor, place: Place, now: u64)
    requires
        s.phase == Phase::Waiting(place),
    ensures
        next(s, Event::WaitOver, now) is Some <==> place is BackingOff,
        next(s, Event::WaitOver, now) matches Some((t, r)) ==> on_its_way(s, t) && r == (Reaction {
            note: None,
            answer: None,
        }),
        next(s, Event::Abandoned, now) matches Some((t, r)) && r == (Reaction {
            note: None,
            answer: None,
        }) && if place is BackingOff {
            on_its_way(s, t)
        } else {
            t == (Supervisor { state: InternalState::Stopped, phase: Phase::Finished, ..s })
        },
{
}

/// What is installed, as the look-up of a row tells it.
pub open spec fn installed_in(row: Option<Server>) -> Option<String> {
    match row {
        Some(r) => r.version,
        None => None,
    }
}

/// On the way to a start, an installed version is started and a missing one is
/// installed; where it cannot be looked up, the server stays down for that reason.
pub proof fn law_look_up_before_a_start(
    s: Supervisor,
    row: Option<Server>,
    why: String,
    now: u64,
)
    requires
        s.phase == Phase::Reading(Query::Ensure),
    ensures
        quietly(
            next(s, Event::VersionRead(Ok(row)), now),
            if installed_in(row) is Some {
                Supervisor {
                    state: InternalState::Starting,
                    last_ping: None,
                    phase: Phase::Reading(Query::Launch),
                    ..s
                }
            } else {
                Supervisor { phase: Phase::Reading(Query::Install(Origin::Missing)), ..s }
            },
        ),
        quietly(
            next(s, Event::VersionRead(Err(why)), now),
            Supervisor {
                state: InternalState::Failed { reason: Failure::Reported(why) },
                phase: Phase::Waiting(Place::Halted),
                ..s
            },
        ),
{
}

/// The version that is started is the installed one, with the token and port that
/// are configured then; without one, or where it cannot be looked up, the server
/// stays down for that reason.
pub proof fn law_installed_version_is_started(
    s: Supervisor,
    row: Option<Server>,
    why: String,
    now: u64,
)
    requires
        s.phase == Phase::Reading(Query::Launch),
    ensures
        quietly(
            next(s, Event::VersionRead(Ok(row)), now),
            match installed_in(row) {
                Some(version) => Supervisor {
                    issued: s.server.api,
                    phase: Phase::Spawning { version },
                    ..s
                },
                None => Supervisor {
                    state: InternalState::Failed { reason: Failure::NoVersion },
                    phase: Phase::Waiting(Place::Halted),
                    ..s
                },
            },
        ),
        quietly(
            next(s, Event::VersionRead(Err(why)), now),
            Supervisor {
                state: InternalState::Failed { reason: Failure::Lookup(why) },
                phase: Phase::Waiting(Place::Halted),
                ..s
            },
        ),
{
}

/// Whether `n` is what an installation comes to that was begun for `origin`: one
/// that was queued goes on to the start whatever came of it; one of a missing build
/// goes on to the start or leaves the server down; one that was ordered is answered,
/// and starts the server where it succeeded or where a start was due anyway.
pub open spec fn concludes(
    n: Option<(Supervisor, Reaction)>,
    s: Supervisor,
    origin: Origin,
    failure: Option<Failure>,
) -> bool {
    n matches Some((t, r)) && r.note is None && match origin {
        Origin::Queued => t == (Supervisor { phase: Phase::Reading(Query::Ensure), ..s })
            && r.answer is None,
        Origin::Missing => r.answer is None && t == match failure {
            None => Supervisor {
                state: InternalState::Starting,
                last_ping: None,
                phase: Phase::Reading(Query::Launch),
                ..s
            },
            Some(reason) => Supervisor {
                state: InternalState::Failed { reason },
                phase: Phase::Waiting(Place::Halted),
                ..s
            },
        },
        Origin::Ordered(place) => match failure {
            None => on_its_way(s, t) && r.answer == Some(Answer::Update(Verdict::Applied)),
            Some(reason) => {
                &&& r.answer == Some(Answer::Update(Verdict::Failed(reason)))
                &&& if place is Idle {
                    t == (Supervisor { phase: Phase::Waiting(Place::Idle), ..s })
                } else {
                    on_its_way(s, t)
                }
            },
        },
    }
}

/// An installation: what is installed is looked up, the directory is made, the
/// build is installed and its version written down, as the first where none was
/// installed. What fails on the way is what it comes to.
pub proof fn law_installation(
    s: Supervisor,
    origin: Origin,
    row: Option<Server>,
    current: Option<String>,
    version: String,
    first: bool,
    why: String,
    now: u64,
)
    ensures
        s.phase == Phase::Reading(Query::Install(origin)) ==> {
            &&& quietly(
                next(s, Event::VersionRead(Ok(row)), now),
                Supervisor {
                    phase: Phase::Preparing { origin, current: installed_in(row) },
                    ..s
                },
            )
            &&& concludes(
                next(s, Event::VersionRead(Err(why)), now),
                s,
                origin,
                Some(Failure::Reported(why)),
            )
        },
        s.phase == (Phase::Preparing { origin, current }) ==> {
            &&& quietly(
                next(s, Event::DirectoryReady(Ok(())), now),
                Supervisor { phase: Phase::Installing { origin, current }, ..s },
            )
            &&& concludes(
                next(s, Event::DirectoryReady(Err(why)), now),
                s,
                origin,
                Some(Failure::Directory(why)),
            )
        },
        s.phase == (Phase::Installing { origin, current }) ==> {
            &&& quietly(
                next(s, Event::UpdateRan(Some(version)), now),
                Supervisor {
                    phase: Phase::Saving { origin, version, first: current is None },
                    ..s
                },
            )
            &&& concludes(
                next(s, Event::UpdateRan(None), now),
                s,
                origin,
                if current is None {
                    Some(Failure::NothingInstalled)
                } else if origin is Ordered {
                    Some(Failure::NotUpdated)
                } else {
                    None
                },
            )
        },
        s.phase == (Phase::Saving { origin, version, first }) ==> {
            &&& concludes(next(s, Event::VersionSaved(Ok(())), now), s, origin, None)
            &&& concludes(
                next(s, Event::VersionSaved(Err(why)), now),
                s,
                origin,
                Some(Failure::Reported(why)),
            )
        },
{
}

/// A look for a newer build while nothing runs: it is asked for by the installed
/// version; one that is found is installed, and where there is none all stays as it
/// was. A look that fails leaves a stopped server stopped and ends any other wait.
pub proof fn law_look_for_a_build_while_down(
    s: Supervisor,
    place: Place,
    row: Option<Server>,
    current: Option<String>,
    why: String,
    now: u64,
)
    ensures
        s.phase == Phase::Reading(Query::Check(place)) ==> {
            &&& quietly(
                next(s, Event::VersionRead(Ok(row)), now),
                Supervisor { phase: Phase::Checking { place, current: installed_in(row) }, ..s },
            )
            &&& next(s, Event::VersionRead(Err(why)), now) matches Some((t, r)) && r == (Reaction {
                note: None,
                answer: Some(Answer::Update(Verdict::Failed(Failure::Reported(why)))),
            }) && if place is Idle {
                t == (Supervisor { phase: Phase::Waiting(Place::Idle), ..s })
            } else {
                on_its_way(s, t)
            }
        },
        s.phase == (Phase::Checking { place, current }) ==> {
            &&& quietly(
                next(s, Event::UpdateChecked(true), now),
                Supervisor {
                    state: InternalState::Updating,
                    phase: Phase::Reading(Query::Install(Origin::Ordered(place))),
                    ..s
                },
            )
            &&& next(s, Event::UpdateChecked(false), now) == Some(
                (
                    Supervisor { phase: Phase::Waiting(place), ..s },
                    Reaction { note: None, answer: Some(Answer::Update(Verdict::NoUpdate)) },
                ),
            )
        },
{
}

/// A look for a newer build beside a running server: it is asked for by the
/// installed version; one that is found is queued, and the server is told of it
/// where its process was given a port. In the end the process is watched as before.
pub proof fn law_look_for_a_build_while_running(
    s: Supervisor,
    watch: Watch,
    row: Option<Server>,
    current: Option<String>,
    port: u16,
    sent: bool,
    why: String,
    now: u64,
)
    ensures
        s.phase == Phase::Reading(Query::CheckRunning(watch)) ==> {
            &&& quietly(
                next(s, Event::VersionRead(Ok(row)), now),
                Supervisor {
                    phase: Phase::CheckingRunning { watch, current: installed_in(row) },
                    ..s
                },
            )
            &&& next(s, Event::VersionRead(Err(why)), now) == Some(
                (
                    Supervisor { phase: Phase::Watching(watch), ..s },
                    Reaction {
                        note: None,
                        answer: Some(Answer::Update(Verdict::Failed(Failure::Reported(why)))),
                    },
                ),
            )
        },
        s.phase == (Phase::CheckingRunning { watch, current }) ==> {
            &&& next(s, Event::UpdateChecked(false), now) == Some(
                (
                    Supervisor { phase: Phase::Watching(watch), ..s },
                    Reaction { note: None, answer: Some(Answer::Update(Verdict::NoUpdate)) },
                ),
            )
            &&& next(s, Event::UpdateChecked(true), now) == Some(
                match s.issued.port {
                    Some(port) => (
                        Supervisor {
                            pending_update: true,
                            phase: Phase::Notifying { watch, port },
                            ..s
                        },
                        Reaction { note: None, answer: None },
                    ),
                    None => (
                        Supervisor { pending_update: true, phase: Phase::Watching(watch), ..s },
                        Reaction {
                            note: None,
                            answer: Some(Answer::Update(Verdict::Notified { sent: false })),
                        },
                    ),
                },
            )
        },
        s.phase == (Phase::Notifying { watch, port }) ==> next(s, Event::Answered(sent), now) == Some(
            (
                Supervisor { phase: Phase::Watching(watch), ..s },
                Reaction { note: None, answer: Some(Answer::Update(Verdict::Notified { sent })) },
            ),
        ),
{
}

/// A supervisor takes up the events that it waits for, and no others.
pub proof fn law_events_that_are_waited_for(s: Supervisor, e: Event, now: u64)
    ensures
        next(s, e, now) is Some <==> match s.phase {
            Phase::Waiting(place) => e is Command || e is Abandoned || (e is WaitOver
                && place is BackingOff),
            Phase::Reading(_) => e is VersionRead,
            Phase::Checking { .. } | Phase::CheckingRunning { .. } => e is UpdateChecked,
            Phase::Preparing { .. } => e is DirectoryReady,
            Phase::Installing { .. } => e is UpdateRan,
            Phase::Saving { .. } => e is VersionSaved,
            Phase::Spawning { .. } => e is Spawned,
            Phase::Watching(_) => e is Command || e is Abandoned || e is Exited || e is Tick,
            Phase::Notifying { .. } | Phase::Asking { .. } => e is Answered,
            Phase::Leaving(_) => e is GraceOver || e is Exited,
            Phase::Killing(_) => e is Exited,
            Phase::Finished => false,
        },
{
}

/// A queued build stays queued until its installation begins, whatever happens; and
/// a build is queued only when a newer one is found beside a running server.
pub proof fn law_queued_build_is_kept(s: Supervisor, e: Event, now: u64)
    ensures
        next(s, e, now) matches Some((t, _)) ==> {
            &&& s.pending_update ==> t.pending_update || t.phase == Phase::Reading(
                Query::Install(Origin::Queued),
            )
            &&& t.pending_update && !s.pending_update ==> s.phase is CheckingRunning && e
                == Event::UpdateChecked(true)
        },
{
}

/// No start is reached past a queued build: whatever happens after one was queued,
/// as long as its installation has not begun it is queued, and nothing is started.
pub proof fn law_no_start_past_a_queued_build(s: Supervisor, events: Seq<(Event, u64)>)
    requires
        consistent(s),
        s.pending_update,
        forall|i: int|
            0 <= i <= events.len() ==> (#[trigger] after_events(s, events.take(i))).phase
                != Phase::Reading(Query::Install(Origin::Queued)),
    ensures
        after_events(s, events).pending_update,
        !(after_events(s, events).phase is Spawning),
    decreases events.len(),
{
    assert(events.take(events.len() as int) =~= events);
    law_stays_consistent(s, events);
    if events.len() > 0 {
        let before = events.drop_last();
        assert(events.take(events.len() - 1) =~= before);
        assert forall|i: int| 0 <= i <= before.len() implies (#[trigger] after_events(
            s,
            before.take(i),
        )).phase != Phase::Reading(Query::Install(Origin::Queued)) by {
            assert(before.take(i) =~= events.take(i));
        }
        law_no_start_past_a_queued_build(s, before);
        law_queued_build_is_kept(
            after_events(s, before),
            events.last().0,
            events.last().1,
        );
        assert(after_events(s, events.take(events.len() as int)).phase != Phase::Reading(
            Query::Install(Origin::Queued),
        ));
    }
}

} // verus!
