//! What holds of a supervisor whatever happens.
use vstd::prelude::*;

use crate::db::server::Server;

use super::actions::{asks_for, Action};
use super::backoff::{law_backoff_is_bounded, most_secs};
use super::fresh;
use super::machine::{
    alive, as_before, current_api, elapsed_secs, is_clean, is_hung, next, After, Answer, Command,
    Event, ExitReport, InternalState, Note, Origin, Phase, Place, Query, Supervisor, Verdict, Watch,
};
use super::NANOS;

verus! {

/// What a supervisor is after a course of events. An event that it does not
/// wait for leaves it as it is.
pub open spec fn after_events(s: Supervisor, events: Seq<(Event, u64)>) -> Supervisor
    decreases events.len(),
{
    if events.len() == 0 {
        s
    } else {
        let p = after_events(s, events.drop_last());
        match next(p, events.last().0, events.last().1) {
            Some((t, _)) => t,
            None => p,
        }
    }
}

/// Whether the state is one in which a supervisor waits at `place`.
pub open spec fn rests_at(s: Supervisor, place: Place) -> bool {
    match place {
        Place::Idle => s.state is Stopped || s.state is Stopping || s.state is Updating,
        Place::Halted => s.state is Failed,
        Place::BackingOff { until } => s.state == (InternalState::Backoff {
            until,
            failures: s.failures,
        }),
    }
}

/// Whether the state is that of a process that is only watched.
pub open spec fn runs_since(s: Supervisor, w: Watch) -> bool {
    s.state matches InternalState::Running { started_at, .. } && started_at == w.started_at
}

/// Whether the state fits an installation.
pub open spec fn installs_for(s: Supervisor, origin: Origin) -> bool {
    match origin {
        Origin::Queued => s.state is Updating && !s.pending_update,
        Origin::Missing => !s.pending_update,
        Origin::Ordered(_) => s.state is Updating,
    }
}

/// What a supervisor reports fits what it is waiting for, and no build is queued
/// once a start is under way.
pub open spec fn consistent(s: Supervisor) -> bool {
    match s.phase {
        Phase::Waiting(place) => rests_at(s, place),
        Phase::Reading(q) => match q {
            Query::Ensure => !s.pending_update,
            Query::Launch => s.state is Starting && !s.pending_update,
            Query::Install(origin) => installs_for(s, origin),
            Query::Check(place) => rests_at(s, place),
            Query::CheckRunning(w) => runs_since(s, w),
        },
        Phase::Checking { place, .. } => rests_at(s, place),
        Phase::CheckingRunning { watch, .. } => runs_since(s, watch),
        Phase::Preparing { origin, .. } => installs_for(s, origin),
        Phase::Installing { origin, .. } => installs_for(s, origin),
        Phase::Saving { origin, .. } => installs_for(s, origin),
        Phase::Spawning { .. } => s.state is Starting && !s.pending_update,
        Phase::Watching(w) => runs_since(s, w),
        Phase::Notifying { watch, .. } => runs_since(s, watch),
        Phase::Asking { .. } | Phase::Leaving(_) | Phase::Killing(_) => s.state is Stopping,
        Phase::Finished => s.state is Stopped,
    }
}

/// A new supervisor is consistent.
pub proof fn law_fresh_is_consistent(s: Supervisor, key: Seq<char>, base_url: Seq<char>)
    requires
        fresh(s, key, base_url),
    ensures
        consistent(s),
{
}

/// Whatever happens, a supervisor stays consistent.
pub proof fn law_stays_consistent(s: Supervisor, events: Seq<(Event, u64)>)
    requires
        consistent(s),
    ensures
        consistent(after_events(s, events)),
    decreases events.len(),
{
    if events.len() > 0 {
        law_stays_consistent(s, events.drop_last());
        lemma_step_consistent(
            after_events(s, events.drop_last()),
            events.last().0,
            events.last().1,
        );
    }
}

proof fn lemma_step_consistent(s: Supervisor, e: Event, now: u64)
    requires
        consistent(s),
    ensures
        next(s, e, now) matches Some((t, _)) ==> consistent(t),
{
}

/// A process is started only while none runs, and it is given up only once it
/// has ended: from none to one by a successful start alone, from one to none by
/// its end alone.
pub proof fn law_one_process(s: Supervisor, e: Event, now: u64)
    ensures
        s.phase is Spawning ==> !alive(s.phase),
        next(s, e, now) matches Some((t, _)) ==> {
            &&& !alive(s.phase) && alive(t.phase) ==> s.phase is Spawning && e is Spawned
                && e->Spawned_0 is Ok
            &&& alive(s.phase) && !alive(t.phase) ==> e is Exited
            &&& alive(s.phase) && e is Exited ==> !alive(t.phase)
        },
{
}

/// Every start is written down, with the process and the version that the
/// supervisor reports from then on.
pub proof fn law_starts_are_noted(s: Supervisor, e: Event, now: u64)
    ensures
        next(s, e, now) matches Some((t, r)) ==> (!alive(s.phase) && alive(t.phase) ==> {
            &&& r.note matches Some(Note::Start { pid, version })
            &&& t.state == (InternalState::Running { pid, started_at: now, version })
        }),
{
}

/// Every end of a process of its own accord, every lost heartbeat and every
/// command that is taken up is written down.
pub proof fn law_history_is_complete(s: Supervisor, e: Event, now: u64)
    ensures
        next(s, e, now) matches Some((t, r)) ==> {
            &&& e matches Event::Command(c) ==> r.note == Some(Note::Admin(c))
            &&& s.phase is Watching && e is Exited ==> r.note is Some && r.note->0 is Exit
                && r.note->0->report == e->Exited_0
            &&& s.phase is Watching && t.phase is Killing && e is Tick ==> r.note is Some
                && r.note->0 is HeartbeatLost
        },
{
}

/// A ping that was seen stays seen: nothing that happens to the server takes back
/// the last of all, and a start forgets only that it came since the last start.
pub proof fn law_pings_are_not_forgotten(s: Supervisor, e: Event, now: u64)
    ensures
        next(s, e, now) matches Some((t, _)) ==> t.last_seen == s.last_seen,
        next(s, e, now) matches Some((t, _)) ==> t.last_ping == s.last_ping || t.last_ping is None,
{
}

/// A process keeps what it was started with: from its start to its end the same
/// token and port count for it.
pub proof fn law_process_keeps_its_token(s: Supervisor, e: Event, now: u64)
    ensures
        next(s, e, now) matches Some((t, _)) ==> ((s.phase is Spawning || alive(s.phase)) && (
        t.phase is Spawning || alive(t.phase)) ==> current_api(t) == current_api(s)),
        next(s, e, now) matches Some((t, _)) ==> (t.phase is Spawning ==> current_api(t)
            == s.server.api),
{
}

/// Whether a supervisor is on its way to rest: it was told to stop, and the
/// server is down or going down.
pub open spec fn coming_to_rest(p: Phase) -> bool {
    match p {
        Phase::Waiting(Place::Idle) | Phase::Finished => true,
        Phase::Asking { after, .. } => stops(after),
        Phase::Leaving(after) => stops(after),
        Phase::Killing(after) => stops(after),
        _ => false,
    }
}

/// Whether a process that is taken down for this reason stays down.
pub open spec fn stops(after: After) -> bool {
    match after {
        After::Stop | After::Kill | After::Shutdown | After::Abandoned => true,
        _ => false,
    }
}

/// Whether an event can wake a supervisor that is at rest.
pub open spec fn wakes(e: Event) -> bool {
    e == Event::Command(Command::Restart) || e == Event::Command(Command::ForceRestart) || e
        == Event::Command(Command::Update)
}

/// A server that is told to stop goes down and is not started again: whatever
/// was going on when the command was taken up, and whatever happens then, short
/// of a command to start or update it. The same holds of a server that is killed
/// on command while it runs, or after it was stopped.
pub proof fn law_stop_is_final(s: Supervisor, c: Command, now: u64, events: Seq<(Event, u64)>)
    requires
        c is Stop || (c is Kill && (alive(s.phase) || s.phase == Phase::Waiting(Place::Idle))),
        next(s, Event::Command(c), now) is Some,
        forall|i: int| 0 <= i < events.len() ==> !wakes((#[trigger] events[i]).0),
    ensures
        coming_to_rest(after_events(next(s, Event::Command(c), now).unwrap().0, events).phase),
{
    lemma_rest_lasts(next(s, Event::Command(c), now).unwrap().0, events);
}

proof fn lemma_rest_lasts(s: Supervisor, events: Seq<(Event, u64)>)
    requires
        coming_to_rest(s.phase),
        forall|i: int| 0 <= i < events.len() ==> !wakes((#[trigger] events[i]).0),
    ensures
        coming_to_rest(after_events(s, events).phase),
    decreases events.len(),
{
    if events.len() > 0 {
        let prefix = events.drop_last();
        assert forall|i: int| 0 <= i < prefix.len() implies !wakes((#[trigger] prefix[i]).0) by {
            assert(prefix[i] == events[i]);
        }
        lemma_rest_lasts(s, prefix);
        assert(!wakes(events[events.len() - 1].0));
    }
}

/// A supervisor that is told to shut down ends, once the process that it may
/// have is gone, and from then on nothing moves it.
pub proof fn law_shutdown_is_final(s: Supervisor, now: u64, events: Seq<(Event, u64)>)
    requires
        next(s, Event::Command(Command::Shutdown), now) is Some,
    ensures
        ({
            let t = next(s, Event::Command(Command::Shutdown), now).unwrap().0;
            let u = after_events(t, events);
            &&& ends(u.phase)
            &&& !alive(u.phase) ==> u.phase is Finished && u.state is Stopped
        }),
        forall|e: Event, at: u64| s.phase is Finished ==> next(s, e, at) is None,
{
    lemma_ending_lasts(next(s, Event::Command(Command::Shutdown), now).unwrap().0, events);
}

/// Whether a supervisor has ended or is ending.
pub open spec fn ends(p: Phase) -> bool {
    match p {
        Phase::Finished => true,
        Phase::Asking { after, .. } => after is Shutdown,
        Phase::Leaving(after) => after is Shutdown,
        Phase::Killing(after) => after is Shutdown,
        _ => false,
    }
}

proof fn lemma_ending_lasts(s: Supervisor, events: Seq<(Event, u64)>)
    requires
        ends(s.phase),
        s.phase is Finished ==> s.state is Stopped,
    ensures
        ends(after_events(s, events).phase),
        after_events(s, events).phase is Finished ==> after_events(s, events).state is Stopped,
    decreases events.len(),
{
    if events.len() > 0 {
        lemma_ending_lasts(s, events.drop_last());
    }
}

/// The process that a supervisor looks for updates beside, if that is what it is
/// doing.
pub open spec fn checking_beside(p: Phase) -> Option<Watch> {
    match p {
        Phase::Reading(Query::CheckRunning(w)) => Some(w),
        Phase::CheckingRunning { watch, .. } => Some(watch),
        Phase::Notifying { watch, .. } => Some(watch),
        _ => None,
    }
}

/// An update never disturbs a running server: from the command to its answer the
/// supervisor reports the same process, asks nothing of the server but to note
/// the news, and then goes on watching.
pub proof fn law_update_leaves_a_running_server_alone(s: Supervisor, e: Event, now: u64)
    ensures
        s.phase matches Phase::Watching(w) ==> next(s, Event::Command(Command::Update), now) matches Some(
            (t, _),
        ) && t.state == s.state && checking_beside(t.phase) == Some(w),
        checking_beside(s.phase) matches Some(w) ==> {
            &&& forall|a: Action| #[trigger]
                asks_for(s, a) ==> !(a is Kill) && !(a is PostShutdown)
            &&& next(s, e, now) matches Some((t, r)) ==> {
                &&& t.state == s.state
                &&& if r.answer is Some {
                    t.phase == Phase::Watching(w)
                } else {
                    checking_beside(t.phase) == Some(w)
                }
            }
        },
{
}

/// A newer build that is found while the server runs is queued, and a queued
/// build is installed before the server is next started: no start is ever under
/// way while one is queued.
pub proof fn law_queued_build_comes_first(s: Supervisor, now: u64)
    requires
        consistent(s),
    ensures
        s.phase is CheckingRunning ==> next(s, Event::UpdateChecked(true), now).unwrap().0.pending_update,
        s.phase is Spawning ==> !s.pending_update,
        s.phase == Phase::Reading(Query::Launch) ==> !s.pending_update,
        s.phase is Watching && s.pending_update ==> forall|r: ExitReport|
            is_clean(r) ==> #[trigger] next(s, Event::Exited(r), now).unwrap().0.phase
                == Phase::Reading(Query::Install(Origin::Queued)),
{
}

/// With no newer build, a command to update changes nothing, while the server
/// runs and while it does not.
pub proof fn law_no_update_does_nothing(
    s: Supervisor,
    now: u64,
    row: Option<Server>,
    later: u64,
    last: u64,
)
    requires
        s.phase is Watching || s.phase is Waiting,
    ensures
        after_events(
            s,
            seq![
                (Event::Command(Command::Update), now),
                (Event::VersionRead(Ok(row)), later),
                (Event::UpdateChecked(false), last),
            ],
        ) == s,
{
    reveal_with_fuel(after_events, 4);
    let all = seq![
        (Event::Command(Command::Update), now),
        (Event::VersionRead(Ok(row)), later),
        (Event::UpdateChecked(false), last),
    ];
    let two = all.drop_last();
    let one = two.drop_last();
    assert(two.last() == (Event::VersionRead(Ok(row)), later));
    assert(one.last() == (Event::Command(Command::Update), now));
    assert(one.drop_last().len() == 0);
}

/// An update is called applied only when a build was installed and its version
/// written down. One that was asked for and brought no build has failed.
pub proof fn law_applied_means_installed(s: Supervisor, e: Event, now: u64)
    ensures
        next(s, e, now) matches Some((_, r)) ==> (r.answer == Some(Answer::Update(Verdict::Applied))
            ==> s.phase is Saving && e is VersionSaved && e->VersionSaved_0 is Ok),
        s.phase matches Phase::Installing { origin: Origin::Ordered(place), .. } ==> next(
            s,
            Event::UpdateRan(None),
            now,
        ) matches Some((t, r)) && r.answer matches Some(Answer::Update(Verdict::Failed(_)))
            && t == as_before(s, place),
{
}

/// An update that fails while nothing runs leaves a stopped server stopped; where
/// a start was due, the wait for it is over. The failures still count.
pub proof fn law_failed_update_ends_a_wait(s: Supervisor, e: Event, now: u64, place: Place)
    requires
        waits_at(s.phase) == Some(place),
    ensures
        next(s, e, now) matches Some((t, r)) ==> (r.answer matches Some(
            Answer::Update(Verdict::Failed(_)),
        ) ==> t == as_before(s, place)),
        as_before(s, Place::Idle).phase == Phase::Waiting(Place::Idle),
        !(place is Idle) ==> !(as_before(s, place).phase is Waiting),
        as_before(s, place).failures == s.failures,
{
}

/// Where a supervisor waited when it was asked for an update, while it is at it.
pub open spec fn waits_at(p: Phase) -> Option<Place> {
    match p {
        Phase::Reading(Query::Check(place)) => Some(place),
        Phase::Checking { place, .. } => Some(place),
        Phase::Reading(Query::Install(Origin::Ordered(place))) => Some(place),
        Phase::Preparing { origin: Origin::Ordered(place), .. } => Some(place),
        Phase::Installing { origin: Origin::Ordered(place), .. } => Some(place),
        Phase::Saving { origin: Origin::Ordered(place), .. } => Some(place),
        _ => None,
    }
}

/// A server that ends with status zero is started again at once: no wait, and
/// the failures before it are forgotten.
pub proof fn law_clean_exit_costs_nothing(s: Supervisor, report: ExitReport, now: u64)
    requires
        s.phase is Watching,
        is_clean(report),
    ensures
        next(s, Event::Exited(report), now) matches Some((t, _)) && t.failures == 0
            && t.phase is Reading,
{
}

/// A server that crashes is started again after a wait of at least a second and
/// at most the configured ceiling: one failure is added, and the earlier ones
/// are forgotten if the server had been up long enough.
pub proof fn law_crash_backs_off(s: Supervisor, report: ExitReport, now: u64)
    requires
        s.phase is Watching,
        !is_clean(report),
    ensures
        ({
            let up = elapsed_secs(s.phase->Watching_0.started_at, now);
            let cfg = s.server;
            &&& next(s, Event::Exited(report), now) matches Some((t, _))
            &&& t.phase matches Phase::Waiting(Place::BackingOff { until })
            &&& now + NANOS <= until <= now + most_secs(cfg.restart_min_secs, cfg.restart_max_secs)
                * NANOS
            &&& up >= cfg.healthy_after_secs ==> t.failures == 1
            &&& up < cfg.healthy_after_secs && s.failures < u32::MAX ==> t.failures == s.failures
                + 1
        }),
{
    let t = next(s, Event::Exited(report), now).unwrap().0;
    law_backoff_is_bounded(s.server.restart_min_secs, s.server.restart_max_secs, t.failures);
    let wait = super::backoff::backoff_secs(
        s.server.restart_min_secs,
        s.server.restart_max_secs,
        t.failures,
    );
    let most = most_secs(s.server.restart_min_secs, s.server.restart_max_secs);
    assert(NANOS <= wait * NANOS <= most * NANOS) by (nonlinear_arith)
        requires
            1 <= wait <= most,
    ;
    assert(most * NANOS <= u64::MAX * NANOS) by (nonlinear_arith)
        requires
            most <= u64::MAX,
    ;
}

/// No crash leaves a server dead: when the wait is over it is on its way to a
/// start, by way of the queued build if there is one.
pub proof fn law_crashed_server_comes_back(s: Supervisor, now: u64)
    requires
        s.phase matches Phase::Waiting(Place::BackingOff { .. }),
    ensures
        next(s, Event::WaitOver, now) matches Some((t, _)) && t.phase == Phase::Reading(
            if s.pending_update {
                Query::Install(Origin::Queued)
            } else {
                Query::Ensure
            },
        ),
{
}

/// A server is killed for want of a ping in these cases only: its timeout is not
/// zero, and either its last ping is as old as the timeout, or it never sent one
/// and had the timeout, and half a minute at least, to boot.
pub proof fn law_heartbeat(s: Supervisor, w: Watch, now: u64)
    requires
        s.phase == Phase::Watching(w),
    ensures
        next(s, Event::Tick, now) matches Some((t, r)) && {
            let lost = w.timeout_secs != 0 && match s.last_ping {
                Some(ping) => elapsed_secs(ping, now) >= w.timeout_secs,
                None => elapsed_secs(w.started_at, now) >= w.timeout_secs && elapsed_secs(
                    w.started_at,
                    now,
                ) >= 30,
            };
            if lost {
                &&& t.phase matches Phase::Killing(After::HeartbeatLost { .. })
                &&& r.note is Some
            } else {
                t == s && r.note is None
            }
        },
{
}

/// A server that pings often enough is never taken for hung.
pub proof fn law_pinging_server_lives(s: Supervisor, w: Watch, ping: u64, now: u64)
    requires
        s.phase == Phase::Watching(w),
        s.last_ping == Some(ping),
        now < ping + w.timeout_secs * NANOS,
    ensures
        next(s, Event::Tick, now) matches Some((t, _)) && t == s,
{
    if now > ping && w.timeout_secs != 0 {
        let d = now - ping;
        assert(d / (NANOS as int) < w.timeout_secs) by (nonlinear_arith)
            requires
                0 <= d < w.timeout_secs * NANOS,
        ;
        assert(!is_hung(w, s.last_ping, now));
    }
}

/// Whether a command asks a server to go at its own pace.
pub open spec fn gentle(after: After) -> bool {
    match after {
        After::Stop | After::Restart | After::Shutdown | After::Abandoned => true,
        _ => false,
    }
}

/// A server that is to go at its own pace is killed in these cases only: it
/// cannot be asked, it refused, or it did not go in time.
pub proof fn law_killed_only_at_need(s: Supervisor, e: Event, now: u64)
    ensures
        next(s, e, now) matches Some((t, _)) ==> t.phase matches Phase::Killing(after) && gentle(
            after,
        ) ==> {
            ||| s.phase is Watching && s.issued.port is None
            ||| s.phase is Asking && e == Event::Answered(false)
            ||| s.phase is Leaving && e == Event::GraceOver
        },
{
}

/// The answer that is owed to the command in hand; `Some(true)` for the outcome
/// of an update.
pub open spec fn owed(p: Phase) -> Option<bool> {
    match p {
        Phase::Reading(Query::Check(_))
        | Phase::Reading(Query::CheckRunning(_))
        | Phase::Reading(Query::Install(Origin::Ordered(_)))
        | Phase::Checking { .. }
        | Phase::CheckingRunning { .. }
        | Phase::Preparing { origin: Origin::Ordered(_), .. }
        | Phase::Installing { origin: Origin::Ordered(_), .. }
        | Phase::Saving { origin: Origin::Ordered(_), .. }
        | Phase::Notifying { .. } => Some(true),
        Phase::Asking { after, .. } => if commanded(after) {
            Some(false)
        } else {
            None
        },
        Phase::Leaving(after) => if commanded(after) {
            Some(false)
        } else {
            None
        },
        Phase::Killing(after) => if commanded(after) {
            Some(false)
        } else {
            None
        },
        _ => None,
    }
}

/// Whether a process is taken down on command.
pub open spec fn commanded(after: After) -> bool {
    !(after is Abandoned || after is HeartbeatLost)
}

/// Whether an event keeps the books on answers: a command is taken up only when
/// no other waits for its answer, and it is answered at once or its answer is
/// owed; an answer that is owed stays so until it is given, once and of the kind
/// that was asked for.
pub open spec fn accounts(s: Supervisor, e: Event, now: u64) -> bool {
    next(s, e, now) matches Some((t, r)) ==> match e {
        Event::Command(c) => {
            &&& owed(s.phase) is None
            &&& match r.answer {
                Some(a) => owed(t.phase) is None && a is Update == c is Update,
                None => owed(t.phase) == Some(c is Update),
            }
        },
        _ => match r.answer {
            Some(a) => owed(s.phase) == Some(a is Update) && owed(t.phase) is None,
            None => owed(t.phase) == owed(s.phase),
        },
    }
}

proof fn lemma_reading_accounts(s: Supervisor, e: Event, now: u64)
    requires
        s.phase is Reading,
    ensures
        accounts(s, e, now),
{
}

proof fn lemma_installing_accounts(s: Supervisor, e: Event, now: u64)
    requires
        s.phase is Preparing || s.phase is Installing || s.phase is Saving,
    ensures
        accounts(s, e, now),
{
}

proof fn lemma_down_accounts(s: Supervisor, e: Event, now: u64)
    requires
        s.phase is Asking || s.phase is Leaving || s.phase is Killing || s.phase is Finished,
    ensures
        accounts(s, e, now),
{
}

proof fn lemma_waiting_accounts(s: Supervisor, e: Event, now: u64)
    requires
        s.phase is Waiting || s.phase is Watching,
    ensures
        accounts(s, e, now),
{
}

proof fn lemma_asking_accounts(s: Supervisor, e: Event, now: u64)
    requires
        s.phase is Checking || s.phase is CheckingRunning || s.phase is Spawning
            || s.phase is Notifying,
    ensures
        accounts(s, e, now),
{
}

/// Whatever happens keeps the books on answers: none is given twice, withheld
/// or given unasked.
pub proof fn law_one_answer_each(s: Supervisor, e: Event, now: u64)
    ensures
        accounts(s, e, now),
{
    match s.phase {
        Phase::Reading(_) => lemma_reading_accounts(s, e, now),
        Phase::Preparing { .. } | Phase::Installing { .. } | Phase::Saving { .. } => {
            lemma_installing_accounts(s, e, now)
        },
        Phase::Asking { .. } | Phase::Leaving(_) | Phase::Killing(_) | Phase::Finished => {
            lemma_down_accounts(s, e, now)
        },
        Phase::Waiting(_) | Phase::Watching(_) => lemma_waiting_accounts(s, e, now),
        _ => lemma_asking_accounts(s, e, now),
    }
}

/// How many commands were taken up in a course of events.
pub open spec fn commands_taken(s: Supervisor, events: Seq<(Event, u64)>) -> nat
    decreases events.len(),
{
    if events.len() == 0 {
        0
    } else {
        let p = after_events(s, events.drop_last());
        let (e, now) = events.last();
        commands_taken(s, events.drop_last()) + if e is Command && next(p, e, now) is Some {
            1nat
        } else {
            0
        }
    }
}

/// How many answers were given in a course of events.
pub open spec fn answers_given(s: Supervisor, events: Seq<(Event, u64)>) -> nat
    decreases events.len(),
{
    if events.len() == 0 {
        0
    } else {
        let p = after_events(s, events.drop_last());
        let (e, now) = events.last();
        answers_given(s, events.drop_last()) + match next(p, e, now) {
            Some((_, r)) => if r.answer is Some {
                1nat
            } else {
                0
            },
            None => 0,
        }
    }
}

/// Over any course of events as many answers are given as commands were taken
/// up, but for the one that may still be owed.
pub proof fn law_every_command_is_answered(s: Supervisor, events: Seq<(Event, u64)>)
    requires
        owed(s.phase) is None,
    ensures
        commands_taken(s, events) == answers_given(s, events) + if owed(
            after_events(s, events).phase,
        ) is Some {
            1nat
        } else {
            0
        },
    decreases events.len(),
{
    if events.len() > 0 {
        law_every_command_is_answered(s, events.drop_last());
        law_one_answer_each(
            after_events(s, events.drop_last()),
            events.last().0,
            events.last().1,
        );
    }
}

/// Nothing that happens changes a server's key, name, settings or the address of
/// the daemon.
pub proof fn law_settings_stay(s: Supervisor, e: Event, now: u64)
    ensures
        next(s, e, now) matches Some((t, _)) ==> {
            &&& t.key == s.key
            &&& t.display_name == s.display_name
            &&& t.server == s.server
            &&& t.admin_base_url == s.admin_base_url
        },
{
}

} // verus!
