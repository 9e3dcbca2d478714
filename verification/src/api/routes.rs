//! The routes and what is answered on them.
use vstd::prelude::*;
use vstd::string::*;

use crate::keymap::lists;
use crate::supervisor::machine::{pinged, Command, Supervisor};
use crate::supervisor::reports::looks;
use crate::supervisor::watchdog::hushed;
use crate::supervisor::{Status, SupervisorError, Watchdog};
use crate::text::{dec, push_dec};

use super::auth::Refusal;

verus! {

/// The methods that are used.
#[derive(Debug, Clone, Copy, PartialEq, Eq, Structural)]
pub enum Method {
    Get,
    Post,
}

/// Who is let in.
#[derive(Debug, Clone, Copy, PartialEq, Eq, Structural)]
pub enum Guard {
    /// Everybody.
    Open,
    /// Who holds the admin token.
    Admin,
    /// Who holds the admin token, and the instance itself.
    AdminOrInstance,
    /// The instance itself.
    Instance,
}

/// The routes.
#[derive(Debug, Clone, Copy, PartialEq, Eq, Structural)]
pub enum Endpoint {
    Health,
    Metrics,
    ListInstances,
    InstanceStatus,
    Start,
    Stop,
    Restart,
    ForceRestart,
    Update,
    Silence,
    Unsilence,
    History,
    Logs,
    Reload,
    Ping,
}

/// The path of a route, with `{key}` for the instance.
pub open spec fn route_path(e: Endpoint) -> Seq<char> {
    match e {
        Endpoint::Health => "/health"@,
        Endpoint::Metrics => "/metrics"@,
        Endpoint::ListInstances => "/instances"@,
        Endpoint::InstanceStatus => "/instances/{key}/status"@,
        Endpoint::Start => "/instances/{key}/start"@,
        Endpoint::Stop => "/instances/{key}/stop"@,
        Endpoint::Restart => "/instances/{key}/restart"@,
        Endpoint::ForceRestart => "/instances/{key}/force-restart"@,
        Endpoint::Update => "/instances/{key}/update"@,
        Endpoint::Silence => "/instances/{key}/silence"@,
        Endpoint::Unsilence => "/instances/{key}/unsilence"@,
        Endpoint::History => "/instances/{key}/history"@,
        Endpoint::Logs => "/instances/{key}/logs"@,
        Endpoint::Reload => "/reload"@,
        Endpoint::Ping => "/server_api/{key}/ping"@,
    }
}

/// The method of a route.
pub open spec fn route_method(e: Endpoint) -> Method {
    match e {
        Endpoint::Health
        | Endpoint::Metrics
        | Endpoint::ListInstances
        | Endpoint::InstanceStatus
        | Endpoint::History
        | Endpoint::Logs => Method::Get,
        _ => Method::Post,
    }
}

/// Who is let in on a route.
pub open spec fn route_guard(e: Endpoint) -> Guard {
    match e {
        Endpoint::Health | Endpoint::Metrics => Guard::Open,
        Endpoint::Update => Guard::AdminOrInstance,
        Endpoint::Ping => Guard::Instance,
        _ => Guard::Admin,
    }
}

/// The command that a route gives, if it gives one.
pub open spec fn route_command(e: Endpoint) -> Option<Command> {
    match e {
        Endpoint::Start | Endpoint::Restart => Some(Command::Restart),
        Endpoint::Stop => Some(Command::Stop),
        Endpoint::ForceRestart => Some(Command::ForceRestart),
        Endpoint::Update => Some(Command::Update),
        _ => None,
    }
}

/// Whether a route drops the output of an instance or lets it through again, if
/// it does either.
pub open spec fn route_silence(e: Endpoint) -> Option<bool> {
    match e {
        Endpoint::Silence => Some(true),
        Endpoint::Unsilence => Some(false),
        _ => None,
    }
}

impl Endpoint {
    /// The path, with `{key}` for the instance.
    pub fn path(&self) -> (r: &'static str)
        ensures
            r@ == route_path(*self),
    {
        match self {
            Endpoint::Health => "/health",
            Endpoint::Metrics => "/metrics",
            Endpoint::ListInstances => "/instances",
            Endpoint::InstanceStatus => "/instances/{key}/status",
            Endpoint::Start => "/instances/{key}/start",
            Endpoint::Stop => "/instances/{key}/stop",
            Endpoint::Restart => "/instances/{key}/restart",
            Endpoint::ForceRestart => "/instances/{key}/force-restart",
            Endpoint::Update => "/instances/{key}/update",
            Endpoint::Silence => "/instances/{key}/silence",
            Endpoint::Unsilence => "/instances/{key}/unsilence",
            Endpoint::History => "/instances/{key}/history",
            Endpoint::Logs => "/instances/{key}/logs",
            Endpoint::Reload => "/reload",
            Endpoint::Ping => "/server_api/{key}/ping",
        }
    }

    /// The method.
    pub fn method(&self) -> (r: Method)
        ensures
            r == route_method(*self),
    {
        match self {
            Endpoint::Health
            | Endpoint::Metrics
            | Endpoint::ListInstances
            | Endpoint::InstanceStatus
            | Endpoint::History
            | Endpoint::Logs => Method::Get,
            _ => Method::Post,
        }
    }

    /// Who is let in.
    pub fn guard(&self) -> (r: Guard)
        ensures
            r == route_guard(*self),
    {
        match self {
            Endpoint::Health | Endpoint::Metrics => Guard::Open,
            Endpoint::Update => Guard::AdminOrInstance,
            Endpoint::Ping => Guard::Instance,
            _ => Guard::Admin,
        }
    }

    /// The command that is given, if one is.
    pub fn command(&self) -> (r: Option<Command>)
        ensures
            r == route_command(*self),
    {
        match self {
            Endpoint::Start | Endpoint::Restart => Some(Command::Restart),
            Endpoint::Stop => Some(Command::Stop),
            Endpoint::ForceRestart => Some(Command::ForceRestart),
            Endpoint::Update => Some(Command::Update),
            _ => None,
        }
    }

    /// Whether the output of the instance is dropped or let through again, if
    /// either.
    pub fn silence(&self) -> (r: Option<bool>)
        ensures
            r == route_silence(*self),
    {
        match self {
            Endpoint::Silence => Some(true),
            Endpoint::Unsilence => Some(false),
            _ => None,
        }
    }
}

/// No two routes share a path.
pub proof fn law_paths_differ(a: Endpoint, b: Endpoint)
    requires
        a != b,
    ensures
        route_path(a) != route_path(b),
{
    reveal_strlit("/health");
    reveal_strlit("/metrics");
    reveal_strlit("/instances");
    reveal_strlit("/instances/{key}/status");
    reveal_strlit("/instances/{key}/start");
    reveal_strlit("/instances/{key}/stop");
    reveal_strlit("/instances/{key}/restart");
    reveal_strlit("/instances/{key}/force-restart");
    reveal_strlit("/instances/{key}/update");
    reveal_strlit("/instances/{key}/silence");
    reveal_strlit("/instances/{key}/unsilence");
    reveal_strlit("/instances/{key}/history");
    reveal_strlit("/instances/{key}/logs");
    reveal_strlit("/reload");
    reveal_strlit("/server_api/{key}/ping");
    assert("/health"@.len() == 7 && "/health"@[1] == 'h');
    assert("/metrics"@.len() == 8 && "/metrics"@[1] == 'm');
    assert("/instances"@.len() == 10 && "/instances"@[1] == 'i');
    assert("/instances/{key}/status"@.len() == 23
        && "/instances/{key}/status"@[1] == 'i'
        && "/instances/{key}/status"@[17] == 's');
    assert("/instances/{key}/start"@.len() == 22
        && "/instances/{key}/start"@[1] == 'i'
        && "/instances/{key}/start"@[17] == 's');
    assert("/instances/{key}/stop"@.len() == 21
        && "/instances/{key}/stop"@[1] == 'i'
        && "/instances/{key}/stop"@[17] == 's');
    assert("/instances/{key}/restart"@.len() == 24
        && "/instances/{key}/restart"@[1] == 'i'
        && "/instances/{key}/restart"@[17] == 'r');
    assert("/instances/{key}/force-restart"@.len() == 30
        && "/instances/{key}/force-restart"@[1] == 'i'
        && "/instances/{key}/force-restart"@[17] == 'f');
    assert("/instances/{key}/update"@.len() == 23
        && "/instances/{key}/update"@[1] == 'i'
        && "/instances/{key}/update"@[17] == 'u');
    assert("/instances/{key}/silence"@.len() == 24
        && "/instances/{key}/silence"@[1] == 'i'
        && "/instances/{key}/silence"@[17] == 's');
    assert("/instances/{key}/unsilence"@.len() == 26
        && "/instances/{key}/unsilence"@[1] == 'i'
        && "/instances/{key}/unsilence"@[17] == 'u');
    assert("/instances/{key}/history"@.len() == 24
        && "/instances/{key}/history"@[1] == 'i'
        && "/instances/{key}/history"@[17] == 'h');
    assert("/instances/{key}/logs"@.len() == 21
        && "/instances/{key}/logs"@[1] == 'i'
        && "/instances/{key}/logs"@[17] == 'l');
    assert("/reload"@.len() == 7 && "/reload"@[1] == 'r');
    assert("/server_api/{key}/ping"@.len() == 22
        && "/server_api/{key}/ping"@[1] == 's'
        && "/server_api/{key}/ping"@[17] == '/');
}

/// Only health and metrics are open, and whatever changes something asks for
/// more than a look.
pub proof fn law_guards(e: Endpoint)
    ensures
        route_guard(e) is Open <==> e is Health || e is Metrics,
        route_command(e) is Some ==> route_method(e) is Post && !(route_guard(e) is Open),
        route_silence(e) is Some ==> route_method(e) is Post && route_guard(e) is Admin,
{
}

/// The answer to a question after health.
pub fn health() -> (r: &'static str)
    ensures
        r@ == "ok"@,
{
    "ok"
}

/// An instance as it is listed.
#[derive(Debug)]
pub struct InstanceEntry {
    pub key: String,
    pub name: String,
    pub status: Status,
}

/// Whether `e` shows the server `key` at the moment `now`.
pub open spec fn shows(e: InstanceEntry, key: Seq<char>, s: Supervisor, now: u64) -> bool {
    &&& e.key@ == key
    &&& e.name@ == s.display_name@
    &&& looks(s.state, s.last_ping, now, e.status)
}

/// All instances, in the order of their keys.
pub fn list_instances(watchdog: &Watchdog, now: u64) -> (r: Vec<InstanceEntry>)
    ensures
        lists(r@.map_values(|e: InstanceEntry| e.key@), watchdog.supervisors@.dom()),
        forall|i: int|
            0 <= i < r@.len() ==> shows(
                #[trigger] r@[i],
                r@[i].key@,
                watchdog.supervisors@[r@[i].key@],
                now,
            ),
{
    let all = watchdog.iter();
    let mut r: Vec<InstanceEntry> = Vec::new();
    let mut i: usize = 0;
    while i < all.len()
        invariant
            i <= all@.len(),
            r@.len() == i,
            forall|j: int|
                0 <= j < all@.len() ==> *(#[trigger] all@[j]).1
                    == watchdog.supervisors@[all@[j].0@],
            forall|j: int|
                0 <= j < i ==> shows(
                    #[trigger] r@[j],
                    all@[j].0@,
                    watchdog.supervisors@[all@[j].0@],
                    now,
                ),
        decreases all.len() - i,
    {
        let (key, s) = all[i];
        r.push(
            InstanceEntry {
                key: key.clone(),
                name: s.display_name().to_string(),
                status: s.status(now),
            },
        );
        i = i + 1;
    }
    proof {
        assert(r@.map_values(|e: InstanceEntry| e.key@) =~= all@.map_values(
            |e: (&String, &Supervisor)| e.0@,
        ));
    }
    r
}

/// One instance.
pub fn instance_status(watchdog: &Watchdog, key: &str, now: u64) -> (r: Result<
    InstanceEntry,
    Refusal,
>)
    ensures
        match r {
            Ok(e) => watchdog.supervisors@.contains_key(key@) && shows(
                e,
                key@,
                watchdog.supervisors@[key@],
                now,
            ),
            Err(e) => e is UnknownInstance && !watchdog.supervisors@.contains_key(key@),
        },
{
    match watchdog.get(key) {
        Some(s) => Ok(
            InstanceEntry {
                key: key.to_string(),
                name: s.display_name().to_string(),
                status: s.status(now),
            },
        ),
        None => Err(not_found()),
    }
}

/// The answer where there is no such instance.
pub fn not_found() -> (r: Refusal)
    ensures
        r is UnknownInstance,
{
    Refusal::UnknownInstance
}

/// The answer where a supervisor gave none.
pub fn sup_err(e: SupervisorError) -> (r: Refusal)
    ensures
        r is TaskGone,
{
    match e {
        SupervisorError::TaskGone => Refusal::TaskGone,
    }
}

/// The status code after a command that was carried out: there is nothing to
/// show.
pub const NO_CONTENT: u16 = 204;

/// The answer to a command, by what the supervisor said; `None` where there is
/// no such instance.
pub fn command_reply(outcome: Option<Result<(), SupervisorError>>) -> (r: Result<u16, Refusal>)
    ensures
        match outcome {
            None => r == Err::<u16, Refusal>(Refusal::UnknownInstance),
            Some(Ok(())) => r == Ok::<u16, Refusal>(204),
            Some(Err(_)) => r == Err::<u16, Refusal>(Refusal::TaskGone),
        },
{
    match outcome {
        None => Err(not_found()),
        Some(Ok(())) => Ok(NO_CONTENT),
        Some(Err(e)) => Err(sup_err(e)),
    }
}

/// Drops the output of an instance from the logs, or lets it through again.
pub fn silence_instance(watchdog: &mut Watchdog, key: &str, silent: bool) -> (r: Result<
    u16,
    Refusal,
>)
    ensures
        final(watchdog).supervisors == old(watchdog).supervisors,
        final(watchdog).config_path == old(watchdog).config_path,
        r == if old(watchdog).supervisors@.contains_key(key@) {
            Ok::<u16, Refusal>(204)
        } else {
            Err(Refusal::UnknownInstance)
        },
        final(watchdog).silenced@ == hushed(
            old(watchdog).supervisors@,
            old(watchdog).silenced@,
            key@,
            silent,
        ),
{
    if watchdog.set_silent(key, silent) {
        Ok(NO_CONTENT)
    } else {
        Err(not_found())
    }
}

/// Takes in a ping of an instance. There is nothing to show, whether or not
/// there is such an instance.
pub fn ping_instance(watchdog: &mut Watchdog, key: &str, now: u64) -> (r: u16)
    ensures
        r == 204,
        final(watchdog).silenced == old(watchdog).silenced,
        final(watchdog).config_path == old(watchdog).config_path,
        final(watchdog).supervisors@ == if old(watchdog).supervisors@.contains_key(key@) {
            let s = old(watchdog).supervisors@[key@];
            old(watchdog).supervisors@.insert(key@, pinged(s, now))
        } else {
            old(watchdog).supervisors@
        },
{
    let _ = watchdog.record_ping(key, now);
    NO_CONTENT
}

/// How much of the history is shown unless told otherwise.
pub fn default_history_limit() -> (r: i64)
    ensures
        r == 50,
{
    50
}

/// How much of the history is shown: what was asked for, but one entry at least
/// and a thousand at most.
pub fn history_limit(asked: i64) -> (r: i64)
    ensures
        1 <= r <= 1000,
        asked < 1 ==> r == 1,
        asked > 1000 ==> r == 1000,
        1 <= asked <= 1000 ==> r == asked,
{
    if asked < 1 {
        1
    } else if asked > 1000 {
        1000
    } else {
        asked
    }
}

/// What a follower of a log is shown in place of lines that it was too slow for.
pub fn lagged_line(missed: u64) -> (r: String)
    ensures
        r@ == "[lagged "@ + dec(missed as nat) + "]"@,
{
    let mut r = "[lagged ".to_string();
    push_dec(&mut r, missed);
    r.append("]");
    r
}

/// Every route: its path, its method, who is let in, and the command it gives.
pub proof fn law_routes(e: Endpoint)
    ensures
        (route_path(e), route_method(e), route_guard(e), route_command(e)) == match e {
            Endpoint::Health => ("/health"@, Method::Get, Guard::Open, None),
            Endpoint::Metrics => ("/metrics"@, Method::Get, Guard::Open, None),
            Endpoint::ListInstances => ("/instances"@, Method::Get, Guard::Admin, None),
            Endpoint::InstanceStatus => (
                "/instances/{key}/status"@,
                Method::Get,
                Guard::Admin,
                None,
            ),
            Endpoint::Start => (
                "/instances/{key}/start"@,
                Method::Post,
                Guard::Admin,
                Some(Command::Restart),
            ),
            Endpoint::Stop => (
                "/instances/{key}/stop"@,
                Method::Post,
                Guard::Admin,
                Some(Command::Stop),
            ),
            Endpoint::Restart => (
                "/instances/{key}/restart"@,
                Method::Post,
                Guard::Admin,
                Some(Command::Restart),
            ),
            Endpoint::ForceRestart => (
                "/instances/{key}/force-restart"@,
                Method::Post,
                Guard::Admin,
                Some(Command::ForceRestart),
            ),
            Endpoint::Update => (
                "/instances/{key}/update"@,
                Method::Post,
                Guard::AdminOrInstance,
                Some(Command::Update),
            ),
            Endpoint::Silence => ("/instances/{key}/silence"@, Method::Post, Guard::Admin, None),
            Endpoint::Unsilence => (
                "/instances/{key}/unsilence"@,
                Method::Post,
                Guard::Admin,
                None,
            ),
            Endpoint::History => ("/instances/{key}/history"@, Method::Get, Guard::Admin, None),
            Endpoint::Logs => ("/instances/{key}/logs"@, Method::Get, Guard::Admin, None),
            Endpoint::Reload => ("/reload"@, Method::Post, Guard::Admin, None),
            Endpoint::Ping => ("/server_api/{key}/ping"@, Method::Post, Guard::Instance, None),
        },
        route_silence(e) == if e is Silence {
            Some(true)
        } else if e is Unsilence {
            Some(false)
        } else {
            None
        },
{
}

/// An instance is listed under its key, with the name it started with and what it is
/// doing.
pub proof fn law_listed_instance(e: InstanceEntry, key: Seq<char>, s: Supervisor, now: u64)
    requires
        shows(e, key, s, now),
    ensures
        e.key@ == key,
        e.name@ == s.display_name@,
        s.state is Stopped <==> e.status is Stopped,
        s.state is Running <==> e.status is Running,
        s.state is Backoff <==> e.status is Backoff,
        s.state is Failed <==> e.status is Failed,
{
}

} // verus!
