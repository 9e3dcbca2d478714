//! The history of every instance.
use vstd::prelude::*;

verus! {

/// What sort of thing happened.
#[derive(Debug, Clone, Copy, PartialEq, Eq, Structural)]
pub enum Kind {
    Start,
    Crashed,
    CleanExit,
    HeartbeatLost,
    Admin,
    SpawnFailed,
    /// A process ended, and how could not be learnt.
    WaitFailed,
}

/// One entry of the history.
#[derive(Debug, Clone)]
pub struct Incident {
    pub id: i64,
    pub instance_key: String,
    pub ts: i64,
    pub kind: String,
    pub detail: Option<String>,
}

/// The name under which a kind is stored.
pub open spec fn kind_name(k: Kind) -> Seq<char> {
    match k {
        Kind::Start => "start"@,
        Kind::Crashed => "crashed"@,
        Kind::CleanExit => "clean_exit"@,
        Kind::HeartbeatLost => "heartbeat_lost"@,
        Kind::Admin => "admin"@,
        Kind::SpawnFailed => "spawn_failed"@,
        Kind::WaitFailed => "wait_failed"@,
    }
}

impl Kind {
    /// The name under which this kind is stored.
    pub fn as_str(&self) -> (r: &'static str)
        ensures
            r@ == kind_name(*self),
    {
        match self {
            Kind::Start => "start",
            Kind::Crashed => "crashed",
            Kind::CleanExit => "clean_exit",
            Kind::HeartbeatLost => "heartbeat_lost",
            Kind::Admin => "admin",
            Kind::SpawnFailed => "spawn_failed",
            Kind::WaitFailed => "wait_failed",
        }
    }
}

/// No two kinds are stored under the same name.
pub proof fn law_kind_names_differ(a: Kind, b: Kind)
    requires
        kind_name(a) == kind_name(b),
    ensures
        a == b,
{
    reveal_strlit("start");
    reveal_strlit("crashed");
    reveal_strlit("clean_exit");
    reveal_strlit("heartbeat_lost");
    reveal_strlit("admin");
    reveal_strlit("spawn_failed");
    reveal_strlit("wait_failed");
    assert("start"@.len() == 5 && "start"@[0] == 's');
    assert("crashed"@.len() == 7);
    assert("clean_exit"@.len() == 10);
    assert("heartbeat_lost"@.len() == 14);
    assert("admin"@.len() == 5 && "admin"@[0] == 'a');
    assert("spawn_failed"@.len() == 12);
    assert("wait_failed"@.len() == 11);
}

/// The seconds since the Unix epoch to store for a clock reading; a clock set
/// before the epoch counts as the epoch.
pub fn timestamp(since_epoch: Option<u64>) -> (r: i64)
    ensures
        since_epoch matches Some(s) ==> r == s as i64,
        since_epoch is None ==> r == 0,
{
    match since_epoch {
        Some(s) => s as i64,
        None => 0,
    }
}

/// A row count as the database reports it.
pub fn row_count(n: i64) -> (r: u64)
    ensures
        r as int == if n < 0 {
            0
        } else {
            n as int
        },
{
    if n < 0 {
        0
    } else {
        n as u64
    }
}

/// The name under which each kind is stored.
pub proof fn law_kind_names()
    ensures
        kind_name(Kind::Start) == "start"@,
        kind_name(Kind::Crashed) == "crashed"@,
        kind_name(Kind::CleanExit) == "clean_exit"@,
        kind_name(Kind::HeartbeatLost) == "heartbeat_lost"@,
        kind_name(Kind::Admin) == "admin"@,
        kind_name(Kind::SpawnFailed) == "spawn_failed"@,
        kind_name(Kind::WaitFailed) == "wait_failed"@,
{
}

} // verus!
