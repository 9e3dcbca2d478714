//! All supervisors of a daemon.
use vstd::prelude::*;

use crate::config::{
    law_settings_are_whole, ManifestAuth, ManifestUpdateConfig, ServerConfig, UpdateConfig,
    UpdateType, WatchdogConfig,
};
use crate::instances::{InstanceSpec, SilenceRegistry};
use crate::keymap::{lemma_one_more, lists, shared, shared_keys, KeyMap};
use crate::text::texts;

use super::actions::{asks_for, start_settings, starts, Action};
use super::fresh;
use super::laws::{after_events, law_process_keeps_its_token, law_settings_stay};
use super::machine::{alive, current_api, next, pinged, Event, Reaction, Supervisor};

verus! {

/// The supervisors under their keys, the servers whose output is dropped from
/// the logs, and the file that the configuration came from.
pub struct Watchdog {
    pub supervisors: KeyMap<Supervisor>,
    pub silenced: SilenceRegistry,
    pub config_path: String,
}

/// What came of reading the configuration again.
#[derive(Debug, Clone)]
pub struct ReloadReport {
    /// The servers that have a new configuration.
    pub applied: Vec<String>,
    /// The servers that are new in the file; they wait for the daemon to start
    /// again.
    pub added_ignored: Vec<String>,
    /// The servers that are gone from the file; they run on until the daemon
    /// starts again.
    pub removed_ignored: Vec<String>,
    /// The servers whose output is dropped.
    pub silenced: Vec<String>,
}

fn copy_texts(v: &Vec<String>) -> (r: Vec<String>)
    ensures
        texts(r@) == texts(v@),
{
    let mut r: Vec<String> = Vec::new();
    let mut i: usize = 0;
    while i < v.len()
        invariant
            i <= v@.len(),
            r@.len() == i,
            forall|j: int| 0 <= j < i ==> (#[trigger] r@[j])@ == v@[j]@,
        decreases v.len() - i,
    {
        r.push(v[i].clone());
        i = i + 1;
    }
    assert(texts(r@) =~= texts(v@));
    r
}

/// A copy of a configuration.
pub fn clone_server_cfg(s: &ServerConfig) -> (r: ServerConfig)
    ensures
        r@ == s@,
{
    let update_type = match &s.update.update_type {
        UpdateType::Manifest(m) => {
            let authentication = match &m.authentication {
                Some(a) => Some(
                    ManifestAuth { username: a.username.clone(), password: a.password.clone() },
                ),
                None => None,
            };
            UpdateType::Manifest(
                ManifestUpdateConfig { manifest_url: m.manifest_url.clone(), authentication },
            )
        },
    };
    ServerConfig {
        name: s.name.clone(),
        api: s.api.duplicate(),
        update: UpdateConfig { update_type },
        run_command: s.run_command.clone(),
        arguments: copy_texts(&s.arguments),
        environment: s.environment.duplicate(),
        heartbeat_timeout: s.heartbeat_timeout,
        restart_min_secs: s.restart_min_secs,
        restart_max_secs: s.restart_max_secs,
        healthy_after_secs: s.healthy_after_secs,
        silent: s.silent,
    }
}

/// The servers that are configured to be silent.
pub open spec fn silent_in(servers: Map<Seq<char>, ServerConfig>) -> Set<Seq<char>> {
    servers.dom().filter(|k: Seq<char>| servers[k].silent)
}

/// The servers that are configured to be silent.
fn silent_servers(servers: &KeyMap<ServerConfig>) -> (r: SilenceRegistry)
    ensures
        r@ == silent_in(servers@),
{
    let n = servers.len();
    let ghost order = servers.order();
    let mut r = SilenceRegistry::new();
    let mut i: usize = 0;
    while i < n
        invariant
            order == servers.order(),
            n == order.len(),
            lists(order, servers@.dom()),
            i <= n,
            forall|k: Seq<char>| #[trigger]
                r@.contains(k) <==> order.take(i as int).contains(k) && servers@[k].silent,
        decreases n - i,
    {
        let ghost was = r@;
        if servers.value_at(i).silent {
            let _ = r.insert(servers.key_at(i).clone());
        }
        proof {
            assert forall|k: Seq<char>| #[trigger] r@.contains(k) <==> order.take(i + 1).contains(k)
                && servers@[k].silent by {
                lemma_one_more(order, i as int, k);
                assert(was.contains(k) <==> order.take(i as int).contains(k) && servers@[k].silent);
            }
        }
        i = i + 1;
    }
    proof {
        assert(order.take(n as int) =~= order);
        assert forall|k: Seq<char>| r@.contains(k) <==> silent_in(servers@).contains(k) by {
            assert(order.contains(k) <==> servers@.dom().contains(k));
        }
        assert(r@ =~= silent_in(servers@));
    }
    r
}

/// Whether `after` are the supervisors `before` once the configuration `servers`
/// is in force: a server that it still names has its new settings, and nothing
/// else of any server is touched.
pub open spec fn reloaded(
    before: Map<Seq<char>, Supervisor>,
    servers: Map<Seq<char>, ServerConfig>,
    after: Map<Seq<char>, Supervisor>,
) -> bool {
    &&& after.dom() == before.dom()
    &&& forall|k: Seq<char>| #[trigger]
        before.contains_key(k) ==> if servers.contains_key(k) {
            &&& after[k] == (Supervisor { server: after[k].server, ..before[k] })
            &&& after[k].server@ == servers[k]@
        } else {
            after[k] == before[k]
        }
}

/// Each supervisor is kept under its own key.
pub open spec fn filed(supervisors: Map<Seq<char>, Supervisor>) -> bool {
    forall|k: Seq<char>| #[trigger] supervisors.contains_key(k) ==> supervisors[k].key@ == k
}

/// The supervisors of a daemon that has just started: one for each configured
/// server.
pub open spec fn started(
    supervisors: Map<Seq<char>, Supervisor>,
    servers: Map<Seq<char>, ServerConfig>,
    base_url: Seq<char>,
) -> bool {
    &&& supervisors.dom() == servers.dom()
    &&& forall|k: Seq<char>| #[trigger]
        servers.contains_key(k) ==> {
            &&& fresh(supervisors[k], k, base_url)
            &&& supervisors[k].server@ == servers[k]@
        }
}

impl Watchdog {
    /// The supervisors for a configuration, each on its way to a start.
    pub fn new(cfg: &WatchdogConfig, admin_base_url: &str, config_path: String) -> (r: Self)
        ensures
            started(r.supervisors@, cfg.servers@, admin_base_url@),
            filed(r.supervisors@),
            r.silenced@ == silent_in(cfg.servers@),
            r.config_path@ == config_path@,
    {
        let servers = &cfg.servers;
        let silenced = silent_servers(servers);
        let n = servers.len();
        let ghost order = servers.order();
        let mut supervisors: KeyMap<Supervisor> = KeyMap::new();
        let mut i: usize = 0;
        while i < n
            invariant
                order == servers.order(),
                n == order.len(),
                lists(order, servers@.dom()),
                i <= n,
                forall|k: Seq<char>| #[trigger]
                    supervisors@.contains_key(k) <==> order.take(i as int).contains(k),
                forall|k: Seq<char>| #[trigger]
                    supervisors@.contains_key(k) ==> fresh(supervisors@[k], k, admin_base_url@)
                        && supervisors@[k].server@ == servers@[k]@,
            decreases n - i,
        {
            let ghost was = supervisors@;
            let key = servers.key_at(i).clone();
            let server = clone_server_cfg(servers.value_at(i));
            let s = Supervisor::spawn(key.clone(), server, admin_base_url.to_string());
            supervisors.insert(key, s);
            proof {
                assert forall|k: Seq<char>| #[trigger]
                    supervisors@.contains_key(k) <==> order.take(i + 1).contains(k) by {
                    lemma_one_more(order, i as int, k);
                    assert(was.contains_key(k) <==> order.take(i as int).contains(k));
                }
                assert forall|k: Seq<char>| #[trigger] supervisors@.contains_key(k) implies fresh(
                    supervisors@[k],
                    k,
                    admin_base_url@,
                ) && supervisors@[k].server@ == servers@[k]@ by {
                    if k != order[i as int] {
                        assert(was.contains_key(k));
                    }
                }
            }
            i = i + 1;
        }
        proof {
            assert(order.take(n as int) =~= order);
            assert(supervisors@.dom() =~= servers@.dom()) by {
                assert forall|k: Seq<char>| supervisors@.dom().contains(k)
                    <==> servers@.dom().contains(k) by {
                    assert(supervisors@.contains_key(k) <==> order.contains(k));
                }
            }
            assert forall|k: Seq<char>| #[trigger] servers@.contains_key(k) implies fresh(
                supervisors@[k],
                k,
                admin_base_url@,
            ) && supervisors@[k].server@ == servers@[k]@ by {
                assert(supervisors@.dom().contains(k));
                assert(supervisors@.contains_key(k));
            }
        }
        Watchdog { supervisors, silenced, config_path }
    }

    /// The supervisor of the server `key`, if there is such a server.
    pub fn get(&self, key: &str) -> (r: Option<&Supervisor>)
        ensures
            match r {
                Some(s) => self.supervisors@.contains_key(key@) && *s == self.supervisors@[key@],
                None => !self.supervisors@.contains_key(key@),
            },
    {
        self.supervisors.get(key)
    }

    /// Every server with its supervisor, in the order of their keys.
    pub fn iter(&self) -> (r: Vec<(&String, &Supervisor)>)
        ensures
            lists(r@.map_values(|e: (&String, &Supervisor)| e.0@), self.supervisors@.dom()),
            forall|i: int|
                0 <= i < r@.len() ==> *(#[trigger] r@[i]).1 == self.supervisors@[r@[i].0@],
    {
        let n = self.supervisors.len();
        let mut r: Vec<(&String, &Supervisor)> = Vec::new();
        let mut i: usize = 0;
        while i < n
            invariant
                n == self.supervisors.order().len(),
                lists(self.supervisors.order(), self.supervisors@.dom()),
                i <= n,
                r@.len() == i,
                forall|j: int|
                    0 <= j < i ==> (#[trigger] r@[j]).0@ == self.supervisors.order()[j],
                forall|j: int|
                    0 <= j < i ==> *(#[trigger] r@[j]).1 == self.supervisors@[r@[j].0@],
            decreases n - i,
        {
            r.push((self.supervisors.key_at(i), self.supervisors.value_at(i)));
            i = i + 1;
        }
        assert(r@.map_values(|e: (&String, &Supervisor)| e.0@) =~= self.supervisors.order());
        r
    }

    /// The servers whose output is dropped, in the order of their keys.
    pub fn silenced_keys(&self) -> (r: Vec<String>)
        ensures
            lists(texts(r@), self.silenced@),
    {
        self.silenced.to_sorted()
    }

    /// The file that the configuration came from.
    pub fn config_path(&self) -> (r: &str)
        ensures
            r@ == self.config_path@,
    {
        self.config_path.as_str()
    }

    /// Puts a new configuration in force. It decides anew which servers are
    /// silent; servers that came or went wait for the daemon to start again.
    pub fn reload_from(&mut self, new_cfg: &WatchdogConfig) -> (r: ReloadReport)
        ensures
            reloaded(old(self).supervisors@, new_cfg.servers@, final(self).supervisors@),
            final(self).silenced@ == silent_in(new_cfg.servers@),
            final(self).config_path == old(self).config_path,
            lists(texts(r.applied@), shared(new_cfg.servers@, old(self).supervisors@, true)),
            lists(texts(r.added_ignored@), shared(new_cfg.servers@, old(self).supervisors@, false)),
            lists(
                texts(r.removed_ignored@),
                shared(old(self).supervisors@, new_cfg.servers@, false),
            ),
            lists(texts(r.silenced@), silent_in(new_cfg.servers@)),
    {
        let ghost before = self.supervisors@;
        let servers = &new_cfg.servers;
        self.silenced = silent_servers(servers);
        let applied = shared_keys(servers, &self.supervisors, true);
        let added_ignored = shared_keys(servers, &self.supervisors, false);
        let removed_ignored = shared_keys(&self.supervisors, servers, false);
        let ghost keys = texts(applied@);
        let mut i: usize = 0;
        while i < applied.len()
            invariant
                i <= applied@.len(),
                keys == texts(applied@),
                lists(keys, shared(servers@, before, true)),
                self.supervisors@.dom() == before.dom(),
                self.silenced@ == silent_in(servers@),
                self.config_path == old(self).config_path,
                forall|k: Seq<char>| #[trigger]
                    before.contains_key(k) ==> if keys.take(i as int).contains(k) {
                        &&& self.supervisors@[k] == (Supervisor {
                            server: self.supervisors@[k].server,
                            ..before[k]
                        })
                        &&& self.supervisors@[k].server@ == servers@[k]@
                    } else {
                        self.supervisors@[k] == before[k]
                    },
            decreases applied.len() - i,
        {
            let key = applied[i].clone();
            let ghost k = keys[i as int];
            let ghost was = self.supervisors@;
            proof {
                assert(key@ == k);
                assert(keys.contains(k));
                assert(shared(servers@, before, true).contains(k));
                assert(before.dom().contains(k));
                assert(was.contains_key(k));
            }
            match (self.supervisors.remove(key.as_str()), servers.get(key.as_str())) {
                (Some(s), Some(server)) => {
                    self.supervisors.insert(key, s.apply_config(clone_server_cfg(server)));
                },
                _ => {},
            }
            proof {
                assert(self.supervisors@.dom() =~= before.dom());
                assert forall|x: Seq<char>| #[trigger]
                    before.contains_key(x) implies if keys.take(i + 1).contains(x) {
                    &&& self.supervisors@[x] == (Supervisor {
                        server: self.supervisors@[x].server,
                        ..before[x]
                    })
                    &&& self.supervisors@[x].server@ == servers@[x]@
                } else {
                    self.supervisors@[x] == before[x]
                } by {
                    lemma_one_more(keys, i as int, x);
                }
            }
            i = i + 1;
        }
        proof {
            assert(keys.take(applied@.len() as int) =~= keys);
            assert forall|k: Seq<char>| before.contains_key(k) implies (#[trigger] keys.contains(k)
                <==> servers@.contains_key(k)) by {
                assert(keys.contains(k) <==> shared(servers@, before, true).contains(k));
            }
        }
        let silenced = self.silenced_keys();
        ReloadReport { applied, added_ignored, removed_ignored, silenced }
    }

    /// Takes in what happened to the server `key` at the moment `now`.
    pub fn step(&mut self, key: &str, event: Event, now: u64) -> (r: Option<Reaction>)
        ensures
            final(self).silenced == old(self).silenced,
            final(self).config_path == old(self).config_path,
            if old(self).supervisors@.contains_key(key@) {
                match next(old(self).supervisors@[key@], event, now) {
                    Some((t, reaction)) => {
                        &&& final(self).supervisors@ == old(self).supervisors@.insert(key@, t)
                        &&& r == Some(reaction)
                    },
                    None => final(self).supervisors@ == old(self).supervisors@ && r is None,
                }
            } else {
                final(self).supervisors@ == old(self).supervisors@ && r is None
            },
    {
        match self.supervisors.remove(key) {
            Some(s) => {
                let (t, reaction) = s.step(event, now);
                self.supervisors.insert(key.to_string(), t);
                proof {
                    let before = old(self).supervisors@;
                    assert(self.supervisors@ =~= before.insert(key@, t));
                    assert(before.insert(key@, before[key@]) =~= before);
                }
                reaction
            },
            None => {
                assert(self.supervisors@ =~= old(self).supervisors@);
                None
            },
        }
    }

    /// Takes in a ping of the server `key`; says whether there is such a server.
    pub fn record_ping(&mut self, key: &str, now: u64) -> (r: bool)
        ensures
            final(self).silenced == old(self).silenced,
            final(self).config_path == old(self).config_path,
            r == old(self).supervisors@.contains_key(key@),
            final(self).supervisors@ == if r {
                let s = old(self).supervisors@[key@];
                old(self).supervisors@.insert(key@, pinged(s, now))
            } else {
                old(self).supervisors@
            },
    {
        match self.supervisors.remove(key) {
            Some(s) => {
                let t = s.record_ping(now);
                self.supervisors.insert(key.to_string(), t);
                assert(self.supervisors@ =~= old(self).supervisors@.insert(key@, t));
                true
            },
            None => {
                assert(self.supervisors@ =~= old(self).supervisors@);
                false
            },
        }
    }

    /// Drops the output of the server `key` from the logs, or lets it through
    /// again; says whether there is such a server.
    pub fn set_silent(&mut self, key: &str, silent: bool) -> (r: bool)
        ensures
            final(self).supervisors == old(self).supervisors,
            final(self).config_path == old(self).config_path,
            r == old(self).supervisors@.contains_key(key@),
            final(self).silenced@ == hushed(
                old(self).supervisors@,
                old(self).silenced@,
                key@,
                silent,
            ),
    {
        match self.supervisors.get(key) {
            Some(s) => {
                s.set_silent(&mut self.silenced, silent);
                true
            },
            None => false,
        }
    }
}

/// The silenced servers once the server under `key` is silenced or not; where
/// there is none, all stays as it is.
pub open spec fn hushed(
    supervisors: Map<Seq<char>, Supervisor>,
    silenced: Set<Seq<char>>,
    key: Seq<char>,
    silent: bool,
) -> Set<Seq<char>> {
    if !supervisors.contains_key(key) {
        silenced
    } else if silent {
        silenced.insert(supervisors[key].key@)
    } else {
        silenced.remove(supervisors[key].key@)
    }
}

/// Silencing a server silences it and no other, and lifting that brings back
/// what was.
pub proof fn law_silence_can_be_lifted(
    supervisors: Map<Seq<char>, Supervisor>,
    silenced: Set<Seq<char>>,
    key: Seq<char>,
    other: Seq<char>,
)
    requires
        filed(supervisors),
        supervisors.contains_key(key),
    ensures
        hushed(supervisors, silenced, key, true).contains(key),
        !hushed(supervisors, silenced, key, false).contains(key),
        other != key ==> hushed(supervisors, silenced, key, true).contains(other)
            == silenced.contains(other),
        !silenced.contains(key) ==> hushed(
            supervisors,
            hushed(supervisors, silenced, key, true),
            key,
            false,
        ) == silenced,
{
    if !silenced.contains(key) {
        assert(silenced.insert(key).remove(key) =~= silenced);
    }
}

/// Whatever happens to a server, its supervisor is kept under its own key.
pub proof fn law_stays_filed(
    supervisors: Map<Seq<char>, Supervisor>,
    key: Seq<char>,
    event: Event,
    now: u64,
)
    requires
        filed(supervisors),
        supervisors.contains_key(key),
        next(supervisors[key], event, now) is Some,
    ensures
        filed(supervisors.insert(key, next(supervisors[key], event, now).unwrap().0)),
{
}

/// After a reload each supervisor is still kept under its own key.
pub proof fn law_reload_stays_filed(
    before: Map<Seq<char>, Supervisor>,
    servers: Map<Seq<char>, ServerConfig>,
    after: Map<Seq<char>, Supervisor>,
)
    requires
        filed(before),
        reloaded(before, servers, after),
    ensures
        filed(after),
{
    assert forall|k: Seq<char>| #[trigger] after.contains_key(k) implies after[k].key@ == k by {
        assert(before.dom().contains(k));
        assert(before.contains_key(k));
    }
}

/// A reload leaves every server to what it was doing, and forgets nothing of it:
/// its state, its failures, a queued update, the last ping, the timeout that it
/// started with. While its process runs, the token and port of that process
/// count as before.
pub proof fn law_reload_disturbs_nothing(
    before: Map<Seq<char>, Supervisor>,
    servers: Map<Seq<char>, ServerConfig>,
    after: Map<Seq<char>, Supervisor>,
    key: Seq<char>,
)
    requires
        reloaded(before, servers, after),
        before.contains_key(key),
    ensures
        after.contains_key(key),
        after[key].phase == before[key].phase,
        after[key].state == before[key].state,
        after[key].failures == before[key].failures,
        after[key].pending_update == before[key].pending_update,
        after[key].last_ping == before[key].last_ping,
        after[key].last_seen == before[key].last_seen,
        after[key].display_name == before[key].display_name,
        alive(before[key].phase) ==> current_api(after[key]) == current_api(before[key]),
{
    assert(after.dom().contains(key));
}

/// With or without a reload a running server is sent the same messages, the same
/// is reported of it, and for as long as it runs it is treated the same.
pub proof fn law_reload_leaves_the_process_alone(
    before: Map<Seq<char>, Supervisor>,
    servers: Map<Seq<char>, ServerConfig>,
    after: Map<Seq<char>, Supervisor>,
    key: Seq<char>,
    action: Action,
    e: Event,
    now: u64,
)
    requires
        reloaded(before, servers, after),
        before.contains_key(key),
        alive(before[key].phase),
    ensures
        asks_for(after[key], action) <==> asks_for(before[key], action),
        match (next(before[key], e, now), next(after[key], e, now)) {
            (Some((b, on_b)), Some((a, on_a))) => on_a == on_b && (alive(b.phase) ==> a.phase
                == b.phase && a.state == b.state && a.pending_update == b.pending_update),
            (None, None) => true,
            _ => false,
        },
{
    assert(after.dom().contains(key));
}

/// New settings count from the next start on: whatever begins to start after a
/// reload, after any course of events, is started by them.
pub proof fn law_new_settings_count_at_the_next_start(
    before: Map<Seq<char>, Supervisor>,
    servers: Map<Seq<char>, ServerConfig>,
    after: Map<Seq<char>, Supervisor>,
    key: Seq<char>,
    events: Seq<(Event, u64)>,
    e: Event,
    now: u64,
    spec: InstanceSpec,
)
    requires
        reloaded(before, servers, after),
        before.contains_key(key),
        servers.contains_key(key),
        next(after_events(after[key], events), e, now) is Some,
        asks_for(
            next(after_events(after[key], events), e, now).unwrap().0,
            Action::Spawn { spec },
        ),
    ensures
        exists|version: Seq<char>| #[trigger]
            starts(
                spec,
                before[key].key@,
                version,
                before[key].admin_base_url@,
                servers[key]@,
            ),
{
    let s = after_events(after[key], events);
    lemma_settings_stay(after[key], events);
    law_settings_stay(s, e, now);
    law_process_keeps_its_token(s, e, now);
    let t = next(s, e, now).unwrap().0;
    let version = t.phase->Spawning_version;
    assert(start_settings(t) == servers[key]@);
    assert(starts(
        spec,
        before[key].key@,
        version@,
        before[key].admin_base_url@,
        servers[key]@,
    ));
}

proof fn lemma_settings_stay(s: Supervisor, events: Seq<(Event, u64)>)
    ensures
        after_events(s, events).server == s.server,
        after_events(s, events).key == s.key,
        after_events(s, events).admin_base_url == s.admin_base_url,
    decreases events.len(),
{
    if events.len() > 0 {
        lemma_settings_stay(s, events.drop_last());
        law_settings_stay(
            after_events(s, events.drop_last()),
            events.last().0,
            events.last().1,
        );
    }
}

/// A reload accounts for every server once: each of the running ones is either
/// applied or reported as removed, each of the configured ones is either applied
/// or reported as added.
pub proof fn law_reload_accounts_for_all(
    before: Map<Seq<char>, Supervisor>,
    servers: Map<Seq<char>, ServerConfig>,
    key: Seq<char>,
)
    ensures
        shared(servers, before, true).contains(key) <==> servers.contains_key(key)
            && before.contains_key(key),
        shared(servers, before, false).contains(key) <==> servers.contains_key(key)
            && !before.contains_key(key),
        shared(before, servers, false).contains(key) <==> before.contains_key(key)
            && !servers.contains_key(key),
{
}

/// A reload puts the new settings of every server in force that it still names, all of
/// them, and touches nothing else; servers that it does not name keep theirs.
pub proof fn law_reload_puts_settings_in_force(
    before: Map<Seq<char>, Supervisor>,
    servers: Map<Seq<char>, ServerConfig>,
    after: Map<Seq<char>, Supervisor>,
    key: Seq<char>,
)
    requires
        reloaded(before, servers, after),
    ensures
        after.contains_key(key) <==> before.contains_key(key),
        before.contains_key(key) && !servers.contains_key(key) ==> after[key] == before[key],
        before.contains_key(key) && servers.contains_key(key) ==> {
            let old = before[key];
            let new = after[key];
            let cfg = servers[key];
            &&& new == (Supervisor { server: new.server, ..old })
            &&& new.server.name@ == cfg.name@
            &&& new.server.api.token@ == cfg.api.token@
            &&& new.server.api.port == cfg.api.port
            &&& new.server.environment@ == cfg.environment@
            &&& new.server.arguments@.len() == cfg.arguments@.len()
            &&& new.server.heartbeat_timeout == cfg.heartbeat_timeout
            &&& new.server.restart_min_secs == cfg.restart_min_secs
            &&& new.server.restart_max_secs == cfg.restart_max_secs
            &&& new.server.healthy_after_secs == cfg.healthy_after_secs
            &&& new.server.silent == cfg.silent
        },
{
    assert(after.dom().contains(key) <==> before.dom().contains(key));
    if before.contains_key(key) && servers.contains_key(key) {
        law_settings_are_whole(after[key].server, servers[key]);
    }
}

/// A daemon starts with one supervisor for every configured server, by its settings,
/// and for no other; the output of a server is dropped if it is configured so.
pub proof fn law_daemon_starts(
    supervisors: Map<Seq<char>, Supervisor>,
    servers: Map<Seq<char>, ServerConfig>,
    base_url: Seq<char>,
    key: Seq<char>,
)
    requires
        started(supervisors, servers, base_url),
    ensures
        supervisors.contains_key(key) <==> servers.contains_key(key),
        servers.contains_key(key) ==> supervisors[key].key@ == key && supervisors[key].server@
            == servers[key]@ && supervisors[key].admin_base_url@ == base_url,
        silent_in(servers).contains(key) <==> servers.contains_key(key) && servers[key].silent,
{
    assert(supervisors.dom().contains(key) <==> servers.dom().contains(key));
}

/// Dropping the output of a server, or letting it through again, concerns it alone, and
/// nothing where there is no such server.
pub proof fn law_silence_concerns_one_server(
    supervisors: Map<Seq<char>, Supervisor>,
    silenced: Set<Seq<char>>,
    key: Seq<char>,
    silent: bool,
    other: Seq<char>,
)
    requires
        filed(supervisors),
    ensures
        supervisors.contains_key(key) ==> (hushed(supervisors, silenced, key, silent).contains(key)
            <==> silent),
        other != key ==> (hushed(supervisors, silenced, key, silent).contains(other)
            <==> silenced.contains(other)),
        !supervisors.contains_key(key) ==> hushed(supervisors, silenced, key, silent) == silenced,
{
}

} // verus!
