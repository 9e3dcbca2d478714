//! What a supervisor asks of the outside world.
use vstd::prelude::*;
use vstd::string::*;

use crate::config::ServerModel;
use crate::instances::InstanceSpec;
use crate::keymap::{lemma_one_more, lists, KeyMap};
use crate::paths::{FilePath, Step};
use crate::text::{dec, push_dec, texts};

use super::machine::{current_api, After, Phase, Place, Supervisor};
use super::{bin_dir_of, dir_of, instance_bin_dir, instance_dir};

verus! {

/// Seconds that a server has to exit by itself after it agreed to shut down.
pub const SHUTDOWN_GRACE_SECS: u64 = 15;

/// Seconds between two looks at the heartbeat.
pub const TICK_SECS: u64 = 5;

/// A message to the game server: a POST to `url` with `token` in the header
/// `WatchdogToken`, and with `reason`, if there is one, as the field `Reason`
/// of a JSON body.
pub struct Notice {
    pub url: String,
    pub token: String,
    pub reason: Option<String>,
}

/// What has to be done next.
pub enum Action {
    /// Wait for a command.
    AwaitCommand,
    /// Wait for a command, until the given moment at the longest.
    AwaitCommandUntil { until: u128 },
    /// Look the installed version up.
    ReadVersion,
    /// See whether there is a newer build than `current`.
    CheckForUpdates { current: Option<String> },
    /// Make the directory, with those above it.
    MakeDirectory { path: FilePath },
    /// Install the newest build, if it is not `current`, at `path`.
    RunUpdate { current: Option<String>, path: FilePath },
    /// Write the first version down.
    CreateVersion { version: String },
    /// Write a new version down.
    UpdateVersion { version: String },
    /// Start the process.
    Spawn { spec: InstanceSpec },
    /// Wait for a command, the end of the process or the next tick, whichever
    /// comes first in this order.
    Watch,
    /// Tell the server of an update.
    PostUpdate { notice: Notice },
    /// Ask the server to shut down.
    PostShutdown { notice: Notice },
    /// Wait so many seconds for the end of the process.
    AwaitExit { secs: u64 },
    /// Kill the process and wait for its end.
    Kill,
    /// Nothing.
    Finish,
}

/// Why the server is asked to shut down.
pub open spec fn shutdown_reason(after: After) -> Seq<char> {
    match after {
        After::Stop | After::Kill => "Stop requested by operator"@,
        After::Restart | After::ForceRestart => "Restart requested by operator"@,
        _ => "Watchdog shutting down"@,
    }
}

/// Where the game server takes messages.
pub open spec fn notice_url(port: u16, path: Seq<char>) -> Seq<char> {
    "http://127.0.0.1:"@ + dec(port as nat) + path
}

/// The variable that hands the token over.
pub open spec fn token_variable() -> Seq<char> {
    "ROBUST_CVAR_watchdog__token"@
}

/// The arguments that every server is started with, before its own.
pub open spec fn watchdog_args(key: Seq<char>, base_url: Seq<char>) -> Seq<Seq<char>> {
    seq![
        "--cvar"@,
        "watchdog.key="@ + key,
        "--cvar"@,
        "watchdog.baseUrl="@ + base_url,
        "--config-file"@,
        "config.toml"@,
        "--data-dir"@,
        "data"@,
    ]
}

/// The program that a server runs.
pub open spec fn program_of(cfg: ServerModel) -> Seq<char> {
    match cfg.run_command {
        Some(c) => c,
        None => "bin/Robust.Server"@,
    }
}

/// Whether `spec` starts `version` of the server `key` as configured. The
/// token travels in the environment, where a variable of the same name in the
/// configuration wins over it; the key and the address of the admin API stand
/// on the command line, before the configured arguments.
pub open spec fn starts(
    spec: InstanceSpec,
    key: Seq<char>,
    version: Seq<char>,
    base_url: Seq<char>,
    cfg: ServerModel,
) -> bool {
    &&& spec.id@ == key
    &&& spec.version@ == version
    &&& spec.cwd@ == dir_of(key)
    &&& spec.program@ == program_of(cfg)
    &&& texts(spec.args@) == watchdog_args(key, base_url) + cfg.arguments
    &&& spec.env@.dom() == cfg.environment.dom().insert(token_variable())
    &&& forall|k: Seq<char>| #[trigger]
        cfg.environment.contains_key(k) ==> spec.env@[k] == cfg.environment[k]
    &&& !cfg.environment.contains_key(token_variable()) ==> spec.env@[token_variable()]@ == cfg.token
}

/// The settings that a process is started by: those of the server, with the token
/// and port that are handed to it.
pub open spec fn start_settings(s: Supervisor) -> ServerModel {
    ServerModel { token: current_api(s).token@, port: current_api(s).port, ..s.server@ }
}

/// Whether `notice` carries the given message.
pub open spec fn says(
    notice: Notice,
    port: u16,
    path: Seq<char>,
    token: Seq<char>,
    reason: Option<Seq<char>>,
) -> bool {
    &&& notice.url@ == notice_url(port, path)
    &&& notice.token@ == token
    &&& match reason {
        Some(r) => notice.reason is Some && notice.reason->0@ == r,
        None => notice.reason is None,
    }
}

/// Whether `a` is what `s` asks for.
pub open spec fn asks_for(s: Supervisor, a: Action) -> bool {
    match s.phase {
        Phase::Waiting(Place::BackingOff { until }) => a == (Action::AwaitCommandUntil { until }),
        Phase::Waiting(_) => a == Action::AwaitCommand,
        Phase::Reading(_) => a == Action::ReadVersion,
        Phase::Checking { current, .. } => a == (Action::CheckForUpdates { current }),
        Phase::CheckingRunning { current, .. } => a == (Action::CheckForUpdates { current }),
        Phase::Preparing { .. } => a matches Action::MakeDirectory { path } && path@ == dir_of(
            s.key@,
        ),
        Phase::Installing { current, .. } => {
            &&& a matches Action::RunUpdate { current: c, path }
            &&& c == current
            &&& path@ == bin_dir_of(s.key@)
        },
        Phase::Saving { version, first, .. } => if first {
            a == (Action::CreateVersion { version })
        } else {
            a == (Action::UpdateVersion { version })
        },
        Phase::Spawning { version } => a matches Action::Spawn { spec } && starts(
            spec,
            s.key@,
            version@,
            s.admin_base_url@,
            start_settings(s),
        ),
        Phase::Watching(_) => a == Action::Watch,
        Phase::Notifying { port, .. } => a matches Action::PostUpdate { notice } && says(
            notice,
            port,
            "/update"@,
            current_api(s).token@,
            None,
        ),
        Phase::Asking { after, port } => a matches Action::PostShutdown { notice } && says(
            notice,
            port,
            "/shutdown"@,
            current_api(s).token@,
            Some(shutdown_reason(after)),
        ),
        Phase::Leaving(_) => a == (Action::AwaitExit { secs: 15 }),
        Phase::Killing(_) => a == Action::Kill,
        Phase::Finished => a == Action::Finish,
    }
}

/// The address of a game server's own API.
fn server_url(port: u16, path: &str) -> (r: String)
    ensures
        r@ == notice_url(port, path@),
{
    let mut url = "http://127.0.0.1:".to_string();
    push_dec(&mut url, port as u64);
    url.append(path);
    url
}

/// Two texts in a row.
fn glued(a: &str, b: &str) -> (r: String)
    ensures
        r@ == a@ + b@,
{
    let mut r = a.to_string();
    r.append(b);
    r
}

impl Supervisor {
    /// How `version` of the server is started.
    pub fn build_spec(&self, version: &str) -> (r: InstanceSpec)
        ensures
            starts(r, self.key@, version@, self.admin_base_url@, start_settings(*self)),
    {
        let cfg = &self.server;
        let ghost configured = cfg.environment@;
        let mut env: KeyMap<String> = KeyMap::new();
        env.insert("ROBUST_CVAR_watchdog__token".to_string(), self.api().token.clone());
        let n = cfg.environment.len();
        let ghost order = cfg.environment.order();
        let mut i: usize = 0;
        assert(order.take(0) =~= Seq::<Seq<char>>::empty());
        while i < n
            invariant
                cfg == &self.server,
                configured == cfg.environment@,
                order == cfg.environment.order(),
                n == order.len(),
                lists(order, configured.dom()),
                i <= n,
                forall|k: Seq<char>| #[trigger]
                    env@.contains_key(k) <==> k == token_variable() || order.take(
                        i as int,
                    ).contains(k),
                forall|k: Seq<char>| #[trigger]
                    order.take(i as int).contains(k) ==> env@[k] == configured[k],
                !order.take(i as int).contains(token_variable()) ==> env@[token_variable()]@
                    == current_api(*self).token@,
            decreases n - i,
        {
            let ghost was = env@;
            env.insert(cfg.environment.key_at(i).clone(), cfg.environment.value_at(i).clone());
            proof {
                let b = order.take(i + 1);
                assert forall|k: Seq<char>| #[trigger] env@.contains_key(k) <==> k
                    == token_variable() || b.contains(k) by {
                    lemma_one_more(order, i as int, k);
                    assert(was.contains_key(k) <==> k == token_variable() || order.take(
                        i as int,
                    ).contains(k));
                }
                assert forall|k: Seq<char>| #[trigger] b.contains(k) implies env@[k]
                    == configured[k] by {
                    lemma_one_more(order, i as int, k);
                }
                lemma_one_more(order, i as int, token_variable());
            }
            i = i + 1;
        }
        proof {
            assert(order.take(n as int) =~= order);
            assert(env@.dom() =~= configured.dom().insert(token_variable()));
            assert forall|k: Seq<char>| #[trigger] configured.contains_key(k) implies env@[k]
                == configured[k] by {
                assert(order.contains(k));
            }
        }

        let mut args: Vec<String> = Vec::new();
        args.push("--cvar".to_string());
        args.push(glued("watchdog.key=", self.key.as_str()));
        args.push("--cvar".to_string());
        args.push(glued("watchdog.baseUrl=", self.admin_base_url.as_str()));
        args.push("--config-file".to_string());
        args.push("config.toml".to_string());
        args.push("--data-dir".to_string());
        args.push("data".to_string());
        let ghost head = watchdog_args(self.key@, self.admin_base_url@);
        let mut j: usize = 0;
        assert(texts(args@) =~= head + texts(cfg.arguments@).take(0));
        while j < cfg.arguments.len()
            invariant
                cfg == &self.server,
                j <= cfg.arguments@.len(),
                texts(args@) == head + texts(cfg.arguments@).take(j as int),
            decreases cfg.arguments.len() - j,
        {
            let ghost was = args@;
            args.push(cfg.arguments[j].clone());
            proof {
                assert(texts(args@) =~= texts(was).push(cfg.arguments@[j as int]@));
                assert(texts(args@) =~= head + texts(cfg.arguments@).take(j + 1));
            }
            j = j + 1;
        }
        assert(texts(cfg.arguments@).take(cfg.arguments@.len() as int) =~= texts(cfg.arguments@));

        let program = match &cfg.run_command {
            Some(c) => c.clone(),
            None => "bin/Robust.Server".to_string(),
        };
        InstanceSpec {
            id: self.key.clone(),
            version: version.to_string(),
            cwd: instance_dir(self.key.as_str()),
            program,
            args,
            env,
        }
    }

    /// What has to be done next.
    pub fn action(&self) -> (r: Action)
        ensures
            asks_for(*self, r),
    {
        match &self.phase {
            Phase::Waiting(Place::BackingOff { until }) => Action::AwaitCommandUntil {
                until: *until,
            },
            Phase::Waiting(_) => Action::AwaitCommand,
            Phase::Reading(_) => Action::ReadVersion,
            Phase::Checking { place: _, current } => Action::CheckForUpdates {
                current: current.clone(),
            },
            Phase::CheckingRunning { watch: _, current } => Action::CheckForUpdates {
                current: current.clone(),
            },
            Phase::Preparing { .. } => Action::MakeDirectory {
                path: instance_dir(self.key.as_str()),
            },
            Phase::Installing { origin: _, current } => Action::RunUpdate {
                current: current.clone(),
                path: instance_bin_dir(self.key.as_str()),
            },
            Phase::Saving { origin: _, version, first } => if *first {
                Action::CreateVersion { version: version.clone() }
            } else {
                Action::UpdateVersion { version: version.clone() }
            },
            Phase::Spawning { version } => Action::Spawn {
                spec: self.build_spec(version.as_str()),
            },
            Phase::Watching(_) => Action::Watch,
            Phase::Notifying { watch: _, port } => Action::PostUpdate {
                notice: Notice {
                    url: server_url(*port, "/update"),
                    token: self.api().token.clone(),
                    reason: None,
                },
            },
            Phase::Asking { after, port } => {
                let reason = match after {
                    After::Stop | After::Kill => "Stop requested by operator",
                    After::Restart | After::ForceRestart => "Restart requested by operator",
                    _ => "Watchdog shutting down",
                };
                Action::PostShutdown {
                    notice: Notice {
                        url: server_url(*port, "/shutdown"),
                        token: self.api().token.clone(),
                        reason: Some(reason.to_string()),
                    },
                }
            },
            Phase::Leaving(_) => Action::AwaitExit { secs: SHUTDOWN_GRACE_SECS },
            Phase::Killing(_) => Action::Kill,
            Phase::Finished => Action::Finish,
        }
    }
}

/// The command line of a server does not depend on its token: two
/// configurations that differ in the token alone start with the same
/// arguments.
pub proof fn law_token_stays_off_the_command_line(
    a: InstanceSpec,
    b: InstanceSpec,
    key: Seq<char>,
    version: Seq<char>,
    base_url: Seq<char>,
    cfg: ServerModel,
    token: Seq<char>,
)
    requires
        starts(a, key, version, base_url, cfg),
        starts(b, key, version, base_url, ServerModel { token, ..cfg }),
    ensures
        texts(a.args@) == texts(b.args@),
        a.program@ == b.program@,
        a.cwd@ == b.cwd@,
{
}

/// What a supervisor asks for while it waits, reads, installs or takes a process down.
pub proof fn law_requests(s: Supervisor, a: Action)
    requires
        asks_for(s, a),
    ensures
        match s.phase {
            Phase::Waiting(Place::BackingOff { until }) => a == (Action::AwaitCommandUntil {
                until,
            }),
            Phase::Waiting(_) => a == Action::AwaitCommand,
            Phase::Reading(_) => a == Action::ReadVersion,
            Phase::Checking { current, .. } => a == (Action::CheckForUpdates { current }),
            Phase::CheckingRunning { current, .. } => a == (Action::CheckForUpdates { current }),
            Phase::Preparing { .. } => a matches Action::MakeDirectory { path } && path@ == seq![
                Step::Into("./instances"@),
                Step::Into(s.key@),
            ],
            Phase::Installing { current, .. } => a matches Action::RunUpdate { current: c, path }
                && c == current && path@ == seq![
                Step::Into("./instances"@),
                Step::Into(s.key@),
                Step::Into("bin"@),
            ],
            Phase::Saving { version, first, .. } => a == if first {
                Action::CreateVersion { version }
            } else {
                Action::UpdateVersion { version }
            },
            Phase::Watching(_) => a == Action::Watch,
            Phase::Leaving(_) => a == (Action::AwaitExit { secs: 15 }),
            Phase::Killing(_) => a == Action::Kill,
            Phase::Finished => a == Action::Finish,
            _ => true,
        },
{
}

/// A server is told of an update, or asked to shut down, at the port and with the
/// token that its process was started with; a request to shut down says why.
pub proof fn law_messages_to_the_server(s: Supervisor, a: Action)
    requires
        asks_for(s, a),
    ensures
        s.phase matches Phase::Notifying { port, .. } ==> {
            &&& a matches Action::PostUpdate { notice }
            &&& notice.url@ == "http://127.0.0.1:"@ + dec(port as nat) + "/update"@
            &&& notice.token@ == s.issued.token@
            &&& notice.reason is None
        },
        s.phase matches Phase::Asking { after, port } ==> {
            &&& a matches Action::PostShutdown { notice }
            &&& notice.url@ == "http://127.0.0.1:"@ + dec(port as nat) + "/shutdown"@
            &&& notice.token@ == s.issued.token@
            &&& notice.reason is Some
            &&& notice.reason->0@ == match after {
                After::Stop | After::Kill => "Stop requested by operator"@,
                After::Restart | After::ForceRestart => "Restart requested by operator"@,
                _ => "Watchdog shutting down"@,
            }
        },
{
}

/// A process is started in the directory of its instance, with the configured program
/// or the usual one, with its key and the address of the daemon before the configured
/// arguments, and with the configured environment, to which the token is added unless
/// the environment has that variable itself.
pub proof fn law_process_as_configured(s: Supervisor, version: String, spec: InstanceSpec)
    requires
        s.phase == (Phase::Spawning { version }),
        asks_for(s, Action::Spawn { spec }),
    ensures
        spec.id@ == s.key@,
        spec.version@ == version@,
        spec.cwd@ == seq![Step::Into("./instances"@), Step::Into(s.key@)],
        spec.program@ == match s.server.run_command {
            Some(c) => c@,
            None => "bin/Robust.Server"@,
        },
        texts(spec.args@) == seq![
            "--cvar"@,
            "watchdog.key="@ + s.key@,
            "--cvar"@,
            "watchdog.baseUrl="@ + s.admin_base_url@,
            "--config-file"@,
            "config.toml"@,
            "--data-dir"@,
            "data"@,
        ] + texts(s.server.arguments@),
        forall|k: Seq<char>|
            #![trigger spec.env@.contains_key(k)]
            spec.env@.contains_key(k) <==> k == "ROBUST_CVAR_watchdog__token"@
                || s.server.environment@.contains_key(k),
        forall|k: Seq<char>| #[trigger]
            s.server.environment@.contains_key(k) ==> spec.env@[k] == s.server.environment@[k],
        !s.server.environment@.contains_key("ROBUST_CVAR_watchdog__token"@) ==> spec.env@[
            "ROBUST_CVAR_watchdog__token"@
        ]@ == s.issued.token@,
{
    assert forall|k: Seq<char>|
        #![trigger spec.env@.contains_key(k)]
        spec.env@.contains_key(k) <==> k == "ROBUST_CVAR_watchdog__token"@
            || s.server.environment@.contains_key(k) by {
        assert(spec.env@.dom().contains(k) <==> s.server.environment@.dom().insert(
            "ROBUST_CVAR_watchdog__token"@,
        ).contains(k));
    }
}

} // verus!
