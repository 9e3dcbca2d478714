//! What the operator configures.
use vstd::prelude::*;
use vstd::string::*;

use crate::keymap::KeyMap;
use crate::text::{law_parted_at_the_last, rsplit_once, rsplit_once_spec, same, text_in, texts};

verus! {

/// Where the configuration is looked for when no path is given.
pub const DEFAULT_PATH: &'static str = "./cerberus.toml";

/// The whole configuration of a daemon.
pub struct WatchdogConfig {
    pub database: DatabaseConfig,
    pub logging: LoggingConfig,
    pub admin: AdminConfig,
    pub servers: KeyMap<ServerConfig>,
}

/// Where the admin API listens and what admits to it.
pub struct AdminConfig {
    pub bind: String,
    pub token: Option<String>,
}

/// Where the history is kept.
pub struct DatabaseConfig {
    pub file: String,
}

/// What is logged, and where to.
pub struct LoggingConfig {
    pub level: String,
    pub overrides: KeyMap<String>,
    pub console: Option<ConsoleLoggingConfig>,
    pub loki: Option<LokiLoggingConfig>,
}

/// Logging to the terminal.
pub struct ConsoleLoggingConfig {
    pub enabled: bool,
    pub ansi: bool,
    pub compact: bool,
}

/// Logging to a Loki server.
pub struct LokiLoggingConfig {
    pub enabled: bool,
    pub endpoint: String,
    pub labels: KeyMap<String>,
}

/// One game server.
pub struct ServerConfig {
    pub name: String,
    pub api: ApiConfig,
    pub update: UpdateConfig,
    pub run_command: Option<String>,
    pub arguments: Vec<String>,
    pub environment: KeyMap<String>,
    pub heartbeat_timeout: u64,
    pub restart_min_secs: u64,
    pub restart_max_secs: u64,
    pub healthy_after_secs: u64,
    pub silent: bool,
}

/// How the game server and the watchdog know each other.
pub struct ApiConfig {
    pub token: String,
    pub port: Option<u16>,
}

impl ApiConfig {
    /// A copy.
    pub fn duplicate(&self) -> (r: Self)
        ensures
            r == *self,
    {
        ApiConfig { token: self.token.clone(), port: self.port }
    }
}

/// Where new builds come from.
pub struct UpdateConfig {
    pub update_type: UpdateType,
}

/// The ways in which builds are found.
pub enum UpdateType {
    Manifest(ManifestUpdateConfig),
}

/// A manifest that lists the builds.
pub struct ManifestUpdateConfig {
    pub manifest_url: String,
    pub authentication: Option<ManifestAuth>,
}

/// Basic credentials for a private manifest.
pub struct ManifestAuth {
    pub username: String,
    pub password: String,
}

/// What a `ServerConfig` says, as mathematical values.
pub struct ServerModel {
    pub name: Seq<char>,
    pub token: Seq<char>,
    pub port: Option<u16>,
    pub manifest_url: Seq<char>,
    pub authentication: Option<(Seq<char>, Seq<char>)>,
    pub run_command: Option<Seq<char>>,
    pub arguments: Seq<Seq<char>>,
    pub environment: Map<Seq<char>, String>,
    pub heartbeat_timeout: u64,
    pub restart_min_secs: u64,
    pub restart_max_secs: u64,
    pub healthy_after_secs: u64,
    pub silent: bool,
}

impl View for ServerConfig {
    type V = ServerModel;

    open spec fn view(&self) -> ServerModel {
        let manifest = match self.update.update_type {
            UpdateType::Manifest(m) => m,
        };
        ServerModel {
            name: self.name@,
            token: self.api.token@,
            port: self.api.port,
            manifest_url: manifest.manifest_url@,
            authentication: match manifest.authentication {
                Some(a) => Some((a.username@, a.password@)),
                None => None,
            },
            run_command: text_in(self.run_command),
            arguments: texts(self.arguments@),
            environment: self.environment@,
            heartbeat_timeout: self.heartbeat_timeout,
            restart_min_secs: self.restart_min_secs,
            restart_max_secs: self.restart_max_secs,
            healthy_after_secs: self.healthy_after_secs,
            silent: self.silent,
        }
    }
}

/// The address that the admin API binds to unless told otherwise.
pub fn default_admin_bind() -> (r: String)
    ensures
        r@ == "0.0.0.0:5000"@,
{
    "0.0.0.0:5000".to_string()
}

/// Seconds without a ping after which a server counts as hung.
pub fn default_heartbeat_timeout() -> (r: u64)
    ensures
        r == 60,
{
    60
}

/// The shortest wait before a crashed server is started again.
pub fn default_restart_min_secs() -> (r: u64)
    ensures
        r == 1,
{
    1
}

/// The longest wait before a crashed server is started again.
pub fn default_restart_max_secs() -> (r: u64)
    ensures
        r == 60,
{
    60
}

/// Seconds of uptime after which earlier failures are forgotten.
pub fn default_healthy_after_secs() -> (r: u64)
    ensures
        r == 30,
{
    30
}

impl Default for AdminConfig {
    fn default() -> (r: Self)
        ensures
            r.bind@ == "0.0.0.0:5000"@,
            r.token is None,
    {
        AdminConfig { bind: default_admin_bind(), token: None }
    }
}

/// Where a daemon that listens at `bind` is reached from the same machine. An
/// address that stands for all interfaces is reached by the loopback one.
pub open spec fn base_url(bind: Seq<char>) -> Seq<char> {
    let (host, port) = match rsplit_once_spec(bind, ':') {
        Some(parts) => parts,
        None => ("127.0.0.1"@, "5000"@),
    };
    let reached = if host == "0.0.0.0"@ || host == "[::]"@ || host.len() == 0 {
        "127.0.0.1"@
    } else {
        host
    };
    "http://"@ + reached + ":"@ + port
}

/// Where a daemon that listens at `bind` is reached from the same machine.
pub fn local_base_url(bind: &str) -> (r: String)
    ensures
        r@ == base_url(bind@),
{
    let (host, port) = match rsplit_once(bind, ':') {
        Some(parts) => parts,
        None => ("127.0.0.1", "5000"),
    };
    let mut r = "http://".to_string();
    if same(host, "0.0.0.0") || same(host, "[::]") || host.is_empty() {
        r.append("127.0.0.1");
    } else {
        r.append(host);
    }
    r.append(":");
    r.append(port);
    r
}

/// Two configurations that say the same agree in every setting.
pub proof fn law_settings_are_whole(a: ServerConfig, b: ServerConfig)
    requires
        a@ == b@,
    ensures
        a.name@ == b.name@,
        a.api.token@ == b.api.token@,
        a.api.port == b.api.port,
        a.update.update_type->Manifest_0.manifest_url@
            == b.update.update_type->Manifest_0.manifest_url@,
        match (
            a.update.update_type->Manifest_0.authentication,
            b.update.update_type->Manifest_0.authentication,
        ) {
            (Some(x), Some(y)) => x.username@ == y.username@ && x.password@ == y.password@,
            (None, None) => true,
            _ => false,
        },
        match (a.run_command, b.run_command) {
            (Some(x), Some(y)) => x@ == y@,
            (None, None) => true,
            _ => false,
        },
        a.arguments@.len() == b.arguments@.len(),
        forall|i: int|
            0 <= i < a.arguments@.len() ==> (#[trigger] a.arguments@[i])@ == b.arguments@[i]@,
        a.environment@ == b.environment@,
        a.heartbeat_timeout == b.heartbeat_timeout,
        a.restart_min_secs == b.restart_min_secs,
        a.restart_max_secs == b.restart_max_secs,
        a.healthy_after_secs == b.healthy_after_secs,
        a.silent == b.silent,
{
    assert(texts(a.arguments@) == texts(b.arguments@));
    assert(texts(a.arguments@).len() == a.arguments@.len());
    assert(texts(b.arguments@).len() == b.arguments@.len());
    assert forall|i: int| 0 <= i < a.arguments@.len() implies (#[trigger] a.arguments@[i])@
        == b.arguments@[i]@ by {
        assert(texts(a.arguments@)[i] == texts(b.arguments@)[i]);
    }
    match (a.run_command, b.run_command) {
        (Some(x), Some(y)) => {
            assert(a@.run_command == Some(x@));
        },
        _ => {},
    }
}

/// A daemon is reached at the host and port that it listens at, the port being what
/// follows the last colon; at the loopback address where it listens on all interfaces.
pub proof fn law_reached_where_it_listens(host: Seq<char>, port: Seq<char>, bind: Seq<char>)
    requires
        !port.contains(':'),
    ensures
        host != "0.0.0.0"@ && host != "[::]"@ && host.len() > 0 ==> base_url(
            host + seq![':'] + port,
        ) == "http://"@ + host + ":"@ + port,
        base_url("0.0.0.0"@ + seq![':'] + port) == "http://127.0.0.1:"@ + port,
        base_url("[::]"@ + seq![':'] + port) == "http://127.0.0.1:"@ + port,
        base_url(seq![':'] + port) == "http://127.0.0.1:"@ + port,
        !bind.contains(':') ==> base_url(bind) == "http://127.0.0.1:5000"@,
{
    law_parted_at_the_last(host, ':', port);
    law_parted_at_the_last("0.0.0.0"@, ':', port);
    law_parted_at_the_last("[::]"@, ':', port);
    law_parted_at_the_last(Seq::empty(), ':', port);
    assert(Seq::<char>::empty() + seq![':'] + port =~= seq![':'] + port);
    reveal_strlit("http://");
    reveal_strlit("http://127.0.0.1:");
    reveal_strlit("http://127.0.0.1:5000");
    reveal_strlit("127.0.0.1");
    reveal_strlit("5000");
    reveal_strlit(":");
    reveal_strlit("0.0.0.0");
    reveal_strlit("[::]");
    assert("127.0.0.1"@[0] == '1' && "0.0.0.0"@[0] == '0' && "[::]"@[0] == '[');
    assert("http://"@ + "127.0.0.1"@ + ":"@ =~= "http://127.0.0.1:"@);
    assert("http://127.0.0.1:"@ + "5000"@ =~= "http://127.0.0.1:5000"@);
}

} // verus!
