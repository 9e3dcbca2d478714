use cerberus::api::routes::{
    command_reply, default_history_limit, health, history_limit, instance_status, lagged_line,
    list_instances, not_found, ping_instance, silence_instance, sup_err, Endpoint, Guard, Method,
};
use cerberus::config::{
    AdminConfig, ApiConfig, DatabaseConfig, LoggingConfig, ManifestAuth, ManifestUpdateConfig,
    ServerConfig, UpdateConfig, UpdateType, WatchdogConfig,
};
use cerberus::keymap::KeyMap;
use cerberus::supervisor::machine::{Command, Event};
use cerberus::supervisor::watchdog::clone_server_cfg;
use cerberus::supervisor::{Status, SupervisorError, Watchdog};

fn server(name: &str, silent: bool) -> ServerConfig {
    ServerConfig {
        name: name.to_string(),
        api: ApiConfig { token: format!("{name}-token"), port: Some(1) },
        update: UpdateConfig {
            update_type: UpdateType::Manifest(ManifestUpdateConfig {
                manifest_url: "https://cdn.example/manifest".to_string(),
                authentication: Some(ManifestAuth {
                    username: "u".to_string(),
                    password: "p".to_string(),
                }),
            }),
        },
        run_command: Some("run".to_string()),
        arguments: vec!["a".to_string()],
        environment: KeyMap::new(),
        heartbeat_timeout: 1,
        restart_min_secs: 2,
        restart_max_secs: 3,
        healthy_after_secs: 4,
        silent,
    }
}

fn config(servers: Vec<(&str, ServerConfig)>) -> WatchdogConfig {
    let mut map = KeyMap::new();
    for (k, s) in servers {
        map.insert(k.to_string(), s);
    }
    WatchdogConfig {
        database: DatabaseConfig { file: "db".to_string() },
        logging: LoggingConfig {
            level: "info".to_string(),
            overrides: KeyMap::new(),
            console: None,
            loki: None,
        },
        admin: AdminConfig::default(),
        servers: map,
    }
}

fn watchdog() -> Watchdog {
    let cfg = config(vec![("b", server("B", true)), ("a", server("A", false))]);
    Watchdog::new(&cfg, "http://127.0.0.1:5000", "cerberus.toml".to_string())
}

#[test]
fn one_supervisor_per_configured_server() {
    let w = watchdog();
    let keys: Vec<String> = w.iter().into_iter().map(|(k, _)| k.clone()).collect();
    assert_eq!(keys, vec!["a", "b"]);
    assert_eq!(w.silenced_keys(), vec!["b"]);
    assert_eq!(w.config_path(), "cerberus.toml");
    assert_eq!(w.get("a").unwrap().display_name(), "A");
    assert_eq!(w.get("a").unwrap().api_token(), "A-token");
    assert!(w.get("c").is_none());
}

#[test]
fn reload_reports_every_server_once() {
    let mut w = watchdog();
    let cfg = config(vec![("b", server("B2", false)), ("c", server("C", true))]);
    let r = w.reload_from(&cfg);
    assert_eq!(r.applied, vec!["b"]);
    assert_eq!(r.added_ignored, vec!["c"]);
    assert_eq!(r.removed_ignored, vec!["a"]);
    assert_eq!(r.silenced, vec!["c"]);
    assert_eq!(w.silenced_keys(), vec!["c"]);
    assert_eq!(w.get("b").unwrap().api_token(), "B2-token");
    // The shown name stays that of the start.
    assert_eq!(w.get("b").unwrap().display_name(), "B");
    assert_eq!(w.get("a").unwrap().api_token(), "A-token");
    assert!(w.get("c").is_none());
}

#[test]
fn reload_wipes_what_was_toggled() {
    let mut w = watchdog();
    assert!(w.set_silent("a", true));
    assert!(w.set_silent("b", false));
    assert!(!w.set_silent("c", true));
    assert_eq!(w.silenced_keys(), vec!["a"]);
    let cfg = config(vec![("b", server("B", true)), ("a", server("A", false))]);
    w.reload_from(&cfg);
    assert_eq!(w.silenced_keys(), vec!["b"]);
}

#[test]
fn copies_of_a_configuration_are_whole() {
    let mut s = server("A", true);
    s.environment.insert("K".to_string(), "V".to_string());
    let c = clone_server_cfg(&s);
    assert_eq!(c.name, "A");
    assert_eq!(c.api.token, "A-token");
    assert_eq!(c.api.port, Some(1));
    let UpdateType::Manifest(m) = c.update.update_type;
    assert_eq!(m.manifest_url, "https://cdn.example/manifest");
    let auth = m.authentication.unwrap();
    assert_eq!((auth.username.as_str(), auth.password.as_str()), ("u", "p"));
    assert_eq!(c.run_command.unwrap(), "run");
    assert_eq!(c.arguments, vec!["a"]);
    assert_eq!(c.environment.get("K").unwrap(), "V");
    assert_eq!(
        (c.heartbeat_timeout, c.restart_min_secs, c.restart_max_secs, c.healthy_after_secs),
        (1, 2, 3, 4)
    );
    assert!(c.silent);
}

#[test]
fn events_go_to_their_server() {
    let mut w = watchdog();
    assert!(w.step("a", Event::VersionRead(Err("x".to_string())), 0).is_some());
    assert!(matches!(w.get("a").unwrap().status(0), Status::Failed { .. }));
    assert!(matches!(w.get("b").unwrap().status(0), Status::Stopped));
    assert!(w.step("a", Event::Tick, 0).is_none());
    assert!(w.step("c", Event::Tick, 0).is_none());
}

#[test]
fn instances_are_listed_in_order() {
    let w = watchdog();
    let all = list_instances(&w, 0);
    assert_eq!(all.len(), 2);
    assert_eq!((all[0].key.as_str(), all[0].name.as_str()), ("a", "A"));
    assert_eq!((all[1].key.as_str(), all[1].name.as_str()), ("b", "B"));
    assert!(matches!(all[0].status, Status::Stopped));
    assert_eq!(instance_status(&w, "b", 0).unwrap().name, "B");
    let refusal = instance_status(&w, "c", 0).unwrap_err();
    assert_eq!(refusal.status(), 404);
    assert_eq!(refusal.body(), "unknown instance");
    assert!(refusal.challenge().is_none());
}

#[test]
fn pings_are_taken_in() {
    let mut w = watchdog();
    assert_eq!(ping_instance(&mut w, "a", 7), 204);
    assert_eq!(ping_instance(&mut w, "c", 7), 204);
    assert_eq!(w.get("a").unwrap().last_ping, Some(7));
    assert_eq!(w.get("b").unwrap().last_ping, None);
}

#[test]
fn silencing_over_the_api() {
    let mut w = watchdog();
    assert_eq!(silence_instance(&mut w, "a", true).unwrap(), 204);
    assert_eq!(w.silenced_keys(), vec!["a", "b"]);
    assert_eq!(silence_instance(&mut w, "a", false).unwrap(), 204);
    assert_eq!(silence_instance(&mut w, "b", false).unwrap(), 204);
    assert!(w.silenced_keys().is_empty());
    assert_eq!(silence_instance(&mut w, "c", true).unwrap_err().status(), 404);
}

#[test]
fn answers_to_commands() {
    assert_eq!(command_reply(Some(Ok(()))).unwrap(), 204);
    let gone = command_reply(Some(Err(SupervisorError::TaskGone))).unwrap_err();
    assert_eq!(gone.status(), 503);
    assert_eq!(gone.body(), "supervisor task is not running");
    assert_eq!(command_reply(None).unwrap_err().status(), 404);
    assert_eq!(sup_err(SupervisorError::TaskGone).status(), 503);
    assert_eq!(not_found().status(), 404);
}

#[test]
fn routes_and_their_guards() {
    assert_eq!(Endpoint::Start.path(), "/instances/{key}/start");
    assert_eq!(Endpoint::Start.command(), Some(Command::Restart));
    assert_eq!(Endpoint::Start.method(), Method::Post);
    assert_eq!(Endpoint::Stop.command(), Some(Command::Stop));
    assert_eq!(Endpoint::ForceRestart.path(), "/instances/{key}/force-restart");
    assert_eq!(Endpoint::ForceRestart.command(), Some(Command::ForceRestart));
    assert_eq!(Endpoint::Update.guard(), Guard::AdminOrInstance);
    assert_eq!(Endpoint::Update.command(), Some(Command::Update));
    assert_eq!(Endpoint::Ping.guard(), Guard::Instance);
    assert_eq!(Endpoint::Ping.path(), "/server_api/{key}/ping");
    assert_eq!(Endpoint::Health.guard(), Guard::Open);
    assert_eq!(Endpoint::Metrics.guard(), Guard::Open);
    assert_eq!(Endpoint::Metrics.method(), Method::Get);
    assert_eq!(Endpoint::Reload.guard(), Guard::Admin);
    assert_eq!(Endpoint::Reload.command(), None);
    assert_eq!(Endpoint::History.method(), Method::Get);
    assert_eq!(Endpoint::Silence.silence(), Some(true));
    assert_eq!(Endpoint::Unsilence.silence(), Some(false));
    assert_eq!(Endpoint::Stop.silence(), None);
    assert_eq!(health(), "ok");
}

#[test]
fn history_is_limited() {
    assert_eq!(default_history_limit(), 50);
    assert_eq!(history_limit(0), 1);
    assert_eq!(history_limit(-9), 1);
    assert_eq!(history_limit(1), 1);
    assert_eq!(history_limit(1000), 1000);
    assert_eq!(history_limit(1001), 1000);
    assert_eq!(lagged_line(12), "[lagged 12]");
}
