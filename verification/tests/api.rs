use cerberus::api::auth::{
    admit_instance, constant_time_eq, credentials, extract_instance_key, extract_server_api_key,
    parse_basic, require_admin, require_admin_or_instance_basic, require_instance_basic, Refusal,
};
use cerberus::api::metrics::{content_type, escape, metrics, MetricsRow};
use cerberus::config::{
    AdminConfig, ApiConfig, DatabaseConfig, LoggingConfig, ManifestUpdateConfig, ServerConfig,
    UpdateConfig, UpdateType, WatchdogConfig,
};
use cerberus::api::routes::ping_instance;
use cerberus::db::server::Server;
use cerberus::keymap::KeyMap;
use cerberus::supervisor::machine::{Event, ExitReport};
use cerberus::supervisor::{Status, Watchdog};

const SEC: u64 = 1_000_000_000;

fn config(token: &str) -> WatchdogConfig {
    let mut servers = KeyMap::new();
    servers.insert(
        "main".to_string(),
        ServerConfig {
            name: "Main".to_string(),
            api: ApiConfig { token: token.to_string(), port: None },
            update: UpdateConfig {
                update_type: UpdateType::Manifest(ManifestUpdateConfig {
                    manifest_url: "https://cdn.example/manifest".to_string(),
                    authentication: None,
                }),
            },
            run_command: None,
            arguments: vec![],
            environment: KeyMap::new(),
            heartbeat_timeout: 60,
            restart_min_secs: 1,
            restart_max_secs: 60,
            healthy_after_secs: 30,
            silent: false,
        },
    );
    WatchdogConfig {
        database: DatabaseConfig { file: "db".to_string() },
        logging: LoggingConfig {
            level: "info".to_string(),
            overrides: KeyMap::new(),
            console: None,
            loki: None,
        },
        admin: AdminConfig::default(),
        servers,
    }
}

fn watchdog() -> Watchdog {
    Watchdog::new(&config("pa:ss"), "http://127.0.0.1:5000", "cerberus.toml".to_string())
}

// "main:pa:ss"
const GOOD: &str = "Basic bWFpbjpwYTpzcw==";
// "main:wrong"
const WRONG: &str = "Basic bWFpbjp3cm9uZw==";
// "main:other-token"
const NEW: &str = "Basic bWFpbjpvdGhlci10b2tlbg==";
// "other:pa:ss"
const OTHER: &str = "Basic b3RoZXI6cGE6c3M=";

#[test]
fn admin_token_opens_admin_routes() {
    assert!(require_admin(Some("s3cret"), Some("Bearer s3cret")).is_ok());
    let r = require_admin(None, Some("Bearer s3cret")).unwrap_err();
    assert_eq!((r.status(), r.body().as_str()), (401, "admin token not configured"));
    for header in [None, Some("Bearer s3cre"), Some("bearer s3cret"), Some("Basic s3cret"), Some("")] {
        let r = require_admin(Some("s3cret"), header).unwrap_err();
        assert_eq!((r.status(), r.body().as_str()), (401, "bad admin token"));
    }
}

#[test]
fn basic_credentials_are_decoded() {
    let (user, pass) = parse_basic(GOOD).unwrap();
    assert_eq!((user.as_str(), pass.as_str()), ("main", "pa:ss"));
    assert!(parse_basic("Bearer x").is_none());
    assert!(parse_basic("Basic ***").is_none());
    // Decodes, but to no text and to no pair.
    assert!(parse_basic("Basic //8=").is_none());
    assert!(parse_basic("Basic bWFpbg==").is_none());
    // Padding is asked for.
    assert!(parse_basic("Basic bWFpbjpwYTpzcw").is_none());
}

#[test]
fn decoded_credentials_part_at_the_first_colon() {
    assert_eq!(credentials(b"a:b:c"), Some(("a".to_string(), "b:c".to_string())));
    assert_eq!(credentials(b":"), Some((String::new(), String::new())));
    assert_eq!(credentials(b"abc"), None);
    assert_eq!(credentials(&[0xff, b':']), None);
    assert_eq!(credentials("ü:ß".as_bytes()), Some(("ü".to_string(), "ß".to_string())));
}

#[test]
fn game_server_is_let_in_with_its_own_token() {
    let w = watchdog();
    let path = "/server_api/main/ping";
    assert!(require_instance_basic(&w, path, Some(GOOD)).is_ok());
    let r = require_instance_basic(&w, path, Some(WRONG)).unwrap_err();
    assert_eq!((r.status(), r.body().as_str()), (401, "bad basic credentials"));
    assert_eq!(r.challenge(), Some("Basic realm=\"ss14watchdog\""));
    let r = require_instance_basic(&w, path, None).unwrap_err();
    assert_eq!(r.status(), 401);
    let r = require_instance_basic(&w, path, Some(OTHER)).unwrap_err();
    assert_eq!((r.status(), r.body().as_str()), (403, "key mismatch"));
    let r = require_instance_basic(&w, "/server_api/other/ping", Some(OTHER)).unwrap_err();
    assert_eq!((r.status(), r.body().as_str()), (404, "unknown instance"));
    let r = require_instance_basic(&w, "/elsewhere", Some(GOOD)).unwrap_err();
    assert_eq!((r.status(), r.body().as_str()), (400, "no instance key"));
}

#[test]
fn verdict_by_given_credentials() {
    let w = watchdog();
    let pair = |u: &str, p: &str| Some((u.to_string(), p.to_string()));
    assert!(admit_instance(&w, Some("main"), pair("main", "pa:ss")).is_ok());
    assert!(matches!(admit_instance(&w, None, None), Err(Refusal::NoInstanceKey)));
    assert!(matches!(admit_instance(&w, Some("main"), None), Err(Refusal::BadCredentials)));
    assert!(matches!(
        admit_instance(&w, Some("main"), pair("mai", "pa:ss")),
        Err(Refusal::KeyMismatch)
    ));
    assert!(matches!(
        admit_instance(&w, Some("x"), pair("x", "pa:ss")),
        Err(Refusal::UnknownInstance)
    ));
    assert!(matches!(
        admit_instance(&w, Some("main"), pair("main", "")),
        Err(Refusal::BadCredentials)
    ));
}

#[test]
fn update_route_takes_both_kinds() {
    let w = watchdog();
    let path = "/instances/main/update";
    let ask = |header| require_admin_or_instance_basic(Some("s3cret"), &w, path, header);
    assert!(ask(Some("Bearer s3cret")).is_ok());
    assert!(ask(Some(GOOD)).is_ok());
    assert!(matches!(ask(Some("Bearer nope")), Err(Refusal::BadAdminToken)));
    assert!(matches!(ask(Some(WRONG)), Err(Refusal::BadCredentials)));
    assert!(matches!(ask(Some("Digest x")), Err(Refusal::MissingAuth)));
    assert!(matches!(ask(None), Err(Refusal::MissingAuth)));
    assert!(matches!(
        require_admin_or_instance_basic(None, &w, path, Some("Bearer s3cret")),
        Err(Refusal::BadAdminToken)
    ));
    assert!(require_admin_or_instance_basic(None, &w, path, Some(GOOD)).is_ok());
    assert_eq!(Refusal::MissingAuth.body(), "missing auth");
}

#[test]
fn keys_in_paths() {
    assert_eq!(extract_server_api_key("/server_api/a/ping"), Some("a"));
    assert_eq!(extract_server_api_key("/server_api/a"), Some("a"));
    assert_eq!(extract_server_api_key("/server_api/"), Some(""));
    assert_eq!(extract_server_api_key("/instances/a"), None);
    assert_eq!(extract_instance_key("/instances/a/b/c"), Some("a"));
    assert_eq!(extract_instance_key("/instances"), None);
}

#[test]
fn other_refusals() {
    let r = Refusal::Failed("boom".to_string());
    assert_eq!((r.status(), r.body().as_str()), (500, "boom"));
    let r = Refusal::BadConfig("toml".to_string());
    assert_eq!((r.status(), r.body().as_str()), (400, "toml"));
}

#[test]
fn secrets_are_compared_whole() {
    assert!(constant_time_eq(b"", b""));
    assert!(constant_time_eq(b"abc", b"abc"));
    assert!(!constant_time_eq(b"abc", b"abd"));
    assert!(!constant_time_eq(b"abc", b"ab"));
    assert!(!constant_time_eq(&[0x01], &[0x81]));
}

#[test]
fn labels_are_escaped() {
    assert_eq!(escape("plain"), "plain");
    assert_eq!(escape("a\\b\"c\nd"), "a\\\\b\\\"c\\nd");
}

#[test]
fn metrics_of_all_instances() {
    assert_eq!(content_type(), "text/plain; version=0.0.4; charset=utf-8");
    let rows = vec![
        MetricsRow {
            key: "a".to_string(),
            status: Status::Running {
                pid: 1,
                version: "1".to_string(),
                uptime_secs: 12,
                last_ping_secs_ago: Some(3),
            },
            last_ping_secs_ago: Some(3),
            failures: 2,
            silenced: true,
            starts: Some(4),
            crashes: Some(5),
            clean_exits: None,
            heartbeat_lost: Some(6),
        },
        MetricsRow {
            key: "b\"".to_string(),
            status: Status::Backoff { wait_secs: 7, failures: 8 },
            last_ping_secs_ago: Some(90),
            failures: 8,
            silenced: false,
            starts: None,
            crashes: None,
            clean_exits: None,
            heartbeat_lost: None,
        },
        MetricsRow {
            key: "c".to_string(),
            status: Status::Stopped,
            last_ping_secs_ago: None,
            failures: 0,
            silenced: false,
            starts: None,
            crashes: None,
            clean_exits: None,
            heartbeat_lost: None,
        },
    ];
    let text = metrics("1.2.3", &rows);
    let lines: Vec<&str> = text.lines().collect();
    assert_eq!(lines[0], "# HELP cerberus_build_info Build metadata; value is always 1.");
    assert_eq!(lines[1], "# TYPE cerberus_build_info gauge");
    assert_eq!(lines[2], "cerberus_build_info{version=\"1.2.3\"} 1");
    assert_eq!(
        lines[3],
        "# HELP cerberus_instance_up 1 if the instance's supervisor is in state=running."
    );
    assert_eq!(lines[22], "# TYPE cerberus_instance_heartbeat_lost_total counter");
    assert_eq!(
        &lines[23..],
        &[
            "cerberus_instance_up{key=\"a\"} 1",
            "cerberus_instance_uptime_seconds{key=\"a\"} 12",
            "cerberus_instance_last_ping_seconds{key=\"a\"} 3",
            "cerberus_instance_backoff_seconds{key=\"a\"} 0",
            "cerberus_instance_failures{key=\"a\"} 2",
            "cerberus_instance_silenced{key=\"a\"} 1",
            "cerberus_instance_starts_total{key=\"a\"} 4",
            "cerberus_instance_crashes_total{key=\"a\"} 5",
            "cerberus_instance_clean_exits_total{key=\"a\"} 0",
            "cerberus_instance_heartbeat_lost_total{key=\"a\"} 6",
            "cerberus_instance_up{key=\"b\\\"\"} 0",
            "cerberus_instance_uptime_seconds{key=\"b\\\"\"} 0",
            "cerberus_instance_last_ping_seconds{key=\"b\\\"\"} 90",
            "cerberus_instance_backoff_seconds{key=\"b\\\"\"} 7",
            "cerberus_instance_failures{key=\"b\\\"\"} 8",
            "cerberus_instance_silenced{key=\"b\\\"\"} 0",
            "cerberus_instance_starts_total{key=\"b\\\"\"} 0",
            "cerberus_instance_crashes_total{key=\"b\\\"\"} 0",
            "cerberus_instance_clean_exits_total{key=\"b\\\"\"} 0",
            "cerberus_instance_heartbeat_lost_total{key=\"b\\\"\"} 0",
            "cerberus_instance_up{key=\"c\"} 0",
            "cerberus_instance_uptime_seconds{key=\"c\"} 0",
            "cerberus_instance_last_ping_seconds{key=\"c\"} -1",
            "cerberus_instance_backoff_seconds{key=\"c\"} 0",
            "cerberus_instance_failures{key=\"c\"} 0",
            "cerberus_instance_silenced{key=\"c\"} 0",
            "cerberus_instance_starts_total{key=\"c\"} 0",
            "cerberus_instance_crashes_total{key=\"c\"} 0",
            "cerberus_instance_clean_exits_total{key=\"c\"} 0",
            "cerberus_instance_heartbeat_lost_total{key=\"c\"} 0",
        ]
    );
    assert!(text.ends_with('\n'));
}

#[test]
fn metrics_row_of_a_supervisor() {
    let w = watchdog();
    let s = w.get("main").unwrap();
    let row = MetricsRow::of("main", s, &w.silenced, 0);
    assert_eq!(row.key, "main");
    assert!(!row.silenced);
    assert!(matches!(row.status, Status::Stopped));
    assert_eq!(row.starts, None);
    assert_eq!((row.last_ping_secs_ago, row.failures), (None, 0));
}

fn version() -> Event {
    Event::VersionRead(Ok(Some(Server {
        key: "main".to_string(),
        version: Some("1".to_string()),
    })))
}

fn start(w: &mut Watchdog, now: u64) {
    for event in [version(), version(), Event::Spawned(Ok(7))] {
        assert!(w.step("main", event, now).is_some());
    }
}

fn crash(w: &mut Watchdog, now: u64) {
    let report = ExitReport::Status { success: false, text: "exit status: 1".to_string() };
    assert!(w.step("main", Event::Exited(report), now).is_some());
}

fn shown(w: &Watchdog, now: u64) -> (Option<u64>, u32) {
    let row = MetricsRow::of("main", w.get("main").unwrap(), &w.silenced, now);
    (row.last_ping_secs_ago, row.failures)
}

#[test]
fn failures_and_pings_are_shown_over_a_restart() {
    let mut w = watchdog();
    start(&mut w, 0);
    assert_eq!(ping_instance(&mut w, "main", SEC), 204);
    crash(&mut w, 2 * SEC);
    assert_eq!(shown(&w, 3 * SEC), (Some(2), 1));
    assert!(w.step("main", Event::WaitOver, 3 * SEC).is_some());
    start(&mut w, 4 * SEC);
    // It runs again, and has not pinged since.
    match w.get("main").unwrap().status(5 * SEC) {
        Status::Running { last_ping_secs_ago, .. } => assert_eq!(last_ping_secs_ago, None),
        _ => panic!("not running"),
    }
    assert_eq!(shown(&w, 5 * SEC), (Some(4), 1));
    // Up for half a minute, its failures are forgotten.
    assert_eq!(shown(&w, 33 * SEC), (Some(32), 1));
    assert_eq!(shown(&w, 34 * SEC), (Some(33), 0));
    crash(&mut w, 34 * SEC);
    assert_eq!(shown(&w, 34 * SEC), (Some(33), 1));
}

#[test]
fn reload_keeps_a_running_server_admitted() {
    let mut w = watchdog();
    start(&mut w, 0);
    assert_eq!(w.reload_from(&config("other-token")).applied, vec!["main"]);
    assert!(require_instance_basic(&w, "/server_api/main/ping", Some(GOOD)).is_ok());
    assert!(require_instance_basic(&w, "/server_api/main/ping", Some(NEW)).is_err());
    crash(&mut w, SEC);
    assert!(require_instance_basic(&w, "/server_api/main/ping", Some(GOOD)).is_err());
    assert!(require_instance_basic(&w, "/server_api/main/ping", Some(NEW)).is_ok());
    assert!(w.step("main", Event::WaitOver, 2 * SEC).is_some());
    start(&mut w, 2 * SEC);
    assert!(require_instance_basic(&w, "/server_api/main/ping", Some(NEW)).is_ok());
}
