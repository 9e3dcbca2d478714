use cerberus::api::routes::Method;
use cerberus::cli::calendar::{days_to_ymd, format_ts};
use cerberus::cli::daemons::{
    default_cli_config_path, user_config_path, CliError, DaemonCtx, DaemonEntry, HttpClient,
    UserCliConfig,
};
use cerberus::cli::json::{body_of, Json};
use cerberus::cli::list::{error_complaint, merge, shape_complaint};
use cerberus::cli::requests::{
    check_status, default_command, list_requests, request_for, stage, Show, Stage,
};
use cerberus::cli::show::{history_lines, update_outcome};
use cerberus::cli::sse::{find_event_break, strip_cr, SseReader};
use cerberus::cli::{Cli, Command};
use cerberus::config::{local_base_url, AdminConfig};
use cerberus::keymap::KeyMap;
use cerberus::paths::{FilePath, PathStep};

fn cli() -> Cli {
    Cli {
        config: "./cerberus.toml".to_string(),
        api: None,
        token: None,
        daemon: None,
        cli_config: None,
        command: None,
    }
}

fn user(default: Option<&str>, names: &[&str]) -> UserCliConfig {
    let mut u = UserCliConfig::empty();
    u.default = default.map(|s| s.to_string());
    for n in names {
        u.daemons.insert(
            n.to_string(),
            DaemonEntry { api: format!("https://{n}:5000"), token: format!("{n}-token") },
        );
    }
    u
}

fn resolve(c: &Cli, u: &UserCliConfig) -> Result<DaemonCtx, CliError> {
    c.resolve_daemons(u, None)
}

fn message(r: Result<DaemonCtx, CliError>) -> String {
    match r {
        Ok(_) => panic!("resolved"),
        Err(e) => e.message(),
    }
}

#[test]
fn given_daemon_wins() {
    let mut c = cli();
    c.api = Some("http://x/".to_string());
    c.token = Some("t".to_string());
    c.daemon = Some("ignored".to_string());
    let ctx = resolve(&c, &user(None, &["prod"])).unwrap();
    assert_eq!(ctx.selected.as_deref(), Some("default"));
    assert!(ctx.restricted);
    assert_eq!(ctx.names_joined(), "default");
    let (name, client) = ctx.pick_single().unwrap();
    assert_eq!((name, client.base.as_str(), client.token.as_str()), ("default", "http://x/", "t"));
    // Half of it is not enough.
    c.token = None;
    c.daemon = None;
    assert!(c.explicit_daemon().is_none());
    assert_eq!(resolve(&c, &user(None, &["prod"])).unwrap().names_joined(), "prod");
}

#[test]
fn configured_daemons_and_the_default() {
    let c = cli();
    let ctx = resolve(&c, &user(Some("prod"), &["staging", "prod"])).unwrap();
    assert_eq!(ctx.names_joined(), "prod, staging");
    assert_eq!(ctx.selected.as_deref(), Some("prod"));
    assert!(!ctx.restricted);
    assert!(ctx.has_multiple());
    let ctx = resolve(&c, &user(None, &["only"])).unwrap();
    assert_eq!(ctx.selected.as_deref(), Some("only"));
    assert!(ctx.restricted);
    assert!(!ctx.has_multiple());
    let ctx = resolve(&c, &user(None, &["default", "x"])).unwrap();
    assert_eq!(ctx.selected.as_deref(), Some("default"));
    assert!(!ctx.restricted);
    let ctx = resolve(&c, &user(None, &["y", "x"])).unwrap();
    assert_eq!(ctx.selected, None);
    assert!(!ctx.restricted);
}

#[test]
fn legacy_daemon_is_called_default() {
    let mut u = user(None, &["x"]);
    u.api = Some("http://legacy".to_string());
    u.token = Some("l".to_string());
    let ctx = resolve(&cli(), &u).unwrap();
    assert_eq!(ctx.names_joined(), "default, x");
    assert_eq!(ctx.daemons.get("default").unwrap().base, "http://legacy");
    // A named one of that name takes its place.
    let mut u = user(None, &["default"]);
    u.api = Some("http://legacy".to_string());
    u.token = Some("l".to_string());
    let ctx = resolve(&cli(), &u).unwrap();
    assert_eq!(ctx.daemons.get("default").unwrap().base, "https://default:5000");
}

#[test]
fn daemon_of_this_machine_is_the_last_resort() {
    let admin = AdminConfig { bind: "0.0.0.0:6000".to_string(), token: Some("t".to_string()) };
    let ctx = cli().resolve_daemons(&UserCliConfig::empty(), Some(&admin)).unwrap();
    assert_eq!(ctx.daemons.get("default").unwrap().base, "http://127.0.0.1:6000");
    let ctx = cli().resolve_daemons(&user(None, &["x"]), Some(&admin)).unwrap();
    assert_eq!(ctx.names_joined(), "x");
    let silent = AdminConfig { bind: "0.0.0.0:6000".to_string(), token: None };
    assert!(cli().resolve_daemons(&UserCliConfig::empty(), Some(&silent)).is_err());
}

#[test]
fn words_of_cli_errors() {
    let mut c = cli();
    assert_eq!(
        message(resolve(&c, &UserCliConfig::empty())),
        "no daemons configured; pass --api/--token, or set [daemons.<name>] (or api/token) in ~/.config/cerberus/cli.toml"
    );
    assert_eq!(
        message(resolve(&c, &user(Some("a\"b"), &["x"]))),
        "default = \"a\\\"b\" in CLI config, but no such daemon defined"
    );
    c.daemon = Some("nope".to_string());
    assert_eq!(
        message(resolve(&c, &user(None, &["y", "x"]))),
        "no daemon named \"nope\"; known: x, y"
    );
    let ctx = resolve(&cli(), &user(None, &["y", "x"])).unwrap();
    match ctx.pick_single() {
        Err(e) => assert_eq!(
            e.message(),
            "multiple daemons configured (x, y); pick one with --daemon <name> or set default = ..."
        ),
        Ok(_) => panic!("picked"),
    }
    match ctx.resolve("main") {
        Err(e) => assert_eq!(
            e.message(),
            "multiple daemons configured (x, y); write target as `<daemon>/main` or pass --daemon <name>"
        ),
        Ok(_) => panic!("resolved"),
    }
    match ctx.resolve("z/main") {
        Err(e) => assert_eq!(e.message(), "no daemon named \"z\"; known: x, y"),
        Ok(_) => panic!("resolved"),
    }
    assert_eq!(CliError::Reported("r".to_string()).message(), "r");
}

#[test]
fn targets_name_a_daemon_or_not() {
    let ctx = resolve(&cli(), &user(Some("prod"), &["staging", "prod"])).unwrap();
    let (client, key) = ctx.resolve("main").unwrap();
    assert_eq!((client.token.as_str(), key.as_str()), ("prod-token", "main"));
    let (client, key) = ctx.resolve("staging/a/b").unwrap();
    assert_eq!((client.token.as_str(), key.as_str()), ("staging-token", "a/b"));
}

#[test]
fn requests_of_commands() {
    let ctx = resolve(&cli(), &user(Some("prod"), &["staging", "prod"])).unwrap();
    let t = || "main".to_string();
    let cases = vec![
        (Command::Status { target: t() }, Method::Get, "/instances/main/status", Show::Body),
        (Command::Start { target: t() }, Method::Post, "/instances/main/start", Show::Done),
        (Command::Stop { target: t() }, Method::Post, "/instances/main/stop", Show::Done),
        (Command::Restart { target: t() }, Method::Post, "/instances/main/restart", Show::Done),
        (
            Command::ForceRestart { target: t() },
            Method::Post,
            "/instances/main/force-restart",
            Show::Done,
        ),
        (Command::Update { target: t() }, Method::Post, "/instances/main/update", Show::Outcome),
        (Command::Silence { target: t() }, Method::Post, "/instances/main/silence", Show::Done),
        (Command::Unsilence { target: t() }, Method::Post, "/instances/main/unsilence", Show::Done),
        (
            Command::History { target: t(), limit: -3 },
            Method::Get,
            "/instances/main/history?limit=-3",
            Show::History,
        ),
        (
            Command::Logs { target: t(), follow: true },
            Method::Get,
            "/instances/main/logs",
            Show::Stream,
        ),
    ];
    for (c, method, path, show) in cases {
        let call = request_for(&ctx, &c).unwrap().unwrap();
        assert_eq!(call.url, format!("https://prod:5000{path}"));
        assert_eq!((call.method, call.show), (method, show));
        assert_eq!(call.authorization, "Bearer prod-token");
        assert!(call.heading.is_none());
    }
    let call = request_for(&ctx, &Command::Reload).unwrap().unwrap();
    assert_eq!(call.url, "https://prod:5000/reload");
    assert_eq!(call.heading.unwrap(), "[prod]");
    assert!(request_for(&ctx, &Command::List).unwrap().is_none());
    let single = resolve(&cli(), &user(None, &["one"])).unwrap();
    let call = request_for(&single, &Command::Reload).unwrap().unwrap();
    assert!(call.heading.is_none());
}

#[test]
fn lists_go_to_all_or_to_one() {
    let ctx = resolve(&cli(), &user(Some("prod"), &["staging", "prod"])).unwrap();
    let all = list_requests(&ctx);
    let names: Vec<&str> = all.iter().map(|(n, _)| n.as_str()).collect();
    assert_eq!(names, vec!["prod", "staging"]);
    assert_eq!(all[1].1.url, "https://staging:5000/instances");
    assert!(all.iter().all(|(_, r)| r.heading.is_none()));
    let mut c = cli();
    c.daemon = Some("staging".to_string());
    let ctx = resolve(&c, &user(Some("prod"), &["staging", "prod"])).unwrap();
    let one = list_requests(&ctx);
    assert_eq!(one.len(), 1);
    assert_eq!(one[0].0, "staging");
}

#[test]
fn stages_of_a_command_line() {
    assert!(matches!(stage(None, true), Stage::RunDaemon));
    assert!(matches!(stage(None, false), Stage::Ask(Command::List)));
    assert!(matches!(stage(Some(Command::Daemon), true), Stage::RunDaemon));
    assert!(matches!(stage(Some(Command::Reload), true), Stage::Ask(Command::Reload)));
    let c = Command::Completions { shell: "zsh".to_string() };
    assert!(matches!(stage(Some(c), true), Stage::Complete { shell } if shell == "zsh"));
    assert!(matches!(default_command(false), Command::List));
}

#[test]
fn urls_have_one_slash() {
    let c = HttpClient::new("http://x:1//".to_string(), "t".to_string());
    assert_eq!(c.url("/reload"), "http://x:1/reload");
    assert_eq!(c.authorization(), "Bearer t");
    assert_eq!(HttpClient::new("".to_string(), "".to_string()).url("/a"), "/a");
}

#[test]
fn addresses_of_a_local_daemon() {
    assert_eq!(local_base_url("0.0.0.0:5000"), "http://127.0.0.1:5000");
    assert_eq!(local_base_url("[::]:80"), "http://127.0.0.1:80");
    assert_eq!(local_base_url(":80"), "http://127.0.0.1:80");
    assert_eq!(local_base_url("10.0.0.1:80"), "http://10.0.0.1:80");
    assert_eq!(local_base_url("[::1]:80"), "http://[::1]:80");
    assert_eq!(local_base_url("nonsense"), "http://127.0.0.1:5000");
}

/// The steps of a path that has no other than into directories.
fn steps(path: Option<FilePath>) -> Vec<String> {
    let into = |s| match s {
        PathStep::Into(t) => t,
        PathStep::Beside(_) => panic!("beside"),
    };
    path.map(|p| p.steps.into_iter().map(into).collect()).unwrap_or_default()
}

#[test]
fn places_of_the_configuration() {
    let found = default_cli_config_path(Some("/x"), Some("/h"));
    assert_eq!(steps(found), ["/x", "cerberus/cli.toml"]);
    let found = default_cli_config_path(Some(""), Some("/h"));
    assert_eq!(steps(found), ["/h", ".config/cerberus/cli.toml"]);
    assert!(default_cli_config_path(None, None).is_none());
    assert_eq!(steps(user_config_path(Some("mine"), Some("/x"), None)), ["mine"]);
    let found = user_config_path(None, None, Some("/h/"));
    assert_eq!(steps(found), ["/h/", ".config/cerberus/cli.toml"]);
}

#[test]
fn answers_that_are_no_success() {
    assert!(check_status(200, "200 OK", "x").is_ok());
    assert!(check_status(299, "299", "x").is_ok());
    match check_status(404, "404 Not Found", "unknown instance") {
        Err(e) => assert_eq!(e.message(), "404 Not Found: unknown instance"),
        Ok(()) => panic!("accepted"),
    }
    assert!(check_status(300, "300", "").is_err());
    assert!(check_status(199, "199", "").is_err());
}

#[test]
fn bodies_of_answers() {
    assert!(matches!(body_of(String::new(), Some(Json::Int(1))), Json::Null));
    assert!(matches!(body_of("1".to_string(), Some(Json::Int(1))), Json::Int(1)));
    assert!(matches!(body_of("ok".to_string(), None), Json::Text(t) if t == "ok"));
}

fn object(members: Vec<(&str, Json)>) -> Json {
    let mut m = KeyMap::new();
    for (k, v) in members {
        m.insert(k.to_string(), v);
    }
    Json::Object(m)
}

fn text(s: &str) -> Json {
    Json::Text(s.to_string())
}

#[test]
fn members_of_values() {
    let v = object(vec![("a", text("x")), ("n", Json::Int(3)), ("b", Json::Bool(true))]);
    assert_eq!(v.get_text("a"), Some("x"));
    assert_eq!(v.get_text("n"), None);
    assert_eq!(v.get_int("n"), Some(3));
    assert_eq!(v.get_bool("b"), Some(true));
    assert!(v.get("zzz").is_none());
    assert!(Json::Null.get("a").is_none());
}

#[test]
fn outcomes_of_updates() {
    let o = |members| update_outcome(&object(members));
    assert_eq!(o(vec![("outcome", text("no_update"))]).unwrap(), "no update available");
    assert_eq!(
        o(vec![("outcome", text("notified")), ("notification_sent", Json::Bool(true))]).unwrap(),
        "update queued; server notified, will apply on next natural exit"
    );
    let undelivered = "update queued; server notification could NOT be delivered - the update will apply the next time the server exits for any reason";
    assert_eq!(
        o(vec![("outcome", text("notified")), ("notification_sent", Json::Bool(false))]).unwrap(),
        undelivered
    );
    assert_eq!(o(vec![("outcome", text("notified"))]).unwrap(), undelivered);
    assert_eq!(
        o(vec![("outcome", text("applied"))]).unwrap(),
        "update installed; will start on next spawn"
    );
    assert_eq!(
        o(vec![("outcome", text("failed")), ("reason", text("disk"))]).unwrap(),
        "update failed: disk"
    );
    assert_eq!(o(vec![("outcome", text("failed"))]).unwrap(), "update failed: unknown");
    assert!(o(vec![("outcome", text("else"))]).is_none());
    assert!(update_outcome(&Json::Null).is_none());
}

#[test]
fn history_in_lines() {
    assert!(history_lines(&Json::Null).is_none());
    assert_eq!(history_lines(&Json::List(vec![])).unwrap(), vec!["(no history)"]);
    let rows = Json::List(vec![
        object(vec![
            ("ts", Json::Int(1_700_000_000)),
            ("kind", text("start")),
            ("detail", text("pid=1 version=2")),
        ]),
        object(vec![("detail", Json::Null)]),
    ]);
    assert_eq!(
        history_lines(&rows).unwrap(),
        vec![
            "TIMESTAMP            KIND             DETAIL",
            "2023-11-14 22:13:20  start            pid=1 version=2",
            "1970-01-01 00:00:00  ?                ",
        ]
    );
}

#[test]
fn dates_of_days() {
    assert_eq!(days_to_ymd(0), (1970, 1, 1));
    assert_eq!(days_to_ymd(-1), (1969, 12, 31));
    assert_eq!(days_to_ymd(59), (1970, 3, 1));
    assert_eq!(days_to_ymd(11_016), (2000, 2, 29));
    assert_eq!(days_to_ymd(11_017), (2000, 3, 1));
    assert_eq!(days_to_ymd(-25_509), (1900, 2, 28));
    assert_eq!(days_to_ymd(-25_508), (1900, 3, 1));
    assert_eq!(days_to_ymd(19_782), (2024, 2, 29));
    assert_eq!(days_to_ymd(-719_468), (0, 3, 1));
}

#[test]
fn moments_as_people_read_them() {
    assert_eq!(format_ts(0), "1970-01-01 00:00:00");
    assert_eq!(format_ts(-5), "1970-01-01 00:00:00");
    assert_eq!(format_ts(951_827_696), "2000-02-29 12:34:56");
    assert_eq!(format_ts(253_402_300_800), "10000-01-01 00:00:00");
}

#[test]
fn events_of_a_stream() {
    let mut r = SseReader::new();
    assert!(r.feed(b"data: hel").is_empty());
    assert!(r.feed(b"lo\n").is_empty());
    assert_eq!(r.feed(b"\n: comment\n\ndata:x\r\ndata: y\n\nda"), vec!["hello", "x", "y"]);
    assert_eq!(r.buf, b"da");
    assert_eq!(r.feed(b"ta:  two\n\n"), vec![" two"]);
    assert_eq!(r.feed(b"data: \xff\n\nid: 3\n\ndata\n\n"), Vec::<String>::new());
    assert!(r.buf.is_empty());
}

#[test]
fn pieces_of_a_stream_do_not_matter() {
    let whole = b"data: a\n\ndata: b\r\ndata:c\n\n\ndata: d\n\nrest";
    let mut at_once = SseReader::new();
    let expected = at_once.feed(whole);
    for cut in 0..whole.len() {
        let mut r = SseReader::new();
        let mut lines = r.feed(&whole[..cut]);
        lines.extend(r.feed(&whole[cut..]));
        assert_eq!(lines, expected);
        assert_eq!(r.buf, at_once.buf);
    }
}

#[test]
fn breaks_and_line_ends() {
    assert_eq!(find_event_break(b"a\n\nb\n\n"), Some(1));
    assert_eq!(find_event_break(b"a\nb\n"), None);
    assert_eq!(find_event_break(b""), None);
    assert_eq!(strip_cr(b"x\r"), b"x");
    assert_eq!(strip_cr(b"x\r\r"), b"x\r");
    assert_eq!(strip_cr(b""), b"");
}

#[test]
fn answers_are_merged() {
    let rows = |k: &str| Ok(Json::List(vec![object(vec![("key", text(k)), ("name", text("N"))])]));
    let (merged, trouble) = merge(vec![
        ("prod".to_string(), rows("main")),
        ("bad".to_string(), Ok(Json::Null)),
        ("staging".to_string(), rows("beta")),
        ("down".to_string(), Err("refused".to_string())),
    ]);
    assert_eq!(merged.len(), 2);
    assert_eq!(merged[0].get_text("key"), Some("prod/main"));
    assert_eq!(merged[0].get_text("daemon"), Some("prod"));
    assert_eq!(merged[0].get_text("name"), Some("N"));
    assert_eq!(merged[1].get_text("key"), Some("staging/beta"));
    let names: Vec<&str> = trouble.iter().map(|(n, _)| n.as_str()).collect();
    assert_eq!(names, vec!["bad", "down"]);
    assert_eq!(shape_complaint("bad", "null"), "[bad] unexpected response shape: null");
    assert_eq!(error_complaint("down", "refused"), "[down] refused");
}

#[test]
fn rows_of_a_single_daemon_stay_as_they_are() {
    let list = Json::List(vec![object(vec![("key", text("main"))]), Json::Int(7)]);
    let (merged, _) = merge(vec![("prod".to_string(), Ok(list))]);
    assert_eq!(merged[0].get_text("key"), Some("main"));
    assert!(merged[0].get("daemon").is_none());
    assert!(matches!(merged[1], Json::Int(7)));
}

#[test]
fn odd_rows_are_merged_too() {
    let odd = Json::List(vec![Json::Int(7), object(vec![("key", Json::Int(1))])]);
    let (merged, _) = merge(vec![
        ("a".to_string(), Ok(odd)),
        ("b".to_string(), Ok(Json::List(vec![]))),
    ]);
    assert!(matches!(merged[0], Json::Int(7)));
    assert_eq!(merged[1].get_int("key"), Some(1));
    assert_eq!(merged[1].get_text("daemon"), Some("a"));
}
