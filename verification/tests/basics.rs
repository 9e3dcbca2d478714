use cerberus::config::{
    default_admin_bind, default_healthy_after_secs, default_heartbeat_timeout,
    default_restart_max_secs, default_restart_min_secs, AdminConfig, ConsoleLoggingConfig,
    LoggingConfig, LokiLoggingConfig, DEFAULT_PATH,
};
use cerberus::db::incidents::{row_count, timestamp, Kind};
use cerberus::db::server::{current_version, Server};
use cerberus::instances::{
    executable_mode, line_level, signal_target, LineLevel, SilenceRegistry,
};
use cerberus::keymap::{shared_keys, KeyMap, KeySet};
use cerberus::logging::{build_filter, loki_filter, outputs, Level};
use cerberus::paths::{FilePath, PathStep};
use cerberus::text::{
    join, push_dec, push_int, push_left_aligned, push_zero_padded, rsplit_once, same,
    same_ignoring_case, split_once, starts_with, strip_prefix, trim_end,
};

#[test]
fn defaults_of_the_configuration() {
    assert_eq!(DEFAULT_PATH, "./cerberus.toml");
    assert_eq!(default_admin_bind(), "0.0.0.0:5000");
    assert_eq!(default_heartbeat_timeout(), 60);
    assert_eq!(default_restart_min_secs(), 1);
    assert_eq!(default_restart_max_secs(), 60);
    assert_eq!(default_healthy_after_secs(), 30);
    let admin = AdminConfig::default();
    assert_eq!(admin.bind, "0.0.0.0:5000");
    assert_eq!(admin.token, None);
}

#[test]
fn kinds_of_incidents() {
    assert_eq!(Kind::Start.as_str(), "start");
    assert_eq!(Kind::Crashed.as_str(), "crashed");
    assert_eq!(Kind::CleanExit.as_str(), "clean_exit");
    assert_eq!(Kind::HeartbeatLost.as_str(), "heartbeat_lost");
    assert_eq!(Kind::Admin.as_str(), "admin");
    assert_eq!(Kind::SpawnFailed.as_str(), "spawn_failed");
    assert_eq!(Kind::WaitFailed.as_str(), "wait_failed");
    assert_eq!(timestamp(Some(12)), 12);
    assert_eq!(timestamp(None), 0);
    assert_eq!(row_count(-1), 0);
    assert_eq!(row_count(9), 9);
}

#[test]
fn versions_in_rows() {
    assert_eq!(current_version(None), None);
    let row = Server { key: "k".to_string(), version: None };
    assert_eq!(current_version(Some(row)), None);
    let row = Server { key: "k".to_string(), version: Some("3".to_string()) };
    assert_eq!(current_version(Some(row)).unwrap(), "3");
}

fn texts(path: &FilePath) -> Vec<&str> {
    let mut all = Vec::new();
    for step in &path.steps {
        match step {
            PathStep::Into(t) | PathStep::Beside(t) => all.push(t.as_str()),
        }
    }
    all
}

#[test]
fn paths_are_joined() {
    let p = FilePath::new("a").join("b").join("/c").sibling(".d");
    assert_eq!(texts(&p), vec!["a", "b", "/c", ".d"]);
    assert!(matches!(p.steps[2], PathStep::Into(_)));
    assert!(matches!(p.steps[3], PathStep::Beside(_)));
    assert_eq!(texts(&p.duplicate()), texts(&p));
}

#[test]
fn programs_are_made_executable() {
    assert_eq!(executable_mode(0o644), 0o755);
    assert_eq!(executable_mode(0o755), 0o755);
    assert_eq!(executable_mode(0o100600), 0o100711);
}

#[test]
fn pids_that_can_be_signalled() {
    assert_eq!(signal_target(7), Some(7));
    assert_eq!(signal_target(i32::MAX as u32), Some(i32::MAX));
    assert_eq!(signal_target(i32::MAX as u32 + 1), None);
}

#[test]
fn lines_of_silenced_servers_are_dropped() {
    let mut silenced = SilenceRegistry::new();
    assert_eq!(line_level(&silenced, "a", false), Some(LineLevel::Info));
    assert_eq!(line_level(&silenced, "a", true), Some(LineLevel::Warn));
    silenced.insert("a".to_string());
    assert_eq!(line_level(&silenced, "a", true), None);
    assert_eq!(line_level(&silenced, "b", false), Some(LineLevel::Info));
}

#[test]
fn maps_keep_their_keys_in_order() {
    let mut m: KeyMap<u32> = KeyMap::new();
    assert!(m.is_empty());
    for (k, v) in [("b", 2), ("a", 1), ("ab", 3), ("", 4), ("b", 5), ("ä", 6)] {
        m.insert(k.to_string(), v);
    }
    assert_eq!(m.keys(), vec!["", "a", "ab", "b", "ä"]);
    assert_eq!(m.len(), 5);
    assert_eq!(m.get("b"), Some(&5));
    assert_eq!(m.get("c"), None);
    assert!(m.contains_key("ab"));
    assert_eq!(m.remove("a"), Some(1));
    assert_eq!(m.remove("a"), None);
    assert_eq!(m.keys(), vec!["", "ab", "b", "ä"]);
    assert_eq!((m.key_at(1).as_str(), *m.value_at(1)), ("ab", 3));
}

#[test]
fn keys_in_common() {
    let mut a: KeyMap<u32> = KeyMap::new();
    let mut b: KeyMap<bool> = KeyMap::new();
    for k in ["x", "y", "z"] {
        a.insert(k.to_string(), 0);
    }
    for k in ["y", "w"] {
        b.insert(k.to_string(), true);
    }
    assert_eq!(shared_keys(&a, &b, true), vec!["y"]);
    assert_eq!(shared_keys(&a, &b, false), vec!["x", "z"]);
    assert_eq!(shared_keys(&b, &a, false), vec!["w"]);
}

#[test]
fn sets_hold_each_member_once() {
    let mut s = KeySet::new();
    assert!(s.insert("b".to_string()));
    assert!(!s.insert("b".to_string()));
    assert!(s.insert("a".to_string()));
    assert_eq!(s.to_sorted(), vec!["a", "b"]);
    s.remove("b");
    assert!(!s.contains("b"));
}

#[test]
fn copies_of_maps() {
    let mut m: KeyMap<String> = KeyMap::new();
    m.insert("k".to_string(), "v".to_string());
    let c = m.duplicate();
    assert_eq!(c.get("k").unwrap(), "v");
    assert_eq!(c.len(), 1);
}

#[test]
fn pieces_of_texts() {
    assert_eq!(split_once("a:b:c", ':'), Some(("a", "b:c")));
    assert_eq!(rsplit_once("a:b:c", ':'), Some(("a:b", "c")));
    assert_eq!(split_once("abc", ':'), None);
    assert_eq!(rsplit_once("ü:", ':'), Some(("ü", "")));
    assert_eq!(strip_prefix("Bearer x", "Bearer "), Some("x"));
    assert_eq!(strip_prefix("Bear", "Bearer "), None);
    assert!(starts_with("abc", "ab"));
    assert_eq!(trim_end("a//", '/'), "a");
    assert_eq!(trim_end("//", '/'), "");
    assert_eq!(join(&vec!["a".to_string(), "b".to_string()], ", "), "a, b");
    assert!(same("é", "é"));
    assert!(!same("a", "ab"));
    assert!(same_ignoring_case("AbC1", "aBc1"));
    assert!(!same_ignoring_case("Ä", "ä"));
}

#[test]
fn numbers_in_texts() {
    let mut s = String::new();
    push_dec(&mut s, u64::MAX);
    push_int(&mut s, i64::MIN);
    assert_eq!(s, format!("{}{}", u64::MAX, i64::MIN));
    let mut s = String::new();
    push_zero_padded(&mut s, 7, 4);
    push_zero_padded(&mut s, -7, 4);
    push_zero_padded(&mut s, 12345, 4);
    assert_eq!(s, "0007-00712345");
    let mut s = String::new();
    push_left_aligned(&mut s, "äb", 4);
    push_left_aligned(&mut s, "long", 2);
    assert_eq!(s, "äb  long");
}

fn overrides(list: &[(&str, &str)]) -> KeyMap<String> {
    let mut m = KeyMap::new();
    for (k, v) in list {
        m.insert(k.to_string(), v.to_string());
    }
    m
}

#[test]
fn levels_of_targets() {
    let o = overrides(&[("a", "debug"), ("b", "TRACE"), ("c", "nope\""), ("d", "+3"), ("e", "")]);
    let (f, said) = build_filter(Level::Warn, &o);
    assert_eq!(f.default, Level::Warn);
    assert_eq!(f.targets.keys(), vec!["a", "b", "d", "e"]);
    assert_eq!(f.targets.get("a"), Some(&Level::Debug));
    assert_eq!(f.targets.get("b"), Some(&Level::Trace));
    assert_eq!(f.targets.get("d"), Some(&Level::Info));
    assert_eq!(f.targets.get("e"), Some(&Level::Error));
    assert_eq!(said, vec!["logging: invalid level \"nope\\\"\" for target \"c\""]);
}

#[test]
fn levels_by_number_and_name() {
    let cases = [
        ("0", Some(Level::Off)),
        ("1", Some(Level::Error)),
        ("002", Some(Level::Warn)),
        ("4", Some(Level::Debug)),
        ("5", Some(Level::Trace)),
        ("6", None),
        ("+", None),
        ("-1", None),
        ("99999999999999999999999999", None),
        ("OFF", Some(Level::Off)),
        ("Error", Some(Level::Error)),
        ("warn", Some(Level::Warn)),
        ("info", Some(Level::Info)),
        (" info", None),
        ("warning", None),
    ];
    for (text, level) in cases {
        let (f, said) = build_filter(Level::Info, &overrides(&[("t", text)]));
        assert_eq!(f.targets.get("t").copied(), level);
        assert_eq!(said.len(), if level.is_none() { 1 } else { 0 });
    }
}

#[test]
fn loki_never_logs_itself() {
    let (f, _) = loki_filter(Level::Info, &overrides(&[("hyper", "trace"), ("mine", "warn")]));
    for t in ["hyper", "hyper_util", "reqwest", "h2", "tracing_loki"] {
        assert_eq!(f.targets.get(t), Some(&Level::Off));
    }
    assert_eq!(f.targets.get("mine"), Some(&Level::Warn));
    assert_eq!(f.targets.len(), 6);
}

#[test]
fn outputs_that_are_enabled() {
    let mut c = LoggingConfig {
        level: "debug".to_string(),
        overrides: KeyMap::new(),
        console: Some(ConsoleLoggingConfig { enabled: true, ansi: true, compact: true }),
        loki: Some(LokiLoggingConfig {
            enabled: false,
            endpoint: "http://loki".to_string(),
            labels: KeyMap::new(),
        }),
    };
    let o = outputs(&c);
    assert_eq!((o.level, o.console, o.loki), (Level::Debug, true, false));
    c.level = "loud".to_string();
    c.console = None;
    let o = outputs(&c);
    assert_eq!((o.level, o.console, o.loki), (Level::Info, false, false));
}
