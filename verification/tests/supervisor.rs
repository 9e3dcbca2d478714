use cerberus::config::{
    ApiConfig, ManifestUpdateConfig, ServerConfig, UpdateConfig, UpdateType,
};
use cerberus::db::incidents::Kind;
use cerberus::db::server::Server;
use cerberus::instances::SilenceRegistry;
use cerberus::keymap::KeyMap;
use cerberus::paths::{FilePath, PathStep};
use cerberus::supervisor::actions::Action;
use cerberus::supervisor::backoff::backoff;
use cerberus::supervisor::machine::{
    Answer, Command, Event, ExitReport, Failure, InternalState, Note, Reaction, Supervisor, Verdict,
};
use cerberus::supervisor::reports::{remaining, snapshot};
use cerberus::supervisor::{
    instance_bin_dir, instance_dir, Status, SupervisorError, UpdateOutcome, INSTANCE_ROOT,
};

const SEC: u64 = 1_000_000_000;

fn server(port: Option<u16>) -> ServerConfig {
    ServerConfig {
        name: "Main".to_string(),
        api: ApiConfig { token: "tok".to_string(), port },
        update: UpdateConfig {
            update_type: UpdateType::Manifest(ManifestUpdateConfig {
                manifest_url: "https://cdn.example/manifest".to_string(),
                authentication: None,
            }),
        },
        run_command: None,
        arguments: vec!["--extra".to_string()],
        environment: KeyMap::new(),
        heartbeat_timeout: 60,
        restart_min_secs: 1,
        restart_max_secs: 60,
        healthy_after_secs: 30,
        silent: false,
    }
}

fn row(version: &str) -> Event {
    Event::VersionRead(Ok(Some(Server {
        key: "main".to_string(),
        version: Some(version.to_string()),
    })))
}

fn fresh(port: Option<u16>) -> Supervisor {
    Supervisor::spawn("main".to_string(), server(port), "http://127.0.0.1:5000".to_string())
}

fn step(s: Supervisor, e: Event, now: u64) -> (Supervisor, Reaction) {
    let (t, r) = s.step(e, now);
    (t, r.expect("the event is waited for"))
}

/// A server that started at the moment `now`.
fn running(port: Option<u16>, now: u64) -> Supervisor {
    let (s, _) = step(fresh(port), row("1"), now);
    let (s, _) = step(s, row("1"), now);
    assert!(matches!(s.action(), Action::Spawn { .. }));
    let (s, r) = step(s, Event::Spawned(Ok(77)), now);
    let note = r.note.unwrap();
    assert_eq!(note.kind().as_str(), "start");
    assert_eq!(note.detail(), "pid=77 version=1");
    s
}

fn crash() -> Event {
    Event::Exited(ExitReport::Status { success: false, text: "exit status: 1".to_string() })
}

fn clean() -> Event {
    Event::Exited(ExitReport::Status { success: true, text: "exit status: 0".to_string() })
}

/// Where a path leads, by the rules of the platform.
fn text(path: &FilePath) -> String {
    let mut at = std::path::PathBuf::new();
    for step in &path.steps {
        at = match step {
            PathStep::Into(t) => at.join(t),
            PathStep::Beside(suffix) => {
                let mut name = at.file_name().unwrap_or_default().to_owned();
                name.push(suffix);
                at.with_file_name(name)
            }
        };
    }
    at.to_str().unwrap().to_string()
}

fn is_kind(k: Kind, name: &str) -> bool {
    k.as_str() == name
}

#[test]
fn first_start_reads_the_version_and_spawns_it() {
    let s = fresh(None);
    assert_eq!(s.key(), "main");
    assert_eq!(s.display_name(), "Main");
    assert_eq!(s.api_token(), "tok");
    assert!(matches!(s.status(0), Status::Stopped));
    assert!(matches!(s.action(), Action::ReadVersion));
    let s = running(None, 5 * SEC);
    match s.status(8 * SEC + 1) {
        Status::Running { pid, version, uptime_secs, last_ping_secs_ago } => {
            assert_eq!(pid, 77);
            assert_eq!(version, "1");
            assert_eq!(uptime_secs, 3);
            assert_eq!(last_ping_secs_ago, None);
        }
        _ => panic!("not running"),
    }
    assert!(matches!(s.action(), Action::Watch));
}

#[test]
fn spawn_spec_hides_the_token_in_the_environment() {
    let mut cfg = server(None);
    cfg.environment.insert("A".to_string(), "b".to_string());
    let s = Supervisor::spawn("main".to_string(), cfg, "http://127.0.0.1:5000".to_string());
    let spec = s.build_spec("7");
    assert_eq!(spec.id, "main");
    assert_eq!(spec.version, "7");
    assert_eq!(text(&spec.cwd), "./instances/main");
    assert_eq!(spec.program, "bin/Robust.Server");
    assert_eq!(
        spec.args,
        vec![
            "--cvar",
            "watchdog.key=main",
            "--cvar",
            "watchdog.baseUrl=http://127.0.0.1:5000",
            "--config-file",
            "config.toml",
            "--data-dir",
            "data",
            "--extra"
        ]
    );
    assert_eq!(spec.env.get("ROBUST_CVAR_watchdog__token").unwrap(), "tok");
    assert_eq!(spec.env.get("A").unwrap(), "b");
    assert_eq!(spec.env.len(), 2);
}

#[test]
fn configured_environment_wins_over_the_token() {
    let mut cfg = server(None);
    cfg.environment.insert("ROBUST_CVAR_watchdog__token".to_string(), "mine".to_string());
    cfg.run_command = Some("./run.sh".to_string());
    let s = Supervisor::spawn("main".to_string(), cfg, "u".to_string());
    let spec = s.build_spec("7");
    assert_eq!(spec.env.get("ROBUST_CVAR_watchdog__token").unwrap(), "mine");
    assert_eq!(spec.program, "./run.sh");
}

#[test]
fn crash_waits_and_comes_back() {
    let s = running(None, 0);
    let (s, r) = step(s, crash(), 2 * SEC);
    let note = r.note.unwrap();
    assert!(is_kind(note.kind(), "crashed"));
    assert_eq!(note.detail(), "status=exit status: 1 uptime_s=2");
    match s.status(2 * SEC) {
        Status::Backoff { wait_secs, failures } => assert_eq!((wait_secs, failures), (1, 1)),
        _ => panic!("no backoff"),
    }
    assert!(matches!(s.action(), Action::AwaitCommandUntil { until } if until == 3 * SEC as u128));
    let (s, _) = step(s, Event::WaitOver, 3 * SEC);
    assert!(matches!(s.action(), Action::ReadVersion));
    let (s, _) = step(s, row("1"), 3 * SEC);
    let (s, _) = step(s, row("1"), 3 * SEC);
    let (s, _) = step(s, Event::Spawned(Ok(78)), 3 * SEC);
    let (s, _) = step(s, crash(), 4 * SEC);
    assert!(matches!(s.status(4 * SEC), Status::Backoff { wait_secs: 2, failures: 2 }));
}

#[test]
fn healthy_server_starts_counting_anew() {
    let mut s = running(None, 0);
    s.failures = 5;
    let (s, _) = step(s, crash(), 30 * SEC);
    assert!(matches!(s.status(30 * SEC), Status::Backoff { wait_secs: 1, failures: 1 }));
}

#[test]
fn clean_exit_restarts_at_once() {
    let mut s = running(None, 0);
    s.failures = 5;
    let (s, r) = step(s, clean(), SEC);
    let note = r.note.unwrap();
    assert!(is_kind(note.kind(), "clean_exit"));
    assert_eq!(note.detail(), "status=exit status: 0 uptime_s=1");
    assert_eq!(s.failures, 0);
    assert!(matches!(s.action(), Action::ReadVersion));
}

#[test]
fn failed_wait_backs_off_but_is_no_crash() {
    let s = running(None, 0);
    let (s, r) = step(s, Event::Exited(ExitReport::IoError), SEC);
    let note = r.note.unwrap();
    assert!(is_kind(note.kind(), "wait_failed"));
    assert_eq!(note.detail(), "io_error uptime_s=1");
    assert!(matches!(s.status(SEC), Status::Backoff { wait_secs: 1, failures: 1 }));
}

#[test]
fn stop_asks_first_and_then_kills() {
    let s = running(Some(1212), 0);
    let (s, r) = step(s, Event::Command(Command::Stop), SEC);
    let note = r.note.unwrap();
    assert!(is_kind(note.kind(), "admin"));
    assert_eq!(note.detail(), "stop");
    assert!(r.answer.is_none());
    match s.action() {
        Action::PostShutdown { notice } => {
            assert_eq!(notice.url, "http://127.0.0.1:1212/shutdown");
            assert_eq!(notice.token, "tok");
            assert_eq!(notice.reason.unwrap(), "Stop requested by operator");
        }
        _ => panic!("not asked"),
    }
    let (s, _) = step(s, Event::Answered(true), SEC);
    assert!(matches!(s.action(), Action::AwaitExit { secs: 15 }));
    let (s, _) = step(s, Event::GraceOver, 16 * SEC);
    assert!(matches!(s.action(), Action::Kill));
    let (s, r) = step(s, clean(), 16 * SEC);
    assert!(matches!(r.answer, Some(Answer::Done)));
    assert!(r.note.is_none());
    assert!(matches!(s.action(), Action::AwaitCommand));
    // Nothing but a command wakes it.
    let (s, r) = s.step(Event::WaitOver, 99 * SEC);
    assert!(r.is_none());
    let (s, r) = step(s, Event::Command(Command::Kill), 99 * SEC);
    assert!(matches!(r.answer, Some(Answer::Done)));
    assert!(matches!(s.action(), Action::AwaitCommand));
}

#[test]
fn refusal_to_leave_is_met_with_a_kill() {
    let s = running(Some(1212), 0);
    let (s, _) = step(s, Event::Command(Command::Restart), SEC);
    match s.action() {
        Action::PostShutdown { notice } => {
            assert_eq!(notice.reason.unwrap(), "Restart requested by operator")
        }
        _ => panic!("not asked"),
    }
    let (s, _) = step(s, Event::Answered(false), SEC);
    assert!(matches!(s.action(), Action::Kill));
    let (s, r) = step(s, crash(), SEC);
    assert!(matches!(r.answer, Some(Answer::Done)));
    assert!(matches!(s.action(), Action::ReadVersion));
}

#[test]
fn server_without_a_port_is_killed_at_once() {
    let s = running(None, 0);
    let (s, _) = step(s, Event::Command(Command::Stop), SEC);
    assert!(matches!(s.status(SEC), Status::Stopping));
    assert!(matches!(s.action(), Action::Kill));
}

#[test]
fn force_restart_never_asks() {
    let s = running(Some(1212), 0);
    let (s, r) = step(s, Event::Command(Command::ForceRestart), SEC);
    assert_eq!(r.note.unwrap().detail(), "force_restart");
    assert!(matches!(s.action(), Action::Kill));
}

#[test]
fn stop_during_backoff_keeps_it_down() {
    let s = running(None, 0);
    let (s, _) = step(s, crash(), SEC);
    let (s, r) = step(s, Event::Command(Command::Stop), SEC);
    assert!(matches!(r.answer, Some(Answer::Done)));
    assert!(matches!(s.status(SEC), Status::Stopped));
    assert!(matches!(s.action(), Action::AwaitCommand));
    let (s, r) = s.step(Event::WaitOver, 9 * SEC);
    assert!(r.is_none());
    let (s, _) = step(s, Event::Command(Command::Restart), 9 * SEC);
    assert!(matches!(s.action(), Action::ReadVersion));
}

#[test]
fn kill_during_backoff_ends_the_wait() {
    let s = running(None, 0);
    let (s, _) = step(s, crash(), SEC);
    let (s, r) = step(s, Event::Command(Command::Kill), SEC);
    assert!(matches!(r.answer, Some(Answer::Done)));
    assert!(matches!(s.action(), Action::ReadVersion));
    let (s, _) = step(s, row("1"), SEC);
    let (s, _) = step(s, row("1"), SEC);
    assert!(matches!(s.action(), Action::Spawn { .. }));
}

#[test]
fn kill_of_a_failed_server_tries_again() {
    let (s, _) = step(fresh(None), Event::VersionRead(Err("locked".to_string())), 0);
    assert!(matches!(s.status(0), Status::Failed { .. }));
    let (s, r) = step(s, Event::Command(Command::Kill), 0);
    assert!(matches!(r.answer, Some(Answer::Done)));
    assert!(matches!(s.action(), Action::ReadVersion));
}

#[test]
fn shutdown_is_final() {
    let s = running(None, 0);
    let (s, _) = step(s, Event::Command(Command::Shutdown), SEC);
    let (s, r) = step(s, clean(), SEC);
    assert!(matches!(r.answer, Some(Answer::Done)));
    assert!(matches!(s.action(), Action::Finish));
    assert!(matches!(s.status(SEC), Status::Stopped));
    let (s, r) = s.step(Event::Command(Command::Restart), SEC);
    assert!(r.is_none());
    assert!(matches!(s.action(), Action::Finish));
}

#[test]
fn abandoned_supervisor_ends() {
    let s = running(Some(1212), 0);
    let (s, _) = step(s, Event::Abandoned, SEC);
    match s.action() {
        Action::PostShutdown { notice } => {
            assert_eq!(notice.reason.unwrap(), "Watchdog shutting down")
        }
        _ => panic!("not asked"),
    }
    let (s, _) = step(s, Event::Answered(true), SEC);
    let (s, r) = step(s, clean(), SEC);
    assert!(r.answer.is_none());
    assert!(matches!(s.action(), Action::Finish));
}

#[test]
fn update_leaves_a_running_server_alone() {
    let s = running(Some(1212), 0);
    let (s, r) = step(s, Event::Command(Command::Update), SEC);
    assert_eq!(r.note.unwrap().detail(), "update");
    let (s, _) = step(s, row("1"), SEC);
    match s.action() {
        Action::CheckForUpdates { current } => assert_eq!(current.unwrap(), "1"),
        _ => panic!("not checked"),
    }
    let (s, _) = step(s, Event::UpdateChecked(true), SEC);
    match s.action() {
        Action::PostUpdate { notice } => {
            assert_eq!(notice.url, "http://127.0.0.1:1212/update");
            assert!(notice.reason.is_none());
        }
        _ => panic!("not told"),
    }
    assert!(matches!(s.status(SEC), Status::Running { .. }));
    let (s, r) = step(s, Event::Answered(true), SEC);
    match r.answer {
        Some(Answer::Update(v)) => {
            assert!(matches!(v.outcome(), UpdateOutcome::Notified { notification_sent: true }))
        }
        _ => panic!("no outcome"),
    }
    assert!(matches!(s.action(), Action::Watch));
    // The queued build is installed before the next start.
    let (s, _) = step(s, clean(), 2 * SEC);
    assert!(matches!(s.status(2 * SEC), Status::Updating));
    let (s, _) = step(s, row("1"), 2 * SEC);
    match s.action() {
        Action::MakeDirectory { path } => assert_eq!(text(&path), "./instances/main"),
        _ => panic!("no directory"),
    }
    let (s, _) = step(s, Event::DirectoryReady(Ok(())), 2 * SEC);
    match s.action() {
        Action::RunUpdate { current, path } => {
            assert_eq!(current.unwrap(), "1");
            assert_eq!(text(&path), "./instances/main/bin");
        }
        _ => panic!("not installed"),
    }
    let (s, _) = step(s, Event::UpdateRan(Some("2".to_string())), 2 * SEC);
    assert!(matches!(s.action(), Action::UpdateVersion { version } if version == "2"));
    let (s, _) = step(s, Event::VersionSaved(Ok(())), 2 * SEC);
    let (s, _) = step(s, row("2"), 2 * SEC);
    let (s, _) = step(s, row("2"), 2 * SEC);
    match s.action() {
        Action::Spawn { spec } => assert_eq!(spec.version, "2"),
        _ => panic!("not started"),
    }
}

#[test]
fn update_without_a_newer_build_does_nothing() {
    let s = running(None, 0);
    let (s, _) = step(s, crash(), SEC);
    let (s, _) = step(s, Event::Command(Command::Update), SEC);
    let (s, _) = step(s, row("1"), SEC);
    let (s, r) = step(s, Event::UpdateChecked(false), SEC);
    assert!(matches!(r.answer, Some(Answer::Update(Verdict::NoUpdate))));
    assert!(matches!(s.action(), Action::AwaitCommandUntil { .. }));
}

#[test]
fn update_of_a_stopped_server_installs_and_starts() {
    let s = running(None, 0);
    let (s, _) = step(s, Event::Command(Command::Kill), SEC);
    let (s, _) = step(s, clean(), SEC);
    let (s, _) = step(s, Event::Command(Command::Update), SEC);
    let (s, _) = step(s, row("1"), SEC);
    let (s, _) = step(s, Event::UpdateChecked(true), SEC);
    assert!(matches!(s.status(SEC), Status::Updating));
    let (s, _) = step(s, row("1"), SEC);
    let (s, _) = step(s, Event::DirectoryReady(Ok(())), SEC);
    let (s, r) = step(s, Event::UpdateRan(Some("2".to_string())), SEC);
    assert!(r.answer.is_none());
    assert!(matches!(s.action(), Action::UpdateVersion { version } if version == "2"));
    let (s, r) = step(s, Event::VersionSaved(Ok(())), SEC);
    assert!(matches!(r.answer, Some(Answer::Update(Verdict::Applied))));
    assert!(matches!(s.action(), Action::ReadVersion));
}

fn reason(answer: Option<Answer>) -> String {
    match answer {
        Some(Answer::Update(v)) => match v.outcome() {
            UpdateOutcome::Failed { reason } => reason,
            _ => panic!("not failed"),
        },
        _ => panic!("no outcome"),
    }
}

#[test]
fn update_that_installs_nothing_has_failed() {
    let s = running(None, 0);
    let (s, _) = step(s, Event::Command(Command::Kill), SEC);
    let (s, _) = step(s, clean(), SEC);
    let (s, _) = step(s, Event::Command(Command::Update), SEC);
    let (s, _) = step(s, row("1"), SEC);
    let (s, _) = step(s, Event::UpdateChecked(true), SEC);
    let (s, _) = step(s, row("1"), SEC);
    let (s, _) = step(s, Event::DirectoryReady(Ok(())), SEC);
    let (s, r) = step(s, Event::UpdateRan(None), SEC);
    assert_eq!(reason(r.answer), "update produced no new version");
    assert!(matches!(s.status(SEC), Status::Updating));
    assert!(matches!(s.action(), Action::AwaitCommand));
}

#[test]
fn failed_update_ends_a_wait() {
    let s = running(None, 0);
    let (s, _) = step(s, crash(), SEC);
    let (s, _) = step(s, Event::Command(Command::Update), SEC);
    let (s, r) = step(s, Event::VersionRead(Err("locked".to_string())), SEC);
    assert_eq!(reason(r.answer), "locked");
    assert!(matches!(s.action(), Action::ReadVersion));
    let (s, _) = step(s, row("1"), SEC);
    let (s, _) = step(s, row("1"), SEC);
    assert!(matches!(s.action(), Action::Spawn { .. }));
    // The failure before it still counts.
    let (s, _) = step(s, Event::Spawned(Ok(78)), SEC);
    let (s, _) = step(s, crash(), SEC);
    assert!(matches!(s.status(SEC), Status::Backoff { wait_secs: 2, failures: 2 }));
}

#[test]
fn failed_update_of_a_failed_server_tries_a_start() {
    let (s, _) = step(fresh(None), Event::VersionRead(Err("locked".to_string())), 0);
    let (s, _) = step(s, Event::Command(Command::Update), 0);
    let (s, _) = step(s, row("1"), 0);
    let (s, _) = step(s, Event::UpdateChecked(true), 0);
    let (s, _) = step(s, row("1"), 0);
    let (s, r) = step(s, Event::DirectoryReady(Err("denied".to_string())), 0);
    assert_eq!(reason(r.answer), "create instance dir: denied");
    assert!(matches!(s.status(0), Status::Updating));
    assert!(matches!(s.action(), Action::ReadVersion));
}

#[test]
fn failed_update_leaves_a_stopped_server_down() {
    let s = running(None, 0);
    let (s, _) = step(s, Event::Command(Command::Stop), SEC);
    let (s, _) = step(s, clean(), SEC);
    let (s, _) = step(s, Event::Command(Command::Update), SEC);
    let (s, r) = step(s, Event::VersionRead(Err("locked".to_string())), SEC);
    assert_eq!(reason(r.answer), "locked");
    assert!(matches!(s.action(), Action::AwaitCommand));
}

#[test]
fn failures_to_install_are_told() {
    let (s, _) = step(fresh(None), Event::VersionRead(Ok(None)), 0);
    let (s, _) = step(s, Event::VersionRead(Ok(None)), 0);
    let (s, _) = step(s, Event::DirectoryReady(Err("denied".to_string())), 0);
    match s.status(0) {
        Status::Failed { reason } => assert_eq!(reason, "create instance dir: denied"),
        _ => panic!("not failed"),
    }
    let (s, _) = step(s, Event::Command(Command::Restart), 0);
    let (s, _) = step(s, Event::VersionRead(Ok(None)), 0);
    let (s, _) = step(s, Event::VersionRead(Ok(None)), 0);
    let (s, _) = step(s, Event::DirectoryReady(Ok(())), 0);
    let (s, _) = step(s, Event::UpdateRan(None), 0);
    match s.status(0) {
        Status::Failed { reason } => {
            assert_eq!(reason, "no version installed and update produced none")
        }
        _ => panic!("not failed"),
    }
    let (s, _) = step(s, Event::Command(Command::Restart), 0);
    let (s, _) = step(s, Event::VersionRead(Ok(None)), 0);
    let (s, _) = step(s, Event::VersionRead(Ok(None)), 0);
    let (s, _) = step(s, Event::DirectoryReady(Ok(())), 0);
    let (s, _) = step(s, Event::UpdateRan(Some("1".to_string())), 0);
    assert!(matches!(s.action(), Action::CreateVersion { version } if version == "1"));
}

#[test]
fn failures_to_start_are_told() {
    let (s, _) = step(fresh(None), row("1"), 0);
    let (s, _) = step(s, Event::VersionRead(Err("locked".to_string())), 0);
    match s.status(0) {
        Status::Failed { reason } => assert_eq!(reason, "db error: locked"),
        _ => panic!("not failed"),
    }
    let (s, _) = step(s, Event::Command(Command::Restart), 0);
    let (s, _) = step(s, row("1"), 0);
    let (s, _) = step(s, Event::VersionRead(Ok(None)), 0);
    match s.status(0) {
        Status::Failed { reason } => assert_eq!(reason, "no version installed"),
        _ => panic!("not failed"),
    }
    let (s, _) = step(s, Event::Command(Command::ForceRestart), 0);
    let (s, _) = step(s, row("1"), 0);
    let (s, _) = step(s, row("1"), 0);
    let (s, r) = step(s, Event::Spawned(Err("no such file".to_string())), 0);
    let note = r.note.unwrap();
    assert!(is_kind(note.kind(), "spawn_failed"));
    assert_eq!(note.detail(), "no such file");
    assert!(matches!(s.status(0), Status::Failed { reason } if reason == "no such file"));
}

#[test]
fn silent_server_is_killed_after_the_timeout() {
    let s = running(None, 0);
    // It has half a minute at least, and the timeout, to send its first ping.
    let (s, r) = step(s, Event::Tick, 59 * SEC);
    assert!(r.note.is_none());
    assert!(matches!(s.action(), Action::Watch));
    let s = s.record_ping(59 * SEC);
    let (s, _) = step(s, Event::Tick, 118 * SEC);
    assert!(matches!(s.action(), Action::Watch));
    let (s, r) = step(s, Event::Tick, 119 * SEC);
    let note = r.note.unwrap();
    assert!(is_kind(note.kind(), "heartbeat_lost"));
    assert_eq!(note.detail(), "uptime_s=119");
    assert!(matches!(s.action(), Action::Kill));
    let (s, r) = step(s, crash(), 120 * SEC);
    assert!(r.note.is_none());
    assert!(matches!(s.status(120 * SEC), Status::Backoff { wait_secs: 1, failures: 1 }));
}

#[test]
fn timeout_of_zero_never_kills() {
    let mut cfg = server(None);
    cfg.heartbeat_timeout = 0;
    let s = Supervisor::spawn("main".to_string(), cfg, "u".to_string());
    let (s, _) = step(s, row("1"), 0);
    let (s, _) = step(s, row("1"), 0);
    let (s, _) = step(s, Event::Spawned(Ok(1)), 0);
    let (s, _) = step(s, Event::Tick, 1_000_000 * SEC);
    assert!(matches!(s.action(), Action::Watch));
}

#[test]
fn reload_does_not_shift_the_timeout_of_a_running_server() {
    let s = running(None, 0);
    let mut cfg = server(None);
    cfg.heartbeat_timeout = 1;
    let s = s.apply_config(cfg);
    let (s, _) = step(s, Event::Tick, 50 * SEC);
    assert!(matches!(s.action(), Action::Watch));
    let (s, _) = step(s, Event::Tick, 60 * SEC);
    assert!(matches!(s.action(), Action::Kill));
}

#[test]
fn reload_leaves_token_and_port_of_a_running_server() {
    let s = running(Some(1212), 0);
    let mut cfg = server(Some(3434));
    cfg.api.token = "new".to_string();
    let s = s.apply_config(cfg);
    assert_eq!(s.api_token(), "tok");
    let (s, _) = step(s, Event::Command(Command::Update), SEC);
    let (s, _) = step(s, row("1"), SEC);
    let (s, _) = step(s, Event::UpdateChecked(true), SEC);
    match s.action() {
        Action::PostUpdate { notice } => {
            assert_eq!(notice.url, "http://127.0.0.1:1212/update");
            assert_eq!(notice.token, "tok");
        }
        _ => panic!("not told"),
    }
    let (s, _) = step(s, Event::Answered(true), SEC);
    let (s, _) = step(s, Event::Command(Command::Stop), SEC);
    match s.action() {
        Action::PostShutdown { notice } => {
            assert_eq!(notice.url, "http://127.0.0.1:1212/shutdown");
            assert_eq!(notice.token, "tok");
        }
        _ => panic!("not asked"),
    }
    let (s, _) = step(s, Event::Answered(true), SEC);
    let (s, _) = step(s, clean(), SEC);
    assert_eq!(s.api_token(), "new");
}

#[test]
fn reload_counts_at_the_next_start() {
    let s = running(Some(1212), 0);
    let mut cfg = server(Some(3434));
    cfg.api.token = "new".to_string();
    let s = s.apply_config(cfg);
    let (s, _) = step(s, Event::Command(Command::ForceRestart), SEC);
    let (s, _) = step(s, crash(), SEC);
    let (s, _) = step(s, row("1"), SEC);
    let (s, _) = step(s, row("1"), SEC);
    match s.action() {
        Action::Spawn { spec } => {
            assert_eq!(spec.env.get("ROBUST_CVAR_watchdog__token").unwrap(), "new")
        }
        _ => panic!("not started"),
    }
    let (s, _) = step(s, Event::Spawned(Ok(78)), SEC);
    let (s, _) = step(s, Event::Command(Command::Restart), SEC);
    match s.action() {
        Action::PostShutdown { notice } => {
            assert_eq!(notice.url, "http://127.0.0.1:3434/shutdown")
        }
        _ => panic!("not asked"),
    }
}

#[test]
fn backoff_doubles_up_to_the_ceiling() {
    assert_eq!(backoff(1, 60, 0), 1);
    assert_eq!(backoff(1, 60, 1), 1);
    assert_eq!(backoff(1, 60, 2), 2);
    assert_eq!(backoff(1, 60, 6), 32);
    assert_eq!(backoff(1, 60, 7), 60);
    assert_eq!(backoff(0, 0, 9), 1);
    assert_eq!(backoff(90, 60, 1), 90);
    assert_eq!(backoff(1, u64::MAX, 21), 1 << 20);
    assert_eq!(backoff(1, u64::MAX, u32::MAX), 1 << 20);
    assert_eq!(backoff(u64::MAX, u64::MAX, 5), u64::MAX);
}

#[test]
fn status_rounds_down() {
    let s = InternalState::Backoff { until: 5 * SEC as u128, failures: 3 };
    assert!(matches!(
        snapshot(&s, None, SEC + 1),
        Status::Backoff { wait_secs: 3, failures: 3 }
    ));
    assert_eq!(remaining(3, 9), 0);
    assert_eq!(remaining(u128::MAX, 0), u64::MAX);
    let s = InternalState::Running { pid: 1, started_at: 9 * SEC, version: "v".to_string() };
    match snapshot(&s, Some(SEC), 3 * SEC) {
        Status::Running { uptime_secs, last_ping_secs_ago, .. } => {
            assert_eq!(uptime_secs, 0);
            assert_eq!(last_ping_secs_ago, Some(2));
        }
        _ => panic!("not running"),
    }
}

#[test]
fn words_of_failures_and_notes() {
    assert_eq!(Failure::NoVersion.text(), "no version installed");
    assert_eq!(Failure::Lookup("x".to_string()).text(), "db error: x");
    assert_eq!(Failure::Reported("x".to_string()).text(), "x");
    assert_eq!(Command::Shutdown.name(), "shutdown");
    assert_eq!(Note::Admin(Command::ForceRestart).detail(), "force_restart");
    assert_eq!(SupervisorError::TaskGone.message(), "supervisor task is not running");
    let v = Verdict::Failed(Failure::NothingInstalled);
    match v.outcome() {
        UpdateOutcome::Failed { reason } => {
            assert_eq!(reason, "no version installed and update produced none")
        }
        _ => panic!("no failure"),
    }
}

#[test]
fn silence_is_by_key() {
    let s = fresh(None);
    let mut silenced = SilenceRegistry::new();
    assert!(!s.is_silent(&silenced));
    s.set_silent(&mut silenced, true);
    assert!(s.is_silent(&silenced));
    s.set_silent(&mut silenced, false);
    assert!(!s.is_silent(&silenced));
}

#[test]
fn directories_of_an_instance() {
    assert_eq!(INSTANCE_ROOT, "./instances");
    assert_eq!(text(&instance_dir("main")), "./instances/main");
    assert_eq!(text(&instance_bin_dir("main")), "./instances/main/bin");
    assert_eq!(text(&instance_dir("/abs")), "/abs");
}
