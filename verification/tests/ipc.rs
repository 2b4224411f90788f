use rufa::config::loader::load_from_str;
use rufa::config::model::Config;
use rufa::ipc::info::gather_info;
use rufa::ipc::lock::{
    allocate_socket_path, answers_ping, default_watch_from, default_watch_text, lock_file_path,
    lock_tmp_path, message_of_line, socket_path_for, wait_step, LockInfo, WaitStep,
};
use rufa::ipc::protocol::{
    BehaviorKind, ClientCommand, ConfigureRequest, InfoRequest, KillRequest, RefreshCommand,
    RefreshMode, RestartRequest, RunRequest, ServerResponse, StartTargetsRequest,
    WatchPreferenceKind,
};
use rufa::ipc::server::{runner_settings, Connection, ServerAction, ServerEvent};
use rufa::names::NameMap;
use rufa::runner::supervisor::{Runner, WatchRoots};
use rufa::state::{ExitStatus, TargetState};
use rufa::time::Timestamp;

const SAMPLE: &str = r#"
[target.api]
type = "bash"
kind = "service"
command = "serve"
refresh_watch_type = "RUFA"
port.http.type = "http"
port.http.auto = true
port.debug.type = "tcp"
port.debug.auto = true

[target.db]
type = "bash"
kind = "service"
command = "db"

[target.job]
type = "bash"
kind = "job"
command = "job"

[target.both]
type = "composite"
targets = ["api", "db"]
"#;

fn config() -> Config {
    load_from_str("/w/rufa.toml", false, SAMPLE).expect("configuration")
}

fn roots() -> WatchRoots {
    WatchRoots {
        base: "/w".to_string(),
        canonical: NameMap::new(),
    }
}

fn loaded() -> ServerEvent {
    ServerEvent::ConfigLoaded {
        config: config(),
        roots: roots(),
    }
}

fn strings(list: &[&str]) -> Vec<String> {
    list.iter().map(|item| item.to_string()).collect()
}

fn runner() -> Runner {
    let mut runner = Runner::new("/w/rufa.toml".to_string(), true, 3, None, &vec![]);
    let mut ports: NameMap<u16> = NameMap::new();
    ports.insert("http".to_string(), 8080);
    ports.insert("debug".to_string(), 5005);
    ports.insert("extra".to_string(), 1);
    runner.record_spawn("api", 2, &ports, false, true, Some(42));
    let none: NameMap<u16> = NameMap::new();
    runner.record_spawn("db", 1, &none, false, true, Some(43));
    let exit = ExitStatus {
        code: Some(1),
        signal: None,
        when: Timestamp::new(0, 0).unwrap(),
    };
    runner.record_exit("db", Some(exit), &none);
    runner.mark_target_running("api");
    runner
}

#[test]
fn info_tells_every_unit_once() {
    let info = gather_info(&runner(), &config(), &vec![]);
    assert!(info.refresh_target_on_change_enabled);
    assert_eq!(info.running.len(), 1);
    let api = &info.running[0];
    assert_eq!(api.name, "api");
    assert_eq!(api.kind, BehaviorKind::Service);
    assert_eq!(api.config.driver, "bash");
    assert_eq!(api.config.refresh_watch_type, WatchPreferenceKind::Rufa);
    assert_eq!(api.current.pid, Some(42));
    let ports: Vec<(&str, Option<&str>, bool, Option<&str>)> = api
        .current
        .ports
        .iter()
        .map(|port| {
            (
                port.name.as_str(),
                port.protocol.as_deref(),
                port.is_debug,
                port.url.as_deref(),
            )
        })
        .collect();
    assert_eq!(
        ports,
        vec![
            ("debug", Some("tcp"), true, None),
            ("extra", None, false, None),
            ("http", Some("http"), false, Some("http://127.0.0.1:8080")),
        ]
    );
    assert_eq!(api.control.as_ref().unwrap().desired_state, "running");
    assert_eq!(info.stopped.len(), 1);
    let db = &info.stopped[0];
    assert_eq!(db.name, "db");
    let last = db.last.as_ref().unwrap();
    assert_eq!(last.generation, 1);
    assert_eq!(last.exit.as_ref().unwrap().code, Some(1));
    assert_eq!(
        last.exit.as_ref().unwrap().at.as_deref(),
        Some("1970-01-01T00:00:00+00:00")
    );
    let names: Vec<&str> = info.available.iter().map(|target| target.name.as_str()).collect();
    assert_eq!(names, vec!["job"]);
}

#[test]
fn info_can_be_asked_about_some_targets() {
    let info = gather_info(&runner(), &config(), &strings(&["API", "Job"]));
    assert_eq!(info.running.len(), 1);
    assert!(info.stopped.is_empty());
    assert_eq!(info.available.len(), 1);
}

#[test]
fn ping_is_acknowledged() {
    let mut runner = runner();
    let mut connection = Connection::new();
    assert_eq!(
        connection.advance(&mut runner, ServerEvent::Received(ClientCommand::Ping)),
        ServerAction::Respond(ServerResponse::Ack)
    );
}

#[test]
fn start_request_turns_watching_on() {
    let mut runner = runner();
    let mut connection = Connection::new();
    let request = StartTargetsRequest {
        targets: strings(&["api"]),
    };
    assert_eq!(
        connection.advance(
            &mut runner,
            ServerEvent::Received(ClientCommand::StartTargets(request))
        ),
        ServerAction::LoadConfig
    );
    match connection.advance(&mut runner, loaded()) {
        ServerAction::EnableWatch(spec) => assert_eq!(spec.services.keys(), strings(&["api"])),
        other => panic!("unexpected {other:?}"),
    }
    assert_eq!(
        connection.advance(&mut runner, ServerEvent::WatchChanged { failed: false }),
        ServerAction::Respond(ServerResponse::Ack)
    );
}

#[test]
fn failed_watching_leaves_a_start_without_answer() {
    let mut runner = runner();
    let mut connection = Connection::new();
    let request = RunRequest {
        targets: strings(&["api"]),
        watch: None,
    };
    connection.advance(&mut runner, ServerEvent::Received(ClientCommand::Run(request)));
    connection.advance(&mut runner, loaded());
    assert_eq!(
        connection.advance(&mut runner, ServerEvent::WatchChanged { failed: true }),
        ServerAction::Close
    );
    let mut connection = Connection::new();
    let request = RestartRequest {
        targets: strings(&["api"]),
        all: false,
    };
    connection.advance(&mut runner, ServerEvent::Received(ClientCommand::Restart(request)));
    connection.advance(&mut runner, loaded());
    assert_eq!(
        connection.advance(&mut runner, ServerEvent::WatchChanged { failed: true }),
        ServerAction::Respond(ServerResponse::Ack)
    );
}

#[test]
fn unknown_target_is_answered_with_an_error() {
    let mut runner = runner();
    let mut connection = Connection::new();
    let request = StartTargetsRequest {
        targets: strings(&["gone"]),
    };
    connection.advance(
        &mut runner,
        ServerEvent::Received(ClientCommand::StartTargets(request)),
    );
    assert_eq!(
        connection.advance(&mut runner, loaded()),
        ServerAction::Respond(ServerResponse::Error(
            "target gone not found in configuration".to_string()
        ))
    );
}

#[test]
fn question_without_configuration_fails() {
    let mut runner = runner();
    let mut connection = Connection::new();
    let request = InfoRequest { targets: vec![] };
    connection.advance(&mut runner, ServerEvent::Received(ClientCommand::Info(request)));
    assert_eq!(
        connection.advance(
            &mut runner,
            ServerEvent::ConfigFailed {
                message: "no file".to_string()
            }
        ),
        ServerAction::Respond(ServerResponse::Error(
            "failed to load configuration: no file".to_string()
        ))
    );
}

#[test]
fn refresh_setting_is_taken_and_written() {
    let mut runner = runner();
    let mut connection = Connection::new();
    let command = ClientCommand::Refresh(RefreshCommand::SetMode {
        mode: RefreshMode::Off,
    });
    assert_eq!(
        connection.advance(&mut runner, ServerEvent::Received(command)),
        ServerAction::WriteSetting { refresh: false }
    );
    assert!(!runner.refresh_on_change);
    assert_eq!(
        connection.advance(&mut runner, ServerEvent::SettingWritten),
        ServerAction::Respond(ServerResponse::Ack)
    );
    let mut connection = Connection::new();
    let request = ConfigureRequest {
        default_watch: Some(true),
    };
    connection.advance(&mut runner, ServerEvent::Received(ClientCommand::Configure(request)));
    assert!(runner.refresh_on_change);
}

#[test]
fn nothing_stale_is_acknowledged() {
    let mut runner = runner();
    let mut connection = Connection::new();
    let command = ClientCommand::Refresh(RefreshCommand::RestartStaleTargets);
    assert_eq!(
        connection.advance(&mut runner, ServerEvent::Received(command)),
        ServerAction::LoadConfig
    );
    assert_eq!(
        connection.advance(&mut runner, loaded()),
        ServerAction::Respond(ServerResponse::Ack)
    );
}

#[test]
fn only_stop_shuts_the_server_down() {
    let mut runner = runner();
    let mut connection = Connection::new();
    assert_eq!(
        connection.advance(&mut runner, ServerEvent::Received(ClientCommand::Stop)),
        ServerAction::EndAllTargets
    );
    assert_eq!(
        connection.advance(&mut runner, ServerEvent::TargetsEnded { error: None }),
        ServerAction::DisableWatch
    );
    assert_eq!(
        connection.advance(&mut runner, ServerEvent::WatchChanged { failed: false }),
        ServerAction::RespondAndShutDown
    );
    let mut connection = Connection::new();
    let request = KillRequest {
        targets: strings(&["api"]),
    };
    assert_eq!(
        connection.advance(&mut runner, ServerEvent::Received(ClientCommand::Kill(request))),
        ServerAction::EndTargets(strings(&["api"]))
    );
    assert_eq!(
        connection.advance(
            &mut runner,
            ServerEvent::TargetsEnded {
                error: Some("stuck".to_string())
            }
        ),
        ServerAction::Respond(ServerResponse::Error("stuck".to_string()))
    );
    let mut connection = Connection::new();
    assert_eq!(
        connection.advance(&mut runner, ServerEvent::NothingRead),
        ServerAction::Close
    );
}

#[test]
fn sockets_have_their_own_paths() {
    assert_eq!(socket_path_for("x"), ".rufa/rufa-x.sock");
    let first = allocate_socket_path();
    let second = allocate_socket_path();
    assert_ne!(first, second);
    assert_eq!(first.len(), ".rufa/rufa-.sock".len() + 36);
    assert!(first.starts_with(".rufa/rufa-"));
    assert_eq!(lock_file_path(), ".rufa.lock");
    assert_eq!(lock_tmp_path(), ".rufa.tmp");
}

#[test]
fn lock_keeps_the_setting() {
    let mut info = LockInfo {
        pid: 1,
        socket_path: "s".to_string(),
        refresh_target_on_change: false,
    };
    info.update_refresh_target_on_change(true);
    assert!(info.refresh_target_on_change);
    assert_eq!(info.socket_path(), "s");
}

#[test]
fn supervisor_is_reached_by_a_ping() {
    assert!(answers_ping(Some(&ServerResponse::Ack)));
    assert!(!answers_ping(Some(&ServerResponse::Error("x".to_string()))));
    assert!(!answers_ping(None));
    assert_eq!(wait_step(true, 9000, 5000), WaitStep::Done);
    assert_eq!(wait_step(false, 5000, 5000), WaitStep::TimedOut);
    assert_eq!(wait_step(false, 10, 5000), WaitStep::LookAgain { millis: 100 });
    assert_eq!(message_of_line(0, "x"), None);
    assert_eq!(message_of_line(4, " x \n"), Some("x".to_string()));
}

#[test]
fn setting_reaches_a_new_supervisor() {
    for refresh in [true, false] {
        assert_eq!(default_watch_from(Some(&default_watch_text(refresh))), refresh);
    }
    assert!(default_watch_from(Some("YES")));
    assert!(!default_watch_from(Some("on")));
    assert!(!default_watch_from(None));
}

#[test]
fn missing_configuration_has_default_settings() {
    let (log, keep) = runner_settings(None);
    assert_eq!(log.file, "rufa.log");
    assert_eq!(keep, 3);
    let (_, keep) = runner_settings(Some(&config()));
    assert_eq!(keep, config().run_history.keep_runs);
}

#[test]
fn runs_are_watched_as_they_ask() {
    let run = |refresh: bool, watch: Option<bool>| {
        let mut runner = runner();
        runner.refresh_on_change = refresh;
        let mut connection = Connection::new();
        let request = RunRequest {
            targets: strings(&["api"]),
            watch,
        };
        assert_eq!(
            connection.advance(&mut runner, ServerEvent::Received(ClientCommand::Run(request))),
            ServerAction::LoadConfig
        );
        match connection.advance(&mut runner, loaded()) {
            ServerAction::EnableWatch(_) => true,
            ServerAction::DisableWatch => false,
            other => panic!("unexpected {other:?}"),
        }
    };
    assert!(run(true, None));
    assert!(!run(false, None));
    assert!(run(false, Some(true)));
    assert!(!run(true, Some(false)));
}

#[test]
fn stale_targets_without_configuration() {
    let failed = || ServerEvent::ConfigFailed {
        message: "no file".to_string(),
    };
    let stale = || {
        ServerEvent::Received(ClientCommand::Refresh(RefreshCommand::RestartStaleTargets))
    };
    let mut runner = runner();
    let mut connection = Connection::new();
    connection.advance(&mut runner, stale());
    assert_eq!(
        connection.advance(&mut runner, failed()),
        ServerAction::Respond(ServerResponse::Ack)
    );
    let mut entry = TargetState::default();
    entry.pid = Some(7);
    entry.change_noticed_restart_necessary = true;
    runner.state.targets.insert("api".to_string(), entry);
    let mut connection = Connection::new();
    connection.advance(&mut runner, stale());
    assert_eq!(
        connection.advance(&mut runner, failed()),
        ServerAction::Respond(ServerResponse::Error("no file".to_string()))
    );
    let entry = runner.state.targets.get("api").unwrap();
    assert!(!entry.change_noticed_restart_necessary);
}
