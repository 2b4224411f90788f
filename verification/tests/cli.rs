use rufa::cli::args::{
    refresh_mode, shell_name, Cli, Command, CompletionShell, CompletionsArgs, DaemonStartArgs,
    InfoArgs, InitArgs, LogArgs, RefreshCliCommand, RefreshModeArg, RefreshSetArgs, RunArgs,
    StartArgs, TargetCommand, TargetRestartArgs, TargetStartArgs,
};
use rufa::cli::commands::{
    check_restart, decide, generation_map, redraw, reply_to, resolve_env_file,
    should_default_to_info, Asked, Reply, StartDecision,
};
use rufa::cli::dispatch::Conversation;
use rufa::cli::init::{
    gitignore_addition, missing_patterns, parse_answer, updated_gitignore, updated_guide,
    RUFA_TOML_TEMPLATE,
};
use rufa::cli::render::{
    format_exit_summary, format_generation_heading, format_info_response, format_port_summary,
    logs_to_read, write_restart_status, Display, LogContents, LogText,
};
use rufa::cli::session::{CliAction, CliEvent, DaemonStart, Request};
use rufa::cli::streams::{RunTargets, ShowInfo, ShowLogs, StartTargets};
use rufa::config::loader::load_from_str;
use rufa::ipc::protocol::{
    AvailableTargetSummary, BehaviorKind, ClientCommand, ControlStateSummary, ExitDetails,
    InfoRequest, InfoResponse, PortSummary, RefreshMode, RestartStatusSummary, RunHistorySummary,
    RunningTargetSummary, ServerResponse, StoppedTargetSummary, TargetConfigSummary,
    TargetGenerationSummary, TargetRunState, WatchPreferenceKind,
};
use rufa::names::NameMap;

fn strings(list: &[&str]) -> Vec<String> {
    list.iter().map(|item| item.to_string()).collect()
}

fn args(list: &[&str]) -> Vec<Option<String>> {
    list.iter().map(|item| Some(item.to_string())).collect()
}

fn sample_info() -> InfoResponse {
    let config = TargetConfigSummary {
        driver: "bash".to_string(),
        refresh_watch_type: WatchPreferenceKind::Rufa,
        watch_paths: strings(&["/w/src"]),
    };
    let other = TargetConfigSummary {
        driver: "bun".to_string(),
        refresh_watch_type: WatchPreferenceKind::Runtime,
        watch_paths: vec![],
    };
    InfoResponse {
        refresh_target_on_change_enabled: true,
        running: vec![RunningTargetSummary {
            name: "api".to_string(),
            kind: BehaviorKind::Service,
            config,
            current: TargetRunState {
                generation: 2,
                pid: Some(42),
                ports: vec![PortSummary {
                    name: "http".to_string(),
                    port: 8080,
                    protocol: Some("http".to_string()),
                    is_debug: false,
                    url: Some("http://127.0.0.1:8080".to_string()),
                }],
                refresh_pending: false,
                last_log: None,
                last_exit: None,
            },
            history: vec![],
            control: Some(ControlStateSummary {
                desired_state: "running".to_string(),
                action_plan: "idle".to_string(),
            }),
        }],
        stopped: vec![StoppedTargetSummary {
            name: "job".to_string(),
            kind: BehaviorKind::Job,
            config: other,
            last: Some(RunHistorySummary {
                generation: 7,
                last_log: None,
                exit: Some(ExitDetails {
                    code: Some(1),
                    signal: None,
                    at: Some("then".to_string()),
                }),
            }),
            history: vec![
                RunHistorySummary {
                    generation: 6,
                    last_log: None,
                    exit: None,
                },
                RunHistorySummary {
                    generation: 5,
                    last_log: None,
                    exit: None,
                },
            ],
            control: None,
        }],
        available: vec![AvailableTargetSummary {
            name: "db".to_string(),
            kind: BehaviorKind::Service,
        }],
        generations: vec![TargetGenerationSummary {
            name: "api".to_string(),
            generation: 2,
        }],
    }
}

fn sample_logs() -> Vec<LogText> {
    vec![
        LogText {
            target: "api".to_string(),
            generation: 2,
            contents: LogContents::Text(
                "1970-01-01T00:00:01.000Z | STDOUT  | hello\n".to_string(),
            ),
        },
        LogText {
            target: "job".to_string(),
            generation: 6,
            contents: LogContents::Failed("denied".to_string()),
        },
    ]
}

fn display() -> Display {
    Display {
        log_lines: 5,
        history_limit: 1,
        width: Some(60),
        colorize: false,
    }
}

#[test]
fn nothing_asked_shows_info() {
    assert!(should_default_to_info(&args(&["rufa"])));
    assert!(should_default_to_info(&args(&["rufa", "api", "-n", "3"])));
    assert!(!should_default_to_info(&args(&["rufa", "--help"])));
    assert!(!should_default_to_info(&args(&["rufa", "target", "start", "api"])));
    assert!(!should_default_to_info(&args(&["rufa", "-v", "log"])));
    assert!(should_default_to_info(&vec![Some("start".to_string()), None]));
    assert!(should_default_to_info(&vec![]));
}

#[test]
fn starting_depends_on_whether_it_runs() {
    assert_eq!(decide(true, true, false, None), StartDecision::RefuseEnv);
    assert_eq!(decide(true, false, true, None), StartDecision::RefuseForeground);
    assert_eq!(decide(false, true, true, None), StartDecision::RunInForeground);
    assert_eq!(decide(true, false, false, None), StartDecision::AlreadyRunning);
    assert_eq!(
        decide(true, false, false, Some(true)),
        StartDecision::Configure { value: true }
    );
    assert_eq!(decide(false, false, false, None), StartDecision::Spawn);
    assert_eq!(resolve_env_file("a.env", "/w"), "/w/a.env");
    assert_eq!(resolve_env_file("/a.env", "/w"), "/a.env");
}

#[test]
fn supervisor_is_spawned_and_awaited() {
    let mut start = DaemonStart::new(
        &DaemonStartArgs {
            foreground: false,
            env_file: Some("x.env".to_string()),
        },
        "/w",
    );
    let step = start.advance(CliEvent::Connected { running: false });
    assert_eq!(
        step.action,
        CliAction::SpawnDaemon {
            refresh: true,
            env_file: Some("/w/x.env".to_string()),
            variables: NameMap::new()
        }
    );
    let step = start.advance(CliEvent::Worked { error: None });
    assert_eq!(step.action, CliAction::WaitUntilReady);
    let step = start.advance(CliEvent::Worked { error: None });
    assert_eq!(step.action, CliAction::Finish);
    assert_eq!(
        step.say,
        strings(&["rufa daemon started; launch targets with `rufa target start`"])
    );
}

#[test]
fn supervisor_in_the_foreground_takes_its_setting_from_outside() {
    let mut start = DaemonStart::new(
        &DaemonStartArgs {
            foreground: true,
            env_file: None,
        },
        "/w",
    );
    let step = start.advance(CliEvent::Connected { running: false });
    assert_eq!(
        step.action,
        CliAction::RunDaemon {
            setting: None,
            env_file: None,
            variables: NameMap::new()
        }
    );
    let mut start = DaemonStart::with_setting(
        &StartArgs {
            watch: true,
            no_watch: false,
            foreground: true,
            env_file: None,
        },
    );
    let step = start.advance(CliEvent::Connected { running: false });
    assert_eq!(
        step.action,
        CliAction::RunDaemon {
            setting: Some(true),
            env_file: None,
            variables: NameMap::new()
        }
    );
    assert_eq!(step.say[1], "streaming logs to stdout...");
}

#[test]
fn variables_are_made_ready_before_the_start() {
    let begin = || {
        let mut start = DaemonStart::with_setting(&StartArgs {
            watch: true,
            no_watch: false,
            foreground: false,
            env_file: Some("x.env".to_string()),
        });
        let step = start.advance(CliEvent::Connected { running: false });
        assert_eq!(step.action, CliAction::ReadEnvFile("x.env".to_string()));
        start
    };
    let mut start = begin();
    let step = start.advance(CliEvent::EnvFileRead(Some("# note\nA=1\n".to_string())));
    let mut variables: NameMap<String> = NameMap::new();
    variables.insert("A".to_string(), "1".to_string());
    assert_eq!(
        step.action,
        CliAction::SpawnDaemon {
            refresh: true,
            env_file: None,
            variables
        }
    );
    start.advance(CliEvent::Worked { error: None });
    let step = start.advance(CliEvent::Worked { error: None });
    assert_eq!(
        step.say,
        strings(&["rufa daemon started; launch targets with `rufa run`"])
    );
    for contents in [None, Some("a b=1".to_string())] {
        let mut start = begin();
        assert_eq!(
            start.advance(CliEvent::EnvFileRead(contents)).action,
            CliAction::Fail("loading environment overrides from x.env".to_string())
        );
    }
    let mut start = DaemonStart::with_setting(&StartArgs {
        watch: true,
        no_watch: false,
        foreground: false,
        env_file: Some("x.env".to_string()),
    });
    assert_eq!(
        start.advance(CliEvent::Connected { running: true }).action,
        CliAction::Fail(
            "rufa daemon already running; stop it before restarting with --env".to_string()
        )
    );
}

#[test]
fn running_supervisor_is_told_the_setting() {
    let mut start = DaemonStart::with_setting(
        &StartArgs {
            watch: false,
            no_watch: true,
            foreground: false,
            env_file: None,
        },
    );
    let step = start.advance(CliEvent::Connected { running: true });
    assert!(matches!(step.action, CliAction::Send(ClientCommand::Configure(_))));
    let step = start.advance(CliEvent::Answer(ServerResponse::Ack));
    assert_eq!(
        step.say,
        strings(&["updated default watch setting to disabled on running daemon"])
    );
}

#[test]
fn commands_lead_to_conversations() {
    let run = |command: Command| (Cli { command }).execute("/w", None, false);
    match run(Command::Target(TargetCommand::Restart(TargetRestartArgs {
        targets: strings(&["a"]),
        all: true,
    }))) {
        Conversation::Refused(message) => {
            assert_eq!(message, "cannot combine explicit targets with --all")
        }
        other => panic!("unexpected {other:?}"),
    }
    match run(Command::Refresh(RefreshCliCommand::SetMode(RefreshSetArgs {
        mode: RefreshModeArg::Off,
    }))) {
        Conversation::Request(mut request) => {
            let step = request.advance(CliEvent::Connected { running: false });
            assert_eq!(
                step.action,
                CliAction::Fail(
                    "rufa daemon is not running; launch it with `rufa start`".to_string()
                )
            );
        }
        other => panic!("unexpected {other:?}"),
    }
    assert!(matches!(run(Command::DaemonForeground), Conversation::Serve));
    assert!(matches!(run(Command::Init(InitArgs {})), Conversation::Init));
    assert!(matches!(run(Command::Stop), Conversation::Request(_)));
    assert!(matches!(
        run(Command::Completions(CompletionsArgs {
            shell: CompletionShell::Fish
        })),
        Conversation::Completions(CompletionShell::Fish)
    ));
}

#[test]
fn restart_cannot_name_targets_and_all() {
    assert_eq!(
        check_restart(&TargetRestartArgs {
            targets: strings(&["a"]),
            all: true
        }),
        Err("cannot combine explicit targets with --all".to_string())
    );
    assert_eq!(
        check_restart(&TargetRestartArgs {
            targets: vec![],
            all: true
        }),
        Ok(())
    );
}

#[test]
fn answers_are_told() {
    let asked = Asked::Restart {
        targets: strings(&["a", "b"]),
        all: false,
    };
    assert_eq!(
        reply_to(&asked, &ServerResponse::Ack),
        Reply::Print("restart request accepted for targets: a, b".to_string())
    );
    assert_eq!(
        reply_to(&asked, &ServerResponse::Error("no".to_string())),
        Reply::Fail("no".to_string())
    );
    let asked = Asked::SetRefresh {
        mode: RefreshMode::Off,
    };
    assert_eq!(
        reply_to(&asked, &ServerResponse::Ack),
        Reply::Print("refresh on change set to off".to_string())
    );
    assert_eq!(
        reply_to(&asked, &ServerResponse::Info(sample_info())),
        Reply::Nothing
    );
    assert_eq!(refresh_mode(RefreshModeArg::Auto), RefreshMode::Auto);
    assert_eq!(shell_name(CompletionShell::PowerShell), "powershell");
}

#[test]
fn supervisor_is_stopped_and_awaited() {
    let mut request = Request::new(Asked::StopDaemon, ClientCommand::Stop, None);
    let step = request.advance(CliEvent::Connected { running: true });
    assert_eq!(step.action, CliAction::Send(ClientCommand::Stop));
    let step = request.advance(CliEvent::Answer(ServerResponse::Ack));
    assert_eq!(step.action, CliAction::WaitUntilStopped);
    let step = request.advance(CliEvent::Worked { error: None });
    assert_eq!(step.say, strings(&["rufa daemon stopped"]));
    let mut request = Request::new(Asked::StopDaemon, ClientCommand::Stop, None);
    let step = request.advance(CliEvent::Connected { running: false });
    assert_eq!(step.action, CliAction::Finish);
    assert_eq!(step.say, strings(&["rufa daemon is not running"]));
    let mut request = Request::new(
        Asked::RestartStale,
        ClientCommand::Ping,
        Some("failed to refresh stale targets".to_string()),
    );
    request.advance(CliEvent::Connected { running: true });
    let step = request.advance(CliEvent::AnswerFailed("io".to_string()));
    assert_eq!(
        step.action,
        CliAction::Fail("failed to refresh stale targets".to_string())
    );
}

#[test]
fn foreground_start_follows_and_stops() {
    let mut start = StartTargets::new(&TargetStartArgs {
        targets: strings(&["api"]),
        foreground: true,
    });
    let step = start.advance(CliEvent::Connected { running: true });
    assert!(matches!(step.action, CliAction::Send(ClientCommand::StartTargets(_))));
    let step = start.advance(CliEvent::Answer(ServerResponse::Ack));
    assert_eq!(
        step.say,
        strings(&["running targets in foreground: api (Ctrl+C to stop)"])
    );
    let step = start.advance(CliEvent::Answer(ServerResponse::Info(sample_info())));
    assert_eq!(step.action, CliAction::ListLogs);
    let step = start.advance(CliEvent::FilesListed(vec![]));
    match step.action {
        CliAction::Follow(sources) => {
            assert_eq!(sources.len(), 1);
            assert_eq!(sources[0].path(), ".rufa/logs/api.2.log");
        }
        other => panic!("unexpected {other:?}"),
    }
    assert_eq!(step.say, strings(&["logs directory: .rufa/logs"]));
    let step = start.advance(CliEvent::Interrupted);
    assert!(matches!(step.action, CliAction::Send(ClientCommand::StopTargets(_))));
    let step = start.advance(CliEvent::AnswerFailed("gone".to_string()));
    assert_eq!(
        step.action,
        CliAction::Fail("failed to send stop request".to_string())
    );
}

#[test]
fn foreground_run_ends_its_targets() {
    let mut run = RunTargets::new(&RunArgs {
        targets: strings(&["api"]),
        watch: true,
        no_watch: false,
        foreground: true,
    });
    run.advance(CliEvent::Connected { running: true });
    let step = run.advance(CliEvent::Answer(ServerResponse::Ack));
    assert_eq!(step.action, CliAction::FollowCombined(strings(&["api"])));
    let step = run.advance(CliEvent::Worked {
        error: Some("broken".to_string()),
    });
    assert_eq!(step.warn.as_deref(), Some("log streaming ended: broken"));
    assert!(matches!(step.action, CliAction::Send(ClientCommand::Kill(_))));
    let step = run.advance(CliEvent::Answer(ServerResponse::Ack));
    assert_eq!(step.say, strings(&["sent kill signal for targets: api"]));
}

#[test]
fn logs_are_shown_without_a_supervisor() {
    let mut show = ShowLogs::new(
        LogArgs {
            targets: vec![],
            follow: false,
            tail: Some(1),
            generation: None,
            all: false,
        },
        false,
    );
    let step = show.advance(CliEvent::Connected { running: false });
    assert_eq!(step.action, CliAction::ReadGenerations);
    let step = show.advance(CliEvent::GenerationsRead(vec![("api".to_string(), 2)]));
    assert_eq!(step.action, CliAction::ListLogs);
    let step = show.advance(CliEvent::FilesListed(vec![]));
    assert!(matches!(step.action, CliAction::ReadLogs(_)));
    let step = show.advance(CliEvent::LogsRead(sample_logs()));
    assert_eq!(step.action, CliAction::Finish);
    assert_eq!(
        step.say,
        strings(&["1970-01-01T00:00:01.000Z | api                |     2 | STDOUT  | hello"])
    );
}

#[test]
fn missing_logs_are_said() {
    let new = || {
        ShowLogs::new(
            LogArgs {
                targets: vec![],
                follow: false,
                tail: None,
                generation: None,
                all: true,
            },
            false,
        )
    };
    let mut show = new();
    show.advance(CliEvent::Connected { running: true });
    let step = show.advance(CliEvent::Answer(ServerResponse::Ack));
    assert_eq!(step.say, strings(&["no log sources available"]));
    let mut show = new();
    show.advance(CliEvent::Connected { running: false });
    show.advance(CliEvent::GenerationsRead(vec![("api".to_string(), 0)]));
    let step = show.advance(CliEvent::FilesListed(vec![]));
    assert_eq!(step.say, strings(&["no logs found for requested selection"]));
}

#[test]
fn state_is_shown_once() {
    let mut show = ShowInfo::new(
        InfoArgs {
            targets: vec![],
            log_length: 5,
            foreground: false,
            history_length: 1,
        },
        Some(60),
        false,
    );
    let step = show.advance(CliEvent::Connected { running: true });
    assert_eq!(
        step.action,
        CliAction::Send(ClientCommand::Info(InfoRequest { targets: vec![] }))
    );
    let step = show.advance(CliEvent::Answer(ServerResponse::Info(sample_info())));
    assert!(matches!(step.action, CliAction::ReadLogs(_)));
    let step = show.advance(CliEvent::LogsRead(sample_logs()));
    assert_eq!(step.action, CliAction::Finish);
    assert_eq!(step.say[0], "Refresh on change: auto");
}

#[test]
fn state_is_drawn_again_where_it_changed() {
    let mut show = ShowInfo::new(
        InfoArgs {
            targets: vec![],
            log_length: 0,
            foreground: true,
            history_length: 0,
        },
        None,
        false,
    );
    show.advance(CliEvent::Connected { running: true });
    let step = show.advance(CliEvent::Answer(ServerResponse::Ack));
    assert!(step.draw.is_some());
    assert_eq!(step.action, CliAction::Sleep);
    show.advance(CliEvent::TimePassed);
    let step = show.advance(CliEvent::Answer(ServerResponse::Ack));
    assert!(step.draw.is_none());
    show.advance(CliEvent::TimePassed);
    let step = show.advance(CliEvent::Answer(ServerResponse::Error("down".to_string())));
    assert_eq!(step.warn.as_deref(), Some("daemon error: down"));
    assert_eq!(step.action, CliAction::Finish);
    assert_eq!(redraw("a", "b"), Some("\u{1b}[2J\u{1b}[Hb".to_string()));
}

#[test]
fn info_has_its_form() {
    let text = format_info_response(&sample_logs(), &sample_info(), display());
    let expected = "\
Refresh on change: auto

Running targets:
  - api (service)
      config:
        driver: bash
        refresh watch type: rufa
        watch paths:
          - /w/src
      desired state: running
      action plan: idle
      current run: generation 2 [CURRENT]
        pid: 42
        ports:
          http -> 8080 | http | http://127.0.0.1:8080
        refresh pending: no
        last log:
          1970-01-01T00:00:01.000Z | api                |   
      previous runs: none

Stopped targets:
  - job (job)
      config:
        driver: bun
        refresh watch type: runtime
        watch paths: (default)
      last run: generation 7
        last exit: code 1, then
        last logs: none
      previous run 1: generation 6
        last logs: <error reading log: denied>

Other available targets:
  - db (service)
";
    assert_eq!(text, expected);
}

#[test]
fn logs_to_read_are_those_that_are_shown() {
    let sources = logs_to_read(&sample_info(), display());
    let found: Vec<(&str, u64)> = sources
        .iter()
        .map(|source| (source.target.as_str(), source.generation))
        .collect();
    assert_eq!(found, vec![("api", 2), ("job", 7), ("job", 6)]);
    let none = Display {
        log_lines: 0,
        ..display()
    };
    assert!(logs_to_read(&sample_info(), none).is_empty());
}

#[test]
fn nothing_known_is_said() {
    let empty = InfoResponse {
        refresh_target_on_change_enabled: false,
        running: vec![],
        stopped: vec![],
        available: vec![],
        generations: vec![],
    };
    assert_eq!(
        format_info_response(&vec![], &empty, display()),
        "Refresh on change: off\n\nRunning targets:\n  - none\n\nStopped targets:\n  - none\n\nOther available targets:\n  - none\n"
    );
}

#[test]
fn parts_are_joined() {
    let port = PortSummary {
        name: "dbg".to_string(),
        port: 5005,
        protocol: None,
        is_debug: true,
        url: None,
    };
    assert_eq!(format_port_summary(&port), "dbg -> 5005 | debug");
    let exit = ExitDetails {
        code: None,
        signal: Some(-9),
        at: None,
    };
    assert_eq!(format_exit_summary(&exit), "signal -9");
    let unknown = ExitDetails {
        code: None,
        signal: None,
        at: None,
    };
    assert_eq!(format_exit_summary(&unknown), "unknown");
    assert_eq!(
        format_generation_heading(3, true, true),
        "generation 3 \u{1b}[32m[CURRENT]\u{1b}[0m"
    );
    let restart = RestartStatusSummary {
        attempt: 0,
        delay_seconds: Some(4),
        scheduled_for: Some("soon".to_string()),
    };
    assert_eq!(
        write_restart_status("  ", &restart, false),
        "  restart pending: attempt 1, next in 4.0s, scheduled for soon"
    );
}

#[test]
fn generations_are_mapped() {
    let map = generation_map(&sample_info().generations);
    assert_eq!(map.get("api"), Some(&2));
    assert_eq!(map.len(), 1);
}

#[test]
fn proposed_configuration_is_accepted() {
    let config = load_from_str("/w/rufa.toml", false, RUFA_TOML_TEMPLATE).expect("configuration");
    assert_eq!(config.watch.stability, 2);
    assert!(config.targets.contains_key("sample"));
}

#[test]
fn ignored_files_are_completed_once() {
    let existing = "node_modules\nrufa.log";
    let addition = gitignore_addition(existing).expect("an addition");
    assert_eq!(addition, "# rufa\n.rufa/\nrufa.log.*\n");
    let updated = updated_gitignore(existing, &addition);
    assert_eq!(
        updated,
        "node_modules\nrufa.log\n# rufa\n.rufa/\nrufa.log.*\n"
    );
    assert_eq!(gitignore_addition(&updated), None);
    assert_eq!(missing_patterns("").len(), 3);
    assert_eq!(updated_gitignore("", "x\n"), "x\n");
}

#[test]
fn guide_is_completed_once() {
    let created = updated_guide(None).expect("a guide");
    assert!(created.starts_with("# Agent Guide\n\n## Working with rufa\n\n- Start"));
    assert!(created.ends_with("`rufa target start \u{2026}` when environment changes.\n"));
    assert_eq!(updated_guide(Some(&created)), None);
    let more = updated_guide(Some("# Mine\n")).expect("a guide");
    assert!(more.starts_with("# Mine\n\n\n## Working with rufa"));
    assert!(updated_guide(Some("  ")).unwrap().starts_with("  ## Working"));
}

#[test]
fn answers_are_yes_or_no() {
    assert_eq!(parse_answer(" Yes \n"), Some(true));
    assert_eq!(parse_answer("n"), Some(false));
    assert_eq!(parse_answer("\n"), Some(false));
    assert_eq!(parse_answer("maybe"), None);
}
