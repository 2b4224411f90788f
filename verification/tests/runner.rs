use rufa::config::loader::load_from_str;
use rufa::config::model::{Config, PortSelection, RestartStrategy, TargetBehavior};
use rufa::names::NameMap;
use rufa::runner::control::{
    Action, ActionResult, DesiredState, TargetControl, TargetKind, TargetStatus,
};
use rufa::runner::generation::{record_path, tmp_path, TargetGenerationStore};
use rufa::runner::ports::{
    assign, distinct_ports, empty_assignments, port_requests, BindAnswer, PortAllocator,
    PortError, PortSearch, PortStep,
};
use rufa::runner::process::{
    end_message, exit_message, is_unexpected_exit, time_limit, Termination, TerminationStep,
    WaitAnswer,
};
use rufa::runner::resolve::{resolve_units, ResolveError};
use rufa::runner::restart::{
    compute_backoff_delay, update_runtime_restart_state, RestartCoordinator, RestartSchedule,
    RestartState,
};
use rufa::runner::start::{StartAction, StartEvent};
use rufa::runner::supervisor::{
    paths_to_resolve, watch_spec_from_config, Runner, RunnerError, WatchRoots,
};
use rufa::state::{ExitStatus, RuntimeState, TargetState};
use rufa::time::Timestamp;

const SAMPLE: &str = r#"
[watch]
stability_seconds = 2

[target.all]
type = "composite"
targets = ["web", "tidy"]

[target.loop]
type = "composite"
targets = ["loop"]

[target.web]
type = "bash"
kind = "service"
command = "serve"
refresh_watch_type = "RUFA"
watch = ["src"]
port.http.type = "http"
port.http.auto_range = "8000-8002"
env.SELF = "{web:port.http}"

[target.hot]
type = "bun"
kind = "service"
script = "dev.ts"

[target.tidy]
type = "bash"
kind = "job"
timeout_seconds = 9
command = "tidy"
"#;

fn config() -> Config {
    load_from_str("/w/rufa.toml", false, SAMPLE).expect("configuration")
}

fn strings(list: &[&str]) -> Vec<String> {
    list.iter().map(|item| item.to_string()).collect()
}

fn roots() -> WatchRoots {
    WatchRoots {
        base: "/w".to_string(),
        canonical: NameMap::new(),
    }
}

fn runner(refresh: bool) -> Runner {
    Runner::new("/w/rufa.toml".to_string(), refresh, 2, None, &vec![("web".to_string(), 4)])
}

fn exit(code: i32) -> ExitStatus {
    ExitStatus {
        code: Some(code),
        signal: None,
        when: Timestamp::new(1, 0).unwrap(),
    }
}

fn started(refresh: bool) -> Runner {
    let mut runner = runner(refresh);
    runner
        .request_start(&config(), &strings(&["web"]), &roots())
        .expect("request");
    let ports: NameMap<u16> = NameMap::new();
    assert!(runner.record_spawn("web", 5, &ports, false, true, Some(77)));
    runner.mark_target_running("web");
    runner
}

#[test]
fn composites_stand_for_their_members() {
    let units = resolve_units(&config(), &strings(&["all", "web"])).expect("units");
    let names: Vec<&str> = units.iter().map(|unit| unit.name.as_str()).collect();
    assert_eq!(names, vec!["web", "tidy", "web"]);
}

#[test]
fn unknown_targets_and_cycles_are_refused() {
    assert_eq!(
        resolve_units(&config(), &strings(&["gone"])),
        Err(ResolveError::NotFound("gone".to_string()))
    );
    let error = resolve_units(&config(), &strings(&["loop"])).unwrap_err();
    assert_eq!(error, ResolveError::Cycle("loop".to_string()));
    assert_eq!(
        error.message(),
        "cycle detected while expanding composite target loop"
    );
}

#[test]
fn plans_lead_to_the_desired_state() {
    let mut control = TargetControl::new();
    assert_eq!(
        control.choose_action(&TargetStatus { is_running: false }, "web"),
        None
    );
    control.request_desired_state(DesiredState::Running);
    control.set_kind(TargetKind::Service);
    let action = control
        .choose_action(&TargetStatus { is_running: false }, "web")
        .expect("an action");
    assert!(matches!(action, Action::Start { .. }));
    control.finish_action(action, true);
    assert_eq!(
        control.choose_action(&TargetStatus { is_running: true }, "web"),
        None
    );
}

#[test]
fn restart_stops_and_starts() {
    let mut control = TargetControl::new();
    control.request_desired_state(DesiredState::Restarted);
    let stop = control
        .choose_action(&TargetStatus { is_running: true }, "web")
        .expect("an action");
    assert!(matches!(stop, Action::Stop { .. }));
    control.finish_action(stop, true);
    let mut seen = Vec::new();
    let mut running = false;
    for _ in 0..4 {
        if let Some(action) =
            control.choose_action(&TargetStatus { is_running: running }, "web")
        {
            seen.push(action.describe());
            if matches!(action, Action::Start { .. }) {
                running = true;
            }
            control.finish_action(action, true);
        }
    }
    assert!(running);
    assert!(!seen.is_empty());
}

#[test]
fn results_have_a_text() {
    assert_eq!(Action::default(), Action::idle(ActionResult::NotStarted));
    assert!(Action::default().is_idle());
    assert_eq!(ActionResult::Error("why".to_string()).text(), "error: why");
    assert_eq!(DesiredState::Restarted.as_str(), "restarted");
}

#[test]
fn generations_count_up() {
    let mut store = TargetGenerationStore::new(&vec![("a".to_string(), 3)]);
    assert_eq!(store.next("a"), 4);
    assert_eq!(store.next("b"), 1);
    assert_eq!(store.current("a"), Some(4));
    assert_eq!(store.all(), vec![("a".to_string(), 4), ("b".to_string(), 1)]);
    assert_eq!(record_path(".rufa/targets", "a/b"), ".rufa/targets/a_b.json");
    assert_eq!(tmp_path(".rufa/targets/a.json"), ".rufa/targets/a.json.tmp");
}

#[test]
fn range_is_searched_from_its_start() {
    let mut allocator = PortAllocator::new();
    assert_eq!(allocator.reserve_specific(8000, true), Ok(()));
    assert_eq!(
        allocator.reserve_specific(8000, true),
        Err(PortError::AlreadyReserved(8000))
    );
    let mut search = PortSearch::new(
        PortSelection::AutoRange {
            start: 8000,
            end: 8002,
        },
        None,
    );
    assert_eq!(search.advance(&mut allocator, BindAnswer::Begin), PortStep::Bind(8001));
    assert_eq!(search.advance(&mut allocator, BindAnswer::Refused), PortStep::Bind(8002));
    assert_eq!(
        search.advance(&mut allocator, BindAnswer::Bound(8002)),
        PortStep::Assigned(8002)
    );
    assert!(allocator.is_reserved(8002));
    assert_eq!(search.advance(&mut allocator, BindAnswer::Begin), PortStep::Ended);
}

#[test]
fn exhausted_range_and_refused_port_fail() {
    let mut allocator = PortAllocator::new();
    let mut search = PortSearch::new(PortSelection::AutoRange { start: 5, end: 5 }, None);
    assert_eq!(search.advance(&mut allocator, BindAnswer::Begin), PortStep::Bind(5));
    assert_eq!(
        search.advance(&mut allocator, BindAnswer::Refused),
        PortStep::Failed(PortError::RangeExhausted { start: 5, end: 5 })
    );
    let mut search = PortSearch::new(PortSelection::Fixed(80), None);
    assert_eq!(search.advance(&mut allocator, BindAnswer::Begin), PortStep::Bind(80));
    assert_eq!(
        search.advance(&mut allocator, BindAnswer::Refused),
        PortStep::Failed(PortError::Refused(80))
    );
    let mut search = PortSearch::new(PortSelection::Auto, None);
    assert_eq!(search.advance(&mut allocator, BindAnswer::Begin), PortStep::BindAny);
    assert_eq!(
        search.advance(&mut allocator, BindAnswer::Refused),
        PortStep::Failed(PortError::NoneLeft)
    );
    assert!(PortError::NoneLeft.message().len() > 0);
    assert_eq!(
        PortError::AlreadyReserved(9).message(),
        "port 9 is already reserved"
    );
}

#[test]
fn last_port_is_tried_first() {
    let mut allocator = PortAllocator::new();
    let mut search = PortSearch::new(PortSelection::Auto, Some(4000));
    assert_eq!(search.advance(&mut allocator, BindAnswer::Begin), PortStep::Bind(4000));
    assert_eq!(
        search.advance(&mut allocator, BindAnswer::Bound(4000)),
        PortStep::Assigned(4000)
    );
    let mut ports: NameMap<u16> = NameMap::new();
    ports.insert("p".to_string(), 4000);
    allocator.release_ports(&ports);
    assert!(!allocator.is_reserved(4000));
}

#[test]
fn ports_are_asked_for_by_name() {
    let units = resolve_units(&config(), &strings(&["web"])).unwrap();
    let mut state = RuntimeState::default();
    let mut last = TargetState::default();
    last.ports.insert("http".to_string(), 8001);
    state.targets.insert("web".to_string(), last);
    let requests = port_requests(&units, &state);
    assert_eq!(requests.len(), 1);
    assert_eq!(requests[0].previous, Some(8001));
    let mut assignments = empty_assignments(&units);
    assign(&mut assignments, &requests[0], 8001);
    assert_eq!(assignments.get("web").unwrap().get("http"), Some(&8001));
    let mut twice: NameMap<u16> = NameMap::new();
    twice.insert("a".to_string(), 7);
    twice.insert("b".to_string(), 7);
    assert_eq!(distinct_ports(&twice), vec![7]);
}

#[test]
fn exits_are_described() {
    assert_eq!(exit_message(Some(2), None), "exited with code 2");
    assert_eq!(exit_message(None, Some(9)), "terminated by signal 9");
    assert_eq!(end_message(true, Some(0), None), "terminated due to timeout");
    assert_eq!(time_limit(&TargetBehavior::Job { timeout: Some(9) }), Some(9));
    assert_eq!(time_limit(&TargetBehavior::Service), None);
    assert!(is_unexpected_exit(&TargetBehavior::Service, &Some(exit(1))));
}

#[test]
fn started_target_runs_until_it_exits() {
    let mut runner = started(true);
    assert!(runner.target_status("web").is_running);
    let state = runner.state.targets.get("web").unwrap();
    assert_eq!(state.pid, Some(77));
    assert_eq!(state.generation, 5);
    let none: NameMap<u16> = NameMap::new();
    runner.record_log_line("web", "hello");
    runner.record_exit("web", Some(exit(3)), &none);
    assert!(!runner.target_status("web").is_running);
    let state = runner.state.targets.get("web").unwrap();
    assert_eq!(state.pid, None);
    assert_eq!(state.last_log_line.as_deref(), Some("hello"));
    assert_eq!(state.last_exit, Some(exit(3)));
}

#[test]
fn termination_asks_before_it_tells() {
    let mut runner = started(true);
    let mut stage = Termination::Start;
    assert_eq!(
        runner.terminate_target("web", &mut stage, WaitAnswer::Begin),
        TerminationStep::Ask(77)
    );
    assert_eq!(
        runner.terminate_target("web", &mut stage, WaitAnswer::TimedOut),
        TerminationStep::Tell(77)
    );
    assert_eq!(
        runner.terminate_target("web", &mut stage, WaitAnswer::TimedOut),
        TerminationStep::Done
    );
    let mut stage = Termination::Start;
    assert_eq!(
        runner.terminate_target("gone", &mut stage, WaitAnswer::Begin),
        TerminationStep::Done
    );
}

#[test]
fn changes_restart_watched_services() {
    let mut runner = started(true);
    assert!(runner.request_restart_from_watch("web"));
    assert_eq!(
        runner.control_info("web").unwrap().desired_state,
        "restarted"
    );
    assert!(!runner.request_restart_from_watch("gone"));
}

#[test]
fn changes_while_refresh_is_off_are_noted() {
    let mut runner = started(false);
    assert!(!runner.request_restart_from_watch("web"));
    assert!(runner.state.targets.get("web").unwrap().change_noticed_restart_necessary);
    let (names, outcome) = runner
        .restart_stale_targets(Some(&config()), &roots())
        .expect("restart");
    assert_eq!(names, strings(&["web"]));
    assert!(outcome.rufa_watch.is_some());
    let (names, _) = runner
        .restart_stale_targets(Some(&config()), &roots())
        .expect("restart");
    assert!(names.is_empty());
}

#[test]
fn runtime_targets_restart_for_a_changed_setting() {
    let mut runner = runner(true);
    runner
        .request_start(&config(), &strings(&["hot"]), &roots())
        .expect("request");
    let none: NameMap<u16> = NameMap::new();
    runner.record_spawn("hot", 1, &none, true, false, Some(5));
    let (names, outcome) = runner
        .restart_runtime_refresh_targets(Some(&config()), &roots())
        .expect("restart");
    assert_eq!(names, strings(&["hot"]));
    assert!(outcome.rufa_watch.is_none());
}

#[test]
fn requests_are_refused_with_a_reason() {
    let mut runner = runner(true);
    assert_eq!(
        runner.request_start(&config(), &strings(&[]), &roots()),
        Err(RunnerError::NothingSelected)
    );
    assert_eq!(
        runner.request_restart(&config(), &strings(&[]), true, &roots()),
        Err(RunnerError::NothingRunning)
    );
    assert_eq!(
        runner.request_restart(&config(), &strings(&[]), false, &roots()),
        Err(RunnerError::NoTargets)
    );
    let error = runner
        .request_restart(&config(), &strings(&["tidy"]), false, &roots())
        .unwrap_err();
    assert_eq!(
        error.message(),
        "target tidy is a job; re-run it explicitly instead of restarting"
    );
}

#[test]
fn watched_directories_are_resolved() {
    let config = load_from_str("rufa.toml", false, SAMPLE).expect("configuration");
    let names = strings(&["all"]);
    assert_eq!(
        paths_to_resolve(&config, &names, "/w").expect("paths"),
        strings(&["/w/src"])
    );
    let mut canonical: NameMap<String> = NameMap::new();
    canonical.insert("/w/src".to_string(), "/real/src".to_string());
    let roots = WatchRoots {
        base: "/w".to_string(),
        canonical,
    };
    let spec = watch_spec_from_config(&config, &names, &roots).expect("spec");
    assert_eq!(spec.stability, 2);
    assert_eq!(spec.services.keys(), strings(&["web"]));
    assert_eq!(spec.services.get("web"), Some(&strings(&["/real/src"])));
}

#[test]
fn start_goes_step_by_step() {
    let mut runner = runner(true);
    let units = resolve_units(&config(), &strings(&["web"])).unwrap();
    let (mut run, action) = runner.start_units(units, NameMap::new());
    assert_eq!(action, StartAction::BindPort(8000));
    let action = runner.advance_start(&mut run, StartEvent::Refused);
    assert_eq!(action, StartAction::BindPort(8001));
    let action = runner.advance_start(&mut run, StartEvent::Bound(8001));
    assert_eq!(
        action,
        StartAction::RecordGeneration {
            target: "web".to_string(),
            generation: 5
        }
    );
    let action = runner.advance_start(&mut run, StartEvent::Done);
    assert!(matches!(action, StartAction::HoldPorts { .. }));
    let launch = match runner.advance_start(&mut run, StartEvent::Done) {
        StartAction::Spawn(launch) => launch,
        other => panic!("unexpected {other:?}"),
    };
    assert_eq!(launch.command_line, "serve");
    assert_eq!(launch.generation, 5);
    assert_eq!(launch.env.get("SELF"), Some(&"8001".to_string()));
    assert_eq!(launch.env.get("RUFA_PORT_HTTP"), Some(&"8001".to_string()));
    assert!(launch.rufa_watch && !launch.runtime_watch);
    let action = runner.advance_start(&mut run, StartEvent::Spawned(Some(99)));
    assert_eq!(action, StartAction::UpdateDebug("web".to_string()));
    let action = runner.advance_start(&mut run, StartEvent::Done);
    assert_eq!(action, StartAction::Finished(strings(&["web"])));
    assert!(runner.target_status("web").is_running);
}

#[test]
fn failed_spawn_gives_ports_back() {
    let mut runner = runner(true);
    let units = resolve_units(&config(), &strings(&["web"])).unwrap();
    let (mut run, _) = runner.start_units(units, NameMap::new());
    runner.advance_start(&mut run, StartEvent::Bound(8000));
    runner.advance_start(&mut run, StartEvent::Done);
    runner.advance_start(&mut run, StartEvent::Done);
    assert!(runner.port_allocator.is_reserved(8000));
    let action = runner.advance_start(&mut run, StartEvent::Failed);
    assert!(matches!(action, StartAction::Failed(_)));
    assert!(!runner.port_allocator.is_reserved(8000));
    assert!(!runner.target_status("web").is_running);
}

#[test]
fn delays_double_up_to_a_minute() {
    let delays: Vec<u64> = (0..10).map(compute_backoff_delay).collect();
    assert_eq!(delays, vec![1, 1, 2, 4, 8, 16, 32, 60, 60, 60]);
    assert_eq!(compute_backoff_delay(u32::MAX), 60);
}

#[test]
fn restarts_are_scheduled_once() {
    let mut coordinator = RestartCoordinator::new(RestartStrategy::Backoff);
    assert_eq!(
        coordinator.schedule("a", None),
        RestartSchedule::Scheduled { attempt: 1, delay: 1 }
    );
    assert_eq!(coordinator.schedule("a", None), RestartSchedule::AlreadyPending);
    coordinator.clear_pending("a");
    assert_eq!(
        coordinator.schedule("a", None),
        RestartSchedule::Scheduled { attempt: 2, delay: 2 }
    );
    coordinator.reset_backoff("a");
    assert_eq!(
        coordinator.schedule("a", Some(5)),
        RestartSchedule::Scheduled { attempt: 5, delay: 16 }
    );
}

#[test]
fn suppressed_exit_is_not_answered() {
    let mut coordinator = RestartCoordinator::new(RestartStrategy::Backoff);
    coordinator.mark_suppressed("a");
    assert_eq!(coordinator.schedule("a", None), RestartSchedule::Skipped);
    assert_eq!(
        coordinator.schedule("a", None),
        RestartSchedule::Scheduled { attempt: 1, delay: 1 }
    );
    assert!(!coordinator.consume_suppression("a"));
    let mut off = RestartCoordinator::new(RestartStrategy::No);
    assert_eq!(off.schedule("a", None), RestartSchedule::Skipped);
}

#[test]
fn planned_restarts_are_noted_of_known_targets() {
    let mut states: NameMap<RestartState> = NameMap::new();
    update_runtime_restart_state(&mut states, "a", true, 1, Some(1), None);
    assert!(states.is_empty());
    states.insert(
        "a".to_string(),
        RestartState {
            restart_pending: false,
            restart_attempt: 0,
            restart_delay: None,
            restart_scheduled_for: None,
        },
    );
    update_runtime_restart_state(&mut states, "a", true, 2, Some(4), None);
    assert_eq!(states.get("a").unwrap().restart_attempt, 2);
}

#[test]
fn history_is_bounded() {
    let mut state = TargetState::default();
    for generation in 1..5u64 {
        state.reset_for_new_run(generation, NameMap::new(), false, false);
        state.last_exit = Some(exit(generation as i32));
        state.record_snapshot(2);
    }
    assert_eq!(state.history.len(), 2);
    assert_eq!(state.history[0].generation, 4);
    assert_eq!(state.history[1].generation, 3);
}

#[test]
fn control_loop_takes_one_action_at_a_time() {
    let mut runner = runner(true);
    runner
        .request_start(&config(), &strings(&["web"]), &roots())
        .expect("request");
    assert_eq!(runner.controlled_targets(), strings(&["web"]));
    let action = runner.choose_action("web").expect("an action");
    assert!(runner.choose_action("web").is_none());
    runner.finish_action("web", action, false);
    assert!(runner.choose_action("web").is_some());
}

#[test]
fn jobs_run_once_and_services_are_kept_running() {
    let mut runner = runner(true);
    runner
        .request_start(&config(), &strings(&["all"]), &roots())
        .expect("request");
    let none: NameMap<u16> = NameMap::new();
    for name in ["web", "tidy"] {
        let action = runner.choose_action(name).expect("an action");
        assert!(matches!(action, Action::Start { .. }));
        assert!(runner.record_spawn(name, 1, &none, false, false, Some(5)));
        runner.finish_action(name, action, true);
        assert!(runner.choose_action(name).is_none());
        runner.record_exit(name, Some(exit(1)), &none);
    }
    assert!(matches!(
        runner.choose_action("web"),
        Some(Action::Start { .. })
    ));
    assert!(runner.choose_action("tidy").is_none());
    assert_eq!(runner.control_info("tidy").unwrap().desired_state, "stopped");
    runner
        .request_start(&config(), &strings(&["tidy"]), &roots())
        .expect("request");
    assert!(matches!(
        runner.choose_action("tidy"),
        Some(Action::Start { .. })
    ));
}

#[test]
fn restarting_all_leaves_jobs_alone() {
    let mut runner = runner(true);
    runner
        .request_start(&config(), &strings(&["all"]), &roots())
        .expect("request");
    let none: NameMap<u16> = NameMap::new();
    assert!(runner.record_spawn("tidy", 1, &none, false, false, Some(6)));
    assert_eq!(
        runner.request_restart(&config(), &strings(&[]), true, &roots()),
        Err(RunnerError::NothingRunning)
    );
    assert!(runner.record_spawn("web", 1, &none, false, true, Some(5)));
    let start = runner
        .request_restart(&config(), &strings(&[]), true, &roots())
        .expect("restart");
    assert_eq!(start.rufa_watch.unwrap().services.keys(), strings(&["web"]));
    assert_eq!(runner.control_info("web").unwrap().desired_state, "restarted");
    assert_eq!(runner.control_info("tidy").unwrap().desired_state, "running");
    assert!(matches!(
        runner.request_restart(&config(), &strings(&["web", "tidy"]), false, &roots()),
        Err(RunnerError::IsJob(_))
    ));
    assert!(runner.record_spawn("gone", 1, &none, false, false, Some(7)));
    assert_eq!(
        runner.request_restart(&config(), &strings(&[]), true, &roots()),
        Err(RunnerError::Resolve(ResolveError::NotFound("gone".to_string())))
    );
}

#[test]
fn restarting_all_expands_composites() {
    let mut runner = runner(true);
    let none: NameMap<u16> = NameMap::new();
    assert!(runner.record_spawn("all", 1, &none, false, false, Some(5)));
    runner
        .request_restart(&config(), &strings(&[]), true, &roots())
        .expect("restart");
    assert_eq!(runner.control_info("web").unwrap().desired_state, "restarted");
    assert!(runner.control_info("tidy").is_none());
}

#[test]
fn targets_that_stand_for_nothing_are_not_started() {
    let mut runner = runner(true);
    let refused = runner.start_targets(&config(), &strings(&[]), NameMap::new());
    assert!(matches!(refused, Err(RunnerError::NothingSelected)));
    let refused = runner.start_targets(&config(), &strings(&["gone"]), NameMap::new());
    assert!(matches!(refused, Err(RunnerError::Resolve(_))));
    assert!(runner
        .start_targets(&config(), &strings(&["web"]), NameMap::new())
        .is_ok());
}
