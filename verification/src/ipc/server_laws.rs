//! What clients can rely on when they ask the supervisor for something.

use vstd::prelude::*;

use crate::config::model::ConfigView;
use crate::ipc::info::info_told;
use crate::ipc::protocol::{
    ClientCommandView, ConfigureRequestView, InfoRequestView, KillRequestView, LogRequestView,
    RefreshCommand, RefreshMode, RestartRequestView, RunRequestView, ServerResponseView,
    StartTargetsRequestView, StopTargetsRequestView,
};
use crate::ipc::server::{
    server_step, settings_of, ConnectionPhaseView, ServerActionView, ServerEventView,
};
use crate::runner::refresh::{after_stale_restart, stale_names, stale_restart};
use crate::runner::resolve::resolved;
use crate::runner::supervisor::{
    after_restart_request, after_start_request, restart_request, runner_message, start_request,
    RunnerView, StartOutcomeView, WatchRootsView,
};

verus! {

/// A request to stop or to kill named targets leads to the ending of exactly these targets, and
/// one that names none is acknowledged; the supervisor itself is left as it is.
pub proof fn stop_ends_exactly_the_named_targets(
    runner: RunnerView,
    stop: StopTargetsRequestView,
    kill: KillRequestView,
)
    ensures
        ({
            let waiting = ConnectionPhaseView::Waiting;
            let stopped = server_step(
                waiting,
                runner,
                ServerEventView::Received(ClientCommandView::StopTargets(stop)),
            );
            let killed = server_step(
                waiting,
                runner,
                ServerEventView::Received(ClientCommandView::Kill(kill)),
            );
            &&& stop.targets.len() > 0 ==> stopped.action == ServerActionView::EndTargets(
                stop.targets,
            )
            &&& stop.targets.len() == 0 ==> stopped.action == ServerActionView::Respond(
                ServerResponseView::Ack,
            )
            &&& kill.targets.len() > 0 ==> killed.action == ServerActionView::EndTargets(
                kill.targets,
            )
            &&& kill.targets.len() == 0 ==> killed.action == ServerActionView::Respond(
                ServerResponseView::Ack,
            )
            &&& stopped.runner == runner
            &&& killed.runner == runner
        }),
{
}

/// All targets are ended exactly where a client asks the supervisor to stop, and named targets
/// only where a client asks for their end.
pub proof fn only_a_stop_ends_all_targets(
    phase: ConnectionPhaseView,
    runner: RunnerView,
    event: ServerEventView,
)
    ensures
        server_step(phase, runner, event).action is EndAllTargets <==> phase is Waiting && event
            == ServerEventView::Received(ClientCommandView::Stop),
        server_step(phase, runner, event).action matches ServerActionView::EndTargets(targets)
            ==> phase is Waiting && (event matches ServerEventView::Received(command) && ((command
            matches ClientCommandView::Kill(request) && request.targets == targets) || (command
            matches ClientCommandView::StopTargets(request) && request.targets == targets))),
{
}

/// The end of targets is told: an acknowledgement where they ended, and what went wrong otherwise.
pub proof fn end_of_targets_is_told(runner: RunnerView, error: Option<Seq<char>>)
    ensures
        server_step(
            ConnectionPhaseView::Ending,
            runner,
            ServerEventView::TargetsEnded { error },
        ).action == ServerActionView::Respond(
            match error {
                Some(message) => ServerResponseView::Error(message),
                None => ServerResponseView::Ack,
            },
        ),
{
}

/// A request to stop the supervisor ends all targets, then turns the file watcher off, and then
/// shuts the supervisor down; where the targets could not be ended the client is told and the
/// supervisor goes on.
pub proof fn stop_shuts_the_supervisor_down(
    runner: RunnerView,
    error: Option<Seq<char>>,
    failed: bool,
)
    ensures
        ({
            let first = server_step(
                ConnectionPhaseView::Waiting,
                runner,
                ServerEventView::Received(ClientCommandView::Stop),
            );
            let second = server_step(
                first.phase,
                first.runner,
                ServerEventView::TargetsEnded { error },
            );
            let third = server_step(
                second.phase,
                second.runner,
                ServerEventView::WatchChanged { failed },
            );
            &&& first.action is EndAllTargets
            &&& second.action is DisableWatch
            &&& third.action == (match error {
                Some(message) => ServerActionView::Respond(ServerResponseView::Error(message)),
                None => ServerActionView::RespondAndShutDown,
            })
        }),
{
}

/// What the file watcher is to do after targets were asked to start.
pub open spec fn watch_action(start: StartOutcomeView) -> ServerActionView {
    match start.rufa_watch {
        Some(watch) => ServerActionView::EnableWatch(watch),
        None => ServerActionView::DisableWatch,
    }
}

/// A request to start named targets loads the configuration, asks the supervisor to start exactly
/// these targets, has the file watcher follow, and is then acknowledged. Where the supervisor
/// refuses, or the configuration cannot be loaded, the client is told why.
pub proof fn start_request_is_carried_out(
    runner: RunnerView,
    request: StartTargetsRequestView,
    config: ConfigView,
    roots: WatchRootsView,
    message: Seq<char>,
)
    ensures
        ({
            let first = server_step(
                ConnectionPhaseView::Waiting,
                runner,
                ServerEventView::Received(ClientCommandView::StartTargets(request)),
            );
            let loaded = server_step(
                first.phase,
                first.runner,
                ServerEventView::ConfigLoaded { config, roots },
            );
            let failed = server_step(
                first.phase,
                first.runner,
                ServerEventView::ConfigFailed { message },
            );
            &&& first.action is LoadConfig
            &&& first.runner == runner
            &&& failed.action == ServerActionView::Respond(ServerResponseView::Error(message))
            &&& failed.runner == runner
            &&& loaded.runner == after_start_request(runner, config, request.targets)
            &&& match start_request(config, request.targets, roots) {
                Ok(start) => {
                    let last = server_step(
                        loaded.phase,
                        loaded.runner,
                        ServerEventView::WatchChanged { failed: false },
                    );
                    &&& loaded.action == watch_action(start)
                    &&& last.action == ServerActionView::Respond(ServerResponseView::Ack)
                    &&& last.runner == loaded.runner
                },
                Err(error) => loaded.action == ServerActionView::Respond(
                    ServerResponseView::Error(runner_message(error)),
                ),
            }
        }),
{
}

/// A request to restart targets loads the configuration, asks the supervisor to restart exactly
/// the targets that are named, or all, has the file watcher follow, and is then acknowledged even
/// where the watcher fails. Where the supervisor refuses, or the configuration cannot be loaded,
/// the client is told why.
pub proof fn restart_request_is_carried_out(
    runner: RunnerView,
    request: RestartRequestView,
    config: ConfigView,
    roots: WatchRootsView,
    message: Seq<char>,
    watch_failed: bool,
)
    ensures
        ({
            let first = server_step(
                ConnectionPhaseView::Waiting,
                runner,
                ServerEventView::Received(ClientCommandView::Restart(request)),
            );
            let loaded = server_step(
                first.phase,
                first.runner,
                ServerEventView::ConfigLoaded { config, roots },
            );
            let failed = server_step(
                first.phase,
                first.runner,
                ServerEventView::ConfigFailed { message },
            );
            &&& first.action is LoadConfig
            &&& first.runner == runner
            &&& failed.action == ServerActionView::Respond(ServerResponseView::Error(message))
            &&& failed.runner == runner
            &&& loaded.runner == after_restart_request(
                runner,
                config,
                request.targets,
                request.all,
            )
            &&& match restart_request(runner, config, request.targets, request.all, roots) {
                Ok(start) => {
                    let last = server_step(
                        loaded.phase,
                        loaded.runner,
                        ServerEventView::WatchChanged { failed: watch_failed },
                    );
                    &&& loaded.action == watch_action(start)
                    &&& last.action == ServerActionView::Respond(ServerResponseView::Ack)
                    &&& last.runner == loaded.runner
                },
                Err(error) => loaded.action == ServerActionView::Respond(
                    ServerResponseView::Error(runner_message(error)),
                ),
            }
        }),
{
}

/// A request to restart the stale targets restarts them and is acknowledged at once where there is
/// none.
pub proof fn stale_request_is_carried_out(
    runner: RunnerView,
    config: ConfigView,
    roots: WatchRootsView,
)
    ensures
        ({
            let first = server_step(
                ConnectionPhaseView::Waiting,
                runner,
                ServerEventView::Received(
                    ClientCommandView::Refresh(RefreshCommand::RestartStaleTargets),
                ),
            );
            let loaded = server_step(
                first.phase,
                first.runner,
                ServerEventView::ConfigLoaded { config, roots },
            );
            &&& first.action is LoadConfig
            &&& first.runner == runner
            &&& loaded.runner == after_stale_restart(runner, Some(config))
            &&& stale_names(runner.state.targets).len() == 0 ==> loaded.action
                == ServerActionView::Respond(ServerResponseView::Ack)
            &&& stale_names(runner.state.targets).len() > 0 ==> (match stale_restart(
                runner,
                Some(config),
                roots,
            ) {
                Ok((_, start)) => loaded.action == watch_action(start),
                Err(error) => loaded.action == ServerActionView::Respond(
                    ServerResponseView::Error(runner_message(error)),
                ),
            })
        }),
{
}

/// A question is answered from the configuration, with what is known of the targets that are asked
/// about, and changes nothing.
pub proof fn question_is_answered(
    runner: RunnerView,
    request: InfoRequestView,
    config: ConfigView,
    roots: WatchRootsView,
    message: Seq<char>,
)
    ensures
        ({
            let first = server_step(
                ConnectionPhaseView::Waiting,
                runner,
                ServerEventView::Received(ClientCommandView::Info(request)),
            );
            let loaded = server_step(
                first.phase,
                first.runner,
                ServerEventView::ConfigLoaded { config, roots },
            );
            let failed = server_step(
                first.phase,
                first.runner,
                ServerEventView::ConfigFailed { message },
            );
            &&& first.action is LoadConfig
            &&& loaded.action == ServerActionView::Respond(
                ServerResponseView::Info(info_told(runner, config, request.targets)),
            )
            &&& loaded.runner == runner
            &&& failed.action matches ServerActionView::Respond(ServerResponseView::Error(told))
                && message.is_suffix_of(told)
        }),
{
    let told = "failed to load configuration: "@ + message;
    assert(told.subrange(told.len() - message.len(), told.len() as int) =~= message);
}

/// A change of the refresh setting is taken up by the supervisor at once, written down, and then
/// acknowledged; nothing else is changed by it. One that says nothing is just acknowledged.
pub proof fn refresh_setting_is_taken_up(
    runner: RunnerView,
    mode: RefreshMode,
    request: ConfigureRequestView,
)
    ensures
        ({
            let waiting = ConnectionPhaseView::Waiting;
            let refresh = server_step(
                waiting,
                runner,
                ServerEventView::Received(
                    ClientCommandView::Refresh(RefreshCommand::SetMode { mode }),
                ),
            );
            let written = server_step(refresh.phase, refresh.runner, ServerEventView::SettingWritten);
            let configure = server_step(
                waiting,
                runner,
                ServerEventView::Received(ClientCommandView::Configure(request)),
            );
            let on = mode == RefreshMode::Auto;
            &&& refresh.action == (ServerActionView::WriteSetting { refresh: on })
            &&& refresh.runner == (RunnerView { refresh_on_change: on, ..runner })
            &&& written.action == ServerActionView::Respond(ServerResponseView::Ack)
            &&& written.runner == refresh.runner
            &&& match request.default_watch {
                Some(watch) => configure.action == (ServerActionView::WriteSetting { refresh: watch })
                    && configure.runner == (RunnerView { refresh_on_change: watch, ..runner }),
                None => configure.action == ServerActionView::Respond(ServerResponseView::Ack)
                    && configure.runner == runner,
            }
        }),
{
}

/// A ping and a question about logs are acknowledged and change nothing.
pub proof fn ping_is_acknowledged(runner: RunnerView, request: LogRequestView)
    ensures
        ({
            let waiting = ConnectionPhaseView::Waiting;
            let ping = server_step(
                waiting,
                runner,
                ServerEventView::Received(ClientCommandView::Ping),
            );
            let log = server_step(
                waiting,
                runner,
                ServerEventView::Received(ClientCommandView::Log(request)),
            );
            &&& ping.action == ServerActionView::Respond(ServerResponseView::Ack)
            &&& ping.runner == runner
            &&& log.action == ServerActionView::Respond(ServerResponseView::Ack)
            &&& log.runner == runner
        }),
{
}

/// A run that says nothing of watching is watched exactly where the supervisor refreshes on
/// changes.
pub proof fn silent_run_is_watched_as_set(
    runner: RunnerView,
    request: RunRequestView,
    config: ConfigView,
    roots: WatchRootsView,
)
    requires
        request.watch is None,
    ensures
        ({
            let first = server_step(
                ConnectionPhaseView::Waiting,
                runner,
                ServerEventView::Received(ClientCommandView::Run(request)),
            );
            let loaded = server_step(
                first.phase,
                first.runner,
                ServerEventView::ConfigLoaded { config, roots },
            );
            &&& first.action is LoadConfig
            &&& loaded.runner == after_start_request(runner, config, request.targets)
            &&& match start_request(config, request.targets, roots) {
                Ok(start) => loaded.action == (if runner.refresh_on_change {
                    watch_action(start)
                } else {
                    ServerActionView::DisableWatch
                }),
                Err(error) => loaded.action == ServerActionView::Respond(
                    ServerResponseView::Error(runner_message(error)),
                ),
            }
        }),
{
}

/// Targets that cannot be resolved, or stand for nothing, are not started: the request is refused
/// and nothing changes.
pub proof fn unresolved_targets_are_not_started(
    runner: RunnerView,
    config: ConfigView,
    targets: Seq<Seq<char>>,
    roots: WatchRootsView,
)
    ensures
        resolved(config, targets) is Err ==> start_request(config, targets, roots) is Err
            && after_start_request(runner, config, targets) == runner,
        resolved(config, targets) matches Ok(units) ==> (units.len() == 0 ==> start_request(
            config,
            targets,
            roots,
        ) is Err && after_start_request(runner, config, targets) == runner),
{
}

/// A question that cannot be answered for want of a configuration is answered with why.
pub proof fn unanswerable_question_is_told(
    runner: RunnerView,
    targets: Seq<Seq<char>>,
    message: Seq<char>,
)
    ensures
        ({
            let step = server_step(
                ConnectionPhaseView::Informing { targets },
                runner,
                ServerEventView::ConfigFailed { message },
            );
            &&& step.action == ServerActionView::Respond(
                ServerResponseView::Error("failed to load configuration: "@ + message),
            )
            &&& step.runner == runner
        }),
{
}

/// Files that cannot be watched break the connection where the request depends on it, and are
/// passed over otherwise.
pub proof fn failed_watch_breaks_strict_requests(runner: RunnerView, strict: bool, failed: bool)
    ensures
        ({
            let step = server_step(
                ConnectionPhaseView::Watching { strict },
                runner,
                ServerEventView::WatchChanged { failed },
            );
            &&& strict && failed ==> step.action is Close
            &&& !strict || !failed ==> step.action == ServerActionView::Respond(
                ServerResponseView::Ack,
            )
            &&& step.runner == runner
        }),
{
}

/// The supervisor logs and keeps runs as it is configured; without a configuration it logs to
/// `rufa.log`, keeps five old logs and three runs, and never rotates.
pub proof fn supervisor_is_set_up_as_configured(config: ConfigView)
    ensures
        settings_of(Some(config)).0 == config.log,
        settings_of(Some(config)).1 == config.run_history.keep_runs,
        settings_of(None).0.file == "rufa.log"@,
        settings_of(None).0.keep_history_count == 5,
        settings_of(None).0.rotation_after is None,
        settings_of(None).0.rotation_size_bytes is None,
        settings_of(None).1 == 3,
{
}

} // verus!
