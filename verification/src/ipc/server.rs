//! How the supervisor deals with a command: step by step, with the work that reaches outside done
//! between the steps.

use vstd::prelude::*;

use crate::config::model::{
    default_log, Config, ConfigView, LogConfig, LogConfigView, RunHistoryConfig,
};
use crate::ipc::info::{gather_info, info_told};
use crate::ipc::protocol::{
    ClientCommand, ClientCommandView, RefreshCommand, RefreshMode, RunRequestView, ServerResponse,
    ServerResponseView,
};
use crate::names::listing;
use crate::runner::refresh::{after_stale_restart, stale_names, stale_restart};
use crate::runner::requests::{lemma_start_outcome, lemma_watched_services, well_named};
use crate::runner::resolve::resolved;
use crate::runner::supervisor::{
    after_restart_request, after_start_request, restart_names, restart_request, restart_selection,
    runner_message, start_request, Runner, RunnerErrorView,
    RunnerView, StartOutcome, StartOutcomeView, WatchRoots, WatchRootsView, WatchSpec,
    WatchSpecView,
};
use crate::views::Duplicate;

verus! {

/// Where the work for a client stands.
#[derive(Debug, PartialEq, Eq)]
pub enum ConnectionPhase {
    /// No command has been read yet.
    Waiting,
    /// Targets are to be started once the configuration is there.
    Starting { targets: Vec<String> },
    /// Targets are to be started once the configuration is there, with the file watcher or
    /// without it.
    Running { targets: Vec<String>, watch: bool },
    /// Targets are to be restarted once the configuration is there.
    Restarting { targets: Vec<String>, all: bool },
    /// Stale targets are to be restarted once the configuration is there.
    RestartingStale,
    /// A question is to be answered once the configuration is there.
    Informing { targets: Vec<String> },
    /// The file watcher is being changed. Where it is strict, a failure leaves the client without
    /// an answer.
    Watching { strict: bool },
    /// Targets are being ended.
    Ending,
    /// A setting is being written down.
    Configuring,
    /// All targets are being ended for good.
    Stopping,
    /// The file watcher is being turned off for good, after all targets were ended or that failed.
    Disabling { error: Option<String> },
    /// Everything is done.
    Closed,
}

/// What a [`ConnectionPhase`] stands for.
pub enum ConnectionPhaseView {
    Waiting,
    Starting { targets: Seq<Seq<char>> },
    Running { targets: Seq<Seq<char>>, watch: bool },
    Restarting { targets: Seq<Seq<char>>, all: bool },
    RestartingStale,
    Informing { targets: Seq<Seq<char>> },
    Watching { strict: bool },
    Ending,
    Configuring,
    Stopping,
    Disabling { error: Option<Seq<char>> },
    Closed,
}

impl DeepView for ConnectionPhase {
    type V = ConnectionPhaseView;

    open spec fn deep_view(&self) -> ConnectionPhaseView {
        match self {
            ConnectionPhase::Waiting => ConnectionPhaseView::Waiting,
            ConnectionPhase::Starting { targets } => ConnectionPhaseView::Starting {
                targets: targets.deep_view(),
            },
            ConnectionPhase::Running { targets, watch } => ConnectionPhaseView::Running {
                targets: targets.deep_view(),
                watch: *watch,
            },
            ConnectionPhase::Restarting { targets, all } => ConnectionPhaseView::Restarting {
                targets: targets.deep_view(),
                all: *all,
            },
            ConnectionPhase::RestartingStale => ConnectionPhaseView::RestartingStale,
            ConnectionPhase::Informing { targets } => ConnectionPhaseView::Informing {
                targets: targets.deep_view(),
            },
            ConnectionPhase::Watching { strict } => ConnectionPhaseView::Watching {
                strict: *strict,
            },
            ConnectionPhase::Ending => ConnectionPhaseView::Ending,
            ConnectionPhase::Configuring => ConnectionPhaseView::Configuring,
            ConnectionPhase::Stopping => ConnectionPhaseView::Stopping,
            ConnectionPhase::Disabling { error } => ConnectionPhaseView::Disabling {
                error: error.deep_view(),
            },
            ConnectionPhase::Closed => ConnectionPhaseView::Closed,
        }
    }
}

impl Duplicate for ConnectionPhase {
    fn duplicate(&self) -> (copy: Self) {
        match self {
            ConnectionPhase::Waiting => ConnectionPhase::Waiting,
            ConnectionPhase::Starting { targets } => ConnectionPhase::Starting {
                targets: targets.duplicate(),
            },
            ConnectionPhase::Running { targets, watch } => ConnectionPhase::Running {
                targets: targets.duplicate(),
                watch: *watch,
            },
            ConnectionPhase::Restarting { targets, all } => ConnectionPhase::Restarting {
                targets: targets.duplicate(),
                all: *all,
            },
            ConnectionPhase::RestartingStale => ConnectionPhase::RestartingStale,
            ConnectionPhase::Informing { targets } => ConnectionPhase::Informing {
                targets: targets.duplicate(),
            },
            ConnectionPhase::Watching { strict } => ConnectionPhase::Watching { strict: *strict },
            ConnectionPhase::Ending => ConnectionPhase::Ending,
            ConnectionPhase::Configuring => ConnectionPhase::Configuring,
            ConnectionPhase::Stopping => ConnectionPhase::Stopping,
            ConnectionPhase::Disabling { error } => ConnectionPhase::Disabling {
                error: error.duplicate(),
            },
            ConnectionPhase::Closed => ConnectionPhase::Closed,
        }
    }
}

/// What happened outside.
#[derive(Debug, PartialEq, Eq)]
pub enum ServerEvent {
    /// The client went away without a command.
    NothingRead,
    Received(ClientCommand),
    ConfigLoaded { config: Config, roots: WatchRoots },
    ConfigFailed { message: String },
    WatchChanged { failed: bool },
    TargetsEnded { error: Option<String> },
    SettingWritten,
}

/// What a [`ServerEvent`] stands for.
pub enum ServerEventView {
    NothingRead,
    Received(ClientCommandView),
    ConfigLoaded { config: ConfigView, roots: WatchRootsView },
    ConfigFailed { message: Seq<char> },
    WatchChanged { failed: bool },
    TargetsEnded { error: Option<Seq<char>> },
    SettingWritten,
}

impl DeepView for ServerEvent {
    type V = ServerEventView;

    open spec fn deep_view(&self) -> ServerEventView {
        match self {
            ServerEvent::NothingRead => ServerEventView::NothingRead,
            ServerEvent::Received(a) => ServerEventView::Received(a.deep_view()),
            ServerEvent::ConfigLoaded { config, roots } => ServerEventView::ConfigLoaded {
                config: config.deep_view(),
                roots: roots.deep_view(),
            },
            ServerEvent::ConfigFailed { message } => ServerEventView::ConfigFailed {
                message: message.deep_view(),
            },
            ServerEvent::WatchChanged { failed } => ServerEventView::WatchChanged {
                failed: *failed,
            },
            ServerEvent::TargetsEnded { error } => ServerEventView::TargetsEnded {
                error: error.deep_view(),
            },
            ServerEvent::SettingWritten => ServerEventView::SettingWritten,
        }
    }
}

/// What is to be done next.
#[derive(Debug, PartialEq, Eq)]
pub enum ServerAction {
    LoadConfig,
    EnableWatch(WatchSpec),
    DisableWatch,
    EndTargets(Vec<String>),
    EndAllTargets,
    WriteSetting { refresh: bool },
    /// Answer, and wait for the next client.
    Respond(ServerResponse),
    /// Acknowledge, and shut down.
    RespondAndShutDown,
    /// Wait for the next client without an answer.
    Close,
}

/// What a [`ServerAction`] stands for.
pub enum ServerActionView {
    LoadConfig,
    EnableWatch(WatchSpecView),
    DisableWatch,
    EndTargets(Seq<Seq<char>>),
    EndAllTargets,
    WriteSetting { refresh: bool },
    Respond(ServerResponseView),
    RespondAndShutDown,
    Close,
}

impl DeepView for ServerAction {
    type V = ServerActionView;

    open spec fn deep_view(&self) -> ServerActionView {
        match self {
            ServerAction::LoadConfig => ServerActionView::LoadConfig,
            ServerAction::EnableWatch(a) => ServerActionView::EnableWatch(a.deep_view()),
            ServerAction::DisableWatch => ServerActionView::DisableWatch,
            ServerAction::EndTargets(a) => ServerActionView::EndTargets(a.deep_view()),
            ServerAction::EndAllTargets => ServerActionView::EndAllTargets,
            ServerAction::WriteSetting { refresh } => ServerActionView::WriteSetting {
                refresh: *refresh,
            },
            ServerAction::Respond(a) => ServerActionView::Respond(a.deep_view()),
            ServerAction::RespondAndShutDown => ServerActionView::RespondAndShutDown,
            ServerAction::Close => ServerActionView::Close,
        }
    }
}


/// What follows from a step.
pub struct ServerStep {
    pub phase: ConnectionPhaseView,
    pub runner: RunnerView,
    pub action: ServerActionView,
}

/// The answer is given and nothing is left to do.
pub open spec fn answered(runner: RunnerView, response: ServerResponseView) -> ServerStep {
    ServerStep {
        phase: ConnectionPhaseView::Closed,
        runner,
        action: ServerActionView::Respond(response),
    }
}

/// Work outside comes next.
pub open spec fn working(
    runner: RunnerView,
    phase: ConnectionPhaseView,
    action: ServerActionView,
) -> ServerStep {
    ServerStep { phase, runner, action }
}

/// Nothing is left to do and there is no answer.
pub open spec fn closing(runner: RunnerView) -> ServerStep {
    ServerStep { phase: ConnectionPhaseView::Closed, runner, action: ServerActionView::Close }
}

/// The supervisor with another refresh setting.
pub open spec fn with_refresh(runner: RunnerView, refresh: bool) -> RunnerView {
    RunnerView { refresh_on_change: refresh, ..runner }
}

/// Whether a run is to be watched: as it says itself, or else as the supervisor is set.
pub open spec fn watch_wanted(runner: RunnerView, asked: Option<bool>) -> bool {
    match asked {
        Some(watch) => watch,
        None => runner.refresh_on_change,
    }
}

/// The step that a command leads to.
pub open spec fn command_step(runner: RunnerView, command: ClientCommandView) -> ServerStep {
    match command {
        ClientCommandView::Ping => answered(runner, ServerResponseView::Ack),
        ClientCommandView::Run(request) => working(
            runner,
            ConnectionPhaseView::Running {
                targets: request.targets,
                watch: watch_wanted(runner, request.watch),
            },
            ServerActionView::LoadConfig,
        ),
        ClientCommandView::StartTargets(request) => working(
            runner,
            ConnectionPhaseView::Starting { targets: request.targets },
            ServerActionView::LoadConfig,
        ),
        ClientCommandView::Restart(request) => working(
            runner,
            ConnectionPhaseView::Restarting { targets: request.targets, all: request.all },
            ServerActionView::LoadConfig,
        ),
        ClientCommandView::Info(request) => working(
            runner,
            ConnectionPhaseView::Informing { targets: request.targets },
            ServerActionView::LoadConfig,
        ),
        ClientCommandView::Log(_) => answered(runner, ServerResponseView::Ack),
        ClientCommandView::Kill(request) => if request.targets.len() == 0 {
            answered(runner, ServerResponseView::Ack)
        } else {
            working(
                runner,
                ConnectionPhaseView::Ending,
                ServerActionView::EndTargets(request.targets),
            )
        },
        ClientCommandView::StopTargets(request) => if request.targets.len() == 0 {
            answered(runner, ServerResponseView::Ack)
        } else {
            working(
                runner,
                ConnectionPhaseView::Ending,
                ServerActionView::EndTargets(request.targets),
            )
        },
        ClientCommandView::Configure(request) => match request.default_watch {
            Some(refresh) => working(
                with_refresh(runner, refresh),
                ConnectionPhaseView::Configuring,
                ServerActionView::WriteSetting { refresh },
            ),
            None => answered(runner, ServerResponseView::Ack),
        },
        ClientCommandView::Refresh(RefreshCommand::SetMode { mode }) => working(
            with_refresh(runner, mode == RefreshMode::Auto),
            ConnectionPhaseView::Configuring,
            ServerActionView::WriteSetting { refresh: mode == RefreshMode::Auto },
        ),
        ClientCommandView::Refresh(RefreshCommand::RestartStaleTargets) => working(
            runner,
            ConnectionPhaseView::RestartingStale,
            ServerActionView::LoadConfig,
        ),
        ClientCommandView::Stop => working(
            runner,
            ConnectionPhaseView::Stopping,
            ServerActionView::EndAllTargets,
        ),
    }
}

/// The step after a request to start or restart targets was decided: the file watcher follows it.
pub open spec fn outcome_step(
    runner: RunnerView,
    decided: Result<StartOutcomeView, RunnerErrorView>,
    strict: bool,
) -> ServerStep {
    match decided {
        Ok(start) => match start.rufa_watch {
            Some(watch) => working(
                runner,
                ConnectionPhaseView::Watching { strict },
                ServerActionView::EnableWatch(watch),
            ),
            None => working(
                runner,
                ConnectionPhaseView::Watching { strict: false },
                ServerActionView::DisableWatch,
            ),
        },
        Err(error) => answered(runner, ServerResponseView::Error(runner_message(error))),
    }
}

/// The step after a request to run targets was decided. A run that is not watched turns the file
/// watcher off.
pub open spec fn run_step(
    runner: RunnerView,
    decided: Result<StartOutcomeView, RunnerErrorView>,
    watch: bool,
) -> ServerStep {
    match decided {
        Ok(_) if !watch => outcome_step(runner, Ok(StartOutcomeView { rufa_watch: None }), true),
        _ => outcome_step(runner, decided, true),
    }
}

/// The step after stale targets were asked to restart. Where there were none nothing changes.
pub open spec fn stale_step(
    runner: RunnerView,
    decided: Result<(Seq<Seq<char>>, StartOutcomeView), RunnerErrorView>,
) -> ServerStep {
    match decided {
        Ok((names, start)) => if names.len() == 0 {
            answered(runner, ServerResponseView::Ack)
        } else {
            outcome_step(runner, Ok(start), false)
        },
        Err(error) => outcome_step(runner, Err(error), false),
    }
}

/// The step after stale targets were to be restarted and the configuration could not be loaded:
/// that matters only where there are any.
pub open spec fn stale_unconfigured_step(runner: RunnerView, message: Seq<char>) -> ServerStep {
    let after = after_stale_restart(runner, None);
    if stale_names(runner.state.targets).len() == 0 {
        answered(after, ServerResponseView::Ack)
    } else {
        answered(after, ServerResponseView::Error(message))
    }
}

/// The step that something outside leads to.
pub open spec fn server_step(
    phase: ConnectionPhaseView,
    runner: RunnerView,
    event: ServerEventView,
) -> ServerStep {
    match (phase, event) {
        (ConnectionPhaseView::Waiting, ServerEventView::Received(command)) => command_step(
            runner,
            command,
        ),
        (
            ConnectionPhaseView::Starting { targets },
            ServerEventView::ConfigLoaded { config, roots },
        ) => outcome_step(
            after_start_request(runner, config, targets),
            start_request(config, targets, roots),
            true,
        ),
        (
            ConnectionPhaseView::Running { targets, watch },
            ServerEventView::ConfigLoaded { config, roots },
        ) => run_step(
            after_start_request(runner, config, targets),
            start_request(config, targets, roots),
            watch,
        ),
        (
            ConnectionPhaseView::Restarting { targets, all },
            ServerEventView::ConfigLoaded { config, roots },
        ) => outcome_step(
            after_restart_request(runner, config, targets, all),
            restart_request(runner, config, targets, all, roots),
            false,
        ),
        (
            ConnectionPhaseView::RestartingStale,
            ServerEventView::ConfigLoaded { config, roots },
        ) => stale_step(
            after_stale_restart(runner, Some(config)),
            stale_restart(runner, Some(config), roots),
        ),
        (
            ConnectionPhaseView::Informing { targets },
            ServerEventView::ConfigLoaded { config, .. },
        ) => answered(runner, ServerResponseView::Info(info_told(runner, config, targets))),
        (ConnectionPhaseView::Starting { .. }, ServerEventView::ConfigFailed { message }) =>
            answered(runner, ServerResponseView::Error(message)),
        (ConnectionPhaseView::Running { .. }, ServerEventView::ConfigFailed { message }) =>
            answered(runner, ServerResponseView::Error(message)),
        (ConnectionPhaseView::Restarting { .. }, ServerEventView::ConfigFailed { message }) =>
            answered(runner, ServerResponseView::Error(message)),
        (ConnectionPhaseView::RestartingStale, ServerEventView::ConfigFailed { message }) =>
            stale_unconfigured_step(runner, message),
        (ConnectionPhaseView::Informing { .. }, ServerEventView::ConfigFailed { message }) =>
            answered(
            runner,
            ServerResponseView::Error("failed to load configuration: "@ + message),
        ),
        (ConnectionPhaseView::Watching { strict }, ServerEventView::WatchChanged { failed }) =>
            if strict && failed {
            closing(runner)
        } else {
            answered(runner, ServerResponseView::Ack)
        },
        (ConnectionPhaseView::Ending, ServerEventView::TargetsEnded { error }) => match error {
            Some(message) => answered(runner, ServerResponseView::Error(message)),
            None => answered(runner, ServerResponseView::Ack),
        },
        (ConnectionPhaseView::Configuring, ServerEventView::SettingWritten) => answered(
            runner,
            ServerResponseView::Ack,
        ),
        (ConnectionPhaseView::Stopping, ServerEventView::TargetsEnded { error }) => working(
            runner,
            ConnectionPhaseView::Disabling { error },
            ServerActionView::DisableWatch,
        ),
        (ConnectionPhaseView::Disabling { error }, ServerEventView::WatchChanged { .. }) =>
            match error {
            Some(message) => answered(runner, ServerResponseView::Error(message)),
            None => ServerStep {
                phase: ConnectionPhaseView::Closed,
                runner,
                action: ServerActionView::RespondAndShutDown,
            },
        },
        _ => closing(runner),
    }
}

/// The work for one client.
#[derive(Debug)]
pub struct Connection {
    pub phase: ConnectionPhase,
}

impl Connection {
    /// A client has connected.
    pub fn new() -> (r: Self)
        ensures
            r.phase.deep_view() == ConnectionPhaseView::Waiting,
    {
        Connection { phase: ConnectionPhase::Waiting }
    }

    fn take_command(&mut self, runner: &mut Runner, command: ClientCommand) -> (action: ServerAction)
        requires
            old(self).phase.deep_view() == ConnectionPhaseView::Closed,
        ensures
            ({
                let step = command_step(old(runner).deep_view(), command.deep_view());
                &&& final(self).phase.deep_view() == step.phase
                &&& final(runner).deep_view() == step.runner
                &&& action.deep_view() == step.action
            }),
    {
        match command {
            ClientCommand::Ping => ServerAction::Respond(ServerResponse::Ack),
            ClientCommand::Run(request) => {
                let watch: bool = match request.watch {
                    Some(watch) => watch,
                    None => runner.refresh_on_change,
                };
                self.phase = ConnectionPhase::Running { targets: request.targets, watch };
                ServerAction::LoadConfig
            },
            ClientCommand::StartTargets(request) => {
                self.phase = ConnectionPhase::Starting { targets: request.targets };
                ServerAction::LoadConfig
            },
            ClientCommand::Restart(request) => {
                self.phase = ConnectionPhase::Restarting {
                    targets: request.targets,
                    all: request.all,
                };
                ServerAction::LoadConfig
            },
            ClientCommand::Info(request) => {
                self.phase = ConnectionPhase::Informing { targets: request.targets };
                ServerAction::LoadConfig
            },
            ClientCommand::Log(_) => ServerAction::Respond(ServerResponse::Ack),
            ClientCommand::Kill(request) => {
                if request.targets.len() == 0 {
                    return ServerAction::Respond(ServerResponse::Ack);
                }
                self.phase = ConnectionPhase::Ending;
                ServerAction::EndTargets(request.targets)
            },
            ClientCommand::StopTargets(request) => {
                if request.targets.len() == 0 {
                    return ServerAction::Respond(ServerResponse::Ack);
                }
                self.phase = ConnectionPhase::Ending;
                ServerAction::EndTargets(request.targets)
            },
            ClientCommand::Configure(request) => match request.default_watch {
                Some(refresh) => {
                    runner.refresh_on_change = refresh;
                    self.phase = ConnectionPhase::Configuring;
                    ServerAction::WriteSetting { refresh }
                },
                None => ServerAction::Respond(ServerResponse::Ack),
            },
            ClientCommand::Refresh(RefreshCommand::SetMode { mode }) => {
                let refresh: bool = mode == RefreshMode::Auto;
                runner.refresh_on_change = refresh;
                self.phase = ConnectionPhase::Configuring;
                ServerAction::WriteSetting { refresh }
            },
            ClientCommand::Refresh(RefreshCommand::RestartStaleTargets) => {
                self.phase = ConnectionPhase::RestartingStale;
                ServerAction::LoadConfig
            },
            ClientCommand::Stop => {
                self.phase = ConnectionPhase::Stopping;
                ServerAction::EndAllTargets
            },
        }
    }

    fn follow_outcome(&mut self, start: StartOutcome, strict: bool) -> (action: ServerAction)
        ensures
            forall|runner: RunnerView|
                #![trigger outcome_step(runner, Ok(start.deep_view()), strict)]
                final(self).phase.deep_view() == outcome_step(
                    runner,
                    Ok(start.deep_view()),
                    strict,
                ).phase && action.deep_view() == outcome_step(
                    runner,
                    Ok(start.deep_view()),
                    strict,
                ).action && outcome_step(runner, Ok(start.deep_view()), strict).runner == runner,
    {
        match start.rufa_watch {
            Some(watch) => {
                self.phase = ConnectionPhase::Watching { strict };
                ServerAction::EnableWatch(watch)
            },
            None => {
                self.phase = ConnectionPhase::Watching { strict: false };
                ServerAction::DisableWatch
            },
        }
    }

    /// Takes the next step after something outside, and tells what is to be done.
    pub fn advance(&mut self, runner: &mut Runner, event: ServerEvent) -> (action: ServerAction)
        ensures
            ({
                let step = server_step(
                    old(self).phase.deep_view(),
                    old(runner).deep_view(),
                    event.deep_view(),
                );
                &&& final(self).phase.deep_view() == step.phase
                &&& final(runner).deep_view() == step.runner
                &&& action.deep_view() == step.action
            }),
    {
        let mut phase = ConnectionPhase::Closed;
        std::mem::swap(&mut phase, &mut self.phase);
        match (phase, event) {
            (ConnectionPhase::Waiting, ServerEvent::Received(command)) => self.take_command(
                runner,
                command,
            ),
            (ConnectionPhase::Starting { targets }, ServerEvent::ConfigLoaded { config, roots }) =>
                match runner.request_start(&config, &targets, &roots) {
                Ok(start) => self.follow_outcome(start, true),
                Err(error) => ServerAction::Respond(ServerResponse::Error(error.message())),
            },
            (
                ConnectionPhase::Running { targets, watch },
                ServerEvent::ConfigLoaded { config, roots },
            ) => match runner.request_start(&config, &targets, &roots) {
                Ok(start) => {
                    let followed = if watch {
                        start
                    } else {
                        StartOutcome { rufa_watch: None }
                    };
                    self.follow_outcome(followed, true)
                },
                Err(error) => ServerAction::Respond(ServerResponse::Error(error.message())),
            },
            (
                ConnectionPhase::Restarting { targets, all },
                ServerEvent::ConfigLoaded { config, roots },
            ) => match runner.request_restart(&config, &targets, all, &roots) {
                Ok(start) => self.follow_outcome(start, false),
                Err(error) => ServerAction::Respond(ServerResponse::Error(error.message())),
            },
            (
                ConnectionPhase::RestartingStale,
                ServerEvent::ConfigLoaded { config, roots },
            ) => match runner.restart_stale_targets(Some(&config), &roots) {
                Ok((names, start)) => {
                    if names.len() == 0 {
                        return ServerAction::Respond(ServerResponse::Ack);
                    }
                    self.follow_outcome(start, false)
                },
                Err(error) => ServerAction::Respond(ServerResponse::Error(error.message())),
            },
            (
                ConnectionPhase::Informing { targets },
                ServerEvent::ConfigLoaded { config, .. },
            ) => ServerAction::Respond(
                ServerResponse::Info(gather_info(runner, &config, &targets)),
            ),
            (ConnectionPhase::Starting { .. }, ServerEvent::ConfigFailed { message }) =>
                ServerAction::Respond(ServerResponse::Error(message)),
            (ConnectionPhase::Running { .. }, ServerEvent::ConfigFailed { message }) =>
                ServerAction::Respond(ServerResponse::Error(message)),
            (ConnectionPhase::Restarting { .. }, ServerEvent::ConfigFailed { message }) =>
                ServerAction::Respond(ServerResponse::Error(message)),
            (ConnectionPhase::RestartingStale, ServerEvent::ConfigFailed { message }) => {
                let names: Vec<String> = runner.take_stale_targets();
                if names.len() == 0 {
                    return ServerAction::Respond(ServerResponse::Ack);
                }
                ServerAction::Respond(ServerResponse::Error(message))
            },
            (ConnectionPhase::Informing { .. }, ServerEvent::ConfigFailed { message }) => {
                let mut text: String = "failed to load configuration: ".to_owned();
                text.append(message.as_str());
                ServerAction::Respond(ServerResponse::Error(text))
            },
            (ConnectionPhase::Watching { strict }, ServerEvent::WatchChanged { failed }) => {
                if strict && failed {
                    ServerAction::Close
                } else {
                    ServerAction::Respond(ServerResponse::Ack)
                }
            },
            (ConnectionPhase::Ending, ServerEvent::TargetsEnded { error }) => match error {
                Some(message) => ServerAction::Respond(ServerResponse::Error(message)),
                None => ServerAction::Respond(ServerResponse::Ack),
            },
            (ConnectionPhase::Configuring, ServerEvent::SettingWritten) => ServerAction::Respond(
                ServerResponse::Ack,
            ),
            (ConnectionPhase::Stopping, ServerEvent::TargetsEnded { error }) => {
                self.phase = ConnectionPhase::Disabling { error };
                ServerAction::DisableWatch
            },
            (ConnectionPhase::Disabling { error }, ServerEvent::WatchChanged { .. }) => match error {
                Some(message) => ServerAction::Respond(ServerResponse::Error(message)),
                None => ServerAction::RespondAndShutDown,
            },
            _ => ServerAction::Close,
        }
    }
}

/// How the supervisor logs and how many runs it keeps.
pub open spec fn settings_of(config: Option<ConfigView>) -> (LogConfigView, usize) {
    match config {
        Some(config) => (config.log, config.run_history.keep_runs),
        None => (default_log(), 3),
    }
}

/// How the supervisor logs and how many runs it keeps: as configured, or by default where the
/// configuration cannot be read.
pub fn runner_settings(config: Option<&Config>) -> (r: (LogConfig, usize))
    ensures
        (r.0.deep_view(), r.1) == settings_of(config.deep_view()),
{
    match config {
        Some(config) => (config.log.duplicate(), config.run_history.keep_runs),
        None => (LogConfig::default(), RunHistoryConfig::default().keep_runs),
    }
}

// ---------------------------------------------------------------------------
// Laws
// ---------------------------------------------------------------------------

/// How many steps are left at most.
pub open spec fn steps_left(phase: ConnectionPhaseView) -> nat {
    match phase {
        ConnectionPhaseView::Waiting => 3,
        ConnectionPhaseView::Starting { .. } => 2,
        ConnectionPhaseView::Running { .. } => 2,
        ConnectionPhaseView::Restarting { .. } => 2,
        ConnectionPhaseView::RestartingStale => 2,
        ConnectionPhaseView::Informing { .. } => 2,
        ConnectionPhaseView::Stopping => 2,
        ConnectionPhaseView::Watching { .. } => 1,
        ConnectionPhaseView::Ending => 1,
        ConnectionPhaseView::Configuring => 1,
        ConnectionPhaseView::Disabling { .. } => 1,
        ConnectionPhaseView::Closed => 0,
    }
}

/// Whether an action ends the work for a client.
pub open spec fn ends(action: ServerActionView) -> bool {
    action is Respond || action is RespondAndShutDown || action is Close
}

/// The work for a client comes to an end: each step leaves fewer steps, and the work is over
/// exactly when the action says so.
pub proof fn every_client_is_dealt_with(
    phase: ConnectionPhaseView,
    runner: RunnerView,
    event: ServerEventView,
)
    ensures
        steps_left(server_step(phase, runner, event).phase) < steps_left(phase) || phase
            == ConnectionPhaseView::Closed,
        ends(server_step(phase, runner, event).action) <==> server_step(phase, runner, event).phase
            == ConnectionPhaseView::Closed,
{
}

/// Only a request to stop shuts the supervisor down, and only after all targets were ended: the
/// three steps that lead there allow no other.
pub proof fn only_stop_shuts_down(
    phase: ConnectionPhaseView,
    runner: RunnerView,
    event: ServerEventView,
)
    ensures
        server_step(phase, runner, event).action is RespondAndShutDown ==> phase == (
        ConnectionPhaseView::Disabling { error: None }),
        server_step(phase, runner, event).phase is Disabling ==> phase is Stopping && event == (
        ServerEventView::TargetsEnded {
            error: server_step(phase, runner, event).phase->error,
        }),
        server_step(phase, runner, event).phase is Stopping ==> phase is Waiting && event
            == ServerEventView::Received(ClientCommandView::Stop),
{
}

/// A request that is answered with an error leaves the supervisor as it was. Stale targets are
/// taken note of even where their restart fails.
pub proof fn refused_request_changes_nothing(
    phase: ConnectionPhaseView,
    runner: RunnerView,
    event: ServerEventView,
)
    requires
        !(phase is RestartingStale),
        event matches ServerEventView::ConfigLoaded { config, .. } ==> well_named(config),
        server_step(phase, runner, event).action matches ServerActionView::Respond(response)
            && response is Error,
    ensures
        server_step(phase, runner, event).runner == runner,
{
    if let ServerEventView::ConfigLoaded { config, roots } = event {
        match phase {
            ConnectionPhaseView::Starting { targets } => {
                if resolved(config, targets) is Ok {
                    lemma_start_outcome(config, targets, roots);
                }
            },
            ConnectionPhaseView::Running { targets, .. } => {
                if resolved(config, targets) is Ok {
                    lemma_start_outcome(config, targets, roots);
                }
            },
            ConnectionPhaseView::Restarting { targets, all } => {
                if restart_selection(runner, config, targets, all) is Ok {
                    let names = restart_names(listing(runner.processes), targets, all)->Ok_0;
                    lemma_start_outcome(config, names, roots);
                    lemma_watched_services(resolved(config, names)->Ok_0);
                }
            },
            _ => {},
        }
    }
}

/// A run that asks not to be watched turns the file watcher off, and one that asks to be watched
/// is watched as a start of its targets is, whatever the supervisor is set to.
pub proof fn run_is_watched_as_it_asks(
    runner: RunnerView,
    request: RunRequestView,
    config: ConfigView,
    roots: WatchRootsView,
    later: RunnerView,
)
    requires
        request.watch is Some,
        start_request(config, request.targets, roots) is Ok,
    ensures
        ({
            let received = ServerEventView::Received(ClientCommandView::Run(request));
            let loaded = ServerEventView::ConfigLoaded { config, roots };
            let first = server_step(ConnectionPhaseView::Waiting, runner, received);
            let second = server_step(first.phase, later, loaded);
            let start = ConnectionPhaseView::Starting { targets: request.targets };
            &&& first.action == ServerActionView::LoadConfig
            &&& second.runner == after_start_request(later, config, request.targets)
            &&& second.action == (if request.watch == Some(false) {
                ServerActionView::DisableWatch
            } else {
                server_step(start, later, loaded).action
            })
        }),
{
}

/// Asking a question changes nothing.
pub proof fn asking_changes_nothing(
    runner: RunnerView,
    targets: Seq<Seq<char>>,
    event: ServerEventView,
)
    ensures
        server_step(ConnectionPhaseView::Informing { targets }, runner, event).runner == runner,
{
}

/// After the refresh setting was changed, questions are answered with the new setting.
pub proof fn refresh_setting_is_told(
    runner: RunnerView,
    mode: RefreshMode,
    config: ConfigView,
    targets: Seq<Seq<char>>,
)
    ensures
        ({
            let step = command_step(
                runner,
                ClientCommandView::Refresh(RefreshCommand::SetMode { mode }),
            );
            &&& step.action == (ServerActionView::WriteSetting { refresh: mode == RefreshMode::Auto })
            &&& info_told(step.runner, config, targets).refresh_target_on_change_enabled == (mode
                == RefreshMode::Auto)
        }),
{
}

} // verus!
