//! What clients ask of the supervisor, and what it answers.

use vstd::prelude::*;

use crate::views::Duplicate;

verus! {

/// Which log is asked for.
#[derive(Debug, Clone, Copy, PartialEq, Eq, Structural)]
pub enum LogRequestKind {
    Combined,
}

impl DeepView for LogRequestKind {
    type V = LogRequestKind;

    open spec fn deep_view(&self) -> LogRequestKind {
        *self
    }
}

impl Duplicate for LogRequestKind {
    fn duplicate(&self) -> (copy: Self) {
        *self
    }
}

/// Who restarts a service when its files change.
#[derive(Debug, Clone, Copy, PartialEq, Eq, Structural)]
pub enum WatchPreferenceKind {
    Rufa,
    Runtime,
}

impl DeepView for WatchPreferenceKind {
    type V = WatchPreferenceKind;

    open spec fn deep_view(&self) -> WatchPreferenceKind {
        *self
    }
}

impl Duplicate for WatchPreferenceKind {
    fn duplicate(&self) -> (copy: Self) {
        *self
    }
}

/// Who restarts a service when its files change.
pub type RefreshWatchTypeKind = WatchPreferenceKind;

/// Whether a target keeps running or runs once.
#[derive(Debug, Clone, Copy, PartialEq, Eq, Structural)]
pub enum BehaviorKind {
    Service,
    Job,
}

impl DeepView for BehaviorKind {
    type V = BehaviorKind;

    open spec fn deep_view(&self) -> BehaviorKind {
        *self
    }
}

impl Duplicate for BehaviorKind {
    fn duplicate(&self) -> (copy: Self) {
        *self
    }
}

/// Whether changes of files restart services at once.
#[derive(Debug, Clone, Copy, PartialEq, Eq, Structural)]
pub enum RefreshMode {
    Auto,
    Off,
}

impl DeepView for RefreshMode {
    type V = RefreshMode;

    open spec fn deep_view(&self) -> RefreshMode {
        *self
    }
}

impl Duplicate for RefreshMode {
    fn duplicate(&self) -> (copy: Self) {
        *self
    }
}

/// What is asked about restarting services when their files change.
#[derive(Debug, Clone, Copy, PartialEq, Eq, Structural)]
pub enum RefreshCommand {
    SetMode { mode: RefreshMode },
    RestartStaleTargets,
}

impl DeepView for RefreshCommand {
    type V = RefreshCommand;

    open spec fn deep_view(&self) -> RefreshCommand {
        *self
    }
}

impl Duplicate for RefreshCommand {
    fn duplicate(&self) -> (copy: Self) {
        *self
    }
}

/// A request to run targets.
#[derive(Debug, PartialEq, Eq)]
pub struct RunRequest {
    pub targets: Vec<String>,
    pub watch: Option<bool>,
}

/// What a [`RunRequest`] stands for.
pub struct RunRequestView {
    pub targets: Seq<Seq<char>>,
    pub watch: Option<bool>,
}

impl DeepView for RunRequest {
    type V = RunRequestView;

    open spec fn deep_view(&self) -> RunRequestView {
        RunRequestView {
            targets: self.targets.deep_view(),
            watch: self.watch.deep_view(),
        }
    }
}

impl Duplicate for RunRequest {
    fn duplicate(&self) -> (copy: Self) {
        RunRequest {
            targets: self.targets.duplicate(),
            watch: self.watch.duplicate(),
        }
    }
}

/// A request to start targets.
#[derive(Debug, PartialEq, Eq)]
pub struct StartTargetsRequest {
    pub targets: Vec<String>,
}

/// What a [`StartTargetsRequest`] stands for.
pub struct StartTargetsRequestView {
    pub targets: Seq<Seq<char>>,
}

impl DeepView for StartTargetsRequest {
    type V = StartTargetsRequestView;

    open spec fn deep_view(&self) -> StartTargetsRequestView {
        StartTargetsRequestView {
            targets: self.targets.deep_view(),
        }
    }
}

impl Duplicate for StartTargetsRequest {
    fn duplicate(&self) -> (copy: Self) {
        StartTargetsRequest {
            targets: self.targets.duplicate(),
        }
    }
}

/// A request to stop targets.
#[derive(Debug, PartialEq, Eq)]
pub struct StopTargetsRequest {
    pub targets: Vec<String>,
}

/// What a [`StopTargetsRequest`] stands for.
pub struct StopTargetsRequestView {
    pub targets: Seq<Seq<char>>,
}

impl DeepView for StopTargetsRequest {
    type V = StopTargetsRequestView;

    open spec fn deep_view(&self) -> StopTargetsRequestView {
        StopTargetsRequestView {
            targets: self.targets.deep_view(),
        }
    }
}

impl Duplicate for StopTargetsRequest {
    fn duplicate(&self) -> (copy: Self) {
        StopTargetsRequest {
            targets: self.targets.duplicate(),
        }
    }
}

/// A request to end targets.
#[derive(Debug, PartialEq, Eq)]
pub struct KillRequest {
    pub targets: Vec<String>,
}

/// What a [`KillRequest`] stands for.
pub struct KillRequestView {
    pub targets: Seq<Seq<char>>,
}

impl DeepView for KillRequest {
    type V = KillRequestView;

    open spec fn deep_view(&self) -> KillRequestView {
        KillRequestView {
            targets: self.targets.deep_view(),
        }
    }
}

impl Duplicate for KillRequest {
    fn duplicate(&self) -> (copy: Self) {
        KillRequest {
            targets: self.targets.duplicate(),
        }
    }
}

/// A request to change settings.
#[derive(Debug, PartialEq, Eq)]
pub struct ConfigureRequest {
    pub default_watch: Option<bool>,
}

/// What a [`ConfigureRequest`] stands for.
pub struct ConfigureRequestView {
    pub default_watch: Option<bool>,
}

impl DeepView for ConfigureRequest {
    type V = ConfigureRequestView;

    open spec fn deep_view(&self) -> ConfigureRequestView {
        ConfigureRequestView {
            default_watch: self.default_watch.deep_view(),
        }
    }
}

impl Duplicate for ConfigureRequest {
    fn duplicate(&self) -> (copy: Self) {
        ConfigureRequest {
            default_watch: self.default_watch.duplicate(),
        }
    }
}

/// A question about targets; about all where none is named.
#[derive(Debug, PartialEq, Eq)]
pub struct InfoRequest {
    pub targets: Vec<String>,
}

/// What a [`InfoRequest`] stands for.
pub struct InfoRequestView {
    pub targets: Seq<Seq<char>>,
}

impl DeepView for InfoRequest {
    type V = InfoRequestView;

    open spec fn deep_view(&self) -> InfoRequestView {
        InfoRequestView {
            targets: self.targets.deep_view(),
        }
    }
}

impl Duplicate for InfoRequest {
    fn duplicate(&self) -> (copy: Self) {
        InfoRequest {
            targets: self.targets.duplicate(),
        }
    }
}

/// A question about logs.
#[derive(Debug, PartialEq, Eq)]
pub struct LogRequest {
    pub targets: Vec<String>,
    pub tail: Option<usize>,
    pub follow: bool,
    pub generation: Option<u64>,
    pub kind: LogRequestKind,
}

/// What a [`LogRequest`] stands for.
pub struct LogRequestView {
    pub targets: Seq<Seq<char>>,
    pub tail: Option<usize>,
    pub follow: bool,
    pub generation: Option<u64>,
    pub kind: LogRequestKind,
}

impl DeepView for LogRequest {
    type V = LogRequestView;

    open spec fn deep_view(&self) -> LogRequestView {
        LogRequestView {
            targets: self.targets.deep_view(),
            tail: self.tail.deep_view(),
            follow: self.follow,
            generation: self.generation.deep_view(),
            kind: self.kind,
        }
    }
}

impl Duplicate for LogRequest {
    fn duplicate(&self) -> (copy: Self) {
        LogRequest {
            targets: self.targets.duplicate(),
            tail: self.tail.duplicate(),
            follow: self.follow,
            generation: self.generation.duplicate(),
            kind: self.kind,
        }
    }
}

/// A request to restart targets.
#[derive(Debug, PartialEq, Eq)]
pub struct RestartRequest {
    pub targets: Vec<String>,
    pub all: bool,
}

/// What a [`RestartRequest`] stands for.
pub struct RestartRequestView {
    pub targets: Seq<Seq<char>>,
    pub all: bool,
}

impl DeepView for RestartRequest {
    type V = RestartRequestView;

    open spec fn deep_view(&self) -> RestartRequestView {
        RestartRequestView {
            targets: self.targets.deep_view(),
            all: self.all,
        }
    }
}

impl Duplicate for RestartRequest {
    fn duplicate(&self) -> (copy: Self) {
        RestartRequest {
            targets: self.targets.duplicate(),
            all: self.all,
        }
    }
}

/// What a client asks.
#[derive(Debug, PartialEq, Eq)]
pub enum ClientCommand {
    Ping,
    Run(RunRequest),
    Kill(KillRequest),
    Configure(ConfigureRequest),
    Info(InfoRequest),
    Log(LogRequest),
    Restart(RestartRequest),
    Stop,
    StartTargets(StartTargetsRequest),
    StopTargets(StopTargetsRequest),
    Refresh(RefreshCommand),
}

/// What a [`ClientCommand`] stands for.
pub enum ClientCommandView {
    Ping,
    Run(RunRequestView),
    Kill(KillRequestView),
    Configure(ConfigureRequestView),
    Info(InfoRequestView),
    Log(LogRequestView),
    Restart(RestartRequestView),
    Stop,
    StartTargets(StartTargetsRequestView),
    StopTargets(StopTargetsRequestView),
    Refresh(RefreshCommand),
}

impl DeepView for ClientCommand {
    type V = ClientCommandView;

    open spec fn deep_view(&self) -> ClientCommandView {
        match self {
            ClientCommand::Ping => ClientCommandView::Ping,
            ClientCommand::Run(a) => ClientCommandView::Run(a.deep_view()),
            ClientCommand::Kill(a) => ClientCommandView::Kill(a.deep_view()),
            ClientCommand::Configure(a) => ClientCommandView::Configure(a.deep_view()),
            ClientCommand::Info(a) => ClientCommandView::Info(a.deep_view()),
            ClientCommand::Log(a) => ClientCommandView::Log(a.deep_view()),
            ClientCommand::Restart(a) => ClientCommandView::Restart(a.deep_view()),
            ClientCommand::Stop => ClientCommandView::Stop,
            ClientCommand::StartTargets(a) => ClientCommandView::StartTargets(a.deep_view()),
            ClientCommand::StopTargets(a) => ClientCommandView::StopTargets(a.deep_view()),
            ClientCommand::Refresh(a) => ClientCommandView::Refresh(*a),
        }
    }
}

impl Duplicate for ClientCommand {
    fn duplicate(&self) -> (copy: Self) {
        match self {
            ClientCommand::Ping => ClientCommand::Ping,
            ClientCommand::Run(a) => ClientCommand::Run(a.duplicate()),
            ClientCommand::Kill(a) => ClientCommand::Kill(a.duplicate()),
            ClientCommand::Configure(a) => ClientCommand::Configure(a.duplicate()),
            ClientCommand::Info(a) => ClientCommand::Info(a.duplicate()),
            ClientCommand::Log(a) => ClientCommand::Log(a.duplicate()),
            ClientCommand::Restart(a) => ClientCommand::Restart(a.duplicate()),
            ClientCommand::Stop => ClientCommand::Stop,
            ClientCommand::StartTargets(a) => ClientCommand::StartTargets(a.duplicate()),
            ClientCommand::StopTargets(a) => ClientCommand::StopTargets(a.duplicate()),
            ClientCommand::Refresh(a) => ClientCommand::Refresh(*a),
        }
    }
}

/// How a run ended.
#[derive(Debug, PartialEq, Eq)]
pub struct ExitDetails {
    pub code: Option<i32>,
    pub signal: Option<i32>,
    pub at: Option<String>,
}

/// What a [`ExitDetails`] stands for.
pub struct ExitDetailsView {
    pub code: Option<i32>,
    pub signal: Option<i32>,
    pub at: Option<Seq<char>>,
}

impl DeepView for ExitDetails {
    type V = ExitDetailsView;

    open spec fn deep_view(&self) -> ExitDetailsView {
        ExitDetailsView {
            code: self.code.deep_view(),
            signal: self.signal.deep_view(),
            at: self.at.deep_view(),
        }
    }
}

impl Duplicate for ExitDetails {
    fn duplicate(&self) -> (copy: Self) {
        ExitDetails {
            code: self.code.duplicate(),
            signal: self.signal.duplicate(),
            at: self.at.duplicate(),
        }
    }
}

/// A port of a running target.
#[derive(Debug, PartialEq, Eq)]
pub struct PortSummary {
    pub name: String,
    pub port: u16,
    pub protocol: Option<String>,
    pub is_debug: bool,
    pub url: Option<String>,
}

/// What a [`PortSummary`] stands for.
pub struct PortSummaryView {
    pub name: Seq<char>,
    pub port: u16,
    pub protocol: Option<Seq<char>>,
    pub is_debug: bool,
    pub url: Option<Seq<char>>,
}

impl DeepView for PortSummary {
    type V = PortSummaryView;

    open spec fn deep_view(&self) -> PortSummaryView {
        PortSummaryView {
            name: self.name.deep_view(),
            port: self.port,
            protocol: self.protocol.deep_view(),
            is_debug: self.is_debug,
            url: self.url.deep_view(),
        }
    }
}

impl Duplicate for PortSummary {
    fn duplicate(&self) -> (copy: Self) {
        PortSummary {
            name: self.name.duplicate(),
            port: self.port,
            protocol: self.protocol.duplicate(),
            is_debug: self.is_debug,
            url: self.url.duplicate(),
        }
    }
}

/// A run that ended.
#[derive(Debug, PartialEq, Eq)]
pub struct RunHistorySummary {
    pub generation: u64,
    pub last_log: Option<String>,
    pub exit: Option<ExitDetails>,
}

/// What a [`RunHistorySummary`] stands for.
pub struct RunHistorySummaryView {
    pub generation: u64,
    pub last_log: Option<Seq<char>>,
    pub exit: Option<ExitDetailsView>,
}

impl DeepView for RunHistorySummary {
    type V = RunHistorySummaryView;

    open spec fn deep_view(&self) -> RunHistorySummaryView {
        RunHistorySummaryView {
            generation: self.generation,
            last_log: self.last_log.deep_view(),
            exit: self.exit.deep_view(),
        }
    }
}

impl Duplicate for RunHistorySummary {
    fn duplicate(&self) -> (copy: Self) {
        RunHistorySummary {
            generation: self.generation,
            last_log: self.last_log.duplicate(),
            exit: self.exit.duplicate(),
        }
    }
}

/// What is planned for a target.
#[derive(Debug, PartialEq, Eq)]
pub struct ControlStateSummary {
    pub desired_state: String,
    pub action_plan: String,
}

/// What a [`ControlStateSummary`] stands for.
pub struct ControlStateSummaryView {
    pub desired_state: Seq<char>,
    pub action_plan: Seq<char>,
}

impl DeepView for ControlStateSummary {
    type V = ControlStateSummaryView;

    open spec fn deep_view(&self) -> ControlStateSummaryView {
        ControlStateSummaryView {
            desired_state: self.desired_state.deep_view(),
            action_plan: self.action_plan.deep_view(),
        }
    }
}

impl Duplicate for ControlStateSummary {
    fn duplicate(&self) -> (copy: Self) {
        ControlStateSummary {
            desired_state: self.desired_state.duplicate(),
            action_plan: self.action_plan.duplicate(),
        }
    }
}

/// How often a target was started.
#[derive(Debug, PartialEq, Eq)]
pub struct TargetGenerationSummary {
    pub name: String,
    pub generation: u64,
}

/// What a [`TargetGenerationSummary`] stands for.
pub struct TargetGenerationSummaryView {
    pub name: Seq<char>,
    pub generation: u64,
}

impl DeepView for TargetGenerationSummary {
    type V = TargetGenerationSummaryView;

    open spec fn deep_view(&self) -> TargetGenerationSummaryView {
        TargetGenerationSummaryView {
            name: self.name.deep_view(),
            generation: self.generation,
        }
    }
}

impl Duplicate for TargetGenerationSummary {
    fn duplicate(&self) -> (copy: Self) {
        TargetGenerationSummary {
            name: self.name.duplicate(),
            generation: self.generation,
        }
    }
}

/// How a target is configured.
#[derive(Debug, PartialEq, Eq)]
pub struct TargetConfigSummary {
    pub driver: String,
    pub refresh_watch_type: RefreshWatchTypeKind,
    pub watch_paths: Vec<String>,
}

/// What a [`TargetConfigSummary`] stands for.
pub struct TargetConfigSummaryView {
    pub driver: Seq<char>,
    pub refresh_watch_type: RefreshWatchTypeKind,
    pub watch_paths: Seq<Seq<char>>,
}

impl DeepView for TargetConfigSummary {
    type V = TargetConfigSummaryView;

    open spec fn deep_view(&self) -> TargetConfigSummaryView {
        TargetConfigSummaryView {
            driver: self.driver.deep_view(),
            refresh_watch_type: self.refresh_watch_type,
            watch_paths: self.watch_paths.deep_view(),
        }
    }
}

impl Duplicate for TargetConfigSummary {
    fn duplicate(&self) -> (copy: Self) {
        TargetConfigSummary {
            driver: self.driver.duplicate(),
            refresh_watch_type: self.refresh_watch_type,
            watch_paths: self.watch_paths.duplicate(),
        }
    }
}

/// How a target runs.
#[derive(Debug, PartialEq, Eq)]
pub struct TargetRunState {
    pub generation: u64,
    pub pid: Option<u32>,
    pub ports: Vec<PortSummary>,
    /// Whether a change was seen that did not restart the target.
    pub refresh_pending: bool,
    pub last_log: Option<String>,
    pub last_exit: Option<ExitDetails>,
}

/// What a [`TargetRunState`] stands for.
pub struct TargetRunStateView {
    pub generation: u64,
    pub pid: Option<u32>,
    pub ports: Seq<PortSummaryView>,
    pub refresh_pending: bool,
    pub last_log: Option<Seq<char>>,
    pub last_exit: Option<ExitDetailsView>,
}

impl DeepView for TargetRunState {
    type V = TargetRunStateView;

    open spec fn deep_view(&self) -> TargetRunStateView {
        TargetRunStateView {
            generation: self.generation,
            pid: self.pid.deep_view(),
            ports: self.ports.deep_view(),
            refresh_pending: self.refresh_pending,
            last_log: self.last_log.deep_view(),
            last_exit: self.last_exit.deep_view(),
        }
    }
}

impl Duplicate for TargetRunState {
    fn duplicate(&self) -> (copy: Self) {
        TargetRunState {
            generation: self.generation,
            pid: self.pid.duplicate(),
            ports: self.ports.duplicate(),
            refresh_pending: self.refresh_pending,
            last_log: self.last_log.duplicate(),
            last_exit: self.last_exit.duplicate(),
        }
    }
}

/// A restart that is planned.
#[derive(Debug, PartialEq, Eq)]
pub struct RestartStatusSummary {
    pub attempt: u32,
    pub delay_seconds: Option<u64>,
    pub scheduled_for: Option<String>,
}

/// What a [`RestartStatusSummary`] stands for.
pub struct RestartStatusSummaryView {
    pub attempt: u32,
    pub delay_seconds: Option<u64>,
    pub scheduled_for: Option<Seq<char>>,
}

impl DeepView for RestartStatusSummary {
    type V = RestartStatusSummaryView;

    open spec fn deep_view(&self) -> RestartStatusSummaryView {
        RestartStatusSummaryView {
            attempt: self.attempt,
            delay_seconds: self.delay_seconds.deep_view(),
            scheduled_for: self.scheduled_for.deep_view(),
        }
    }
}

impl Duplicate for RestartStatusSummary {
    fn duplicate(&self) -> (copy: Self) {
        RestartStatusSummary {
            attempt: self.attempt,
            delay_seconds: self.delay_seconds.duplicate(),
            scheduled_for: self.scheduled_for.duplicate(),
        }
    }
}

/// A target that runs.
#[derive(Debug, PartialEq, Eq)]
pub struct RunningTargetSummary {
    pub name: String,
    pub kind: BehaviorKind,
    pub config: TargetConfigSummary,
    pub current: TargetRunState,
    pub history: Vec<RunHistorySummary>,
    pub control: Option<ControlStateSummary>,
}

/// What a [`RunningTargetSummary`] stands for.
pub struct RunningTargetSummaryView {
    pub name: Seq<char>,
    pub kind: BehaviorKind,
    pub config: TargetConfigSummaryView,
    pub current: TargetRunStateView,
    pub history: Seq<RunHistorySummaryView>,
    pub control: Option<ControlStateSummaryView>,
}

impl DeepView for RunningTargetSummary {
    type V = RunningTargetSummaryView;

    open spec fn deep_view(&self) -> RunningTargetSummaryView {
        RunningTargetSummaryView {
            name: self.name.deep_view(),
            kind: self.kind,
            config: self.config.deep_view(),
            current: self.current.deep_view(),
            history: self.history.deep_view(),
            control: self.control.deep_view(),
        }
    }
}

impl Duplicate for RunningTargetSummary {
    fn duplicate(&self) -> (copy: Self) {
        RunningTargetSummary {
            name: self.name.duplicate(),
            kind: self.kind,
            config: self.config.duplicate(),
            current: self.current.duplicate(),
            history: self.history.duplicate(),
            control: self.control.duplicate(),
        }
    }
}

/// A target that ran and does not run.
#[derive(Debug, PartialEq, Eq)]
pub struct StoppedTargetSummary {
    pub name: String,
    pub kind: BehaviorKind,
    pub config: TargetConfigSummary,
    pub last: Option<RunHistorySummary>,
    pub history: Vec<RunHistorySummary>,
    pub control: Option<ControlStateSummary>,
}

/// What a [`StoppedTargetSummary`] stands for.
pub struct StoppedTargetSummaryView {
    pub name: Seq<char>,
    pub kind: BehaviorKind,
    pub config: TargetConfigSummaryView,
    pub last: Option<RunHistorySummaryView>,
    pub history: Seq<RunHistorySummaryView>,
    pub control: Option<ControlStateSummaryView>,
}

impl DeepView for StoppedTargetSummary {
    type V = StoppedTargetSummaryView;

    open spec fn deep_view(&self) -> StoppedTargetSummaryView {
        StoppedTargetSummaryView {
            name: self.name.deep_view(),
            kind: self.kind,
            config: self.config.deep_view(),
            last: self.last.deep_view(),
            history: self.history.deep_view(),
            control: self.control.deep_view(),
        }
    }
}

impl Duplicate for StoppedTargetSummary {
    fn duplicate(&self) -> (copy: Self) {
        StoppedTargetSummary {
            name: self.name.duplicate(),
            kind: self.kind,
            config: self.config.duplicate(),
            last: self.last.duplicate(),
            history: self.history.duplicate(),
            control: self.control.duplicate(),
        }
    }
}

/// A target that could be started.
#[derive(Debug, PartialEq, Eq)]
pub struct AvailableTargetSummary {
    pub name: String,
    pub kind: BehaviorKind,
}

/// What a [`AvailableTargetSummary`] stands for.
pub struct AvailableTargetSummaryView {
    pub name: Seq<char>,
    pub kind: BehaviorKind,
}

impl DeepView for AvailableTargetSummary {
    type V = AvailableTargetSummaryView;

    open spec fn deep_view(&self) -> AvailableTargetSummaryView {
        AvailableTargetSummaryView {
            name: self.name.deep_view(),
            kind: self.kind,
        }
    }
}

impl Duplicate for AvailableTargetSummary {
    fn duplicate(&self) -> (copy: Self) {
        AvailableTargetSummary {
            name: self.name.duplicate(),
            kind: self.kind,
        }
    }
}

/// What is known of all targets.
#[derive(Debug, PartialEq, Eq)]
pub struct InfoResponse {
    pub refresh_target_on_change_enabled: bool,
    pub running: Vec<RunningTargetSummary>,
    pub stopped: Vec<StoppedTargetSummary>,
    pub available: Vec<AvailableTargetSummary>,
    pub generations: Vec<TargetGenerationSummary>,
}

/// What a [`InfoResponse`] stands for.
pub struct InfoResponseView {
    pub refresh_target_on_change_enabled: bool,
    pub running: Seq<RunningTargetSummaryView>,
    pub stopped: Seq<StoppedTargetSummaryView>,
    pub available: Seq<AvailableTargetSummaryView>,
    pub generations: Seq<TargetGenerationSummaryView>,
}

impl DeepView for InfoResponse {
    type V = InfoResponseView;

    open spec fn deep_view(&self) -> InfoResponseView {
        InfoResponseView {
            refresh_target_on_change_enabled: self.refresh_target_on_change_enabled,
            running: self.running.deep_view(),
            stopped: self.stopped.deep_view(),
            available: self.available.deep_view(),
            generations: self.generations.deep_view(),
        }
    }
}

impl Duplicate for InfoResponse {
    fn duplicate(&self) -> (copy: Self) {
        InfoResponse {
            refresh_target_on_change_enabled: self.refresh_target_on_change_enabled,
            running: self.running.duplicate(),
            stopped: self.stopped.duplicate(),
            available: self.available.duplicate(),
            generations: self.generations.duplicate(),
        }
    }
}

/// What the supervisor answers.
#[derive(Debug, PartialEq, Eq)]
pub enum ServerResponse {
    Ack,
    Error(String),
    Info(InfoResponse),
}

/// What a [`ServerResponse`] stands for.
pub enum ServerResponseView {
    Ack,
    Error(Seq<char>),
    Info(InfoResponseView),
}

impl DeepView for ServerResponse {
    type V = ServerResponseView;

    open spec fn deep_view(&self) -> ServerResponseView {
        match self {
            ServerResponse::Ack => ServerResponseView::Ack,
            ServerResponse::Error(a) => ServerResponseView::Error(a.deep_view()),
            ServerResponse::Info(a) => ServerResponseView::Info(a.deep_view()),
        }
    }
}

impl Duplicate for ServerResponse {
    fn duplicate(&self) -> (copy: Self) {
        match self {
            ServerResponse::Ack => ServerResponse::Ack,
            ServerResponse::Error(a) => ServerResponse::Error(a.duplicate()),
            ServerResponse::Info(a) => ServerResponse::Info(a.duplicate()),
        }
    }
}

} // verus!
