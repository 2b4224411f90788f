//! What a configuration says.

use vstd::prelude::*;

use crate::config::value::{ConfigValue, ConfigValueView};
use crate::names::NameMap;
use crate::views::Duplicate;

verus! {

/// The name of a target.
pub type TargetName = String;

/// How services that exit are restarted.
#[derive(Debug, Clone, Copy, PartialEq, Eq, Structural)]
pub enum RestartStrategy {
    No,
    Backoff,
}

impl DeepView for RestartStrategy {
    type V = RestartStrategy;

    open spec fn deep_view(&self) -> RestartStrategy {
        *self
    }
}

impl Duplicate for RestartStrategy {
    fn duplicate(&self) -> (copy: Self) {
        *self
    }
}

/// Where and how log files are kept.
#[derive(Debug, PartialEq, Eq)]
pub struct LogConfig {
    pub file: String,
    /// Age in seconds at which a log file is rotated.
    pub rotation_after: Option<u64>,
    pub rotation_size_bytes: Option<u64>,
    pub keep_history_count: usize,
}

/// What a [`LogConfig`] stands for.
pub struct LogConfigView {
    pub file: Seq<char>,
    pub rotation_after: Option<u64>,
    pub rotation_size_bytes: Option<u64>,
    pub keep_history_count: usize,
}

impl DeepView for LogConfig {
    type V = LogConfigView;

    open spec fn deep_view(&self) -> LogConfigView {
        LogConfigView {
            file: self.file.deep_view(),
            rotation_after: self.rotation_after.deep_view(),
            rotation_size_bytes: self.rotation_size_bytes.deep_view(),
            keep_history_count: self.keep_history_count,
        }
    }
}

impl Duplicate for LogConfig {
    fn duplicate(&self) -> (copy: Self) {
        LogConfig {
            file: self.file.duplicate(),
            rotation_after: self.rotation_after.duplicate(),
            rotation_size_bytes: self.rotation_size_bytes.duplicate(),
            keep_history_count: self.keep_history_count,
        }
    }
}

/// The log settings that hold where nothing is configured.
pub open spec fn default_log() -> LogConfigView {
    LogConfigView {
        file: "rufa.log"@,
        rotation_after: None,
        rotation_size_bytes: None,
        keep_history_count: 5,
    }
}

impl Default for LogConfig {
    fn default() -> (r: Self)
        ensures
            r.deep_view() == default_log(),
    {
        LogConfig {
            file: "rufa.log".to_owned(),
            rotation_after: None,
            rotation_size_bytes: None,
            keep_history_count: 5,
        }
    }
}

/// Settings for restarts.
#[derive(Debug, Clone, Copy, PartialEq, Eq, Structural)]
pub struct RestartConfig {
    pub strategy: RestartStrategy,
}

impl DeepView for RestartConfig {
    type V = RestartConfig;

    open spec fn deep_view(&self) -> RestartConfig {
        *self
    }
}

impl Duplicate for RestartConfig {
    fn duplicate(&self) -> (copy: Self) {
        *self
    }
}

impl Default for RestartConfig {
    fn default() -> (r: Self)
        ensures
            r == (RestartConfig { strategy: RestartStrategy::Backoff }),
    {
        RestartConfig { strategy: RestartStrategy::Backoff }
    }
}

/// Settings for the environment of targets.
#[derive(Debug, PartialEq, Eq)]
pub struct EnvConfig {
    /// A file with variables for every target.
    pub read_env_file: Option<String>,
}

/// What a [`EnvConfig`] stands for.
pub struct EnvConfigView {
    pub read_env_file: Option<Seq<char>>,
}

impl DeepView for EnvConfig {
    type V = EnvConfigView;

    open spec fn deep_view(&self) -> EnvConfigView {
        EnvConfigView {
            read_env_file: self.read_env_file.deep_view(),
        }
    }
}

impl Duplicate for EnvConfig {
    fn duplicate(&self) -> (copy: Self) {
        EnvConfig {
            read_env_file: self.read_env_file.duplicate(),
        }
    }
}

impl Default for EnvConfig {
    fn default() -> (r: Self)
        ensures
            r.deep_view() == (EnvConfigView { read_env_file: None }),
    {
        EnvConfig { read_env_file: None }
    }
}

/// Settings for file watching.
#[derive(Debug, Clone, Copy, PartialEq, Eq, Structural)]
pub struct WatchConfig {
    /// Seconds for which changes are gathered before targets restart.
    pub stability: u64,
}

impl DeepView for WatchConfig {
    type V = WatchConfig;

    open spec fn deep_view(&self) -> WatchConfig {
        *self
    }
}

impl Duplicate for WatchConfig {
    fn duplicate(&self) -> (copy: Self) {
        *self
    }
}

impl Default for WatchConfig {
    fn default() -> (r: Self)
        ensures
            r == (WatchConfig { stability: 10 }),
    {
        WatchConfig { stability: 10 }
    }
}

/// Settings for the history of runs.
#[derive(Debug, Clone, Copy, PartialEq, Eq, Structural)]
pub struct RunHistoryConfig {
    pub keep_runs: usize,
}

impl DeepView for RunHistoryConfig {
    type V = RunHistoryConfig;

    open spec fn deep_view(&self) -> RunHistoryConfig {
        *self
    }
}

impl Duplicate for RunHistoryConfig {
    fn duplicate(&self) -> (copy: Self) {
        *self
    }
}

impl Default for RunHistoryConfig {
    fn default() -> (r: Self)
        ensures
            r == (RunHistoryConfig { keep_runs: 3 }),
    {
        RunHistoryConfig { keep_runs: 3 }
    }
}

/// Editor files whose debug entries follow the running targets.
#[derive(Debug, PartialEq, Eq)]
pub struct DebugUpdateConfig {
    pub prefix: String,
    pub vscode: Option<String>,
    pub zed: Option<String>,
}

/// What a [`DebugUpdateConfig`] stands for.
pub struct DebugUpdateConfigView {
    pub prefix: Seq<char>,
    pub vscode: Option<Seq<char>>,
    pub zed: Option<Seq<char>>,
}

impl DeepView for DebugUpdateConfig {
    type V = DebugUpdateConfigView;

    open spec fn deep_view(&self) -> DebugUpdateConfigView {
        DebugUpdateConfigView {
            prefix: self.prefix.deep_view(),
            vscode: self.vscode.deep_view(),
            zed: self.zed.deep_view(),
        }
    }
}

impl Duplicate for DebugUpdateConfig {
    fn duplicate(&self) -> (copy: Self) {
        DebugUpdateConfig {
            prefix: self.prefix.duplicate(),
            vscode: self.vscode.duplicate(),
            zed: self.zed.duplicate(),
        }
    }
}

/// Whether a target runs on or ends by itself.
#[derive(Debug, Clone, Copy, PartialEq, Eq, Structural)]
pub enum TargetBehavior {
    Service,
    /// A job, with the seconds after which it is stopped.
    Job { timeout: Option<u64> },
}

impl DeepView for TargetBehavior {
    type V = TargetBehavior;

    open spec fn deep_view(&self) -> TargetBehavior {
        *self
    }
}

impl Duplicate for TargetBehavior {
    fn duplicate(&self) -> (copy: Self) {
        *self
    }
}

impl TargetBehavior {
    /// Whether the target is a service.
    pub fn is_service(&self) -> (r: bool)
        ensures
            r == (self is Service),
    {
        matches!(self, TargetBehavior::Service)
    }

    /// Whether the target is a job.
    pub fn is_job(&self) -> (r: bool)
        ensures
            r == (self is Job),
    {
        matches!(self, TargetBehavior::Job { .. })
    }
}

/// What a reference asks of another target.
#[derive(Debug, PartialEq, Eq)]
pub enum ReferenceResource {
    Port { name: String },
}

/// What a [`ReferenceResource`] stands for.
pub enum ReferenceResourceView {
    Port { name: Seq<char> },
}

impl DeepView for ReferenceResource {
    type V = ReferenceResourceView;

    open spec fn deep_view(&self) -> ReferenceResourceView {
        match self {
            ReferenceResource::Port { name } => ReferenceResourceView::Port {
                name: name.deep_view(),
            },
        }
    }
}

impl Duplicate for ReferenceResource {
    fn duplicate(&self) -> (copy: Self) {
        match self {
            ReferenceResource::Port { name } => ReferenceResource::Port { name: name.duplicate() },
        }
    }
}

/// A reference to a resource of another target.
#[derive(Debug, PartialEq, Eq)]
pub struct EnvReference {
    pub target: String,
    pub resource: ReferenceResource,
}

/// What a [`EnvReference`] stands for.
pub struct EnvReferenceView {
    pub target: Seq<char>,
    pub resource: ReferenceResourceView,
}

impl DeepView for EnvReference {
    type V = EnvReferenceView;

    open spec fn deep_view(&self) -> EnvReferenceView {
        EnvReferenceView {
            target: self.target.deep_view(),
            resource: self.resource.deep_view(),
        }
    }
}

impl Duplicate for EnvReference {
    fn duplicate(&self) -> (copy: Self) {
        EnvReference {
            target: self.target.duplicate(),
            resource: self.resource.duplicate(),
        }
    }
}

/// The value of an environment variable.
#[derive(Debug, PartialEq, Eq)]
pub enum EnvValue {
    Literal(String),
    Reference(EnvReference),
}

/// What a [`EnvValue`] stands for.
pub enum EnvValueView {
    Literal(Seq<char>),
    Reference(EnvReferenceView),
}

impl DeepView for EnvValue {
    type V = EnvValueView;

    open spec fn deep_view(&self) -> EnvValueView {
        match self {
            EnvValue::Literal(a) => EnvValueView::Literal(a.deep_view()),
            EnvValue::Reference(a) => EnvValueView::Reference(a.deep_view()),
        }
    }
}

impl Duplicate for EnvValue {
    fn duplicate(&self) -> (copy: Self) {
        match self {
            EnvValue::Literal(a) => EnvValue::Literal(a.duplicate()),
            EnvValue::Reference(a) => EnvValue::Reference(a.duplicate()),
        }
    }
}

impl EnvValue {
    /// The text of a literal.
    pub fn as_literal(&self) -> (r: Option<&str>)
        ensures
            r.deep_view() == (match self.deep_view() {
                EnvValueView::Literal(text) => Some(text),
                EnvValueView::Reference(_) => None,
            }),
    {
        match self {
            EnvValue::Literal(text) => Some(text.as_str()),
            EnvValue::Reference(_) => None,
        }
    }
}

/// The protocol spoken on a port.
#[derive(Debug, Clone, Copy, PartialEq, Eq, Structural)]
pub enum PortProtocol {
    Http,
    Ftp,
    Tcp,
}

impl DeepView for PortProtocol {
    type V = PortProtocol;

    open spec fn deep_view(&self) -> PortProtocol {
        *self
    }
}

impl Duplicate for PortProtocol {
    fn duplicate(&self) -> (copy: Self) {
        *self
    }
}

/// How the number of a port is chosen.
#[derive(Debug, Clone, Copy, PartialEq, Eq, Structural)]
pub enum PortSelection {
    Auto,
    /// A free port from `start` to `end`, both included.
    AutoRange { start: u16, end: u16 },
    Fixed(u16),
}

impl DeepView for PortSelection {
    type V = PortSelection;

    open spec fn deep_view(&self) -> PortSelection {
        *self
    }
}

impl Duplicate for PortSelection {
    fn duplicate(&self) -> (copy: Self) {
        *self
    }
}

/// The first and the last port of a selection.
pub open spec fn range_of(selection: PortSelection) -> (u16, u16) {
    match selection {
        PortSelection::Auto => (0, 0),
        PortSelection::AutoRange { start, end } => (start, end),
        PortSelection::Fixed(value) => (value, value),
    }
}

/// Whether a selection allows a port.
pub open spec fn permits_spec(selection: PortSelection, port: u16) -> bool {
    match selection {
        PortSelection::Auto => true,
        PortSelection::AutoRange { start, end } => start <= port <= end,
        PortSelection::Fixed(value) => port == value,
    }
}

impl PortSelection {
    /// The first and the last port of the selection; zeros where any port will do.
    pub fn as_range(&self) -> (r: (u16, u16))
        ensures
            r == range_of(*self),
    {
        match self {
            PortSelection::Auto => (0, 0),
            PortSelection::AutoRange { start, end } => (*start, *end),
            PortSelection::Fixed(value) => (*value, *value),
        }
    }

    /// Whether the selection allows `port`.
    pub fn permits(&self, port: u16) -> (r: bool)
        ensures
            r == permits_spec(*self, port),
    {
        match self {
            PortSelection::Auto => true,
            PortSelection::AutoRange { start, end } => *start <= port && port <= *end,
            PortSelection::Fixed(value) => port == *value,
        }
    }
}

/// A port that a target asks for.
#[derive(Debug, PartialEq, Eq)]
pub struct PortDefinition {
    pub protocol: PortProtocol,
    pub selection: PortSelection,
    pub properties: NameMap<ConfigValue>,
}

/// What a [`PortDefinition`] stands for.
pub struct PortDefinitionView {
    pub protocol: PortProtocol,
    pub selection: PortSelection,
    pub properties: Seq<(Seq<char>, ConfigValueView)>,
}

impl DeepView for PortDefinition {
    type V = PortDefinitionView;

    open spec fn deep_view(&self) -> PortDefinitionView {
        PortDefinitionView {
            protocol: self.protocol,
            selection: self.selection,
            properties: self.properties.deep_view(),
        }
    }
}

impl Duplicate for PortDefinition {
    fn duplicate(&self) -> (copy: Self) {
        PortDefinition {
            protocol: self.protocol,
            selection: self.selection,
            properties: self.properties.duplicate(),
        }
    }
}

/// Who watches the files of a service.
#[derive(Debug, Clone, Copy, PartialEq, Eq, Structural)]
pub enum WatchPreference {
    /// The supervisor watches and restarts the service.
    Rufa,
    /// The service is started in the watch mode of its own runtime.
    PreferRuntimeSupplied,
}

impl DeepView for WatchPreference {
    type V = WatchPreference;

    open spec fn deep_view(&self) -> WatchPreference {
        *self
    }
}

impl Duplicate for WatchPreference {
    fn duplicate(&self) -> (copy: Self) {
        *self
    }
}

/// Who refreshes a service when its files change.
pub type RefreshWatchType = WatchPreference;

impl Default for WatchPreference {
    fn default() -> (r: Self)
        ensures
            r == WatchPreference::PreferRuntimeSupplied,
    {
        WatchPreference::PreferRuntimeSupplied
    }
}

/// A target that stands for other targets.
#[derive(Debug, PartialEq, Eq)]
pub struct CompositeTarget {
    pub name: String,
    pub members: Vec<String>,
    pub properties: NameMap<ConfigValue>,
}

/// What a [`CompositeTarget`] stands for.
pub struct CompositeTargetView {
    pub name: Seq<char>,
    pub members: Seq<Seq<char>>,
    pub properties: Seq<(Seq<char>, ConfigValueView)>,
}

impl DeepView for CompositeTarget {
    type V = CompositeTargetView;

    open spec fn deep_view(&self) -> CompositeTargetView {
        CompositeTargetView {
            name: self.name.deep_view(),
            members: self.members.deep_view(),
            properties: self.properties.deep_view(),
        }
    }
}

impl Duplicate for CompositeTarget {
    fn duplicate(&self) -> (copy: Self) {
        CompositeTarget {
            name: self.name.duplicate(),
            members: self.members.duplicate(),
            properties: self.properties.duplicate(),
        }
    }
}

/// A target that runs one command.
#[derive(Debug, PartialEq, Eq)]
pub struct UnitTarget {
    pub name: String,
    pub driver_type: String,
    pub behavior: TargetBehavior,
    pub env: NameMap<EnvValue>,
    pub ports: NameMap<PortDefinition>,
    pub properties: NameMap<ConfigValue>,
    pub watch_paths: Vec<String>,
    pub refresh_watch_type: RefreshWatchType,
}

/// What a [`UnitTarget`] stands for.
pub struct UnitTargetView {
    pub name: Seq<char>,
    pub driver_type: Seq<char>,
    pub behavior: TargetBehavior,
    pub env: Seq<(Seq<char>, EnvValueView)>,
    pub ports: Seq<(Seq<char>, PortDefinitionView)>,
    pub properties: Seq<(Seq<char>, ConfigValueView)>,
    pub watch_paths: Seq<Seq<char>>,
    pub refresh_watch_type: RefreshWatchType,
}

impl DeepView for UnitTarget {
    type V = UnitTargetView;

    open spec fn deep_view(&self) -> UnitTargetView {
        UnitTargetView {
            name: self.name.deep_view(),
            driver_type: self.driver_type.deep_view(),
            behavior: self.behavior,
            env: self.env.deep_view(),
            ports: self.ports.deep_view(),
            properties: self.properties.deep_view(),
            watch_paths: self.watch_paths.deep_view(),
            refresh_watch_type: self.refresh_watch_type,
        }
    }
}

impl Duplicate for UnitTarget {
    fn duplicate(&self) -> (copy: Self) {
        UnitTarget {
            name: self.name.duplicate(),
            driver_type: self.driver_type.duplicate(),
            behavior: self.behavior,
            env: self.env.duplicate(),
            ports: self.ports.duplicate(),
            properties: self.properties.duplicate(),
            watch_paths: self.watch_paths.duplicate(),
            refresh_watch_type: self.refresh_watch_type,
        }
    }
}

/// A target of the configuration.
#[derive(Debug, PartialEq, Eq)]
pub enum Target {
    Composite(CompositeTarget),
    Unit(UnitTarget),
}

/// What a [`Target`] stands for.
pub enum TargetView {
    Composite(CompositeTargetView),
    Unit(UnitTargetView),
}

impl DeepView for Target {
    type V = TargetView;

    open spec fn deep_view(&self) -> TargetView {
        match self {
            Target::Composite(a) => TargetView::Composite(a.deep_view()),
            Target::Unit(a) => TargetView::Unit(a.deep_view()),
        }
    }
}

impl Duplicate for Target {
    fn duplicate(&self) -> (copy: Self) {
        match self {
            Target::Composite(a) => Target::Composite(a.duplicate()),
            Target::Unit(a) => Target::Unit(a.duplicate()),
        }
    }
}

impl Target {
    /// Whether the target stands for other targets.
    pub fn is_composite(&self) -> (r: bool)
        ensures
            r == (self.deep_view() is Composite),
    {
        matches!(self, Target::Composite(_))
    }
}

/// The whole configuration.
#[derive(Debug, PartialEq, Eq)]
pub struct Config {
    pub log: LogConfig,
    pub restart: RestartConfig,
    pub env: EnvConfig,
    pub watch: WatchConfig,
    pub run_history: RunHistoryConfig,
    pub debug_update: Option<DebugUpdateConfig>,
    pub targets: NameMap<Target>,
}

/// What a [`Config`] stands for.
pub struct ConfigView {
    pub log: LogConfigView,
    pub restart: RestartConfig,
    pub env: EnvConfigView,
    pub watch: WatchConfig,
    pub run_history: RunHistoryConfig,
    pub debug_update: Option<DebugUpdateConfigView>,
    pub targets: Seq<(Seq<char>, TargetView)>,
}

impl DeepView for Config {
    type V = ConfigView;

    open spec fn deep_view(&self) -> ConfigView {
        ConfigView {
            log: self.log.deep_view(),
            restart: self.restart,
            env: self.env.deep_view(),
            watch: self.watch,
            run_history: self.run_history,
            debug_update: self.debug_update.deep_view(),
            targets: self.targets.deep_view(),
        }
    }
}

impl Duplicate for Config {
    fn duplicate(&self) -> (copy: Self) {
        Config {
            log: self.log.duplicate(),
            restart: self.restart,
            env: self.env.duplicate(),
            watch: self.watch,
            run_history: self.run_history,
            debug_update: self.debug_update.duplicate(),
            targets: self.targets.duplicate(),
        }
    }
}

// ---------------------------------------------------------------------------
// Laws
// ---------------------------------------------------------------------------

/// A selection of certain ports allows those from its first to its last, and any other selection
/// allows all ports.
pub proof fn selection_allows_its_range(selection: PortSelection, port: u16)
    ensures
        !(selection is Auto) ==> (permits_spec(selection, port) <==> range_of(selection).0 <= port
            <= range_of(selection).1),
        selection is Auto ==> permits_spec(selection, port) && range_of(selection) == (0u16, 0u16),
{
}

} // verus!
