//! What the command line is asked to do.

use vstd::prelude::*;

use crate::cli::dispatch::mode_of;
use crate::ipc::protocol::RefreshMode;
use crate::views::Duplicate;

verus! {

/// Whether changes of files restart services at once.
#[derive(Debug, Clone, Copy, PartialEq, Eq, Structural)]
pub enum RefreshModeArg {
    Auto,
    Off,
}

impl DeepView for RefreshModeArg {
    type V = RefreshModeArg;

    open spec fn deep_view(&self) -> RefreshModeArg {
        *self
    }
}

impl Duplicate for RefreshModeArg {
    fn duplicate(&self) -> (copy: Self) {
        *self
    }
}

/// A shell that completions are written for.
#[derive(Debug, Clone, Copy, PartialEq, Eq, Structural)]
pub enum CompletionShell {
    Bash,
    Zsh,
    Fish,
    PowerShell,
    Elvish,
}

impl DeepView for CompletionShell {
    type V = CompletionShell;

    open spec fn deep_view(&self) -> CompletionShell {
        *self
    }
}

impl Duplicate for CompletionShell {
    fn duplicate(&self) -> (copy: Self) {
        *self
    }
}

/// How the supervisor is started.
#[derive(Debug, PartialEq, Eq)]
pub struct DaemonStartArgs {
    /// Whether it stays attached to the terminal.
    pub foreground: bool,
    /// A file with variables for it.
    pub env_file: Option<String>,
}

/// What a [`DaemonStartArgs`] stands for.
pub struct DaemonStartArgsView {
    pub foreground: bool,
    pub env_file: Option<Seq<char>>,
}

impl DeepView for DaemonStartArgs {
    type V = DaemonStartArgsView;

    open spec fn deep_view(&self) -> DaemonStartArgsView {
        DaemonStartArgsView {
            foreground: self.foreground,
            env_file: self.env_file.deep_view(),
        }
    }
}

impl Duplicate for DaemonStartArgs {
    fn duplicate(&self) -> (copy: Self) {
        DaemonStartArgs {
            foreground: self.foreground,
            env_file: self.env_file.duplicate(),
        }
    }
}

/// How the supervisor is started, with a setting for watching.
#[derive(Debug, PartialEq, Eq)]
pub struct StartArgs {
    pub watch: bool,
    pub no_watch: bool,
    pub foreground: bool,
    pub env_file: Option<String>,
}

/// What a [`StartArgs`] stands for.
pub struct StartArgsView {
    pub watch: bool,
    pub no_watch: bool,
    pub foreground: bool,
    pub env_file: Option<Seq<char>>,
}

impl DeepView for StartArgs {
    type V = StartArgsView;

    open spec fn deep_view(&self) -> StartArgsView {
        StartArgsView {
            watch: self.watch,
            no_watch: self.no_watch,
            foreground: self.foreground,
            env_file: self.env_file.deep_view(),
        }
    }
}

impl Duplicate for StartArgs {
    fn duplicate(&self) -> (copy: Self) {
        StartArgs {
            watch: self.watch,
            no_watch: self.no_watch,
            foreground: self.foreground,
            env_file: self.env_file.duplicate(),
        }
    }
}

/// Which targets are run, and how.
#[derive(Debug, PartialEq, Eq)]
pub struct RunArgs {
    pub targets: Vec<String>,
    pub watch: bool,
    pub no_watch: bool,
    pub foreground: bool,
}

/// What a [`RunArgs`] stands for.
pub struct RunArgsView {
    pub targets: Seq<Seq<char>>,
    pub watch: bool,
    pub no_watch: bool,
    pub foreground: bool,
}

impl DeepView for RunArgs {
    type V = RunArgsView;

    open spec fn deep_view(&self) -> RunArgsView {
        RunArgsView {
            targets: self.targets.deep_view(),
            watch: self.watch,
            no_watch: self.no_watch,
            foreground: self.foreground,
        }
    }
}

impl Duplicate for RunArgs {
    fn duplicate(&self) -> (copy: Self) {
        RunArgs {
            targets: self.targets.duplicate(),
            watch: self.watch,
            no_watch: self.no_watch,
            foreground: self.foreground,
        }
    }
}

/// Which targets are ended.
#[derive(Debug, PartialEq, Eq)]
pub struct KillArgs {
    pub targets: Vec<String>,
}

/// What a [`KillArgs`] stands for.
pub struct KillArgsView {
    pub targets: Seq<Seq<char>>,
}

impl DeepView for KillArgs {
    type V = KillArgsView;

    open spec fn deep_view(&self) -> KillArgsView {
        KillArgsView {
            targets: self.targets.deep_view(),
        }
    }
}

impl Duplicate for KillArgs {
    fn duplicate(&self) -> (copy: Self) {
        KillArgs {
            targets: self.targets.duplicate(),
        }
    }
}

/// Which refresh setting is asked for.
#[derive(Debug, PartialEq, Eq)]
pub struct RefreshSetArgs {
    pub mode: RefreshModeArg,
}

/// What a [`RefreshSetArgs`] stands for.
pub struct RefreshSetArgsView {
    pub mode: RefreshModeArg,
}

impl DeepView for RefreshSetArgs {
    type V = RefreshSetArgsView;

    open spec fn deep_view(&self) -> RefreshSetArgsView {
        RefreshSetArgsView {
            mode: self.mode,
        }
    }
}

impl Duplicate for RefreshSetArgs {
    fn duplicate(&self) -> (copy: Self) {
        RefreshSetArgs {
            mode: self.mode,
        }
    }
}

/// What is asked about refreshing.
#[derive(Debug, PartialEq, Eq)]
pub enum RefreshCliCommand {
    SetMode(RefreshSetArgs),
    StaleTargets,
}

/// What a [`RefreshCliCommand`] stands for.
pub enum RefreshCliCommandView {
    SetMode(RefreshSetArgsView),
    StaleTargets,
}

impl DeepView for RefreshCliCommand {
    type V = RefreshCliCommandView;

    open spec fn deep_view(&self) -> RefreshCliCommandView {
        match self {
            RefreshCliCommand::SetMode(a) => RefreshCliCommandView::SetMode(a.deep_view()),
            RefreshCliCommand::StaleTargets => RefreshCliCommandView::StaleTargets,
        }
    }
}

impl Duplicate for RefreshCliCommand {
    fn duplicate(&self) -> (copy: Self) {
        match self {
            RefreshCliCommand::SetMode(a) => RefreshCliCommand::SetMode(a.duplicate()),
            RefreshCliCommand::StaleTargets => RefreshCliCommand::StaleTargets,
        }
    }
}

/// Which targets are started, and whether their logs are shown.
#[derive(Debug, PartialEq, Eq)]
pub struct TargetStartArgs {
    pub targets: Vec<String>,
    pub foreground: bool,
}

/// What a [`TargetStartArgs`] stands for.
pub struct TargetStartArgsView {
    pub targets: Seq<Seq<char>>,
    pub foreground: bool,
}

impl DeepView for TargetStartArgs {
    type V = TargetStartArgsView;

    open spec fn deep_view(&self) -> TargetStartArgsView {
        TargetStartArgsView {
            targets: self.targets.deep_view(),
            foreground: self.foreground,
        }
    }
}

impl Duplicate for TargetStartArgs {
    fn duplicate(&self) -> (copy: Self) {
        TargetStartArgs {
            targets: self.targets.duplicate(),
            foreground: self.foreground,
        }
    }
}

/// Which targets are stopped.
#[derive(Debug, PartialEq, Eq)]
pub struct TargetStopArgs {
    pub targets: Vec<String>,
}

/// What a [`TargetStopArgs`] stands for.
pub struct TargetStopArgsView {
    pub targets: Seq<Seq<char>>,
}

impl DeepView for TargetStopArgs {
    type V = TargetStopArgsView;

    open spec fn deep_view(&self) -> TargetStopArgsView {
        TargetStopArgsView {
            targets: self.targets.deep_view(),
        }
    }
}

impl Duplicate for TargetStopArgs {
    fn duplicate(&self) -> (copy: Self) {
        TargetStopArgs {
            targets: self.targets.duplicate(),
        }
    }
}

/// Which targets are restarted.
#[derive(Debug, PartialEq, Eq)]
pub struct TargetRestartArgs {
    pub targets: Vec<String>,
    pub all: bool,
}

/// What a [`TargetRestartArgs`] stands for.
pub struct TargetRestartArgsView {
    pub targets: Seq<Seq<char>>,
    pub all: bool,
}

impl DeepView for TargetRestartArgs {
    type V = TargetRestartArgsView;

    open spec fn deep_view(&self) -> TargetRestartArgsView {
        TargetRestartArgsView {
            targets: self.targets.deep_view(),
            all: self.all,
        }
    }
}

impl Duplicate for TargetRestartArgs {
    fn duplicate(&self) -> (copy: Self) {
        TargetRestartArgs {
            targets: self.targets.duplicate(),
            all: self.all,
        }
    }
}

/// Which targets are restarted.
pub type RestartArgs = TargetRestartArgs;

/// Which targets are shown, and how much of each.
#[derive(Debug, PartialEq, Eq)]
pub struct InfoArgs {
    pub targets: Vec<String>,
    pub log_length: usize,
    pub foreground: bool,
    pub history_length: usize,
}

/// What a [`InfoArgs`] stands for.
pub struct InfoArgsView {
    pub targets: Seq<Seq<char>>,
    pub log_length: usize,
    pub foreground: bool,
    pub history_length: usize,
}

impl DeepView for InfoArgs {
    type V = InfoArgsView;

    open spec fn deep_view(&self) -> InfoArgsView {
        InfoArgsView {
            targets: self.targets.deep_view(),
            log_length: self.log_length,
            foreground: self.foreground,
            history_length: self.history_length,
        }
    }
}

impl Duplicate for InfoArgs {
    fn duplicate(&self) -> (copy: Self) {
        InfoArgs {
            targets: self.targets.duplicate(),
            log_length: self.log_length,
            foreground: self.foreground,
            history_length: self.history_length,
        }
    }
}

/// Which logs are shown.
#[derive(Debug, PartialEq, Eq)]
pub struct LogArgs {
    pub targets: Vec<String>,
    pub follow: bool,
    pub tail: Option<usize>,
    pub generation: Option<u64>,
    pub all: bool,
}

/// What a [`LogArgs`] stands for.
pub struct LogArgsView {
    pub targets: Seq<Seq<char>>,
    pub follow: bool,
    pub tail: Option<usize>,
    pub generation: Option<u64>,
    pub all: bool,
}

impl DeepView for LogArgs {
    type V = LogArgsView;

    open spec fn deep_view(&self) -> LogArgsView {
        LogArgsView {
            targets: self.targets.deep_view(),
            follow: self.follow,
            tail: self.tail.deep_view(),
            generation: self.generation.deep_view(),
            all: self.all,
        }
    }
}

impl Duplicate for LogArgs {
    fn duplicate(&self) -> (copy: Self) {
        LogArgs {
            targets: self.targets.duplicate(),
            follow: self.follow,
            tail: self.tail.duplicate(),
            generation: self.generation.duplicate(),
            all: self.all,
        }
    }
}

/// Which shell completions are written for.
#[derive(Debug, PartialEq, Eq)]
pub struct CompletionsArgs {
    pub shell: CompletionShell,
}

/// What a [`CompletionsArgs`] stands for.
pub struct CompletionsArgsView {
    pub shell: CompletionShell,
}

impl DeepView for CompletionsArgs {
    type V = CompletionsArgsView;

    open spec fn deep_view(&self) -> CompletionsArgsView {
        CompletionsArgsView {
            shell: self.shell,
        }
    }
}

impl Duplicate for CompletionsArgs {
    fn duplicate(&self) -> (copy: Self) {
        CompletionsArgs {
            shell: self.shell,
        }
    }
}

/// Nothing is asked about the first set-up.
#[derive(Debug, Clone, Copy, PartialEq, Eq, Structural)]
pub struct InitArgs {}

impl DeepView for InitArgs {
    type V = InitArgs;

    open spec fn deep_view(&self) -> InitArgs {
        *self
    }
}

impl Duplicate for InitArgs {
    fn duplicate(&self) -> (copy: Self) {
        *self
    }
}

/// What is asked about targets.
#[derive(Debug, PartialEq, Eq)]
pub enum TargetCommand {
    Start(TargetStartArgs),
    Stop(TargetStopArgs),
    Restart(TargetRestartArgs),
}

/// What a [`TargetCommand`] stands for.
pub enum TargetCommandView {
    Start(TargetStartArgsView),
    Stop(TargetStopArgsView),
    Restart(TargetRestartArgsView),
}

impl DeepView for TargetCommand {
    type V = TargetCommandView;

    open spec fn deep_view(&self) -> TargetCommandView {
        match self {
            TargetCommand::Start(a) => TargetCommandView::Start(a.deep_view()),
            TargetCommand::Stop(a) => TargetCommandView::Stop(a.deep_view()),
            TargetCommand::Restart(a) => TargetCommandView::Restart(a.deep_view()),
        }
    }
}

impl Duplicate for TargetCommand {
    fn duplicate(&self) -> (copy: Self) {
        match self {
            TargetCommand::Start(a) => TargetCommand::Start(a.duplicate()),
            TargetCommand::Stop(a) => TargetCommand::Stop(a.duplicate()),
            TargetCommand::Restart(a) => TargetCommand::Restart(a.duplicate()),
        }
    }
}

/// What is asked.
#[derive(Debug, PartialEq, Eq)]
pub enum Command {
    Start(DaemonStartArgs),
    Stop,
    Refresh(RefreshCliCommand),
    Target(TargetCommand),
    Info(InfoArgs),
    Log(LogArgs),
    Completions(CompletionsArgs),
    Init(InitArgs),
    DaemonForeground,
}

/// What a [`Command`] stands for.
pub enum CommandView {
    Start(DaemonStartArgsView),
    Stop,
    Refresh(RefreshCliCommandView),
    Target(TargetCommandView),
    Info(InfoArgsView),
    Log(LogArgsView),
    Completions(CompletionsArgsView),
    Init(InitArgs),
    DaemonForeground,
}

impl DeepView for Command {
    type V = CommandView;

    open spec fn deep_view(&self) -> CommandView {
        match self {
            Command::Start(a) => CommandView::Start(a.deep_view()),
            Command::Stop => CommandView::Stop,
            Command::Refresh(a) => CommandView::Refresh(a.deep_view()),
            Command::Target(a) => CommandView::Target(a.deep_view()),
            Command::Info(a) => CommandView::Info(a.deep_view()),
            Command::Log(a) => CommandView::Log(a.deep_view()),
            Command::Completions(a) => CommandView::Completions(a.deep_view()),
            Command::Init(a) => CommandView::Init(*a),
            Command::DaemonForeground => CommandView::DaemonForeground,
        }
    }
}

impl Duplicate for Command {
    fn duplicate(&self) -> (copy: Self) {
        match self {
            Command::Start(a) => Command::Start(a.duplicate()),
            Command::Stop => Command::Stop,
            Command::Refresh(a) => Command::Refresh(a.duplicate()),
            Command::Target(a) => Command::Target(a.duplicate()),
            Command::Info(a) => Command::Info(a.duplicate()),
            Command::Log(a) => Command::Log(a.duplicate()),
            Command::Completions(a) => Command::Completions(a.duplicate()),
            Command::Init(a) => Command::Init(*a),
            Command::DaemonForeground => Command::DaemonForeground,
        }
    }
}

/// The command line.
#[derive(Debug, PartialEq, Eq)]
pub struct Cli {
    pub command: Command,
}

/// What a [`Cli`] stands for.
pub struct CliView {
    pub command: CommandView,
}

impl DeepView for Cli {
    type V = CliView;

    open spec fn deep_view(&self) -> CliView {
        CliView {
            command: self.command.deep_view(),
        }
    }
}

impl Duplicate for Cli {
    fn duplicate(&self) -> (copy: Self) {
        Cli {
            command: self.command.duplicate(),
        }
    }
}

/// The refresh setting that an argument asks for.
pub fn refresh_mode(mode: RefreshModeArg) -> (r: RefreshMode)
    ensures
        r == mode_of(mode),
{
    match mode {
        RefreshModeArg::Auto => RefreshMode::Auto,
        RefreshModeArg::Off => RefreshMode::Off,
    }
}

/// The name of a shell.
pub open spec fn shell_text(shell: CompletionShell) -> Seq<char> {
    match shell {
        CompletionShell::Bash => "bash"@,
        CompletionShell::Zsh => "zsh"@,
        CompletionShell::Fish => "fish"@,
        CompletionShell::PowerShell => "powershell"@,
        CompletionShell::Elvish => "elvish"@,
    }
}

/// The name of the shell.
pub fn shell_name(shell: CompletionShell) -> (r: &'static str)
    ensures
        r@ == shell_text(shell),
{
    match shell {
        CompletionShell::Bash => "bash",
        CompletionShell::Zsh => "zsh",
        CompletionShell::Fish => "fish",
        CompletionShell::PowerShell => "powershell",
        CompletionShell::Elvish => "elvish",
    }
}

} // verus!
