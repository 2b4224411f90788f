//! The commands of the command line as steps: what is said, and what is to be done outside next.

use vstd::prelude::*;

use crate::cli::args::{DaemonStartArgs, DaemonStartArgsView, StartArgs, StartArgsView};
use crate::cli::commands::{
    decide, decision_text, reply_of, reply_to, resolve_env_file, setting_of, start_decision,
    watch_setting, Asked, AskedView, Reply, ReplyView, StartDecision,
};
use crate::cli::log_io::{LogSource, LogSourceView};
use crate::cli::render::{LogText, LogTextView};
use crate::env::{env_lines, load_env_overrides};
use crate::ipc::protocol::{
    ClientCommand, ClientCommandView, ConfigureRequest, ConfigureRequestView, ServerResponse,
    ServerResponseView,
};
use crate::names::NameMap;
use crate::parts::lines_spec;
use crate::paths::{absolute, join_spec, logs_dir};
use crate::views::Duplicate;

verus! {

/// What is to be done next.
#[derive(Debug, PartialEq, Eq)]
pub enum CliAction {
    /// See whether the supervisor runs.
    Connect,
    Send(ClientCommand),
    /// Start the supervisor in the background: with a file of variables that it reads itself, or
    /// with variables.
    SpawnDaemon { refresh: bool, env_file: Option<String>, variables: NameMap<String> },
    /// Be the supervisor until it is stopped, and show meanwhile what is added to the logs. Where
    /// no setting is given it is left to the environment.
    RunDaemon { setting: Option<bool>, env_file: Option<String>, variables: NameMap<String> },
    /// Read a file of variables.
    ReadEnvFile(String),
    WaitUntilReady,
    WaitUntilStopped,
    /// List the names of the files among the logs.
    ListLogs,
    /// Read the generations that were written down.
    ReadGenerations,
    ReadLogs(Vec<LogSource>),
    /// Show what is added to logs until interrupted.
    Follow(Vec<LogSource>),
    /// Show what is added to the combined log for some targets until interrupted.
    FollowCombined(Vec<String>),
    /// Wait a moment, or until interrupted.
    Sleep,
    Finish,
    Fail(String),
}

/// What a [`CliAction`] stands for.
pub enum CliActionView {
    Connect,
    Send(ClientCommandView),
    SpawnDaemon {
        refresh: bool,
        env_file: Option<Seq<char>>,
        variables: Seq<(Seq<char>, Seq<char>)>,
    },
    RunDaemon {
        setting: Option<bool>,
        env_file: Option<Seq<char>>,
        variables: Seq<(Seq<char>, Seq<char>)>,
    },
    ReadEnvFile(Seq<char>),
    WaitUntilReady,
    WaitUntilStopped,
    ListLogs,
    ReadGenerations,
    ReadLogs(Seq<LogSourceView>),
    Follow(Seq<LogSourceView>),
    FollowCombined(Seq<Seq<char>>),
    Sleep,
    Finish,
    Fail(Seq<char>),
}

impl DeepView for CliAction {
    type V = CliActionView;

    open spec fn deep_view(&self) -> CliActionView {
        match self {
            CliAction::Connect => CliActionView::Connect,
            CliAction::Send(a) => CliActionView::Send(a.deep_view()),
            CliAction::SpawnDaemon { refresh, env_file, variables } => CliActionView::SpawnDaemon {
                refresh: *refresh,
                env_file: env_file.deep_view(),
                variables: variables.deep_view(),
            },
            CliAction::RunDaemon { setting, env_file, variables } => CliActionView::RunDaemon {
                setting: *setting,
                env_file: env_file.deep_view(),
                variables: variables.deep_view(),
            },
            CliAction::ReadEnvFile(a) => CliActionView::ReadEnvFile(a.deep_view()),
            CliAction::WaitUntilReady => CliActionView::WaitUntilReady,
            CliAction::WaitUntilStopped => CliActionView::WaitUntilStopped,
            CliAction::ListLogs => CliActionView::ListLogs,
            CliAction::ReadGenerations => CliActionView::ReadGenerations,
            CliAction::ReadLogs(a) => CliActionView::ReadLogs(a.deep_view()),
            CliAction::Follow(a) => CliActionView::Follow(a.deep_view()),
            CliAction::FollowCombined(a) => CliActionView::FollowCombined(a.deep_view()),
            CliAction::Sleep => CliActionView::Sleep,
            CliAction::Finish => CliActionView::Finish,
            CliAction::Fail(a) => CliActionView::Fail(a.deep_view()),
        }
    }
}

/// What happened outside.
#[derive(Debug, PartialEq, Eq)]
pub enum CliEvent {
    Connected { running: bool },
    Answer(ServerResponse),
    AnswerFailed(String),
    /// What was to be done is done, or failed.
    Worked { error: Option<String> },
    /// What a file of variables holds; nothing where it could not be read.
    EnvFileRead(Option<String>),
    FilesListed(Vec<String>),
    GenerationsRead(Vec<(String, u64)>),
    LogsRead(Vec<LogText>),
    Interrupted,
    TimePassed,
}

/// What a [`CliEvent`] stands for.
pub enum CliEventView {
    Connected { running: bool },
    Answer(ServerResponseView),
    AnswerFailed(Seq<char>),
    Worked { error: Option<Seq<char>> },
    EnvFileRead(Option<Seq<char>>),
    FilesListed(Seq<Seq<char>>),
    GenerationsRead(Seq<(Seq<char>, u64)>),
    LogsRead(Seq<LogTextView>),
    Interrupted,
    TimePassed,
}

impl DeepView for CliEvent {
    type V = CliEventView;

    open spec fn deep_view(&self) -> CliEventView {
        match self {
            CliEvent::Connected { running } => CliEventView::Connected { running: *running },
            CliEvent::Answer(a) => CliEventView::Answer(a.deep_view()),
            CliEvent::AnswerFailed(a) => CliEventView::AnswerFailed(a.deep_view()),
            CliEvent::Worked { error } => CliEventView::Worked { error: error.deep_view() },
            CliEvent::EnvFileRead(a) => CliEventView::EnvFileRead(a.deep_view()),
            CliEvent::FilesListed(a) => CliEventView::FilesListed(a.deep_view()),
            CliEvent::GenerationsRead(a) => CliEventView::GenerationsRead(a.deep_view()),
            CliEvent::LogsRead(a) => CliEventView::LogsRead(a.deep_view()),
            CliEvent::Interrupted => CliEventView::Interrupted,
            CliEvent::TimePassed => CliEventView::TimePassed,
        }
    }
}

/// A step of a command.
#[derive(Debug, PartialEq, Eq)]
pub struct CliStep {
    /// Lines for the standard output.
    pub say: Vec<String>,
    /// A line for the standard error.
    pub warn: Option<String>,
    /// A text for the standard output as it stands.
    pub draw: Option<String>,
    pub action: CliAction,
}

/// What a [`CliStep`] stands for.
pub struct CliStepView {
    pub say: Seq<Seq<char>>,
    pub warn: Option<Seq<char>>,
    pub draw: Option<Seq<char>>,
    pub action: CliActionView,
}

impl DeepView for CliStep {
    type V = CliStepView;

    open spec fn deep_view(&self) -> CliStepView {
        CliStepView {
            say: self.say.deep_view(),
            warn: self.warn.deep_view(),
            draw: self.draw.deep_view(),
            action: self.action.deep_view(),
        }
    }
}

/// Just the next thing to do.
pub open spec fn doing(action: CliActionView) -> CliStepView {
    CliStepView { say: Seq::empty(), warn: None, draw: None, action }
}

/// Something to say and the next thing to do.
pub open spec fn saying(lines: Seq<Seq<char>>, action: CliActionView) -> CliStepView {
    CliStepView { say: lines, warn: None, draw: None, action }
}

/// What is said where the supervisor is needed and does not run.
pub open spec fn not_running() -> Seq<char> {
    "rufa daemon is not running; launch it with `rufa start`"@
}

/// What is said of where the logs are.
pub open spec fn logs_line() -> Seq<char> {
    "logs directory: "@ + join_spec(".rufa"@, "logs"@)
}

/// Just the next thing to do.
pub(crate) fn step_doing(action: CliAction) -> (r: CliStep)
    ensures
        r.deep_view() == doing(action.deep_view()),
{
    let say: Vec<String> = Vec::new();
    assert(say.deep_view() =~= Seq::empty());
    CliStep { say, warn: None, draw: None, action }
}

/// One line to say and the next thing to do.
pub(crate) fn step_saying(line: String, action: CliAction) -> (r: CliStep)
    ensures
        r.deep_view() == saying(seq![line@], action.deep_view()),
{
    let mut say: Vec<String> = Vec::new();
    say.push(line);
    assert(say.deep_view() =~= seq![line@]);
    CliStep { say, warn: None, draw: None, action }
}

/// Two lines to say and the next thing to do.
pub(crate) fn step_saying_two(first: String, second: String, action: CliAction) -> (r: CliStep)
    ensures
        r.deep_view() == saying(seq![first@, second@], action.deep_view()),
{
    let mut say: Vec<String> = Vec::new();
    say.push(first);
    say.push(second);
    assert(say.deep_view() =~= seq![first@, second@]);
    CliStep { say, warn: None, draw: None, action }
}

/// Where the logs are.
pub(crate) fn logs_directory_line() -> (r: String)
    ensures
        r@ == logs_line(),
{
    let mut r: String = "logs directory: ".to_owned();
    r.append(logs_dir().as_str());
    r
}

/// The command fails because the supervisor does not run.
pub(crate) fn fail_not_running() -> (r: CliStep)
    ensures
        r.deep_view() == doing(CliActionView::Fail(not_running())),
{
    step_doing(
        CliAction::Fail("rufa daemon is not running; launch it with `rufa start`".to_owned()),
    )
}

/// What a reply that needs nothing more leads to. Replies that need more fail the command.
pub open spec fn replied(reply: ReplyView) -> CliStepView {
    match reply {
        ReplyView::Print(text) => saying(seq![text], CliActionView::Finish),
        ReplyView::Nothing => doing(CliActionView::Finish),
        ReplyView::Follow(text) => saying(seq![text], CliActionView::Finish),
        ReplyView::WaitForShutdown(text) => saying(seq![text], CliActionView::WaitUntilStopped),
        ReplyView::Fail(message) => doing(CliActionView::Fail(message)),
    }
}

/// What the reply leads to.
pub(crate) fn step_replied(reply: Reply) -> (r: CliStep)
    ensures
        r.deep_view() == replied(reply.deep_view()),
{
    match reply {
        Reply::Print(text) => step_saying(text, CliAction::Finish),
        Reply::Nothing => step_doing(CliAction::Finish),
        Reply::Follow(text) => step_saying(text, CliAction::Finish),
        Reply::WaitForShutdown(text) => step_saying(text, CliAction::WaitUntilStopped),
        Reply::Fail(message) => step_doing(CliAction::Fail(message)),
    }
}

// ---------------------------------------------------------------------------
// Starting the supervisor
// ---------------------------------------------------------------------------

/// Where starting the supervisor stands.
#[derive(Debug, PartialEq, Eq)]
pub enum DaemonPhase {
    Connecting,
    ReadingEnv,
    Configuring { value: bool },
    InForeground,
    Spawning,
    GettingReady,
    Over,
}

/// What a [`DaemonPhase`] stands for.
pub enum DaemonPhaseView {
    Connecting,
    ReadingEnv,
    Configuring { value: bool },
    InForeground,
    Spawning,
    GettingReady,
    Over,
}

impl DeepView for DaemonPhase {
    type V = DaemonPhaseView;

    open spec fn deep_view(&self) -> DaemonPhaseView {
        match self {
            DaemonPhase::Connecting => DaemonPhaseView::Connecting,
            DaemonPhase::ReadingEnv => DaemonPhaseView::ReadingEnv,
            DaemonPhase::Configuring { value } => DaemonPhaseView::Configuring { value: *value },
            DaemonPhase::InForeground => DaemonPhaseView::InForeground,
            DaemonPhase::Spawning => DaemonPhaseView::Spawning,
            DaemonPhase::GettingReady => DaemonPhaseView::GettingReady,
            DaemonPhase::Over => DaemonPhaseView::Over,
        }
    }
}

/// Starting the supervisor.
#[derive(Debug, PartialEq, Eq)]
pub struct DaemonStart {
    pub phase: DaemonPhase,
    pub foreground: bool,
    /// A file with variables.
    pub env_file: Option<String>,
    /// The setting that a running supervisor is told.
    pub setting: Option<bool>,
    /// The setting that a new supervisor starts with.
    pub refresh: bool,
    /// Whether the setting and the variables are made ready beforehand. Otherwise the supervisor
    /// reads the file of variables itself.
    pub prepared: bool,
}

/// What a [`DaemonStart`] stands for.
pub struct DaemonStartView {
    pub phase: DaemonPhaseView,
    pub foreground: bool,
    pub env_file: Option<Seq<char>>,
    pub setting: Option<bool>,
    pub refresh: bool,
    pub prepared: bool,
}

impl DeepView for DaemonStart {
    type V = DaemonStartView;

    open spec fn deep_view(&self) -> DaemonStartView {
        DaemonStartView {
            phase: self.phase.deep_view(),
            foreground: self.foreground,
            env_file: self.env_file.deep_view(),
            setting: self.setting.deep_view(),
            refresh: self.refresh,
            prepared: self.prepared,
        }
    }
}

/// The file of variables as the supervisor finds it.
pub open spec fn env_file_from(path: Option<Seq<char>>, cwd: Seq<char>) -> Option<Seq<char>> {
    match path {
        Some(path) => if absolute(path) {
            Some(path)
        } else {
            Some(join_spec(cwd, path))
        },
        None => None,
    }
}

fn env_file_for(path: &Option<String>, cwd: &str) -> (r: Option<String>)
    ensures
        r.deep_view() == env_file_from(path.deep_view(), cwd@),
{
    match path {
        Some(path) => Some(resolve_env_file(path.as_str(), cwd)),
        None => None,
    }
}

/// The start that is asked for, seen from the directory of the caller.
pub open spec fn start_of(args: DaemonStartArgsView, cwd: Seq<char>) -> DaemonStartView {
    DaemonStartView {
        phase: DaemonPhaseView::Connecting,
        foreground: args.foreground,
        env_file: env_file_from(args.env_file, cwd),
        setting: None,
        refresh: true,
        prepared: false,
    }
}

/// The start that is asked for with a setting; its file of variables is read beforehand.
pub open spec fn start_with_setting(args: StartArgsView) -> DaemonStartView {
    DaemonStartView {
        phase: DaemonPhaseView::Connecting,
        foreground: args.foreground,
        env_file: args.env_file,
        setting: setting_of(args.watch, args.no_watch),
        refresh: setting_of(args.watch, args.no_watch) == Some(true),
        prepared: true,
    }
}

/// The second line that is said when the supervisor starts in the foreground.
pub open spec fn foreground_line(prepared: bool) -> Seq<char> {
    if prepared {
        "streaming logs to stdout..."@
    } else {
        logs_line()
    }
}

/// What is said when the supervisor has started.
pub open spec fn started_line(prepared: bool) -> Seq<char> {
    if prepared {
        "rufa daemon started; launch targets with `rufa run`"@
    } else {
        decision_text(StartDecision::Spawn)
    }
}

/// The file of variables that is left to the supervisor.
pub open spec fn handed_env_file(start: DaemonStartView) -> Option<Seq<char>> {
    if start.prepared {
        None
    } else {
        start.env_file
    }
}

/// What follows once it is known whether the supervisor runs and which variables it is given.
pub open spec fn launch_step(
    start: DaemonStartView,
    running: bool,
    variables: Seq<(Seq<char>, Seq<char>)>,
) -> (DaemonPhaseView, CliStepView) {
    let decision = start_decision(running, start.env_file is Some, start.foreground, start.setting);
    let message = decision_text(decision);
    match decision {
        StartDecision::RefuseEnv => (DaemonPhaseView::Over, doing(CliActionView::Fail(message))),
        StartDecision::RefuseForeground => (
            DaemonPhaseView::Over,
            saying(seq![message], CliActionView::Finish),
        ),
        StartDecision::RunInForeground => (
            DaemonPhaseView::InForeground,
            saying(
                seq![message, foreground_line(start.prepared)],
                CliActionView::RunDaemon {
                    setting: if start.prepared {
                        Some(start.refresh)
                    } else {
                        None
                    },
                    env_file: handed_env_file(start),
                    variables,
                },
            ),
        ),
        StartDecision::Configure { value } => (
            DaemonPhaseView::Configuring { value },
            doing(
                CliActionView::Send(
                    ClientCommandView::Configure(
                        ConfigureRequestView { default_watch: Some(value) },
                    ),
                ),
            ),
        ),
        StartDecision::AlreadyRunning => (
            DaemonPhaseView::Over,
            saying(seq![message], CliActionView::Finish),
        ),
        StartDecision::Spawn => (
            DaemonPhaseView::Spawning,
            doing(
                CliActionView::SpawnDaemon {
                    refresh: start.refresh,
                    env_file: handed_env_file(start),
                    variables,
                },
            ),
        ),
    }
}

/// Why a file of variables stops a start.
pub open spec fn unreadable_env(path: Option<Seq<char>>) -> Seq<char> {
    "loading environment overrides from "@ + (match path {
        Some(path) => path,
        None => Seq::empty(),
    })
}

/// What follows from an event while the supervisor is started.
pub open spec fn daemon_step(start: DaemonStartView, event: CliEventView) -> (
    DaemonPhaseView,
    CliStepView,
) {
    match (start.phase, event) {
        (DaemonPhaseView::Connecting, CliEventView::Connected { running }) => match start.env_file {
            Some(path) if start.prepared && !running => (
                DaemonPhaseView::ReadingEnv,
                doing(CliActionView::ReadEnvFile(path)),
            ),
            _ => launch_step(start, running, Seq::empty()),
        },
        (DaemonPhaseView::ReadingEnv, CliEventView::EnvFileRead(contents)) => match contents {
            Some(text) => match env_lines(lines_spec(text)) {
                Ok(variables) => launch_step(start, false, variables),
                Err(_) => (
                    DaemonPhaseView::Over,
                    doing(CliActionView::Fail(unreadable_env(start.env_file))),
                ),
            },
            None => (
                DaemonPhaseView::Over,
                doing(CliActionView::Fail(unreadable_env(start.env_file))),
            ),
        },
        (DaemonPhaseView::Configuring { value }, CliEventView::Answer(response)) => (
            DaemonPhaseView::Over,
            replied(reply_of(AskedView::Configure { value }, response)),
        ),
        (DaemonPhaseView::Configuring { .. }, CliEventView::AnswerFailed(message)) => (
            DaemonPhaseView::Over,
            doing(CliActionView::Fail(message)),
        ),
        (DaemonPhaseView::InForeground, CliEventView::Worked { error }) => (
            DaemonPhaseView::Over,
            match error {
                Some(message) => doing(CliActionView::Fail(message)),
                None => doing(CliActionView::Finish),
            },
        ),
        (DaemonPhaseView::Spawning, CliEventView::Worked { error }) => match error {
            Some(_) => (
                DaemonPhaseView::Over,
                doing(CliActionView::Fail("failed to spawn rufa daemon"@)),
            ),
            None => (DaemonPhaseView::GettingReady, doing(CliActionView::WaitUntilReady)),
        },
        (DaemonPhaseView::GettingReady, CliEventView::Worked { error }) => (
            DaemonPhaseView::Over,
            match error {
                Some(_) => doing(CliActionView::Fail("daemon did not become ready in time"@)),
                None => saying(seq![started_line(start.prepared)], CliActionView::Finish),
            },
        ),
        _ => (DaemonPhaseView::Over, doing(CliActionView::Finish)),
    }
}

impl DaemonStart {
    /// Starting the supervisor. In the background changes restart services at once; in the
    /// foreground the setting is left to the environment.
    pub fn new(args: &DaemonStartArgs, cwd: &str) -> (r: Self)
        ensures
            r.deep_view() == start_of(args.deep_view(), cwd@),
    {
        DaemonStart {
            phase: DaemonPhase::Connecting,
            foreground: args.foreground,
            env_file: env_file_for(&args.env_file, cwd),
            setting: None,
            refresh: true,
            prepared: false,
        }
    }

    /// Starting the supervisor with a watch setting, off where none is asked for, and with the
    /// variables of a file.
    pub fn with_setting(args: &StartArgs) -> (r: Self)
        ensures
            r.deep_view() == start_with_setting(args.deep_view()),
    {
        DaemonStart {
            phase: DaemonPhase::Connecting,
            foreground: args.foreground,
            env_file: args.env_file.duplicate(),
            setting: watch_setting(args.watch, args.no_watch),
            refresh: args.watch,
            prepared: true,
        }
    }

    fn env_file_to_hand(&self) -> (r: Option<String>)
        ensures
            r.deep_view() == handed_env_file(self.deep_view()),
    {
        if self.prepared {
            None
        } else {
            self.env_file.duplicate()
        }
    }

    fn launch(&mut self, running: bool, variables: NameMap<String>) -> (step: CliStep)
        requires
            old(self).phase.deep_view() == DaemonPhaseView::Over,
        ensures
            (final(self).phase.deep_view(), step.deep_view()) == launch_step(
                old(self).deep_view(),
                running,
                variables.deep_view(),
            ),
            final(self).deep_view() == (DaemonStartView {
                phase: final(self).phase.deep_view(),
                ..old(self).deep_view()
            }),
    {
        let decision = decide(running, self.env_file.is_some(), self.foreground, self.setting);
        let message: String = decision.message().to_owned();
        match decision {
            StartDecision::RefuseEnv => step_doing(CliAction::Fail(message)),
            StartDecision::RefuseForeground => step_saying(message, CliAction::Finish),
            StartDecision::RunInForeground => {
                let second: String = if self.prepared {
                    "streaming logs to stdout...".to_owned()
                } else {
                    logs_directory_line()
                };
                let setting: Option<bool> = if self.prepared {
                    Some(self.refresh)
                } else {
                    None
                };
                let env_file = self.env_file_to_hand();
                self.phase = DaemonPhase::InForeground;
                step_saying_two(
                    message,
                    second,
                    CliAction::RunDaemon { setting, env_file, variables },
                )
            },
            StartDecision::Configure { value } => {
                self.phase = DaemonPhase::Configuring { value };
                step_doing(
                    CliAction::Send(
                        ClientCommand::Configure(ConfigureRequest { default_watch: Some(value) }),
                    ),
                )
            },
            StartDecision::AlreadyRunning => step_saying(message, CliAction::Finish),
            StartDecision::Spawn => {
                let env_file = self.env_file_to_hand();
                self.phase = DaemonPhase::Spawning;
                step_doing(
                    CliAction::SpawnDaemon { refresh: self.refresh, env_file, variables },
                )
            },
        }
    }

    fn refuse_env_file(&self) -> (step: CliStep)
        ensures
            step.deep_view() == doing(
                CliActionView::Fail(unreadable_env(self.deep_view().env_file)),
            ),
    {
        let mut message: String = "loading environment overrides from ".to_owned();
        if let Some(path) = &self.env_file {
            message.append(path.as_str());
        }
        assert(message@ =~= unreadable_env(self.deep_view().env_file));
        step_doing(CliAction::Fail(message))
    }

    /// What follows from an event.
    pub fn advance(&mut self, event: CliEvent) -> (step: CliStep)
        ensures
            (final(self).phase.deep_view(), step.deep_view()) == daemon_step(
                old(self).deep_view(),
                event.deep_view(),
            ),
            final(self).deep_view() == (DaemonStartView {
                phase: final(self).phase.deep_view(),
                ..old(self).deep_view()
            }),
    {
        let mut phase = DaemonPhase::Over;
        std::mem::swap(&mut phase, &mut self.phase);
        match (phase, event) {
            (DaemonPhase::Connecting, CliEvent::Connected { running }) => {
                if self.prepared && !running {
                    if let Some(path) = &self.env_file {
                        let path: String = path.clone();
                        self.phase = DaemonPhase::ReadingEnv;
                        return step_doing(CliAction::ReadEnvFile(path));
                    }
                }
                self.launch(running, NameMap::new())
            },
            (DaemonPhase::ReadingEnv, CliEvent::EnvFileRead(contents)) => match contents {
                Some(text) => match load_env_overrides(text.as_str()) {
                    Ok(variables) => self.launch(false, variables),
                    Err(_) => self.refuse_env_file(),
                },
                None => self.refuse_env_file(),
            },
            (DaemonPhase::Configuring { value }, CliEvent::Answer(response)) => step_replied(
                reply_to(&Asked::Configure { value }, &response),
            ),
            (DaemonPhase::Configuring { .. }, CliEvent::AnswerFailed(message)) => step_doing(
                CliAction::Fail(message),
            ),
            (DaemonPhase::InForeground, CliEvent::Worked { error }) => match error {
                Some(message) => step_doing(CliAction::Fail(message)),
                None => step_doing(CliAction::Finish),
            },
            (DaemonPhase::Spawning, CliEvent::Worked { error }) => match error {
                Some(_) => step_doing(CliAction::Fail("failed to spawn rufa daemon".to_owned())),
                None => {
                    self.phase = DaemonPhase::GettingReady;
                    step_doing(CliAction::WaitUntilReady)
                },
            },
            (DaemonPhase::GettingReady, CliEvent::Worked { error }) => match error {
                Some(_) => step_doing(
                    CliAction::Fail("daemon did not become ready in time".to_owned()),
                ),
                None => {
                    let line: String = if self.prepared {
                        "rufa daemon started; launch targets with `rufa run`".to_owned()
                    } else {
                        StartDecision::Spawn.message().to_owned()
                    };
                    step_saying(line, CliAction::Finish)
                },
            },
            _ => step_doing(CliAction::Finish),
        }
    }
}

// ---------------------------------------------------------------------------
// Requests that take one answer
// ---------------------------------------------------------------------------

/// Where a request stands.
#[derive(Debug, PartialEq, Eq)]
pub enum RequestPhase {
    Connecting,
    Waiting,
    Stopping { text: String },
    Over,
}

/// What a [`RequestPhase`] stands for.
pub enum RequestPhaseView {
    Connecting,
    Waiting,
    Stopping { text: Seq<char> },
    Over,
}

impl DeepView for RequestPhase {
    type V = RequestPhaseView;

    open spec fn deep_view(&self) -> RequestPhaseView {
        match self {
            RequestPhase::Connecting => RequestPhaseView::Connecting,
            RequestPhase::Waiting => RequestPhaseView::Waiting,
            RequestPhase::Stopping { text } => RequestPhaseView::Stopping {
                text: text.deep_view(),
            },
            RequestPhase::Over => RequestPhaseView::Over,
        }
    }
}

/// A request to the supervisor.
#[derive(Debug, PartialEq, Eq)]
pub struct Request {
    pub phase: RequestPhase,
    pub asked: Asked,
    pub command: ClientCommand,
    /// What is said where the supervisor could not be asked.
    pub failure: Option<String>,
}

/// What a [`Request`] stands for.
pub struct RequestView {
    pub phase: RequestPhaseView,
    pub asked: AskedView,
    pub command: ClientCommandView,
    pub failure: Option<Seq<char>>,
}

impl DeepView for Request {
    type V = RequestView;

    open spec fn deep_view(&self) -> RequestView {
        RequestView {
            phase: self.phase.deep_view(),
            asked: self.asked.deep_view(),
            command: self.command.deep_view(),
            failure: self.failure.deep_view(),
        }
    }
}

/// What follows from an event while a request is made.
pub open spec fn request_step(request: RequestView, event: CliEventView) -> (
    RequestPhaseView,
    CliStepView,
) {
    match (request.phase, event) {
        (RequestPhaseView::Connecting, CliEventView::Connected { running }) => if running {
            (RequestPhaseView::Waiting, doing(CliActionView::Send(request.command)))
        } else if request.asked is StopDaemon {
            (
                RequestPhaseView::Over,
                saying(seq!["rufa daemon is not running"@], CliActionView::Finish),
            )
        } else {
            (RequestPhaseView::Over, doing(CliActionView::Fail(not_running())))
        },
        (RequestPhaseView::Waiting, CliEventView::Answer(response)) => match reply_of(
            request.asked,
            response,
        ) {
            ReplyView::WaitForShutdown(text) => (
                RequestPhaseView::Stopping { text },
                doing(CliActionView::WaitUntilStopped),
            ),
            reply => (RequestPhaseView::Over, replied(reply)),
        },
        (RequestPhaseView::Waiting, CliEventView::AnswerFailed(message)) => (
            RequestPhaseView::Over,
            match request.failure {
                Some(text) => doing(CliActionView::Fail(text)),
                None => doing(CliActionView::Fail(message)),
            },
        ),
        (RequestPhaseView::Stopping { text }, CliEventView::Worked { error }) => (
            RequestPhaseView::Over,
            match error {
                Some(message) => doing(CliActionView::Fail(message)),
                None => saying(seq![text], CliActionView::Finish),
            },
        ),
        _ => (RequestPhaseView::Over, doing(CliActionView::Finish)),
    }
}

impl Request {
    /// A request, what it asks for, and what is said where the supervisor could not be asked.
    pub fn new(asked: Asked, command: ClientCommand, failure: Option<String>) -> (r: Self)
        ensures
            r.deep_view() == (RequestView {
                phase: RequestPhaseView::Connecting,
                asked: asked.deep_view(),
                command: command.deep_view(),
                failure: failure.deep_view(),
            }),
    {
        Request { phase: RequestPhase::Connecting, asked, command, failure }
    }

    /// What follows from an event.
    pub fn advance(&mut self, event: CliEvent) -> (step: CliStep)
        ensures
            (final(self).phase.deep_view(), step.deep_view()) == request_step(
                old(self).deep_view(),
                event.deep_view(),
            ),
            final(self).deep_view() == (RequestView {
                phase: final(self).phase.deep_view(),
                ..old(self).deep_view()
            }),
    {
        let mut phase = RequestPhase::Over;
        std::mem::swap(&mut phase, &mut self.phase);
        match (phase, event) {
            (RequestPhase::Connecting, CliEvent::Connected { running }) => {
                if running {
                    self.phase = RequestPhase::Waiting;
                    return step_doing(CliAction::Send(self.command.duplicate()));
                }
                match &self.asked {
                    Asked::StopDaemon => step_saying(
                        "rufa daemon is not running".to_owned(),
                        CliAction::Finish,
                    ),
                    _ => fail_not_running(),
                }
            },
            (RequestPhase::Waiting, CliEvent::Answer(response)) => match reply_to(
                &self.asked,
                &response,
            ) {
                Reply::WaitForShutdown(text) => {
                    self.phase = RequestPhase::Stopping { text };
                    step_doing(CliAction::WaitUntilStopped)
                },
                reply => step_replied(reply),
            },
            (RequestPhase::Waiting, CliEvent::AnswerFailed(message)) => match &self.failure {
                Some(text) => step_doing(CliAction::Fail(text.clone())),
                None => step_doing(CliAction::Fail(message)),
            },
            (RequestPhase::Stopping { text }, CliEvent::Worked { error }) => match error {
                Some(message) => step_doing(CliAction::Fail(message)),
                None => step_saying(text, CliAction::Finish),
            },
            _ => step_doing(CliAction::Finish),
        }
    }
}

// ---------------------------------------------------------------------------
// Laws
// ---------------------------------------------------------------------------

/// How many steps are left at most while the supervisor is started.
pub open spec fn daemon_steps_left(phase: DaemonPhaseView) -> nat {
    match phase {
        DaemonPhaseView::Connecting => 4,
        DaemonPhaseView::ReadingEnv => 3,
        DaemonPhaseView::Spawning => 2,
        DaemonPhaseView::GettingReady => 1,
        DaemonPhaseView::Configuring { .. } => 1,
        DaemonPhaseView::InForeground => 1,
        DaemonPhaseView::Over => 0,
    }
}

/// Starting the supervisor comes to an end, and says that it started only after it became ready.
pub proof fn starting_ends(start: DaemonStartView, event: CliEventView)
    ensures
        start.phase is Over || daemon_steps_left(daemon_step(start, event).0) < daemon_steps_left(
            start.phase,
        ),
        start.phase is GettingReady && daemon_step(start, event).1.say.len() > 0 ==> event == (
        CliEventView::Worked { error: None }),
{
}

/// A file of variables that is made ready beforehand and cannot be read, or holds a wrong name,
/// stops the start: no supervisor is started.
pub proof fn bad_variables_start_nothing(start: DaemonStartView, contents: Option<Seq<char>>)
    requires
        start.phase is ReadingEnv,
        contents matches Some(text) ==> env_lines(lines_spec(text)) is Err,
    ensures
        daemon_step(start, CliEventView::EnvFileRead(contents)).1.action == CliActionView::Fail(
            unreadable_env(start.env_file),
        ),
{
}

/// How many steps are left at most while a request is made.
pub open spec fn request_steps_left(phase: RequestPhaseView) -> nat {
    match phase {
        RequestPhaseView::Connecting => 3,
        RequestPhaseView::Waiting => 2,
        RequestPhaseView::Stopping { .. } => 1,
        RequestPhaseView::Over => 0,
    }
}

/// A request comes to an end, and fails exactly where the supervisor does not run and is needed,
/// could not be asked, answered with an error, or did not stop.
pub proof fn requests_end(request: RequestView, event: CliEventView)
    ensures
        request.phase is Over || request_steps_left(request_step(request, event).0)
            < request_steps_left(request.phase),
        request_step(request, event).1.action is Fail <==> {
            ||| request.phase is Connecting && event == (CliEventView::Connected { running: false })
                && !(request.asked is StopDaemon)
            ||| request.phase is Waiting && event is AnswerFailed
            ||| request.phase is Waiting && (event matches CliEventView::Answer(response)
                && response is Error)
            ||| request.phase is Stopping && (event matches CliEventView::Worked { error } && error
                is Some)
        },
{
}

} // verus!
