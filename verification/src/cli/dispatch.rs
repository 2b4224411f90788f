//! Which steps a command line leads to.

use vstd::prelude::*;

use crate::cli::args::{
    refresh_mode, Cli, CliView, Command, CommandView, CompletionShell, RefreshCliCommand,
    RefreshCliCommandView, RefreshModeArg, TargetCommand, TargetCommandView,
};
use crate::cli::commands::{check_restart, Asked, AskedView};
use crate::cli::session::{
    env_file_from, DaemonPhaseView, DaemonStart, DaemonStartView, Request, RequestPhaseView,
    RequestView,
};
use crate::cli::streams::{
    InfoPhaseView, LogPhaseView, RunTargets, RunTargetsView, ShowInfo, ShowInfoView, ShowLogs,
    ShowLogsView, StartTargets, StartTargetsPhaseView, StartTargetsView,
};
use crate::ipc::protocol::{
    ClientCommand, ClientCommandView, RefreshCommand, RefreshMode, RestartRequest,
    RestartRequestView, StopTargetsRequest, StopTargetsRequestView,
};
use crate::views::Duplicate;

verus! {

/// What a command line leads to.
#[derive(Debug)]
pub enum Conversation {
    Daemon(DaemonStart),
    Request(Request),
    Start(StartTargets),
    Run(RunTargets),
    Log(ShowLogs),
    Info(ShowInfo),
    /// Write completions for a shell.
    Completions(CompletionShell),
    /// Set a repository up.
    Init,
    /// Be the supervisor.
    Serve,
    /// Fail at once.
    Refused(String),
}

/// What a [`Conversation`] stands for.
pub enum ConversationView {
    Daemon(DaemonStartView),
    Request(RequestView),
    Start(StartTargetsView),
    Run(RunTargetsView),
    Log(ShowLogsView),
    Info(ShowInfoView),
    Completions(CompletionShell),
    Init,
    Serve,
    Refused(Seq<char>),
}

impl DeepView for Conversation {
    type V = ConversationView;

    open spec fn deep_view(&self) -> ConversationView {
        match self {
            Conversation::Daemon(a) => ConversationView::Daemon(a.deep_view()),
            Conversation::Request(a) => ConversationView::Request(a.deep_view()),
            Conversation::Start(a) => ConversationView::Start(a.deep_view()),
            Conversation::Run(a) => ConversationView::Run(a.deep_view()),
            Conversation::Log(a) => ConversationView::Log(a.deep_view()),
            Conversation::Info(a) => ConversationView::Info(a.deep_view()),
            Conversation::Completions(a) => ConversationView::Completions(*a),
            Conversation::Init => ConversationView::Init,
            Conversation::Serve => ConversationView::Serve,
            Conversation::Refused(a) => ConversationView::Refused(a.deep_view()),
        }
    }
}

/// The refresh setting that an argument asks for.
pub open spec fn mode_of(mode: RefreshModeArg) -> RefreshMode {
    match mode {
        RefreshModeArg::Auto => RefreshMode::Auto,
        RefreshModeArg::Off => RefreshMode::Off,
    }
}

/// A request that begins.
pub open spec fn asking(
    asked: AskedView,
    command: ClientCommandView,
    failure: Option<Seq<char>>,
) -> ConversationView {
    ConversationView::Request(
        RequestView { phase: RequestPhaseView::Connecting, asked, command, failure },
    )
}

/// What a command about refreshing leads to.
pub open spec fn refresh_conversation(command: RefreshCliCommandView) -> ConversationView {
    match command {
        RefreshCliCommandView::SetMode(args) => asking(
            AskedView::SetRefresh { mode: mode_of(args.mode) },
            ClientCommandView::Refresh(RefreshCommand::SetMode { mode: mode_of(args.mode) }),
            Some("failed to update refresh setting"@),
        ),
        RefreshCliCommandView::StaleTargets => asking(
            AskedView::RestartStale,
            ClientCommandView::Refresh(RefreshCommand::RestartStaleTargets),
            Some("failed to refresh stale targets"@),
        ),
    }
}

/// What a command about targets leads to.
pub open spec fn target_conversation(command: TargetCommandView) -> ConversationView {
    match command {
        TargetCommandView::Start(args) => ConversationView::Start(
            StartTargetsView {
                phase: StartTargetsPhaseView::Connecting,
                targets: args.targets,
                foreground: args.foreground,
            },
        ),
        TargetCommandView::Stop(args) => asking(
            AskedView::StopTargets { targets: args.targets },
            ClientCommandView::StopTargets(StopTargetsRequestView { targets: args.targets }),
            None,
        ),
        TargetCommandView::Restart(args) => if args.all && args.targets.len() > 0 {
            ConversationView::Refused("cannot combine explicit targets with --all"@)
        } else {
            asking(
                AskedView::Restart { targets: args.targets, all: args.all },
                ClientCommandView::Restart(
                    RestartRequestView { targets: args.targets, all: args.all },
                ),
                None,
            )
        },
    }
}

/// What a command line leads to, in a directory and on a terminal or not.
pub open spec fn conversation_of(
    cli: CliView,
    cwd: Seq<char>,
    width: Option<usize>,
    terminal: bool,
) -> ConversationView {
    match cli.command {
        CommandView::Start(args) => ConversationView::Daemon(
            DaemonStartView {
                phase: DaemonPhaseView::Connecting,
                foreground: args.foreground,
                env_file: env_file_from(args.env_file, cwd),
                setting: None,
                refresh: true,
                prepared: false,
            },
        ),
        CommandView::Stop => asking(AskedView::StopDaemon, ClientCommandView::Stop, None),
        CommandView::Refresh(command) => refresh_conversation(command),
        CommandView::Target(command) => target_conversation(command),
        CommandView::Info(args) => ConversationView::Info(
            ShowInfoView {
                phase: InfoPhaseView::Connecting,
                args,
                width,
                colorize: terminal,
                last: Seq::empty(),
            },
        ),
        CommandView::Log(args) => ConversationView::Log(
            ShowLogsView { phase: LogPhaseView::Connecting, args, terminal },
        ),
        CommandView::Completions(args) => ConversationView::Completions(args.shell),
        CommandView::Init(_) => ConversationView::Init,
        CommandView::DaemonForeground => ConversationView::Serve,
    }
}

fn refresh_request(command: RefreshCliCommand) -> (r: Conversation)
    ensures
        r.deep_view() == refresh_conversation(command.deep_view()),
{
    match command {
        RefreshCliCommand::SetMode(args) => {
            let mode: RefreshMode = refresh_mode(args.mode);
            Conversation::Request(
                Request::new(
                    Asked::SetRefresh { mode },
                    ClientCommand::Refresh(RefreshCommand::SetMode { mode }),
                    Some("failed to update refresh setting".to_owned()),
                ),
            )
        },
        RefreshCliCommand::StaleTargets => Conversation::Request(
            Request::new(
                Asked::RestartStale,
                ClientCommand::Refresh(RefreshCommand::RestartStaleTargets),
                Some("failed to refresh stale targets".to_owned()),
            ),
        ),
    }
}

fn target_request(command: TargetCommand) -> (r: Conversation)
    ensures
        r.deep_view() == target_conversation(command.deep_view()),
{
    match command {
        TargetCommand::Start(args) => Conversation::Start(StartTargets::new(&args)),
        TargetCommand::Stop(args) => Conversation::Request(
            Request::new(
                Asked::StopTargets { targets: args.targets.duplicate() },
                ClientCommand::StopTargets(StopTargetsRequest { targets: args.targets }),
                None,
            ),
        ),
        TargetCommand::Restart(args) => match check_restart(&args) {
            Err(message) => Conversation::Refused(message),
            Ok(()) => Conversation::Request(
                Request::new(
                    Asked::Restart { targets: args.targets.duplicate(), all: args.all },
                    ClientCommand::Restart(
                        RestartRequest { targets: args.targets, all: args.all },
                    ),
                    None,
                ),
            ),
        },
    }
}

impl Cli {
    /// What the command line leads to, in a directory and on a terminal or not.
    pub fn execute(self, cwd: &str, width: Option<usize>, terminal: bool) -> (r: Conversation)
        ensures
            r.deep_view() == conversation_of(self.deep_view(), cwd@, width, terminal),
    {
        match self.command {
            Command::Start(args) => Conversation::Daemon(DaemonStart::new(&args, cwd)),
            Command::Stop => Conversation::Request(
                Request::new(Asked::StopDaemon, ClientCommand::Stop, None),
            ),
            Command::Refresh(command) => refresh_request(command),
            Command::Target(command) => target_request(command),
            Command::Info(args) => Conversation::Info(ShowInfo::new(args, width, terminal)),
            Command::Log(args) => Conversation::Log(ShowLogs::new(args, terminal)),
            Command::Completions(args) => Conversation::Completions(args.shell),
            Command::Init(_) => Conversation::Init,
            Command::DaemonForeground => Conversation::Serve,
        }
    }
}

} // verus!
