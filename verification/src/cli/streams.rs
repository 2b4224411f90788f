//! The commands that show logs and the state of targets, as steps.

use vstd::prelude::*;

use crate::cli::args::{
    InfoArgs, InfoArgsView, LogArgs, LogArgsView, RunArgs, RunArgsView, TargetStartArgs,
};
use crate::cli::commands::{
    generation_map, log_output, redraw, reply_of, reply_to, setting_of, shown_entries,
    targets_to_log, told_generations, watch_setting, Asked, AskedView, Reply, ReplyView,
};
use crate::cli::log_io::{
    asked_targets, build_sources, colored, entries_of, entry_text, read_entries,
    sources_of, LogEntry, LogEntryView, LogSource, LogSourceView,
};
use crate::cli::render::{
    contents_of, find_contents, format_info_response, info_lines, logs_to_read, running_sources,
    stopped_sources, text_of_lines, write_info_response, Display, LogContents, LogContentsView,
    LogText, LogTextView,
};
use crate::cli::session::{
    doing, fail_not_running, logs_directory_line, logs_line, not_running, replied, saying,
    step_doing, step_replied, step_saying, CliAction, CliActionView, CliEvent, CliEventView,
    CliStep, CliStepView,
};
use crate::ipc::protocol::{
    ClientCommand, ClientCommandView, InfoRequest, InfoRequestView, InfoResponse, InfoResponseView,
    KillRequest, KillRequestView, RunRequest, RunRequestView, ServerResponse, ServerResponseView,
    StartTargetsRequest, StartTargetsRequestView, StopTargetsRequest, StopTargetsRequestView,
};
use crate::names::{names_of, NameMap};
use crate::parts::lines_spec;
use crate::runner::generation::recorded;
use crate::views::Duplicate;

verus! {

/// The question about some targets.
pub open spec fn info_command(targets: Seq<Seq<char>>) -> ClientCommandView {
    ClientCommandView::Info(InfoRequestView { targets })
}

fn ask_info(targets: &Vec<String>) -> (r: ClientCommand)
    ensures
        r.deep_view() == info_command(targets.deep_view()),
{
    ClientCommand::Info(InfoRequest { targets: targets.duplicate() })
}

/// The generations that an answer tells; none where it tells nothing.
pub open spec fn generations_in_answer(response: ServerResponseView) -> Result<
    Seq<(Seq<char>, u64)>,
    Seq<char>,
> {
    match response {
        ServerResponseView::Info(info) => Ok(told_generations(info.generations)),
        ServerResponseView::Error(message) => Err(message),
        ServerResponseView::Ack => Ok(Seq::empty()),
    }
}

fn answered_generations(response: &ServerResponse) -> (r: Result<NameMap<u64>, String>)
    ensures
        crate::views::outcome(r) == generations_in_answer(response.deep_view()),
{
    match response {
        ServerResponse::Info(info) => Ok(generation_map(&info.generations)),
        ServerResponse::Error(message) => Err(message.clone()),
        ServerResponse::Ack => Ok(NameMap::new()),
    }
}

// ---------------------------------------------------------------------------
// Starting targets
// ---------------------------------------------------------------------------

/// Where starting targets stands.
#[derive(Debug, PartialEq, Eq)]
pub enum StartTargetsPhase {
    Connecting,
    Asking,
    AskingGenerations,
    Listing { generations: NameMap<u64> },
    Following,
    Stopping,
    Over,
}

/// What a [`StartTargetsPhase`] stands for.
pub enum StartTargetsPhaseView {
    Connecting,
    Asking,
    AskingGenerations,
    Listing { generations: Seq<(Seq<char>, u64)> },
    Following,
    Stopping,
    Over,
}

impl DeepView for StartTargetsPhase {
    type V = StartTargetsPhaseView;

    open spec fn deep_view(&self) -> StartTargetsPhaseView {
        match self {
            StartTargetsPhase::Connecting => StartTargetsPhaseView::Connecting,
            StartTargetsPhase::Asking => StartTargetsPhaseView::Asking,
            StartTargetsPhase::AskingGenerations => StartTargetsPhaseView::AskingGenerations,
            StartTargetsPhase::Listing { generations } => StartTargetsPhaseView::Listing {
                generations: generations.deep_view(),
            },
            StartTargetsPhase::Following => StartTargetsPhaseView::Following,
            StartTargetsPhase::Stopping => StartTargetsPhaseView::Stopping,
            StartTargetsPhase::Over => StartTargetsPhaseView::Over,
        }
    }
}

/// Starting targets, and showing their logs where that is asked for.
#[derive(Debug, PartialEq, Eq)]
pub struct StartTargets {
    pub phase: StartTargetsPhase,
    pub targets: Vec<String>,
    pub foreground: bool,
}

/// What a [`StartTargets`] stands for.
pub struct StartTargetsView {
    pub phase: StartTargetsPhaseView,
    pub targets: Seq<Seq<char>>,
    pub foreground: bool,
}

impl DeepView for StartTargets {
    type V = StartTargetsView;

    open spec fn deep_view(&self) -> StartTargetsView {
        StartTargetsView {
            phase: self.phase.deep_view(),
            targets: self.targets.deep_view(),
            foreground: self.foreground,
        }
    }
}

/// What follows when showing the logs of started targets came to an end: they are stopped.
pub open spec fn stopping_step(targets: Seq<Seq<char>>, say: Seq<Seq<char>>, warn: Option<
    Seq<char>,
>) -> (StartTargetsPhaseView, CliStepView) {
    (
        StartTargetsPhaseView::Stopping,
        CliStepView {
            say,
            warn,
            draw: None,
            action: CliActionView::Send(
                ClientCommandView::StopTargets(StopTargetsRequestView { targets }),
            ),
        },
    )
}

/// What follows from an event while targets are started.
pub open spec fn start_targets_step(start: StartTargetsView, event: CliEventView) -> (
    StartTargetsPhaseView,
    CliStepView,
) {
    let targets = start.targets;
    match (start.phase, event) {
        (StartTargetsPhaseView::Connecting, CliEventView::Connected { running }) => if running {
            (
                StartTargetsPhaseView::Asking,
                doing(
                    CliActionView::Send(
                        ClientCommandView::StartTargets(StartTargetsRequestView { targets }),
                    ),
                ),
            )
        } else {
            (StartTargetsPhaseView::Over, doing(CliActionView::Fail(not_running())))
        },
        (StartTargetsPhaseView::Asking, CliEventView::Answer(response)) => match reply_of(
            AskedView::Start { targets, foreground: start.foreground },
            response,
        ) {
            ReplyView::Follow(text) => (
                StartTargetsPhaseView::AskingGenerations,
                saying(seq![text], CliActionView::Send(info_command(targets))),
            ),
            reply => (StartTargetsPhaseView::Over, replied(reply)),
        },
        (StartTargetsPhaseView::AskingGenerations, CliEventView::Answer(response)) =>
            match generations_in_answer(response) {
            Ok(generations) => (
                StartTargetsPhaseView::Listing { generations },
                doing(CliActionView::ListLogs),
            ),
            Err(message) => (StartTargetsPhaseView::Over, doing(CliActionView::Fail(message))),
        },
        (StartTargetsPhaseView::Listing { generations }, CliEventView::FilesListed(names)) => (
            StartTargetsPhaseView::Following,
            saying(
                seq![logs_line()],
                CliActionView::Follow(
                    sources_of(
                        asked_targets(targets, generations),
                        None,
                        false,
                        generations,
                        names,
                    ),
                ),
            ),
        ),
        (StartTargetsPhaseView::Following, CliEventView::Worked { error }) => stopping_step(
            targets,
            Seq::empty(),
            match error {
                Some(message) => Some("log streaming ended: "@ + message),
                None => None,
            },
        ),
        (StartTargetsPhaseView::Following, CliEventView::Interrupted) => stopping_step(
            targets,
            seq![Seq::empty()],
            None,
        ),
        (StartTargetsPhaseView::Stopping, CliEventView::Answer(response)) => (
            StartTargetsPhaseView::Over,
            replied(reply_of(AskedView::EndOfStart { targets }, response)),
        ),
        (StartTargetsPhaseView::Stopping, CliEventView::AnswerFailed(_)) => (
            StartTargetsPhaseView::Over,
            doing(CliActionView::Fail("failed to send stop request"@)),
        ),
        (_, CliEventView::AnswerFailed(message)) => (
            StartTargetsPhaseView::Over,
            doing(CliActionView::Fail(message)),
        ),
        _ => (StartTargetsPhaseView::Over, doing(CliActionView::Finish)),
    }
}

fn ended_warning(error: Option<String>) -> (r: Option<String>)
    ensures
        r.deep_view() == (match error.deep_view() {
            Some(message) => Some("log streaming ended: "@ + message),
            None => None,
        }),
{
    match error {
        Some(message) => {
            let mut text: String = "log streaming ended: ".to_owned();
            text.append(message.as_str());
            Some(text)
        },
        None => None,
    }
}

fn blank_line() -> (r: Vec<String>)
    ensures
        r.deep_view() == seq![Seq::<char>::empty()],
{
    let mut r: Vec<String> = Vec::new();
    let blank: String = String::new();
    assert(blank@ =~= Seq::empty());
    r.push(blank);
    assert(r.deep_view() =~= seq![Seq::<char>::empty()]);
    r
}

fn nothing_said() -> (r: Vec<String>)
    ensures
        r.deep_view() == Seq::<Seq<char>>::empty(),
{
    let r: Vec<String> = Vec::new();
    assert(r.deep_view() =~= Seq::empty());
    r
}

impl StartTargets {
    /// Starting targets.
    pub fn new(args: &TargetStartArgs) -> (r: Self)
        ensures
            r.deep_view() == (StartTargetsView {
                phase: StartTargetsPhaseView::Connecting,
                targets: args.deep_view().targets,
                foreground: args.deep_view().foreground,
            }),
    {
        StartTargets {
            phase: StartTargetsPhase::Connecting,
            targets: args.targets.duplicate(),
            foreground: args.foreground,
        }
    }

    /// What follows from an event.
    pub fn advance(&mut self, event: CliEvent) -> (step: CliStep)
        ensures
            (final(self).phase.deep_view(), step.deep_view()) == start_targets_step(
                old(self).deep_view(),
                event.deep_view(),
            ),
            final(self).deep_view() == (StartTargetsView {
                phase: final(self).phase.deep_view(),
                ..old(self).deep_view()
            }),
    {
        let mut phase = StartTargetsPhase::Over;
        std::mem::swap(&mut phase, &mut self.phase);
        match (phase, event) {
            (StartTargetsPhase::Connecting, CliEvent::Connected { running }) => {
                if running {
                    self.phase = StartTargetsPhase::Asking;
                    step_doing(
                        CliAction::Send(
                            ClientCommand::StartTargets(
                                StartTargetsRequest { targets: self.targets.duplicate() },
                            ),
                        ),
                    )
                } else {
                    fail_not_running()
                }
            },
            (StartTargetsPhase::Asking, CliEvent::Answer(response)) => {
                let asked = Asked::Start {
                    targets: self.targets.duplicate(),
                    foreground: self.foreground,
                };
                match reply_to(&asked, &response) {
                    Reply::Follow(text) => {
                        self.phase = StartTargetsPhase::AskingGenerations;
                        step_saying(text, CliAction::Send(ask_info(&self.targets)))
                    },
                    reply => step_replied(reply),
                }
            },
            (StartTargetsPhase::AskingGenerations, CliEvent::Answer(response)) =>
                match answered_generations(&response) {
                Ok(generations) => {
                    self.phase = StartTargetsPhase::Listing { generations };
                    step_doing(CliAction::ListLogs)
                },
                Err(message) => step_doing(CliAction::Fail(message)),
            },
            (StartTargetsPhase::Listing { generations }, CliEvent::FilesListed(names)) => {
                let sources = build_sources(&self.targets, None, false, &generations, &names);
                self.phase = StartTargetsPhase::Following;
                step_saying(logs_directory_line(), CliAction::Follow(sources))
            },
            (StartTargetsPhase::Following, CliEvent::Worked { error }) => {
                self.phase = StartTargetsPhase::Stopping;
                let request = StopTargetsRequest { targets: self.targets.duplicate() };
                CliStep {
                    say: nothing_said(),
                    warn: ended_warning(error),
                    draw: None,
                    action: CliAction::Send(ClientCommand::StopTargets(request)),
                }
            },
            (StartTargetsPhase::Following, CliEvent::Interrupted) => {
                self.phase = StartTargetsPhase::Stopping;
                let request = StopTargetsRequest { targets: self.targets.duplicate() };
                CliStep {
                    say: blank_line(),
                    warn: None,
                    draw: None,
                    action: CliAction::Send(ClientCommand::StopTargets(request)),
                }
            },
            (StartTargetsPhase::Stopping, CliEvent::Answer(response)) => {
                let asked = Asked::EndOfStart { targets: self.targets.duplicate() };
                step_replied(reply_to(&asked, &response))
            },
            (StartTargetsPhase::Stopping, CliEvent::AnswerFailed(_)) => step_doing(
                CliAction::Fail("failed to send stop request".to_owned()),
            ),
            (_, CliEvent::AnswerFailed(message)) => step_doing(CliAction::Fail(message)),
            _ => step_doing(CliAction::Finish),
        }
    }
}

// ---------------------------------------------------------------------------
// Running targets
// ---------------------------------------------------------------------------

/// Where running targets stands.
#[derive(Debug, PartialEq, Eq)]
pub enum RunPhase {
    Connecting,
    Asking,
    Following,
    Ending,
    Over,
}

/// What a [`RunPhase`] stands for.
pub enum RunPhaseView {
    Connecting,
    Asking,
    Following,
    Ending,
    Over,
}

impl DeepView for RunPhase {
    type V = RunPhaseView;

    open spec fn deep_view(&self) -> RunPhaseView {
        match self {
            RunPhase::Connecting => RunPhaseView::Connecting,
            RunPhase::Asking => RunPhaseView::Asking,
            RunPhase::Following => RunPhaseView::Following,
            RunPhase::Ending => RunPhaseView::Ending,
            RunPhase::Over => RunPhaseView::Over,
        }
    }
}

/// Running targets, and showing the combined log where that is asked for.
#[derive(Debug, PartialEq, Eq)]
pub struct RunTargets {
    pub phase: RunPhase,
    pub targets: Vec<String>,
    pub watch: Option<bool>,
    pub foreground: bool,
}

/// What a [`RunTargets`] stands for.
pub struct RunTargetsView {
    pub phase: RunPhaseView,
    pub targets: Seq<Seq<char>>,
    pub watch: Option<bool>,
    pub foreground: bool,
}

impl DeepView for RunTargets {
    type V = RunTargetsView;

    open spec fn deep_view(&self) -> RunTargetsView {
        RunTargetsView {
            phase: self.phase.deep_view(),
            targets: self.targets.deep_view(),
            watch: self.watch.deep_view(),
            foreground: self.foreground,
        }
    }
}

/// The run that is asked for.
pub open spec fn run_of(args: RunArgsView) -> RunTargetsView {
    RunTargetsView {
        phase: RunPhaseView::Connecting,
        targets: args.targets,
        watch: setting_of(args.watch, args.no_watch),
        foreground: args.foreground,
    }
}

/// What follows when showing the log of run targets came to an end: they are ended.
pub open spec fn ending_step(targets: Seq<Seq<char>>, say: Seq<Seq<char>>, warn: Option<
    Seq<char>,
>) -> (RunPhaseView, CliStepView) {
    (
        RunPhaseView::Ending,
        CliStepView {
            say,
            warn,
            draw: None,
            action: CliActionView::Send(ClientCommandView::Kill(KillRequestView { targets })),
        },
    )
}

/// What follows from an event while targets are run.
pub open spec fn run_step(run: RunTargetsView, event: CliEventView) -> (RunPhaseView, CliStepView) {
    let targets = run.targets;
    match (run.phase, event) {
        (RunPhaseView::Connecting, CliEventView::Connected { running }) => if running {
            (
                RunPhaseView::Asking,
                doing(
                    CliActionView::Send(
                        ClientCommandView::Run(RunRequestView { targets, watch: run.watch }),
                    ),
                ),
            )
        } else {
            (RunPhaseView::Over, doing(CliActionView::Fail(not_running())))
        },
        (RunPhaseView::Asking, CliEventView::Answer(response)) => match reply_of(
            AskedView::Run { targets, foreground: run.foreground },
            response,
        ) {
            ReplyView::Follow(text) => (
                RunPhaseView::Following,
                saying(seq![text], CliActionView::FollowCombined(targets)),
            ),
            reply => (RunPhaseView::Over, replied(reply)),
        },
        (RunPhaseView::Following, CliEventView::Worked { error }) => ending_step(
            targets,
            Seq::empty(),
            match error {
                Some(message) => Some("log streaming ended: "@ + message),
                None => None,
            },
        ),
        (RunPhaseView::Following, CliEventView::Interrupted) => ending_step(
            targets,
            seq![Seq::empty()],
            None,
        ),
        (RunPhaseView::Ending, CliEventView::Answer(response)) => (
            RunPhaseView::Over,
            replied(reply_of(AskedView::EndOfRun { targets }, response)),
        ),
        (RunPhaseView::Ending, CliEventView::AnswerFailed(_)) => (
            RunPhaseView::Over,
            doing(CliActionView::Fail("failed to send kill request"@)),
        ),
        (_, CliEventView::AnswerFailed(message)) => (
            RunPhaseView::Over,
            doing(CliActionView::Fail(message)),
        ),
        _ => (RunPhaseView::Over, doing(CliActionView::Finish)),
    }
}

impl RunTargets {
    /// Running targets.
    pub fn new(args: &RunArgs) -> (r: Self)
        ensures
            r.deep_view() == run_of(args.deep_view()),
    {
        RunTargets {
            phase: RunPhase::Connecting,
            targets: args.targets.duplicate(),
            watch: watch_setting(args.watch, args.no_watch),
            foreground: args.foreground,
        }
    }

    /// What follows from an event.
    pub fn advance(&mut self, event: CliEvent) -> (step: CliStep)
        ensures
            (final(self).phase.deep_view(), step.deep_view()) == run_step(
                old(self).deep_view(),
                event.deep_view(),
            ),
            final(self).deep_view() == (RunTargetsView {
                phase: final(self).phase.deep_view(),
                ..old(self).deep_view()
            }),
    {
        let mut phase = RunPhase::Over;
        std::mem::swap(&mut phase, &mut self.phase);
        match (phase, event) {
            (RunPhase::Connecting, CliEvent::Connected { running }) => {
                if running {
                    self.phase = RunPhase::Asking;
                    step_doing(
                        CliAction::Send(
                            ClientCommand::Run(
                                RunRequest {
                                    targets: self.targets.duplicate(),
                                    watch: self.watch,
                                },
                            ),
                        ),
                    )
                } else {
                    fail_not_running()
                }
            },
            (RunPhase::Asking, CliEvent::Answer(response)) => {
                let asked = Asked::Run {
                    targets: self.targets.duplicate(),
                    foreground: self.foreground,
                };
                match reply_to(&asked, &response) {
                    Reply::Follow(text) => {
                        self.phase = RunPhase::Following;
                        step_saying(text, CliAction::FollowCombined(self.targets.duplicate()))
                    },
                    reply => step_replied(reply),
                }
            },
            (RunPhase::Following, CliEvent::Worked { error }) => {
                self.phase = RunPhase::Ending;
                let request = KillRequest { targets: self.targets.duplicate() };
                CliStep {
                    say: nothing_said(),
                    warn: ended_warning(error),
                    draw: None,
                    action: CliAction::Send(ClientCommand::Kill(request)),
                }
            },
            (RunPhase::Following, CliEvent::Interrupted) => {
                self.phase = RunPhase::Ending;
                let request = KillRequest { targets: self.targets.duplicate() };
                CliStep {
                    say: blank_line(),
                    warn: None,
                    draw: None,
                    action: CliAction::Send(ClientCommand::Kill(request)),
                }
            },
            (RunPhase::Ending, CliEvent::Answer(response)) => {
                let asked = Asked::EndOfRun { targets: self.targets.duplicate() };
                step_replied(reply_to(&asked, &response))
            },
            (RunPhase::Ending, CliEvent::AnswerFailed(_)) => step_doing(
                CliAction::Fail("failed to send kill request".to_owned()),
            ),
            (_, CliEvent::AnswerFailed(message)) => step_doing(CliAction::Fail(message)),
            _ => step_doing(CliAction::Finish),
        }
    }
}

// ---------------------------------------------------------------------------
// Showing logs
// ---------------------------------------------------------------------------

/// Where showing logs stands.
#[derive(Debug, PartialEq, Eq)]
pub enum LogPhase {
    Connecting,
    AskingGenerations,
    ReadingGenerations,
    Listing { targets: Vec<String>, generations: NameMap<u64> },
    Reading { sources: Vec<LogSource> },
    Following,
    Over,
}

/// What a [`LogPhase`] stands for.
pub enum LogPhaseView {
    Connecting,
    AskingGenerations,
    ReadingGenerations,
    Listing { targets: Seq<Seq<char>>, generations: Seq<(Seq<char>, u64)> },
    Reading { sources: Seq<LogSourceView> },
    Following,
    Over,
}

impl DeepView for LogPhase {
    type V = LogPhaseView;

    open spec fn deep_view(&self) -> LogPhaseView {
        match self {
            LogPhase::Connecting => LogPhaseView::Connecting,
            LogPhase::AskingGenerations => LogPhaseView::AskingGenerations,
            LogPhase::ReadingGenerations => LogPhaseView::ReadingGenerations,
            LogPhase::Listing { targets, generations } => LogPhaseView::Listing {
                targets: targets.deep_view(),
                generations: generations.deep_view(),
            },
            LogPhase::Reading { sources } => LogPhaseView::Reading { sources: sources.deep_view() },
            LogPhase::Following => LogPhaseView::Following,
            LogPhase::Over => LogPhaseView::Over,
        }
    }
}

/// Showing logs.
#[derive(Debug, PartialEq, Eq)]
pub struct ShowLogs {
    pub phase: LogPhase,
    pub args: LogArgs,
    /// Whether the output is a terminal.
    pub terminal: bool,
}

/// What a [`ShowLogs`] stands for.
pub struct ShowLogsView {
    pub phase: LogPhaseView,
    pub args: LogArgsView,
    pub terminal: bool,
}

impl DeepView for ShowLogs {
    type V = ShowLogsView;

    open spec fn deep_view(&self) -> ShowLogsView {
        ShowLogsView {
            phase: self.phase.deep_view(),
            args: self.args.deep_view(),
            terminal: self.terminal,
        }
    }
}

/// The logs of which targets are listed, once their generations are known.
pub open spec fn listing_step(args: LogArgsView, generations: Seq<(Seq<char>, u64)>) -> (
    LogPhaseView,
    CliStepView,
) {
    let targets = if args.targets.len() == 0 {
        names_of(generations)
    } else {
        args.targets
    };
    if targets.len() == 0 {
        (LogPhaseView::Over, saying(seq!["no log sources available"@], CliActionView::Finish))
    } else {
        (LogPhaseView::Listing { targets, generations }, doing(CliActionView::ListLogs))
    }
}

/// What a log holds; nothing where it could not be read.
pub open spec fn text_of(contents: LogContentsView) -> Result<Seq<char>, Seq<char>> {
    match contents {
        LogContentsView::Text(text) => Ok(text),
        LogContentsView::Failed(message) => Err(message),
    }
}

/// The entries of some logs, given what was read of them. The first that could not be read decides
/// the error.
pub open spec fn entry_sets(sources: Seq<LogSourceView>, logs: Seq<LogTextView>) -> Result<
    Seq<Seq<LogEntryView>>,
    Seq<char>,
>
    decreases sources.len(),
{
    if sources.len() == 0 {
        Ok(Seq::empty())
    } else {
        match entry_sets(sources.drop_last(), logs) {
            Err(message) => Err(message),
            Ok(sets) => match text_of(
                contents_of(logs, sources.last().target, sources.last().generation),
            ) {
                Err(message) => Err(message),
                Ok(text) => Ok(sets.push(entries_of(sources.last(), lines_spec(text)))),
            },
        }
    }
}

/// What is shown of some logs.
pub open spec fn output_of(
    sets: Seq<Seq<LogEntryView>>,
    tail: Option<usize>,
    terminal: bool,
) -> Seq<Seq<char>> {
    shown_entries(sets, tail).map_values(
        |entry: LogEntryView| colored(entry_text(entry), terminal),
    )
}

/// What follows from an event while logs are shown.
pub open spec fn log_step(show: ShowLogsView, event: CliEventView) -> (LogPhaseView, CliStepView) {
    let args = show.args;
    match (show.phase, event) {
        (LogPhaseView::Connecting, CliEventView::Connected { running }) => if running {
            (
                LogPhaseView::AskingGenerations,
                doing(CliActionView::Send(info_command(args.targets))),
            )
        } else {
            (LogPhaseView::ReadingGenerations, doing(CliActionView::ReadGenerations))
        },
        (LogPhaseView::AskingGenerations, CliEventView::Answer(response)) =>
            match generations_in_answer(response) {
            Ok(generations) => listing_step(args, generations),
            Err(message) => (LogPhaseView::Over, doing(CliActionView::Fail(message))),
        },
        (LogPhaseView::AskingGenerations, CliEventView::AnswerFailed(message)) => (
            LogPhaseView::Over,
            doing(CliActionView::Fail(message)),
        ),
        (LogPhaseView::ReadingGenerations, CliEventView::GenerationsRead(records)) => listing_step(
            args,
            recorded(records),
        ),
        (LogPhaseView::Listing { targets, generations }, CliEventView::FilesListed(names)) => {
            let sources = sources_of(
                asked_targets(targets, generations),
                args.generation,
                args.all,
                generations,
                names,
            );
            if sources.len() == 0 {
                (
                    LogPhaseView::Over,
                    saying(seq!["no logs found for requested selection"@], CliActionView::Finish),
                )
            } else {
                (
                    LogPhaseView::Reading { sources },
                    saying(seq![logs_line()], CliActionView::ReadLogs(sources)),
                )
            }
        },
        (LogPhaseView::Reading { sources }, CliEventView::LogsRead(logs)) => match entry_sets(
            sources,
            logs,
        ) {
            Err(message) => (LogPhaseView::Over, doing(CliActionView::Fail(message))),
            Ok(sets) => {
                let shown = output_of(sets, args.tail, show.terminal);
                if args.follow {
                    (
                        LogPhaseView::Following,
                        saying(
                            shown.push(logs_line()).push(
                                "-- following logs (press Ctrl+C to stop) --"@,
                            ),
                            CliActionView::Follow(sources),
                        ),
                    )
                } else {
                    (LogPhaseView::Over, saying(shown, CliActionView::Finish))
                }
            },
        },
        (LogPhaseView::Following, CliEventView::Worked { error }) => (
            LogPhaseView::Over,
            match error {
                Some(message) => doing(CliActionView::Fail(message)),
                None => doing(CliActionView::Finish),
            },
        ),
        (LogPhaseView::Following, CliEventView::Interrupted) => (
            LogPhaseView::Over,
            saying(seq![Seq::empty()], CliActionView::Finish),
        ),
        _ => (LogPhaseView::Over, doing(CliActionView::Finish)),
    }
}

fn read_entry_sets(sources: &Vec<LogSource>, logs: &Vec<LogText>) -> (r: Result<
    Vec<Vec<LogEntry>>,
    String,
>)
    ensures
        crate::views::outcome(r) == entry_sets(sources.deep_view(), logs.deep_view()),
{
    let ghost list = sources.deep_view();
    let ghost texts = logs.deep_view();
    let mut sets: Vec<Vec<LogEntry>> = Vec::new();
    let mut i: usize = 0;
    assert(list.take(0) =~= Seq::empty());
    assert(sets.deep_view() =~= Seq::empty());
    while i < sources.len()
        invariant
            i <= sources@.len(),
            list == sources.deep_view(),
            texts == logs.deep_view(),
            entry_sets(list.take(i as int), texts) == Ok::<_, Seq<char>>(sets.deep_view()),
        decreases sources@.len() - i,
    {
        assert(list.take(i + 1).drop_last() =~= list.take(i as int));
        assert(list.take(i + 1).last() == list[i as int]);
        let source: &LogSource = &sources[i];
        assert(source.deep_view() == list[i as int]);
        match find_contents(logs, source.target.as_str(), source.generation) {
            LogContents::Text(text) => {
                let ghost before = sets.deep_view();
                let entries = read_entries(source, text.as_str());
                sets.push(entries);
                assert(sets.deep_view() =~= before.push(entries.deep_view()));
            },
            LogContents::Failed(message) => {
                proof {
                    lemma_entry_sets_error(list, texts, i as int);
                }
                return Err(message);
            },
        }
        i = i + 1;
    }
    assert(list.take(i as int) =~= list);
    Ok(sets)
}

proof fn lemma_entry_sets_error(list: Seq<LogSourceView>, texts: Seq<LogTextView>, i: int)
    requires
        0 <= i < list.len(),
        entry_sets(list.take(i + 1), texts) is Err,
    ensures
        entry_sets(list, texts) == entry_sets(list.take(i + 1), texts),
    decreases list.len(),
{
    if i + 1 < list.len() {
        assert(list.drop_last().take(i + 1) =~= list.take(i + 1));
        lemma_entry_sets_error(list.drop_last(), texts, i);
    } else {
        assert(list.take(i + 1) =~= list);
    }
}

impl ShowLogs {
    /// Showing logs.
    pub fn new(args: LogArgs, terminal: bool) -> (r: Self)
        ensures
            r.deep_view() == (ShowLogsView {
                phase: LogPhaseView::Connecting,
                args: args.deep_view(),
                terminal,
            }),
    {
        ShowLogs { phase: LogPhase::Connecting, args, terminal }
    }

    fn list_logs(&mut self, generations: NameMap<u64>) -> (step: CliStep)
        requires
            old(self).phase.deep_view() == LogPhaseView::Over,
        ensures
            (final(self).phase.deep_view(), step.deep_view()) == listing_step(
                old(self).deep_view().args,
                generations.deep_view(),
            ),
            final(self).args == old(self).args,
            final(self).terminal == old(self).terminal,
    {
        let targets: Vec<String> = targets_to_log(&self.args.targets, &generations);
        if targets.len() == 0 {
            step_saying("no log sources available".to_owned(), CliAction::Finish)
        } else {
            self.phase = LogPhase::Listing { targets, generations };
            step_doing(CliAction::ListLogs)
        }
    }

    /// What follows from an event.
    pub fn advance(&mut self, event: CliEvent) -> (step: CliStep)
        ensures
            (final(self).phase.deep_view(), step.deep_view()) == log_step(
                old(self).deep_view(),
                event.deep_view(),
            ),
            final(self).deep_view() == (ShowLogsView {
                phase: final(self).phase.deep_view(),
                ..old(self).deep_view()
            }),
    {
        let mut phase = LogPhase::Over;
        std::mem::swap(&mut phase, &mut self.phase);
        match (phase, event) {
            (LogPhase::Connecting, CliEvent::Connected { running }) => {
                if running {
                    self.phase = LogPhase::AskingGenerations;
                    step_doing(CliAction::Send(ask_info(&self.args.targets)))
                } else {
                    self.phase = LogPhase::ReadingGenerations;
                    step_doing(CliAction::ReadGenerations)
                }
            },
            (LogPhase::AskingGenerations, CliEvent::Answer(response)) => match answered_generations(
                &response,
            ) {
                Ok(generations) => self.list_logs(generations),
                Err(message) => step_doing(CliAction::Fail(message)),
            },
            (LogPhase::AskingGenerations, CliEvent::AnswerFailed(message)) => step_doing(
                CliAction::Fail(message),
            ),
            (LogPhase::ReadingGenerations, CliEvent::GenerationsRead(records)) => self.list_logs(
                records_map(&records),
            ),
            (LogPhase::Listing { targets, generations }, CliEvent::FilesListed(names)) => {
                let sources = build_sources(
                    &targets,
                    self.args.generation,
                    self.args.all,
                    &generations,
                    &names,
                );
                if sources.len() == 0 {
                    return step_saying(
                        "no logs found for requested selection".to_owned(),
                        CliAction::Finish,
                    );
                }
                let action = CliAction::ReadLogs(sources.duplicate());
                self.phase = LogPhase::Reading { sources };
                step_saying(logs_directory_line(), action)
            },
            (LogPhase::Reading { sources }, CliEvent::LogsRead(logs)) => match read_entry_sets(
                &sources,
                &logs,
            ) {
                Err(message) => step_doing(CliAction::Fail(message)),
                Ok(sets) => {
                    let mut say: Vec<String> = log_output(&sets, self.args.tail, self.terminal);
                    if !self.args.follow {
                        return CliStep { say, warn: None, draw: None, action: CliAction::Finish };
                    }
                    let ghost shown = say.deep_view();
                    say.push(logs_directory_line());
                    say.push("-- following logs (press Ctrl+C to stop) --".to_owned());
                    assert(say.deep_view() =~= shown.push(logs_line()).push(
                        "-- following logs (press Ctrl+C to stop) --"@,
                    ));
                    self.phase = LogPhase::Following;
                    CliStep { say, warn: None, draw: None, action: CliAction::Follow(sources) }
                },
            },
            (LogPhase::Following, CliEvent::Worked { error }) => match error {
                Some(message) => step_doing(CliAction::Fail(message)),
                None => step_doing(CliAction::Finish),
            },
            (LogPhase::Following, CliEvent::Interrupted) => CliStep {
                say: blank_line(),
                warn: None,
                draw: None,
                action: CliAction::Finish,
            },
            _ => step_doing(CliAction::Finish),
        }
    }
}

/// The generations that were written down, by target; a later record of a target counts.
pub fn records_map(records: &Vec<(String, u64)>) -> (r: NameMap<u64>)
    ensures
        r.deep_view() == recorded(records.deep_view()),
{
    let ghost list = records.deep_view();
    let mut r: NameMap<u64> = NameMap::new();
    let mut i: usize = 0;
    assert(list.take(0) =~= Seq::empty());
    while i < records.len()
        invariant
            i <= records@.len(),
            list == records.deep_view(),
            r.deep_view() == recorded(list.take(i as int)),
        decreases records@.len() - i,
    {
        assert(list.take(i + 1).drop_last() =~= list.take(i as int));
        let _ = r.insert(records[i].0.clone(), records[i].1);
        i = i + 1;
    }
    assert(list.take(i as int) =~= list);
    r
}

// ---------------------------------------------------------------------------
// Showing the state of targets
// ---------------------------------------------------------------------------

/// Where showing the state of targets stands.
#[derive(Debug, PartialEq, Eq)]
pub enum InfoPhase {
    Connecting,
    Asking,
    Reading { data: InfoResponse },
    Sleeping,
    Over,
}

/// What a [`InfoPhase`] stands for.
pub enum InfoPhaseView {
    Connecting,
    Asking,
    Reading { data: InfoResponseView },
    Sleeping,
    Over,
}

impl DeepView for InfoPhase {
    type V = InfoPhaseView;

    open spec fn deep_view(&self) -> InfoPhaseView {
        match self {
            InfoPhase::Connecting => InfoPhaseView::Connecting,
            InfoPhase::Asking => InfoPhaseView::Asking,
            InfoPhase::Reading { data } => InfoPhaseView::Reading { data: data.deep_view() },
            InfoPhase::Sleeping => InfoPhaseView::Sleeping,
            InfoPhase::Over => InfoPhaseView::Over,
        }
    }
}

/// Showing the state of targets, once or again and again.
#[derive(Debug)]
pub struct ShowInfo {
    pub phase: InfoPhase,
    pub args: InfoArgs,
    /// The columns of the terminal, where there is one.
    pub width: Option<usize>,
    pub colorize: bool,
    /// What was shown last.
    pub last: String,
}

/// What a [`ShowInfo`] stands for.
pub struct ShowInfoView {
    pub phase: InfoPhaseView,
    pub args: InfoArgsView,
    pub width: Option<usize>,
    pub colorize: bool,
    pub last: Seq<char>,
}

impl DeepView for ShowInfo {
    type V = ShowInfoView;

    open spec fn deep_view(&self) -> ShowInfoView {
        ShowInfoView {
            phase: self.phase.deep_view(),
            args: self.args.deep_view(),
            width: self.width,
            colorize: self.colorize,
            last: self.last@,
        }
    }
}

/// How much is shown, and where.
pub open spec fn display_of(show: ShowInfoView) -> Display {
    Display {
        log_lines: show.args.log_length,
        history_limit: show.args.history_length,
        width: show.width,
        colorize: show.colorize,
    }
}

/// The logs that are read to show an answer.
pub open spec fn sources_to_read(data: InfoResponseView, display: Display) -> Seq<LogSourceView> {
    if display.log_lines == 0 {
        Seq::empty()
    } else {
        running_sources(data.running, display.history_limit as nat) + stopped_sources(
            data.stopped,
            display.history_limit as nat,
        )
    }
}

/// The view is drawn again where it changed, and again after a while.
pub open spec fn drawing(show: ShowInfoView, text: Seq<char>) -> (ShowInfoView, CliStepView) {
    (
        ShowInfoView { phase: InfoPhaseView::Sleeping, last: text, ..show },
        CliStepView {
            say: Seq::empty(),
            warn: None,
            draw: if show.last == text {
                None
            } else {
                Some("\u{001b}[2J\u{001b}[H"@ + text)
            },
            action: CliActionView::Sleep,
        },
    )
}

/// The command is over, with a warning.
pub open spec fn over_warned(show: ShowInfoView, warning: Seq<char>) -> (
    ShowInfoView,
    CliStepView,
) {
    (
        ShowInfoView { phase: InfoPhaseView::Over, ..show },
        CliStepView {
            say: Seq::empty(),
            warn: Some(warning),
            draw: None,
            action: CliActionView::Finish,
        },
    )
}

/// The command is over.
pub open spec fn over(show: ShowInfoView, step: CliStepView) -> (ShowInfoView, CliStepView) {
    (ShowInfoView { phase: InfoPhaseView::Over, ..show }, step)
}

/// What follows from the answer about targets.
pub open spec fn info_answer_step(show: ShowInfoView, response: ServerResponseView) -> (
    ShowInfoView,
    CliStepView,
) {
    match response {
        ServerResponseView::Info(data) => (
            ShowInfoView { phase: InfoPhaseView::Reading { data }, ..show },
            doing(CliActionView::ReadLogs(sources_to_read(data, display_of(show)))),
        ),
        ServerResponseView::Ack => if show.args.foreground {
            drawing(show, "info command acknowledged (no details returned)\n"@)
        } else {
            over(
                show,
                saying(
                    seq!["info command acknowledged (no details returned)"@],
                    CliActionView::Finish,
                ),
            )
        },
        ServerResponseView::Error(message) => if show.args.foreground {
            over_warned(show, "daemon error: "@ + message)
        } else {
            over(show, doing(CliActionView::Fail(message)))
        },
    }
}

/// What follows from an event while the state of targets is shown.
pub open spec fn info_step(show: ShowInfoView, event: CliEventView) -> (ShowInfoView, CliStepView) {
    match (show.phase, event) {
        (InfoPhaseView::Connecting, CliEventView::Connected { running }) => if !running {
            over(show, doing(CliActionView::Fail(not_running())))
        } else if show.args.foreground {
            (
                ShowInfoView { phase: InfoPhaseView::Asking, ..show },
                saying(
                    seq!["press Ctrl+C to exit foreground info view"@],
                    CliActionView::Send(info_command(show.args.targets)),
                ),
            )
        } else {
            (
                ShowInfoView { phase: InfoPhaseView::Asking, ..show },
                doing(CliActionView::Send(info_command(show.args.targets))),
            )
        },
        (InfoPhaseView::Asking, CliEventView::Answer(response)) => info_answer_step(show, response),
        (InfoPhaseView::Asking, CliEventView::AnswerFailed(message)) => if show.args.foreground {
            over_warned(show, "failed to fetch info: "@ + message)
        } else {
            over(show, doing(CliActionView::Fail(message)))
        },
        (InfoPhaseView::Reading { data }, CliEventView::LogsRead(logs)) => {
            let lines = info_lines(logs, data, display_of(show));
            if show.args.foreground {
                drawing(show, text_of_lines(lines))
            } else {
                over(show, saying(lines, CliActionView::Finish))
            }
        },
        (InfoPhaseView::Sleeping, CliEventView::TimePassed) => (
            ShowInfoView { phase: InfoPhaseView::Asking, ..show },
            doing(CliActionView::Send(info_command(show.args.targets))),
        ),
        (InfoPhaseView::Sleeping, CliEventView::Interrupted) => over(
            show,
            saying(seq![Seq::empty()], CliActionView::Finish),
        ),
        _ => over(show, doing(CliActionView::Finish)),
    }
}

fn warned(start: &str, message: &str) -> (r: CliStep)
    ensures
        r.deep_view() == (CliStepView {
            say: Seq::empty(),
            warn: Some(start@ + message@),
            draw: None,
            action: CliActionView::Finish,
        }),
{
    let mut text: String = start.to_owned();
    text.append(message);
    CliStep { say: nothing_said(), warn: Some(text), draw: None, action: CliAction::Finish }
}

impl ShowInfo {
    /// Showing the state of targets.
    pub fn new(args: InfoArgs, width: Option<usize>, colorize: bool) -> (r: Self)
        ensures
            r.deep_view() == (ShowInfoView {
                phase: InfoPhaseView::Connecting,
                args: args.deep_view(),
                width,
                colorize,
                last: Seq::empty(),
            }),
    {
        let last: String = String::new();
        assert(last@ =~= Seq::empty());
        ShowInfo { phase: InfoPhase::Connecting, args, width, colorize, last }
    }

    fn display(&self) -> (r: Display)
        ensures
            r == display_of(self.deep_view()),
    {
        Display {
            log_lines: self.args.log_length,
            history_limit: self.args.history_length,
            width: self.width,
            colorize: self.colorize,
        }
    }

    fn draw(&mut self, text: String) -> (step: CliStep)
        ensures
            (final(self).deep_view(), step.deep_view()) == drawing(old(self).deep_view(), text@),
    {
        let drawn: Option<String> = redraw(self.last.as_str(), text.as_str());
        self.last = text;
        self.phase = InfoPhase::Sleeping;
        CliStep { say: nothing_said(), warn: None, draw: drawn, action: CliAction::Sleep }
    }

    fn take_answer(&mut self, response: ServerResponse) -> (step: CliStep)
        requires
            old(self).phase.deep_view() == InfoPhaseView::Over,
        ensures
            (final(self).deep_view(), step.deep_view()) == info_answer_step(
                old(self).deep_view(),
                response.deep_view(),
            ),
    {
        match response {
            ServerResponse::Info(data) => {
                let sources = logs_to_read(&data, self.display());
                self.phase = InfoPhase::Reading { data };
                step_doing(CliAction::ReadLogs(sources))
            },
            ServerResponse::Ack => {
                if self.args.foreground {
                    self.draw("info command acknowledged (no details returned)\n".to_owned())
                } else {
                    step_saying(
                        "info command acknowledged (no details returned)".to_owned(),
                        CliAction::Finish,
                    )
                }
            },
            ServerResponse::Error(message) => {
                if self.args.foreground {
                    warned("daemon error: ", message.as_str())
                } else {
                    step_doing(CliAction::Fail(message))
                }
            },
        }
    }

    /// What follows from an event.
    pub fn advance(&mut self, event: CliEvent) -> (step: CliStep)
        ensures
            (final(self).deep_view(), step.deep_view()) == info_step(
                old(self).deep_view(),
                event.deep_view(),
            ),
    {
        let mut phase = InfoPhase::Over;
        std::mem::swap(&mut phase, &mut self.phase);
        match (phase, event) {
            (InfoPhase::Connecting, CliEvent::Connected { running }) => {
                if !running {
                    return fail_not_running();
                }
                self.phase = InfoPhase::Asking;
                let command = ask_info(&self.args.targets);
                if self.args.foreground {
                    step_saying(
                        "press Ctrl+C to exit foreground info view".to_owned(),
                        CliAction::Send(command),
                    )
                } else {
                    step_doing(CliAction::Send(command))
                }
            },
            (InfoPhase::Asking, CliEvent::Answer(response)) => self.take_answer(response),
            (InfoPhase::Asking, CliEvent::AnswerFailed(message)) => {
                if self.args.foreground {
                    warned("failed to fetch info: ", message.as_str())
                } else {
                    step_doing(CliAction::Fail(message))
                }
            },
            (InfoPhase::Reading { data }, CliEvent::LogsRead(logs)) => {
                let display = self.display();
                if self.args.foreground {
                    let text = format_info_response(&logs, &data, display);
                    self.draw(text)
                } else {
                    let say = write_info_response(&logs, &data, display);
                    CliStep { say, warn: None, draw: None, action: CliAction::Finish }
                }
            },
            (InfoPhase::Sleeping, CliEvent::TimePassed) => {
                self.phase = InfoPhase::Asking;
                step_doing(CliAction::Send(ask_info(&self.args.targets)))
            },
            (InfoPhase::Sleeping, CliEvent::Interrupted) => CliStep {
                say: blank_line(),
                warn: None,
                draw: None,
                action: CliAction::Finish,
            },
            _ => step_doing(CliAction::Finish),
        }
    }
}

// ---------------------------------------------------------------------------
// Laws
// ---------------------------------------------------------------------------

/// Targets that were started in the foreground are stopped whenever showing their logs comes to
/// an end, and only then.
pub proof fn foreground_targets_are_stopped(start: StartTargetsView, event: CliEventView)
    ensures
        start_targets_step(start, event).0 is Stopping <==> start.phase is Following && (event
            is Worked || event is Interrupted),
        start_targets_step(start, event).0 is Stopping ==> start_targets_step(
            start,
            event,
        ).1.action == CliActionView::Send(
            ClientCommandView::StopTargets(StopTargetsRequestView { targets: start.targets }),
        ),
{
}

/// Targets that were run in the foreground are ended whenever showing their log comes to an end,
/// and only then.
pub proof fn foreground_runs_are_ended(run: RunTargetsView, event: CliEventView)
    ensures
        run_step(run, event).0 is Ending <==> run.phase is Following && (event is Worked || event
            is Interrupted),
        run_step(run, event).0 is Ending ==> run_step(run, event).1.action == CliActionView::Send(
            ClientCommandView::Kill(KillRequestView { targets: run.targets }),
        ),
{
}

/// A view that did not change is not drawn again.
pub proof fn unchanged_view_is_not_drawn(show: ShowInfoView, text: Seq<char>)
    ensures
        drawing(drawing(show, text).0, text).1.draw is None,
{
}

} // verus!
