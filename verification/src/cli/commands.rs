//! What the commands of the command line do with what they are told.

use vstd::prelude::*;

use crate::cli::args::TargetRestartArgs;
use crate::cli::log_io::{
    colored, colorize_line, entry_text, format_entry, last_of, merge_entries, merged, take_last,
    LogEntry, LogEntryView,
};
use crate::ipc::protocol::{
    RefreshMode, ServerResponse, ServerResponseView, TargetGenerationSummary,
    TargetGenerationSummaryView,
};
use crate::names::{put, NameMap};
use crate::parts::{join, join_spec};
use crate::paths::{absolute, is_absolute, join as join_path, join_spec as join_path_spec};
use crate::text::same;
use crate::views::{outcome, Duplicate};

verus! {

// ---------------------------------------------------------------------------
// The command line
// ---------------------------------------------------------------------------

/// Whether an argument asks for help or the version.
pub open spec fn asks_for_help(arg: Seq<char>) -> bool {
    arg == "-h"@ || arg == "--help"@ || arg == "-V"@ || arg == "--version"@
}

/// Whether an argument is a command.
pub open spec fn is_command(arg: Seq<char>) -> bool {
    ||| arg == "start"@
    ||| arg == "run"@
    ||| arg == "kill"@
    ||| arg == "info"@
    ||| arg == "log"@
    ||| arg == "restart"@
    ||| arg == "stop"@
    ||| arg == "refresh"@
    ||| arg == "target"@
    ||| arg == "init"@
    ||| arg == "completions"@
    ||| arg == "daemon"@
    ||| arg == "__daemon"@
}

/// Whether an argument behind the name of the program names a command or asks for help. Arguments
/// that are no text do neither.
pub open spec fn names_command(args: Seq<Option<Seq<char>>>) -> bool {
    exists|i: int|
        1 <= i < args.len() && ((#[trigger] args[i]) matches Some(arg) && (asks_for_help(arg)
            || is_command(arg)))
}

fn is_help_or_command(arg: &str) -> (r: bool)
    ensures
        r == (asks_for_help(arg@) || is_command(arg@)),
{
    same(arg, "-h") || same(arg, "--help") || same(arg, "-V") || same(arg, "--version") || same(
        arg,
        "start",
    ) || same(arg, "run") || same(arg, "kill") || same(arg, "info") || same(arg, "log") || same(
        arg,
        "restart",
    ) || same(arg, "stop") || same(arg, "refresh") || same(arg, "target") || same(arg, "init")
        || same(arg, "completions") || same(arg, "daemon") || same(arg, "__daemon")
}

/// Whether the command line, the name of the program first, asks for nothing, so that the state
/// of targets is shown.
pub fn should_default_to_info(args: &Vec<Option<String>>) -> (r: bool)
    ensures
        r == !names_command(args.deep_view()),
{
    let ghost list = args.deep_view();
    let mut i: usize = 1;
    while i < args.len()
        invariant
            1 <= i,
            args.len() > 0 ==> i <= args.len(),
            list == args.deep_view(),
            forall|k: int|
                1 <= k < i && k < list.len() ==> !((#[trigger] list[k]) matches Some(arg) && (
                asks_for_help(arg) || is_command(arg))),
        decreases args.len() - i,
    {
        assert(args@[i as int].deep_view() == list[i as int]);
        if let Some(arg) = &args[i] {
            if is_help_or_command(arg.as_str()) {
                return false;
            }
        }
        i = i + 1;
    }
    true
}

// ---------------------------------------------------------------------------
// Starting the supervisor
// ---------------------------------------------------------------------------

/// The watch setting that two opposite flags ask for.
pub open spec fn setting_of(watch: bool, no_watch: bool) -> Option<bool> {
    if watch {
        Some(true)
    } else if no_watch {
        Some(false)
    } else {
        None
    }
}

/// The watch setting that two opposite flags ask for.
pub fn watch_setting(watch: bool, no_watch: bool) -> (r: Option<bool>)
    ensures
        r == setting_of(watch, no_watch),
{
    if watch {
        Some(true)
    } else if no_watch {
        Some(false)
    } else {
        None
    }
}

/// What a request to start the supervisor comes to.
#[derive(Debug, Clone, Copy, PartialEq, Eq, Structural)]
pub enum StartDecision {
    /// Fail: it runs, and would not take up the variables.
    RefuseEnv,
    /// Say that it runs, and do nothing.
    RefuseForeground,
    RunInForeground,
    /// Tell the supervisor that runs of the setting.
    Configure { value: bool },
    /// Say that it runs.
    AlreadyRunning,
    Spawn,
}

/// What a request to start the supervisor comes to.
pub open spec fn start_decision(
    running: bool,
    with_env: bool,
    foreground: bool,
    setting: Option<bool>,
) -> StartDecision {
    if running && with_env {
        StartDecision::RefuseEnv
    } else if foreground {
        if running {
            StartDecision::RefuseForeground
        } else {
            StartDecision::RunInForeground
        }
    } else if running {
        match setting {
            Some(value) => StartDecision::Configure { value },
            None => StartDecision::AlreadyRunning,
        }
    } else {
        StartDecision::Spawn
    }
}

/// What a request to start the supervisor comes to, given whether one runs.
pub fn decide(running: bool, with_env: bool, foreground: bool, setting: Option<bool>) -> (r:
    StartDecision)
    ensures
        r == start_decision(running, with_env, foreground, setting),
{
    if running && with_env {
        StartDecision::RefuseEnv
    } else if foreground {
        if running {
            StartDecision::RefuseForeground
        } else {
            StartDecision::RunInForeground
        }
    } else if running {
        match setting {
            Some(value) => StartDecision::Configure { value },
            None => StartDecision::AlreadyRunning,
        }
    } else {
        StartDecision::Spawn
    }
}

/// What is said of a decision.
pub open spec fn decision_text(decision: StartDecision) -> Seq<char> {
    match decision {
        StartDecision::RefuseEnv =>
            "rufa daemon already running; stop it before restarting with --env"@,
        StartDecision::RefuseForeground =>
            "rufa daemon is already running; stop it before using --foreground"@,
        StartDecision::RunInForeground =>
            "starting rufa daemon in foreground (press Ctrl+C to stop)"@,
        StartDecision::Configure { value } => if value {
            "updated default watch setting to enabled on running daemon"@
        } else {
            "updated default watch setting to disabled on running daemon"@
        },
        StartDecision::AlreadyRunning =>
            "rufa daemon already running; use `rufa stop` to restart it if needed"@,
        StartDecision::Spawn => "rufa daemon started; launch targets with `rufa target start`"@,
    }
}

impl StartDecision {
    /// What is said of the decision.
    pub fn message(self) -> (r: &'static str)
        ensures
            r@ == decision_text(self),
    {
        match self {
            StartDecision::RefuseEnv =>
                "rufa daemon already running; stop it before restarting with --env",
            StartDecision::RefuseForeground =>
                "rufa daemon is already running; stop it before using --foreground",
            StartDecision::RunInForeground =>
                "starting rufa daemon in foreground (press Ctrl+C to stop)",
            StartDecision::Configure { value } => if value {
                "updated default watch setting to enabled on running daemon"
            } else {
                "updated default watch setting to disabled on running daemon"
            },
            StartDecision::AlreadyRunning =>
                "rufa daemon already running; use `rufa stop` to restart it if needed",
            StartDecision::Spawn => "rufa daemon started; launch targets with `rufa target start`",
        }
    }
}

/// The file of variables as the supervisor finds it, from wherever it runs.
pub fn resolve_env_file(path: &str, cwd: &str) -> (r: String)
    ensures
        r@ == (if absolute(path@) {
            path@
        } else {
            join_path_spec(cwd@, path@)
        }),
{
    if is_absolute(path) {
        path.to_owned()
    } else {
        join_path(cwd, path)
    }
}

// ---------------------------------------------------------------------------
// Answers of the supervisor
// ---------------------------------------------------------------------------

/// What the supervisor was asked.
#[derive(Debug, PartialEq, Eq)]
pub enum Asked {
    Start { targets: Vec<String>, foreground: bool },
    Run { targets: Vec<String>, foreground: bool },
    /// To stop targets whose logs were shown.
    EndOfStart { targets: Vec<String> },
    /// To end targets whose logs were shown.
    EndOfRun { targets: Vec<String> },
    StopTargets { targets: Vec<String> },
    Kill { targets: Vec<String> },
    Configure { value: bool },
    SetRefresh { mode: RefreshMode },
    RestartStale,
    Restart { targets: Vec<String>, all: bool },
    StopDaemon,
}

/// What a [`Asked`] stands for.
pub enum AskedView {
    Start { targets: Seq<Seq<char>>, foreground: bool },
    Run { targets: Seq<Seq<char>>, foreground: bool },
    EndOfStart { targets: Seq<Seq<char>> },
    EndOfRun { targets: Seq<Seq<char>> },
    StopTargets { targets: Seq<Seq<char>> },
    Kill { targets: Seq<Seq<char>> },
    Configure { value: bool },
    SetRefresh { mode: RefreshMode },
    RestartStale,
    Restart { targets: Seq<Seq<char>>, all: bool },
    StopDaemon,
}

impl DeepView for Asked {
    type V = AskedView;

    open spec fn deep_view(&self) -> AskedView {
        match self {
            Asked::Start { targets, foreground } => AskedView::Start {
                targets: targets.deep_view(),
                foreground: *foreground,
            },
            Asked::Run { targets, foreground } => AskedView::Run {
                targets: targets.deep_view(),
                foreground: *foreground,
            },
            Asked::EndOfStart { targets } => AskedView::EndOfStart { targets: targets.deep_view() },
            Asked::EndOfRun { targets } => AskedView::EndOfRun { targets: targets.deep_view() },
            Asked::StopTargets { targets } => AskedView::StopTargets {
                targets: targets.deep_view(),
            },
            Asked::Kill { targets } => AskedView::Kill { targets: targets.deep_view() },
            Asked::Configure { value } => AskedView::Configure { value: *value },
            Asked::SetRefresh { mode } => AskedView::SetRefresh { mode: *mode },
            Asked::RestartStale => AskedView::RestartStale,
            Asked::Restart { targets, all } => AskedView::Restart {
                targets: targets.deep_view(),
                all: *all,
            },
            Asked::StopDaemon => AskedView::StopDaemon,
        }
    }
}

/// What a command does with the answer.
#[derive(Debug, PartialEq, Eq)]
pub enum Reply {
    Print(String),
    Nothing,
    /// Print, and show logs until interrupted.
    Follow(String),
    /// Wait until the supervisor is gone, and print.
    WaitForShutdown(String),
    Fail(String),
}

/// What a [`Reply`] stands for.
pub enum ReplyView {
    Print(Seq<char>),
    Nothing,
    Follow(Seq<char>),
    WaitForShutdown(Seq<char>),
    Fail(Seq<char>),
}

impl DeepView for Reply {
    type V = ReplyView;

    open spec fn deep_view(&self) -> ReplyView {
        match self {
            Reply::Print(a) => ReplyView::Print(a.deep_view()),
            Reply::Nothing => ReplyView::Nothing,
            Reply::Follow(a) => ReplyView::Follow(a.deep_view()),
            Reply::WaitForShutdown(a) => ReplyView::WaitForShutdown(a.deep_view()),
            Reply::Fail(a) => ReplyView::Fail(a.deep_view()),
        }
    }
}

impl Duplicate for Reply {
    fn duplicate(&self) -> (copy: Self) {
        match self {
            Reply::Print(a) => Reply::Print(a.duplicate()),
            Reply::Nothing => Reply::Nothing,
            Reply::Follow(a) => Reply::Follow(a.duplicate()),
            Reply::WaitForShutdown(a) => Reply::WaitForShutdown(a.duplicate()),
            Reply::Fail(a) => Reply::Fail(a.duplicate()),
        }
    }
}

/// Names behind a text, with commas between them.
pub open spec fn naming(text: Seq<char>, targets: Seq<Seq<char>>) -> Seq<char> {
    text + join_spec(targets, ", "@)
}

fn name_targets(text: &str, targets: &Vec<String>) -> (r: String)
    ensures
        r@ == naming(text@, targets.deep_view()),
{
    let mut r: String = text.to_owned();
    r.append(join(targets, ", ").as_str());
    r
}

/// What a command does when its request was accepted.
pub open spec fn accepted(asked: AskedView) -> ReplyView {
    match asked {
        AskedView::Start { targets, foreground } => if foreground {
            ReplyView::Follow(
                naming("running targets in foreground: "@, targets) + " (Ctrl+C to stop)"@,
            )
        } else {
            ReplyView::Print(naming("requested start for targets: "@, targets))
        },
        AskedView::Run { targets, foreground } => if foreground {
            ReplyView::Follow(
                naming("running targets in foreground: "@, targets) + " (Ctrl+C to stop)"@,
            )
        } else {
            ReplyView::Print(naming("requested start for targets: "@, targets))
        },
        AskedView::EndOfStart { targets } => ReplyView::Print(
            naming("sent stop signal for targets: "@, targets),
        ),
        AskedView::EndOfRun { targets } => ReplyView::Print(
            naming("sent kill signal for targets: "@, targets),
        ),
        AskedView::StopTargets { targets } => ReplyView::Print(
            naming("requested stop for targets: "@, targets),
        ),
        AskedView::Kill { targets } => ReplyView::Print(
            naming("requested termination for targets: "@, targets),
        ),
        AskedView::Configure { value } => ReplyView::Print(
            decision_text(StartDecision::Configure { value }),
        ),
        AskedView::SetRefresh { mode } => match mode {
            RefreshMode::Auto => ReplyView::Print("refresh on change set to auto"@),
            RefreshMode::Off => ReplyView::Print("refresh on change set to off"@),
        },
        AskedView::RestartStale => ReplyView::Print(
            "requested restart for stale refresh targets"@,
        ),
        AskedView::Restart { targets, all } => if all {
            ReplyView::Print("requested restart for all services"@)
        } else if targets.len() == 0 {
            ReplyView::Print("restart request accepted (no explicit targets supplied)"@)
        } else {
            ReplyView::Print(naming("restart request accepted for targets: "@, targets))
        },
        AskedView::StopDaemon => ReplyView::WaitForShutdown("rufa daemon stopped"@),
    }
}

/// What a command does when it is told more than it asked.
pub open spec fn told_more(asked: AskedView) -> ReplyView {
    match asked {
        AskedView::Start { .. } => ReplyView::Print("start request returned additional info:"@),
        AskedView::Run { .. } => ReplyView::Print("run request returned additional info:"@),
        AskedView::EndOfStart { .. } => accepted(asked),
        AskedView::EndOfRun { .. } => accepted(asked),
        AskedView::Restart { .. } => ReplyView::Print(
            "restart request returned additional data (not yet handled)"@,
        ),
        AskedView::StopDaemon => accepted(asked),
        _ => ReplyView::Nothing,
    }
}

/// What a command does with the answer of the supervisor.
pub open spec fn reply_of(asked: AskedView, response: ServerResponseView) -> ReplyView {
    match response {
        ServerResponseView::Ack => accepted(asked),
        ServerResponseView::Info(_) => told_more(asked),
        ServerResponseView::Error(message) => ReplyView::Fail(message),
    }
}

fn reply_accepted(asked: &Asked) -> (r: Reply)
    ensures
        r.deep_view() == accepted(asked.deep_view()),
{
    match asked {
        Asked::Start { targets, foreground } => {
            if *foreground {
                let mut text: String = name_targets("running targets in foreground: ", targets);
                text.append(" (Ctrl+C to stop)");
                Reply::Follow(text)
            } else {
                Reply::Print(name_targets("requested start for targets: ", targets))
            }
        },
        Asked::Run { targets, foreground } => {
            if *foreground {
                let mut text: String = name_targets("running targets in foreground: ", targets);
                text.append(" (Ctrl+C to stop)");
                Reply::Follow(text)
            } else {
                Reply::Print(name_targets("requested start for targets: ", targets))
            }
        },
        Asked::EndOfStart { targets } => Reply::Print(
            name_targets("sent stop signal for targets: ", targets),
        ),
        Asked::EndOfRun { targets } => Reply::Print(
            name_targets("sent kill signal for targets: ", targets),
        ),
        Asked::StopTargets { targets } => Reply::Print(
            name_targets("requested stop for targets: ", targets),
        ),
        Asked::Kill { targets } => Reply::Print(
            name_targets("requested termination for targets: ", targets),
        ),
        Asked::Configure { value } => {
            let decision = StartDecision::Configure { value: *value };
            Reply::Print(decision.message().to_owned())
        },
        Asked::SetRefresh { mode } => match mode {
            RefreshMode::Auto => Reply::Print("refresh on change set to auto".to_owned()),
            RefreshMode::Off => Reply::Print("refresh on change set to off".to_owned()),
        },
        Asked::RestartStale => Reply::Print(
            "requested restart for stale refresh targets".to_owned(),
        ),
        Asked::Restart { targets, all } => {
            if *all {
                Reply::Print("requested restart for all services".to_owned())
            } else if targets.len() == 0 {
                Reply::Print("restart request accepted (no explicit targets supplied)".to_owned())
            } else {
                Reply::Print(name_targets("restart request accepted for targets: ", targets))
            }
        },
        Asked::StopDaemon => Reply::WaitForShutdown("rufa daemon stopped".to_owned()),
    }
}

/// What a command does with the answer of the supervisor.
pub fn reply_to(asked: &Asked, response: &ServerResponse) -> (r: Reply)
    ensures
        r.deep_view() == reply_of(asked.deep_view(), response.deep_view()),
{
    match response {
        ServerResponse::Ack => reply_accepted(asked),
        ServerResponse::Info(_) => match asked {
            Asked::Start { .. } => Reply::Print(
                "start request returned additional info:".to_owned(),
            ),
            Asked::Run { .. } => Reply::Print("run request returned additional info:".to_owned()),
            Asked::EndOfStart { .. } => reply_accepted(asked),
            Asked::EndOfRun { .. } => reply_accepted(asked),
            Asked::Restart { .. } => Reply::Print(
                "restart request returned additional data (not yet handled)".to_owned(),
            ),
            Asked::StopDaemon => reply_accepted(asked),
            _ => Reply::Nothing,
        },
        ServerResponse::Error(message) => Reply::Fail(message.clone()),
    }
}

/// Checks a request to restart: targets cannot be named together with all of them.
pub fn check_restart(args: &TargetRestartArgs) -> (r: Result<(), String>)
    ensures
        outcome(r) == checked_restart(args.deep_view().targets, args.deep_view().all),
{
    if args.all && args.targets.len() > 0 {
        Err("cannot combine explicit targets with --all".to_owned())
    } else {
        Ok(())
    }
}

// ---------------------------------------------------------------------------
// Showing state and logs
// ---------------------------------------------------------------------------

/// What is shown in place of what was shown last, if that differs.
pub fn redraw(last: &str, rendered: &str) -> (r: Option<String>)
    ensures
        r.deep_view() == redrawn(last@, rendered@),
{
    if same(last, rendered) {
        None
    } else {
        let mut r: String = "\u{001b}[2J\u{001b}[H".to_owned();
        r.append(rendered);
        Some(r)
    }
}

/// Whether targets can be restarted as asked for.
pub open spec fn checked_restart(targets: Seq<Seq<char>>, all: bool) -> Result<(), Seq<char>> {
    if all && targets.len() > 0 {
        Err("cannot combine explicit targets with --all"@)
    } else {
        Ok(())
    }
}

/// What is written to show a view in place of the last one.
pub open spec fn redrawn(last: Seq<char>, rendered: Seq<char>) -> Option<Seq<char>> {
    if last == rendered {
        None
    } else {
        Some("\u{001b}[2J\u{001b}[H"@ + rendered)
    }
}

/// The targets whose logs are shown.
pub open spec fn logged_targets(
    targets: Seq<Seq<char>>,
    generations: Seq<(Seq<char>, u64)>,
) -> Seq<Seq<char>> {
    if targets.len() == 0 {
        crate::names::names_of(generations)
    } else {
        targets
    }
}

/// The generations that an answer tells, by target.
pub open spec fn told_generations(list: Seq<TargetGenerationSummaryView>) -> Seq<(Seq<char>, u64)>
    decreases list.len(),
{
    if list.len() == 0 {
        Seq::empty()
    } else {
        put(told_generations(list.drop_last()), list.last().name, list.last().generation)
    }
}

/// The generations that an answer tells, by target.
pub fn generation_map(list: &Vec<TargetGenerationSummary>) -> (r: NameMap<u64>)
    ensures
        r.deep_view() == told_generations(list.deep_view()),
{
    let ghost all = list.deep_view();
    let mut r: NameMap<u64> = NameMap::new();
    let mut i: usize = 0;
    assert(all.take(0) =~= Seq::empty());
    while i < list.len()
        invariant
            i <= list@.len(),
            all == list.deep_view(),
            r.deep_view() == told_generations(all.take(i as int)),
        decreases list@.len() - i,
    {
        assert(all.take(i + 1).drop_last() =~= all.take(i as int));
        assert(list@[i as int].deep_view() == all[i as int]);
        let _ = r.insert(list[i].name.clone(), list[i].generation);
        i = i + 1;
    }
    assert(all.take(i as int) =~= all);
    r
}

/// The targets whose logs are shown: the named ones, or all that have a generation, in name order.
pub fn targets_to_log(targets: &Vec<String>, generations: &NameMap<u64>) -> (r: Vec<String>)
    ensures
        r.deep_view() == logged_targets(targets.deep_view(), generations.deep_view()),
{
    if targets.len() == 0 {
        generations.keys()
    } else {
        targets.duplicate()
    }
}

/// The entries of some logs that are shown: by time, and only the last ones where a number is
/// asked for.
pub open spec fn shown_entries(sets: Seq<Seq<LogEntryView>>, tail: Option<usize>) -> Seq<
    LogEntryView,
> {
    match tail {
        Some(count) => last_of(merged(sets), count as nat),
        None => merged(sets),
    }
}

/// What is shown of some logs.
pub fn log_output(entry_sets: &Vec<Vec<LogEntry>>, tail: Option<usize>, terminal: bool) -> (r: Vec<
    String,
>)
    ensures
        r.deep_view() == shown_entries(entry_sets.deep_view(), tail).map_values(
            |entry: LogEntryView| colored(entry_text(entry), terminal),
        ),
{
    let mut entries: Vec<LogEntry> = merge_entries(entry_sets);
    if let Some(count) = tail {
        entries = take_last(entries, count);
    }
    let ghost list = entries.deep_view();
    let mut r: Vec<String> = Vec::new();
    let mut i: usize = 0;
    while i < entries.len()
        invariant
            i <= entries@.len(),
            list == entries.deep_view(),
            r@.len() == i,
            forall|k: int|
                0 <= k < i ==> (#[trigger] r@[k])@ == colored(entry_text(list[k]), terminal),
        decreases entries@.len() - i,
    {
        assert(entries@[i as int].deep_view() == list[i as int]);
        r.push(colorize_line(format_entry(&entries[i]).as_str(), terminal));
        i = i + 1;
    }
    assert(r.deep_view() =~= list.map_values(
        |entry: LogEntryView| colored(entry_text(entry), terminal),
    ));
    r
}

// ---------------------------------------------------------------------------
// Laws
// ---------------------------------------------------------------------------

/// A supervisor that runs is never started a second time.
pub proof fn running_supervisor_is_not_started_again(
    with_env: bool,
    foreground: bool,
    setting: Option<bool>,
)
    ensures
        start_decision(true, with_env, foreground, setting) != StartDecision::Spawn,
        start_decision(true, with_env, foreground, setting) != StartDecision::RunInForeground,
{
}

/// An error of the supervisor is always the failure of the command, whatever was asked.
pub proof fn errors_are_reported(asked: AskedView, message: Seq<char>)
    ensures
        reply_of(asked, ServerResponseView::Error(message)) == ReplyView::Fail(message),
{
}

/// Only an error makes a command fail.
pub proof fn only_errors_fail(asked: AskedView, response: ServerResponseView)
    ensures
        reply_of(asked, response) is Fail <==> response is Error,
{
}

} // verus!
