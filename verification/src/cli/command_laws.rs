//! What holds of the commands of the command line, from the command to the end.

use vstd::prelude::*;

use crate::cli::args::{
    shell_text, CliView, CommandView, CompletionShell, DaemonStartArgsView, RefreshCliCommandView,
    RefreshModeArg, RunArgsView, StartArgsView, TargetCommandView,
};
use crate::cli::commands::{
    accepted, asks_for_help, checked_restart, is_command, logged_targets, names_command, redrawn,
    reply_of, setting_of, shown_entries, told_generations, AskedView, ReplyView,
};
use crate::cli::dispatch::{conversation_of, ConversationView};
use crate::cli::log_io::{
    asked_generations, asked_targets, colored, entries_of, entry_text, merged, sources_of,
    LogEntryView, LogSourceView,
};
use crate::cli::render::{
    contents_of, info_lines, running_sources, stopped_sources, LogContentsView, LogTextView,
};
use crate::cli::session::{
    daemon_step, env_file_from, request_step, start_of, start_with_setting, CliActionView,
    CliEventView, DaemonStartView, RequestPhaseView, RequestView,
};
use crate::cli::shown_laws::asked_logs_are_the_sources;
use crate::cli::streams::{
    display_of, entry_sets, generations_in_answer, info_step, log_step, output_of, run_of,
    run_step, start_targets_step, InfoPhaseView, LogPhaseView, RunTargetsView, ShowInfoView,
    ShowLogsView, StartTargetsPhaseView, StartTargetsView,
};
use crate::env::env_lines;
use crate::ipc::protocol::{
    ClientCommandView, ConfigureRequestView, InfoRequestView, InfoResponseView, KillRequestView,
    RefreshCommand, RefreshMode, RestartRequestView, RunRequestView, ServerResponseView,
    StartTargetsRequestView, StopTargetsRequestView, TargetGenerationSummaryView,
};
use crate::names::{lemma_lookup_put, lookup};
use crate::parts::{join_spec, lines_spec};
use crate::paths::{absolute, join_spec as join_path_spec};
use crate::runner::generation::recorded;

verus! {

// ---------------------------------------------------------------------------
// The command line
// ---------------------------------------------------------------------------

/// Whether an argument is one that the program knows: a command, or a wish for help or the version.
pub open spec fn known_word(arg: Seq<char>) -> bool {
    seq![
        "start"@,
        "stop"@,
        "run"@,
        "kill"@,
        "info"@,
        "log"@,
        "restart"@,
        "refresh"@,
        "target"@,
        "init"@,
        "completions"@,
        "daemon"@,
        "__daemon"@,
        "-h"@,
        "--help"@,
        "-V"@,
        "--version"@,
    ].contains(arg)
}

/// A command line leads to the view of what runs unless one of its arguments, behind the name of
/// the program, is one that the program knows.
pub proof fn command_line_without_command_shows_the_view(args: Seq<Option<Seq<char>>>)
    ensures
        names_command(args) <==> exists|i: int|
            1 <= i < args.len() && ((#[trigger] args[i]) matches Some(arg) && known_word(arg)),
{
    assert forall|arg: Seq<char>| known_word(arg) <==> asks_for_help(arg) || is_command(arg) by {
        let words = seq![
            "start"@,
            "stop"@,
            "run"@,
            "kill"@,
            "info"@,
            "log"@,
            "restart"@,
            "refresh"@,
            "target"@,
            "init"@,
            "completions"@,
            "daemon"@,
            "__daemon"@,
            "-h"@,
            "--help"@,
            "-V"@,
            "--version"@,
        ];
        assert(words[0] == "start"@ && words[1] == "stop"@ && words[2] == "run"@ && words[3]
            == "kill"@ && words[4] == "info"@ && words[5] == "log"@ && words[6] == "restart"@
            && words[7] == "refresh"@ && words[8] == "target"@ && words[9] == "init"@ && words[10]
            == "completions"@ && words[11] == "daemon"@ && words[12] == "__daemon"@ && words[13]
            == "-h"@ && words[14] == "--help"@ && words[15] == "-V"@ && words[16] == "--version"@);
        assert(words.len() == 17);
    }
    if names_command(args) {
        let i = choose|i: int|
            1 <= i < args.len() && ((#[trigger] args[i]) matches Some(arg) && (asks_for_help(arg)
                || is_command(arg)));
        assert(known_word(args[i]->0));
    }
    if exists|i: int|
        1 <= i < args.len() && ((#[trigger] args[i]) matches Some(arg) && known_word(arg)) {
        let i = choose|i: int|
            1 <= i < args.len() && ((#[trigger] args[i]) matches Some(arg) && known_word(arg));
        assert(asks_for_help(args[i]->0) || is_command(args[i]->0));
    }
}

/// An option to watch or not to watch is the setting; without either none is set.
pub proof fn options_are_the_setting(watch: bool, no_watch: bool)
    ensures
        setting_of(watch, no_watch) is None <==> !watch && !no_watch,
        watch ==> setting_of(watch, no_watch) == Some(true),
        no_watch && !watch ==> setting_of(watch, no_watch) == Some(false),
{
}

/// A file of variables is taken as it is written where its path is absolute, and looked for below
/// the directory of the caller otherwise.
pub proof fn env_file_is_found_from_the_directory(path: Seq<char>, cwd: Seq<char>)
    ensures
        absolute(path) ==> env_file_from(Some(path), cwd) == Some(path),
        !absolute(path) ==> env_file_from(Some(path), cwd) == Some(join_path_spec(cwd, path)),
        env_file_from(None, cwd) is None,
{
}

// ---------------------------------------------------------------------------
// Requests
// ---------------------------------------------------------------------------

/// The request that a conversation sends to a supervisor that runs.
pub open spec fn request_sent(conversation: ConversationView) -> Option<ClientCommandView> {
    let event = CliEventView::Connected { running: true };
    let action = match conversation {
        ConversationView::Request(request) => request_step(request, event).1.action,
        ConversationView::Start(start) => start_targets_step(start, event).1.action,
        ConversationView::Info(show) => info_step(show, event).1.action,
        ConversationView::Log(show) => log_step(show, event).1.action,
        _ => CliActionView::Finish,
    };
    match action {
        CliActionView::Send(command) => Some(command),
        _ => None,
    }
}

/// Each command sends the request that it stands for, with the targets and options as they are
/// given.
pub proof fn command_sends_its_request(
    cli: CliView,
    cwd: Seq<char>,
    width: Option<usize>,
    terminal: bool,
)
    ensures
        ({
            let sent = request_sent(conversation_of(cli, cwd, width, terminal));
            match cli.command {
                CommandView::Stop => sent == Some(ClientCommandView::Stop),
                CommandView::Refresh(RefreshCliCommandView::SetMode(args)) => sent == Some(
                    ClientCommandView::Refresh(
                        RefreshCommand::SetMode {
                            mode: if args.mode == RefreshModeArg::Auto {
                                RefreshMode::Auto
                            } else {
                                RefreshMode::Off
                            },
                        },
                    ),
                ),
                CommandView::Refresh(RefreshCliCommandView::StaleTargets) => sent == Some(
                    ClientCommandView::Refresh(RefreshCommand::RestartStaleTargets),
                ),
                CommandView::Target(TargetCommandView::Start(args)) => sent == Some(
                    ClientCommandView::StartTargets(
                        StartTargetsRequestView { targets: args.targets },
                    ),
                ),
                CommandView::Target(TargetCommandView::Stop(args)) => sent == Some(
                    ClientCommandView::StopTargets(
                        StopTargetsRequestView { targets: args.targets },
                    ),
                ),
                CommandView::Target(TargetCommandView::Restart(args)) => if args.all
                    && args.targets.len() > 0 {
                    sent is None
                } else {
                    sent == Some(
                        ClientCommandView::Restart(
                            RestartRequestView { targets: args.targets, all: args.all },
                        ),
                    )
                },
                CommandView::Info(args) => sent == Some(
                    ClientCommandView::Info(InfoRequestView { targets: args.targets }),
                ),
                CommandView::Log(args) => sent == Some(
                    ClientCommandView::Info(InfoRequestView { targets: args.targets }),
                ),
                _ => sent is None,
            }
        }),
{
}

/// Targets that are named and all targets cannot be restarted together: nothing is sent.
pub proof fn named_and_all_targets_are_not_restarted_together(
    targets: Seq<Seq<char>>,
    all: bool,
    cli: CliView,
    cwd: Seq<char>,
    width: Option<usize>,
    terminal: bool,
)
    ensures
        checked_restart(targets, all) is Err <==> all && targets.len() > 0,
        (cli.command matches CommandView::Target(TargetCommandView::Restart(args)) && args.all
            && args.targets.len() > 0) ==> conversation_of(cli, cwd, width, terminal) == (
        ConversationView::Refused("cannot combine explicit targets with --all"@)),
{
}

/// No request is made of a supervisor that does not run: the caller is told, and only a request to
/// stop it is no failure then.
pub proof fn nothing_is_asked_of_a_supervisor_that_does_not_run(
    request: RequestView,
    start: StartTargetsView,
    run: RunTargetsView,
    show: ShowInfoView,
)
    requires
        request.phase is Connecting,
        start.phase is Connecting,
        run.phase is Connecting,
        show.phase is Connecting,
    ensures
        ({
            let event = CliEventView::Connected { running: false };
            let failing = CliActionView::Fail(
                "rufa daemon is not running; launch it with `rufa start`"@,
            );
            &&& request_step(request, event).0 is Over
            &&& !(request.asked is StopDaemon) ==> request_step(request, event).1.action == failing
            &&& request.asked is StopDaemon ==> request_step(request, event).1.action
                == CliActionView::Finish && request_step(request, event).1.say
                == seq!["rufa daemon is not running"@]
            &&& start_targets_step(start, event).1.action == failing
            &&& run_step(run, event).1.action == failing
            &&& info_step(show, event).1.action == failing
        }),
{
}

/// An answer to a request ends it, with what it says: a reply is printed, an error is the failure.
/// A supervisor that is to stop is waited for before it is told that it stopped.
pub proof fn answer_ends_the_request(
    request: RequestView,
    response: ServerResponseView,
    message: Seq<char>,
)
    requires
        request.phase is Waiting,
    ensures
        request_step(
            request,
            CliEventView::Answer(ServerResponseView::Error(message)),
        ).1.action == CliActionView::Fail(message),
        reply_of(request.asked, response) matches ReplyView::Print(text) ==> ({
            let step = request_step(request, CliEventView::Answer(response)).1;
            step.say == seq![text] && step.action == CliActionView::Finish
        }),
        request.asked is StopDaemon && response is Ack ==> request_step(
            request,
            CliEventView::Answer(response),
        ).1.action == CliActionView::WaitUntilStopped && request_step(
            request,
            CliEventView::Answer(response),
        ).1.say.len() == 0,
        request_step(request, CliEventView::AnswerFailed(message)).1.action == CliActionView::Fail(
            match request.failure {
                Some(text) => text,
                None => message,
            },
        ),
{
}

/// A request that is accepted is told with its targets, one behind the other.
pub proof fn accepted_request_is_told_with_its_targets(targets: Seq<Seq<char>>)
    ensures
        ({
            let names = join_spec(targets, ", "@);
            &&& accepted(AskedView::Start { targets, foreground: false }) == ReplyView::Print(
                "requested start for targets: "@ + names,
            )
            &&& accepted(AskedView::Run { targets, foreground: false }) == ReplyView::Print(
                "requested start for targets: "@ + names,
            )
            &&& accepted(AskedView::Start { targets, foreground: true }) == ReplyView::Follow(
                "running targets in foreground: "@ + names + " (Ctrl+C to stop)"@,
            )
            &&& accepted(AskedView::Run { targets, foreground: true }) == ReplyView::Follow(
                "running targets in foreground: "@ + names + " (Ctrl+C to stop)"@,
            )
            &&& accepted(AskedView::StopTargets { targets }) == ReplyView::Print(
                "requested stop for targets: "@ + names,
            )
            &&& accepted(AskedView::Kill { targets }) == ReplyView::Print(
                "requested termination for targets: "@ + names,
            )
            &&& accepted(AskedView::EndOfStart { targets }) == ReplyView::Print(
                "sent stop signal for targets: "@ + names,
            )
            &&& accepted(AskedView::EndOfRun { targets }) == ReplyView::Print(
                "sent kill signal for targets: "@ + names,
            )
            &&& targets.len() > 0 ==> accepted(AskedView::Restart { targets, all: false })
                == ReplyView::Print("restart request accepted for targets: "@ + names)
            &&& accepted(AskedView::Restart { targets, all: true }) == ReplyView::Print(
                "requested restart for all services"@,
            )
        }),
{
}

/// Settings that are accepted are told as they were asked for.
pub proof fn accepted_setting_is_told(value: bool)
    ensures
        accepted(AskedView::Configure { value }) == ReplyView::Print(
            "updated default watch setting to "@ + (if value {
                "enabled"@
            } else {
                "disabled"@
            }) + " on running daemon"@,
        ),
        accepted(AskedView::SetRefresh { mode: RefreshMode::Auto }) == ReplyView::Print(
            "refresh on change set to auto"@,
        ),
        accepted(AskedView::SetRefresh { mode: RefreshMode::Off }) == ReplyView::Print(
            "refresh on change set to off"@,
        ),
        accepted(AskedView::StopDaemon) == ReplyView::WaitForShutdown("rufa daemon stopped"@),
{
    reveal_strlit("updated default watch setting to ");
    reveal_strlit("enabled");
    reveal_strlit("disabled");
    reveal_strlit(" on running daemon");
    reveal_strlit("updated default watch setting to enabled on running daemon");
    reveal_strlit("updated default watch setting to disabled on running daemon");
    assert("updated default watch setting to "@ + "enabled"@ + " on running daemon"@
        =~= "updated default watch setting to enabled on running daemon"@);
    assert("updated default watch setting to "@ + "disabled"@ + " on running daemon"@
        =~= "updated default watch setting to disabled on running daemon"@);
}

// ---------------------------------------------------------------------------
// Starting the supervisor
// ---------------------------------------------------------------------------

/// A supervisor that does not run is started in the background, or is what the program becomes
/// where it is to stay in the foreground, with the file of variables that is given.
pub proof fn supervisor_is_started_with_its_variables(
    cli: CliView,
    cwd: Seq<char>,
    width: Option<usize>,
    terminal: bool,
)
    ensures
        (cli.command matches CommandView::Start(args) && ({
            let event = CliEventView::Connected { running: false };
            &&& conversation_of(cli, cwd, width, terminal) matches ConversationView::Daemon(start)
            &&& !args.foreground ==> daemon_step(start, event).1.action == (
            CliActionView::SpawnDaemon {
                refresh: true,
                env_file: env_file_from(args.env_file, cwd),
                variables: Seq::empty(),
            })
            &&& args.foreground ==> daemon_step(start, event).1.action == (
            CliActionView::RunDaemon {
                setting: None,
                env_file: env_file_from(args.env_file, cwd),
                variables: Seq::empty(),
            })
        })) || !(cli.command is Start),
{
}

/// A supervisor that is spawned is waited for, and told to have started only when it is ready; a
/// failure on the way is told.
pub proof fn spawned_supervisor_is_waited_for(start: DaemonStartView, error: Option<Seq<char>>)
    ensures
        start.phase is Spawning ==> {
            let step = daemon_step(start, CliEventView::Worked { error }).1;
            &&& error is None ==> step.action == CliActionView::WaitUntilReady && step.say.len()
                == 0
            &&& error is Some ==> step.action == CliActionView::Fail(
                "failed to spawn rufa daemon"@,
            )
        },
        start.phase is GettingReady ==> {
            let step = daemon_step(start, CliEventView::Worked { error }).1;
            &&& error is None ==> step.action == CliActionView::Finish && step.say.len() == 1
            &&& error is Some ==> step.action == CliActionView::Fail(
                "daemon did not become ready in time"@,
            )
        },
        start.phase is InForeground ==> {
            let step = daemon_step(start, CliEventView::Worked { error }).1;
            &&& error is None ==> step.action == CliActionView::Finish
            &&& error is Some ==> step.action == CliActionView::Fail(error->0)
        },
{
}

/// Variables that are read beforehand are those that the supervisor is started with.
pub proof fn read_variables_are_handed_on(start: DaemonStartView, text: Seq<char>)
    requires
        start.phase is ReadingEnv,
        env_lines(lines_spec(text)) is Ok,
    ensures
        ({
            let action = daemon_step(start, CliEventView::EnvFileRead(Some(text))).1.action;
            let variables = env_lines(lines_spec(text))->Ok_0;
            &&& !start.foreground ==> (action matches CliActionView::SpawnDaemon {
                refresh,
                variables: handed,
                ..
            } && refresh == start.refresh && handed == variables)
            &&& start.foreground ==> (action matches CliActionView::RunDaemon {
                variables: handed,
                ..
            } && handed == variables)
        }),
{
}

/// A supervisor that runs is neither started again nor changed but for the setting that is given;
/// with a file of variables or in the foreground the start is refused.
pub proof fn running_supervisor_takes_the_setting(start: DaemonStartView)
    requires
        start.phase is Connecting,
    ensures
        ({
            let step = daemon_step(start, CliEventView::Connected { running: true });
            &&& start.env_file is Some ==> step.0 is Over && step.1.action is Fail
            &&& start.env_file is None && start.foreground ==> step.0 is Over && step.1.action
                == CliActionView::Finish
            &&& start.env_file is None && !start.foreground && start.setting is None ==> step.0
                is Over && step.1.action == CliActionView::Finish
            &&& start.env_file is None && !start.foreground && start.setting is Some
                ==> step.1.action == CliActionView::Send(
                ClientCommandView::Configure(
                    ConfigureRequestView { default_watch: start.setting },
                ),
            )
        }),
{
}

// ---------------------------------------------------------------------------
// Starting and running targets
// ---------------------------------------------------------------------------

/// A run sends its targets and its setting, shows the log of all targets for these where it stays
/// in the foreground, and ends exactly these when it is left.
pub proof fn run_ends_what_it_ran(run: RunTargetsView, response: ServerResponseView)
    ensures
        run.phase is Connecting ==> run_step(
            run,
            CliEventView::Connected { running: true },
        ).1.action == CliActionView::Send(
            ClientCommandView::Run(RunRequestView { targets: run.targets, watch: run.watch }),
        ),
        run.phase is Asking && response is Ack ==> {
            let step = run_step(run, CliEventView::Answer(response));
            &&& run.foreground ==> step.1.action == CliActionView::FollowCombined(run.targets)
                && step.0 is Following
            &&& !run.foreground ==> step.1.action == CliActionView::Finish && step.0 is Over
        },
        run.phase is Following ==> {
            let kill = CliActionView::Send(
                ClientCommandView::Kill(KillRequestView { targets: run.targets }),
            );
            &&& run_step(run, CliEventView::Interrupted).1.action == kill
            &&& run_step(run, CliEventView::Worked { error: None }).1.action == kill
        },
{
}

/// A start sends its targets, follows the logs of their present generations where it stays in the
/// foreground, and stops exactly these when it is left.
pub proof fn start_stops_what_it_started(
    start: StartTargetsView,
    response: ServerResponseView,
    names: Seq<Seq<char>>,
    source: LogSourceView,
)
    ensures
        start.phase is Connecting ==> start_targets_step(
            start,
            CliEventView::Connected { running: true },
        ).1.action == CliActionView::Send(
            ClientCommandView::StartTargets(StartTargetsRequestView { targets: start.targets }),
        ),
        start.phase is Asking && response is Ack ==> {
            let step = start_targets_step(start, CliEventView::Answer(response));
            &&& start.foreground ==> step.1.action == CliActionView::Send(
                ClientCommandView::Info(InfoRequestView { targets: start.targets }),
            )
            &&& !start.foreground ==> step.1.action == CliActionView::Finish && step.0 is Over
        },
        start.phase matches StartTargetsPhaseView::Listing { generations } ==> ({
            let step = start_targets_step(start, CliEventView::FilesListed(names));
            step.1.action matches CliActionView::Follow(sources) && (sources.contains(source)
                <==> asked_targets(start.targets, generations).contains(source.target)
                && asked_generations(source.target, None, false, generations, names).contains(
                source.generation,
            ))
        }),
        start.phase is Following ==> {
            let stop = CliActionView::Send(
                ClientCommandView::StopTargets(StopTargetsRequestView { targets: start.targets }),
            );
            &&& start_targets_step(start, CliEventView::Interrupted).1.action == stop
            &&& start_targets_step(start, CliEventView::Worked { error: None }).1.action == stop
        },
{
    if let StartTargetsPhaseView::Listing { generations } = start.phase {
        asked_logs_are_the_sources(
            asked_targets(start.targets, generations),
            None,
            false,
            generations,
            names,
            source,
        );
    }
}

// ---------------------------------------------------------------------------
// Logs
// ---------------------------------------------------------------------------

/// The generation of a target is the last that is told of it.
pub proof fn last_told_generation_counts(
    list: Seq<TargetGenerationSummaryView>,
    i: int,
)
    requires
        0 <= i < list.len(),
        forall|j: int| i < j < list.len() ==> (#[trigger] list[j]).name != list[i].name,
    ensures
        lookup(told_generations(list), list[i].name) == Some(list[i].generation),
    decreases list.len(),
{
    let front = list.drop_last();
    let last = list.last();
    lemma_lookup_put(told_generations(front), last.name, last.generation, list[i].name);
    if i < front.len() {
        assert(front[i] == list[i]);
        assert forall|j: int| i < j < front.len() implies (#[trigger] front[j]).name
            != front[i].name by {
            assert(front[j] == list[j]);
        }
        last_told_generation_counts(front, i);
        assert(list[list.len() - 1].name != list[i].name);
    }
}

/// What a supervisor tells of generations is taken up, and its error is the failure.
pub proof fn told_generations_are_taken_up(info: InfoResponseView, message: Seq<char>)
    ensures
        generations_in_answer(ServerResponseView::Info(info)) == Ok::<_, Seq<char>>(
            told_generations(info.generations),
        ),
        generations_in_answer(ServerResponseView::Error(message)) == Err::<
            Seq<(Seq<char>, u64)>,
            _,
        >(message),
{
}

/// The targets whose logs are shown are those that are named, or all that are known.
pub proof fn logs_of_named_targets_are_shown(
    targets: Seq<Seq<char>>,
    generations: Seq<(Seq<char>, u64)>,
    i: int,
)
    ensures
        targets.len() > 0 ==> logged_targets(targets, generations) == targets,
        targets.len() == 0 && 0 <= i < generations.len() ==> logged_targets(targets, generations)[i]
            == generations[i].0,
        targets.len() == 0 ==> logged_targets(targets, generations).len() == generations.len(),
{
}

/// The logs that are read are those of the targets and generations that are asked for.
pub proof fn asked_logs_are_read(
    show: ShowLogsView,
    targets: Seq<Seq<char>>,
    generations: Seq<(Seq<char>, u64)>,
    names: Seq<Seq<char>>,
    source: LogSourceView,
)
    requires
        show.phase == (LogPhaseView::Listing { targets, generations }),
        asked_targets(targets, generations).contains(source.target),
        asked_generations(
            source.target,
            show.args.generation,
            show.args.all,
            generations,
            names,
        ).contains(source.generation),
    ensures
        log_step(show, CliEventView::FilesListed(names)).1.action matches CliActionView::ReadLogs(
            sources,
        ) && sources.contains(source),
{
    asked_logs_are_the_sources(
        asked_targets(targets, generations),
        show.args.generation,
        show.args.all,
        generations,
        names,
        source,
    );
}

/// Each log that is read has its entries among those that are shown; a log that cannot be read is
/// the failure.
pub proof fn each_log_has_its_entries(
    sources: Seq<LogSourceView>,
    logs: Seq<LogTextView>,
    i: int,
)
    requires
        0 <= i < sources.len(),
    ensures
        ({
            let contents = contents_of(logs, sources[i].target, sources[i].generation);
            &&& contents is Failed ==> entry_sets(sources, logs) is Err
            &&& entry_sets(sources, logs) matches Ok(sets) ==> {
                &&& sets.len() == sources.len()
                &&& contents matches LogContentsView::Text(text)
                &&& sets[i] == entries_of(sources[i], lines_spec(text))
            }
        }),
    decreases sources.len(),
{
    let front = sources.drop_last();
    if i < front.len() {
        assert(front[i] == sources[i]);
        each_log_has_its_entries(front, logs, i);
    }
    if front.len() > 0 {
        each_log_has_its_entries(front, logs, 0);
    }
}

/// The entries of all logs are shown by their times, all of them or the last, one line for each.
pub proof fn entries_of_all_logs_are_shown(
    sets: Seq<Seq<LogEntryView>>,
    tail: Option<usize>,
    terminal: bool,
    i: int,
)
    requires
        0 <= i < output_of(sets, tail, terminal).len(),
    ensures
        ({
            let all = merged(sets);
            let count = output_of(sets, tail, terminal).len();
            &&& tail is None ==> count == all.len()
            &&& tail matches Some(most) ==> count == (if all.len() < most {
                all.len()
            } else {
                most as nat
            })
            &&& output_of(sets, tail, terminal)[i] == colored(
                entry_text(all[all.len() - count + i]),
                terminal,
            )
        }),
{
    let all = merged(sets);
    let count = output_of(sets, tail, terminal).len();
    assert(shown_entries(sets, tail)[i] == all[all.len() - count + i]);
}

/// What was read of the logs is said, and is followed on the same logs where that is asked for.
pub proof fn read_logs_are_said(
    show: ShowLogsView,
    sources: Seq<LogSourceView>,
    logs: Seq<LogTextView>,
)
    requires
        show.phase == (LogPhaseView::Reading { sources }),
        entry_sets(sources, logs) is Ok,
    ensures
        ({
            let step = log_step(show, CliEventView::LogsRead(logs)).1;
            let lines = output_of(entry_sets(sources, logs)->Ok_0, show.args.tail, show.terminal);
            &&& lines.is_prefix_of(step.say)
            &&& show.args.follow ==> step.action == CliActionView::Follow(sources)
            &&& !show.args.follow ==> step.action == CliActionView::Finish && step.say == lines
        }),
{
    let step = log_step(show, CliEventView::LogsRead(logs)).1;
    let lines = output_of(entry_sets(sources, logs)->Ok_0, show.args.tail, show.terminal);
    assert(step.say.take(lines.len() as int) =~= lines);
}

// ---------------------------------------------------------------------------
// The view of what runs
// ---------------------------------------------------------------------------

/// A view is drawn in place of the last one only where it differs from it.
pub proof fn changed_view_is_drawn(last: Seq<char>, rendered: Seq<char>)
    ensures
        redrawn(last, rendered) is None <==> last == rendered,
        last != rendered ==> rendered.is_suffix_of(redrawn(last, rendered)->0),
{
    let code = "\u{001b}[2J\u{001b}[H"@;
    let all = code + rendered;
    assert(all.subrange(all.len() - rendered.len(), all.len() as int) =~= rendered);
}

/// What the supervisor tells is shown: once, or again and again in the foreground until the view
/// is left.
pub proof fn what_is_told_is_shown(
    show: ShowInfoView,
    data: InfoResponseView,
    logs: Seq<LogTextView>,
)
    ensures
        show.phase is Asking ==> info_step(
            show,
            CliEventView::Answer(ServerResponseView::Info(data)),
        ).0.phase == (InfoPhaseView::Reading { data }),
        show.phase == (InfoPhaseView::Reading { data }) ==> {
            let step = info_step(show, CliEventView::LogsRead(logs));
            &&& !show.args.foreground ==> step.1.say == info_lines(logs, data, display_of(show))
                && step.1.action == CliActionView::Finish && step.0.phase is Over
            &&& show.args.foreground ==> step.1.action == CliActionView::Sleep && step.0.phase
                is Sleeping
        },
        show.phase is Sleeping ==> {
            &&& info_step(show, CliEventView::TimePassed).1.action == CliActionView::Send(
                ClientCommandView::Info(InfoRequestView { targets: show.args.targets }),
            )
            &&& info_step(show, CliEventView::Interrupted).1.action == CliActionView::Finish
        },
{
}

/// Completions are written for the shell that is asked for.
pub proof fn shells_are_named(
    cli: CliView,
    cwd: Seq<char>,
    width: Option<usize>,
    terminal: bool,
)
    ensures
        cli.command matches CommandView::Completions(args) ==> conversation_of(
            cli,
            cwd,
            width,
            terminal,
        ) == ConversationView::Completions(args.shell),
        shell_text(CompletionShell::Bash) == "bash"@,
        shell_text(CompletionShell::Zsh) == "zsh"@,
        shell_text(CompletionShell::Fish) == "fish"@,
        shell_text(CompletionShell::PowerShell) == "powershell"@,
        shell_text(CompletionShell::Elvish) == "elvish"@,
{
}

/// A run asks for its targets, and for what is said of watching where something is.
pub proof fn run_asks_for_its_targets(args: RunArgsView)
    ensures
        run_step(run_of(args), CliEventView::Connected { running: true }).1.action
            == CliActionView::Send(
            ClientCommandView::Run(
                RunRequestView {
                    targets: args.targets,
                    watch: if args.watch {
                        Some(true)
                    } else if args.no_watch {
                        Some(false)
                    } else {
                        None
                    },
                },
            ),
        ),
        run_of(args).foreground == args.foreground,
{
}

/// A start with a setting starts a supervisor that watches only where that is asked for; a file of
/// variables is read before.
pub proof fn start_with_a_setting_is_carried_out(args: StartArgsView)
    ensures
        ({
            let action = daemon_step(
                start_with_setting(args),
                CliEventView::Connected { running: false },
            ).1.action;
            &&& args.env_file matches Some(path) ==> action == CliActionView::ReadEnvFile(path)
            &&& args.env_file is None && !args.foreground ==> action == (
            CliActionView::SpawnDaemon {
                refresh: args.watch,
                env_file: None,
                variables: Seq::empty(),
            })
            &&& args.env_file is None && args.foreground ==> action == (CliActionView::RunDaemon {
                setting: Some(args.watch),
                env_file: None,
                variables: Seq::empty(),
            })
        }),
        ({
            let action = daemon_step(
                start_with_setting(args),
                CliEventView::Connected { running: true },
            ).1.action;
            args.env_file is None && !args.foreground ==> (args.watch || args.no_watch <==> action
                == CliActionView::Send(
                ClientCommandView::Configure(
                    ConfigureRequestView { default_watch: Some(args.watch) },
                ),
            ))
        }),
{
}

/// A start begins with a look for a supervisor that runs, as the command line asks for it.
pub proof fn start_is_as_asked_for(
    args: DaemonStartArgsView,
    cwd: Seq<char>,
    width: Option<usize>,
    terminal: bool,
)
    ensures
        conversation_of(CliView { command: CommandView::Start(args) }, cwd, width, terminal)
            == ConversationView::Daemon(start_of(args, cwd)),
{
}

/// Logs are shown with the generations that a supervisor tells, or with those that were recorded
/// where none runs. Where no target is known that is said, and an error is the failure.
pub proof fn logs_are_found_by_their_generations(
    show: ShowLogsView,
    info: InfoResponseView,
    records: Seq<(Seq<char>, u64)>,
    message: Seq<char>,
)
    ensures
        show.phase is Connecting ==> log_step(
            show,
            CliEventView::Connected { running: false },
        ).1.action == CliActionView::ReadGenerations,
        show.phase is AskingGenerations ==> {
            let generations = told_generations(info.generations);
            let targets = logged_targets(show.args.targets, generations);
            let step = log_step(show, CliEventView::Answer(ServerResponseView::Info(info)));
            &&& targets.len() > 0 ==> step.1.action == CliActionView::ListLogs && step.0 == (
            LogPhaseView::Listing { targets, generations })
            &&& targets.len() == 0 ==> step.0 is Over && step.1.say == seq![
                "no log sources available"@,
            ] && step.1.action == CliActionView::Finish
            &&& log_step(
                show,
                CliEventView::Answer(ServerResponseView::Error(message)),
            ).1.action == CliActionView::Fail(message)
        },
        show.phase is ReadingGenerations ==> {
            let generations = recorded(records);
            let targets = logged_targets(show.args.targets, generations);
            let step = log_step(show, CliEventView::GenerationsRead(records));
            targets.len() > 0 ==> step.1.action == CliActionView::ListLogs && step.0 == (
            LogPhaseView::Listing { targets, generations })
        },
{
}

/// Where no log is found for what is asked for, that is said and nothing is read.
pub proof fn missing_logs_are_told(
    show: ShowLogsView,
    targets: Seq<Seq<char>>,
    generations: Seq<(Seq<char>, u64)>,
    names: Seq<Seq<char>>,
)
    requires
        show.phase == (LogPhaseView::Listing { targets, generations }),
        forall|target: Seq<char>|
            asked_targets(targets, generations).contains(target) ==> #[trigger] asked_generations(
                target,
                show.args.generation,
                show.args.all,
                generations,
                names,
            ).len() == 0,
    ensures
        ({
            let step = log_step(show, CliEventView::FilesListed(names));
            &&& step.0 is Over
            &&& step.1.say == seq!["no logs found for requested selection"@]
            &&& step.1.action == CliActionView::Finish
        }),
{
    let asked = asked_targets(targets, generations);
    let sources = sources_of(asked, show.args.generation, show.args.all, generations, names);
    if sources.len() > 0 {
        let source = sources[0];
        assert(sources.contains(source));
        asked_logs_are_the_sources(
            asked,
            show.args.generation,
            show.args.all,
            generations,
            names,
            source,
        );
        assert(asked_generations(
            source.target,
            show.args.generation,
            show.args.all,
            generations,
            names,
        ).len() == 0);
    }
}

/// Following logs ends when the caller leaves, without a failure, or with the failure that ended
/// it.
pub proof fn following_ends_with_the_caller(show: ShowLogsView, message: Seq<char>)
    requires
        show.phase is Following,
    ensures
        log_step(show, CliEventView::Interrupted).1.action == CliActionView::Finish,
        log_step(show, CliEventView::Worked { error: None }).1.action == CliActionView::Finish,
        log_step(show, CliEventView::Worked { error: Some(message) }).1.action
            == CliActionView::Fail(message),
{
}

/// A view that cannot be filled fails with why; in the foreground it ends with a warning instead.
pub proof fn failed_view_is_told(show: ShowInfoView, message: Seq<char>)
    requires
        show.phase is Asking,
    ensures
        ({
            let refused = info_step(
                show,
                CliEventView::Answer(ServerResponseView::Error(message)),
            );
            let unanswered = info_step(show, CliEventView::AnswerFailed(message));
            &&& refused.0.phase is Over && unanswered.0.phase is Over
            &&& !show.args.foreground ==> refused.1.action == CliActionView::Fail(message)
                && unanswered.1.action == CliActionView::Fail(message)
            &&& show.args.foreground ==> refused.1.warn == Some("daemon error: "@ + message)
                && unanswered.1.warn == Some("failed to fetch info: "@ + message)
        }),
{
}

/// A failure while targets are followed is a warning, and they are stopped or ended all the same; a
/// failure to do so is told.
pub proof fn failed_following_still_ends_targets(
    start: StartTargetsView,
    run: RunTargetsView,
    message: Seq<char>,
)
    ensures
        start.phase is Following ==> {
            let step = start_targets_step(start, CliEventView::Worked { error: Some(message) }).1;
            &&& step.warn == Some("log streaming ended: "@ + message)
            &&& step.action == CliActionView::Send(
                ClientCommandView::StopTargets(StopTargetsRequestView { targets: start.targets }),
            )
        },
        run.phase is Following ==> {
            let step = run_step(run, CliEventView::Worked { error: Some(message) }).1;
            &&& step.warn == Some("log streaming ended: "@ + message)
            &&& step.action == CliActionView::Send(
                ClientCommandView::Kill(KillRequestView { targets: run.targets }),
            )
        },
        start.phase is Stopping ==> start_targets_step(
            start,
            CliEventView::AnswerFailed(message),
        ).1.action == CliActionView::Fail("failed to send stop request"@),
        run.phase is Ending ==> run_step(run, CliEventView::AnswerFailed(message)).1.action
            == CliActionView::Fail("failed to send kill request"@),
        start.phase is Asking ==> start_targets_step(
            start,
            CliEventView::AnswerFailed(message),
        ).1.action == CliActionView::Fail(message),
        run.phase is Asking ==> run_step(run, CliEventView::AnswerFailed(message)).1.action
            == CliActionView::Fail(message),
{
}

/// More that a supervisor tells than was asked for is said to be there; for a stop it counts as
/// accepted.
pub proof fn further_answers_are_noted(
    targets: Seq<Seq<char>>,
    flag: bool,
    info: InfoResponseView,
)
    ensures
        ({
            let more = ServerResponseView::Info(info);
            &&& reply_of(AskedView::Start { targets, foreground: flag }, more) == ReplyView::Print(
                "start request returned additional info:"@,
            )
            &&& reply_of(AskedView::Run { targets, foreground: flag }, more) == ReplyView::Print(
                "run request returned additional info:"@,
            )
            &&& reply_of(AskedView::Restart { targets, all: flag }, more) == ReplyView::Print(
                "restart request returned additional data (not yet handled)"@,
            )
            &&& reply_of(AskedView::StopDaemon, more) == ReplyView::WaitForShutdown(
                "rufa daemon stopped"@,
            )
            &&& reply_of(AskedView::EndOfStart { targets }, more) == reply_of(
                AskedView::EndOfStart { targets },
                ServerResponseView::Ack,
            )
            &&& reply_of(AskedView::EndOfRun { targets }, more) == reply_of(
                AskedView::EndOfRun { targets },
                ServerResponseView::Ack,
            )
            &&& reply_of(AskedView::StopTargets { targets }, more) == ReplyView::Nothing
            &&& reply_of(AskedView::Kill { targets }, more) == ReplyView::Nothing
            &&& reply_of(AskedView::Configure { value: flag }, more) == ReplyView::Nothing
            &&& reply_of(AskedView::RestartStale, more) == ReplyView::Nothing
        }),
        accepted(AskedView::RestartStale) == ReplyView::Print(
            "requested restart for stale refresh targets"@,
        ),
        accepted(AskedView::Restart { targets: Seq::empty(), all: false }) == ReplyView::Print(
            "restart request accepted (no explicit targets supplied)"@,
        ),
{
}

/// What is said of a start tells what comes of it.
pub proof fn start_says_what_comes_of_it(start: DaemonStartView)
    ensures
        start.phase is Connecting && start.env_file is Some ==> daemon_step(
            start,
            CliEventView::Connected { running: true },
        ).1.action == CliActionView::Fail(
            "rufa daemon already running; stop it before restarting with --env"@,
        ),
        start.phase is Connecting && start.env_file is None ==> {
            let step = daemon_step(start, CliEventView::Connected { running: true }).1;
            &&& start.foreground ==> step.say == seq![
                "rufa daemon is already running; stop it before using --foreground"@,
            ]
            &&& !start.foreground && start.setting is None ==> step.say == seq![
                "rufa daemon already running; use `rufa stop` to restart it if needed"@,
            ]
        },
        start.phase is Connecting && start.foreground && start.env_file is None ==> {
            let step = daemon_step(start, CliEventView::Connected { running: false }).1;
            &&& step.say.len() == 2
            &&& step.say[0] == "starting rufa daemon in foreground (press Ctrl+C to stop)"@
            &&& start.prepared ==> step.say[1] == "streaming logs to stdout..."@
            &&& !start.prepared ==> step.say[1] == "logs directory: .rufa/logs"@
        },
        start.phase is GettingReady ==> daemon_step(
            start,
            CliEventView::Worked { error: None },
        ).1.say == seq![
            if start.prepared {
                "rufa daemon started; launch targets with `rufa run`"@
            } else {
                "rufa daemon started; launch targets with `rufa target start`"@
            },
        ],
{
    reveal_strlit(".rufa");
    reveal_strlit("logs");
    reveal_strlit("logs directory: ");
    reveal_strlit("logs directory: .rufa/logs");
    assert(join_path_spec(".rufa"@, "logs"@) =~= ".rufa"@ + seq!['/'] + "logs"@);
    assert("logs directory: "@ + (".rufa"@ + seq!['/'] + "logs"@)
        =~= "logs directory: .rufa/logs"@);
}

/// A file of variables that cannot be read is named.
pub proof fn unreadable_variables_are_named(start: DaemonStartView, path: Seq<char>)
    requires
        start.phase is ReadingEnv,
        start.env_file == Some(path),
    ensures
        daemon_step(start, CliEventView::EnvFileRead(None)).1.action == CliActionView::Fail(
            "loading environment overrides from "@ + path,
        ),
{
}

/// A request for the refresh setting or for stale targets that cannot be sent fails with what was
/// asked for; other requests fail with what went wrong.
pub proof fn unsent_request_is_told(
    cli: CliView,
    cwd: Seq<char>,
    width: Option<usize>,
    terminal: bool,
    message: Seq<char>,
)
    ensures
        conversation_of(cli, cwd, width, terminal) matches ConversationView::Request(request) ==> ({
            let sent = RequestView { phase: RequestPhaseView::Waiting, ..request };
            let action = request_step(sent, CliEventView::AnswerFailed(message)).1.action;
            match cli.command {
                CommandView::Refresh(RefreshCliCommandView::SetMode(_)) => action
                    == CliActionView::Fail("failed to update refresh setting"@),
                CommandView::Refresh(RefreshCliCommandView::StaleTargets) => action
                    == CliActionView::Fail("failed to refresh stale targets"@),
                _ => action == CliActionView::Fail(message),
            }
        }),
{
}

/// What is shown is shown as the command line asks for it: as many lines of logs and as many
/// earlier runs, in the width of the terminal, with colors on a terminal only.
pub proof fn view_is_as_asked_for(
    cli: CliView,
    cwd: Seq<char>,
    width: Option<usize>,
    terminal: bool,
)
    ensures
        cli.command matches CommandView::Info(args) ==> (conversation_of(cli, cwd, width, terminal)
            matches ConversationView::Info(show) && {
            let display = display_of(show);
            &&& display.log_lines == args.log_length
            &&& display.history_limit == args.history_length
            &&& display.width == width
            &&& display.colorize == terminal
            &&& show.args == args
            &&& show.last.len() == 0
        }),
        cli.command matches CommandView::Log(args) ==> (conversation_of(cli, cwd, width, terminal)
            matches ConversationView::Log(show) && show.args == args && show.terminal == terminal),
        cli.command matches CommandView::Target(TargetCommandView::Start(args)) ==> (
        conversation_of(cli, cwd, width, terminal) matches ConversationView::Start(start)
            && start.targets == args.targets && start.foreground == args.foreground),
        cli.command is Init ==> conversation_of(cli, cwd, width, terminal) is Init,
        cli.command is DaemonForeground ==> conversation_of(cli, cwd, width, terminal) is Serve,
{
}

/// The logs of the runs that are shown are read, and none where no line of logs is asked for.
pub proof fn logs_are_read_for_the_view(
    show: ShowInfoView,
    data: InfoResponseView,
)
    requires
        show.phase is Asking,
    ensures
        ({
            let step = info_step(show, CliEventView::Answer(ServerResponseView::Info(data))).1;
            let limit = show.args.history_length as nat;
            step.action == CliActionView::ReadLogs(
                if show.args.log_length == 0 {
                    Seq::empty()
                } else {
                    running_sources(data.running, limit) + stopped_sources(data.stopped, limit)
                },
            )
        }),
{
}

} // verus!
