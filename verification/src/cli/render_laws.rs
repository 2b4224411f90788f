//! What holds of the view of what runs.

use vstd::prelude::*;

use crate::cli::log_io::{colored, LogSourceView};
use crate::cli::render::{
    all_available, all_running, all_stopped, behavior_text, config_lines, contents_of,
    control_lines, exit_parts, exit_text, generation_text, history_lines, history_runs,
    history_sources, info_lines, last_logs, last_source, port_lines, port_parts, restart_line,
    restart_parts, room, run_heading, run_state_lines, running_lines, running_sources, section,
    snapshot_lines, stopped_lines, stopped_sources, tail_lines, text_of_lines, title,
    watch_type_text, Display, LogContentsView, LogTextView,
};
use crate::ipc::protocol::{
    BehaviorKind, ControlStateSummaryView, ExitDetailsView, InfoResponseView, PortSummaryView,
    RefreshWatchTypeKind, RestartStatusSummaryView, RunHistorySummaryView,
    RunningTargetSummaryView, StoppedTargetSummaryView, TargetConfigSummaryView,
    TargetRunStateView,
};
use crate::numbers::{decimal_spec, signed_decimal_spec};
use crate::parts::join_spec;

verus! {

proof fn lemma_in_either<T>(a: Seq<T>, b: Seq<T>, x: T)
    ensures
        (a + b).contains(x) <==> a.contains(x) || b.contains(x),
{
    if a.contains(x) {
        let i = choose|i: int| 0 <= i < a.len() && a[i] == x;
        assert((a + b)[i] == x);
    }
    if b.contains(x) {
        let i = choose|i: int| 0 <= i < b.len() && b[i] == x;
        assert((a + b)[a.len() + i] == x);
    }
    if (a + b).contains(x) {
        let i = choose|i: int| 0 <= i < (a + b).len() && (a + b)[i] == x;
        if i < a.len() {
            assert(a[i] == x);
        } else {
            assert(b[i - a.len()] == x);
        }
    }
}

// ---------------------------------------------------------------------------
// Parts of lines
// ---------------------------------------------------------------------------

/// Kinds are told by their names.
pub proof fn kinds_are_told_by_their_names()
    ensures
        behavior_text(BehaviorKind::Service) == "service"@,
        behavior_text(BehaviorKind::Job) == "job"@,
        watch_type_text(RefreshWatchTypeKind::Rufa) == "rufa"@,
        watch_type_text(RefreshWatchTypeKind::Runtime) == "runtime"@,
{
}

/// The heading of a run tells its generation, and of the present run that it is the present one.
pub proof fn heading_tells_the_generation(generation: u64, colorize: bool)
    ensures
        generation_text(generation, false, colorize) == "generation "@ + decimal_spec(
            generation as nat,
        ),
        generation_text(generation, true, false) == generation_text(generation, false, colorize)
            + " [CURRENT]"@,
        generation_text(generation, true, true) == generation_text(generation, false, colorize)
            + (" \u{001b}[32m"@ + "[CURRENT]"@ + "\u{001b}[0m"@),
{
    reveal_strlit(" \u{001b}[32m");
    reveal_strlit("[CURRENT]");
    reveal_strlit("\u{001b}[0m");
    reveal_strlit(" \u{001b}[32m[CURRENT]\u{001b}[0m");
    assert(" \u{001b}[32m"@ + "[CURRENT]"@ + "\u{001b}[0m"@
        =~= " \u{001b}[32m[CURRENT]\u{001b}[0m"@);
}

/// A port is told by its name and its number, with its protocol, whether it is for debugging, and
/// its URL, where it has these.
pub proof fn port_is_told_by_name_and_number(port: PortSummaryView)
    ensures
        port_parts(port)[0] == port.name + " -> "@ + decimal_spec(port.port as nat),
        port.protocol is Some ==> port_parts(port)[1] == port.protocol->0,
        port.is_debug ==> port_parts(port).contains("debug"@),
        port.url is Some ==> port_parts(port).last() == port.url->0,
        port_parts(port).len() == 1 + (if port.protocol is Some {
            1int
        } else {
            0
        }) + (if port.is_debug {
            1int
        } else {
            0
        }) + (if port.url is Some {
            1int
        } else {
            0
        }),
{
    if port.is_debug {
        let k = if port.protocol is Some {
            2int
        } else {
            1
        };
        assert(port_parts(port)[k] == "debug"@);
    }
}

/// An exit is told by its code, its signal and its time, as far as these are known.
pub proof fn exit_is_told_as_far_as_known(exit: ExitDetailsView)
    ensures
        exit.code matches Some(code) ==> exit_parts(exit)[0] == "code "@ + signed_decimal_spec(
            code as int,
        ),
        exit.signal matches Some(signal) ==> exit_parts(exit).contains(
            "signal "@ + signed_decimal_spec(signal as int),
        ),
        exit.at matches Some(at) ==> exit_parts(exit).last() == at,
        exit_parts(exit).len() == (if exit.code is Some {
            1int
        } else {
            0
        }) + (if exit.signal is Some {
            1int
        } else {
            0
        }) + (if exit.at is Some {
            1int
        } else {
            0
        }),
        exit.code is None && exit.signal is None && exit.at is None ==> exit_text(exit)
            == "unknown"@,
        exit.code is Some || exit.signal is Some || exit.at is Some ==> exit_text(exit)
            == join_spec(exit_parts(exit), ", "@),
{
    if let Some(signal) = exit.signal {
        let k = if exit.code is Some {
            1int
        } else {
            0
        };
        assert(exit_parts(exit)[k] == "signal "@ + signed_decimal_spec(signal as int));
    }
}

/// A restart that waits is told with its attempt, counted from one, and when it comes.
pub proof fn waiting_restart_is_told(
    indent: Seq<char>,
    restart: RestartStatusSummaryView,
    colorize: bool,
)
    ensures
        restart.attempt > 0 ==> restart_parts(restart)[0] == "attempt "@ + decimal_spec(
            restart.attempt as nat,
        ),
        restart.attempt == 0 ==> restart_parts(restart)[0] == "attempt "@ + decimal_spec(1),
        restart.delay_seconds matches Some(delay) ==> restart_parts(restart)[1] == "next in "@
            + decimal_spec(delay as nat) + ".0s"@,
        restart.scheduled_for matches Some(at) ==> restart_parts(restart).last()
            == "scheduled for "@ + at,
        restart_line(indent, restart, false) == indent + "restart pending"@ + ": "@ + join_spec(
            restart_parts(restart),
            ", "@,
        ),
        indent.is_prefix_of(restart_line(indent, restart, colorize)),
{
    let line = restart_line(indent, restart, colorize);
    assert(line.take(indent.len() as int) =~= indent);
}

// ---------------------------------------------------------------------------
// Logs
// ---------------------------------------------------------------------------

/// A log that was read is found by its target and generation; one that was not read is empty.
pub proof fn read_log_is_found(logs: Seq<LogTextView>, i: int, target: Seq<char>, generation: u64)
    ensures
        0 <= i < logs.len() && logs[i].target == target && logs[i].generation == generation && (
        forall|j: int|
            i < j < logs.len() ==> (#[trigger] logs[j]).target != target || logs[j].generation
                != generation) ==> contents_of(logs, target, generation) == logs[i].contents,
        (forall|j: int|
            0 <= j < logs.len() ==> (#[trigger] logs[j]).target != target || logs[j].generation
                != generation) ==> contents_of(logs, target, generation) == LogContentsView::Text(
            Seq::empty(),
        ),
    decreases logs.len(),
{
    if logs.len() > 0 {
        let front = logs.drop_last();
        read_log_is_found(front, i, target, generation);
        assert forall|j: int| 0 <= j < front.len() implies #[trigger] front[j] == logs[j] by {}
        assert(logs.last() == logs[logs.len() - 1]);
        if 0 <= i < front.len() {
            assert(front[i] == logs[i]);
        }
    }
}

/// The lines of a log have the room that is left behind their indent and two spaces.
pub proof fn lines_have_the_room_that_is_left(width: usize, indent: usize)
    ensures
        indent + 2 <= width ==> room(Some(width), indent) == Some((width - indent - 2) as usize),
        indent + 2 > width && width < usize::MAX ==> room(Some(width), indent) is None,
        room(None, indent) is None,
{
}

/// The last lines of a log are shown under a heading, each behind the indent; where there is none
/// that is said.
pub proof fn last_lines_are_shown(lines: Seq<Seq<char>>, indent: Seq<char>, colorize: bool, i: int)
    ensures
        lines.len() == 0 ==> tail_lines(lines, indent, colorize) == seq![
            indent + "last logs: none"@,
        ],
        lines.len() > 0 ==> tail_lines(lines, indent, colorize).len() == lines.len() + 1,
        lines.len() == 1 ==> tail_lines(lines, indent, colorize)[0] == indent + "last log:"@,
        lines.len() > 1 ==> tail_lines(lines, indent, colorize)[0] == indent + "last logs:"@,
        0 <= i < lines.len() ==> tail_lines(lines, indent, colorize)[i + 1] == indent + "  "@
            + colored(lines[i], colorize),
{
}

/// No log is shown where no line of logs is asked for, and an error in reading a log is told.
pub proof fn logs_are_shown_where_asked_for(
    logs: Seq<LogTextView>,
    target: Seq<char>,
    generation: u64,
    indent: Seq<char>,
    display: Display,
)
    ensures
        display.log_lines == 0 ==> last_logs(logs, target, generation, indent, display).len() == 0,
        display.log_lines > 0 ==> last_logs(logs, target, generation, indent, display).len() > 0,
        display.log_lines > 0 ==> (contents_of(logs, target, generation) matches
            LogContentsView::Failed(error) ==> last_logs(logs, target, generation, indent, display)
            == seq![indent + "last logs: <error reading log: "@ + error + ">"@]),
{
}

// ---------------------------------------------------------------------------
// A target
// ---------------------------------------------------------------------------

/// The driver of a target, how it is watched and each path that is watched are shown.
pub proof fn configuration_is_shown(config: TargetConfigSummaryView, i: int)
    ensures
        config_lines(config)[0] == "      config:"@,
        config_lines(config)[1] == "        driver: "@ + config.driver,
        config_lines(config)[2] == "        refresh watch type: "@ + watch_type_text(
            config.refresh_watch_type,
        ),
        config.watch_paths.len() == 0 ==> config_lines(config).len() == 4 && config_lines(config)[3]
            == "        watch paths: (default)"@,
        config.watch_paths.len() > 0 ==> config_lines(config).len() == 4 + config.watch_paths.len()
            && config_lines(config)[3] == "        watch paths:"@,
        0 <= i < config.watch_paths.len() ==> config_lines(config)[4 + i] == "          - "@
            + config.watch_paths[i],
{
}

/// What is wanted of a target and what is to be done for it are shown where they are told.
pub proof fn control_is_shown(control: Option<ControlStateSummaryView>)
    ensures
        control is None ==> control_lines(control).len() == 0,
        control matches Some(told) ==> control_lines(control).len() == 2 && control_lines(
            control,
        )[0] == "      desired state: "@ + told.desired_state && control_lines(control)[1]
            == "      action plan: "@ + told.action_plan,
{
}

/// Each port is shown on a line of its own; where there is none that is said.
pub proof fn each_port_is_shown(ports: Seq<PortSummaryView>, indent: Seq<char>, i: int)
    ensures
        ports.len() == 0 ==> port_lines(ports, indent) == seq![indent + "ports: none"@],
        ports.len() > 0 ==> port_lines(ports, indent).len() == ports.len() + 1 && port_lines(
            ports,
            indent,
        )[0] == indent + "ports:"@,
        0 <= i < ports.len() ==> port_lines(ports, indent)[i + 1] == indent + "  "@ + join_spec(
            port_parts(ports[i]),
            " | "@,
        ),
{
}

/// Of a run its process, its ports, whether it is out of date, its last lines and its last exit
/// are shown.
pub proof fn run_is_shown(
    logs: Seq<LogTextView>,
    name: Seq<char>,
    state: TargetRunStateView,
    indent: Seq<char>,
    display: Display,
    line: Seq<char>,
)
    ensures
        ({
            let lines = run_state_lines(logs, name, state, indent, display);
            &&& state.pid matches Some(pid) ==> lines[0] == indent + "pid: "@ + decimal_spec(
                pid as nat,
            )
            &&& state.pid is None ==> lines[0] == indent + "pid: n/a"@
            &&& port_lines(state.ports, indent).contains(line) ==> lines.contains(line)
            &&& state.refresh_pending ==> lines.contains(indent + "refresh pending: "@ + "yes"@)
            &&& !state.refresh_pending ==> lines.contains(indent + "refresh pending: "@ + "no"@)
            &&& last_logs(logs, name, state.generation, indent, display).contains(line)
                ==> lines.contains(line)
            &&& state.last_exit matches Some(exit) ==> lines.last() == indent + "last exit: "@
                + exit_text(exit)
        }),
{
    let pid = seq![
        match state.pid {
            Some(pid) => indent + "pid: "@ + decimal_spec(pid as nat),
            None => indent + "pid: n/a"@,
        },
    ];
    let ports = port_lines(state.ports, indent);
    let pending = seq![
        indent + "refresh pending: "@ + (if state.refresh_pending {
            "yes"@
        } else {
            "no"@
        }),
    ];
    let tail = last_logs(logs, name, state.generation, indent, display);
    let exit = match state.last_exit {
        Some(exit) => seq![indent + "last exit: "@ + exit_text(exit)],
        None => Seq::empty(),
    };
    assert(run_state_lines(logs, name, state, indent, display) == pid + ports + pending + tail
        + exit);
    lemma_in_either(pid, ports, line);
    lemma_in_either(pid + ports, pending, line);
    lemma_in_either(pid + ports + pending, tail, line);
    lemma_in_either(pid + ports + pending + tail, exit, line);
    assert((pid + ports + pending + tail + exit)[(pid + ports).len() as int] == pending[0]);
}

/// An earlier run is shown with its heading, its generation, its exit and its last lines.
pub proof fn earlier_run_is_shown(
    logs: Seq<LogTextView>,
    name: Seq<char>,
    record: RunHistorySummaryView,
    heading: Seq<char>,
    indent: Seq<char>,
    display: Display,
)
    ensures
        ({
            let lines = snapshot_lines(logs, name, record, heading, indent, display);
            &&& lines[0] == indent + heading + ": "@ + ("generation "@ + decimal_spec(
                record.generation as nat,
            ))
            &&& record.exit matches Some(exit) ==> lines[1] == indent + "  "@ + "last exit: "@
                + exit_text(exit)
            &&& last_logs(
                logs,
                name,
                record.generation,
                indent + "  "@,
                display,
            ).is_suffix_of(lines)
        }),
{
    let lines = snapshot_lines(logs, name, record, heading, indent, display);
    let tail = last_logs(logs, name, record.generation, indent + "  "@, display);
    assert(lines.subrange(lines.len() - tail.len(), lines.len() as int) =~= tail);
}

/// A run in the history is called the previous run, with its number, counted from one, where there
/// are more.
pub proof fn earlier_runs_are_numbered(count: nat, index: nat)
    ensures
        run_heading(1, index) == "previous run"@,
        count != 1 ==> run_heading(count, index) == "previous run "@ + decimal_spec(index + 1),
{
}

/// Of the history of a target as many runs are shown as are asked for, the latest first; where
/// none is shown that is said.
pub proof fn history_is_shown(
    logs: Seq<LogTextView>,
    name: Seq<char>,
    history: Seq<RunHistorySummaryView>,
    display: Display,
    i: int,
    line: Seq<char>,
)
    ensures
        history.len() == 0 || display.history_limit == 0 ==> history_lines(
            logs,
            name,
            history,
            display,
        ) == seq!["      previous runs: none"@],
        0 <= i < history.len() && i < display.history_limit && snapshot_lines(
            logs,
            name,
            history[i],
            run_heading(history.len(), i as nat),
            "      "@,
            display,
        ).contains(line) ==> history_lines(logs, name, history, display).contains(line),
{
    if 0 <= i < history.len() && i < display.history_limit {
        let shown = if history.len() < display.history_limit {
            history.len()
        } else {
            display.history_limit as nat
        };
        lemma_history_runs(logs, name, history, shown, display, i, line);
    }
}

proof fn lemma_history_runs(
    logs: Seq<LogTextView>,
    name: Seq<char>,
    history: Seq<RunHistorySummaryView>,
    shown: nat,
    display: Display,
    i: int,
    line: Seq<char>,
)
    requires
        0 <= i < shown <= history.len(),
    ensures
        snapshot_lines(
            logs,
            name,
            history[i],
            run_heading(history.len(), i as nat),
            "      "@,
            display,
        ).contains(line) ==> history_runs(logs, name, history, shown, display).contains(line),
    decreases shown,
{
    let before = history_runs(logs, name, history, (shown - 1) as nat, display);
    let last = snapshot_lines(
        logs,
        name,
        history[shown - 1],
        run_heading(history.len(), (shown - 1) as nat),
        "      "@,
        display,
    );
    lemma_in_either(before, last, line);
    if i < shown - 1 {
        lemma_history_runs(logs, name, history, (shown - 1) as nat, display, i, line);
    }
}

/// A running target is shown with its name, its kind, its configuration, what is wanted of it, its
/// present run and its history.
pub proof fn running_target_is_shown(
    logs: Seq<LogTextView>,
    target: RunningTargetSummaryView,
    display: Display,
    line: Seq<char>,
)
    ensures
        ({
            let lines = running_lines(logs, target, display);
            &&& lines[0] == "  - "@ + target.name + " ("@ + behavior_text(target.kind) + ")"@
            &&& config_lines(target.config).contains(line) ==> lines.contains(line)
            &&& control_lines(target.control).contains(line) ==> lines.contains(line)
            &&& lines.contains(
                "      current run: "@ + generation_text(
                    target.current.generation,
                    true,
                    display.colorize,
                ),
            )
            &&& run_state_lines(logs, target.name, target.current, "        "@, display).contains(
                line,
            ) ==> lines.contains(line)
            &&& history_lines(logs, target.name, target.history, display).is_suffix_of(lines)
        }),
{
    let a = seq![title(target.name, target.kind)];
    let b = config_lines(target.config);
    let c = control_lines(target.control);
    let d = seq![
        "      current run: "@ + generation_text(target.current.generation, true, display.colorize),
    ];
    let e = run_state_lines(logs, target.name, target.current, "        "@, display);
    let f = history_lines(logs, target.name, target.history, display);
    let lines = running_lines(logs, target, display);
    assert(lines == a + b + c + d + e + f);
    lemma_in_either(a, b, line);
    lemma_in_either(a + b, c, line);
    lemma_in_either(a + b + c, d, line);
    lemma_in_either(a + b + c + d, e, line);
    lemma_in_either(a + b + c + d + e, f, line);
    assert((a + b + c + d + e + f)[(a + b + c).len() as int] == d[0]);
    assert(lines.subrange(lines.len() - f.len(), lines.len() as int) =~= f);
}

/// A stopped target is shown with its name, its kind, its configuration, what is wanted of it, its
/// last run and its history.
pub proof fn stopped_target_is_shown(
    logs: Seq<LogTextView>,
    target: StoppedTargetSummaryView,
    display: Display,
    line: Seq<char>,
)
    ensures
        ({
            let lines = stopped_lines(logs, target, display);
            &&& lines[0] == "  - "@ + target.name + " ("@ + behavior_text(target.kind) + ")"@
            &&& config_lines(target.config).contains(line) ==> lines.contains(line)
            &&& control_lines(target.control).contains(line) ==> lines.contains(line)
            &&& target.last is None ==> lines.contains("      last run: none"@)
            &&& target.last matches Some(last) ==> (snapshot_lines(
                logs,
                target.name,
                last,
                "last run"@,
                "      "@,
                display,
            ).contains(line) ==> lines.contains(line))
            &&& history_lines(logs, target.name, target.history, display).is_suffix_of(lines)
        }),
{
    let a = seq![title(target.name, target.kind)];
    let b = config_lines(target.config);
    let c = control_lines(target.control);
    let d = match target.last {
        Some(last) => snapshot_lines(logs, target.name, last, "last run"@, "      "@, display),
        None => seq!["      last run: none"@],
    };
    let e = history_lines(logs, target.name, target.history, display);
    let lines = stopped_lines(logs, target, display);
    assert(lines == a + b + c + d + e);
    lemma_in_either(a, b, line);
    lemma_in_either(a + b, c, line);
    lemma_in_either(a + b + c, d, line);
    lemma_in_either(a + b + c + d, e, line);
    if target.last is None {
        assert((a + b + c + d + e)[(a + b + c).len() as int] == d[0]);
    }
    assert(lines.subrange(lines.len() - e.len(), lines.len() as int) =~= e);
}

// ---------------------------------------------------------------------------
// The view
// ---------------------------------------------------------------------------

proof fn lemma_all_running(
    logs: Seq<LogTextView>,
    list: Seq<RunningTargetSummaryView>,
    display: Display,
    i: int,
    line: Seq<char>,
)
    requires
        0 <= i < list.len(),
        running_lines(logs, list[i], display).contains(line),
    ensures
        all_running(logs, list, display).contains(line),
    decreases list.len(),
{
    let front = list.drop_last();
    lemma_in_either(
        all_running(logs, front, display),
        running_lines(logs, list.last(), display),
        line,
    );
    if i < front.len() {
        assert(front[i] == list[i]);
        lemma_all_running(logs, front, display, i, line);
    }
}

proof fn lemma_all_stopped(
    logs: Seq<LogTextView>,
    list: Seq<StoppedTargetSummaryView>,
    display: Display,
    i: int,
    line: Seq<char>,
)
    requires
        0 <= i < list.len(),
        stopped_lines(logs, list[i], display).contains(line),
    ensures
        all_stopped(logs, list, display).contains(line),
    decreases list.len(),
{
    let front = list.drop_last();
    lemma_in_either(
        all_stopped(logs, front, display),
        stopped_lines(logs, list.last(), display),
        line,
    );
    if i < front.len() {
        assert(front[i] == list[i]);
        lemma_all_stopped(logs, front, display, i, line);
    }
}

/// The view begins with the setting, and shows every target that runs, every target that is
/// stopped, and the name and kind of every other.
pub proof fn view_shows_every_target(
    logs: Seq<LogTextView>,
    data: InfoResponseView,
    display: Display,
    i: int,
    line: Seq<char>,
)
    ensures
        ({
            let lines = info_lines(logs, data, display);
            &&& lines[0] == "Refresh on change: "@ + (if data.refresh_target_on_change_enabled {
                "auto"@
            } else {
                "off"@
            })
            &&& 0 <= i < data.running.len() && running_lines(
                logs,
                data.running[i],
                display,
            ).contains(line) ==> lines.contains(line)
            &&& 0 <= i < data.stopped.len() && stopped_lines(
                logs,
                data.stopped[i],
                display,
            ).contains(line) ==> lines.contains(line)
            &&& 0 <= i < data.available.len() ==> lines.contains(
                "  - "@ + data.available[i].name + " ("@ + behavior_text(data.available[i].kind)
                    + ")"@,
            )
            &&& lines.contains("Running targets:"@) && lines.contains("Stopped targets:"@)
                && lines.contains("Other available targets:"@)
            &&& data.running.len() == 0 || data.available.len() == 0 || data.stopped.len() == 0
                ==> lines.contains("  - none"@)
        }),
{
    let refresh = "Refresh on change: "@ + (if data.refresh_target_on_change_enabled {
        "auto"@
    } else {
        "off"@
    });
    let blank = Seq::<char>::empty();
    let a = seq![refresh, blank];
    let b = section("Running targets:"@, all_running(logs, data.running, display));
    let c = seq![blank];
    let d = section("Stopped targets:"@, all_stopped(logs, data.stopped, display));
    let e = section("Other available targets:"@, all_available(data.available));
    let lines = info_lines(logs, data, display);
    assert(lines == a + b + c + d + c + e);
    assert forall|x: Seq<char>| b.contains(x) || d.contains(x) || e.contains(x) implies
        #[trigger] lines.contains(x) by {
        lemma_in_either(a, b, x);
        lemma_in_either(a + b, c, x);
        lemma_in_either(a + b + c, d, x);
        lemma_in_either(a + b + c + d, c, x);
        lemma_in_either(a + b + c + d + c, e, x);
    }
    assert(b[0] == "Running targets:"@ && b.contains(b[0]));
    assert(d[0] == "Stopped targets:"@ && d.contains(d[0]));
    assert(e[0] == "Other available targets:"@ && e.contains(e[0]));
    if data.running.len() == 0 {
        assert(b[1] == "  - none"@ && b.contains(b[1]));
    }
    if data.stopped.len() == 0 {
        assert(d[1] == "  - none"@ && d.contains(d[1]));
    }
    if data.available.len() == 0 {
        assert(e[1] == "  - none"@ && e.contains(e[1]));
    }
    if 0 <= i < data.running.len() && running_lines(logs, data.running[i], display).contains(
        line,
    ) {
        lemma_all_running(logs, data.running, display, i, line);
        lemma_in_section("Running targets:"@, all_running(logs, data.running, display), line);
    }
    if 0 <= i < data.stopped.len() && stopped_lines(logs, data.stopped[i], display).contains(
        line,
    ) {
        lemma_all_stopped(logs, data.stopped, display, i, line);
        lemma_in_section("Stopped targets:"@, all_stopped(logs, data.stopped, display), line);
    }
    if 0 <= i < data.available.len() {
        let other = data.available[i];
        let all = all_available(data.available);
        assert(all[i] == title(other.name, other.kind));
        assert(all.contains(all[i]));
        lemma_in_section("Other available targets:"@, all, all[i]);
    }
}

proof fn lemma_in_section(heading: Seq<char>, lines: Seq<Seq<char>>, line: Seq<char>)
    requires
        lines.contains(line),
    ensures
        section(heading, lines).contains(line),
{
    let i = choose|i: int| 0 <= i < lines.len() && lines[i] == line;
    assert(section(heading, lines)[i + 1] == line);
}

/// The view as a text is its lines in their order, each with a line end behind it.
pub proof fn view_is_its_lines(a: Seq<Seq<char>>, b: Seq<Seq<char>>, line: Seq<char>)
    ensures
        text_of_lines(a + b) == text_of_lines(a) + text_of_lines(b),
        text_of_lines(seq![line]) == line + seq!['\n'],
        text_of_lines(Seq::empty()) == Seq::<char>::empty(),
    decreases b.len(),
{
    reveal_strlit("\n");
    reveal_with_fuel(text_of_lines, 2);
    assert(seq![line].drop_last() =~= Seq::empty());
    assert(text_of_lines(seq![line]) =~= line + seq!['\n']);
    if b.len() > 0 {
        view_is_its_lines(a, b.drop_last(), line);
        assert((a + b).drop_last() =~= a + b.drop_last());
        assert(text_of_lines(a + b) =~= text_of_lines(a) + text_of_lines(b));
    } else {
        assert(a + b =~= a);
        assert(text_of_lines(a + b) =~= text_of_lines(a) + text_of_lines(b));
    }
}

/// The logs that are read for the view are those of the present run of each running target, of the
/// last run of each stopped one, and of as many earlier runs as are shown.
pub proof fn logs_of_shown_runs_are_read(
    running: Seq<RunningTargetSummaryView>,
    stopped: Seq<StoppedTargetSummaryView>,
    limit: nat,
    i: int,
    k: int,
)
    ensures
        0 <= i < running.len() ==> {
            &&& running_sources(running, limit).contains(
                LogSourceView {
                    target: running[i].name,
                    generation: running[i].current.generation,
                },
            )
            &&& 0 <= k < running[i].history.len() && k < limit ==> running_sources(
                running,
                limit,
            ).contains(
                LogSourceView {
                    target: running[i].name,
                    generation: running[i].history[k].generation,
                },
            )
        },
        0 <= i < stopped.len() ==> {
            &&& stopped[i].last matches Some(last) ==> stopped_sources(stopped, limit).contains(
                LogSourceView { target: stopped[i].name, generation: last.generation },
            )
            &&& 0 <= k < stopped[i].history.len() && k < limit ==> stopped_sources(
                stopped,
                limit,
            ).contains(
                LogSourceView {
                    target: stopped[i].name,
                    generation: stopped[i].history[k].generation,
                },
            )
        },
    decreases running.len() + stopped.len(),
{
    if 0 <= i < running.len() {
        let front = running.drop_last();
        let target = running.last();
        let now = LogSourceView { target: target.name, generation: target.current.generation };
        let before = running_sources(front, limit).push(now);
        let past = history_sources(target.name, target.history, limit);
        if i < front.len() {
            assert(front[i] == running[i]);
            logs_of_shown_runs_are_read(front, Seq::empty(), limit, i, k);
            assert forall|x: LogSourceView| #[trigger] running_sources(front, limit).contains(
                x,
            ) implies running_sources(running, limit).contains(x) by {
                let sources = running_sources(front, limit);
                let j = choose|j: int| 0 <= j < sources.len() && sources[j] == x;
                assert(before[j] == x);
                lemma_in_either(before, past, x);
            }
        } else {
            assert(before[before.len() - 1] == now);
            lemma_in_either(before, past, now);
            if 0 <= k < target.history.len() && k < limit {
                assert(past.contains(past[k]));
                lemma_in_either(before, past, past[k]);
            }
        }
    }
    if 0 <= i < stopped.len() {
        let front = stopped.drop_last();
        let target = stopped.last();
        let before = stopped_sources(front, limit);
        let now = last_source(target);
        let past = history_sources(target.name, target.history, limit);
        if i < front.len() {
            assert(front[i] == stopped[i]);
            logs_of_shown_runs_are_read(Seq::empty(), front, limit, i, k);
            assert forall|x: LogSourceView| #[trigger] before.contains(x) implies stopped_sources(
                stopped,
                limit,
            ).contains(x) by {
                lemma_in_either(before, now, x);
                lemma_in_either(before + now, past, x);
            }
        } else {
            if target.last is Some {
                assert(now.contains(now[0]));
                lemma_in_either(before, now, now[0]);
                lemma_in_either(before + now, past, now[0]);
            }
            if 0 <= k < target.history.len() && k < limit {
                assert(past.contains(past[k]));
                lemma_in_either(before + now, past, past[k]);
            }
        }
    }
}

} // verus!
