//! How the state of targets is shown.

use vstd::prelude::*;

use crate::cli::log_io::{
    colored, colorize_line, entries_of, tail_logs_for_target, tail_text, text_width, width_of_text,
    LogSource, LogSourceView,
};
use crate::ipc::protocol::{
    AvailableTargetSummary, AvailableTargetSummaryView, BehaviorKind, ControlStateSummary,
    ControlStateSummaryView, ExitDetails, ExitDetailsView, InfoResponse, InfoResponseView,
    PortSummary, PortSummaryView, RefreshWatchTypeKind, RestartStatusSummary,
    RestartStatusSummaryView, RunHistorySummary, RunHistorySummaryView, RunningTargetSummary,
    RunningTargetSummaryView, StoppedTargetSummary, StoppedTargetSummaryView, TargetConfigSummary,
    TargetConfigSummaryView, TargetRunState, TargetRunStateView,
};
use crate::numbers::{decimal, decimal_spec, signed_decimal, signed_decimal_spec};
use crate::parts::{join, join_spec, lines_spec};
use crate::text::same;
use crate::views::Duplicate;

verus! {

/// What was read of a log.
#[derive(Debug, PartialEq, Eq)]
pub enum LogContents {
    Text(String),
    /// Why the log could not be read.
    Failed(String),
}

/// What a [`LogContents`] stands for.
pub enum LogContentsView {
    Text(Seq<char>),
    Failed(Seq<char>),
}

impl DeepView for LogContents {
    type V = LogContentsView;

    open spec fn deep_view(&self) -> LogContentsView {
        match self {
            LogContents::Text(a) => LogContentsView::Text(a.deep_view()),
            LogContents::Failed(a) => LogContentsView::Failed(a.deep_view()),
        }
    }
}

impl Duplicate for LogContents {
    fn duplicate(&self) -> (copy: Self) {
        match self {
            LogContents::Text(a) => LogContents::Text(a.duplicate()),
            LogContents::Failed(a) => LogContents::Failed(a.duplicate()),
        }
    }
}

/// A log and what was read of it.
#[derive(Debug, PartialEq, Eq)]
pub struct LogText {
    pub target: String,
    pub generation: u64,
    pub contents: LogContents,
}

/// What a [`LogText`] stands for.
pub struct LogTextView {
    pub target: Seq<char>,
    pub generation: u64,
    pub contents: LogContentsView,
}

impl DeepView for LogText {
    type V = LogTextView;

    open spec fn deep_view(&self) -> LogTextView {
        LogTextView {
            target: self.target.deep_view(),
            generation: self.generation,
            contents: self.contents.deep_view(),
        }
    }
}

impl Duplicate for LogText {
    fn duplicate(&self) -> (copy: Self) {
        LogText {
            target: self.target.duplicate(),
            generation: self.generation,
            contents: self.contents.duplicate(),
        }
    }
}

/// Where text is shown, and how much of logs and histories.
#[derive(Debug, Clone, Copy, PartialEq, Eq)]
pub struct Display {
    pub log_lines: usize,
    pub history_limit: usize,
    /// The columns of the terminal, where there is one.
    pub width: Option<usize>,
    pub colorize: bool,
}

fn add_line(out: &mut Vec<String>, line: String)
    ensures
        final(out).deep_view() == old(out).deep_view().push(line@),
{
    out.push(line);
    assert(out.deep_view() =~= old(out).deep_view().push(line@));
}

fn add_lines(out: &mut Vec<String>, more: Vec<String>)
    ensures
        final(out).deep_view() == old(out).deep_view() + more.deep_view(),
{
    let ghost added = more.deep_view();
    let mut rest: Vec<String> = more;
    out.append(&mut rest);
    assert(out.deep_view() =~= old(out).deep_view() + added);
}

fn no_lines() -> (r: Vec<String>)
    ensures
        r.deep_view() == Seq::<Seq<char>>::empty(),
{
    let r: Vec<String> = Vec::new();
    assert(r.deep_view() =~= Seq::empty());
    r
}

fn one_line(line: String) -> (r: Vec<String>)
    ensures
        r.deep_view() == seq![line@],
{
    let mut r: Vec<String> = Vec::new();
    r.push(line);
    assert(r.deep_view() =~= seq![line@]);
    r
}

fn glue(a: &str, b: &str) -> (r: String)
    ensures
        r@ == a@ + b@,
{
    let mut r: String = a.to_owned();
    r.append(b);
    r
}

fn glue_three(a: &str, b: &str, c: &str) -> (r: String)
    ensures
        r@ == a@ + b@ + c@,
{
    let mut r: String = a.to_owned();
    r.append(b);
    r.append(c);
    r
}

// ---------------------------------------------------------------------------
// Labels
// ---------------------------------------------------------------------------

/// The name of a kind of target.
pub open spec fn behavior_text(kind: BehaviorKind) -> Seq<char> {
    match kind {
        BehaviorKind::Service => "service"@,
        BehaviorKind::Job => "job"@,
    }
}

/// The name of the kind of target.
pub fn behavior_label(kind: BehaviorKind) -> (r: &'static str)
    ensures
        r@ == behavior_text(kind),
{
    match kind {
        BehaviorKind::Service => "service",
        BehaviorKind::Job => "job",
    }
}

/// The name of who restarts a service.
pub open spec fn watch_type_text(kind: RefreshWatchTypeKind) -> Seq<char> {
    match kind {
        RefreshWatchTypeKind::Rufa => "rufa"@,
        RefreshWatchTypeKind::Runtime => "runtime"@,
    }
}

/// The name of who restarts the service.
pub fn refresh_watch_type_label(kind: RefreshWatchTypeKind) -> (r: &'static str)
    ensures
        r@ == watch_type_text(kind),
{
    match kind {
        RefreshWatchTypeKind::Rufa => "rufa",
        RefreshWatchTypeKind::Runtime => "runtime",
    }
}

/// A generation as a heading.
pub open spec fn generation_text(generation: u64, is_current: bool, colorize: bool) -> Seq<char> {
    let plain = "generation "@ + decimal_spec(generation as nat);
    if !is_current {
        plain
    } else if colorize {
        plain + " \u{001b}[32m[CURRENT]\u{001b}[0m"@
    } else {
        plain + " [CURRENT]"@
    }
}

/// The generation as a heading.
pub fn format_generation_heading(generation: u64, is_current: bool, colorize: bool) -> (r: String)
    ensures
        r@ == generation_text(generation, is_current, colorize),
{
    let mut r: String = glue("generation ", decimal(generation).as_str());
    if is_current {
        if colorize {
            r.append(" \u{001b}[32m[CURRENT]\u{001b}[0m");
        } else {
            r.append(" [CURRENT]");
        }
    }
    r
}

/// Parts of a port that are shown where they are there.
pub open spec fn port_parts(port: PortSummaryView) -> Seq<Seq<char>> {
    let first = seq![port.name + " -> "@ + decimal_spec(port.port as nat)];
    let protocol = match port.protocol {
        Some(protocol) => seq![protocol],
        None => Seq::empty(),
    };
    let debug = if port.is_debug {
        seq!["debug"@]
    } else {
        Seq::empty()
    };
    let url = match port.url {
        Some(url) => seq![url],
        None => Seq::empty(),
    };
    first + protocol + debug + url
}

/// The port on one line.
pub fn format_port_summary(port: &PortSummary) -> (r: String)
    ensures
        r@ == join_spec(port_parts(port.deep_view()), " | "@),
{
    let mut segments: Vec<String> = one_line(
        glue_three(port.name.as_str(), " -> ", decimal(port.port as u64).as_str()),
    );
    if let Some(protocol) = &port.protocol {
        add_line(&mut segments, protocol.clone());
    }
    if port.is_debug {
        add_line(&mut segments, "debug".to_owned());
    }
    if let Some(url) = &port.url {
        add_line(&mut segments, url.clone());
    }
    assert(segments.deep_view() =~= port_parts(port.deep_view()));
    join(&segments, " | ")
}

/// Parts of how a run ended that are shown where they are there.
pub open spec fn exit_parts(exit: ExitDetailsView) -> Seq<Seq<char>> {
    let code = match exit.code {
        Some(code) => seq!["code "@ + signed_decimal_spec(code as int)],
        None => Seq::empty(),
    };
    let signal = match exit.signal {
        Some(signal) => seq!["signal "@ + signed_decimal_spec(signal as int)],
        None => Seq::empty(),
    };
    let at = match exit.at {
        Some(at) => seq![at],
        None => Seq::empty(),
    };
    code + signal + at
}

/// How a run ended, on one line.
pub open spec fn exit_text(exit: ExitDetailsView) -> Seq<char> {
    if exit_parts(exit).len() == 0 {
        "unknown"@
    } else {
        join_spec(exit_parts(exit), ", "@)
    }
}

/// How the run ended, on one line.
pub fn format_exit_summary(exit: &ExitDetails) -> (r: String)
    ensures
        r@ == exit_text(exit.deep_view()),
{
    let mut parts: Vec<String> = no_lines();
    if let Some(code) = exit.code {
        add_line(&mut parts, glue("code ", signed_decimal(code as i64).as_str()));
    }
    if let Some(signal) = exit.signal {
        add_line(&mut parts, glue("signal ", signed_decimal(signal as i64).as_str()));
    }
    if let Some(at) = &exit.at {
        add_line(&mut parts, at.clone());
    }
    assert(parts.deep_view() =~= exit_parts(exit.deep_view()));
    if parts.len() == 0 {
        "unknown".to_owned()
    } else {
        join(&parts, ", ")
    }
}

/// Parts of a planned restart that are shown where they are there.
pub open spec fn restart_parts(restart: RestartStatusSummaryView) -> Seq<Seq<char>> {
    let attempt = if restart.attempt == 0 {
        1
    } else {
        restart.attempt as nat
    };
    let delay = match restart.delay_seconds {
        Some(delay) => seq!["next in "@ + decimal_spec(delay as nat) + ".0s"@],
        None => Seq::empty(),
    };
    let at = match restart.scheduled_for {
        Some(at) => seq!["scheduled for "@ + at],
        None => Seq::empty(),
    };
    seq!["attempt "@ + decimal_spec(attempt)] + delay + at
}

/// A planned restart, on one line.
pub open spec fn restart_line(
    indent: Seq<char>,
    restart: RestartStatusSummaryView,
    colorize: bool,
) -> Seq<char> {
    let label = if colorize {
        "\u{001b}[33mrestart pending\u{001b}[0m"@
    } else {
        "restart pending"@
    };
    indent + label + ": "@ + join_spec(restart_parts(restart), ", "@)
}

/// The planned restart, on one line. Delays are whole seconds.
pub fn write_restart_status(indent: &str, restart: &RestartStatusSummary, colorize: bool) -> (r:
    String)
    ensures
        r@ == restart_line(indent@, restart.deep_view(), colorize),
{
    let attempt: u64 = if restart.attempt == 0 {
        1
    } else {
        restart.attempt as u64
    };
    let mut parts: Vec<String> = one_line(glue("attempt ", decimal(attempt).as_str()));
    if let Some(delay) = restart.delay_seconds {
        add_line(&mut parts, glue_three("next in ", decimal(delay).as_str(), ".0s"));
    }
    if let Some(at) = &restart.scheduled_for {
        add_line(&mut parts, glue("scheduled for ", at.as_str()));
    }
    assert(parts.deep_view() =~= restart_parts(restart.deep_view()));
    let mut r: String = indent.to_owned();
    if colorize {
        r.append("\u{001b}[33mrestart pending\u{001b}[0m");
    } else {
        r.append("restart pending");
    }
    r.append(": ");
    r.append(join(&parts, ", ").as_str());
    r
}

// ---------------------------------------------------------------------------
// Logs
// ---------------------------------------------------------------------------

/// What was read of the log of a generation; nothing where it was not read.
pub open spec fn contents_of(
    logs: Seq<LogTextView>,
    target: Seq<char>,
    generation: u64,
) -> LogContentsView
    decreases logs.len(),
{
    if logs.len() == 0 {
        LogContentsView::Text(Seq::empty())
    } else if logs.last().target == target && logs.last().generation == generation {
        logs.last().contents
    } else {
        contents_of(logs.drop_last(), target, generation)
    }
}

/// What was read of the log of a generation; nothing where it was not read.
pub fn find_contents(logs: &Vec<LogText>, target: &str, generation: u64) -> (r: LogContents)
    ensures
        r.deep_view() == contents_of(logs.deep_view(), target@, generation),
{
    let ghost list = logs.deep_view();
    let mut i: usize = logs.len();
    assert(list.take(list.len() as int) =~= list);
    while i > 0
        invariant
            i <= logs@.len(),
            list == logs.deep_view(),
            contents_of(list, target@, generation) == contents_of(
                list.take(i as int),
                target@,
                generation,
            ),
        decreases i,
    {
        let ghost front = list.take(i as int);
        assert(front.last() == list[i - 1]);
        assert(front.drop_last() =~= list.take(i - 1));
        if same(logs[i - 1].target.as_str(), target) && logs[i - 1].generation == generation {
            return logs[i - 1].contents.duplicate();
        }
        i = i - 1;
    }
    let nothing: String = String::new();
    assert(nothing@ =~= Seq::empty());
    LogContents::Text(nothing)
}

/// The columns that are left behind an indent and two more; no limit where there is no terminal
/// or not even that much room.
pub open spec fn room(width: Option<usize>, indent_width: usize) -> Option<usize> {
    let taken = if indent_width + 2 > usize::MAX {
        usize::MAX as int
    } else {
        indent_width + 2
    };
    match width {
        Some(width) => if width >= taken {
            Some((width - taken) as usize)
        } else {
            None
        },
        None => None,
    }
}

fn room_left(width: Option<usize>, indent_width: usize) -> (r: Option<usize>)
    ensures
        r == room(width, indent_width),
{
    match width {
        Some(width) => width.checked_sub(indent_width.saturating_add(2)),
        None => None,
    }
}

/// The last lines of a log, below a heading.
pub open spec fn tail_lines(lines: Seq<Seq<char>>, indent: Seq<char>, colorize: bool) -> Seq<
    Seq<char>,
> {
    if lines.len() == 0 {
        seq![indent + "last logs: none"@]
    } else {
        seq![
            indent + (if lines.len() == 1 {
                "last log:"@
            } else {
                "last logs:"@
            }),
        ] + lines.map_values(|line: Seq<char>| indent + "  "@ + colored(line, colorize))
    }
}

/// The last lines of the log of a generation, below a heading.
pub open spec fn last_logs(
    logs: Seq<LogTextView>,
    target: Seq<char>,
    generation: u64,
    indent: Seq<char>,
    display: Display,
) -> Seq<Seq<char>> {
    if display.log_lines == 0 {
        Seq::empty()
    } else {
        match contents_of(logs, target, generation) {
            LogContentsView::Text(text) => tail_lines(
                tail_text(
                    entries_of(LogSourceView { target, generation }, lines_spec(text)),
                    display.log_lines as nat,
                    room(display.width, text_width(indent)),
                ),
                indent,
                display.colorize,
            ),
            LogContentsView::Failed(error) => seq![
                indent + "last logs: <error reading log: "@ + error + ">"@,
            ],
        }
    }
}

fn show_tail(lines: &Vec<String>, indent: &str, colorize: bool) -> (r: Vec<String>)
    ensures
        r.deep_view() == tail_lines(lines.deep_view(), indent@, colorize),
{
    if lines.len() == 0 {
        return one_line(glue(indent, "last logs: none"));
    }
    let mut r: Vec<String> = if lines.len() == 1 {
        one_line(glue(indent, "last log:"))
    } else {
        one_line(glue(indent, "last logs:"))
    };
    let ghost list = lines.deep_view();
    let ghost shown = list.map_values(
        |line: Seq<char>| indent@ + "  "@ + colored(line, colorize),
    );
    let ghost first = r.deep_view();
    let mut i: usize = 0;
    assert(first + shown.take(0) =~= first);
    while i < lines.len()
        invariant
            i <= lines@.len(),
            list == lines.deep_view(),
            shown == list.map_values(
                |line: Seq<char>| indent@ + "  "@ + colored(line, colorize),
            ),
            r.deep_view() == first + shown.take(i as int),
        decreases lines@.len() - i,
    {
        assert(lines@[i as int]@ == list[i as int]);
        add_line(
            &mut r,
            glue_three(indent, "  ", colorize_line(lines[i].as_str(), colorize).as_str()),
        );
        assert(first + shown.take(i + 1) =~= (first + shown.take(i as int)).push(shown[i as int]));
        i = i + 1;
    }
    assert(shown.take(i as int) =~= shown);
    r
}

/// The last lines of the log of a generation, below a heading.
pub fn write_last_logs(
    logs: &Vec<LogText>,
    target: &str,
    generation: u64,
    indent: &str,
    display: Display,
) -> (r: Vec<String>)
    ensures
        r.deep_view() == last_logs(logs.deep_view(), target@, generation, indent@, display),
{
    if display.log_lines == 0 {
        return no_lines();
    }
    match find_contents(logs, target, generation) {
        LogContents::Text(text) => {
            let available: Option<usize> = room_left(display.width, width_of_text(indent));
            let lines: Vec<String> = tail_logs_for_target(
                target,
                generation,
                display.log_lines,
                available,
                text.as_str(),
            );
            show_tail(&lines, indent, display.colorize)
        },
        LogContents::Failed(error) => {
            let mut line: String = glue_three(
                indent,
                "last logs: <error reading log: ",
                error.as_str(),
            );
            line.append(">");
            one_line(line)
        },
    }
}

// ---------------------------------------------------------------------------
// Targets
// ---------------------------------------------------------------------------

/// Texts below each other, each behind the same start.
pub open spec fn listed(start: Seq<char>, list: Seq<Seq<char>>) -> Seq<Seq<char>> {
    list.map_values(|item: Seq<char>| start + item)
}

fn list_lines(start: &str, list: &Vec<String>) -> (r: Vec<String>)
    ensures
        r.deep_view() == listed(start@, list.deep_view()),
{
    let mut r: Vec<String> = Vec::new();
    let mut i: usize = 0;
    while i < list.len()
        invariant
            i <= list@.len(),
            r@.len() == i,
            forall|k: int|
                0 <= k < i ==> (#[trigger] r@[k])@ == listed(start@, list.deep_view())[k],
        decreases list@.len() - i,
    {
        assert(list@[i as int]@ == list.deep_view()[i as int]);
        r.push(glue(start, list[i].as_str()));
        i = i + 1;
    }
    assert(r.deep_view() =~= listed(start@, list.deep_view()));
    r
}

/// How a target is configured.
pub open spec fn config_lines(config: TargetConfigSummaryView) -> Seq<Seq<char>> {
    let paths = if config.watch_paths.len() == 0 {
        seq!["        watch paths: (default)"@]
    } else {
        seq!["        watch paths:"@] + listed("          - "@, config.watch_paths)
    };
    seq![
        "      config:"@,
        "        driver: "@ + config.driver,
        "        refresh watch type: "@ + watch_type_text(config.refresh_watch_type),
    ] + paths
}

/// How the target is configured.
pub fn write_config_details(config: &TargetConfigSummary) -> (r: Vec<String>)
    ensures
        r.deep_view() == config_lines(config.deep_view()),
{
    let mut r: Vec<String> = one_line("      config:".to_owned());
    add_line(&mut r, glue("        driver: ", config.driver.as_str()));
    add_line(
        &mut r,
        glue(
            "        refresh watch type: ",
            refresh_watch_type_label(config.refresh_watch_type),
        ),
    );
    if config.watch_paths.len() == 0 {
        add_line(&mut r, "        watch paths: (default)".to_owned());
    } else {
        add_line(&mut r, "        watch paths:".to_owned());
        add_lines(&mut r, list_lines("          - ", &config.watch_paths));
    }
    assert(r.deep_view() =~= config_lines(config.deep_view()));
    r
}

/// What is planned for a target.
pub open spec fn control_lines(control: Option<ControlStateSummaryView>) -> Seq<Seq<char>> {
    match control {
        Some(control) => seq![
            "      desired state: "@ + control.desired_state,
            "      action plan: "@ + control.action_plan,
        ],
        None => Seq::empty(),
    }
}

fn write_control(control: &Option<ControlStateSummary>) -> (r: Vec<String>)
    ensures
        r.deep_view() == control_lines(control.deep_view()),
{
    match control {
        Some(control) => {
            let mut r: Vec<String> = one_line(
                glue("      desired state: ", control.desired_state.as_str()),
            );
            add_line(&mut r, glue("      action plan: ", control.action_plan.as_str()));
            assert(r.deep_view() =~= control_lines(Some(control.deep_view())));
            r
        },
        None => no_lines(),
    }
}

/// The ports of a target.
pub open spec fn port_lines(ports: Seq<PortSummaryView>, indent: Seq<char>) -> Seq<Seq<char>> {
    if ports.len() == 0 {
        seq![indent + "ports: none"@]
    } else {
        seq![indent + "ports:"@] + ports.map_values(
            |port: PortSummaryView| indent + "  "@ + join_spec(port_parts(port), " | "@),
        )
    }
}

fn write_ports(ports: &Vec<PortSummary>, indent: &str) -> (r: Vec<String>)
    ensures
        r.deep_view() == port_lines(ports.deep_view(), indent@),
{
    if ports.len() == 0 {
        return one_line(glue(indent, "ports: none"));
    }
    let mut r: Vec<String> = one_line(glue(indent, "ports:"));
    let ghost list = ports.deep_view();
    let ghost shown = list.map_values(
        |port: PortSummaryView| indent@ + "  "@ + join_spec(port_parts(port), " | "@),
    );
    let ghost first = r.deep_view();
    let mut i: usize = 0;
    assert(first + shown.take(0) =~= first);
    while i < ports.len()
        invariant
            i <= ports@.len(),
            list == ports.deep_view(),
            shown == list.map_values(
                |port: PortSummaryView| indent@ + "  "@ + join_spec(port_parts(port), " | "@),
            ),
            r.deep_view() == first + shown.take(i as int),
        decreases ports@.len() - i,
    {
        assert(ports@[i as int].deep_view() == list[i as int]);
        add_line(&mut r, glue_three(indent, "  ", format_port_summary(&ports[i]).as_str()));
        assert(first + shown.take(i + 1) =~= (first + shown.take(i as int)).push(shown[i as int]));
        i = i + 1;
    }
    assert(shown.take(i as int) =~= shown);
    r
}

/// How a target runs.
pub open spec fn run_state_lines(
    logs: Seq<LogTextView>,
    name: Seq<char>,
    state: TargetRunStateView,
    indent: Seq<char>,
    display: Display,
) -> Seq<Seq<char>> {
    let pid = match state.pid {
        Some(pid) => indent + "pid: "@ + decimal_spec(pid as nat),
        None => indent + "pid: n/a"@,
    };
    let pending = indent + "refresh pending: "@ + (if state.refresh_pending {
        "yes"@
    } else {
        "no"@
    });
    let exit = match state.last_exit {
        Some(exit) => seq![indent + "last exit: "@ + exit_text(exit)],
        None => Seq::empty(),
    };
    seq![pid] + port_lines(state.ports, indent) + seq![pending] + last_logs(
        logs,
        name,
        state.generation,
        indent,
        display,
    ) + exit
}

/// How the target runs.
pub fn write_run_state(
    logs: &Vec<LogText>,
    name: &str,
    state: &TargetRunState,
    indent: &str,
    display: Display,
) -> (r: Vec<String>)
    ensures
        r.deep_view() == run_state_lines(
            logs.deep_view(),
            name@,
            state.deep_view(),
            indent@,
            display,
        ),
{
    let mut r: Vec<String> = match state.pid {
        Some(pid) => one_line(glue_three(indent, "pid: ", decimal(pid as u64).as_str())),
        None => one_line(glue(indent, "pid: n/a")),
    };
    add_lines(&mut r, write_ports(&state.ports, indent));
    let pending: &str = if state.refresh_pending {
        "yes"
    } else {
        "no"
    };
    add_line(&mut r, glue_three(indent, "refresh pending: ", pending));
    add_lines(&mut r, write_last_logs(logs, name, state.generation, indent, display));
    if let Some(exit) = &state.last_exit {
        add_line(&mut r, glue_three(indent, "last exit: ", format_exit_summary(exit).as_str()));
    }
    assert(r.deep_view() =~= run_state_lines(
        logs.deep_view(),
        name@,
        state.deep_view(),
        indent@,
        display,
    ));
    r
}

/// A run that ended.
pub open spec fn snapshot_lines(
    logs: Seq<LogTextView>,
    name: Seq<char>,
    record: RunHistorySummaryView,
    heading: Seq<char>,
    indent: Seq<char>,
    display: Display,
) -> Seq<Seq<char>> {
    let nested = indent + "  "@;
    let exit = match record.exit {
        Some(exit) => seq![nested + "last exit: "@ + exit_text(exit)],
        None => Seq::empty(),
    };
    seq![
        indent + heading + ": "@ + generation_text(record.generation, false, display.colorize),
    ] + exit + last_logs(logs, name, record.generation, nested, display)
}

/// The run that ended.
pub fn write_run_snapshot(
    logs: &Vec<LogText>,
    name: &str,
    record: &RunHistorySummary,
    heading: &str,
    indent: &str,
    display: Display,
) -> (r: Vec<String>)
    ensures
        r.deep_view() == snapshot_lines(
            logs.deep_view(),
            name@,
            record.deep_view(),
            heading@,
            indent@,
            display,
        ),
{
    let mut line: String = glue_three(indent, heading, ": ");
    line.append(
        format_generation_heading(record.generation, false, display.colorize).as_str(),
    );
    let mut r: Vec<String> = one_line(line);
    let nested: String = glue(indent, "  ");
    if let Some(exit) = &record.exit {
        add_line(
            &mut r,
            glue_three(nested.as_str(), "last exit: ", format_exit_summary(exit).as_str()),
        );
    }
    add_lines(&mut r, write_last_logs(logs, name, record.generation, nested.as_str(), display));
    assert(r.deep_view() =~= snapshot_lines(
        logs.deep_view(),
        name@,
        record.deep_view(),
        heading@,
        indent@,
        display,
    ));
    r
}

/// The heading of a run before: numbered where there are several.
pub open spec fn run_heading(count: nat, index: nat) -> Seq<char> {
    if count == 1 {
        "previous run"@
    } else {
        "previous run "@ + decimal_spec(index + 1)
    }
}

/// The first runs of a history.
pub open spec fn history_runs(
    logs: Seq<LogTextView>,
    name: Seq<char>,
    history: Seq<RunHistorySummaryView>,
    shown: nat,
    display: Display,
) -> Seq<Seq<char>>
    decreases shown,
{
    if shown == 0 {
        Seq::empty()
    } else {
        history_runs(logs, name, history, (shown - 1) as nat, display) + snapshot_lines(
            logs,
            name,
            history[shown - 1],
            run_heading(history.len(), (shown - 1) as nat),
            "      "@,
            display,
        )
    }
}

/// The runs before.
pub open spec fn history_lines(
    logs: Seq<LogTextView>,
    name: Seq<char>,
    history: Seq<RunHistorySummaryView>,
    display: Display,
) -> Seq<Seq<char>> {
    if history.len() == 0 || display.history_limit == 0 {
        seq!["      previous runs: none"@]
    } else {
        history_runs(
            logs,
            name,
            history,
            if history.len() < display.history_limit {
                history.len()
            } else {
                display.history_limit as nat
            },
            display,
        )
    }
}

/// The runs before.
pub fn write_history_section(
    logs: &Vec<LogText>,
    name: &str,
    history: &Vec<RunHistorySummary>,
    display: Display,
) -> (r: Vec<String>)
    ensures
        r.deep_view() == history_lines(logs.deep_view(), name@, history.deep_view(), display),
{
    if history.len() == 0 || display.history_limit == 0 {
        return one_line("      previous runs: none".to_owned());
    }
    let shown: usize = if history.len() < display.history_limit {
        history.len()
    } else {
        display.history_limit
    };
    let mut r: Vec<String> = no_lines();
    let mut i: usize = 0;
    while i < shown
        invariant
            i <= shown <= history.len(),
            r.deep_view() == history_runs(
                logs.deep_view(),
                name@,
                history.deep_view(),
                i as nat,
                display,
            ),
        decreases shown - i,
    {
        assert(history@[i as int].deep_view() == history.deep_view()[i as int]);
        let heading: String = if history.len() == 1 {
            "previous run".to_owned()
        } else {
            glue("previous run ", decimal(i as u64 + 1).as_str())
        };
        add_lines(
            &mut r,
            write_run_snapshot(logs, name, &history[i], heading.as_str(), "      ", display),
        );
        i = i + 1;
    }
    r
}

/// The first line of a target.
pub open spec fn title(name: Seq<char>, kind: BehaviorKind) -> Seq<char> {
    "  - "@ + name + " ("@ + behavior_text(kind) + ")"@
}

fn write_title(name: &str, kind: BehaviorKind) -> (r: String)
    ensures
        r@ == title(name@, kind),
{
    let mut r: String = glue_three("  - ", name, " (");
    r.append(behavior_label(kind));
    r.append(")");
    r
}

/// A target that runs.
pub open spec fn running_lines(
    logs: Seq<LogTextView>,
    target: RunningTargetSummaryView,
    display: Display,
) -> Seq<Seq<char>> {
    seq![title(target.name, target.kind)] + config_lines(target.config) + control_lines(
        target.control,
    ) + seq![
        "      current run: "@ + generation_text(target.current.generation, true, display.colorize),
    ] + run_state_lines(logs, target.name, target.current, "        "@, display) + history_lines(
        logs,
        target.name,
        target.history,
        display,
    )
}

/// The target that runs.
pub fn write_running_summary(
    logs: &Vec<LogText>,
    target: &RunningTargetSummary,
    display: Display,
) -> (r: Vec<String>)
    ensures
        r.deep_view() == running_lines(logs.deep_view(), target.deep_view(), display),
{
    let mut r: Vec<String> = one_line(write_title(target.name.as_str(), target.kind));
    add_lines(&mut r, write_config_details(&target.config));
    add_lines(&mut r, write_control(&target.control));
    add_line(
        &mut r,
        glue(
            "      current run: ",
            format_generation_heading(target.current.generation, true, display.colorize).as_str(),
        ),
    );
    add_lines(
        &mut r,
        write_run_state(logs, target.name.as_str(), &target.current, "        ", display),
    );
    add_lines(&mut r, write_history_section(logs, target.name.as_str(), &target.history, display));
    assert(r.deep_view() =~= running_lines(logs.deep_view(), target.deep_view(), display));
    r
}

/// A target that ran and does not run.
pub open spec fn stopped_lines(
    logs: Seq<LogTextView>,
    target: StoppedTargetSummaryView,
    display: Display,
) -> Seq<Seq<char>> {
    let last = match target.last {
        Some(last) => snapshot_lines(logs, target.name, last, "last run"@, "      "@, display),
        None => seq!["      last run: none"@],
    };
    seq![title(target.name, target.kind)] + config_lines(target.config) + control_lines(
        target.control,
    ) + last + history_lines(logs, target.name, target.history, display)
}

/// The target that ran and does not run.
pub fn write_stopped_summary(
    logs: &Vec<LogText>,
    target: &StoppedTargetSummary,
    display: Display,
) -> (r: Vec<String>)
    ensures
        r.deep_view() == stopped_lines(logs.deep_view(), target.deep_view(), display),
{
    let mut r: Vec<String> = one_line(write_title(target.name.as_str(), target.kind));
    add_lines(&mut r, write_config_details(&target.config));
    add_lines(&mut r, write_control(&target.control));
    match &target.last {
        Some(last) => {
            add_lines(
                &mut r,
                write_run_snapshot(logs, target.name.as_str(), last, "last run", "      ", display),
            );
        },
        None => {
            add_line(&mut r, "      last run: none".to_owned());
        },
    }
    add_lines(&mut r, write_history_section(logs, target.name.as_str(), &target.history, display));
    assert(r.deep_view() =~= stopped_lines(logs.deep_view(), target.deep_view(), display));
    r
}

// ---------------------------------------------------------------------------
// All targets
// ---------------------------------------------------------------------------

/// The targets that run, one below the other.
pub open spec fn all_running(
    logs: Seq<LogTextView>,
    list: Seq<RunningTargetSummaryView>,
    display: Display,
) -> Seq<Seq<char>>
    decreases list.len(),
{
    if list.len() == 0 {
        Seq::empty()
    } else {
        all_running(logs, list.drop_last(), display) + running_lines(logs, list.last(), display)
    }
}

/// The targets that ran and do not run, one below the other.
pub open spec fn all_stopped(
    logs: Seq<LogTextView>,
    list: Seq<StoppedTargetSummaryView>,
    display: Display,
) -> Seq<Seq<char>>
    decreases list.len(),
{
    if list.len() == 0 {
        Seq::empty()
    } else {
        all_stopped(logs, list.drop_last(), display) + stopped_lines(logs, list.last(), display)
    }
}

/// The targets that could be started, one below the other.
pub open spec fn all_available(list: Seq<AvailableTargetSummaryView>) -> Seq<Seq<char>> {
    list.map_values(|target: AvailableTargetSummaryView| title(target.name, target.kind))
}

/// A section with a heading; it says so where there is nothing in it.
pub open spec fn section(heading: Seq<char>, lines: Seq<Seq<char>>) -> Seq<Seq<char>> {
    seq![heading] + (if lines.len() == 0 {
        seq!["  - none"@]
    } else {
        lines
    })
}

/// What is known of all targets, as lines.
pub open spec fn info_lines(
    logs: Seq<LogTextView>,
    data: InfoResponseView,
    display: Display,
) -> Seq<Seq<char>> {
    let refresh = "Refresh on change: "@ + (if data.refresh_target_on_change_enabled {
        "auto"@
    } else {
        "off"@
    });
    let blank = Seq::<char>::empty();
    seq![refresh, blank] + section("Running targets:"@, all_running(logs, data.running, display))
        + seq![blank] + section("Stopped targets:"@, all_stopped(logs, data.stopped, display))
        + seq![blank] + section("Other available targets:"@, all_available(data.available))
}

fn write_section(heading: &str, lines: Vec<String>) -> (r: Vec<String>)
    ensures
        r.deep_view() == section(heading@, lines.deep_view()),
{
    let mut r: Vec<String> = one_line(heading.to_owned());
    if lines.len() == 0 {
        add_line(&mut r, "  - none".to_owned());
    } else {
        add_lines(&mut r, lines);
    }
    assert(r.deep_view() =~= section(heading@, lines.deep_view()));
    r
}

fn write_running(logs: &Vec<LogText>, list: &Vec<RunningTargetSummary>, display: Display) -> (r: Vec<
    String,
>)
    ensures
        r.deep_view() == all_running(logs.deep_view(), list.deep_view(), display),
{
    let ghost all = list.deep_view();
    let mut r: Vec<String> = no_lines();
    let mut i: usize = 0;
    assert(all.take(0) =~= Seq::empty());
    while i < list.len()
        invariant
            i <= list@.len(),
            all == list.deep_view(),
            r.deep_view() == all_running(logs.deep_view(), all.take(i as int), display),
        decreases list@.len() - i,
    {
        assert(all.take(i + 1).drop_last() =~= all.take(i as int));
        assert(list@[i as int].deep_view() == all[i as int]);
        add_lines(&mut r, write_running_summary(logs, &list[i], display));
        i = i + 1;
    }
    assert(all.take(i as int) =~= all);
    r
}

fn write_stopped(logs: &Vec<LogText>, list: &Vec<StoppedTargetSummary>, display: Display) -> (r: Vec<
    String,
>)
    ensures
        r.deep_view() == all_stopped(logs.deep_view(), list.deep_view(), display),
{
    let ghost all = list.deep_view();
    let mut r: Vec<String> = no_lines();
    let mut i: usize = 0;
    assert(all.take(0) =~= Seq::empty());
    while i < list.len()
        invariant
            i <= list@.len(),
            all == list.deep_view(),
            r.deep_view() == all_stopped(logs.deep_view(), all.take(i as int), display),
        decreases list@.len() - i,
    {
        assert(all.take(i + 1).drop_last() =~= all.take(i as int));
        assert(list@[i as int].deep_view() == all[i as int]);
        add_lines(&mut r, write_stopped_summary(logs, &list[i], display));
        i = i + 1;
    }
    assert(all.take(i as int) =~= all);
    r
}

fn write_available(list: &Vec<AvailableTargetSummary>) -> (r: Vec<String>)
    ensures
        r.deep_view() == all_available(list.deep_view()),
{
    let mut r: Vec<String> = Vec::new();
    let mut i: usize = 0;
    while i < list.len()
        invariant
            i <= list@.len(),
            r@.len() == i,
            forall|k: int|
                0 <= k < i ==> (#[trigger] r@[k])@ == all_available(list.deep_view())[k],
        decreases list@.len() - i,
    {
        assert(list@[i as int].deep_view() == list.deep_view()[i as int]);
        r.push(write_title(list[i].name.as_str(), list[i].kind));
        i = i + 1;
    }
    assert(r.deep_view() =~= all_available(list.deep_view()));
    r
}

/// What is known of all targets, as lines.
pub fn write_info_response(logs: &Vec<LogText>, data: &InfoResponse, display: Display) -> (r: Vec<
    String,
>)
    ensures
        r.deep_view() == info_lines(logs.deep_view(), data.deep_view(), display),
{
    let refresh: &str = if data.refresh_target_on_change_enabled {
        "auto"
    } else {
        "off"
    };
    let blank: String = String::new();
    assert(blank@ =~= Seq::empty());
    let mut r: Vec<String> = one_line(glue("Refresh on change: ", refresh));
    add_line(&mut r, blank.clone());
    add_lines(
        &mut r,
        write_section("Running targets:", write_running(logs, &data.running, display)),
    );
    add_line(&mut r, blank.clone());
    add_lines(
        &mut r,
        write_section("Stopped targets:", write_stopped(logs, &data.stopped, display)),
    );
    add_line(&mut r, blank);
    add_lines(&mut r, write_section("Other available targets:", write_available(&data.available)));
    assert(r.deep_view() =~= info_lines(logs.deep_view(), data.deep_view(), display));
    r
}

/// Lines as a text: each ends with a line feed.
pub open spec fn text_of_lines(lines: Seq<Seq<char>>) -> Seq<char>
    decreases lines.len(),
{
    if lines.len() == 0 {
        Seq::empty()
    } else {
        text_of_lines(lines.drop_last()) + lines.last() + "\n"@
    }
}

/// What is known of all targets, as a text.
pub fn format_info_response(logs: &Vec<LogText>, data: &InfoResponse, display: Display) -> (r:
    String)
    ensures
        r@ == text_of_lines(info_lines(logs.deep_view(), data.deep_view(), display)),
{
    let lines: Vec<String> = write_info_response(logs, data, display);
    let ghost list = lines.deep_view();
    let mut r: String = String::new();
    let mut i: usize = 0;
    assert(list.take(0) =~= Seq::empty());
    assert(r@ =~= Seq::empty());
    while i < lines.len()
        invariant
            i <= lines@.len(),
            list == lines.deep_view(),
            r@ == text_of_lines(list.take(i as int)),
        decreases lines@.len() - i,
    {
        assert(list.take(i + 1).drop_last() =~= list.take(i as int));
        assert(lines@[i as int]@ == list[i as int]);
        r.append(lines[i].as_str());
        r.append("\n");
        i = i + 1;
    }
    assert(list.take(i as int) =~= list);
    r
}

// ---------------------------------------------------------------------------
// Logs to read
// ---------------------------------------------------------------------------

/// The logs of the first runs of a history.
pub open spec fn history_sources(
    name: Seq<char>,
    history: Seq<RunHistorySummaryView>,
    limit: nat,
) -> Seq<LogSourceView> {
    Seq::new(
        if history.len() < limit {
            history.len()
        } else {
            limit
        },
        |i: int| LogSourceView { target: name, generation: history[i].generation },
    )
}

fn add_history_sources(
    r: &mut Vec<LogSource>,
    name: &str,
    history: &Vec<RunHistorySummary>,
    limit: usize,
)
    ensures
        final(r).deep_view() == old(r).deep_view() + history_sources(
            name@,
            history.deep_view(),
            limit as nat,
        ),
{
    let ghost first = r.deep_view();
    let ghost all = history_sources(name@, history.deep_view(), limit as nat);
    let mut i: usize = 0;
    assert(first + all.take(0) =~= first);
    while i < history.len() && i < limit
        invariant
            i <= history@.len(),
            i <= limit,
            all == history_sources(name@, history.deep_view(), limit as nat),
            r.deep_view() == first + all.take(i as int),
        decreases history@.len() - i,
    {
        let ghost before = r.deep_view();
        assert(history@[i as int].deep_view() == history.deep_view()[i as int]);
        r.push(LogSource::new(name, history[i].generation));
        assert(r.deep_view() =~= before.push(all[i as int]));
        assert(first + all.take(i + 1) =~= (first + all.take(i as int)).push(all[i as int]));
        i = i + 1;
    }
    assert(all.take(i as int) =~= all);
}

/// The logs that are read to show the targets that run.
pub open spec fn running_sources(list: Seq<RunningTargetSummaryView>, limit: nat) -> Seq<
    LogSourceView,
>
    decreases list.len(),
{
    if list.len() == 0 {
        Seq::empty()
    } else {
        let target = list.last();
        running_sources(list.drop_last(), limit).push(
            LogSourceView { target: target.name, generation: target.current.generation },
        ) + history_sources(target.name, target.history, limit)
    }
}

/// The log of the last run of a target that does not run.
pub open spec fn last_source(target: StoppedTargetSummaryView) -> Seq<LogSourceView> {
    match target.last {
        Some(last) => seq![LogSourceView { target: target.name, generation: last.generation }],
        None => Seq::empty(),
    }
}

/// The logs that are read to show the targets that ran and do not run.
pub open spec fn stopped_sources(list: Seq<StoppedTargetSummaryView>, limit: nat) -> Seq<
    LogSourceView,
>
    decreases list.len(),
{
    if list.len() == 0 {
        Seq::empty()
    } else {
        let target = list.last();
        stopped_sources(list.drop_last(), limit) + last_source(target) + history_sources(
            target.name,
            target.history,
            limit,
        )
    }
}

/// The logs that are to be read before targets are shown; none where no log lines are shown.
pub fn logs_to_read(data: &InfoResponse, display: Display) -> (r: Vec<LogSource>)
    ensures
        r.deep_view() == (if display.log_lines == 0 {
            Seq::empty()
        } else {
            running_sources(data.deep_view().running, display.history_limit as nat)
                + stopped_sources(data.deep_view().stopped, display.history_limit as nat)
        }),
{
    let mut r: Vec<LogSource> = Vec::new();
    assert(r.deep_view() =~= Seq::empty());
    if display.log_lines == 0 {
        return r;
    }
    let limit: usize = display.history_limit;
    let ghost running = data.running.deep_view();
    let mut i: usize = 0;
    assert(running.take(0) =~= Seq::empty());
    while i < data.running.len()
        invariant
            i <= data.running@.len(),
            running == data.running.deep_view(),
            r.deep_view() == running_sources(running.take(i as int), limit as nat),
        decreases data.running@.len() - i,
    {
        assert(running.take(i + 1).drop_last() =~= running.take(i as int));
        let target = &data.running[i];
        assert(target.deep_view() == running[i as int]);
        let ghost before = r.deep_view();
        let source = LogSource::new(target.name.as_str(), target.current.generation);
        r.push(source);
        assert(r.deep_view() =~= before.push(source.deep_view()));
        add_history_sources(&mut r, target.name.as_str(), &target.history, limit);
        i = i + 1;
    }
    assert(running.take(i as int) =~= running);
    let ghost first = r.deep_view();
    let ghost stopped = data.stopped.deep_view();
    let mut j: usize = 0;
    assert(stopped.take(0) =~= Seq::empty());
    assert(first + stopped_sources(stopped.take(0), limit as nat) =~= first);
    while j < data.stopped.len()
        invariant
            j <= data.stopped@.len(),
            stopped == data.stopped.deep_view(),
            r.deep_view() == first + stopped_sources(stopped.take(j as int), limit as nat),
        decreases data.stopped@.len() - j,
    {
        assert(stopped.take(j + 1).drop_last() =~= stopped.take(j as int));
        let target = &data.stopped[j];
        assert(target.deep_view() == stopped[j as int]);
        let ghost before = r.deep_view();
        if let Some(last) = &target.last {
            let source = LogSource::new(target.name.as_str(), last.generation);
            r.push(source);
            assert(r.deep_view() =~= before.push(source.deep_view()));
        }
        assert(r.deep_view() =~= before + last_source(stopped[j as int]));
        add_history_sources(&mut r, target.name.as_str(), &target.history, limit);
        assert(r.deep_view() =~= first + stopped_sources(stopped.take(j + 1), limit as nat));
        j = j + 1;
    }
    assert(stopped.take(j as int) =~= stopped);
    r
}

// ---------------------------------------------------------------------------
// Laws
// ---------------------------------------------------------------------------

/// Whether the same was read of some logs.
pub open spec fn agree(
    a: Seq<LogTextView>,
    b: Seq<LogTextView>,
    sources: Seq<LogSourceView>,
) -> bool {
    forall|i: int|
        0 <= i < sources.len() ==> contents_of(
            a,
            (#[trigger] sources[i]).target,
            sources[i].generation,
        ) == contents_of(b, sources[i].target, sources[i].generation)
}

proof fn lemma_agree_parts(
    a: Seq<LogTextView>,
    b: Seq<LogTextView>,
    x: Seq<LogSourceView>,
    y: Seq<LogSourceView>,
)
    requires
        agree(a, b, x + y),
    ensures
        agree(a, b, x),
        agree(a, b, y),
{
    assert forall|i: int| 0 <= i < x.len() implies contents_of(
        a,
        (#[trigger] x[i]).target,
        x[i].generation,
    ) == contents_of(b, x[i].target, x[i].generation) by {
        assert((x + y)[i] == x[i]);
    }
    assert forall|i: int| 0 <= i < y.len() implies contents_of(
        a,
        (#[trigger] y[i]).target,
        y[i].generation,
    ) == contents_of(b, y[i].target, y[i].generation) by {
        assert((x + y)[x.len() + i] == y[i]);
    }
}

proof fn lemma_history_agrees(
    a: Seq<LogTextView>,
    b: Seq<LogTextView>,
    name: Seq<char>,
    history: Seq<RunHistorySummaryView>,
    shown: nat,
    display: Display,
)
    requires
        shown <= history.len(),
        shown <= display.history_limit,
        display.log_lines > 0 ==> agree(
            a,
            b,
            history_sources(name, history, display.history_limit as nat),
        ),
    ensures
        history_runs(a, name, history, shown, display) == history_runs(
            b,
            name,
            history,
            shown,
            display,
        ),
    decreases shown,
{
    if shown > 0 {
        lemma_history_agrees(a, b, name, history, (shown - 1) as nat, display);
        if display.log_lines > 0 {
            let sources = history_sources(name, history, display.history_limit as nat);
            assert(sources[shown - 1].generation == history[shown - 1].generation);
        }
    }
}

proof fn lemma_history_lines_agree(
    a: Seq<LogTextView>,
    b: Seq<LogTextView>,
    name: Seq<char>,
    history: Seq<RunHistorySummaryView>,
    display: Display,
)
    requires
        display.log_lines > 0 ==> agree(
            a,
            b,
            history_sources(name, history, display.history_limit as nat),
        ),
    ensures
        history_lines(a, name, history, display) == history_lines(b, name, history, display),
{
    let shown: nat = if history.len() < display.history_limit {
        history.len()
    } else {
        display.history_limit as nat
    };
    lemma_history_agrees(a, b, name, history, shown, display);
}

proof fn lemma_running_agree(
    a: Seq<LogTextView>,
    b: Seq<LogTextView>,
    list: Seq<RunningTargetSummaryView>,
    display: Display,
)
    requires
        display.log_lines > 0 ==> agree(
            a,
            b,
            running_sources(list, display.history_limit as nat),
        ),
    ensures
        all_running(a, list, display) == all_running(b, list, display),
    decreases list.len(),
{
    if list.len() > 0 {
        let limit = display.history_limit as nat;
        let target = list.last();
        let front = running_sources(list.drop_last(), limit);
        let current = LogSourceView { target: target.name, generation: target.current.generation };
        let history = history_sources(target.name, target.history, limit);
        if display.log_lines > 0 {
            assert(running_sources(list, limit) =~= front.push(current) + history);
            lemma_agree_parts(a, b, front.push(current), history);
            assert(front.push(current) =~= front + seq![current]);
            lemma_agree_parts(a, b, front, seq![current]);
            assert(seq![current][0] == current);
        }
        lemma_running_agree(a, b, list.drop_last(), display);
        lemma_history_lines_agree(a, b, target.name, target.history, display);
    }
}

proof fn lemma_stopped_agree(
    a: Seq<LogTextView>,
    b: Seq<LogTextView>,
    list: Seq<StoppedTargetSummaryView>,
    display: Display,
)
    requires
        display.log_lines > 0 ==> agree(
            a,
            b,
            stopped_sources(list, display.history_limit as nat),
        ),
    ensures
        all_stopped(a, list, display) == all_stopped(b, list, display),
    decreases list.len(),
{
    if list.len() > 0 {
        let limit = display.history_limit as nat;
        let target = list.last();
        let front = stopped_sources(list.drop_last(), limit);
        let last = last_source(target);
        let history = history_sources(target.name, target.history, limit);
        if display.log_lines > 0 {
            lemma_agree_parts(a, b, front + last, history);
            lemma_agree_parts(a, b, front, last);
            if target.last is Some {
                assert(last[0].generation == target.last->0.generation);
            }
        }
        lemma_stopped_agree(a, b, list.drop_last(), display);
        lemma_history_lines_agree(a, b, target.name, target.history, display);
    }
}

/// What is shown of targets depends on no other logs than those that are asked to be read.
pub proof fn only_the_logs_that_are_read_matter(
    a: Seq<LogTextView>,
    b: Seq<LogTextView>,
    data: InfoResponseView,
    display: Display,
)
    requires
        display.log_lines > 0 ==> agree(
            a,
            b,
            running_sources(data.running, display.history_limit as nat) + stopped_sources(
                data.stopped,
                display.history_limit as nat,
            ),
        ),
    ensures
        info_lines(a, data, display) == info_lines(b, data, display),
{
    let limit = display.history_limit as nat;
    if display.log_lines > 0 {
        lemma_agree_parts(
            a,
            b,
            running_sources(data.running, limit),
            stopped_sources(data.stopped, limit),
        );
    }
    lemma_running_agree(a, b, data.running, display);
    lemma_stopped_agree(a, b, data.stopped, display);
}

} // verus!
