//! What clients are told of targets.

use vstd::prelude::*;

use crate::config::model::{
    Config, ConfigView, PortDefinition, PortDefinitionView, PortProtocol, Target, TargetBehavior,
    TargetView, UnitTarget, UnitTargetView, WatchPreference,
};
use crate::ipc::protocol::{
    AvailableTargetSummary, AvailableTargetSummaryView, BehaviorKind, ControlStateSummary,
    ControlStateSummaryView, ExitDetails, ExitDetailsView, InfoResponse, InfoResponseView,
    PortSummary, PortSummaryView, RunHistorySummary, RunHistorySummaryView, RunningTargetSummary,
    RunningTargetSummaryView, StoppedTargetSummary, StoppedTargetSummaryView, TargetConfigSummary,
    TargetConfigSummaryView, TargetGenerationSummary, TargetGenerationSummaryView, TargetRunState,
    TargetRunStateView, WatchPreferenceKind,
};
use crate::names::{
    in_order, lemma_lookup_at, lemma_lookup_found, lemma_ordered_drop_last, lookup, ordered, NameMap,
    NameSet,
};
use crate::numbers::{decimal, decimal_spec};
use crate::runner::control::TargetControlView;
use crate::runner::supervisor::{control_info_of, Runner, RunnerView};
use crate::state::{
    ExitStatus, ExitStatusView, RunRecord, RunRecordView, TargetState, TargetStateView,
};
use crate::text::{
    contains, lemma_precedes_irreflexive, lowercase, occurs_in, precedes_spec, same,
    to_ascii_lowercase, to_ascii_uppercase, uppercase,
};
use crate::time::rfc3339_text;
use crate::views::Duplicate;

verus! {

// ---------------------------------------------------------------------------
// Parts of a summary
// ---------------------------------------------------------------------------

/// The name of a protocol.
pub open spec fn protocol_name(protocol: PortProtocol) -> Seq<char> {
    match protocol {
        PortProtocol::Http => "http"@,
        PortProtocol::Tcp => "tcp"@,
        PortProtocol::Ftp => "ftp"@,
    }
}

/// The name of the protocol.
pub fn protocol_label(protocol: PortProtocol) -> (r: String)
    ensures
        r@ == protocol_name(protocol),
{
    match protocol {
        PortProtocol::Http => "http".to_owned(),
        PortProtocol::Tcp => "tcp".to_owned(),
        PortProtocol::Ftp => "ftp".to_owned(),
    }
}

/// What is told of one port.
pub open spec fn port_summary(
    defined: Seq<(Seq<char>, PortDefinitionView)>,
    name: Seq<char>,
    port: u16,
) -> PortSummaryView {
    let definition = lookup(defined, name);
    PortSummaryView {
        name,
        port,
        protocol: match definition {
            Some(definition) => Some(protocol_name(definition.protocol)),
            None => None,
        },
        is_debug: occurs_in(lowercase(name), "debug"@),
        url: if definition is Some && definition->0.protocol == PortProtocol::Http {
            Some("http://127.0.0.1:"@ + decimal_spec(port as nat))
        } else {
            None
        },
    }
}

/// What is told of the ports of a target, in name order.
pub open spec fn port_summaries(
    defined: Seq<(Seq<char>, PortDefinitionView)>,
    ports: Seq<(Seq<char>, u16)>,
) -> Seq<PortSummaryView> {
    Seq::new(ports.len(), |i: int| port_summary(defined, ports[i].0, ports[i].1))
}

fn one_port_summary(defined: &NameMap<PortDefinition>, name: &str, port: u16) -> (r: PortSummary)
    ensures
        r.deep_view() == port_summary(defined.deep_view(), name@, port),
{
    let mut protocol: Option<String> = None;
    let mut url: Option<String> = None;
    if let Some(definition) = defined.get(name) {
        protocol = Some(protocol_label(definition.protocol));
        if definition.protocol == PortProtocol::Http {
            let mut text: String = "http://127.0.0.1:".to_owned();
            text.append(decimal(port as u64).as_str());
            url = Some(text);
        }
    }
    PortSummary {
        name: name.to_owned(),
        port,
        protocol,
        is_debug: contains(to_ascii_lowercase(name).as_str(), "debug"),
        url,
    }
}

/// What is told of the ports of a unit, in name order.
pub fn build_port_summaries(unit: &UnitTarget, ports: &NameMap<u16>) -> (r: Vec<PortSummary>)
    ensures
        r.deep_view() == port_summaries(unit.deep_view().ports, ports.deep_view()),
{
    let mut r: Vec<PortSummary> = Vec::new();
    let mut i: usize = 0;
    while i < ports.len()
        invariant
            i <= ports.deep_view().len(),
            r@.len() == i,
            forall|k: int|
                0 <= k < i ==> (#[trigger] r@[k]).deep_view() == port_summaries(
                    unit.deep_view().ports,
                    ports.deep_view(),
                )[k],
        decreases ports.deep_view().len() - i,
    {
        r.push(one_port_summary(&unit.ports, ports.name_at(i).as_str(), *ports.value_at(i)));
        i = i + 1;
    }
    assert(r.deep_view() =~= port_summaries(unit.deep_view().ports, ports.deep_view()));
    r
}

/// Who restarts a service, as clients are told it.
pub open spec fn preference_kind(preference: WatchPreference) -> WatchPreferenceKind {
    match preference {
        WatchPreference::Rufa => WatchPreferenceKind::Rufa,
        WatchPreference::PreferRuntimeSupplied => WatchPreferenceKind::Runtime,
    }
}

/// Who restarts the service, as clients are told it.
pub fn watch_preference_kind(preference: WatchPreference) -> (r: WatchPreferenceKind)
    ensures
        r == preference_kind(preference),
{
    match preference {
        WatchPreference::Rufa => WatchPreferenceKind::Rufa,
        WatchPreference::PreferRuntimeSupplied => WatchPreferenceKind::Runtime,
    }
}

/// Whether a target keeps running or runs once.
pub open spec fn behavior_kind(behavior: TargetBehavior) -> BehaviorKind {
    match behavior {
        TargetBehavior::Service => BehaviorKind::Service,
        TargetBehavior::Job { .. } => BehaviorKind::Job,
    }
}

fn kind_of(behavior: &TargetBehavior) -> (r: BehaviorKind)
    ensures
        r == behavior_kind(*behavior),
{
    match behavior {
        TargetBehavior::Service => BehaviorKind::Service,
        TargetBehavior::Job { .. } => BehaviorKind::Job,
    }
}

/// How a run ended, as clients are told it.
pub open spec fn exit_details(exit: ExitStatusView) -> ExitDetailsView {
    ExitDetailsView {
        code: exit.code,
        signal: exit.signal,
        at: Some(rfc3339_text(exit.when.secs, exit.when.nanos)),
    }
}

/// How a run ended, where it did.
pub open spec fn exit_told(exit: Option<ExitStatusView>) -> Option<ExitDetailsView> {
    match exit {
        Some(exit) => Some(exit_details(exit)),
        None => None,
    }
}

/// How a run ended, as clients are told it.
pub fn exit_details_from_state(exit: &ExitStatus) -> (r: ExitDetails)
    ensures
        r.deep_view() == exit_details(exit.deep_view()),
{
    ExitDetails { code: exit.code, signal: exit.signal, at: Some(exit.when.rfc3339()) }
}

fn exit_to_tell(exit: &Option<ExitStatus>) -> (r: Option<ExitDetails>)
    ensures
        r.deep_view() == exit_told(exit.deep_view()),
{
    match exit {
        Some(exit) => Some(exit_details_from_state(exit)),
        None => None,
    }
}

/// A run that ended, as clients are told it.
pub open spec fn run_told(record: RunRecordView) -> RunHistorySummaryView {
    RunHistorySummaryView {
        generation: record.generation,
        last_log: record.last_log_line,
        exit: exit_told(record.exit),
    }
}

/// The run as clients are told it.
pub fn run_history_summary(record: &RunRecord) -> (r: RunHistorySummary)
    ensures
        r.deep_view() == run_told(record.deep_view()),
{
    RunHistorySummary {
        generation: record.generation,
        last_log: record.last_log_line.duplicate(),
        exit: exit_to_tell(&record.exit),
    }
}

/// The runs before, as clients are told them.
pub open spec fn history_told(history: Seq<RunRecordView>) -> Seq<RunHistorySummaryView> {
    history.map_values(|record: RunRecordView| run_told(record))
}

fn history_to_tell(history: &Vec<RunRecord>) -> (r: Vec<RunHistorySummary>)
    ensures
        r.deep_view() == history_told(history.deep_view()),
{
    let mut r: Vec<RunHistorySummary> = Vec::new();
    let mut i: usize = 0;
    while i < history.len()
        invariant
            i <= history@.len(),
            r@.len() == i,
            forall|k: int|
                0 <= k < i ==> (#[trigger] r@[k]).deep_view() == history_told(
                    history.deep_view(),
                )[k],
        decreases history@.len() - i,
    {
        assert(history@[i as int].deep_view() == history.deep_view()[i as int]);
        r.push(run_history_summary(&history[i]));
        i = i + 1;
    }
    assert(r.deep_view() =~= history_told(history.deep_view()));
    r
}

/// What is planned for a target, as clients are told it.
pub open spec fn control_told(
    controls: Seq<(Seq<char>, TargetControlView)>,
    name: Seq<char>,
) -> Option<ControlStateSummaryView> {
    match control_info_of(controls, name) {
        Some(info) => Some(
            ControlStateSummaryView {
                desired_state: info.desired_state,
                action_plan: info.action_plan,
            },
        ),
        None => None,
    }
}

fn control_to_tell(runner: &Runner, name: &str) -> (r: Option<ControlStateSummary>)
    ensures
        r.deep_view() == control_told(runner.deep_view().controls, name@),
{
    match runner.control_info(name) {
        Some(info) => Some(
            ControlStateSummary { desired_state: info.desired_state, action_plan: info.action_plan },
        ),
        None => None,
    }
}

/// How a unit is configured, as clients are told it.
pub open spec fn config_told(unit: UnitTargetView) -> TargetConfigSummaryView {
    TargetConfigSummaryView {
        driver: unit.driver_type,
        refresh_watch_type: preference_kind(unit.refresh_watch_type),
        watch_paths: unit.watch_paths,
    }
}

fn config_to_tell(unit: &UnitTarget) -> (r: TargetConfigSummary)
    ensures
        r.deep_view() == config_told(unit.deep_view()),
{
    TargetConfigSummary {
        driver: unit.driver_type.clone(),
        refresh_watch_type: watch_preference_kind(unit.refresh_watch_type),
        watch_paths: unit.watch_paths.duplicate(),
    }
}

// ---------------------------------------------------------------------------
// Lists of summaries
// ---------------------------------------------------------------------------

/// Whether a question is about a target: it names the target, in upper or lower case, or none.
pub open spec fn asked_about(filter: Seq<Seq<char>>, name: Seq<char>) -> bool {
    filter.len() == 0 || exists|i: int|
        0 <= i < filter.len() && uppercase(#[trigger] filter[i]) == uppercase(name)
}

fn is_asked_about(filter: &Vec<String>, name: &str) -> (r: bool)
    ensures
        r == asked_about(filter.deep_view(), name@),
{
    if filter.len() == 0 {
        return true;
    }
    let ghost list = filter.deep_view();
    let wanted: String = to_ascii_uppercase(name);
    let mut i: usize = 0;
    while i < filter.len()
        invariant
            i <= filter@.len(),
            list == filter.deep_view(),
            wanted@ == uppercase(name@),
            forall|k: int| 0 <= k < i ==> uppercase(#[trigger] list[k]) != uppercase(name@),
        decreases filter@.len() - i,
    {
        assert(filter@[i as int]@ == list[i as int]);
        if same(to_ascii_uppercase(filter[i].as_str()).as_str(), wanted.as_str()) {
            assert(uppercase(list[i as int]) == uppercase(name@));
            return true;
        }
        i = i + 1;
    }
    false
}

/// What is told of a target that runs.
pub open spec fn running_summary(
    name: Seq<char>,
    state: TargetStateView,
    unit: UnitTargetView,
    controls: Seq<(Seq<char>, TargetControlView)>,
) -> RunningTargetSummaryView {
    RunningTargetSummaryView {
        name,
        kind: behavior_kind(unit.behavior),
        config: config_told(unit),
        current: TargetRunStateView {
            generation: state.generation,
            pid: state.pid,
            ports: port_summaries(unit.ports, state.ports),
            refresh_pending: state.change_noticed_restart_necessary,
            last_log: state.last_log_line,
            last_exit: exit_told(state.last_exit),
        },
        history: history_told(state.history),
        control: control_told(controls, name),
    }
}

/// What is told of a target that ran and does not run.
pub open spec fn stopped_summary(
    name: Seq<char>,
    state: TargetStateView,
    unit: UnitTargetView,
    controls: Seq<(Seq<char>, TargetControlView)>,
) -> StoppedTargetSummaryView {
    StoppedTargetSummaryView {
        name,
        kind: behavior_kind(unit.behavior),
        config: config_told(unit),
        last: Some(
            RunHistorySummaryView {
                generation: state.generation,
                last_log: state.last_log_line,
                exit: exit_told(state.last_exit),
            },
        ),
        history: history_told(state.history),
        control: control_told(controls, name),
    }
}

/// The unit of a name, where there is one.
pub open spec fn unit_named(targets: Seq<(Seq<char>, TargetView)>, name: Seq<char>) -> Option<
    UnitTargetView,
> {
    match lookup(targets, name) {
        Some(TargetView::Unit(unit)) => Some(unit),
        _ => None,
    }
}

/// What is told of the targets that run, in name order.
pub open spec fn running_told(
    states: Seq<(Seq<char>, TargetStateView)>,
    targets: Seq<(Seq<char>, TargetView)>,
    filter: Seq<Seq<char>>,
    controls: Seq<(Seq<char>, TargetControlView)>,
) -> Seq<RunningTargetSummaryView>
    decreases states.len(),
{
    if states.len() == 0 {
        Seq::empty()
    } else {
        let front = running_told(states.drop_last(), targets, filter, controls);
        let (name, state) = states.last();
        let unit = unit_named(targets, name);
        if state.pid is Some && asked_about(filter, name) && unit is Some {
            front.push(running_summary(name, state, unit->0, controls))
        } else {
            front
        }
    }
}

/// What is told of the targets that ran and do not run, in name order, leaving some names out.
pub open spec fn stopped_told(
    states: Seq<(Seq<char>, TargetStateView)>,
    targets: Seq<(Seq<char>, TargetView)>,
    filter: Seq<Seq<char>>,
    exclude: Set<Seq<char>>,
    controls: Seq<(Seq<char>, TargetControlView)>,
) -> Seq<StoppedTargetSummaryView>
    decreases states.len(),
{
    if states.len() == 0 {
        Seq::empty()
    } else {
        let front = stopped_told(states.drop_last(), targets, filter, exclude, controls);
        let (name, state) = states.last();
        let unit = unit_named(targets, name);
        if state.pid is None && state.generation != 0 && !exclude.contains(name) && asked_about(
            filter,
            name,
        ) && unit is Some {
            front.push(stopped_summary(name, state, unit->0, controls))
        } else {
            front
        }
    }
}

/// What is told of the other units, in name order, leaving some names out.
pub open spec fn available_told(
    targets: Seq<(Seq<char>, TargetView)>,
    filter: Seq<Seq<char>>,
    exclude: Set<Seq<char>>,
) -> Seq<AvailableTargetSummaryView>
    decreases targets.len(),
{
    if targets.len() == 0 {
        Seq::empty()
    } else {
        let front = available_told(targets.drop_last(), filter, exclude);
        let (name, target) = targets.last();
        match target {
            TargetView::Unit(unit) => if !exclude.contains(name) && asked_about(filter, name) {
                front.push(
                    AvailableTargetSummaryView { name, kind: behavior_kind(unit.behavior) },
                )
            } else {
                front
            },
            TargetView::Composite(_) => front,
        }
    }
}

fn unit_of<'a>(targets: &'a NameMap<Target>, name: &str) -> (r: Option<&'a UnitTarget>)
    ensures
        r.deep_view() == unit_named(targets.deep_view(), name@),
{
    match targets.get(name) {
        Some(Target::Unit(unit)) => Some(unit),
        _ => None,
    }
}

/// What is told of the targets that run, in name order.
pub fn gather_running_targets(runner: &Runner, config: &Config, filter: &Vec<String>) -> (r: Vec<
    RunningTargetSummary,
>)
    ensures
        r.deep_view() == running_told(
            runner.deep_view().state.targets,
            config.deep_view().targets,
            filter.deep_view(),
            runner.deep_view().controls,
        ),
{
    let states = &runner.state.targets;
    let ghost list = states.deep_view();
    let ghost targets = config.targets.deep_view();
    let ghost names = filter.deep_view();
    let ghost controls = runner.controls.deep_view();
    let mut r: Vec<RunningTargetSummary> = Vec::new();
    let mut i: usize = 0;
    assert(list.take(0) =~= Seq::empty());
    assert(r.deep_view() =~= Seq::empty());
    while i < states.len()
        invariant
            i <= list.len(),
            list == states.deep_view(),
            targets == config.targets.deep_view(),
            names == filter.deep_view(),
            controls == runner.deep_view().controls,
            r.deep_view() == running_told(list.take(i as int), targets, names, controls),
        decreases list.len() - i,
    {
        assert(list.take(i + 1).drop_last() =~= list.take(i as int));
        let name: &String = states.name_at(i);
        let state: &TargetState = states.value_at(i);
        if state.pid.is_some() && is_asked_about(filter, name.as_str()) {
            if let Some(unit) = unit_of(&config.targets, name.as_str()) {
                let summary = RunningTargetSummary {
                    name: name.clone(),
                    kind: kind_of(&unit.behavior),
                    config: config_to_tell(unit),
                    current: TargetRunState {
                        generation: state.generation,
                        pid: state.pid,
                        ports: build_port_summaries(unit, &state.ports),
                        refresh_pending: state.change_noticed_restart_necessary,
                        last_log: state.last_log_line.duplicate(),
                        last_exit: exit_to_tell(&state.last_exit),
                    },
                    history: history_to_tell(&state.history),
                    control: control_to_tell(runner, name.as_str()),
                };
                let ghost before = r.deep_view();
                r.push(summary);
                assert(r.deep_view() =~= before.push(summary.deep_view()));
            }
        }
        i = i + 1;
    }
    assert(list.take(i as int) =~= list);
    r
}

/// What is told of the targets that ran and do not run, in name order, leaving some names out.
pub fn gather_stopped_targets(
    runner: &Runner,
    config: &Config,
    filter: &Vec<String>,
    exclude: &NameSet,
) -> (r: Vec<StoppedTargetSummary>)
    ensures
        r.deep_view() == stopped_told(
            runner.deep_view().state.targets,
            config.deep_view().targets,
            filter.deep_view(),
            exclude@,
            runner.deep_view().controls,
        ),
{
    let states = &runner.state.targets;
    let ghost list = states.deep_view();
    let ghost targets = config.targets.deep_view();
    let ghost names = filter.deep_view();
    let ghost controls = runner.controls.deep_view();
    let mut r: Vec<StoppedTargetSummary> = Vec::new();
    let mut i: usize = 0;
    assert(list.take(0) =~= Seq::empty());
    assert(r.deep_view() =~= Seq::empty());
    while i < states.len()
        invariant
            i <= list.len(),
            list == states.deep_view(),
            targets == config.targets.deep_view(),
            names == filter.deep_view(),
            controls == runner.deep_view().controls,
            r.deep_view() == stopped_told(list.take(i as int), targets, names, exclude@, controls),
        decreases list.len() - i,
    {
        assert(list.take(i + 1).drop_last() =~= list.take(i as int));
        let name: &String = states.name_at(i);
        let state: &TargetState = states.value_at(i);
        if state.pid.is_none() && state.generation != 0 && !exclude.contains(name.as_str())
            && is_asked_about(filter, name.as_str()) {
            if let Some(unit) = unit_of(&config.targets, name.as_str()) {
                let summary = StoppedTargetSummary {
                    name: name.clone(),
                    kind: kind_of(&unit.behavior),
                    config: config_to_tell(unit),
                    last: Some(
                        RunHistorySummary {
                            generation: state.generation,
                            last_log: state.last_log_line.duplicate(),
                            exit: exit_to_tell(&state.last_exit),
                        },
                    ),
                    history: history_to_tell(&state.history),
                    control: control_to_tell(runner, name.as_str()),
                };
                let ghost before = r.deep_view();
                r.push(summary);
                assert(r.deep_view() =~= before.push(summary.deep_view()));
            }
        }
        i = i + 1;
    }
    assert(list.take(i as int) =~= list);
    r
}

/// What is told of the other units, in name order, leaving some names out.
pub fn gather_available_targets(config: &Config, filter: &Vec<String>, exclude: &NameSet) -> (r: Vec<
    AvailableTargetSummary,
>)
    ensures
        r.deep_view() == available_told(
            config.deep_view().targets,
            filter.deep_view(),
            exclude@,
        ),
{
    let ghost list = config.targets.deep_view();
    let ghost names = filter.deep_view();
    let mut r: Vec<AvailableTargetSummary> = Vec::new();
    let mut i: usize = 0;
    assert(list.take(0) =~= Seq::empty());
    assert(r.deep_view() =~= Seq::empty());
    while i < config.targets.len()
        invariant
            i <= list.len(),
            list == config.targets.deep_view(),
            names == filter.deep_view(),
            r.deep_view() == available_told(list.take(i as int), names, exclude@),
        decreases list.len() - i,
    {
        assert(list.take(i + 1).drop_last() =~= list.take(i as int));
        let name: &String = config.targets.name_at(i);
        if let Target::Unit(unit) = config.targets.value_at(i) {
            if !exclude.contains(name.as_str()) && is_asked_about(filter, name.as_str()) {
                let summary = AvailableTargetSummary {
                    name: name.clone(),
                    kind: kind_of(&unit.behavior),
                };
                let ghost before = r.deep_view();
                r.push(summary);
                assert(r.deep_view() =~= before.push(summary.deep_view()));
            }
        }
        i = i + 1;
    }
    assert(list.take(i as int) =~= list);
    r
}

// ---------------------------------------------------------------------------
// The whole answer
// ---------------------------------------------------------------------------

/// The names of targets that run.
pub open spec fn running_names(list: Seq<RunningTargetSummaryView>) -> Set<Seq<char>>
    decreases list.len(),
{
    if list.len() == 0 {
        Set::empty()
    } else {
        running_names(list.drop_last()).insert(list.last().name)
    }
}

/// The names of targets that do not run, besides others.
pub open spec fn with_stopped_names(
    names: Set<Seq<char>>,
    list: Seq<StoppedTargetSummaryView>,
) -> Set<Seq<char>>
    decreases list.len(),
{
    if list.len() == 0 {
        names
    } else {
        with_stopped_names(names, list.drop_last()).insert(list.last().name)
    }
}

fn names_running(list: &Vec<RunningTargetSummary>) -> (r: NameSet)
    ensures
        r@ == running_names(list.deep_view()),
{
    let ghost all = list.deep_view();
    let mut r: NameSet = NameSet::new();
    let mut i: usize = 0;
    assert(all.take(0) =~= Seq::empty());
    while i < list.len()
        invariant
            i <= list@.len(),
            all == list.deep_view(),
            r@ == running_names(all.take(i as int)),
        decreases list@.len() - i,
    {
        assert(all.take(i + 1).drop_last() =~= all.take(i as int));
        assert(list@[i as int].deep_view() == all[i as int]);
        let _ = r.insert(list[i].name.clone());
        i = i + 1;
    }
    assert(all.take(i as int) =~= all);
    r
}

fn add_names_stopped(names: NameSet, list: &Vec<StoppedTargetSummary>) -> (r: NameSet)
    ensures
        r@ == with_stopped_names(names@, list.deep_view()),
{
    let ghost all = list.deep_view();
    let ghost first = names@;
    let mut r: NameSet = names;
    let mut i: usize = 0;
    assert(all.take(0) =~= Seq::empty());
    while i < list.len()
        invariant
            i <= list@.len(),
            all == list.deep_view(),
            r@ == with_stopped_names(first, all.take(i as int)),
        decreases list@.len() - i,
    {
        assert(all.take(i + 1).drop_last() =~= all.take(i as int));
        assert(list@[i as int].deep_view() == all[i as int]);
        let _ = r.insert(list[i].name.clone());
        i = i + 1;
    }
    assert(all.take(i as int) =~= all);
    r
}

/// The generations of all targets, as clients are told them.
pub open spec fn generations_told(generations: Seq<(Seq<char>, u64)>) -> Seq<
    TargetGenerationSummaryView,
> {
    Seq::new(
        generations.len(),
        |i: int|
            TargetGenerationSummaryView { name: generations[i].0, generation: generations[i].1 },
    )
}

fn generations_to_tell(runner: &Runner) -> (r: Vec<TargetGenerationSummary>)
    ensures
        r.deep_view() == generations_told(runner.deep_view().generations),
{
    let list: Vec<(String, u64)> = runner.generation_snapshot();
    let mut r: Vec<TargetGenerationSummary> = Vec::new();
    let mut i: usize = 0;
    while i < list.len()
        invariant
            i <= list@.len(),
            list.deep_view() == runner.deep_view().generations,
            r@.len() == i,
            forall|k: int|
                0 <= k < i ==> (#[trigger] r@[k]).deep_view() == generations_told(
                    list.deep_view(),
                )[k],
        decreases list@.len() - i,
    {
        assert(list@[i as int].deep_view() == list.deep_view()[i as int]);
        r.push(TargetGenerationSummary { name: list[i].0.clone(), generation: list[i].1 });
        i = i + 1;
    }
    assert(r.deep_view() =~= generations_told(list.deep_view()));
    r
}

/// What a question about targets is answered.
pub open spec fn info_told(
    runner: RunnerView,
    config: ConfigView,
    filter: Seq<Seq<char>>,
) -> InfoResponseView {
    let running = running_told(runner.state.targets, config.targets, filter, runner.controls);
    let stopped = stopped_told(
        runner.state.targets,
        config.targets,
        filter,
        running_names(running),
        runner.controls,
    );
    InfoResponseView {
        refresh_target_on_change_enabled: runner.refresh_on_change,
        running,
        stopped,
        available: available_told(
            config.targets,
            filter,
            with_stopped_names(running_names(running), stopped),
        ),
        generations: generations_told(runner.generations),
    }
}

/// What a question about targets is answered.
pub fn gather_info(runner: &Runner, config: &Config, filter: &Vec<String>) -> (r: InfoResponse)
    ensures
        r.deep_view() == info_told(runner.deep_view(), config.deep_view(), filter.deep_view()),
{
    let running = gather_running_targets(runner, config, filter);
    let names = names_running(&running);
    let stopped = gather_stopped_targets(runner, config, filter, &names);
    let exclude = add_names_stopped(names, &stopped);
    let available = gather_available_targets(config, filter, &exclude);
    InfoResponse {
        refresh_target_on_change_enabled: runner.refresh_on_change,
        running,
        stopped,
        available,
        generations: generations_to_tell(runner),
    }
}

// ---------------------------------------------------------------------------
// Laws
// ---------------------------------------------------------------------------

proof fn lemma_running_names(list: Seq<RunningTargetSummaryView>, name: Seq<char>)
    ensures
        running_names(list).contains(name) <==> exists|i: int|
            0 <= i < list.len() && (#[trigger] list[i]).name == name,
    decreases list.len(),
{
    if list.len() > 0 {
        let front = list.drop_last();
        lemma_running_names(front, name);
        if running_names(front).contains(name) {
            let i = choose|i: int| 0 <= i < front.len() && (#[trigger] front[i]).name == name;
            assert(list[i].name == name);
        }
        if list.last().name == name {
            assert(list[list.len() - 1].name == name);
        }
        if exists|i: int| 0 <= i < list.len() && (#[trigger] list[i]).name == name {
            let i = choose|i: int| 0 <= i < list.len() && (#[trigger] list[i]).name == name;
            if i < front.len() {
                assert(front[i].name == name);
            }
        }
    }
}

proof fn lemma_stopped_names(
    names: Set<Seq<char>>,
    list: Seq<StoppedTargetSummaryView>,
    name: Seq<char>,
)
    ensures
        with_stopped_names(names, list).contains(name) <==> names.contains(name) || exists|i: int|
            0 <= i < list.len() && (#[trigger] list[i]).name == name,
    decreases list.len(),
{
    if list.len() > 0 {
        let front = list.drop_last();
        lemma_stopped_names(names, front, name);
        if exists|i: int| 0 <= i < front.len() && (#[trigger] front[i]).name == name {
            let i = choose|i: int| 0 <= i < front.len() && (#[trigger] front[i]).name == name;
            assert(list[i].name == name);
        }
        if list.last().name == name {
            assert(list[list.len() - 1].name == name);
        }
        if exists|i: int| 0 <= i < list.len() && (#[trigger] list[i]).name == name {
            let i = choose|i: int| 0 <= i < list.len() && (#[trigger] list[i]).name == name;
            if i < front.len() {
                assert(front[i].name == name);
            }
        }
    }
}

proof fn lemma_last_is_new<T>(s: Seq<(Seq<char>, T)>)
    requires
        ordered(s),
        s.len() > 0,
    ensures
        lookup(s.drop_last(), s.last().0) is None,
{
    let front = s.drop_last();
    let name = s.last().0;
    lemma_lookup_found(front, name);
    if let Some(value) = lookup(front, name) {
        let i = choose|i: int| 0 <= i < front.len() && front[i] == (name, value);
        assert(s[i].0 == s[s.len() - 1].0);
        lemma_precedes_irreflexive(name);
    }
}

/// The names of the targets that are told to run, in the order in which they are told.
pub open spec fn names_running_told(list: Seq<RunningTargetSummaryView>) -> Seq<Seq<char>> {
    Seq::new(list.len(), |i: int| list[i].name)
}

/// The names of the targets that are told not to run, in the order in which they are told.
pub open spec fn names_stopped_told(list: Seq<StoppedTargetSummaryView>) -> Seq<Seq<char>> {
    Seq::new(list.len(), |i: int| list[i].name)
}

/// The names of the targets that are told to be ready to start, in the order in which they are
/// told.
pub open spec fn names_available_told(list: Seq<AvailableTargetSummaryView>) -> Seq<Seq<char>> {
    Seq::new(list.len(), |i: int| list[i].name)
}

proof fn lemma_running(
    states: Seq<(Seq<char>, TargetStateView)>,
    targets: Seq<(Seq<char>, TargetView)>,
    filter: Seq<Seq<char>>,
    controls: Seq<(Seq<char>, TargetControlView)>,
    name: Seq<char>,
)
    requires
        ordered(states),
    ensures
        (exists|i: int|
            0 <= i < running_told(states, targets, filter, controls).len() && (
            #[trigger] running_told(states, targets, filter, controls)[i]).name == name)
            <==> (lookup(states, name) matches Some(state) && state.pid is Some
            && asked_about(filter, name) && unit_named(targets, name) is Some),
    decreases states.len(),
{
    let all = running_told(states, targets, filter, controls);
    if states.len() > 0 {
        let front = states.drop_last();
        let some = running_told(front, targets, filter, controls);
        let last = states.last();
        lemma_ordered_drop_last(states);
        lemma_running(front, targets, filter, controls, name);
        lemma_last_is_new(states);
        if exists|i: int| 0 <= i < some.len() && (#[trigger] some[i]).name == name {
            let i = choose|i: int| 0 <= i < some.len() && (#[trigger] some[i]).name == name;
            assert(all[i].name == name);
        }
        if exists|i: int| 0 <= i < all.len() && (#[trigger] all[i]).name == name {
            let i = choose|i: int| 0 <= i < all.len() && (#[trigger] all[i]).name == name;
            if i < some.len() {
                assert(some[i].name == name);
            }
        }
        if last.0 == name && all.len() > some.len() {
            assert(all[some.len() as int].name == name);
        }
    }
}

proof fn lemma_running_in_order(
    states: Seq<(Seq<char>, TargetStateView)>,
    targets: Seq<(Seq<char>, TargetView)>,
    filter: Seq<Seq<char>>,
    controls: Seq<(Seq<char>, TargetControlView)>,
)
    requires
        ordered(states),
    ensures
        in_order(names_running_told(running_told(states, targets, filter, controls))),
    decreases states.len(),
{
    let all = running_told(states, targets, filter, controls);
    let names = names_running_told(all);
    if states.len() > 0 {
        let front = states.drop_last();
        let some = running_told(front, targets, filter, controls);
        let before = names_running_told(some);
        lemma_ordered_drop_last(states);
        lemma_running_in_order(front, targets, filter, controls);
        assert forall|i: int, j: int|
            #![trigger names[i], names[j]]
            0 <= i < j < names.len() implies precedes_spec(names[i], names[j]) by {
            if j < some.len() {
                assert(before[i] == names[i] && before[j] == names[j]);
            } else {
                assert(some[i].name == names[i]);
                lemma_running(front, targets, filter, controls, names[i]);
                lemma_lookup_found(front, names[i]);
                let state = lookup(front, names[i])->0;
                let k = choose|k: int| 0 <= k < front.len() && front[k] == (names[i], state);
                assert(states[k].0 == names[i]);
                assert(states[states.len() - 1].0 == names[j]);
            }
        }
    }
}

proof fn lemma_stopped(
    states: Seq<(Seq<char>, TargetStateView)>,
    targets: Seq<(Seq<char>, TargetView)>,
    filter: Seq<Seq<char>>,
    exclude: Set<Seq<char>>,
    controls: Seq<(Seq<char>, TargetControlView)>,
    name: Seq<char>,
)
    requires
        ordered(states),
    ensures
        (exists|i: int|
            0 <= i < stopped_told(states, targets, filter, exclude, controls).len() && (
            #[trigger] stopped_told(states, targets, filter, exclude, controls)[i]).name == name)
            <==> (lookup(states, name) matches Some(state) && state.pid is None && state.generation != 0
            && !exclude.contains(name)
            && asked_about(filter, name) && unit_named(targets, name) is Some),
    decreases states.len(),
{
    let all = stopped_told(states, targets, filter, exclude, controls);
    if states.len() > 0 {
        let front = states.drop_last();
        let some = stopped_told(front, targets, filter, exclude, controls);
        let last = states.last();
        lemma_ordered_drop_last(states);
        lemma_stopped(front, targets, filter, exclude, controls, name);
        lemma_last_is_new(states);
        if exists|i: int| 0 <= i < some.len() && (#[trigger] some[i]).name == name {
            let i = choose|i: int| 0 <= i < some.len() && (#[trigger] some[i]).name == name;
            assert(all[i].name == name);
        }
        if exists|i: int| 0 <= i < all.len() && (#[trigger] all[i]).name == name {
            let i = choose|i: int| 0 <= i < all.len() && (#[trigger] all[i]).name == name;
            if i < some.len() {
                assert(some[i].name == name);
            }
        }
        if last.0 == name && all.len() > some.len() {
            assert(all[some.len() as int].name == name);
        }
    }
}

proof fn lemma_stopped_in_order(
    states: Seq<(Seq<char>, TargetStateView)>,
    targets: Seq<(Seq<char>, TargetView)>,
    filter: Seq<Seq<char>>,
    exclude: Set<Seq<char>>,
    controls: Seq<(Seq<char>, TargetControlView)>,
)
    requires
        ordered(states),
    ensures
        in_order(names_stopped_told(stopped_told(states, targets, filter, exclude, controls))),
    decreases states.len(),
{
    let all = stopped_told(states, targets, filter, exclude, controls);
    let names = names_stopped_told(all);
    if states.len() > 0 {
        let front = states.drop_last();
        let some = stopped_told(front, targets, filter, exclude, controls);
        let before = names_stopped_told(some);
        lemma_ordered_drop_last(states);
        lemma_stopped_in_order(front, targets, filter, exclude, controls);
        assert forall|i: int, j: int|
            #![trigger names[i], names[j]]
            0 <= i < j < names.len() implies precedes_spec(names[i], names[j]) by {
            if j < some.len() {
                assert(before[i] == names[i] && before[j] == names[j]);
            } else {
                assert(some[i].name == names[i]);
                lemma_stopped(front, targets, filter, exclude, controls, names[i]);
                lemma_lookup_found(front, names[i]);
                let state = lookup(front, names[i])->0;
                let k = choose|k: int| 0 <= k < front.len() && front[k] == (names[i], state);
                assert(states[k].0 == names[i]);
                assert(states[states.len() - 1].0 == names[j]);
            }
        }
    }
}

proof fn lemma_available(
    targets: Seq<(Seq<char>, TargetView)>,
    filter: Seq<Seq<char>>,
    exclude: Set<Seq<char>>,
    name: Seq<char>,
)
    ensures
        (exists|i: int|
            0 <= i < available_told(targets, filter, exclude).len() && (
            #[trigger] available_told(targets, filter, exclude)[i]).name == name) <==> (
        !exclude.contains(name) && asked_about(filter, name) && exists|k: int|
            0 <= k < targets.len() && (#[trigger] targets[k]).0 == name && targets[k].1 is Unit),
    decreases targets.len(),
{
    let all = available_told(targets, filter, exclude);
    if targets.len() > 0 {
        let front = targets.drop_last();
        let some = available_told(front, filter, exclude);
        lemma_available(front, filter, exclude, name);
        if exists|i: int| 0 <= i < all.len() && (#[trigger] all[i]).name == name {
            let i = choose|i: int| 0 <= i < all.len() && (#[trigger] all[i]).name == name;
            if i < some.len() {
                assert(some[i].name == name);
                let k = choose|k: int|
                    0 <= k < front.len() && (#[trigger] front[k]).0 == name && front[k].1 is Unit;
                assert(targets[k].0 == name);
            } else {
                assert(targets[targets.len() - 1].0 == name);
            }
        }
        if !exclude.contains(name) && asked_about(filter, name) && exists|k: int|
            0 <= k < targets.len() && (#[trigger] targets[k]).0 == name && targets[k].1 is Unit {
            let k = choose|k: int|
                0 <= k < targets.len() && (#[trigger] targets[k]).0 == name && targets[k].1 is Unit;
            if k < front.len() {
                assert(front[k].0 == name);
                let i = choose|i: int| 0 <= i < some.len() && (#[trigger] some[i]).name == name;
                assert(all[i].name == name);
            } else {
                assert(all[some.len() as int].name == name);
            }
        }
    }
}

proof fn lemma_available_in_order(
    targets: Seq<(Seq<char>, TargetView)>,
    filter: Seq<Seq<char>>,
    exclude: Set<Seq<char>>,
)
    requires
        ordered(targets),
    ensures
        in_order(names_available_told(available_told(targets, filter, exclude))),
    decreases targets.len(),
{
    let all = available_told(targets, filter, exclude);
    let names = names_available_told(all);
    if targets.len() > 0 {
        let front = targets.drop_last();
        let some = available_told(front, filter, exclude);
        let before = names_available_told(some);
        lemma_ordered_drop_last(targets);
        lemma_available_in_order(front, filter, exclude);
        assert forall|i: int, j: int|
            #![trigger names[i], names[j]]
            0 <= i < j < names.len() implies precedes_spec(names[i], names[j]) by {
            if j < some.len() {
                assert(before[i] == names[i] && before[j] == names[j]);
            } else {
                assert(some[i].name == names[i]);
                lemma_available(front, filter, exclude, names[i]);
                let k = choose|k: int|
                    0 <= k < front.len() && (#[trigger] front[k]).0 == names[i] && front[k].1 is Unit;
                assert(targets[k].0 == names[i]);
                assert(targets[targets.len() - 1].0 == names[j]);
            }
        }
    }
}

/// Whether a name stands among the targets that run.
pub open spec fn told_running(info: InfoResponseView, name: Seq<char>) -> bool {
    exists|i: int| 0 <= i < info.running.len() && (#[trigger] info.running[i]).name == name
}

/// Whether a name stands among the targets that do not run.
pub open spec fn told_stopped(info: InfoResponseView, name: Seq<char>) -> bool {
    exists|i: int| 0 <= i < info.stopped.len() && (#[trigger] info.stopped[i]).name == name
}

/// Whether a name stands among the targets that could be started.
pub open spec fn told_available(info: InfoResponseView, name: Seq<char>) -> bool {
    exists|i: int| 0 <= i < info.available.len() && (#[trigger] info.available[i]).name == name
}

/// Whether the process of a target is known to run.
pub open spec fn known_to_run(state: Option<TargetStateView>) -> bool {
    state matches Some(state) && state.pid is Some
}

/// Whether a target is known to have run and does not run.
pub open spec fn known_to_have_run(state: Option<TargetStateView>) -> bool {
    state matches Some(state) && state.pid is None && state.generation != 0
}

/// Every configured unit that is asked about is told in exactly one of the three lists of an
/// answer, and nothing else is told there: a unit that runs among the running ones, one that ran
/// before among the stopped ones, and any other among those that could be started.
pub proof fn every_unit_is_told_once(
    runner: RunnerView,
    config: ConfigView,
    filter: Seq<Seq<char>>,
    name: Seq<char>,
)
    requires
        ordered(runner.state.targets),
        ordered(config.targets),
    ensures
        ({
            let info = info_told(runner, config, filter);
            let state = lookup(runner.state.targets, name);
            let asked = asked_about(filter, name) && unit_named(config.targets, name) is Some;
            &&& told_running(info, name) <==> asked && known_to_run(state)
            &&& told_stopped(info, name) <==> asked && known_to_have_run(state)
            &&& told_available(info, name) <==> asked && !known_to_run(state)
                && !known_to_have_run(state)
        }),
{
    let info = info_told(runner, config, filter);
    let states = runner.state.targets;
    let names = running_names(info.running);
    let others = with_stopped_names(names, info.stopped);
    lemma_running(states, config.targets, filter, runner.controls, name);
    lemma_running_names(info.running, name);
    lemma_stopped(states, config.targets, filter, names, runner.controls, name);
    lemma_stopped_names(names, info.stopped, name);
    lemma_available(config.targets, filter, others, name);
    lemma_lookup_found(config.targets, name);
    if unit_named(config.targets, name) is Some {
        let target = lookup(config.targets, name)->0;
        let k = choose|k: int|
            0 <= k < config.targets.len() && config.targets[k] == (name, target);
        assert(config.targets[k].0 == name && config.targets[k].1 is Unit);
    }
    if exists|k: int|
        0 <= k < config.targets.len() && (#[trigger] config.targets[k]).0 == name
            && config.targets[k].1 is Unit {
        let k = choose|k: int|
            0 <= k < config.targets.len() && (#[trigger] config.targets[k]).0 == name
                && config.targets[k].1 is Unit;
        lemma_lookup_at(config.targets, k);
    }
}

/// Each list of an answer is in name order and tells no name twice.
pub proof fn units_are_told_in_name_order(
    runner: RunnerView,
    config: ConfigView,
    filter: Seq<Seq<char>>,
)
    requires
        ordered(runner.state.targets),
        ordered(config.targets),
    ensures
        in_order(names_running_told(info_told(runner, config, filter).running)),
        in_order(names_stopped_told(info_told(runner, config, filter).stopped)),
        in_order(names_available_told(info_told(runner, config, filter).available)),
{
    let info = info_told(runner, config, filter);
    let states = runner.state.targets;
    let names = running_names(info.running);
    lemma_running_in_order(states, config.targets, filter, runner.controls);
    lemma_stopped_in_order(states, config.targets, filter, names, runner.controls);
    lemma_available_in_order(config.targets, filter, with_stopped_names(names, info.stopped));
}

/// Only HTTP ports have an address to open.
pub proof fn only_http_ports_have_a_url(
    defined: Seq<(Seq<char>, PortDefinitionView)>,
    name: Seq<char>,
    port: u16,
)
    ensures
        port_summary(defined, name, port).url is Some <==> port_summary(defined, name, port).protocol
            == Some("http"@),
{
    reveal_strlit("http");
    reveal_strlit("tcp");
    reveal_strlit("ftp");
    assert("http"@[0] == 'h' && "tcp"@[0] == 't' && "ftp"@[0] == 'f');
}

} // verus!
