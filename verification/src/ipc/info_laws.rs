//! What holds of what clients are told of targets.

use vstd::prelude::*;

use crate::config::model::{
    ConfigView, PortDefinitionView, PortProtocol, TargetView, UnitTargetView, WatchPreference,
};
use crate::ipc::info::{
    asked_about, available_told, history_told, info_told, port_summary, running_names,
    running_summary, running_told, stopped_summary, stopped_told, unit_named, with_stopped_names,
};
use crate::ipc::protocol::{
    BehaviorKind, ExitDetailsView, PortSummaryView, RunHistorySummaryView, TargetConfigSummaryView,
    WatchPreferenceKind,
};
use crate::names::{lemma_lookup_at, lookup, ordered};
use crate::numbers::decimal_spec;
use crate::runner::control::TargetControlView;
use crate::runner::supervisor::{control_info_of, RunnerView};
use crate::state::{ExitStatusView, RunRecordView, TargetStateView};
use crate::text::{lowercase, occurs_in, uppercase};
use crate::time::rfc3339_text;

verus! {

/// Whether an exit is told with its code, its signal and its time.
pub open spec fn tells_exit(told: Option<ExitDetailsView>, exit: Option<ExitStatusView>) -> bool {
    match exit {
        Some(exit) => told matches Some(details) && details.code == exit.code && details.signal
            == exit.signal && details.at == Some(rfc3339_text(exit.when.secs, exit.when.nanos)),
        None => told is None,
    }
}

/// Whether each run of a history is told with its generation, its last line and its exit, in the
/// order of the history.
pub open spec fn tells_history(
    told: Seq<RunHistorySummaryView>,
    history: Seq<RunRecordView>,
) -> bool {
    told.len() == history.len() && forall|k: int|
        0 <= k < history.len() ==> {
            &&& (#[trigger] told[k]).generation == history[k].generation
            &&& told[k].last_log == history[k].last_log_line
            &&& tells_exit(told[k].exit, history[k].exit)
        }
}

/// Whether the configuration of a unit is told: its kind, its driver, the paths that are watched
/// and what watches them.
pub open spec fn tells_unit(
    kind: BehaviorKind,
    config: TargetConfigSummaryView,
    unit: UnitTargetView,
) -> bool {
    &&& kind == (if unit.behavior is Service {
        BehaviorKind::Service
    } else {
        BehaviorKind::Job
    })
    &&& config.driver == unit.driver_type
    &&& config.watch_paths == unit.watch_paths
    &&& config.refresh_watch_type == (if unit.refresh_watch_type == WatchPreference::Rufa {
        WatchPreferenceKind::Rufa
    } else {
        WatchPreferenceKind::Runtime
    })
}

/// Whether each port is told with its name and number, in the order of the ports.
pub open spec fn tells_ports(told: Seq<PortSummaryView>, ports: Seq<(Seq<char>, u16)>) -> bool {
    told.len() == ports.len() && forall|k: int|
        0 <= k < ports.len() ==> (#[trigger] told[k]).name == ports[k].0 && told[k].port
            == ports[k].1
}

proof fn lemma_running_told(
    states: Seq<(Seq<char>, TargetStateView)>,
    targets: Seq<(Seq<char>, TargetView)>,
    filter: Seq<Seq<char>>,
    controls: Seq<(Seq<char>, TargetControlView)>,
    i: int,
)
    requires
        0 <= i < running_told(states, targets, filter, controls).len(),
    ensures
        exists|k: int|
            #![trigger states[k]]
            0 <= k < states.len() && unit_named(targets, states[k].0) is Some && running_told(
                states,
                targets,
                filter,
                controls,
            )[i] == running_summary(
                states[k].0,
                states[k].1,
                unit_named(targets, states[k].0)->0,
                controls,
            ),
    decreases states.len(),
{
    let front = states.drop_last();
    let before = running_told(front, targets, filter, controls);
    if i < before.len() {
        lemma_running_told(front, targets, filter, controls, i);
        let k = choose|k: int|
            #![trigger front[k]]
            0 <= k < front.len() && unit_named(targets, front[k].0) is Some && before[i]
                == running_summary(
                front[k].0,
                front[k].1,
                unit_named(targets, front[k].0)->0,
                controls,
            );
        assert(states[k] == front[k]);
    } else {
        assert(states[states.len() - 1] == states.last());
    }
}

proof fn lemma_stopped_told(
    states: Seq<(Seq<char>, TargetStateView)>,
    targets: Seq<(Seq<char>, TargetView)>,
    filter: Seq<Seq<char>>,
    exclude: Set<Seq<char>>,
    controls: Seq<(Seq<char>, TargetControlView)>,
    i: int,
)
    requires
        0 <= i < stopped_told(states, targets, filter, exclude, controls).len(),
    ensures
        exists|k: int|
            #![trigger states[k]]
            0 <= k < states.len() && unit_named(targets, states[k].0) is Some && stopped_told(
                states,
                targets,
                filter,
                exclude,
                controls,
            )[i] == stopped_summary(
                states[k].0,
                states[k].1,
                unit_named(targets, states[k].0)->0,
                controls,
            ),
    decreases states.len(),
{
    let front = states.drop_last();
    let before = stopped_told(front, targets, filter, exclude, controls);
    if i < before.len() {
        lemma_stopped_told(front, targets, filter, exclude, controls, i);
        let k = choose|k: int|
            #![trigger front[k]]
            0 <= k < front.len() && unit_named(targets, front[k].0) is Some && before[i]
                == stopped_summary(
                front[k].0,
                front[k].1,
                unit_named(targets, front[k].0)->0,
                controls,
            );
        assert(states[k] == front[k]);
    } else {
        assert(states[states.len() - 1] == states.last());
    }
}

/// A running target is told as it is: its generation, process, ports, last line and exit, whether
/// it is out of date, its earlier runs, its configuration and what is wanted of it.
pub proof fn running_target_is_told_as_it_is(
    runner: RunnerView,
    config: ConfigView,
    filter: Seq<Seq<char>>,
    i: int,
)
    requires
        ordered(runner.state.targets),
        0 <= i < info_told(runner, config, filter).running.len(),
    ensures
        ({
            let told = info_told(runner, config, filter).running[i];
            &&& lookup(runner.state.targets, told.name) matches Some(state)
            &&& told.current.generation == state.generation
            &&& told.current.pid == state.pid
            &&& tells_ports(told.current.ports, state.ports)
            &&& told.current.refresh_pending == state.change_noticed_restart_necessary
            &&& told.current.last_log == state.last_log_line
            &&& tells_exit(told.current.last_exit, state.last_exit)
            &&& tells_history(told.history, state.history)
            &&& unit_named(config.targets, told.name) matches Some(unit)
            &&& tells_unit(told.kind, told.config, unit)
            &&& control_info_of(runner.controls, told.name) is Some <==> told.control is Some
            &&& told.control matches Some(control) ==> control.desired_state == control_info_of(
                runner.controls,
                told.name,
            )->0.desired_state && control.action_plan == control_info_of(
                runner.controls,
                told.name,
            )->0.action_plan
        }),
{
    let states = runner.state.targets;
    lemma_running_told(states, config.targets, filter, runner.controls, i);
    let told = info_told(runner, config, filter).running[i];
    let k = choose|k: int|
        #![trigger states[k]]
        0 <= k < states.len() && unit_named(config.targets, states[k].0) is Some && told
            == running_summary(
            states[k].0,
            states[k].1,
            unit_named(config.targets, states[k].0)->0,
            runner.controls,
        );
    lemma_lookup_at(states, k);
    assert(told.history == history_told(states[k].1.history));
}

/// A stopped target is told as it was: the generation, last line and exit of its last run, its
/// earlier runs, its configuration and what is wanted of it.
pub proof fn stopped_target_is_told_as_it_was(
    runner: RunnerView,
    config: ConfigView,
    filter: Seq<Seq<char>>,
    i: int,
)
    requires
        ordered(runner.state.targets),
        0 <= i < info_told(runner, config, filter).stopped.len(),
    ensures
        ({
            let told = info_told(runner, config, filter).stopped[i];
            &&& lookup(runner.state.targets, told.name) matches Some(state)
            &&& told.last matches Some(last)
            &&& last.generation == state.generation
            &&& last.last_log == state.last_log_line
            &&& tells_exit(last.exit, state.last_exit)
            &&& tells_history(told.history, state.history)
            &&& unit_named(config.targets, told.name) matches Some(unit)
            &&& tells_unit(told.kind, told.config, unit)
            &&& control_info_of(runner.controls, told.name) is Some <==> told.control is Some
            &&& told.control matches Some(control) ==> control.desired_state == control_info_of(
                runner.controls,
                told.name,
            )->0.desired_state && control.action_plan == control_info_of(
                runner.controls,
                told.name,
            )->0.action_plan
        }),
{
    let states = runner.state.targets;
    let info = info_told(runner, config, filter);
    let names = running_names(info.running);
    lemma_stopped_told(states, config.targets, filter, names, runner.controls, i);
    let told = info.stopped[i];
    let k = choose|k: int|
        #![trigger states[k]]
        0 <= k < states.len() && unit_named(config.targets, states[k].0) is Some && told
            == stopped_summary(
            states[k].0,
            states[k].1,
            unit_named(config.targets, states[k].0)->0,
            runner.controls,
        );
    lemma_lookup_at(states, k);
    assert(told.history == history_told(states[k].1.history));
}

proof fn lemma_available_told(
    targets: Seq<(Seq<char>, TargetView)>,
    filter: Seq<Seq<char>>,
    exclude: Set<Seq<char>>,
    i: int,
)
    requires
        0 <= i < available_told(targets, filter, exclude).len(),
    ensures
        exists|k: int|
            #![trigger targets[k]]
            0 <= k < targets.len() && (targets[k].1 matches TargetView::Unit(unit)
                && available_told(targets, filter, exclude)[i].name == targets[k].0
                && available_told(targets, filter, exclude)[i].kind == (if unit.behavior
                is Service {
                BehaviorKind::Service
            } else {
                BehaviorKind::Job
            })),
    decreases targets.len(),
{
    let front = targets.drop_last();
    let before = available_told(front, filter, exclude);
    if i < before.len() {
        lemma_available_told(front, filter, exclude, i);
        let k = choose|k: int|
            #![trigger front[k]]
            0 <= k < front.len() && (front[k].1 matches TargetView::Unit(unit) && before[i].name
                == front[k].0 && before[i].kind == (if unit.behavior is Service {
                BehaviorKind::Service
            } else {
                BehaviorKind::Job
            }));
        assert(targets[k] == front[k]);
        assert(available_told(targets, filter, exclude)[i] == before[i]);
    } else {
        assert(targets[targets.len() - 1] == targets.last());
    }
}

/// A target that could be started is told with its kind.
pub proof fn other_target_is_told_with_its_kind(
    runner: RunnerView,
    config: ConfigView,
    filter: Seq<Seq<char>>,
    i: int,
)
    requires
        ordered(config.targets),
        0 <= i < info_told(runner, config, filter).available.len(),
    ensures
        ({
            let told = info_told(runner, config, filter).available[i];
            &&& unit_named(config.targets, told.name) matches Some(unit)
            &&& told.kind == (if unit.behavior is Service {
                BehaviorKind::Service
            } else {
                BehaviorKind::Job
            })
        }),
{
    let info = info_told(runner, config, filter);
    let others = with_stopped_names(running_names(info.running), info.stopped);
    lemma_available_told(config.targets, filter, others, i);
    let targets = config.targets;
    let told = info.available[i];
    let k = choose|k: int|
        #![trigger targets[k]]
        0 <= k < targets.len() && (targets[k].1 matches TargetView::Unit(unit) && told.name
            == targets[k].0 && told.kind == (if unit.behavior is Service {
            BehaviorKind::Service
        } else {
            BehaviorKind::Job
        }));
    lemma_lookup_at(targets, k);
}

/// The setting and the generations of all targets are told, whichever targets are asked about.
pub proof fn setting_and_generations_are_told(
    runner: RunnerView,
    config: ConfigView,
    filter: Seq<Seq<char>>,
    i: int,
)
    ensures
        info_told(runner, config, filter).refresh_target_on_change_enabled
            == runner.refresh_on_change,
        info_told(runner, config, filter).generations.len() == runner.generations.len(),
        0 <= i < runner.generations.len() ==> {
            let told = info_told(runner, config, filter).generations[i];
            told.name == runner.generations[i].0 && told.generation == runner.generations[i].1
        },
{
}

/// A target is asked about where it is named, in any case, or where no target is.
pub proof fn named_targets_are_asked_about(filter: Seq<Seq<char>>, name: Seq<char>, i: int)
    ensures
        filter.len() == 0 ==> asked_about(filter, name),
        0 <= i < filter.len() && uppercase(filter[i]) == uppercase(name) ==> asked_about(
            filter,
            name,
        ),
        asked_about(filter, name) && filter.len() > 0 ==> exists|k: int|
            0 <= k < filter.len() && uppercase(#[trigger] filter[k]) == uppercase(name),
{
}

/// A port is told with its protocol, as it is defined, with an address on this machine where it
/// speaks HTTP, and as one for debugging where its name says so.
pub proof fn port_is_told_with_its_protocol(
    defined: Seq<(Seq<char>, PortDefinitionView)>,
    name: Seq<char>,
    port: u16,
)
    ensures
        ({
            let told = port_summary(defined, name, port);
            &&& told.name == name && told.port == port
            &&& told.is_debug <==> occurs_in(lowercase(name), "debug"@)
            &&& lookup(defined, name) is None ==> told.protocol is None && told.url is None
            &&& lookup(defined, name) matches Some(definition) ==> {
                &&& definition.protocol == PortProtocol::Http ==> told.protocol == Some("http"@)
                    && told.url == Some("http://127.0.0.1:"@ + decimal_spec(port as nat))
                &&& definition.protocol == PortProtocol::Tcp ==> told.protocol == Some("tcp"@)
                    && told.url is None
                &&& definition.protocol == PortProtocol::Ftp ==> told.protocol == Some("ftp"@)
                    && told.url is None
            }
        }),
{
}

} // verus!
