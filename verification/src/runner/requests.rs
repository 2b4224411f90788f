//! What a request means for the targets that it is about.

use vstd::prelude::*;

use crate::config::model::{ConfigView, TargetView, UnitTargetView, WatchPreference};
use crate::names::{
    lemma_finite_set_is_listed, lemma_lookup_put, lemma_ordered_put, listing, lookup, ordered,
};
use crate::paths::{absolute, join_spec};
use crate::runner::control::{requested, DesiredState, TargetControlView, TargetKind};
use crate::runner::resolve::{
    expand, expand_all, resolved, resolved_units_are_configured, unknown_target_is_refused,
};
use crate::runner::supervisor::{
    after_restart_request, after_start_request, after_stop_requests, control_of, first_job, kind_of,
    restart_request, services_among, start_outcome, start_request, watch_dirs, watch_spec_of,
    watched_names, watched_services, with_requests, RunnerErrorView, RunnerView, StartOutcomeView,
    WatchRootsView,
};

verus! {

/// Whether each unit of a configuration stands under its own name, as it does in every
/// configuration that was accepted.
pub open spec fn well_named(config: ConfigView) -> bool {
    forall|name: Seq<char>|
        (#[trigger] lookup(config.targets, name)) matches Some(TargetView::Unit(unit)) ==> unit.name
            == name
}

/// Whether a target is configured as a unit.
pub open spec fn names_unit(config: ConfigView, name: Seq<char>) -> bool {
    lookup(config.targets, name) is Some && lookup(config.targets, name)->0 is Unit
}

proof fn lemma_unit_names_resolve(config: ConfigView, names: Seq<Seq<char>>)
    requires
        forall|i: int|
            0 <= i < names.len() ==> names_unit(config, #[trigger] names[i]),
    ensures
        resolved(config, names) is Ok,
    decreases names.len(),
{
    let none = Set::<Seq<char>>::empty();
    if names.len() > 0 {
        assert forall|i: int| 0 <= i < names.drop_last().len() implies names_unit(
            config,
            #[trigger] names.drop_last()[i],
        ) by {
            assert(names.drop_last()[i] == names[i]);
        }
        lemma_unit_names_resolve(config, names.drop_last());
        let last = names[names.len() - 1];
        assert(names_unit(config, last));
        assert(expand(config.targets, last, none) is Ok);
        assert(expand_all(config.targets, names.drop_last(), none) is Ok);
        assert(expand_all(config.targets, names, none) is Ok);
    }
}

proof fn lemma_watched_names(units: Seq<UnitTargetView>, i: int)
    requires
        0 <= i < watched_names(units).len(),
    ensures
        exists|k: int| 0 <= k < units.len() && (#[trigger] units[k]).name == watched_names(units)[i],
    decreases units.len(),
{
    if units.len() > 0 {
        let front = units.drop_last();
        if i < watched_names(front).len() {
            lemma_watched_names(front, i);
            let k = choose|k: int|
                0 <= k < front.len() && (#[trigger] front[k]).name == watched_names(front)[i];
            assert(units[k].name == watched_names(units)[i]);
        } else {
            assert(units[units.len() - 1].name == watched_names(units)[i]);
        }
    }
}

pub(crate) proof fn lemma_start_outcome(
    config: ConfigView,
    names: Seq<Seq<char>>,
    roots: WatchRootsView,
)
    requires
        well_named(config),
        resolved(config, names) is Ok,
    ensures
        start_outcome(config, watched_names(resolved(config, names)->Ok_0), roots) is Ok,
{
    let units = resolved(config, names)->Ok_0;
    let watched = watched_names(units);
    assert forall|i: int| 0 <= i < watched.len() implies names_unit(
        config,
        #[trigger] watched[i],
    ) by {
        lemma_watched_names(units, i);
        let k = choose|k: int| 0 <= k < units.len() && (#[trigger] units[k]).name == watched[i];
        assert(units.contains(units[k]));
        resolved_units_are_configured(config, names, units[k]);
        let under = choose|under: Seq<char>| #[trigger]
            lookup(config.targets, under) == Some(TargetView::Unit(units[k]));
        assert(under == units[k].name);
    }
    lemma_unit_names_resolve(config, watched);
}

// ---------------------------------------------------------------------------
// Restarting all that runs
// ---------------------------------------------------------------------------

/// The units whose files are watched are services.
pub(crate) proof fn lemma_watched_services(units: Seq<UnitTargetView>)
    ensures
        watched_names(services_among(units)) == watched_names(units),
    decreases units.len(),
{
    if units.len() > 0 {
        let front = units.drop_last();
        lemma_watched_services(front);
        if units.last().behavior is Service {
            assert(services_among(units).drop_last() =~= services_among(front));
        }
    }
}

proof fn lemma_services_among(units: Seq<UnitTargetView>, unit: UnitTargetView)
    ensures
        services_among(units).contains(unit) <==> units.contains(unit) && unit.behavior is Service,
    decreases units.len(),
{
    let found = services_among(units);
    if units.len() > 0 {
        let front = units.drop_last();
        let before = services_among(front);
        lemma_services_among(front, unit);
        if found.contains(unit) {
            let i = choose|i: int| 0 <= i < found.len() && found[i] == unit;
            if i < before.len() {
                assert(before[i] == unit);
                let k = choose|k: int| 0 <= k < front.len() && front[k] == unit;
                assert(units[k] == unit);
            } else {
                assert(units[units.len() - 1] == unit);
            }
        }
        if units.contains(unit) && unit.behavior is Service {
            let k = choose|k: int| 0 <= k < units.len() && units[k] == unit;
            if k < front.len() {
                assert(front[k] == unit);
                let i = choose|i: int| 0 <= i < before.len() && before[i] == unit;
                assert(found[i] == unit);
            } else {
                assert(found[before.len() as int] == unit);
            }
        }
    }
}

/// Whether a target is configured as a service.
pub open spec fn names_service(config: ConfigView, name: Seq<char>) -> bool {
    lookup(config.targets, name) matches Some(TargetView::Unit(unit)) && unit.behavior is Service
}

/// The unit under a name.
pub open spec fn unit_of(config: ConfigView, name: Seq<char>) -> UnitTargetView {
    lookup(config.targets, name)->0->Unit_0
}

/// Names of services stand for these services, none of which is a job.
pub(crate) proof fn lemma_services_resolve(config: ConfigView, names: Seq<Seq<char>>)
    requires
        forall|i: int| 0 <= i < names.len() ==> names_service(config, #[trigger] names[i]),
    ensures
        resolved(config, names) matches Ok(units) && units.len() == names.len() && first_job(units)
            is None && forall|i: int|
            0 <= i < names.len() ==> #[trigger] units[i] == unit_of(config, names[i]),
    decreases names.len(),
{
    let none = Set::<Seq<char>>::empty();
    if names.len() > 0 {
        let front = names.drop_last();
        assert forall|i: int| 0 <= i < front.len() implies names_service(
            config,
            #[trigger] front[i],
        ) by {
            assert(front[i] == names[i]);
        }
        lemma_services_resolve(config, front);
        let before = resolved(config, front)->Ok_0;
        let last = names[names.len() - 1];
        assert(names_service(config, last));
        let more = expand(config.targets, last, none)->Ok_0;
        assert(more == seq![unit_of(config, last)]);
        let units = before + more;
        assert(expand_all(config.targets, front, none) is Ok);
        assert(resolved(config, names) is Ok && resolved(config, names)->Ok_0 == units);
        assert(units.drop_last() =~= before);
        assert forall|i: int| 0 <= i < names.len() implies #[trigger] units[i] == unit_of(
            config,
            names[i],
        ) by {
            if i < front.len() {
                assert(front[i] == names[i]);
                assert(before[i] == unit_of(config, front[i]));
            }
        }
    }
}

/// A unit that is asked for by name is among those that the names stand for.
pub(crate) proof fn lemma_unit_is_resolved(config: ConfigView, names: Seq<Seq<char>>, name: Seq<char>)
    requires
        resolved(config, names) is Ok,
        names.contains(name),
        names_unit(config, name),
    ensures
        resolved(config, names)->Ok_0.contains(unit_of(config, name)),
    decreases names.len(),
{
    let none = Set::<Seq<char>>::empty();
    let front = names.drop_last();
    let last = names.last();
    let unit = unit_of(config, name);
    let units = resolved(config, names)->Ok_0;
    let before = expand_all(config.targets, front, none)->Ok_0;
    let more = expand(config.targets, last, none)->Ok_0;
    assert(units == before + more);
    if last == name {
        assert(more == seq![unit]);
        assert(units[before.len() as int] == unit);
    } else {
        let k = choose|k: int| 0 <= k < names.len() && names[k] == name;
        assert(front[k] == name);
        assert(resolved(config, front) is Ok);
        lemma_unit_is_resolved(config, front, name);
        let i = choose|i: int| 0 <= i < before.len() && before[i] == unit;
        assert(units[i] == unit);
    }
}

/// Where all names are those of units, nothing but these units is asked for.
proof fn lemma_units_are_named(
    config: ConfigView,
    names: Seq<Seq<char>>,
    unit: UnitTargetView,
)
    requires
        well_named(config),
        forall|i: int| 0 <= i < names.len() ==> names_unit(config, #[trigger] names[i]),
        resolved(config, names) is Ok,
        resolved(config, names)->Ok_0.contains(unit),
    ensures
        names.contains(unit.name),
    decreases names.len(),
{
    if names.len() > 0 {
        let none = Set::<Seq<char>>::empty();
        let front = names.drop_last();
        let last = names[names.len() - 1];
        assert(names_unit(config, last));
        let units = resolved(config, names)->Ok_0;
        let before = expand_all(config.targets, front, none)->Ok_0;
        let more = expand(config.targets, last, none)->Ok_0;
        assert(more == seq![unit_of(config, last)]);
        assert(units == before + more);
        let i = choose|i: int| 0 <= i < units.len() && units[i] == unit;
        if i < before.len() {
            assert(before[i] == unit);
            assert forall|j: int| 0 <= j < front.len() implies names_unit(
                config,
                #[trigger] front[j],
            ) by {
                assert(front[j] == names[j]);
            }
            assert(resolved(config, front)->Ok_0.contains(unit));
            lemma_units_are_named(config, front, unit);
            let k = choose|k: int| 0 <= k < front.len() && front[k] == unit.name;
            assert(names[k] == unit.name);
        } else {
            assert(unit == unit_of(config, last));
            assert(unit.name == last);
        }
    }
}

pub(crate) proof fn lemma_with_requests(
    controls: Seq<(Seq<char>, TargetControlView)>,
    units: Seq<UnitTargetView>,
    desired: DesiredState,
    name: Seq<char>,
)
    ensures
        (exists|i: int| 0 <= i < units.len() && (#[trigger] units[i]).name == name) ==> (lookup(
            with_requests(controls, units, desired),
            name,
        ) matches Some(control) && control.desired_state == desired && control.action_plan
            is Idle),
        !(exists|i: int| 0 <= i < units.len() && (#[trigger] units[i]).name == name) ==> lookup(
            with_requests(controls, units, desired),
            name,
        ) == lookup(controls, name),
    decreases units.len(),
{
    if units.len() > 0 {
        let front = units.drop_last();
        let before = with_requests(controls, front, desired);
        let unit = units[units.len() - 1];
        lemma_with_requests(controls, front, desired, name);
        lemma_lookup_put(
            before,
            unit.name,
            TargetControlView {
                kind: kind_of(unit.behavior),
                ..requested(control_of(before, unit.name), desired)
            },
            name,
        );
        if unit.name != name {
            if exists|i: int| 0 <= i < units.len() && (#[trigger] units[i]).name == name {
                let i = choose|i: int| 0 <= i < units.len() && (#[trigger] units[i]).name == name;
                assert(front[i].name == name);
            }
            if exists|i: int| 0 <= i < front.len() && (#[trigger] front[i]).name == name {
                let i = choose|i: int| 0 <= i < front.len() && (#[trigger] front[i]).name == name;
                assert(units[i].name == name);
            }
        }
    }
}

/// A request to restart all is met by every running service, also where jobs run beside it: the
/// request succeeds and the service is to be restarted. Every running target must be configured.
pub proof fn every_running_service_is_restarted(
    runner: RunnerView,
    config: ConfigView,
    targets: Seq<Seq<char>>,
    roots: WatchRootsView,
    name: Seq<char>,
)
    requires
        well_named(config),
        runner.processes.finite(),
        resolved(config, listing(runner.processes)) is Ok,
        runner.processes.contains(name),
        names_service(config, name),
    ensures
        restart_request(runner, config, targets, true, roots) is Ok,
        lookup(
            after_restart_request(runner, config, targets, true).controls,
            name,
        ) matches Some(control) && control.desired_state == DesiredState::Restarted,
{
    let running = listing(runner.processes);
    let units = resolved(config, running)->Ok_0;
    let services = services_among(units);
    let unit = unit_of(config, name);
    lemma_finite_set_is_listed(runner.processes);
    lemma_unit_is_resolved(config, running, name);
    lemma_services_among(units, unit);
    lemma_start_outcome(config, running, roots);
    lemma_watched_services(units);
    let i = choose|i: int| 0 <= i < services.len() && services[i] == unit;
    assert(services[i].name == name);
    lemma_with_requests(runner.controls, services, DesiredState::Restarted, name);
}

/// A request to restart all asks nothing of a target that is not a service, such as a running job.
pub proof fn restarting_all_concerns_services_only(
    runner: RunnerView,
    config: ConfigView,
    targets: Seq<Seq<char>>,
    name: Seq<char>,
)
    requires
        well_named(config),
        !names_service(config, name),
    ensures
        lookup(after_restart_request(runner, config, targets, true).controls, name) == lookup(
            runner.controls,
            name,
        ),
{
    let running = listing(runner.processes);
    if resolved(config, running) is Ok {
        let units = resolved(config, running)->Ok_0;
        let services = services_among(units);
        assert forall|i: int| 0 <= i < services.len() implies (#[trigger] services[i]).name
            != name by {
            let unit = services[i];
            assert(services.contains(unit));
            lemma_services_among(units, unit);
            resolved_units_are_configured(config, running, unit);
            let under = choose|under: Seq<char>| #[trigger]
                lookup(config.targets, under) == Some(TargetView::Unit(unit));
            assert(under == unit.name);
            assert(names_service(config, under));
        }
        lemma_with_requests(runner.controls, services, DesiredState::Restarted, name);
    }
}

/// A request to restart all asks nothing of a target that does not run, unless a running target
/// has become a composite that stands for it.
pub proof fn restarting_all_concerns_running_targets_only(
    runner: RunnerView,
    config: ConfigView,
    targets: Seq<Seq<char>>,
    name: Seq<char>,
)
    requires
        well_named(config),
        runner.processes.finite(),
        forall|other: Seq<char>|
            runner.processes.contains(other) ==> !(#[trigger] lookup(config.targets, other) matches
                Some(TargetView::Composite(_))),
        !runner.processes.contains(name),
    ensures
        lookup(after_restart_request(runner, config, targets, true).controls, name) == lookup(
            runner.controls,
            name,
        ),
{
    let running = listing(runner.processes);
    lemma_finite_set_is_listed(runner.processes);
    if resolved(config, running) is Ok {
        let units = resolved(config, running)->Ok_0;
        let services = services_among(units);
        assert forall|i: int| 0 <= i < running.len() implies names_unit(
            config,
            #[trigger] running[i],
        ) by {
            assert(running.contains(running[i]));
            assert(runner.processes.contains(running[i]));
            if lookup(config.targets, running[i]) is None {
                unknown_target_is_refused(config, running, i);
            }
        }
        assert forall|i: int| 0 <= i < services.len() implies (#[trigger] services[i]).name
            != name by {
            let unit = services[i];
            assert(services.contains(unit));
            lemma_services_among(units, unit);
            lemma_units_are_named(config, running, unit);
            assert(running.contains(unit.name));
            assert(runner.processes.contains(unit.name));
        }
        lemma_with_requests(runner.controls, services, DesiredState::Restarted, name);
    }
}

// ---------------------------------------------------------------------------
// Watching
// ---------------------------------------------------------------------------

proof fn lemma_watched_services_lookup(
    units: Seq<UnitTargetView>,
    roots: WatchRootsView,
    name: Seq<char>,
)
    ensures
        ordered(watched_services(units, roots)),
        lookup(watched_services(units, roots), name) matches Some(dirs) ==> exists|i: int|
            0 <= i < units.len() && (#[trigger] units[i]).name == name && units[i].behavior
                is Service && dirs == watch_dirs(units[i], roots),
        lookup(watched_services(units, roots), name) is None ==> forall|i: int|
            0 <= i < units.len() && (#[trigger] units[i]).name == name ==> !(units[i].behavior
                is Service),
    decreases units.len(),
{
    if units.len() > 0 {
        let front = units.drop_last();
        let last = units[units.len() - 1];
        lemma_watched_services_lookup(front, roots, name);
        let before = watched_services(front, roots);
        lemma_ordered_put(before, last.name, watch_dirs(last, roots));
        lemma_lookup_put(before, last.name, watch_dirs(last, roots), name);
        if let Some(dirs) = lookup(watched_services(units, roots), name) {
            if last.name == name && last.behavior is Service {
                assert(units[units.len() - 1].name == name);
            } else {
                let i = choose|i: int|
                    0 <= i < front.len() && (#[trigger] front[i]).name == name && front[i].behavior
                        is Service && dirs == watch_dirs(front[i], roots);
                assert(units[i].name == name);
            }
        } else {
            assert forall|i: int|
                0 <= i < units.len() && (#[trigger] units[i]).name == name implies !(
            units[i].behavior is Service) by {
                if i < front.len() {
                    assert(front[i].name == name);
                }
            }
        }
    }
}

/// Every service among the units that named targets stand for is watched, in the directories that
/// it asks for and for the time that the configuration says; nothing but these services is watched.
pub proof fn services_are_watched(
    config: ConfigView,
    targets: Seq<Seq<char>>,
    roots: WatchRootsView,
    unit: UnitTargetView,
)
    requires
        well_named(config),
        resolved(config, targets) is Ok,
        resolved(config, targets)->Ok_0.contains(unit),
    ensures
        watch_spec_of(config, targets, roots) matches Ok(spec) && {
            &&& ordered(spec.services)
            &&& spec.stability == config.watch.stability
            &&& lookup(spec.services, unit.name) is Some <==> unit.behavior is Service
            &&& lookup(spec.services, unit.name) matches Some(dirs) ==> {
                &&& unit.watch_paths.len() == 0 ==> dirs == seq![roots.base]
                &&& unit.watch_paths.len() > 0 ==> dirs.len() == unit.watch_paths.len()
                &&& forall|i: int|
                    0 <= i < unit.watch_paths.len() ==> (#[trigger] dirs[i]) == (if absolute(
                        unit.watch_paths[i],
                    ) {
                        unit.watch_paths[i]
                    } else {
                        match lookup(roots.canonical, join_spec(roots.base, unit.watch_paths[i])) {
                            Some(canonical) => canonical,
                            None => join_spec(roots.base, unit.watch_paths[i]),
                        }
                    })
            }
        },
{
    let units = resolved(config, targets)->Ok_0;
    lemma_watched_services_lookup(units, roots, unit.name);
    lemma_same_unit(config, targets, unit);
    let k = choose|k: int| 0 <= k < units.len() && units[k] == unit;
    assert(units[k].name == unit.name);
}

proof fn lemma_same_unit(config: ConfigView, targets: Seq<Seq<char>>, unit: UnitTargetView)
    requires
        well_named(config),
        resolved(config, targets) is Ok,
        resolved(config, targets)->Ok_0.contains(unit),
    ensures
        forall|i: int|
            0 <= i < resolved(config, targets)->Ok_0.len() && (#[trigger] resolved(
                config,
                targets,
            )->Ok_0[i]).name == unit.name ==> resolved(config, targets)->Ok_0[i] == unit,
{
    let units = resolved(config, targets)->Ok_0;
    resolved_units_are_configured(config, targets, unit);
    let under = choose|under: Seq<char>| #[trigger]
        lookup(config.targets, under) == Some(TargetView::Unit(unit));
    assert(under == unit.name);
    assert forall|i: int|
        0 <= i < units.len() && (#[trigger] units[i]).name == unit.name implies units[i]
        == unit by {
        assert(units.contains(units[i]));
        resolved_units_are_configured(config, targets, units[i]);
        let other = choose|other: Seq<char>| #[trigger]
            lookup(config.targets, other) == Some(TargetView::Unit(units[i]));
        assert(other == units[i].name);
    }
}

// ---------------------------------------------------------------------------
// Starting and restarting by name
// ---------------------------------------------------------------------------

proof fn lemma_requested_kind(
    controls: Seq<(Seq<char>, TargetControlView)>,
    units: Seq<UnitTargetView>,
    desired: DesiredState,
    unit: UnitTargetView,
)
    requires
        units.contains(unit),
        forall|i: int|
            0 <= i < units.len() && (#[trigger] units[i]).name == unit.name ==> units[i] == unit,
    ensures
        lookup(with_requests(controls, units, desired), unit.name) matches Some(control)
            && control.kind == kind_of(unit.behavior),
    decreases units.len(),
{
    let front = units.drop_last();
    let last = units[units.len() - 1];
    let before = with_requests(controls, front, desired);
    lemma_lookup_put(
        before,
        last.name,
        TargetControlView {
            kind: kind_of(last.behavior),
            ..requested(control_of(before, last.name), desired)
        },
        unit.name,
    );
    if last.name != unit.name {
        let k = choose|k: int| 0 <= k < units.len() && units[k] == unit;
        assert(front[k] == unit);
        assert forall|i: int|
            0 <= i < front.len() && (#[trigger] front[i]).name == unit.name implies front[i]
            == unit by {
            assert(units[i].name == unit.name);
        }
        lemma_requested_kind(controls, front, desired, unit);
    }
}

/// A start asks every unit that the named targets stand for to run, as the kind that it is, and
/// asks nothing of any other target; what is known of processes, ports and generations stays.
pub proof fn started_units_are_to_run(
    runner: RunnerView,
    config: ConfigView,
    targets: Seq<Seq<char>>,
    unit: UnitTargetView,
    other: Seq<char>,
)
    requires
        well_named(config),
        resolved(config, targets) is Ok,
        resolved(config, targets)->Ok_0.contains(unit),
        forall|i: int|
            0 <= i < resolved(config, targets)->Ok_0.len() ==> (#[trigger] resolved(
                config,
                targets,
            )->Ok_0[i]).name != other,
    ensures
        ({
            let after = after_start_request(runner, config, targets);
            &&& lookup(after.controls, unit.name) matches Some(control) && control.desired_state
                == DesiredState::Running && control.kind == (if unit.behavior is Service {
                TargetKind::Service
            } else {
                TargetKind::Job
            })
            &&& lookup(after.controls, other) == lookup(runner.controls, other)
            &&& after.state == runner.state
            &&& after.processes == runner.processes
            &&& after.reserved == runner.reserved
            &&& after.generations == runner.generations
            &&& after.refresh_on_change == runner.refresh_on_change
        }),
{
    let units = resolved(config, targets)->Ok_0;
    lemma_same_unit(config, targets, unit);
    let k = choose|k: int| 0 <= k < units.len() && units[k] == unit;
    assert(units[k].name == unit.name);
    lemma_with_requests(runner.controls, units, DesiredState::Running, unit.name);
    lemma_with_requests(runner.controls, units, DesiredState::Running, other);
    lemma_requested_kind(runner.controls, units, DesiredState::Running, unit);
}

proof fn lemma_watched_name(units: Seq<UnitTargetView>, name: Seq<char>)
    ensures
        watched_names(units).contains(name) <==> exists|i: int|
            0 <= i < units.len() && (#[trigger] units[i]).name == name && units[i].behavior
                is Service && units[i].refresh_watch_type == WatchPreference::Rufa,
    decreases units.len(),
{
    let all = watched_names(units);
    if units.len() > 0 {
        let front = units.drop_last();
        let some = watched_names(front);
        let last = units[units.len() - 1];
        lemma_watched_name(front, name);
        if all.contains(name) {
            let k = choose|k: int| 0 <= k < all.len() && all[k] == name;
            if k < some.len() {
                assert(some[k] == name);
                let i = choose|i: int|
                    0 <= i < front.len() && (#[trigger] front[i]).name == name && front[i].behavior
                        is Service && front[i].refresh_watch_type == WatchPreference::Rufa;
                assert(units[i].name == name);
            } else {
                assert(last.name == name);
            }
        }
        if exists|i: int|
            0 <= i < units.len() && (#[trigger] units[i]).name == name && units[i].behavior
                is Service && units[i].refresh_watch_type == WatchPreference::Rufa {
            let i = choose|i: int|
                0 <= i < units.len() && (#[trigger] units[i]).name == name && units[i].behavior
                    is Service && units[i].refresh_watch_type == WatchPreference::Rufa;
            if i < front.len() {
                assert(front[i].name == name);
                let k = choose|k: int| 0 <= k < some.len() && some[k] == name;
                assert(all[k] == name);
            } else {
                assert(all[some.len() as int] == name);
            }
        }
    }
}

/// A start asks the file watcher to watch exactly those services among its units whose files the
/// supervisor is to watch, and nothing where there is none.
pub proof fn started_services_are_watched(
    config: ConfigView,
    targets: Seq<Seq<char>>,
    roots: WatchRootsView,
    unit: UnitTargetView,
)
    requires
        well_named(config),
        resolved(config, targets) is Ok,
        resolved(config, targets)->Ok_0.contains(unit),
    ensures
        start_request(config, targets, roots) matches Ok(start) && {
            let watched = unit.behavior is Service && unit.refresh_watch_type
                == WatchPreference::Rufa;
            &&& watched ==> (start.rufa_watch matches Some(watch) && lookup(
                watch.services,
                unit.name,
            ) is Some)
            &&& !watched ==> (start.rufa_watch matches Some(watch) ==> lookup(
                watch.services,
                unit.name,
            ) is None)
        },
{
    let units = resolved(config, targets)->Ok_0;
    let names = watched_names(units);
    lemma_start_outcome(config, targets, roots);
    lemma_watched_name(units, unit.name);
    lemma_same_unit(config, targets, unit);
    let k = choose|k: int| 0 <= k < units.len() && units[k] == unit;
    assert(units[k].name == unit.name);
    resolved_units_are_configured(config, targets, unit);
    let under = choose|under: Seq<char>| #[trigger]
        lookup(config.targets, under) == Some(TargetView::Unit(unit));
    assert(under == unit.name);
    if names.len() > 0 {
        let chosen = resolved(config, names)->Ok_0;
        lemma_watched_services_lookup(chosen, roots, unit.name);
        assert forall|i: int| 0 <= i < names.len() implies names_unit(
            config,
            #[trigger] names[i],
        ) by {
            lemma_watched_names(units, i);
            let k = choose|k: int| 0 <= k < units.len() && (#[trigger] units[k]).name == names[i];
            assert(units.contains(units[k]));
            resolved_units_are_configured(config, targets, units[k]);
            let at = choose|at: Seq<char>| #[trigger]
                lookup(config.targets, at) == Some(TargetView::Unit(units[k]));
            assert(at == units[k].name);
        }
        if names.contains(unit.name) {
            lemma_unit_is_resolved(config, names, unit.name);
            let i = choose|i: int| 0 <= i < chosen.len() && chosen[i] == unit;
            assert(chosen[i].name == unit.name);
        } else if lookup(watched_services(chosen, roots), unit.name) is Some {
            let i = choose|i: int|
                0 <= i < chosen.len() && (#[trigger] chosen[i]).name == unit.name
                    && chosen[i].behavior is Service && lookup(
                    watched_services(chosen, roots),
                    unit.name,
                )->0 == watch_dirs(chosen[i], roots);
            assert(chosen.contains(chosen[i]));
            lemma_units_are_named(config, names, chosen[i]);
        }
    }
}

/// A restart of named targets is refused where none is named, where one is not configured, and
/// where they stand for a job; otherwise every unit that they stand for is to be restarted, and
/// nothing is asked of any other target.
pub proof fn named_services_are_restarted(
    runner: RunnerView,
    config: ConfigView,
    targets: Seq<Seq<char>>,
    roots: WatchRootsView,
    name: Seq<char>,
)
    requires
        well_named(config),
    ensures
        ({
            let after = after_restart_request(runner, config, targets, false);
            let result = restart_request(runner, config, targets, false, roots);
            let units = resolved(config, targets);
            let jobs = exists|i: int|
                0 <= i < units->Ok_0.len() && (#[trigger] units->Ok_0[i]).behavior is Job;
            let asked = exists|i: int|
                0 <= i < units->Ok_0.len() && (#[trigger] units->Ok_0[i]).name == name;
            &&& result is Ok <==> targets.len() > 0 && units is Ok && units->Ok_0.len() > 0 && !jobs
            &&& targets.len() == 0 ==> result == Err::<StartOutcomeView, _>(
                RunnerErrorView::NoTargets,
            )
            &&& targets.len() > 0 && units is Ok && jobs ==> (result matches Err(
                RunnerErrorView::IsJob(job),
            ) && exists|i: int|
                0 <= i < units->Ok_0.len() && (#[trigger] units->Ok_0[i]).name == job
                    && units->Ok_0[i].behavior is Job)
            &&& result is Err ==> after == runner
            &&& result is Ok && asked ==> (lookup(after.controls, name) matches Some(control)
                && control.desired_state == DesiredState::Restarted)
            &&& result is Ok && !asked ==> lookup(after.controls, name) == lookup(
                runner.controls,
                name,
            )
        }),
{
    if resolved(config, targets) is Ok {
        let units = resolved(config, targets)->Ok_0;
        lemma_first_job_found(units);
        lemma_start_outcome(config, targets, roots);
        lemma_with_requests(runner.controls, units, DesiredState::Restarted, name);
    }
}

proof fn lemma_first_job_found(units: Seq<UnitTargetView>)
    ensures
        first_job(units) is None <==> !(exists|i: int|
            0 <= i < units.len() && (#[trigger] units[i]).behavior is Job),
        first_job(units) matches Some(job) ==> exists|i: int|
            0 <= i < units.len() && (#[trigger] units[i]).name == job && units[i].behavior is Job,
    decreases units.len(),
{
    if units.len() > 0 {
        let front = units.drop_last();
        let last = units[units.len() - 1];
        lemma_first_job_found(front);
        if let Some(job) = first_job(front) {
            let i = choose|i: int|
                0 <= i < front.len() && (#[trigger] front[i]).name == job && front[i].behavior
                    is Job;
            assert(units[i].name == job);
        } else {
            assert forall|i: int| 0 <= i < units.len() && (#[trigger] units[i]).behavior
                is Job implies i == units.len() - 1 by {
                if i < front.len() {
                    assert(front[i].behavior is Job);
                }
            }
            assert(last.behavior is Job ==> units[units.len() - 1].name == last.name);
        }
    }
}

proof fn lemma_stop_requests(runner: RunnerView, names: Seq<Seq<char>>, name: Seq<char>)
    ensures
        names.contains(name) ==> (lookup(after_stop_requests(runner, names).controls, name) matches
            Some(control) && control.desired_state == DesiredState::Stopped),
        !names.contains(name) ==> lookup(after_stop_requests(runner, names).controls, name)
            == lookup(runner.controls, name),
    decreases names.len(),
{
    if names.len() > 0 {
        let front = names.drop_last();
        let last = names[names.len() - 1];
        let before = after_stop_requests(runner, front);
        lemma_stop_requests(runner, front, name);
        lemma_lookup_put(
            before.controls,
            last,
            requested(control_of(before.controls, last), DesiredState::Stopped),
            name,
        );
        if front.contains(name) {
            let i = choose|i: int| 0 <= i < front.len() && front[i] == name;
            assert(names[i] == name);
        }
        if names.contains(name) {
            let i = choose|i: int| 0 <= i < names.len() && names[i] == name;
            if i < front.len() {
                assert(front[i] == name);
            }
        }
    }
}

/// A request to stop all asks every running target to stop and no other.
pub proof fn all_running_targets_are_to_stop(runner: RunnerView, name: Seq<char>)
    requires
        runner.processes.finite(),
    ensures
        ({
            let after = after_stop_requests(runner, listing(runner.processes));
            &&& runner.processes.contains(name) ==> (lookup(after.controls, name) matches Some(
                control,
            ) && control.desired_state == DesiredState::Stopped)
            &&& !runner.processes.contains(name) ==> lookup(after.controls, name) == lookup(
                runner.controls,
                name,
            )
        }),
{
    lemma_finite_set_is_listed(runner.processes);
    lemma_stop_requests(runner, listing(runner.processes), name);
}

} // verus!
