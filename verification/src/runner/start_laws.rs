//! What a start comes to, whatever happens on the way.

use vstd::prelude::*;

use crate::config::model::{
    permits_spec, ConfigView, PortSelection, UnitTargetView, WatchPreference,
};
use crate::names::{lemma_lookup_put, lemma_ordered_put, lookup, ordered, put};
use crate::numbers::decimal_spec;
use crate::runner::drivers::command_spec;
use crate::runner::environment::environment;
use crate::runner::ports::{
    assigned, assigned_port_is_permitted, distinct, lowest_unreserved, port_message, ports_of,
    released, requests, reserved_after, search_stage, search_step, sound_search, specific,
    unassigned, unit_requests, BindAnswer, PortError, PortRequestView, PortSearch, PortStep,
    SearchStage,
};
use crate::runner::process::{started_state, started_target_runs, state_of};
use crate::runner::start::{
    first_running, launch_of, new_run, start_begin, start_selection, start_step, to_ports, within,
    LaunchView, StartActionView, StartEvent, StartPhaseView, StartRunView,
};
use crate::runner::resolve::resolved;
use crate::runner::supervisor::{watched_names, RunnerErrorView, RunnerView};
use crate::state::RuntimeStateView;
use crate::text::{occurs_in, part_occurs};

verus! {

// ---------------------------------------------------------------------------
// Noting ports
// ---------------------------------------------------------------------------

/// The port that is noted for a port name of a target.
pub open spec fn port_found(
    assignments: Seq<(Seq<char>, Seq<(Seq<char>, u16)>)>,
    target: Seq<char>,
    name: Seq<char>,
) -> Option<u16> {
    match lookup(assignments, target) {
        Some(ports) => lookup(ports, name),
        None => None,
    }
}

/// After a port was noted for a port name of a target, it is found there, and every other port of
/// that target and of every other target is found as before.
pub proof fn noted_port_is_found(
    assignments: Seq<(Seq<char>, Seq<(Seq<char>, u16)>)>,
    target: Seq<char>,
    name: Seq<char>,
    port: u16,
    other_target: Seq<char>,
    other_name: Seq<char>,
)
    ensures
        port_found(assigned(assignments, target, name, port), target, name) == Some(port),
        other_target != target || other_name != name ==> port_found(
            assigned(assignments, target, name, port),
            other_target,
            other_name,
        ) == port_found(assignments, other_target, other_name),
{
    let ports = ports_of(assignments, target);
    lemma_lookup_put(assignments, target, put(ports, name, port), target);
    lemma_lookup_put(assignments, target, put(ports, name, port), other_target);
    lemma_lookup_put(ports, name, port, name);
    lemma_lookup_put(ports, name, port, other_name);
}

// ---------------------------------------------------------------------------
// What is asked for
// ---------------------------------------------------------------------------

/// Whether units of some name declare a port that is chosen in this way.
pub open spec fn declares(
    units: Seq<UnitTargetView>,
    target: Seq<char>,
    name: Seq<char>,
    selection: PortSelection,
) -> bool {
    exists|i: int, j: int|
        0 <= i < units.len() && 0 <= j < units[i].ports.len() && units[i].name == target && (
        #[trigger] units[i].ports[j]).0 == name && units[i].ports[j].1.selection == selection
}

/// Whether a selection allows a port: any port, one in a range, or just one.
pub open spec fn allowed(selection: PortSelection, port: u16) -> bool {
    match selection {
        PortSelection::Auto => true,
        PortSelection::AutoRange { start, end } => start <= port <= end,
        PortSelection::Fixed(fixed) => port == fixed,
    }
}

/// Whether some request is about a port of a target.
pub open spec fn requested_port(
    list: Seq<PortRequestView>,
    target: Seq<char>,
    name: Seq<char>,
) -> bool {
    exists|k: int| 0 <= k < list.len() && (#[trigger] list[k]).target == target && list[k].name == name
}

/// Every port that units declare is asked for, and nothing else is; a port of the last run is
/// asked for again only where it is still allowed.
pub proof fn every_declared_port_is_requested(
    units: Seq<UnitTargetView>,
    state: RuntimeStateView,
)
    ensures
        forall|k: int|
            0 <= k < requests(units, state).len() ==> declares(
                units,
                (#[trigger] requests(units, state)[k]).target,
                requests(units, state)[k].name,
                requests(units, state)[k].selection,
            ),
        forall|i: int, j: int|
            0 <= i < units.len() && 0 <= j < units[i].ports.len() ==> requested_port(
                requests(units, state),
                units[i].name,
                (#[trigger] units[i].ports[j]).0,
            ),
        forall|k: int|
            0 <= k < requests(units, state).len() ==> ((
            #[trigger] requests(units, state)[k]).previous matches Some(port) ==> allowed(
                requests(units, state)[k].selection,
                port,
            )),
    decreases units.len(),
{
    if units.len() > 0 {
        let front = units.drop_last();
        let last = units[units.len() - 1];
        let before = requests(front, state);
        let more = unit_requests(last.name, last.ports, state);
        let all = requests(units, state);
        every_declared_port_is_requested(front, state);
        assert(all == before + more);
        assert forall|k: int| 0 <= k < all.len() implies declares(
            units,
            (#[trigger] all[k]).target,
            all[k].name,
            all[k].selection,
        ) && (all[k].previous matches Some(port) ==> allowed(all[k].selection, port)) by {
            if k < before.len() {
                assert(all[k] == before[k]);
                let (i, j) = choose|i: int, j: int|
                    0 <= i < front.len() && 0 <= j < front[i].ports.len() && front[i].name
                        == before[k].target && (#[trigger] front[i].ports[j]).0 == before[k].name
                        && front[i].ports[j].1.selection == before[k].selection;
                assert(units[i].ports[j].0 == all[k].name);
            } else {
                let j = k - before.len();
                assert(all[k] == more[j]);
                assert(units[units.len() - 1].ports[j].0 == all[k].name);
            }
        }
        assert forall|i: int, j: int|
            0 <= i < units.len() && 0 <= j < units[i].ports.len() implies requested_port(
            all,
            units[i].name,
            (#[trigger] units[i].ports[j]).0,
        ) by {
            if i < front.len() {
                assert(front[i].ports[j].0 == units[i].ports[j].0);
                let k = choose|k: int|
                    0 <= k < before.len() && (#[trigger] before[k]).target == units[i].name
                        && before[k].name == units[i].ports[j].0;
                assert(all[k] == before[k]);
            } else {
                assert(all[before.len() + j] == more[j]);
            }
        }
    }
}

// ---------------------------------------------------------------------------
// Over a whole start
// ---------------------------------------------------------------------------

/// Whether exactly the first `done` requests of a start have found a port, each an allowed one.
pub open spec fn found_up_to(run: StartRunView, done: int) -> bool {
    &&& within(run)
    &&& 0 <= done <= run.requests.len()
    &&& forall|k: int|
        0 <= k < run.requests.len() ==> declares(
            run.units,
            (#[trigger] run.requests[k]).target,
            run.requests[k].name,
            run.requests[k].selection,
        )
    &&& forall|i: int, j: int|
        0 <= i < run.units.len() && 0 <= j < run.units[i].ports.len() ==> requested_port(
            run.requests,
            run.units[i].name,
            (#[trigger] run.units[i].ports[j]).0,
        )
    &&& forall|k: int|
        0 <= k < run.requests.len() ==> ((#[trigger] run.requests[k]).previous matches Some(port)
            ==> allowed(run.requests[k].selection, port))
    &&& forall|k: int|
        0 <= k < done ==> port_found(
            run.assignments,
            (#[trigger] run.requests[k]).target,
            run.requests[k].name,
        ) is Some
    &&& forall|target: Seq<char>, name: Seq<char>|
        (#[trigger] port_found(run.assignments, target, name)) matches Some(port)
            ==> found_for_one(run.requests, done, target, name, port)
    &&& forall|target: Seq<char>|
        (#[trigger] lookup(run.assignments, target)) matches Some(ports) ==> ordered(ports)
}

/// Whether one of the first `done` requests is about a port name of a target and allows a port.
pub open spec fn found_for_one(
    list: Seq<PortRequestView>,
    done: int,
    target: Seq<char>,
    name: Seq<char>,
    port: u16,
) -> bool {
    exists|k: int|
        0 <= k < done && (#[trigger] list[k]).target == target && list[k].name == name && allowed(
            list[k].selection,
            port,
        )
}

/// Whether ports are those that the units of some name declare: one for each, an allowed one, and
/// no other.
pub open spec fn declared_ports(
    units: Seq<UnitTargetView>,
    target: Seq<char>,
    ports: Seq<(Seq<char>, u16)>,
) -> bool {
    &&& ordered(ports)
    &&& forall|i: int, j: int|
        0 <= i < units.len() && 0 <= j < units[i].ports.len() && units[i].name == target ==> lookup(
            ports,
            (#[trigger] units[i].ports[j]).0,
        ) is Some
    &&& forall|name: Seq<char>|
        (#[trigger] lookup(ports, name)) matches Some(port) ==> exists|selection: PortSelection|
            #[trigger]
            declares(units, target, name, selection) && allowed(selection, port)
}

/// Whether a start has found its ports as far as it has come: those before the one that it looks
/// for, or all where it starts its units, which then get what they declare.
pub open spec fn ports_in_order(run: StartRunView) -> bool {
    match run.phase {
        StartPhaseView::Ports { request, search } => {
            &&& 0 < run.next_request <= run.requests.len()
            &&& request == run.requests[run.next_request - 1]
            &&& search.selection == request.selection
            &&& sound_search(search)
            &&& found_up_to(run, run.next_request - 1)
        },
        StartPhaseView::Recording { .. } => found_up_to(run, run.requests.len() as int),
        StartPhaseView::Holding(launch) => found_up_to(run, run.requests.len() as int)
            && declared_ports(run.units, launch.target, launch.ports),
        StartPhaseView::Spawning(launch) => found_up_to(run, run.requests.len() as int)
            && declared_ports(run.units, launch.target, launch.ports),
        StartPhaseView::Updating(_) => found_up_to(run, run.requests.len() as int),
        StartPhaseView::Over => true,
    }
}

proof fn lemma_to_ports(runner: RunnerView, run: StartRunView)
    requires
        found_up_to(run, run.next_request as int),
    ensures
        ports_in_order(to_ports(runner, run).run),
        to_ports(runner, run).run.units == run.units,
{
    let after = to_ports(runner, run).run;
    if run.next_request < run.requests.len() {
        let request = run.requests[run.next_request as int];
        let search = PortSearch {
            selection: request.selection,
            previous: request.previous,
            stage: SearchStage::Start,
        };
        assert(request.previous matches Some(port) ==> allowed(request.selection, port));
        assert(request.previous matches Some(port) ==> permits_spec(request.selection, port));
        assert(sound_search(search));
        assigned_port_is_permitted(runner.reserved, search, BindAnswer::Begin);
        if !(after.phase is Over) {
            assert(after.requests == run.requests && after.assignments == run.assignments);
            assert(found_up_to(after, run.next_request as int));
        }
    } else {
        assert(found_up_to(run, run.requests.len() as int));
        if !(after.phase is Over) {
            assert(found_up_to(after, run.requests.len() as int));
        }
    }
}

/// A start begins in order.
pub proof fn start_begins_in_order(
    runner: RunnerView,
    units: Seq<UnitTargetView>,
    env: Seq<(Seq<char>, Seq<char>)>,
)
    requires
        units.len() <= usize::MAX,
        requests(units, runner.state).len() <= usize::MAX,
    ensures
        ports_in_order(start_begin(runner, units, env).run),
        start_begin(runner, units, env).run.units == units,
{
    if first_running(runner.processes, units) is None {
        let run = new_run(runner, units, env);
        every_declared_port_is_requested(units, runner.state);
        assert forall|target: Seq<char>, name: Seq<char>| (#[trigger] port_found(
            run.assignments,
            target,
            name,
        )) is None by {
            lemma_unassigned(units, target);
        }
        assert forall|target: Seq<char>| (#[trigger] lookup(run.assignments, target)) is Some implies ordered(
            lookup(run.assignments, target)->0,
        ) by {
            lemma_unassigned(units, target);
        }
        assert(found_up_to(run, 0));
        lemma_to_ports(runner, run);
    }
}

proof fn lemma_unassigned(units: Seq<UnitTargetView>, target: Seq<char>)
    ensures
        lookup(unassigned(units), target) matches Some(ports) ==> ports.len() == 0,
    decreases units.len(),
{
    if units.len() > 0 {
        lemma_unassigned(units.drop_last(), target);
        lemma_lookup_put(unassigned(units.drop_last()), units.last().name, Seq::empty(), target);
    }
}

proof fn lemma_one_more(run: StartRunView, done: int, port: u16)
    requires
        found_up_to(run, done),
        done < run.requests.len(),
        allowed(run.requests[done].selection, port),
    ensures
        found_up_to(
            StartRunView {
                assignments: assigned(
                    run.assignments,
                    run.requests[done].target,
                    run.requests[done].name,
                    port,
                ),
                phase: StartPhaseView::Over,
                ..run
            },
            done + 1,
        ),
{
    let request = run.requests[done];
    let more = assigned(run.assignments, request.target, request.name, port);
    let after = StartRunView { assignments: more, phase: StartPhaseView::Over, ..run };
    assert forall|k: int| 0 <= k < done + 1 implies port_found(
        more,
        (#[trigger] after.requests[k]).target,
        after.requests[k].name,
    ) is Some by {
        let other = run.requests[k];
        noted_port_is_found(
            run.assignments,
            request.target,
            request.name,
            port,
            other.target,
            other.name,
        );
        if k < done {
            assert(port_found(run.assignments, other.target, other.name) is Some);
        }
    }
    assert forall|target: Seq<char>, name: Seq<char>| (#[trigger] port_found(
        more,
        target,
        name,
    )) is Some implies found_for_one(
        run.requests,
        done + 1,
        target,
        name,
        port_found(more, target, name)->0,
    ) by {
        let found = port_found(more, target, name)->0;
        noted_port_is_found(run.assignments, request.target, request.name, port, target, name);
        if target == request.target && name == request.name {
            assert(run.requests[done].target == target);
        } else {
            assert(port_found(run.assignments, target, name) == Some(found));
            assert(found_for_one(run.requests, done, target, name, found));
            let k = choose|k: int|
                0 <= k < done && (#[trigger] run.requests[k]).target == target
                    && run.requests[k].name == name && allowed(run.requests[k].selection, found);
            assert(run.requests[k].target == target);
        }
    }
    assert forall|target: Seq<char>| (#[trigger] lookup(more, target)) is Some implies ordered(
        lookup(more, target)->0,
    ) by {
        let ports = ports_of(run.assignments, request.target);
        lemma_lookup_put(run.assignments, request.target, put(ports, request.name, port), target);
        if target == request.target {
            assert(lookup(run.assignments, target) matches Some(known) ==> ordered(known));
            assert(ordered(ports));
            lemma_ordered_put(ports, request.name, port);
        } else {
            assert(lookup(run.assignments, target) == lookup(more, target));
        }
    }
    assert forall|k: int| 0 <= k < after.requests.len() implies declares(
        after.units,
        (#[trigger] after.requests[k]).target,
        after.requests[k].name,
        after.requests[k].selection,
    ) && (after.requests[k].previous matches Some(known) ==> allowed(
        after.requests[k].selection,
        known,
    )) by {
        assert(run.requests[k] == after.requests[k]);
    }
    assert forall|i: int, j: int|
        0 <= i < after.units.len() && 0 <= j < after.units[i].ports.len() implies requested_port(
        after.requests,
        after.units[i].name,
        (#[trigger] after.units[i].ports[j]).0,
    ) by {
        assert(run.units[i].ports[j] == after.units[i].ports[j]);
    }
}

proof fn lemma_declared(run: StartRunView, target: Seq<char>)
    requires
        found_up_to(run, run.requests.len() as int),
    ensures
        declared_ports(run.units, target, ports_of(run.assignments, target)),
{
    let ports = ports_of(run.assignments, target);
    assert(lookup(run.assignments, target) matches Some(known) ==> ordered(known));
    assert forall|i: int, j: int|
        0 <= i < run.units.len() && 0 <= j < run.units[i].ports.len() && run.units[i].name
            == target implies lookup(ports, (#[trigger] run.units[i].ports[j]).0) is Some by {
        let name = run.units[i].ports[j].0;
        assert(requested_port(run.requests, target, name));
        let k = choose|k: int|
            0 <= k < run.requests.len() && (#[trigger] run.requests[k]).target == target
                && run.requests[k].name == name;
        assert(port_found(run.assignments, run.requests[k].target, run.requests[k].name) is Some);
    }
    assert forall|name: Seq<char>| (#[trigger] lookup(ports, name)) is Some implies exists|
        selection: PortSelection,
    | #[trigger]
        declares(run.units, target, name, selection) && allowed(selection, lookup(ports, name)->0) by {
        let port = lookup(ports, name)->0;
        assert(port_found(run.assignments, target, name) == Some(port));
        assert(found_for_one(run.requests, run.requests.len() as int, target, name, port));
        let k = choose|k: int|
            0 <= k < run.requests.len() && (#[trigger] run.requests[k]).target == target
                && run.requests[k].name == name && allowed(run.requests[k].selection, port);
        assert(declares(run.units, target, name, run.requests[k].selection));
    }
}

/// A start stays in order, whatever happens outside: each port that is found is noted for its
/// request and no other is forgotten.
pub proof fn start_stays_in_order(runner: RunnerView, run: StartRunView, event: StartEvent)
    requires
        ports_in_order(run),
    ensures
        ports_in_order(start_step(runner, run, event).run),
        start_step(runner, run, event).run.units == run.units,
{
    let after = start_step(runner, run, event).run;
    match run.phase {
        StartPhaseView::Ports { request, search } => {
            let answer = match event {
                StartEvent::Bound(port) => BindAnswer::Bound(port),
                _ => BindAnswer::Refused,
            };
            let step = search_step(runner.reserved, search, answer);
            let stage = search_stage(runner.reserved, search, answer);
            assigned_port_is_permitted(runner.reserved, search, answer);
            if let PortStep::Assigned(port) = step {
                assert(permits_spec(search.selection, port));
                lemma_one_more(run, run.next_request - 1, port);
                let noted = StartRunView {
                    assignments: assigned(run.assignments, request.target, request.name, port),
                    phase: StartPhaseView::Over,
                    ..run
                };
                lemma_to_ports(
                    RunnerView { reserved: reserved_after(runner.reserved, step), ..runner },
                    noted,
                );
            } else if !(after.phase is Over) {
                assert(sound_search(PortSearch { stage, ..search }));
                assert(found_up_to(after, run.next_request - 1));
            }
        },
        StartPhaseView::Recording { unit, generation } => {
            if !(after.phase is Over) {
                lemma_declared(run, unit.name);
                assert(found_up_to(after, run.requests.len() as int));
            }
        },
        StartPhaseView::Holding(launch) => {
            if !(after.phase is Over) {
                assert(found_up_to(after, run.requests.len() as int));
            }
        },
        StartPhaseView::Spawning(launch) => {
            if !(after.phase is Over) {
                assert(found_up_to(after, run.requests.len() as int));
            }
        },
        StartPhaseView::Updating(target) => {
            if !(after.phase is Over) {
                assert(found_up_to(after, run.requests.len() as int));
            }
        },
        StartPhaseView::Over => {},
    }
}

/// What is launched holds exactly one port for each port that its configuration declares, an
/// allowed one, and no other; the placeholder listeners hold the same ports.
pub proof fn launch_holds_its_declared_ports(
    runner: RunnerView,
    run: StartRunView,
    event: StartEvent,
)
    requires
        ports_in_order(run),
    ensures
        start_step(runner, run, event).action matches StartActionView::Spawn(launch)
            ==> declared_ports(run.units, launch.target, launch.ports),
        start_step(runner, run, event).action matches StartActionView::HoldPorts { target, ports }
            ==> declared_ports(run.units, target, ports),
{
    if let StartPhaseView::Recording { unit, generation } = run.phase {
        lemma_declared(run, unit.name);
    }
    if let StartPhaseView::Ports { request, search } = run.phase {
        start_stays_in_order(runner, run, event);
    }
}

// ---------------------------------------------------------------------------
// Searching
// ---------------------------------------------------------------------------

/// A search begins with the port of the last run, where that is free; then it tries the one fixed
/// port, any port, or the ports of a range, as the selection says. A port that is reserved is not
/// tried, and a fixed one that is reserved is refused.
pub proof fn search_begins_with_the_last_port(
    reserved: Set<u16>,
    selection: PortSelection,
    previous: Option<u16>,
)
    ensures
        ({
            let search = PortSearch { selection, previous, stage: SearchStage::Start };
            let step = search_step(reserved, search, BindAnswer::Begin);
            &&& previous is Some && !reserved.contains(previous->0) ==> step == PortStep::Bind(
                previous->0,
            )
            &&& previous is None || reserved.contains(previous->0) ==> {
                &&& selection is Auto ==> step == PortStep::BindAny
                &&& selection matches PortSelection::Fixed(port) ==> step == (if reserved.contains(
                    port,
                ) {
                    PortStep::Failed(PortError::AlreadyReserved(port))
                } else {
                    PortStep::Bind(port)
                })
                &&& selection matches PortSelection::AutoRange { start, end } ==> (start <= end
                    && !reserved.contains(start) ==> step == PortStep::Bind(start))
            }
        }),
{
}

/// A port that could be bound is the one that is assigned, at whatever stage.
pub proof fn bound_port_is_assigned(reserved: Set<u16>, search: PortSearch, bound: u16)
    ensures
        ({
            let step = search_step(reserved, search, BindAnswer::Bound(bound));
            &&& search.stage matches SearchStage::Previous(port) ==> step == PortStep::Assigned(port)
            &&& search.stage matches SearchStage::Trying(port) ==> step == PortStep::Assigned(port)
            &&& search.stage is TryingAny ==> step == PortStep::Assigned(bound)
        }),
{
}

/// A port that could not be bound is not assigned. The search fails for a fixed port, and where
/// any port would do; where the port of the last run was tried it goes on with the selection.
pub proof fn refused_port_is_not_assigned(reserved: Set<u16>, search: PortSearch)
    ensures
        ({
            let step = search_step(reserved, search, BindAnswer::Refused);
            &&& !(search.stage is Start) ==> !(step is Assigned)
            &&& search.stage is TryingAny ==> step == PortStep::Failed(PortError::NoneLeft)
            &&& search.stage is Trying && search.selection is Auto ==> step == PortStep::Failed(
                PortError::NoneLeft,
            )
            &&& search.selection matches PortSelection::Fixed(port) ==> (search.stage is Trying
                ==> step == PortStep::Failed(PortError::Refused(port)))
            &&& search.stage is Previous && search.selection is Auto ==> step == PortStep::BindAny
        }),
{
}

/// Only the ports that are given back become free; all others stay reserved.
pub proof fn other_ports_stay_reserved(
    reserved: Set<u16>,
    ports: Seq<(Seq<char>, u16)>,
    port: u16,
)
    ensures
        released(reserved, ports).contains(port) <==> reserved.contains(port) && forall|i: int|
            0 <= i < ports.len() ==> (#[trigger] ports[i]).1 != port,
    decreases ports.len(),
{
    if ports.len() > 0 {
        let front = ports.drop_last();
        other_ports_stay_reserved(reserved, front, port);
        assert(ports.last() == ports[ports.len() - 1]);
        if forall|i: int| 0 <= i < front.len() ==> (#[trigger] front[i]).1 != port {
            assert forall|i: int| 0 <= i < ports.len() && ports.last().1 != port implies (
            #[trigger] ports[i]).1 != port by {
                if i < front.len() {
                    assert(front[i] == ports[i]);
                }
            }
        } else {
            let i = choose|i: int| 0 <= i < front.len() && (#[trigger] front[i]).1 == port;
            assert(ports[i].1 == port);
        }
    }
}

/// A placeholder listener is wanted for every port of a target, and for none twice.
pub proof fn each_port_is_held_once(ports: Seq<(Seq<char>, u16)>, port: u16)
    ensures
        distinct(ports).contains(port) <==> exists|i: int|
            0 <= i < ports.len() && (#[trigger] ports[i]).1 == port,
        distinct(ports).no_duplicates(),
    decreases ports.len(),
{
    let all = distinct(ports);
    if ports.len() > 0 {
        let front = ports.drop_last();
        let some = distinct(front);
        each_port_is_held_once(front, port);
        if some.contains(port) {
            let i = choose|i: int| 0 <= i < front.len() && (#[trigger] front[i]).1 == port;
            assert(ports[i].1 == port);
            let k = choose|k: int| 0 <= k < some.len() && some[k] == port;
            assert(all[k] == port);
        }
        if ports.last().1 == port {
            assert(ports[ports.len() - 1].1 == port);
            if !some.contains(port) {
                assert(all[some.len() as int] == port);
            }
        }
        if all.contains(port) {
            let k = choose|k: int| 0 <= k < all.len() && all[k] == port;
            if k < some.len() {
                assert(some[k] == port);
            }
        }
        if exists|i: int| 0 <= i < ports.len() && (#[trigger] ports[i]).1 == port {
            let i = choose|i: int| 0 <= i < ports.len() && (#[trigger] ports[i]).1 == port;
            if i < front.len() {
                assert(front[i].1 == port);
            }
        }
    }
}

// ---------------------------------------------------------------------------
// Launching
// ---------------------------------------------------------------------------

/// What a unit is launched with is its own: its name, the generation that was written down, the
/// command of its driver, the ports that were found for it, and its behaviour. Its files are
/// watched by the supervisor exactly where it is a service that asks for that, and by its runtime
/// exactly where it is a service that leaves that to the runtime and refreshing is on.
pub proof fn launch_is_that_of_the_unit(
    run: StartRunView,
    unit: UnitTargetView,
    generation: u64,
    port: Seq<char>,
)
    ensures
        launch_of(run, unit, generation) matches Ok(launch) ==> {
            &&& launch.target == unit.name
            &&& launch.generation == generation
            &&& launch.behavior == unit.behavior
            &&& command_spec(unit, launch.runtime_watch) == Ok::<Seq<char>, Seq<char>>(
                launch.command_line,
            )
            &&& lookup(launch.ports, port) == port_found(run.assignments, unit.name, port)
            &&& environment(
                unit,
                generation,
                run.env,
                launch.ports,
                run.assignments,
                run.snapshot,
            ) == Ok::<Seq<(Seq<char>, Seq<char>)>, Seq<char>>(launch.env)
            &&& launch.rufa_watch <==> unit.behavior is Service && unit.refresh_watch_type
                == WatchPreference::Rufa
            &&& launch.runtime_watch <==> unit.behavior is Service && unit.refresh_watch_type
                == WatchPreference::PreferRuntimeSupplied && run.refresh
        },
        launch_of(run, unit, generation) is Err ==> command_spec(unit, true) is Err || command_spec(
            unit,
            false,
        ) is Err || environment(
            unit,
            generation,
            run.env,
            ports_of(run.assignments, unit.name),
            run.assignments,
            run.snapshot,
        ) is Err,
{
}

/// Once the ports are found the units are started one after the other and in their order: each
/// time the next unit gets the generation after its last one, and the start is finished only when
/// no unit is left.
pub proof fn units_are_started_in_turn(runner: RunnerView, run: StartRunView)
    requires
        run.phase is Updating,
        run.units.len() <= usize::MAX,
        run.next_unit <= run.units.len(),
    ensures
        ({
            let next = start_step(runner, run, StartEvent::Done);
            &&& next.action is Finished <==> run.next_unit == run.units.len()
            &&& run.next_unit < run.units.len() ==> {
                let unit = run.units[run.next_unit as int];
                let known = match lookup(runner.generations, unit.name) {
                    Some(generation) => generation,
                    None => 0,
                };
                &&& next.run.next_unit == run.next_unit + 1
                &&& next.action matches StartActionView::RecordGeneration { target, generation }
                    && target == unit.name && (known < u64::MAX ==> generation == known + 1)
                &&& next.run.phase matches StartPhaseView::Recording { unit: same, .. } && same
                    == unit
            }
        }),
{
}

/// A unit whose generation is written down goes on to have its ports held and then to be spawned,
/// unless something fails; a failure names the unit and ends the start.
pub proof fn recorded_unit_is_spawned(
    runner: RunnerView,
    run: StartRunView,
    unit: UnitTargetView,
    generation: u64,
)
    requires
        run.phase == (StartPhaseView::Recording { unit, generation }),
    ensures
        ({
            let held = start_step(runner, run, StartEvent::Done);
            let spawned = start_step(held.runner, held.run, StartEvent::Done);
            match launch_of(run, unit, generation) {
                Ok(launch) => {
                    &&& held.action == StartActionView::HoldPorts {
                        target: unit.name,
                        ports: launch.ports,
                    }
                    &&& spawned.action == StartActionView::Spawn(launch)
                    &&& spawned.runner == runner
                },
                Err(_) => held.action is Failed && held.run.phase is Over,
            }
        }),
        start_step(runner, run, StartEvent::Failed).action == StartActionView::Failed(
            RunnerErrorView::Generation(unit.name),
        ),
{
}

/// A process that was started is noted with its generation, its ports and its process number; then
/// the debug entries are updated.
pub proof fn spawned_process_is_noted(
    runner: RunnerView,
    run: StartRunView,
    launch: LaunchView,
    pid: Option<u32>,
)
    requires
        run.phase == StartPhaseView::Spawning(launch),
        !runner.processes.contains(launch.target),
    ensures
        ({
            let next = start_step(runner, run, StartEvent::Spawned(pid));
            &&& next.action == StartActionView::UpdateDebug(launch.target)
            &&& next.runner.processes.contains(launch.target)
            &&& next.runner.reserved == runner.reserved
            &&& lookup(next.runner.state.targets, launch.target) matches Some(state) && state.pid
                == pid && state.generation == launch.generation && state.ports == launch.ports
                && state.rufa_watch == launch.rufa_watch && state.runtime_watch
                == launch.runtime_watch
        }),
{
    started_target_runs(
        runner,
        launch.target,
        launch.generation,
        launch.ports,
        launch.runtime_watch,
        launch.rufa_watch,
        pid,
    );
    let before = state_of(runner.state.targets, launch.target);
    lemma_lookup_put(
        runner.state.targets,
        launch.target,
        started_state(
            before,
            runner.history_keep as nat,
            launch.generation,
            launch.ports,
            launch.runtime_watch,
            launch.rufa_watch,
            pid,
        ),
        launch.target,
    );
}

/// A port is handed out exactly where nobody has it and it could be bound; otherwise it is told
/// which of the two is wrong.
pub proof fn free_port_is_handed_out(reserved: Set<u16>, port: u16, bound: bool)
    ensures
        specific(reserved, port, bound) is Ok <==> bound && !reserved.contains(port),
        reserved.contains(port) ==> specific(reserved, port, bound) == Err::<(), PortError>(
            PortError::AlreadyReserved(port),
        ),
        !reserved.contains(port) && !bound ==> specific(reserved, port, bound) == Err::<
            (),
            PortError,
        >(PortError::Refused(port)),
{
}

/// A selection permits its one port, the ports of its range with both ends, or any port.
pub proof fn selection_permits_its_ports(port: u16, other: u16, start: u16, end: u16)
    ensures
        permits_spec(PortSelection::Auto, port),
        permits_spec(PortSelection::Fixed(other), port) <==> port == other,
        permits_spec(PortSelection::AutoRange { start, end }, port) <==> start <= port <= end,
{
}

/// A range without a free port is told with both its ends.
pub proof fn full_range_is_told(reserved: Set<u16>, start: u16, end: u16)
    requires
        forall|port: u16| start <= port <= end ==> reserved.contains(port),
    ensures
        search_step(
            reserved,
            PortSearch {
                selection: PortSelection::AutoRange { start, end },
                previous: None,
                stage: SearchStage::Start,
            },
            BindAnswer::Begin,
        ) == PortStep::Failed(PortError::RangeExhausted { start, end }),
{
    lemma_none_unreserved(reserved, start as int, end);
}

proof fn lemma_none_unreserved(reserved: Set<u16>, from: int, end: u16)
    requires
        0 <= from,
        forall|port: u16| from <= port <= end ==> reserved.contains(port),
    ensures
        lowest_unreserved(reserved, from, end) is None,
    decreases end + 1 - from,
{
    if from <= end {
        assert(reserved.contains(from as u16));
        lemma_none_unreserved(reserved, from + 1, end);
    }
}

/// What is shown of a port that is not handed out names the port, or the range.
pub proof fn refused_port_is_named(port: u16, start: u16, end: u16)
    ensures
        occurs_in(
            port_message(PortError::AlreadyReserved(port)),
            decimal_spec(port as nat),
        ),
        occurs_in(port_message(PortError::Refused(port)), decimal_spec(port as nat)),
        occurs_in(
            port_message(PortError::RangeExhausted { start, end }),
            decimal_spec(start as nat),
        ),
        occurs_in(
            port_message(PortError::RangeExhausted { start, end }),
            decimal_spec(end as nat),
        ),
{
    part_occurs("port "@, decimal_spec(port as nat), " is already reserved"@);
    lemma_end_occurs("binding to specific port "@, decimal_spec(port as nat));
    lemma_parts_occur(
        "no free ports in range "@,
        decimal_spec(start as nat),
        "-"@,
        decimal_spec(end as nat),
    );
}

proof fn lemma_end_occurs(a: Seq<char>, p: Seq<char>)
    ensures
        occurs_in(a + p, p),
{
    assert(a + p + Seq::empty() =~= a + p);
    part_occurs(a, p, Seq::empty());
}

proof fn lemma_grouped(a: Seq<char>, b: Seq<char>, c: Seq<char>)
    ensures
        a + b + c == a + (b + c),
{
    assert(a + b + c =~= a + (b + c));
}

proof fn lemma_parts_occur(a: Seq<char>, x: Seq<char>, b: Seq<char>, y: Seq<char>)
    ensures
        occurs_in(a + x + b + y, x),
        occurs_in(a + x + b + y, y),
{
    lemma_end_occurs(a + x + b, y);
    lemma_grouped(a + x, b, y);
    part_occurs(a, x, b + y);
}

/// A start is about the units that are resolved, and is refused where there are none.
pub proof fn start_is_about_the_resolved_units(config: ConfigView, targets: Seq<Seq<char>>)
    ensures
        resolved(config, targets) matches Ok(units) ==> (units.len() > 0 ==> start_selection(
            config,
            targets,
        ) == Ok::<Seq<UnitTargetView>, RunnerErrorView>(units)),
        resolved(config, targets) matches Ok(units) ==> (units.len() == 0 ==> start_selection(
            config,
            targets,
        ) == Err::<Seq<UnitTargetView>, RunnerErrorView>(RunnerErrorView::NothingSelected)),
        resolved(config, targets) matches Err(error) ==> start_selection(config, targets) == Err::<
            Seq<UnitTargetView>,
            RunnerErrorView,
        >(RunnerErrorView::Resolve(error)),
{
}

/// A start that is refused since a unit runs already names the first such unit.
pub proof fn running_unit_is_named(
    runner: RunnerView,
    units: Seq<UnitTargetView>,
    env: Seq<(Seq<char>, Seq<char>)>,
    i: int,
)
    requires
        0 <= i < units.len(),
        runner.processes.contains(units[i].name),
        forall|k: int| 0 <= k < i ==> !runner.processes.contains((#[trigger] units[k]).name),
    ensures
        start_begin(runner, units, env).action == StartActionView::Failed(
            RunnerErrorView::AlreadyRunning(units[i].name),
        ),
{
    lemma_first_is(runner.processes, units, i);
}

proof fn lemma_first_is(processes: Set<Seq<char>>, units: Seq<UnitTargetView>, i: int)
    requires
        0 <= i <= units.len(),
        i < units.len() ==> processes.contains(units[i].name),
        forall|k: int| 0 <= k < i ==> !processes.contains((#[trigger] units[k]).name),
    ensures
        first_running(processes, units) == (if i < units.len() {
            Some(units[i].name)
        } else {
            None
        }),
    decreases units.len(),
{
    if units.len() > 0 {
        let front = units.drop_last();
        assert forall|k: int| 0 <= k < front.len() implies #[trigger] front[k] == units[k] by {}
        if i < front.len() {
            assert(front[i] == units[i]);
            lemma_first_is(processes, front, i);
        } else {
            lemma_first_is(processes, front, front.len() as int);
            if i > front.len() {
                assert(!processes.contains(units[units.len() - 1].name));
            }
        }
    }
}

/// A start that begins without ports to find goes on with the first unit, and takes the setting of
/// the supervisor for all its units.
pub proof fn start_takes_the_setting(
    runner: RunnerView,
    units: Seq<UnitTargetView>,
    env: Seq<(Seq<char>, Seq<char>)>,
)
    requires
        units.len() > 0,
        forall|k: int| 0 <= k < units.len() ==> !runner.processes.contains((#[trigger] units[k]).name),
        forall|k: int| 0 <= k < units.len() ==> (#[trigger] units[k]).ports.len() == 0,
    ensures
        ({
            let begun = start_begin(runner, units, env);
            &&& begun.action matches StartActionView::RecordGeneration { target, .. } && target
                == units[0].name
            &&& begun.run.refresh == runner.refresh_on_change
            &&& begun.run.env == env
            &&& begun.run.units == units
            &&& begun.run.snapshot == runner.state
            &&& begun.run.next_unit == 1
        }),
{
    lemma_first_is(runner.processes, units, units.len() as int);
    lemma_no_requests(units, runner.state);
}

proof fn lemma_no_requests(units: Seq<UnitTargetView>, state: RuntimeStateView)
    requires
        forall|k: int| 0 <= k < units.len() ==> (#[trigger] units[k]).ports.len() == 0,
    ensures
        requests(units, state).len() == 0,
    decreases units.len(),
{
    if units.len() > 0 {
        let front = units.drop_last();
        assert forall|k: int| 0 <= k < front.len() implies (#[trigger] front[k]).ports.len()
            == 0 by {
            assert(front[k] == units[k]);
        }
        lemma_no_requests(front, state);
        assert(units[units.len() - 1].ports.len() == 0);
    }
}

/// A start that is finished tells the services whose files the supervisor is to watch: those that
/// ask for it.
pub proof fn finished_start_tells_what_to_watch(
    runner: RunnerView,
    run: StartRunView,
    name: Seq<char>,
)
    requires
        run.phase is Updating,
        run.next_unit == run.units.len(),
    ensures
        start_step(runner, run, StartEvent::Done).action matches StartActionView::Finished(names)
            && (names.contains(name) <==> exists|k: int|
            0 <= k < run.units.len() && (#[trigger] run.units[k]).name == name
                && run.units[k].behavior is Service && run.units[k].refresh_watch_type
                == WatchPreference::Rufa),
{
    lemma_watched_names(run.units, name);
}

proof fn lemma_watched_names(units: Seq<UnitTargetView>, name: Seq<char>)
    ensures
        watched_names(units).contains(name) <==> exists|k: int|
            0 <= k < units.len() && (#[trigger] units[k]).name == name && units[k].behavior
                is Service && units[k].refresh_watch_type == WatchPreference::Rufa,
    decreases units.len(),
{
    if units.len() > 0 {
        let front = units.drop_last();
        let before = watched_names(front);
        let after = watched_names(units);
        lemma_watched_names(front, name);
        assert forall|k: int| 0 <= k < front.len() implies #[trigger] front[k] == units[k] by {}
        if before.contains(name) {
            let j = choose|j: int| 0 <= j < before.len() && before[j] == name;
            assert(after[j] == name);
            let k = choose|k: int|
                0 <= k < front.len() && (#[trigger] front[k]).name == name && front[k].behavior
                    is Service && front[k].refresh_watch_type == WatchPreference::Rufa;
            assert(units[k] == front[k]);
        }
        if after.contains(name) {
            let j = choose|j: int| 0 <= j < after.len() && after[j] == name;
            if j < before.len() {
                assert(before[j] == name);
            } else {
                assert(units[units.len() - 1].name == name);
            }
        }
        if exists|k: int|
            0 <= k < units.len() && (#[trigger] units[k]).name == name && units[k].behavior
                is Service && units[k].refresh_watch_type == WatchPreference::Rufa {
            let k = choose|k: int|
                0 <= k < units.len() && (#[trigger] units[k]).name == name && units[k].behavior
                    is Service && units[k].refresh_watch_type == WatchPreference::Rufa;
            if k < front.len() {
                assert(front[k] == units[k]);
            } else {
                assert(after[after.len() - 1] == name);
            }
        }
    }
}

/// A start that fails on the way names the unit, and where a process came too late its ports are
/// given back.
pub proof fn failed_start_names_the_unit(
    runner: RunnerView,
    run: StartRunView,
    launch: LaunchView,
    pid: Option<u32>,
)
    ensures
        run.phase == StartPhaseView::Holding(launch) ==> start_step(
            runner,
            run,
            StartEvent::Failed,
        ).action == StartActionView::Failed(RunnerErrorView::Listeners(launch.target)),
        run.phase == StartPhaseView::Spawning(launch) ==> start_step(
            runner,
            run,
            StartEvent::Failed,
        ).action == StartActionView::Failed(RunnerErrorView::Spawn(launch.target)),
        run.phase == StartPhaseView::Spawning(launch) && runner.processes.contains(launch.target)
            ==> start_step(runner, run, StartEvent::Spawned(pid)).action
            == StartActionView::Failed(RunnerErrorView::AlreadyRunning(launch.target)),
        run.phase == StartPhaseView::Updating(launch.target) ==> start_step(
            runner,
            run,
            StartEvent::Failed,
        ).action == StartActionView::Failed(RunnerErrorView::DebugUpdate(launch.target)),
{
}

} // verus!
