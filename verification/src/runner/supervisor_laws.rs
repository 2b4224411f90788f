//! What holds of the supervisor whatever it is asked for.

use vstd::prelude::*;

use crate::config::model::{ConfigView, UnitTargetView};
use crate::names::{lemma_finite_set_is_listed, lemma_lookup_put, listing, lookup};
use crate::paths::{absolute, join_spec};
use crate::runner::control::{
    carried_out, describe_spec, desired_text, plan_for, ActionResultView, ActionView, DesiredState,
    TargetControlView,
};
use crate::runner::generation::recorded;
use crate::runner::resolve::{resolve_message, resolved, ResolveErrorView};
use crate::runner::supervisor::{
    after_action, after_choice, after_restart_request, after_start_request, chosen_action,
    chosen_control, control_info_of, control_of, first_job, new_runner, relative_paths,
    restart_request, restart_selection, runner_message, start_request, unresolved_paths,
    with_control, RunnerErrorView, RunnerView, StartOutcomeView, WatchRootsView,
};
use crate::text::{occurs_in, part_occurs};

verus! {

// ---------------------------------------------------------------------------
// Controls
// ---------------------------------------------------------------------------

/// What is wanted of a target is noted for it, and changes nothing of other targets, of processes
/// or of ports.
pub proof fn control_is_noted_for_its_target(
    runner: RunnerView,
    target: Seq<char>,
    control: TargetControlView,
    other: Seq<char>,
)
    ensures
        control_of(with_control(runner, target, control).controls, target) == control,
        other != target ==> control_of(with_control(runner, target, control).controls, other)
            == control_of(runner.controls, other),
        with_control(runner, target, control).processes == runner.processes,
        with_control(runner, target, control).in_flight == runner.in_flight,
        with_control(runner, target, control).reserved == runner.reserved,
        with_control(runner, target, control).state == runner.state,
        with_control(runner, target, control).generations == runner.generations,
{
    lemma_lookup_put(runner.controls, target, control, target);
    lemma_lookup_put(runner.controls, target, control, other);
}

/// Of a target that nothing was asked for it is wanted that it does not run.
pub proof fn unasked_target_is_not_to_run(
    controls: Seq<(Seq<char>, TargetControlView)>,
    target: Seq<char>,
)
    requires
        lookup(controls, target) is None,
    ensures
        control_of(controls, target).desired_state == DesiredState::Stopped,
        control_of(controls, target).action_plan is Idle,
        !control_of(controls, target).watch_request,
        control_info_of(controls, target) is None,
{
}

/// What is wanted of a target and what is planned for it is shown as it is.
pub proof fn control_is_shown_as_it_is(
    controls: Seq<(Seq<char>, TargetControlView)>,
    target: Seq<char>,
)
    ensures
        lookup(controls, target) matches Some(control) ==> (control_info_of(controls, target)
            matches Some(info) && info.desired_state == desired_text(control.desired_state)
            && info.action_plan == describe_spec(control.action_plan)),
{
}

/// A plan is shown with what it does and what comes after success and after failure.
pub proof fn plan_is_shown_with_its_steps(a: ActionView, b: ActionView, message: Seq<char>)
    ensures
        describe_spec(ActionView::Start { on_success: Box::new(a), on_failure: Box::new(b) })
            == "Start(success: "@ + describe_spec(a) + ", failure: "@ + describe_spec(b) + ")"@,
        describe_spec(ActionView::Stop { on_success: Box::new(a), on_failure: Box::new(b) })
            == "Stop(success: "@ + describe_spec(a) + ", failure: "@ + describe_spec(b) + ")"@,
        describe_spec(
            ActionView::SetDesiredState { desired: DesiredState::Running, next: Box::new(a) },
        ) == "SetDesiredState("@ + "running"@ + ", next: "@ + describe_spec(a) + ")"@,
        describe_spec(ActionView::Idle(ActionResultView::Done)) == "Idle("@ + "ok"@ + ")"@,
        describe_spec(ActionView::Idle(ActionResultView::NotStarted)) == "Idle("@
            + "not started"@ + ")"@,
        describe_spec(ActionView::Idle(ActionResultView::Error(message))) == "Idle("@ + (
        "error: "@ + message) + ")"@,
{
}

/// A plan that fails tells what failed, for which target.
pub proof fn failed_plan_names_its_target(target: Seq<char>)
    ensures
        plan_for(DesiredState::Running, target) matches ActionView::Start { on_failure, .. }
            && *on_failure == ActionView::Idle(
            ActionResultView::Error("failed to start "@ + target),
        ),
        plan_for(DesiredState::Stopped, target) matches ActionView::Stop { on_failure, .. }
            && *on_failure == ActionView::Idle(
            ActionResultView::Error("failed to stop "@ + target),
        ),
        plan_for(DesiredState::Restarted, target) matches ActionView::Stop { on_failure, .. }
            && *on_failure == ActionView::Idle(
            ActionResultView::Error("failed to stop "@ + target),
        ),
{
}

// ---------------------------------------------------------------------------
// Actions
// ---------------------------------------------------------------------------

/// At most one action for a target is under way: none is chosen while one is, the one that is
/// chosen is under way, and is no longer when it is finished.
pub proof fn one_action_is_under_way(
    runner: RunnerView,
    target: Seq<char>,
    action: ActionView,
    success: bool,
)
    ensures
        runner.in_flight.contains(target) ==> chosen_action(runner, target) is None,
        chosen_action(runner, target) is Some ==> after_choice(runner, target).in_flight.contains(
            target,
        ) && chosen_action(after_choice(runner, target), target) is None,
        !after_action(runner, target, action, success).in_flight.contains(target),
        chosen_action(runner, target) is None ==> after_choice(runner, target).in_flight
            == runner.in_flight,
{
}

/// Choosing and finishing an action for one target changes nothing of another, and neither starts
/// nor ends a process by itself.
pub proof fn actions_concern_only_their_target(
    runner: RunnerView,
    target: Seq<char>,
    other: Seq<char>,
    action: ActionView,
    success: bool,
)
    requires
        other != target,
    ensures
        control_of(after_choice(runner, target).controls, other) == control_of(
            runner.controls,
            other,
        ),
        control_of(after_action(runner, target, action, success).controls, other) == control_of(
            runner.controls,
            other,
        ),
        after_choice(runner, target).in_flight.contains(other) == runner.in_flight.contains(other),
        after_action(runner, target, action, success).in_flight.contains(other)
            == runner.in_flight.contains(other),
        after_choice(runner, target).processes == runner.processes,
        after_action(runner, target, action, success).processes == runner.processes,
        after_choice(runner, target).reserved == runner.reserved,
        after_action(runner, target, action, success).reserved == runner.reserved,
{
    lemma_lookup_put(runner.controls, target, chosen_control(runner, target), other);
    lemma_lookup_put(
        runner.controls,
        target,
        carried_out(control_of(runner.controls, target), action, success),
        other,
    );
}

/// A target that is to run and does not is started; one that is to stop and runs is stopped; one
/// that is to be restarted is stopped first; and one that is as wanted is left alone.
pub proof fn action_is_what_is_wanted(runner: RunnerView, target: Seq<char>)
    requires
        !runner.in_flight.contains(target),
        control_of(runner.controls, target).action_plan is Idle,
    ensures
        ({
            let desired = control_of(runner.controls, target).desired_state;
            let runs = runner.processes.contains(target);
            let action = chosen_action(runner, target);
            &&& desired == DesiredState::Running && !runs ==> action is Some && action->0 is Start
            &&& desired == DesiredState::Running && runs ==> action is None
            &&& desired == DesiredState::Stopped && runs ==> action is Some && action->0 is Stop
            &&& desired == DesiredState::Stopped && !runs ==> action is None
            &&& desired == DesiredState::Restarted ==> action is Some && action->0 is Stop
        }),
{
}

/// An action that succeeded leaves the target as wanted: a start and a stop that are finished are
/// not chosen again while the processes are as they left them.
pub proof fn finished_action_is_not_repeated(runner: RunnerView, target: Seq<char>)
    requires
        !runner.in_flight.contains(target),
        control_of(runner.controls, target).action_plan is Idle,
        control_of(runner.controls, target).desired_state != DesiredState::Restarted,
        chosen_action(runner, target) is Some,
    ensures
        ({
            let action = chosen_action(runner, target)->0;
            let after = after_action(after_choice(runner, target), target, action, true);
            let moved = RunnerView {
                processes: if action is Start {
                    after.processes.insert(target)
                } else {
                    after.processes.remove(target)
                },
                ..after
            };
            &&& chosen_action(moved, target) is None
            &&& chosen_action(after_action(after_choice(runner, target), target, action, false), target)
                == Some(action)
        }),
{
    let control = chosen_control(runner, target);
    let action = chosen_action(runner, target)->0;
    let chosen = after_choice(runner, target);
    lemma_lookup_put(runner.controls, target, control, target);
    assert(control_of(chosen.controls, target) == control);
    lemma_lookup_put(chosen.controls, target, carried_out(control, action, true), target);
    lemma_lookup_put(chosen.controls, target, carried_out(control, action, false), target);
}

// ---------------------------------------------------------------------------
// Requests
// ---------------------------------------------------------------------------

/// A start of a selection that cannot be resolved, or holds nothing to run, is refused, and changes
/// nothing.
pub proof fn start_of_nothing_is_refused(
    runner: RunnerView,
    config: ConfigView,
    targets: Seq<Seq<char>>,
    roots: WatchRootsView,
)
    ensures
        resolved(config, targets) matches Err(error) ==> start_request(config, targets, roots)
            == Err::<StartOutcomeView, RunnerErrorView>(RunnerErrorView::Resolve(error)) && after_start_request(
            runner,
            config,
            targets,
        ) == runner,
        resolved(config, targets) matches Ok(units) ==> (units.len() == 0 ==> start_request(
            config,
            targets,
            roots,
        ) == Err::<StartOutcomeView, RunnerErrorView>(RunnerErrorView::NothingSelected)),
{
}

/// A restart that is refused says why: no target is given, none runs, the selection cannot be
/// resolved, or it names a job. It changes nothing.
pub proof fn refused_restart_says_why(
    runner: RunnerView,
    config: ConfigView,
    targets: Seq<Seq<char>>,
    all: bool,
    roots: WatchRootsView,
    i: int,
)
    requires
        runner.processes.finite(),
    ensures
        all && runner.processes.is_empty() ==> restart_request(runner, config, targets, all, roots)
            == Err::<StartOutcomeView, RunnerErrorView>(RunnerErrorView::NothingRunning),
        !all && targets.len() == 0 ==> restart_request(runner, config, targets, all, roots)
            == Err::<StartOutcomeView, RunnerErrorView>(RunnerErrorView::NoTargets),
        !all && targets.len() > 0 ==> (resolved(config, targets) matches Err(error)
            ==> restart_request(runner, config, targets, all, roots) == Err::<StartOutcomeView, RunnerErrorView>(
            RunnerErrorView::Resolve(error),
        )),
        !all && targets.len() > 0 ==> (resolved(config, targets) matches Ok(units) ==> (0 <= i
            < units.len() && units[i].behavior is Job && (forall|k: int|
            0 <= k < i ==> (#[trigger] units[k]).behavior is Service) ==> restart_request(
            runner,
            config,
            targets,
            all,
            roots,
        ) == Err::<StartOutcomeView, RunnerErrorView>(RunnerErrorView::IsJob(units[i].name)))),
        restart_selection(runner, config, targets, all) is Err ==> after_restart_request(
            runner,
            config,
            targets,
            all,
        ) == runner,
{
    lemma_finite_set_is_listed(runner.processes);
    if runner.processes.is_empty() {
        let running = listing(runner.processes);
        if running.len() > 0 {
            assert(running.contains(running[0]));
            assert(runner.processes.contains(running[0]));
            assert(runner.processes =~= Set::<Seq<char>>::empty());
        }
    }
    if let Ok(units) = resolved(config, targets) {
        if 0 <= i < units.len() && units[i].behavior is Job && (forall|k: int|
            0 <= k < i ==> (#[trigger] units[k]).behavior is Service) {
            lemma_first_job(units, i);
        }
    }
}

proof fn lemma_first_job(units: Seq<UnitTargetView>, i: int)
    requires
        0 <= i < units.len(),
        units[i].behavior is Job,
        forall|k: int| 0 <= k < i ==> (#[trigger] units[k]).behavior is Service,
    ensures
        first_job(units) == Some(units[i].name),
    decreases units.len(),
{
    let front = units.drop_last();
    if i < front.len() {
        assert(front[i] == units[i]);
        assert forall|k: int| 0 <= k < i implies (#[trigger] front[k]).behavior is Service by {
            assert(front[k] == units[k]);
        }
        lemma_first_job(front, i);
    } else {
        assert forall|k: int| 0 <= k < front.len() implies (#[trigger] front[k]).behavior
            is Service by {
            assert(front[k] == units[k]);
        }
        lemma_no_job(front);
    }
}

proof fn lemma_no_job(units: Seq<UnitTargetView>)
    requires
        forall|k: int| 0 <= k < units.len() ==> (#[trigger] units[k]).behavior is Service,
    ensures
        first_job(units) is None,
    decreases units.len(),
{
    if units.len() > 0 {
        let front = units.drop_last();
        assert forall|k: int| 0 <= k < front.len() implies (#[trigger] front[k]).behavior
            is Service by {
            assert(front[k] == units[k]);
        }
        lemma_no_job(front);
        assert(units[units.len() - 1].behavior is Service);
    }
}

/// What is shown of an error names the target and port that it is about.
pub proof fn error_names_its_target(name: Seq<char>, port: Seq<char>, error: ResolveErrorView)
    ensures
        runner_message(RunnerErrorView::Resolve(error)) == resolve_message(error),
        occurs_in(runner_message(RunnerErrorView::IsJob(name)), name),
        occurs_in(runner_message(RunnerErrorView::AlreadyRunning(name)), name),
        occurs_in(runner_message(RunnerErrorView::Ports { target: name, name: port }), name),
        occurs_in(runner_message(RunnerErrorView::Ports { target: name, name: port }), port),
        occurs_in(runner_message(RunnerErrorView::Generation(name)), name),
        occurs_in(runner_message(RunnerErrorView::Command(name)), name),
        occurs_in(runner_message(RunnerErrorView::Environment(name)), name),
        occurs_in(runner_message(RunnerErrorView::Listeners(name)), name),
        occurs_in(runner_message(RunnerErrorView::Spawn(name)), name),
        occurs_in(runner_message(RunnerErrorView::DebugUpdate(name)), name),
{
    part_occurs("target "@, name, " is a job; re-run it explicitly instead of restarting"@);
    part_occurs("target "@, name, " is already running"@);
    assert("allocating port for "@ + name + ("."@ + port) =~= "allocating port for "@ + name + "."@
        + port);
    part_occurs("allocating port for "@, name, "."@ + port);
    lemma_ends_with("allocating port for "@ + name + "."@, port);
    lemma_named(RunnerErrorView::Generation(name), name);
    lemma_named(RunnerErrorView::Command(name), name);
    lemma_named(RunnerErrorView::Environment(name), name);
    lemma_named(RunnerErrorView::Listeners(name), name);
    lemma_named(RunnerErrorView::Spawn(name), name);
    lemma_named(RunnerErrorView::DebugUpdate(name), name);
}

proof fn lemma_ends_with(a: Seq<char>, name: Seq<char>)
    ensures
        occurs_in(a + name, name),
{
    assert(a + name + Seq::empty() =~= a + name);
    part_occurs(a, name, Seq::empty());
}

proof fn lemma_named(error: RunnerErrorView, name: Seq<char>)
    requires
        error == RunnerErrorView::Generation(name) || error == RunnerErrorView::Command(name)
            || error == RunnerErrorView::Environment(name) || error == RunnerErrorView::Listeners(
            name,
        ) || error == RunnerErrorView::Spawn(name) || error == RunnerErrorView::DebugUpdate(name),
    ensures
        occurs_in(runner_message(error), name),
{
    let message = runner_message(error);
    let a = message.take(message.len() - name.len());
    assert(a + name =~= message);
    lemma_ends_with(a, name);
}

// ---------------------------------------------------------------------------
// Paths
// ---------------------------------------------------------------------------

/// The paths that are to be resolved are those of the units that are written from the directory of
/// the configuration, below it; absolute paths are not.
pub proof fn relative_paths_are_resolved(
    units: Seq<UnitTargetView>,
    base: Seq<char>,
    i: int,
    k: int,
)
    requires
        0 <= i < units.len(),
        0 <= k < units[i].watch_paths.len(),
    ensures
        !absolute(units[i].watch_paths[k]) ==> unresolved_paths(units, base).contains(
            join_spec(base, units[i].watch_paths[k]),
        ),
    decreases units.len(),
{
    let front = units.drop_last();
    let before = unresolved_paths(front, base);
    let here = relative_paths(units.last().watch_paths, base);
    if !absolute(units[i].watch_paths[k]) {
        let wanted = join_spec(base, units[i].watch_paths[k]);
        if i < front.len() {
            assert(front[i] == units[i]);
            relative_paths_are_resolved(front, base, i, k);
            let j = choose|j: int| 0 <= j < before.len() && before[j] == wanted;
            assert((before + here)[j] == wanted);
        } else {
            lemma_relative_paths(units.last().watch_paths, base, k);
            let j = choose|j: int| 0 <= j < here.len() && here[j] == wanted;
            assert((before + here)[before.len() + j] == wanted);
        }
    }
}

proof fn lemma_relative_paths(paths: Seq<Seq<char>>, base: Seq<char>, k: int)
    requires
        0 <= k < paths.len(),
        !absolute(paths[k]),
    ensures
        relative_paths(paths, base).contains(join_spec(base, paths[k])),
    decreases paths.len(),
{
    let front = paths.drop_last();
    let before = relative_paths(front, base);
    let after = relative_paths(paths, base);
    if k < front.len() {
        assert(front[k] == paths[k]);
        lemma_relative_paths(front, base, k);
        let j = choose|j: int| 0 <= j < before.len() && before[j] == join_spec(base, paths[k]);
        assert(after[j] == join_spec(base, paths[k]));
    } else {
        assert(after[before.len() as int] == join_spec(base, paths[k]));
    }
}

/// A new supervisor has nothing running, reserved or under way, knows the generations that were
/// recorded, keeps at least one run, and is set as it is told.
pub proof fn new_supervisor_has_nothing_running(
    config_path: Seq<char>,
    refresh_on_change: bool,
    history_keep: usize,
    env_override_path: Option<Seq<char>>,
    records: Seq<(Seq<char>, u64)>,
    target: Seq<char>,
    port: u16,
)
    ensures
        ({
            let runner = new_runner(
                config_path,
                refresh_on_change,
                history_keep,
                env_override_path,
                records,
            );
            &&& runner.config_path == config_path
            &&& runner.refresh_on_change == refresh_on_change
            &&& runner.env_override_path == env_override_path
            &&& runner.history_keep >= 1
            &&& history_keep >= 1 ==> runner.history_keep == history_keep
            &&& runner.generations == recorded(records)
            &&& !runner.processes.contains(target)
            &&& !runner.in_flight.contains(target)
            &&& !runner.reserved.contains(port)
            &&& lookup(runner.state.targets, target) is None
            &&& chosen_action(runner, target) is None
        }),
{
}

/// No other paths are resolved.
pub proof fn only_relative_paths_are_resolved(units: Seq<UnitTargetView>, base: Seq<char>, j: int)
    requires
        0 <= j < unresolved_paths(units, base).len(),
    ensures
        exists|i: int, k: int|
            0 <= i < units.len() && 0 <= k < units[i].watch_paths.len() && !absolute(
                #[trigger] units[i].watch_paths[k],
            ) && unresolved_paths(units, base)[j] == join_spec(base, units[i].watch_paths[k]),
    decreases units.len(),
{
    let front = units.drop_last();
    let before = unresolved_paths(front, base);
    if j < before.len() {
        only_relative_paths_are_resolved(front, base, j);
        let (i, k) = choose|i: int, k: int|
            0 <= i < front.len() && 0 <= k < front[i].watch_paths.len() && !absolute(
                #[trigger] front[i].watch_paths[k],
            ) && before[j] == join_spec(base, front[i].watch_paths[k]);
        assert(units[i] == front[i]);
        assert(!absolute(units[i].watch_paths[k]));
    } else {
        let paths = units.last().watch_paths;
        lemma_only_relative(paths, base, j - before.len());
        let k = choose|k: int|
            0 <= k < paths.len() && !absolute(#[trigger] paths[k]) && relative_paths(paths, base)[j
                - before.len()] == join_spec(base, paths[k]);
        assert(units[units.len() - 1].watch_paths[k] == paths[k]);
    }
}

proof fn lemma_only_relative(paths: Seq<Seq<char>>, base: Seq<char>, j: int)
    requires
        0 <= j < relative_paths(paths, base).len(),
    ensures
        exists|k: int|
            0 <= k < paths.len() && !absolute(#[trigger] paths[k]) && relative_paths(paths, base)[j]
                == join_spec(base, paths[k]),
    decreases paths.len(),
{
    let front = paths.drop_last();
    let before = relative_paths(front, base);
    if j < before.len() {
        lemma_only_relative(front, base, j);
        let k = choose|k: int|
            0 <= k < front.len() && !absolute(#[trigger] front[k]) && before[j] == join_spec(
                base,
                front[k],
            );
        assert(paths[k] == front[k]);
    } else {
        assert(!absolute(paths[paths.len() - 1]));
    }
}

} // verus!
