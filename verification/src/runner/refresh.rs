//! Restarting targets whose files changed.

use vstd::prelude::*;

use crate::config::model::{Config, ConfigView, Target, TargetView, WatchPreference};
use crate::names::{
    in_order, lemma_finite_set_is_listed, lemma_lookup_found, lemma_lookup_put,
    lemma_ordered_drop_last, listing, lookup, ordered, put, NameMap,
};
use crate::runner::control::{requested, DesiredState, TargetControlView, TargetKind};
use crate::runner::requests::{
    lemma_services_resolve, lemma_start_outcome, lemma_with_requests, names_service, well_named,
};
use crate::runner::resolve::{resolve_units, resolved};
use crate::runner::supervisor::{
    after_requests, after_restart_request, control_of, names_to_watch, restart_request,
    start_outcome, watch_outcome, watched_names, with_control, Runner, RunnerError,
    RunnerErrorView, RunnerView, StartOutcome, StartOutcomeView, WatchRoots, WatchRootsView,
};
use crate::state::{RuntimeStateView, TargetState, TargetStateView};
use crate::text::{lemma_precedes_irreflexive, precedes_spec};
use crate::views::{outcome, Duplicate};

verus! {

// ---------------------------------------------------------------------------
// Stale targets
// ---------------------------------------------------------------------------

/// Whether a target runs and a change of its files was seen while refreshing was off.
pub open spec fn stale(state: TargetStateView) -> bool {
    state.change_noticed_restart_necessary && state.pid is Some
}

/// The names of the stale targets, in name order.
pub open spec fn stale_names(targets: Seq<(Seq<char>, TargetStateView)>) -> Seq<Seq<char>>
    decreases targets.len(),
{
    if targets.len() == 0 {
        Seq::empty()
    } else if stale(targets.last().1) {
        stale_names(targets.drop_last()).push(targets.last().0)
    } else {
        stale_names(targets.drop_last())
    }
}

/// A target of which nothing is to be done any more.
pub open spec fn not_stale(state: TargetStateView) -> TargetStateView {
    if stale(state) {
        TargetStateView { change_noticed_restart_necessary: false, ..state }
    } else {
        state
    }
}

/// The targets without the notes that they are stale.
pub open spec fn none_stale(targets: Seq<(Seq<char>, TargetStateView)>) -> Seq<
    (Seq<char>, TargetStateView),
>
    decreases targets.len(),
{
    if targets.len() == 0 {
        Seq::empty()
    } else {
        put(none_stale(targets.drop_last()), targets.last().0, not_stale(targets.last().1))
    }
}

/// The supervisor after the stale targets were taken.
pub open spec fn after_stale_taken(runner: RunnerView) -> RunnerView {
    RunnerView {
        state: RuntimeStateView { targets: none_stale(runner.state.targets) },
        ..runner
    }
}

/// What a restart of the stale targets comes to. Where the configuration cannot be loaded it is
/// refused, unless nothing is stale.
pub open spec fn stale_restart(
    runner: RunnerView,
    config: Option<ConfigView>,
    roots: WatchRootsView,
) -> Result<(Seq<Seq<char>>, StartOutcomeView), RunnerErrorView> {
    let names = stale_names(runner.state.targets);
    if names.len() == 0 {
        Ok((names, StartOutcomeView { rufa_watch: None }))
    } else {
        match config {
            None => Err(RunnerErrorView::Unconfigured),
            Some(config) => match restart_request(
                after_stale_taken(runner),
                config,
                names,
                false,
                roots,
            ) {
                Ok(start) => Ok((names, start)),
                Err(error) => Err(error),
            },
        }
    }
}

/// The supervisor after a restart of the stale targets was asked for.
pub open spec fn after_stale_restart(runner: RunnerView, config: Option<ConfigView>) -> RunnerView {
    let names = stale_names(runner.state.targets);
    match config {
        Some(config) => if names.len() == 0 {
            after_stale_taken(runner)
        } else {
            after_restart_request(after_stale_taken(runner), config, names, false)
        },
        None => after_stale_taken(runner),
    }
}

impl Runner {
    /// Takes the names of the stale targets; from then on they are not stale.
    pub fn take_stale_targets(&mut self) -> (r: Vec<String>)
        ensures
            r.deep_view() == stale_names(old(self).deep_view().state.targets),
            final(self).deep_view() == after_stale_taken(old(self).deep_view()),
    {
        let ghost list = self.state.targets.deep_view();
        let mut names: Vec<String> = Vec::new();
        let mut targets: NameMap<TargetState> = NameMap::new();
        let mut i: usize = 0;
        assert(list.take(0) =~= Seq::empty());
        assert(names.deep_view() =~= Seq::empty());
        while i < self.state.targets.len()
            invariant
                i <= list.len(),
                list == self.state.targets.deep_view(),
                self.deep_view() == old(self).deep_view(),
                names.deep_view() == stale_names(list.take(i as int)),
                targets.deep_view() == none_stale(list.take(i as int)),
            decreases list.len() - i,
        {
            assert(list.take(i + 1).drop_last() =~= list.take(i as int));
            let name: &String = self.state.targets.name_at(i);
            let mut entry: TargetState = self.state.targets.value_at(i).duplicate();
            if entry.change_noticed_restart_necessary && entry.pid.is_some() {
                let ghost before = names.deep_view();
                entry.change_noticed_restart_necessary = false;
                names.push(name.clone());
                assert(names.deep_view() =~= before.push(name@));
            }
            let _ = targets.insert(name.clone(), entry);
            i = i + 1;
        }
        assert(list.take(i as int) =~= list);
        self.state.targets = targets;
        names
    }

    /// Asks that the stale targets are restarted, and tells which they are and what the file
    /// watcher should do.
    pub fn restart_stale_targets(&mut self, config: Option<&Config>, roots: &WatchRoots) -> (r:
        Result<(Vec<String>, StartOutcome), RunnerError>)
        ensures
            outcome(r) == stale_restart(
                old(self).deep_view(),
                config.deep_view(),
                roots.deep_view(),
            ),
            final(self).deep_view() == after_stale_restart(
                old(self).deep_view(),
                config.deep_view(),
            ),
    {
        let names: Vec<String> = self.take_stale_targets();
        if names.len() == 0 {
            return Ok((names, StartOutcome { rufa_watch: None }));
        }
        let config = match config {
            Some(config) => config,
            None => return Err(RunnerError::Unconfigured),
        };
        match self.request_restart(config, &names, false, roots) {
            Ok(start) => Ok((names, start)),
            Err(error) => Err(error),
        }
    }
}

// ---------------------------------------------------------------------------
// Targets that refresh themselves
// ---------------------------------------------------------------------------

/// Whether a target is a service in the watch mode of its own runtime.
pub open spec fn runtime_refreshed(config: ConfigView, name: Seq<char>) -> bool {
    match lookup(config.targets, name) {
        Some(TargetView::Unit(unit)) => unit.behavior is Service && unit.refresh_watch_type
            == WatchPreference::PreferRuntimeSupplied,
        _ => false,
    }
}

/// Those of the names whose targets refresh themselves.
pub open spec fn runtime_names(config: ConfigView, names: Seq<Seq<char>>) -> Seq<Seq<char>>
    decreases names.len(),
{
    if names.len() == 0 {
        Seq::empty()
    } else if runtime_refreshed(config, names.last()) {
        runtime_names(config, names.drop_last()).push(names.last())
    } else {
        runtime_names(config, names.drop_last())
    }
}

/// What a restart of the running targets that refresh themselves comes to.
pub open spec fn runtime_restart(
    runner: RunnerView,
    config: Option<ConfigView>,
    roots: WatchRootsView,
) -> Result<(Seq<Seq<char>>, StartOutcomeView), RunnerErrorView> {
    let running = listing(runner.processes);
    let nothing = (Seq::<Seq<char>>::empty(), StartOutcomeView { rufa_watch: None });
    if running.len() == 0 {
        Ok(nothing)
    } else {
        match config {
            None => Err(RunnerErrorView::Unconfigured),
            Some(config) => {
                let names = runtime_names(config, running);
                if names.len() == 0 {
                    Ok(nothing)
                } else {
                    match resolved(config, names) {
                        Err(error) => Err(RunnerErrorView::Resolve(error)),
                        Ok(units) => match start_outcome(config, watched_names(units), roots) {
                            Err(error) => Err(error),
                            Ok(start) => Ok((names, start)),
                        },
                    }
                }
            },
        }
    }
}

/// The supervisor after a restart of the running targets that refresh themselves was asked for.
pub open spec fn after_runtime_restart(
    runner: RunnerView,
    config: Option<ConfigView>,
) -> RunnerView {
    let running = listing(runner.processes);
    match config {
        None => runner,
        Some(config) => {
            let names = runtime_names(config, running);
            match resolved(config, names) {
                Err(_) => runner,
                Ok(units) => if names.len() == 0 {
                    runner
                } else {
                    after_requests(runner, units, DesiredState::Restarted)
                },
            }
        },
    }
}

fn names_refreshed_by_runtime(config: &Config, names: &Vec<String>) -> (r: Vec<String>)
    ensures
        r.deep_view() == runtime_names(config.deep_view(), names.deep_view()),
{
    let ghost list = names.deep_view();
    let mut r: Vec<String> = Vec::new();
    let mut i: usize = 0;
    assert(list.take(0) =~= Seq::empty());
    assert(r.deep_view() =~= Seq::empty());
    while i < names.len()
        invariant
            i <= names@.len(),
            list == names.deep_view(),
            r.deep_view() == runtime_names(config.deep_view(), list.take(i as int)),
        decreases names@.len() - i,
    {
        assert(list.take(i + 1).drop_last() =~= list.take(i as int));
        let refreshed: bool = match config.targets.get(names[i].as_str()) {
            Some(Target::Unit(unit)) => unit.behavior.is_service() && unit.refresh_watch_type
                == WatchPreference::PreferRuntimeSupplied,
            _ => false,
        };
        if refreshed {
            let ghost before = r.deep_view();
            r.push(names[i].clone());
            assert(r.deep_view() =~= before.push(list[i as int]));
        }
        i = i + 1;
    }
    assert(list.take(i as int) =~= list);
    r
}

impl Runner {
    /// Asks that the running services in the watch mode of their own runtime are restarted, so
    /// that they take up a changed refresh setting. Tells which they are and what the file watcher
    /// should do.
    pub fn restart_runtime_refresh_targets(&mut self, config: Option<&Config>, roots: &WatchRoots) -> (r:
        Result<(Vec<String>, StartOutcome), RunnerError>)
        ensures
            outcome(r) == runtime_restart(
                old(self).deep_view(),
                config.deep_view(),
                roots.deep_view(),
            ),
            final(self).deep_view() == after_runtime_restart(
                old(self).deep_view(),
                config.deep_view(),
            ),
    {
        let running: Vec<String> = self.processes.to_vec();
        let nothing: Vec<String> = Vec::new();
        assert(nothing.deep_view() =~= Seq::empty());
        if running.len() == 0 {
            assert(running.deep_view() =~= Seq::empty());
            return Ok((nothing, StartOutcome { rufa_watch: None }));
        }
        let config = match config {
            Some(config) => config,
            None => return Err(RunnerError::Unconfigured),
        };
        let names: Vec<String> = names_refreshed_by_runtime(config, &running);
        if names.len() == 0 {
            return Ok((nothing, StartOutcome { rufa_watch: None }));
        }
        let units = match resolve_units(config, &names) {
            Ok(units) => units,
            Err(error) => return Err(RunnerError::Resolve(error)),
        };
        self.request_units(&units, DesiredState::Restarted);
        let watched: Vec<String> = names_to_watch(&units);
        match watch_outcome(config, &watched, roots) {
            Ok(start) => Ok((names, start)),
            Err(error) => Err(error),
        }
    }
}

// ---------------------------------------------------------------------------
// Changes that the watcher sees
// ---------------------------------------------------------------------------

/// Whether a change of its files concerns a target: it is a service that should run and whose
/// files the supervisor watches.
pub open spec fn concerned(runner: RunnerView, target: Seq<char>) -> bool {
    &&& lookup(runner.controls, target) matches Some(control) && control.kind
        == TargetKind::Service && control.desired_state == DesiredState::Running
    &&& lookup(runner.state.targets, target) matches Some(state) && state.rufa_watch
}

/// Whether a change of its files restarts a target.
pub open spec fn change_restarts(runner: RunnerView, target: Seq<char>) -> bool {
    concerned(runner, target) && runner.refresh_on_change && !lookup(
        runner.state.targets,
        target,
    )->0.runtime_watch
}

/// The supervisor with another note whether a target is stale.
pub open spec fn with_stale_note(runner: RunnerView, target: Seq<char>, note: bool) -> RunnerView {
    let state = lookup(runner.state.targets, target)->0;
    RunnerView {
        state: RuntimeStateView {
            targets: put(
                runner.state.targets,
                target,
                TargetStateView { change_noticed_restart_necessary: note, ..state },
            ),
        },
        ..runner
    }
}

/// The supervisor after a change of the files of a target was seen.
pub open spec fn after_change(runner: RunnerView, target: Seq<char>) -> RunnerView {
    let noted = with_stale_note(runner, target, !runner.refresh_on_change);
    if !concerned(runner, target) {
        runner
    } else if !change_restarts(runner, target) {
        noted
    } else {
        with_control(
            noted,
            target,
            requested(control_of(runner.controls, target), DesiredState::Restarted),
        )
    }
}

impl Runner {
    /// Takes note of a change of the files of `target`, and tells whether the target restarts for
    /// it. Where refreshing is off the target is noted as stale instead.
    pub fn request_restart_from_watch(&mut self, target: &str) -> (r: bool)
        ensures
            r == change_restarts(old(self).deep_view(), target@),
            final(self).deep_view() == after_change(old(self).deep_view(), target@),
    {
        let considered: bool = match self.controls.get(target) {
            Some(control) => control.kind == TargetKind::Service && control.desired_state
                == DesiredState::Running,
            None => false,
        };
        if !considered {
            return false;
        }
        let mut entry: TargetState = match self.state.targets.get(target) {
            Some(entry) => entry.duplicate(),
            None => return false,
        };
        if !entry.rufa_watch {
            return false;
        }
        let runtime_watch: bool = entry.runtime_watch;
        entry.change_noticed_restart_necessary = !self.refresh_on_change;
        let _ = self.state.targets.insert(target.to_owned(), entry);
        if !self.refresh_on_change || runtime_watch {
            return false;
        }
        self.set_desired_state_for(target, DesiredState::Restarted);
        true
    }
}

// ---------------------------------------------------------------------------
// Laws
// ---------------------------------------------------------------------------

/// A job is never restarted because files changed.
pub proof fn jobs_are_not_restarted_by_changes(runner: RunnerView, target: Seq<char>)
    requires
        lookup(runner.controls, target) matches Some(control) && control.kind == TargetKind::Job,
    ensures
        !change_restarts(runner, target),
        after_change(runner, target) == runner,
{
}

/// While refreshing is off a change restarts nothing; a watched service that runs is noted as
/// stale, so that it is restarted when the stale targets are.
pub proof fn change_while_refresh_is_off_marks_stale(runner: RunnerView, target: Seq<char>)
    requires
        !runner.refresh_on_change,
    ensures
        !change_restarts(runner, target),
        after_change(runner, target).controls == runner.controls,
        concerned(runner, target) && lookup(runner.state.targets, target)->0.pid is Some ==> {
            let after = lookup(after_change(runner, target).state.targets, target);
            after is Some && stale(after->0)
        },
{
    if concerned(runner, target) {
        let state = lookup(runner.state.targets, target)->0;
        lemma_lookup_put(
            runner.state.targets,
            target,
            TargetStateView { change_noticed_restart_necessary: true, ..state },
            target,
        );
    }
}

/// A restart for a change asks that the target is restarted and touches no other target.
pub proof fn change_restarts_only_its_target(
    runner: RunnerView,
    target: Seq<char>,
    other: Seq<char>,
)
    requires
        change_restarts(runner, target),
        other != target,
    ensures
        lookup(after_change(runner, target).controls, target) matches Some(control)
            && control.desired_state == DesiredState::Restarted,
        lookup(after_change(runner, target).controls, other) == lookup(runner.controls, other),
        lookup(after_change(runner, target).state.targets, other) == lookup(
            runner.state.targets,
            other,
        ),
{
    let state = lookup(runner.state.targets, target)->0;
    let control = requested(control_of(runner.controls, target), DesiredState::Restarted);
    lemma_lookup_put(runner.controls, target, control, target);
    lemma_lookup_put(runner.controls, target, control, other);
    lemma_lookup_put(
        runner.state.targets,
        target,
        TargetStateView { change_noticed_restart_necessary: false, ..state },
        other,
    );
}

/// Once the stale targets were taken none is stale, and nothing else is changed.
pub proof fn stale_targets_are_taken_once(runner: RunnerView, target: Seq<char>)
    ensures
        lookup(after_stale_taken(runner).state.targets, target) == (match lookup(
            runner.state.targets,
            target,
        ) {
            Some(state) => Some(not_stale(state)),
            None => None,
        }),
        lookup(after_stale_taken(runner).state.targets, target) matches Some(state) ==> !stale(
            state,
        ),
{
    lemma_none_stale(runner.state.targets, target);
}

proof fn lemma_none_stale(targets: Seq<(Seq<char>, TargetStateView)>, name: Seq<char>)
    ensures
        lookup(none_stale(targets), name) == (match lookup(targets, name) {
            Some(state) => Some(not_stale(state)),
            None => None,
        }),
    decreases targets.len(),
{
    if targets.len() > 0 {
        lemma_none_stale(targets.drop_last(), name);
        lemma_lookup_put(
            none_stale(targets.drop_last()),
            targets.last().0,
            not_stale(targets.last().1),
            name,
        );
    }
}

/// A change restarts a target exactly where the target is a service that should run, the
/// supervisor watches its files, its runtime does not, and refreshing is on. Nothing else is ever
/// asked of a target because of a change.
pub proof fn watched_service_restarts_for_a_change(
    runner: RunnerView,
    target: Seq<char>,
    control: TargetControlView,
    state: TargetStateView,
)
    requires
        lookup(runner.controls, target) == Some(control),
        lookup(runner.state.targets, target) == Some(state),
    ensures
        change_restarts(runner, target) <==> control.kind == TargetKind::Service
            && control.desired_state == DesiredState::Running && state.rufa_watch
            && !state.runtime_watch && runner.refresh_on_change,
        lookup(after_change(runner, target).controls, target) matches Some(after)
            && after.desired_state == (if change_restarts(runner, target) {
            DesiredState::Restarted
        } else {
            control.desired_state
        }) && after.kind == control.kind,
        lookup(after_change(runner, target).state.targets, target) matches Some(after) && after == (
        TargetStateView {
            change_noticed_restart_necessary: if control.kind == TargetKind::Service
                && control.desired_state == DesiredState::Running && state.rufa_watch {
                !runner.refresh_on_change
            } else {
                state.change_noticed_restart_necessary
            },
            ..state
        }),
{
    lemma_lookup_put(
        runner.state.targets,
        target,
        TargetStateView { change_noticed_restart_necessary: !runner.refresh_on_change, ..state },
        target,
    );
    lemma_lookup_put(
        runner.controls,
        target,
        requested(control_of(runner.controls, target), DesiredState::Restarted),
        target,
    );
}

/// A change of a target of which nothing is known restarts nothing.
pub proof fn unknown_target_is_not_restarted(runner: RunnerView, target: Seq<char>)
    requires
        lookup(runner.controls, target) is None || lookup(runner.state.targets, target) is None,
    ensures
        !change_restarts(runner, target),
        after_change(runner, target) == runner,
{
}

proof fn lemma_stale_names(targets: Seq<(Seq<char>, TargetStateView)>, name: Seq<char>)
    requires
        ordered(targets),
    ensures
        stale_names(targets).contains(name) <==> (lookup(targets, name) matches Some(state)
            && state.change_noticed_restart_necessary && state.pid is Some),
        in_order(stale_names(targets)),
    decreases targets.len(),
{
    let all = stale_names(targets);
    if targets.len() > 0 {
        let front = targets.drop_last();
        let some = stale_names(front);
        let last = targets.last();
        lemma_ordered_drop_last(targets);
        lemma_stale_names(front, name);
        lemma_lookup_found(front, last.0);
        if let Some(state) = lookup(front, last.0) {
            let k = choose|k: int| 0 <= k < front.len() && front[k] == (last.0, state);
            assert(targets[k].0 == targets[targets.len() - 1].0);
            lemma_precedes_irreflexive(last.0);
        }
        if some.contains(name) {
            let i = choose|i: int| 0 <= i < some.len() && some[i] == name;
            assert(all[i] == name);
        }
        if all.contains(name) {
            let i = choose|i: int| 0 <= i < all.len() && all[i] == name;
            if i < some.len() {
                assert(some[i] == name);
            }
        }
        if last.0 == name && all.len() > some.len() {
            assert(all[some.len() as int] == name);
        }
        assert forall|i: int, j: int|
            #![trigger all[i], all[j]]
            0 <= i < j < all.len() implies precedes_spec(all[i], all[j]) by {
            if j < some.len() {
                assert(some[i] == all[i] && some[j] == all[j]);
            } else {
                lemma_stale_names(front, all[i]);
                assert(some[i] == all[i]);
                assert(some.contains(all[i]));
                lemma_lookup_found(front, all[i]);
                let state = lookup(front, all[i])->0;
                let k = choose|k: int| 0 <= k < front.len() && front[k] == (all[i], state);
                assert(targets[k].0 == all[i]);
                assert(targets[targets.len() - 1].0 == all[j]);
            }
        }
    }
}

/// A restart of the stale targets is about exactly the targets that run and of whose files a
/// change was noted, in name order; a change that was noted of one that does not run stays noted.
pub proof fn stale_targets_are_those_with_noted_changes(runner: RunnerView, target: Seq<char>)
    requires
        ordered(runner.state.targets),
    ensures
        stale_names(runner.state.targets).contains(target) <==> (lookup(
            runner.state.targets,
            target,
        ) matches Some(state) && state.change_noticed_restart_necessary && state.pid is Some),
        in_order(stale_names(runner.state.targets)),
        lookup(after_stale_taken(runner).state.targets, target) == (match lookup(
            runner.state.targets,
            target,
        ) {
            Some(state) => Some(
                TargetStateView {
                    change_noticed_restart_necessary: state.change_noticed_restart_necessary
                        && state.pid is None,
                    ..state
                },
            ),
            None => None,
        }),
        after_stale_taken(runner).controls == runner.controls,
        after_stale_taken(runner).processes == runner.processes,
{
    lemma_stale_names(runner.state.targets, target);
    lemma_none_stale(runner.state.targets, target);
}

/// Where the stale targets are configured services, a restart of them succeeds, tells their
/// names, and asks each of them to be restarted; no other target is asked anything.
pub proof fn stale_services_are_restarted(
    runner: RunnerView,
    config: ConfigView,
    roots: WatchRootsView,
    target: Seq<char>,
)
    requires
        ordered(runner.state.targets),
        well_named(config),
        stale_names(runner.state.targets).len() > 0,
        forall|i: int|
            0 <= i < stale_names(runner.state.targets).len() ==> names_service(
                config,
                #[trigger] stale_names(runner.state.targets)[i],
            ),
    ensures
        stale_restart(runner, Some(config), roots) matches Ok((names, _)) && names == stale_names(
            runner.state.targets,
        ),
        stale_names(runner.state.targets).contains(target) ==> (lookup(
            after_stale_restart(runner, Some(config)).controls,
            target,
        ) matches Some(control) && control.desired_state == DesiredState::Restarted),
        !stale_names(runner.state.targets).contains(target) ==> lookup(
            after_stale_restart(runner, Some(config)).controls,
            target,
        ) == lookup(runner.controls, target),
{
    let names = stale_names(runner.state.targets);
    lemma_services_resolve(config, names);
    lemma_start_outcome(config, names, roots);
    let units = resolved(config, names)->Ok_0;
    lemma_with_requests(runner.controls, units, DesiredState::Restarted, target);
    if names.contains(target) {
        let i = choose|i: int| 0 <= i < names.len() && names[i] == target;
        assert(names_service(config, names[i]));
        assert(units[i].name == target);
    } else {
        assert forall|i: int| 0 <= i < units.len() implies (#[trigger] units[i]).name
            != target by {
            assert(names_service(config, names[i]));
            assert(names.contains(names[i]));
        }
    }
}

proof fn lemma_runtime_names(config: ConfigView, names: Seq<Seq<char>>, name: Seq<char>)
    ensures
        runtime_names(config, names).contains(name) <==> names.contains(name) && (lookup(
            config.targets,
            name,
        ) matches Some(TargetView::Unit(unit)) && unit.behavior is Service
            && unit.refresh_watch_type == WatchPreference::PreferRuntimeSupplied),
    decreases names.len(),
{
    let all = runtime_names(config, names);
    if names.len() > 0 {
        let front = names.drop_last();
        let some = runtime_names(config, front);
        lemma_runtime_names(config, front, name);
        if all.contains(name) {
            let i = choose|i: int| 0 <= i < all.len() && all[i] == name;
            if i < some.len() {
                assert(some[i] == name);
                let k = choose|k: int| 0 <= k < front.len() && front[k] == name;
                assert(names[k] == name);
            } else {
                assert(names[names.len() - 1] == name);
            }
        }
        if names.contains(name) && runtime_refreshed(config, name) {
            let k = choose|k: int| 0 <= k < names.len() && names[k] == name;
            if k < front.len() {
                assert(front[k] == name);
                let i = choose|i: int| 0 <= i < some.len() && some[i] == name;
                assert(all[i] == name);
            } else {
                assert(all[some.len() as int] == name);
            }
        }
    }
}

/// A restart for a changed refresh setting is about exactly the running services in the watch
/// mode of their own runtime.
pub proof fn changed_setting_restarts_runtime_watched_services(
    runner: RunnerView,
    config: ConfigView,
    target: Seq<char>,
)
    requires
        runner.processes.finite(),
    ensures
        runtime_names(config, listing(runner.processes)).contains(target)
            <==> runner.processes.contains(target) && (lookup(config.targets, target) matches Some(
            TargetView::Unit(unit),
        ) && unit.behavior is Service && unit.refresh_watch_type
            == WatchPreference::PreferRuntimeSupplied),
{
    lemma_finite_set_is_listed(runner.processes);
    lemma_runtime_names(config, listing(runner.processes), target);
}

/// Where the refresh setting changes, the running services in the watch mode of their own runtime
/// are asked to be restarted, and their names are told; no other target is asked anything. Without
/// such a service nothing changes, and where services run but nothing is configured that is said.
pub proof fn runtime_watched_services_are_restarted(
    runner: RunnerView,
    config: ConfigView,
    roots: WatchRootsView,
    target: Seq<char>,
)
    requires
        runner.processes.finite(),
        well_named(config),
    ensures
        ({
            let names = runtime_names(config, listing(runner.processes));
            let after = after_runtime_restart(runner, Some(config));
            &&& runtime_restart(runner, Some(config), roots) matches Ok((told, _)) && told == names
            &&& names.len() == 0 ==> after == runner
            &&& names.contains(target) ==> (lookup(after.controls, target) matches Some(control)
                && control.desired_state == DesiredState::Restarted)
            &&& !names.contains(target) ==> lookup(after.controls, target) == lookup(
                runner.controls,
                target,
            )
            &&& after.processes == runner.processes
        }),
        listing(runner.processes).len() > 0 ==> (runtime_restart(runner, None, roots) matches Err(
            error,
        ) && error == RunnerErrorView::Unconfigured),
        after_runtime_restart(runner, None) == runner,
{
    let running = listing(runner.processes);
    let names = runtime_names(config, running);
    lemma_finite_set_is_listed(runner.processes);
    assert forall|i: int| 0 <= i < names.len() implies names_service(
        config,
        #[trigger] names[i],
    ) by {
        assert(names.contains(names[i]));
        lemma_runtime_names(config, running, names[i]);
    }
    if running.len() == 0 {
        assert(names =~= Seq::empty());
    }
    if names.len() == 0 {
        assert(names =~= Seq::empty());
    }
    lemma_services_resolve(config, names);
    lemma_start_outcome(config, names, roots);
    let units = resolved(config, names)->Ok_0;
    lemma_with_requests(runner.controls, units, DesiredState::Restarted, target);
    if names.contains(target) {
        let i = choose|i: int| 0 <= i < names.len() && names[i] == target;
        assert(names_service(config, names[i]));
        assert(units[i].name == target);
    } else {
        assert forall|i: int| 0 <= i < units.len() implies (#[trigger] units[i]).name
            != target by {
            assert(names_service(config, names[i]));
            assert(names.contains(names[i]));
        }
    }
}

} // verus!
