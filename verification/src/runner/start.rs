//! Starting units: ports, commands, environments and processes, one after the other.

use vstd::prelude::*;

use crate::config::model::{
    Config, ConfigView, PortSelection, TargetBehavior, UnitTarget, UnitTargetView, WatchPreference,
};
use crate::names::{lemma_lookup_put, lookup, put, NameMap};
use crate::runner::drivers::{command_spec, resolve_command};
use crate::runner::environment::{build_environment, environment, Assignments};
use crate::runner::generation::next_generation;
use crate::runner::ports::{
    assign, assigned, empty_assignments, lemma_next_is_higher, port_requests, ports_of, released,
    released_ports_are_free, requests, reserved_after, search_stage, search_step, unassigned,
    BindAnswer, PortRequest, PortRequestView, PortSearch, PortStep, SearchStage,
};
use crate::runner::process::after_spawn;
use crate::runner::resolve::{resolve_units, resolved};
use crate::runner::supervisor::{
    names_to_watch, watched_by_rufa, watched_names, Runner, RunnerError, RunnerErrorView,
    RunnerView,
};
use crate::state::{RuntimeState, RuntimeStateView};
use crate::views::{outcome, Duplicate};

verus! {

/// Everything that the process of a target is started with.
#[derive(Debug, PartialEq, Eq)]
pub struct Launch {
    pub target: String,
    pub generation: u64,
    pub command_line: String,
    pub ports: NameMap<u16>,
    pub env: NameMap<String>,
    pub runtime_watch: bool,
    pub rufa_watch: bool,
    pub behavior: TargetBehavior,
}

/// What a [`Launch`] stands for.
pub struct LaunchView {
    pub target: Seq<char>,
    pub generation: u64,
    pub command_line: Seq<char>,
    pub ports: Seq<(Seq<char>, u16)>,
    pub env: Seq<(Seq<char>, Seq<char>)>,
    pub runtime_watch: bool,
    pub rufa_watch: bool,
    pub behavior: TargetBehavior,
}

impl DeepView for Launch {
    type V = LaunchView;

    open spec fn deep_view(&self) -> LaunchView {
        LaunchView {
            target: self.target.deep_view(),
            generation: self.generation,
            command_line: self.command_line.deep_view(),
            ports: self.ports.deep_view(),
            env: self.env.deep_view(),
            runtime_watch: self.runtime_watch,
            rufa_watch: self.rufa_watch,
            behavior: self.behavior,
        }
    }
}

impl Duplicate for Launch {
    fn duplicate(&self) -> (copy: Self) {
        Launch {
            target: self.target.duplicate(),
            generation: self.generation,
            command_line: self.command_line.duplicate(),
            ports: self.ports.duplicate(),
            env: self.env.duplicate(),
            runtime_watch: self.runtime_watch,
            rufa_watch: self.rufa_watch,
            behavior: self.behavior,
        }
    }
}

/// How far a start has come.
#[derive(Debug, PartialEq, Eq)]
pub enum StartPhase {
    /// A port is being found.
    Ports { request: PortRequest, search: PortSearch },
    /// The generation of a unit is being written down.
    Recording { unit: UnitTarget, generation: u64 },
    /// The ports of a unit are being held by placeholder listeners.
    Holding(Launch),
    /// The process of a unit is being started.
    Spawning(Launch),
    /// The debug entries of editors are being updated.
    Updating(String),
    Over,
}

/// What a [`StartPhase`] stands for.
pub enum StartPhaseView {
    Ports { request: PortRequestView, search: PortSearch },
    Recording { unit: UnitTargetView, generation: u64 },
    Holding(LaunchView),
    Spawning(LaunchView),
    Updating(Seq<char>),
    Over,
}

impl DeepView for StartPhase {
    type V = StartPhaseView;

    open spec fn deep_view(&self) -> StartPhaseView {
        match self {
            StartPhase::Ports { request, search } => StartPhaseView::Ports {
                request: request.deep_view(),
                search: *search,
            },
            StartPhase::Recording { unit, generation } => StartPhaseView::Recording {
                unit: unit.deep_view(),
                generation: *generation,
            },
            StartPhase::Holding(a) => StartPhaseView::Holding(a.deep_view()),
            StartPhase::Spawning(a) => StartPhaseView::Spawning(a.deep_view()),
            StartPhase::Updating(a) => StartPhaseView::Updating(a.deep_view()),
            StartPhase::Over => StartPhaseView::Over,
        }
    }
}

/// A start of units.
#[derive(Debug, PartialEq, Eq)]
pub struct StartRun {
    pub units: Vec<UnitTarget>,
    /// The variables of the environment files.
    pub env: NameMap<String>,
    /// What was known of the targets when the start began.
    pub snapshot: RuntimeState,
    pub requests: Vec<PortRequest>,
    pub next_request: usize,
    pub assignments: NameMap<NameMap<u16>>,
    pub next_unit: usize,
    /// Whether services are to refresh on changes.
    pub refresh: bool,
    pub phase: StartPhase,
}

/// What a [`StartRun`] stands for.
pub struct StartRunView {
    pub units: Seq<UnitTargetView>,
    pub env: Seq<(Seq<char>, Seq<char>)>,
    pub snapshot: RuntimeStateView,
    pub requests: Seq<PortRequestView>,
    pub next_request: usize,
    pub assignments: Seq<(Seq<char>, Seq<(Seq<char>, u16)>)>,
    pub next_unit: usize,
    pub refresh: bool,
    pub phase: StartPhaseView,
}

impl DeepView for StartRun {
    type V = StartRunView;

    open spec fn deep_view(&self) -> StartRunView {
        StartRunView {
            units: self.units.deep_view(),
            env: self.env.deep_view(),
            snapshot: self.snapshot.deep_view(),
            requests: self.requests.deep_view(),
            next_request: self.next_request,
            assignments: self.assignments.deep_view(),
            next_unit: self.next_unit,
            refresh: self.refresh,
            phase: self.phase.deep_view(),
        }
    }
}

/// What came of an action of a start.
#[derive(Debug, Clone, Copy, PartialEq, Eq, Structural)]
pub enum StartEvent {
    /// A port was bound.
    Bound(u16),
    /// A port could not be bound.
    Refused,
    Done,
    Failed,
    /// The process was started.
    Spawned(Option<u32>),
}

/// What to do next in a start.
#[derive(Debug, PartialEq, Eq)]
pub enum StartAction {
    /// Try to bind this port.
    BindPort(u16),
    /// Try to bind any port.
    BindAnyPort,
    /// Write the generation of a target down.
    RecordGeneration { target: String, generation: u64 },
    /// Make sure that placeholder listeners hold the ports of a target.
    HoldPorts { target: String, ports: NameMap<u16> },
    /// Let the ports go and start the process.
    Spawn(Launch),
    /// Update the debug entries of editors after this target was started.
    UpdateDebug(String),
    /// All units are started; these are to be watched.
    Finished(Vec<String>),
    Failed(RunnerError),
    /// The start was over already.
    Nothing,
}

/// What a [`StartAction`] stands for.
pub enum StartActionView {
    BindPort(u16),
    BindAnyPort,
    RecordGeneration { target: Seq<char>, generation: u64 },
    HoldPorts { target: Seq<char>, ports: Seq<(Seq<char>, u16)> },
    Spawn(LaunchView),
    UpdateDebug(Seq<char>),
    Finished(Seq<Seq<char>>),
    Failed(RunnerErrorView),
    Nothing,
}

impl DeepView for StartAction {
    type V = StartActionView;

    open spec fn deep_view(&self) -> StartActionView {
        match self {
            StartAction::BindPort(a) => StartActionView::BindPort(*a),
            StartAction::BindAnyPort => StartActionView::BindAnyPort,
            StartAction::RecordGeneration { target, generation } => StartActionView::RecordGeneration {
                target: target.deep_view(),
                generation: *generation,
            },
            StartAction::HoldPorts { target, ports } => StartActionView::HoldPorts {
                target: target.deep_view(),
                ports: ports.deep_view(),
            },
            StartAction::Spawn(a) => StartActionView::Spawn(a.deep_view()),
            StartAction::UpdateDebug(a) => StartActionView::UpdateDebug(a.deep_view()),
            StartAction::Finished(a) => StartActionView::Finished(a.deep_view()),
            StartAction::Failed(a) => StartActionView::Failed(a.deep_view()),
            StartAction::Nothing => StartActionView::Nothing,
        }
    }
}

/// The supervisor, the start and the action after a step of a start.
pub struct Stepped {
    pub runner: RunnerView,
    pub run: StartRunView,
    pub action: StartActionView,
}

/// A start that failed.
pub open spec fn failed(runner: RunnerView, run: StartRunView, error: RunnerErrorView) -> Stepped {
    Stepped {
        runner,
        run: StartRunView { phase: StartPhaseView::Over, ..run },
        action: StartActionView::Failed(error),
    }
}

/// A start after the ports are found: the next unit gets its generation.
pub open spec fn to_unit(runner: RunnerView, run: StartRunView) -> Stepped {
    let refresh = if run.next_unit == 0 {
        runner.refresh_on_change
    } else {
        run.refresh
    };
    if run.next_unit < run.units.len() {
        let unit = run.units[run.next_unit as int];
        let generation = next_generation(runner.generations, unit.name);
        Stepped {
            runner: RunnerView {
                generations: put(runner.generations, unit.name, generation),
                ..runner
            },
            run: StartRunView {
                next_unit: (run.next_unit + 1) as usize,
                refresh,
                phase: StartPhaseView::Recording { unit, generation },
                ..run
            },
            action: StartActionView::RecordGeneration { target: unit.name, generation },
        }
    } else {
        Stepped {
            runner,
            run: StartRunView { refresh, phase: StartPhaseView::Over, ..run },
            action: StartActionView::Finished(watched_names(run.units)),
        }
    }
}

/// A start in which a search for a port took a step that does not assign one.
pub open spec fn searching(
    runner: RunnerView,
    run: StartRunView,
    request: PortRequestView,
    search: PortSearch,
    step: PortStep,
) -> Stepped {
    match step {
        PortStep::Bind(port) => Stepped {
            runner,
            run: StartRunView { phase: StartPhaseView::Ports { request, search }, ..run },
            action: StartActionView::BindPort(port),
        },
        PortStep::BindAny => Stepped {
            runner,
            run: StartRunView { phase: StartPhaseView::Ports { request, search }, ..run },
            action: StartActionView::BindAnyPort,
        },
        _ => failed(
            runner,
            run,
            RunnerErrorView::Ports { target: request.target, name: request.name },
        ),
    }
}

/// A start that looks for its next port, or goes on to its units where no port is left to find.
pub open spec fn to_ports(runner: RunnerView, run: StartRunView) -> Stepped {
    if run.next_request < run.requests.len() {
        let request = run.requests[run.next_request as int];
        let search = PortSearch {
            selection: request.selection,
            previous: request.previous,
            stage: SearchStage::Start,
        };
        let step = search_step(runner.reserved, search, BindAnswer::Begin);
        let stage = search_stage(runner.reserved, search, BindAnswer::Begin);
        searching(
            runner,
            StartRunView { next_request: (run.next_request + 1) as usize, ..run },
            request,
            PortSearch { stage, ..search },
            step,
        )
    } else {
        to_unit(runner, run)
    }
}

/// Whether a unit is started in the watch mode of its runtime.
pub open spec fn wants_runtime_watch(unit: UnitTargetView, refresh: bool) -> bool {
    unit.behavior is Service && unit.refresh_watch_type == WatchPreference::PreferRuntimeSupplied
        && refresh
}

/// What a unit is started with.
pub open spec fn launch_of(run: StartRunView, unit: UnitTargetView, generation: u64) -> Result<
    LaunchView,
    RunnerErrorView,
> {
    let ports = ports_of(run.assignments, unit.name);
    let runtime_watch = wants_runtime_watch(unit, run.refresh);
    match command_spec(unit, runtime_watch) {
        Err(_) => Err(RunnerErrorView::Command(unit.name)),
        Ok(command_line) => match environment(
            unit,
            generation,
            run.env,
            ports,
            run.assignments,
            run.snapshot,
        ) {
            Err(message) => Err(RunnerErrorView::Environment(message)),
            Ok(env) => Ok(
                LaunchView {
                    target: unit.name,
                    generation,
                    command_line,
                    ports,
                    env,
                    runtime_watch,
                    rufa_watch: watched_by_rufa(unit),
                    behavior: unit.behavior,
                },
            ),
        },
    }
}

/// The supervisor after the ports of a launch were taken back.
pub open spec fn ports_released(runner: RunnerView, launch: LaunchView) -> RunnerView {
    RunnerView { reserved: released(runner.reserved, launch.ports), ..runner }
}

/// The next step of a start, given what came of the last action.
pub open spec fn start_step(runner: RunnerView, run: StartRunView, event: StartEvent) -> Stepped {
    match run.phase {
        StartPhaseView::Ports { request, search } => {
            let answer = match event {
                StartEvent::Bound(port) => BindAnswer::Bound(port),
                _ => BindAnswer::Refused,
            };
            let step = search_step(runner.reserved, search, answer);
            let stage = search_stage(runner.reserved, search, answer);
            match step {
                PortStep::Assigned(port) => to_ports(
                    RunnerView { reserved: reserved_after(runner.reserved, step), ..runner },
                    StartRunView {
                        assignments: assigned(
                            run.assignments,
                            request.target,
                            request.name,
                            port,
                        ),
                        phase: StartPhaseView::Over,
                        ..run
                    },
                ),
                _ => searching(
                    runner,
                    StartRunView { phase: StartPhaseView::Over, ..run },
                    request,
                    PortSearch { stage, ..search },
                    step,
                ),
            }
        },
        StartPhaseView::Recording { unit, generation } => if event != StartEvent::Done {
            failed(runner, run, RunnerErrorView::Generation(unit.name))
        } else {
            match launch_of(run, unit, generation) {
                Err(error) => failed(runner, run, error),
                Ok(launch) => Stepped {
                    runner,
                    run: StartRunView { phase: StartPhaseView::Holding(launch), ..run },
                    action: StartActionView::HoldPorts {
                        target: launch.target,
                        ports: launch.ports,
                    },
                },
            }
        },
        StartPhaseView::Holding(launch) => if event != StartEvent::Done {
            failed(runner, run, RunnerErrorView::Listeners(launch.target))
        } else {
            Stepped {
                runner,
                run: StartRunView { phase: StartPhaseView::Spawning(launch), ..run },
                action: StartActionView::Spawn(launch),
            }
        },
        StartPhaseView::Spawning(launch) => match event {
            StartEvent::Spawned(pid) => {
                let spawned = after_spawn(
                    runner,
                    launch.target,
                    launch.generation,
                    launch.ports,
                    launch.runtime_watch,
                    launch.rufa_watch,
                    pid,
                );
                if runner.processes.contains(launch.target) {
                    failed(
                        ports_released(spawned, launch),
                        run,
                        RunnerErrorView::AlreadyRunning(launch.target),
                    )
                } else {
                    Stepped {
                        runner: spawned,
                        run: StartRunView {
                            phase: StartPhaseView::Updating(launch.target),
                            ..run
                        },
                        action: StartActionView::UpdateDebug(launch.target),
                    }
                }
            },
            _ => failed(
                ports_released(runner, launch),
                run,
                RunnerErrorView::Spawn(launch.target),
            ),
        },
        StartPhaseView::Updating(target) => if event != StartEvent::Done {
            failed(runner, run, RunnerErrorView::DebugUpdate(target))
        } else {
            to_unit(runner, StartRunView { phase: StartPhaseView::Over, ..run })
        },
        StartPhaseView::Over => Stepped { runner, run, action: StartActionView::Nothing },
    }
}

/// The first unit whose process runs.
pub open spec fn first_running(
    processes: Set<Seq<char>>,
    units: Seq<UnitTargetView>,
) -> Option<Seq<char>>
    decreases units.len(),
{
    if units.len() == 0 {
        None
    } else {
        match first_running(processes, units.drop_last()) {
            Some(name) => Some(name),
            None => if processes.contains(units.last().name) {
                Some(units.last().name)
            } else {
                None
            },
        }
    }
}

proof fn lemma_first_running(processes: Set<Seq<char>>, units: Seq<UnitTargetView>, i: int)
    requires
        0 <= i <= units.len(),
        first_running(processes, units.take(i)) is Some,
    ensures
        first_running(processes, units) == first_running(processes, units.take(i)),
    decreases units.len() - i,
{
    if i < units.len() {
        assert(units.take(i + 1).drop_last() =~= units.take(i));
        lemma_first_running(processes, units, i + 1);
    } else {
        assert(units.take(i) =~= units);
    }
}

/// A start that has not begun.
pub open spec fn new_run(
    runner: RunnerView,
    units: Seq<UnitTargetView>,
    env: Seq<(Seq<char>, Seq<char>)>,
) -> StartRunView {
    StartRunView {
        units,
        env,
        snapshot: runner.state,
        requests: requests(units, runner.state),
        next_request: 0,
        assignments: unassigned(units),
        next_unit: 0,
        refresh: false,
        phase: StartPhaseView::Over,
    }
}

/// The first step of a start: refused where one of the units runs.
pub open spec fn start_begin(
    runner: RunnerView,
    units: Seq<UnitTargetView>,
    env: Seq<(Seq<char>, Seq<char>)>,
) -> Stepped {
    let run = new_run(runner, units, env);
    match first_running(runner.processes, units) {
        Some(name) => failed(runner, run, RunnerErrorView::AlreadyRunning(name)),
        None => to_ports(runner, run),
    }
}

/// The units that a start of the named targets is about.
pub open spec fn start_selection(config: ConfigView, targets: Seq<Seq<char>>) -> Result<
    Seq<UnitTargetView>,
    RunnerErrorView,
> {
    match resolved(config, targets) {
        Err(error) => Err(RunnerErrorView::Resolve(error)),
        Ok(units) => if units.len() == 0 {
            Err(RunnerErrorView::NothingSelected)
        } else {
            Ok(units)
        },
    }
}

impl Runner {
    fn find_running(&self, units: &Vec<UnitTarget>) -> (r: Option<String>)
        ensures
            r.deep_view() == first_running(self.deep_view().processes, units.deep_view()),
    {
        let ghost list = units.deep_view();
        let mut i: usize = 0;
        assert(list.take(0) =~= Seq::empty());
        while i < units.len()
            invariant
                i <= units@.len(),
                list == units.deep_view(),
                first_running(self.deep_view().processes, list.take(i as int)) is None,
            decreases units@.len() - i,
        {
            assert(list.take(i + 1).drop_last() =~= list.take(i as int));
            if self.processes.contains(units[i].name.as_str()) {
                proof {
                    lemma_first_running(self.deep_view().processes, list, i + 1);
                }
                return Some(units[i].name.clone());
            }
            i = i + 1;
        }
        assert(list.take(i as int) =~= list);
        None
    }

    fn go_to_unit(&mut self, run: &mut StartRun) -> (action: StartAction)
        ensures
            final(self).deep_view() == to_unit(old(self).deep_view(), old(run).deep_view()).runner,
            final(run).deep_view() == to_unit(old(self).deep_view(), old(run).deep_view()).run,
            action.deep_view() == to_unit(old(self).deep_view(), old(run).deep_view()).action,
    {
        if run.next_unit == 0 {
            run.refresh = self.refresh_on_change;
        }
        if run.next_unit < run.units.len() {
            let unit: UnitTarget = run.units[run.next_unit].duplicate();
            let generation: u64 = self.next_generation(unit.name.as_str());
            let target: String = unit.name.clone();
            run.next_unit = run.next_unit + 1;
            run.phase = StartPhase::Recording { unit, generation };
            StartAction::RecordGeneration { target, generation }
        } else {
            run.phase = StartPhase::Over;
            StartAction::Finished(names_to_watch(&run.units))
        }
    }

    fn go_on_searching(
        &mut self,
        run: &mut StartRun,
        request: PortRequest,
        search: PortSearch,
        step: PortStep,
    ) -> (action: StartAction)
        requires
            step !is Assigned,
            old(run).deep_view().phase is Over,
        ensures
            final(self).deep_view() == old(self).deep_view(),
            ({
                let next = searching(
                    old(self).deep_view(),
                    old(run).deep_view(),
                    request.deep_view(),
                    search,
                    step,
                );
                final(run).deep_view() == next.run && action.deep_view() == next.action
            }),
    {
        match step {
            PortStep::Bind(port) => {
                run.phase = StartPhase::Ports { request, search };
                StartAction::BindPort(port)
            },
            PortStep::BindAny => {
                run.phase = StartPhase::Ports { request, search };
                StartAction::BindAnyPort
            },
            _ => StartAction::Failed(
                RunnerError::Ports { target: request.target.clone(), name: request.name.clone() },
            ),
        }
    }

    fn go_to_ports(&mut self, run: &mut StartRun) -> (action: StartAction)
        requires
            old(run).deep_view().phase is Over,
        ensures
            final(self).deep_view() == to_ports(old(self).deep_view(), old(run).deep_view()).runner,
            final(run).deep_view() == to_ports(old(self).deep_view(), old(run).deep_view()).run,
            action.deep_view() == to_ports(old(self).deep_view(), old(run).deep_view()).action,
    {
        if run.next_request < run.requests.len() {
            let request: PortRequest = run.requests[run.next_request].duplicate();
            run.next_request = run.next_request + 1;
            let mut search = PortSearch::new(request.selection, request.previous);
            let step = search.advance(&mut self.port_allocator, BindAnswer::Begin);
            self.go_on_searching(run, request, search, step)
        } else {
            self.go_to_unit(run)
        }
    }

    fn make_launch(&self, run: &StartRun, unit: &UnitTarget, generation: u64) -> (r: Result<
        Launch,
        RunnerError,
    >)
        ensures
            outcome(r) == launch_of(run.deep_view(), unit.deep_view(), generation),
    {
        let ports: NameMap<u16> = match run.assignments.get(unit.name.as_str()) {
            Some(ports) => ports.duplicate(),
            None => NameMap::new(),
        };
        let is_service: bool = unit.behavior.is_service();
        let runtime_watch: bool = is_service && unit.refresh_watch_type
            == WatchPreference::PreferRuntimeSupplied && run.refresh;
        let rufa_watch: bool = is_service && unit.refresh_watch_type == WatchPreference::Rufa;
        let command_line: String = match resolve_command(unit, runtime_watch) {
            Ok(command_line) => command_line,
            Err(_) => return Err(RunnerError::Command(unit.name.clone())),
        };
        match build_environment(
            unit,
            generation,
            &run.env,
            &ports,
            &run.assignments,
            &run.snapshot,
        ) {
            Ok(env) => Ok(
                Launch {
                    target: unit.name.clone(),
                    generation,
                    command_line,
                    ports,
                    env,
                    runtime_watch,
                    rufa_watch,
                    behavior: unit.behavior,
                },
            ),
            Err(message) => Err(RunnerError::Environment(message)),
        }
    }

    /// Begins to start the units, with the variables of the environment files, and tells what to
    /// do first. The start is refused where one of the units runs.
    pub fn start_units(&mut self, units: Vec<UnitTarget>, env: NameMap<String>) -> (r: (
        StartRun,
        StartAction,
    ))
        ensures
            ({
                let next = start_begin(
                    old(self).deep_view(),
                    units.deep_view(),
                    env.deep_view(),
                );
                &&& final(self).deep_view() == next.runner
                &&& r.0.deep_view() == next.run
                &&& r.1.deep_view() == next.action
            }),
    {
        let running: Option<String> = self.find_running(&units);
        let requests: Vec<PortRequest> = port_requests(&units, &self.state);
        let assignments: Assignments = empty_assignments(&units);
        let mut run = StartRun {
            units,
            env,
            snapshot: self.state.duplicate(),
            requests,
            next_request: 0,
            assignments,
            next_unit: 0,
            refresh: false,
            phase: StartPhase::Over,
        };
        match running {
            Some(name) => (run, StartAction::Failed(RunnerError::AlreadyRunning(name))),
            None => {
                let action = self.go_to_ports(&mut run);
                (run, action)
            },
        }
    }

    /// Begins to start the units that the named targets stand for, as [`Runner::start_units`] does.
    /// Targets that stand for nothing are refused.
    pub fn start_targets(
        &mut self,
        config: &Config,
        targets: &Vec<String>,
        env: NameMap<String>,
    ) -> (r: Result<(StartRun, StartAction), RunnerError>)
        ensures
            match start_selection(config.deep_view(), targets.deep_view()) {
                Err(error) => {
                    &&& outcome(r) == Err::<(StartRunView, StartActionView), _>(error)
                    &&& final(self).deep_view() == old(self).deep_view()
                },
                Ok(units) => {
                    let next = start_begin(old(self).deep_view(), units, env.deep_view());
                    &&& outcome(r) == Ok::<_, RunnerErrorView>((next.run, next.action))
                    &&& final(self).deep_view() == next.runner
                },
            },
    {
        let units: Vec<UnitTarget> = match resolve_units(config, targets) {
            Ok(units) => units,
            Err(error) => return Err(RunnerError::Resolve(error)),
        };
        if units.len() == 0 {
            return Err(RunnerError::NothingSelected);
        }
        Ok(self.start_units(units, env))
    }

    /// Takes the next step of a start, given what came of the last action.
    pub fn advance_start(&mut self, run: &mut StartRun, event: StartEvent) -> (action: StartAction)
        ensures
            ({
                let next = start_step(old(self).deep_view(), old(run).deep_view(), event);
                &&& final(self).deep_view() == next.runner
                &&& final(run).deep_view() == next.run
                &&& action.deep_view() == next.action
            }),
    {
        let mut phase = StartPhase::Over;
        std::mem::swap(&mut phase, &mut run.phase);
        match phase {
            StartPhase::Ports { request, search } => {
                let mut search = search;
                let answer = match event {
                    StartEvent::Bound(port) => BindAnswer::Bound(port),
                    _ => BindAnswer::Refused,
                };
                let step = search.advance(&mut self.port_allocator, answer);
                match step {
                    PortStep::Assigned(port) => {
                        assign(&mut run.assignments, &request, port);
                        self.go_to_ports(run)
                    },
                    _ => self.go_on_searching(run, request, search, step),
                }
            },
            StartPhase::Recording { unit, generation } => {
                if event != StartEvent::Done {
                    return StartAction::Failed(RunnerError::Generation(unit.name));
                }
                match self.make_launch(run, &unit, generation) {
                    Err(error) => StartAction::Failed(error),
                    Ok(launch) => {
                        let target: String = launch.target.clone();
                        let ports: NameMap<u16> = launch.ports.duplicate();
                        run.phase = StartPhase::Holding(launch);
                        StartAction::HoldPorts { target, ports }
                    },
                }
            },
            StartPhase::Holding(launch) => {
                if event != StartEvent::Done {
                    return StartAction::Failed(RunnerError::Listeners(launch.target));
                }
                let copy: Launch = launch.duplicate();
                run.phase = StartPhase::Spawning(launch);
                StartAction::Spawn(copy)
            },
            StartPhase::Spawning(launch) => {
                match event {
                    StartEvent::Spawned(pid) => {
                        let fresh: bool = self.record_spawn(
                            launch.target.as_str(),
                            launch.generation,
                            &launch.ports,
                            launch.runtime_watch,
                            launch.rufa_watch,
                            pid,
                        );
                        if fresh {
                            let target: String = launch.target.clone();
                            run.phase = StartPhase::Updating(launch.target);
                            StartAction::UpdateDebug(target)
                        } else {
                            self.release_ports(&launch.ports);
                            StartAction::Failed(RunnerError::AlreadyRunning(launch.target))
                        }
                    },
                    _ => {
                        self.release_ports(&launch.ports);
                        StartAction::Failed(RunnerError::Spawn(launch.target))
                    },
                }
            },
            StartPhase::Updating(target) => {
                if event != StartEvent::Done {
                    return StartAction::Failed(RunnerError::DebugUpdate(target));
                }
                self.go_to_unit(run)
            },
            StartPhase::Over => StartAction::Nothing,
        }
    }
}

// ---------------------------------------------------------------------------
// Laws
// ---------------------------------------------------------------------------

/// A job is never watched, and a service is watched by its runtime or by the supervisor, never by
/// both; by its runtime only while refreshing is on.
pub proof fn launches_are_watched_one_way(
    run: StartRunView,
    unit: UnitTargetView,
    generation: u64,
)
    ensures
        launch_of(run, unit, generation) matches Ok(launch) ==> {
            &&& unit.behavior is Job ==> !launch.runtime_watch && !launch.rufa_watch
            &&& !(launch.runtime_watch && launch.rufa_watch)
            &&& launch.runtime_watch ==> run.refresh
        },
{
}

/// A process that cannot be started gives all its ports back.
pub proof fn failed_spawn_returns_ports(
    runner: RunnerView,
    run: StartRunView,
    launch: LaunchView,
    i: int,
)
    requires
        run.phase == StartPhaseView::Spawning(launch),
        0 <= i < launch.ports.len(),
    ensures
        ({
            let next = start_step(runner, run, StartEvent::Failed);
            &&& next.action is Failed
            &&& !next.runner.reserved.contains(launch.ports[i].1)
        }),
{
    released_ports_are_free(runner.reserved, launch.ports, i);
}

/// A unit is started only after its generation was raised: what is recorded and what the process
/// is told is the generation after the last one.
pub proof fn unit_gets_the_next_generation(runner: RunnerView, run: StartRunView)
    requires
        run.next_unit < run.units.len(),
    ensures
        ({
            let unit = run.units[run.next_unit as int];
            let next = to_unit(runner, run);
            &&& next.action == StartActionView::RecordGeneration {
                target: unit.name,
                generation: next_generation(runner.generations, unit.name),
            }
            &&& lookup(next.runner.generations, unit.name) == Some(
                next_generation(runner.generations, unit.name),
            )
        }),
{
    let unit = run.units[run.next_unit as int];
    lemma_lookup_put(
        runner.generations,
        unit.name,
        next_generation(runner.generations, unit.name),
        unit.name,
    );
}

/// A start of a unit that runs is refused and changes nothing.
pub proof fn running_unit_is_not_started_again(
    runner: RunnerView,
    units: Seq<UnitTargetView>,
    env: Seq<(Seq<char>, Seq<char>)>,
    i: int,
)
    requires
        0 <= i < units.len(),
        runner.processes.contains(units[i].name),
    ensures
        start_begin(runner, units, env).action is Failed,
        start_begin(runner, units, env).runner == runner,
{
    lemma_some_running(runner.processes, units, i);
}

proof fn lemma_some_running(processes: Set<Seq<char>>, units: Seq<UnitTargetView>, i: int)
    requires
        0 <= i < units.len(),
        processes.contains(units[i].name),
    ensures
        first_running(processes, units) is Some,
    decreases units.len(),
{
    if i < units.len() - 1 {
        assert(units.drop_last()[i] == units[i]);
        lemma_some_running(processes, units.drop_last(), i);
    }
}

/// How many steps a search for a port can take at most.
pub open spec fn search_rank(stage: SearchStage) -> int {
    match stage {
        SearchStage::Start => 65538,
        SearchStage::Previous(_) => 65537,
        SearchStage::Trying(port) => 65536 - port,
        SearchStage::TryingAny => 1,
        SearchStage::Over => 0,
    }
}

/// How many steps a start can take at most.
pub open spec fn steps_left(run: StartRunView) -> int {
    let units = 4 * (run.units.len() - run.next_unit);
    match run.phase {
        StartPhaseView::Ports { search, .. } => 5 + units + 65539 * (run.requests.len()
            - run.next_request) + search_rank(search.stage),
        StartPhaseView::Recording { .. } => 4 + units,
        StartPhaseView::Holding(_) => 3 + units,
        StartPhaseView::Spawning(_) => 2 + units,
        StartPhaseView::Updating(_) => 1 + units,
        StartPhaseView::Over => 0,
    }
}

/// Whether a start has not gone beyond what it starts, and what it starts can be counted.
pub open spec fn within(run: StartRunView) -> bool {
    run.next_unit <= run.units.len() <= usize::MAX && run.next_request <= run.requests.len()
        <= usize::MAX
}

proof fn lemma_to_ports_ends(runner: RunnerView, run: StartRunView)
    requires
        within(run),
    ensures
        within(to_ports(runner, run).run),
        0 <= steps_left(to_ports(runner, run).run) < 5 + 4 * (run.units.len() - run.next_unit)
            + 65539 * (run.requests.len() - run.next_request) + 1,
{
}

/// Every start comes to an end, whatever happens outside: each step leaves fewer steps.
pub proof fn every_start_ends(runner: RunnerView, run: StartRunView, event: StartEvent)
    requires
        within(run),
    ensures
        within(start_step(runner, run, event).run),
        run.phase is Over || 0 <= steps_left(start_step(runner, run, event).run) < steps_left(run),
{
    if let StartPhaseView::Ports { request, search } = run.phase {
        let answer = match event {
            StartEvent::Bound(port) => BindAnswer::Bound(port),
            _ => BindAnswer::Refused,
        };
        let step = search_step(runner.reserved, search, answer);
        if let PortStep::Assigned(port) = step {
            lemma_to_ports_ends(
                RunnerView { reserved: reserved_after(runner.reserved, step), ..runner },
                StartRunView {
                    assignments: assigned(run.assignments, request.target, request.name, port),
                    phase: StartPhaseView::Over,
                    ..run
                },
            );
        } else {
            if let SearchStage::Trying(tried) = search.stage {
                if let PortSelection::AutoRange { start, end } = search.selection {
                    lemma_next_is_higher(runner.reserved, start, end, tried);
                }
            }
        }
    }
}

} // verus!
