//! The supervisor: what is wanted of the targets, and what is known of them.

use vstd::prelude::*;

use crate::config::model::{
    Config, ConfigView, TargetBehavior, UnitTarget, UnitTargetView, WatchPreference,
};
use crate::names::{listing, lookup, names_of, ordered, put, NameMap, NameSet};
use crate::paths::{absolute, is_absolute, join, join_spec};
use crate::runner::control::{
    carried_out, describe_spec, desired_text, due, new_control, planned, requested, settled, Action,
    ActionView, DesiredState, TargetControl, TargetControlView, TargetKind, TargetStatus,
};
use crate::runner::generation::{next_generation, recorded, TargetGenerationStore};
use crate::runner::ports::PortAllocator;
use crate::runner::resolve::{
    resolve_message, resolve_units, resolved, ResolveError, ResolveErrorView,
};
use crate::state::{RuntimeState, RuntimeStateView};
use crate::views::{outcome, Duplicate};

verus! {

/// The directories to watch for each service.
#[derive(Debug, PartialEq, Eq)]
pub struct WatchSpec {
    pub services: NameMap<Vec<String>>,
    /// Seconds for which changes are gathered.
    pub stability: u64,
}

/// What a [`WatchSpec`] stands for.
pub struct WatchSpecView {
    pub services: Seq<(Seq<char>, Seq<Seq<char>>)>,
    pub stability: u64,
}

impl DeepView for WatchSpec {
    type V = WatchSpecView;

    open spec fn deep_view(&self) -> WatchSpecView {
        WatchSpecView {
            services: self.services.deep_view(),
            stability: self.stability,
        }
    }
}

impl Duplicate for WatchSpec {
    fn duplicate(&self) -> (copy: Self) {
        WatchSpec {
            services: self.services.duplicate(),
            stability: self.stability,
        }
    }
}

/// What a start or restart asks of the file watcher.
#[derive(Debug, PartialEq, Eq)]
pub struct StartOutcome {
    /// The directories to watch, where a service is to be watched.
    pub rufa_watch: Option<WatchSpec>,
}

/// What a [`StartOutcome`] stands for.
pub struct StartOutcomeView {
    pub rufa_watch: Option<WatchSpecView>,
}

impl DeepView for StartOutcome {
    type V = StartOutcomeView;

    open spec fn deep_view(&self) -> StartOutcomeView {
        StartOutcomeView {
            rufa_watch: self.rufa_watch.deep_view(),
        }
    }
}

impl Duplicate for StartOutcome {
    fn duplicate(&self) -> (copy: Self) {
        StartOutcome {
            rufa_watch: self.rufa_watch.duplicate(),
        }
    }
}

/// What is shown of the control record of a target.
#[derive(Debug, PartialEq, Eq)]
pub struct ControlInfo {
    pub desired_state: String,
    pub action_plan: String,
}

/// What a [`ControlInfo`] stands for.
pub struct ControlInfoView {
    pub desired_state: Seq<char>,
    pub action_plan: Seq<char>,
}

impl DeepView for ControlInfo {
    type V = ControlInfoView;

    open spec fn deep_view(&self) -> ControlInfoView {
        ControlInfoView {
            desired_state: self.desired_state.deep_view(),
            action_plan: self.action_plan.deep_view(),
        }
    }
}

impl Duplicate for ControlInfo {
    fn duplicate(&self) -> (copy: Self) {
        ControlInfo {
            desired_state: self.desired_state.duplicate(),
            action_plan: self.action_plan.duplicate(),
        }
    }
}

/// Directories as the file system resolves them.
#[derive(Debug, PartialEq, Eq)]
pub struct WatchRoots {
    /// The directory of the configuration.
    pub base: String,
    /// The resolved form of paths that can be resolved.
    pub canonical: NameMap<String>,
}

/// What a [`WatchRoots`] stands for.
pub struct WatchRootsView {
    pub base: Seq<char>,
    pub canonical: Seq<(Seq<char>, Seq<char>)>,
}

impl DeepView for WatchRoots {
    type V = WatchRootsView;

    open spec fn deep_view(&self) -> WatchRootsView {
        WatchRootsView {
            base: self.base.deep_view(),
            canonical: self.canonical.deep_view(),
        }
    }
}

impl Duplicate for WatchRoots {
    fn duplicate(&self) -> (copy: Self) {
        WatchRoots {
            base: self.base.duplicate(),
            canonical: self.canonical.duplicate(),
        }
    }
}

/// Why a request is not carried out.
#[derive(Debug, PartialEq, Eq)]
pub enum RunnerError {
    Resolve(ResolveError),
    NothingSelected,
    NothingRunning,
    NoTargets,
    NothingToRestart,
    /// A job is run again, not restarted.
    IsJob(String),
    AlreadyRunning(String),
    /// The configuration cannot be loaded.
    Unconfigured,
    /// No port was found for a target.
    Ports { target: String, name: String },
    /// The generation of a target cannot be recorded.
    Generation(String),
    /// The command of a target cannot be told.
    Command(String),
    /// The environment cannot be built; says why.
    Environment(String),
    /// The ports of a target cannot be held until it starts.
    Listeners(String),
    /// The process of a target cannot be started.
    Spawn(String),
    /// The debug entries of editors cannot be updated.
    DebugUpdate(String),
}

/// What a [`RunnerError`] stands for.
pub enum RunnerErrorView {
    Resolve(ResolveErrorView),
    NothingSelected,
    NothingRunning,
    NoTargets,
    NothingToRestart,
    IsJob(Seq<char>),
    AlreadyRunning(Seq<char>),
    Unconfigured,
    Ports { target: Seq<char>, name: Seq<char> },
    Generation(Seq<char>),
    Command(Seq<char>),
    Environment(Seq<char>),
    Listeners(Seq<char>),
    Spawn(Seq<char>),
    DebugUpdate(Seq<char>),
}

impl DeepView for RunnerError {
    type V = RunnerErrorView;

    open spec fn deep_view(&self) -> RunnerErrorView {
        match self {
            RunnerError::Resolve(a) => RunnerErrorView::Resolve(a.deep_view()),
            RunnerError::NothingSelected => RunnerErrorView::NothingSelected,
            RunnerError::NothingRunning => RunnerErrorView::NothingRunning,
            RunnerError::NoTargets => RunnerErrorView::NoTargets,
            RunnerError::NothingToRestart => RunnerErrorView::NothingToRestart,
            RunnerError::IsJob(a) => RunnerErrorView::IsJob(a.deep_view()),
            RunnerError::AlreadyRunning(a) => RunnerErrorView::AlreadyRunning(a.deep_view()),
            RunnerError::Unconfigured => RunnerErrorView::Unconfigured,
            RunnerError::Ports { target, name } => RunnerErrorView::Ports {
                target: target.deep_view(),
                name: name.deep_view(),
            },
            RunnerError::Generation(a) => RunnerErrorView::Generation(a.deep_view()),
            RunnerError::Command(a) => RunnerErrorView::Command(a.deep_view()),
            RunnerError::Environment(a) => RunnerErrorView::Environment(a.deep_view()),
            RunnerError::Listeners(a) => RunnerErrorView::Listeners(a.deep_view()),
            RunnerError::Spawn(a) => RunnerErrorView::Spawn(a.deep_view()),
            RunnerError::DebugUpdate(a) => RunnerErrorView::DebugUpdate(a.deep_view()),
        }
    }
}

/// What is shown of the error.
pub open spec fn runner_message(error: RunnerErrorView) -> Seq<char> {
    match error {
        RunnerErrorView::Resolve(error) => resolve_message(error),
        RunnerErrorView::NothingSelected => "no runnable targets resolved from selection"@,
        RunnerErrorView::NothingRunning => "no services are currently running"@,
        RunnerErrorView::NoTargets => "specify at least one target or use --all"@,
        RunnerErrorView::NothingToRestart => "no runnable targets resolved from restart selection"@,
        RunnerErrorView::IsJob(name) => "target "@ + name
            + " is a job; re-run it explicitly instead of restarting"@,
        RunnerErrorView::AlreadyRunning(name) => "target "@ + name + " is already running"@,
        RunnerErrorView::Unconfigured => "loading configuration"@,
        RunnerErrorView::Ports { target, name } => "allocating port for "@ + target + "."@ + name,
        RunnerErrorView::Generation(name) => "updating generation for target "@ + name,
        RunnerErrorView::Command(name) => "determining launch command for "@ + name,
        RunnerErrorView::Environment(message) => message,
        RunnerErrorView::Listeners(name) => "establishing placeholder port listeners for target "@ + name,
        RunnerErrorView::Spawn(name) => "spawning target "@ + name,
        RunnerErrorView::DebugUpdate(name) => "updating debug configurations for "@ + name,
    }
}

impl RunnerError {
    /// What is shown of the error.
    pub fn message(&self) -> (r: String)
        ensures
            r@ == runner_message(self.deep_view()),
    {
        match self {
            RunnerError::Resolve(error) => error.message(),
            RunnerError::NothingSelected =>
                "no runnable targets resolved from selection".to_owned(),
            RunnerError::NothingRunning => "no services are currently running".to_owned(),
            RunnerError::NoTargets => "specify at least one target or use --all".to_owned(),
            RunnerError::NothingToRestart =>
                "no runnable targets resolved from restart selection".to_owned(),
            RunnerError::IsJob(name) => {
                let mut r: String = "target ".to_owned();
                r.append(name.as_str());
                r.append(" is a job; re-run it explicitly instead of restarting");
                r
            },
            RunnerError::AlreadyRunning(name) => {
                let mut r: String = "target ".to_owned();
                r.append(name.as_str());
                r.append(" is already running");
                r
            },
            RunnerError::Unconfigured => "loading configuration".to_owned(),
            RunnerError::Ports { target, name } => {
                let mut r: String = "allocating port for ".to_owned();
                r.append(target.as_str());
                r.append(".");
                r.append(name.as_str());
                r
            },
            RunnerError::Generation(name) => {
                let mut r: String = "updating generation for target ".to_owned();
                r.append(name.as_str());
                r
            },
            RunnerError::Command(name) => {
                let mut r: String = "determining launch command for ".to_owned();
                r.append(name.as_str());
                r
            },
            RunnerError::Environment(message) => message.clone(),
            RunnerError::Listeners(name) => {
                let mut r: String = "establishing placeholder port listeners for target ".to_owned();
                r.append(name.as_str());
                r
            },
            RunnerError::Spawn(name) => {
                let mut r: String = "spawning target ".to_owned();
                r.append(name.as_str());
                r
            },
            RunnerError::DebugUpdate(name) => {
                let mut r: String = "updating debug configurations for ".to_owned();
                r.append(name.as_str());
                r
            },
        }
    }
}

// ---------------------------------------------------------------------------
// The supervisor
// ---------------------------------------------------------------------------

/// The supervisor of all targets.
#[derive(Debug)]
pub struct Runner {
    pub config_path: String,
    pub state: RuntimeState,
    /// Whether services are restarted when their files change.
    pub refresh_on_change: bool,
    pub port_allocator: PortAllocator,
    /// The targets whose process runs.
    pub processes: NameSet,
    pub controls: NameMap<TargetControl>,
    /// The targets with an action under way.
    pub in_flight: NameSet,
    pub generations: TargetGenerationStore,
    /// How many runs are kept in the history of a target.
    pub history_keep: usize,
    /// A file with variables that win over those of the configured file.
    pub env_override_path: Option<String>,
}

/// What a [`Runner`] stands for.
pub struct RunnerView {
    pub config_path: Seq<char>,
    pub state: RuntimeStateView,
    pub refresh_on_change: bool,
    pub reserved: Set<u16>,
    pub processes: Set<Seq<char>>,
    pub controls: Seq<(Seq<char>, TargetControlView)>,
    pub in_flight: Set<Seq<char>>,
    pub generations: Seq<(Seq<char>, u64)>,
    pub history_keep: usize,
    pub env_override_path: Option<Seq<char>>,
}

impl DeepView for Runner {
    type V = RunnerView;

    open spec fn deep_view(&self) -> RunnerView {
        RunnerView {
            config_path: self.config_path@,
            state: self.state.deep_view(),
            refresh_on_change: self.refresh_on_change,
            reserved: self.port_allocator@,
            processes: self.processes@,
            controls: self.controls.deep_view(),
            in_flight: self.in_flight@,
            generations: self.generations.deep_view(),
            history_keep: self.history_keep,
            env_override_path: self.env_override_path.deep_view(),
        }
    }
}

impl Runner {
    /// A supervisor that has started nothing; `records` are the generations on disk.
    pub fn new(
        config_path: String,
        refresh_on_change: bool,
        history_keep: usize,
        env_override_path: Option<String>,
        records: &Vec<(String, u64)>,
    ) -> (r: Self)
        ensures
            r.deep_view() == new_runner(
                config_path@,
                refresh_on_change,
                history_keep,
                env_override_path.deep_view(),
                records.deep_view(),
            ),
    {
        Runner {
            config_path,
            state: RuntimeState::default(),
            refresh_on_change,
            port_allocator: PortAllocator::new(),
            processes: NameSet::new(),
            controls: NameMap::new(),
            in_flight: NameSet::new(),
            generations: TargetGenerationStore::new(records),
            history_keep: if history_keep < 1 {
                1
            } else {
                history_keep
            },
            env_override_path,
        }
    }

    /// The path of the configuration.
    pub fn config_path(&self) -> (r: &str)
        ensures
            r@ == self.deep_view().config_path,
    {
        self.config_path.as_str()
    }

    /// Takes the next generation of `target`.
    pub fn next_generation(&mut self, target: &str) -> (generation: u64)
        ensures
            generation == next_generation(old(self).deep_view().generations, target@),
            final(self).deep_view() == (RunnerView {
                generations: put(old(self).deep_view().generations, target@, generation),
                ..old(self).deep_view()
            }),
    {
        self.generations.next(target)
    }

    /// All targets with their generations, in name order.
    pub fn generation_snapshot(&self) -> (r: Vec<(String, u64)>)
        ensures
            r.deep_view() == self.deep_view().generations,
            ordered(self.deep_view().generations),
    {
        self.generations.all()
    }
}

// ---------------------------------------------------------------------------
// Control records
// ---------------------------------------------------------------------------

/// A supervisor that has started nothing yet.
pub open spec fn new_runner(
    config_path: Seq<char>,
    refresh_on_change: bool,
    history_keep: usize,
    env_override_path: Option<Seq<char>>,
    records: Seq<(Seq<char>, u64)>,
) -> RunnerView {
    RunnerView {
        config_path,
        state: RuntimeStateView { targets: Seq::empty() },
        refresh_on_change,
        reserved: Set::empty(),
        processes: Set::empty(),
        controls: Seq::empty(),
        in_flight: Set::empty(),
        generations: recorded(records),
        history_keep: if history_keep < 1 {
            1
        } else {
            history_keep
        },
        env_override_path,
    }
}

/// The control record of a target; a new one where there is none.
pub open spec fn control_of(
    controls: Seq<(Seq<char>, TargetControlView)>,
    target: Seq<char>,
) -> TargetControlView {
    match lookup(controls, target) {
        Some(control) => control,
        None => new_control(),
    }
}

/// The supervisor with another control record of a target.
pub open spec fn with_control(
    runner: RunnerView,
    target: Seq<char>,
    control: TargetControlView,
) -> RunnerView {
    RunnerView { controls: put(runner.controls, target, control), ..runner }
}

impl Runner {
    fn control(&self, target: &str) -> (r: TargetControl)
        ensures
            r.deep_view() == control_of(self.deep_view().controls, target@),
    {
        match self.controls.get(target) {
            Some(control) => control.duplicate(),
            None => TargetControl::new(),
        }
    }

    /// Makes sure that there is a control record of `target`.
    pub fn ensure_control_entry(&mut self, target: &str)
        ensures
            final(self).deep_view() == with_control(
                old(self).deep_view(),
                target@,
                control_of(old(self).deep_view().controls, target@),
            ),
    {
        let control = self.control(target);
        let _ = self.controls.insert(target.to_owned(), control);
    }

    /// Asks for a state of `target`; what was planned before is dropped.
    pub fn set_desired_state_for(&mut self, target: &str, desired: DesiredState)
        ensures
            final(self).deep_view() == with_control(
                old(self).deep_view(),
                target@,
                requested(control_of(old(self).deep_view().controls, target@), desired),
            ),
    {
        let mut control = self.control(target);
        control.request_desired_state(desired);
        let _ = self.controls.insert(target.to_owned(), control);
    }

    /// Changes the desired state of `target` and leaves its plan as it is.
    pub fn update_desired_state_only(&mut self, target: &str, desired: DesiredState)
        ensures
            final(self).deep_view() == with_control(
                old(self).deep_view(),
                target@,
                (TargetControlView {
                    desired_state: desired,
                    ..control_of(old(self).deep_view().controls, target@)
                }),
            ),
    {
        let mut control = self.control(target);
        control.desired_state = desired;
        let _ = self.controls.insert(target.to_owned(), control);
    }

    /// Notes that `target` runs, as it should.
    pub fn mark_target_running(&mut self, target: &str)
        ensures
            final(self).deep_view() == with_control(
                old(self).deep_view(),
                target@,
                settled(
                    control_of(old(self).deep_view().controls, target@),
                    DesiredState::Running,
                ),
            ),
    {
        let mut control = self.control(target);
        control.settle_desired_state(DesiredState::Running);
        let _ = self.controls.insert(target.to_owned(), control);
    }

    /// Notes that `target` is stopped, as it should be.
    pub fn mark_target_stopped(&mut self, target: &str)
        ensures
            final(self).deep_view() == with_control(
                old(self).deep_view(),
                target@,
                settled(
                    control_of(old(self).deep_view().controls, target@),
                    DesiredState::Stopped,
                ),
            ),
    {
        let mut control = self.control(target);
        control.settle_desired_state(DesiredState::Stopped);
        let _ = self.controls.insert(target.to_owned(), control);
    }

    /// Gives `target` another plan.
    pub fn replace_action_plan(&mut self, target: &str, plan: Action)
        ensures
            final(self).deep_view() == with_control(
                old(self).deep_view(),
                target@,
                (TargetControlView {
                    action_plan: plan.deep_view(),
                    ..control_of(old(self).deep_view().controls, target@)
                }),
            ),
    {
        let mut control = self.control(target);
        control.action_plan = plan;
        let _ = self.controls.insert(target.to_owned(), control);
    }

    /// Notes the kind of `target`.
    pub fn set_target_kind(&mut self, target: &str, kind: TargetKind)
        ensures
            final(self).deep_view() == with_control(
                old(self).deep_view(),
                target@,
                (TargetControlView {
                    kind,
                    ..control_of(old(self).deep_view().controls, target@)
                }),
            ),
    {
        let mut control = self.control(target);
        control.set_kind(kind);
        let _ = self.controls.insert(target.to_owned(), control);
    }

    /// Drops the plan of `target`, so that it is made anew.
    pub fn schedule_plan_rebuild(&mut self, target: &str)
        ensures
            final(self).deep_view() == with_control(
                old(self).deep_view(),
                target@,
                requested(
                    control_of(old(self).deep_view().controls, target@),
                    control_of(old(self).deep_view().controls, target@).desired_state,
                ),
            ),
    {
        let mut control = self.control(target);
        control.schedule_plan_rebuild();
        let _ = self.controls.insert(target.to_owned(), control);
    }

    /// What is shown of the control record of `target`.
    pub fn control_info(&self, target: &str) -> (r: Option<ControlInfo>)
        ensures
            r.deep_view() == control_info_of(self.deep_view().controls, target@),
    {
        match self.controls.get(target) {
            Some(control) => Some(
                ControlInfo {
                    desired_state: control.desired_state.as_str().to_owned(),
                    action_plan: control.action_plan.describe(),
                },
            ),
            None => None,
        }
    }

    /// Whether the process of `target` runs.
    pub fn target_status(&self, target: &str) -> (r: TargetStatus)
        ensures
            r == status_of(self.deep_view(), target@),
    {
        TargetStatus { is_running: self.processes.contains(target) }
    }

    /// The targets that the control loop looks after, in name order.
    pub fn controlled_targets(&self) -> (r: Vec<String>)
        ensures
            r.deep_view() == names_of(self.deep_view().controls),
            ordered(self.deep_view().controls),
    {
        self.controls.keys()
    }
}

/// What is shown of the control record of a target.
pub open spec fn control_info_of(
    controls: Seq<(Seq<char>, TargetControlView)>,
    target: Seq<char>,
) -> Option<ControlInfoView> {
    match lookup(controls, target) {
        Some(control) => Some(
            ControlInfoView {
                desired_state: desired_text(control.desired_state),
                action_plan: describe_spec(control.action_plan),
            },
        ),
        None => None,
    }
}

/// Whether the process of a target runs.
pub open spec fn status_of(runner: RunnerView, target: Seq<char>) -> TargetStatus {
    TargetStatus { is_running: runner.processes.contains(target) }
}

// ---------------------------------------------------------------------------
// The control loop
// ---------------------------------------------------------------------------

/// The control record of a target after an action was chosen.
pub open spec fn chosen_control(runner: RunnerView, target: Seq<char>) -> TargetControlView {
    planned(control_of(runner.controls, target), status_of(runner, target), target)
}

/// The action that a target needs, unless one is under way.
pub open spec fn chosen_action(runner: RunnerView, target: Seq<char>) -> Option<ActionView> {
    if runner.in_flight.contains(target) {
        None
    } else {
        due(chosen_control(runner, target))
    }
}

/// The supervisor after an action was chosen.
pub open spec fn after_choice(runner: RunnerView, target: Seq<char>) -> RunnerView {
    RunnerView {
        controls: put(runner.controls, target, chosen_control(runner, target)),
        in_flight: if chosen_action(runner, target) is Some {
            runner.in_flight.insert(target)
        } else {
            runner.in_flight
        },
        ..runner
    }
}

/// The supervisor after an action was carried out.
pub open spec fn after_action(
    runner: RunnerView,
    target: Seq<char>,
    action: ActionView,
    success: bool,
) -> RunnerView {
    RunnerView {
        controls: put(
            runner.controls,
            target,
            carried_out(control_of(runner.controls, target), action, success),
        ),
        in_flight: runner.in_flight.remove(target),
        ..runner
    }
}

impl Runner {
    /// Chooses the action that `target` needs and notes that it is under way; nothing where the
    /// target is as it should be or has an action under way.
    pub fn choose_action(&mut self, target: &str) -> (r: Option<Action>)
        ensures
            r.deep_view() == chosen_action(old(self).deep_view(), target@),
            final(self).deep_view() == after_choice(old(self).deep_view(), target@),
    {
        let status = self.target_status(target);
        let mut control = self.control(target);
        let action = control.choose_action(&status, target);
        let _ = self.controls.insert(target.to_owned(), control);
        match action {
            Some(action) => {
                if self.in_flight.insert(target.to_owned()) {
                    Some(action)
                } else {
                    assert(self.in_flight@ =~= old(self).in_flight@);
                    None
                }
            },
            None => None,
        }
    }

    /// Notes that an action of `target` was carried out, with or without success.
    pub fn finish_action(&mut self, target: &str, action: Action, success: bool)
        ensures
            final(self).deep_view() == after_action(
                old(self).deep_view(),
                target@,
                action.deep_view(),
                success,
            ),
    {
        let mut control = self.control(target);
        control.finish_action(action, success);
        let _ = self.controls.insert(target.to_owned(), control);
        let _ = self.in_flight.remove(target);
    }
}

// ---------------------------------------------------------------------------
// Watching
// ---------------------------------------------------------------------------

/// The directory that a watch path stands for.
pub open spec fn watch_dir(path: Seq<char>, roots: WatchRootsView) -> Seq<char> {
    let joined = join_spec(roots.base, path);
    if absolute(path) {
        path
    } else {
        match lookup(roots.canonical, joined) {
            Some(canonical) => canonical,
            None => joined,
        }
    }
}

/// The directories to watch for a unit: its watch paths, or the directory of the configuration
/// where it names none.
pub open spec fn watch_dirs(unit: UnitTargetView, roots: WatchRootsView) -> Seq<Seq<char>> {
    if unit.watch_paths.len() == 0 {
        seq![roots.base]
    } else {
        unit.watch_paths.map_values(|path: Seq<char>| watch_dir(path, roots))
    }
}

/// The directories to watch for each service among units.
pub open spec fn watched_services(units: Seq<UnitTargetView>, roots: WatchRootsView) -> Seq<
    (Seq<char>, Seq<Seq<char>>),
>
    decreases units.len(),
{
    if units.len() == 0 {
        Seq::empty()
    } else {
        let rest = watched_services(units.drop_last(), roots);
        if units.last().behavior is Service {
            put(rest, units.last().name, watch_dirs(units.last(), roots))
        } else {
            rest
        }
    }
}

/// What to watch for the named targets.
pub open spec fn watch_spec_of(
    config: ConfigView,
    targets: Seq<Seq<char>>,
    roots: WatchRootsView,
) -> Result<WatchSpecView, ResolveErrorView> {
    match resolved(config, targets) {
        Err(error) => Err(error),
        Ok(units) => Ok(
            WatchSpecView {
                services: watched_services(units, roots),
                stability: config.watch.stability,
            },
        ),
    }
}

fn dirs_of(unit: &UnitTarget, roots: &WatchRoots) -> (r: Vec<String>)
    ensures
        r.deep_view() == watch_dirs(unit.deep_view(), roots.deep_view()),
{
    let mut r: Vec<String> = Vec::new();
    if unit.watch_paths.len() == 0 {
        r.push(roots.base.clone());
        assert(r.deep_view() =~= seq![roots.base@]);
        return r;
    }
    let mut i: usize = 0;
    while i < unit.watch_paths.len()
        invariant
            i <= unit.watch_paths@.len(),
            r@.len() == i,
            forall|k: int|
                0 <= k < i ==> (#[trigger] r@[k])@ == watch_dir(
                    unit.watch_paths@[k]@,
                    roots.deep_view(),
                ),
        decreases unit.watch_paths@.len() - i,
    {
        let path: &String = &unit.watch_paths[i];
        let dir: String = if is_absolute(path.as_str()) {
            path.clone()
        } else {
            let joined: String = join(roots.base.as_str(), path.as_str());
            match roots.canonical.get(joined.as_str()) {
                Some(canonical) => canonical.clone(),
                None => joined,
            }
        };
        r.push(dir);
        i = i + 1;
    }
    assert(r.deep_view() =~= watch_dirs(unit.deep_view(), roots.deep_view()));
    r
}

/// What to watch for the named targets: the directories of each service among them.
pub fn watch_spec_from_config(config: &Config, targets: &Vec<String>, roots: &WatchRoots) -> (r:
    Result<WatchSpec, ResolveError>)
    ensures
        outcome(r) == watch_spec_of(config.deep_view(), targets.deep_view(), roots.deep_view()),
{
    let units: Vec<UnitTarget> = match resolve_units(config, targets) {
        Ok(units) => units,
        Err(error) => return Err(error),
    };
    let ghost list = units.deep_view();
    let mut services: NameMap<Vec<String>> = NameMap::new();
    let mut i: usize = 0;
    assert(list.take(0) =~= Seq::empty());
    while i < units.len()
        invariant
            i <= units@.len(),
            list == units.deep_view(),
            services.deep_view() == watched_services(list.take(i as int), roots.deep_view()),
        decreases units@.len() - i,
    {
        assert(list.take(i + 1).drop_last() =~= list.take(i as int));
        if units[i].behavior.is_service() {
            let _ = services.insert(units[i].name.clone(), dirs_of(&units[i], roots));
        }
        i = i + 1;
    }
    assert(list.take(i as int) =~= list);
    Ok(WatchSpec { services, stability: config.watch.stability })
}

/// The paths below `base` that watching a list of units asks to resolve.
pub open spec fn unresolved_paths(units: Seq<UnitTargetView>, base: Seq<char>) -> Seq<Seq<char>>
    decreases units.len(),
{
    if units.len() == 0 {
        Seq::empty()
    } else {
        unresolved_paths(units.drop_last(), base) + relative_paths(units.last().watch_paths, base)
    }
}

/// The relative paths of a list, seen from `base`.
pub open spec fn relative_paths(paths: Seq<Seq<char>>, base: Seq<char>) -> Seq<Seq<char>>
    decreases paths.len(),
{
    if paths.len() == 0 {
        Seq::empty()
    } else if absolute(paths.last()) {
        relative_paths(paths.drop_last(), base)
    } else {
        relative_paths(paths.drop_last(), base).push(join_spec(base, paths.last()))
    }
}

/// The paths that watching the named targets asks the file system to resolve.
pub fn paths_to_resolve(config: &Config, targets: &Vec<String>, base: &str) -> (r: Result<
    Vec<String>,
    ResolveError,
>)
    ensures
        outcome(r) == (match resolved(config.deep_view(), targets.deep_view()) {
            Ok(units) => Ok(unresolved_paths(units, base@)),
            Err(error) => Err(error),
        }),
{
    let units: Vec<UnitTarget> = match resolve_units(config, targets) {
        Ok(units) => units,
        Err(error) => return Err(error),
    };
    let ghost list = units.deep_view();
    let mut r: Vec<String> = Vec::new();
    let mut i: usize = 0;
    assert(list.take(0) =~= Seq::empty());
    assert(r.deep_view() =~= Seq::empty());
    while i < units.len()
        invariant
            i <= units@.len(),
            list == units.deep_view(),
            r.deep_view() == unresolved_paths(list.take(i as int), base@),
        decreases units@.len() - i,
    {
        assert(list.take(i + 1).drop_last() =~= list.take(i as int));
        let paths: &Vec<String> = &units[i].watch_paths;
        let ghost shown = paths.deep_view();
        let ghost before = r.deep_view();
        let mut k: usize = 0;
        assert(shown.take(0) =~= Seq::empty());
        assert(before + Seq::<Seq<char>>::empty() =~= before);
        while k < paths.len()
            invariant
                k <= paths@.len(),
                shown == paths.deep_view(),
                r.deep_view() == before + relative_paths(shown.take(k as int), base@),
            decreases paths@.len() - k,
        {
            assert(shown.take(k + 1).drop_last() =~= shown.take(k as int));
            if !is_absolute(paths[k].as_str()) {
                let ghost now = r.deep_view();
                let joined: String = join(base, paths[k].as_str());
                let ghost text = joined@;
                r.push(joined);
                assert(r.deep_view() =~= now.push(text));
                assert(r.deep_view() =~= before + relative_paths(
                    shown.take(k as int),
                    base@,
                ).push(text));
            }
            k = k + 1;
        }
        assert(shown.take(k as int) =~= shown);
        i = i + 1;
    }
    assert(list.take(i as int) =~= list);
    Ok(r)
}

// ---------------------------------------------------------------------------
// Requests
// ---------------------------------------------------------------------------

/// The kind of a unit.
pub open spec fn kind_of(behavior: TargetBehavior) -> TargetKind {
    match behavior {
        TargetBehavior::Service => TargetKind::Service,
        TargetBehavior::Job { timeout } => TargetKind::Job,
    }
}

/// The control records after a state was asked for of each unit.
pub open spec fn with_requests(
    controls: Seq<(Seq<char>, TargetControlView)>,
    units: Seq<UnitTargetView>,
    desired: DesiredState,
) -> Seq<(Seq<char>, TargetControlView)>
    decreases units.len(),
{
    if units.len() == 0 {
        controls
    } else {
        let before = with_requests(controls, units.drop_last(), desired);
        let unit = units.last();
        put(
            before,
            unit.name,
            TargetControlView {
                kind: kind_of(unit.behavior),
                ..requested(control_of(before, unit.name), desired)
            },
        )
    }
}

/// Whether the supervisor watches the files of a unit.
pub open spec fn watched_by_rufa(unit: UnitTargetView) -> bool {
    unit.behavior is Service && unit.refresh_watch_type == WatchPreference::Rufa
}

/// The names of the units whose files the supervisor watches.
pub open spec fn watched_names(units: Seq<UnitTargetView>) -> Seq<Seq<char>>
    decreases units.len(),
{
    if units.len() == 0 {
        Seq::empty()
    } else if watched_by_rufa(units.last()) {
        watched_names(units.drop_last()).push(units.last().name)
    } else {
        watched_names(units.drop_last())
    }
}

/// What a start asks of the file watcher: nothing where no unit is watched.
pub open spec fn start_outcome(
    config: ConfigView,
    names: Seq<Seq<char>>,
    roots: WatchRootsView,
) -> Result<StartOutcomeView, RunnerErrorView> {
    if names.len() == 0 {
        Ok(StartOutcomeView { rufa_watch: None })
    } else {
        match watch_spec_of(config, names, roots) {
            Ok(watch) => Ok(StartOutcomeView { rufa_watch: Some(watch) }),
            Err(error) => Err(RunnerErrorView::Resolve(error)),
        }
    }
}

/// What a start of the named targets asks of the file watcher.
pub fn watch_outcome(config: &Config, names: &Vec<String>, roots: &WatchRoots) -> (r: Result<
    StartOutcome,
    RunnerError,
>)
    ensures
        outcome(r) == start_outcome(config.deep_view(), names.deep_view(), roots.deep_view()),
{
    if names.len() == 0 {
        return Ok(StartOutcome { rufa_watch: None });
    }
    match watch_spec_from_config(config, names, roots) {
        Ok(watch) => Ok(StartOutcome { rufa_watch: Some(watch) }),
        Err(error) => Err(RunnerError::Resolve(error)),
    }
}

pub(crate) fn names_to_watch(units: &Vec<UnitTarget>) -> (r: Vec<String>)
    ensures
        r.deep_view() == watched_names(units.deep_view()),
{
    let ghost list = units.deep_view();
    let mut r: Vec<String> = Vec::new();
    let mut i: usize = 0;
    assert(list.take(0) =~= Seq::empty());
    assert(r.deep_view() =~= Seq::empty());
    while i < units.len()
        invariant
            i <= units@.len(),
            list == units.deep_view(),
            r.deep_view() == watched_names(list.take(i as int)),
        decreases units@.len() - i,
    {
        assert(list.take(i + 1).drop_last() =~= list.take(i as int));
        let unit: &UnitTarget = &units[i];
        if unit.behavior.is_service() && unit.refresh_watch_type == WatchPreference::Rufa {
            let ghost before = r.deep_view();
            r.push(unit.name.clone());
            assert(r.deep_view() =~= before.push(unit.name@));
        }
        i = i + 1;
    }
    assert(list.take(i as int) =~= list);
    r
}

/// The first job among units.
pub open spec fn first_job(units: Seq<UnitTargetView>) -> Option<Seq<char>>
    decreases units.len(),
{
    if units.len() == 0 {
        None
    } else {
        match first_job(units.drop_last()) {
            Some(name) => Some(name),
            None => if units.last().behavior is Job {
                Some(units.last().name)
            } else {
                None
            },
        }
    }
}

proof fn lemma_first_job(units: Seq<UnitTargetView>, i: int)
    requires
        0 <= i <= units.len(),
        first_job(units.take(i)) is Some,
    ensures
        first_job(units) == first_job(units.take(i)),
    decreases units.len() - i,
{
    if i < units.len() {
        assert(units.take(i + 1).drop_last() =~= units.take(i));
        lemma_first_job(units, i + 1);
    } else {
        assert(units.take(i) =~= units);
    }
}

fn find_job(units: &Vec<UnitTarget>) -> (r: Option<String>)
    ensures
        r.deep_view() == first_job(units.deep_view()),
{
    let ghost list = units.deep_view();
    let mut i: usize = 0;
    assert(list.take(0) =~= Seq::empty());
    while i < units.len()
        invariant
            i <= units@.len(),
            list == units.deep_view(),
            first_job(list.take(i as int)) is None,
        decreases units@.len() - i,
    {
        assert(list.take(i + 1).drop_last() =~= list.take(i as int));
        if units[i].behavior.is_job() {
            proof {
                lemma_first_job(list, i + 1);
            }
            return Some(units[i].name.clone());
        }
        i = i + 1;
    }
    assert(list.take(i as int) =~= list);
    None
}

/// What a request to start the named targets comes to.
pub open spec fn start_request(
    config: ConfigView,
    targets: Seq<Seq<char>>,
    roots: WatchRootsView,
) -> Result<StartOutcomeView, RunnerErrorView> {
    match resolved(config, targets) {
        Err(error) => Err(RunnerErrorView::Resolve(error)),
        Ok(units) => if units.len() == 0 {
            Err(RunnerErrorView::NothingSelected)
        } else {
            start_outcome(config, watched_names(units), roots)
        },
    }
}

/// The supervisor after a state was asked for of each unit.
pub open spec fn after_requests(
    runner: RunnerView,
    units: Seq<UnitTargetView>,
    desired: DesiredState,
) -> RunnerView {
    RunnerView { controls: with_requests(runner.controls, units, desired), ..runner }
}

/// The supervisor after a request to start the named targets.
pub open spec fn after_start_request(
    runner: RunnerView,
    config: ConfigView,
    targets: Seq<Seq<char>>,
) -> RunnerView {
    match resolved(config, targets) {
        Err(_) => runner,
        Ok(units) => after_requests(runner, units, DesiredState::Running),
    }
}

/// Those of the units that are services.
pub open spec fn services_among(units: Seq<UnitTargetView>) -> Seq<UnitTargetView>
    decreases units.len(),
{
    if units.len() == 0 {
        Seq::empty()
    } else if units.last().behavior is Service {
        services_among(units.drop_last()).push(units.last())
    } else {
        services_among(units.drop_last())
    }
}

fn keep_services(units: &Vec<UnitTarget>) -> (r: Vec<UnitTarget>)
    ensures
        r.deep_view() == services_among(units.deep_view()),
{
    let ghost list = units.deep_view();
    let mut r: Vec<UnitTarget> = Vec::new();
    let mut i: usize = 0;
    assert(list.take(0) =~= Seq::empty());
    assert(r.deep_view() =~= Seq::empty());
    while i < units.len()
        invariant
            i <= units@.len(),
            list == units.deep_view(),
            r.deep_view() == services_among(list.take(i as int)),
        decreases units@.len() - i,
    {
        assert(list.take(i + 1).drop_last() =~= list.take(i as int));
        if units[i].behavior.is_service() {
            let ghost before = r.deep_view();
            r.push(units[i].duplicate());
            assert(r.deep_view() =~= before.push(list[i as int]));
        }
        i = i + 1;
    }
    assert(list.take(i as int) =~= list);
    r
}

/// The targets that a restart is about: those named, or all that run.
pub open spec fn restart_names(
    running: Seq<Seq<char>>,
    targets: Seq<Seq<char>>,
    all: bool,
) -> Result<Seq<Seq<char>>, RunnerErrorView> {
    if all {
        if running.len() == 0 {
            Err(RunnerErrorView::NothingRunning)
        } else {
            Ok(running)
        }
    } else if targets.len() == 0 {
        Err(RunnerErrorView::NoTargets)
    } else {
        Ok(targets)
    }
}

/// The units that a restart of the named targets is about. A job is refused, or left alone where
/// all that runs is restarted.
pub open spec fn restart_units(config: ConfigView, names: Seq<Seq<char>>, all: bool) -> Result<
    Seq<UnitTargetView>,
    RunnerErrorView,
> {
    match resolved(config, names) {
        Err(error) => Err(RunnerErrorView::Resolve(error)),
        Ok(units) => if units.len() == 0 {
            Err(RunnerErrorView::NothingToRestart)
        } else if all {
            if services_among(units).len() == 0 {
                Err(RunnerErrorView::NothingRunning)
            } else {
                Ok(services_among(units))
            }
        } else {
            match first_job(units) {
                Some(name) => Err(RunnerErrorView::IsJob(name)),
                None => Ok(units),
            }
        },
    }
}

/// The units that a request to restart is about: those that the named targets stand for, among
/// which no job may be, or the services that the running targets stand for.
pub open spec fn restart_selection(
    runner: RunnerView,
    config: ConfigView,
    targets: Seq<Seq<char>>,
    all: bool,
) -> Result<Seq<UnitTargetView>, RunnerErrorView> {
    match restart_names(listing(runner.processes), targets, all) {
        Err(error) => Err(error),
        Ok(names) => restart_units(config, names, all),
    }
}

/// What a request to restart comes to.
pub open spec fn restart_request(
    runner: RunnerView,
    config: ConfigView,
    targets: Seq<Seq<char>>,
    all: bool,
    roots: WatchRootsView,
) -> Result<StartOutcomeView, RunnerErrorView> {
    match restart_selection(runner, config, targets, all) {
        Err(error) => Err(error),
        Ok(units) => start_outcome(config, watched_names(units), roots),
    }
}

/// The supervisor after a request to restart.
pub open spec fn after_restart_request(
    runner: RunnerView,
    config: ConfigView,
    targets: Seq<Seq<char>>,
    all: bool,
) -> RunnerView {
    match restart_selection(runner, config, targets, all) {
        Err(_) => runner,
        Ok(units) => after_requests(runner, units, DesiredState::Restarted),
    }
}

impl Runner {
    pub(crate) fn request_units(&mut self, units: &Vec<UnitTarget>, desired: DesiredState)
        ensures
            final(self).deep_view() == after_requests(
                old(self).deep_view(),
                units.deep_view(),
                desired,
            ),
    {
        let ghost list = units.deep_view();
        let mut i: usize = 0;
        assert(list.take(0) =~= Seq::empty());
        while i < units.len()
            invariant
                i <= units@.len(),
                list == units.deep_view(),
                self.deep_view() == after_requests(
                    old(self).deep_view(),
                    list.take(i as int),
                    desired,
                ),
            decreases units@.len() - i,
        {
            assert(list.take(i + 1).drop_last() =~= list.take(i as int));
            let name: &String = &units[i].name;
            let mut control = self.control(name.as_str());
            control.request_desired_state(desired);
            control.set_kind(
                match units[i].behavior {
                    TargetBehavior::Service => TargetKind::Service,
                    TargetBehavior::Job { timeout: _ } => TargetKind::Job,
                },
            );
            let _ = self.controls.insert(name.clone(), control);
            i = i + 1;
        }
        assert(list.take(i as int) =~= list);
    }

    /// Asks that the named targets run. Tells what the file watcher should do.
    pub fn request_start(&mut self, config: &Config, targets: &Vec<String>, roots: &WatchRoots) -> (r:
        Result<StartOutcome, RunnerError>)
        ensures
            outcome(r) == start_request(
                config.deep_view(),
                targets.deep_view(),
                roots.deep_view(),
            ),
            final(self).deep_view() == after_start_request(
                old(self).deep_view(),
                config.deep_view(),
                targets.deep_view(),
            ),
    {
        let units: Vec<UnitTarget> = match resolve_units(config, targets) {
            Ok(units) => units,
            Err(error) => return Err(RunnerError::Resolve(error)),
        };
        self.request_units(&units, DesiredState::Running);
        if units.len() == 0 {
            return Err(RunnerError::NothingSelected);
        }
        let names: Vec<String> = names_to_watch(&units);
        watch_outcome(config, &names, roots)
    }

    /// Asks that every running target stops.
    pub fn request_stop_all(&mut self)
        ensures
            final(self).deep_view() == after_stop_requests(
                old(self).deep_view(),
                listing(old(self).deep_view().processes),
            ),
    {
        let running: Vec<String> = self.processes.to_vec();
        let ghost list = running.deep_view();
        let mut i: usize = 0;
        assert(list.take(0) =~= Seq::empty());
        while i < running.len()
            invariant
                i <= running@.len(),
                list == running.deep_view(),
                self.deep_view() == after_stop_requests(old(self).deep_view(), list.take(i as int)),
            decreases running@.len() - i,
        {
            assert(list.take(i + 1).drop_last() =~= list.take(i as int));
            self.set_desired_state_for(running[i].as_str(), DesiredState::Stopped);
            i = i + 1;
        }
        assert(list.take(i as int) =~= list);
    }

    /// Asks that the named targets, or all running services, are restarted. A job that is named is
    /// refused; one that runs beside the services is left alone. A running target that is not
    /// configured any more is refused. Tells what the file watcher should do.
    pub fn request_restart(
        &mut self,
        config: &Config,
        targets: &Vec<String>,
        all: bool,
        roots: &WatchRoots,
    ) -> (r: Result<StartOutcome, RunnerError>)
        ensures
            outcome(r) == restart_request(
                old(self).deep_view(),
                config.deep_view(),
                targets.deep_view(),
                all,
                roots.deep_view(),
            ),
            final(self).deep_view() == after_restart_request(
                old(self).deep_view(),
                config.deep_view(),
                targets.deep_view(),
                all,
            ),
    {
        let running: Vec<String> = self.processes.to_vec();
        let names: &Vec<String> = if all {
            if running.len() == 0 {
                return Err(RunnerError::NothingRunning);
            }
            &running
        } else {
            if targets.len() == 0 {
                return Err(RunnerError::NoTargets);
            }
            targets
        };
        let units: Vec<UnitTarget> = match resolve_units(config, names) {
            Ok(units) => units,
            Err(error) => return Err(RunnerError::Resolve(error)),
        };
        if units.len() == 0 {
            return Err(RunnerError::NothingToRestart);
        }
        let selected: Vec<UnitTarget> = if all {
            let services: Vec<UnitTarget> = keep_services(&units);
            if services.len() == 0 {
                return Err(RunnerError::NothingRunning);
            }
            services
        } else {
            if let Some(name) = find_job(&units) {
                return Err(RunnerError::IsJob(name));
            }
            units
        };
        self.request_units(&selected, DesiredState::Restarted);
        let watched: Vec<String> = names_to_watch(&selected);
        watch_outcome(config, &watched, roots)
    }
}

/// The supervisor after each of the named targets was asked to stop.
pub open spec fn after_stop_requests(runner: RunnerView, names: Seq<Seq<char>>) -> RunnerView
    decreases names.len(),
{
    if names.len() == 0 {
        runner
    } else {
        let before = after_stop_requests(runner, names.drop_last());
        with_control(
            before,
            names.last(),
            requested(control_of(before.controls, names.last()), DesiredState::Stopped),
        )
    }
}

} // verus!
