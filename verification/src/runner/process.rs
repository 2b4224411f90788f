//! Processes that start, write, end and are stopped.

use vstd::prelude::*;

use crate::config::model::TargetBehavior;
use crate::names::{lemma_lookup_put, lookup, put, NameMap};
use crate::numbers::{signed_decimal, signed_decimal_spec};
use crate::runner::control::{requested, settled, DesiredState, TargetControlView, TargetKind};
use crate::runner::ports::released;
use crate::runner::start_laws::other_ports_stay_reserved;
use crate::runner::supervisor::{chosen_action, control_of, with_control, Runner, RunnerView};
use crate::state::{
    fresh_run, new_target_state, snapshot, ExitStatus, ExitStatusView, RuntimeStateView,
    TargetState, TargetStateView,
};
use crate::views::Duplicate;

verus! {

// ---------------------------------------------------------------------------
// Start
// ---------------------------------------------------------------------------

/// What is known of a target; nothing where it never ran.
pub open spec fn state_of(
    targets: Seq<(Seq<char>, TargetStateView)>,
    target: Seq<char>,
) -> TargetStateView {
    match lookup(targets, target) {
        Some(state) => state,
        None => new_target_state(),
    }
}

/// The supervisor with another state of a target.
pub open spec fn with_state(
    runner: RunnerView,
    target: Seq<char>,
    state: TargetStateView,
) -> RunnerView {
    RunnerView {
        state: RuntimeStateView { targets: put(runner.state.targets, target, state) },
        ..runner
    }
}

/// The state of a target whose process was started.
pub open spec fn started_state(
    before: TargetStateView,
    keep: nat,
    generation: u64,
    ports: Seq<(Seq<char>, u16)>,
    runtime_watch: bool,
    rufa_watch: bool,
    pid: Option<u32>,
) -> TargetStateView {
    TargetStateView {
        pid,
        ..fresh_run(snapshot(before, keep), generation, ports, runtime_watch, rufa_watch)
    }
}

/// The supervisor after the process of a target was started.
pub open spec fn after_spawn(
    runner: RunnerView,
    target: Seq<char>,
    generation: u64,
    ports: Seq<(Seq<char>, u16)>,
    runtime_watch: bool,
    rufa_watch: bool,
    pid: Option<u32>,
) -> RunnerView {
    let stated = with_state(
        runner,
        target,
        started_state(
            state_of(runner.state.targets, target),
            runner.history_keep as nat,
            generation,
            ports,
            runtime_watch,
            rufa_watch,
            pid,
        ),
    );
    let running = with_control(
        stated,
        target,
        settled(control_of(runner.controls, target), DesiredState::Running),
    );
    RunnerView { processes: runner.processes.insert(target), ..running }
}

impl Runner {
    /// Notes that the process of `target` was started: the last run goes into the history, a new
    /// one begins, and the target runs, as it should. Tells whether no process of it was running.
    pub fn record_spawn(
        &mut self,
        target: &str,
        generation: u64,
        ports: &NameMap<u16>,
        runtime_watch: bool,
        rufa_watch: bool,
        pid: Option<u32>,
    ) -> (r: bool)
        ensures
            final(self).deep_view() == after_spawn(
                old(self).deep_view(),
                target@,
                generation,
                ports.deep_view(),
                runtime_watch,
                rufa_watch,
                pid,
            ),
            r == !old(self).deep_view().processes.contains(target@),
    {
        let mut entry: TargetState = match self.state.targets.get(target) {
            Some(entry) => entry.duplicate(),
            None => TargetState::default(),
        };
        entry.record_snapshot(self.history_keep);
        entry.reset_for_new_run(generation, ports.duplicate(), runtime_watch, rufa_watch);
        entry.pid = pid;
        let _ = self.state.targets.insert(target.to_owned(), entry);
        self.mark_target_running(target);
        self.processes.insert(target.to_owned())
    }

    /// Takes back the ports of a target that was not started.
    pub fn release_ports(&mut self, ports: &NameMap<u16>)
        ensures
            final(self).deep_view() == (RunnerView {
                reserved: released(old(self).deep_view().reserved, ports.deep_view()),
                ..old(self).deep_view()
            }),
    {
        self.port_allocator.release_ports(ports);
    }
}

// ---------------------------------------------------------------------------
// Output
// ---------------------------------------------------------------------------

/// The supervisor after a target wrote a line.
pub open spec fn after_line(runner: RunnerView, target: Seq<char>, line: Seq<char>) -> RunnerView {
    match lookup(runner.state.targets, target) {
        None => runner,
        Some(state) => with_state(
            runner,
            target,
            TargetStateView { last_log_line: Some(line), ..state },
        ),
    }
}

impl Runner {
    /// Notes the last line that `target` wrote.
    pub fn record_log_line(&mut self, target: &str, line: &str)
        ensures
            final(self).deep_view() == after_line(old(self).deep_view(), target@, line@),
    {
        if let Some(entry) = self.state.targets.get(target) {
            let mut entry: TargetState = entry.duplicate();
            entry.last_log_line = Some(line.to_owned());
            let _ = self.state.targets.insert(target.to_owned(), entry);
        }
    }
}

// ---------------------------------------------------------------------------
// Exit
// ---------------------------------------------------------------------------

/// What is logged of an exit.
pub open spec fn exit_text(code: Option<i32>, signal: Option<i32>) -> Seq<char> {
    match code {
        Some(code) => "exited with code "@ + signed_decimal_spec(code as int),
        None => match signal {
            Some(signal) => "terminated by signal "@ + signed_decimal_spec(signal as int),
            None => "process exited"@,
        },
    }
}

/// What is logged of an exit.
pub fn exit_message(code: Option<i32>, signal: Option<i32>) -> (r: String)
    ensures
        r@ == exit_text(code, signal),
{
    match code {
        Some(code) => {
            let mut r: String = "exited with code ".to_owned();
            r.append(signed_decimal(code as i64).as_str());
            r
        },
        None => match signal {
            Some(signal) => {
                let mut r: String = "terminated by signal ".to_owned();
                r.append(signed_decimal(signal as i64).as_str());
                r
            },
            None => "process exited".to_owned(),
        },
    }
}

/// What is logged when a process ended, by itself or because its time was over.
pub open spec fn end_text(timed_out: bool, code: Option<i32>, signal: Option<i32>) -> Seq<char> {
    if timed_out {
        "terminated due to timeout"@
    } else {
        exit_text(code, signal)
    }
}

/// What is logged when a process ended, by itself or because its time was over.
pub fn end_message(timed_out: bool, code: Option<i32>, signal: Option<i32>) -> (r: String)
    ensures
        r@ == end_text(timed_out, code, signal),
{
    if timed_out {
        "terminated due to timeout".to_owned()
    } else {
        exit_message(code, signal)
    }
}

/// The seconds that a target may run.
pub open spec fn time_limit_of(behavior: TargetBehavior) -> Option<u64> {
    match behavior {
        TargetBehavior::Job { timeout } => timeout,
        TargetBehavior::Service => None,
    }
}

/// The seconds that the target may run; only jobs have a limit.
pub fn time_limit(behavior: &TargetBehavior) -> (r: Option<u64>)
    ensures
        r == time_limit_of(*behavior),
{
    match behavior {
        TargetBehavior::Job { timeout } => *timeout,
        TargetBehavior::Service => None,
    }
}

/// Whether an exit was not expected: a service ended otherwise than with success, or nobody knows
/// how.
pub open spec fn unexpected(behavior: TargetBehavior, exit: Option<ExitStatusView>) -> bool {
    behavior is Service && (exit matches Some(status) ==> status.code != Some(0i32))
}

/// Whether an exit was not expected: a service ended otherwise than with success, or nobody knows
/// how.
pub fn is_unexpected_exit(behavior: &TargetBehavior, exit: &Option<ExitStatus>) -> (r: bool)
    ensures
        r == unexpected(*behavior, exit.deep_view()),
{
    let success: bool = match exit {
        Some(status) => match status.code {
            Some(code) => code == 0,
            None => false,
        },
        None => false,
    };
    behavior.is_service() && !success
}

/// The state of a target whose process ended; `exit` is missing where nobody knows how.
pub open spec fn ended_state(
    state: TargetStateView,
    exit: Option<ExitStatusView>,
) -> TargetStateView {
    TargetStateView {
        pid: None,
        last_exit: if exit is Some {
            exit
        } else {
            state.last_exit
        },
        ..state
    }
}

/// Whether a target was to run once: a job is done when its process ends, while a service is
/// still wanted.
pub open spec fn runs_once(control: TargetControlView) -> bool {
    control.kind == TargetKind::Job && control.desired_state == DesiredState::Running
}

/// The control records after the process of a target ended.
pub open spec fn controls_after_exit(
    controls: Seq<(Seq<char>, TargetControlView)>,
    target: Seq<char>,
) -> Seq<(Seq<char>, TargetControlView)> {
    let control = control_of(controls, target);
    if runs_once(control) {
        put(controls, target, settled(control, DesiredState::Stopped))
    } else {
        controls
    }
}

/// The supervisor after the process of a target ended.
pub open spec fn after_exit(
    runner: RunnerView,
    target: Seq<char>,
    exit: Option<ExitStatusView>,
    ports: Seq<(Seq<char>, u16)>,
) -> RunnerView {
    let stated = match lookup(runner.state.targets, target) {
        None => runner,
        Some(state) => with_state(runner, target, ended_state(state, exit)),
    };
    RunnerView {
        controls: controls_after_exit(runner.controls, target),
        reserved: released(runner.reserved, ports),
        processes: runner.processes.remove(target),
        ..stated
    }
}

impl Runner {
    /// Notes that the process of `target` ended, and takes its ports back. A job is not wanted any
    /// more, a service is. `exit` is missing where waiting for the process failed.
    pub fn record_exit(&mut self, target: &str, exit: Option<ExitStatus>, ports: &NameMap<u16>)
        ensures
            final(self).deep_view() == after_exit(
                old(self).deep_view(),
                target@,
                exit.deep_view(),
                ports.deep_view(),
            ),
    {
        if let Some(entry) = self.state.targets.get(target) {
            let mut entry: TargetState = entry.duplicate();
            entry.pid = None;
            if exit.is_some() {
                entry.last_exit = exit;
            }
            let _ = self.state.targets.insert(target.to_owned(), entry);
        }
        let mut job_is_done: bool = false;
        if let Some(control) = self.controls.get(target) {
            job_is_done = control.kind == TargetKind::Job && control.desired_state
                == DesiredState::Running;
        }
        if job_is_done {
            self.mark_target_stopped(target);
        }
        self.port_allocator.release_ports(ports);
        let _ = self.processes.remove(target);
    }
}

// ---------------------------------------------------------------------------
// Stopping
// ---------------------------------------------------------------------------

/// How far the termination of a target has come.
#[derive(Debug, Clone, Copy, PartialEq, Eq, Structural)]
pub enum Termination {
    Start,
    /// The process was asked to end.
    Asked(u32),
    /// The process was told to end.
    Told(u32),
    Over,
}

/// What came of waiting for a process to end.
#[derive(Debug, Clone, Copy, PartialEq, Eq, Structural)]
pub enum WaitAnswer {
    /// Nothing was waited for yet.
    Begin,
    Exited,
    TimedOut,
}

/// What to do next to terminate a target.
#[derive(Debug, Clone, Copy, PartialEq, Eq, Structural)]
pub enum TerminationStep {
    /// Send the signal that asks to end and wait.
    Ask(u32),
    /// Send the signal that cannot be refused and wait.
    Tell(u32),
    Done,
}

/// The next step of a termination.
pub open spec fn termination_step(
    runner: RunnerView,
    target: Seq<char>,
    stage: Termination,
    answer: WaitAnswer,
) -> TerminationStep {
    match stage {
        Termination::Start => if !runner.processes.contains(target) {
            TerminationStep::Done
        } else {
            match lookup(runner.state.targets, target) {
                Some(state) => match state.pid {
                    Some(pid) => TerminationStep::Ask(pid),
                    None => TerminationStep::Done,
                },
                None => TerminationStep::Done,
            }
        },
        Termination::Asked(pid) => if answer == WaitAnswer::Exited {
            TerminationStep::Done
        } else {
            TerminationStep::Tell(pid)
        },
        Termination::Told(_) => TerminationStep::Done,
        Termination::Over => TerminationStep::Done,
    }
}

/// The stage that a step leads to.
pub open spec fn termination_stage(step: TerminationStep) -> Termination {
    match step {
        TerminationStep::Ask(pid) => Termination::Asked(pid),
        TerminationStep::Tell(pid) => Termination::Told(pid),
        TerminationStep::Done => Termination::Over,
    }
}

/// The supervisor after a target is no longer watched.
pub open spec fn unwatched(runner: RunnerView, target: Seq<char>) -> RunnerView {
    match lookup(runner.state.targets, target) {
        None => runner,
        Some(state) => with_state(
            runner,
            target,
            TargetStateView {
                runtime_watch: false,
                rufa_watch: false,
                change_noticed_restart_necessary: false,
                ..state
            },
        ),
    }
}

/// The supervisor after a step of a termination: when it is done the target is no longer watched.
pub open spec fn after_termination_step(
    runner: RunnerView,
    target: Seq<char>,
    stage: Termination,
    step: TerminationStep,
) -> RunnerView {
    if step != TerminationStep::Done || stage == Termination::Over || (stage == Termination::Start
        && !runner.processes.contains(target)) {
        runner
    } else {
        unwatched(runner, target)
    }
}

impl Runner {
    /// The next step of the termination of `target`: nothing where it does not run; else its
    /// process is asked to end, and told to where it does not within the time that is waited.
    pub fn terminate_target(&mut self, target: &str, stage: &mut Termination, answer: WaitAnswer) -> (step:
        TerminationStep)
        ensures
            step == termination_step(old(self).deep_view(), target@, *old(stage), answer),
            *final(stage) == termination_stage(step),
            final(self).deep_view() == after_termination_step(
                old(self).deep_view(),
                target@,
                *old(stage),
                step,
            ),
    {
        let step: TerminationStep = match *stage {
            Termination::Start => {
                if !self.processes.contains(target) {
                    *stage = Termination::Over;
                    return TerminationStep::Done;
                }
                match self.state.targets.get(target) {
                    Some(entry) => match entry.pid {
                        Some(pid) => TerminationStep::Ask(pid),
                        None => TerminationStep::Done,
                    },
                    None => TerminationStep::Done,
                }
            },
            Termination::Asked(pid) => {
                if answer == WaitAnswer::Exited {
                    TerminationStep::Done
                } else {
                    TerminationStep::Tell(pid)
                }
            },
            Termination::Told(_) => TerminationStep::Done,
            Termination::Over => return TerminationStep::Done,
        };
        match step {
            TerminationStep::Ask(pid) => {
                *stage = Termination::Asked(pid);
            },
            TerminationStep::Tell(pid) => {
                *stage = Termination::Told(pid);
            },
            TerminationStep::Done => {
                *stage = Termination::Over;
                if let Some(entry) = self.state.targets.get(target) {
                    let mut entry: TargetState = entry.duplicate();
                    entry.runtime_watch = false;
                    entry.rufa_watch = false;
                    entry.change_noticed_restart_necessary = false;
                    let _ = self.state.targets.insert(target.to_owned(), entry);
                }
            },
        }
        step
    }
}

// ---------------------------------------------------------------------------
// Laws
// ---------------------------------------------------------------------------

/// A target whose process was started is known to run, with its generation, its ports and its
/// process, and its last run leads its history.
pub proof fn started_target_runs(
    runner: RunnerView,
    target: Seq<char>,
    generation: u64,
    ports: Seq<(Seq<char>, u16)>,
    runtime_watch: bool,
    rufa_watch: bool,
    pid: Option<u32>,
)
    ensures
        ({
            let after = after_spawn(
                runner,
                target,
                generation,
                ports,
                runtime_watch,
                rufa_watch,
                pid,
            );
            let before = state_of(runner.state.targets, target);
            &&& after.processes.contains(target)
            &&& lookup(after.state.targets, target) matches Some(state) && state.generation
                == generation && state.pid == pid && state.ports == ports && state.history
                == snapshot(before, runner.history_keep as nat).history
            &&& lookup(after.controls, target) matches Some(control) && control.desired_state
                == DesiredState::Running
        }),
{
    let before = state_of(runner.state.targets, target);
    lemma_lookup_put(
        runner.state.targets,
        target,
        started_state(
            before,
            runner.history_keep as nat,
            generation,
            ports,
            runtime_watch,
            rufa_watch,
            pid,
        ),
        target,
    );
    lemma_lookup_put(
        runner.controls,
        target,
        settled(control_of(runner.controls, target), DesiredState::Running),
        target,
    );
}

/// A target whose process ended does not run and has no process; its ports and its generation are
/// still known, and no other target is touched.
pub proof fn ended_target_does_not_run(
    runner: RunnerView,
    target: Seq<char>,
    exit: Option<ExitStatusView>,
    ports: Seq<(Seq<char>, u16)>,
    other: Seq<char>,
)
    ensures
        ({
            let after = after_exit(runner, target, exit, ports);
            &&& !after.processes.contains(target)
            &&& lookup(runner.state.targets, target) matches Some(before) ==> (lookup(
                after.state.targets,
                target,
            ) matches Some(state) && state.pid is None && state.ports == before.ports
                && state.generation == before.generation && (exit is Some ==> state.last_exit
                == exit))
            &&& other != target ==> lookup(after.state.targets, other) == lookup(
                runner.state.targets,
                other,
            )
            &&& other != target ==> lookup(after.controls, other) == lookup(runner.controls, other)
        }),
{
    lemma_lookup_put(
        runner.controls,
        target,
        settled(control_of(runner.controls, target), DesiredState::Stopped),
        other,
    );
    if let Some(before) = lookup(runner.state.targets, target) {
        lemma_lookup_put(runner.state.targets, target, ended_state(before, exit), target);
        lemma_lookup_put(runner.state.targets, target, ended_state(before, exit), other);
    }
}

/// A job runs once: when its process ends it is not started again by itself.
pub proof fn finished_job_stays_finished(
    runner: RunnerView,
    target: Seq<char>,
    exit: Option<ExitStatusView>,
    ports: Seq<(Seq<char>, u16)>,
)
    requires
        control_of(runner.controls, target).kind == TargetKind::Job,
        control_of(runner.controls, target).desired_state == DesiredState::Running,
    ensures
        ({
            let after = after_exit(runner, target, exit, ports);
            &&& control_of(after.controls, target).desired_state == DesiredState::Stopped
            &&& chosen_action(after, target) is None
        }),
{
    lemma_lookup_put(
        runner.controls,
        target,
        settled(control_of(runner.controls, target), DesiredState::Stopped),
        target,
    );
}

/// A service is kept running: when its process ends by itself and nothing else is under way, it is
/// started again.
pub proof fn ended_service_is_started_again(
    runner: RunnerView,
    target: Seq<char>,
    exit: Option<ExitStatusView>,
    ports: Seq<(Seq<char>, u16)>,
)
    requires
        control_of(runner.controls, target).kind == TargetKind::Service,
        control_of(runner.controls, target).desired_state == DesiredState::Running,
        control_of(runner.controls, target).action_plan is Idle,
        !runner.in_flight.contains(target),
    ensures
        ({
            let after = after_exit(runner, target, exit, ports);
            chosen_action(after, target) matches Some(action) && action is Start
        }),
{
}

/// A termination asks first and tells only a process that did not end in time, and never goes
/// back: after at most two signals it is done.
pub proof fn termination_ends(
    runner: RunnerView,
    target: Seq<char>,
    first: WaitAnswer,
    second: WaitAnswer,
)
    ensures
        ({
            let one = termination_step(runner, target, Termination::Start, WaitAnswer::Begin);
            let two = termination_step(runner, target, termination_stage(one), first);
            let three = termination_step(runner, target, termination_stage(two), second);
            &&& one !is Tell
            &&& two !is Ask
            &&& two is Tell ==> one is Ask && first != WaitAnswer::Exited
            &&& three is Done
        }),
{
}

/// A target that was terminated is not watched any more.
pub proof fn terminated_target_is_not_watched(
    runner: RunnerView,
    target: Seq<char>,
    stage: Termination,
    answer: WaitAnswer,
)
    requires
        stage is Asked || stage is Told,
        termination_step(runner, target, stage, answer) is Done,
    ensures
        ({
            let after = after_termination_step(runner, target, stage, TerminationStep::Done);
            lookup(after.state.targets, target) matches Some(state) ==> !state.rufa_watch
                && !state.runtime_watch && !state.change_noticed_restart_necessary
        }),
{
    if let Some(state) = lookup(runner.state.targets, target) {
        lemma_lookup_put(
            runner.state.targets,
            target,
            TargetStateView {
                runtime_watch: false,
                rufa_watch: false,
                change_noticed_restart_necessary: false,
                ..state
            },
            target,
        );
    }
}

/// Stopping a target leaves every other target alone: what is planned for it and what is known of
/// it.
pub proof fn stopping_concerns_only_its_target(
    runner: RunnerView,
    target: Seq<char>,
    stage: Termination,
    step: TerminationStep,
    other: Seq<char>,
)
    requires
        other != target,
    ensures
        ({
            let asked = with_control(
                runner,
                target,
                requested(control_of(runner.controls, target), DesiredState::Stopped),
            );
            let after = after_termination_step(asked, target, stage, step);
            &&& lookup(after.controls, other) == lookup(runner.controls, other)
            &&& lookup(after.state.targets, other) == lookup(runner.state.targets, other)
            &&& after.processes == runner.processes
            &&& after.reserved == runner.reserved
        }),
{
    let control = requested(control_of(runner.controls, target), DesiredState::Stopped);
    lemma_lookup_put(runner.controls, target, control, other);
    if let Some(state) = lookup(runner.state.targets, target) {
        lemma_lookup_put(
            runner.state.targets,
            target,
            TargetStateView {
                runtime_watch: false,
                rufa_watch: false,
                change_noticed_restart_necessary: false,
                ..state
            },
            other,
        );
    }
}

/// A start concerns only its target: what is known and planned of every other target stays, and
/// so do the reserved ports and the generations. The target has the watch modes that it is started
/// with.
pub proof fn start_concerns_only_its_target(
    runner: RunnerView,
    target: Seq<char>,
    generation: u64,
    ports: Seq<(Seq<char>, u16)>,
    runtime_watch: bool,
    rufa_watch: bool,
    pid: Option<u32>,
    other: Seq<char>,
)
    requires
        other != target,
    ensures
        ({
            let after = after_spawn(
                runner,
                target,
                generation,
                ports,
                runtime_watch,
                rufa_watch,
                pid,
            );
            &&& lookup(after.state.targets, target) matches Some(state) && state.runtime_watch
                == runtime_watch && state.rufa_watch == rufa_watch && state.last_exit is None
                && state.last_log_line is None
            &&& lookup(after.state.targets, other) == lookup(runner.state.targets, other)
            &&& lookup(after.controls, other) == lookup(runner.controls, other)
            &&& after.processes.contains(other) == runner.processes.contains(other)
            &&& after.reserved == runner.reserved
            &&& after.generations == runner.generations
            &&& after.refresh_on_change == runner.refresh_on_change
        }),
{
    let state = started_state(
        state_of(runner.state.targets, target),
        runner.history_keep as nat,
        generation,
        ports,
        runtime_watch,
        rufa_watch,
        pid,
    );
    let control = settled(control_of(runner.controls, target), DesiredState::Running);
    lemma_lookup_put(runner.state.targets, target, state, target);
    lemma_lookup_put(runner.state.targets, target, state, other);
    lemma_lookup_put(runner.controls, target, control, other);
}

/// The last line that a known target wrote is noted, and nothing else is changed.
pub proof fn last_line_is_noted(
    runner: RunnerView,
    target: Seq<char>,
    line: Seq<char>,
    other: Seq<char>,
)
    ensures
        ({
            let after = after_line(runner, target, line);
            &&& lookup(runner.state.targets, target) matches Some(state) ==> lookup(
                after.state.targets,
                target,
            ) == Some(TargetStateView { last_log_line: Some(line), ..state })
            &&& lookup(runner.state.targets, target) is None ==> after == runner
            &&& other != target ==> lookup(after.state.targets, other) == lookup(
                runner.state.targets,
                other,
            )
            &&& after.controls == runner.controls
            &&& after.processes == runner.processes
            &&& after.reserved == runner.reserved
        }),
{
    if let Some(state) = lookup(runner.state.targets, target) {
        let after = TargetStateView { last_log_line: Some(line), ..state };
        lemma_lookup_put(runner.state.targets, target, after, target);
        lemma_lookup_put(runner.state.targets, target, after, other);
    }
}

/// When a process ends its ports are free again and all others stay reserved; no other process is
/// affected.
pub proof fn exit_gives_the_ports_back(
    runner: RunnerView,
    target: Seq<char>,
    exit: Option<ExitStatusView>,
    ports: Seq<(Seq<char>, u16)>,
    port: u16,
    other: Seq<char>,
)
    ensures
        ({
            let after = after_exit(runner, target, exit, ports);
            &&& after.reserved.contains(port) <==> runner.reserved.contains(port) && forall|i: int|
                0 <= i < ports.len() ==> (#[trigger] ports[i]).1 != port
            &&& other != target ==> after.processes.contains(other) == runner.processes.contains(
                other,
            )
            &&& exit is None ==> (lookup(runner.state.targets, target) matches Some(before)
                ==> lookup(after.state.targets, target) == Some(
                TargetStateView { pid: None, ..before },
            ))
            &&& after.generations == runner.generations
        }),
{
    other_ports_stay_reserved(runner.reserved, ports, port);
    if let Some(before) = lookup(runner.state.targets, target) {
        lemma_lookup_put(runner.state.targets, target, ended_state(before, exit), target);
    }
}

/// What is logged of an end tells how it came: the code where there is one, else the signal, and
/// that the time was over where it was.
pub proof fn end_tells_how_it_came(timed_out: bool, code: Option<i32>, signal: Option<i32>)
    ensures
        timed_out ==> end_text(timed_out, code, signal) == "terminated due to timeout"@,
        !timed_out ==> (code matches Some(number) ==> end_text(timed_out, code, signal)
            == "exited with code "@ + signed_decimal_spec(number as int)),
        !timed_out && code is None ==> (signal matches Some(number) ==> end_text(
            timed_out,
            code,
            signal,
        ) == "terminated by signal "@ + signed_decimal_spec(number as int)),
{
}

/// Only a job has a time limit: the one that it is configured with.
pub proof fn only_jobs_have_a_time_limit(behavior: TargetBehavior)
    ensures
        behavior is Service ==> time_limit_of(behavior) is None,
        behavior matches TargetBehavior::Job { timeout } ==> time_limit_of(behavior) == timeout,
{
}

/// Only a service ends unexpectedly: with another code than zero, by a signal, or in a way that
/// nobody knows.
pub proof fn only_services_end_unexpectedly(behavior: TargetBehavior, exit: Option<ExitStatusView>)
    ensures
        behavior is Job ==> !unexpected(behavior, exit),
        behavior is Service && exit is None ==> unexpected(behavior, exit),
        behavior is Service ==> (exit matches Some(status) ==> (unexpected(behavior, exit)
            <==> status.code is None || status.code->0 != 0)),
{
}

/// A process that runs is asked to end; where it does not in time, the same process is told to.
/// One that ends in time is left alone, and nothing is done where no process runs.
pub proof fn running_process_is_asked_then_told(
    runner: RunnerView,
    target: Seq<char>,
    pid: u32,
)
    requires
        runner.processes.contains(target),
        lookup(runner.state.targets, target) matches Some(state) && state.pid == Some(pid),
    ensures
        termination_step(runner, target, Termination::Start, WaitAnswer::Begin)
            == TerminationStep::Ask(pid),
        termination_step(runner, target, Termination::Asked(pid), WaitAnswer::TimedOut)
            == TerminationStep::Tell(pid),
        termination_step(runner, target, Termination::Asked(pid), WaitAnswer::Exited)
            == TerminationStep::Done,
{
}

/// Nothing is done to terminate a target that does not run.
pub proof fn stopped_target_is_left_alone(runner: RunnerView, target: Seq<char>)
    requires
        !runner.processes.contains(target),
    ensures
        termination_step(runner, target, Termination::Start, WaitAnswer::Begin)
            == TerminationStep::Done,
        after_termination_step(runner, target, Termination::Start, TerminationStep::Done) == runner,
{
}

/// An end changes of a target that it has no process and how it ended, and nothing else: its last
/// line, its ports, its history and whether it is watched stay. What is wanted of a target stays
/// too, unless it is a job that was to run.
pub proof fn end_leaves_the_rest(
    runner: RunnerView,
    target: Seq<char>,
    exit: ExitStatusView,
    ports: Seq<(Seq<char>, u16)>,
)
    ensures
        ({
            let after = after_exit(runner, target, Some(exit), ports);
            let control = control_of(runner.controls, target);
            &&& lookup(runner.state.targets, target) matches Some(before) ==> lookup(
                after.state.targets,
                target,
            ) == Some(TargetStateView { pid: None, last_exit: Some(exit), ..before })
            &&& lookup(runner.state.targets, target) is None ==> after.state == runner.state
            &&& control.kind != TargetKind::Job || control.desired_state != DesiredState::Running
                ==> after.controls == runner.controls
            &&& after.in_flight == runner.in_flight
            &&& after.refresh_on_change == runner.refresh_on_change
            &&& after.history_keep == runner.history_keep
        }),
        end_text(false, None, None) == "process exited"@,
{
    if let Some(before) = lookup(runner.state.targets, target) {
        lemma_lookup_put(runner.state.targets, target, ended_state(before, Some(exit)), target);
    }
}

/// A process that is started has no last line and no exit yet, no change was noticed for it, and it
/// is watched as it is told; nothing more is to be done for its target.
pub proof fn started_process_begins_afresh(
    runner: RunnerView,
    target: Seq<char>,
    generation: u64,
    ports: Seq<(Seq<char>, u16)>,
    runtime_watch: bool,
    rufa_watch: bool,
    pid: Option<u32>,
)
    requires
        !runner.in_flight.contains(target),
    ensures
        ({
            let after = after_spawn(
                runner,
                target,
                generation,
                ports,
                runtime_watch,
                rufa_watch,
                pid,
            );
            &&& lookup(after.state.targets, target) matches Some(state)
            &&& state.last_log_line is None
            &&& state.last_exit is None
            &&& !state.change_noticed_restart_necessary
            &&& state.runtime_watch == runtime_watch
            &&& state.rufa_watch == rufa_watch
            &&& chosen_action(after, target) is None
            &&& after.reserved == runner.reserved
            &&& after.generations == runner.generations
        }),
{
    let state = started_state(
        state_of(runner.state.targets, target),
        runner.history_keep as nat,
        generation,
        ports,
        runtime_watch,
        rufa_watch,
        pid,
    );
    let control = settled(control_of(runner.controls, target), DesiredState::Running);
    lemma_lookup_put(runner.state.targets, target, state, target);
    lemma_lookup_put(runner.controls, target, control, target);
}

} // verus!
