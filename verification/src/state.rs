//! What is known of the targets while the daemon runs.

use vstd::prelude::*;

use crate::names::NameMap;
use crate::time::{Instant, Timestamp};
use crate::views::Duplicate;

verus! {

/// How a run ended.
#[derive(Debug, PartialEq, Eq)]
pub struct ExitStatus {
    pub code: Option<i32>,
    pub signal: Option<i32>,
    pub when: Timestamp,
}

/// What a [`ExitStatus`] stands for.
pub struct ExitStatusView {
    pub code: Option<i32>,
    pub signal: Option<i32>,
    pub when: Instant,
}

impl DeepView for ExitStatus {
    type V = ExitStatusView;

    open spec fn deep_view(&self) -> ExitStatusView {
        ExitStatusView {
            code: self.code.deep_view(),
            signal: self.signal.deep_view(),
            when: self.when.deep_view(),
        }
    }
}

impl Duplicate for ExitStatus {
    fn duplicate(&self) -> (copy: Self) {
        ExitStatus {
            code: self.code.duplicate(),
            signal: self.signal.duplicate(),
            when: self.when.duplicate(),
        }
    }
}

/// A run that is over.
#[derive(Debug, PartialEq, Eq)]
pub struct RunRecord {
    pub generation: u64,
    pub last_log_line: Option<String>,
    pub exit: Option<ExitStatus>,
}

/// What a [`RunRecord`] stands for.
pub struct RunRecordView {
    pub generation: u64,
    pub last_log_line: Option<Seq<char>>,
    pub exit: Option<ExitStatusView>,
}

impl DeepView for RunRecord {
    type V = RunRecordView;

    open spec fn deep_view(&self) -> RunRecordView {
        RunRecordView {
            generation: self.generation,
            last_log_line: self.last_log_line.deep_view(),
            exit: self.exit.deep_view(),
        }
    }
}

impl Duplicate for RunRecord {
    fn duplicate(&self) -> (copy: Self) {
        RunRecord {
            generation: self.generation,
            last_log_line: self.last_log_line.duplicate(),
            exit: self.exit.duplicate(),
        }
    }
}

/// What is known of a target.
#[derive(Debug, PartialEq, Eq)]
pub struct TargetState {
    /// How often the target was started.
    pub generation: u64,
    /// The process that runs, if one does.
    pub pid: Option<u32>,
    /// The ports by their names.
    pub ports: NameMap<u16>,
    /// The last line that the target wrote.
    pub last_log_line: Option<String>,
    /// How the last run ended.
    pub last_exit: Option<ExitStatus>,
    /// Whether the target runs in the watch mode of its runtime.
    pub runtime_watch: bool,
    /// Whether the supervisor watches the files of the target.
    pub rufa_watch: bool,
    /// Whether a change was seen while refreshing was off.
    pub change_noticed_restart_necessary: bool,
    /// The runs before, the latest first.
    pub history: Vec<RunRecord>,
}

/// What a [`TargetState`] stands for.
pub struct TargetStateView {
    pub generation: u64,
    pub pid: Option<u32>,
    pub ports: Seq<(Seq<char>, u16)>,
    pub last_log_line: Option<Seq<char>>,
    pub last_exit: Option<ExitStatusView>,
    pub runtime_watch: bool,
    pub rufa_watch: bool,
    pub change_noticed_restart_necessary: bool,
    pub history: Seq<RunRecordView>,
}

impl DeepView for TargetState {
    type V = TargetStateView;

    open spec fn deep_view(&self) -> TargetStateView {
        TargetStateView {
            generation: self.generation,
            pid: self.pid.deep_view(),
            ports: self.ports.deep_view(),
            last_log_line: self.last_log_line.deep_view(),
            last_exit: self.last_exit.deep_view(),
            runtime_watch: self.runtime_watch,
            rufa_watch: self.rufa_watch,
            change_noticed_restart_necessary: self.change_noticed_restart_necessary,
            history: self.history.deep_view(),
        }
    }
}

impl Duplicate for TargetState {
    fn duplicate(&self) -> (copy: Self) {
        TargetState {
            generation: self.generation,
            pid: self.pid.duplicate(),
            ports: self.ports.duplicate(),
            last_log_line: self.last_log_line.duplicate(),
            last_exit: self.last_exit.duplicate(),
            runtime_watch: self.runtime_watch,
            rufa_watch: self.rufa_watch,
            change_noticed_restart_necessary: self.change_noticed_restart_necessary,
            history: self.history.duplicate(),
        }
    }
}

/// What is known of all targets.
#[derive(Debug, PartialEq, Eq)]
pub struct RuntimeState {
    pub targets: NameMap<TargetState>,
}

/// What a [`RuntimeState`] stands for.
pub struct RuntimeStateView {
    pub targets: Seq<(Seq<char>, TargetStateView)>,
}

impl DeepView for RuntimeState {
    type V = RuntimeStateView;

    open spec fn deep_view(&self) -> RuntimeStateView {
        RuntimeStateView {
            targets: self.targets.deep_view(),
        }
    }
}

impl Duplicate for RuntimeState {
    fn duplicate(&self) -> (copy: Self) {
        RuntimeState {
            targets: self.targets.duplicate(),
        }
    }
}

impl Default for RuntimeState {
    fn default() -> (r: Self)
        ensures
            r.deep_view().targets == Seq::<(Seq<char>, TargetStateView)>::empty(),
    {
        RuntimeState { targets: NameMap::new() }
    }
}

/// What is known of a target that never ran.
pub open spec fn new_target_state() -> TargetStateView {
    TargetStateView {
        generation: 0,
        pid: None,
        ports: Seq::empty(),
        last_log_line: None,
        last_exit: None,
        runtime_watch: false,
        rufa_watch: false,
        change_noticed_restart_necessary: false,
        history: Seq::empty(),
    }
}

impl Default for TargetState {
    fn default() -> (r: Self)
        ensures
            r.deep_view() == new_target_state(),
    {
        let r = TargetState {
            generation: 0,
            pid: None,
            ports: NameMap::new(),
            last_log_line: None,
            last_exit: None,
            runtime_watch: false,
            rufa_watch: false,
            change_noticed_restart_necessary: false,
            history: Vec::new(),
        };
        assert(r.history.deep_view() =~= Seq::empty());
        r
    }
}

/// The first `keep` elements of a sequence.
pub open spec fn at_most<T>(s: Seq<T>, keep: nat) -> Seq<T> {
    if s.len() <= keep {
        s
    } else {
        s.take(keep as int)
    }
}

/// What is known of a target after its run was put into the history.
pub open spec fn snapshot(state: TargetStateView, keep: nat) -> TargetStateView {
    if state.generation == 0 {
        state
    } else {
        TargetStateView {
            history: at_most(
                seq![
                    RunRecordView {
                        generation: state.generation,
                        last_log_line: state.last_log_line,
                        exit: state.last_exit,
                    },
                ] + state.history,
                keep,
            ),
            ..state
        }
    }
}

/// What is known of a target when a new run begins.
pub open spec fn fresh_run(
    state: TargetStateView,
    generation: u64,
    ports: Seq<(Seq<char>, u16)>,
    runtime_watch: bool,
    rufa_watch: bool,
) -> TargetStateView {
    TargetStateView {
        generation,
        pid: None,
        ports,
        last_log_line: None,
        last_exit: None,
        runtime_watch,
        rufa_watch,
        change_noticed_restart_necessary: false,
        history: state.history,
    }
}

impl TargetState {
    /// Puts the run into the history, of which the latest `keep` runs are kept.
    pub fn record_snapshot(&mut self, keep: usize)
        ensures
            final(self).deep_view() == snapshot(old(self).deep_view(), keep as nat),
    {
        if self.generation == 0 {
            return;
        }
        let record = RunRecord {
            generation: self.generation,
            last_log_line: self.last_log_line.duplicate(),
            exit: self.last_exit.duplicate(),
        };
        let ghost before = self.history.deep_view();
        let ghost shown = record.deep_view();
        self.history.insert(0, record);
        let ghost longer = self.history.deep_view();
        assert(longer =~= seq![shown] + before);
        self.history.truncate(keep);
        assert(self.history.deep_view() =~= at_most(longer, keep as nat));
    }

    /// Begins a new run.
    pub fn reset_for_new_run(
        &mut self,
        generation: u64,
        ports: NameMap<u16>,
        runtime_watch: bool,
        rufa_watch: bool,
    )
        ensures
            final(self).deep_view() == fresh_run(
                old(self).deep_view(),
                generation,
                ports.deep_view(),
                runtime_watch,
                rufa_watch,
            ),
    {
        self.generation = generation;
        self.pid = None;
        self.ports = ports;
        self.last_log_line = None;
        self.last_exit = None;
        self.runtime_watch = runtime_watch;
        self.rufa_watch = rufa_watch;
        self.change_noticed_restart_necessary = false;
    }
}

// ---------------------------------------------------------------------------
// Laws
// ---------------------------------------------------------------------------

/// The history never holds more runs than are kept, and its first entry is the run that was put
/// into it last; the runs behind it keep their order.
pub proof fn history_is_bounded_and_latest_first(state: TargetStateView, keep: nat)
    requires
        state.history.len() <= keep,
        keep >= 1,
    ensures
        snapshot(state, keep).history.len() <= keep,
        state.generation > 0 ==> {
            &&& snapshot(state, keep).history[0].generation == state.generation
            &&& snapshot(state, keep).history[0].exit == state.last_exit
            &&& forall|i: int|
                0 < i < snapshot(state, keep).history.len() ==> #[trigger] snapshot(
                    state,
                    keep,
                ).history[i] == state.history[i - 1]
        },
{
}

/// A new run keeps the history and starts without a process, an exit or a log line.
pub proof fn new_run_keeps_history(
    state: TargetStateView,
    generation: u64,
    ports: Seq<(Seq<char>, u16)>,
    runtime_watch: bool,
    rufa_watch: bool,
)
    ensures
        fresh_run(state, generation, ports, runtime_watch, rufa_watch).history == state.history,
        fresh_run(state, generation, ports, runtime_watch, rufa_watch).pid is None,
        fresh_run(state, generation, ports, runtime_watch, rufa_watch).last_exit is None,
        fresh_run(state, generation, ports, runtime_watch, rufa_watch).last_log_line is None,
{
}

/// A run that is put into the history is its first entry, with its generation, its last line and
/// how it ended. Every earlier run is kept behind it as long as there are not too many, and then
/// only the oldest is dropped. Nothing else is changed, and a target that never ran has no history.
pub proof fn every_run_is_kept_until_there_are_too_many(state: TargetStateView, keep: nat)
    ensures
        ({
            let after = snapshot(state, keep);
            &&& state.generation == 0 ==> after == state
            &&& state.generation > 0 ==> {
                &&& after.history.len() == (if state.history.len() + 1 <= keep {
                    state.history.len() + 1
                } else {
                    keep
                })
                &&& keep > 0 ==> after.history[0] == (RunRecordView {
                    generation: state.generation,
                    last_log_line: state.last_log_line,
                    exit: state.last_exit,
                })
                &&& forall|i: int|
                    0 < i < after.history.len() ==> #[trigger] after.history[i] == state.history[i
                        - 1]
                &&& after == TargetStateView { history: after.history, ..state }
            }
        }),
{
}

/// A new run has the generation, the ports and the watch modes that it is given, and no noted
/// change.
pub proof fn new_run_is_as_it_is_given(
    state: TargetStateView,
    generation: u64,
    ports: Seq<(Seq<char>, u16)>,
    runtime_watch: bool,
    rufa_watch: bool,
)
    ensures
        ({
            let after = fresh_run(state, generation, ports, runtime_watch, rufa_watch);
            &&& after.generation == generation
            &&& after.ports == ports
            &&& after.runtime_watch == runtime_watch
            &&& after.rufa_watch == rufa_watch
            &&& !after.change_noticed_restart_necessary
        }),
{
}

} // verus!
