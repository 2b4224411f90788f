//! What is wanted of a target and what is done about it.

use vstd::prelude::*;

use crate::views::Duplicate;

verus! {

/// The state that a target should reach.
#[derive(Debug, Clone, Copy, PartialEq, Eq, Structural)]
pub enum DesiredState {
    Running,
    Stopped,
    Restarted,
}

impl DeepView for DesiredState {
    type V = DesiredState;

    open spec fn deep_view(&self) -> DesiredState {
        *self
    }
}

impl Duplicate for DesiredState {
    fn duplicate(&self) -> (copy: Self) {
        *self
    }
}

/// What is known of a target when an action is chosen.
#[derive(Debug, Clone, Copy, PartialEq, Eq, Structural)]
pub struct TargetStatus {
    pub is_running: bool,
}

/// The kind of a target, as far as it is known.
#[derive(Debug, Clone, Copy, PartialEq, Eq, Structural)]
pub enum TargetKind {
    Unknown,
    Service,
    Job,
}

impl DeepView for TargetKind {
    type V = TargetKind;

    open spec fn deep_view(&self) -> TargetKind {
        *self
    }
}

impl Duplicate for TargetKind {
    fn duplicate(&self) -> (copy: Self) {
        *self
    }
}

/// How a plan ended.
#[derive(Debug, PartialEq, Eq)]
pub enum ActionResult {
    NotStarted,
    Done,
    Error(String),
}

/// What an [`ActionResult`] stands for.
pub enum ActionResultView {
    NotStarted,
    Done,
    Error(Seq<char>),
}

impl DeepView for ActionResult {
    type V = ActionResultView;

    open spec fn deep_view(&self) -> ActionResultView {
        match self {
            ActionResult::NotStarted => ActionResultView::NotStarted,
            ActionResult::Done => ActionResultView::Done,
            ActionResult::Error(message) => ActionResultView::Error(message@),
        }
    }
}

impl Duplicate for ActionResult {
    fn duplicate(&self) -> (copy: Self) {
        match self {
            ActionResult::NotStarted => ActionResult::NotStarted,
            ActionResult::Done => ActionResult::Done,
            ActionResult::Error(message) => ActionResult::Error(message.clone()),
        }
    }
}

/// What is shown of a result.
pub open spec fn result_text(result: ActionResultView) -> Seq<char> {
    match result {
        ActionResultView::NotStarted => "not started"@,
        ActionResultView::Done => "ok"@,
        ActionResultView::Error(message) => "error: "@ + message,
    }
}

impl ActionResult {
    /// What is shown of the result.
    pub fn text(&self) -> (r: String)
        ensures
            r@ == result_text(self.deep_view()),
    {
        match self {
            ActionResult::NotStarted => "not started".to_owned(),
            ActionResult::Done => "ok".to_owned(),
            ActionResult::Error(message) => {
                let mut r: String = "error: ".to_owned();
                r.append(message.as_str());
                r
            },
        }
    }
}

/// A plan: what to do next, and what comes after it.
#[derive(Debug, PartialEq, Eq)]
pub enum Action {
    Start { on_success: Box<Action>, on_failure: Box<Action> },
    Stop { on_success: Box<Action>, on_failure: Box<Action> },
    SetDesiredState { desired: DesiredState, next: Box<Action> },
    Idle(ActionResult),
}

/// What an [`Action`] stands for.
pub enum ActionView {
    Start { on_success: Box<ActionView>, on_failure: Box<ActionView> },
    Stop { on_success: Box<ActionView>, on_failure: Box<ActionView> },
    SetDesiredState { desired: DesiredState, next: Box<ActionView> },
    Idle(ActionResultView),
}

/// What a plan stands for.
pub open spec fn action_view(action: Action) -> ActionView
    decreases action,
{
    match action {
        Action::Start { on_success, on_failure } => ActionView::Start {
            on_success: Box::new(action_view(*on_success)),
            on_failure: Box::new(action_view(*on_failure)),
        },
        Action::Stop { on_success, on_failure } => ActionView::Stop {
            on_success: Box::new(action_view(*on_success)),
            on_failure: Box::new(action_view(*on_failure)),
        },
        Action::SetDesiredState { desired, next } => ActionView::SetDesiredState {
            desired,
            next: Box::new(action_view(*next)),
        },
        Action::Idle(result) => ActionView::Idle(result.deep_view()),
    }
}

impl DeepView for Action {
    type V = ActionView;

    open spec fn deep_view(&self) -> ActionView {
        action_view(*self)
    }
}

fn copy_action(action: &Action) -> (copy: Action)
    ensures
        copy.deep_view() == action.deep_view(),
    decreases action,
{
    match action {
        Action::Start { on_success, on_failure } => Action::Start {
            on_success: Box::new(copy_action(on_success)),
            on_failure: Box::new(copy_action(on_failure)),
        },
        Action::Stop { on_success, on_failure } => Action::Stop {
            on_success: Box::new(copy_action(on_success)),
            on_failure: Box::new(copy_action(on_failure)),
        },
        Action::SetDesiredState { desired, next } => Action::SetDesiredState {
            desired: *desired,
            next: Box::new(copy_action(next)),
        },
        Action::Idle(result) => Action::Idle(result.duplicate()),
    }
}

impl Duplicate for Action {
    fn duplicate(&self) -> (copy: Self) {
        copy_action(self)
    }
}

/// What is shown of a desired state.
pub open spec fn desired_text(desired: DesiredState) -> Seq<char> {
    match desired {
        DesiredState::Running => "running"@,
        DesiredState::Stopped => "stopped"@,
        DesiredState::Restarted => "restarted"@,
    }
}

/// Whether a desired state is reached; a restart never is, it has to be carried out.
pub open spec fn fulfilled(desired: DesiredState, status: TargetStatus) -> bool {
    match desired {
        DesiredState::Running => status.is_running,
        DesiredState::Stopped => !status.is_running,
        DesiredState::Restarted => false,
    }
}

/// The plan that brings a target into a desired state.
pub open spec fn plan_for(desired: DesiredState, target: Seq<char>) -> ActionView {
    let done = ActionView::Idle(ActionResultView::Done);
    let start_failed = ActionView::Idle(ActionResultView::Error("failed to start "@ + target));
    let stop_failed = ActionView::Idle(ActionResultView::Error("failed to stop "@ + target));
    match desired {
        DesiredState::Running => ActionView::Start {
            on_success: Box::new(done),
            on_failure: Box::new(start_failed),
        },
        DesiredState::Stopped => ActionView::Stop {
            on_success: Box::new(done),
            on_failure: Box::new(stop_failed),
        },
        DesiredState::Restarted => ActionView::Stop {
            on_success: Box::new(
                ActionView::SetDesiredState {
                    desired: DesiredState::Running,
                    next: Box::new(ActionView::Idle(ActionResultView::NotStarted)),
                },
            ),
            on_failure: Box::new(stop_failed),
        },
    }
}

fn failed(what: &str, target: &str) -> (r: Action)
    ensures
        r.deep_view() == ActionView::Idle(ActionResultView::Error(what@ + target@)),
{
    let mut message: String = what.to_owned();
    message.append(target);
    Action::Idle(ActionResult::Error(message))
}

impl DesiredState {
    /// Whether the state is reached.
    pub fn is_fulfilled(&self, status: &TargetStatus) -> (r: bool)
        ensures
            r == fulfilled(*self, *status),
    {
        match self {
            DesiredState::Running => status.is_running,
            DesiredState::Stopped => !status.is_running,
            DesiredState::Restarted => false,
        }
    }

    /// What is shown of the state.
    pub fn as_str(&self) -> (r: &'static str)
        ensures
            r@ == desired_text(*self),
    {
        match self {
            DesiredState::Running => "running",
            DesiredState::Stopped => "stopped",
            DesiredState::Restarted => "restarted",
        }
    }

    /// The plan that brings `target` into the state.
    pub fn make_plan(&self, target: &str) -> (r: Action)
        ensures
            r.deep_view() == plan_for(*self, target@),
    {
        proof {
            reveal_with_fuel(action_view, 3);
        }
        match self {
            DesiredState::Running => Action::Start {
                on_success: Box::new(Action::Idle(ActionResult::Done)),
                on_failure: Box::new(failed("failed to start ", target)),
            },
            DesiredState::Stopped => Action::Stop {
                on_success: Box::new(Action::Idle(ActionResult::Done)),
                on_failure: Box::new(failed("failed to stop ", target)),
            },
            DesiredState::Restarted => Action::Stop {
                on_success: Box::new(
                    Action::SetDesiredState {
                        desired: DesiredState::Running,
                        next: Box::new(Action::Idle(ActionResult::NotStarted)),
                    },
                ),
                on_failure: Box::new(failed("failed to stop ", target)),
            },
        }
    }
}

/// What is shown of a plan.
pub open spec fn describe_spec(action: ActionView) -> Seq<char>
    decreases action,
{
    match action {
        ActionView::Start { on_success, on_failure } => "Start(success: "@ + describe_spec(
            *on_success,
        ) + ", failure: "@ + describe_spec(*on_failure) + ")"@,
        ActionView::Stop { on_success, on_failure } => "Stop(success: "@ + describe_spec(
            *on_success,
        ) + ", failure: "@ + describe_spec(*on_failure) + ")"@,
        ActionView::SetDesiredState { desired, next } => "SetDesiredState("@ + desired_text(desired)
            + ", next: "@ + describe_spec(*next) + ")"@,
        ActionView::Idle(result) => "Idle("@ + result_text(result) + ")"@,
    }
}

impl Action {
    /// The plan that does nothing, with the result it stands at.
    pub fn idle(result: ActionResult) -> (r: Self)
        ensures
            r.deep_view() == ActionView::Idle(result.deep_view()),
    {
        Action::Idle(result)
    }

    /// Whether the plan does nothing.
    pub fn is_idle(&self) -> (r: bool)
        ensures
            r == (self.deep_view() is Idle),
    {
        matches!(self, Action::Idle(_))
    }

    /// What is shown of the plan.
    pub fn describe(&self) -> (r: String)
        ensures
            r@ == describe_spec(self.deep_view()),
        decreases self,
    {
        match self {
            Action::Start { on_success, on_failure } => {
                let mut r: String = "Start(success: ".to_owned();
                r.append(on_success.describe().as_str());
                r.append(", failure: ");
                r.append(on_failure.describe().as_str());
                r.append(")");
                r
            },
            Action::Stop { on_success, on_failure } => {
                let mut r: String = "Stop(success: ".to_owned();
                r.append(on_success.describe().as_str());
                r.append(", failure: ");
                r.append(on_failure.describe().as_str());
                r.append(")");
                r
            },
            Action::SetDesiredState { desired, next } => {
                let mut r: String = "SetDesiredState(".to_owned();
                r.append(desired.as_str());
                r.append(", next: ");
                r.append(next.describe().as_str());
                r.append(")");
                r
            },
            Action::Idle(result) => {
                let mut r: String = "Idle(".to_owned();
                r.append(result.text().as_str());
                r.append(")");
                r
            },
        }
    }
}

impl Default for Action {
    fn default() -> (r: Self)
        ensures
            r.deep_view() == ActionView::Idle(ActionResultView::NotStarted),
    {
        Action::Idle(ActionResult::NotStarted)
    }
}

/// The control record of a target.
#[derive(Debug, PartialEq, Eq)]
pub struct TargetControl {
    pub desired_state: DesiredState,
    pub action_plan: Action,
    pub watch_request: bool,
    pub kind: TargetKind,
}

/// What a [`TargetControl`] stands for.
pub struct TargetControlView {
    pub desired_state: DesiredState,
    pub action_plan: ActionView,
    pub watch_request: bool,
    pub kind: TargetKind,
}

impl DeepView for TargetControl {
    type V = TargetControlView;

    open spec fn deep_view(&self) -> TargetControlView {
        TargetControlView {
            desired_state: self.desired_state,
            action_plan: self.action_plan.deep_view(),
            watch_request: self.watch_request,
            kind: self.kind,
        }
    }
}

impl Duplicate for TargetControl {
    fn duplicate(&self) -> (copy: Self) {
        TargetControl {
            desired_state: self.desired_state,
            action_plan: self.action_plan.duplicate(),
            watch_request: self.watch_request,
            kind: self.kind,
        }
    }
}

/// The record of a target that nothing was asked of.
pub open spec fn new_control() -> TargetControlView {
    TargetControlView {
        desired_state: DesiredState::Stopped,
        action_plan: ActionView::Idle(ActionResultView::NotStarted),
        watch_request: false,
        kind: TargetKind::Unknown,
    }
}

/// A record after a state was asked for: what was planned before is dropped.
pub open spec fn requested(control: TargetControlView, desired: DesiredState) -> TargetControlView {
    TargetControlView {
        desired_state: desired,
        action_plan: ActionView::Idle(ActionResultView::NotStarted),
        ..control
    }
}

/// A record after a state was reached.
pub open spec fn settled(control: TargetControlView, desired: DesiredState) -> TargetControlView {
    TargetControlView {
        desired_state: desired,
        action_plan: ActionView::Idle(ActionResultView::Done),
        ..control
    }
}

impl TargetControl {
    /// The record of a target that nothing was asked of.
    pub fn new() -> (r: Self)
        ensures
            r.deep_view() == new_control(),
    {
        TargetControl {
            desired_state: DesiredState::Stopped,
            action_plan: Action::default(),
            watch_request: false,
            kind: TargetKind::Unknown,
        }
    }

    /// Notes whether watching was asked for.
    pub fn set_watch_request(&mut self, watch: bool)
        ensures
            final(self).deep_view() == (TargetControlView {
                watch_request: watch,
                ..old(self).deep_view()
            }),
    {
        self.watch_request = watch;
    }

    /// Asks for a state; what was planned before is dropped.
    pub fn request_desired_state(&mut self, desired: DesiredState)
        ensures
            final(self).deep_view() == requested(old(self).deep_view(), desired),
    {
        self.desired_state = desired;
        self.action_plan = Action::Idle(ActionResult::NotStarted);
    }

    /// Notes that a state is reached.
    pub fn settle_desired_state(&mut self, desired: DesiredState)
        ensures
            final(self).deep_view() == settled(old(self).deep_view(), desired),
    {
        self.desired_state = desired;
        self.action_plan = Action::Idle(ActionResult::Done);
    }

    /// Drops the plan, so that it is made anew.
    pub fn schedule_plan_rebuild(&mut self)
        ensures
            final(self).deep_view() == requested(
                old(self).deep_view(),
                old(self).deep_view().desired_state,
            ),
    {
        self.action_plan = Action::Idle(ActionResult::NotStarted);
    }

    /// Notes the kind of the target.
    pub fn set_kind(&mut self, kind: TargetKind)
        ensures
            final(self).deep_view() == (TargetControlView { kind, ..old(self).deep_view() }),
    {
        self.kind = kind;
    }
}

// ---------------------------------------------------------------------------
// One turn of the control loop
// ---------------------------------------------------------------------------

/// The record after an action was chosen: a plan is made where none is under way and the desired
/// state is not reached.
pub open spec fn planned(
    control: TargetControlView,
    status: TargetStatus,
    target: Seq<char>,
) -> TargetControlView {
    if !fulfilled(control.desired_state, status) && control.action_plan is Idle {
        TargetControlView { action_plan: plan_for(control.desired_state, target), ..control }
    } else {
        control
    }
}

/// The action that a record asks for.
pub open spec fn due(control: TargetControlView) -> Option<ActionView> {
    if control.action_plan is Idle {
        None
    } else {
        Some(control.action_plan)
    }
}

/// The record after an action was carried out, with or without success.
pub open spec fn carried_out(
    control: TargetControlView,
    action: ActionView,
    success: bool,
) -> TargetControlView {
    match action {
        ActionView::Start { on_success, on_failure } => TargetControlView {
            action_plan: if success {
                *on_success
            } else {
                *on_failure
            },
            ..control
        },
        ActionView::Stop { on_success, on_failure } => TargetControlView {
            action_plan: if success {
                *on_success
            } else {
                *on_failure
            },
            ..control
        },
        ActionView::SetDesiredState { desired, next } => TargetControlView {
            desired_state: desired,
            action_plan: *next,
            ..control
        },
        ActionView::Idle(_) => TargetControlView { action_plan: action, ..control },
    }
}

impl TargetControl {
    /// Chooses the action that is due, and makes a plan where one is needed.
    pub fn choose_action(&mut self, status: &TargetStatus, target: &str) -> (r: Option<Action>)
        ensures
            final(self).deep_view() == planned(old(self).deep_view(), *status, target@),
            r.deep_view() == due(final(self).deep_view()),
    {
        if !self.desired_state.is_fulfilled(status) && self.action_plan.is_idle() {
            self.action_plan = self.desired_state.make_plan(target);
        }
        if self.action_plan.is_idle() {
            None
        } else {
            Some(self.action_plan.duplicate())
        }
    }

    /// Notes that an action was carried out, with or without success.
    pub fn finish_action(&mut self, action: Action, success: bool)
        ensures
            final(self).deep_view() == carried_out(
                old(self).deep_view(),
                action.deep_view(),
                success,
            ),
    {
        match action {
            Action::Start { on_success, on_failure } => {
                self.action_plan = if success {
                    *on_success
                } else {
                    *on_failure
                };
            },
            Action::Stop { on_success, on_failure } => {
                self.action_plan = if success {
                    *on_success
                } else {
                    *on_failure
                };
            },
            Action::SetDesiredState { desired, next } => {
                self.desired_state = desired;
                self.action_plan = *next;
            },
            Action::Idle(result) => {
                self.action_plan = Action::Idle(result);
            },
        }
    }
}

// ---------------------------------------------------------------------------
// Laws
// ---------------------------------------------------------------------------

/// A target that is in its desired state and has no plan under way is left alone.
pub proof fn reached_state_is_left_alone(
    control: TargetControlView,
    status: TargetStatus,
    target: Seq<char>,
)
    requires
        fulfilled(control.desired_state, status),
        control.action_plan is Idle,
    ensures
        planned(control, status, target) == control,
        due(control) is None,
{
}

/// A target that should run and does not is started; once started it is left alone.
pub proof fn start_converges(control: TargetControlView, target: Seq<char>)
    requires
        control.desired_state == DesiredState::Running,
        control.action_plan is Idle,
    ensures
        ({
            let down = TargetStatus { is_running: false };
            let up = TargetStatus { is_running: true };
            let chosen = planned(control, down, target);
            let started = carried_out(chosen, due(chosen)->0, true);
            &&& due(chosen) is Some
            &&& due(chosen)->0 is Start
            &&& started.desired_state == DesiredState::Running
            &&& planned(started, up, target) == started
            &&& due(started) is None
        }),
{
}

/// A start that fails is tried again on the next turn.
pub proof fn failed_start_is_retried(control: TargetControlView, target: Seq<char>)
    requires
        control.desired_state == DesiredState::Running,
        control.action_plan is Idle,
    ensures
        ({
            let down = TargetStatus { is_running: false };
            let chosen = planned(control, down, target);
            let tried = carried_out(chosen, due(chosen)->0, false);
            let again = planned(tried, down, target);
            &&& due(chosen) is Some
            &&& due(again) == due(chosen)
        }),
{
}

/// A target that should be stopped and runs is stopped; once stopped it is left alone.
pub proof fn stop_converges(control: TargetControlView, target: Seq<char>)
    requires
        control.desired_state == DesiredState::Stopped,
        control.action_plan is Idle,
    ensures
        ({
            let down = TargetStatus { is_running: false };
            let up = TargetStatus { is_running: true };
            let chosen = planned(control, up, target);
            let stopped = carried_out(chosen, due(chosen)->0, true);
            &&& due(chosen) is Some
            &&& due(chosen)->0 is Stop
            &&& stopped.desired_state == DesiredState::Stopped
            &&& planned(stopped, down, target) == stopped
            &&& due(stopped) is None
        }),
{
}

/// A restart stops the target, then wants it running, then starts it, and is then done: the
/// target ends up running and is left alone.
pub proof fn restart_converges(control: TargetControlView, status: TargetStatus, target: Seq<char>)
    requires
        control.desired_state == DesiredState::Restarted,
        control.action_plan is Idle,
    ensures
        ({
            let down = TargetStatus { is_running: false };
            let up = TargetStatus { is_running: true };
            let first = planned(control, status, target);
            let stopped = carried_out(first, due(first)->0, true);
            let second = planned(stopped, down, target);
            let wanted = carried_out(second, due(second)->0, true);
            let third = planned(wanted, down, target);
            let started = carried_out(third, due(third)->0, true);
            &&& due(first) is Some
            &&& due(first)->0 is Stop
            &&& due(second) is Some
            &&& due(second)->0 is SetDesiredState
            &&& wanted.desired_state == DesiredState::Running
            &&& due(third) is Some
            &&& due(third)->0 is Start
            &&& started.desired_state == DesiredState::Running
            &&& planned(started, up, target) == started
            &&& due(started) is None
        }),
{
}

/// A stop that fails is tried again on the next turn, and a start that succeeded is not repeated
/// while the target runs.
pub proof fn failed_stop_is_retried(control: TargetControlView, target: Seq<char>)
    requires
        control.desired_state == DesiredState::Stopped,
        control.action_plan is Idle,
    ensures
        ({
            let up = TargetStatus { is_running: true };
            let chosen = planned(control, up, target);
            let tried = carried_out(chosen, due(chosen)->0, false);
            let again = planned(tried, up, target);
            &&& due(chosen) is Some
            &&& due(chosen)->0 is Stop
            &&& due(again) == due(chosen)
            &&& again.desired_state == DesiredState::Stopped
        }),
{
}

/// A restart that cannot stop the target is tried again on the next turn.
pub proof fn failed_restart_is_retried(
    control: TargetControlView,
    status: TargetStatus,
    target: Seq<char>,
)
    requires
        control.desired_state == DesiredState::Restarted,
        control.action_plan is Idle,
    ensures
        ({
            let chosen = planned(control, status, target);
            let tried = carried_out(chosen, due(chosen)->0, false);
            let again = planned(tried, status, target);
            &&& due(chosen) is Some
            &&& due(again) == due(chosen)
        }),
{
}

/// A request replaces what was wanted and drops what was planned; the kind of the target stays. A
/// state that is reached is noted as wanted, with nothing left to do.
pub proof fn request_replaces_what_was_wanted(control: TargetControlView, desired: DesiredState)
    ensures
        requested(control, desired).desired_state == desired,
        requested(control, desired).action_plan is Idle,
        requested(control, desired).kind == control.kind,
        settled(control, desired).desired_state == desired,
        settled(control, desired).action_plan is Idle,
        settled(control, desired).kind == control.kind,
        due(requested(control, desired)) is None,
        due(settled(control, desired)) is None,
        new_control().desired_state == DesiredState::Stopped,
        new_control().action_plan is Idle,
{
}

/// The wanted states are shown by different words.
pub proof fn wanted_states_are_shown_by_their_names()
    ensures
        desired_text(DesiredState::Running) == "running"@,
        desired_text(DesiredState::Stopped) == "stopped"@,
        desired_text(DesiredState::Restarted) == "restarted"@,
{
}

} // verus!
