//! Restarting services that exit, after ever longer delays.

use vstd::prelude::*;

use crate::config::model::RestartStrategy;
use crate::names::{lemma_lookup_put, lookup, put, NameMap, NameSet};
use crate::time::{Instant, Timestamp};
use crate::views::Duplicate;

verus! {

/// How often a target was restarted, and whether it is about to be.
#[derive(Debug, Clone, Copy, PartialEq, Eq, Structural)]
pub struct BackoffStatus {
    pub attempt: u32,
    pub pending: bool,
}

impl DeepView for BackoffStatus {
    type V = BackoffStatus;

    open spec fn deep_view(&self) -> BackoffStatus {
        *self
    }
}

impl Duplicate for BackoffStatus {
    fn duplicate(&self) -> (copy: Self) {
        *self
    }
}

/// A restart that is due after a delay.
#[derive(Debug, PartialEq, Eq)]
pub struct RestartJob {
    pub target: String,
    pub attempt: u32,
    /// In seconds.
    pub delay: u64,
}

/// What a [`RestartJob`] stands for.
pub struct RestartJobView {
    pub target: Seq<char>,
    pub attempt: u32,
    pub delay: u64,
}

impl DeepView for RestartJob {
    type V = RestartJobView;

    open spec fn deep_view(&self) -> RestartJobView {
        RestartJobView {
            target: self.target.deep_view(),
            attempt: self.attempt,
            delay: self.delay,
        }
    }
}

impl Duplicate for RestartJob {
    fn duplicate(&self) -> (copy: Self) {
        RestartJob {
            target: self.target.duplicate(),
            attempt: self.attempt,
            delay: self.delay,
        }
    }
}

/// What is known of the restarts of a target.
#[derive(Debug, PartialEq, Eq)]
pub struct RestartState {
    pub restart_pending: bool,
    pub restart_attempt: u32,
    /// In seconds.
    pub restart_delay: Option<u64>,
    pub restart_scheduled_for: Option<Timestamp>,
}

/// What a [`RestartState`] stands for.
pub struct RestartStateView {
    pub restart_pending: bool,
    pub restart_attempt: u32,
    pub restart_delay: Option<u64>,
    pub restart_scheduled_for: Option<Instant>,
}

impl DeepView for RestartState {
    type V = RestartStateView;

    open spec fn deep_view(&self) -> RestartStateView {
        RestartStateView {
            restart_pending: self.restart_pending,
            restart_attempt: self.restart_attempt,
            restart_delay: self.restart_delay.deep_view(),
            restart_scheduled_for: self.restart_scheduled_for.deep_view(),
        }
    }
}

impl Duplicate for RestartState {
    fn duplicate(&self) -> (copy: Self) {
        RestartState {
            restart_pending: self.restart_pending,
            restart_attempt: self.restart_attempt,
            restart_delay: self.restart_delay.duplicate(),
            restart_scheduled_for: self.restart_scheduled_for.duplicate(),
        }
    }
}

/// What came of a request to restart a target.
#[derive(Debug, Clone, Copy, PartialEq, Eq, Structural)]
pub enum RestartSchedule {
    /// The restart is due after `delay` seconds.
    Scheduled { attempt: u32, delay: u64 },
    AlreadyPending,
    Skipped,
}

/// The seconds before an attempt: one before the first, then twice as many each time, and never
/// more than sixty.
pub open spec fn backoff_delay(attempt: u32) -> u64
    decreases attempt,
{
    if attempt >= 7 {
        60
    } else if attempt <= 1 {
        1
    } else {
        (2 * backoff_delay((attempt - 1) as u32)) as u64
    }
}

/// The seconds before the attempt: one before the first, then twice as many each time, and never
/// more than sixty.
pub fn compute_backoff_delay(attempt: u32) -> (r: u64)
    ensures
        r == backoff_delay(attempt),
{
    proof {
        reveal_with_fuel(backoff_delay, 7);
    }
    if attempt <= 1 {
        1
    } else if attempt == 2 {
        2
    } else if attempt == 3 {
        4
    } else if attempt == 4 {
        8
    } else if attempt == 5 {
        16
    } else if attempt == 6 {
        32
    } else {
        60
    }
}

/// Decides when services that exited are started again.
#[derive(Debug)]
pub struct RestartCoordinator {
    pub strategy: RestartStrategy,
    pub state: NameMap<BackoffStatus>,
    /// The targets whose next exit is not to be answered.
    pub suppressed: NameSet,
}

/// What a [`RestartCoordinator`] stands for.
pub struct RestartCoordinatorView {
    pub strategy: RestartStrategy,
    pub state: Seq<(Seq<char>, BackoffStatus)>,
    pub suppressed: Set<Seq<char>>,
}

impl DeepView for RestartCoordinator {
    type V = RestartCoordinatorView;

    open spec fn deep_view(&self) -> RestartCoordinatorView {
        RestartCoordinatorView {
            strategy: self.strategy,
            state: self.state.deep_view(),
            suppressed: self.suppressed@,
        }
    }
}

/// The status of a target; that of a target that never exited where there is none.
pub open spec fn status_of(
    state: Seq<(Seq<char>, BackoffStatus)>,
    target: Seq<char>,
) -> BackoffStatus {
    match lookup(state, target) {
        Some(status) => status,
        None => BackoffStatus { attempt: 0, pending: false },
    }
}

/// The attempt that a request starts: the one that is asked for, or the one after the last.
pub open spec fn next_attempt(status: BackoffStatus, attempt_override: Option<u32>) -> u32 {
    match attempt_override {
        Some(attempt) => attempt,
        None => if status.attempt == u32::MAX {
            u32::MAX
        } else {
            (status.attempt + 1) as u32
        },
    }
}

/// What comes of a request to restart a target.
pub open spec fn schedule_spec(
    coordinator: RestartCoordinatorView,
    target: Seq<char>,
    attempt_override: Option<u32>,
) -> RestartSchedule {
    let status = status_of(coordinator.state, target);
    if coordinator.strategy != RestartStrategy::Backoff || coordinator.suppressed.contains(target) {
        RestartSchedule::Skipped
    } else if status.pending {
        RestartSchedule::AlreadyPending
    } else {
        let attempt = next_attempt(status, attempt_override);
        RestartSchedule::Scheduled { attempt, delay: backoff_delay(attempt) }
    }
}

/// The status of a target after a request to restart it that was not skipped.
pub open spec fn status_after(status: BackoffStatus, attempt_override: Option<u32>) -> BackoffStatus {
    if status.pending {
        match attempt_override {
            Some(attempt) => BackoffStatus {
                attempt: if attempt > status.attempt {
                    attempt
                } else {
                    status.attempt
                },
                pending: true,
            },
            None => status,
        }
    } else {
        BackoffStatus { attempt: next_attempt(status, attempt_override), pending: true }
    }
}

/// The coordinator with another status of a target.
pub open spec fn with_status(
    coordinator: RestartCoordinatorView,
    target: Seq<char>,
    status: BackoffStatus,
) -> RestartCoordinatorView {
    RestartCoordinatorView { state: put(coordinator.state, target, status), ..coordinator }
}

/// A coordinator for which no restart of a target waits any more.
pub open spec fn after_clearing(
    coordinator: RestartCoordinatorView,
    target: Seq<char>,
) -> RestartCoordinatorView {
    match lookup(coordinator.state, target) {
        Some(status) => with_status(
            coordinator,
            target,
            BackoffStatus { attempt: status.attempt, pending: false },
        ),
        None => coordinator,
    }
}

/// A coordinator that counts the attempts of a target from the beginning.
pub open spec fn after_reset(
    coordinator: RestartCoordinatorView,
    target: Seq<char>,
) -> RestartCoordinatorView {
    with_status(coordinator, target, BackoffStatus { attempt: 0, pending: false })
}

/// A coordinator that does not restart a target when it ends next.
pub open spec fn after_suppressing(
    coordinator: RestartCoordinatorView,
    target: Seq<char>,
) -> RestartCoordinatorView {
    RestartCoordinatorView { suppressed: coordinator.suppressed.insert(target), ..coordinator }
}

/// What is noted of the restarts of targets, with that of one that is known.
pub open spec fn with_restart(
    states: Seq<(Seq<char>, RestartStateView)>,
    target: Seq<char>,
    state: RestartStateView,
) -> Seq<(Seq<char>, RestartStateView)> {
    if lookup(states, target) is Some {
        put(states, target, state)
    } else {
        states
    }
}

/// The coordinator after a request to restart a target.
pub open spec fn after_schedule(
    coordinator: RestartCoordinatorView,
    target: Seq<char>,
    attempt_override: Option<u32>,
) -> RestartCoordinatorView {
    if coordinator.strategy != RestartStrategy::Backoff {
        coordinator
    } else if coordinator.suppressed.contains(target) {
        RestartCoordinatorView {
            suppressed: coordinator.suppressed.remove(target),
            ..with_status(coordinator, target, BackoffStatus { attempt: 0, pending: false })
        }
    } else {
        with_status(
            coordinator,
            target,
            status_after(status_of(coordinator.state, target), attempt_override),
        )
    }
}

impl RestartCoordinator {
    /// A coordinator that knows of no exit.
    pub fn new(strategy: RestartStrategy) -> (r: Self)
        ensures
            r.deep_view() == (RestartCoordinatorView {
                strategy,
                state: Seq::empty(),
                suppressed: Set::empty(),
            }),
    {
        RestartCoordinator { strategy, state: NameMap::new(), suppressed: NameSet::new() }
    }

    fn status(&self, target: &str) -> (r: BackoffStatus)
        ensures
            r == status_of(self.deep_view().state, target@),
    {
        match self.state.get(target) {
            Some(status) => *status,
            None => BackoffStatus { attempt: 0, pending: false },
        }
    }

    /// Asks that `target` is restarted. A scheduled restart is to be carried out after its delay;
    /// where it cannot even be queued, [`Self::clear_pending`] takes it back.
    pub fn schedule(&mut self, target: &str, attempt_override: Option<u32>) -> (r: RestartSchedule)
        ensures
            r == schedule_spec(old(self).deep_view(), target@, attempt_override),
            final(self).deep_view() == after_schedule(
                old(self).deep_view(),
                target@,
                attempt_override,
            ),
    {
        if self.strategy != RestartStrategy::Backoff {
            return RestartSchedule::Skipped;
        }
        if self.consume_suppression(target) {
            self.reset_backoff(target);
            return RestartSchedule::Skipped;
        }
        assert(self.suppressed@ =~= old(self).suppressed@);
        let mut status: BackoffStatus = self.status(target);
        if status.pending {
            if let Some(attempt) = attempt_override {
                if attempt > status.attempt {
                    status.attempt = attempt;
                }
            }
            let _ = self.state.insert(target.to_owned(), status);
            return RestartSchedule::AlreadyPending;
        }
        let attempt: u32 = match attempt_override {
            Some(attempt) => attempt,
            None => status.attempt.saturating_add(1),
        };
        let _ = self.state.insert(target.to_owned(), BackoffStatus { attempt, pending: true });
        RestartSchedule::Scheduled { attempt, delay: compute_backoff_delay(attempt) }
    }

    /// Notes that the restart of `target` is no longer pending.
    pub fn clear_pending(&mut self, target: &str)
        ensures
            final(self).deep_view() == after_clearing(old(self).deep_view(), target@),
    {
        if let Some(status) = self.state.get(target) {
            let attempt: u32 = status.attempt;
            let _ = self.state.insert(target.to_owned(), BackoffStatus { attempt, pending: false });
        }
    }

    /// Forgets the restarts of `target`.
    pub fn reset_backoff(&mut self, target: &str)
        ensures
            final(self).deep_view() == after_reset(old(self).deep_view(), target@),
    {
        let status = BackoffStatus { attempt: 0, pending: false };
        let _ = self.state.insert(target.to_owned(), status);
    }

    /// Tells whether the next exit of `target` is not to be answered, and forgets it.
    pub fn consume_suppression(&mut self, target: &str) -> (r: bool)
        ensures
            r == old(self).deep_view().suppressed.contains(target@),
            final(self).deep_view() == (RestartCoordinatorView {
                suppressed: old(self).deep_view().suppressed.remove(target@),
                ..old(self).deep_view()
            }),
    {
        self.suppressed.remove(target)
    }

    /// Asks that the next exit of `target` is not answered.
    pub fn mark_suppressed(&mut self, target: &str)
        ensures
            final(self).deep_view() == after_suppressing(old(self).deep_view(), target@),
    {
        let _ = self.suppressed.insert(target.to_owned());
    }
}

/// Notes what is planned for a target that is known; one that is not known stays so.
pub fn update_runtime_restart_state(
    states: &mut NameMap<RestartState>,
    target: &str,
    pending: bool,
    attempt: u32,
    delay: Option<u64>,
    scheduled_for: Option<Timestamp>,
)
    ensures
        final(states).deep_view() == with_restart(
            old(states).deep_view(),
            target@,
            RestartStateView {
                restart_pending: pending,
                restart_attempt: attempt,
                restart_delay: delay,
                restart_scheduled_for: scheduled_for.deep_view(),
            },
        ),
{
    if states.contains_key(target) {
        let state = RestartState {
            restart_pending: pending,
            restart_attempt: attempt,
            restart_delay: delay,
            restart_scheduled_for: scheduled_for,
        };
        let _ = states.insert(target.to_owned(), state);
    }
}

// ---------------------------------------------------------------------------
// Laws
// ---------------------------------------------------------------------------

/// The delay grows with each attempt and stays between one second and a minute.
pub proof fn delay_grows_and_is_bounded(attempt: u32)
    ensures
        1 <= backoff_delay(attempt) <= 60,
        attempt < u32::MAX ==> backoff_delay(attempt) <= backoff_delay((attempt + 1) as u32),
        1 <= attempt <= 5 ==> backoff_delay((attempt + 1) as u32) == 2 * backoff_delay(attempt),
{
    reveal_with_fuel(backoff_delay, 8);
}

/// A target is never scheduled twice: once a restart is scheduled, further requests find it
/// pending until it is cleared.
pub proof fn restart_is_scheduled_once(
    coordinator: RestartCoordinatorView,
    target: Seq<char>,
    first: Option<u32>,
    second: Option<u32>,
)
    requires
        schedule_spec(coordinator, target, first) is Scheduled,
    ensures
        schedule_spec(after_schedule(coordinator, target, first), target, second)
            == RestartSchedule::AlreadyPending,
{
    lemma_lookup_put(
        coordinator.state,
        target,
        status_after(status_of(coordinator.state, target), first),
        target,
    );
}

/// A suppression skips exactly one restart and forgets the attempts before it: the next request
/// starts with the first attempt again.
pub proof fn suppression_is_used_once(coordinator: RestartCoordinatorView, target: Seq<char>)
    requires
        coordinator.strategy == RestartStrategy::Backoff,
        coordinator.suppressed.contains(target),
    ensures
        schedule_spec(coordinator, target, None) == RestartSchedule::Skipped,
        schedule_spec(after_schedule(coordinator, target, None), target, None)
            == (RestartSchedule::Scheduled { attempt: 1, delay: 1 }),
{
    lemma_lookup_put(
        coordinator.state,
        target,
        BackoffStatus { attempt: 0, pending: false },
        target,
    );
}

/// Where restarts are off nothing is ever scheduled and nothing is noted.
pub proof fn no_strategy_schedules_nothing(
    coordinator: RestartCoordinatorView,
    target: Seq<char>,
    attempt_override: Option<u32>,
)
    requires
        coordinator.strategy == RestartStrategy::No,
    ensures
        schedule_spec(coordinator, target, attempt_override) == RestartSchedule::Skipped,
        after_schedule(coordinator, target, attempt_override) == coordinator,
{
}

/// From the seventh attempt on a minute is waited.
pub proof fn later_attempts_wait_a_minute(attempt: u32)
    ensures
        attempt >= 7 ==> backoff_delay(attempt) == 60,
        backoff_delay(1) == 1,
{
}

/// A restart that is not pending yet is scheduled, with the attempt that is asked for or the one
/// after the last, and with the delay of that attempt; other targets are not concerned.
pub proof fn restart_is_scheduled(
    coordinator: RestartCoordinatorView,
    target: Seq<char>,
    attempt_override: Option<u32>,
    other: Seq<char>,
)
    requires
        coordinator.strategy == RestartStrategy::Backoff,
        !coordinator.suppressed.contains(target),
        lookup(coordinator.state, target) matches Some(status) ==> !status.pending,
    ensures
        ({
            let last = match lookup(coordinator.state, target) {
                Some(status) => status.attempt,
                None => 0,
            };
            let after = after_schedule(coordinator, target, attempt_override);
            &&& schedule_spec(coordinator, target, attempt_override) matches
                RestartSchedule::Scheduled { attempt, delay } && delay == backoff_delay(attempt) && (
            match attempt_override {
                Some(asked) => attempt == asked,
                None => last < u32::MAX ==> attempt == last + 1,
            }) && lookup(after.state, target) == Some(BackoffStatus { attempt, pending: true })
            &&& other != target ==> lookup(after.state, other) == lookup(coordinator.state, other)
            &&& after.suppressed == coordinator.suppressed
            &&& after.strategy == coordinator.strategy
        }),
{
    let status = status_after(status_of(coordinator.state, target), attempt_override);
    lemma_lookup_put(coordinator.state, target, status, target);
    lemma_lookup_put(coordinator.state, target, status, other);
}

/// A restart that no longer waits can be scheduled again, as the next attempt; after a reset it is
/// the first attempt again.
pub proof fn next_attempt_follows(coordinator: RestartCoordinatorView, target: Seq<char>)
    requires
        coordinator.strategy == RestartStrategy::Backoff,
        !coordinator.suppressed.contains(target),
        lookup(coordinator.state, target) is Some,
        lookup(coordinator.state, target)->0.attempt < u32::MAX,
    ensures
        schedule_spec(after_clearing(coordinator, target), target, None) matches
            RestartSchedule::Scheduled { attempt, delay } && attempt == lookup(
            coordinator.state,
            target,
        )->0.attempt + 1 && delay == backoff_delay(attempt),
        schedule_spec(after_reset(coordinator, target), target, None) matches
            RestartSchedule::Scheduled { attempt, .. } && attempt == 1,
{
    let status = lookup(coordinator.state, target)->0;
    lemma_lookup_put(
        coordinator.state,
        target,
        BackoffStatus { attempt: status.attempt, pending: false },
        target,
    );
    lemma_lookup_put(
        coordinator.state,
        target,
        BackoffStatus { attempt: 0, pending: false },
        target,
    );
}

/// What is done for one target changes nothing of another.
pub proof fn restarts_concern_only_their_target(
    coordinator: RestartCoordinatorView,
    target: Seq<char>,
    other: Seq<char>,
    attempt: Option<u32>,
)
    requires
        other != target,
    ensures
        lookup(after_clearing(coordinator, target).state, other) == lookup(
            coordinator.state,
            other,
        ),
        lookup(after_reset(coordinator, target).state, other) == lookup(coordinator.state, other),
        lookup(after_schedule(coordinator, target, attempt).state, other) == lookup(
            coordinator.state,
            other,
        ),
        after_suppressing(coordinator, target).suppressed.contains(other)
            == coordinator.suppressed.contains(other),
        after_schedule(coordinator, target, attempt).suppressed.contains(other)
            == coordinator.suppressed.contains(other),
{
    let status = status_of(coordinator.state, target);
    lemma_lookup_put(
        coordinator.state,
        target,
        BackoffStatus { attempt: status.attempt, pending: false },
        other,
    );
    lemma_lookup_put(
        coordinator.state,
        target,
        BackoffStatus { attempt: 0, pending: false },
        other,
    );
    lemma_lookup_put(coordinator.state, target, status_after(status, attempt), other);
}

/// A target whose next end is expected is not restarted for it.
pub proof fn expected_end_is_not_restarted(
    coordinator: RestartCoordinatorView,
    target: Seq<char>,
    attempt: Option<u32>,
)
    ensures
        schedule_spec(after_suppressing(coordinator, target), target, attempt)
            == RestartSchedule::Skipped,
        after_suppressing(coordinator, target).state == coordinator.state,
{
}

/// What is noted of the restart of a target that is known is what is given; other targets keep what
/// is noted of them, and none becomes known by it.
pub proof fn restart_is_noted(
    states: Seq<(Seq<char>, RestartStateView)>,
    target: Seq<char>,
    state: RestartStateView,
    other: Seq<char>,
)
    ensures
        lookup(states, target) is Some ==> lookup(with_restart(states, target, state), target)
            == Some(state),
        lookup(states, target) is None ==> lookup(with_restart(states, target, state), target)
            is None,
        other != target ==> lookup(with_restart(states, target, state), other) == lookup(
            states,
            other,
        ),
{
    lemma_lookup_put(states, target, state, target);
    lemma_lookup_put(states, target, state, other);
}

/// An attempt that is told counts: the restart is scheduled as this attempt, and one that waits
/// already takes the higher of the two.
pub proof fn told_attempt_counts(
    coordinator: RestartCoordinatorView,
    target: Seq<char>,
    attempt: u32,
)
    requires
        coordinator.strategy == RestartStrategy::Backoff,
        !coordinator.suppressed.contains(target),
    ensures
        ({
            let before = match lookup(coordinator.state, target) {
                Some(status) => status,
                None => BackoffStatus { attempt: 0, pending: false },
            };
            let after = after_schedule(coordinator, target, Some(attempt));
            &&& !before.pending ==> schedule_spec(coordinator, target, Some(attempt)) == (
            RestartSchedule::Scheduled { attempt, delay: backoff_delay(attempt) })
            &&& before.pending ==> schedule_spec(coordinator, target, Some(attempt))
                == RestartSchedule::AlreadyPending
            &&& lookup(after.state, target) matches Some(status)
            &&& status.pending
            &&& !before.pending ==> status.attempt == attempt
            &&& before.pending && attempt > before.attempt ==> status.attempt == attempt
            &&& before.pending && attempt <= before.attempt ==> status.attempt == before.attempt
        }),
{
    let status = status_of(coordinator.state, target);
    lemma_lookup_put(coordinator.state, target, status_after(status, Some(attempt)), target);
}

} // verus!
