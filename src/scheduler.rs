//! The supervisor of the scheduler's control thread.
//!
//! The control thread polls its periodic triggers every few milliseconds and
//! submits the tasks that are due. When it terminates abnormally the
//! supervisor starts a fresh one with the same triggers, every time, with no
//! cap and no backoff.
use vstd::prelude::*;

verus! {

/// The pause of the control loop between two polls of the triggers.
pub const TICK_MILLIS: u64 = 10;

/// The interval of the full resync.
pub const RESYNC_INTERVAL_MINUTES: u64 = 5;

/// A periodic trigger: submit the task `task_id` every `interval_minutes`.
#[derive(Clone, Copy, Debug)]
pub struct Trigger {
    pub task_id: &'static str,
    pub interval_minutes: u64,
}

/// The triggers that every control thread runs.
pub open spec fn configured_triggers(ts: Seq<Trigger>) -> bool {
    &&& ts.len() == 1
    &&& ts[0].task_id@ == "refresh_aiode_supporters"@
    &&& ts[0].interval_minutes == RESYNC_INTERVAL_MINUTES
}

/// The trigger set of the control thread: the full resync, every five
/// minutes.
pub fn configure_scheduler() -> (r: Vec<Trigger>)
    ensures
        configured_triggers(r@),
{
    let r = vec![Trigger { task_id: "refresh_aiode_supporters", interval_minutes: RESYNC_INTERVAL_MINUTES }];
    r
}

/// Where the control thread stands.
#[derive(PartialEq, Eq, Structural, Clone, Copy, Debug)]
pub enum Phase {
    /// A control thread is polling its triggers.
    Running,
    /// The control thread died abnormally; a fresh one is being started.
    Restarting,
}

/// What the supervisor learns of the control thread.
#[derive(PartialEq, Eq, Structural, Clone, Copy, Debug)]
pub enum ControlEvent {
    /// A fresh control thread is up.
    Started,
    /// The control thread terminated abnormally.
    Panicked,
}

/// What the supervisor asks for.
#[derive(PartialEq, Eq, Structural, Clone, Copy, Debug)]
pub enum SupervisorAction {
    /// Start a fresh control thread with the triggers of `configure_scheduler`.
    Spawn,
    /// Nothing to do.
    Wait,
}

/// The supervisor's state, as a model.
pub struct SupervisorState {
    pub phase: Phase,
    /// The restarts made so far; the count saturates at the largest `u64`.
    pub restarts: nat,
}

/// The supervisor's state after `e`.
pub open spec fn supervise(s: SupervisorState, e: ControlEvent) -> SupervisorState {
    match e {
        ControlEvent::Started => SupervisorState { phase: Phase::Running, restarts: s.restarts },
        ControlEvent::Panicked => SupervisorState {
            phase: Phase::Restarting,
            restarts: if s.restarts < u64::MAX {
                s.restarts + 1
            } else {
                s.restarts
            },
        },
    }
}

/// The action that answers `e`.
pub open spec fn supervise_action(e: ControlEvent) -> SupervisorAction {
    match e {
        ControlEvent::Started => SupervisorAction::Wait,
        ControlEvent::Panicked => SupervisorAction::Spawn,
    }
}

/// The watchdog of the control thread, with its restart counter.
pub struct TaskSchedulerSentinel {
    phase: Phase,
    restarts: u64,
}

impl TaskSchedulerSentinel {
    pub closed spec fn view(&self) -> SupervisorState {
        SupervisorState { phase: self.phase, restarts: self.restarts as nat }
    }

    /// The supervisor of a control thread that has just been started.
    pub fn new() -> (r: TaskSchedulerSentinel)
        ensures
            r@ == (SupervisorState { phase: Phase::Running, restarts: 0 }),
    {
        TaskSchedulerSentinel { phase: Phase::Running, restarts: 0 }
    }

    /// Takes in what happened to the control thread and says what to do:
    /// every abnormal termination asks for a fresh control thread.
    pub fn on_event(&mut self, e: ControlEvent) -> (r: SupervisorAction)
        ensures
            final(self)@ == supervise(old(self)@, e),
            r == supervise_action(e),
    {
        match e {
            ControlEvent::Started => {
                self.phase = Phase::Running;
                SupervisorAction::Wait
            },
            ControlEvent::Panicked => {
                self.phase = Phase::Restarting;
                self.restarts = self.restarts.saturating_add(1);
                SupervisorAction::Spawn
            },
        }
    }

    /// The restarts made so far.
    pub fn restarts(&self) -> (r: u64)
        ensures
            r == self@.restarts,
    {
        self.restarts
    }

    /// Where the control thread stands.
    pub fn phase(&self) -> (r: Phase)
        ensures
            r == self@.phase,
    {
        self.phase
    }
}

/// Self-healing: each abnormal termination of the control thread is answered
/// by a restart, so two of them, each followed by the fresh thread coming up,
/// give two restarts and leave a control thread running (short of the
/// counter's saturation).
pub proof fn lemma_self_heal(s: SupervisorState)
    requires
        s.restarts + 2 <= u64::MAX,
    ensures
        supervise_action(ControlEvent::Panicked) == SupervisorAction::Spawn,
        supervise(
            supervise(
                supervise(supervise(s, ControlEvent::Panicked), ControlEvent::Started),
                ControlEvent::Panicked,
            ),
            ControlEvent::Started,
        ) == (SupervisorState { phase: Phase::Running, restarts: s.restarts + 2 }),
{
}

} // verus!
