//! The listener's lifecycle.
//!
//! Listen mode applies the firewall redirect, binds its capture channel,
//! captures until an error or the operator's cancellation signal wins the
//! race, and then tears the redirect down.  The coordinator is a state
//! machine from phase and event to next phase and action; the surrounding
//! binary performs each action and feeds the outcome back in.  Its laws pin
//! the teardown discipline down: over any event sequence, teardown is
//! started at most once, and a run that reaches its end after the redirect
//! was applied has started it exactly once.

use vstd::prelude::*;

verus! {

/// Where a listener run stands.
#[derive(Clone, Copy, PartialEq, Eq, Structural, Debug)]
pub enum Phase {
    Idle,
    RulesApplying,
    RulesApplied,
    CapturingActive,
    ShuttingDown,
    TornDown,
}

/// What happened since the coordinator last decided.
#[derive(Clone, Copy, PartialEq, Eq, Structural, Debug)]
pub enum LifecycleEvent {
    /// The listener was started.
    Start,
    /// The firewall redirect was installed.
    ApplyOk,
    /// Installing the firewall redirect failed.
    ApplyFailed,
    /// The sockets or capture channel were bound.
    BindOk,
    /// Binding the sockets or capture channel failed.
    BindFailed,
    /// A capture task hit an unrecoverable error.
    CaptureError,
    /// The operator's cancellation signal arrived.
    CancelSignal,
    /// The teardown sequence ran to completion.
    TeardownDone,
}

/// What the surrounding binary must do next.
#[derive(Clone, Copy, PartialEq, Eq, Structural, Debug)]
pub enum Action {
    /// Nothing; keep feeding events.
    Nothing,
    /// Render and install the firewall redirect.
    ApplyRules,
    /// Bind the sockets or the capture channel.
    BindCapture,
    /// Run the best-effort teardown sequence.
    RunTeardown,
    /// Report the fatal setup error and exit without capturing.
    ReportFatal,
}

/// The lifecycle coordinator of one listener run.
#[derive(Clone, Copy, PartialEq, Eq, Structural, Debug)]
pub struct Coordinator {
    pub phase: Phase,
    /// Whether the firewall redirect was ever applied in this run.
    pub applied: bool,
    /// How many times this run has started the teardown sequence.
    pub teardowns: u64,
}

/// The transition relation: next state and action for one event.  Events
/// that make no sense in the current phase change nothing.
pub open spec fn spec_next(s: Coordinator, e: LifecycleEvent) -> (Coordinator, Action) {
    match (s.phase, e) {
        (Phase::Idle, LifecycleEvent::Start) => (
            Coordinator { phase: Phase::RulesApplying, ..s },
            Action::ApplyRules,
        ),
        (Phase::RulesApplying, LifecycleEvent::ApplyOk) => (
            Coordinator { phase: Phase::RulesApplied, applied: true, ..s },
            Action::BindCapture,
        ),
        (Phase::RulesApplying, LifecycleEvent::ApplyFailed) => (
            Coordinator { phase: Phase::TornDown, ..s },
            Action::ReportFatal,
        ),
        (Phase::RulesApplied, LifecycleEvent::BindOk) => (
            Coordinator { phase: Phase::CapturingActive, ..s },
            Action::Nothing,
        ),
        (Phase::RulesApplied, LifecycleEvent::BindFailed) => (
            Coordinator { phase: Phase::ShuttingDown, teardowns: (s.teardowns + 1) as u64, ..s },
            Action::RunTeardown,
        ),
        (Phase::CapturingActive, LifecycleEvent::CaptureError) => (
            Coordinator { phase: Phase::ShuttingDown, teardowns: (s.teardowns + 1) as u64, ..s },
            Action::RunTeardown,
        ),
        (Phase::CapturingActive, LifecycleEvent::CancelSignal) => (
            Coordinator { phase: Phase::ShuttingDown, teardowns: (s.teardowns + 1) as u64, ..s },
            Action::RunTeardown,
        ),
        (Phase::ShuttingDown, LifecycleEvent::TeardownDone) => (
            Coordinator { phase: Phase::TornDown, ..s },
            Action::Nothing,
        ),
        _ => (s, Action::Nothing),
    }
}

impl Coordinator {
    /// The coordinator's invariant, tying the teardown count to the phase:
    /// teardown starts exactly on entering `ShuttingDown`, and a run that
    /// never applied the redirect never starts it.
    pub open spec fn wf(self) -> bool {
        match self.phase {
            Phase::Idle => !self.applied && self.teardowns == 0,
            Phase::RulesApplying => !self.applied && self.teardowns == 0,
            Phase::RulesApplied => self.applied && self.teardowns == 0,
            Phase::CapturingActive => self.applied && self.teardowns == 0,
            Phase::ShuttingDown => self.applied && self.teardowns == 1,
            Phase::TornDown => self.teardowns == if self.applied {
                1int
            } else {
                0int
            },
        }
    }

    /// A run that has not started.
    pub fn init() -> (r: Self)
        ensures
            r == (Coordinator { phase: Phase::Idle, applied: false, teardowns: 0 }),
            r.wf(),
    {
        Coordinator { phase: Phase::Idle, applied: false, teardowns: 0 }
    }

    /// Takes one event and decides the next action.
    pub fn step(&mut self, e: LifecycleEvent) -> (action: Action)
        requires
            old(self).wf(),
        ensures
            *final(self) == spec_next(*old(self), e).0,
            action == spec_next(*old(self), e).1,
            final(self).wf(),
    {
        match (self.phase, e) {
            (Phase::Idle, LifecycleEvent::Start) => {
                self.phase = Phase::RulesApplying;
                Action::ApplyRules
            },
            (Phase::RulesApplying, LifecycleEvent::ApplyOk) => {
                self.phase = Phase::RulesApplied;
                self.applied = true;
                Action::BindCapture
            },
            (Phase::RulesApplying, LifecycleEvent::ApplyFailed) => {
                self.phase = Phase::TornDown;
                Action::ReportFatal
            },
            (Phase::RulesApplied, LifecycleEvent::BindOk) => {
                self.phase = Phase::CapturingActive;
                Action::Nothing
            },
            (Phase::RulesApplied, LifecycleEvent::BindFailed) => {
                self.phase = Phase::ShuttingDown;
                self.teardowns = self.teardowns + 1;
                Action::RunTeardown
            },
            (Phase::CapturingActive, LifecycleEvent::CaptureError) => {
                self.phase = Phase::ShuttingDown;
                self.teardowns = self.teardowns + 1;
                Action::RunTeardown
            },
            (Phase::CapturingActive, LifecycleEvent::CancelSignal) => {
                self.phase = Phase::ShuttingDown;
                self.teardowns = self.teardowns + 1;
                Action::RunTeardown
            },
            (Phase::ShuttingDown, LifecycleEvent::TeardownDone) => {
                self.phase = Phase::TornDown;
                Action::Nothing
            },
            _ => Action::Nothing,
        }
    }
}

/// The coordinator a fresh run reaches after a sequence of events.
pub open spec fn spec_run(events: Seq<LifecycleEvent>) -> Coordinator
    decreases events.len(),
{
    if events.len() == 0 {
        Coordinator { phase: Phase::Idle, applied: false, teardowns: 0 }
    } else {
        spec_next(spec_run(events.drop_last()), events.last()).0
    }
}

/// How many steps of the run answered with the teardown action.
pub open spec fn spec_teardowns_issued(events: Seq<LifecycleEvent>) -> int
    decreases events.len(),
{
    if events.len() == 0 {
        0
    } else {
        spec_teardowns_issued(events.drop_last()) + if spec_next(
            spec_run(events.drop_last()),
            events.last(),
        ).1 == Action::RunTeardown {
            1int
        } else {
            0int
        }
    }
}

/// The teardown discipline, over every possible event sequence of one run:
/// the run's state stays well formed, the teardown action is issued at most
/// once, never before the redirect was applied, and a run that ends torn
/// down after applying the redirect has issued it exactly once.
pub proof fn lemma_teardown_discipline(events: Seq<LifecycleEvent>)
    ensures
        spec_run(events).wf(),
        spec_teardowns_issued(events) == spec_run(events).teardowns,
        0 <= spec_teardowns_issued(events) <= 1,
        !spec_run(events).applied ==> spec_teardowns_issued(events) == 0,
        spec_run(events).phase is TornDown && spec_run(events).applied ==> spec_teardowns_issued(
            events,
        ) == 1,
    decreases events.len(),
{
    if events.len() > 0 {
        lemma_teardown_discipline(events.drop_last());
    }
}

} // verus!
