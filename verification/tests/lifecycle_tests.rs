use seg::lifecycle::Action;
use seg::lifecycle::Coordinator;
use seg::lifecycle::LifecycleEvent;
use seg::lifecycle::Phase;

#[test]
fn normal_run_tears_down_exactly_once() {
    let mut c = Coordinator::init();
    assert_eq!(c.step(LifecycleEvent::Start), Action::ApplyRules);
    assert_eq!(c.phase, Phase::RulesApplying);
    assert_eq!(c.step(LifecycleEvent::ApplyOk), Action::BindCapture);
    assert_eq!(c.phase, Phase::RulesApplied);
    assert_eq!(c.step(LifecycleEvent::BindOk), Action::Nothing);
    assert_eq!(c.phase, Phase::CapturingActive);
    assert_eq!(c.step(LifecycleEvent::CancelSignal), Action::RunTeardown);
    assert_eq!(c.phase, Phase::ShuttingDown);
    assert_eq!(c.step(LifecycleEvent::TeardownDone), Action::Nothing);
    assert_eq!(c.phase, Phase::TornDown);
    assert_eq!(c.teardowns, 1);
}

#[test]
fn apply_failure_ends_the_run_without_teardown() {
    let mut c = Coordinator::init();
    c.step(LifecycleEvent::Start);
    assert_eq!(c.step(LifecycleEvent::ApplyFailed), Action::ReportFatal);
    assert_eq!(c.phase, Phase::TornDown);
    assert_eq!(c.teardowns, 0);
}

#[test]
fn bind_failure_still_tears_down() {
    let mut c = Coordinator::init();
    c.step(LifecycleEvent::Start);
    c.step(LifecycleEvent::ApplyOk);
    assert_eq!(c.step(LifecycleEvent::BindFailed), Action::RunTeardown);
    assert_eq!(c.phase, Phase::ShuttingDown);
    c.step(LifecycleEvent::TeardownDone);
    assert_eq!(c.phase, Phase::TornDown);
    assert_eq!(c.teardowns, 1);
}

#[test]
fn capture_error_tears_down_like_a_signal() {
    let mut c = Coordinator::init();
    c.step(LifecycleEvent::Start);
    c.step(LifecycleEvent::ApplyOk);
    c.step(LifecycleEvent::BindOk);
    assert_eq!(c.step(LifecycleEvent::CaptureError), Action::RunTeardown);
    assert_eq!(c.teardowns, 1);
}

#[test]
fn losing_racer_cannot_start_a_second_teardown() {
    // The cancellation signal and a capture error race: after one wins,
    // the other's event changes nothing and no second teardown starts.
    let mut c = Coordinator::init();
    c.step(LifecycleEvent::Start);
    c.step(LifecycleEvent::ApplyOk);
    c.step(LifecycleEvent::BindOk);
    assert_eq!(c.step(LifecycleEvent::CancelSignal), Action::RunTeardown);
    assert_eq!(c.step(LifecycleEvent::CaptureError), Action::Nothing);
    assert_eq!(c.step(LifecycleEvent::CancelSignal), Action::Nothing);
    assert_eq!(c.teardowns, 1);
    c.step(LifecycleEvent::TeardownDone);
    assert_eq!(c.phase, Phase::TornDown);
    assert_eq!(c.teardowns, 1);
}

#[test]
fn stray_events_are_ignored() {
    let mut c = Coordinator::init();
    assert_eq!(c.step(LifecycleEvent::TeardownDone), Action::Nothing);
    assert_eq!(c.phase, Phase::Idle);
    assert_eq!(c.step(LifecycleEvent::CancelSignal), Action::Nothing);
    assert_eq!(c.phase, Phase::Idle);
}
