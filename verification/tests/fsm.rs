use braidpipe::fsm::{update_active_branch, Action, Event, Phase, Watchdog};
use braidpipe::metrics::Registry;
use braidpipe::ports::ActiveBranch;
use std::time::Duration;

fn tick(healthy: bool, current: ActiveBranch) -> Event {
    Event::Tick { healthy, current, elapsed: 0.5f64.to_bits() }
}

#[test]
fn the_watchdog_runs_from_start_to_stop() {
    let mut dog = Watchdog::new(30);
    let mut registry = Registry::new();
    assert_eq!(dog.begin(), Action::StartMedia);
    assert_eq!(dog.step(&mut registry, Event::Shutdown), Action::Wait);
    assert_eq!(dog.step(&mut registry, Event::MediaStarted { ok: true }), Action::Wait);
    assert_eq!(dog.step(&mut registry, tick(false, ActiveBranch::Passthrough)), Action::Wait);
    assert_eq!(
        dog.step(&mut registry, tick(true, ActiveBranch::Passthrough)),
        Action::SwitchTo(ActiveBranch::AiProcess)
    );
    assert_eq!(dog.step(&mut registry, tick(true, ActiveBranch::AiProcess)), Action::Wait);
    assert_eq!(
        dog.step(&mut registry, tick(false, ActiveBranch::AiProcess)),
        Action::SwitchTo(ActiveBranch::Passthrough)
    );
    assert_eq!(dog.step(&mut registry, Event::Shutdown), Action::StopMedia);
    assert_eq!(dog.step(&mut registry, tick(true, ActiveBranch::Passthrough)), Action::Wait);
    assert_eq!(dog.step(&mut registry, Event::MediaStopped), Action::Finish);
    assert_eq!(dog.phase, Phase::Finished);
    assert_eq!(dog.step(&mut registry, tick(true, ActiveBranch::Passthrough)), Action::Finish);
}

#[test]
fn a_pipeline_that_does_not_start_ends_the_watchdog() {
    let mut dog = Watchdog::new(30);
    let mut registry = Registry::new();
    assert_eq!(dog.step(&mut registry, Event::MediaStarted { ok: false }), Action::Finish);
    assert_eq!(dog.phase, Phase::Finished);
}

#[test]
fn health_is_checked_once_per_frame_period() {
    assert_eq!(Watchdog::new(30).health_check_interval_ns, 33_333_333);
    for fps in [0u32, 1, 3, 7, 24, 25, 29, 30, 50, 60, 120, 1000, 4_294_967_295] {
        let expected = Duration::from_secs_f64(1.0 / f64::from(fps.max(1)));
        assert_eq!(
            u128::from(Watchdog::new(fps).health_check_interval_ns),
            expected.as_nanos()
        );
    }
}

#[test]
fn the_branch_follows_health() {
    assert_eq!(update_active_branch(true, ActiveBranch::AiProcess), None);
    assert_eq!(update_active_branch(false, ActiveBranch::Passthrough), None);
    assert_eq!(
        update_active_branch(true, ActiveBranch::Passthrough),
        Some(ActiveBranch::AiProcess)
    );
    assert_eq!(
        update_active_branch(false, ActiveBranch::AiProcess),
        Some(ActiveBranch::Passthrough)
    );
}

#[test]
fn switches_and_branch_time_are_booked() {
    let mut dog = Watchdog::new(30);
    let mut registry = Registry::new();
    // Nothing is booked before the pipeline runs.
    dog.step(&mut registry, tick(true, ActiveBranch::Passthrough));
    assert_eq!(registry.branch_seconds_passthrough.micros(), 0);
    dog.step(&mut registry, Event::MediaStarted { ok: true });
    dog.step(&mut registry, tick(true, ActiveBranch::Passthrough));
    assert_eq!(registry.branch_seconds_passthrough.micros(), 500_000);
    // A switch that fails leaves no trace, and is asked for again.
    let failed = Event::Switched { branch: ActiveBranch::AiProcess, ok: false };
    assert_eq!(dog.step(&mut registry, failed), Action::Wait);
    assert_eq!(registry.active_branch.get(), 0);
    assert_eq!(registry.branch_switches_to_ai.get(), 0);
    assert_eq!(
        dog.step(&mut registry, tick(true, ActiveBranch::Passthrough)),
        Action::SwitchTo(ActiveBranch::AiProcess)
    );
    let done = Event::Switched { branch: ActiveBranch::AiProcess, ok: true };
    assert_eq!(dog.step(&mut registry, done), Action::Wait);
    assert_eq!(registry.active_branch.get(), 1);
    assert_eq!(registry.branch_switches_to_ai.get(), 1);
    dog.step(&mut registry, tick(false, ActiveBranch::AiProcess));
    assert_eq!(registry.branch_seconds_ai.micros(), 500_000);
    let back = Event::Switched { branch: ActiveBranch::Passthrough, ok: true };
    assert_eq!(dog.step(&mut registry, back), Action::Wait);
    assert_eq!(registry.active_branch.get(), 0);
    assert_eq!(registry.branch_switches_to_passthrough.get(), 1);
    assert_eq!(registry.branch_seconds_passthrough.micros(), 1_000_000);
}

#[test]
fn the_pipeline_is_stopped_once_and_nothing_follows_the_end() {
    let events = [
        Event::Shutdown,
        Event::MediaStarted { ok: true },
        tick(true, ActiveBranch::Passthrough),
        Event::MediaStarted { ok: true },
        Event::Shutdown,
        Event::Shutdown,
        tick(true, ActiveBranch::Passthrough),
        Event::MediaStopped,
        Event::Shutdown,
        Event::MediaStarted { ok: true },
        tick(true, ActiveBranch::Passthrough),
        Event::MediaStopped,
    ];
    let mut dog = Watchdog::new(30);
    let mut registry = Registry::new();
    let answers: Vec<Action> =
        events.into_iter().map(|event| dog.step(&mut registry, event)).collect();
    let stops: Vec<usize> =
        (0..answers.len()).filter(|&i| answers[i] == Action::StopMedia).collect();
    assert_eq!(stops, vec![4]);
    assert_eq!(answers[2], Action::SwitchTo(ActiveBranch::AiProcess));
    assert_eq!(answers[6], Action::Wait);
    assert!(answers[7..].iter().all(|a| *a == Action::Finish));
    assert!(answers[..7].iter().all(|a| *a != Action::Finish));
}
