use static_runtime::runner::clock::{Clock, ManualClock};
use static_runtime::runner::native::{ProcessSupervisor, SupervisionReport};
use static_runtime::runner::{FaultDecision, RestartPolicy, RunnerState, Supervisor};

fn with_clock(policy: RestartPolicy) -> (Supervisor, ManualClock) {
    let clock = ManualClock::new(0);
    let s = Supervisor::new(policy, Box::new(clock.clone()));
    (s, clock)
}

#[test]
fn nominal_lifecycle_transitions() {
    let (mut s, _clock) = with_clock(RestartPolicy::default());
    assert_eq!(s.state(), RunnerState::Loading);
    s.on_loaded();
    assert_eq!(s.state(), RunnerState::Ready);
    s.on_started();
    assert_eq!(s.state(), RunnerState::Running);
    s.on_stopped();
    assert_eq!(s.state(), RunnerState::Stopped);
    s.on_started();
    assert_eq!(s.state(), RunnerState::Running);
    s.on_unloaded();
    assert_eq!(s.state(), RunnerState::Unloaded);
}

#[test]
fn faults_back_off_then_trip_the_breaker() {
    let (mut s, clock) = with_clock(RestartPolicy {
        max_faults: 3,
        window_ms: 10_000,
        backoff_base_ms: 200,
        backoff_cap_ms: 5_000,
    });
    clock.set(0);
    assert_eq!(s.on_fault(), FaultDecision::Restart { backoff_ms: 200 });
    assert_eq!(s.state(), RunnerState::Restarting);
    clock.set(100);
    assert_eq!(s.on_fault(), FaultDecision::Restart { backoff_ms: 400 });
    clock.set(200);
    assert_eq!(s.on_fault(), FaultDecision::Disable);
    assert!(s.is_disabled());
}

#[test]
fn window_reset_avoids_tripping_on_spread_out_faults() {
    let (mut s, clock) = with_clock(RestartPolicy::default());
    clock.set(0);
    assert!(matches!(s.on_fault(), FaultDecision::Restart { .. }));
    clock.set(20_000);
    assert!(matches!(s.on_fault(), FaultDecision::Restart { .. }));
    clock.set(20_100);
    assert!(matches!(s.on_fault(), FaultDecision::Restart { .. }));
    assert!(!s.is_disabled(), "spread-out faults must not trip the breaker");
}

#[test]
fn backoff_is_capped() {
    let (mut s, clock) = with_clock(RestartPolicy {
        max_faults: 100,
        window_ms: u64::MAX,
        backoff_base_ms: 1_000,
        backoff_cap_ms: 4_000,
    });
    let mut last = 0;
    for i in 0..10 {
        clock.set(i);
        if let FaultDecision::Restart { backoff_ms } = s.on_fault() {
            last = backoff_ms;
        }
    }
    assert_eq!(last, 4_000, "backoff must saturate at the cap");
}

#[test]
fn disabled_only_clears_on_manual_reset() {
    let (mut s, _clock) = with_clock(RestartPolicy {
        max_faults: 1,
        ..RestartPolicy::default()
    });
    assert_eq!(s.on_fault(), FaultDecision::Disable);
    assert!(s.is_disabled());
    s.on_loaded();
    s.on_started();
    assert!(s.is_disabled());
    s.reset();
    assert_eq!(s.state(), RunnerState::Loading);
}

#[test]
fn default_policy_values() {
    let p = RestartPolicy::default();
    assert_eq!((p.max_faults, p.window_ms, p.backoff_base_ms, p.backoff_cap_ms), (3, 10_000, 200, 5_000));
}

#[test]
fn backoff_doubles_per_fault_until_the_cap() {
    let (mut s, _clock) = with_clock(RestartPolicy {
        max_faults: 10,
        window_ms: 10_000,
        backoff_base_ms: 100,
        backoff_cap_ms: 1_000,
    });
    let seen: Vec<FaultDecision> = (0..6).map(|_| s.on_fault()).collect();
    assert_eq!(
        seen,
        vec![
            FaultDecision::Restart { backoff_ms: 100 },
            FaultDecision::Restart { backoff_ms: 200 },
            FaultDecision::Restart { backoff_ms: 400 },
            FaultDecision::Restart { backoff_ms: 800 },
            FaultDecision::Restart { backoff_ms: 1_000 },
            FaultDecision::Restart { backoff_ms: 1_000 },
        ]
    );
}

#[test]
fn huge_base_backoff_saturates_instead_of_overflowing() {
    let (mut s, _clock) = with_clock(RestartPolicy {
        max_faults: 10,
        window_ms: 10_000,
        backoff_base_ms: u64::MAX / 2 + 1,
        backoff_cap_ms: u64::MAX,
    });
    assert_eq!(s.on_fault(), FaultDecision::Restart { backoff_ms: u64::MAX / 2 + 1 });
    assert_eq!(s.on_fault(), FaultDecision::Restart { backoff_ms: u64::MAX });
}

#[test]
fn fault_at_explicit_time_matches_clock_fault() {
    let (mut s, _clock) = with_clock(RestartPolicy::default());
    assert_eq!(s.on_fault_at(5), FaultDecision::Restart { backoff_ms: 200 });
    assert_eq!(s.on_fault_at(9_000), FaultDecision::Restart { backoff_ms: 400 });
    // A fault far outside the window restarts the count.
    assert_eq!(s.on_fault_at(50_000), FaultDecision::Restart { backoff_ms: 200 });
}

#[test]
fn disabled_supervisor_stays_disabled_until_reset() {
    let (mut s, _clock) = with_clock(RestartPolicy {
        max_faults: 2,
        window_ms: 100,
        backoff_base_ms: 10,
        backoff_cap_ms: 10,
    });
    s.on_fault_at(0);
    assert_eq!(s.on_fault_at(50), FaultDecision::Disable);
    assert!(s.is_disabled());
    // Even a fault long after the window leaves it disabled.
    assert_eq!(s.on_fault_at(1_000), FaultDecision::Disable);
    assert!(s.is_disabled());
    s.reset();
    assert_eq!(s.state(), RunnerState::Loading);
    assert_eq!(s.on_fault_at(2_000), FaultDecision::Restart { backoff_ms: 10 });
}

#[test]
fn process_supervisor_counts_restarts_then_disables() {
    let clock = ManualClock::new(0);
    let mut p = ProcessSupervisor::new(
        RestartPolicy { max_faults: 2, window_ms: 10_000, backoff_base_ms: 1, backoff_cap_ms: 1 },
        Box::new(clock.clone()),
    );
    let mut report = SupervisionReport { attempts: 0, restarts: 0, disabled: false, last_state: p.state() };
    assert!(!p.on_fault(&mut report));
    assert_eq!(report.restarts, 1);
    assert_eq!(p.state(), RunnerState::Loading);
    assert!(p.on_fault(&mut report));
    assert!(report.disabled);
    assert_eq!(p.state(), RunnerState::Disabled);
    assert_eq!(clock.now_ms(), 0);
}
