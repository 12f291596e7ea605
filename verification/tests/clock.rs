use static_runtime::runner::clock::{Clock, ManualClock, SystemClock};

#[test]
fn manual_clock_is_deterministic_and_shareable() {
    let c = ManualClock::new(100);
    let shared = c.clone();
    assert_eq!(shared.now_ms(), 100);
    c.advance(50);
    assert_eq!(shared.now_ms(), 150, "clones share the same counter");
    c.set(0);
    assert_eq!(shared.now_ms(), 0);
}

#[test]
fn system_clock_is_monotonic_nondecreasing() {
    let c = SystemClock::new();
    let a = c.now_ms();
    let b = c.now_ms();
    assert!(b >= a);
}
