//! [`Clock`] — injectable millisecond time source. Policy code depends on this
//! trait and never reads an ambient clock; tests drive a [`ManualClock`],
//! production wires a [`SystemClock`].

use std::sync::atomic::AtomicU64;
use std::sync::atomic::Ordering;
use std::sync::Arc;
use crate::time::{duration_as_millis, instant_elapsed, instant_now};
use std::time::Instant;
use vstd::prelude::*;

verus! {

/// A monotonic millisecond time source. Implementations read time or shared
/// state, so nothing is promised of the value a call returns.
pub trait Clock {
    fn now_ms(&self) -> u64;
}

/// Deterministic, test-driven clock. Clones share one counter, so a test keeps
/// one handle to `advance`/`set` while another is held by a supervisor.
#[derive(Clone, Default)]
pub struct ManualClock {
    ms: Arc<AtomicU64>,
}

impl ManualClock {
    pub fn new(ms: u64) -> (r: Self) {
        ManualClock { ms: Arc::new(AtomicU64::new(ms)) }
    }

    pub fn set(&self, ms: u64) {
        self.ms.store(ms, Ordering::Relaxed);
    }

    /// Advance the shared counter (wrapping, as an atomic add does).
    pub fn advance(&self, delta_ms: u64) {
        let _ = self.ms.fetch_add(delta_ms, Ordering::Relaxed);
    }
}

impl Clock for ManualClock {
    fn now_ms(&self) -> u64 {
        self.ms.load(Ordering::Relaxed)
    }
}

/// Real monotonic clock; the ambient `Instant` lives here, never in policy.
pub struct SystemClock {
    base: Instant,
}

impl SystemClock {
    pub fn new() -> (r: Self) {
        SystemClock { base: instant_now() }
    }
}

impl Default for SystemClock {
    fn default() -> (r: Self) {
        Self::new()
    }
}

impl Clock for SystemClock {
    /// Milliseconds since construction, truncated to 64 bits.
    fn now_ms(&self) -> u64 {
        let d = instant_elapsed(&self.base);
        let ms = duration_as_millis(&d);
        ms as u64
    }
}

} // verus!
