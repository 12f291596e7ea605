//! [`Supervisor`] — the policy seam: watchdog + fault/restart/breaker state.
//!
//! Owns *when* to restart or disable a runner; owns no transport and no runner
//! internals. Time comes from an injected [`Clock`], never an ambient clock.
//!
//! ```text
//!   Loading → Ready → Running ⇄ Stopped → Unloaded
//!      └────────── Faulted ──(backoff)──▶ Restarting ─▶ Loading
//!                    └──(breaker: N faults / window T)──▶ Disabled
//! ```

use super::clock::Clock;
use super::RunnerState;
use vstd::arithmetic::power2::pow2;
use vstd::prelude::*;

verus! {

/// Restart/breaker tuning.
#[derive(Debug, Clone, Copy, PartialEq, Eq, Structural)]
pub struct RestartPolicy {
    /// Faults within `window_ms` that trip the breaker into `Disabled`.
    pub max_faults: u32,
    /// Sliding window for counting faults.
    pub window_ms: u64,
    /// First backoff; doubles each consecutive fault.
    pub backoff_base_ms: u64,
    /// Backoff ceiling.
    pub backoff_cap_ms: u64,
}

impl Default for RestartPolicy {
    fn default() -> (r: Self)
        ensures
            r.max_faults == 3,
            r.window_ms == 10_000,
            r.backoff_base_ms == 200,
            r.backoff_cap_ms == 5_000,
    {
        RestartPolicy { max_faults: 3, window_ms: 10_000, backoff_base_ms: 200, backoff_cap_ms: 5_000 }
    }
}

/// What the supervisor decides after a fault.
#[derive(Debug, Clone, Copy, PartialEq, Eq, Structural)]
pub enum FaultDecision {
    /// Restart after waiting `backoff_ms`.
    Restart { backoff_ms: u64 },
    /// Breaker tripped — stay down until a manual [`reset`](Supervisor::reset).
    Disable,
}

/// The supervisor's abstract state: its policy, lifecycle state and fault
/// window.
pub struct SupervisorModel {
    pub policy: RestartPolicy,
    pub state: RunnerState,
    pub fault_count: u32,
    pub window_start_ms: u64,
}

/// `a - b`, floored at zero.
pub open spec fn sat_sub(a: u64, b: u64) -> u64 {
    if a >= b { (a - b) as u64 } else { 0 }
}

/// `a * b`, capped at `u64::MAX`.
pub open spec fn sat_mul(a: u64, b: u64) -> u64 {
    if a * b > u64::MAX { u64::MAX } else { (a * b) as u64 }
}

/// The doubling exponent for the `count`-th consecutive fault: `count - 1`,
/// at most 31.
pub open spec fn backoff_shift(count: u32) -> nat {
    if count == 0 { 0 } else if count - 1 > 31 { 31 } else { (count - 1) as nat }
}

/// The backoff before the restart that follows the `count`-th fault of a
/// window: `base * 2^(count-1)` (saturating), capped at `backoff_cap_ms`.
pub open spec fn backoff_for(policy: RestartPolicy, count: u32) -> u64 {
    let raw = sat_mul(policy.backoff_base_ms, pow2(backoff_shift(count)) as u64);
    if raw <= policy.backoff_cap_ms { raw } else { policy.backoff_cap_ms }
}

/// Whether a fault at `now` opens a fresh window.
pub open spec fn opens_new_window(m: SupervisorModel, now: u64) -> bool {
    m.fault_count == 0 || sat_sub(now, m.window_start_ms) > m.policy.window_ms
}

/// The fault count after recording a fault at `now`.
pub open spec fn count_after_fault(m: SupervisorModel, now: u64) -> int {
    if opens_new_window(m, now) { 1 } else { m.fault_count + 1 }
}

/// The whole effect of one fault at time `now`: the next abstract state and
/// the decision returned. A disabled runner stays disabled (only `reset`
/// leaves `Disabled`).
pub open spec fn fault_step(m: SupervisorModel, now: u64) -> (SupervisorModel, FaultDecision) {
    let count = count_after_fault(m, now) as u32;
    let start = if opens_new_window(m, now) { now } else { m.window_start_ms };
    if m.state == RunnerState::Disabled {
        (m, FaultDecision::Disable)
    } else if count >= m.policy.max_faults {
        (
            SupervisorModel { policy: m.policy, state: RunnerState::Disabled, fault_count: count, window_start_ms: start },
            FaultDecision::Disable,
        )
    } else {
        (
            SupervisorModel { policy: m.policy, state: RunnerState::Restarting, fault_count: count, window_start_ms: start },
            FaultDecision::Restart { backoff_ms: backoff_for(m.policy, count) },
        )
    }
}

/// State after `on_loaded`.
pub open spec fn after_loaded(s: RunnerState) -> RunnerState {
    if s != RunnerState::Disabled { RunnerState::Ready } else { s }
}

/// State after `on_started`.
pub open spec fn after_started(s: RunnerState) -> RunnerState {
    if s == RunnerState::Ready || s == RunnerState::Stopped { RunnerState::Running } else { s }
}

/// State after `on_stopped`.
pub open spec fn after_stopped(s: RunnerState) -> RunnerState {
    if s == RunnerState::Running { RunnerState::Stopped } else { s }
}

/// State after `on_unloaded`.
pub open spec fn after_unloaded(s: RunnerState) -> RunnerState {
    if s != RunnerState::Disabled { RunnerState::Unloaded } else { s }
}

/// State after `on_restart_begin`.
pub open spec fn after_restart_begin(s: RunnerState) -> RunnerState {
    if s == RunnerState::Restarting { RunnerState::Loading } else { s }
}

/// The abstract state after a run of faults at the given times, applied in
/// order.
pub open spec fn after_faults(m: SupervisorModel, times: Seq<u64>) -> SupervisorModel
    decreases times.len(),
{
    if times.len() == 0 {
        m
    } else {
        fault_step(after_faults(m, times.drop_last()), times.last()).0
    }
}

/// Whether `times` is nondecreasing and spans at most `window` milliseconds.
pub open spec fn within_one_window(times: Seq<u64>, window: u64) -> bool {
    &&& forall|i: int, j: int| 0 <= i <= j < times.len() ==> times[i] <= times[j]
    &&& times.len() > 0 ==> times.last() - times[0] <= window
}

/// The backoff never exceeds the policy's cap.
pub proof fn lemma_backoff_is_capped(policy: RestartPolicy, count: u32)
    ensures
        backoff_for(policy, count) <= policy.backoff_cap_ms,
{
}

/// The backoff never shrinks as consecutive faults accumulate.
pub proof fn lemma_backoff_nondecreasing(policy: RestartPolicy, c1: u32, c2: u32)
    requires
        c1 <= c2,
    ensures
        backoff_for(policy, c1) <= backoff_for(policy, c2),
{
    let s1 = backoff_shift(c1);
    let s2 = backoff_shift(c2);
    assert(s1 <= s2);
    if s1 < s2 {
        vstd::arithmetic::power2::lemma_pow2_strictly_increases(s1, s2);
    }
    vstd::bits::lemma_u64_pow2_no_overflow(s1);
    vstd::bits::lemma_u64_pow2_no_overflow(s2);
    let p1 = pow2(s1) as u64;
    let p2 = pow2(s2) as u64;
    let b = policy.backoff_base_ms;
    assert(b * p1 <= b * p2) by (nonlinear_arith)
        requires
            p1 <= p2,
    ;
}

/// A run of faults that starts a fresh window (no faults counted yet) and stays
/// within one window is counted one by one until the breaker trips: after `n`
/// such faults the count is `n` (capped where the breaker tripped), the
/// window starts at the first fault, and the runner is `Disabled` exactly when
/// `n >= max_faults` (otherwise it is `Restarting`).
pub proof fn lemma_faults_in_one_window_trip_at_max(m: SupervisorModel, times: Seq<u64>)
    requires
        m.fault_count == 0,
        m.state != RunnerState::Disabled,
        times.len() > 0,
        times.len() < u32::MAX,
        within_one_window(times, m.policy.window_ms),
    ensures
        after_faults(m, times).fault_count == (if times.len() < m.policy.max_faults {
            times.len() as int
        } else if m.policy.max_faults == 0 {
            1
        } else {
            m.policy.max_faults as int
        }),
        after_faults(m, times).window_start_ms == times[0],
        after_faults(m, times).policy == m.policy,
        after_faults(m, times).state == (if times.len() >= m.policy.max_faults {
            RunnerState::Disabled
        } else {
            RunnerState::Restarting
        }),
    decreases times.len(),
{
    let prefix = times.drop_last();
    if times.len() == 1 {
        assert(after_faults(m, prefix) == m);
    } else {
        assert(within_one_window(prefix, m.policy.window_ms)) by {
            assert(prefix.last() == times[times.len() - 2]);
            assert(times[times.len() - 2] <= times.last());
        }
        lemma_faults_in_one_window_trip_at_max(m, prefix);
        let pm = after_faults(m, prefix);
        assert(prefix[0] == times[0]);
        assert(times[0] <= times.last());
        assert(sat_sub(times.last(), pm.window_start_ms) == times.last() - times[0]);
        assert(!opens_new_window(pm, times.last()));
    }
}

/// Faults spaced more than a window apart never accumulate: each one restarts
/// the count at 1, so with `max_faults > 1` the breaker never trips on them.
pub proof fn lemma_spread_out_fault_restarts(m: SupervisorModel, now: u64)
    requires
        m.state != RunnerState::Disabled,
        m.policy.max_faults > 1,
        sat_sub(now, m.window_start_ms) > m.policy.window_ms,
    ensures
        fault_step(m, now).0.fault_count == 1,
        fault_step(m, now).0.state == RunnerState::Restarting,
        fault_step(m, now).1 == (FaultDecision::Restart { backoff_ms: backoff_for(m.policy, 1) }),
{
}

/// The supervisor's state invariant: a tripped breaker has counted at least
/// `max_faults` faults in its window.
pub open spec fn breaker_consistent(m: SupervisorModel) -> bool {
    m.state == RunnerState::Disabled ==> m.fault_count >= m.policy.max_faults
}

/// Every transition keeps the breaker invariant.
pub proof fn lemma_breaker_consistent_preserved(m: SupervisorModel, now: u64)
    requires
        breaker_consistent(m),
        m.fault_count < u32::MAX,
    ensures
        breaker_consistent(SupervisorModel { state: after_loaded(m.state), ..m }),
        breaker_consistent(SupervisorModel { state: after_started(m.state), ..m }),
        breaker_consistent(SupervisorModel { state: after_stopped(m.state), ..m }),
        breaker_consistent(SupervisorModel { state: after_unloaded(m.state), ..m }),
        breaker_consistent(SupervisorModel { state: after_restart_begin(m.state), ..m }),
        breaker_consistent(fault_step(m, now).0),
        breaker_consistent(SupervisorModel {
            policy: m.policy,
            state: RunnerState::Loading,
            fault_count: 0,
            window_start_ms: 0,
        }),
{
}

/// Nothing but `reset` revives a disabled runner: no lifecycle callback, and
/// no fault, whenever it comes.
pub proof fn lemma_disabled_is_sticky(m: SupervisorModel, now: u64)
    requires
        m.state == RunnerState::Disabled,
    ensures
        after_loaded(m.state) == RunnerState::Disabled,
        after_started(m.state) == RunnerState::Disabled,
        after_stopped(m.state) == RunnerState::Disabled,
        after_unloaded(m.state) == RunnerState::Disabled,
        after_restart_begin(m.state) == RunnerState::Disabled,
        fault_step(m, now).0 == m,
        fault_step(m, now).1 == FaultDecision::Disable,
{
}

/// A breaker that has counted at least `max_faults` faults in the current
/// window stays tripped on every further fault inside that window.
pub proof fn lemma_fault_in_tripped_window_stays_disabled(m: SupervisorModel, now: u64)
    requires
        m.fault_count >= m.policy.max_faults,
        m.fault_count > 0,
        m.fault_count < u32::MAX,
        !opens_new_window(m, now),
    ensures
        fault_step(m, now).0.state == RunnerState::Disabled,
        fault_step(m, now).1 == FaultDecision::Disable,
{
}

/// Tracks one runner's lifecycle + fault history and decides restart vs.
/// disable.
pub struct Supervisor {
    policy: RestartPolicy,
    clock: Box<dyn Clock>,
    state: RunnerState,
    /// Faults counted in the current window.
    fault_count: u32,
    /// Start of the current fault window (from the injected clock).
    window_start_ms: u64,
}

impl View for Supervisor {
    type V = SupervisorModel;

    closed spec fn view(&self) -> SupervisorModel {
        SupervisorModel {
            policy: self.policy,
            state: self.state,
            fault_count: self.fault_count,
            window_start_ms: self.window_start_ms,
        }
    }
}

impl Supervisor {
    pub fn new(policy: RestartPolicy, clock: Box<dyn Clock>) -> (r: Self)
        ensures
            r@.policy == policy,
            r@.state == RunnerState::Loading,
            r@.fault_count == 0,
            r@.window_start_ms == 0,
    {
        Supervisor { policy, clock, state: RunnerState::Loading, fault_count: 0, window_start_ms: 0 }
    }

    pub fn state(&self) -> (r: RunnerState)
        ensures r == self@.state,
    {
        self.state
    }

    pub fn is_disabled(&self) -> (r: bool)
        ensures r == (self@.state == RunnerState::Disabled),
    {
        self.state == RunnerState::Disabled
    }

    pub fn on_loaded(&mut self)
        ensures final(self)@ == (SupervisorModel { state: after_loaded(old(self)@.state), ..old(self)@ }),
    {
        if self.state != RunnerState::Disabled {
            self.state = RunnerState::Ready;
        }
    }

    pub fn on_started(&mut self)
        ensures final(self)@ == (SupervisorModel { state: after_started(old(self)@.state), ..old(self)@ }),
    {
        if self.state == RunnerState::Ready || self.state == RunnerState::Stopped {
            self.state = RunnerState::Running;
        }
    }

    pub fn on_stopped(&mut self)
        ensures final(self)@ == (SupervisorModel { state: after_stopped(old(self)@.state), ..old(self)@ }),
    {
        if self.state == RunnerState::Running {
            self.state = RunnerState::Stopped;
        }
    }

    pub fn on_unloaded(&mut self)
        ensures final(self)@ == (SupervisorModel { state: after_unloaded(old(self)@.state), ..old(self)@ }),
    {
        if self.state != RunnerState::Disabled {
            self.state = RunnerState::Unloaded;
        }
    }

    /// Record a fault at time `now_ms`: slide the window, then either schedule
    /// a backed-off restart or trip the breaker.
    pub fn on_fault_at(&mut self, now_ms: u64) -> (d: FaultDecision)
        requires
            old(self)@.fault_count < u32::MAX,
        ensures
            (final(self)@, d) == fault_step(old(self)@, now_ms),
    {
        if self.state == RunnerState::Disabled {
            return FaultDecision::Disable;
        }
        if self.fault_count == 0 || now_ms.saturating_sub(self.window_start_ms) > self.policy.window_ms {
            self.window_start_ms = now_ms;
            self.fault_count = 0;
        }
        self.fault_count = self.fault_count + 1;
        self.state = RunnerState::Faulted;
        if self.fault_count >= self.policy.max_faults {
            self.state = RunnerState::Disabled;
            FaultDecision::Disable
        } else {
            let backoff_ms = capped_backoff(self.policy, self.fault_count);
            self.state = RunnerState::Restarting;
            FaultDecision::Restart { backoff_ms }
        }
    }

    /// Record a fault at the time the injected clock reports.
    pub fn on_fault(&mut self) -> (d: FaultDecision)
        requires
            old(self)@.fault_count < u32::MAX,
        ensures
            exists|now: u64| (final(self)@, d) == fault_step(old(self)@, now),
    {
        let now_ms = self.clock.now_ms();
        self.on_fault_at(now_ms)
    }

    /// Begin a restart (after the backoff elapsed): back to `Loading`.
    pub fn on_restart_begin(&mut self)
        ensures final(self)@ == (SupervisorModel { state: after_restart_begin(old(self)@.state), ..old(self)@ }),
    {
        if self.state == RunnerState::Restarting {
            self.state = RunnerState::Loading;
        }
    }

    /// Manual re-enable (clears the breaker).
    pub fn reset(&mut self)
        ensures
            final(self)@ == (SupervisorModel {
                policy: old(self)@.policy,
                state: RunnerState::Loading,
                fault_count: 0,
                window_start_ms: 0,
            }),
    {
        self.state = RunnerState::Loading;
        self.fault_count = 0;
        self.window_start_ms = 0;
    }
}

/// `base * 2^(count-1)` with the exponent capped at 31, saturating, then
/// capped at `backoff_cap_ms`.
fn capped_backoff(policy: RestartPolicy, count: u32) -> (r: u64)
    ensures r == backoff_for(policy, count),
{
    let shift: u64 = if count == 0 { 0 } else if count - 1 > 31 { 31 } else { (count - 1) as u64 };
    proof {
        vstd::bits::lemma_u64_pow2_no_overflow(shift as nat);
        vstd::bits::lemma_u64_shl_is_mul(1, shift);
    }
    let factor: u64 = 1u64 << shift;
    let raw: u64 = match policy.backoff_base_ms.checked_mul(factor) {
        Some(v) => v,
        None => u64::MAX,
    };
    if raw <= policy.backoff_cap_ms { raw } else { policy.backoff_cap_ms }
}

} // verus!
