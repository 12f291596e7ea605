//! [`ProcessSupervisor`] — restart policy for a native runner: it owns the
//! [`Supervisor`] state machine and turns each fault into a restart or a
//! tripped breaker, recording what happened in a [`SupervisionReport`].

use crate::behavior::node::Timing;
use crate::runner::backend::{as_held, starts_from, Held, tick_follows, LoadedRunner, RunnerBackend, RunningRunner};
use crate::runner::clock::Clock;
use crate::runner::host::{zero_timing, HostApi};
use crate::runner::supervisor::{after_loaded, after_restart_begin, after_started, after_stopped, fault_step, SupervisorModel};
use crate::runner::{FaultDecision, RestartPolicy, RunnerError, RunnerState, Supervisor, TickOutcome, TickOutcomeView};
use vstd::prelude::*;

verus! {

/// Outcome of a supervised run.
#[derive(Debug, Clone, Copy, PartialEq, Eq, Structural)]
pub struct SupervisionReport {
    pub attempts: u32,
    pub restarts: u32,
    pub disabled: bool,
    pub last_state: RunnerState,
}

/// The supervisor after one fault at `now`: the fault's effect, followed by
/// the restart's begin when the decision is to restart.
pub open spec fn supervised_fault(m: SupervisorModel, now: u64) -> SupervisorModel {
    let (n, d) = fault_step(m, now);
    if d is Restart { SupervisorModel { state: after_restart_begin(n.state), ..n } } else { n }
}

/// The supervisor after faults at `times`, in order.
pub open spec fn supervised_faults(m: SupervisorModel, times: Seq<u64>) -> SupervisorModel
    decreases times.len(),
{
    if times.len() == 0 {
        m
    } else {
        supervised_fault(supervised_faults(m, times.drop_last()), times.last())
    }
}

/// The decision on the `i`-th of the faults at `times`.
pub open spec fn decision_at(m: SupervisorModel, times: Seq<u64>, i: int) -> FaultDecision {
    fault_step(supervised_faults(m, times.take(i)), times[i]).1
}

/// A clean run from `m`: loaded, started, then stopped.
pub open spec fn clean_run(m: SupervisorModel) -> SupervisorModel {
    SupervisorModel { state: after_stopped(after_started(after_loaded(m.state))), ..m }
}

/// A fault sees the same decision whether or not the runner was loaded and
/// started first: only whether it is disabled matters.
proof fn lemma_fault_after_lifecycle(m: SupervisorModel, now: u64)
    ensures
        fault_step(SupervisorModel { state: after_started(after_loaded(m.state)), ..m }, now) == fault_step(m, now),
{
}

/// One fault at `now`, as `on_fault` applies it: the decision trips the
/// breaker (the report marked disabled) or restarts (counted, and the runner
/// back to `Loading`).
pub open spec fn fault_effect(
    m: SupervisorModel,
    report: SupervisionReport,
    now: u64,
    tripped: bool,
    m2: SupervisorModel,
    report2: SupervisionReport,
) -> bool {
    let (n, d) = fault_step(m, now);
    &&& tripped == (d is Disable)
    &&& m2 == supervised_fault(m, now)
    &&& d is Disable ==> report2 == (SupervisionReport { disabled: true, ..report })
    &&& d is Restart ==> report2 == (SupervisionReport { restarts: (report.restarts + 1) as u32, ..report })
}

/// Recording one more fault extends the run by that fault, and earlier
/// decisions stand.
proof fn lemma_record_fault(m: SupervisorModel, times: Seq<u64>, now: u64)
    ensures
        supervised_faults(m, times.push(now)) == supervised_fault(supervised_faults(m, times), now),
        decision_at(m, times.push(now), times.len() as int) == fault_step(supervised_faults(m, times), now).1,
        forall|i: int| 0 <= i < times.len() ==> #[trigger] decision_at(m, times.push(now), i) == decision_at(m, times, i),
{
    assert(times.push(now).drop_last() =~= times);
    assert(times.push(now).take(times.len() as int) =~= times);
    assert forall|i: int| 0 <= i < times.len() implies #[trigger] decision_at(m, times.push(now), i) == decision_at(m, times, i) by {
        assert(times.push(now).take(i) =~= times.take(i));
    }
}

/// The runner before the `j`-th of the ticks in `trace`, which started from
/// `start`.
pub open spec fn state_before<H: HostApi + ?Sized>(
    start: RunningRunner<H>,
    trace: Seq<(TickOutcomeView, RunningRunner<H>)>,
    j: int,
) -> RunningRunner<H> {
    if j == 0 { start } else { trace[j - 1].1 }
}

/// Whether the last of the ticks in `trace` reported a fault.
pub open spec fn ticks_faulted<H: HostApi + ?Sized>(trace: Seq<(TickOutcomeView, RunningRunner<H>)>) -> bool {
    trace.len() > 0 && trace.last().0 is Faulted
}

/// Whether `trace` (each tick's outcome and the runner after it) is one
/// attempt's ticks from `start`: each at zero timing and following from the
/// state before it ([`tick_follows`]), stopping at the first fault, and
/// `ticks` of them when none faulted.
pub open spec fn attempt_ticks<H: HostApi + ?Sized>(
    start: RunningRunner<H>,
    trace: Seq<(TickOutcomeView, RunningRunner<H>)>,
    ticks: u32,
) -> bool {
    &&& trace.len() <= ticks
    &&& forall|j: int| 0 <= j < trace.len() ==> tick_follows(
        state_before(start, trace, j),
        zero_timing(),
        (#[trigger] trace[j]).0,
        trace[j].1,
    )
    &&& forall|j: int| 0 <= j < trace.len() - 1 ==> !((#[trigger] trace[j]).0 is Faulted)
    &&& trace.len() < ticks ==> ticks_faulted(trace)
}

/// The runner after the ticks in `trace`, which started from `start`.
pub open spec fn after_ticks<H: HostApi + ?Sized>(
    start: RunningRunner<H>,
    trace: Seq<(TickOutcomeView, RunningRunner<H>)>,
) -> RunningRunner<H> {
    if trace.len() == 0 { start } else { trace.last().1 }
}

/// One more tick keeps a trace of ticks that follow one another.
proof fn lemma_push_tick<H: HostApi + ?Sized>(
    start: RunningRunner<H>,
    trace: Seq<(TickOutcomeView, RunningRunner<H>)>,
    outcome: TickOutcomeView,
    after: RunningRunner<H>,
)
    requires
        forall|j: int| 0 <= j < trace.len() ==> tick_follows(
            state_before(start, trace, j),
            zero_timing(),
            (#[trigger] trace[j]).0,
            trace[j].1,
        ),
        tick_follows(after_ticks(start, trace), zero_timing(), outcome, after),
        forall|j: int| 0 <= j < trace.len() ==> !((#[trigger] trace[j]).0 is Faulted),
    ensures
        after_ticks(start, trace.push((outcome, after))) == after,
        forall|j: int| 0 <= j < trace.len() ==> !((#[trigger] trace.push((outcome, after))[j]).0 is Faulted),
        forall|j: int| 0 <= j < trace.len() + 1 ==> tick_follows(
            state_before(start, trace.push((outcome, after)), j),
            zero_timing(),
            (#[trigger] trace.push((outcome, after))[j]).0,
            trace.push((outcome, after))[j].1,
        ),
{
    let next = trace.push((outcome, after));
    assert forall|j: int| 0 <= j < trace.len() + 1 implies tick_follows(
        state_before(start, next, j),
        zero_timing(),
        (#[trigger] next[j]).0,
        next[j].1,
    ) by {
        if j < trace.len() {
            assert(next[j] == trace[j]);
            assert(state_before(start, next, j) == state_before(start, trace, j));
        } else {
            assert(next[j] == (outcome, after));
        }
    }
    assert forall|j: int| 0 <= j < trace.len() implies !((#[trigger] next[j]).0 is Faulted) by {
        assert(next[j] == trace[j]);
    }
}

/// Tick `running` at zero timing until it reports a fault or `ticks` ticks
/// were made; whether it faulted.
pub fn drive_attempt<H: HostApi + ?Sized>(running: &mut RunningRunner<H>, host: &mut H, ticks: u32) -> (faulted: bool)
    ensures
        exists|trace: Seq<(TickOutcomeView, RunningRunner<H>)>| {
            &&& attempt_ticks(*old(running), trace, ticks)
            &&& faulted == ticks_faulted(trace)
            &&& *final(running) == after_ticks(*old(running), trace)
        },
{
    let ghost start = *running;
    let ghost mut trace: Seq<(TickOutcomeView, RunningRunner<H>)> = Seq::empty();
    let mut faulted = false;
    let mut t: u32 = 0;
    while t < ticks
        invariant_except_break
            trace.len() == t,
            !faulted,
            forall|j: int| 0 <= j < trace.len() ==> !((#[trigger] trace[j]).0 is Faulted),
        invariant
            t <= ticks,
            trace.len() <= ticks,
            start == *old(running),
            *running == after_ticks(start, trace),
            forall|j: int| 0 <= j < trace.len() ==> tick_follows(
                state_before(start, trace, j),
                zero_timing(),
                (#[trigger] trace[j]).0,
                trace[j].1,
            ),
            forall|j: int| 0 <= j < trace.len() - 1 ==> !((#[trigger] trace[j]).0 is Faulted),
        ensures
            attempt_ticks(start, trace, ticks),
            faulted == ticks_faulted(trace),
            *running == after_ticks(start, trace),
        decreases ticks - t,
    {
        let outcome = running.tick(host, Timing { dt_bits: 0, elapsed_bits: 0 });
        proof {
            lemma_push_tick(start, trace, outcome@, *running);
            trace = trace.push((outcome@, *running));
        }
        if let TickOutcome::Faulted(_) = outcome {
            faulted = true;
            break;
        }
        t = t + 1;
    }
    faulted
}

/// What happened in one supervised attempt: what `load` gave, the runner
/// once bound and started (when it loaded), and its ticks.
#[verifier::reject_recursive_types(H)]
pub struct AttemptRecord<H: HostApi + ?Sized> {
    pub load: Result<LoadedRunner<H>, RunnerError>,
    pub started: Option<RunningRunner<H>>,
    pub ticks: Seq<(TickOutcomeView, RunningRunner<H>)>,
}

/// An attempt is a fault when its load failed or a tick reported a fault.
pub open spec fn attempt_faulted<H: HostApi + ?Sized>(a: AttemptRecord<H>) -> bool {
    a.load is Err || ticks_faulted(a.ticks)
}

/// Whether attempt `a` is the `i`-th backend of `backends` driven: loaded
/// (as the backend states), and, when it loaded, bound and started
/// ([`starts_from`]) and ticked ([`attempt_ticks`]).
pub open spec fn attempt_follows<H: HostApi + ?Sized>(
    backends: Seq<Held<Box<dyn RunnerBackend<H>>>>,
    i: int,
    a: AttemptRecord<H>,
    ticks: u32,
) -> bool {
    &&& (*backends[i].unit).load_result(a.load)
    &&& match a.load {
        Ok(l) => a.started matches Some(s) && starts_from(l, s) && attempt_ticks(s, a.ticks, ticks),
        Err(_) => a.started is None && a.ticks.len() == 0,
    }
}

/// How many of `attempts` were faults.
pub open spec fn faulted_attempts<H: HostApi + ?Sized>(attempts: Seq<AttemptRecord<H>>) -> int
    decreases attempts.len(),
{
    if attempts.len() == 0 {
        0
    } else {
        faulted_attempts(attempts.drop_last()) + if attempt_faulted(attempts.last()) { 1int } else { 0 }
    }
}

pub struct ProcessSupervisor {
    supervisor: Supervisor,
}

impl ProcessSupervisor {
    pub closed spec fn view(&self) -> SupervisorModel {
        self.supervisor@
    }

    pub fn new(policy: RestartPolicy, clock: Box<dyn Clock>) -> (r: Self)
        ensures
            r.view().policy == policy,
            r.view().state == RunnerState::Loading,
            r.view().fault_count == 0,
            r.view().window_start_ms == 0,
    {
        ProcessSupervisor { supervisor: Supervisor::new(policy, clock) }
    }

    pub fn state(&self) -> (r: RunnerState)
        ensures r == self.view().state,
    {
        self.supervisor.state()
    }

    /// Apply one fault: a restart counts in the report and moves the runner
    /// back to `Loading`; a tripped breaker marks the report disabled.
    /// Returns whether the breaker tripped.
    pub fn on_fault(&mut self, report: &mut SupervisionReport) -> (tripped: bool)
        requires
            old(self).view().fault_count < u32::MAX,
            old(report).restarts < u32::MAX,
        ensures
            exists|now: u64| #[trigger] fault_effect(old(self).view(), *old(report), now, tripped, final(self).view(), *final(report)),
    {
        let ghost m = self.view();
        let ghost rep = *report;
        let d = self.supervisor.on_fault();
        let ghost now = choose|now: u64| (self.supervisor@, d) == fault_step(m, now);
        let tripped = match d {
            FaultDecision::Restart { .. } => {
                report.restarts = report.restarts + 1;
                self.supervisor.on_restart_begin();
                false
            },
            FaultDecision::Disable => {
                report.disabled = true;
                true
            },
        };
        assert(fault_effect(m, rep, now, tripped, self.view(), *report));
        tripped
    }

    /// Build a runner with `make`, drive it load → bind → start → tick…, and
    /// apply the restart policy on any fault (a load error is a fault too).
    /// Loops until a clean run completes (it is stopped gracefully), the
    /// breaker disables it, or `max_attempts` attempts were made. Each
    /// attempt ends in exactly one of: a clean stop, a restart, a trip.
    ///
    /// Each attempt builds one backend with `make`, loads it, and, when it
    /// loaded, binds, starts and ticks it at zero timing
    /// ([`drive_attempt`]); an attempt is a fault exactly when its load
    /// failed or a tick reported a fault ([`attempt_faulted`]). Every fault
    /// but a tripping one is a restart.
    pub fn supervise<H: HostApi + ?Sized, F: FnMut() -> Box<dyn RunnerBackend<H>>>(
        &mut self,
        make: &mut F,
        host: &mut H,
        ticks_per_attempt: u32,
        max_attempts: u32,
    ) -> (r: SupervisionReport)
        requires
            old(self).view().fault_count + max_attempts < u32::MAX,
            forall|f: F| #[trigger] call_requires(f, ()),
        ensures
            r.attempts <= max_attempts,
            max_attempts > 0 ==> r.attempts >= 1,
            r.last_state == final(self).view().state,
            r.disabled ==> r.restarts + 1 == r.attempts && r.last_state == RunnerState::Disabled,
            !r.disabled ==> r.restarts == r.attempts || r.restarts + 1 == r.attempts,
            !r.disabled && r.restarts == r.attempts ==> r.attempts == max_attempts,
            final(self).view().policy == old(self).view().policy,
            exists|backends: Seq<Held<Box<dyn RunnerBackend<H>>>>, attempts: Seq<AttemptRecord<H>>| {
                &&& backends.len() == r.attempts
                &&& attempts.len() == r.attempts
                &&& forall|i: int| 0 <= i < r.attempts ==> #[trigger] attempt_follows(backends, i, attempts[i], ticks_per_attempt)
                &&& forall|i: int| 0 <= i < r.attempts - 1 ==> attempt_faulted(#[trigger] attempts[i])
                &&& faulted_attempts(attempts) == r.restarts + (if r.disabled { 1int } else { 0 })
            },
            exists|times: Seq<u64>| {
                &&& times.len() == r.restarts + (if r.disabled { 1int } else { 0 })
                &&& forall|i: int| 0 <= i < r.restarts ==> #[trigger] decision_at(old(self).view(), times, i) is Restart
                &&& r.disabled ==> decision_at(old(self).view(), times, times.len() - 1) is Disable
                &&& final(self).view() == (if !r.disabled && r.restarts + 1 == r.attempts {
                    clean_run(supervised_faults(old(self).view(), times))
                } else {
                    supervised_faults(old(self).view(), times)
                })
            },
    {
        let mut report = SupervisionReport {
            attempts: 0,
            restarts: 0,
            disabled: false,
            last_state: self.supervisor.state(),
        };
        let ghost init_faults = self.view().fault_count;
        let ghost m0 = self.view();
        let ghost mut times: Seq<u64> = Seq::empty();
        let ghost mut backends: Seq<Held<Box<dyn RunnerBackend<H>>>> = Seq::empty();
        let ghost mut attempts: Seq<AttemptRecord<H>> = Seq::empty();
        let mut clean = false;
        while report.attempts < max_attempts
            invariant_except_break
                !report.disabled,
                !clean,
                report.restarts == report.attempts,
                times.len() == report.restarts,
                self.view() == supervised_faults(m0, times),
                forall|i: int| 0 <= i < attempts.len() ==> attempt_faulted(#[trigger] attempts[i]),
            invariant
                m0 == old(self).view(),
                forall|i: int| 0 <= i < report.restarts ==> #[trigger] decision_at(m0, times, i) is Restart,
                report.attempts <= max_attempts,
                self.view().fault_count <= init_faults + report.attempts,
                init_faults + max_attempts < u32::MAX,
                self.view().policy == old(self).view().policy,
                forall|f: F| #[trigger] call_requires(f, ()),
                backends.len() == report.attempts,
                attempts.len() == report.attempts,
                forall|i: int| 0 <= i < attempts.len() ==> #[trigger] attempt_follows(backends, i, attempts[i], ticks_per_attempt),
                forall|i: int| 0 <= i < attempts.len() - 1 ==> attempt_faulted(#[trigger] attempts[i]),
                faulted_attempts(attempts) == report.restarts + (if report.disabled { 1int } else { 0 }),
            ensures
                report.attempts <= max_attempts,
                max_attempts > 0 ==> report.attempts >= 1,
                self.view().policy == old(self).view().policy,
                report.disabled ==> !clean && report.restarts + 1 == report.attempts
                    && self.view().state == RunnerState::Disabled,
                !report.disabled && clean ==> report.restarts + 1 == report.attempts,
                !report.disabled && !clean ==> report.restarts == report.attempts && report.attempts == max_attempts,
                times.len() == report.restarts + (if report.disabled { 1int } else { 0 }),
                report.disabled ==> decision_at(m0, times, times.len() - 1) is Disable,
                self.view() == (if clean { clean_run(supervised_faults(m0, times)) } else { supervised_faults(m0, times) }),
                backends.len() == report.attempts,
                attempts.len() == report.attempts,
                forall|i: int| 0 <= i < attempts.len() ==> #[trigger] attempt_follows(backends, i, attempts[i], ticks_per_attempt),
                forall|i: int| 0 <= i < attempts.len() - 1 ==> attempt_faulted(#[trigger] attempts[i]),
                faulted_attempts(attempts) == report.restarts + (if report.disabled { 1int } else { 0 }),
            decreases max_attempts - report.attempts,
        {
            report.attempts = report.attempts + 1;
            let backend = make();
            let ghost built = backend;
            let loaded_r = backend.load();
            let ghost lr = loaded_r;
            let ghost hb = as_held(built);
            assert((*hb.unit).load_result(lr));
            let loaded = match loaded_r {
                Ok(l) => l,
                Err(_) => {
                    let ghost m = self.view();
                    let ghost rep = report;
                    let tripped = self.on_fault(&mut report);
                    proof {
                        let now = choose|now: u64| #[trigger] fault_effect(m, rep, now, tripped, self.view(), report);
                        lemma_record_fault(m0, times, now);
                        times = times.push(now);
                        let rec = AttemptRecord { load: lr, started: None, ticks: Seq::empty() };
                        lemma_record_attempt(backends, attempts, hb, rec, ticks_per_attempt);
                        backends = backends.push(hb);
                        attempts = attempts.push(rec);
                    }
                    if tripped {
                        break;
                    }
                    continue;
                },
            };
            self.supervisor.on_loaded();
            let bound = loaded.bind(host);
            let mut running = bound.start(host);
            let ghost started = running;
            assert(starts_from(loaded, started));
            self.supervisor.on_started();
            let faulted = drive_attempt(&mut running, host, ticks_per_attempt);
            let ghost trace = choose|trace: Seq<(TickOutcomeView, RunningRunner<H>)>| {
                &&& attempt_ticks(started, trace, ticks_per_attempt)
                &&& faulted == ticks_faulted(trace)
                &&& running == after_ticks(started, trace)
            };
            let ghost rec = AttemptRecord { load: lr, started: Some(started), ticks: trace };
            proof {
                lemma_record_attempt(backends, attempts, hb, rec, ticks_per_attempt);
                backends = backends.push(hb);
                attempts = attempts.push(rec);
            }
            if faulted {
                let ghost m = self.view();
                let ghost rep = report;
                let tripped = self.on_fault(&mut report);
                proof {
                    let now = choose|now: u64| #[trigger] fault_effect(m, rep, now, tripped, self.view(), report);
                    lemma_fault_after_lifecycle(supervised_faults(m0, times), now);
                    lemma_record_fault(m0, times, now);
                    times = times.push(now);
                }
                if tripped {
                    break;
                }
            } else {
                let _stopped = running.stop(host);
                self.supervisor.on_stopped();
                clean = true;
                break;
            }
        }
        report.last_state = self.supervisor.state();
        report
    }
}

/// Recording one more attempt keeps what held of the earlier ones, and the
/// fault count grows by one exactly when the new attempt is a fault.
proof fn lemma_record_attempt<H: HostApi + ?Sized>(
    backends: Seq<Held<Box<dyn RunnerBackend<H>>>>,
    attempts: Seq<AttemptRecord<H>>,
    b: Held<Box<dyn RunnerBackend<H>>>,
    a: AttemptRecord<H>,
    ticks: u32,
)
    requires
        backends.len() == attempts.len(),
        forall|i: int| 0 <= i < attempts.len() ==> #[trigger] attempt_follows(backends, i, attempts[i], ticks),
        (*b.unit).load_result(a.load),
        match a.load {
            Ok(l) => a.started matches Some(s) && starts_from(l, s) && attempt_ticks(s, a.ticks, ticks),
            Err(_) => a.started is None && a.ticks.len() == 0,
        },
    ensures
        forall|i: int| 0 <= i < attempts.len() + 1 ==> #[trigger] attempt_follows(backends.push(b), i, attempts.push(a)[i], ticks),
        faulted_attempts(attempts.push(a)) == faulted_attempts(attempts) + if attempt_faulted(a) { 1int } else { 0 },
        forall|i: int| 0 <= i < attempts.len() ==> #[trigger] attempts.push(a)[i] == attempts[i],
        forall|i: int| 0 <= i < backends.len() ==> #[trigger] backends.push(b)[i] == backends[i],
        backends.push(b)[backends.len() as int] == b,
        attempts.push(a)[attempts.len() as int] == a,
{
    let bs = backends.push(b);
    let xs = attempts.push(a);
    assert forall|i: int| 0 <= i < attempts.len() + 1 implies #[trigger] attempt_follows(bs, i, xs[i], ticks) by {
        if i < attempts.len() {
            assert(bs[i] == backends[i]);
            assert(xs[i] == attempts[i]);
            assert(attempt_follows(backends, i, attempts[i], ticks));
        } else {
            assert(bs[i] == b);
            assert(xs[i] == a);
        }
    }
    assert(xs.drop_last() =~= attempts);
}

} // verus!
