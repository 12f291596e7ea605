//! [`MockRunnerBackend`] — the in-process harness: it hands a caller-supplied
//! execution unit to the typestate at `load`. It runs in-process and is never
//! wired into a live engine.

use crate::behavior::node::Timing;
use crate::runner::backend::{held, Held, LoadedRunner, RunnerBackend};
use crate::runner::execution::ExecutionUnit;
use crate::runner::host::HostApi;
use crate::runner::{Capabilities, RunnerError, RunnerKind, TickOutcomeView};
use vstd::prelude::*;

verus! {

#[verifier::reject_recursive_types(H)]
pub struct MockRunnerBackend<H: HostApi + ?Sized> {
    unit: Held<Box<dyn ExecutionUnit<H>>>,
}

impl<H: HostApi + ?Sized> MockRunnerBackend<H> {
    /// The capabilities the supplied unit requests.
    pub closed spec fn spec_caps(&self) -> Capabilities {
        (*self.unit.unit).declared_caps()
    }

    /// The signal names the supplied unit publishes.
    pub closed spec fn spec_publishes(&self) -> Seq<Seq<char>> {
        (*self.unit.unit).declared_publishes()
    }

    /// The signal names the supplied unit consumes.
    pub closed spec fn spec_consumes(&self) -> Seq<Seq<char>> {
        (*self.unit.unit).declared_consumes()
    }

    /// Whether the supplied unit's first step after a start may report
    /// `outcome` at `timing`.
    pub closed spec fn may_report_after_start(&self, timing: Timing, outcome: TickOutcomeView) -> bool {
        (*self.unit.unit).may_report_after_start(timing, outcome)
    }

    /// What the loaded state over the supplied unit is: an in-process runner
    /// that declares what the unit declares and whose first step after a
    /// start reports what the unit's would.
    pub open spec fn loads(&self, l: LoadedRunner<H>) -> bool {
        &&& l.spec_kind() == RunnerKind::InProcessRust
        &&& l.spec_caps() == self.spec_caps()
        &&& l.spec_publishes() == self.spec_publishes()
        &&& l.spec_consumes() == self.spec_consumes()
        &&& forall|t: Timing, o: TickOutcomeView| #[trigger] l.may_report_after_start(t, o)
            == self.may_report_after_start(t, o)
    }

    /// Drive a caller-supplied unit.
    pub fn with_unit(unit: Box<dyn ExecutionUnit<H>>) -> (r: Self)
        ensures
            r.spec_caps() == (*unit).declared_caps(),
            r.spec_publishes() == (*unit).declared_publishes(),
            r.spec_consumes() == (*unit).declared_consumes(),
            forall|t: Timing, o: TickOutcomeView| #[trigger] r.may_report_after_start(t, o)
                == (*unit).may_report_after_start(t, o),
    {
        let ghost u = unit;
        let h = held(unit);
        let r = MockRunnerBackend { unit: h };
        assert(r.unit.unit == u);
        assert(forall|t: Timing, o: TickOutcomeView| #[trigger] r.may_report_after_start(t, o)
            == (*u).may_report_after_start(t, o));
        r
    }

    /// The loaded state over the supplied unit, as an in-process runner.
    pub fn into_loaded(self) -> (r: LoadedRunner<H>)
        ensures
            self.loads(r),
    {
        let r = LoadedRunner::from_held(RunnerKind::InProcessRust, self.unit);
        assert(forall|t: Timing, o: TickOutcomeView| #[trigger] r.may_report_after_start(t, o)
            == self.may_report_after_start(t, o));
        r
    }
}

/// A mock backend is an in-process runner; `load` never fails
/// ([`MockRunnerBackend::into_loaded`]).
impl<H: HostApi + ?Sized> RunnerBackend<H> for MockRunnerBackend<H> {
    open spec fn spec_kind(&self) -> RunnerKind {
        RunnerKind::InProcessRust
    }

    fn kind(&self) -> (r: RunnerKind)
        ensures
            r == RunnerKind::InProcessRust,
    {
        RunnerKind::InProcessRust
    }

    open spec fn load_result(&self, r: Result<LoadedRunner<H>, RunnerError>) -> bool {
        r matches Ok(l) && self.loads(l)
    }

    fn load(self: Box<Self>) -> (r: Result<LoadedRunner<H>, RunnerError>)
        ensures
            r is Ok && (*self).loads(r->Ok_0),
    {
        Ok((*self).into_loaded())
    }
}

} // verus!
