//! [`ExecutionUnit`] — the work behind a runner, neutral about what does the
//! work (a behavior in process, an in-process fake, or a child process) —
//! with [`BehaviorExecutionUnit`], which drives a [`BehaviorNode`] through a
//! host, and [`MockExecutionUnit`], a scripted unit for lifecycle tests: it
//! records start/stop, counts runs, exercises the host surface and can be
//! told to fault after N runs.

use crate::addon::schema::{ParamMap, ParamSpec, ParamValueView};
use crate::behavior::node::{BehaviorCtx, BehaviorNode, BehaviorStartCtx, Timing};
use crate::behavior::BehaviorInit;
use crate::fbits::{f32_bits_from_u32, f32_bits_of_nat};
use crate::runner::host::{FrameTier, HostApi};
use crate::runner::{no_capabilities, Capabilities, TickOutcome, TickOutcomeView};
use crate::signal::{zero_value, SignalId, SignalKind, SignalSchema, SignalSpec, SignalValue};
use std::collections::BTreeMap;
use vstd::prelude::*;

verus! {

/// What a unit declares about itself, independent of any host.
pub trait UnitDeclaration {
    /// The signal names this unit publishes.
    spec fn declared_publishes(&self) -> Seq<Seq<char>>;

    /// The signal names this unit consumes.
    spec fn declared_consumes(&self) -> Seq<Seq<char>>;

    /// The capabilities this unit requests.
    spec fn declared_caps(&self) -> Capabilities;

    /// Signal names this unit publishes (resolved to ids at bind).
    fn publishes(&self) -> (r: &[String])
        ensures
            r@.map_values(|s: String| s@) == self.declared_publishes(),
    ;

    /// Signal names this unit consumes.
    fn consumes(&self) -> (r: &[String])
        ensures
            r@.map_values(|s: String| s@) == self.declared_consumes(),
    ;

    /// Capabilities the unit requests (a declaration only).
    fn caps(&self) -> (r: Capabilities)
        ensures
            r == self.declared_caps(),
    ;
}

/// The work behind a runner, driving a host of type `H`. Each
/// implementation states what its steps report ([`may_report`]) and what a
/// first step after a start may report ([`may_report_after_start`]); the
/// trait ties the lifecycle calls to them: a bind and a stop leave what a
/// start would lead to unchanged, a start leads to it, and a step reports
/// what the current state allows.
///
/// [`may_report`]: ExecutionUnit::may_report
/// [`may_report_after_start`]: ExecutionUnit::may_report_after_start
pub trait ExecutionUnit<H: HostApi + ?Sized>: UnitDeclaration {
    /// Whether one step from this unit's current state, at `timing`, may
    /// report `outcome`.
    spec fn may_report(&self, timing: Timing, outcome: TickOutcomeView) -> bool;

    /// Whether the first step after a start from this state, at `timing`,
    /// may report `outcome`.
    spec fn may_report_after_start(&self, timing: Timing, outcome: TickOutcomeView) -> bool;

    /// Host setup at bind.
    fn bind(&mut self, host: &mut H)
        ensures
            forall|t: Timing, o: TickOutcomeView| #[trigger] final(self).may_report_after_start(t, o)
                == old(self).may_report_after_start(t, o),
    ;

    /// Begin: resolve ids, warm up.
    fn start(&mut self, host: &mut H)
        ensures
            forall|t: Timing, o: TickOutcomeView| #[trigger] final(self).may_report(t, o)
                ==> old(self).may_report_after_start(t, o),
            forall|t: Timing, o: TickOutcomeView| #[trigger] final(self).may_report_after_start(t, o)
                == old(self).may_report_after_start(t, o),
    ;

    /// One step of work.
    fn run(&mut self, host: &mut H, timing: Timing) -> (r: TickOutcome)
        ensures
            old(self).may_report(timing, r@),
    ;

    /// Release.
    fn stop(&mut self, host: &mut H)
        ensures
            forall|t: Timing, o: TickOutcomeView| #[trigger] final(self).may_report_after_start(t, o)
                == old(self).may_report_after_start(t, o),
    ;
}

/// No two declared signals share a name.
pub open spec fn names_distinct(specs: Seq<SignalSpec>) -> bool {
    forall|a: int, b: int| 0 <= a < specs.len() && 0 <= b < specs.len() && a != b ==> specs[a].name@ != specs[b].name@
}

/// Whether no two declared signals share a name.
pub fn check_names_distinct(specs: &[SignalSpec]) -> (r: bool)
    ensures
        r == names_distinct(specs@),
{
    let mut a: usize = 0;
    while a < specs.len()
        invariant
            a <= specs@.len(),
            forall|x: int, y: int| 0 <= x < a && 0 <= y < specs@.len() && x != y ==> specs@[x].name@ != specs@[y].name@,
        decreases specs@.len() - a,
    {
        let mut b: usize = 0;
        while b < specs.len()
            invariant
                a < specs@.len(),
                b <= specs@.len(),
                forall|x: int, y: int| 0 <= x < a && 0 <= y < specs@.len() && x != y ==> specs@[x].name@ != specs@[y].name@,
                forall|y: int| 0 <= y < b && a != y ==> specs@[a as int].name@ != specs@[y].name@,
            decreases specs@.len() - b,
        {
            if a != b && crate::text::str_eq(specs[a].name.as_str(), specs[b].name.as_str()) {
                return false;
            }
            b = b + 1;
        }
        a = a + 1;
    }
    true
}

/// The unit's own slot values after applying `staged` in order (last write
/// wins; an id outside the slots is ignored).
pub open spec fn apply_staged(values: Seq<SignalValue>, staged: Seq<(SignalId, SignalValue)>) -> Seq<SignalValue>
    decreases staged.len(),
{
    if staged.len() == 0 {
        values
    } else {
        let before = apply_staged(values, staged.drop_last());
        let (id, v) = staged.last();
        if id.0 < before.len() { before.update(id.0 as int, v) } else { before }
    }
}

/// Drives a [`BehaviorNode`] through a host: the node stages into the
/// unit's own slots (one per signal it publishes); after each update every
/// slot's latest value is mirrored onto the host under the slot's id.
pub struct BehaviorExecutionUnit {
    node: Box<dyn BehaviorNode>,
    publishes: Vec<String>,
    consumes: Vec<String>,
    schema: SignalSchema,
    values: Vec<SignalValue>,
    specs: BTreeMap<String, ParamSpec>,
    config: ParamMap,
}

/// One step of a behavior unit, from `m` to `n`: the slots take what the
/// node staged; the names and configuration stay.
pub open spec fn behavior_ran(m: BehaviorUnitModel, n: BehaviorUnitModel) -> bool {
    &&& exists|staged: Seq<(SignalId, SignalValue)>| n.values == apply_staged(m.values, staged)
    &&& n.publishes == m.publishes
    &&& n.names == m.names
    &&& n.config == m.config
}

/// What a behavior unit holds apart from the node.
pub struct BehaviorUnitModel {
    pub publishes: Seq<Seq<char>>,
    pub names: Seq<Seq<char>>,
    pub values: Seq<SignalValue>,
    pub config: Map<Seq<char>, ParamValueView>,
}

impl View for BehaviorExecutionUnit {
    type V = BehaviorUnitModel;

    closed spec fn view(&self) -> BehaviorUnitModel {
        BehaviorUnitModel {
            publishes: self.publishes@.map_values(|s: String| s@),
            names: self.schema.names(),
            values: self.values@,
            config: self.config.spec_map(),
        }
    }
}

fn apply_one(values: &mut Vec<SignalValue>, id: SignalId, v: SignalValue)
    ensures
        final(values)@ == (if id.0 < old(values)@.len() { old(values)@.update(id.0 as int, v) } else { old(values)@ }),
{
    if id.0 < values.len() {
        values.set(id.0, v);
    }
}

impl BehaviorExecutionUnit {
    /// Build from a behavior's init: the node moves into the unit; its own
    /// slots are the signals it publishes, in order, starting at zero.
    pub fn from_init(init: BehaviorInit) -> (r: Self)
        requires
            names_distinct(init.publish@),
        ensures
            r@.publishes == init.publish@.map_values(|s: SignalSpec| s.name@),
            r@.names == init.publish@.map_values(|s: SignalSpec| s.name@),
            r@.values == init.publish@.map_values(|s: SignalSpec| zero_value(s.kind)),
            r@.config == init.values.spec_map(),
    {
        let schema = SignalSchema::from_specs(init.publish.as_slice());
        proof { schema.lemma_lengths(); }
        let values = schema.zero_values();
        let mut publishes: Vec<String> = Vec::new();
        let mut i: usize = 0;
        while i < init.publish.len()
            invariant
                i <= init.publish@.len(),
                publishes@.len() == i,
                forall|k: int| 0 <= k < i ==> (#[trigger] publishes@[k])@ == init.publish@[k].name@,
            decreases init.publish@.len() - i,
        {
            publishes.push(init.publish[i].name.clone());
            i = i + 1;
        }
        let r = BehaviorExecutionUnit {
            node: init.node,
            publishes,
            consumes: Vec::new(),
            schema,
            values,
            specs: init.specs,
            config: init.values,
        };
        assert(r@.publishes =~= init.publish@.map_values(|s: SignalSpec| s.name@));
        assert(r@.values =~= init.publish@.map_values(|s: SignalSpec| zero_value(s.kind)));
        r
    }
}

impl UnitDeclaration for BehaviorExecutionUnit {
    open spec fn declared_publishes(&self) -> Seq<Seq<char>> {
        self@.publishes
    }

    open spec fn declared_consumes(&self) -> Seq<Seq<char>> {
        Seq::empty()
    }

    open spec fn declared_caps(&self) -> Capabilities {
        no_capabilities()
    }

    fn publishes(&self) -> (r: &[String])
        ensures
            r@.map_values(|s: String| s@) == self@.publishes,
    {
        self.publishes.as_slice()
    }

    fn consumes(&self) -> (r: &[String])
        ensures
            r@.len() == 0,
    {
        &[]
    }

    fn caps(&self) -> (r: Capabilities)
        ensures
            r == no_capabilities(),
    {
        Capabilities::default()
    }
}

impl<H: HostApi + ?Sized> ExecutionUnit<H> for BehaviorExecutionUnit {
    /// A behavior step always completes.
    open spec fn may_report(&self, timing: Timing, outcome: TickOutcomeView) -> bool {
        outcome == TickOutcomeView::Completed
    }

    open spec fn may_report_after_start(&self, timing: Timing, outcome: TickOutcomeView) -> bool {
        outcome == TickOutcomeView::Completed
    }

    fn bind(&mut self, host: &mut H)
        ensures
            final(self)@ == old(self)@,
    {
    }

    /// Start the node with the unit's schema and configuration.
    fn start(&mut self, host: &mut H)
        ensures
            final(self)@ == old(self)@,
    {
        let mut ctx = BehaviorStartCtx::new(&self.schema, &self.config);
        self.node.start(&mut ctx);
    }

    /// Update the node (no frame), fold what it staged into the unit's own
    /// slots, and publish every slot's value onto the host under its id.
    fn run(&mut self, host: &mut H, timing: Timing) -> (r: TickOutcome)
        ensures
            r is Completed,
            behavior_ran(old(self)@, final(self)@),
    {
        let mut ctx = BehaviorCtx::new(None, &self.config, timing);
        self.node.update(&mut ctx);
        let staged = ctx.into_staged();
        let ghost v0 = self.values@;
        assert(v0 == old(self)@.values);
        let mut i: usize = 0;
        while i < staged.len()
            invariant
                i <= staged@.len(),
                self.values@ == apply_staged(v0, staged@.subrange(0, i as int)),
                self@.publishes == old(self)@.publishes,
                self@.names == old(self)@.names,
                self@.config == old(self)@.config,
            decreases staged@.len() - i,
        {
            let (id, v) = staged[i];
            apply_one(&mut self.values, id, v);
            assert(staged@.subrange(0, i + 1).drop_last() =~= staged@.subrange(0, i as int));
            i = i + 1;
        }
        assert(staged@.subrange(0, staged@.len() as int) =~= staged@);
        assert(self@.values == apply_staged(old(self)@.values, staged@));
        let mut k: usize = 0;
        while k < self.values.len()
            invariant
                k <= self.values@.len(),
                self@.values == apply_staged(old(self)@.values, staged@),
                self@.publishes == old(self)@.publishes,
                self@.names == old(self)@.names,
                self@.config == old(self)@.config,
            decreases self.values@.len() - k,
        {
            host.publish(SignalId(k), self.values[k]);
            k = k + 1;
        }
        TickOutcome::Completed
    }

    /// Stop the node.
    fn stop(&mut self, host: &mut H)
        ensures
            final(self)@ == old(self)@,
    {
        self.node.stop();
    }
}

pub struct MockExecutionUnit {
    pub publishes: Vec<String>,
    pub caps: Capabilities,
    pub started: bool,
    pub stopped: bool,
    pub runs: u32,
    pub fault_after: Option<u32>,
    /// The calls made on the host by every run so far, in order.
    pub host_calls: Ghost<Seq<MockHostCall>>,
}

/// A call a mock run makes on its host.
pub enum MockHostCall {
    Heartbeat,
    Timing,
    Metrics,
    RequestFrame(FrameTier),
    /// `subscribe` of the first declared name.
    SubscribeFirst,
    Publish(SignalId, SignalValue),
}

/// The host calls of one mock run that brings the run count to `runs`:
/// heartbeat, timing, metrics, a 320×180 frame request, then, when `names`
/// (the declared names) is not empty, the first one's subscription and, when it resolved (`resolved`), a publish
/// of the run count as an `f32`.
pub open spec fn mock_run_calls(names: Seq<String>, resolved: Option<SignalId>, runs: u32) -> Seq<MockHostCall> {
    seq![MockHostCall::Heartbeat, MockHostCall::Timing, MockHostCall::Metrics, MockHostCall::RequestFrame(FrameTier::R320x180)]
        + if names.len() > 0 {
            seq![MockHostCall::SubscribeFirst] + match resolved {
                Some(id) => seq![MockHostCall::Publish(id, SignalValue::F32(f32_bits_of_nat(runs as nat) as u32))],
                None => Seq::empty(),
            }
        } else {
            Seq::empty()
        }
}

/// How the host resolves the first declared signal, if there is one.
pub open spec fn mock_first_resolution<H: HostApi + ?Sized>(host: &H, publishes: Seq<String>) -> Option<SignalId> {
    if publishes.len() > 0 {
        host.resolves(publishes[0]@)
    } else {
        None
    }
}

/// Whether a mock that has now made `runs` runs reports a fault.
pub open spec fn mock_faults(fault_after: Option<u32>, runs: u32) -> bool {
    match fault_after {
        Some(n) => runs > n,
        None => false,
    }
}

impl MockExecutionUnit {
    pub fn new(publishes: Vec<String>) -> (r: Self)
        ensures
            r.publishes == publishes,
            r.caps == no_capabilities(),
            !r.started,
            !r.stopped,
            r.runs == 0,
            r.fault_after is None,
            r.host_calls@ == Seq::<MockHostCall>::empty(),
    {
        MockExecutionUnit {
            publishes,
            caps: Capabilities::default(),
            started: false,
            stopped: false,
            runs: 0,
            fault_after: None,
            host_calls: Ghost(Seq::empty()),
        }
    }

    /// Fault on every run after the `runs`-th.
    pub fn faulting_after(self, runs: u32) -> (r: Self)
        ensures
            r == (MockExecutionUnit { fault_after: Some(runs), ..self }),
    {
        MockExecutionUnit { fault_after: Some(runs), ..self }
    }

    pub fn with_caps(self, caps: Capabilities) -> (r: Self)
        ensures
            r == (MockExecutionUnit { caps, ..self }),
    {
        MockExecutionUnit { caps, ..self }
    }
}

impl UnitDeclaration for MockExecutionUnit {
    open spec fn declared_publishes(&self) -> Seq<Seq<char>> {
        self.publishes@.map_values(|s: String| s@)
    }

    open spec fn declared_consumes(&self) -> Seq<Seq<char>> {
        Seq::empty()
    }

    open spec fn declared_caps(&self) -> Capabilities {
        self.caps
    }

    fn publishes(&self) -> (r: &[String])
        ensures
            r@ == self.publishes@,
    {
        self.publishes.as_slice()
    }

    fn consumes(&self) -> (r: &[String])
        ensures
            r@.len() == 0,
    {
        &[]
    }

    fn caps(&self) -> (r: Capabilities)
        ensures
            r == self.caps,
    {
        self.caps
    }
}

impl<H: HostApi + ?Sized> ExecutionUnit<H> for MockExecutionUnit {
    /// A fault once the (wrapping) run count passes the limit, otherwise
    /// completion.
    open spec fn may_report(&self, timing: Timing, outcome: TickOutcomeView) -> bool {
        let runs: u32 = if self.runs == u32::MAX { 0 } else { (self.runs + 1) as u32 };
        outcome == (if mock_faults(self.fault_after, runs) {
            TickOutcomeView::Faulted("mock fault"@)
        } else {
            TickOutcomeView::Completed
        })
    }

    /// A start changes nothing a step reports.
    open spec fn may_report_after_start(&self, timing: Timing, outcome: TickOutcomeView) -> bool {
        ExecutionUnit::<H>::may_report(self, timing, outcome)
    }

    fn bind(&mut self, host: &mut H)
        ensures
            *final(self) == *old(self),
    {
    }

    fn start(&mut self, host: &mut H)
        ensures
            *final(self) == (MockExecutionUnit { started: true, ..*old(self) }),
    {
        self.started = true;
    }

    /// Count the run (wrapping at `u32::MAX`), exercise the host surface
    /// (heartbeat, timing, metrics, a frame request, and a publish of the run
    /// count to the first declared signal when the host resolves it), and
    /// fault once the run count passes the configured limit.
    fn run(&mut self, host: &mut H, timing: Timing) -> (r: TickOutcome)
        ensures
            *final(self) == (MockExecutionUnit { runs: final(self).runs, host_calls: final(self).host_calls, ..*old(self) }),
            final(self).runs == (if old(self).runs == u32::MAX { 0 } else { (old(self).runs + 1) as u32 }),
            final(self).host_calls@ == old(self).host_calls@ + mock_run_calls(
                old(self).publishes@,
                mock_first_resolution(old(host), old(self).publishes@),
                final(self).runs,
            ),
            r@ == (if mock_faults(old(self).fault_after, final(self).runs) {
                crate::runner::TickOutcomeView::Faulted("mock fault"@)
            } else {
                crate::runner::TickOutcomeView::Completed
            }),
    {
        let ghost h0 = self.host_calls@;
        self.runs = self.runs.wrapping_add(1);
        host.heartbeat();
        let _t = host.timing();
        let _m = host.metrics();
        let _f = host.request_frame(FrameTier::R320x180);
        proof {
            self.host_calls@ = self.host_calls@ + seq![
                MockHostCall::Heartbeat,
                MockHostCall::Timing,
                MockHostCall::Metrics,
                MockHostCall::RequestFrame(FrameTier::R320x180),
            ];
        }
        let mut resolved: Option<SignalId> = None;
        if self.publishes.len() > 0 {
            proof { self.host_calls@ = self.host_calls@.push(MockHostCall::SubscribeFirst); }
            resolved = host.subscribe(self.publishes[0].as_str());
            if let Some(id) = resolved {
                let v = SignalValue::F32(f32_bits_from_u32(self.runs));
                host.publish(id, v);
                proof { self.host_calls@ = self.host_calls@.push(MockHostCall::Publish(id, v)); }
            }
        }
        assert(self.host_calls@ =~= h0 + mock_run_calls(self.publishes@, resolved, self.runs));
        let faulted = match self.fault_after {
            Some(n) => self.runs > n,
            None => false,
        };
        if faulted {
            TickOutcome::Faulted("mock fault".to_string())
        } else {
            TickOutcome::Completed
        }
    }

    fn stop(&mut self, host: &mut H)
        ensures
            *final(self) == (MockExecutionUnit { stopped: true, ..*old(self) }),
    {
        self.stopped = true;
    }
}

} // verus!
