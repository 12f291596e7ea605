//! [`RunnerBackend`] and the typestate lifecycle:
//!
//! ```text
//!   Box<dyn RunnerBackend>.load() ─▶ LoadedRunner
//!                          .bind(host) ─▶ BoundRunner   (handshake fixed)
//!                          .start(host) ─▶ RunningRunner
//!                          .tick(host, timing)* ─▶ TickOutcome
//!                          .stop(host) ─▶ StoppedRunner ─▶ start | unload
//! ```
//!
//! Illegal orderings (ticking what is not running, starting before binding)
//! are type errors. Each state owns the runner's execution unit: the
//! library's native and behavior units are held as they are, so what is
//! known of them carries through the lifecycle; any other unit is held
//! behind a `Box<dyn ExecutionUnit<H>>`.

use crate::behavior::node::Timing;
use crate::runner::execution::{behavior_ran, BehaviorExecutionUnit, BehaviorUnitModel, ExecutionUnit, UnitDeclaration};
use crate::runner::host::HostApi;
use crate::runner::native::backend::{native_ran, native_started, native_stopped, NativeExecutionUnit};
use crate::runner::{Capabilities, Handshake, RunnerError, RunnerKind, TickOutcome, TickOutcomeView, ABI_VERSION};
use crate::signal::SignalId;
use vstd::prelude::*;

verus! {

/// Produces a [`LoadedRunner`]; everything after `load` is a concrete
/// typestate value.
pub trait RunnerBackend<H: HostApi + ?Sized> {
    /// The kind of runner this backend produces.
    spec fn spec_kind(&self) -> RunnerKind;

    fn kind(&self) -> (r: RunnerKind)
        ensures
            r == self.spec_kind(),
    ;

    /// What `load` gives for this backend: each backend states its own.
    spec fn load_result(&self, r: Result<LoadedRunner<H>, RunnerError>) -> bool;

    /// Construct the execution unit and enter the loaded state; nothing runs.
    fn load(self: Box<Self>) -> (r: Result<LoadedRunner<H>, RunnerError>)
        ensures
            (*self).load_result(r),
    ;
}

/// A slot for a boxed unit. Moving a unit into it goes through [`held`],
/// whose contract keeps the unit's identity, so what a state says of its
/// unit is what was said of the unit handed in.
pub struct Held<T> {
    pub unit: T,
}

/// `unit` in a [`Held`] slot, in specifications.
pub open spec fn as_held<T>(unit: T) -> Held<T> {
    Held { unit }
}

/// `unit`, in a [`Held`] slot.
pub(crate) fn held<T>(unit: T) -> (r: Held<T>)
    ensures
        r.unit == unit,
{
    Held { unit }
}

/// The unit a runner drives.
#[verifier::reject_recursive_types(H)]
pub(crate) enum UnitSlot<H: HostApi + ?Sized> {
    Native(NativeExecutionUnit),
    Behavior(BehaviorExecutionUnit),
    Boxed(Held<Box<dyn ExecutionUnit<H>>>),
}

impl<H: HostApi + ?Sized> UnitSlot<H> {
    pub(crate) open spec fn declared_caps(&self) -> Capabilities {
        match self {
            UnitSlot::Native(u) => u.declared_caps(),
            UnitSlot::Behavior(u) => u.declared_caps(),
            UnitSlot::Boxed(b) => (*b.unit).declared_caps(),
        }
    }

    pub(crate) open spec fn declared_publishes(&self) -> Seq<Seq<char>> {
        match self {
            UnitSlot::Native(u) => u.declared_publishes(),
            UnitSlot::Behavior(u) => u.declared_publishes(),
            UnitSlot::Boxed(b) => (*b.unit).declared_publishes(),
        }
    }

    pub(crate) open spec fn declared_consumes(&self) -> Seq<Seq<char>> {
        match self {
            UnitSlot::Native(u) => u.declared_consumes(),
            UnitSlot::Behavior(u) => u.declared_consumes(),
            UnitSlot::Boxed(b) => (*b.unit).declared_consumes(),
        }
    }

    pub(crate) open spec fn may_report(&self, timing: Timing, outcome: TickOutcomeView) -> bool {
        match self {
            UnitSlot::Native(u) => ExecutionUnit::<H>::may_report(u, timing, outcome),
            UnitSlot::Behavior(u) => ExecutionUnit::<H>::may_report(u, timing, outcome),
            UnitSlot::Boxed(b) => (*b.unit).may_report(timing, outcome),
        }
    }

    pub(crate) open spec fn may_report_after_start(&self, timing: Timing, outcome: TickOutcomeView) -> bool {
        match self {
            UnitSlot::Native(u) => ExecutionUnit::<H>::may_report_after_start(u, timing, outcome),
            UnitSlot::Behavior(u) => ExecutionUnit::<H>::may_report_after_start(u, timing, outcome),
            UnitSlot::Boxed(b) => (*b.unit).may_report_after_start(timing, outcome),
        }
    }

    pub(crate) open spec fn native_unit(&self) -> Option<NativeExecutionUnit> {
        match self {
            UnitSlot::Native(u) => Some(*u),
            _ => None,
        }
    }

    pub(crate) open spec fn behavior_unit(&self) -> Option<BehaviorUnitModel> {
        match self {
            UnitSlot::Behavior(u) => Some(u@),
            _ => None,
        }
    }

    fn caps(&self) -> (r: Capabilities)
        ensures
            r == self.declared_caps(),
    {
        match self {
            UnitSlot::Native(u) => u.caps(),
            UnitSlot::Behavior(u) => u.caps(),
            UnitSlot::Boxed(b) => b.unit.caps(),
        }
    }

    fn publishes(&self) -> (r: &[String])
        ensures
            r@.map_values(|s: String| s@) == self.declared_publishes(),
    {
        match self {
            UnitSlot::Native(u) => u.publishes(),
            UnitSlot::Behavior(u) => u.publishes(),
            UnitSlot::Boxed(b) => b.unit.publishes(),
        }
    }

    fn consumes(&self) -> (r: &[String])
        ensures
            r@.map_values(|s: String| s@) == self.declared_consumes(),
    {
        match self {
            UnitSlot::Native(u) => u.consumes(),
            UnitSlot::Behavior(u) => u.consumes(),
            UnitSlot::Boxed(b) => b.unit.consumes(),
        }
    }

    fn bind(&mut self, host: &mut H)
        ensures
            forall|t: Timing, o: TickOutcomeView| #[trigger] final(self).may_report_after_start(t, o)
                == old(self).may_report_after_start(t, o),
            final(self).native_unit() == old(self).native_unit(),
            final(self).behavior_unit() == old(self).behavior_unit(),
    {
        match self {
            UnitSlot::Native(u) => u.bind(host),
            UnitSlot::Behavior(u) => u.bind(host),
            UnitSlot::Boxed(b) => b.unit.bind(host),
        }
    }

    fn start(&mut self, host: &mut H)
        ensures
            forall|t: Timing, o: TickOutcomeView| #[trigger] final(self).may_report(t, o)
                ==> old(self).may_report_after_start(t, o),
            forall|t: Timing, o: TickOutcomeView| #[trigger] final(self).may_report_after_start(t, o)
                == old(self).may_report_after_start(t, o),
            old(self).native_unit() matches Some(u) ==> (final(self).native_unit() matches Some(v) && native_started(u, v)),
            old(self).native_unit() is None ==> final(self).native_unit() is None,
            final(self).behavior_unit() == old(self).behavior_unit(),
    {
        match self {
            UnitSlot::Native(u) => u.start(host),
            UnitSlot::Behavior(u) => u.start(host),
            UnitSlot::Boxed(b) => b.unit.start(host),
        }
    }

    fn run(&mut self, host: &mut H, timing: Timing) -> (r: TickOutcome)
        ensures
            old(self).may_report(timing, r@),
            old(self).native_unit() matches Some(u) ==> (final(self).native_unit() matches Some(v) && native_ran(u, timing, r@, v)),
            old(self).native_unit() is None ==> final(self).native_unit() is None,
            old(self).behavior_unit() matches Some(m) ==> (final(self).behavior_unit() matches Some(n) && behavior_ran(m, n)),
            old(self).behavior_unit() is None ==> final(self).behavior_unit() is None,
    {
        match self {
            UnitSlot::Native(u) => u.run(host, timing),
            UnitSlot::Behavior(u) => u.run(host, timing),
            UnitSlot::Boxed(b) => b.unit.run(host, timing),
        }
    }

    fn stop(&mut self, host: &mut H)
        ensures
            forall|t: Timing, o: TickOutcomeView| #[trigger] final(self).may_report_after_start(t, o)
                == old(self).may_report_after_start(t, o),
            old(self).native_unit() matches Some(u) ==> (final(self).native_unit() matches Some(v) && native_stopped(u, v)),
            old(self).native_unit() is None ==> final(self).native_unit() is None,
            final(self).behavior_unit() == old(self).behavior_unit(),
    {
        match self {
            UnitSlot::Native(u) => u.stop(host),
            UnitSlot::Behavior(u) => u.stop(host),
            UnitSlot::Boxed(b) => b.unit.stop(host),
        }
    }
}

/// Loaded: the unit exists, nothing has run, no host is bound.
#[verifier::reject_recursive_types(H)]
pub struct LoadedRunner<H: HostApi + ?Sized> {
    kind: RunnerKind,
    caps: Capabilities,
    publishes: Vec<String>,
    consumes: Vec<String>,
    slot: UnitSlot<H>,
}

/// A copy of `names`.
fn copy_names(names: &[String]) -> (r: Vec<String>)
    ensures
        r@.map_values(|s: String| s@) == names@.map_values(|s: String| s@),
{
    let mut out: Vec<String> = Vec::new();
    let mut i: usize = 0;
    while i < names.len()
        invariant
            i <= names@.len(),
            out@.len() == i,
            forall|k: int| 0 <= k < i ==> (#[trigger] out@[k])@ == names@[k]@,
        decreases names@.len() - i,
    {
        out.push(names[i].clone());
        i = i + 1;
    }
    assert(out@.map_values(|s: String| s@) =~= names@.map_values(|s: String| s@));
    out
}

/// The ids among `replies`, in order, skipping the names that did not
/// resolve.
pub open spec fn resolved_ids(replies: Seq<Option<SignalId>>) -> Seq<SignalId>
    decreases replies.len(),
{
    if replies.len() == 0 {
        Seq::empty()
    } else {
        let before = resolved_ids(replies.drop_last());
        match replies.last() {
            Some(id) => before.push(id),
            None => before,
        }
    }
}

/// How each of `names` resolves on `host`.
pub open spec fn resolutions<H: HostApi + ?Sized>(host: &H, names: Seq<Seq<char>>) -> Seq<Option<SignalId>> {
    names.map_values(|n: Seq<char>| host.resolves(n))
}

/// The ids the host resolved for `names`, in order, skipping the names it did
/// not resolve.
fn resolve_all<H: HostApi + ?Sized>(host: &mut H, names: &[String]) -> (r: Vec<SignalId>)
    ensures
        r@ == resolved_ids(resolutions(old(host), names@.map_values(|s: String| s@))),
        forall|n: Seq<char>| #[trigger] final(host).resolves(n) == old(host).resolves(n),
{
    let ghost views = names@.map_values(|s: String| s@);
    let mut out: Vec<SignalId> = Vec::new();
    let mut i: usize = 0;
    while i < names.len()
        invariant
            i <= names@.len(),
            views == names@.map_values(|s: String| s@),
            forall|n: Seq<char>| #[trigger] host.resolves(n) == old(host).resolves(n),
            out@ == resolved_ids(resolutions(old(host), views).subrange(0, i as int)),
        decreases names@.len() - i,
    {
        let reply = host.subscribe(names[i].as_str());
        proof {
            let all = resolutions(old(host), views);
            assert(all.subrange(0, i + 1).drop_last() =~= all.subrange(0, i as int));
            assert(all.subrange(0, i + 1).last() == reply);
        }
        if let Some(id) = reply {
            out.push(id);
        }
        i = i + 1;
    }
    proof {
        let all = resolutions(old(host), views);
        assert(all.subrange(0, names@.len() as int) =~= all);
    }
    out
}

impl<H: HostApi + ?Sized> LoadedRunner<H> {
    /// Enter the loaded state with `unit`; the requested capabilities are
    /// read from the unit once, here.
    pub fn new(kind: RunnerKind, unit: Box<dyn ExecutionUnit<H>>) -> (r: Self)
        ensures
            r.spec_kind() == kind,
            r.spec_caps() == (*unit).declared_caps(),
            r.spec_publishes() == (*unit).declared_publishes(),
            r.spec_consumes() == (*unit).declared_consumes(),
            forall|t: Timing, o: TickOutcomeView| #[trigger] r.may_report_after_start(t, o)
                == (*unit).may_report_after_start(t, o),
            r.native_unit() is None,
            r.behavior_unit() is None,
    {
        let ghost u = unit;
        let h = held(unit);
        assert(h.unit == u);
        Self::from_held(kind, h)
    }

    /// Enter the loaded state with the boxed unit in `slot`.
    pub(crate) fn from_held(kind: RunnerKind, slot: Held<Box<dyn ExecutionUnit<H>>>) -> (r: Self)
        ensures
            r.spec_kind() == kind,
            r.spec_caps() == (*slot.unit).declared_caps(),
            r.spec_publishes() == (*slot.unit).declared_publishes(),
            r.spec_consumes() == (*slot.unit).declared_consumes(),
            forall|t: Timing, o: TickOutcomeView| #[trigger] r.may_report_after_start(t, o)
                == (*slot.unit).may_report_after_start(t, o),
            r.native_unit() is None,
            r.behavior_unit() is None,
    {
        Self::from_slot(kind, UnitSlot::Boxed(slot))
    }

    /// Enter the loaded state with a native unit, held as it is.
    pub(crate) fn from_native(kind: RunnerKind, unit: NativeExecutionUnit) -> (r: Self)
        ensures
            r.spec_kind() == kind,
            r.spec_caps() == unit.declared_caps(),
            r.spec_publishes() == unit.declared_publishes(),
            r.spec_consumes() == unit.declared_consumes(),
            forall|t: Timing, o: TickOutcomeView| #[trigger] r.may_report_after_start(t, o)
                == ExecutionUnit::<H>::may_report_after_start(&unit, t, o),
            r.native_unit() == Some(unit),
            r.behavior_unit() is None,
    {
        Self::from_slot(kind, UnitSlot::Native(unit))
    }

    /// Enter the loaded state with a behavior unit, held as it is.
    pub(crate) fn from_behavior(kind: RunnerKind, unit: BehaviorExecutionUnit) -> (r: Self)
        ensures
            r.spec_kind() == kind,
            r.spec_caps() == unit.declared_caps(),
            r.spec_publishes() == unit.declared_publishes(),
            r.spec_consumes() == unit.declared_consumes(),
            forall|t: Timing, o: TickOutcomeView| #[trigger] r.may_report_after_start(t, o)
                == ExecutionUnit::<H>::may_report_after_start(&unit, t, o),
            r.native_unit() is None,
            r.behavior_unit() == Some(unit@),
    {
        Self::from_slot(kind, UnitSlot::Behavior(unit))
    }

    fn from_slot(kind: RunnerKind, slot: UnitSlot<H>) -> (r: Self)
        ensures
            r.spec_kind() == kind,
            r.slot == slot,
            r.spec_caps() == slot.declared_caps(),
            r.spec_publishes() == slot.declared_publishes(),
            r.spec_consumes() == slot.declared_consumes(),
    {
        let caps = slot.caps();
        let publishes = copy_names(slot.publishes());
        let consumes = copy_names(slot.consumes());
        LoadedRunner { kind, caps, publishes, consumes, slot }
    }

    pub closed spec fn spec_kind(&self) -> RunnerKind {
        self.kind
    }

    /// The published signal names the unit declared at load.
    pub closed spec fn spec_publishes(&self) -> Seq<Seq<char>> {
        self.publishes@.map_values(|s: String| s@)
    }

    /// The consumed signal names the unit declared at load.
    pub closed spec fn spec_consumes(&self) -> Seq<Seq<char>> {
        self.consumes@.map_values(|s: String| s@)
    }

    /// The capabilities recorded at load.
    pub closed spec fn spec_caps(&self) -> Capabilities {
        self.caps
    }

    /// Whether the unit's first step after a start may report `outcome` at
    /// `timing`.
    pub closed spec fn may_report_after_start(&self, timing: Timing, outcome: TickOutcomeView) -> bool {
        self.slot.may_report_after_start(timing, outcome)
    }

    /// The unit, when it is the library's native unit.
    pub closed spec fn native_unit(&self) -> Option<NativeExecutionUnit> {
        self.slot.native_unit()
    }

    /// The unit's state, when it is the library's behavior unit.
    pub closed spec fn behavior_unit(&self) -> Option<BehaviorUnitModel> {
        self.slot.behavior_unit()
    }

    pub fn kind(&self) -> (r: RunnerKind)
        ensures
            r == self.spec_kind(),
    {
        self.kind
    }

    /// Published signal names the unit declares.
    pub fn declares_publish(&self) -> (r: &[String])
        ensures
            r@.map_values(|s: String| s@) == self.spec_publishes(),
    {
        self.publishes.as_slice()
    }

    /// Bind the host: resolve the declared publish/consume names to ids and
    /// fix the handshake (ABI version, requested capabilities, resolved ids).
    /// The unit is bound too and keeps what a start would lead to.
    pub fn bind(self, host: &mut H) -> (r: BoundRunner<H>)
        ensures
            r.spec_kind() == self.spec_kind(),
            r.spec_handshake().version == ABI_VERSION,
            r.spec_handshake().caps == self.spec_caps(),
            r.spec_handshake().publish@ == resolved_ids(resolutions(old(host), self.spec_publishes())),
            r.spec_handshake().consume@ == resolved_ids(resolutions(old(host), self.spec_consumes())),
            forall|t: Timing, o: TickOutcomeView| #[trigger] r.may_report_after_start(t, o)
                == self.may_report_after_start(t, o),
            r.native_unit() == self.native_unit(),
            r.behavior_unit() == self.behavior_unit(),
    {
        let mut slot = self.slot;
        let publish = resolve_all(host, self.publishes.as_slice());
        assert(resolutions(&*host, self.spec_consumes()) =~= resolutions(old(host), self.spec_consumes()));
        let consume = resolve_all(host, self.consumes.as_slice());
        slot.bind(host);
        let handshake = Handshake { version: ABI_VERSION, caps: self.caps, publish, consume };
        BoundRunner { kind: self.kind, slot, handshake }
    }

    /// Discard without ever binding or running.
    pub fn unload(self) {
    }
}

/// Bound: a host is attached and the handshake is fixed; not yet running.
#[verifier::reject_recursive_types(H)]
pub struct BoundRunner<H: HostApi + ?Sized> {
    kind: RunnerKind,
    slot: UnitSlot<H>,
    handshake: Handshake,
}

impl<H: HostApi + ?Sized> BoundRunner<H> {
    pub closed spec fn spec_kind(&self) -> RunnerKind {
        self.kind
    }

    pub closed spec fn spec_handshake(&self) -> Handshake {
        self.handshake
    }

    /// Whether the unit's first step after a start may report `outcome` at
    /// `timing`.
    pub closed spec fn may_report_after_start(&self, timing: Timing, outcome: TickOutcomeView) -> bool {
        self.slot.may_report_after_start(timing, outcome)
    }

    /// The unit, when it is the library's native unit.
    pub closed spec fn native_unit(&self) -> Option<NativeExecutionUnit> {
        self.slot.native_unit()
    }

    /// The unit's state, when it is the library's behavior unit.
    pub closed spec fn behavior_unit(&self) -> Option<BehaviorUnitModel> {
        self.slot.behavior_unit()
    }

    pub fn kind(&self) -> (r: RunnerKind)
        ensures
            r == self.spec_kind(),
    {
        self.kind
    }

    pub fn handshake(&self) -> (r: &Handshake)
        ensures
            *r == self.spec_handshake(),
    {
        &self.handshake
    }

    /// Begin running: see [`starts_as`].
    pub fn start(self, host: &mut H) -> (r: RunningRunner<H>)
        ensures
            starts_as(self.spec_kind(), self.spec_handshake(), self.slot_view(), r),
    {
        let mut slot = self.slot;
        slot.start(host);
        RunningRunner { kind: self.kind, slot, handshake: self.handshake }
    }

    /// What the lifecycle knows of the unit before a start.
    pub open spec fn slot_view(&self) -> UnitBeforeStart {
        UnitBeforeStart {
            after_start: |t: Timing, o: TickOutcomeView| self.may_report_after_start(t, o),
            native: self.native_unit(),
            behavior: self.behavior_unit(),
        }
    }

    pub fn unload(self) {
    }
}

/// What the lifecycle knows of a unit that is about to start: what its first
/// step may report, and the unit itself when it is one of the library's.
pub struct UnitBeforeStart {
    pub after_start: spec_fn(Timing, TickOutcomeView) -> bool,
    pub native: Option<NativeExecutionUnit>,
    pub behavior: Option<BehaviorUnitModel>,
}

/// A start of a unit known as `before`, in a runner of `kind` with
/// `handshake`, giving `r`: the same kind and handshake; the next step
/// reports only what a first step after a start may; a native unit has run
/// its start ([`native_started`]); a behavior unit is as it was.
pub open spec fn starts_as<H: HostApi + ?Sized>(
    kind: RunnerKind,
    handshake: Handshake,
    before: UnitBeforeStart,
    r: RunningRunner<H>,
) -> bool {
    &&& r.spec_kind() == kind
    &&& r.spec_handshake() == handshake
    &&& forall|t: Timing, o: TickOutcomeView| #[trigger] r.may_report(t, o) ==> (before.after_start)(t, o)
    &&& forall|t: Timing, o: TickOutcomeView| #[trigger] r.may_report_after_start(t, o) == (before.after_start)(t, o)
    &&& before.native matches Some(u) ==> (r.native_unit() matches Some(v) && native_started(u, v))
    &&& before.native is None ==> r.native_unit() is None
    &&& r.behavior_unit() == before.behavior
}

/// `s` is `l` bound and started: the same kind; a handshake at this ABI
/// version with the capabilities recorded at load; a first step that reports
/// only what one after a start may; a native unit has run its start
/// ([`native_started`]); a behavior unit is as it was.
pub open spec fn starts_from<H: HostApi + ?Sized>(l: LoadedRunner<H>, s: RunningRunner<H>) -> bool {
    &&& s.spec_kind() == l.spec_kind()
    &&& s.spec_handshake().version == ABI_VERSION
    &&& s.spec_handshake().caps == l.spec_caps()
    &&& forall|t: Timing, o: TickOutcomeView| #[trigger] s.may_report(t, o) ==> l.may_report_after_start(t, o)
    &&& l.native_unit() matches Some(u) ==> (s.native_unit() matches Some(v) && native_started(u, v))
    &&& l.native_unit() is None ==> s.native_unit() is None
    &&& s.behavior_unit() == l.behavior_unit()
}

/// One tick of `before` at `timing` reporting `outcome` and leaving
/// `after`: the same kind and handshake; an outcome the unit allows; a
/// latched fault is reported and stays latched; a native unit has run one
/// step ([`native_ran`]) and a behavior unit one step ([`behavior_ran`]).
/// Opaque: `reveal(tick_follows)` to use its parts.
#[verifier::opaque]
pub open spec fn tick_follows<H: HostApi + ?Sized>(
    before: RunningRunner<H>,
    timing: Timing,
    outcome: TickOutcomeView,
    after: RunningRunner<H>,
) -> bool {
    &&& after.spec_kind() == before.spec_kind()
    &&& after.spec_handshake() == before.spec_handshake()
    &&& before.may_report(timing, outcome)
    &&& before.fault_latched() ==> outcome is Faulted && after.fault_latched()
    &&& before.native_unit() matches Some(u) ==> (after.native_unit() matches Some(v) && native_ran(u, timing, outcome, v))
    &&& before.native_unit() is None ==> after.native_unit() is None
    &&& before.behavior_unit() matches Some(m) ==> (after.behavior_unit() matches Some(n) && behavior_ran(m, n))
    &&& before.behavior_unit() is None ==> after.behavior_unit() is None
}

/// Running: the only state that can tick.
#[verifier::reject_recursive_types(H)]
pub struct RunningRunner<H: HostApi + ?Sized> {
    kind: RunnerKind,
    slot: UnitSlot<H>,
    handshake: Handshake,
}

impl<H: HostApi + ?Sized> RunningRunner<H> {
    pub closed spec fn spec_kind(&self) -> RunnerKind {
        self.kind
    }

    pub closed spec fn spec_handshake(&self) -> Handshake {
        self.handshake
    }

    /// Whether a step of the unit, from its current state at `timing`, may
    /// report `outcome`.
    pub closed spec fn may_report(&self, timing: Timing, outcome: TickOutcomeView) -> bool {
        self.slot.may_report(timing, outcome)
    }

    /// Whether the unit's first step after a start may report `outcome` at
    /// `timing`.
    pub closed spec fn may_report_after_start(&self, timing: Timing, outcome: TickOutcomeView) -> bool {
        self.slot.may_report_after_start(timing, outcome)
    }

    /// The unit, when it is the library's native unit.
    pub closed spec fn native_unit(&self) -> Option<NativeExecutionUnit> {
        self.slot.native_unit()
    }

    /// The unit's state, when it is the library's behavior unit.
    pub closed spec fn behavior_unit(&self) -> Option<BehaviorUnitModel> {
        self.slot.behavior_unit()
    }

    /// A fault has latched: the unit is a native one that is not (or no
    /// longer) started, so every later step reports a fault.
    pub open spec fn fault_latched(&self) -> bool {
        self.native_unit() matches Some(u) && !u.is_started()
    }

    pub fn kind(&self) -> (r: RunnerKind)
        ensures
            r == self.spec_kind(),
    {
        self.kind
    }

    pub fn handshake(&self) -> (r: &Handshake)
        ensures
            *r == self.spec_handshake(),
    {
        &self.handshake
    }

    /// One step of work; the outcome is the unit's ([`tick_follows`]).
    pub fn tick(&mut self, host: &mut H, timing: Timing) -> (r: TickOutcome)
        ensures
            tick_follows(*old(self), timing, r@, *final(self)),
            old(self).may_report(timing, r@),
            final(self).spec_kind() == old(self).spec_kind(),
            final(self).spec_handshake() == old(self).spec_handshake(),
    {
        let r = self.slot.run(host, timing);
        proof {
            reveal(tick_follows);
        }
        r
    }

    /// Pause, keeping the unit for a fast restart.
    pub fn stop(self, host: &mut H) -> (r: StoppedRunner<H>)
        ensures
            r.spec_kind() == self.spec_kind(),
            r.spec_handshake() == self.spec_handshake(),
            forall|t: Timing, o: TickOutcomeView| #[trigger] r.may_report_after_start(t, o)
                == self.may_report_after_start(t, o),
            self.native_unit() matches Some(u) ==> (r.native_unit() matches Some(v) && native_stopped(u, v)),
            self.native_unit() is None ==> r.native_unit() is None,
            r.behavior_unit() == self.behavior_unit(),
    {
        let mut slot = self.slot;
        slot.stop(host);
        StoppedRunner { kind: self.kind, slot, handshake: self.handshake }
    }
}

/// Stopped: paused but loaded; can restart or unload, not tick.
#[verifier::reject_recursive_types(H)]
pub struct StoppedRunner<H: HostApi + ?Sized> {
    kind: RunnerKind,
    slot: UnitSlot<H>,
    handshake: Handshake,
}

impl<H: HostApi + ?Sized> StoppedRunner<H> {
    pub closed spec fn spec_kind(&self) -> RunnerKind {
        self.kind
    }

    pub closed spec fn spec_handshake(&self) -> Handshake {
        self.handshake
    }

    /// Whether the unit's first step after a start may report `outcome` at
    /// `timing`.
    pub closed spec fn may_report_after_start(&self, timing: Timing, outcome: TickOutcomeView) -> bool {
        self.slot.may_report_after_start(timing, outcome)
    }

    /// The unit, when it is the library's native unit.
    pub closed spec fn native_unit(&self) -> Option<NativeExecutionUnit> {
        self.slot.native_unit()
    }

    /// The unit's state, when it is the library's behavior unit.
    pub closed spec fn behavior_unit(&self) -> Option<BehaviorUnitModel> {
        self.slot.behavior_unit()
    }

    /// What the lifecycle knows of the unit before a start.
    pub open spec fn slot_view(&self) -> UnitBeforeStart {
        UnitBeforeStart {
            after_start: |t: Timing, o: TickOutcomeView| self.may_report_after_start(t, o),
            native: self.native_unit(),
            behavior: self.behavior_unit(),
        }
    }

    pub fn kind(&self) -> (r: RunnerKind)
        ensures
            r == self.spec_kind(),
    {
        self.kind
    }

    pub fn handshake(&self) -> (r: &Handshake)
        ensures
            *r == self.spec_handshake(),
    {
        &self.handshake
    }

    /// Restart: see [`starts_as`].
    pub fn start(self, host: &mut H) -> (r: RunningRunner<H>)
        ensures
            starts_as(self.spec_kind(), self.spec_handshake(), self.slot_view(), r),
    {
        let mut slot = self.slot;
        slot.start(host);
        RunningRunner { kind: self.kind, slot, handshake: self.handshake }
    }

    pub fn unload(self) {
    }
}

} // verus!
