//! [`HostApi`] — the capability surface, the only thing an addon ever touches
//! — and its value types: frame tiers and frame metadata, opaque resource and
//! worker handles, capability denials, log levels and per-addon metrics. The
//! deny-by-default [`NullHost`] and the recording [`RecordingHost`] implement
//! it.

use crate::addon::schema::ParamValue;
use crate::behavior::node::Timing;
use crate::signal::{first_slot, SignalId, SignalSchema, SignalValue};
use std::sync::Arc;
use vstd::prelude::*;

verus! {

/// Frame resolution tiers. `FullRes` is gated behind a system-tier capability.
#[derive(Debug, Clone, Copy, PartialEq, Eq, Structural)]
pub enum FrameTier {
    R160x90,
    R320x180,
    R640x360,
    /// Engine-resolution frame; system tier only.
    FullRes,
}

/// Read-only metadata of the latest frame of the subscribed tier.
#[derive(Debug, Clone, Copy, PartialEq, Eq, Structural)]
pub struct FrameRef {
    pub width: u32,
    pub height: u32,
    pub tier: FrameTier,
}

/// Opaque, epoch-scoped handle to a host-owned resource.
#[derive(Debug, Clone, Copy, PartialEq, Eq, Structural)]
pub struct ResourceHandle(pub u32);

/// Opaque handle to a worker the addon spawned.
#[derive(Debug, Clone, Copy, PartialEq, Eq, Structural)]
pub struct WorkerHandle(pub u32);

/// Returned when a capability-gated call is denied; names the capability.
#[derive(Debug, Clone, Copy, PartialEq, Eq)]
pub struct CapabilityDenied {
    pub capability: &'static str,
}

/// Log severity.
#[derive(Debug, Clone, Copy, PartialEq, Eq, Structural)]
pub enum LogLevel {
    Trace,
    Debug,
    Info,
    Warn,
    Error,
}

/// Read-only per-addon metrics. The float metrics (CPU share, tick time in
/// microseconds, frames per second) are carried as `f32` bit patterns.
#[derive(Debug, Clone, Copy, PartialEq, Eq, Structural)]
pub struct Metrics {
    pub cpu_bits: u32,
    pub memory_bytes: u64,
    pub tick_us_bits: u32,
    pub fps_bits: u32,
    pub over_budget: u64,
}

/// All-zero metrics.
pub open spec fn zero_metrics() -> Metrics {
    Metrics { cpu_bits: 0, memory_bytes: 0, tick_us_bits: 0, fps_bits: 0, over_budget: 0 }
}

impl Default for Metrics {
    fn default() -> (r: Self)
        ensures r == zero_metrics(),
    {
        Metrics { cpu_bits: 0, memory_bytes: 0, tick_us_bits: 0, fps_bits: 0, over_budget: 0 }
    }
}

/// Zero timing.
pub open spec fn zero_timing() -> Timing {
    Timing { dt_bits: 0, elapsed_bits: 0 }
}

/// The capability surface an addon sees — and the boundary it cannot cross.
/// Implementations decide what each call does; the trait fixes only that
/// `subscribe` is a lookup (a name resolves to one slot, or to none, and
/// looking it up changes no resolution). Each implementation states the rest
/// of its behavior.
pub trait HostApi {
    /// The slot a signal name resolves to on this host, if any.
    spec fn resolves(&self, name: Seq<char>) -> Option<SignalId>;

    /// Stage a published signal for this tick.
    fn publish(&mut self, id: SignalId, value: SignalValue);

    /// Resolve a consumed signal name to its slot id.
    fn subscribe(&mut self, name: &str) -> (r: Option<SignalId>)
        ensures
            r == old(self).resolves(name@),
            forall|n: Seq<char>| #[trigger] final(self).resolves(n) == old(self).resolves(n),
    ;

    /// Whether this host grants a frame subscription at `tier`.
    spec fn grants_frame(&self, tier: FrameTier) -> bool;

    /// Whether this host grants a switch to `tier`.
    spec fn grants_tier_change(&self, tier: FrameTier) -> bool;

    /// The frame a read gives on this host.
    spec fn frame_to_read(&self) -> Option<FrameRef>;

    /// Subscribe to camera frames at `tier`; whether it was granted. Signal
    /// names resolve as before.
    fn request_frame(&mut self, tier: FrameTier) -> (r: bool)
        ensures
            r == old(self).grants_frame(tier),
            forall|n: Seq<char>| #[trigger] final(self).resolves(n) == old(self).resolves(n),
    ;

    /// Switch the subscribed tier; whether it was granted.
    fn change_frame_tier(&mut self, tier: FrameTier) -> (r: bool)
        ensures
            r == old(self).grants_tier_change(tier),
    ;

    /// The latest frame of the subscribed tier, if any.
    fn read_frame(&mut self) -> (r: Option<FrameRef>)
        ensures
            r == old(self).frame_to_read(),
    ;

    /// Read a config parameter (host→addon only).
    fn get_param(&self, key: &str) -> Option<ParamValue>;

    /// Per-tick timing.
    fn timing(&self) -> Timing;

    /// Emit a diagnostic line.
    fn log(&self, level: LogLevel, message: &str);

    /// What a request for the resource `id` answers on this host.
    spec fn resource_reply(&self, id: Seq<char>) -> Option<ResourceHandle>;

    /// What a worker spawn answers on this host.
    spec fn worker_reply(&self) -> Result<WorkerHandle, CapabilityDenied>;

    /// Request a host-owned resource by id.
    fn request_resource(&mut self, id: &str) -> (r: Option<ResourceHandle>)
        ensures
            r == old(self).resource_reply(id@),
    ;

    /// Release a previously requested resource handle.
    fn release_resource(&mut self, handle: ResourceHandle);

    /// Spawn an addon-confined worker.
    fn spawn_worker(&mut self) -> (r: Result<WorkerHandle, CapabilityDenied>)
        ensures
            r == old(self).worker_reply(),
    ;

    /// Liveness signal for the supervisor's watchdog. Signal names resolve as
    /// before.
    fn heartbeat(&mut self)
        ensures
            forall|n: Seq<char>| #[trigger] final(self).resolves(n) == old(self).resolves(n),
    ;

    /// This addon's own metrics.
    fn metrics(&self) -> Metrics;
}

/// The safe empty host surface: everything denied or empty.
#[derive(Debug, Default)]
pub struct NullHost;

impl HostApi for NullHost {
    open spec fn resolves(&self, name: Seq<char>) -> Option<SignalId> {
        None
    }

    open spec fn grants_frame(&self, tier: FrameTier) -> bool {
        false
    }

    open spec fn grants_tier_change(&self, tier: FrameTier) -> bool {
        false
    }

    open spec fn frame_to_read(&self) -> Option<FrameRef> {
        None
    }

    open spec fn resource_reply(&self, id: Seq<char>) -> Option<ResourceHandle> {
        None
    }

    open spec fn worker_reply(&self) -> Result<WorkerHandle, CapabilityDenied> {
        Err(CapabilityDenied { capability: "spawn_worker" })
    }

    fn publish(&mut self, id: SignalId, value: SignalValue) {
    }

    fn subscribe(&mut self, name: &str) -> (r: Option<SignalId>)
        ensures r is None,
    {
        None
    }

    fn request_frame(&mut self, tier: FrameTier) -> (r: bool)
        ensures
            !r,
    {
        false
    }

    fn change_frame_tier(&mut self, tier: FrameTier) -> (r: bool)
        ensures !r,
    {
        false
    }

    fn read_frame(&mut self) -> (r: Option<FrameRef>)
        ensures r is None,
    {
        None
    }

    fn get_param(&self, key: &str) -> (r: Option<ParamValue>)
        ensures r is None,
    {
        None
    }

    fn timing(&self) -> (r: Timing)
        ensures r == zero_timing(),
    {
        Timing { dt_bits: 0, elapsed_bits: 0 }
    }

    fn log(&self, level: LogLevel, message: &str) {
    }

    fn request_resource(&mut self, id: &str) -> (r: Option<ResourceHandle>)
        ensures r is None,
    {
        None
    }

    fn release_resource(&mut self, handle: ResourceHandle) {
    }

    fn spawn_worker(&mut self) -> (r: Result<WorkerHandle, CapabilityDenied>)
        ensures r is Err && r->Err_0.capability@ == "spawn_worker"@,
    {
        Err(CapabilityDenied { capability: "spawn_worker" })
    }

    fn heartbeat(&mut self) {
    }

    fn metrics(&self) -> (r: Metrics)
        ensures r == zero_metrics(),
    {
        Metrics::default()
    }
}

/// A recording host for tests and the mock flow: captures publishes,
/// heartbeats and frame requests, resolves `subscribe` through an optional
/// schema, and serves a fixed timing. It denies everything else.
pub struct RecordingHost {
    /// Slot names that `subscribe` resolves against, if any.
    pub schema: Option<Arc<SignalSchema>>,
    /// The timing served by `timing`.
    pub timing: Timing,
    /// `(slot index, value)` for every publish.
    pub published: Vec<(usize, SignalValue)>,
    pub heartbeats: u32,
    pub frame_requests: u32,
    pub subscribed_tier: Option<FrameTier>,
}

impl Default for RecordingHost {
    fn default() -> (r: Self)
        ensures
            r.spec_schema() is None,
            r.spec_timing() == zero_timing(),
            r.published@.len() == 0,
            r.heartbeats == 0,
            r.frame_requests == 0,
            r.subscribed_tier is None,
    {
        RecordingHost {
            schema: None,
            timing: Timing { dt_bits: 0, elapsed_bits: 0 },
            published: Vec::new(),
            heartbeats: 0,
            frame_requests: 0,
            subscribed_tier: None,
        }
    }
}

impl RecordingHost {
    /// The slot names `subscribe` resolves against, if any.
    pub closed spec fn spec_schema(&self) -> Option<Seq<Seq<char>>> {
        match self.schema {
            Some(s) => Some(s.names()),
            None => None,
        }
    }

    pub closed spec fn spec_timing(&self) -> Timing {
        self.timing
    }

    pub fn new() -> (r: Self)
        ensures
            r.spec_schema() is None,
            r.spec_timing() == zero_timing(),
            r.published@.len() == 0,
            r.heartbeats == 0,
            r.frame_requests == 0,
            r.subscribed_tier is None,
    {
        Self::default()
    }

    /// Resolve `subscribe` through this schema.
    pub fn with_schema(schema: Arc<SignalSchema>) -> (r: Self)
        ensures
            r.spec_schema() == Some(schema.names()),
            r.spec_timing() == zero_timing(),
            r.published@.len() == 0,
            r.heartbeats == 0,
            r.frame_requests == 0,
            r.subscribed_tier is None,
    {
        RecordingHost {
            schema: Some(schema),
            timing: Timing { dt_bits: 0, elapsed_bits: 0 },
            published: Vec::new(),
            heartbeats: 0,
            frame_requests: 0,
            subscribed_tier: None,
        }
    }

    pub fn with_timing(self, timing: Timing) -> (r: Self)
        ensures
            r.spec_schema() == self.spec_schema(),
            r.spec_timing() == timing,
            r.published == self.published,
            r.heartbeats == self.heartbeats,
            r.frame_requests == self.frame_requests,
            r.subscribed_tier == self.subscribed_tier,
    {
        RecordingHost { timing, ..self }
    }
}

impl HostApi for RecordingHost {
    /// Always granted.
    open spec fn grants_frame(&self, tier: FrameTier) -> bool {
        true
    }

    /// Always granted.
    open spec fn grants_tier_change(&self, tier: FrameTier) -> bool {
        true
    }

    open spec fn frame_to_read(&self) -> Option<FrameRef> {
        None
    }

    open spec fn resource_reply(&self, id: Seq<char>) -> Option<ResourceHandle> {
        None
    }

    open spec fn worker_reply(&self) -> Result<WorkerHandle, CapabilityDenied> {
        Err(CapabilityDenied { capability: "spawn_worker" })
    }

    open spec fn resolves(&self, name: Seq<char>) -> Option<SignalId> {
        match self.spec_schema() {
            Some(names) => match first_slot(names, name) {
                Some(i) => Some(SignalId(i as usize)),
                None => None::<SignalId>,
            },
            None => None::<SignalId>,
        }
    }

    /// Record `(slot index, value)`.
    fn publish(&mut self, id: SignalId, value: SignalValue)
        ensures
            final(self).published@ == old(self).published@.push((id.0, value)),
            final(self).heartbeats == old(self).heartbeats,
            final(self).frame_requests == old(self).frame_requests,
            final(self).subscribed_tier == old(self).subscribed_tier,
            final(self).spec_schema() == old(self).spec_schema(),
            final(self).spec_timing() == old(self).spec_timing(),
    {
        self.published.push((id.index(), value));
    }

    fn subscribe(&mut self, name: &str) -> (r: Option<SignalId>)
        ensures
            r == (match old(self).spec_schema() {
                Some(names) => match first_slot(names, name@) {
                    Some(i) => Some(SignalId(i as usize)),
                    None => None::<SignalId>,
                },
                None => None::<SignalId>,
            }),
            final(self).published == old(self).published,
            final(self).heartbeats == old(self).heartbeats,
            final(self).frame_requests == old(self).frame_requests,
            final(self).subscribed_tier == old(self).subscribed_tier,
            final(self).spec_schema() == old(self).spec_schema(),
            final(self).spec_timing() == old(self).spec_timing(),
    {
        match &self.schema {
            Some(s) => s.id(name),
            None => None,
        }
    }

    /// Count the request and remember the tier (the count wraps at
    /// `u32::MAX`); always granted.
    fn request_frame(&mut self, tier: FrameTier) -> (r: bool)
        ensures
            r,
            final(self).frame_requests == (if old(self).frame_requests == u32::MAX { 0 } else { (old(self).frame_requests + 1) as u32 }),
            final(self).subscribed_tier == Some(tier),
            final(self).published == old(self).published,
            final(self).heartbeats == old(self).heartbeats,
            final(self).spec_schema() == old(self).spec_schema(),
            final(self).spec_timing() == old(self).spec_timing(),
    {
        self.frame_requests = self.frame_requests.wrapping_add(1);
        self.subscribed_tier = Some(tier);
        true
    }

    fn change_frame_tier(&mut self, tier: FrameTier) -> (r: bool)
        ensures
            r,
            final(self).subscribed_tier == Some(tier),
            final(self).frame_requests == old(self).frame_requests,
            final(self).published == old(self).published,
            final(self).heartbeats == old(self).heartbeats,
            final(self).spec_schema() == old(self).spec_schema(),
            final(self).spec_timing() == old(self).spec_timing(),
    {
        self.subscribed_tier = Some(tier);
        true
    }

    fn read_frame(&mut self) -> (r: Option<FrameRef>)
        ensures
            r is None,
            final(self).published == old(self).published,
            final(self).heartbeats == old(self).heartbeats,
            final(self).frame_requests == old(self).frame_requests,
            final(self).subscribed_tier == old(self).subscribed_tier,
            final(self).spec_schema() == old(self).spec_schema(),
            final(self).spec_timing() == old(self).spec_timing(),
    {
        None
    }

    fn get_param(&self, key: &str) -> (r: Option<ParamValue>)
        ensures r is None,
    {
        None
    }

    fn timing(&self) -> (r: Timing)
        ensures r == self.spec_timing(),
    {
        self.timing
    }

    fn log(&self, level: LogLevel, message: &str) {
    }

    fn request_resource(&mut self, id: &str) -> (r: Option<ResourceHandle>)
        ensures
            r is None,
            final(self).published == old(self).published,
            final(self).heartbeats == old(self).heartbeats,
            final(self).frame_requests == old(self).frame_requests,
            final(self).subscribed_tier == old(self).subscribed_tier,
            final(self).spec_schema() == old(self).spec_schema(),
            final(self).spec_timing() == old(self).spec_timing(),
    {
        None
    }

    fn release_resource(&mut self, handle: ResourceHandle)
        ensures
            final(self).published == old(self).published,
            final(self).heartbeats == old(self).heartbeats,
            final(self).frame_requests == old(self).frame_requests,
            final(self).subscribed_tier == old(self).subscribed_tier,
            final(self).spec_schema() == old(self).spec_schema(),
            final(self).spec_timing() == old(self).spec_timing(),
    {
    }

    fn spawn_worker(&mut self) -> (r: Result<WorkerHandle, CapabilityDenied>)
        ensures
            r is Err && r->Err_0.capability@ == "spawn_worker"@,
            final(self).published == old(self).published,
            final(self).heartbeats == old(self).heartbeats,
            final(self).frame_requests == old(self).frame_requests,
            final(self).subscribed_tier == old(self).subscribed_tier,
            final(self).spec_schema() == old(self).spec_schema(),
            final(self).spec_timing() == old(self).spec_timing(),
    {
        Err(CapabilityDenied { capability: "spawn_worker" })
    }

    /// Count the heartbeat (wrapping at `u32::MAX`).
    fn heartbeat(&mut self)
        ensures
            final(self).heartbeats == (if old(self).heartbeats == u32::MAX { 0 } else { (old(self).heartbeats + 1) as u32 }),
            final(self).published == old(self).published,
            final(self).frame_requests == old(self).frame_requests,
            final(self).subscribed_tier == old(self).subscribed_tier,
            final(self).spec_schema() == old(self).spec_schema(),
            final(self).spec_timing() == old(self).spec_timing(),
    {
        self.heartbeats = self.heartbeats.wrapping_add(1);
    }

    fn metrics(&self) -> (r: Metrics)
        ensures r == zero_metrics(),
    {
        Metrics::default()
    }
}

} // verus!
