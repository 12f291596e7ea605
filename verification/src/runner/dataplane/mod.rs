//! Data-plane bridges: the host-side state behind the capability surface,
//! composed into [`BridgedHost`], a real [`HostApi`].
//!
//! | Bridge | Rule preserved |
//! |--------|----------------|
//! | [`SignalBridge`]   | overwrite · latest-wins · single commit · snapshot |
//! | [`FrameBridge`]    | borrow · tick-pinned · latest |
//! | [`ResourceBridge`] | opaque handle · shared by id · idempotent release |
//! | [`MetricsBridge`]  | addon-local snapshot only |
//! | [`WorkerBridge`]   | runner-owned · host tracks · deny by default |
//!
//! [`BridgedHost::begin_tick`] pins the signal snapshot and the frame for the
//! whole tick; the next tick samples the latest.

pub mod frame;
pub mod metrics;
pub mod resource;
pub mod refcount;
pub mod signal;
pub mod worker;

pub use frame::FrameBridge;
pub use metrics::MetricsBridge;
pub use resource::ResourceBridge;
pub use signal::SignalBridge;
pub use worker::WorkerBridge;

use crate::addon::schema::{clone_param, ParamMap, ParamValue, ParamValueView};
use crate::behavior::node::Timing;
use crate::runner::host::{
    zero_metrics, zero_timing, CapabilityDenied, FrameRef, FrameTier, HostApi, LogLevel, Metrics,
    ResourceHandle, WorkerHandle,
};
use crate::signal::{first_slot, zero_value, SignalId, SignalKind, SignalSchema, SignalValue};
use frame::FrameModel;
use resource::{release_step, request_fits, request_step, ResourceModel};
use signal::{SignalModel, SignalSnapshot};
use std::sync::Arc;
use vstd::prelude::*;
use worker::{spawn_step, WorkerModel};

verus! {

/// The abstract state of a bridged host: the state of each bridge, the
/// parameters, the tick timing and the heartbeat count.
pub struct BridgedModel {
    pub signals: SignalModel,
    pub frames: FrameModel,
    pub resources: ResourceModel,
    pub metrics: Metrics,
    pub workers: WorkerModel,
    pub params: Map<Seq<char>, ParamValueView>,
    pub timing: Timing,
    pub heartbeats: u32,
}

/// A `HostApi` composed of the five data-plane bridges: the host-side
/// authority for one runner. Holds all data; the runner owns none.
pub struct BridgedHost {
    signals: SignalBridge,
    frames: FrameBridge,
    resources: ResourceBridge,
    metrics: MetricsBridge,
    workers: WorkerBridge,
    params: ParamMap,
    timing: Timing,
    heartbeats: u32,
}

impl View for BridgedHost {
    type V = BridgedModel;

    closed spec fn view(&self) -> BridgedModel {
        BridgedModel {
            signals: self.signals@,
            frames: self.frames@,
            resources: self.resources.view(),
            metrics: self.metrics@,
            workers: self.workers@,
            params: self.params.spec_map(),
            timing: self.timing,
            heartbeats: self.heartbeats,
        }
    }
}

/// `n + 1`, wrapping to 0 past `u32::MAX`.
pub open spec fn wrapping_succ(n: u32) -> u32 {
    if n == u32::MAX { 0 } else { (n + 1) as u32 }
}

impl BridgedHost {
    /// A fresh host over `schema`; workers are granted iff `worker_capability`.
    pub fn new(schema: Arc<SignalSchema>, worker_capability: bool) -> (r: Self)
        ensures
            r@.signals.names == schema.names(),
            r@.signals.staged == schema.kinds().map_values(|k: SignalKind| zero_value(k)),
            r@.signals.committed == r@.signals.staged,
            r@.signals.pinned == r@.signals.staged,
            r@.frames == (FrameModel { tier: FrameTier::R320x180, latest: None, pinned: None }),
            r@.resources == (ResourceModel { next: 1, epoch: 0, live: Map::empty() }),
            r@.metrics == zero_metrics(),
            r@.workers == (WorkerModel { granted: worker_capability, next: 1, live: 0 }),
            r@.params == Map::<Seq<char>, ParamValueView>::empty(),
            r@.timing == zero_timing(),
            r@.heartbeats == 0,
    {
        BridgedHost {
            signals: SignalBridge::new(schema),
            frames: FrameBridge::new(),
            resources: ResourceBridge::new(),
            metrics: MetricsBridge::new(),
            workers: WorkerBridge::new(worker_capability),
            params: ParamMap::new(),
            timing: Timing { dt_bits: 0, elapsed_bits: 0 },
            heartbeats: 0,
        }
    }

    /// Set a parameter the addon can read.
    pub fn with_param(self, key: &str, value: ParamValue) -> (r: Self)
        ensures
            r@ == (BridgedModel { params: self@.params.insert(key@, value@), ..self@ }),
    {
        let mut me = self;
        me.params.insert(key.to_string(), value);
        me
    }

    /// Pin the signal snapshot and the frame for this tick and set timing.
    pub fn begin_tick(&mut self, timing: Timing)
        ensures
            final(self)@ == (BridgedModel {
                timing,
                signals: SignalModel { pinned: old(self)@.signals.committed, ..old(self)@.signals },
                frames: FrameModel { pinned: old(self)@.frames.latest, ..old(self)@.frames },
                ..old(self)@
            }),
    {
        self.timing = timing;
        self.signals.pin();
        self.frames.begin_tick();
    }

    /// Commit the staged publishes in one step.
    pub fn commit(&mut self)
        ensures
            final(self)@ == (BridgedModel {
                signals: SignalModel { committed: old(self)@.signals.staged, ..old(self)@.signals },
                ..old(self)@
            }),
    {
        self.signals.commit();
    }

    /// The consumer's latest snapshot (re-pins to the last commit).
    pub fn read_latest_signals(&mut self) -> (r: &SignalSnapshot)
        ensures
            r@ == old(self)@.signals.committed,
            final(self)@ == (BridgedModel {
                signals: SignalModel { pinned: old(self)@.signals.committed, ..old(self)@.signals },
                ..old(self)@
            }),
    {
        self.signals.read_latest()
    }

    /// Host-side feed: the newest frame.
    pub fn push_frame(&mut self, width: u32, height: u32)
        ensures
            final(self)@ == (BridgedModel {
                frames: FrameModel {
                    latest: Some(FrameRef { width, height, tier: old(self)@.frames.tier }),
                    ..old(self)@.frames
                },
                ..old(self)@
            }),
    {
        self.frames.push(width, height);
    }

    /// Host-side update of this addon's metrics.
    pub fn set_metrics(&mut self, metrics: Metrics)
        ensures
            final(self)@ == (BridgedModel { metrics, ..old(self)@ }),
    {
        self.metrics.update(metrics);
    }

    /// Drop every resource handle (a reload); the epoch advances.
    pub fn invalidate_resources(&mut self)
        requires
            old(self)@.resources.epoch < u32::MAX,
        ensures
            final(self)@ == (BridgedModel {
                resources: ResourceModel {
                    epoch: (old(self)@.resources.epoch + 1) as u32,
                    live: Map::empty(),
                    ..old(self)@.resources
                },
                ..old(self)@
            }),
    {
        self.resources.invalidate();
    }

    /// Live references to resource `id` (0 when not held).
    pub fn resource_refcount(&self, id: &str) -> (r: u32)
        ensures
            r == (if self@.resources.live.contains_key(id@) { self@.resources.live[id@].1 } else { 0 }),
    {
        self.resources.refcount(id)
    }

    /// Workers the host tracks for this runner.
    pub fn live_workers(&self) -> (r: u32)
        ensures
            r == self@.workers.live,
    {
        self.workers.live()
    }

    /// Heartbeats received.
    pub fn heartbeats(&self) -> (r: u32)
        ensures
            r == self@.heartbeats,
    {
        self.heartbeats
    }
}

impl HostApi for BridgedHost {
    /// Always granted.
    open spec fn grants_frame(&self, tier: FrameTier) -> bool {
        true
    }

    /// Always granted.
    open spec fn grants_tier_change(&self, tier: FrameTier) -> bool {
        true
    }

    /// The frame pinned for this tick.
    open spec fn frame_to_read(&self) -> Option<FrameRef> {
        self@.frames.pinned
    }

    /// The handle for `id`, unless the counters are exhausted.
    open spec fn resource_reply(&self, id: Seq<char>) -> Option<ResourceHandle> {
        if request_fits(self@.resources, id) {
            Some(ResourceHandle(request_step(self@.resources, id).1))
        } else {
            None
        }
    }

    /// A worker when the capability is granted and the counters allow.
    open spec fn worker_reply(&self) -> Result<WorkerHandle, CapabilityDenied> {
        let w = self@.workers;
        if w.granted && w.next < u32::MAX && w.live < u32::MAX {
            Ok(WorkerHandle(spawn_step(w).1))
        } else {
            Err(CapabilityDenied { capability: "spawn_worker" })
        }
    }

    open spec fn resolves(&self, name: Seq<char>) -> Option<SignalId> {
        match first_slot(self@.signals.names, name) {
            Some(i) => Some(SignalId(i as usize)),
            None => None::<SignalId>,
        }
    }

    /// Stage `value` in slot `id`; an id outside the schema is ignored.
    fn publish(&mut self, id: SignalId, value: SignalValue)
        ensures
            final(self)@ == (if id.0 < old(self)@.signals.staged.len() {
                BridgedModel {
                    signals: SignalModel { staged: old(self)@.signals.staged.update(id.0 as int, value), ..old(self)@.signals },
                    ..old(self)@
                }
            } else {
                old(self)@
            }),
    {
        self.signals.publish(id, value);
    }

    fn subscribe(&mut self, name: &str) -> (r: Option<SignalId>)
        ensures
            r == (match first_slot(old(self)@.signals.names, name@) {
                Some(i) => Some(SignalId(i as usize)),
                None => None::<SignalId>,
            }),
            final(self)@ == old(self)@,
    {
        self.signals.subscribe(name)
    }

    fn request_frame(&mut self, tier: FrameTier) -> (r: bool)
        ensures
            r,
            final(self)@ == (BridgedModel { frames: FrameModel { tier, ..old(self)@.frames }, ..old(self)@ }),
    {
        self.frames.request_frame(tier)
    }

    fn change_frame_tier(&mut self, tier: FrameTier) -> (r: bool)
        ensures
            r,
            final(self)@ == (BridgedModel { frames: FrameModel { tier, ..old(self)@.frames }, ..old(self)@ }),
    {
        self.frames.change_frame_tier(tier)
    }

    fn read_frame(&mut self) -> (r: Option<FrameRef>)
        ensures
            r == old(self)@.frames.pinned,
            final(self)@ == old(self)@,
    {
        self.frames.read_frame()
    }

    fn get_param(&self, key: &str) -> (r: Option<ParamValue>)
        ensures
            r is Some <==> self@.params.contains_key(key@),
            r matches Some(v) ==> v@ == self@.params[key@],
    {
        match self.params.get(key) {
            Some(v) => Some(clone_param(v)),
            None => None,
        }
    }

    fn timing(&self) -> (r: Timing)
        ensures
            r == self@.timing,
    {
        self.timing
    }

    fn log(&self, level: LogLevel, message: &str) {
    }

    /// The handle for `id` (shared by every holder); `None` only once the
    /// 32-bit handle or reference counters are exhausted.
    fn request_resource(&mut self, id: &str) -> (r: Option<ResourceHandle>)
        ensures
            request_fits(old(self)@.resources, id@) ==> {
                &&& r == Some(ResourceHandle(request_step(old(self)@.resources, id@).1))
                &&& final(self)@ == (BridgedModel { resources: request_step(old(self)@.resources, id@).0, ..old(self)@ })
            },
            !request_fits(old(self)@.resources, id@) ==> r is None && final(self)@ == old(self)@,
    {
        if self.resources.can_request(id) {
            self.resources.request(id)
        } else {
            None
        }
    }

    fn release_resource(&mut self, handle: ResourceHandle)
        ensures
            final(self)@ == (BridgedModel { resources: release_step(old(self)@.resources, handle.0), ..old(self)@ }),
    {
        self.resources.release(handle);
    }

    /// A worker handle when the capability is granted (and the 32-bit
    /// counters are not exhausted); otherwise denied.
    fn spawn_worker(&mut self) -> (r: Result<WorkerHandle, CapabilityDenied>)
        ensures
            ({
                let w = old(self)@.workers;
                if w.granted && w.next < u32::MAX && w.live < u32::MAX {
                    &&& r == Ok::<WorkerHandle, CapabilityDenied>(WorkerHandle(spawn_step(w).1))
                    &&& final(self)@ == (BridgedModel { workers: spawn_step(w).0, ..old(self)@ })
                } else {
                    &&& r is Err
                    &&& r->Err_0.capability@ == "spawn_worker"@
                    &&& final(self)@ == old(self)@
                }
            }),
    {
        if self.workers.can_spawn() {
            self.workers.spawn()
        } else {
            Err(CapabilityDenied { capability: "spawn_worker" })
        }
    }

    /// Count a heartbeat (wrapping at `u32::MAX`).
    fn heartbeat(&mut self)
        ensures
            final(self)@ == (BridgedModel { heartbeats: wrapping_succ(old(self)@.heartbeats), ..old(self)@ }),
    {
        self.heartbeats = self.heartbeats.wrapping_add(1);
    }

    fn metrics(&self) -> (r: Metrics)
        ensures
            r == self@.metrics,
    {
        self.metrics.snapshot()
    }
}

} // verus!
