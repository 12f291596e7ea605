//! [`HostBridge`] — the forwarding host handed across the runner seam: every
//! call goes to the real host it borrows, and the bridge keeps nothing (no
//! signals, frames, resources or metrics; no cache; no reinterpretation).

use crate::addon::schema::ParamValue;
use crate::behavior::node::Timing;
use crate::runner::host::{CapabilityDenied, FrameRef, FrameTier, HostApi, LogLevel, Metrics, ResourceHandle, WorkerHandle};
use crate::signal::{SignalId, SignalValue};
use vstd::prelude::*;

verus! {

/// A transparent forwarder over a borrowed real host, for one call or tick.
pub struct HostBridge<'h, H: HostApi + ?Sized> {
    inner: &'h mut H,
}

impl<'h, H: HostApi + ?Sized> HostBridge<'h, H> {
    pub fn new(inner: &'h mut H) -> (r: Self)
        ensures
            r.host() == &*old(inner),
    {
        HostBridge { inner }
    }

    /// The host the bridge forwards to.
    pub closed spec fn host(&self) -> &H {
        &*self.inner
    }
}

impl<'h, H: HostApi + ?Sized> HostApi for HostBridge<'h, H> {
    /// A name resolves as it does on the host behind the bridge.
    open spec fn resolves(&self, name: Seq<char>) -> Option<SignalId> {
        self.host().resolves(name)
    }

    open spec fn grants_frame(&self, tier: FrameTier) -> bool {
        self.host().grants_frame(tier)
    }

    open spec fn grants_tier_change(&self, tier: FrameTier) -> bool {
        self.host().grants_tier_change(tier)
    }

    open spec fn frame_to_read(&self) -> Option<FrameRef> {
        self.host().frame_to_read()
    }

    open spec fn resource_reply(&self, id: Seq<char>) -> Option<ResourceHandle> {
        self.host().resource_reply(id)
    }

    open spec fn worker_reply(&self) -> Result<WorkerHandle, CapabilityDenied> {
        self.host().worker_reply()
    }

    fn publish(&mut self, id: SignalId, value: SignalValue) {
        self.inner.publish(id, value)
    }

    fn subscribe(&mut self, name: &str) -> Option<SignalId> {
        self.inner.subscribe(name)
    }

    fn request_frame(&mut self, tier: FrameTier) -> bool {
        self.inner.request_frame(tier)
    }

    fn change_frame_tier(&mut self, tier: FrameTier) -> bool {
        self.inner.change_frame_tier(tier)
    }

    fn read_frame(&mut self) -> Option<FrameRef> {
        self.inner.read_frame()
    }

    fn get_param(&self, key: &str) -> (r: Option<ParamValue>)
        ensures
            call_ensures(H::get_param, (self.host(), key), r),
    {
        self.inner.get_param(key)
    }

    fn timing(&self) -> (r: Timing)
        ensures
            call_ensures(H::timing, (self.host(),), r),
    {
        self.inner.timing()
    }

    fn log(&self, level: LogLevel, message: &str) {
        self.inner.log(level, message)
    }

    fn request_resource(&mut self, id: &str) -> Option<ResourceHandle> {
        self.inner.request_resource(id)
    }

    fn release_resource(&mut self, handle: ResourceHandle) {
        self.inner.release_resource(handle)
    }

    fn spawn_worker(&mut self) -> Result<WorkerHandle, CapabilityDenied> {
        self.inner.spawn_worker()
    }

    fn heartbeat(&mut self) {
        self.inner.heartbeat()
    }

    fn metrics(&self) -> (r: Metrics)
        ensures
            call_ensures(H::metrics, (self.host(),), r),
    {
        self.inner.metrics()
    }
}

} // verus!
