//! [`WorkerBridge`] — hands out opaque worker handles when the capability is
//! granted and counts the live ones; denies by default.

use crate::runner::host::{CapabilityDenied, WorkerHandle};
use vstd::prelude::*;

verus! {

/// The abstract state of a worker bridge.
pub struct WorkerModel {
    pub granted: bool,
    /// The next handle to hand out.
    pub next: u32,
    /// Workers tracked for this runner.
    pub live: u32,
}

pub struct WorkerBridge {
    granted: bool,
    next: u32,
    live: u32,
}

impl View for WorkerBridge {
    type V = WorkerModel;

    closed spec fn view(&self) -> WorkerModel {
        WorkerModel { granted: self.granted, next: self.next, live: self.live }
    }
}

impl WorkerBridge {
    pub fn new(granted: bool) -> (r: Self)
        ensures
            r@ == (WorkerModel { granted, next: 1, live: 0 }),
    {
        WorkerBridge { granted, next: 1, live: 0 }
    }

    /// Hand out a worker handle if the capability is granted.
    pub fn spawn(&mut self) -> (r: Result<WorkerHandle, CapabilityDenied>)
        requires
            old(self)@.granted ==> old(self)@.next < u32::MAX && old(self)@.live < u32::MAX,
        ensures
            old(self)@.granted ==> r == Ok::<WorkerHandle, CapabilityDenied>(WorkerHandle(spawn_step(old(self)@).1))
                && final(self)@ == spawn_step(old(self)@).0,
            !old(self)@.granted ==> r is Err && r->Err_0.capability@ == "spawn_worker"@
                && final(self)@ == old(self)@,
    {
        if !self.granted {
            return Err(CapabilityDenied { capability: "spawn_worker" });
        }
        let handle = WorkerHandle(self.next);
        self.next = self.next + 1;
        self.live = self.live + 1;
        Ok(handle)
    }

    /// Whether a `spawn` would hand out a handle: granted, and the 32-bit
    /// counters not exhausted.
    pub fn can_spawn(&self) -> (r: bool)
        ensures
            r == (self@.granted && self@.next < u32::MAX && self@.live < u32::MAX),
    {
        self.granted && self.next < u32::MAX && self.live < u32::MAX
    }

    /// How many workers the host is tracking.
    pub fn live(&self) -> (r: u32)
        ensures r == self@.live,
    {
        self.live
    }
}

/// One granted `spawn`: the next state and the handle number handed out.
pub open spec fn spawn_step(m: WorkerModel) -> (WorkerModel, u32) {
    (WorkerModel { next: (m.next + 1) as u32, live: (m.live + 1) as u32, ..m }, m.next)
}

/// Handles are unique: every later granted spawn hands out a handle strictly
/// greater than every earlier one.
pub proof fn lemma_worker_handles_unique(m: WorkerModel)
    requires
        m.next < u32::MAX - 1,
        m.live < u32::MAX - 1,
    ensures
        spawn_step(spawn_step(m).0).1 > spawn_step(m).1,
        spawn_step(spawn_step(m).0).0.live == m.live + 2,
{
}

} // verus!
