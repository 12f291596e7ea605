//! Behaviors: signal producers that run on the behavior thread. A behavior is
//! built as a [`BehaviorInit`] (its node and configuration), driven by the
//! [`scheduler`], controlled by [`BehaviorCommand`]s between ticks, and
//! reached by registry lookup through the [`host`] seam. The thread's
//! statistics are shared lock-free.

pub mod addons;
pub mod builtins;
pub mod host;
pub mod native;
pub mod node;
pub mod scheduler;

pub use host::{BehaviorHost, BehaviorRegistry};

use crate::addon::schema::{ParamMap, ParamSpec, ParamValue};
use crate::behavior::node::BehaviorNode;
use crate::signal::{SignalSchema, SignalSpec};
use std::sync::Arc;
use crate::time::nanos_u64;
use std::collections::BTreeMap;
use std::sync::atomic::{AtomicU32, AtomicU64, Ordering};
use std::time::Duration;
use vstd::prelude::*;

verus! {

/// A constructed-but-not-yet-running behavior: the node and its
/// configuration.
pub struct BehaviorInit {
    pub instance_id: String,
    pub node: Box<dyn BehaviorNode>,
    /// Signals this behavior publishes.
    pub publish: Vec<SignalSpec>,
    /// The parameter declarations (they supply defaults).
    pub specs: BTreeMap<String, ParamSpec>,
    /// Current configuration values.
    pub values: ParamMap,
    pub enabled: bool,
}

/// Control messages for the behavior scheduler, applied between ticks.
pub enum BehaviorCommand<P> {
    /// Structural reload: a new publisher endpoint, a new schema and a new
    /// behavior set, taken together.
    Reload { publisher: P, schema: Arc<SignalSchema>, behaviors: Vec<BehaviorInit> },
    /// Hot configuration update; the instance and its resources are kept.
    SetParam { instance_id: String, key: String, value: ParamValue },
    Enable(String),
    Disable(String),
    Shutdown,
}

/// Why a configured behavior did not run.
#[derive(Clone, Debug, PartialEq, Eq)]
pub enum SkipReason {
    FilesystemMissing,
    ManualUninstall,
    TrustRevoked,
    LoadFailed(String),
}

/// Live behavior metrics, as a snapshot: ticks per second (the bit pattern
/// of an `f32`), the wall time of the last update pass in nanoseconds, total
/// publishes since start, and ticks whose update pass ran over budget.
#[derive(Clone, Copy, Debug, Default, PartialEq, Eq)]
pub struct BehaviorStats {
    pub fps_bits: u32,
    pub last_update_ns: u64,
    pub published: u64,
    pub over_budget: u64,
}

/// Shared, lock-free backing for [`BehaviorStats`]: the behavior thread
/// records each tick, any thread takes snapshots. Other threads may write
/// between any two reads, so nothing is promised of what a read returns.
#[derive(Default)]
pub struct BehaviorStatsShared {
    fps_bits: AtomicU32,
    last_update_ns: AtomicU64,
    published: AtomicU64,
    over_budget: AtomicU64,
}

impl BehaviorStatsShared {
    /// Record one tick: the update pass's wall time (nanoseconds, truncated
    /// to 64 bits), the publish total, and one more over-budget tick when it
    /// ran over (the counter wraps, as an atomic add does).
    pub fn record_tick(&self, update: Duration, published: u64, over_budget: bool) {
        self.last_update_ns.store(nanos_u64(&update), Ordering::Relaxed);
        self.published.store(published, Ordering::Relaxed);
        if over_budget {
            let _ = self.over_budget.fetch_add(1, Ordering::Relaxed);
        }
    }

    /// Record the ticks per second (an `f32` bit pattern).
    pub fn set_fps(&self, fps_bits: u32) {
        self.fps_bits.store(fps_bits, Ordering::Relaxed);
    }

    /// The current metrics.
    pub fn snapshot(&self) -> BehaviorStats {
        BehaviorStats {
            fps_bits: self.fps_bits.load(Ordering::Relaxed),
            last_update_ns: self.last_update_ns.load(Ordering::Relaxed),
            published: self.published.load(Ordering::Relaxed),
            over_budget: self.over_budget.load(Ordering::Relaxed),
        }
    }
}

} // verus!
