//! [`MetricsBridge`] — this addon's own metrics as a point-in-time copy: one
//! bridge per addon, updated host-side, read by the addon.

use crate::runner::host::{zero_metrics, Metrics};
use vstd::prelude::*;

verus! {

pub struct MetricsBridge {
    own: Metrics,
}

impl View for MetricsBridge {
    type V = Metrics;

    closed spec fn view(&self) -> Metrics {
        self.own
    }
}

impl MetricsBridge {
    pub fn new() -> (r: Self)
        ensures
            r@ == zero_metrics(),
    {
        MetricsBridge { own: Metrics::default() }
    }

    /// Host-side update of this addon's metrics.
    pub fn update(&mut self, metrics: Metrics)
        ensures
            final(self)@ == metrics,
    {
        self.own = metrics;
    }

    /// A copy of the current metrics.
    pub fn snapshot(&self) -> (r: Metrics)
        ensures
            r == self@,
    {
        self.own
    }
}

impl Default for MetricsBridge {
    fn default() -> (r: Self)
        ensures
            r@ == zero_metrics(),
    {
        Self::new()
    }
}

} // verus!
