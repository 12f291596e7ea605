//! The `time` behavior: publishes `signal.time`. This module holds its slot
//! resolution and its manifest; the value it publishes (`sin(elapsed)`) is
//! computed elsewhere.

use crate::addon::manifest::{AddonKind, Manifest, Permissions, LEGACY_MANIFEST_VERSION};
use crate::signal::{first_slot, SignalId, SignalSchema};
use std::collections::BTreeMap;
use vstd::prelude::*;

verus! {

pub const TIME_SIGNAL: &'static str = "signal.time";

pub struct TimeBehavior {
    pub time_id: Option<SignalId>,
}

impl Default for TimeBehavior {
    fn default() -> (r: Self)
        ensures r.time_id is None,
    {
        TimeBehavior { time_id: None }
    }
}

impl TimeBehavior {
    /// Resolve the `signal.time` slot once, at start.
    pub fn start(&mut self, schema: &SignalSchema)
        ensures
            final(self).time_id == (match first_slot(schema.names(), TIME_SIGNAL@) {
                Some(i) => Some(SignalId(i as usize)),
                None => None::<SignalId>,
            }),
    {
        self.time_id = schema.id(TIME_SIGNAL);
    }

    pub fn stop(&mut self)
        ensures final(self).time_id is None,
    {
        self.time_id = None;
    }
}

/// The behavior's manifest: the builtin behavior `time` 1.0.0 for engine
/// API 1, with no parameters, shaders or assets, in the version-1 manifest
/// format (no `[runtime]` section: the behavior runs in process).
pub fn manifest() -> (r: Manifest)
    ensures
        r.manifest_version == LEGACY_MANIFEST_VERSION,
        r.id@ == "time"@,
        r.name@ == "Time"@,
        r.version@ == "1.0.0"@,
        r.author@ == "static (builtin)"@,
        r.description@ == "Publishes signal.time = sin(elapsed)."@,
        r.license is None && r.homepage is None,
        r.tags@.map_values(|t: String| t@) == seq!["behavior"@],
        r.api_min == 1 && r.api_max == 1,
        r.kind == AddonKind::Behavior,
        r.runtime is None && r.permissions_v2 is None && r.sandbox is None,
        r.runner is None && r.entry is None,
        r.permissions == (Permissions {
            filesystem: crate::addon::manifest::FilesystemPerm::Denied,
            network: crate::addon::manifest::NetworkPerm::Denied,
            gpu: crate::addon::manifest::GpuPerm::Default,
        }),
        r.shaders@.len() == 0 && r.assets@.len() == 0,
        r.params@.len() == 0,
        r.publish@.len() == 0,
        r.consume@.len() == 0,
{
    let tags = vec!["behavior".to_string()];
    assert(tags@.map_values(|t: String| t@) =~= seq!["behavior"@]);
    Manifest {
        manifest_version: LEGACY_MANIFEST_VERSION,
        id: "time".to_string(),
        name: "Time".to_string(),
        version: "1.0.0".to_string(),
        author: "static (builtin)".to_string(),
        description: "Publishes signal.time = sin(elapsed).".to_string(),
        license: None,
        homepage: None,
        tags,
        api_min: 1,
        api_max: 1,
        kind: AddonKind::Behavior,
        runtime: None,
        permissions_v2: None,
        sandbox: None,
        runner: None,
        entry: None,
        permissions: Permissions::default(),
        shaders: Vec::new(),
        assets: Vec::new(),
        params: BTreeMap::new(),
        publish: Vec::new(),
        consume: Vec::new(),
    }
}

} // verus!
