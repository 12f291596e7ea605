//! The builtin pipeline addons' manifests: the CRT monitor and the dot
//! renderer. They are described exactly as an external addon would be, so
//! they register through the same path; their shaders and GPU nodes are the
//! renderer's. Float defaults and bounds are the declared `f32` values
//! widened to `f64`, as bit patterns.

use crate::addon::manifest::{AddonKind, Manifest, Permissions, LEGACY_MANIFEST_VERSION};
use crate::addon::schema::{ParamSpec, UiHints};
use crate::signal::{SignalKind, SignalRef};
use std::collections::BTreeMap;
use vstd::prelude::*;

verus! {

broadcast use vstd::string::to_string_from_display_ensures_for_str;

/// The signal the CRT monitor consumes.
pub const TIME_SIGNAL: &'static str = "signal.time";

/// The shared shape of a builtin pipeline addon's manifest: version 1.0.0 by
/// "static (builtin)", engine API 1, no tags, declarations or signals. It is
/// written in the version-1 manifest format (no `[runtime]` section: the
/// addon runs in the renderer).
pub fn base_manifest(id: &str, name: &str, description: &str) -> (r: Manifest)
    ensures
        r.manifest_version == LEGACY_MANIFEST_VERSION,
        r.id@ == id@ && r.name@ == name@ && r.description@ == description@,
        r.version@ == "1.0.0"@,
        r.author@ == "static (builtin)"@,
        r.license is None && r.homepage is None,
        r.tags@.len() == 0,
        r.api_min == 1 && r.api_max == 1,
        r.kind == AddonKind::Pipeline,
        r.runtime is None && r.permissions_v2 is None && r.sandbox is None,
        r.runner is None && r.entry is None,
        r.permissions == (Permissions {
            filesystem: crate::addon::manifest::FilesystemPerm::Denied,
            network: crate::addon::manifest::NetworkPerm::Denied,
            gpu: crate::addon::manifest::GpuPerm::Default,
        }),
        r.shaders@.len() == 0 && r.assets@.len() == 0,
        r.params@.len() == 0,
        r.publish@.len() == 0 && r.consume@.len() == 0,
{
    Manifest {
        manifest_version: LEGACY_MANIFEST_VERSION,
        id: id.to_string(),
        name: name.to_string(),
        version: "1.0.0".to_string(),
        author: "static (builtin)".to_string(),
        description: description.to_string(),
        license: None,
        homepage: None,
        tags: Vec::new(),
        api_min: 1,
        api_max: 1,
        kind: AddonKind::Pipeline,
        runtime: None,
        permissions_v2: None,
        sandbox: None,
        runner: None,
        entry: None,
        permissions: Permissions::default(),
        shaders: Vec::new(),
        assets: Vec::new(),
        params: BTreeMap::new(),
        publish: Vec::new(),
        consume: Vec::new(),
    }
}

/// A float parameter with a label (bounds and default as `f64` bit patterns).
pub fn f32_param(default: u64, min: u64, max: u64, label: &str) -> (r: ParamSpec)
    ensures
        r matches ParamSpec::F32 { default: d, min: Some(lo), max: Some(hi), ui } && d == default && lo == min && hi == max
            && (ui.label matches Some(l) && l@ == label@) && ui.group is None && ui.help is None,
{
    ParamSpec::F32 { default, min: Some(min), max: Some(max), ui: UiHints { label: Some(label.to_string()), group: None, help: None } }
}

/// A boolean parameter with a label.
pub fn bool_param(default: bool, label: &str) -> (r: ParamSpec)
    ensures
        r matches ParamSpec::Bool { default: d, ui } && d == default
            && (ui.label matches Some(l) && l@ == label@) && ui.group is None && ui.help is None,
{
    ParamSpec::Bool { default, ui: UiHints { label: Some(label.to_string()), group: None, help: None } }
}

/// The CRT monitor: scanlines, curvature, persistence, brightness, vignette
/// and aperture, and an optional `signal.time` it animates with.
pub fn crt_manifest() -> (r: Manifest)
    ensures
        r.id@ == "crt"@ && r.name@ == "CRT Monitor"@,
        r.description@ == "Monochrome CRT: scanlines, phosphor persistence, barrel distortion."@,
        r.kind == AddonKind::Pipeline,
        r.tags@.map_values(|t: String| t@) == seq!["crt"@, "retro"@, "monitor"@],
        r.consume@.len() == 1,
        r.consume@[0].name@ == TIME_SIGNAL@ && r.consume@[0].kind == SignalKind::F32 && r.consume@[0].optional,
        r.publish@.len() == 0 && r.shaders@.len() == 0,
{
    let mut m = base_manifest("crt", "CRT Monitor", "Monochrome CRT: scanlines, phosphor persistence, barrel distortion.");
    let tags = vec!["crt".to_string(), "retro".to_string(), "monitor".to_string()];
    assert(tags@.map_values(|t: String| t@) =~= seq!["crt"@, "retro"@, "monitor"@]);
    m.tags = tags;
    // 0.5, 0.4, 1.1, 0.0, 1.0 and 3.0 as f32 values widened to f64.
    m.params.insert("scanline".to_string(), f32_param(0x3fe0_0000_0000_0000, 0, 0x3ff0_0000_0000_0000, "Scanlines"));
    m.params.insert("curvature".to_string(), f32_param(0x3fd9_9999_a000_0000, 0, 0x3ff0_0000_0000_0000, "Curvature"));
    m.params.insert("persistence".to_string(), f32_param(0x3fd9_9999_a000_0000, 0, 0x3ff0_0000_0000_0000, "Persistence"));
    m.params.insert("brightness".to_string(), f32_param(0x3ff1_9999_a000_0000, 0, 0x4008_0000_0000_0000, "Brightness"));
    m.params.insert("vignette".to_string(), f32_param(0x3fe0_0000_0000_0000, 0, 0x3ff0_0000_0000_0000, "Vignette"));
    m.params.insert("aperture".to_string(), f32_param(0x3fe0_0000_0000_0000, 0, 0x3ff0_0000_0000_0000, "Aperture"));
    let consume = vec![SignalRef { name: TIME_SIGNAL.to_string(), kind: SignalKind::F32, optional: true }];
    m.consume = consume;
    m
}

/// The dot renderer: luminance as a matrix of dots (cell size, softness,
/// contrast, exposure, glow, mirroring).
pub fn dot_renderer_manifest() -> (r: Manifest)
    ensures
        r.id@ == "dot-renderer"@ && r.name@ == "Dot Renderer"@,
        r.description@ == "Luminance reconstructed as a matrix of dots."@,
        r.kind == AddonKind::Pipeline,
        r.tags@.map_values(|t: String| t@) == seq!["renderer"@, "halftone"@],
        r.publish@.len() == 0 && r.consume@.len() == 0 && r.shaders@.len() == 0,
{
    let mut m = base_manifest("dot-renderer", "Dot Renderer", "Luminance reconstructed as a matrix of dots.");
    let tags = vec!["renderer".to_string(), "halftone".to_string()];
    assert(tags@.map_values(|t: String| t@) =~= seq!["renderer"@, "halftone"@]);
    m.tags = tags;
    // 6, 2, 32, 0.35, 0, 1, 1.4, 0.1, 4 and 2 as f32 values widened to f64.
    m.params.insert("cell_size".to_string(), f32_param(0x4018_0000_0000_0000, 0x4000_0000_0000_0000, 0x4040_0000_0000_0000, "Cell Size"));
    m.params.insert("dot_softness".to_string(), f32_param(0x3fd6_6666_6000_0000, 0, 0x3ff0_0000_0000_0000, "Softness"));
    m.params.insert("contrast".to_string(), f32_param(0x3ff6_6666_6000_0000, 0x3fb9_9999_a000_0000, 0x4010_0000_0000_0000, "Contrast"));
    m.params.insert("exposure".to_string(), f32_param(0x3ff0_0000_0000_0000, 0, 0x4010_0000_0000_0000, "Exposure"));
    m.params.insert("glow".to_string(), f32_param(0x3fe0_0000_0000_0000, 0, 0x4000_0000_0000_0000, "Glow"));
    m.params.insert("mirror".to_string(), bool_param(true, "Mirror (selfie)"));
    m
}

} // verus!
