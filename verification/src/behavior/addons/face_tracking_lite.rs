//! Face-tracking-lite: a simple CPU face tracker that publishes a face
//! position, rotation and scale. This module holds its signal declarations
//! and the integer geometry of its analysis grid: the grid size for a source
//! frame and the source rows/columns each grid cell averages. The largest
//! bright component of the grid is found by [`super::blob::largest_blob`].

use crate::addon::manifest::{AddonKind, Manifest, Permissions, LEGACY_MANIFEST_VERSION};
use crate::addon::schema::{ParamSpec, UiHints};
use crate::signal::{SignalKind, SignalSpec};
use std::collections::BTreeMap;
use crate::addon::keys::string_keys_ordered;
use vstd::prelude::*;

verus! {

broadcast use vstd::string::to_string_from_display_ensures_for_str;

pub const FACE_POSITION: &'static str = "face.position";

pub const FACE_ROTATION: &'static str = "face.rotation";

pub const FACE_SCALE: &'static str = "face.scale";

/// Width of the downscaled analysis grid (the height follows the source
/// aspect).
pub const DOWNSCALE_W: usize = 80;

pub open spec fn max_usize(a: int, b: int) -> int {
    if a >= b { a } else { b }
}

pub open spec fn min_usize(a: int, b: int) -> int {
    if a <= b { a } else { b }
}

/// The grid for a `src_w × src_h` source: `min(80, max(src_w, 1))` cells
/// wide, `max(width * src_h / max(src_w, 1), 1)` rows.
pub open spec fn grid_size(src_w: int, src_h: int) -> (int, int) {
    let dsw = min_usize(DOWNSCALE_W as int, max_usize(src_w, 1));
    let dsh = max_usize((dsw * src_h) / max_usize(src_w, 1), 1);
    (dsw, dsh)
}

/// The analysis grid for a `src_w × src_h` source frame.
pub fn grid_dims(src_w: usize, src_h: usize) -> (r: (usize, usize))
    requires
        DOWNSCALE_W * src_h <= usize::MAX,
    ensures
        (r.0 as int, r.1 as int) == grid_size(src_w as int, src_h as int),
        1 <= r.0 <= DOWNSCALE_W,
        r.1 >= 1,
{
    let w1 = if src_w > 1 { src_w } else { 1 };
    let dsw = if DOWNSCALE_W < w1 { DOWNSCALE_W } else { w1 };
    assert(dsw * src_h <= DOWNSCALE_W * src_h) by (nonlinear_arith)
        requires dsw <= DOWNSCALE_W, src_h >= 0;
    let q = (dsw * src_h) / w1;
    let dsh = if q > 1 { q } else { 1 };
    (dsw, dsh)
}

/// The source span `[lo, hi)` that grid cell `g` of `grid` cells averages
/// along a source axis of `src` pixels: from `g * src / grid` to
/// `(g + 1) * src / grid`, at least one pixel, clipped to the axis.
pub open spec fn span_of(g: int, grid: int, src: int) -> (int, int) {
    let lo = g * src / grid;
    let hi = min_usize(max_usize((g + 1) * src / grid, lo + 1), src);
    (lo, hi)
}

/// The source pixels grid cell `g` covers along one axis.
pub fn cell_span(g: usize, grid: usize, src: usize) -> (r: (usize, usize))
    requires
        grid > 0,
        g < grid,
        (g + 1) * src <= usize::MAX,
    ensures
        (r.0 as int, r.1 as int) == span_of(g as int, grid as int, src as int),
{
    assert((g + 1) * src == g * src + src) by (nonlinear_arith);
    let lo = g * src / grid;
    assert(lo as int <= g * src) by (nonlinear_arith)
        requires grid > 0, lo as int == (g * src) as int / grid as int, g * src >= 0;
    assert(lo < usize::MAX) by {
        if src == 0 {
            assert(g * src == 0) by (nonlinear_arith) requires src == 0;
        }
    }
    let up = (g + 1) * src / grid;
    let a = if up > lo + 1 { up } else { lo + 1 };
    let hi = if a < src { a } else { src };
    (lo, hi)
}

/// What this behavior publishes, in slot order: position (vec2), rotation
/// (f32, radians), scale (f32).
pub fn published() -> (r: Vec<SignalSpec>)
    ensures
        r@.len() == 3,
        r@[0].name@ == FACE_POSITION@ && r@[0].kind == SignalKind::Vec2,
        r@[1].name@ == FACE_ROTATION@ && r@[1].kind == SignalKind::F32,
        r@[2].name@ == FACE_SCALE@ && r@[2].kind == SignalKind::F32,
{
    let mut v: Vec<SignalSpec> = Vec::new();
    v.push(SignalSpec { name: FACE_POSITION.to_string(), kind: SignalKind::Vec2 });
    v.push(SignalSpec { name: FACE_ROTATION.to_string(), kind: SignalKind::F32 });
    v.push(SignalSpec { name: FACE_SCALE.to_string(), kind: SignalKind::F32 });
    v
}

/// The UI hints of a tracking parameter.
fn tracking_hints(label: &str, help: &str) -> (r: UiHints)
    ensures
        r.label matches Some(l) && l@ == label@,
        r.group matches Some(g) && g@ == "Tracking"@,
        r.help matches Some(h) && h@ == help@,
{
    UiHints { label: Some(label.to_string()), group: Some("Tracking".to_string()), help: Some(help.to_string()) }
}

/// A float declaration with these bit patterns and "Tracking" hints.
pub open spec fn tracking_f32(p: ParamSpec, default: u64, min: Option<u64>, max: Option<u64>, label: Seq<char>, help: Seq<char>) -> bool {
    match p {
        ParamSpec::F32 { default: d, min: lo, max: hi, ui } => {
            &&& d == default && lo == min && hi == max
            &&& ui.label matches Some(l) && l@ == label
            &&& ui.group matches Some(g) && g@ == "Tracking"@
            &&& ui.help matches Some(h) && h@ == help
        },
        _ => false,
    }
}

/// The configurable parameters, in key order: `smoothing` (EMA factor, f32
/// in `[0.02, 1]`, default 0.2) and `threshold` (foreground sensitivity, f32
/// in `[0, 1]`, default 0.5), as the bit patterns of those `f32` values
/// widened to `f64`, with their "Tracking" hints.
pub fn param_entries() -> (r: Vec<(String, ParamSpec)>)
    ensures
        r@.len() == 2,
        r@[0].0@ == "smoothing"@,
        tracking_f32(r@[0].1, 0x3fc9_9999_a000_0000, Some(0x3f94_7ae1_4000_0000), Some(0x3ff0_0000_0000_0000),
            "Smoothing"@, "EMA factor; lower is smoother and slower to respond."@),
        r@[1].0@ == "threshold"@,
        tracking_f32(r@[1].1, 0x3fe0_0000_0000_0000, Some(0), Some(0x3ff0_0000_0000_0000),
            "Threshold"@, "Foreground sensitivity relative to mean luma."@),
{
    let mut v: Vec<(String, ParamSpec)> = Vec::new();
    v.push((
        "smoothing".to_string(),
        ParamSpec::F32 {
            default: 0x3fc9_9999_a000_0000,
            min: Some(0x3f94_7ae1_4000_0000),
            max: Some(0x3ff0_0000_0000_0000),
            ui: tracking_hints("Smoothing", "EMA factor; lower is smoother and slower to respond."),
        },
    ));
    v.push((
        "threshold".to_string(),
        ParamSpec::F32 {
            default: 0x3fe0_0000_0000_0000,
            min: Some(0),
            max: Some(0x3ff0_0000_0000_0000),
            ui: tracking_hints("Threshold", "Foreground sensitivity relative to mean luma."),
        },
    ));
    v
}

/// The two declarations keyed by name: `smoothing` and `threshold`, each
/// with its [`param_entries`] declaration.
pub open spec fn face_params_hold(m: Map<String, ParamSpec>) -> bool {
    &&& m.len() == 2
    &&& forall|k: String| #[trigger] m.contains_key(k) ==> {
        ||| k@ == "smoothing"@ && tracking_f32(m[k], 0x3fc9_9999_a000_0000, Some(0x3f94_7ae1_4000_0000),
            Some(0x3ff0_0000_0000_0000), "Smoothing"@, "EMA factor; lower is smoother and slower to respond."@)
        ||| k@ == "threshold"@ && tracking_f32(m[k], 0x3fe0_0000_0000_0000, Some(0), Some(0x3ff0_0000_0000_0000),
            "Threshold"@, "Foreground sensitivity relative to mean luma."@)
    }
    &&& exists|k: String| #[trigger] m.contains_key(k) && k@ == "smoothing"@
    &&& exists|k: String| #[trigger] m.contains_key(k) && k@ == "threshold"@
}

/// The configurable parameters ([`param_entries`]) keyed by name. The same
/// map seeds the manifest and the instance defaults. What a `BTreeMap`
/// holds is known only where `String` keys obey their ordering laws, as
/// vstd's specification of `BTreeMap::insert` has it.
pub fn params() -> (r: BTreeMap<String, ParamSpec>)
    ensures
        string_keys_ordered() ==> face_params_hold(r@),
{
    let mut p: BTreeMap<String, ParamSpec> = BTreeMap::new();
    let mut entries = param_entries();
    let ghost e0 = entries@;
    let last = entries.pop();
    let first = entries.pop();
    assert(last == Some(e0[1]) && first == Some(e0[0]));
    match (first, last) {
        (Some((k0, s0)), Some((k1, s1))) => {
            p.insert(k0, s0);
            p.insert(k1, s1);
            proof {
                if string_keys_ordered() {
                    reveal_strlit("smoothing");
                    reveal_strlit("threshold");
                    assert(k0@ == "smoothing"@ && k1@ == "threshold"@);
                    assert("smoothing"@[0] != "threshold"@[0]);
                    assert(k0@ != k1@);
                    assert(k0 != k1);
                    assert(p@.dom() =~= Set::empty().insert(k0).insert(k1));
                    assert(p@.contains_key(k0));
                    assert(p@.contains_key(k1));
                }
            }
        },
        _ => {},
    }
    p
}

/// The addon's manifest: a behavior addon `face-tracking-lite` 1.0.0 (MIT)
/// for engine API 1, publishing position, rotation and scale. It is written
/// in the version-1 manifest format (no `[runtime]` section: the behavior
/// runs in process).
pub fn manifest() -> (r: Manifest)
    ensures
        r.manifest_version == LEGACY_MANIFEST_VERSION,
        r.id@ == "face-tracking-lite"@,
        r.name@ == "Face Tracking Lite"@,
        r.version@ == "1.0.0"@,
        r.author@ == "static (example)"@,
        r.description@ == "CPU blob-based face tracker: publishes face.position, face.rotation, face.scale."@,
        r.license matches Some(l) && l@ == "MIT"@,
        r.homepage is None,
        r.tags@.map_values(|t: String| t@) == seq!["behavior"@, "face"@, "tracking"@, "signal"@],
        r.api_min == 1 && r.api_max == 1,
        r.kind == AddonKind::Behavior,
        r.runtime is None && r.permissions_v2 is None && r.sandbox is None,
        r.runner is None && r.entry is None,
        r.permissions == (Permissions {
            filesystem: crate::addon::manifest::FilesystemPerm::Denied,
            network: crate::addon::manifest::NetworkPerm::Denied,
            gpu: crate::addon::manifest::GpuPerm::Default,
        }),
        r.shaders@.len() == 0 && r.assets@.len() == 0,
        r.publish@.len() == 3,
        r.consume@.len() == 0,
        r.publish@[0].name@ == FACE_POSITION@ && r.publish@[0].kind == SignalKind::Vec2,
        r.publish@[1].name@ == FACE_ROTATION@ && r.publish@[1].kind == SignalKind::F32,
        r.publish@[2].name@ == FACE_SCALE@ && r.publish@[2].kind == SignalKind::F32,
        string_keys_ordered() ==> face_params_hold(r.params@),
{
    let tags = vec!["behavior".to_string(), "face".to_string(), "tracking".to_string(), "signal".to_string()];
    assert(tags@.map_values(|t: String| t@) =~= seq!["behavior"@, "face"@, "tracking"@, "signal"@]);
    Manifest {
        manifest_version: LEGACY_MANIFEST_VERSION,
        id: "face-tracking-lite".to_string(),
        name: "Face Tracking Lite".to_string(),
        version: "1.0.0".to_string(),
        author: "static (example)".to_string(),
        description: "CPU blob-based face tracker: publishes face.position, face.rotation, face.scale.".to_string(),
        license: Some("MIT".to_string()),
        homepage: None,
        tags,
        api_min: 1,
        api_max: 1,
        kind: AddonKind::Behavior,
        runtime: None,
        permissions_v2: None,
        sandbox: None,
        runner: None,
        entry: None,
        permissions: Permissions::default(),
        shaders: Vec::new(),
        assets: Vec::new(),
        params: params(),
        publish: published(),
        consume: Vec::new(),
    }
}

} // verus!
