//! Addon manifest: identity, version, API compatibility, requested runtime,
//! permissions and sandbox, declared shaders, assets and parameters, and the
//! signals it publishes and consumes — and its structural validation.
//!
//! Whether the parameter declarations are self-consistent involves float
//! comparisons for float parameters; it is decided by the caller and handed
//! to [`Manifest::validate`] as its first problem, if any.

use super::error::AddonError;
use super::schema::{
    declared_param_problem, declared_problem, first_param_problem_from, float_verdict_at, lemma_first_problem_at,
    lemma_no_problem, verdict_at, verdict_view, verdict_views, ParamSpec,
};
use crate::signal::{SignalRef, SignalSpec};
use crate::text::{all_chars, debug_quote, debug_text, decimal, is_blank, is_white_space, u64_text};
use std::collections::BTreeMap;
use vstd::prelude::*;
use vstd::std_specs::btree::{increasing_seq, spec_btree_map_iter};
use vstd::std_specs::iter::{IteratorSpec, VerusForLoopWrapper};
use super::keys::{lemma_string_keys_ordered, string_keys_ordered};
use vstd::string::{StrSliceExecFns, StringExecFns};

verus! {

broadcast use vstd::string::to_string_from_display_ensures_for_str;

pub const MANIFEST_FILENAME: &'static str = "manifest.toml";

/// Format-version of the manifest itself.
pub const CURRENT_MANIFEST_VERSION: u32 = 2;

pub const LEGACY_MANIFEST_VERSION: u32 = 1;

/// Pipeline (filter) addons run on the render thread; behavior addons produce
/// signals on the behavior thread.
#[derive(Debug, Clone, Copy, PartialEq, Eq, Structural)]
pub enum AddonKind {
    Pipeline,
    Behavior,
}

#[derive(Debug, Clone, Copy, PartialEq, Eq, Structural)]
pub enum FilesystemPerm {
    /// No filesystem access (`"none"` in the file).
    Denied,
    /// Read-only access to files bundled inside the addon's own directory.
    AddonLocal,
    /// Read access to host paths chosen by the user at install time.
    Host,
}

#[derive(Debug, Clone, Copy, PartialEq, Eq, Structural)]
pub enum NetworkPerm {
    /// No network access (`"none"` in the file).
    Denied,
    Http,
}

#[derive(Debug, Clone, Copy, PartialEq, Eq, Structural)]
pub enum GpuPerm {
    Default,
    /// Compute shaders, larger texture allocations, etc.
    Extended,
}

impl Default for FilesystemPerm {
    fn default() -> (r: Self)
        ensures r == FilesystemPerm::Denied,
    {
        FilesystemPerm::Denied
    }
}

impl Default for NetworkPerm {
    fn default() -> (r: Self)
        ensures r == NetworkPerm::Denied,
    {
        NetworkPerm::Denied
    }
}

impl Default for GpuPerm {
    fn default() -> (r: Self)
        ensures r == GpuPerm::Default,
    {
        GpuPerm::Default
    }
}

/// Legacy (v1) permission block.
#[derive(Debug, Clone, Copy, PartialEq, Eq, Structural)]
pub struct Permissions {
    pub filesystem: FilesystemPerm,
    pub network: NetworkPerm,
    pub gpu: GpuPerm,
}

impl Default for Permissions {
    /// No filesystem, no network, default GPU.
    fn default() -> (r: Self)
        ensures
            r == (Permissions {
                filesystem: FilesystemPerm::Denied,
                network: NetworkPerm::Denied,
                gpu: GpuPerm::Default,
            }),
    {
        Permissions { filesystem: FilesystemPerm::Denied, network: NetworkPerm::Denied, gpu: GpuPerm::Default }
    }
}

/// The v2 runtime section: which runtime runs the addon, its entry point and
/// environment.
#[derive(Debug, Clone)]
pub struct RuntimeSpec {
    /// The runtime kind ("native", "wasm", "js", ...); `type` in the file.
    pub runtime_type: String,
    pub entry: String,
    pub env: BTreeMap<String, String>,
}

/// The v2 permission block.
#[derive(Debug, Clone)]
pub struct PermissionsV2 {
    pub camera: bool,
    pub gpu: GpuPerm,
    /// Allowed network domains.
    pub network: Vec<String>,
}

impl Default for PermissionsV2 {
    /// No camera, default GPU, no domains.
    fn default() -> (r: Self)
        ensures
            !r.camera,
            r.gpu == GpuPerm::Default,
            r.network@.len() == 0,
    {
        PermissionsV2 { camera: false, gpu: GpuPerm::Default, network: Vec::new() }
    }
}

/// A declared shader.
/// The OS confinement an addon asks for. `cpu_limit` is the bit pattern of
/// its `f32` value.
#[derive(Debug, Clone, Default)]
pub struct SandboxSpec {
    /// `"none"`, `"readonly"` or `"readwrite"`.
    pub filesystem: String,
    pub network: bool,
    pub memory_mb: Option<u32>,
    pub cpu_limit: Option<u32>,
}

#[derive(Debug, Clone)]
pub struct ShaderDecl {
    pub id: String,
    pub path: String,
    pub stage: String,
    pub entry: String,
}

/// A declared asset.
#[derive(Debug, Clone)]
pub struct AssetDecl {
    pub id: String,
    pub path: String,
    pub kind: String,
}

/// Stage of a shader declared without one.
pub fn default_shader_stage() -> (r: String)
    ensures r@ == "fragment"@,
{
    "fragment".to_string()
}

/// Entry point of a shader declared without one.
pub fn default_shader_entry() -> (r: String)
    ensures r@ == "fs_main"@,
{
    "fs_main".to_string()
}

/// Kind of an asset declared without one.
pub fn default_asset_kind() -> (r: String)
    ensures r@ == "binary"@,
{
    "binary".to_string()
}

/// The addon manifest.
#[derive(Debug, Clone)]
pub struct Manifest {
    pub manifest_version: u32,
    pub id: String,
    pub name: String,
    pub version: String,
    pub author: String,
    pub description: String,
    pub license: Option<String>,
    pub homepage: Option<String>,
    pub tags: Vec<String>,
    pub api_min: u32,
    pub api_max: u32,
    pub kind: AddonKind,
    pub runtime: Option<RuntimeSpec>,
    pub permissions_v2: Option<PermissionsV2>,
    pub sandbox: Option<SandboxSpec>,
    /// Legacy v1 runner kind.
    pub runner: Option<String>,
    /// Legacy v1 entry point.
    pub entry: Option<String>,
    pub permissions: Permissions,
    pub shaders: Vec<ShaderDecl>,
    pub assets: Vec<AssetDecl>,
    pub params: BTreeMap<String, ParamSpec>,
    /// Signals this addon publishes (behaviors).
    pub publish: Vec<SignalSpec>,
    /// Signals this addon consumes (filters).
    pub consume: Vec<SignalRef>,
}

/// A character allowed in an addon id: `a-z 0-9 . _ -`.
pub open spec fn is_id_char(c: char) -> bool {
    ('a' <= c <= 'z') || ('0' <= c <= '9') || c == '.' || c == '_' || c == '-'
}

/// A well-formed addon id: non-empty, only `a-z 0-9 . _ -`.
pub open spec fn valid_id(id: Seq<char>) -> bool {
    id.len() > 0 && all_chars(id, |c: char| is_id_char(c))
}

pub fn is_valid_id(id: &str) -> (r: bool)
    ensures r == valid_id(id@),
{
    let n = id.unicode_len();
    if n == 0 {
        return false;
    }
    let mut i: usize = 0;
    while i < n
        invariant
            n == id@.len(),
            i <= n,
            forall|k: int| 0 <= k < i ==> is_id_char(#[trigger] id@[k]),
        decreases n - i,
    {
        let c = id.get_char(i);
        if !(('a' <= c && c <= 'z') || ('0' <= c && c <= '9') || c == '.' || c == '_' || c == '-') {
            return false;
        }
        i = i + 1;
    }
    true
}

/// The texts of a sequence of string slices.
pub open spec fn texts(s: Seq<&str>) -> Seq<Seq<char>> {
    s.map_values(|x: &str| x@)
}

/// Whether `ids[j]` repeats an earlier id.
pub open spec fn repeats_earlier(ids: Seq<Seq<char>>, j: int) -> bool {
    exists|i: int| 0 <= i < j && ids[i] == ids[j]
}

/// The first position, at or after `from`, whose id repeats an earlier one.
pub open spec fn first_repeat_from(ids: Seq<Seq<char>>, from: int) -> Option<int>
    decreases ids.len() - from,
{
    if from < 0 || from >= ids.len() {
        None
    } else if repeats_earlier(ids, from) {
        Some(from)
    } else {
        first_repeat_from(ids, from + 1)
    }
}

proof fn lemma_first_repeat_in_range(ids: Seq<Seq<char>>, from: int)
    ensures
        first_repeat_from(ids, from) matches Some(j) ==> from <= j < ids.len() && repeats_earlier(ids, j),
    decreases ids.len() - from,
{
    if 0 <= from < ids.len() && !repeats_earlier(ids, from) {
        lemma_first_repeat_in_range(ids, from + 1);
    }
}

/// The message for a repeated id of the given kind.
pub open spec fn duplicate_message(kind: Seq<char>, id: Seq<char>) -> Seq<char> {
    "duplicate "@ + kind + " id "@ + debug_text(id)
}

/// `Ok` when all ids are distinct; otherwise the first repeated id (in order)
/// is reported.
pub fn check_unique_ids(kind: &str, ids: &[&str]) -> (r: Result<(), AddonError>)
    ensures
        match first_repeat_from(texts(ids@), 0) {
            None => r is Ok,
            Some(j) => (r matches Err(AddonError::ManifestInvalid(m)) && m@ == duplicate_message(kind@, ids@[j]@)),
        },
{
    let ghost v = texts(ids@);
    let mut j: usize = 0;
    while j < ids.len()
        invariant
            v == texts(ids@),
            j <= ids@.len(),
            first_repeat_from(v, 0) == first_repeat_from(v, j as int),
        decreases ids@.len() - j,
    {
        let mut i: usize = 0;
        while i < j
            invariant
                v == texts(ids@),
                i <= j < ids@.len(),
                first_repeat_from(v, 0) == first_repeat_from(v, j as int),
                forall|k: int| 0 <= k < i ==> v[k] != v[j as int],
            decreases j - i,
        {
            if crate::text::str_eq(ids[i], ids[j]) {
                assert(v[i as int] == ids@[i as int]@ && v[j as int] == ids@[j as int]@);
                assert(repeats_earlier(v, j as int));
                let msg = "duplicate ".to_string().concat(kind).concat(" id ").concat(debug_quote(ids[j]).as_str());
                return Err(AddonError::ManifestInvalid(msg));
            }
            i = i + 1;
        }
        assert(!repeats_earlier(v, j as int)) by {
            if repeats_earlier(v, j as int) {
                let w = choose|w: int| 0 <= w < j && v[w] == v[j as int];
                assert(v[w] != v[j as int]);
            }
        }
        j = j + 1;
    }
    Ok(())
}

/// The message for an unsupported manifest format version.
pub open spec fn version_message(v: u32) -> Seq<char> {
    "unsupported manifest_version "@ + decimal(v as nat) + " (this engine expects <= 2)"@
}

/// The message for an id with characters outside `a-z 0-9 . _ -`.
pub open spec fn bad_id_message(id: Seq<char>) -> Seq<char> {
    "addon id "@ + debug_text(id) + " contains invalid characters (allowed: a-z 0-9 . _ -, lowercase only)"@
}

/// The message for an inverted API range.
pub open spec fn api_range_message(min: u32, max: u32) -> Seq<char> {
    "api_min ("@ + decimal(min as nat) + ") > api_max ("@ + decimal(max as nat) + ")"@
}

/// Whether a text is empty once trimmed.
pub open spec fn blank(s: Seq<char>) -> bool {
    all_chars(s, |c: char| is_white_space(c))
}

pub open spec fn shader_ids(m: Manifest) -> Seq<Seq<char>> {
    m.shaders@.map_values(|d: ShaderDecl| d.id@)
}

pub open spec fn asset_ids(m: Manifest) -> Seq<Seq<char>> {
    m.assets@.map_values(|d: AssetDecl| d.id@)
}

/// The first rule a manifest breaks, as the message reporting it, in the
/// order the rules are checked: format version, id present, id characters,
/// name, version, API range, unique shader ids, unique asset ids, parameter
/// self-consistency (`param_issue`, the manifest's first parameter problem:
/// see [`is_param_issue`]), and the v2 runtime section.
pub open spec fn validation_problem(m: Manifest, param_issue: Option<Seq<char>>) -> Option<Seq<char>> {
    if m.manifest_version > CURRENT_MANIFEST_VERSION {
        Some(version_message(m.manifest_version))
    } else if m.id@.len() == 0 {
        Some("addon id is empty"@)
    } else if !valid_id(m.id@) {
        Some(bad_id_message(m.id@))
    } else if blank(m.name@) {
        Some("addon name is empty"@)
    } else if blank(m.version@) {
        Some("addon version is empty"@)
    } else if m.api_min > m.api_max {
        Some(api_range_message(m.api_min, m.api_max))
    } else if first_repeat_from(shader_ids(m), 0) is Some {
        Some(duplicate_message("shader"@, shader_ids(m)[first_repeat_from(shader_ids(m), 0)->0]))
    } else if first_repeat_from(asset_ids(m), 0) is Some {
        Some(duplicate_message("asset"@, asset_ids(m)[first_repeat_from(asset_ids(m), 0)->0]))
    } else if param_issue is Some {
        param_issue
    } else if m.manifest_version == 2 && m.runtime is None {
        Some("manifest v2 requires [runtime] section"@)
    } else {
        None
    }
}

/// `issue` is the first of `m`'s declared parameters, in key order, whose
/// default does not satisfy its own declaration (float ranges decided by
/// `float_verdicts`, aligned with that order), as its message. This pins
/// `issue` where `String` keys obey their ordering laws, which vstd needs
/// before it says what a `BTreeMap` holds and in which order.
pub open spec fn is_param_issue(m: Manifest, float_verdicts: Seq<Result<(), Seq<char>>>, issue: Option<Seq<char>>) -> bool {
    string_keys_ordered() ==> exists|s: Seq<(String, ParamSpec)>| {
        &&& #[trigger] in_key_order(m.params@, s)
        &&& issue == first_param_problem_from(entry_views(s), float_verdicts, 0)
    }
}

/// The view of an optional text.
pub open spec fn opt_text(s: Option<String>) -> Option<Seq<char>> {
    match s {
        Some(t) => Some(t@),
        None => None,
    }
}

impl Manifest {
    /// Structural validation: `Ok` exactly when no rule is broken; otherwise
    /// the first broken rule is reported as `ManifestInvalid`. Every
    /// declared parameter's default is checked against its own declaration,
    /// in key order; `float_verdicts` (aligned with that order) says how
    /// each float default fares against its range, a comparison of floats
    /// made by the caller. A float declaration without a verdict is a
    /// problem ("float range not checked").
    pub fn validate(&self, float_verdicts: &[Result<(), String>]) -> (r: Result<(), AddonError>)
        ensures
            exists|issue: Option<Seq<char>>| {
                &&& #[trigger] is_param_issue(*self, verdict_views(float_verdicts@), issue)
                &&& match validation_problem(*self, issue) {
                    None => r is Ok,
                    Some(msg) => (r matches Err(AddonError::ManifestInvalid(m)) && m@ == msg),
                }
            },
    {
        let param_issue = params_problem(&self.params, float_verdicts);
        let ghost issue = opt_text(param_issue);
        assert(is_param_issue(*self, verdict_views(float_verdicts@), issue));
        if self.manifest_version > CURRENT_MANIFEST_VERSION {
            let msg = "unsupported manifest_version ".to_string()
                .concat(u64_text(self.manifest_version as u64).as_str())
                .concat(" (this engine expects <= 2)");
            return Err(AddonError::ManifestInvalid(msg));
        }
        if self.id.as_str().unicode_len() == 0 {
            return Err(AddonError::ManifestInvalid("addon id is empty".to_string()));
        }
        if !is_valid_id(self.id.as_str()) {
            let msg = "addon id ".to_string()
                .concat(debug_quote(self.id.as_str()).as_str())
                .concat(" contains invalid characters (allowed: a-z 0-9 . _ -, lowercase only)");
            return Err(AddonError::ManifestInvalid(msg));
        }
        if is_blank(self.name.as_str()) {
            return Err(AddonError::ManifestInvalid("addon name is empty".to_string()));
        }
        if is_blank(self.version.as_str()) {
            return Err(AddonError::ManifestInvalid("addon version is empty".to_string()));
        }
        if self.api_min > self.api_max {
            let msg = "api_min (".to_string()
                .concat(u64_text(self.api_min as u64).as_str())
                .concat(") > api_max (")
                .concat(u64_text(self.api_max as u64).as_str())
                .concat(")");
            return Err(AddonError::ManifestInvalid(msg));
        }
        let mut ids: Vec<&str> = Vec::new();
        let mut i: usize = 0;
        while i < self.shaders.len()
            invariant
                i <= self.shaders@.len(),
                texts(ids@) == shader_ids(*self).subrange(0, i as int),
            decreases self.shaders@.len() - i,
        {
            let idref = self.shaders[i].id.as_str();
            ids.push(idref);
            assert(texts(ids@) =~= shader_ids(*self).subrange(0, i as int).push(self.shaders@[i as int].id@));
            i = i + 1;
            assert(shader_ids(*self).subrange(0, i as int) =~= shader_ids(*self).subrange(0, i - 1).push(self.shaders@[i - 1].id@));
        }
        assert(shader_ids(*self).subrange(0, i as int) =~= shader_ids(*self));
        let slice = ids.as_slice();
        assert(texts(slice@) =~= shader_ids(*self));
        match check_unique_ids("shader", slice) {
            Ok(()) => {},
            Err(e) => {
                proof { lemma_first_repeat_in_range(shader_ids(*self), 0); }
                let ghost j = first_repeat_from(shader_ids(*self), 0)->0;
                assert(texts(slice@)[j] == slice@[j]@);
                return Err(e);
            },
        }
        let mut ids: Vec<&str> = Vec::new();
        let mut i: usize = 0;
        while i < self.assets.len()
            invariant
                i <= self.assets@.len(),
                texts(ids@) == asset_ids(*self).subrange(0, i as int),
            decreases self.assets@.len() - i,
        {
            let idref = self.assets[i].id.as_str();
            ids.push(idref);
            assert(texts(ids@) =~= asset_ids(*self).subrange(0, i as int).push(self.assets@[i as int].id@));
            i = i + 1;
            assert(asset_ids(*self).subrange(0, i as int) =~= asset_ids(*self).subrange(0, i - 1).push(self.assets@[i - 1].id@));
        }
        assert(asset_ids(*self).subrange(0, i as int) =~= asset_ids(*self));
        let slice = ids.as_slice();
        assert(texts(slice@) =~= asset_ids(*self));
        match check_unique_ids("asset", slice) {
            Ok(()) => {},
            Err(e) => {
                proof { lemma_first_repeat_in_range(asset_ids(*self), 0); }
                let ghost j = first_repeat_from(asset_ids(*self), 0)->0;
                assert(texts(slice@)[j] == slice@[j]@);
                return Err(e);
            },
        }
        if let Some(issue) = param_issue {
            return Err(AddonError::ManifestInvalid(issue));
        }
        if self.manifest_version == 2 && self.runtime.is_none() {
            return Err(AddonError::ManifestInvalid("manifest v2 requires [runtime] section".to_string()));
        }
        Ok(())
    }

    /// Move a v1 manifest to the v2 structure in memory: the legacy
    /// runner/entry pair becomes the runtime section (when both are present),
    /// the legacy GPU permission seeds a v2 permission block, and the format
    /// version becomes 2. A v2 manifest is left as it is.
    pub fn migrate_to_v2(&mut self)
        ensures
            old(self).manifest_version >= 2 ==> *final(self) == *old(self),
            old(self).manifest_version < 2 ==> {
                &&& final(self).manifest_version == 2
                &&& (final(self).permissions_v2 matches Some(p) && !p.camera && p.gpu == old(self).permissions.gpu
                    && p.network@.len() == 0)
                &&& (old(self).runner is Some && old(self).entry is Some) ==> (final(self).runtime matches Some(rt)
                    && rt.runtime_type@ == old(self).runner->0@ && rt.entry@ == old(self).entry->0@
                    && rt.env@ == Map::<String, String>::empty())
                &&& !(old(self).runner is Some && old(self).entry is Some) ==> final(self).runtime == old(self).runtime
                &&& final(self).id == old(self).id && final(self).name == old(self).name
                &&& final(self).version == old(self).version && final(self).author == old(self).author
                &&& final(self).description == old(self).description && final(self).license == old(self).license
                &&& final(self).homepage == old(self).homepage && final(self).tags == old(self).tags
                &&& final(self).api_min == old(self).api_min && final(self).api_max == old(self).api_max
                &&& final(self).kind == old(self).kind && final(self).runner == old(self).runner
                &&& final(self).entry == old(self).entry && final(self).permissions == old(self).permissions
                &&& final(self).shaders == old(self).shaders && final(self).assets == old(self).assets
                &&& final(self).sandbox == old(self).sandbox && final(self).params == old(self).params
                &&& final(self).publish == old(self).publish && final(self).consume == old(self).consume
            },
    {
        if self.manifest_version >= 2 {
            return;
        }
        let runtime_type = match &self.runner {
            Some(r) => Some(r.clone()),
            None => None,
        };
        let entry = match &self.entry {
            Some(e) => Some(e.clone()),
            None => None,
        };
        if let Some(rt) = runtime_type {
            if let Some(en) = entry {
                self.runtime = Some(RuntimeSpec { runtime_type: rt, entry: en, env: BTreeMap::new() });
            }
        }
        let mut p2 = PermissionsV2::default();
        p2.gpu = self.permissions.gpu;
        self.permissions_v2 = Some(p2);
        self.manifest_version = 2;
    }
}

/// `s` lists the entries of `m` in increasing key order, each once.
pub open spec fn in_key_order(m: Map<String, ParamSpec>, s: Seq<(String, ParamSpec)>) -> bool {
    &&& s.len() == m.dom().len()
    &&& increasing_seq(s.map_values(|e: (String, ParamSpec)| e.0))
    &&& forall|i: int| 0 <= i < s.len() ==> m.contains_key(#[trigger] s[i].0) && m[s[i].0] == s[i].1
}

/// Entries with their keys as text.
pub open spec fn entry_views(s: Seq<(String, ParamSpec)>) -> Seq<(Seq<char>, ParamSpec)> {
    s.map_values(|e: (String, ParamSpec)| (e.0@, e.1))
}

/// The first parameter problem of `params`, taken in key order, with the
/// float verdicts aligned to that order.
pub fn params_problem(params: &BTreeMap<String, ParamSpec>, float_verdicts: &[Result<(), String>]) -> (r: Option<String>)
    ensures
        string_keys_ordered() ==> exists|s: Seq<(String, ParamSpec)>| {
            &&& #[trigger] in_key_order(params@, s)
            &&& (match r {
                Some(m) => Some(m@),
                None => None::<Seq<char>>,
            }) == first_param_problem_from(
                entry_views(s),
                verdict_views(float_verdicts@),
                0,
            )
        },
{
    broadcast use vstd::std_specs::btree::group_btree_axioms;
    proof { lemma_string_keys_ordered(); }
    let ghost fv = verdict_views(float_verdicts@);
    let n = params.len();
    let entries = params.iter();
    let ghost ents = entries.remaining().map_values(|kv: (&String, &ParamSpec)| (*kv.0, *kv.1));
    let ghost ps = entry_views(ents);
    proof {
        if string_keys_ordered() {
            let v = entries.remaining();
            assert(v == spec_btree_map_iter(params).remaining());
            assert(v.len() == params@.dom().len());
            assert(ents.map_values(|e: (String, ParamSpec)| e.0) =~= v.map_values(|kv: (&String, &ParamSpec)| *kv.0));
            assert forall|k: int| 0 <= k < ents.len() implies params@.contains_key(#[trigger] ents[k].0)
                && params@[ents[k].0] == ents[k].1 by {
                assert(ents[k] == (*v[k].0, *v[k].1));
                assert(params@.contains_key(*v[k].0));
            }
        }
    }
    let mut walk = VerusForLoopWrapper::new(entries, Ghost(None));
    let mut i: usize = 0;
    while i < n
        invariant
            walk.wf(),
            walk.index() == i,
            walk.seq() == entries.remaining(),
            ents == walk.seq().map_values(|kv: (&String, &ParamSpec)| (*kv.0, *kv.1)),
            ps == entry_views(ents),
            fv == verdict_views(float_verdicts@),
            string_keys_ordered() ==> {
                &&& in_key_order(params@, ents)
                &&& n == ents.len()
                &&& forall|k: int| 0 <= k < i ==> declared_param_problem(ps[k].0, ps[k].1, verdict_at(fv, k)) is None
            },
        decreases n - i,
    {
        match walk.next() {
            Some((key, spec)) => {
                let verdict = float_verdict_at(float_verdicts, i);
                let problem = declared_problem(key.as_str(), spec, &verdict);
                proof {
                    if string_keys_ordered() {
                        assert(ps[i as int] == (key@, *spec));
                    }
                }
                if problem.is_some() {
                    proof {
                        if string_keys_ordered() {
                            lemma_first_problem_at(ps, fv, i as int);
                        }
                    }
                    return problem;
                }
            },
            None => {
                return None;
            },
        }
        i = i + 1;
    }
    proof {
        if string_keys_ordered() {
            lemma_no_problem(ps, fv, 0);
        }
    }
    None
}

} // verus!
