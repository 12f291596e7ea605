//! Addon registry: the index of installed addons by id, and the addons that
//! failed to load with the reason why.
//!
//! Reading the addons root and parsing each `manifest.toml` is the caller's
//! (filesystem) work; the registry decides what each result means:
//! compatibility, duplicate ids, and what is recorded as rejected. Builtin
//! addons are validated and checked exactly like scanned ones.

use super::compat::{check_compat, ENGINE_API_VERSION};
use super::error::{error_text, AddonError};
use super::manifest::{is_param_issue, opt_text, validation_problem, Manifest};
use super::schema::verdict_views;
use crate::keyed::{keyed_map, keys_unique, lemma_keyed_has, lemma_keyed_keys, lemma_keyed_push};
use crate::text::str_eq;
use vstd::prelude::*;

verus! {

/// One registered addon.
#[derive(Debug, Clone)]
pub struct AddonEntry {
    pub manifest: Manifest,
    /// The addon directory (the one holding `manifest.toml`); empty for a
    /// builtin addon.
    pub root: String,
    /// Whether the addon ships inside the engine rather than on disk.
    pub builtin: bool,
}

/// An addon directory that failed to load or validate, and why.
#[derive(Debug, Clone)]
pub struct RejectedAddon {
    pub root: String,
    pub reason: String,
}

pub struct AddonRegistry {
    entries: Vec<AddonEntry>,
    rejected: Vec<RejectedAddon>,
    engine_api: u32,
}

spec fn rows_of(e: Seq<AddonEntry>) -> Seq<(Seq<char>, AddonEntry)> {
    e.map_values(|a: AddonEntry| (a.manifest.id@, a))
}

/// Whether `engine_api` lies in the manifest's declared API range.
pub open spec fn compatible(m: Manifest, engine_api: u32) -> bool {
    m.api_min <= engine_api <= m.api_max
}

impl AddonRegistry {
    #[verifier::type_invariant]
    closed spec fn ids_distinct(&self) -> bool {
        keys_unique(rows_of(self.entries@))
    }

    /// The registered addons by id.
    pub closed spec fn spec_entries(&self) -> Map<Seq<char>, AddonEntry> {
        keyed_map(rows_of(self.entries@))
    }

    /// The rejected addon directories, in the order they were recorded.
    pub closed spec fn spec_rejected(&self) -> Seq<RejectedAddon> {
        self.rejected@
    }

    /// The engine API version addons are checked against.
    pub closed spec fn spec_engine_api(&self) -> u32 {
        self.engine_api
    }

    /// An empty registry for the current engine API.
    pub fn new() -> (r: Self)
        ensures
            r.spec_entries() == Map::<Seq<char>, AddonEntry>::empty(),
            r.spec_rejected().len() == 0,
            r.spec_engine_api() == ENGINE_API_VERSION,
    {
        Self::with_engine_api(ENGINE_API_VERSION)
    }

    /// An empty registry for a given engine API version.
    pub fn with_engine_api(engine_api: u32) -> (r: Self)
        ensures
            r.spec_entries() == Map::<Seq<char>, AddonEntry>::empty(),
            r.spec_rejected().len() == 0,
            r.spec_engine_api() == engine_api,
    {
        let r = AddonRegistry { entries: Vec::new(), rejected: Vec::new(), engine_api };
        assert(rows_of(r.entries@) =~= Seq::<(Seq<char>, AddonEntry)>::empty());
        r
    }

    fn find(&self, id: &str) -> (r: Option<usize>)
        ensures
            r matches Some(i) ==> i < self.entries@.len() && rows_of(self.entries@)[i as int].0 == id@,
            r is None ==> forall|i: int| 0 <= i < self.entries@.len() ==> rows_of(self.entries@)[i].0 != id@,
    {
        let mut i: usize = 0;
        while i < self.entries.len()
            invariant
                i <= self.entries@.len(),
                forall|k: int| 0 <= k < i ==> rows_of(self.entries@)[k].0 != id@,
            decreases self.entries@.len() - i,
        {
            if str_eq(self.entries[i].manifest.id.as_str(), id) {
                return Some(i);
            }
            i = i + 1;
        }
        None
    }

    /// Index `manifest` under its id unless the engine API is outside its
    /// range or the id is taken.
    fn enter(&mut self, manifest: Manifest, root: String, builtin: bool) -> (r: Result<(), AddonError>)
        ensures
            !compatible(manifest, old(self).spec_engine_api()) ==> r == Err::<(), AddonError>(
                AddonError::IncompatibleApi { engine: old(self).spec_engine_api(), min: manifest.api_min, max: manifest.api_max },
            ) && final(self).spec_entries() == old(self).spec_entries(),
            compatible(manifest, old(self).spec_engine_api()) && old(self).spec_entries().contains_key(manifest.id@)
                ==> (r matches Err(AddonError::DuplicateAddon(d)) && d@ == manifest.id@)
                && final(self).spec_entries() == old(self).spec_entries(),
            compatible(manifest, old(self).spec_engine_api()) && !old(self).spec_entries().contains_key(manifest.id@)
                ==> r is Ok && final(self).spec_entries() == old(self).spec_entries().insert(
                manifest.id@,
                AddonEntry { manifest, root, builtin },
            ),
            final(self).spec_rejected() == old(self).spec_rejected(),
            final(self).spec_engine_api() == old(self).spec_engine_api(),
    {
        proof { use_type_invariant(&*self); }
        if let Err(e) = check_compat(&manifest, self.engine_api) {
            return Err(e);
        }
        let ghost s0 = rows_of(self.entries@);
        match self.find(manifest.id.as_str()) {
            Some(i) => {
                proof { lemma_keyed_has(s0, i as int); }
                Err(AddonError::DuplicateAddon(manifest.id.clone()))
            },
            None => {
                proof { lemma_keyed_keys(s0, manifest.id@); }
                let entry = AddonEntry { manifest, root, builtin };
                let ghost key = entry.manifest.id@;
                proof { lemma_keyed_push(s0, key, entry); }
                let mut entries: Vec<AddonEntry> = Vec::new();
                std::mem::swap(&mut entries, &mut self.entries);
                entries.push(entry);
                assert(rows_of(entries@) =~= s0.push((key, entry)));
                self.entries = entries;
                Ok(())
            },
        }
    }

    /// Register an addon loaded from directory `root` (its manifest already
    /// read and validated): checked for API compatibility and a free id.
    pub fn load_one(&mut self, root: String, manifest: Manifest) -> (r: Result<(), AddonError>)
        ensures
            !compatible(manifest, old(self).spec_engine_api()) ==> r == Err::<(), AddonError>(
                AddonError::IncompatibleApi { engine: old(self).spec_engine_api(), min: manifest.api_min, max: manifest.api_max },
            ) && final(self).spec_entries() == old(self).spec_entries(),
            compatible(manifest, old(self).spec_engine_api()) && old(self).spec_entries().contains_key(manifest.id@)
                ==> (r matches Err(AddonError::DuplicateAddon(d)) && d@ == manifest.id@)
                && final(self).spec_entries() == old(self).spec_entries(),
            compatible(manifest, old(self).spec_engine_api()) && !old(self).spec_entries().contains_key(manifest.id@)
                ==> r is Ok && final(self).spec_entries() == old(self).spec_entries().insert(
                manifest.id@,
                AddonEntry { manifest, root, builtin: false },
            ),
            final(self).spec_rejected() == old(self).spec_rejected(),
            final(self).spec_engine_api() == old(self).spec_engine_api(),
    {
        self.enter(manifest, root, false)
    }

    /// Register an addon that ships inside the engine: validated (its
    /// parameter defaults included, with the float range verdicts the caller
    /// found, aligned with key order) and checked exactly like a scanned one.
    pub fn register_builtin(&mut self, manifest: Manifest, float_verdicts: &[Result<(), String>]) -> (r: Result<(), AddonError>)
        ensures
            exists|issue: Option<Seq<char>>| {
                &&& #[trigger] is_param_issue(manifest, verdict_views(float_verdicts@), issue)
                &&& (validation_problem(manifest, issue) matches Some(msg) ==> (r matches Err(
                    AddonError::ManifestInvalid(m),
                ) && m@ == msg) && final(self).spec_entries() == old(self).spec_entries())
                &&& (validation_problem(manifest, issue) is None && !compatible(manifest, old(self).spec_engine_api())
                    ==> r == Err::<(), AddonError>(
                    AddonError::IncompatibleApi { engine: old(self).spec_engine_api(), min: manifest.api_min, max: manifest.api_max },
                ) && final(self).spec_entries() == old(self).spec_entries())
                &&& (validation_problem(manifest, issue) is None && compatible(manifest, old(self).spec_engine_api())
                    && old(self).spec_entries().contains_key(manifest.id@) ==> (r matches Err(AddonError::DuplicateAddon(d))
                    && d@ == manifest.id@) && final(self).spec_entries() == old(self).spec_entries())
                &&& (validation_problem(manifest, issue) is None && compatible(manifest, old(self).spec_engine_api())
                    && !old(self).spec_entries().contains_key(manifest.id@) ==> {
                    let e = final(self).spec_entries()[manifest.id@];
                    &&& r is Ok
                    &&& final(self).spec_entries() == old(self).spec_entries().insert(manifest.id@, e)
                    &&& e.manifest == manifest && e.root@.len() == 0 && e.builtin
                })
            },
            final(self).spec_rejected() == old(self).spec_rejected(),
            final(self).spec_engine_api() == old(self).spec_engine_api(),
    {
        if let Err(e) = manifest.validate(float_verdicts) {
            return Err(e);
        }
        self.enter(manifest, String::new(), true)
    }

    /// Record an addon directory that failed to load.
    pub fn reject(&mut self, root: String, reason: String)
        ensures
            final(self).spec_rejected() == old(self).spec_rejected().push(RejectedAddon { root, reason }),
            final(self).spec_entries() == old(self).spec_entries(),
            final(self).spec_engine_api() == old(self).spec_engine_api(),
    {
        proof { use_type_invariant(&*self); }
        let mut rejected: Vec<RejectedAddon> = Vec::new();
        std::mem::swap(&mut rejected, &mut self.rejected);
        rejected.push(RejectedAddon { root, reason });
        self.rejected = rejected;
    }

    /// Take in one scanned directory: a manifest read from `root` is loaded
    /// ([`AddonRegistry::load_one`]); a failure to read it, or to load it, is
    /// recorded as rejected with its message.
    pub fn take_scanned(&mut self, root: String, read: Result<Manifest, String>) -> (r: Result<(), AddonError>)
        ensures
            final(self).spec_engine_api() == old(self).spec_engine_api(),
            read matches Err(reason) ==> r is Ok && final(self).spec_entries() == old(self).spec_entries()
                && final(self).spec_rejected() == old(self).spec_rejected().push(RejectedAddon { root, reason }),
            read matches Ok(m) ==> {
                &&& r is Ok <==> compatible(m, old(self).spec_engine_api()) && !old(self).spec_entries().contains_key(m.id@)
                &&& r is Ok ==> final(self).spec_entries() == old(self).spec_entries().insert(
                    m.id@,
                    AddonEntry { manifest: m, root, builtin: false },
                ) && final(self).spec_rejected() == old(self).spec_rejected()
                &&& r matches Err(e) ==> final(self).spec_entries() == old(self).spec_entries()
                    && final(self).spec_rejected().len() == old(self).spec_rejected().len() + 1
                    && final(self).spec_rejected().last().root@ == root@
                    && final(self).spec_rejected().last().reason@ == error_text(e)
                    && final(self).spec_rejected().drop_last() == old(self).spec_rejected()
            },
    {
        match read {
            Err(reason) => {
                self.reject(root, reason);
                Ok(())
            },
            Ok(m) => {
                let keep = root.clone();
                match self.load_one(root, m) {
                    Ok(()) => Ok(()),
                    Err(e) => {
                        let reason = e.message();
                        self.reject(keep, reason);
                        assert(final(self).spec_rejected().drop_last() =~= old(self).spec_rejected());
                        Err(e)
                    },
                }
            },
        }
    }

    /// Forget every entry and rejection.
    pub fn clear(&mut self)
        ensures
            final(self).spec_entries() == Map::<Seq<char>, AddonEntry>::empty(),
            final(self).spec_rejected().len() == 0,
            final(self).spec_engine_api() == old(self).spec_engine_api(),
    {
        proof { use_type_invariant(&*self); }
        let cleared: Vec<AddonEntry> = Vec::new();
        assert(rows_of(cleared@) =~= Seq::<(Seq<char>, AddonEntry)>::empty());
        self.entries = cleared;
        self.rejected = Vec::new();
    }

    /// The entry registered under `id`.
    pub fn get(&self, id: &str) -> (r: Option<&AddonEntry>)
        ensures
            r is Some <==> self.spec_entries().contains_key(id@),
            r matches Some(e) ==> *e == self.spec_entries()[id@],
    {
        proof { use_type_invariant(self); }
        match self.find(id) {
            Some(i) => {
                proof { lemma_keyed_has(rows_of(self.entries@), i as int); }
                Some(&self.entries[i])
            },
            None => {
                proof { lemma_keyed_keys(rows_of(self.entries@), id@); }
                None
            },
        }
    }

    /// Whether an addon with `id` is registered.
    pub fn contains(&self, id: &str) -> (r: bool)
        ensures
            r == self.spec_entries().contains_key(id@),
    {
        self.get(id).is_some()
    }

    /// Every registered entry (in registration order).
    pub fn entries(&self) -> (r: &[AddonEntry])
        ensures
            r@.len() == self.spec_entries().dom().len(),
            forall|i: int| 0 <= i < r@.len() ==> self.spec_entries().contains_key(#[trigger] r@[i].manifest.id@)
                && self.spec_entries()[r@[i].manifest.id@] == r@[i],
    {
        proof {
            use_type_invariant(self);
            lemma_rows_count(rows_of(self.entries@));
            assert forall|i: int| 0 <= i < self.entries@.len() implies self.spec_entries().contains_key(
                #[trigger] self.entries@[i].manifest.id@,
            ) && self.spec_entries()[self.entries@[i].manifest.id@] == self.entries@[i] by {
                lemma_keyed_has(rows_of(self.entries@), i);
            }
        }
        self.entries.as_slice()
    }

    /// The addon directories that failed to load, and why.
    pub fn rejected(&self) -> (r: &[RejectedAddon])
        ensures
            r@ == self.spec_rejected(),
    {
        self.rejected.as_slice()
    }

    /// How many addons are registered.
    pub fn len(&self) -> (r: usize)
        ensures
            r == self.spec_entries().dom().len(),
    {
        proof {
            use_type_invariant(self);
            lemma_rows_count(rows_of(self.entries@));
        }
        self.entries.len()
    }

    pub fn is_empty(&self) -> (r: bool)
        ensures
            r == (self.spec_entries().dom().len() == 0),
    {
        self.len() == 0
    }
}

impl Default for AddonRegistry {
    fn default() -> (r: Self)
        ensures
            r.spec_entries() == Map::<Seq<char>, AddonEntry>::empty(),
            r.spec_rejected().len() == 0,
            r.spec_engine_api() == ENGINE_API_VERSION,
    {
        Self::new()
    }
}

/// With distinct ids, the map has one key per row.
proof fn lemma_rows_count(s: Seq<(Seq<char>, AddonEntry)>)
    requires
        keys_unique(s),
    ensures
        keyed_map(s).dom().finite(),
        keyed_map(s).dom().len() == s.len(),
    decreases s.len(),
{
    if s.len() > 0 {
        let p = s.drop_last();
        assert(keys_unique(p)) by {
            assert forall|a: int, b: int| 0 <= a < p.len() && 0 <= b < p.len() && a != b implies p[a].0 != p[b].0 by {
                assert(p[a] == s[a] && p[b] == s[b]);
            }
        }
        lemma_rows_count(p);
        lemma_keyed_keys(p, s.last().0);
        if keyed_map(p).contains_key(s.last().0) {
            let i = choose|i: int| 0 <= i < p.len() && p[i].0 == s.last().0;
            assert(s[i].0 != s[s.len() - 1].0);
            assert(p[i] == s[i]);
        }
    }
}

/// Registering an id that is already taken fails and changes nothing, so an
/// id, once registered, keeps the first registration.
pub proof fn lemma_first_registration_wins(entries: Map<Seq<char>, AddonEntry>, first: AddonEntry, second: AddonEntry)
    requires
        first.manifest.id@ == second.manifest.id@,
    ensures
        entries.insert(first.manifest.id@, first).contains_key(second.manifest.id@),
        entries.insert(first.manifest.id@, first)[second.manifest.id@] == first,
{
}

} // verus!
