//! The behavior host seam: a behavior addon registers a factory under its
//! id, and configured behaviors are turned into runnable instances by
//! registry lookup, never by a per-addon dispatch. A configured behavior
//! whose id has no factory is skipped, not faked.

use crate::addon::pipeline::NodeConfig;
use crate::addon::schema::ParamMap;
use crate::behavior::SkipReason;
use crate::keyed::{keyed_map, keys_unique, lemma_keyed_has, lemma_keyed_keys, lemma_keyed_len, lemma_keyed_push, lemma_keyed_update};
use crate::text::str_eq;
use vstd::prelude::*;

verus! {

/// Maps a behavior addon id to the factory that builds its instances. The
/// last registration of an id wins.
#[verifier::reject_recursive_types(F)]
pub struct BehaviorRegistry<F> {
    factories: Vec<(String, F)>,
}

impl<F> BehaviorRegistry<F> {
    closed spec fn rows(&self) -> Seq<(Seq<char>, F)> {
        self.factories@.map_values(|e: (String, F)| (e.0@, e.1))
    }

    #[verifier::type_invariant]
    closed spec fn ids_distinct(&self) -> bool {
        keys_unique(self.rows())
    }

    /// The registered factories by id.
    pub closed spec fn spec_map(&self) -> Map<Seq<char>, F> {
        keyed_map(self.rows())
    }
}

impl<F: Copy> BehaviorRegistry<F> {
    pub fn new() -> (r: Self)
        ensures
            r.spec_map() == Map::<Seq<char>, F>::empty(),
    {
        let r = BehaviorRegistry { factories: Vec::new() };
        assert(r.rows() =~= Seq::<(Seq<char>, F)>::empty());
        r
    }

    fn find(&self, id: &str) -> (r: Option<usize>)
        ensures
            r matches Some(i) ==> i < self.rows().len() && self.rows()[i as int].0 == id@,
            r is None ==> forall|i: int| 0 <= i < self.rows().len() ==> self.rows()[i].0 != id@,
    {
        let mut i: usize = 0;
        while i < self.factories.len()
            invariant
                i <= self.factories@.len(),
                forall|k: int| 0 <= k < i ==> self.rows()[k].0 != id@,
            decreases self.factories@.len() - i,
        {
            if str_eq(self.factories[i].0.as_str(), id) {
                return Some(i);
            }
            i = i + 1;
        }
        None
    }

    /// Bind `id` to `factory`, replacing an earlier binding.
    pub fn register(&mut self, id: &str, factory: F)
        ensures
            final(self).spec_map() == old(self).spec_map().insert(id@, factory),
    {
        proof { use_type_invariant(&*self); }
        let ghost s0 = self.rows();
        let key = id.to_string();
        match self.find(id) {
            Some(i) => {
                proof { lemma_keyed_update(s0, i as int, factory); }
                let mut factories: Vec<(String, F)> = Vec::new();
                std::mem::swap(&mut factories, &mut self.factories);
                factories.set(i, (key, factory));
                assert(factories@.map_values(|e: (String, F)| (e.0@, e.1)) =~= s0.update(i as int, (s0[i as int].0, factory)));
                self.factories = factories;
            },
            None => {
                proof {
                    lemma_keyed_keys(s0, id@);
                    lemma_keyed_push(s0, id@, factory);
                }
                let mut factories: Vec<(String, F)> = Vec::new();
                std::mem::swap(&mut factories, &mut self.factories);
                factories.push((key, factory));
                assert(factories@.map_values(|e: (String, F)| (e.0@, e.1)) =~= s0.push((id@, factory)));
                self.factories = factories;
            },
        }
    }

    /// The factory registered for `id`, if any.
    pub fn get(&self, id: &str) -> (r: Option<F>)
        ensures
            r == (if self.spec_map().contains_key(id@) { Some(self.spec_map()[id@]) } else { None::<F> }),
    {
        proof { use_type_invariant(self); }
        match self.find(id) {
            Some(i) => {
                proof { lemma_keyed_has(self.rows(), i as int); }
                Some(self.factories[i].1)
            },
            None => {
                proof { lemma_keyed_keys(self.rows(), id@); }
                None
            },
        }
    }

    /// Whether a factory is registered for `id`.
    pub fn contains(&self, id: &str) -> (r: bool)
        ensures
            r == self.spec_map().contains_key(id@),
    {
        self.get(id).is_some()
    }

    /// How many ids have a factory.
    pub fn len(&self) -> (r: usize)
        ensures
            r == self.spec_map().dom().len(),
    {
        proof {
            use_type_invariant(self);
            lemma_keyed_len(self.rows());
        }
        self.factories.len()
    }
}

impl<F: Copy> Default for BehaviorRegistry<F> {
    fn default() -> (r: Self)
        ensures
            r.spec_map() == Map::<Seq<char>, F>::empty(),
    {
        Self::new()
    }
}

/// The positions of the configured behaviors among the first `upto` whose
/// addon id has a factory, in order.
pub open spec fn registered_positions<F>(factories: Map<Seq<char>, F>, behaviors: Seq<NodeConfig>, upto: int) -> Seq<int>
    decreases upto,
{
    if upto <= 0 {
        Seq::empty()
    } else {
        let before = registered_positions(factories, behaviors, upto - 1);
        if factories.contains_key(behaviors[upto - 1].addon@) { before.push(upto - 1) } else { before }
    }
}

/// The addon ids of the configured behaviors among the first `upto` that
/// have no factory, in order.
pub open spec fn unregistered_addons<F>(factories: Map<Seq<char>, F>, behaviors: Seq<NodeConfig>, upto: int) -> Seq<Seq<char>>
    decreases upto,
{
    if upto <= 0 {
        Seq::empty()
    } else {
        let before = unregistered_addons(factories, behaviors, upto - 1);
        if factories.contains_key(behaviors[upto - 1].addon@) { before } else { before.push(behaviors[upto - 1].addon@) }
    }
}

/// `init` is an outcome of `make` on the instance id, configuration and
/// enabled flag of `node`.
pub open spec fn built_from<I, F: Fn(String, ParamMap, bool) -> I>(make: F, node: NodeConfig, init: I) -> bool {
    exists|a: (String, ParamMap, bool)| {
        &&& a.0@ == node.instance_id@
        &&& a.1.spec_map() == node.config.spec_map()
        &&& a.2 == node.enabled
        &&& #[trigger] make.ensures(a, init)
    }
}

/// Turns configured behaviors into runnable instances by registry lookup.
pub struct BehaviorHost;

impl BehaviorHost {
    /// One instance per configured behavior whose addon has a factory, in
    /// configuration order, built by that factory from the entry's instance
    /// id, configuration and enabled flag; the others are skipped as
    /// `FilesystemMissing`, in order.
    pub fn create_inits<I, F: Fn(String, ParamMap, bool) -> I + Copy>(
        registry: &BehaviorRegistry<F>,
        behaviors: &[NodeConfig],
    ) -> (r: (Vec<I>, Vec<(String, SkipReason)>))
        requires
            forall|k: int, a: (String, ParamMap, bool)|
                0 <= k < behaviors@.len() && registry.spec_map().contains_key(behaviors@[k].addon@)
                    ==> #[trigger] registry.spec_map()[behaviors@[k].addon@].requires(a),
        ensures
            r.0@.len() == registered_positions(registry.spec_map(), behaviors@, behaviors@.len() as int).len(),
            forall|j: int| 0 <= j < r.0@.len() ==> {
                let node = behaviors@[registered_positions(registry.spec_map(), behaviors@, behaviors@.len() as int)[j]];
                built_from(registry.spec_map()[node.addon@], node, #[trigger] r.0@[j])
            },
            r.1@.map_values(|s: (String, SkipReason)| s.0@) == unregistered_addons(registry.spec_map(), behaviors@, behaviors@.len() as int),
            forall|j: int| 0 <= j < r.1@.len() ==> (#[trigger] r.1@[j]).1 == SkipReason::FilesystemMissing,
    {
        let ghost m = registry.spec_map();
        let mut inits: Vec<I> = Vec::new();
        let mut skipped: Vec<(String, SkipReason)> = Vec::new();
        let mut i: usize = 0;
        while i < behaviors.len()
            invariant
                i <= behaviors@.len(),
                m == registry.spec_map(),
                forall|k: int, a: (String, ParamMap, bool)|
                    0 <= k < behaviors@.len() && m.contains_key(behaviors@[k].addon@) ==> #[trigger] m[behaviors@[k].addon@].requires(a),
                inits@.len() == registered_positions(m, behaviors@, i as int).len(),
                forall|j: int| 0 <= j < inits@.len() ==> {
                    let node = behaviors@[registered_positions(m, behaviors@, i as int)[j]];
                    built_from(m[node.addon@], node, #[trigger] inits@[j])
                },
                skipped@.map_values(|s: (String, SkipReason)| s.0@) == unregistered_addons(m, behaviors@, i as int),
                forall|j: int| 0 <= j < skipped@.len() ==> (#[trigger] skipped@[j]).1 == SkipReason::FilesystemMissing,
            decreases behaviors@.len() - i,
        {
            let node = &behaviors[i];
            match registry.get(node.addon.as_str()) {
                Some(make) => {
                    let a0 = node.instance_id.clone();
                    let a1 = node.config.clone();
                    let a2 = node.enabled;
                    let ghost args = (a0, a1, a2);
                    assert(m.contains_key(behaviors@[i as int].addon@));
                    let init = make(a0, a1, a2);
                    let ghost before = inits@;
                    inits.push(init);
                    proof {
                        let pos = registered_positions(m, behaviors@, i + 1);
                        assert(pos == registered_positions(m, behaviors@, i as int).push(i as int));
                        assert forall|j: int| 0 <= j < inits@.len() implies {
                            let node = behaviors@[pos[j]];
                            built_from(m[node.addon@], node, #[trigger] inits@[j])
                        } by {
                            if j < before.len() {
                                assert(inits@[j] == before[j]);
                                assert(pos[j] == registered_positions(m, behaviors@, i as int)[j]);
                            } else {
                                assert(pos[j] == i);
                                assert(m[behaviors@[i as int].addon@].ensures(args, inits@[j]));
                            }
                        }
                    }
                },
                None => {
                    let ghost before = skipped@;
                    skipped.push((node.addon.clone(), SkipReason::FilesystemMissing));
                    proof {
                        assert(skipped@.map_values(|s: (String, SkipReason)| s.0@)
                            =~= before.map_values(|s: (String, SkipReason)| s.0@).push(behaviors@[i as int].addon@));
                    }
                },
            }
            i = i + 1;
        }
        (inits, skipped)
    }
}

} // verus!
