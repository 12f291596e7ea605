//! [`InProcessRustRunner`] — the in-process backend: it binds a behavior
//! factory and one instance's configuration, and at `load` builds the
//! behavior with the factory and hands it to a [`BehaviorExecutionUnit`]
//! (the node lives in the unit, never in the runner).

use crate::addon::pipeline::NodeConfig;
use crate::addon::schema::ParamMap;
use crate::behavior::{BehaviorInit, BehaviorRegistry};
use crate::runner::backend::{LoadedRunner, RunnerBackend};
use crate::runner::execution::{check_names_distinct, names_distinct, BehaviorExecutionUnit};
use crate::runner::host::HostApi;
use crate::behavior::node::Timing;
use crate::runner::{no_capabilities, RunnerError, RunnerKind, TickOutcomeView};
use crate::signal::{zero_value, SignalSpec};
use vstd::prelude::*;

verus! {

/// A behavior factory bound to one instance's id, configuration and enabled
/// flag.
pub struct InProcessRustRunner<F: Fn(String, ParamMap, bool) -> BehaviorInit> {
    factory: F,
    instance_id: String,
    config: ParamMap,
    enabled: bool,
}

impl<F: Fn(String, ParamMap, bool) -> BehaviorInit> InProcessRustRunner<F> {
    #[verifier::type_invariant]
    closed spec fn factory_callable(&self) -> bool {
        forall|a: (String, ParamMap, bool)| #[trigger] self.factory.requires(a)
    }

    pub closed spec fn spec_factory(&self) -> F {
        self.factory
    }

    pub closed spec fn spec_instance_id(&self) -> Seq<char> {
        self.instance_id@
    }

    pub closed spec fn spec_config(&self) -> ParamMap {
        self.config
    }

    pub closed spec fn spec_enabled(&self) -> bool {
        self.enabled
    }

    /// What the factory is called with: the instance id, the configuration
    /// and the enabled flag.
    pub closed spec fn spec_args(&self) -> (String, ParamMap, bool) {
        (self.instance_id, self.config, self.enabled)
    }

    pub fn new(factory: F, instance_id: &str, config: ParamMap, enabled: bool) -> (r: Self)
        requires
            forall|a: (String, ParamMap, bool)| #[trigger] factory.requires(a),
        ensures
            r.spec_factory() == factory,
            r.spec_instance_id() == instance_id@,
            r.spec_config() == config,
            r.spec_enabled() == enabled,
    {
        InProcessRustRunner { factory, instance_id: instance_id.to_string(), config, enabled }
    }

    /// Resolve a configured behavior through the registry: a runner for it
    /// when its addon id has a factory, else `None`.
    pub fn from_registry(registry: &BehaviorRegistry<F>, node: &NodeConfig) -> (r: Option<Self>)
        where F: Copy
        requires
            forall|k: Seq<char>, a: (String, ParamMap, bool)|
                registry.spec_map().contains_key(k) ==> #[trigger] registry.spec_map()[k].requires(a),
        ensures
            r is Some <==> registry.spec_map().contains_key(node.addon@),
            r matches Some(run) ==> {
                &&& run.spec_factory() == registry.spec_map()[node.addon@]
                &&& run.spec_instance_id() == node.instance_id@
                &&& run.spec_config().spec_map() == node.config.spec_map()
                &&& run.spec_enabled() == node.enabled
            },
    {
        match registry.get(node.addon.as_str()) {
            Some(factory) => {
                let config = node.config.clone();
                Some(InProcessRustRunner {
                    factory,
                    instance_id: node.instance_id.clone(),
                    config,
                    enabled: node.enabled,
                })
            },
            None => None,
        }
    }

    /// Build the behavior with the factory (from this instance's id,
    /// configuration and enabled flag) and move it into its execution unit.
    /// A behavior whose published signals repeat a name is refused.
    pub fn into_unit(self) -> (r: Result<BehaviorExecutionUnit, RunnerError>)
        ensures
            exists|init: BehaviorInit| {
                &&& #[trigger] self.spec_factory().ensures(self.spec_args(), init)
                &&& match r {
                    Ok(u) => {
                        &&& names_distinct(init.publish@)
                        &&& u@.publishes == init.publish@.map_values(|s: SignalSpec| s.name@)
                        &&& u@.names == init.publish@.map_values(|s: SignalSpec| s.name@)
                        &&& u@.values == init.publish@.map_values(|s: SignalSpec| zero_value(s.kind))
                        &&& u@.config == init.values.spec_map()
                    },
                    Err(e) => !names_distinct(init.publish@)
                        && (e matches RunnerError::Load(m) && m@ == "a behavior's own publish set must be internally unique"@),
                }
            },
    {
        proof { use_type_invariant(&self); }
        let ghost args = self.spec_args();
        let ghost f = self.spec_factory();
        let InProcessRustRunner { factory, instance_id, config, enabled } = self;
        assert((instance_id, config, enabled) == args);
        let init = factory(instance_id, config, enabled);
        let ghost built = init;
        assert(f.ensures(args, built));
        if !check_names_distinct(init.publish.as_slice()) {
            return Err(RunnerError::Load("a behavior's own publish set must be internally unique".to_string()));
        }
        Ok(BehaviorExecutionUnit::from_init(init))
    }
}

/// An in-process runner is a [`RunnerKind::InProcessRust`] runner; `load`
/// builds its unit ([`InProcessRustRunner::into_unit`]).
impl<H: HostApi + ?Sized, F: Fn(String, ParamMap, bool) -> BehaviorInit> RunnerBackend<H> for InProcessRustRunner<F> {
    open spec fn spec_kind(&self) -> RunnerKind {
        RunnerKind::InProcessRust
    }

    fn kind(&self) -> RunnerKind {
        RunnerKind::InProcessRust
    }

    /// The factory is called with this instance's arguments; a behavior with
    /// distinct publish names loads as an in-process runner over them, one
    /// with a repeated name is refused.
    open spec fn load_result(&self, r: Result<LoadedRunner<H>, RunnerError>) -> bool {
        exists|init: BehaviorInit| {
            &&& #[trigger] self.spec_factory().ensures(self.spec_args(), init)
            &&& match r {
                Ok(l) => {
                    &&& names_distinct(init.publish@)
                    &&& l.spec_kind() == RunnerKind::InProcessRust
                    &&& l.spec_caps() == no_capabilities()
                    &&& l.spec_publishes() == init.publish@.map_values(|s: SignalSpec| s.name@)
                    &&& l.spec_consumes() == Seq::<Seq<char>>::empty()
                    &&& l.behavior_unit() matches Some(m) && m.publishes == init.publish@.map_values(|s: SignalSpec| s.name@)
                        && m.names == init.publish@.map_values(|s: SignalSpec| s.name@)
                        && m.values == init.publish@.map_values(|s: SignalSpec| zero_value(s.kind))
                        && m.config == init.values.spec_map()
                    &&& l.native_unit() is None
                    &&& forall|t: Timing, o: TickOutcomeView| #[trigger] l.may_report_after_start(t, o)
                        == (o == TickOutcomeView::Completed)
                },
                Err(e) => !names_distinct(init.publish@)
                    && (e matches RunnerError::Load(m) && m@ == "a behavior's own publish set must be internally unique"@),
            }
        }
    }

    fn load(self: Box<Self>) -> Result<LoadedRunner<H>, RunnerError> {
        match (*self).into_unit() {
            Ok(unit) => Ok(LoadedRunner::from_behavior(RunnerKind::InProcessRust, unit)),
            Err(e) => Err(e),
        }
    }
}

} // verus!
