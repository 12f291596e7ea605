use static_runtime::addon::pipeline::NodeConfig;
use static_runtime::addon::schema::{ParamMap, ParamValue};
use static_runtime::behavior::node::{BehaviorCtx, BehaviorNode, BehaviorStartCtx, Timing};
use static_runtime::behavior::{BehaviorInit, BehaviorRegistry};
use static_runtime::runner::{
    BridgedHost, HostApi, InProcessRustRunner, RecordingHost, RunnerBackend, RunnerError, RunnerKind, TickOutcome,
    UnitDeclaration,
};
use static_runtime::signal::{SignalId, SignalKind, SignalSchema, SignalSpec, SignalValue};
use std::collections::BTreeMap;
use std::sync::Arc;

/// Publishes its configured `v` (an `f64` bit pattern narrowed to `f32`)
/// on `signal.time` every tick.
struct Echo {
    id: Option<SignalId>,
}

impl BehaviorNode for Echo {
    fn start(&mut self, ctx: &mut BehaviorStartCtx) {
        self.id = ctx.schema().id("signal.time");
    }
    fn update(&mut self, ctx: &mut BehaviorCtx) {
        if let Some(id) = self.id {
            let v = match ctx.config().get("v") {
                Some(ParamValue::F32(bits)) => f64::from_bits(*bits) as f32,
                _ => 0.0,
            };
            ctx.publish(id, SignalValue::F32(v.to_bits()));
        }
    }
    fn stop(&mut self) {
        self.id = None;
    }
}

type Factory = fn(String, ParamMap, bool) -> BehaviorInit;

fn make_echo(instance_id: String, values: ParamMap, enabled: bool) -> BehaviorInit {
    BehaviorInit {
        instance_id,
        node: Box::new(Echo { id: None }),
        publish: vec![SignalSpec { name: "signal.time".into(), kind: SignalKind::F32 }],
        specs: BTreeMap::new(),
        values,
        enabled,
    }
}

fn make_twice(instance_id: String, values: ParamMap, enabled: bool) -> BehaviorInit {
    let spec = SignalSpec { name: "signal.time".into(), kind: SignalKind::F32 };
    BehaviorInit {
        instance_id,
        node: Box::new(Echo { id: None }),
        publish: vec![spec.clone(), spec],
        specs: BTreeMap::new(),
        values,
        enabled,
    }
}

fn config(v: f32) -> ParamMap {
    let mut c = ParamMap::new();
    c.insert("v".into(), ParamValue::F32((v as f64).to_bits()));
    c
}

fn timing() -> Timing {
    Timing { dt_bits: 0, elapsed_bits: 0 }
}

#[test]
fn behavior_publishes_through_a_runner_into_the_data_plane() {
    let schema = Arc::new(SignalSchema::from_pairs(&[("signal.time", SignalKind::F32)]));
    let mut host = BridgedHost::new(schema, false);
    let backend: Box<dyn RunnerBackend<BridgedHost>> =
        Box::new(InProcessRustRunner::new(make_echo as Factory, "b", config(1.0), true));
    assert_eq!(backend.kind(), RunnerKind::InProcessRust);
    let mut running = backend.load().unwrap().bind(&mut host).start(&mut host);
    host.begin_tick(timing());
    assert!(matches!(running.tick(&mut host, timing()), TickOutcome::Completed));
    host.commit();
    let id = host.subscribe("signal.time").unwrap();
    assert_eq!(host.read_latest_signals().get(id), SignalValue::F32(1.0f32.to_bits()));
    let _ = running.stop(&mut host);
}

#[test]
fn unit_mirrors_every_own_slot_each_tick() {
    let runner = InProcessRustRunner::new(make_echo as Factory, "b", config(2.5), true);
    let mut unit = runner.into_unit().ok().unwrap();
    assert_eq!(unit.publishes(), &["signal.time".to_string()][..]);
    let mut host = RecordingHost::default();
    static_runtime::runner::ExecutionUnit::<RecordingHost>::start(&mut unit, &mut host);
    static_runtime::runner::ExecutionUnit::<RecordingHost>::run(&mut unit, &mut host, timing());
    assert_eq!(host.published, vec![(0, SignalValue::F32(2.5f32.to_bits()))]);
}

#[test]
fn a_repeated_publish_name_is_refused_at_load() {
    let runner = InProcessRustRunner::new(make_twice as Factory, "b", ParamMap::new(), true);
    match runner.into_unit() {
        Err(RunnerError::Load(m)) => assert_eq!(m, "a behavior's own publish set must be internally unique"),
        Ok(_) => panic!("expected a load error"),
    }
}

#[test]
fn runner_resolves_through_the_registry() {
    let mut reg: BehaviorRegistry<Factory> = BehaviorRegistry::new();
    reg.register("echo", make_echo);
    let node = NodeConfig { instance_id: "e1".into(), addon: "echo".into(), enabled: true, config: config(3.0) };
    assert!(InProcessRustRunner::from_registry(&reg, &node).is_some());
    let other = NodeConfig { instance_id: "e2".into(), addon: "missing".into(), enabled: true, config: ParamMap::new() };
    assert!(InProcessRustRunner::from_registry(&reg, &other).is_none());
}
