use static_runtime::addon::pipeline::{addon_in_use, remove_addon_nodes, NodeConfig};
use static_runtime::addon::schema::{ParamMap, ParamValue};
use static_runtime::behavior::{BehaviorHost, BehaviorRegistry, SkipReason};
use static_runtime::signal::{SignalKind, SignalSpec};

/// What a factory builds, as far as these tests look.
struct Init {
    instance_id: String,
    publish: Vec<SignalSpec>,
    values: ParamMap,
    enabled: bool,
}

type Factory = fn(String, ParamMap, bool) -> Init;

fn make_noop(instance_id: String, values: ParamMap, enabled: bool) -> Init {
    Init {
        instance_id,
        publish: vec![SignalSpec { name: "noop.signal".into(), kind: SignalKind::F32 }],
        values,
        enabled,
    }
}

fn make_other(instance_id: String, values: ParamMap, enabled: bool) -> Init {
    Init { instance_id, publish: vec![], values, enabled }
}

fn node(addon: &str, id: &str) -> NodeConfig {
    NodeConfig { instance_id: id.into(), addon: addon.into(), enabled: true, config: ParamMap::new() }
}

#[test]
fn registry_register_and_lookup() {
    let mut reg: BehaviorRegistry<Factory> = BehaviorRegistry::new();
    assert!(!reg.contains("noop"));
    reg.register("noop", make_noop);
    assert!(reg.contains("noop"));
    assert!(reg.get("noop").is_some());
    assert!(reg.get("missing").is_none());
    assert_eq!(reg.len(), 1);
}

#[test]
fn last_registration_wins() {
    let mut reg: BehaviorRegistry<Factory> = BehaviorRegistry::default();
    reg.register("noop", make_noop);
    reg.register("noop", make_other);
    assert_eq!(reg.len(), 1);
    let made = (reg.get("noop").unwrap())("x".into(), ParamMap::new(), true);
    assert!(made.publish.is_empty(), "the later factory is the one bound");
}

#[test]
fn host_creates_inits_for_registered_ids_only() {
    let mut reg: BehaviorRegistry<Factory> = BehaviorRegistry::new();
    reg.register("noop", make_noop);
    let behaviors = vec![node("noop", "a"), node("unregistered", "b")];
    let (inits, skipped) = BehaviorHost::create_inits(&reg, &behaviors);
    assert_eq!(inits.len(), 1, "unregistered behavior is skipped, not faked");
    assert_eq!(skipped.len(), 1);
    assert_eq!(skipped[0].1, SkipReason::FilesystemMissing);
    assert_eq!(skipped[0].0, "unregistered");
    assert_eq!(inits[0].instance_id, "a");
    assert_eq!(inits[0].publish.len(), 1);
    assert_eq!(inits[0].publish[0].name, "noop.signal");
}

#[test]
fn host_preserves_per_instance_config_and_enabled() {
    let mut reg: BehaviorRegistry<Factory> = BehaviorRegistry::new();
    reg.register("noop", make_noop);
    let mut n = node("noop", "x");
    n.enabled = false;
    n.config.insert("gain".into(), ParamValue::I32(4));
    let (inits, _) = BehaviorHost::create_inits(&reg, &[n]);
    assert_eq!(inits.len(), 1);
    assert!(!inits[0].enabled, "disabled flag flows through the factory");
    assert_eq!(inits[0].values.get("gain"), Some(&ParamValue::I32(4)));
}

#[test]
fn uninstalling_an_addon_drops_the_nodes_that_use_it() {
    let mut pipeline = vec![node("crt", "a"), node("dots", "b"), node("crt", "c")];
    assert!(addon_in_use(&pipeline, "crt"));
    assert!(!addon_in_use(&pipeline, "ascii"));
    remove_addon_nodes(&mut pipeline, "crt");
    let ids: Vec<&str> = pipeline.iter().map(|n| n.instance_id.as_str()).collect();
    assert_eq!(ids, vec!["b"]);
    assert!(!addon_in_use(&pipeline, "crt"));
    remove_addon_nodes(&mut pipeline, "ascii");
    assert_eq!(pipeline.len(), 1, "an unused addon removes nothing");
}
