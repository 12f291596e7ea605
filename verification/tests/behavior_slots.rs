use static_runtime::addon::schema::{ParamMap, ParamValue};
use static_runtime::behavior::scheduler::{reload_slots, IncomingSlot, InitMeta, SlotPlan, SlotState};
use static_runtime::signal::{SignalKind, SignalSchema};

fn config(v: f64) -> ParamMap {
    let mut values = ParamMap::new();
    values.insert("v".to_string(), ParamValue::F32(v.to_bits()));
    values
}

fn running(id: &str, v: f64) -> SlotState {
    SlotState { instance_id: id.to_string(), values: config(v), enabled: true, started: true }
}

fn incoming(id: &str, v: f64, publish: &[&str]) -> IncomingSlot {
    IncomingSlot {
        meta: InitMeta { instance_id: id.to_string(), publish: publish.iter().map(|s| s.to_string()).collect() },
        values: config(v),
        enabled: true,
    }
}

fn test_schema() -> SignalSchema {
    SignalSchema::from_pairs(&[("signal.time", SignalKind::F32)])
}

#[test]
fn reload_plan_stops_old_and_builds_new() {
    let schema = test_schema();
    let (plan, next) = reload_slots(&[running("a", 1.0)], vec![incoming("b", 2.0, &[])], &schema, &schema);
    assert_eq!(plan.stop_leftover, vec![0]);
    assert_eq!(plan.slots, vec![SlotPlan::Rebuild { stop_old: None }]);
    assert_eq!(next[0].instance_id, "b");
    assert!(!next[0].started, "a rebuilt slot starts afresh");
    assert_eq!(next[0].values.get("v"), Some(&ParamValue::F32(2.0f64.to_bits())));
}

#[test]
fn reload_plan_reuses_unchanged_instance() {
    let schema = test_schema();
    let (plan, next) =
        reload_slots(&[running("a", 1.0)], vec![incoming("a", 7.0, &[]), incoming("b", 2.0, &[])], &schema, &schema);
    assert_eq!(plan.slots, vec![SlotPlan::Reuse(0), SlotPlan::Rebuild { stop_old: None }]);
    assert!(plan.stop_leftover.is_empty());
    assert!(next[0].started, "the reused slot keeps running");
    assert_eq!(next[0].values.get("v"), Some(&ParamValue::F32(7.0f64.to_bits())), "only its config is refreshed");
    assert!(!next[1].started);
}

#[test]
fn reload_plan_rebuilds_when_ids_shift() {
    let old_schema = test_schema();
    let shifted = SignalSchema::from_pairs(&[("other", SignalKind::F32), ("signal.time", SignalKind::F32)]);
    let (plan, next) =
        reload_slots(&[running("a", 1.0)], vec![incoming("a", 1.0, &["signal.time"])], &old_schema, &shifted);
    assert_eq!(plan.slots, vec![SlotPlan::Rebuild { stop_old: Some(0) }]);
    assert!(!next[0].started);
}
