use static_runtime::addon::schema::{ParamMap, ParamValue};
use static_runtime::behavior::node::BehaviorStartCtx;
use static_runtime::behavior::scheduler::{plan_reload, InitMeta, SlotMeta, SlotPlan};
use static_runtime::behavior::{BehaviorStats, BehaviorStatsShared};
use static_runtime::signal::{SignalKind, SignalSchema};
use std::time::Duration;

fn slot(id: &str, started: bool) -> SlotMeta {
    SlotMeta { instance_id: id.into(), started }
}

fn init(id: &str, publish: &[&str]) -> InitMeta {
    InitMeta { instance_id: id.into(), publish: publish.iter().map(|s| s.to_string()).collect() }
}

#[test]
fn reload_reuses_an_unchanged_instance_in_place() {
    let old_schema = SignalSchema::from_pairs(&[("a.x", SignalKind::F32)]);
    let new_schema = SignalSchema::from_pairs(&[("a.x", SignalKind::F32), ("b.y", SignalKind::F32)]);
    let plan = plan_reload(&[slot("a", true)], &[init("a", &["a.x"]), init("b", &["b.y"])], &old_schema, &new_schema);
    assert_eq!(plan.slots, vec![SlotPlan::Reuse(0), SlotPlan::Rebuild { stop_old: None }]);
    assert!(plan.stop_leftover.is_empty());
}

#[test]
fn reload_rebuilds_an_instance_whose_ids_shift() {
    let old_schema = SignalSchema::from_pairs(&[("a.x", SignalKind::F32)]);
    let new_schema = SignalSchema::from_pairs(&[("b.y", SignalKind::F32), ("a.x", SignalKind::F32)]);
    let plan = plan_reload(&[slot("a", true)], &[init("b", &["b.y"]), init("a", &["a.x"])], &old_schema, &new_schema);
    assert_eq!(plan.slots, vec![SlotPlan::Rebuild { stop_old: None }, SlotPlan::Rebuild { stop_old: Some(0) }]);
}

#[test]
fn reload_stops_removed_instances_that_had_started() {
    let schema = SignalSchema::from_pairs(&[("a.x", SignalKind::F32)]);
    let plan = plan_reload(&[slot("a", true), slot("gone", true), slot("idle", false)], &[init("a", &["a.x"])], &schema, &schema);
    assert_eq!(plan.slots, vec![SlotPlan::Reuse(0)]);
    assert_eq!(plan.stop_leftover, vec![1]);
}

#[test]
fn an_instance_that_never_started_is_rebuilt() {
    let schema = SignalSchema::from_pairs(&[("a.x", SignalKind::F32)]);
    let plan = plan_reload(&[slot("a", false)], &[init("a", &["a.x"])], &schema, &schema);
    assert_eq!(plan.slots, vec![SlotPlan::Rebuild { stop_old: Some(0) }]);
}

#[test]
fn repeated_ids_match_old_instances_in_order() {
    let schema = SignalSchema::from_pairs(&[("a.x", SignalKind::F32)]);
    let plan = plan_reload(&[slot("a", true), slot("a", true)], &[init("a", &[]), init("a", &[]), init("a", &[])], &schema, &schema);
    assert_eq!(plan.slots, vec![SlotPlan::Reuse(0), SlotPlan::Reuse(1), SlotPlan::Rebuild { stop_old: None }]);
}

#[test]
fn stats_record_ticks_and_count_overruns() {
    let stats = BehaviorStatsShared::default();
    stats.record_tick(Duration::from_micros(1500), 7, false);
    stats.record_tick(Duration::from_millis(25), 8, true);
    stats.set_fps(30.0f32.to_bits());
    assert_eq!(
        stats.snapshot(),
        BehaviorStats { fps_bits: 30.0f32.to_bits(), last_update_ns: 25_000_000, published: 8, over_budget: 1 }
    );
}

#[test]
fn start_context_exposes_schema_and_config() {
    let schema = SignalSchema::from_pairs(&[("signal.time", SignalKind::F32)]);
    let mut config = ParamMap::new();
    config.insert("speed".into(), ParamValue::I32(2));
    config.insert("speed".into(), ParamValue::I32(3));
    let ctx = BehaviorStartCtx::new(&schema, &config);
    assert!(ctx.schema().id("signal.time").is_some());
    assert_eq!(ctx.config().get("speed"), Some(&ParamValue::I32(3)));
    assert_eq!(ctx.config().len(), 1);
}
