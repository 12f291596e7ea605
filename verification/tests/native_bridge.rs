use static_runtime::addon::schema::{ParamMap, ParamValue};
use static_runtime::behavior::native::{f32_param_bits, route_staged, NativeBridgeState};
use static_runtime::native::runner::{CallOutcome, NativeLifecycle};
use static_runtime::signal::{SignalId, SignalKind, SignalSchema, SignalValue};

#[test]
fn staged_signals_route_to_their_first_slot_and_unknown_names_drop() {
    let ids = vec![
        ("face.position".to_string(), Some(SignalId(0))),
        ("face.scale".to_string(), Some(SignalId(2))),
        ("face.scale".to_string(), Some(SignalId(9))),
        ("ghost".to_string(), None),
    ];
    let staged = vec![
        ("face.scale".to_string(), SignalValue::F32(1)),
        ("nope".to_string(), SignalValue::Bool(true)),
        ("ghost".to_string(), SignalValue::F32(3)),
        ("face.position".to_string(), SignalValue::Vec2(4, 5)),
    ];
    assert_eq!(
        route_staged(&staged, &ids),
        vec![(SignalId(2), SignalValue::F32(1)), (SignalId(0), SignalValue::Vec2(4, 5))]
    );
}

#[test]
fn only_float_params_read_as_floats() {
    let mut values = ParamMap::new();
    values.insert("gain".into(), ParamValue::F32(0.5f64.to_bits()));
    values.insert("count".into(), ParamValue::I32(3));
    assert_eq!(f32_param_bits(&values, "gain"), Some(0.5f64.to_bits()));
    assert_eq!(f32_param_bits(&values, "count"), None);
    assert_eq!(f32_param_bits(&values, "missing"), None);
}

#[test]
fn native_lifecycle_refuses_until_loaded_and_latches_faults() {
    let mut s = NativeLifecycle::new();
    assert_eq!(s.may_start(), Err("runner not loaded".to_string()));
    s.loaded(true);
    assert_eq!(s.may_start(), Ok(()));
    assert_eq!(s.may_update(), Err("runner is faulted or not running".to_string()));
    assert_eq!(s.started(CallOutcome::Returned), Ok(()));
    assert_eq!(s.may_update(), Ok(()));
    assert_eq!(s.updated(false), Ok(()));
    assert_eq!(s.updated(true), Err("panic in update_instance".to_string()));
    assert_eq!(s.may_start(), Err("runner is in faulted state".to_string()));
    assert_eq!(s.may_update(), Err("runner is faulted or not running".to_string()));
    assert!(!s.should_destroy(), "a faulted instance is not destroyed");
}

#[test]
fn a_null_instance_faults_the_runner() {
    let mut s = NativeLifecycle::new();
    s.loaded(true);
    assert_eq!(s.started(CallOutcome::ReturnedNull), Err("create_instance returned null".to_string()));
    assert!(s.faulted);
    let mut t = NativeLifecycle::new();
    t.loaded(false);
    assert_eq!(t.may_start(), Err("runner is in faulted state".to_string()));
}

#[test]
fn stop_releases_a_live_instance_once() {
    let mut s = NativeLifecycle::new();
    s.loaded(true);
    s.started(CallOutcome::Returned).unwrap();
    assert!(s.should_destroy());
    s.stopped();
    assert!(!s.running);
    assert!(!s.should_destroy());
    s.unloaded();
    assert!(!s.loaded);
}

#[test]
fn bridge_resolves_every_slot_and_routes_after_a_clean_update() {
    let schema = SignalSchema::from_pairs(&[("face.position", SignalKind::Vec2), ("face.scale", SignalKind::F32)]);
    let mut b = NativeBridgeState::new(ParamMap::new());
    b.resolve(&schema);
    assert_eq!(
        b.signal_ids().to_vec(),
        vec![("face.position".to_string(), Some(SignalId(0))), ("face.scale".to_string(), Some(SignalId(1)))]
    );
    assert!(!b.may_update(), "nothing is called before an instance exists");
    b.loaded(true);
    assert!(b.may_update());
    let staged = vec![("face.scale".to_string(), SignalValue::F32(7)), ("other".to_string(), SignalValue::Bool(true))];
    assert_eq!(b.updated(false, &staged), vec![(SignalId(1), SignalValue::F32(7))]);
    assert!(b.may_update());
    assert!(b.stopped(), "a live instance is destroyed on stop");
    assert!(!b.stopped(), "and only once");
    assert!(!b.may_update());
}

#[test]
fn bridge_fault_disables_updates_for_good() {
    let schema = SignalSchema::from_pairs(&[("x", SignalKind::F32)]);
    let mut b = NativeBridgeState::new(ParamMap::new());
    b.resolve(&schema);
    b.loaded(true);
    let staged = vec![("x".to_string(), SignalValue::F32(1))];
    assert_eq!(b.updated(true, &staged), vec![], "a panicking update publishes nothing");
    assert!(!b.may_update());
    b.loaded(true);
    assert!(!b.may_update(), "a fault stays after a later load");
    assert!(b.stopped(), "the instance is still destroyed");

    let mut failed = NativeBridgeState::new(ParamMap::new());
    failed.loaded(false);
    assert!(!failed.may_update());
    assert!(!failed.stopped(), "nothing to destroy after a failed load");
}
