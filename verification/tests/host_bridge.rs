use static_runtime::runner::{FrameTier, HostApi, HostBridge, Metrics, RecordingHost};
use static_runtime::signal::{SignalKind, SignalSchema, SignalValue};
use std::sync::Arc;

#[test]
fn forwards_publish_and_subscribe_to_the_real_host() {
    let schema = Arc::new(SignalSchema::from_pairs(&[("x", SignalKind::F32)]));
    let mut host = RecordingHost::with_schema(schema);
    {
        let mut bridge = HostBridge::new(&mut host);
        let id = bridge.subscribe("x").expect("resolved via the real host");
        bridge.publish(id, SignalValue::F32(2.0f32.to_bits()));
        bridge.heartbeat();
        assert!(bridge.request_frame(FrameTier::R160x90));
    }
    assert_eq!(host.published, vec![(0, SignalValue::F32(2.0f32.to_bits()))]);
    assert_eq!(host.heartbeats, 1);
    assert_eq!(host.frame_requests, 1);
    assert_eq!(host.subscribed_tier, Some(FrameTier::R160x90));
}

#[test]
fn forwarding_is_identical_to_calling_the_host_directly() {
    let mut host = RecordingHost::new();
    let mut bridge = HostBridge::new(&mut host);
    assert_eq!(bridge.subscribe("missing"), None);
    assert!(bridge.read_frame().is_none());
    assert_eq!(bridge.metrics(), Metrics::default());
    assert!(bridge.spawn_worker().is_err(), "deny-by-default forwarded");
}
