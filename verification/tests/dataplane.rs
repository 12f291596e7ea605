use static_runtime::runner::dataplane::{FrameBridge, ResourceBridge, SignalBridge, WorkerBridge};
use static_runtime::runner::host::{FrameTier, ResourceHandle};
use static_runtime::signal::{SignalKind, SignalSchema, SignalValue};
use std::sync::Arc;

#[test]
fn multiple_reads_in_a_tick_return_the_same_frame() {
    let mut f = FrameBridge::new();
    f.request_frame(FrameTier::R320x180);
    f.push(100, 90);
    f.begin_tick();
    let a = f.read_frame();
    let b = f.read_frame();
    assert_eq!(a, b, "repeated reads → identical pinned frame");
    assert_eq!(a.unwrap().width, 100);
}

#[test]
fn latest_wins_only_after_the_next_tick() {
    let mut f = FrameBridge::new();
    f.push(100, 90);
    f.begin_tick();
    assert_eq!(f.read_frame().unwrap().width, 100);
    f.push(200, 90);
    assert_eq!(f.read_frame().unwrap().width, 100, "pinned within the tick");
    f.begin_tick();
    assert_eq!(f.read_frame().unwrap().width, 200, "latest-wins across ticks");
}

#[test]
fn no_frame_yet_is_none_and_tier_select_is_lock_free() {
    let mut f = FrameBridge::new();
    f.begin_tick();
    assert!(f.read_frame().is_none());
    assert!(f.change_frame_tier(FrameTier::R160x90));
    assert_eq!(f.tier(), FrameTier::R160x90);
}

#[test]
fn pushed_frame_carries_the_current_tier() {
    let mut f = FrameBridge::default();
    assert_eq!(f.tier(), FrameTier::R320x180);
    f.request_frame(FrameTier::R640x360);
    f.push(640, 360);
    f.begin_tick();
    assert_eq!(f.read_frame().unwrap().tier, FrameTier::R640x360);
}

#[test]
fn same_id_shares_a_handle_and_refcounts() {
    let mut r = ResourceBridge::new();
    let h1 = r.request("model.onnx").unwrap();
    let h2 = r.request("model.onnx").unwrap();
    assert_eq!(h1, h2, "content-addressed: same id → same handle");
    assert_eq!(r.refcount("model.onnx"), 2);
    let other = r.request("weights.bin").unwrap();
    assert_ne!(other, h1);
}

#[test]
fn release_is_idempotent() {
    let mut r = ResourceBridge::new();
    let h = r.request("m").unwrap();
    r.request("m").unwrap();
    r.release(h);
    assert_eq!(r.refcount("m"), 1, "one ref remains");
    r.release(h);
    assert_eq!(r.refcount("m"), 0, "freed at zero");
    r.release(h);
    r.release(ResourceHandle(9999));
    assert_eq!(r.refcount("m"), 0);
}

#[test]
fn reload_invalidates_all_handles() {
    let mut r = ResourceBridge::new();
    let _ = r.request("m").unwrap();
    assert_eq!(r.refcount("m"), 1);
    r.invalidate();
    assert_eq!(r.epoch(), 1);
    assert_eq!(r.refcount("m"), 0, "handles invalid after reload");
    assert!(r.request("m").is_some());
}

#[test]
fn handles_are_never_reissued_across_a_reload() {
    let mut r = ResourceBridge::new();
    let a = r.request("a").unwrap();
    assert_eq!(a, ResourceHandle(1), "0 is never issued");
    r.invalidate();
    let b = r.request("a").unwrap();
    assert_eq!(b, ResourceHandle(2));
    // The stale handle from the previous epoch releases nothing.
    r.release(a);
    assert_eq!(r.refcount("a"), 1);
}

#[test]
fn releasing_one_id_leaves_others_untouched() {
    let mut r = ResourceBridge::new();
    let a = r.request("a").unwrap();
    let _b = r.request("b").unwrap();
    r.release(a);
    assert_eq!(r.refcount("a"), 0);
    assert_eq!(r.refcount("b"), 1);
}

#[test]
fn refcount_counts_requests_since_the_last_invalidate() {
    let mut r = ResourceBridge::new();
    let a = r.request("a").unwrap();
    r.request("a").unwrap();
    r.request("b").unwrap();
    r.release(ResourceHandle(a.0 + 1000));
    assert_eq!(r.refcount("a"), 2);
    r.release(a);
    assert_eq!(r.refcount("a"), 1);
    r.invalidate();
    assert_eq!(r.refcount("a"), 0);
    r.request("a").unwrap();
    r.release(a);
    assert_eq!(r.refcount("a"), 1, "a handle from before the invalidate no longer counts");
    assert_eq!(r.refcount("b"), 0);
}

#[test]
fn granted_capability_hands_out_unique_tracked_handles() {
    let mut w = WorkerBridge::new(true);
    let a = w.spawn().unwrap();
    let b = w.spawn().unwrap();
    assert_ne!(a, b, "handles are unique");
    assert_eq!(w.live(), 2, "host tracks the live count");
}

#[test]
fn denied_by_default() {
    let mut w = WorkerBridge::new(false);
    assert_eq!(w.spawn().unwrap_err().capability, "spawn_worker");
    assert_eq!(w.live(), 0);
}

fn schema() -> Arc<SignalSchema> {
    Arc::new(SignalSchema::from_pairs(&[("a", SignalKind::F32), ("b", SignalKind::Vec2)]))
}

#[test]
fn subscribe_is_a_stable_snapshot_lookup() {
    let s = SignalBridge::new(schema());
    assert_eq!(s.subscribe("a").unwrap().index(), 0);
    assert_eq!(s.subscribe("b").unwrap().index(), 1);
    assert_eq!(s.subscribe("a").unwrap().index(), 0, "stable across calls");
    assert!(s.subscribe("missing").is_none());
}

fn f32v(x: f32) -> SignalValue {
    SignalValue::F32(x.to_bits())
}

#[test]
fn publish_overwrites_within_a_tick_last_wins() {
    let mut s = SignalBridge::new(schema());
    let a = s.subscribe("a").unwrap();
    s.publish(a, f32v(1.0));
    s.publish(a, f32v(2.0));
    s.publish(a, f32v(3.0));
    s.commit();
    assert_eq!(s.read_latest().get(a), f32v(3.0), "last write wins");
}

#[test]
fn commit_is_latest_wins_across_ticks() {
    let mut s = SignalBridge::new(schema());
    let a = s.subscribe("a").unwrap();
    s.publish(a, f32v(10.0));
    s.commit();
    s.publish(a, f32v(20.0));
    s.commit();
    assert_eq!(s.read_latest().get(a), f32v(20.0), "newest committed frame");
}

#[test]
fn pinned_snapshot_is_consistent_until_repinned() {
    let mut s = SignalBridge::new(schema());
    let a = s.subscribe("a").unwrap();
    s.publish(a, f32v(1.0));
    s.commit();
    s.pin();
    let first = s.snapshot().get(a);
    s.publish(a, f32v(9.0));
    s.commit();
    assert_eq!(s.snapshot().get(a), first, "pinned reads stay consistent");
    s.pin();
    assert_eq!(s.snapshot().get(a), f32v(9.0), "re-pin samples latest");
}

#[test]
fn fresh_bridge_reads_zero_values() {
    let mut s = SignalBridge::new(schema());
    let b = s.subscribe("b").unwrap();
    assert_eq!(s.read_latest().get(b), SignalValue::Vec2(0, 0));
}
