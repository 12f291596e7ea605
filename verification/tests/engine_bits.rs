use static_runtime::behavior::addons::face_tracking_lite::published;
use static_runtime::behavior::builtins::time::TimeBehavior;
use static_runtime::behavior::node::FrameView;
use static_runtime::camera::FrameSlot;
use static_runtime::engine::{PipelineEdit, ReloadState};
use static_runtime::native::handshake::{HandshakeData, BEHAVIOR_ABI_V1, BEHAVIOR_FAMILY, RENDER_FAMILY};
use static_runtime::native::runner::{check_handshake, RunnerError};
use static_runtime::signal::{SignalKind, SignalSchema};

#[test]
fn reload_fires_once_after_a_discrete_edit() {
    let mut r = ReloadState::new();
    assert!(!r.take_if_settled());
    r.mark_dirty_now();
    assert!(r.take_if_settled());
    assert!(!r.take_if_settled(), "fires exactly once");
}

#[test]
fn reload_waits_out_the_debounce_for_continuous_edits() {
    let mut r = ReloadState::default();
    r.mark_dirty();
    assert!(!r.take_if_settled(), "a fresh continuous edit is still within the debounce window");
    let start = std::time::Instant::now();
    while start.elapsed() < std::time::Duration::from_millis(150) {}
    assert!(r.take_if_settled());
}

#[test]
fn edits_schedule_the_rebuild_they_call_for() {
    let mut r = ReloadState::new();
    r.note_edit(PipelineEdit::SetEnabled, false);
    assert!(!r.take_if_settled(), "an edit that changed nothing schedules nothing");
    r.note_edit(PipelineEdit::MoveNode, true);
    assert!(r.take_if_settled(), "a discrete edit applies on the next frame");
    r.note_edit(PipelineEdit::SetParam, true);
    assert!(!r.take_if_settled(), "a parameter edit waits out the debounce window");
    r.note_edit(PipelineEdit::RemoveNode, true);
    assert!(r.take_if_settled());
}

#[test]
fn reload_keeps_the_last_error() {
    let mut r = ReloadState::new();
    assert_eq!(r.last_error(), None);
    r.set_error(Some("boom".into()));
    assert_eq!(r.last_error(), Some("boom"));
    r.set_error(None);
    assert_eq!(r.last_error(), None);
}

#[test]
fn frame_slot_is_taken_at_most_once() {
    let mut slot = FrameSlot::new();
    let mut out = vec![9u8];
    assert!(!slot.copy_latest(&mut out));
    assert_eq!(out, vec![9]);
    slot.store(&[1, 2, 3, 4]);
    assert!(slot.copy_latest(&mut out));
    assert_eq!(out, vec![1, 2, 3, 4]);
    assert!(!slot.copy_latest(&mut out));
}

#[test]
fn frame_view_exposes_its_parts() {
    let px = [0u8; 8];
    let f = FrameView::new(2, 1, &px);
    assert_eq!((f.width(), f.height(), f.rgba().len()), (2, 1, 8));
}

#[test]
fn handshake_checks_abi_family_then_runtime_abi() {
    let ok = HandshakeData { runtime_family: BEHAVIOR_FAMILY, handshake_abi: 1, runtime_abi: BEHAVIOR_ABI_V1 };
    assert!(check_handshake(ok, BEHAVIOR_FAMILY, BEHAVIOR_ABI_V1).is_ok());
    assert_eq!(
        check_handshake(HandshakeData { handshake_abi: 2, ..ok }, BEHAVIOR_FAMILY, BEHAVIOR_ABI_V1),
        Err(RunnerError::Handshake("handshake ABI mismatch: expected 1, got 2".into()))
    );
    assert_eq!(
        check_handshake(ok, RENDER_FAMILY, BEHAVIOR_ABI_V1),
        Err(RunnerError::Handshake("runtime family mismatch: expected 0x52454E44, got 0x42454841".into()))
    );
    assert_eq!(
        check_handshake(HandshakeData { runtime_abi: 0xAB, ..ok }, BEHAVIOR_FAMILY, BEHAVIOR_ABI_V1),
        Err(RunnerError::Handshake("runtime ABI mismatch: expected 0x42414231, got 0x000000AB".into()))
    );
}

#[test]
fn runner_error_messages() {
    assert_eq!(RunnerError::Load("x".into()).message(), "Load error: x");
    assert_eq!(RunnerError::Symbol("y".into()).message(), "Symbol error: y");
    assert_eq!(RunnerError::Handshake("z".into()).message(), "Handshake error: z");
}

#[test]
fn face_tracking_publishes_three_signals_in_order() {
    let p = published();
    let names: Vec<&str> = p.iter().map(|s| s.name.as_str()).collect();
    assert_eq!(names, ["face.position", "face.rotation", "face.scale"]);
    assert_eq!(p[0].kind, SignalKind::Vec2);
    assert_eq!(p[1].kind, SignalKind::F32);
    assert_eq!(p[2].kind, SignalKind::F32);
}

#[test]
fn time_behavior_resolves_its_slot() {
    let schema = SignalSchema::from_pairs(&[("other", SignalKind::Bool), ("signal.time", SignalKind::F32)]);
    let mut t = TimeBehavior::default();
    t.start(&schema);
    assert_eq!(t.time_id.unwrap().index(), 1);
    t.stop();
    assert!(t.time_id.is_none());
    t.start(&SignalSchema::from_pairs(&[]));
    assert!(t.time_id.is_none());
}

#[test]
fn schema_lookup_returns_the_first_slot_of_a_name() {
    let s = SignalSchema::from_pairs(&[("a", SignalKind::F32), ("a", SignalKind::I32)]);
    assert_eq!(s.len(), 2);
    assert_eq!(s.id("a").unwrap().index(), 0);
    assert_eq!(s.zero_values().len(), 2);
}
