use static_runtime::runner::native::transport::synthetic_ack;
use static_runtime::runner::native::{ControlRequest, ControlResponse, ControlTransport, LoopbackTransport, TransportError};
use static_runtime::runner::TickOutcome;

fn tick() -> ControlRequest {
    ControlRequest::Tick { dt_bits: 0f32.to_bits(), elapsed_bits: 0f32.to_bits() }
}

#[test]
fn loopback_follows_the_lifecycle() {
    let mut t = LoopbackTransport::new();
    assert_eq!(t.request(ControlRequest::Load).unwrap(), ControlResponse::Loaded);
    assert_eq!(t.request(ControlRequest::Bind).unwrap(), ControlResponse::Bound);
    assert_eq!(t.request(ControlRequest::Start).unwrap(), ControlResponse::Started);
    assert_eq!(t.request(tick()).unwrap(), ControlResponse::Ticked(TickOutcome::Completed));
    assert_eq!(t.request(ControlRequest::Stop).unwrap(), ControlResponse::Stopped);
    assert!(t.is_alive());
}

#[test]
fn loopback_enforces_legality() {
    let mut t = LoopbackTransport::new();
    assert_eq!(t.request(tick()), Err(TransportError::Protocol("illegal control message for state")));
}

#[test]
fn loopback_can_crash_mid_run() {
    let mut t = LoopbackTransport::new().dying_after(0);
    t.request(ControlRequest::Load).unwrap();
    t.request(ControlRequest::Bind).unwrap();
    t.request(ControlRequest::Start).unwrap();
    assert_eq!(t.request(tick()), Err(TransportError::Closed));
    assert!(!t.is_alive(), "crashed child is no longer alive");
}

#[test]
fn loopback_can_fail_start() {
    let mut t = LoopbackTransport::new().failing_start();
    t.request(ControlRequest::Load).unwrap();
    t.request(ControlRequest::Bind).unwrap();
    assert_eq!(t.request(ControlRequest::Start), Err(TransportError::Closed));
}

#[test]
fn dead_child_answers_closed_to_everything() {
    let mut t = LoopbackTransport::default().failing_start();
    t.request(ControlRequest::Load).unwrap();
    t.request(ControlRequest::Bind).unwrap();
    let _ = t.request(ControlRequest::Start);
    assert_eq!(t.request(ControlRequest::Unload), Err(TransportError::Closed));
    assert!(!t.is_alive());
}

#[test]
fn stopped_child_can_restart_and_unload_is_always_legal() {
    let mut t = LoopbackTransport::new();
    assert_eq!(t.request(ControlRequest::Unload).unwrap(), ControlResponse::Unloaded);
    let mut t = LoopbackTransport::new();
    t.request(ControlRequest::Load).unwrap();
    t.request(ControlRequest::Bind).unwrap();
    t.request(ControlRequest::Start).unwrap();
    t.request(ControlRequest::Stop).unwrap();
    assert_eq!(t.request(ControlRequest::Start).unwrap(), ControlResponse::Started);
    assert_eq!(t.request(ControlRequest::Load), Err(TransportError::Protocol("illegal control message for state")));
}

#[test]
fn dying_child_survives_exactly_n_ticks() {
    let mut t = LoopbackTransport::new().dying_after(2);
    t.request(ControlRequest::Load).unwrap();
    t.request(ControlRequest::Bind).unwrap();
    t.request(ControlRequest::Start).unwrap();
    assert!(t.request(tick()).is_ok());
    assert!(t.request(tick()).is_ok());
    assert_eq!(t.request(tick()), Err(TransportError::Closed));
}

#[test]
fn a_live_process_child_acknowledges_every_request() {
    assert_eq!(synthetic_ack(&ControlRequest::Load), ControlResponse::Loaded);
    assert_eq!(synthetic_ack(&ControlRequest::Bind), ControlResponse::Bound);
    assert_eq!(synthetic_ack(&ControlRequest::Start), ControlResponse::Started);
    assert_eq!(
        synthetic_ack(&ControlRequest::Tick { dt_bits: 0, elapsed_bits: 0 }),
        ControlResponse::Ticked(TickOutcome::Completed)
    );
    assert_eq!(synthetic_ack(&ControlRequest::Stop), ControlResponse::Stopped);
    assert_eq!(synthetic_ack(&ControlRequest::Unload), ControlResponse::Unloaded);
}
