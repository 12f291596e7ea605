use static_runtime::behavior::node::Timing;
use static_runtime::runner::native::supervisor::drive_attempt;
use static_runtime::fbits::f32_bits_from_u32;
use static_runtime::runner::clock::ManualClock;
use static_runtime::runner::{
    BridgedHost, Capabilities, ExecutionUnit, FrameTier, HostApi, LogLevel, Metrics, MetricsBridge,
    MockExecutionUnit, MockRunnerBackend, NativeRunnerBackend, NullHost, ProcessSupervisor, RecordingHost,
    ResourceHandle, RestartPolicy, RunnerBackend, RunnerKind, RunnerState, TickOutcome, ABI_VERSION,
};
use static_runtime::addon::schema::ParamValue;
use static_runtime::signal::{SignalKind, SignalSchema, SignalValue};
use std::sync::Arc;

fn timing() -> Timing {
    Timing { dt_bits: 0, elapsed_bits: 0 }
}

fn time_schema() -> Arc<SignalSchema> {
    Arc::new(SignalSchema::from_pairs(&[("signal.time", SignalKind::F32)]))
}

fn is_faulted(o: &TickOutcome) -> bool {
    matches!(o, TickOutcome::Faulted(_))
}

#[test]
fn native_lifecycle_over_loopback() {
    let backend: Box<dyn RunnerBackend<NullHost>> = Box::new(NativeRunnerBackend::loopback(&["x"]));
    assert_eq!(backend.kind(), RunnerKind::Native);

    let mut host = NullHost;
    let loaded = backend.load().unwrap();
    let bound = loaded.bind(&mut host);
    assert_eq!(bound.handshake().version, ABI_VERSION);
    let mut running = bound.start(&mut host);
    assert_eq!(running.tick(&mut host, timing()), TickOutcome::Completed);
    assert_eq!(running.tick(&mut host, timing()), TickOutcome::Completed);
    let _stopped = running.stop(&mut host);
}

#[test]
fn start_failure_surfaces_as_faulted_tick() {
    let backend: Box<dyn RunnerBackend<NullHost>> = Box::new(NativeRunnerBackend::loopback_failing_start(&["x"]));
    let mut host = NullHost;
    let mut running = backend.load().unwrap().bind(&mut host).start(&mut host);
    assert!(is_faulted(&running.tick(&mut host, timing())));
}

#[test]
fn crash_midrun_faults_then_latches() {
    let backend: Box<dyn RunnerBackend<NullHost>> = Box::new(NativeRunnerBackend::loopback_dying(&["x"], 1));
    let mut host = NullHost;
    let mut running = backend.load().unwrap().bind(&mut host).start(&mut host);
    assert_eq!(running.tick(&mut host, timing()), TickOutcome::Completed);
    assert!(is_faulted(&running.tick(&mut host, timing())));
    assert!(is_faulted(&running.tick(&mut host, timing())), "fault latches");
    let _ = running.stop(&mut host);
}

#[test]
fn crash_reason_names_the_closed_channel_then_the_latch() {
    let backend: Box<dyn RunnerBackend<NullHost>> = Box::new(NativeRunnerBackend::loopback_dying(&["x"], 0));
    let mut host = NullHost;
    let mut running = backend.load().unwrap().bind(&mut host).start(&mut host);
    assert_eq!(running.tick(&mut host, timing()), TickOutcome::Faulted("transport: Closed".to_string()));
    assert_eq!(running.tick(&mut host, timing()), TickOutcome::Faulted("native start failed".to_string()));
}

#[test]
fn process_spec_without_a_launcher_never_starts() {
    let backend: Box<dyn RunnerBackend<NullHost>> = Box::new(NativeRunnerBackend::process("sh", &["-c", "true"], &["x"]));
    let mut host = NullHost;
    let mut running = backend.load().unwrap().bind(&mut host).start(&mut host);
    assert_eq!(running.tick(&mut host, timing()), TickOutcome::Faulted("native start failed".to_string()));
}

fn policy(max_faults: u32) -> RestartPolicy {
    RestartPolicy { max_faults, window_ms: 10_000, backoff_base_ms: 1, backoff_cap_ms: 1 }
}

#[test]
fn crashing_runner_restarts_then_trips_breaker() {
    let clock = ManualClock::new(0);
    let mut ps = ProcessSupervisor::new(policy(3), Box::new(clock));
    let mut host = NullHost;
    let mut make = || Box::new(NativeRunnerBackend::loopback_dying(&["x"], 0)) as Box<dyn RunnerBackend<NullHost>>;

    let report = ps.supervise(&mut make, &mut host, 4, 10);
    assert_eq!(report.restarts, 2, "fault1→restart, fault2→restart, fault3→disable");
    assert!(report.disabled);
    assert_eq!(report.last_state, RunnerState::Disabled);
}

#[test]
fn healthy_runner_runs_clean() {
    let clock = ManualClock::new(0);
    let mut ps = ProcessSupervisor::new(policy(3), Box::new(clock));
    let mut host = NullHost;
    let mut make = || Box::new(NativeRunnerBackend::loopback(&["x"])) as Box<dyn RunnerBackend<NullHost>>;

    let report = ps.supervise(&mut make, &mut host, 5, 10);
    assert_eq!(report.attempts, 1);
    assert_eq!(report.restarts, 0);
    assert!(!report.disabled);
    assert_eq!(report.last_state, RunnerState::Stopped);
}

#[test]
fn supervision_stops_at_the_attempt_budget() {
    let clock = ManualClock::new(0);
    let mut ps = ProcessSupervisor::new(policy(100), Box::new(clock));
    let mut host = NullHost;
    let mut make = || Box::new(NativeRunnerBackend::loopback_dying(&["x"], 0)) as Box<dyn RunnerBackend<NullHost>>;

    let report = ps.supervise(&mut make, &mut host, 4, 3);
    assert_eq!(report.attempts, 3);
    assert_eq!(report.restarts, 3);
    assert!(!report.disabled);
}

#[test]
fn mock_unit_drives_the_host_and_faults_after_its_limit() {
    let unit = MockExecutionUnit::new(vec!["signal.time".to_string()]).faulting_after(2);
    let backend: Box<dyn RunnerBackend<RecordingHost>> = Box::new(MockRunnerBackend::with_unit(Box::new(unit)));
    assert_eq!(backend.kind(), RunnerKind::InProcessRust);
    let mut host = RecordingHost::with_schema(time_schema());
    let loaded = backend.load().unwrap();
    assert_eq!(loaded.declares_publish(), &["signal.time".to_string()]);
    let bound = loaded.bind(&mut host);
    assert_eq!(bound.handshake().publish.len(), 1);
    let mut running = bound.start(&mut host);
    assert_eq!(running.tick(&mut host, timing()), TickOutcome::Completed);
    assert_eq!(running.tick(&mut host, timing()), TickOutcome::Completed);
    assert_eq!(running.tick(&mut host, timing()), TickOutcome::Faulted("mock fault".to_string()));
    assert_eq!(host.heartbeats, 3);
    assert_eq!(host.frame_requests, 3);
    assert_eq!(host.subscribed_tier, Some(FrameTier::R320x180));
    assert_eq!(host.published.len(), 3);
    assert_eq!(host.published[2], (0, SignalValue::F32(3.0f32.to_bits())));
    let stopped = running.stop(&mut host);
    assert_eq!(stopped.kind(), RunnerKind::InProcessRust);
}

#[test]
fn mock_unit_records_lifecycle_calls() {
    let mut unit = MockExecutionUnit::new(vec![]).with_caps(Capabilities { camera: true, ..Capabilities::default() });
    let mut host = NullHost;
    ExecutionUnit::<NullHost>::start(&mut unit, &mut host);
    assert!(unit.started);
    assert_eq!(ExecutionUnit::<NullHost>::run(&mut unit, &mut host, timing()), TickOutcome::Completed);
    assert_eq!(unit.runs, 1);
    ExecutionUnit::<NullHost>::stop(&mut unit, &mut host);
    assert!(unit.stopped);
}

#[test]
fn whole_numbers_encode_as_their_f32_bits() {
    for n in [0u32, 1, 2, 3, 7, 255, 1 << 23, (1 << 24) - 1, 1 << 24, (1 << 24) + 1, (1 << 24) + 3, 123_456_789, u32::MAX] {
        assert_eq!(f32_bits_from_u32(n), (n as f32).to_bits(), "n = {n}");
    }
}

#[test]
fn snapshot_is_fresh_and_a_copy() {
    let mut m = MetricsBridge::new();
    assert_eq!(m.snapshot(), Metrics::default());
    m.update(Metrics {
        cpu_bits: 12.5f32.to_bits(),
        memory_bytes: 1024,
        tick_us_bits: 800.0f32.to_bits(),
        fps_bits: 30.0f32.to_bits(),
        over_budget: 2,
    });
    let snap = m.snapshot();
    assert_eq!(f32::from_bits(snap.cpu_bits), 12.5);
    assert_eq!(snap.over_budget, 2);
    m.update(Metrics::default());
    assert_eq!(f32::from_bits(snap.cpu_bits), 12.5, "prior snapshot is an independent copy");
    assert_eq!(m.snapshot(), Metrics::default(), "fresh read reflects the update");
}

#[test]
fn each_bridge_is_isolated_to_one_addon() {
    let mut a = MetricsBridge::new();
    let b = MetricsBridge::new();
    a.update(Metrics { fps_bits: 144.0f32.to_bits(), ..Metrics::default() });
    assert_eq!(f32::from_bits(a.snapshot().fps_bits), 144.0);
    assert_eq!(f32::from_bits(b.snapshot().fps_bits), 0.0, "addon B never sees addon A's metrics");
}

#[test]
fn runner_crash_does_not_corrupt_the_data_plane() {
    let mut host = BridgedHost::new(time_schema(), false);
    let backend: Box<dyn RunnerBackend<BridgedHost>> = Box::new(NativeRunnerBackend::loopback_dying(&["signal.time"], 0));
    let mut running = backend.load().unwrap().bind(&mut host).start(&mut host);
    let outcome = running.tick(&mut host, timing());
    assert!(is_faulted(&outcome));
    let _ = running.stop(&mut host);

    let id = host.subscribe("signal.time").unwrap();
    host.publish(id, SignalValue::F32(5.0f32.to_bits()));
    host.commit();
    assert_eq!(host.read_latest_signals().get(id), SignalValue::F32(5.0f32.to_bits()));
}

#[test]
fn bridged_host_realizes_the_full_hostapi_surface() {
    let mut host = BridgedHost::new(time_schema(), true).with_param("k", ParamValue::F32(0.5f64.to_bits()));
    {
        let h: &mut dyn HostApi = &mut host;
        let id = h.subscribe("signal.time").unwrap();
        h.publish(id, SignalValue::F32(1.0f32.to_bits()));
        assert!(h.request_frame(FrameTier::R320x180));
        assert!(h.read_frame().is_none());
        assert_eq!(h.get_param("k"), Some(ParamValue::F32(0.5f64.to_bits())));
        assert_eq!(h.timing().elapsed_bits, 0);
        let r = h.request_resource("model").unwrap();
        h.release_resource(r);
        assert!(h.spawn_worker().is_ok());
        let _ = h.metrics();
        h.heartbeat();
        h.log(LogLevel::Info, "hello");
    }
    assert_eq!(host.live_workers(), 1);
    assert_eq!(host.heartbeats(), 1);
}

#[test]
fn read_frame_is_tick_consistent_via_hostapi() {
    let mut host = BridgedHost::new(time_schema(), false);
    host.push_frame(100, 90);
    host.begin_tick(timing());
    let a = host.read_frame();
    host.push_frame(200, 90);
    let b = host.read_frame();
    assert_eq!(a, b, "pinned within the tick");
    host.begin_tick(timing());
    assert_eq!(host.read_frame().unwrap().width, 200, "latest-wins next tick");
}

#[test]
fn reload_invalidates_resources_through_the_host() {
    let mut host = BridgedHost::new(time_schema(), false);
    let _ = host.request_resource("m").unwrap();
    assert_eq!(host.resource_refcount("m"), 1);
    host.invalidate_resources();
    assert_eq!(host.resource_refcount("m"), 0);
    assert!(host.request_resource("m").is_some(), "re-request works post-reload");
}

#[test]
fn bridged_host_denies_workers_without_the_capability_and_ignores_foreign_ids() {
    let mut host = BridgedHost::new(time_schema(), false);
    assert_eq!(host.spawn_worker().unwrap_err().capability, "spawn_worker");
    host.publish(static_runtime::signal::SignalId(7), SignalValue::F32(1));
    host.commit();
    assert_eq!(host.read_latest_signals().get(static_runtime::signal::SignalId(0)), SignalValue::F32(0));
    assert_eq!(host.get_param("missing"), None);
}

#[test]
fn null_host_satisfies_the_frozen_surface() {
    let schema = SignalSchema::from_pairs(&[("x", SignalKind::F32)]);
    let id = schema.id("x").unwrap();

    let mut host = NullHost;
    let h: &mut dyn HostApi = &mut host;
    h.publish(id, SignalValue::F32(1.0f32.to_bits()));
    assert!(h.subscribe("x").is_none());
    assert!(!h.request_frame(FrameTier::R320x180));
    assert!(!h.change_frame_tier(FrameTier::R640x360));
    assert!(h.read_frame().is_none());
    assert!(h.get_param("k").is_none());
    assert_eq!(f32::from_bits(h.timing().elapsed_bits), 0.0);
    h.log(LogLevel::Info, "hello");
    assert!(h.request_resource("m").is_none());
    h.release_resource(ResourceHandle(0));
    assert_eq!(h.spawn_worker().unwrap_err().capability, "spawn_worker", "default-deny capability");
    h.heartbeat();
    assert_eq!(h.metrics(), Metrics::default());
}

#[test]
fn an_attempt_stops_at_its_first_fault() {
    let mut host = NullHost;
    let dying: Box<dyn RunnerBackend<NullHost>> = Box::new(NativeRunnerBackend::loopback_dying(&["x"], 2));
    let mut running = dying.load().unwrap().bind(&mut host).start(&mut host);
    assert!(drive_attempt(&mut running, &mut host, 10));
    assert!(is_faulted(&running.tick(&mut host, timing())), "the fault latched");
    let healthy: Box<dyn RunnerBackend<NullHost>> = Box::new(NativeRunnerBackend::loopback(&["x"]));
    let mut running = healthy.load().unwrap().bind(&mut host).start(&mut host);
    assert!(!drive_attempt(&mut running, &mut host, 10));
    assert_eq!(running.tick(&mut host, timing()), TickOutcome::Completed);
}
