use static_runtime::addon::schema::{ParamMap, ParamSpec, ParamValue, UiHints};
use static_runtime::behavior::node::{BehaviorCtx, BehaviorNode, BehaviorStartCtx, FrameView, Timing};
use static_runtime::behavior::scheduler::BehaviorScheduler;
use static_runtime::behavior::{BehaviorCommand, BehaviorInit, BehaviorStatsShared};
use static_runtime::signal::{SignalId, SignalKind, SignalSchema, SignalSink, SignalSpec, SignalValue};
use std::collections::BTreeMap;
use std::sync::atomic::{AtomicBool, AtomicU32, Ordering};
use std::sync::Arc;
use std::time::Duration;

/// A sink that keeps every committed frame (the staged values of a tick).
#[derive(Default)]
struct Store {
    staged: Vec<(SignalId, SignalValue)>,
    frames: Vec<Vec<(SignalId, SignalValue)>>,
}

impl SignalSink for Store {
    fn stage(&mut self, id: SignalId, value: SignalValue) {
        self.staged.push((id, value));
    }
    fn commit(&mut self) {
        self.frames.push(std::mem::take(&mut self.staged));
    }
}

/// Records lifecycle calls and publishes its config value `v` to
/// `signal.time`.
struct Probe {
    started: Arc<AtomicBool>,
    stopped: Arc<AtomicBool>,
    updates: Arc<AtomicU32>,
    slow: bool,
    time_id: Option<SignalId>,
}

impl BehaviorNode for Probe {
    fn start(&mut self, ctx: &mut BehaviorStartCtx) {
        self.time_id = ctx.schema().id("signal.time");
        self.started.store(true, Ordering::Relaxed);
    }
    fn update(&mut self, ctx: &mut BehaviorCtx) {
        self.updates.fetch_add(1, Ordering::Relaxed);
        if self.slow {
            let t = std::time::Instant::now();
            while t.elapsed() < Duration::from_millis(10) {}
        }
        if let Some(id) = self.time_id {
            let v = match ctx.config().get("v") {
                Some(ParamValue::F32(bits)) => f64::from_bits(*bits) as f32,
                _ => 0.0,
            };
            ctx.publish(id, SignalValue::F32(v.to_bits()));
        }
    }
    fn stop(&mut self) {
        self.stopped.store(true, Ordering::Relaxed);
    }
}

struct Handles {
    started: Arc<AtomicBool>,
    stopped: Arc<AtomicBool>,
    updates: Arc<AtomicU32>,
}

fn probe_init(id: &str, default_v: f32, slow: bool) -> (BehaviorInit, Handles) {
    let started = Arc::new(AtomicBool::new(false));
    let stopped = Arc::new(AtomicBool::new(false));
    let updates = Arc::new(AtomicU32::new(0));
    let node = Probe { started: started.clone(), stopped: stopped.clone(), updates: updates.clone(), slow, time_id: None };
    let mut specs = BTreeMap::new();
    specs.insert(
        "v".to_string(),
        ParamSpec::F32 {
            default: (default_v as f64).to_bits(),
            min: Some(0),
            max: Some(10.0f64.to_bits()),
            ui: UiHints::default(),
        },
    );
    let mut values = ParamMap::new();
    values.insert("v".to_string(), ParamValue::F32((default_v as f64).to_bits()));
    let init = BehaviorInit { instance_id: id.to_string(), node: Box::new(node), publish: vec![], specs, values, enabled: true };
    (init, Handles { started, stopped, updates })
}

fn test_schema() -> Arc<SignalSchema> {
    Arc::new(SignalSchema::from_pairs(&[("signal.time", SignalKind::F32)]))
}

fn make(initial: Vec<BehaviorInit>) -> (BehaviorScheduler<Store>, Arc<BehaviorStatsShared>) {
    let stats = Arc::new(BehaviorStatsShared::default());
    (BehaviorScheduler::new(Store::default(), test_schema(), initial, stats.clone()), stats)
}

fn timing() -> Timing {
    Timing { dt_bits: 0, elapsed_bits: 0 }
}

/// The last committed value of `signal.time`.
fn read_time(sched: &BehaviorScheduler<Store>) -> f32 {
    let id = test_schema().id("signal.time").unwrap();
    let frame = sched.publisher().frames.last().unwrap();
    match frame.iter().rev().find(|(i, _)| *i == id).unwrap().1 {
        SignalValue::F32(bits) => f32::from_bits(bits),
        other => panic!("unexpected {other:?}"),
    }
}

#[test]
fn start_and_stop_are_invoked() {
    let (init, h) = probe_init("p", 1.0, false);
    let (mut sched, _) = make(vec![init]);
    sched.start_all();
    assert!(h.started.load(Ordering::Relaxed), "start() must run");
    sched.stop_all();
    assert!(h.stopped.load(Ordering::Relaxed), "stop() must run");
}

#[test]
fn update_publishes_signal() {
    let (init, _h) = probe_init("p", 1.0, false);
    let (mut sched, _) = make(vec![init]);
    sched.start_all();
    sched.tick(None, timing());
    assert_eq!(read_time(&sched), 1.0);
}

#[test]
fn set_param_is_a_hot_update() {
    let (init, _h) = probe_init("p", 1.0, false);
    let (mut sched, _) = make(vec![init]);
    sched.start_all();
    sched.apply(BehaviorCommand::SetParam {
        instance_id: "p".into(),
        key: "v".into(),
        value: ParamValue::F32(0.25f64.to_bits()),
    });
    sched.tick(None, timing());
    assert_eq!(read_time(&sched), 0.25, "SetParam must change published value");
}

#[test]
fn disable_skips_update_enable_resumes() {
    let (init, h) = probe_init("p", 1.0, false);
    let (mut sched, _) = make(vec![init]);
    sched.start_all();
    sched.apply(BehaviorCommand::Disable("p".into()));
    sched.tick(None, timing());
    assert_eq!(h.updates.load(Ordering::Relaxed), 0, "disabled behavior must not update");
    sched.apply(BehaviorCommand::Enable("p".into()));
    sched.tick(None, timing());
    assert_eq!(h.updates.load(Ordering::Relaxed), 1, "re-enabled behavior must update");
}

#[test]
fn reload_stops_old_and_starts_new() {
    let (init_a, a) = probe_init("a", 1.0, false);
    let (mut sched, _) = make(vec![init_a]);
    sched.start_all();
    let (init_b, b) = probe_init("b", 2.0, false);
    sched.apply(BehaviorCommand::Reload { publisher: Store::default(), schema: test_schema(), behaviors: vec![init_b] });
    assert!(a.stopped.load(Ordering::Relaxed), "reload must stop the old set");
    assert!(b.started.load(Ordering::Relaxed), "reload must start the new set");
    sched.tick(None, timing());
    assert_eq!(read_time(&sched), 2.0, "new behavior publishes into the new store after reload");
    assert_eq!(sched.publisher().frames.len(), 1, "the new store saw exactly one tick");
    assert_eq!(b.updates.load(Ordering::Relaxed), 1);
}

#[test]
fn reload_reuses_unchanged_instance_in_place() {
    let (init_a, a) = probe_init("a", 1.0, false);
    let (mut sched, _) = make(vec![init_a]);
    sched.start_all();
    let updates_before = a.updates.load(Ordering::Relaxed);
    let (init_a2, a2) = probe_init("a", 7.0, false);
    let (init_b, b) = probe_init("b", 2.0, false);
    sched.apply(BehaviorCommand::Reload {
        publisher: Store::default(),
        schema: test_schema(),
        behaviors: vec![init_a2, init_b],
    });
    assert!(!a.stopped.load(Ordering::Relaxed), "a reused in place must NOT be stopped");
    assert!(!a2.started.load(Ordering::Relaxed), "the replacement instance is not used");
    assert!(b.started.load(Ordering::Relaxed), "new instance b must start");
    sched.tick(None, timing());
    assert!(a.updates.load(Ordering::Relaxed) > updates_before, "reused instance keeps ticking");
}

#[test]
fn reload_rebuilds_instance_when_ids_shift() {
    let (mut init_a, a) = probe_init("a", 1.0, false);
    init_a.publish = vec![SignalSpec { name: "signal.time".into(), kind: SignalKind::F32 }];
    let (mut sched, _) = make(vec![init_a]);
    sched.start_all();
    let shifted =
        Arc::new(SignalSchema::from_pairs(&[("other", SignalKind::F32), ("signal.time", SignalKind::F32)]));
    let (mut init_a2, a2) = probe_init("a", 1.0, false);
    init_a2.publish = vec![SignalSpec { name: "signal.time".into(), kind: SignalKind::F32 }];
    sched.apply(BehaviorCommand::Reload { publisher: Store::default(), schema: shifted, behaviors: vec![init_a2] });
    assert!(a.stopped.load(Ordering::Relaxed), "stale-id instance must be stopped (released)");
    assert!(a2.started.load(Ordering::Relaxed), "the rebuilt instance must be started");
}

#[test]
fn over_budget_update_is_counted() {
    let (init, _h) = probe_init("slow", 1.0, true);
    let (mut sched, stats) = make(vec![init]);
    sched.start_all();
    sched.tick(None, timing());
    assert!(stats.snapshot().over_budget >= 1, "an update exceeding the 8ms budget must be counted");
}

#[test]
fn commands_address_the_first_slot_with_the_id() {
    let (a, ha) = probe_init("a", 1.0, false);
    let (b1, hb1) = probe_init("b", 1.0, false);
    let (b2, hb2) = probe_init("b", 1.0, false);
    let (mut sched, _) = make(vec![a, b1, b2]);
    sched.start_all();
    sched.apply(BehaviorCommand::Disable("b".into()));
    sched.tick(None, timing());
    assert_eq!(ha.updates.load(Ordering::Relaxed), 1);
    assert_eq!(hb1.updates.load(Ordering::Relaxed), 0, "the first slot with the id is disabled");
    assert_eq!(hb2.updates.load(Ordering::Relaxed), 1, "a later slot with the same id is not");
    sched.apply(BehaviorCommand::Shutdown);
    sched.tick(None, timing());
    assert_eq!(ha.updates.load(Ordering::Relaxed), 2, "shutdown changes nothing in the scheduler itself");
}

#[test]
fn ticks_are_counted_and_committed_once_each() {
    let (init, _h) = probe_init("p", 1.0, false);
    let (mut sched, stats) = make(vec![init]);
    sched.start_all();
    sched.tick(None, timing());
    sched.tick(None, timing());
    assert_eq!(sched.published(), 2);
    assert_eq!(sched.publisher().frames.len(), 2, "one commit per tick");
    assert_eq!(stats.snapshot().published, 2);
}

/// Publishes the width of the frame it sees (0 with no frame) and the
/// elapsed-time bits it is handed.
struct FrameProbe;

impl BehaviorNode for FrameProbe {
    fn start(&mut self, _ctx: &mut BehaviorStartCtx) {}
    fn update(&mut self, ctx: &mut BehaviorCtx) {
        let width = ctx.frame().map_or(0, |f| f.width() as i32);
        let elapsed = ctx.timing().elapsed_bits;
        ctx.publish(SignalId(0), SignalValue::I32(width));
        ctx.publish(SignalId(0), SignalValue::F32(elapsed));
    }
    fn stop(&mut self) {}
}

#[test]
fn every_enabled_behavior_sees_the_tick_frame_and_timing() {
    let init = BehaviorInit {
        instance_id: "f".into(),
        node: Box::new(FrameProbe),
        publish: vec![],
        specs: BTreeMap::new(),
        values: ParamMap::new(),
        enabled: true,
    };
    let (mut sched, _) = make(vec![init]);
    sched.start_all();
    let pixels = vec![0u8; 4 * 6 * 2];
    let t = Timing { dt_bits: 0, elapsed_bits: 2.5f32.to_bits() };
    sched.tick(Some(FrameView::new(6, 2, &pixels)), t);
    assert_eq!(
        sched.publisher().frames[0],
        vec![(SignalId(0), SignalValue::I32(6)), (SignalId(0), SignalValue::F32(2.5f32.to_bits()))],
        "signals are staged in publish order"
    );
}
