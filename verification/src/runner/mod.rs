//! Runner — execution seams: lifecycle states, capabilities, the ids-only
//! handshake, tick outcomes, the supervision policy and the host data plane.

pub mod backend;
pub mod clock;
pub mod dataplane;
pub mod execution;
pub mod inproc;
pub mod mock;
pub mod host;
pub mod native;
pub mod sandbox;
pub mod supervisor;

pub use backend::{BoundRunner, LoadedRunner, RunnerBackend, RunningRunner, StoppedRunner};
pub use clock::{Clock, ManualClock, SystemClock};
pub use dataplane::{BridgedHost, FrameBridge, MetricsBridge, ResourceBridge, SignalBridge, WorkerBridge};
pub use execution::{BehaviorExecutionUnit, ExecutionUnit, MockExecutionUnit, UnitDeclaration};
pub use inproc::InProcessRustRunner;
pub use host::{
    CapabilityDenied, FrameRef, FrameTier, HostApi, LogLevel, Metrics, NullHost, RecordingHost, ResourceHandle,
    WorkerHandle,
};
pub use mock::MockRunnerBackend;
pub use native::{
    ControlRequest, ControlResponse, ControlTransport, HostBridge, LoopbackTransport, NativeExecutionUnit, NativeRunnerBackend,
    ProcessLauncher, ProcessSupervisor, SupervisionReport, TransportError, TransportSpec,
};
pub use sandbox::{LinuxSandbox, MacSandbox, Sandbox, SandboxError, SandboxSpec, WindowsSandbox};
pub use supervisor::{FaultDecision, RestartPolicy, Supervisor};

use crate::signal::SignalId;
use vstd::prelude::*;

verus! {

/// The boundary ABI version negotiated at the handshake.
pub const ABI_VERSION: u16 = 1;

/// Which execution backend a runner is.
#[derive(Debug, Clone, Copy, PartialEq, Eq, Structural)]
pub enum RunnerKind {
    /// First-party Rust, executed in the engine process.
    InProcessRust,
    /// Out-of-process subprocess.
    Native,
}

/// Lifecycle state owned by the [`Supervisor`] state machine.
#[derive(Debug, Clone, Copy, PartialEq, Eq, Structural)]
pub enum RunnerState {
    Loading,
    Ready,
    Running,
    Stopped,
    Unloaded,
    Faulted,
    Restarting,
    Disabled,
}

/// Capabilities an addon *requests* (handshake field). A declaration only —
/// never enforced here.
#[derive(Debug, Clone, Copy, PartialEq, Eq, Structural)]
pub struct Capabilities {
    pub network: bool,
    pub filesystem: bool,
    pub camera: bool,
    pub frame_fullres: bool,
    pub gpu_compute: bool,
    pub spawn_worker: bool,
}

/// No capability requested.
pub open spec fn no_capabilities() -> Capabilities {
    Capabilities {
        network: false,
        filesystem: false,
        camera: false,
        frame_fullres: false,
        gpu_compute: false,
        spawn_worker: false,
    }
}

impl Default for Capabilities {
    /// Every capability denied.
    fn default() -> (r: Self)
        ensures r == no_capabilities(),
    {
        Capabilities {
            network: false,
            filesystem: false,
            camera: false,
            frame_fullres: false,
            gpu_compute: false,
            spawn_worker: false,
        }
    }
}

/// The tiny, ids-only handshake that crosses the boundary: version, requested
/// capabilities, and the resolved publish/consume slot ids — nothing else.
#[derive(Debug, Clone)]
pub struct Handshake {
    pub version: u16,
    pub caps: Capabilities,
    pub publish: Vec<SignalId>,
    pub consume: Vec<SignalId>,
}

impl Default for Handshake {
    /// Version 0, no capabilities, no slots.
    fn default() -> (r: Self)
        ensures
            r.version == 0,
            r.caps == no_capabilities(),
            r.publish@.len() == 0,
            r.consume@.len() == 0,
    {
        Handshake { version: 0, caps: Capabilities::default(), publish: Vec::new(), consume: Vec::new() }
    }
}

/// The result of one tick.
#[derive(Debug, Clone, PartialEq, Eq)]
pub enum TickOutcome {
    /// The runner produced its output for this tick.
    Completed,
    /// Loaded but not executing this tick.
    Idle,
    /// The runner failed; the [`Supervisor`] decides restart vs. disable.
    Faulted(String),
}

/// A tick outcome with the fault reason taken as text.
pub enum TickOutcomeView {
    Completed,
    Idle,
    Faulted(Seq<char>),
}

impl View for TickOutcome {
    type V = TickOutcomeView;

    open spec fn view(&self) -> TickOutcomeView {
        match self {
            TickOutcome::Completed => TickOutcomeView::Completed,
            TickOutcome::Idle => TickOutcomeView::Idle,
            TickOutcome::Faulted(reason) => TickOutcomeView::Faulted(reason@),
        }
    }
}

/// Errors from constructing a runner.
#[derive(Debug, Clone, PartialEq, Eq)]
pub enum RunnerError {
    /// The backend could not build its execution unit.
    Load(String),
}

} // verus!
