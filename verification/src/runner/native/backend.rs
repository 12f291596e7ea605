//! [`NativeRunnerBackend`] — a runner whose work runs in a child (a real
//! subprocess or a loopback stand-in). Building it records metadata only; no
//! process is spawned until the runner starts.

use super::transport::{loopback_step, reply_matches, ChildState, ControlTransport, LoopbackModel, LoopbackReply, LoopbackTransport};
use super::{ControlRequest, ControlResponse, ControlResponseView, TransportError};
use crate::behavior::node::Timing;
use crate::runner::backend::{LoadedRunner, RunnerBackend};
use crate::runner::execution::{ExecutionUnit, UnitDeclaration};
use crate::runner::host::HostApi;
use crate::runner::{no_capabilities, Capabilities, RunnerError, RunnerKind, TickOutcome, TickOutcomeView};
use crate::text::{debug_quote, debug_text, to_strings};
use vstd::prelude::*;
use vstd::string::StringExecFns;

verus! {

/// How the control transport of a native runner is obtained at start.
#[derive(Debug, Clone)]
pub enum TransportSpec {
    /// Deterministic in-process child.
    Loopback { die_after: Option<u32>, fail_start: bool },
    /// A real OS subprocess.
    Process { program: String, args: Vec<String> },
}

/// Whether `v` holds exactly the texts of `names`.
pub open spec fn same_texts(v: Seq<String>, names: Seq<&str>) -> bool {
    &&& v.len() == names.len()
    &&& forall|i: int| 0 <= i < names.len() ==> #[trigger] v[i]@ == names[i]@
}

/// Opens the control channel to a real OS subprocess. Spawning processes is
/// outside this library; a program that runs `Process` specs supplies one.
pub trait ProcessLauncher {
    fn launch(&mut self, program: &str, args: &[String]) -> Result<Box<dyn ControlTransport>, TransportError>;
}

pub struct NativeRunnerBackend {
    pub spec: TransportSpec,
    pub publish_names: Vec<String>,
    pub consume_names: Vec<String>,
    pub caps: Capabilities,
    /// How `Process` specs are spawned; without one they fail to start.
    pub launcher: Option<Box<dyn ProcessLauncher>>,
}

impl NativeRunnerBackend {
    pub fn new(spec: TransportSpec, publish_names: Vec<String>, caps: Capabilities) -> (r: Self)
        ensures
            r.spec == spec,
            r.publish_names == publish_names,
            r.consume_names@.len() == 0,
            r.caps == caps,
            r.launcher is None,
    {
        NativeRunnerBackend { spec, publish_names, consume_names: Vec::new(), caps, launcher: None }
    }

    /// Spawn `Process` specs through `launcher`.
    pub fn with_launcher(self, launcher: Box<dyn ProcessLauncher>) -> (r: Self)
        ensures
            r.spec == self.spec,
            r.publish_names == self.publish_names,
            r.consume_names == self.consume_names,
            r.caps == self.caps,
            r.launcher is Some,
    {
        NativeRunnerBackend { launcher: Some(launcher), ..self }
    }

    /// Deterministic loopback child.
    pub fn loopback(publish_names: &[&str]) -> (r: Self)
        ensures
            r.spec == (TransportSpec::Loopback { die_after: None, fail_start: false }),
            same_texts(r.publish_names@, publish_names@),
            r.consume_names@.len() == 0,
            r.caps == no_capabilities(),
    {
        Self::new(TransportSpec::Loopback { die_after: None, fail_start: false }, to_strings(publish_names), Capabilities::default())
    }

    /// Loopback child that crashes after `n` ticks.
    pub fn loopback_dying(publish_names: &[&str], n: u32) -> (r: Self)
        ensures
            r.spec == (TransportSpec::Loopback { die_after: Some(n), fail_start: false }),
            same_texts(r.publish_names@, publish_names@),
            r.consume_names@.len() == 0,
            r.caps == no_capabilities(),
    {
        Self::new(TransportSpec::Loopback { die_after: Some(n), fail_start: false }, to_strings(publish_names), Capabilities::default())
    }

    /// Loopback child that fails to start.
    pub fn loopback_failing_start(publish_names: &[&str]) -> (r: Self)
        ensures
            r.spec == (TransportSpec::Loopback { die_after: None, fail_start: true }),
            same_texts(r.publish_names@, publish_names@),
            r.consume_names@.len() == 0,
            r.caps == no_capabilities(),
    {
        Self::new(TransportSpec::Loopback { die_after: None, fail_start: true }, to_strings(publish_names), Capabilities::default())
    }

    /// A real OS subprocess.
    pub fn process(program: &str, args: &[&str], publish_names: &[&str]) -> (r: Self)
        ensures
            (r.spec matches TransportSpec::Process { program: p, args: a }
                && p@ == program@ && same_texts(a@, args@)),
            same_texts(r.publish_names@, publish_names@),
            r.consume_names@.len() == 0,
            r.caps == no_capabilities(),
    {
        let p = program.to_string();
        Self::new(TransportSpec::Process { program: p, args: to_strings(args) }, to_strings(publish_names), Capabilities::default())
    }
}

/// The Debug spelling of a transport error.
pub open spec fn transport_error_text(e: TransportError) -> Seq<char> {
    match e {
        TransportError::Closed => "Closed"@,
        TransportError::Timeout => "Timeout"@,
        TransportError::Protocol(m) => "Protocol("@ + debug_text(m@) + ")"@,
        TransportError::Io(m) => "Io("@ + debug_text(m@) + ")"@,
    }
}

/// `format!("{e:?}")` for a transport error.
pub fn transport_error_debug(e: &TransportError) -> (r: String)
    ensures
        r@ == transport_error_text(*e),
{
    match e {
        TransportError::Closed => "Closed".to_string(),
        TransportError::Timeout => "Timeout".to_string(),
        TransportError::Protocol(m) => "Protocol(".to_string().concat(debug_quote(m).as_str()).concat(")"),
        TransportError::Io(m) => "Io(".to_string().concat(debug_quote(m.as_str()).as_str()).concat(")"),
    }
}

/// What a tick round-trip's reply means for the runner: the child's own
/// outcome, or a fault for any other response or a transport error.
pub open spec fn tick_reply_outcome(reply: Result<ControlResponse, TransportError>) -> TickOutcomeView {
    match reply {
        Ok(ControlResponse::Ticked(o)) => o@,
        Ok(_) => TickOutcomeView::Faulted("unexpected control response"@),
        Err(e) => TickOutcomeView::Faulted("transport: "@ + transport_error_text(e)),
    }
}

/// The tick outcome of a tick round-trip's reply.
pub fn tick_outcome_of(reply: Result<ControlResponse, TransportError>) -> (r: TickOutcome)
    ensures
        r@ == tick_reply_outcome(reply),
{
    match reply {
        Ok(ControlResponse::Ticked(o)) => o,
        Ok(_) => TickOutcome::Faulted("unexpected control response".to_string()),
        Err(e) => TickOutcome::Faulted("transport: ".to_string().concat(transport_error_debug(&e).as_str())),
    }
}

/// The control channel of a started native unit: a loopback child held
/// concretely, or a transport from a process launcher.
enum Channel {
    Loopback(LoopbackTransport),
    Launched(Box<dyn ControlTransport>),
}

impl Channel {
    fn request(&mut self, req: ControlRequest) -> (r: Result<ControlResponse, TransportError>)
        ensures
            *old(self) matches Channel::Loopback(t) ==> (*final(self) matches Channel::Loopback(u)
                && u@ == loopback_step(t@, req).0 && reply_matches(r, loopback_step(t@, req).1)),
            *old(self) is Launched ==> *final(self) is Launched,
    {
        match self {
            Channel::Loopback(t) => t.request(req),
            Channel::Launched(t) => t.request(req),
        }
    }
}

/// A fresh loopback child with the given fault settings.
pub open spec fn fresh_loopback(die_after: Option<u32>, fail_start: bool) -> LoopbackModel {
    LoopbackModel { state: ChildState::NotLoaded, alive: true, ticks: 0, die_after, fail_start }
}

/// The loopback child after a successful Load/Bind/Start handshake.
pub open spec fn started_loopback(die_after: Option<u32>) -> LoopbackModel {
    LoopbackModel { state: ChildState::Started, alive: true, ticks: 0, die_after, fail_start: false }
}

/// What a loopback child's tick reply means for the runner.
pub open spec fn loopback_tick_outcome(reply: LoopbackReply) -> TickOutcomeView {
    match reply {
        LoopbackReply::Response(ControlResponseView::Ticked(o)) => o,
        LoopbackReply::Response(_) => TickOutcomeView::Faulted("unexpected control response"@),
        LoopbackReply::Closed => tick_reply_outcome(Err(TransportError::Closed)),
        LoopbackReply::Illegal => tick_reply_outcome(Err(TransportError::Protocol("illegal control message for state"))),
    }
}

/// Open a loopback child and run the Load/Bind/Start handshake on it.
fn start_loopback(die_after: Option<u32>, fail_start: bool) -> (r: Option<LoopbackTransport>)
    ensures
        fail_start ==> r is None,
        !fail_start ==> (r matches Some(t) && t@ == started_loopback(die_after)),
{
    let mut t = LoopbackTransport::new();
    if let Some(n) = die_after {
        t = t.dying_after(n);
    }
    if fail_start {
        t = t.failing_start();
    }
    assert(t@ == fresh_loopback(die_after, fail_start));
    let loaded = t.request(ControlRequest::Load);
    let bound = t.request(ControlRequest::Bind);
    let started = t.request(ControlRequest::Start);
    if matches!(loaded, Ok(ControlResponse::Loaded)) && matches!(bound, Ok(ControlResponse::Bound))
        && matches!(started, Ok(ControlResponse::Started)) {
        Some(t)
    } else {
        None
    }
}

/// Run the Load/Bind/Start handshake over a launched transport.
fn start_launched(mut t: Box<dyn ControlTransport>) -> (r: Option<Box<dyn ControlTransport>>) {
    let loaded = t.request(ControlRequest::Load);
    if !matches!(loaded, Ok(ControlResponse::Loaded)) {
        return None;
    }
    let bound = t.request(ControlRequest::Bind);
    if !matches!(bound, Ok(ControlResponse::Bound)) {
        return None;
    }
    let started = t.request(ControlRequest::Start);
    if matches!(started, Ok(ControlResponse::Started)) {
        Some(t)
    } else {
        None
    }
}

/// The execution unit of a native runner: the spec, the declared signal
/// names and, once started, the live control channel. No host data.
pub struct NativeExecutionUnit {
    spec: TransportSpec,
    publish_names: Vec<String>,
    consume_names: Vec<String>,
    caps: Capabilities,
    launcher: Option<Box<dyn ProcessLauncher>>,
    channel: Option<Channel>,
    /// Set only after a successful Load+Bind+Start handshake at start.
    started_ok: bool,
}

impl NativeExecutionUnit {
    pub fn new(spec: TransportSpec, publish_names: Vec<String>, consume_names: Vec<String>, caps: Capabilities) -> (r: Self)
        ensures
            r.spec_spec() == spec,
            r.spec_publish_names() == publish_names@,
            r.spec_consume_names() == consume_names@,
            r.spec_caps() == caps,
            !r.is_started(),
            !r.has_transport(),
            !r.has_launcher(),
    {
        NativeExecutionUnit { spec, publish_names, consume_names, caps, launcher: None, channel: None, started_ok: false }
    }

    pub closed spec fn spec_spec(&self) -> TransportSpec {
        self.spec
    }

    pub closed spec fn spec_publish_names(&self) -> Seq<String> {
        self.publish_names@
    }

    pub closed spec fn spec_consume_names(&self) -> Seq<String> {
        self.consume_names@
    }

    pub closed spec fn spec_caps(&self) -> Capabilities {
        self.caps
    }

    /// Whether the start handshake succeeded and no fault has latched since.
    pub closed spec fn is_started(&self) -> bool {
        self.started_ok
    }

    /// Whether a process launcher was supplied.
    pub closed spec fn has_launcher(&self) -> bool {
        self.launcher is Some
    }

    /// Whether a control channel is held.
    pub closed spec fn has_transport(&self) -> bool {
        self.channel is Some
    }

    /// The state of the loopback child, when the channel is one.
    pub closed spec fn loopback_child(&self) -> Option<LoopbackModel> {
        match self.channel {
            Some(Channel::Loopback(t)) => Some(t@),
            _ => None,
        }
    }
}

/// A native unit's start, from `u` to `v`: the channel is opened and the
/// Load/Bind/Start handshake run; the unit is started only with a channel. A
/// loopback child starts unless it is set to fail at start, and then stands
/// just started; a process spec without a launcher never starts; a started
/// process child is no loopback child.
pub open spec fn native_started(u: NativeExecutionUnit, v: NativeExecutionUnit) -> bool {
    &&& v.is_started() ==> v.has_transport()
    &&& v.spec_spec() == u.spec_spec()
    &&& u.spec_spec() matches TransportSpec::Loopback { die_after, fail_start } ==> {
        &&& v.is_started() == !fail_start
        &&& !fail_start ==> v.loopback_child() == Some(started_loopback(die_after))
    }
    &&& (u.spec_spec() is Process && !u.has_launcher()) ==> !v.is_started()
    &&& u.spec_spec() is Process && v.is_started() ==> v.loopback_child() is None
    &&& v.has_launcher() == u.has_launcher()
}

/// One tick of a native unit at `timing`, from `u` to `v`, reporting
/// `outcome`. Not started: a fault, and it stays so (the fault latches).
/// Otherwise the outcome is what the reply means ([`tick_reply_outcome`];
/// for a loopback child [`loopback_tick_outcome`] of its step), and a
/// transport error latches the fault.
pub open spec fn native_ran(u: NativeExecutionUnit, timing: Timing, outcome: TickOutcomeView, v: NativeExecutionUnit) -> bool {
    &&& !u.is_started() ==> outcome == TickOutcomeView::Faulted("native start failed"@) && !v.is_started()
    &&& u.is_started() && !u.has_transport() ==> outcome == TickOutcomeView::Faulted("no transport"@)
    &&& u.is_started() && u.has_transport() ==> exists|reply: Result<ControlResponse, TransportError>|
        outcome == tick_reply_outcome(reply) && v.is_started() == (reply is Ok)
    &&& u.is_started() ==> (u.loopback_child() matches Some(m) ==> {
        let step = loopback_step(m, ControlRequest::Tick { dt_bits: timing.dt_bits, elapsed_bits: timing.elapsed_bits });
        &&& outcome == loopback_tick_outcome(step.1)
        &&& v.loopback_child() == Some(step.0)
        &&& v.is_started() == (step.1 is Response)
    })
    &&& v.has_transport() == u.has_transport()
    &&& v.spec_spec() == u.spec_spec()
}

/// A native unit's stop, from `u` to `v`: Stop and Unload are sent and the
/// channel dropped.
pub open spec fn native_stopped(u: NativeExecutionUnit, v: NativeExecutionUnit) -> bool {
    &&& !v.is_started()
    &&& !v.has_transport()
    &&& v.spec_spec() == u.spec_spec()
    &&& v.has_launcher() == u.has_launcher()
}

impl UnitDeclaration for NativeExecutionUnit {
    open spec fn declared_publishes(&self) -> Seq<Seq<char>> {
        self.spec_publish_names().map_values(|s: String| s@)
    }

    open spec fn declared_consumes(&self) -> Seq<Seq<char>> {
        self.spec_consume_names().map_values(|s: String| s@)
    }

    open spec fn declared_caps(&self) -> Capabilities {
        self.spec_caps()
    }

    fn publishes(&self) -> (r: &[String])
        ensures
            r@ == self.spec_publish_names(),
    {
        self.publish_names.as_slice()
    }

    fn consumes(&self) -> (r: &[String])
        ensures
            r@ == self.spec_consume_names(),
    {
        self.consume_names.as_slice()
    }

    fn caps(&self) -> (r: Capabilities)
        ensures
            r == self.spec_caps(),
    {
        self.caps
    }
}

impl<H: HostApi + ?Sized> ExecutionUnit<H> for NativeExecutionUnit {
    /// Not started: a fault; no channel: a fault; a loopback child: what its
    /// tick reply means; a launched child: what some reply means.
    open spec fn may_report(&self, timing: Timing, outcome: TickOutcomeView) -> bool {
        if !self.is_started() {
            outcome == TickOutcomeView::Faulted("native start failed"@)
        } else if !self.has_transport() {
            outcome == TickOutcomeView::Faulted("no transport"@)
        } else {
            match self.loopback_child() {
                Some(m) => outcome == loopback_tick_outcome(
                    loopback_step(m, ControlRequest::Tick { dt_bits: timing.dt_bits, elapsed_bits: timing.elapsed_bits }).1,
                ),
                None => exists|reply: Result<ControlResponse, TransportError>| outcome == tick_reply_outcome(reply),
            }
        }
    }

    /// Forward each published name to the host (`subscribe`); the results are
    /// the typestate's business, the unit keeps nothing.
    /// A loopback child fails its start when set to, else its first tick
    /// answers from the just-started state; a process child without a
    /// launcher never starts; a launched child either failed to start or
    /// answers some reply.
    open spec fn may_report_after_start(&self, timing: Timing, outcome: TickOutcomeView) -> bool {
        match self.spec_spec() {
            TransportSpec::Loopback { die_after, fail_start } => if fail_start {
                outcome == TickOutcomeView::Faulted("native start failed"@)
            } else {
                outcome == loopback_tick_outcome(
                    loopback_step(
                        started_loopback(die_after),
                        ControlRequest::Tick { dt_bits: timing.dt_bits, elapsed_bits: timing.elapsed_bits },
                    ).1,
                )
            },
            TransportSpec::Process { .. } => {
                ||| outcome == TickOutcomeView::Faulted("native start failed"@)
                ||| self.has_launcher() && exists|reply: Result<ControlResponse, TransportError>| outcome == tick_reply_outcome(reply)
            },
        }
    }

    fn bind(&mut self, host: &mut H)
        ensures
            *final(self) == *old(self),
            forall|n: Seq<char>| #[trigger] final(host).resolves(n) == old(host).resolves(n),
    {
        let mut i: usize = 0;
        while i < self.publish_names.len()
            invariant
                i <= self.publish_names@.len(),
                *self == *old(self),
                forall|n: Seq<char>| #[trigger] host.resolves(n) == old(host).resolves(n),
            decreases self.publish_names@.len() - i,
        {
            let _ = host.subscribe(self.publish_names[i].as_str());
            i = i + 1;
        }
    }

    /// Open the channel and run the Load/Bind/Start handshake; the unit is
    /// started exactly when all three answer as expected. A loopback child
    /// starts unless it is set to fail at start; a process spec without a
    /// launcher never starts.
    fn start(&mut self, host: &mut H)
        ensures
            native_started(*old(self), *final(self)),
    {
        match &self.spec {
            TransportSpec::Loopback { die_after, fail_start } => {
                match start_loopback(*die_after, *fail_start) {
                    Some(t) => {
                        self.channel = Some(Channel::Loopback(t));
                        self.started_ok = true;
                    },
                    None => {
                        self.started_ok = false;
                    },
                }
            },
            TransportSpec::Process { program, args } => {
                let opened = match &mut self.launcher {
                    Some(l) => l.launch(program.as_str(), args.as_slice()),
                    None => Err(TransportError::Closed),
                };
                let started = match opened {
                    Ok(t) => start_launched(t),
                    Err(_) => None,
                };
                match started {
                    Some(t) => {
                        self.channel = Some(Channel::Launched(t));
                        self.started_ok = true;
                    },
                    None => {
                        self.started_ok = false;
                    },
                }
            },
        }
    }

    /// One budgeted tick round-trip. Not started: a fault. Otherwise the
    /// outcome is what the reply means ([`tick_reply_outcome`]; for a loopback
    /// child [`loopback_tick_outcome`] of its step); a transport error also
    /// latches the fault.
    fn run(&mut self, host: &mut H, timing: Timing) -> (r: TickOutcome)
        ensures
            native_ran(*old(self), timing, r@, *final(self)),
    {
        if !self.started_ok {
            return TickOutcome::Faulted("native start failed".to_string());
        }
        match &mut self.channel {
            None => TickOutcome::Faulted("no transport".to_string()),
            Some(channel) => {
                let reply = channel.request(ControlRequest::tick(timing));
                if reply.is_err() {
                    self.started_ok = false;
                }
                tick_outcome_of(reply)
            },
        }
    }

    /// Graceful Stop then Unload, then drop the channel.
    fn stop(&mut self, host: &mut H)
        ensures
            native_stopped(*old(self), *final(self)),
    {
        let held = self.channel.take();
        if let Some(mut channel) = held {
            let _ = channel.request(ControlRequest::Stop);
            let _ = channel.request(ControlRequest::Unload);
        }
        self.started_ok = false;
    }
}

/// Whether `u` is the unit backend `b` loads: its spec, names,
/// capabilities and launcher, nothing started.
pub open spec fn unit_of(b: NativeRunnerBackend, u: NativeExecutionUnit) -> bool {
    &&& u.spec_spec() == b.spec
    &&& u.spec_publish_names() == b.publish_names@
    &&& u.spec_consume_names() == b.consume_names@
    &&& u.spec_caps() == b.caps
    &&& !u.is_started()
    &&& !u.has_transport()
    &&& u.has_launcher() == b.launcher is Some
}

impl NativeRunnerBackend {
    /// The execution unit this backend loads ([`unit_of`]).
    pub fn into_unit(self) -> (r: NativeExecutionUnit)
        ensures
            unit_of(self, r),
    {
        NativeExecutionUnit {
            spec: self.spec,
            publish_names: self.publish_names,
            consume_names: self.consume_names,
            caps: self.caps,
            launcher: self.launcher,
            channel: None,
            started_ok: false,
        }
    }
}

/// A native backend is a [`RunnerKind::Native`] runner; `load` is metadata
/// only ([`NativeRunnerBackend::into_unit`]) and never fails.
impl<H: HostApi + ?Sized> RunnerBackend<H> for NativeRunnerBackend {
    open spec fn spec_kind(&self) -> RunnerKind {
        RunnerKind::Native
    }

    fn kind(&self) -> RunnerKind {
        RunnerKind::Native
    }

    /// Loading never fails: a native runner over this backend's declared
    /// names and capabilities, holding the unit built from this backend
    /// ([`unit_of`]), whose first step after a start reports what that
    /// unit's would.
    open spec fn load_result(&self, r: Result<LoadedRunner<H>, RunnerError>) -> bool {
        r matches Ok(l) && {
            &&& l.spec_kind() == RunnerKind::Native
            &&& l.spec_caps() == self.caps
            &&& l.spec_publishes() == self.publish_names@.map_values(|s: String| s@)
            &&& l.spec_consumes() == self.consume_names@.map_values(|s: String| s@)
            &&& l.native_unit() matches Some(u) && unit_of(*self, u) && forall|t: Timing, o: TickOutcomeView|
                #[trigger] l.may_report_after_start(t, o) == ExecutionUnit::<H>::may_report_after_start(&u, t, o)
            &&& l.behavior_unit() is None
        }
    }

    fn load(self: Box<Self>) -> Result<LoadedRunner<H>, RunnerError> {
        let unit = (*self).into_unit();
        Ok(LoadedRunner::from_native(RunnerKind::Native, unit))
    }
}

} // verus!
