//! [`ControlTransport`] — the request→response channel to a runner child, and
//! [`LoopbackTransport`], a deterministic in-process child that implements the
//! control protocol and its legality matrix.

use super::{is_protocol_error, ControlRequest, ControlResponse, ControlResponseView, TransportError};
use crate::runner::{TickOutcome, TickOutcomeView};
use vstd::prelude::*;

verus! {

/// A control channel to exactly one runner child: one command in, one response
/// out. Implementations talk to a child process or an in-process stand-in, so
/// nothing is promised of their replies in general.
pub trait ControlTransport {
    /// Send one control command and get its response (or a transport error).
    fn request(&mut self, req: ControlRequest) -> Result<ControlResponse, TransportError>;

    /// Cheap liveness check.
    fn is_alive(&mut self) -> bool;
}

/// The child's protocol state, used to enforce the legality matrix.
#[derive(Debug, Clone, Copy, PartialEq, Eq, Structural)]
pub enum ChildState {
    NotLoaded,
    Loaded,
    Bound,
    Started,
    Stopped,
    Unloaded,
}

/// The abstract state of a loopback child.
pub struct LoopbackModel {
    pub state: ChildState,
    pub alive: bool,
    pub ticks: u32,
    pub die_after: Option<u32>,
    pub fail_start: bool,
}

/// What a loopback child answers.
pub enum LoopbackReply {
    /// A protocol response.
    Response(ControlResponseView),
    /// The channel is (or just became) closed.
    Closed,
    /// The message is illegal in the child's current state.
    Illegal,
}

/// One request to a loopback child: its next state and its reply.
pub open spec fn loopback_step(m: LoopbackModel, req: ControlRequest) -> (LoopbackModel, LoopbackReply) {
    if !m.alive {
        (m, LoopbackReply::Closed)
    } else {
        match req {
            ControlRequest::Load => if m.state == ChildState::NotLoaded {
                (LoopbackModel { state: ChildState::Loaded, ..m }, LoopbackReply::Response(ControlResponseView::Loaded))
            } else {
                (m, LoopbackReply::Illegal)
            },
            ControlRequest::Bind => if m.state == ChildState::Loaded {
                (LoopbackModel { state: ChildState::Bound, ..m }, LoopbackReply::Response(ControlResponseView::Bound))
            } else {
                (m, LoopbackReply::Illegal)
            },
            ControlRequest::Start => if m.state == ChildState::Bound || m.state == ChildState::Stopped {
                if m.fail_start {
                    (LoopbackModel { alive: false, ..m }, LoopbackReply::Closed)
                } else {
                    (LoopbackModel { state: ChildState::Started, ..m }, LoopbackReply::Response(ControlResponseView::Started))
                }
            } else {
                (m, LoopbackReply::Illegal)
            },
            ControlRequest::Tick { .. } => if m.state == ChildState::Started {
                let ticks: u32 = if m.ticks == u32::MAX { 0 } else { (m.ticks + 1) as u32 };
                if m.die_after matches Some(n) && ticks > n {
                    (LoopbackModel { ticks, alive: false, ..m }, LoopbackReply::Closed)
                } else {
                    (
                        LoopbackModel { ticks, ..m },
                        LoopbackReply::Response(ControlResponseView::Ticked(TickOutcomeView::Completed)),
                    )
                }
            } else {
                (m, LoopbackReply::Illegal)
            },
            ControlRequest::Stop => if m.state == ChildState::Started {
                (LoopbackModel { state: ChildState::Stopped, ..m }, LoopbackReply::Response(ControlResponseView::Stopped))
            } else {
                (m, LoopbackReply::Illegal)
            },
            ControlRequest::Unload => (
                LoopbackModel { state: ChildState::Unloaded, ..m },
                LoopbackReply::Response(ControlResponseView::Unloaded),
            ),
        }
    }
}

/// Whether an actual reply `r` is the abstract reply `reply`.
pub open spec fn reply_matches(r: Result<ControlResponse, TransportError>, reply: LoopbackReply) -> bool {
    match reply {
        LoopbackReply::Response(v) => r is Ok && r->Ok_0@ == v,
        LoopbackReply::Closed => r is Err && r->Err_0 is Closed,
        LoopbackReply::Illegal => r is Err && is_protocol_error(
            r->Err_0,
            "illegal control message for state"@,
        ),
    }
}

/// A deterministic, in-process child implementing the control protocol,
/// configurable to fail at start or die after N ticks.
pub struct LoopbackTransport {
    state: ChildState,
    alive: bool,
    ticks: u32,
    die_after: Option<u32>,
    fail_start: bool,
}

impl View for LoopbackTransport {
    type V = LoopbackModel;

    closed spec fn view(&self) -> LoopbackModel {
        LoopbackModel {
            state: self.state,
            alive: self.alive,
            ticks: self.ticks,
            die_after: self.die_after,
            fail_start: self.fail_start,
        }
    }
}

impl LoopbackTransport {
    pub fn new() -> (r: Self)
        ensures
            r@ == (LoopbackModel {
                state: ChildState::NotLoaded,
                alive: true,
                ticks: 0,
                die_after: None,
                fail_start: false,
            }),
    {
        LoopbackTransport { state: ChildState::NotLoaded, alive: true, ticks: 0, die_after: None, fail_start: false }
    }

    /// Child dies (channel closes) once its tick count exceeds `n`.
    pub fn dying_after(self, n: u32) -> (r: Self)
        ensures
            r@ == (LoopbackModel { die_after: Some(n), ..self@ }),
    {
        LoopbackTransport { die_after: Some(n), ..self }
    }

    /// Child fails to start (`Start` closes the channel).
    pub fn failing_start(self) -> (r: Self)
        ensures
            r@ == (LoopbackModel { fail_start: true, ..self@ }),
    {
        LoopbackTransport { fail_start: true, ..self }
    }
}

impl Default for LoopbackTransport {
    fn default() -> (r: Self)
        ensures
            r@ == (LoopbackModel {
                state: ChildState::NotLoaded,
                alive: true,
                ticks: 0,
                die_after: None,
                fail_start: false,
            }),
    {
        Self::new()
    }
}

fn illegal() -> (r: Result<ControlResponse, TransportError>)
    ensures
        reply_matches(r, LoopbackReply::Illegal),
{
    Err(TransportError::Protocol("illegal control message for state"))
}

impl ControlTransport for LoopbackTransport {
    /// Answer one request per the legality matrix. The tick counter wraps
    /// after `u32::MAX` ticks, as the release build's counter does.
    fn request(&mut self, req: ControlRequest) -> (r: Result<ControlResponse, TransportError>)
        ensures
            final(self)@ == loopback_step(old(self)@, req).0,
            reply_matches(r, loopback_step(old(self)@, req).1),
    {
        if !self.alive {
            return Err(TransportError::Closed);
        }
        match req {
            ControlRequest::Load => {
                if self.state == ChildState::NotLoaded {
                    self.state = ChildState::Loaded;
                    Ok(ControlResponse::Loaded)
                } else {
                    illegal()
                }
            },
            ControlRequest::Bind => {
                if self.state == ChildState::Loaded {
                    self.state = ChildState::Bound;
                    Ok(ControlResponse::Bound)
                } else {
                    illegal()
                }
            },
            ControlRequest::Start => {
                if self.state == ChildState::Bound || self.state == ChildState::Stopped {
                    if self.fail_start {
                        self.alive = false;
                        return Err(TransportError::Closed);
                    }
                    self.state = ChildState::Started;
                    Ok(ControlResponse::Started)
                } else {
                    illegal()
                }
            },
            ControlRequest::Tick { .. } => {
                if self.state == ChildState::Started {
                    self.ticks = self.ticks.wrapping_add(1);
                    let dies = match self.die_after {
                        Some(n) => self.ticks > n,
                        None => false,
                    };
                    if dies {
                        self.alive = false;
                        return Err(TransportError::Closed);
                    }
                    Ok(ControlResponse::Ticked(TickOutcome::Completed))
                } else {
                    illegal()
                }
            },
            ControlRequest::Stop => {
                if self.state == ChildState::Started {
                    self.state = ChildState::Stopped;
                    Ok(ControlResponse::Stopped)
                } else {
                    illegal()
                }
            },
            ControlRequest::Unload => {
                self.state = ChildState::Unloaded;
                Ok(ControlResponse::Unloaded)
            },
        }
    }

    fn is_alive(&mut self) -> (r: bool)
        ensures
            r == old(self)@.alive,
            final(self)@ == old(self)@,
    {
        self.alive
    }
}

/// A closed channel stays closed: every request to a dead child is answered
/// `Closed` and changes nothing.
pub proof fn lemma_dead_child_stays_closed(m: LoopbackModel, req: ControlRequest)
    requires
        !m.alive,
    ensures
        loopback_step(m, req).0 == m,
        loopback_step(m, req).1 is Closed,
{
}

/// A child never comes back to life: no request sets `alive`.
pub proof fn lemma_no_resurrection(m: LoopbackModel, req: ControlRequest)
    ensures
        loopback_step(m, req).0.alive ==> m.alive,
{
}

/// Ticks are only answered by a started child; any other state refuses them
/// as illegal (while alive).
pub proof fn lemma_tick_requires_started(m: LoopbackModel, dt_bits: u32, elapsed_bits: u32)
    requires
        m.alive,
        m.state != ChildState::Started,
    ensures
        loopback_step(m, ControlRequest::Tick { dt_bits, elapsed_bits }).1 is Illegal,
        loopback_step(m, ControlRequest::Tick { dt_bits, elapsed_bits }).0 == m,
{
}

/// A child configured to fail at start dies on its first legal `Start`.
pub proof fn lemma_failing_start_closes(m: LoopbackModel)
    requires
        m.alive,
        m.fail_start,
        m.state == ChildState::Bound || m.state == ChildState::Stopped,
    ensures
        !loopback_step(m, ControlRequest::Start).0.alive,
        loopback_step(m, ControlRequest::Start).1 is Closed,
{
}

/// The child after `k` requests `req`, one after another.
pub open spec fn after_requests(m: LoopbackModel, req: ControlRequest, k: nat) -> LoopbackModel
    decreases k,
{
    if k == 0 { m } else { loopback_step(after_requests(m, req, (k - 1) as nat), req).0 }
}

/// A started child set to die after `n` ticks answers its first `n` ticks
/// (each completes, the count goes up) and closes on the next one.
pub proof fn lemma_dies_after_n_ticks(m: LoopbackModel, n: u32, dt_bits: u32, elapsed_bits: u32, k: nat)
    requires
        m.alive,
        m.state == ChildState::Started,
        m.ticks == 0,
        m.die_after == Some(n),
        n < u32::MAX,
        k <= n,
    ensures
        ({
            let tick = ControlRequest::Tick { dt_bits, elapsed_bits };
            let mk = after_requests(m, tick, k);
            &&& mk.alive && mk.state == ChildState::Started && mk.ticks == k && mk.die_after == Some(n)
            &&& k < n ==> loopback_step(mk, tick).1 == LoopbackReply::Response(ControlResponseView::Ticked(TickOutcomeView::Completed))
            &&& k == n ==> !loopback_step(mk, tick).0.alive && loopback_step(mk, tick).1 is Closed
        }),
    decreases k,
{
    let tick = ControlRequest::Tick { dt_bits, elapsed_bits };
    if k > 0 {
        lemma_dies_after_n_ticks(m, n, dt_bits, elapsed_bits, (k - 1) as nat);
        let prev = after_requests(m, tick, (k - 1) as nat);
        assert(after_requests(m, tick, k) == loopback_step(prev, tick).0);
        assert(prev.ticks < n);
    } else {
        assert(after_requests(m, tick, 0) == m);
    }
    let mk = after_requests(m, tick, k);
    assert(mk.ticks < u32::MAX);
    assert(mk.alive && mk.state == ChildState::Started && mk.ticks == k);
    let next: u32 = (mk.ticks + 1) as u32;
    assert(next == k + 1);
    if k < n {
        assert(!(next > n));
        assert(loopback_step(mk, tick).1 == LoopbackReply::Response(ControlResponseView::Ticked(TickOutcomeView::Completed)));
    } else {
        assert(next > n);
        assert(loopback_step(mk, tick).1 is Closed);
    }
}

/// The response a live process child is taken to give to `req` while no
/// protocol-speaking child exists: the success response of each request.
pub open spec fn ack_of(req: ControlRequest) -> ControlResponse {
    match req {
        ControlRequest::Load => ControlResponse::Loaded,
        ControlRequest::Bind => ControlResponse::Bound,
        ControlRequest::Start => ControlResponse::Started,
        ControlRequest::Tick { .. } => ControlResponse::Ticked(TickOutcome::Completed),
        ControlRequest::Stop => ControlResponse::Stopped,
        ControlRequest::Unload => ControlResponse::Unloaded,
    }
}

/// The success response to `req` ([`ack_of`]).
pub fn synthetic_ack(req: &ControlRequest) -> (r: ControlResponse)
    ensures
        r == ack_of(*req),
{
    match req {
        ControlRequest::Load => ControlResponse::Loaded,
        ControlRequest::Bind => ControlResponse::Bound,
        ControlRequest::Start => ControlResponse::Started,
        ControlRequest::Tick { .. } => ControlResponse::Ticked(TickOutcome::Completed),
        ControlRequest::Stop => ControlResponse::Stopped,
        ControlRequest::Unload => ControlResponse::Unloaded,
    }
}

} // verus!
