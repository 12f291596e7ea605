//! Native runner control plane: the six control messages, their responses,
//! transport errors, and the control-only byte codec that carries them.
//!
//! Only control crosses a transport — no signal, frame or resource encoding
//! exists here. A `Tick` carries the two timing lanes as IEEE-754 bit
//! patterns, exactly the bytes that go on the wire.

pub mod backend;
pub mod bridge;
pub mod supervisor;
pub mod transport;

pub use backend::{NativeExecutionUnit, NativeRunnerBackend, ProcessLauncher, TransportSpec};
pub use bridge::HostBridge;
pub use supervisor::{ProcessSupervisor, SupervisionReport};
pub use transport::{ControlTransport, LoopbackTransport};

use crate::behavior::node::Timing;
use crate::runner::{TickOutcome, TickOutcomeView};
use vstd::prelude::*;
use vstd::utf8::{decode_utf8, encode_utf8, valid_utf8};

verus! {

broadcast use vstd::utf8::encode_utf8_valid_utf8, vstd::utf8::encode_utf8_decode_utf8;

/// Host→runner control requests. `Tick` carries `dt` and `elapsed` as the
/// bit patterns of their `f32` values.
#[derive(Debug, Clone, Copy, PartialEq, Eq, Structural)]
pub enum ControlRequest {
    Load,
    Bind,
    Start,
    Tick { dt_bits: u32, elapsed_bits: u32 },
    Stop,
    Unload,
}

impl ControlRequest {
    /// The tick request carrying `t`.
    pub fn tick(t: Timing) -> (r: ControlRequest)
        ensures
            r == (ControlRequest::Tick { dt_bits: t.dt_bits, elapsed_bits: t.elapsed_bits }),
    {
        ControlRequest::Tick { dt_bits: t.dt_bits, elapsed_bits: t.elapsed_bits }
    }
}

/// Runner→host responses. A successful response is an implicit heartbeat.
#[derive(Debug, Clone, PartialEq, Eq)]
pub enum ControlResponse {
    Loaded,
    Bound,
    Started,
    Ticked(TickOutcome),
    Stopped,
    Unloaded,
}

/// A control response with any fault reason taken as text.
pub enum ControlResponseView {
    Loaded,
    Bound,
    Started,
    Ticked(TickOutcomeView),
    Stopped,
    Unloaded,
}

impl View for ControlResponse {
    type V = ControlResponseView;

    open spec fn view(&self) -> ControlResponseView {
        match self {
            ControlResponse::Loaded => ControlResponseView::Loaded,
            ControlResponse::Bound => ControlResponseView::Bound,
            ControlResponse::Started => ControlResponseView::Started,
            ControlResponse::Ticked(o) => ControlResponseView::Ticked(o@),
            ControlResponse::Stopped => ControlResponseView::Stopped,
            ControlResponse::Unloaded => ControlResponseView::Unloaded,
        }
    }
}

/// Why a control round-trip failed. All map to a fault.
#[derive(Debug, Clone, PartialEq, Eq)]
pub enum TransportError {
    /// Child gone / channel closed.
    Closed,
    /// No response within the tick budget.
    Timeout,
    /// A response that violates the protocol/legality.
    Protocol(&'static str),
    /// Underlying IO failure.
    Io(String),
}

/// Whether `e` is a protocol error whose message reads `msg`.
pub open spec fn is_protocol_error(e: TransportError, msg: Seq<char>) -> bool {
    e matches TransportError::Protocol(m) && m@ == msg
}

// ---- wire format ------------------------------------------------------------

/// The four little-endian bytes of `x`.
pub open spec fn le_u32_bytes(x: u32) -> Seq<u8> {
    seq![(x % 256) as u8, ((x / 256) % 256) as u8, ((x / 65536) % 256) as u8, (x / 16777216) as u8]
}

/// The little-endian `u32` stored in `b[at..at + 4]`.
pub open spec fn le_u32_at(b: Seq<u8>, at: int) -> u32 {
    (b[at] + 256 * b[at + 1] + 65536 * b[at + 2] + 16777216 * b[at + 3]) as u32
}

/// The wire bytes of a request: a tag, then a `Tick`'s two timing lanes.
pub open spec fn request_bytes(r: ControlRequest) -> Seq<u8> {
    match r {
        ControlRequest::Load => seq![0u8],
        ControlRequest::Bind => seq![1u8],
        ControlRequest::Start => seq![2u8],
        ControlRequest::Tick { dt_bits, elapsed_bits } =>
            seq![3u8] + le_u32_bytes(dt_bits) + le_u32_bytes(elapsed_bits),
        ControlRequest::Stop => seq![4u8],
        ControlRequest::Unload => seq![5u8],
    }
}

/// The request a frame decodes to; `None` for a malformed frame. Bytes after a
/// complete message are ignored.
pub open spec fn parse_request(b: Seq<u8>) -> Option<ControlRequest> {
    if b.len() == 0 {
        None
    } else if b[0] == 0 {
        Some(ControlRequest::Load)
    } else if b[0] == 1 {
        Some(ControlRequest::Bind)
    } else if b[0] == 2 {
        Some(ControlRequest::Start)
    } else if b[0] == 3 && b.len() >= 9 {
        Some(ControlRequest::Tick { dt_bits: le_u32_at(b, 1), elapsed_bits: le_u32_at(b, 5) })
    } else if b[0] == 4 {
        Some(ControlRequest::Stop)
    } else if b[0] == 5 {
        Some(ControlRequest::Unload)
    } else {
        None
    }
}

/// The wire bytes of a tick outcome: a tag, then for a fault the UTF-8 length
/// of the reason (truncated to 32 bits) and its UTF-8 bytes.
pub open spec fn outcome_bytes(o: TickOutcomeView) -> Seq<u8> {
    match o {
        TickOutcomeView::Completed => seq![0u8],
        TickOutcomeView::Idle => seq![1u8],
        TickOutcomeView::Faulted(reason) =>
            seq![2u8] + le_u32_bytes(encode_utf8(reason).len() as u32) + encode_utf8(reason),
    }
}

/// The wire bytes of a response: a tag, then a `Ticked` outcome.
pub open spec fn response_bytes(r: ControlResponseView) -> Seq<u8> {
    match r {
        ControlResponseView::Loaded => seq![0u8],
        ControlResponseView::Bound => seq![1u8],
        ControlResponseView::Started => seq![2u8],
        ControlResponseView::Ticked(o) => seq![3u8] + outcome_bytes(o),
        ControlResponseView::Stopped => seq![4u8],
        ControlResponseView::Unloaded => seq![5u8],
    }
}

/// What `String::from_utf8_lossy` makes of bytes that are not valid UTF-8.
pub uninterp spec fn lossy_utf8(bytes: Seq<u8>) -> Seq<char>;

/// The text a byte run decodes to: exact for valid UTF-8, lossy otherwise.
pub open spec fn text_of(bytes: Seq<u8>) -> Seq<char> {
    if valid_utf8(bytes) { decode_utf8(bytes) } else { lossy_utf8(bytes) }
}

/// The tick outcome a frame decodes to; `None` for a malformed frame.
pub open spec fn parse_outcome(b: Seq<u8>) -> Option<TickOutcomeView> {
    if b.len() == 0 {
        None
    } else if b[0] == 0 {
        Some(TickOutcomeView::Completed)
    } else if b[0] == 1 {
        Some(TickOutcomeView::Idle)
    } else if b[0] == 2 && b.len() >= 5 && 5 + le_u32_at(b, 1) <= b.len() {
        Some(TickOutcomeView::Faulted(text_of(b.subrange(5, 5 + le_u32_at(b, 1)))))
    } else {
        None
    }
}

/// The response a frame decodes to; `None` for a malformed frame.
pub open spec fn parse_response(b: Seq<u8>) -> Option<ControlResponseView> {
    if b.len() == 0 {
        None
    } else if b[0] == 0 {
        Some(ControlResponseView::Loaded)
    } else if b[0] == 1 {
        Some(ControlResponseView::Bound)
    } else if b[0] == 2 {
        Some(ControlResponseView::Started)
    } else if b[0] == 3 {
        match parse_outcome(b.subrange(1, b.len() as int)) {
            Some(o) => Some(ControlResponseView::Ticked(o)),
            None => None,
        }
    } else if b[0] == 4 {
        Some(ControlResponseView::Stopped)
    } else if b[0] == 5 {
        Some(ControlResponseView::Unloaded)
    } else {
        None
    }
}

/// `String::from_utf8_lossy`: valid UTF-8 decodes exactly; invalid
/// sequences become U+FFFD, which is left named rather than stated.
#[verifier::external_body]
fn utf8_lossy(bytes: &[u8]) -> (r: String)
    ensures
        valid_utf8(bytes@) ==> r@ == decode_utf8(bytes@),
        !valid_utf8(bytes@) ==> r@ == lossy_utf8(bytes@),
{
    String::from_utf8_lossy(bytes).into_owned()
}

proof fn lemma_le_u32_round_trip(x: u32)
    ensures
        le_u32_at(le_u32_bytes(x), 0) == x,
        forall|i: int| 0 <= i < 4 ==> #[trigger] le_u32_bytes(x)[i] < 256,
{
    assert((x % 256) + 256 * ((x / 256) % 256) + 65536 * ((x / 65536) % 256) + 16777216 * (x / 16777216) == x)
        by (bit_vector);
    assert(x / 16777216 < 256) by (bit_vector);
}

fn push_le_u32(out: &mut Vec<u8>, x: u32)
    ensures
        final(out)@ == old(out)@ + le_u32_bytes(x),
{
    out.push((x % 256) as u8);
    out.push(((x / 256) % 256) as u8);
    out.push(((x / 65536) % 256) as u8);
    out.push((x / 16777216) as u8);
    assert(final(out)@ =~= old(out)@ + le_u32_bytes(x));
}

fn read_le_u32(b: &[u8], at: usize) -> (r: u32)
    requires
        at + 4 <= b@.len(),
    ensures
        r == le_u32_at(b@, at as int),
{
    (b[at] as u32) + 256 * (b[at + 1] as u32) + 65536 * (b[at + 2] as u32) + 16777216 * (b[at + 3] as u32)
}

/// Encode a request as its wire frame.
pub fn encode_request(req: &ControlRequest) -> (out: Vec<u8>)
    ensures
        out@ == request_bytes(*req),
{
    let mut out: Vec<u8> = Vec::with_capacity(9);
    match req {
        ControlRequest::Load => out.push(0),
        ControlRequest::Bind => out.push(1),
        ControlRequest::Start => out.push(2),
        ControlRequest::Tick { dt_bits, elapsed_bits } => {
            out.push(3);
            push_le_u32(&mut out, *dt_bits);
            push_le_u32(&mut out, *elapsed_bits);
        },
        ControlRequest::Stop => out.push(4),
        ControlRequest::Unload => out.push(5),
    }
    assert(out@ =~= request_bytes(*req));
    out
}

/// Decode a request frame; a malformed frame is a protocol error, never a
/// panic.
pub fn decode_request(bytes: &[u8]) -> (r: Result<ControlRequest, TransportError>)
    ensures
        match parse_request(bytes@) {
            Some(q) => r == Ok::<ControlRequest, TransportError>(q),
            None => r is Err && is_protocol_error(r->Err_0, "bad request frame"@),
        },
{
    if bytes.len() == 0 {
        return Err(TransportError::Protocol("bad request frame"));
    }
    let tag = bytes[0];
    if tag == 0 {
        Ok(ControlRequest::Load)
    } else if tag == 1 {
        Ok(ControlRequest::Bind)
    } else if tag == 2 {
        Ok(ControlRequest::Start)
    } else if tag == 3 && bytes.len() >= 9 {
        let dt_bits = read_le_u32(bytes, 1);
        let elapsed_bits = read_le_u32(bytes, 5);
        Ok(ControlRequest::Tick { dt_bits, elapsed_bits })
    } else if tag == 4 {
        Ok(ControlRequest::Stop)
    } else if tag == 5 {
        Ok(ControlRequest::Unload)
    } else {
        Err(TransportError::Protocol("bad request frame"))
    }
}

/// Append the wire bytes of a tick outcome.
pub fn encode_outcome(o: &TickOutcome, out: &mut Vec<u8>)
    ensures
        final(out)@ == old(out)@ + outcome_bytes(o@),
{
    match o {
        TickOutcome::Completed => out.push(0),
        TickOutcome::Idle => out.push(1),
        TickOutcome::Faulted(reason) => {
            out.push(2);
            let bytes = reason.as_str().as_bytes();
            push_le_u32(out, bytes.len() as u32);
            let ghost before = out@;
            let mut i: usize = 0;
            while i < bytes.len()
                invariant
                    i <= bytes@.len(),
                    out@ == before + bytes@.subrange(0, i as int),
                decreases bytes@.len() - i,
            {
                out.push(bytes[i]);
                i = i + 1;
                assert(out@ =~= before + bytes@.subrange(0, i as int));
            }
            assert(bytes@.subrange(0, bytes@.len() as int) =~= bytes@);
        },
    }
    assert(final(out)@ =~= old(out)@ + outcome_bytes(o@));
}

/// Decode a tick outcome frame; a malformed frame is a protocol error.
pub fn decode_outcome(bytes: &[u8]) -> (r: Result<TickOutcome, TransportError>)
    ensures
        match parse_outcome(bytes@) {
            Some(v) => r is Ok && r->Ok_0@ == v,
            None => r is Err && is_protocol_error(r->Err_0, "bad outcome frame"@),
        },
{
    if bytes.len() == 0 {
        return Err(TransportError::Protocol("bad outcome frame"));
    }
    let tag = bytes[0];
    if tag == 0 {
        Ok(TickOutcome::Completed)
    } else if tag == 1 {
        Ok(TickOutcome::Idle)
    } else if tag == 2 && bytes.len() >= 5 {
        let n = read_le_u32(bytes, 1);
        if (n as usize) > bytes.len() - 5 {
            return Err(TransportError::Protocol("bad outcome frame"));
        }
        let end: usize = 5 + n as usize;
        let reason = utf8_lossy(&bytes[5..end]);
        Ok(TickOutcome::Faulted(reason))
    } else {
        Err(TransportError::Protocol("bad outcome frame"))
    }
}

/// Encode a response as its wire frame.
pub fn encode_response(resp: &ControlResponse) -> (out: Vec<u8>)
    ensures
        out@ == response_bytes(resp@),
{
    let mut out: Vec<u8> = Vec::with_capacity(8);
    match resp {
        ControlResponse::Loaded => out.push(0),
        ControlResponse::Bound => out.push(1),
        ControlResponse::Started => out.push(2),
        ControlResponse::Ticked(o) => {
            out.push(3);
            encode_outcome(o, &mut out);
        },
        ControlResponse::Stopped => out.push(4),
        ControlResponse::Unloaded => out.push(5),
    }
    assert(out@ =~= response_bytes(resp@));
    out
}

/// Decode a response frame; a malformed frame is a protocol error.
pub fn decode_response(bytes: &[u8]) -> (r: Result<ControlResponse, TransportError>)
    ensures
        match parse_response(bytes@) {
            Some(v) => r is Ok && r->Ok_0@ == v,
            None => r is Err && (is_protocol_error(r->Err_0, "bad response frame"@)
                || is_protocol_error(r->Err_0, "bad outcome frame"@)),
        },
{
    if bytes.len() == 0 {
        return Err(TransportError::Protocol("bad response frame"));
    }
    let tag = bytes[0];
    if tag == 0 {
        Ok(ControlResponse::Loaded)
    } else if tag == 1 {
        Ok(ControlResponse::Bound)
    } else if tag == 2 {
        Ok(ControlResponse::Started)
    } else if tag == 3 {
        match decode_outcome(&bytes[1..bytes.len()]) {
            Ok(o) => Ok(ControlResponse::Ticked(o)),
            Err(e) => Err(e),
        }
    } else if tag == 4 {
        Ok(ControlResponse::Stopped)
    } else if tag == 5 {
        Ok(ControlResponse::Unloaded)
    } else {
        Err(TransportError::Protocol("bad response frame"))
    }
}

/// Every request survives the codec: decoding its frame gives it back.
pub proof fn lemma_request_round_trip(r: ControlRequest)
    ensures
        parse_request(request_bytes(r)) == Some(r),
{
    if let ControlRequest::Tick { dt_bits, elapsed_bits } = r {
        lemma_le_u32_round_trip(dt_bits);
        lemma_le_u32_round_trip(elapsed_bits);
        let b = request_bytes(r);
        assert(b.subrange(1, 5) =~= le_u32_bytes(dt_bits));
        assert(le_u32_at(b, 1) == le_u32_at(le_u32_bytes(dt_bits), 0));
        assert(le_u32_at(b, 5) == le_u32_at(le_u32_bytes(elapsed_bits), 0));
    }
}

/// Every tick outcome whose fault reason fits a 32-bit length survives the
/// codec, fault reason included.
pub proof fn lemma_outcome_round_trip(o: TickOutcomeView)
    requires
        o matches TickOutcomeView::Faulted(reason) ==> encode_utf8(reason).len() <= u32::MAX,
    ensures
        parse_outcome(outcome_bytes(o)) == Some(o),
{
    if let TickOutcomeView::Faulted(reason) = o {
        let text = encode_utf8(reason);
        let n = text.len() as u32;
        lemma_le_u32_round_trip(n);
        let b = outcome_bytes(o);
        assert(le_u32_at(b, 1) == le_u32_at(le_u32_bytes(n), 0));
        assert(5 + le_u32_at(b, 1) == b.len());
        assert(b.subrange(5, b.len() as int) =~= text);
    }
}

/// Every response whose fault reason fits a 32-bit length survives the codec.
pub proof fn lemma_response_round_trip(r: ControlResponseView)
    requires
        r matches ControlResponseView::Ticked(TickOutcomeView::Faulted(reason))
            ==> encode_utf8(reason).len() <= u32::MAX,
    ensures
        parse_response(response_bytes(r)) == Some(r),
{
    if let ControlResponseView::Ticked(o) = r {
        lemma_outcome_round_trip(o);
        assert(response_bytes(r).subrange(1, response_bytes(r).len() as int) =~= outcome_bytes(o));
    }
}

} // verus!
