use static_runtime::runner::native::{
    decode_outcome, decode_request, decode_response, encode_request, encode_response, ControlRequest,
    ControlResponse, TransportError,
};
use static_runtime::runner::TickOutcome;

fn tick(dt: f32, elapsed: f32) -> ControlRequest {
    ControlRequest::Tick { dt_bits: dt.to_bits(), elapsed_bits: elapsed.to_bits() }
}

#[test]
fn request_codec_round_trips() {
    for req in [
        ControlRequest::Load,
        ControlRequest::Bind,
        ControlRequest::Start,
        tick(0.033, 1.5),
        ControlRequest::Stop,
        ControlRequest::Unload,
    ] {
        assert_eq!(decode_request(&encode_request(&req)).unwrap(), req);
    }
}

#[test]
fn response_codec_round_trips_including_fault_reason() {
    for resp in [
        ControlResponse::Loaded,
        ControlResponse::Bound,
        ControlResponse::Started,
        ControlResponse::Ticked(TickOutcome::Completed),
        ControlResponse::Ticked(TickOutcome::Idle),
        ControlResponse::Ticked(TickOutcome::Faulted("boom".into())),
        ControlResponse::Stopped,
        ControlResponse::Unloaded,
    ] {
        assert_eq!(decode_response(&encode_response(&resp)).unwrap(), resp);
    }
}

#[test]
fn malformed_frames_are_protocol_errors_not_panics() {
    assert!(decode_request(&[]).is_err());
    assert!(decode_request(&[99]).is_err());
    assert!(decode_request(&[3, 0, 0]).is_err());
    assert!(decode_response(&[99]).is_err());
}

#[test]
fn tick_frame_layout_is_tag_then_little_endian_lanes() {
    let bytes = encode_request(&ControlRequest::Tick { dt_bits: 0x0403_0201, elapsed_bits: 0xDDCC_BBAA });
    assert_eq!(bytes, vec![3, 1, 2, 3, 4, 0xAA, 0xBB, 0xCC, 0xDD]);
}

#[test]
fn fault_frame_layout_carries_utf8_length_and_bytes() {
    let bytes = encode_response(&ControlResponse::Ticked(TickOutcome::Faulted("é!".into())));
    assert_eq!(bytes, vec![3, 2, 3, 0, 0, 0, 0xC3, 0xA9, b'!']);
}

#[test]
fn truncated_fault_reason_is_a_protocol_error() {
    // Declares 10 bytes of reason but carries only 2, or none.
    assert!(decode_outcome(&[2, 10, 0, 0, 0, b'h', b'i']).is_err());
    assert!(decode_response(&[3, 2, 10, 0, 0, 0]).is_err());
    assert_eq!(decode_outcome(&[2, 2, 0, 0, 0, b'h', b'i']).unwrap(), TickOutcome::Faulted("hi".into()));
}

#[test]
fn invalid_utf8_fault_reason_is_decoded_lossily() {
    assert_eq!(
        decode_outcome(&[2, 1, 0, 0, 0, 0xFF]).unwrap(),
        TickOutcome::Faulted("\u{FFFD}".into())
    );
}

#[test]
fn malformed_messages_name_the_frame_kind() {
    assert_eq!(decode_request(&[7]), Err(TransportError::Protocol("bad request frame")));
    assert_eq!(decode_response(&[]), Err(TransportError::Protocol("bad response frame")));
    assert_eq!(decode_response(&[3, 9]), Err(TransportError::Protocol("bad outcome frame")));
    assert_eq!(decode_outcome(&[2, 0]), Err(TransportError::Protocol("bad outcome frame")));
}

#[test]
fn trailing_bytes_after_a_message_are_ignored() {
    assert_eq!(decode_request(&[4, 1, 2]).unwrap(), ControlRequest::Stop);
}
