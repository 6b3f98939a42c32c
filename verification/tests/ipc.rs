use astera::ipc::{
    decode_frame, decode_request, decoded_request, frame_text, parse_frame, FramingError,
    RequestDecodeError, VersionedPayload, VersionedRequest, BOOTSTRAP_VERSION, CURRENT_VERSION, MIN_VERSION,
};
use astera::wire::v1::{Request, RequestKind};

#[test]
fn parser_requires_exactly_one_complete_line() {
    assert_eq!(
        parse_frame("1 (kind:EventStream)"),
        Err(FramingError::InvalidFrame)
    );
    assert_eq!(
        parse_frame("1 (kind:EventStream)\nextra\n"),
        Err(FramingError::InvalidFrame)
    );
    assert_eq!(parse_frame("1  \n"), Err(FramingError::InvalidFrame));
}

#[test]
fn frames_round_trip() {
    let text = frame_text(CURRENT_VERSION, "(kind:EventStream)");
    assert_eq!(text, "1 (kind:EventStream)\n");
    let frame = parse_frame(&text).unwrap();
    assert_eq!(frame.version, 1);
    assert_eq!(frame.payload, "(kind:EventStream)");
    assert_eq!(decode_frame(&text, 1), Ok("(kind:EventStream)"));
    assert_eq!(
        decode_frame(&text, 0),
        Err(FramingError::VersionMismatch { expected: 0, actual: 1 })
    );
}

#[test]
fn requests_of_unknown_versions_are_told_the_bounds() {
    assert_eq!(
        decode_request("9 (kind:EventStream)\n"),
        Err(RequestDecodeError::UnsupportedVersion {
            requested: 9,
            minimum: 1,
            current: 1,
        })
    );
    assert_eq!(
        decode_request("no frame"),
        Err(RequestDecodeError::Framing(FramingError::InvalidFrame))
    );
    assert_eq!(decode_request("1 x\n"), Ok(VersionedPayload::V1("x")));
    assert_eq!((BOOTSTRAP_VERSION, MIN_VERSION, CURRENT_VERSION), (0, 1, 1));
}

#[test]
fn framing_errors_say_what_is_wrong() {
    assert_eq!(
        FramingError::InvalidFrame.message(),
        "IPC frame must be `<version> <RON>\\n`"
    );
    assert_eq!(
        FramingError::VersionMismatch { expected: 1, actual: 9 }.message(),
        "IPC frame version 9 does not match expected version 1"
    );
    assert_eq!(
        RequestDecodeError::UnsupportedVersion { requested: 9, minimum: 1, current: 1 }.message(),
        "IPC protocol version 9 is unsupported (supported 1..=1)"
    );
}

#[test]
fn decoded_payloads_become_requests() {
    let request = || Request { kind: RequestKind::EventStream };
    assert_eq!(decoded_request(Ok(request())), Ok(VersionedRequest::V1(request())));
    assert_eq!(
        decoded_request(Err("expected a struct".to_owned())),
        Err(RequestDecodeError::Framing(FramingError::InvalidPayload(
            "expected a struct".to_owned()
        )))
    );
}
