use burrow::frame::{
    can_encode, decode_body, decode_frame, decode_headers, decode_string, encode, FieldError,
    FrameError, TunnelError, TunnelFrame, TunnelRequest, TunnelResponse, FRAME_ERROR,
    FRAME_REQUEST, FRAME_RESPONSE,
};
use burrow::stream_id::StreamId;
use uuid::Uuid;

fn fresh_id() -> StreamId {
    StreamId::from_bytes(*Uuid::new_v4().as_bytes())
}

fn error_frame(message: &str) -> TunnelFrame {
    TunnelFrame::Error(TunnelError { message: message.to_string() })
}

fn message(kind: u8, payload: &[u8]) -> Vec<u8> {
    let mut data = vec![0u8; 16];
    data.push(kind);
    data.extend_from_slice(payload);
    data
}

fn refusal(kind: u8, payload: &[u8]) -> FrameError {
    decode_frame(&message(kind, payload)).unwrap_err()
}

#[test]
fn roundtrip_request() {
    let stream_id = fresh_id();
    let req = TunnelFrame::Request(TunnelRequest {
        method: "GET".into(),
        uri: "/hello?foo=bar".into(),
        headers: vec![
            ("host".into(), b"example.com".to_vec()),
            ("accept".into(), b"*/*".to_vec()),
        ],
        body: vec![],
    });

    let encoded = encode(stream_id, &req);
    let (decoded_id, decoded) = decode_frame(&encoded).unwrap();

    assert_eq!(decoded_id, stream_id);
    let TunnelFrame::Request(r) = decoded else {
        panic!("expected Request");
    };
    assert_eq!(r.method, "GET");
    assert_eq!(r.uri, "/hello?foo=bar");
    assert_eq!(r.headers.len(), 2);
    assert_eq!(r.body.len(), 0);
}

#[test]
fn roundtrip_response() {
    let stream_id = fresh_id();
    let resp = TunnelFrame::Response(TunnelResponse {
        status: 200,
        headers: vec![("content-type".into(), b"text/plain".to_vec())],
        body: b"Hello, world!".to_vec(),
    });

    let encoded = encode(stream_id, &resp);
    let (decoded_id, decoded) = decode_frame(&encoded).unwrap();

    assert_eq!(decoded_id, stream_id);
    let TunnelFrame::Response(r) = decoded else {
        panic!("expected Response");
    };
    assert_eq!(r.status, 200);
    assert_eq!(r.headers.len(), 1);
    assert_eq!(r.body, b"Hello, world!");
}

#[test]
fn roundtrip_error() {
    let stream_id = fresh_id();
    let err = TunnelFrame::Error(TunnelError { message: "connection refused".into() });

    let encoded = encode(stream_id, &err);
    let (decoded_id, decoded) = decode_frame(&encoded).unwrap();

    assert_eq!(decoded_id, stream_id);
    let TunnelFrame::Error(e) = decoded else {
        panic!("expected Error");
    };
    assert_eq!(e.message, "connection refused");
}

#[test]
fn request_has_the_documented_bytes() {
    let octets: [u8; 16] = [1, 2, 3, 4, 5, 6, 7, 8, 9, 10, 11, 12, 13, 14, 15, 16];
    let frame = TunnelFrame::Request(TunnelRequest {
        method: "PUT".into(),
        uri: "/\u{e9}".into(),
        headers: vec![("a".into(), vec![0xff, 0x00])],
        body: vec![7],
    });
    let mut expected = octets.to_vec();
    expected.push(0x01);
    expected.extend_from_slice(&[0, 0, 0, 3, b'P', b'U', b'T']);
    expected.extend_from_slice(&[0, 0, 0, 3, b'/', 0xc3, 0xa9]);
    expected.extend_from_slice(&[0, 0, 0, 1]);
    expected.extend_from_slice(&[0, 0, 0, 1, b'a', 0, 0, 0, 2, 0xff, 0x00]);
    expected.extend_from_slice(&[0, 0, 0, 1, 7]);
    assert_eq!(encode(StreamId::from_bytes(octets), &frame), expected);
}

#[test]
fn response_has_the_documented_bytes() {
    let frame = TunnelFrame::Response(TunnelResponse {
        status: 0x1f4,
        headers: vec![],
        body: b"no".to_vec(),
    });
    let mut expected = vec![0xabu8; 16];
    expected.extend_from_slice(&[0x02, 0x01, 0xf4, 0, 0, 0, 0, 0, 0, 0, 2, b'n', b'o']);
    assert_eq!(encode(StreamId::from_bytes([0xab; 16]), &frame), expected);
}

#[test]
fn error_has_the_documented_bytes() {
    let mut expected = vec![0u8; 16];
    expected.extend_from_slice(&[0x03, 0, 0, 0, 2, b'h', b'i']);
    assert_eq!(encode(StreamId::from_bytes([0; 16]), &error_frame("hi")), expected);
    assert!(can_encode(&error_frame("hi")));
}

#[test]
fn stream_ids_are_uuids() {
    let uuid = Uuid::new_v4();
    let id = StreamId::from_bytes(*uuid.as_bytes());
    assert_eq!(id.value, uuid.as_u128());
    assert_eq!(id.as_bytes(), *uuid.as_bytes());
    assert_eq!(
        StreamId::from_bytes([0, 0, 0, 0, 0, 0, 0, 0, 0, 0, 0, 0, 0, 0, 1, 2]).value,
        0x0102
    );
}

#[test]
fn random_ids_are_version_four() {
    let first = StreamId::random();
    let second = StreamId::random();
    assert_ne!(first, second);
    let uuid = Uuid::from_bytes(first.as_bytes());
    assert_eq!(uuid.get_version_num(), 4);
    assert_eq!(uuid.as_bytes()[8] & 0xc0, 0x80);
}

#[test]
fn short_messages_are_refused() {
    assert_eq!(decode_frame(&[]).unwrap_err(), FrameError::TooShort);
    assert_eq!(decode_frame(&[0; 16]).unwrap_err(), FrameError::TooShort);
    assert_ne!(decode_frame(&[0; 17]).unwrap_err(), FrameError::TooShort);
}

#[test]
fn unknown_types_are_refused() {
    assert_eq!(refusal(0x00, &[]), FrameError::UnknownType(0x00));
    assert_eq!(refusal(0x04, &[]), FrameError::UnknownType(0x04));
    assert_eq!(refusal(0xff, b"anything"), FrameError::UnknownType(0xff));
}

#[test]
fn truncated_requests_are_refused_by_field() {
    assert_eq!(
        refusal(FRAME_REQUEST, &[0, 0, 0]),
        FrameError::Method(FieldError::TruncatedStringLength)
    );
    assert_eq!(
        refusal(FRAME_REQUEST, &[0, 0, 0, 2, b'G']),
        FrameError::Method(FieldError::TruncatedStringData)
    );
    assert_eq!(
        refusal(FRAME_REQUEST, &[0, 0, 0, 1, 0xff]),
        FrameError::Method(FieldError::InvalidUtf8(
            "invalid utf-8 sequence of 1 bytes from index 0".to_string()
        ))
    );
    let mut payload = vec![0, 0, 0, 1, b'G'];
    assert_eq!(refusal(FRAME_REQUEST, &payload), FrameError::Uri(FieldError::TruncatedStringLength));
    payload.extend_from_slice(&[0, 0, 0, 1, b'/']);
    assert_eq!(refusal(FRAME_REQUEST, &payload), FrameError::Headers(FieldError::TruncatedHeaderCount));
    payload.extend_from_slice(&[0, 0, 0, 1]);
    assert_eq!(refusal(FRAME_REQUEST, &payload), FrameError::Headers(FieldError::TruncatedStringLength));
    payload.extend_from_slice(&[0, 0, 0, 1, b'h']);
    assert_eq!(
        refusal(FRAME_REQUEST, &payload),
        FrameError::Headers(FieldError::TruncatedHeaderValueLength)
    );
    payload.extend_from_slice(&[0, 0, 0, 2, b'v']);
    assert_eq!(refusal(FRAME_REQUEST, &payload), FrameError::Headers(FieldError::TruncatedHeaderValue));
    payload.push(b'w');
    assert_eq!(refusal(FRAME_REQUEST, &payload), FrameError::Body(FieldError::TruncatedBodyLength));
    payload.extend_from_slice(&[0, 0, 0, 1]);
    assert_eq!(refusal(FRAME_REQUEST, &payload), FrameError::Body(FieldError::TruncatedBodyData));
    payload.push(b'b');
    assert!(decode_frame(&message(FRAME_REQUEST, &payload)).is_ok());
}

#[test]
fn truncated_responses_and_errors_are_refused() {
    assert_eq!(refusal(FRAME_RESPONSE, &[1]), FrameError::TruncatedStatus);
    assert_eq!(
        refusal(FRAME_RESPONSE, &[0, 200]),
        FrameError::Headers(FieldError::TruncatedHeaderCount)
    );
    assert_eq!(
        refusal(FRAME_RESPONSE, &[0, 200, 0, 0, 0, 0, 0]),
        FrameError::Body(FieldError::TruncatedBodyLength)
    );
    assert_eq!(
        refusal(FRAME_ERROR, &[]),
        FrameError::ErrorMessage(FieldError::TruncatedStringLength)
    );
}

#[test]
fn a_large_header_count_without_headers_is_refused() {
    assert_eq!(
        refusal(FRAME_RESPONSE, &[0, 200, 0xff, 0xff, 0xff, 0xff]),
        FrameError::Headers(FieldError::TruncatedStringLength)
    );
}

#[test]
fn every_truncation_of_a_frame_is_refused() {
    let frame = TunnelFrame::Response(TunnelResponse {
        status: 200,
        headers: vec![("x".into(), b"y".to_vec())],
        body: b"body".to_vec(),
    });
    let whole = encode(StreamId::random(), &frame);
    for len in 0..whole.len() {
        assert!(decode_frame(&whole[..len]).is_err());
    }
    assert!(decode_frame(&whole).is_ok());
}

#[test]
fn bytes_behind_a_frame_are_ignored() {
    let id = StreamId::random();
    let mut data = encode(id, &error_frame("gone"));
    data.extend_from_slice(b"and more");
    let (decoded_id, decoded) = decode_frame(&data).unwrap();
    assert_eq!(decoded_id, id);
    assert!(matches!(decoded, TunnelFrame::Error(e) if e.message == "gone"));
}

#[test]
fn different_frames_are_encoded_differently() {
    let id = StreamId::from_bytes([1; 16]);
    let other = StreamId::from_bytes([2; 16]);
    assert_ne!(encode(id, &error_frame("a")), encode(other, &error_frame("a")));
    assert_ne!(encode(id, &error_frame("a")), encode(id, &error_frame("b")));
}

#[test]
fn fields_are_read_off_the_front() {
    let data = [0, 0, 0, 2, b'o', b'k', 9];
    let mut buf: &[u8] = &data;
    assert_eq!(decode_string(&mut buf).unwrap(), "ok");
    assert_eq!(buf, &[9]);
    assert_eq!(decode_string(&mut buf), Err(FieldError::TruncatedStringLength));
    assert_eq!(buf, &[9]);

    let mut buf: &[u8] = &[0, 0, 0, 1, 0, 0, 0, 1, b'n', 0, 0, 0, 1, b'v', 5, 6];
    assert_eq!(decode_headers(&mut buf).unwrap(), vec![("n".to_string(), b"v".to_vec())]);
    assert_eq!(buf, &[5, 6]);

    let mut buf: &[u8] = &[0, 0, 0, 1, 8, 9];
    assert_eq!(decode_body(&mut buf).unwrap(), vec![8]);
    assert_eq!(buf, &[9]);
}

#[test]
fn frame_errors_in_words() {
    let expected = [
        (FrameError::TooShort, "frame too short: need at least 17 bytes"),
        (FrameError::Method(FieldError::InvalidUtf8(String::new())), "method"),
        (FrameError::Uri(FieldError::TruncatedStringData), "uri"),
        (FrameError::Headers(FieldError::TruncatedHeaderCount), "headers"),
        (FrameError::Body(FieldError::TruncatedBodyData), "body"),
        (FrameError::TruncatedStatus, "truncated response status"),
        (FrameError::ErrorMessage(FieldError::InvalidUtf8(String::new())), "error message"),
        (FrameError::UnknownType(0x0a), "unknown frame type: 0x0a"),
        (FrameError::UnknownType(0xf9), "unknown frame type: 0xf9"),
    ];
    for (error, words) in expected {
        assert_eq!(error.message(), words);
    }
}

#[test]
fn field_errors_in_words() {
    let expected = [
        (FieldError::TruncatedStringLength, "truncated string length"),
        (FieldError::TruncatedStringData, "truncated string data"),
        (FieldError::InvalidUtf8("bad".to_string()), "bad"),
        (FieldError::TruncatedHeaderCount, "truncated header count"),
        (FieldError::TruncatedHeaderValueLength, "truncated header value length"),
        (FieldError::TruncatedHeaderValue, "truncated header value"),
        (FieldError::TruncatedBodyLength, "truncated body length"),
        (FieldError::TruncatedBodyData, "truncated body data"),
    ];
    for (error, words) in expected {
        assert_eq!(error.message(), words);
    }
}

#[test]
fn bytes_that_are_no_utf8_are_explained() {
    let cases: [&[u8]; 3] = [b"\xff", b"ab\xe2\x82", b"a\xc3("];
    for bytes in cases {
        let mut payload = (bytes.len() as u32).to_be_bytes().to_vec();
        payload.extend_from_slice(bytes);
        let expected = std::str::from_utf8(bytes).unwrap_err().to_string();
        let mut buf: &[u8] = &payload;
        let error = decode_string(&mut buf).unwrap_err();
        assert_eq!(error, FieldError::InvalidUtf8(expected.clone()));
        assert_eq!(error.message(), expected);
        assert_eq!(buf, bytes);
    }
}
