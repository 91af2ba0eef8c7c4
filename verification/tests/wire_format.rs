use quicserve::framing::FrameDecoder;
use quicserve::framing::encode_frame;
use quicserve::wire::Request;
use quicserve::wire::Response;
use quicserve::Error;
use quicserve::SerializationFormat;
use quicserve::deserialize_request;
use quicserve::deserialize_response;
use quicserve::serialize_request;
use quicserve::serialize_response;

fn req(id: u64, method: &str, payload: &[u8]) -> Request {
    Request { id, method: method.to_string(), payload: payload.to_vec() }
}

#[test]
fn proto_request_exact_bytes() {
    let r = req(1, "a.b", &[0x48, 0x69]);
    let bytes = serialize_request(&r, SerializationFormat::Protobuf).unwrap();
    assert_eq!(
        bytes,
        vec![0x08, 0x01, 0x12, 0x03, b'a', b'.', b'b', 0x1A, 0x02, 0x48, 0x69]
    );
}

#[test]
fn proto_request_roundtrip() {
    let r = req(u64::MAX, "svc.method.with.dots", &[0, 1, 2, 254, 255]);
    let bytes = serialize_request(&r, SerializationFormat::Protobuf).unwrap();
    let back = deserialize_request(&bytes, SerializationFormat::Protobuf).unwrap();
    assert_eq!(back, r);
}

#[test]
fn proto_response_roundtrip_payload() {
    let r = Response { id: 7, payload: Some(vec![9, 8, 7]), error: None };
    let bytes = serialize_response(&r, SerializationFormat::Protobuf).unwrap();
    let back = deserialize_response(&bytes, SerializationFormat::Protobuf).unwrap();
    assert_eq!(back, r);
}

#[test]
fn proto_response_roundtrip_error() {
    let r = Response { id: 3, payload: None, error: Some("boom".to_string()) };
    let bytes = serialize_response(&r, SerializationFormat::Protobuf).unwrap();
    let back = deserialize_response(&bytes, SerializationFormat::Protobuf).unwrap();
    assert_eq!(back, r);
}

#[test]
fn proto_response_without_payload_or_error_is_malformed() {
    // A response carrying only field 1 (id = 5).
    let bytes = vec![0x08, 0x05];
    let e = deserialize_response(&bytes, SerializationFormat::Protobuf).unwrap_err();
    assert!(matches!(e, Error::Deserialization(_)));
}

#[test]
fn proto_decoder_skips_unknown_fields() {
    let r = req(1, "a.b", &[0x48]);
    let mut bytes = serialize_request(&r, SerializationFormat::Protobuf).unwrap();
    // Append an unknown varint field (number 9) and an unknown
    // length-delimited field (number 10).
    bytes.extend_from_slice(&[0x48, 0x7F]);
    bytes.extend_from_slice(&[0x52, 0x02, 0xAA, 0xBB]);
    let back = deserialize_request(&bytes, SerializationFormat::Protobuf).unwrap();
    assert_eq!(back, r);
}

#[test]
fn proto_garbage_is_a_decode_error() {
    let bytes = vec![0xFF, 0xFF, 0xFF];
    assert!(deserialize_request(&bytes, SerializationFormat::Protobuf).is_err());
    assert!(deserialize_response(&bytes, SerializationFormat::Protobuf).is_err());
}

#[test]
fn json_request_exact_bytes() {
    let r = req(7, "echo.echo", &[0x48, 0x69]);
    let bytes = serialize_request(&r, SerializationFormat::Json).unwrap();
    assert_eq!(
        bytes,
        b"{\"id\":7,\"method\":\"echo.echo\",\"payload\":[72,105]}".to_vec()
    );
}

#[test]
fn json_response_exact_bytes() {
    let ok = Response { id: 1, payload: Some(vec![0]), error: None };
    let bytes = serialize_response(&ok, SerializationFormat::Json).unwrap();
    assert_eq!(bytes, b"{\"id\":1,\"payload\":[0]}".to_vec());

    let err = Response { id: 2, payload: None, error: Some("no".to_string()) };
    let bytes = serialize_response(&err, SerializationFormat::Json).unwrap();
    assert_eq!(bytes, b"{\"id\":2,\"error\":\"no\"}".to_vec());
}

#[test]
fn json_request_roundtrip() {
    let r = req(u64::MAX, "a.b", &[0, 127, 128, 255]);
    let bytes = serialize_request(&r, SerializationFormat::Json).unwrap();
    let back = deserialize_request(&bytes, SerializationFormat::Json).unwrap();
    assert_eq!(back, r);
}

#[test]
fn json_roundtrip_with_escapes_and_unicode() {
    let r = req(5, "s\"v\\c.mäthod\u{1F600}", &[1]);
    let bytes = serialize_request(&r, SerializationFormat::Json).unwrap();
    let back = deserialize_request(&bytes, SerializationFormat::Json).unwrap();
    assert_eq!(back, r);
}

#[test]
fn json_control_character_fails_serialization() {
    let r = req(5, "bad\nname.m", &[]);
    let e = serialize_request(&r, SerializationFormat::Json).unwrap_err();
    assert!(matches!(e, Error::Serialization(_)));
}

#[test]
fn json_response_error_roundtrip() {
    let r = Response { id: 9, payload: None, error: Some("service not found: nope".to_string()) };
    let bytes = serialize_response(&r, SerializationFormat::Json).unwrap();
    let back = deserialize_response(&bytes, SerializationFormat::Json).unwrap();
    assert_eq!(back, r);
}

#[test]
fn json_rejects_invalid_utf8_and_garbage() {
    let bytes = vec![0xFF, 0xFE];
    assert!(deserialize_request(&bytes, SerializationFormat::Json).is_err());
    let bytes = b"{\"id\":}".to_vec();
    assert!(deserialize_request(&bytes, SerializationFormat::Json).is_err());
    let bytes = b"{\"id\":1}".to_vec();
    assert!(deserialize_response(&bytes, SerializationFormat::Json).is_err());
}

#[test]
fn zero_length_payload_is_valid_both_ways() {
    for format in [SerializationFormat::Protobuf, SerializationFormat::Json] {
        let r = req(0, "a.b", &[]);
        let bytes = serialize_request(&r, format).unwrap();
        assert_eq!(deserialize_request(&bytes, format).unwrap(), r);

        let resp = Response { id: 0, payload: Some(vec![]), error: None };
        let bytes = serialize_response(&resp, format).unwrap();
        assert_eq!(deserialize_response(&bytes, format).unwrap(), resp);
    }
}

#[test]
fn frame_exact_bytes() {
    let f = encode_frame(&vec![0x48, 0x69]).unwrap();
    assert_eq!(f, vec![0, 0, 0, 2, 0x48, 0x69]);
}

#[test]
fn frame_zero_length_is_legal() {
    let f = encode_frame(&vec![]).unwrap();
    assert_eq!(f, vec![0, 0, 0, 0]);
    let mut d = FrameDecoder::new();
    d.feed(&f);
    let got = d.next_frame().unwrap().unwrap();
    assert_eq!(got, Vec::<u8>::new());
}

#[test]
fn frame_oversize_payload_is_refused() {
    let payload = vec![0u8; 16 * 1024 * 1024 + 1];
    let e = encode_frame(&payload).unwrap_err();
    assert!(matches!(e, Error::WebTransport(_)));
}

#[test]
fn decoder_reassembles_partial_reads() {
    let f = encode_frame(&vec![1, 2, 3, 4]).unwrap();
    let mut d = FrameDecoder::new();
    d.feed(&f[..3]);
    assert!(d.next_frame().unwrap().is_none());
    d.feed(&f[3..6]);
    assert!(d.next_frame().unwrap().is_none());
    d.feed(&f[6..]);
    assert_eq!(d.next_frame().unwrap().unwrap(), vec![1, 2, 3, 4]);
    assert!(d.next_frame().unwrap().is_none());
}

#[test]
fn decoder_cuts_two_frames_from_one_read() {
    let mut buf = encode_frame(&vec![1]).unwrap();
    buf.extend_from_slice(&encode_frame(&vec![2, 3]).unwrap());
    let mut d = FrameDecoder::new();
    d.feed(&buf);
    assert_eq!(d.next_frame().unwrap().unwrap(), vec![1]);
    assert_eq!(d.next_frame().unwrap().unwrap(), vec![2, 3]);
    assert!(d.next_frame().unwrap().is_none());
}

#[test]
fn oversize_length_prefix_fails_the_connection() {
    // A length prefix of 32 MiB.
    let mut d = FrameDecoder::new();
    d.feed(&[0x02, 0x00, 0x00, 0x00, 1, 2, 3]);
    let e = d.next_frame().unwrap_err();
    assert!(matches!(e, Error::WebTransport(_)));
    // The decoder is dead from here on.
    let e = d.next_frame().unwrap_err();
    assert_eq!(e, Error::ConnectionClosed);
}

#[test]
fn frame_length_prefix_at_limit_is_accepted() {
    let payload = vec![7u8; 16 * 1024 * 1024];
    let f = encode_frame(&payload).unwrap();
    let mut d = FrameDecoder::new();
    d.feed(&f);
    assert_eq!(d.next_frame().unwrap().unwrap(), payload);
}
