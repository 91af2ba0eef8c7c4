//! Serialization of envelopes in the connection's chosen format, and the
//! round-trip laws that tie the two directions together.
use vstd::prelude::*;

use crate::error::Error;
use crate::json;
use crate::proto;
use crate::wire::ReqModel;
use crate::wire::Request;
use crate::wire::RespModel;
use crate::wire::Response;
use crate::wire::SerializationFormat;
use vstd::utf8::encode_utf8;

verus! {

/// The bytes a request envelope serializes to in the given format; `None`
/// when the format cannot carry it (JSON refuses control characters in the
/// method).
pub open spec fn spec_serialize_request(format: SerializationFormat, m: ReqModel) -> Option<
    Seq<u8>,
> {
    match format {
        SerializationFormat::Protobuf => Some(proto::penc_request(m)),
        SerializationFormat::Json => json::jenc_request(m),
    }
}

/// The bytes a response envelope serializes to in the given format.
pub open spec fn spec_serialize_response(format: SerializationFormat, m: RespModel) -> Option<
    Seq<u8>,
>
    recommends
        m.wf(),
{
    match format {
        SerializationFormat::Protobuf => Some(proto::penc_response(m)),
        SerializationFormat::Json => json::jenc_response(m),
    }
}

/// What envelope bytes deserialize to as a request in the given format;
/// `None` for a decode failure.
pub open spec fn spec_deserialize_request(format: SerializationFormat, b: Seq<u8>) -> Option<
    ReqModel,
> {
    match format {
        SerializationFormat::Protobuf => proto::pdec_request(b),
        SerializationFormat::Json => json::jdec_request(b),
    }
}

/// What envelope bytes deserialize to as a response in the given format.
pub open spec fn spec_deserialize_response(format: SerializationFormat, b: Seq<u8>) -> Option<
    RespModel,
> {
    match format {
        SerializationFormat::Protobuf => proto::pdec_response(b),
        SerializationFormat::Json => json::jdec_response(b),
    }
}

/// Serializes a request envelope in the given format.
pub fn serialize_request(req: &Request, format: SerializationFormat) -> (r: Result<Vec<u8>, Error>)
    ensures
        match spec_serialize_request(format, req@) {
            Some(bs) => r matches Ok(o) && o@ == bs,
            None => r matches Err(e) && e matches Error::Serialization(_),
        },
{
    match format {
        SerializationFormat::Protobuf => Ok(proto::penc_request_vec(req)),
        SerializationFormat::Json => json::jenc_request_vec(req),
    }
}

/// Serializes a well-formed response envelope in the given format.
pub fn serialize_response(resp: &Response, format: SerializationFormat) -> (r: Result<
    Vec<u8>,
    Error,
>)
    requires
        resp@.wf(),
    ensures
        match spec_serialize_response(format, resp@) {
            Some(bs) => r matches Ok(o) && o@ == bs,
            None => r matches Err(e) && e matches Error::Serialization(_),
        },
{
    match format {
        SerializationFormat::Protobuf => Ok(proto::penc_response_vec(resp)),
        SerializationFormat::Json => json::jenc_response_vec(resp),
    }
}

/// Deserializes a request envelope from bytes in the given format.
pub fn deserialize_request(data: &Vec<u8>, format: SerializationFormat) -> (r: Result<
    Request,
    Error,
>)
    ensures
        match spec_deserialize_request(format, data@) {
            Some(m) => r matches Ok(q) && q@ == m,
            None => r matches Err(e) && e matches Error::Deserialization(_),
        },
{
    let parsed = match format {
        SerializationFormat::Protobuf => proto::pdec_request_vec(data),
        SerializationFormat::Json => json::jdec_request_vec(data),
    };
    match parsed {
        Some(q) => Ok(q),
        None => Err(Error::Deserialization(String::from_str("malformed request envelope"))),
    }
}

/// Deserializes a response envelope from bytes in the given format.
pub fn deserialize_response(data: &Vec<u8>, format: SerializationFormat) -> (r: Result<
    Response,
    Error,
>)
    ensures
        match spec_deserialize_response(format, data@) {
            Some(m) => r matches Ok(q) && q@ == m,
            None => r matches Err(e) && e matches Error::Deserialization(_),
        },
{
    let parsed = match format {
        SerializationFormat::Protobuf => proto::pdec_response_vec(data),
        SerializationFormat::Json => json::jdec_response_vec(data),
    };
    match parsed {
        Some(q) => Ok(q),
        None => Err(Error::Deserialization(String::from_str("malformed response envelope"))),
    }
}

/// Round trip for requests: whatever a format serializes, it deserializes
/// back to the same envelope, in both formats.
///
/// The two bounds only rule out method strings and payloads beyond 2^64
/// bytes, which no machine can hold.
pub proof fn lemma_request_roundtrip(format: SerializationFormat, m: ReqModel)
    requires
        encode_utf8(m.method).len() <= u64::MAX,
        m.payload.len() <= u64::MAX,
    ensures
        spec_serialize_request(format, m) matches Some(b) ==> spec_deserialize_request(format, b)
            == Some(m),
{
    match format {
        SerializationFormat::Protobuf => {
            proto::lemma_proto_request_roundtrip(m);
        },
        SerializationFormat::Json => {
            json::lemma_json_request_roundtrip(m);
        },
    }
}

/// Round trip for responses: whatever a format serializes a well-formed
/// response to, it deserializes back to the same envelope, in both formats.
pub proof fn lemma_response_roundtrip(format: SerializationFormat, m: RespModel)
    requires
        m.wf(),
        m.payload matches Some(p) ==> p.len() <= u64::MAX,
        m.error matches Some(e) ==> encode_utf8(e).len() <= u64::MAX,
    ensures
        spec_serialize_response(format, m) matches Some(b) ==> spec_deserialize_response(
            format,
            b,
        ) == Some(m),
{
    match format {
        SerializationFormat::Protobuf => {
            proto::lemma_proto_response_roundtrip(m);
        },
        SerializationFormat::Json => {
            json::lemma_json_response_roundtrip(m);
        },
    }
}

/// Codec for the binary envelope format; its encode and decode sides are
/// inverses, as [`lemma_request_roundtrip`] and [`lemma_response_roundtrip`]
/// state.
pub struct ProtobufCodec {
}

impl ProtobufCodec {
    /// Creates a new binary codec.
    pub fn new() -> (r: Self) {
        ProtobufCodec {  }
    }

    /// Encodes a request envelope.
    pub fn encode_request(&self, req: &Request) -> (r: Vec<u8>)
        ensures
            r@ == proto::penc_request(req@),
    {
        proto::penc_request_vec(req)
    }

    /// Encodes a well-formed response envelope.
    pub fn encode_response(&self, resp: &Response) -> (r: Vec<u8>)
        requires
            resp@.wf(),
        ensures
            r@ == proto::penc_response(resp@),
    {
        proto::penc_response_vec(resp)
    }

    /// Decodes a request envelope.
    pub fn decode_request(&self, data: &Vec<u8>) -> (r: Option<Request>)
        ensures
            proto::opt_req_model(r) == proto::pdec_request(data@),
    {
        proto::pdec_request_vec(data)
    }

    /// Decodes a response envelope.
    pub fn decode_response(&self, data: &Vec<u8>) -> (r: Option<Response>)
        ensures
            proto::opt_resp_model(r) == proto::pdec_response(data@),
    {
        proto::pdec_response_vec(data)
    }
}

impl Default for ProtobufCodec {
    fn default() -> (r: Self) {
        ProtobufCodec::new()
    }
}

/// Codec for the JSON envelope format; its encode and decode sides are
/// inverses on everything the format can carry.
pub struct JsonCodec {
}

impl JsonCodec {
    /// Creates a new JSON codec.
    pub fn new() -> (r: Self) {
        JsonCodec {  }
    }

    /// Encodes a request envelope; fails on control characters in the
    /// method.
    pub fn encode_request(&self, req: &Request) -> (r: Result<Vec<u8>, Error>)
        ensures
            match json::jenc_request(req@) {
                Some(bs) => r matches Ok(o) && o@ == bs,
                None => r matches Err(e) && e matches Error::Serialization(_),
            },
    {
        json::jenc_request_vec(req)
    }

    /// Encodes a well-formed response envelope; fails on control characters
    /// in the error text.
    pub fn encode_response(&self, resp: &Response) -> (r: Result<Vec<u8>, Error>)
        requires
            resp@.wf(),
        ensures
            match json::jenc_response(resp@) {
                Some(bs) => r matches Ok(o) && o@ == bs,
                None => r matches Err(e) && e matches Error::Serialization(_),
            },
    {
        json::jenc_response_vec(resp)
    }

    /// Decodes a request envelope.
    pub fn decode_request(&self, data: &Vec<u8>) -> (r: Option<Request>)
        ensures
            proto::opt_req_model(r) == json::jdec_request(data@),
    {
        json::jdec_request_vec(data)
    }

    /// Decodes a response envelope.
    pub fn decode_response(&self, data: &Vec<u8>) -> (r: Option<Response>)
        ensures
            proto::opt_resp_model(r) == json::jdec_response(data@),
    {
        json::jdec_response_vec(data)
    }
}

impl Default for JsonCodec {
    fn default() -> (r: Self) {
        JsonCodec::new()
    }
}

} // verus!
