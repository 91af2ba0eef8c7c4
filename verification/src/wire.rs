//! The wire model: the request and response envelopes that travel on the RPC
//! stream, and the serialization format fixed per connection.
use vstd::prelude::*;

verus! {

/// Serialization format for the envelope and its payload; both peers of a
/// connection must agree on it out of band.
#[derive(Debug, Clone, Copy, PartialEq, Eq, Structural)]
pub enum SerializationFormat {
    /// A protobuf-style binary encoding.
    Protobuf,
    /// A JSON text encoding; payload bytes are written as an array of numbers.
    Json,
}

impl Default for SerializationFormat {
    fn default() -> (r: Self)
        ensures
            r == SerializationFormat::Protobuf,
    {
        SerializationFormat::Protobuf
    }
}

impl SerializationFormat {
    /// The lower-case name of the format.
    pub fn as_str(&self) -> (r: &'static str)
        ensures
            *self == SerializationFormat::Protobuf ==> r@ == "protobuf"@,
            *self == SerializationFormat::Json ==> r@ == "json"@,
    {
        match self {
            SerializationFormat::Protobuf => "protobuf",
            SerializationFormat::Json => "json",
        }
    }
}

/// Mathematical model of a [`Request`].
#[verifier::ext_equal]
pub struct ReqModel {
    /// Request id.
    pub id: u64,
    /// Method path, `"<service>.<method>"`.
    pub method: Seq<char>,
    /// Opaque payload bytes.
    pub payload: Seq<u8>,
}

/// Mathematical model of a [`Response`].
#[verifier::ext_equal]
pub struct RespModel {
    /// Id of the request this response answers.
    pub id: u64,
    /// Result payload, present on success.
    pub payload: Option<Seq<u8>>,
    /// Error message, present on failure.
    pub error: Option<Seq<char>>,
}

impl RespModel {
    /// A response is well formed when exactly one of `payload` and `error`
    /// is present.
    pub open spec fn wf(self) -> bool {
        self.payload is Some <==> self.error is None
    }
}

/// One RPC request: a connection-local id, a method path of the shape
/// `"<service>.<method>"`, and payload bytes already serialized in the
/// connection's format.
#[derive(Debug, Clone, PartialEq, Eq)]
pub struct Request {
    /// Unique request id, allocated by the client.
    pub id: u64,
    /// Method path, `"<service>.<method>"`: the first dot splits, both sides
    /// non-empty, further dots belong to the method part.
    pub method: String,
    /// Opaque payload bytes, pre-serialized by the caller.
    pub payload: Vec<u8>,
}

impl View for Request {
    type V = ReqModel;

    open spec fn view(&self) -> ReqModel {
        ReqModel { id: self.id, method: self.method@, payload: self.payload@ }
    }
}

/// One RPC response: the id of the request it answers, and exactly one of a
/// payload (success) or an error message (failure).
#[derive(Debug, Clone, PartialEq, Eq)]
pub struct Response {
    /// Id of the request this response answers.
    pub id: u64,
    /// Result payload, present on success.
    pub payload: Option<Vec<u8>>,
    /// Error message, present on failure.
    pub error: Option<String>,
}

impl View for Response {
    type V = RespModel;

    open spec fn view(&self) -> RespModel {
        RespModel {
            id: self.id,
            payload: match self.payload {
                Some(p) => Some(p@),
                None => None,
            },
            error: match self.error {
                Some(e) => Some(e@),
                None => None,
            },
        }
    }
}

} // verus!
