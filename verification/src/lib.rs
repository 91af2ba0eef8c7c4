//! An RPC runtime core for request/response messaging over a single
//! bidirectional WebTransport stream: length-delimited framing, envelope
//! codecs (a protobuf-style binary format and JSON), client-side call
//! correlation, and server-side dispatch.
use vstd::prelude::*;

pub mod client;
pub mod codec;
pub mod config;
pub mod error;
pub mod framing;
pub mod json;
pub mod pending;
pub mod proto;
pub mod server;
pub mod strbytes;
pub mod utils;
pub mod varint;
pub mod wire;

pub use codec::deserialize_request;
pub use codec::deserialize_response;
pub use codec::serialize_request;
pub use codec::serialize_response;
pub use codec::JsonCodec;
pub use codec::ProtobufCodec;
pub use config::Config;
pub use error::Error;
pub use wire::Request;
pub use wire::Response;
pub use wire::SerializationFormat;

verus! {

/// Maximum size in bytes of one framed message on the wire.
pub const MAX_FRAME_LEN: u32 = 0x0100_0000;

/// Default per-call deadline in milliseconds.
pub const DEFAULT_TIMEOUT_MS: u64 = 30_000;

} // verus!
