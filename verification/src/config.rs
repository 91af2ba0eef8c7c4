//! Runtime configuration: addresses, TLS material paths, timeouts, the
//! serialization format, and the QUIC transport parameters, with their
//! validation rules.
use vstd::prelude::*;

use crate::error::Error;
use crate::wire::SerializationFormat;
use crate::DEFAULT_TIMEOUT_MS;

verus! {

/// Configuration shared by clients and servers. TLS material is referenced
/// by path; reading and parsing it is the embedder's side of the boundary.
#[derive(Debug, Clone, PartialEq, Eq)]
pub struct Config {
    /// Address to bind to (server) or connect to (client), as `host:port`.
    pub addr: String,
    /// Server certificate chain path (PEM); required by servers.
    pub cert_path: Option<String>,
    /// Server private key path (PEM); required by servers.
    pub key_path: Option<String>,
    /// Optional trust anchors for peer verification (PEM).
    pub ca_path: Option<String>,
    /// Whether peer certificates are validated.
    pub verify_peer: bool,
    /// Serialization format of the envelope and payload.
    pub format: SerializationFormat,
    /// Per-call deadline, also the server's per-dispatch deadline, in
    /// milliseconds.
    pub timeout_ms: u64,
    /// QUIC maximum concurrent streams.
    pub max_concurrent_streams: u64,
    /// QUIC keep-alive interval in milliseconds.
    pub keep_alive_ms: Option<u64>,
    /// QUIC maximum idle timeout in milliseconds.
    pub idle_timeout_ms: Option<u64>,
    /// SNI hostname the client presents.
    pub server_name: Option<String>,
}

impl Config {
    /// The validation rule for connection parameters: a keep-alive below
    /// 100 ms, an idle timeout below 1000 ms, or a stream limit outside
    /// 1..=1000 is rejected.
    pub open spec fn valid(self) -> bool {
        &&& (self.keep_alive_ms matches Some(k) ==> k >= 100)
        &&& (self.idle_timeout_ms matches Some(t) ==> t >= 1000)
        &&& 1 <= self.max_concurrent_streams <= 1000
    }

    /// Creates a configuration with the given address and the defaults for
    /// everything else.
    pub fn new(addr: String) -> (r: Self)
        ensures
            r.addr == addr,
            default_but_addr(r),
    {
        let mut c = Config::default();
        c.addr = addr;
        c
    }

    /// Checks the connection parameters, as [`Config::valid`] describes.
    pub fn validate(&self) -> (r: Result<(), Error>)
        ensures
            r is Ok <==> self.valid(),
            r matches Err(e) ==> e matches Error::InvalidConfig(_),
    {
        crate::utils::validate_connection_params(
            self.keep_alive_ms,
            self.idle_timeout_ms,
            self.max_concurrent_streams,
        )
    }
}

/// The default values of every field but the address: protobuf envelopes,
/// peer verification on, a 30 s call deadline, 100 streams, 5 s keep-alive
/// and 30 s idle timeout.
pub open spec fn default_but_addr(c: Config) -> bool {
    &&& c.cert_path is None
    &&& c.key_path is None
    &&& c.ca_path is None
    &&& c.verify_peer == true
    &&& c.format == SerializationFormat::Protobuf
    &&& c.timeout_ms == DEFAULT_TIMEOUT_MS
    &&& c.max_concurrent_streams == 100
    &&& c.keep_alive_ms == Some(5000u64)
    &&& c.idle_timeout_ms == Some(30000u64)
    &&& c.server_name is None
}

impl Default for Config {
    fn default() -> (r: Self)
        ensures
            default_but_addr(r),
            r.addr@ == "[::1]:4433"@,
    {
        Config {
            addr: String::from_str("[::1]:4433"),
            cert_path: None,
            key_path: None,
            ca_path: None,
            verify_peer: true,
            format: SerializationFormat::Protobuf,
            timeout_ms: DEFAULT_TIMEOUT_MS,
            max_concurrent_streams: 100,
            keep_alive_ms: Some(5000),
            idle_timeout_ms: Some(30000),
            server_name: None,
        }
    }
}

} // verus!
