//! Error taxonomy of the RPC runtime.
//!
//! Application-level failures (`MethodNotFound`, `Timeout`, `RpcFailed`) are
//! carried inside a `Response` envelope and leave the connection usable;
//! protocol-level failures (`Quic`, `Http3`, `WebTransport`, `Io`) are fatal
//! to the connection and surface as `ConnectionClosed` to waiting calls.
use vstd::prelude::*;

verus! {

/// One error kind per failure class of the runtime.
#[derive(Debug, Clone, PartialEq, Eq)]
pub enum Error {
    /// Underlying socket or file error; fatal to the connection.
    Io(String),
    /// QUIC handshake or transport failure; fatal to the connection.
    Quic(String),
    /// HTTP/3 protocol error; fatal to the connection.
    Http3(String),
    /// WebTransport CONNECT, session or stream error; fatal to the connection.
    WebTransport(String),
    /// Outbound encode failure; fails the single call, the connection survives.
    Serialization(String),
    /// Inbound decode failure; fails the single call if the id is recoverable.
    Deserialization(String),
    /// Server-side routing miss; sent back inside the response envelope.
    MethodNotFound(String),
    /// Deadline exceeded; fails the single call, the connection survives.
    Timeout,
    /// Error reported by the remote service; fails the single call.
    RpcFailed(String),
    /// The peer or the local side closed the connection; fails all in-flight calls.
    ConnectionClosed,
    /// Configuration validation failure; reported when a client or server is built.
    InvalidConfig(String),
    /// Peer authentication failure.
    AuthenticationFailed(String),
    /// PEM parse or trust-chain failure; reported when a client or server is built.
    CertificateError(String),
    /// Any other failure, described by its message.
    Other(String),
}

impl Error {
    /// The display form of an error, as a character sequence.
    pub open spec fn spec_message(self) -> Seq<char> {
        match self {
            Error::Io(m) => "IO error: "@ + m@,
            Error::Quic(m) => "QUIC connection error: "@ + m@,
            Error::Http3(m) => "HTTP/3 error: "@ + m@,
            Error::WebTransport(m) => "WebTransport error: "@ + m@,
            Error::Serialization(m) => "Serialization error: "@ + m@,
            Error::Deserialization(m) => "Deserialization error: "@ + m@,
            Error::MethodNotFound(m) => "Method not found: "@ + m@,
            Error::Timeout => "Request timeout"@,
            Error::RpcFailed(m) => "RPC call failed: "@ + m@,
            Error::ConnectionClosed => "Connection closed"@,
            Error::InvalidConfig(m) => "Invalid configuration: "@ + m@,
            Error::AuthenticationFailed(m) => "Authentication failed: "@ + m@,
            Error::CertificateError(m) => "Certificate error: "@ + m@,
            Error::Other(m) => m@,
        }
    }

    /// Renders the error as the message a peer or a log line would show.
    pub fn message(&self) -> (r: String)
        ensures
            r@ == self.spec_message(),
    {
        match self {
            Error::Io(m) => String::from_str("IO error: ").concat(m.as_str()),
            Error::Quic(m) => String::from_str("QUIC connection error: ").concat(m.as_str()),
            Error::Http3(m) => String::from_str("HTTP/3 error: ").concat(m.as_str()),
            Error::WebTransport(m) => String::from_str("WebTransport error: ").concat(m.as_str()),
            Error::Serialization(m) => String::from_str("Serialization error: ").concat(
                m.as_str(),
            ),
            Error::Deserialization(m) => String::from_str("Deserialization error: ").concat(
                m.as_str(),
            ),
            Error::MethodNotFound(m) => String::from_str("Method not found: ").concat(m.as_str()),
            Error::Timeout => String::from_str("Request timeout"),
            Error::RpcFailed(m) => String::from_str("RPC call failed: ").concat(m.as_str()),
            Error::ConnectionClosed => String::from_str("Connection closed"),
            Error::InvalidConfig(m) => String::from_str("Invalid configuration: ").concat(
                m.as_str(),
            ),
            Error::AuthenticationFailed(m) => String::from_str("Authentication failed: ").concat(
                m.as_str(),
            ),
            Error::CertificateError(m) => String::from_str("Certificate error: ").concat(
                m.as_str(),
            ),
            Error::Other(m) => m.clone(),
        }
    }
}

} // verus!
