//! The server-side dispatch engine: the service registry, method-path
//! splitting, per-request routing, error shaping, and the session
//! lifecycle.
//!
//! The engine decides; the embedder performs the I/O. For every decoded
//! request frame, [`handle_request_frame`] either hands back the response
//! to send (a routing failure) or names the registered service to invoke;
//! the embedder runs the service under the configured deadline and turns
//! the outcome into the response with [`complete_call`].
use vstd::prelude::*;

use crate::codec::deserialize_request;
use crate::codec::spec_deserialize_request;
use crate::codec::serialize_response;
use crate::codec::spec_serialize_response;
use crate::error::Error;
use crate::framing::encode_frame;
use crate::framing::frame_of;
use crate::wire::Request;
use crate::wire::Response;
use crate::wire::SerializationFormat;
use crate::MAX_FRAME_LEN;
use vstd::string::StrSliceExecFns;

verus! {

/// The index of the first dot at or after `i`, if any.
pub open spec fn dot_from(m: Seq<char>, i: int) -> Option<int>
    decreases m.len() - i,
{
    if i < 0 || i >= m.len() {
        None
    } else if m[i] == '.' {
        Some(i)
    } else {
        dot_from(m, i + 1)
    }
}

/// Splits a method path at its first dot. The split is valid when both
/// sides are non-empty; dots after the first belong to the method part.
pub open spec fn spec_split_method(m: Seq<char>) -> Option<(Seq<char>, Seq<char>)> {
    match dot_from(m, 0) {
        None => None,
        Some(i) => if 0 < i && i + 1 < m.len() {
            Some((m.subrange(0, i), m.subrange(i + 1, m.len() as int)))
        } else {
            None
        },
    }
}

/// Finds the first dot at or after `i`, exactly as [`dot_from`] describes.
fn find_dot(s: &str, n: usize, i: usize) -> (r: Option<usize>)
    requires
        n == s@.len(),
        i <= n,
    ensures
        match r {
            Some(j) => dot_from(s@, i as int) == Some(j as int) && i <= j < n,
            None => dot_from(s@, i as int) is None,
        },
    decreases n - i,
{
    if i == n {
        return None;
    }
    let c = s.get_char(i);
    if c == '.' {
        return Some(i);
    }
    find_dot(s, n, i + 1)
}

/// Splits a method path at its first dot, exactly as [`spec_split_method`]
/// describes: `None` for a path without a dot or with an empty service or
/// method part.
pub fn split_method(method: &str) -> (r: Option<(String, String)>)
    ensures
        match spec_split_method(method@) {
            Some((svc, meth)) => r matches Some((a, b)) && a@ == svc && b@ == meth,
            None => r is None,
        },
{
    let n = method.unicode_len();
    match find_dot(method, n, 0) {
        None => None,
        Some(i) => {
            if i == 0 || i + 1 == n {
                return None;
            }
            let svc = method.substring_char(0, i).to_owned();
            let meth = method.substring_char(i + 1, n).to_owned();
            Some((svc, meth))
        },
    }
}

/// The registered service names, in registration order. The handles
/// themselves live with the embedder, addressed by index.
pub struct ServiceRegistry {
    names: Vec<String>,
}

impl ServiceRegistry {
    /// The registered names, in registration order.
    pub closed spec fn names(self) -> Seq<Seq<char>> {
        self.names.deep_view()
    }

    /// Registered names are unique.
    pub open spec fn wf(self) -> bool {
        self.names().no_duplicates()
    }

    /// True when a service of this name is registered.
    pub open spec fn has_service(self, name: Seq<char>) -> bool {
        self.names().contains(name)
    }

    /// An empty registry.
    pub fn new() -> (r: Self)
        ensures
            r.names() == Seq::<Seq<char>>::empty(),
            r.wf(),
    {
        ServiceRegistry { names: Vec::new() }
    }

    /// The number of registered services.
    pub fn len(&self) -> (n: usize)
        ensures
            n == self.names().len(),
    {
        self.names.len()
    }

    /// The index of the service of this name, if one is registered.
    pub fn lookup(&self, name: &String) -> (r: Option<usize>)
        ensures
            match r {
                Some(i) => i < self.names().len() && self.names()[i as int] == name@,
                None => !self.has_service(name@),
            },
    {
        let mut i: usize = 0;
        while i < self.names.len()
            invariant
                i <= self.names.len(),
                forall|k: int| 0 <= k < i ==> self.names()[k] != name@,
            decreases self.names.len() - i,
        {
            proof {
                assert(self.names() =~= self.names.deep_view());
                assert(self.names()[i as int] == self.names@[i as int]@);
            }
            if self.names[i] == *name {
                return Some(i);
            }
            i = i + 1;
        }
        None
    }

    /// Registers a service under a fresh name, returning its index.
    /// A name that is already registered is rejected, and nothing else is;
    /// registered entries live for the server's lifetime.
    pub fn register_service(&mut self, name: String) -> (r: Result<usize, Error>)
        requires
            old(self).wf(),
        ensures
            final(self).wf(),
            old(self).has_service(name@) ==> (r matches Err(e) && e matches Error::Other(_)
                && *final(self) == *old(self)),
            !old(self).has_service(name@) ==> (r matches Ok(i) && i == old(self).names().len()
                && final(self).names() == old(self).names().push(name@)),
    {
        match self.lookup(&name) {
            Some(_) => Err(Error::Other(String::from_str("service already registered"))),
            None => {
                let i = self.names.len();
                self.names.push(name);
                proof {
                    assert(self.names() =~= old(self).names().push(name@));
                    assert forall|x: Seq<char>| #[trigger]
                        self.names().contains(x) <==> old(self).names().contains(x) || x
                        == name@ by {
                        if self.names().contains(x) {
                            let k = choose|k: int|
                                0 <= k < self.names().len() && self.names()[k] == x;
                            if k < old(self).names().len() {
                                assert(old(self).names()[k] == x);
                            }
                        }
                        if old(self).names().contains(x) {
                            let k = choose|k: int|
                                0 <= k < old(self).names().len() && old(self).names()[k] == x;
                            assert(self.names()[k] == x);
                        }
                        if x == name@ {
                            assert(self.names()[self.names().len() - 1] == x);
                        }
                    }
                    assert(self.names().drop_last() =~= old(self).names());
                }
                Ok(i)
            },
        }
    }
}

/// What the dispatcher decides about one decoded request.
#[derive(Debug)]
pub enum RouteOutcome {
    /// Send this response back without invoking anything: the request was
    /// malformed or named no registered service.
    Reply(Response),
    /// Invoke method `method` of the service registered at index
    /// `service` with `payload`, under the per-dispatch deadline, and
    /// answer request `id` with its outcome.
    Invoke { service: usize, method: String, id: u64, payload: Vec<u8> },
}

/// Routes one decoded request: a method path without a valid
/// `service.method` split is answered with `"invalid method format"` and
/// the request's own id; an unregistered service with
/// `"service not found: <service>"`; anything else names the service to
/// invoke.
pub fn route_request(registry: &ServiceRegistry, req: Request) -> (r: RouteOutcome)
    ensures
        match spec_split_method(req@.method) {
            None => r matches RouteOutcome::Reply(resp) && resp@.id == req@.id && resp@.payload
                is None && resp@.error == Some("invalid method format"@),
            Some((svc, meth)) => {
                if registry.has_service(svc) {
                    r matches RouteOutcome::Invoke { service, method, id, payload }
                        && registry.names()[service as int] == svc && method@ == meth && id
                        == req@.id && payload@ == req@.payload
                } else {
                    r matches RouteOutcome::Reply(resp) && resp@.id == req@.id && resp@.payload
                        is None && resp@.error == Some("service not found: "@ + svc)
                }
            },
        },
{
    let parts = split_method(req.method.as_str());
    match parts {
        None => RouteOutcome::Reply(
            Response {
                id: req.id,
                payload: None,
                error: Some(String::from_str("invalid method format")),
            },
        ),
        Some((svc, meth)) => {
            match registry.lookup(&svc) {
                Some(i) => RouteOutcome::Invoke {
                    service: i,
                    method: meth,
                    id: req.id,
                    payload: req.payload,
                },
                None => RouteOutcome::Reply(
                    Response {
                        id: req.id,
                        payload: None,
                        error: Some(
                            String::from_str("service not found: ").concat(svc.as_str()),
                        ),
                    },
                ),
            }
        },
    }
}

/// Handles one inbound request frame: a frame that does not decode as a
/// request is answered with id 0 and `"malformed request"`, without
/// tearing the connection down; a decoded request is routed as
/// [`route_request`] describes.
pub fn handle_request_frame(
    registry: &ServiceRegistry,
    format: SerializationFormat,
    bytes: &Vec<u8>,
) -> (r: RouteOutcome)
    ensures
        match spec_deserialize_request(format, bytes@) {
            None => r matches RouteOutcome::Reply(resp) && resp@.id == 0 && resp@.payload is None
                && resp@.error == Some("malformed request"@),
            Some(m) => match spec_split_method(m.method) {
                None => r matches RouteOutcome::Reply(resp) && resp@.id == m.id && resp@.payload
                    is None && resp@.error == Some("invalid method format"@),
                Some((svc, meth)) => {
                    if registry.has_service(svc) {
                        r matches RouteOutcome::Invoke { service, method, id, payload }
                            && registry.names()[service as int] == svc && method@ == meth && id
                            == m.id && payload@ == m.payload
                    } else {
                        r matches RouteOutcome::Reply(resp) && resp@.id == m.id && resp@.payload
                            is None && resp@.error == Some("service not found: "@ + svc)
                    }
                },
            },
        },
{
    match deserialize_request(bytes, format) {
        Err(_) => RouteOutcome::Reply(
            Response { id: 0, payload: None, error: Some(String::from_str("malformed request")) },
        ),
        Ok(req) => route_request(registry, req),
    }
}

/// Shapes a service call's outcome into the response for request `id`: a
/// payload on success, `"timeout"` when the deadline was exceeded, and
/// the display form of any other failure. The response always carries
/// exactly one of payload and error.
pub fn complete_call(id: u64, outcome: Result<Vec<u8>, Error>) -> (r: Response)
    ensures
        r@.id == id,
        r@.wf(),
        match outcome {
            Ok(p) => r@.payload == Some(p@) && r@.error is None,
            Err(e) => r@.payload is None && r@.error == Some(
                if e == Error::Timeout {
                    "timeout"@
                } else {
                    e.spec_message()
                },
            ),
        },
{
    match outcome {
        Ok(p) => Response { id, payload: Some(p), error: None },
        Err(e) => {
            let msg = if let Error::Timeout = &e {
                String::from_str("timeout")
            } else {
                e.message()
            };
            Response { id, payload: None, error: Some(msg) }
        },
    }
}

/// Serializes a well-formed response and frames it for the wire.
pub fn encode_response_frame(resp: &Response, format: SerializationFormat) -> (r: Result<
    Vec<u8>,
    Error,
>)
    requires
        resp@.wf(),
    ensures
        match spec_serialize_response(format, resp@) {
            Some(bs) => {
                if bs.len() <= MAX_FRAME_LEN {
                    r matches Ok(f) && f@ == frame_of(bs)
                } else {
                    r matches Err(e) && e matches Error::WebTransport(_)
                }
            },
            None => r matches Err(e) && e matches Error::Serialization(_),
        },
{
    let bytes = match serialize_response(resp, format) {
        Ok(b) => b,
        Err(e) => {
            return Err(e);
        },
    };
    encode_frame(&bytes)
}

/// True exactly for the RPC session path `/rpc`; a CONNECT to any other
/// path is rejected with a REQUEST_REJECTED control error.
pub fn is_rpc_path(path: &str) -> (r: bool)
    ensures
        r == (path@ == "/rpc"@),
{
    proof {
        reveal_strlit("/rpc");
    }
    let n = path.unicode_len();
    if n != 4 {
        return false;
    }
    let r = path.get_char(0) == '/' && path.get_char(1) == 'r' && path.get_char(2) == 'p'
        && path.get_char(3) == 'c';
    proof {
        if r {
            assert(path@ =~= "/rpc"@);
        }
        if path@ == "/rpc"@ {
            assert(path@[0] == '/' && path@[1] == 'r' && path@[2] == 'p' && path@[3] == 'c');
        }
    }
    r
}

/// The lifecycle of one server-side session.
#[derive(Debug, Clone, Copy, PartialEq, Eq, Structural)]
pub enum SessionState {
    /// The CONNECT was accepted; the RPC stream has not arrived yet.
    Accepting,
    /// The RPC stream is up; requests are dispatched.
    Established,
    /// The endpoint is shutting down; started handlers finish, completed
    /// responses are still flushed, no new connection is accepted.
    Draining,
    /// The session is gone.
    Closed,
}

/// One server-side session's lifecycle.
pub struct ServerSession {
    state: SessionState,
}

impl ServerSession {
    /// The session state.
    pub closed spec fn session_state(self) -> SessionState {
        self.state
    }

    /// Responses may be written in `Established` and, for handlers that
    /// already started, in `Draining`.
    pub open spec fn can_respond(self) -> bool {
        self.session_state() == SessionState::Established || self.session_state()
            == SessionState::Draining
    }

    /// A fresh session, waiting for its RPC stream.
    pub fn new() -> (r: Self)
        ensures
            r.session_state() == SessionState::Accepting,
    {
        ServerSession { state: SessionState::Accepting }
    }

    /// The session state, for the embedder's loop.
    pub fn state(&self) -> (r: SessionState)
        ensures
            r == self.session_state(),
    {
        self.state
    }

    /// Records that the RPC bidirectional stream was accepted.
    pub fn on_stream_accepted(&mut self) -> (r: Result<(), Error>)
        ensures
            old(self).session_state() == SessionState::Accepting ==> (r is Ok && final(self).session_state() == SessionState::Established),
            old(self).session_state() != SessionState::Accepting ==> (r matches Err(e)
                && e matches Error::Other(_) && *final(self) == *old(self)),
    {
        if let SessionState::Accepting = self.state {
            self.state = SessionState::Established;
            Ok(())
        } else {
            Err(Error::Other(String::from_str("stream already accepted")))
        }
    }

    /// Records that the endpoint began shutting down: the session drains.
    pub fn begin_drain(&mut self)
        ensures
            old(self).session_state() == SessionState::Established ==> final(self).session_state() == SessionState::Draining,
            old(self).session_state() != SessionState::Established ==> *final(self) == *old(self),
    {
        if let SessionState::Established = self.state {
            self.state = SessionState::Draining;
        }
    }

    /// Records that the peer closed the stream or the idle timeout
    /// elapsed: the session is over, in any state.
    pub fn on_closed(&mut self)
        ensures
            final(self).session_state() == SessionState::Closed,
    {
        self.state = SessionState::Closed;
    }
}

} // verus!
