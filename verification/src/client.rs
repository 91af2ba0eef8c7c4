//! The client-side correlation engine: connection lifecycle, id
//! allocation, the pending table, and response demultiplexing.
//!
//! The engine is the decision core of a client. The embedder performs the
//! I/O: it sends the frames [`ClientEngine::begin_call`] hands out, feeds
//! every received frame to [`ClientEngine::on_frame`], and completes the
//! caller of each delivered id with the delivered result. When the engine
//! reports ids on teardown, each of those calls fails with
//! `ConnectionClosed`.
use vstd::prelude::*;

use crate::codec::deserialize_response;
use crate::codec::serialize_request;
use crate::codec::spec_deserialize_response;
use crate::codec::spec_serialize_request;
use crate::config::Config;
use crate::error::Error;
use crate::framing::encode_frame;
use crate::framing::frame_of;
use crate::pending::next_free_id;
use crate::pending::wrap_add;
use crate::pending::wrap_add_exec;
use crate::pending::PendingTable;
use crate::wire::ReqModel;
use crate::wire::Request;
use crate::wire::SerializationFormat;
use crate::MAX_FRAME_LEN;

verus! {

/// The lifecycle of a client connection. Calls may be issued only in
/// `Ready`; responses are accepted in `Ready` and `Closing`.
#[derive(Debug, Clone, Copy, PartialEq, Eq, Structural)]
pub enum ConnState {
    /// No connection attempt has been made.
    Disconnected,
    /// The transport handshake is in flight.
    Connecting,
    /// Calls may be issued.
    Ready,
    /// Teardown has begun; late responses are still drained.
    Closing,
    /// The connection is gone; every call fails with `ConnectionClosed`.
    Closed,
}

/// What the demultiplexer decides about one inbound frame.
#[derive(Debug)]
pub enum DemuxOutcome {
    /// The response for this pending id: the caller registered under the
    /// id receives the result.
    Deliver(u64, Result<Vec<u8>, Error>),
    /// No pending entry wants this frame; it is discarded.
    Ignored,
}

/// Why one call was refused: the format cannot carry the request, or its
/// envelope is over the frame limit.
pub open spec fn call_refused(
    format: SerializationFormat,
    id: u64,
    method: Seq<char>,
    payload: Seq<u8>,
    e: Error,
) -> bool {
    match spec_serialize_request(format, ReqModel { id, method, payload }) {
        Some(bs) => bs.len() > MAX_FRAME_LEN && (e matches Error::WebTransport(_)),
        None => e matches Error::Serialization(_),
    }
}

/// The client-side correlation engine.
#[derive(Debug)]
pub struct ClientEngine {
    state: ConnState,
    pending: PendingTable,
    next_id: u64,
    format: SerializationFormat,
    timeout_ms: u64,
}

impl ClientEngine {
    /// The connection state.
    pub closed spec fn conn_state(self) -> ConnState {
        self.state
    }

    /// The outstanding request ids, in order of issue.
    pub closed spec fn ids(self) -> Seq<u64> {
        self.pending@
    }

    /// True while a call with this id is outstanding.
    pub open spec fn is_pending(self, id: u64) -> bool {
        self.ids().contains(id)
    }

    /// The number of outstanding calls.
    pub open spec fn pending_count(self) -> nat {
        self.ids().len()
    }

    /// The id the allocator will try first for the next call.
    pub closed spec fn next_id(self) -> u64 {
        self.next_id
    }

    /// The connection's serialization format.
    pub closed spec fn format(self) -> SerializationFormat {
        self.format
    }

    /// The per-call deadline in milliseconds.
    pub closed spec fn timeout_ms(self) -> u64 {
        self.timeout_ms
    }

    /// At most one pending entry exists per id at any instant, and no
    /// call is outstanding unless the connection is up; every operation
    /// of the engine preserves this.
    pub open spec fn wf(self) -> bool {
        &&& self.ids().no_duplicates()
        &&& ((self.conn_state() == ConnState::Disconnected || self.conn_state()
            == ConnState::Connecting || self.conn_state() == ConnState::Closed) ==> self.ids()
            == Seq::<u64>::empty())
    }

    /// Everything but the connection state and the pending table is kept.
    pub open spec fn same_config(self, other: ClientEngine) -> bool {
        self.format() == other.format() && self.timeout_ms() == other.timeout_ms()
    }

    /// Builds an engine from a configuration; no network activity happens
    /// here. Configurations that break the validation rules are rejected
    /// with `InvalidConfig`, and nothing else is.
    pub fn new(config: &Config) -> (r: Result<ClientEngine, Error>)
        ensures
            config.valid() ==> (r matches Ok(e) && e.conn_state() == ConnState::Disconnected
                && e.ids() == Seq::<u64>::empty() && e.next_id() == 0 && e.format()
                == config.format && e.timeout_ms() == config.timeout_ms && e.wf()),
            !config.valid() ==> (r matches Err(er) && er matches Error::InvalidConfig(_)),
    {
        match config.validate() {
            Ok(()) => Ok(
                ClientEngine {
                    state: ConnState::Disconnected,
                    pending: PendingTable::new(),
                    next_id: 0,
                    format: config.format,
                    timeout_ms: config.timeout_ms,
                },
            ),
            Err(e) => Err(e),
        }
    }

    /// The connection state, for the embedder's loop.
    pub fn state(&self) -> (r: ConnState)
        ensures
            r == self.conn_state(),
    {
        self.state
    }

    /// The connection's serialization format.
    pub fn serialization_format(&self) -> (r: SerializationFormat)
        ensures
            r == self.format(),
    {
        self.format
    }

    /// The per-call deadline in milliseconds.
    pub fn call_timeout_ms(&self) -> (r: u64)
        ensures
            r == self.timeout_ms(),
    {
        self.timeout_ms
    }

    /// The number of outstanding calls.
    pub fn pending_len(&self) -> (n: usize)
        ensures
            n == self.pending_count(),
    {
        self.pending.len()
    }

    /// Begins the transport handshake. Only a disconnected engine can
    /// start connecting; anything else is left unchanged.
    pub fn start_connect(&mut self) -> (r: Result<(), Error>)
        requires
            old(self).wf(),
        ensures
            final(self).wf(),
            old(self).conn_state() == ConnState::Disconnected ==> (r is Ok && final(self).conn_state() == ConnState::Connecting && final(self).ids() == old(self).ids()
                && final(self).next_id() == old(self).next_id() && final(self).same_config(
                *old(self),
            )),
            old(self).conn_state() != ConnState::Disconnected ==> (r matches Err(e) && e matches
                Error::Other(_) && *final(self) == *old(self)),
    {
        if let ConnState::Disconnected = self.state {
            self.state = ConnState::Connecting;
            Ok(())
        } else {
            Err(Error::Other(String::from_str("connection already started")))
        }
    }

    /// Records that the transport handshake completed and calls may now be
    /// issued.
    pub fn on_connected(&mut self) -> (r: Result<(), Error>)
        requires
            old(self).wf(),
        ensures
            final(self).wf(),
            old(self).conn_state() == ConnState::Connecting ==> (r is Ok && final(self).conn_state() == ConnState::Ready && final(self).ids() == old(self).ids() && final(self).next_id() == old(self).next_id() && final(self).same_config(*old(self))),
            old(self).conn_state() != ConnState::Connecting ==> (r matches Err(e) && e matches
                Error::Other(_) && *final(self) == *old(self)),
    {
        if let ConnState::Connecting = self.state {
            self.state = ConnState::Ready;
            Ok(())
        } else {
            Err(Error::Other(String::from_str("not connecting")))
        }
    }

    /// Records that the transport handshake failed; the engine returns to
    /// the disconnected state and may try again.
    pub fn on_connect_failed(&mut self)
        requires
            old(self).wf(),
        ensures
            final(self).wf(),
            old(self).conn_state() == ConnState::Connecting ==> (final(self).conn_state()
                == ConnState::Disconnected && final(self).ids() == old(self).ids() && final(self).next_id() == old(self).next_id() && final(self).same_config(*old(self))),
            old(self).conn_state() != ConnState::Connecting ==> *final(self) == *old(self),
    {
        if let ConnState::Connecting = self.state {
            self.state = ConnState::Disconnected;
        }
    }

    /// Issues one call: allocates the next free id — wrapping around the
    /// 64-bit space and skipping ids that are still pending — registers
    /// it, and returns the id with the framed request bytes to send.
    ///
    /// Calls are accepted exactly in `Ready`; anywhere else the engine is
    /// unchanged and the call fails with `ConnectionClosed`. A request the
    /// format cannot carry, or one over the frame limit, fails only this
    /// call: nothing is registered and the connection survives.
    pub fn begin_call(&mut self, method: String, payload: Vec<u8>) -> (r: Result<
        (u64, Vec<u8>),
        Error,
    >)
        requires
            old(self).wf(),
            old(self).pending_count() < u64::MAX,
        ensures
            final(self).wf(),
            final(self).conn_state() == old(self).conn_state(),
            final(self).same_config(*old(self)),
            old(self).conn_state() != ConnState::Ready ==> (r matches Err(e) && e
                == Error::ConnectionClosed && *final(self) == *old(self)),
            old(self).conn_state() == ConnState::Ready ==> match r {
                Ok((id, frame)) => {
                    &&& !old(self).is_pending(id)
                    &&& final(self).ids() == old(self).ids().push(id)
                    &&& final(self).is_pending(id)
                    &&& exists|k: u64|
                        id == wrap_add(old(self).next_id(), k) && (forall|m: u64|
                            m < k ==> old(self).is_pending(
                                #[trigger] wrap_add(old(self).next_id(), m),
                            ))
                    &&& final(self).next_id() == wrap_add(id, 1)
                    &&& (spec_serialize_request(
                        old(self).format(),
                        ReqModel { id, method: method@, payload: payload@ },
                    ) matches Some(bs) && bs.len() <= MAX_FRAME_LEN && frame@ == frame_of(bs))
                },
                Err(e) => {
                    &&& *final(self) == *old(self)
                    &&& (e matches Error::Serialization(_) || e matches Error::WebTransport(_))
                    &&& exists|id: u64|
                        !old(self).is_pending(id) && #[trigger] call_refused(
                            old(self).format(),
                            id,
                            method@,
                            payload@,
                            e,
                        )
                },
            },
    {
        if !matches!(self.state, ConnState::Ready) {
            return Err(Error::ConnectionClosed);
        }
        let ghost m0: Seq<char> = method@;
        let ghost p0: Seq<u8> = payload@;
        let id = next_free_id(&self.pending, self.next_id);
        let req = Request { id, method, payload };
        let bytes = match serialize_request(&req, self.format) {
            Ok(b) => b,
            Err(e) => {
                proof {
                    assert(call_refused(old(self).format(), id, m0, p0, e));
                }
                return Err(e);
            },
        };
        let frame = match encode_frame(&bytes) {
            Ok(f) => f,
            Err(e) => {
                proof {
                    assert(call_refused(old(self).format(), id, m0, p0, e));
                }
                return Err(e);
            },
        };
        proof {
            let k0 = choose|k: u64|
                id == wrap_add(old(self).next_id(), k) && (forall|m: u64|
                    m < k ==> old(self).pending.has(#[trigger] wrap_add(old(self).next_id(), m)));
            assert(id == wrap_add(old(self).next_id(), k0) && (forall|m: u64|
                m < k0 ==> old(self).is_pending(#[trigger] wrap_add(old(self).next_id(), m))));
        }
        self.pending.insert(id);
        self.next_id = wrap_add_exec(id, 1);
        Ok((id, frame))
    }

    /// Demultiplexes one inbound frame.
    ///
    /// A response whose id has a pending entry is delivered to exactly
    /// that entry, which is removed; an `error` in the envelope becomes
    /// `RpcFailed`, otherwise the payload is the result. Responses are
    /// accepted in `Ready` and `Closing`; anything else, an undecodable
    /// frame, or an id with no pending entry is discarded. Delivery never
    /// changes the connection state: after a delivered response the
    /// connection remains as usable as it was.
    pub fn on_frame(&mut self, bytes: &Vec<u8>) -> (r: DemuxOutcome)
        requires
            old(self).wf(),
        ensures
            final(self).wf(),
            final(self).conn_state() == old(self).conn_state(),
            final(self).next_id() == old(self).next_id(),
            final(self).same_config(*old(self)),
            match spec_deserialize_response(old(self).format(), bytes@) {
                None => r is Ignored && *final(self) == *old(self),
                Some(m) => {
                    if (old(self).conn_state() == ConnState::Ready || old(self).conn_state()
                        == ConnState::Closing) && old(self).is_pending(m.id) {
                        &&& r matches DemuxOutcome::Deliver(id, res) && id == m.id && (match m.error {
                            Some(err) => res matches Err(e) && (e matches Error::RpcFailed(s)
                                && s@ == err),
                            None => res matches Ok(p) && Some(p@) == m.payload,
                        })
                        &&& !final(self).is_pending(m.id)
                        &&& forall|x: u64|
                            x != m.id ==> (#[trigger] final(self).is_pending(x) <==> old(self).is_pending(x))
                        &&& final(self).pending_count() == old(self).pending_count() - 1
                    } else {
                        r is Ignored && *final(self) == *old(self)
                    }
                },
            },
    {
        let accepting = match self.state {
            ConnState::Ready => true,
            ConnState::Closing => true,
            _ => false,
        };
        if !accepting {
            return DemuxOutcome::Ignored;
        }
        let resp = match deserialize_response(bytes, self.format) {
            Ok(resp) => resp,
            Err(_) => {
                return DemuxOutcome::Ignored;
            },
        };
        let was = self.pending.remove(resp.id);
        proof {
            assert forall|x: u64|
                x != resp.id implies (#[trigger] self.is_pending(x) <==> old(self).is_pending(
                x,
            )) by {
                assert(self.pending.has(x) <==> old(self).pending.has(x));
            }
        }
        if !was {
            return DemuxOutcome::Ignored;
        }
        match resp.error {
            Some(err) => DemuxOutcome::Deliver(resp.id, Err(Error::RpcFailed(err))),
            None => match resp.payload {
                Some(p) => DemuxOutcome::Deliver(resp.id, Ok(p)),
                None => {
                    proof {
                        if old(self).format() == SerializationFormat::Protobuf {
                            crate::proto::lemma_pdec_resp_fields_present(
                                bytes@,
                                0,
                                crate::wire::RespModel { id: 0, payload: None, error: None },
                            );
                        }
                        assert(false);
                    }
                    DemuxOutcome::Ignored
                },
            },
        }
    }

    /// Withdraws a call before its response arrives: on deadline expiry —
    /// the call then fails with `Timeout` — or when the caller abandons
    /// it. The slot is reclaimed; a response arriving later is discarded.
    pub fn cancel_call(&mut self, id: u64) -> (was: bool)
        requires
            old(self).wf(),
        ensures
            final(self).wf(),
            final(self).conn_state() == old(self).conn_state(),
            final(self).next_id() == old(self).next_id(),
            final(self).same_config(*old(self)),
            was == old(self).is_pending(id),
            !final(self).is_pending(id),
            forall|x: u64|
                x != id ==> (#[trigger] final(self).is_pending(x) <==> old(self).is_pending(x)),
            !was ==> *final(self) == *old(self),
    {
        let was = self.pending.remove(id);
        proof {
            assert forall|x: u64|
                x != id implies (#[trigger] self.is_pending(x) <==> old(self).is_pending(x)) by {
                assert(self.pending.has(x) <==> old(self).pending.has(x));
            }
        }
        was
    }

    /// Records a transport error while sending the frame of `id`: that
    /// call fails immediately with the transport's error, and the
    /// connection is marked `Closing`.
    pub fn on_send_error(&mut self, id: u64)
        requires
            old(self).wf(),
        ensures
            final(self).wf(),
            final(self).conn_state() == ConnState::Closing,
            final(self).next_id() == old(self).next_id(),
            final(self).same_config(*old(self)),
            !final(self).is_pending(id),
            forall|x: u64|
                x != id ==> (#[trigger] final(self).is_pending(x) <==> old(self).is_pending(x)),
    {
        self.pending.remove(id);
        self.state = ConnState::Closing;
        proof {
            assert forall|x: u64|
                x != id implies (#[trigger] self.is_pending(x) <==> old(self).is_pending(x)) by {
                assert(self.pending.has(x) <==> old(self).pending.has(x));
            }
        }
    }

    /// Records that the transport is gone — end of stream, a receive
    /// error, or the frame decoder's protocol error. Every outstanding id
    /// is returned so that each of those calls fails with
    /// `ConnectionClosed`; the engine is `Closed`.
    pub fn on_transport_closed(&mut self) -> (ids: Vec<u64>)
        requires
            old(self).wf(),
        ensures
            final(self).wf(),
            final(self).conn_state() == ConnState::Closed,
            final(self).next_id() == old(self).next_id(),
            final(self).same_config(*old(self)),
            ids@ == old(self).ids(),
            final(self).ids() == Seq::<u64>::empty(),
    {
        self.state = ConnState::Closed;
        self.pending.drain()
    }

    /// Begins graceful teardown. Always succeeds; every outstanding id is
    /// returned so that each of those calls fails with `ConnectionClosed`.
    /// Closing is idempotent: a second close finds the same terminal
    /// state, keeps it, reports no outstanding calls, and succeeds again.
    pub fn close(&mut self) -> (r: Result<Vec<u64>, Error>)
        requires
            old(self).wf(),
        ensures
            final(self).wf(),
            final(self).conn_state() == ConnState::Closed,
            final(self).ids() == Seq::<u64>::empty(),
            final(self).next_id() == old(self).next_id(),
            final(self).same_config(*old(self)),
            r matches Ok(ids) && ids@ == old(self).ids(),
            old(self).conn_state() == ConnState::Closed ==> (final(self).conn_state() == old(self).conn_state() && (r matches Ok(ids) && ids@.len() == 0)),
    {
        self.state = ConnState::Closed;
        Ok(self.pending.drain())
    }
}

} // verus!
