use quicserve::client::ClientEngine;
use quicserve::client::ConnState;
use quicserve::client::DemuxOutcome;
use quicserve::framing::FrameDecoder;
use quicserve::pending::next_free_id;
use quicserve::pending::wrap_add_exec;
use quicserve::pending::PendingTable;
use quicserve::server::complete_call;
use quicserve::server::encode_response_frame;
use quicserve::server::handle_request_frame;
use quicserve::server::is_rpc_path;
use quicserve::server::route_request;
use quicserve::server::split_method;
use quicserve::server::RouteOutcome;
use quicserve::server::ServerSession;
use quicserve::server::ServiceRegistry;
use quicserve::server::SessionState;
use quicserve::wire::Request;
use quicserve::Config;
use quicserve::Error;
use quicserve::SerializationFormat;

fn ready_client(format: SerializationFormat) -> ClientEngine {
    let mut config = Config::new("[::1]:4433".to_string());
    config.format = format;
    let mut engine = ClientEngine::new(&config).unwrap();
    engine.start_connect().unwrap();
    engine.on_connected().unwrap();
    engine
}

/// Runs one call through both engines, with no network in between: the
/// client's frame is cut by the server's frame decoder, dispatched, the
/// service result shaped and framed, and the client demultiplexes it.
fn run_call(
    client: &mut ClientEngine,
    registry: &ServiceRegistry,
    format: SerializationFormat,
    method: &str,
    payload: &[u8],
    service: impl Fn(&str, Vec<u8>) -> Result<Vec<u8>, Error>,
) -> (u64, DemuxOutcome) {
    let (id, frame) = client.begin_call(method.to_string(), payload.to_vec()).unwrap();

    let mut server_rx = FrameDecoder::new();
    server_rx.feed(&frame);
    let request_bytes = server_rx.next_frame().unwrap().unwrap();

    let response = match handle_request_frame(registry, format, &request_bytes) {
        RouteOutcome::Reply(resp) => resp,
        RouteOutcome::Invoke { service: _, method, id, payload } => {
            complete_call(id, service(&method, payload))
        },
    };
    let response_frame = encode_response_frame(&response, format).unwrap();

    let mut client_rx = FrameDecoder::new();
    client_rx.feed(&response_frame);
    let response_bytes = client_rx.next_frame().unwrap().unwrap();
    (id, client.on_frame(&response_bytes))
}

#[test]
fn echo_call_protobuf() {
    let format = SerializationFormat::Protobuf;
    let mut client = ready_client(format);
    let mut registry = ServiceRegistry::new();
    registry.register_service("echo".to_string()).unwrap();

    let (id, outcome) = run_call(&mut client, &registry, format, "echo.echo", &[0x48, 0x69], |
        method,
        payload,
    | {
        assert_eq!(method, "echo");
        Ok(payload)
    });
    match outcome {
        DemuxOutcome::Deliver(got_id, Ok(payload)) => {
            assert_eq!(got_id, id);
            assert_eq!(payload, vec![0x48, 0x69]);
        },
        other => panic!("expected delivery, got {:?}", other),
    }
    assert_eq!(client.state(), ConnState::Ready);
}

#[test]
fn echo_call_json() {
    let format = SerializationFormat::Json;
    let mut client = ready_client(format);
    let mut registry = ServiceRegistry::new();
    registry.register_service("echo".to_string()).unwrap();

    let (id, outcome) = run_call(&mut client, &registry, format, "echo.echo", &[0x48, 0x69], |
        _,
        payload,
    | Ok(payload));
    match outcome {
        DemuxOutcome::Deliver(got_id, Ok(payload)) => {
            assert_eq!(got_id, id);
            assert_eq!(payload, vec![0x48, 0x69]);
        },
        other => panic!("expected delivery, got {:?}", other),
    }
}

#[test]
fn unknown_service_is_reported_and_connection_survives() {
    let format = SerializationFormat::Protobuf;
    let mut client = ready_client(format);
    let registry = ServiceRegistry::new();

    let (id, outcome) = run_call(&mut client, &registry, format, "nope.x", &[], |_, _| {
        panic!("nothing registered, nothing may run")
    });
    match outcome {
        DemuxOutcome::Deliver(got_id, Err(Error::RpcFailed(msg))) => {
            assert_eq!(got_id, id);
            assert_eq!(msg, "service not found: nope");
        },
        other => panic!("expected an rpc failure, got {:?}", other),
    }
    // The connection remains usable for the next call.
    assert_eq!(client.state(), ConnState::Ready);
    assert!(client.begin_call("a.b".to_string(), vec![]).is_ok());
}

#[test]
fn server_timeout_becomes_timeout_error_and_connection_survives() {
    let format = SerializationFormat::Protobuf;
    let mut client = ready_client(format);
    let mut registry = ServiceRegistry::new();
    registry.register_service("slow".to_string()).unwrap();

    // The embedder's deadline fired: the handler's outcome is Timeout.
    let (id, outcome) =
        run_call(&mut client, &registry, format, "slow.sleep", &[], |_, _| Err(Error::Timeout));
    match outcome {
        DemuxOutcome::Deliver(got_id, Err(Error::RpcFailed(msg))) => {
            assert_eq!(got_id, id);
            assert_eq!(msg, "timeout");
        },
        other => panic!("expected an rpc failure, got {:?}", other),
    }

    // A following echo call still answers.
    registry.register_service("echo".to_string()).unwrap();
    let (id, outcome) = run_call(&mut client, &registry, format, "echo.echo", &[1], |_, p| Ok(p));
    match outcome {
        DemuxOutcome::Deliver(got_id, Ok(payload)) => {
            assert_eq!(got_id, id);
            assert_eq!(payload, vec![1]);
        },
        other => panic!("expected delivery, got {:?}", other),
    }
}

#[test]
fn out_of_order_responses_reach_their_callers() {
    let format = SerializationFormat::Protobuf;
    let mut client = ready_client(format);
    let mut registry = ServiceRegistry::new();
    registry.register_service("slow".to_string()).unwrap();

    let (id_a, frame_a) = client.begin_call("slow.a".to_string(), vec![0xA1]).unwrap();
    let (id_b, frame_b) = client.begin_call("slow.b".to_string(), vec![0xB2]).unwrap();
    assert_ne!(id_a, id_b);

    let serve = |frame: &Vec<u8>| {
        let mut rx = FrameDecoder::new();
        rx.feed(frame);
        let bytes = rx.next_frame().unwrap().unwrap();
        match handle_request_frame(&registry, format, &bytes) {
            RouteOutcome::Invoke { method: _, id, payload, .. } => {
                let resp = complete_call(id, Ok(payload));
                encode_response_frame(&resp, format).unwrap()
            },
            other => panic!("expected an invocation, got {:?}", other),
        }
    };
    let resp_a = serve(&frame_a);
    let resp_b = serve(&frame_b);

    // Method "b" finishes first; its response arrives before "a"'s.
    for (frame, want_id, want_payload) in
        [(resp_b, id_b, vec![0xB2]), (resp_a, id_a, vec![0xA1])]
    {
        let mut rx = FrameDecoder::new();
        rx.feed(&frame);
        let bytes = rx.next_frame().unwrap().unwrap();
        match client.on_frame(&bytes) {
            DemuxOutcome::Deliver(id, Ok(payload)) => {
                assert_eq!(id, want_id);
                assert_eq!(payload, want_payload);
            },
            other => panic!("expected delivery, got {:?}", other),
        }
    }

    // The pending table is empty afterwards.
    assert!(!client.cancel_call(id_a));
    assert!(!client.cancel_call(id_b));
}

#[test]
fn oversize_frame_fails_all_in_flight_calls() {
    let format = SerializationFormat::Protobuf;
    let mut client = ready_client(format);
    let (id_a, _) = client.begin_call("a.a".to_string(), vec![]).unwrap();
    let (id_b, _) = client.begin_call("b.b".to_string(), vec![]).unwrap();

    // The peer advertises a 32 MiB frame; the receiver closes the
    // connection and every in-flight call fails with ConnectionClosed.
    let mut rx = FrameDecoder::new();
    rx.feed(&[0x02, 0x00, 0x00, 0x00]);
    let e = rx.next_frame().unwrap_err();
    assert!(matches!(e, Error::WebTransport(_)));

    let failed = client.on_transport_closed();
    assert_eq!(failed, vec![id_a, id_b]);
    assert_eq!(client.state(), ConnState::Closed);
    let e = client.begin_call("c.c".to_string(), vec![]).unwrap_err();
    assert_eq!(e, Error::ConnectionClosed);
}

#[test]
fn graceful_close_and_idempotent_second_close() {
    let format = SerializationFormat::Protobuf;
    let mut client = ready_client(format);
    let mut registry = ServiceRegistry::new();
    registry.register_service("echo".to_string()).unwrap();

    for i in 0..3u8 {
        let (_, outcome) =
            run_call(&mut client, &registry, format, "echo.echo", &[i], |_, p| Ok(p));
        assert!(matches!(outcome, DemuxOutcome::Deliver(_, Ok(_))));
    }

    let cancelled = client.close().unwrap();
    assert_eq!(cancelled, Vec::<u64>::new());
    assert_eq!(client.state(), ConnState::Closed);

    let e = client.begin_call("echo.echo".to_string(), vec![]).unwrap_err();
    assert_eq!(e, Error::ConnectionClosed);

    let again = client.close().unwrap();
    assert_eq!(again, Vec::<u64>::new());
    assert_eq!(client.state(), ConnState::Closed);
}

#[test]
fn timed_out_call_is_cancelled_and_late_response_is_dropped() {
    let format = SerializationFormat::Protobuf;
    let mut client = ready_client(format);
    let mut registry = ServiceRegistry::new();
    registry.register_service("slow".to_string()).unwrap();

    let (id, frame) = client.begin_call("slow.s".to_string(), vec![1]).unwrap();
    // The deadline fires first: the entry is removed and the call fails
    // with Timeout at the caller.
    assert!(client.cancel_call(id));
    assert!(!client.cancel_call(id));

    // The response arrives after the timeout and is silently dropped.
    let mut rx = FrameDecoder::new();
    rx.feed(&frame);
    let bytes = rx.next_frame().unwrap().unwrap();
    let late = match handle_request_frame(&registry, format, &bytes) {
        RouteOutcome::Invoke { id, payload, .. } => {
            encode_response_frame(&complete_call(id, Ok(payload)), format).unwrap()
        },
        other => panic!("expected an invocation, got {:?}", other),
    };
    let mut rx = FrameDecoder::new();
    rx.feed(&late);
    let bytes = rx.next_frame().unwrap().unwrap();
    assert!(matches!(client.on_frame(&bytes), DemuxOutcome::Ignored));

    // The connection is still usable.
    assert!(client.begin_call("slow.s".to_string(), vec![]).is_ok());
}

#[test]
fn calls_refused_unless_ready() {
    let config = Config::new("[::1]:4433".to_string());
    let mut engine = ClientEngine::new(&config).unwrap();
    let e = engine.begin_call("a.b".to_string(), vec![]).unwrap_err();
    assert_eq!(e, Error::ConnectionClosed);
    engine.start_connect().unwrap();
    let e = engine.begin_call("a.b".to_string(), vec![]).unwrap_err();
    assert_eq!(e, Error::ConnectionClosed);
}

#[test]
fn invalid_config_is_rejected_at_construction() {
    let mut config = Config::new("[::1]:4433".to_string());
    config.keep_alive_ms = Some(50);
    let e = ClientEngine::new(&config).unwrap_err();
    assert!(matches!(e, Error::InvalidConfig(_)));
}

#[test]
fn send_error_fails_the_call_and_marks_closing() {
    let mut client = ready_client(SerializationFormat::Protobuf);
    let (id, _) = client.begin_call("a.b".to_string(), vec![]).unwrap();
    client.on_send_error(id);
    assert_eq!(client.state(), ConnState::Closing);
    assert!(!client.cancel_call(id));
}

#[test]
fn id_allocation_wraps_and_skips_pending_ids() {
    let mut pending = PendingTable::new();
    pending.insert(0);
    assert_eq!(next_free_id(&pending, u64::MAX), u64::MAX);
    pending.insert(u64::MAX);
    pending.insert(1);
    // From u64::MAX: MAX is pending, 0 is pending, 1 is pending, 2 free.
    assert_eq!(next_free_id(&pending, u64::MAX), 2);
    assert_eq!(wrap_add_exec(u64::MAX, 1), 0);
    assert_eq!(wrap_add_exec(u64::MAX, 3), 2);
}

#[test]
fn method_split_takes_the_first_dot() {
    let (svc, meth) = split_method("svc.a.b").unwrap();
    assert_eq!(svc, "svc");
    assert_eq!(meth, "a.b");
    assert!(split_method("nodot").is_none());
    assert!(split_method(".m").is_none());
    assert!(split_method("s.").is_none());
    assert!(split_method(".").is_none());
}

#[test]
fn invalid_method_format_keeps_the_request_id() {
    let registry = ServiceRegistry::new();
    let req = Request { id: 41, method: "nodot".to_string(), payload: vec![] };
    match route_request(&registry, req) {
        RouteOutcome::Reply(resp) => {
            assert_eq!(resp.id, 41);
            assert_eq!(resp.payload, None);
            assert_eq!(resp.error, Some("invalid method format".to_string()));
        },
        other => panic!("expected a reply, got {:?}", other),
    }
}

#[test]
fn malformed_request_is_answered_with_id_zero() {
    let registry = ServiceRegistry::new();
    let bytes = vec![0xFF, 0xFF];
    match handle_request_frame(&registry, SerializationFormat::Protobuf, &bytes) {
        RouteOutcome::Reply(resp) => {
            assert_eq!(resp.id, 0);
            assert_eq!(resp.error, Some("malformed request".to_string()));
        },
        other => panic!("expected a reply, got {:?}", other),
    }
}

#[test]
fn duplicate_service_registration_is_rejected() {
    let mut registry = ServiceRegistry::new();
    assert_eq!(registry.register_service("echo".to_string()).unwrap(), 0);
    assert_eq!(registry.register_service("slow".to_string()).unwrap(), 1);
    assert!(registry.register_service("echo".to_string()).is_err());
    assert_eq!(registry.len(), 2);
    assert_eq!(registry.lookup(&"slow".to_string()), Some(1));
    assert_eq!(registry.lookup(&"gone".to_string()), None);
}

#[test]
fn complete_call_shapes_each_outcome() {
    let ok = complete_call(4, Ok(vec![1, 2]));
    assert_eq!(ok.id, 4);
    assert_eq!(ok.payload, Some(vec![1, 2]));
    assert_eq!(ok.error, None);

    let timeout = complete_call(5, Err(Error::Timeout));
    assert_eq!(timeout.id, 5);
    assert_eq!(timeout.payload, None);
    assert_eq!(timeout.error, Some("timeout".to_string()));

    let failed = complete_call(6, Err(Error::Other("boom".to_string())));
    assert_eq!(failed.error, Some("boom".to_string()));
    let failed = complete_call(7, Err(Error::MethodNotFound("x".to_string())));
    assert_eq!(failed.error, Some("Method not found: x".to_string()));
}

#[test]
fn only_the_rpc_path_is_accepted() {
    assert!(is_rpc_path("/rpc"));
    assert!(!is_rpc_path("/"));
    assert!(!is_rpc_path("/rp"));
    assert!(!is_rpc_path("/rpc2"));
    assert!(!is_rpc_path("/RPC"));
}

#[test]
fn session_lifecycle() {
    let mut session = ServerSession::new();
    assert_eq!(session.state(), SessionState::Accepting);
    session.on_stream_accepted().unwrap();
    assert_eq!(session.state(), SessionState::Established);
    assert!(session.on_stream_accepted().is_err());
    session.begin_drain();
    assert_eq!(session.state(), SessionState::Draining);
    session.on_closed();
    assert_eq!(session.state(), SessionState::Closed);
}
