//! End-to-end exercises of the transport core: codec round trips, routing,
//! RPC correlation, timeouts, disposal and handler replacement.

use open_xiaoai_server::base::AppError;
use open_xiaoai_server::connect::codec::{decode, encode};
use open_xiaoai_server::connect::data::{Envelope, Event, Request, Response, Stream};
use open_xiaoai_server::connect::message::{MessageManager, Routed};
use open_xiaoai_server::connect::rpc::{reply_for, reply_unknown};
use open_xiaoai_server::server::{get_version, AppServer};
use open_xiaoai_server::base::{version, version_json};

type Manager = MessageManager<u32, u32, u32>;
type Server = AppServer<u32, u32, u32>;

fn caller() -> Manager {
    let mut m: Manager = MessageManager::new();
    m.init().unwrap();
    m
}

fn callee() -> Server {
    let mut s: Server = AppServer::new();
    s.init(1, 2, 3).unwrap();
    s
}

/// Runs one request frame through a callee server, invoking `get_version`
/// for the registered command, and returns the reply frame it sends back.
fn serve_one(server: &mut Server, frame: &Vec<u8>) -> Vec<u8> {
    let routed = server.manager.process_frame(frame).unwrap();
    let reply = match routed {
        Routed::CommandToHandler(req) => {
            let outcome = get_version(&req);
            reply_for(&req, outcome)
        }
        Routed::ReplyUnknown(resp) => resp,
        _ => panic!("expected a request frame"),
    };
    server.manager.send_envelope(&Envelope::Response(reply)).unwrap()
}

#[test]
fn version_constants() {
    assert_eq!(version(), "1.0.0");
    assert_eq!(version_json(), "\"1.0.0\"");
}

#[test]
fn error_messages_are_distinct() {
    assert_eq!(AppError::Timeout.message(), "call timed out");
    assert_eq!(AppError::ConnectionLost.message(), "connection lost");
    assert_eq!(AppError::NotConnected.message(), "no active connection");
    assert_eq!(AppError::AlreadyConnected.message(), "a connection is already active");
    assert_eq!(AppError::Protocol.message(), "protocol error: malformed frame");
    assert_eq!(AppError::Remote(String::from("boom")).message(), "remote error: boom");
}

#[test]
fn codec_round_trip_event() {
    let env = Envelope::Event(Event { payload: String::from("{\"k\":1}") });
    let frame = encode(&env);
    match decode(&frame) {
        Some(Envelope::Event(e)) => assert_eq!(e.payload, "{\"k\":1}"),
        _ => panic!("event did not round-trip"),
    }
}

#[test]
fn codec_round_trip_stream() {
    let env = Envelope::Stream(Stream { tag: String::from("play"), bytes: vec![0, 255, 7] });
    let frame = encode(&env);
    match decode(&frame) {
        Some(Envelope::Stream(s)) => {
            assert_eq!(s.tag, "play");
            assert_eq!(s.bytes, vec![0, 255, 7]);
        }
        _ => panic!("stream did not round-trip"),
    }
}

#[test]
fn codec_round_trip_request_full() {
    let env = Envelope::Request(Request {
        id: 42,
        command: String::from("run_shell"),
        params: Some(String::from("\"ls\"")),
        timeout_millis: Some(2000),
    });
    let frame = encode(&env);
    match decode(&frame) {
        Some(Envelope::Request(r)) => {
            assert_eq!(r.id, 42);
            assert_eq!(r.command, "run_shell");
            assert_eq!(r.params, Some(String::from("\"ls\"")));
            assert_eq!(r.timeout_millis, Some(2000));
        }
        _ => panic!("request did not round-trip"),
    }
}

#[test]
fn codec_round_trip_request_empty_options() {
    let env = Envelope::Request(Request {
        id: 0,
        command: String::from(""),
        params: None,
        timeout_millis: None,
    });
    let frame = encode(&env);
    match decode(&frame) {
        Some(Envelope::Request(r)) => {
            assert_eq!(r.id, 0);
            assert_eq!(r.command, "");
            assert_eq!(r.params, None);
            assert_eq!(r.timeout_millis, None);
        }
        _ => panic!("request did not round-trip"),
    }
}

#[test]
fn codec_round_trip_response() {
    let env = Envelope::Response(Response {
        id: u64::MAX,
        data: None,
        error: Some(String::from("nope")),
    });
    let frame = encode(&env);
    match decode(&frame) {
        Some(Envelope::Response(r)) => {
            assert_eq!(r.id, u64::MAX);
            assert_eq!(r.data, None);
            assert_eq!(r.error, Some(String::from("nope")));
        }
        _ => panic!("response did not round-trip"),
    }
}

#[test]
fn decode_rejects_malformed_frames() {
    assert!(decode(&Vec::new()).is_none());
    // unknown kind byte
    assert!(decode(&vec![9u8]).is_none());
    // truncated length prefix
    assert!(decode(&vec![0u8, 3, 0, 0]).is_none());
    // length prefix overruns the frame
    assert!(decode(&vec![0u8, 5, 0, 0, 0, 0, 0, 0, 0, 97]).is_none());
    // trailing byte after a well-formed envelope
    let mut frame = encode(&Envelope::Event(Event { payload: String::from("x") }));
    frame.push(0);
    assert!(decode(&frame).is_none());
    // event payload that is not UTF-8
    let bad = vec![0u8, 1, 0, 0, 0, 0, 0, 0, 0, 0xFF];
    assert!(decode(&bad).is_none());
}

#[test]
fn stream_chunks_arrive_in_order_unchanged() {
    let sender = caller();
    let mut receiver: Manager = MessageManager::new();
    receiver.init().unwrap();
    receiver.streams.set_handler(7u32);

    let first = sender.send_stream(String::from("play"), vec![1, 2, 3]).unwrap();
    let second = sender.send_stream(String::from("play"), vec![4, 5]).unwrap();

    match receiver.process_frame(&first).unwrap() {
        Routed::StreamToHandler(s) => {
            assert_eq!(s.tag, "play");
            assert_eq!(s.bytes, vec![1, 2, 3]);
        }
        _ => panic!("first chunk not delivered"),
    }
    match receiver.process_frame(&second).unwrap() {
        Routed::StreamToHandler(s) => {
            assert_eq!(s.tag, "play");
            assert_eq!(s.bytes, vec![4, 5]);
        }
        _ => panic!("second chunk not delivered"),
    }
}

#[test]
fn stream_dropped_without_handler() {
    let sender = caller();
    let mut receiver = caller();
    let frame = sender.send_stream(String::from("play"), vec![1]).unwrap();
    match receiver.process_frame(&frame).unwrap() {
        Routed::StreamDropped => {}
        _ => panic!("chunk should have been dropped"),
    }
}

#[test]
fn get_version_call_returns_version_constant() {
    let mut a = caller();
    let mut b = callee();

    let (id, frame) = a.call_remote_begin(String::from("get_version"), None, None).unwrap();
    let reply_frame = serve_one(&mut b, &frame);
    match a.process_frame(&reply_frame).unwrap() {
        Routed::CallResolved(rid, Ok(resp)) => {
            assert_eq!(rid, id);
            assert_eq!(resp.data, Some(String::from("\"1.0.0\"")));
            assert_eq!(resp.error, None);
        }
        _ => panic!("call was not resolved with the version"),
    }
}

#[test]
fn unknown_command_is_an_error_not_a_timeout() {
    let mut a = caller();
    let mut b = callee();

    let (id, frame) = a.call_remote_begin(String::from("no_such_command"), None, None).unwrap();
    let reply_frame = serve_one(&mut b, &frame);
    match a.process_frame(&reply_frame).unwrap() {
        Routed::CallResolved(rid, Err(AppError::Remote(msg))) => {
            assert_eq!(rid, id);
            assert_eq!(msg, "unknown command: no_such_command");
        }
        Routed::CallResolved(_, Err(AppError::Timeout)) => {
            panic!("unknown command must not surface as a timeout")
        }
        _ => panic!("call was not resolved with an unknown-command error"),
    }
}

#[test]
fn timed_out_call_ignores_late_response() {
    let mut a = caller();

    let (id, _frame) = a
        .call_remote_begin(String::from("slow_command"), None, Some(10))
        .unwrap();
    // the deadline fires first
    match a.rpc.fail_timeout(id) {
        Some(AppError::Timeout) => {}
        _ => panic!("pending call should fail with a timeout"),
    }
    // the response still arrives, late: it must not resolve anything
    let late = Envelope::Response(Response { id, data: Some(String::from("1")), error: None });
    let late_frame = encode(&late);
    match a.process_frame(&late_frame).unwrap() {
        Routed::LateResponseDropped(rid) => assert_eq!(rid, id),
        _ => panic!("late response must be dropped"),
    }
    // and a second timeout for the same id finds nothing either
    assert!(a.rpc.fail_timeout(id).is_none());
}

#[test]
fn dispose_fails_every_pending_call_and_nothing_leaks() {
    let mut a = caller();
    let mut ids: Vec<u64> = Vec::new();
    for name in ["one", "two", "three"] {
        let (id, _frame) = a.call_remote_begin(String::from(name), None, None).unwrap();
        ids.push(id);
    }

    let failed = a.dispose();
    assert_eq!(failed.len(), 3);
    for (i, (id, err)) in failed.iter().enumerate() {
        assert_eq!(*id, ids[i]);
        assert!(matches!(err, AppError::ConnectionLost));
    }

    // a subsequently installed connection sees none of the old calls
    a.init().unwrap();
    let old = Envelope::Response(Response { id: ids[0], data: None, error: None });
    match a.process_frame(&encode(&old)).unwrap() {
        Routed::LateResponseDropped(rid) => assert_eq!(rid, ids[0]),
        _ => panic!("an old call leaked into the new connection"),
    }
}

#[test]
fn responses_resolve_only_their_own_call() {
    let mut a = caller();
    let (id1, _f1) = a.call_remote_begin(String::from("first"), None, None).unwrap();
    let (id2, _f2) = a.call_remote_begin(String::from("second"), None, None).unwrap();
    assert_ne!(id1, id2);

    // the second call's response arrives first and resolves only itself
    let r2 = Envelope::Response(Response { id: id2, data: Some(String::from("2")), error: None });
    match a.process_frame(&encode(&r2)).unwrap() {
        Routed::CallResolved(rid, Ok(resp)) => {
            assert_eq!(rid, id2);
            assert_eq!(resp.data, Some(String::from("2")));
        }
        _ => panic!("second call should resolve"),
    }
    // a duplicate of it is dropped: the slot was consumed exactly once
    match a.process_frame(&encode(&Envelope::Response(Response {
        id: id2,
        data: Some(String::from("again")),
        error: None,
    })))
    .unwrap()
    {
        Routed::LateResponseDropped(rid) => assert_eq!(rid, id2),
        _ => panic!("duplicate response must be dropped"),
    }
    // the first call is still pending and resolves normally
    let r1 = Envelope::Response(Response { id: id1, data: None, error: Some(String::from("e")) });
    match a.process_frame(&encode(&r1)).unwrap() {
        Routed::CallResolved(rid, Err(AppError::Remote(msg))) => {
            assert_eq!(rid, id1);
            assert_eq!(msg, "e");
        }
        _ => panic!("first call should resolve with the remote error"),
    }
}

#[test]
fn second_event_handler_replaces_first() {
    let mut m = caller();
    m.events.set_handler(1u32);
    m.events.set_handler(2u32);
    assert_eq!(*m.events.current(), Some(2u32));

    let frame = encode(&Envelope::Event(Event { payload: String::from("{}") }));
    match m.process_frame(&frame).unwrap() {
        Routed::EventToHandler(e) => assert_eq!(e.payload, "{}"),
        _ => panic!("event should go to the current handler"),
    }
}

#[test]
fn event_dropped_without_handler() {
    let mut m = caller();
    let frame = encode(&Envelope::Event(Event { payload: String::from("{}") }));
    match m.process_frame(&frame).unwrap() {
        Routed::EventDropped => {}
        _ => panic!("event should be dropped with no handler"),
    }
}

#[test]
fn later_command_registration_wins() {
    let mut m = caller();
    m.rpc.add_command(String::from("cmd"), 10u32);
    m.rpc.add_command(String::from("cmd"), 20u32);
    assert_eq!(m.rpc.lookup_command(&String::from("cmd")), Some(&20u32));
    assert_eq!(m.rpc.lookup_command(&String::from("other")), None);
}

#[test]
fn registered_command_receives_request_params() {
    let mut a = caller();
    let mut b = callee();
    b.manager.rpc.add_command(String::from("run_shell"), 9u32);

    let (id, frame) = a
        .call_remote_begin(String::from("run_shell"), Some(String::from("\"ls\"")), Some(5000))
        .unwrap();
    match b.manager.process_frame(&frame).unwrap() {
        Routed::CommandToHandler(req) => {
            assert_eq!(req.id, id);
            assert_eq!(req.command, "run_shell");
            assert_eq!(req.params, Some(String::from("\"ls\"")));
            assert_eq!(req.timeout_millis, Some(5000));
            assert_eq!(b.manager.rpc.lookup_command(&req.command), Some(&9u32));
        }
        _ => panic!("request should reach the registered command handler"),
    }
}

#[test]
fn connection_lifecycle_errors() {
    let mut m: Manager = MessageManager::new();
    // nothing can be sent without a connection
    match m.send_stream(String::from("play"), vec![1]) {
        Err(AppError::NotConnected) => {}
        _ => panic!("send without a connection must fail"),
    }
    match m.call_remote_begin(String::from("x"), None, None) {
        Err(AppError::NotConnected) => {}
        _ => panic!("call without a connection must fail"),
    }
    // a second install without disposal is refused
    m.init().unwrap();
    match m.init() {
        Err(AppError::AlreadyConnected) => {}
        _ => panic!("double install must fail"),
    }
    // after disposal a new install succeeds
    let failed = m.dispose();
    assert!(failed.is_empty());
    m.init().unwrap();
}

#[test]
fn malformed_frame_is_a_protocol_error() {
    let mut m = caller();
    match m.process_frame(&vec![42u8, 42, 42]) {
        Err(AppError::Protocol) => {}
        _ => panic!("malformed frame must be a protocol error"),
    }
}

#[test]
fn reply_builders_key_to_the_request() {
    let req = Request {
        id: 9,
        command: String::from("mystery"),
        params: None,
        timeout_millis: None,
    };
    let unknown = reply_unknown(&req);
    assert_eq!(unknown.id, 9);
    assert_eq!(unknown.data, None);
    assert_eq!(unknown.error, Some(String::from("unknown command: mystery")));

    let ok = reply_for(&req, Ok(Response::from_data(String::from("\"v\""))));
    assert_eq!(ok.id, 9);
    assert_eq!(ok.data, Some(String::from("\"v\"")));
    assert_eq!(ok.error, None);

    let err = reply_for(&req, Err(AppError::Remote(String::from("broke"))));
    assert_eq!(err.id, 9);
    assert_eq!(err.data, None);
    assert_eq!(err.error, Some(String::from("remote error: broke")));
}
