use std::sync::Mutex;

use burrow::client::{accept_frame, answer_frame};
use burrow::frame::{
    decode_frame, encode, TunnelError, TunnelFrame, TunnelRequest, TunnelResponse,
};
use burrow::http::ProxyError;
use burrow::protocol::{ClientMessage, ServerMessage, StreamHeader, DEFAULT_PORT, TUNNEL_WS_PATH};
use burrow::registry::TunnelRegistry;
use burrow::session::{
    answer_hello, await_hello, handle_client_messages, Admission, ClientEvent, HelloError,
    HelloStep, SessionStep,
};
use burrow::stream_id::StreamId;
use burrow::tunnel::Tunnel;

type TestTunnel = Tunnel<u8, &'static str>;
type TestRegistry = TunnelRegistry<Mutex<TestTunnel>>;

fn request(uri: &str) -> TunnelRequest {
    TunnelRequest {
        method: "GET".to_string(),
        uri: uri.to_string(),
        headers: vec![("host".to_string(), b"a.example.com".to_vec())],
        body: b"payload".to_vec(),
    }
}

fn reply(status: u16) -> TunnelResponse {
    TunnelResponse { status, headers: vec![], body: b"done".to_vec() }
}

fn tunnel() -> TestTunnel {
    Tunnel::new("myapp".to_string(), 7)
}

fn registry() -> TestRegistry {
    TunnelRegistry::new("example.com".to_string(), Some(vec!["secret".to_string()]))
}

fn response_message(id: StreamId, status: u16) -> ClientEvent {
    ClientEvent::Binary(encode(id, &TunnelFrame::Response(reply(status))))
}

#[test]
fn a_new_connection_is_announced_and_sent() {
    let mut tunnel = tunnel();
    let connection = tunnel.send_new_connection_with_request(&request("/a"), "visitor");
    let id = connection.stream_id;
    assert!(
        matches!(connection.control, ServerMessage::NewConnection { stream_id } if stream_id == id)
    );
    let (frame_id, frame) = decode_frame(&connection.frame).unwrap();
    assert_eq!(frame_id, id);
    assert!(matches!(frame, TunnelFrame::Request(r) if r.uri == "/a" && r.body == b"payload"));
    assert_eq!(id.as_bytes()[6] >> 4, 4);
    let (waiter, answer) = tunnel.resolve_connection(id, reply(201)).unwrap();
    assert_eq!(waiter, "visitor");
    assert_eq!(answer.status, 201);
}

#[test]
fn a_connection_is_opened_under_a_given_id() {
    let mut tunnel = tunnel();
    let id = StreamId::from_bytes([3; 16]);
    let connection = tunnel.open_connection(id, &request("/b"), "visitor");
    assert_eq!(connection.stream_id, id);
    assert_eq!(&connection.frame[..16], &[3u8; 16]);
}

#[test]
fn a_connection_is_resolved_once() {
    let mut tunnel = tunnel();
    let id = StreamId::from_bytes([3; 16]);
    tunnel.open_connection(id, &request("/"), "visitor");
    assert!(tunnel.resolve_connection(id, reply(200)).is_some());
    assert!(tunnel.resolve_connection(id, reply(200)).is_none());
}

#[test]
fn a_cancelled_connection_is_not_resolved() {
    let mut tunnel = tunnel();
    let id = StreamId::from_bytes([3; 16]);
    tunnel.open_connection(id, &request("/"), "visitor");
    tunnel.cancel_pending(&id);
    tunnel.cancel_pending(&id);
    assert!(tunnel.resolve_connection(id, reply(200)).is_none());
}

#[test]
fn visitors_are_answered_independently() {
    let mut tunnel = tunnel();
    let mut registry = registry();
    let first = StreamId::from_bytes([1; 16]);
    let second = StreamId::from_bytes([2; 16]);
    tunnel.open_connection(first, &request("/1"), "first");
    tunnel.open_connection(second, &request("/2"), "second");
    let step = handle_client_messages(&mut tunnel, response_message(second, 202), &mut registry);
    assert!(matches!(step, SessionStep::Answer("second", r) if r.status == 202));
    let step = handle_client_messages(&mut tunnel, response_message(first, 201), &mut registry);
    assert!(matches!(step, SessionStep::Answer("first", r) if r.status == 201));
    let step = handle_client_messages(&mut tunnel, response_message(first, 201), &mut registry);
    assert!(matches!(step, SessionStep::Continue));
}

#[test]
fn an_answer_after_a_timeout_is_dropped() {
    let mut tunnel = tunnel();
    let mut registry = registry();
    let id = StreamId::from_bytes([1; 16]);
    tunnel.open_connection(id, &request("/1"), "visitor");
    tunnel.cancel_pending(&id);
    let step = handle_client_messages(&mut tunnel, response_message(id, 200), &mut registry);
    assert!(matches!(step, SessionStep::Continue));
}

#[test]
fn an_error_frame_becomes_a_502() {
    let mut tunnel = tunnel();
    let mut registry = registry();
    let id = StreamId::from_bytes([1; 16]);
    tunnel.open_connection(id, &request("/1"), "visitor");
    let frame = TunnelFrame::Error(TunnelError { message: "connection refused".to_string() });
    let event = ClientEvent::Binary(encode(id, &frame));
    let SessionStep::Answer(waiter, answer) =
        handle_client_messages(&mut tunnel, event, &mut registry)
    else {
        panic!("expected an answer");
    };
    assert_eq!(waiter, "visitor");
    assert_eq!(answer.status, 502);
    assert_eq!(answer.headers, vec![("content-type".to_string(), b"text/plain".to_vec())]);
    assert_eq!(answer.body, b"upstream error: connection refused");
}

#[test]
fn a_request_goes_to_the_client_and_back() {
    let mut tunnel = tunnel();
    let mut registry = registry();
    let connection = tunnel.send_new_connection_with_request(&request("/path?q=1"), "visitor");
    let (id, received) = accept_frame(&connection.frame).unwrap();
    assert_eq!(id, connection.stream_id);
    assert_eq!(received.method, "GET");
    assert_eq!(received.uri, "/path?q=1");
    assert_eq!(received.headers, vec![("host".to_string(), b"a.example.com".to_vec())]);
    assert_eq!(received.body, b"payload");
    let answer = answer_frame(id, Ok(reply(203))).unwrap();
    let step = handle_client_messages(&mut tunnel, ClientEvent::Binary(answer), &mut registry);
    assert!(
        matches!(step, SessionStep::Answer("visitor", r) if r.status == 203 && r.body == b"done")
    );
}

#[test]
fn a_failure_at_the_client_reaches_the_visitor() {
    let mut tunnel = tunnel();
    let mut registry = registry();
    let connection = tunnel.send_new_connection_with_request(&request("/"), "visitor");
    let answer = answer_frame(connection.stream_id, Err(ProxyError::ConnectFailed)).unwrap();
    let step = handle_client_messages(&mut tunnel, ClientEvent::Binary(answer), &mut registry);
    let SessionStep::Answer(_, answer) = step else {
        panic!("expected an answer");
    };
    assert_eq!(answer.status, 502);
    assert_eq!(answer.body, b"upstream error: failed to connect to local service");
}

#[test]
fn heartbeats_and_pings_are_answered() {
    let mut tunnel = tunnel();
    let mut registry = registry();
    for event in [ClientEvent::Text(Ok(ClientMessage::Heartbeat)), ClientEvent::Ping] {
        let step = handle_client_messages(&mut tunnel, event, &mut registry);
        assert!(matches!(step, SessionStep::Send(ServerMessage::Heartbeat)));
    }
}

#[test]
fn other_messages_are_passed_over() {
    let mut tunnel = tunnel();
    let mut registry = registry();
    let id = StreamId::from_bytes([1; 16]);
    tunnel.open_connection(id, &request("/"), "visitor");
    let events = [
        ClientEvent::Text(Err("expected value".to_string())),
        ClientEvent::Text(Ok(ClientMessage::Accept { stream_id: id })),
        ClientEvent::Text(Ok(ClientMessage::Hello { token: None, requested_subdomain: None })),
        ClientEvent::Binary(vec![1, 2, 3]),
        ClientEvent::Binary(encode(id, &TunnelFrame::Request(request("/")))),
        ClientEvent::Other,
    ];
    for event in events {
        let step = handle_client_messages(&mut tunnel, event, &mut registry);
        assert!(matches!(step, SessionStep::Continue));
    }
    assert!(tunnel.resolve_connection(id, reply(200)).is_some());
}

#[test]
fn a_client_that_leaves_is_unregistered() {
    for event in
        [ClientEvent::Ended, ClientEvent::ReadFailed("reset".to_string()), ClientEvent::Closed]
    {
        let mut registry = registry();
        registry.register(7u8, Some("other".to_string()), Mutex::<TestTunnel>::new).unwrap();
        let (subdomain, _, handle) =
            registry.register(7u8, Some("myapp".to_string()), Mutex::<TestTunnel>::new).unwrap();
        let mut tunnel = handle.lock().unwrap();
        assert!(registry.get(&subdomain).is_some());
        let step = handle_client_messages(&mut tunnel, event, &mut registry);
        assert!(matches!(step, SessionStep::Stop));
        assert!(registry.get("myapp").is_none());
        assert!(registry.get("other").is_some());
    }
}

#[test]
fn the_server_waits_for_hello() {
    let id = StreamId::from_bytes([1; 16]);
    let passed_over = [
        ClientEvent::Text(Ok(ClientMessage::Heartbeat)),
        ClientEvent::Text(Ok(ClientMessage::Accept { stream_id: id })),
        ClientEvent::Binary(vec![]),
        ClientEvent::Ping,
        ClientEvent::Closed,
        ClientEvent::Other,
    ];
    for event in passed_over {
        assert!(matches!(await_hello(event), HelloStep::Wait));
    }
    let failures = [
        (ClientEvent::Ended, "client disconnected before Hello"),
        (ClientEvent::ReadFailed("connection reset".to_string()), "connection reset"),
        (ClientEvent::Text(Err("expected value".to_string())), "expected value"),
    ];
    for (event, words) in failures {
        let HelloStep::Fail(e) = await_hello(event) else {
            panic!("expected a failure");
        };
        assert_eq!(e.message(), words);
    }
    assert!(matches!(
        await_hello(ClientEvent::Text(Err(String::new()))),
        HelloStep::Fail(HelloError::BadMessage(_))
    ));
    let hello = ClientMessage::Hello {
        token: Some("secret".to_string()),
        requested_subdomain: Some("myapp".to_string()),
    };
    let HelloStep::Proceed { token, requested_subdomain } =
        await_hello(ClientEvent::Text(Ok(hello)))
    else {
        panic!("expected to proceed");
    };
    assert_eq!(token.as_deref(), Some("secret"));
    assert_eq!(requested_subdomain.as_deref(), Some("myapp"));
}

#[test]
fn a_client_without_a_token_is_rejected() {
    let mut registry = registry();
    for token in [None, Some("wrong".to_string())] {
        let wish = Some("myapp".to_string());
        let admission =
            answer_hello(&mut registry, 7u8, &token, wish, Mutex::<TestTunnel>::new);
        assert_eq!(admission.failure_message().as_deref(), Some("client auth failed"));
        let Admission::Rejected { ws_tx, message } = admission else {
            panic!("expected a rejection");
        };
        assert_eq!(ws_tx, 7);
        let ServerMessage::Error { message } = message else {
            panic!("expected an error");
        };
        assert_eq!(message, "invalid or missing auth token");
        assert!(registry.get("myapp").is_none());
    }
}

#[test]
fn a_client_with_a_token_gets_its_tunnel() {
    let mut registry = registry();
    let token = Some("secret".to_string());
    let wish = Some("MyApp".to_string());
    let admission = answer_hello(&mut registry, 7u8, &token, wish, Mutex::<TestTunnel>::new);
    assert_eq!(admission.failure_message(), None);
    let Admission::Accepted { tunnel, message } = admission else {
        panic!("expected to be accepted");
    };
    let ServerMessage::Assigned { subdomain, url } = message else {
        panic!("expected an assignment");
    };
    assert_eq!(subdomain, "myapp");
    assert_eq!(url, "https://myapp.example.com");
    assert_eq!(tunnel.lock().unwrap().subdomain(), "myapp");
    assert!(std::sync::Arc::ptr_eq(&registry.get("myapp").unwrap(), &tunnel));
}

#[test]
fn protocol_constants() {
    assert_eq!(TUNNEL_WS_PATH, "/burrow");
    assert_eq!(DEFAULT_PORT, 8080);
    let header = StreamHeader { stream_id: StreamId::from_bytes([9; 16]) };
    assert_eq!(header.clone().stream_id, header.stream_id);
}
