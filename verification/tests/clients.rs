use burrow::client::{
    accept_frame, answer_frame, handshake, tunnel_loop, HandshakeError, HandshakeStep, LoopEvent,
    LoopStep, Reconnect, ReconnectAction, ReconnectEvent, ServerEvent, TunnelClient, TunnelHandle,
    BACKOFF_INITIAL, BACKOFF_MAX,
};
use burrow::frame::{
    decode_frame, encode, TunnelError, TunnelFrame, TunnelRequest, TunnelResponse,
};
use burrow::http::ProxyError;
use burrow::protocol::{ClientMessage, ServerMessage};
use burrow::stream_id::StreamId;

fn ws_url(server: &str) -> String {
    TunnelClient::new(server, 3000u16).ws_url()
}

#[test]
fn the_endpoint_is_below_the_server() {
    assert_eq!(ws_url("ws://localhost:8080"), "ws://localhost:8080/burrow");
    assert_eq!(ws_url("wss://tunnel.example.com/"), "wss://tunnel.example.com/burrow");
    assert_eq!(ws_url("wss://example.com/base//"), "wss://example.com/base/burrow");
    assert_eq!(ws_url(""), "/burrow");
}

#[test]
fn the_builder_keeps_what_it_is_given() {
    let client = TunnelClient::new("ws://a", 3000u16);
    let ClientMessage::Hello { token, requested_subdomain } = client.hello() else {
        panic!("expected Hello");
    };
    assert_eq!(token, None);
    assert_eq!(requested_subdomain, None);

    let client = client.token("my-secret-token").subdomain("preview-pr-42");
    let ClientMessage::Hello { token, requested_subdomain } = client.hello() else {
        panic!("expected Hello");
    };
    assert_eq!(token.as_deref(), Some("my-secret-token"));
    assert_eq!(requested_subdomain.as_deref(), Some("preview-pr-42"));
    assert_eq!(*client.local_addr(), 3000);
    assert_eq!(client.ws_url(), "ws://a/burrow");
}

#[test]
fn a_handle_knows_its_url() {
    let handle = TunnelHandle::new("https://a.example.com".to_string(), 5u8);
    assert_eq!(handle.url(), "https://a.example.com");
    assert_eq!(handle.into_keeper(), 5);
}

#[test]
fn the_handshake_ends_with_a_url() {
    let assigned = ServerMessage::Assigned {
        subdomain: "a".to_string(),
        url: "https://a.example.com".to_string(),
    };
    let HandshakeStep::Connected { url } = handshake(ServerEvent::Text(Ok(assigned))) else {
        panic!("expected to be connected");
    };
    assert_eq!(url, "https://a.example.com");
}

#[test]
fn the_handshake_waits() {
    let id = StreamId::from_bytes([1; 16]);
    let events = [
        ServerEvent::Text(Ok(ServerMessage::Heartbeat)),
        ServerEvent::Text(Ok(ServerMessage::NewConnection { stream_id: id })),
        ServerEvent::Binary(vec![1]),
        ServerEvent::Ping(vec![]),
        ServerEvent::Other,
    ];
    for event in events {
        assert!(matches!(handshake(event), HandshakeStep::Wait));
    }
}

fn failure(event: ServerEvent) -> String {
    let HandshakeStep::Fail(e) = handshake(event) else {
        panic!("expected a failure");
    };
    e.message()
}

#[test]
fn the_handshake_fails() {
    assert_eq!(failure(ServerEvent::Ended), "WebSocket closed before handshake completed");
    assert_eq!(failure(ServerEvent::Closed), "server closed connection during handshake");
    assert_eq!(
        failure(ServerEvent::ReadFailed("connection reset".to_string())),
        "WebSocket error during handshake"
    );
    assert!(matches!(
        handshake(ServerEvent::ReadFailed("connection reset".to_string())),
        HandshakeStep::Fail(HandshakeError::ReadFailed(cause)) if cause == "connection reset"
    ));
    let words = "expected value at line 1 column 1";
    assert_eq!(failure(ServerEvent::Text(Err(words.to_string()))), words);
    let error = ServerMessage::Error { message: "invalid or missing auth token".to_string() };
    assert_eq!(
        failure(ServerEvent::Text(Ok(error))),
        "server rejected tunnel: invalid or missing auth token"
    );
}

#[test]
fn the_loop_answers_heartbeats_and_pings() {
    let heartbeat = ServerEvent::Text(Ok(ServerMessage::Heartbeat));
    assert!(matches!(
        tunnel_loop(LoopEvent::Server(heartbeat)),
        LoopStep::Send(ClientMessage::Heartbeat)
    ));
    assert!(matches!(
        tunnel_loop(LoopEvent::Server(ServerEvent::Ping(vec![1, 2]))),
        LoopStep::Pong(data) if data == [1, 2]
    ));
    assert!(matches!(
        tunnel_loop(LoopEvent::Server(ServerEvent::Binary(vec![3]))),
        LoopStep::Proxy(data) if data == [3]
    ));
}

#[test]
fn the_loop_goes_on() {
    let id = StreamId::from_bytes([1; 16]);
    let messages = [
        ServerMessage::NewConnection { stream_id: id },
        ServerMessage::Error { message: "oops".to_string() },
        ServerMessage::Assigned { subdomain: "a".to_string(), url: "b".to_string() },
    ];
    for message in messages {
        let event = LoopEvent::Server(ServerEvent::Text(Ok(message)));
        assert!(matches!(tunnel_loop(event), LoopStep::Continue));
    }
    assert!(matches!(tunnel_loop(LoopEvent::Server(ServerEvent::Other)), LoopStep::Continue));
}

#[test]
fn the_loop_ends() {
    assert!(matches!(tunnel_loop(LoopEvent::Shutdown), LoopStep::CloseAndStop));
    assert!(matches!(tunnel_loop(LoopEvent::Server(ServerEvent::Ended)), LoopStep::Stop));
    assert!(matches!(tunnel_loop(LoopEvent::Server(ServerEvent::Closed)), LoopStep::Stop));
    let reset = ServerEvent::ReadFailed("connection reset".to_string());
    assert!(matches!(
        tunnel_loop(LoopEvent::Server(reset)),
        LoopStep::Fail(words) if words == "connection reset"
    ));
    let garbled = ServerEvent::Text(Err("expected value".to_string()));
    assert!(matches!(
        tunnel_loop(LoopEvent::Server(garbled)),
        LoopStep::Fail(words) if words == "expected value"
    ));
}

#[test]
fn only_request_frames_are_accepted() {
    let id = StreamId::from_bytes([4; 16]);
    let request = TunnelRequest {
        method: "GET".to_string(),
        uri: "/".to_string(),
        headers: vec![],
        body: vec![],
    };
    let data = encode(id, &TunnelFrame::Request(request));
    let (accepted, request) = accept_frame(&data).unwrap();
    assert_eq!(accepted, id);
    assert_eq!(request.uri, "/");
    let error = TunnelFrame::Error(TunnelError { message: "x".to_string() });
    assert!(accept_frame(&encode(id, &error)).is_none());
    assert!(accept_frame(&data[..data.len() - 1]).is_none());
    assert!(accept_frame(b"").is_none());
}

#[test]
fn responses_are_sent_back() {
    let id = StreamId::from_bytes([4; 16]);
    let reply = TunnelResponse { status: 204, headers: vec![], body: vec![] };
    let (answered, frame) = decode_frame(&answer_frame(id, Ok(reply)).unwrap()).unwrap();
    assert_eq!(answered, id);
    assert!(matches!(frame, TunnelFrame::Response(r) if r.status == 204));
}

#[test]
fn failures_are_sent_back_in_words() {
    let id = StreamId::from_bytes([4; 16]);
    let expected = [
        (ProxyError::ConnectFailed, "failed to connect to local service"),
        (ProxyError::HandshakeFailed, "HTTP handshake with local service failed"),
        (ProxyError::InvalidMethod, "invalid HTTP method"),
        (ProxyError::BuildFailed, "failed to build request"),
        (ProxyError::RequestFailed, "local service request failed"),
        (ProxyError::BodyFailed, "failed to read local response body"),
    ];
    for (error, words) in expected {
        assert_eq!(error.message(), words);
        let (_, frame) = decode_frame(&answer_frame(id, Err(error)).unwrap()).unwrap();
        assert!(matches!(frame, TunnelFrame::Error(e) if e.message == words));
    }
}

#[test]
fn delays_double_up_to_a_minute() {
    assert_eq!(BACKOFF_INITIAL, 1);
    assert_eq!(BACKOFF_MAX, 60);
    let mut state = Reconnect::new();
    assert_eq!(
        state.run_with_reconnect(ReconnectEvent::LoopEnded { shutdown: false }),
        ReconnectAction::Wait(1)
    );
    for delay in [2, 4, 8, 16, 32, 60, 60, 60] {
        assert_eq!(
            state.run_with_reconnect(ReconnectEvent::Waited { shutdown: false }),
            ReconnectAction::Connect
        );
        assert_eq!(
            state.run_with_reconnect(ReconnectEvent::ConnectFailed),
            ReconnectAction::Wait(delay)
        );
    }
}

#[test]
fn a_connection_resets_the_delay() {
    let mut state = Reconnect::new();
    for _ in 0..5 {
        state.run_with_reconnect(ReconnectEvent::ConnectFailed);
    }
    assert_eq!(
        state.run_with_reconnect(ReconnectEvent::Connected),
        ReconnectAction::RunLoop
    );
    assert_eq!(
        state.run_with_reconnect(ReconnectEvent::LoopEnded { shutdown: false }),
        ReconnectAction::Wait(2)
    );
}

#[test]
fn a_shutdown_ends_reconnection() {
    let events = [
        ReconnectEvent::LoopEnded { shutdown: true },
        ReconnectEvent::Interrupted,
        ReconnectEvent::Waited { shutdown: true },
    ];
    for event in events {
        assert_eq!(Reconnect::new().run_with_reconnect(event), ReconnectAction::Stop);
    }
}
