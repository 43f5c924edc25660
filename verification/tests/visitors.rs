use std::sync::{Arc, Mutex};

use burrow::frame::{TunnelRequest, TunnelResponse};
use burrow::registry::TunnelRegistry;
use burrow::reply::response;
use burrow::server::{
    collect_request, finish_visit, handle_request, handle_tunnel_upgrade, is_websocket_upgrade,
    switching, websocket_upgrade, BodyRead, RequestHead, Route, UpgradeError, VisitorOutcome,
    MAX_BODY_LEN, VISITOR_TIMEOUT_SECS,
};
use burrow::stream_id::StreamId;
use burrow::tunnel::Tunnel;

type TestTunnel = Tunnel<u8, u8>;
type TestRegistry = TunnelRegistry<Mutex<TestTunnel>>;

fn headers(entries: &[(&str, &[u8])]) -> Vec<(String, Vec<u8>)> {
    entries.iter().map(|(name, value)| (name.to_string(), value.to_vec())).collect()
}

fn head(path: &str, entries: &[(&str, &[u8])]) -> RequestHead {
    RequestHead {
        method: "GET".to_string(),
        uri: format!("{path}?x=1"),
        path: path.to_string(),
        headers: headers(entries),
    }
}

fn registry() -> (TestRegistry, Arc<Mutex<TestTunnel>>) {
    let mut registry: TestRegistry = TunnelRegistry::new("example.com".to_string(), None);
    let (_, _, tunnel) =
        registry.register(7u8, Some("myapp".to_string()), Mutex::<TestTunnel>::new).unwrap();
    (registry, tunnel)
}

fn routed(path: &str, entries: &[(&str, &[u8])]) -> Route<Mutex<TestTunnel>> {
    let (registry, _) = registry();
    handle_request(&head(path, entries), &registry, "example.com")
}

fn not_found(path: &str, entries: &[(&str, &[u8])]) -> String {
    let Route::Reply(reply) = routed(path, entries) else {
        panic!("expected a reply");
    };
    assert_eq!(reply.status, 404);
    assert_eq!(reply.headers, headers(&[("content-type", b"text/plain")]));
    String::from_utf8(reply.body).unwrap()
}

#[test]
fn visitors_are_forwarded_by_subdomain() {
    let (registry, tunnel) = registry();
    for host in ["myapp.example.com", "MYAPP.example.com", "myapp.example.com:8080"] {
        let head = head("/", &[("host", host.as_bytes())]);
        let Route::Forward(found) = handle_request(&head, &registry, "example.com") else {
            panic!("expected to be forwarded");
        };
        assert!(Arc::ptr_eq(&found, &tunnel));
    }
}

#[test]
fn unknown_hosts_are_not_found() {
    assert_eq!(not_found("/", &[("host", b"example.com")]), "no tunnel found");
    assert_eq!(not_found("/", &[("host", b"other.org")]), "no tunnel found");
    assert_eq!(not_found("/", &[]), "no tunnel found");
    assert_eq!(not_found("/", &[("host", b"myapp\xff.example.com")]), "no tunnel found");
    assert_eq!(
        not_found("/", &[("host", b"Nope.example.com:80")]),
        "tunnel 'nope' not found"
    );
}

#[test]
fn the_case_of_header_names_does_not_matter() {
    assert!(matches!(routed("/", &[("Host", b"myapp.example.com")]), Route::Forward(_)));
    assert!(matches!(routed("/burrow", &[("UPGRADE", b"websocket")]), Route::Upgrade));
    let key = headers(&[("Sec-WebSocket-Key", b"dGhlIHNhbXBsZSBub25jZQ==")]);
    assert_eq!(
        websocket_upgrade(&key).unwrap().headers[2].1,
        b"s3pPLMBiTxaQ9kYGzzhZRbK+xOo=".to_vec()
    );
}

#[test]
fn the_first_host_counts() {
    assert_eq!(
        not_found("/", &[("host", b"a.example.com"), ("host", b"myapp.example.com")]),
        "tunnel 'a' not found"
    );
}

#[test]
fn clients_register_at_the_registration_path() {
    let upgrade: (&str, &[u8]) = ("upgrade", b"WebSocket");
    assert!(matches!(routed("/burrow", &[upgrade]), Route::Upgrade));
    assert!(matches!(
        routed("/burrow", &[("host", b"myapp.example.com"), upgrade]),
        Route::Upgrade
    ));
    assert!(matches!(
        routed("/other", &[("host", b"myapp.example.com"), upgrade]),
        Route::Forward(_)
    ));
    assert!(matches!(routed("/burrow", &[("host", b"myapp.example.com")]), Route::Forward(_)));
    assert_eq!(not_found("/burrow/", &[upgrade]), "no tunnel found");
}

#[test]
fn upgrades_are_recognised() {
    assert!(is_websocket_upgrade(&headers(&[("upgrade", b"websocket")])));
    assert!(is_websocket_upgrade(&headers(&[("upgrade", b"WEBSOCKET")])));
    assert!(is_websocket_upgrade(&headers(&[("Upgrade", b"websocket")])));
    assert!(!is_websocket_upgrade(&headers(&[("upgrade", b"h2c")])));
    assert!(!is_websocket_upgrade(&headers(&[("upgrade", b"websocket ")])));
    assert!(!is_websocket_upgrade(&headers(&[("upgrade", b"websocket\x00")])));
    assert!(!is_websocket_upgrade(&headers(&[("connection", b"websocket")])));
    assert!(!is_websocket_upgrade(&headers(&[])));
}

#[test]
fn the_accept_key_is_derived_from_the_key() {
    let sample = headers(&[("sec-websocket-key", b"dGhlIHNhbXBsZSBub25jZQ==")]);
    let reply = websocket_upgrade(&sample).unwrap();
    assert_eq!(reply.status, 101);
    assert_eq!(
        reply.headers,
        headers(&[
            ("upgrade", b"websocket"),
            ("connection", b"Upgrade"),
            ("sec-websocket-accept", b"s3pPLMBiTxaQ9kYGzzhZRbK+xOo="),
        ])
    );
    assert!(reply.body.is_empty());
}

#[test]
fn upgrades_without_a_key_fail() {
    assert_eq!(websocket_upgrade(&headers(&[])).unwrap_err(), UpgradeError::MissingKey);
    assert_eq!(
        websocket_upgrade(&headers(&[("sec-websocket-key", b"\xc3\xa9")])).unwrap_err(),
        UpgradeError::InvalidKey
    );
    assert_eq!(UpgradeError::MissingKey.message(), "missing Sec-WebSocket-Key header");
    assert_eq!(UpgradeError::InvalidKey.message(), "failed to convert header to a str");
    let outcome = handle_tunnel_upgrade(&headers(&[]));
    assert_eq!(outcome.refusal, Some(UpgradeError::MissingKey));
    assert_eq!(outcome.reply.status, 400);
    assert_eq!(outcome.reply.body, b"WebSocket upgrade failed");
    let outcome = handle_tunnel_upgrade(&headers(&[("sec-websocket-key", b"x")]));
    assert_eq!(outcome.refusal, None);
    assert_eq!(outcome.reply.status, 101);
}

#[test]
fn the_switching_reply_carries_the_accept_key() {
    let reply = switching("abc=");
    assert_eq!(reply.headers[2], ("sec-websocket-accept".to_string(), b"abc=".to_vec()));
}

#[test]
fn text_replies() {
    let reply = response(418, "t\u{e9}a");
    assert_eq!(reply.status, 418);
    assert_eq!(reply.headers, headers(&[("content-type", b"text/plain")]));
    assert_eq!(reply.body, "t\u{e9}a".as_bytes());
}

fn collected(body: BodyRead) -> Result<TunnelRequest, TunnelResponse> {
    collect_request(head("/p", &[("accept", b"*/*")]), body)
}

#[test]
fn requests_are_collected_unchanged() {
    let request = collected(BodyRead::Complete(b"data".to_vec())).unwrap();
    assert_eq!(request.method, "GET");
    assert_eq!(request.uri, "/p?x=1");
    assert_eq!(request.headers, headers(&[("accept", b"*/*")]));
    assert_eq!(request.body, b"data");
}

#[test]
fn large_bodies_are_refused() {
    assert_eq!(MAX_BODY_LEN, 10 * 1024 * 1024);
    assert!(collected(BodyRead::Complete(vec![0; MAX_BODY_LEN])).is_ok());
    for body in [BodyRead::Complete(vec![0; MAX_BODY_LEN + 1]), BodyRead::TooLarge] {
        let reply = collected(body).unwrap_err();
        assert_eq!(reply.status, 413);
        assert_eq!(reply.body, b"request body too large");
    }
}

#[test]
fn unreadable_bodies_are_refused() {
    let reply = collected(BodyRead::Failed).unwrap_err();
    assert_eq!(reply.status, 400);
    assert_eq!(reply.body, b"failed to read request body");
}

fn visit(outcome: VisitorOutcome) -> (TunnelResponse, bool) {
    let mut tunnel: TestTunnel = Tunnel::new("myapp".to_string(), 7);
    let id = StreamId::from_bytes([5; 16]);
    let request = collected(BodyRead::Complete(vec![])).unwrap();
    tunnel.open_connection(id, &request, 9);
    let reply = finish_visit(&mut tunnel, id, outcome);
    let waiting = tunnel.resolve_connection(id, response(200, "")).is_some();
    (reply, waiting)
}

#[test]
fn visitors_get_the_answer_of_the_client() {
    let (reply, _) = visit(VisitorOutcome::Answered(response(299, "fine")));
    assert_eq!(reply.status, 299);
    assert_eq!(reply.body, b"fine");
}

#[test]
fn visitors_time_out() {
    assert_eq!(VISITOR_TIMEOUT_SECS, 30);
    let (reply, waiting) = visit(VisitorOutcome::TimedOut);
    assert_eq!(reply.status, 504);
    assert_eq!(reply.body, b"tunnel client timed out");
    assert!(!waiting);
}

#[test]
fn visitors_of_a_lost_tunnel_get_a_502() {
    let (reply, waiting) = visit(VisitorOutcome::SendFailed);
    assert_eq!(reply.status, 502);
    assert_eq!(reply.body, b"tunnel client unreachable");
    assert!(waiting);
    let (reply, _) = visit(VisitorOutcome::Dropped);
    assert_eq!(reply.status, 502);
    assert_eq!(reply.body, b"tunnel client disconnected");
}
