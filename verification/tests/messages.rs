use burrow::frame::{TunnelRequest, TunnelResponse};
use burrow::http::{http_response, local_request, ProxyError, MAX_HEADER_NAME_LEN, ROOMY_TABLE};
use burrow::reply::response;
use burrow::server::{handle_tunnel_upgrade, switching};
use bytes::Bytes;
use http_body_util::Full;
use hyper::{Method, Response, StatusCode};

fn headers(entries: &[(&str, &[u8])]) -> Vec<(String, Vec<u8>)> {
    entries.iter().map(|(name, value)| (name.to_string(), value.to_vec())).collect()
}

fn request(method: &str, uri: &str, entries: &[(&str, &[u8])]) -> TunnelRequest {
    TunnelRequest {
        method: method.to_string(),
        uri: uri.to_string(),
        headers: headers(entries),
        body: b"payload".to_vec(),
    }
}

fn reply(status: u16, entries: &[(&str, &[u8])]) -> TunnelResponse {
    TunnelResponse { status, headers: headers(entries), body: b"content".to_vec() }
}

fn body_of(body: Full<Bytes>) -> Vec<u8> {
    body.into_inner().map(|bytes| bytes.to_vec()).unwrap_or_default()
}

fn many_headers(count: usize) -> Vec<(String, Vec<u8>)> {
    (0..count).map(|i| (format!("x-{i}"), vec![b'v'])).collect()
}

#[test]
fn a_request_is_built_as_it_came() {
    let built = local_request(&request(
        "PATCH",
        "/path?q=1",
        &[("Accept", b"a"), ("X-Tag", b"\xff\t"), ("accept", b"b")],
    ))
    .unwrap();
    assert_eq!(built.method(), Method::PATCH);
    assert_eq!(built.uri().to_string(), "/path?q=1");
    let values: Vec<&[u8]> =
        built.headers().get_all("accept").iter().map(|v| v.as_bytes()).collect();
    assert_eq!(values, vec![b"a".as_slice(), b"b".as_slice()]);
    assert_eq!(built.headers().get("x-tag").unwrap().as_bytes(), b"\xff\t");
    assert_eq!(built.headers().len(), 3);
    assert_eq!(body_of(built.into_body()), b"payload");
}

#[test]
fn an_empty_body_stays_empty() {
    let mut plain = request("GET", "/", &[]);
    plain.body = vec![];
    let built = local_request(&plain).unwrap();
    assert!(built.headers().is_empty());
    assert!(body_of(built.into_body()).is_empty());
}

#[test]
fn methods_are_tokens() {
    for method in ["GET", "purge", "X-!#$%&'*+.^_`|~09", "AVERYLONGMETHODNAMEBEYONDFIFTEEN"] {
        let built = local_request(&request(method, "/", &[])).unwrap();
        assert_eq!(built.method().as_str(), method);
    }
    for method in ["", "GE T", "G(", "G\u{e9}T", "G\"", "G/", "G@", "G{"] {
        assert_eq!(
            local_request(&request(method, "/", &[])).unwrap_err(),
            ProxyError::InvalidMethod
        );
    }
}

#[test]
fn what_is_no_request_is_not_built() {
    let refused = [
        request("GET", "", &[]),
        request("GET", "/a b", &[]),
        request("GET", "/", &[("", b"v")]),
        request("GET", "/", &[("bad name", b"v")]),
        request("GET", "/", &[("n\u{e9}", b"v")]),
        request("GET", "/", &[("name", b"line\nbreak")]),
        request("GET", "/", &[("name", b"\x7f")]),
        request("GET", "/", &[("good", b"v"), ("name", b"\x00"), ("good", b"v")]),
    ];
    for bad in refused {
        assert_eq!(local_request(&bad).unwrap_err(), ProxyError::BuildFailed);
    }
    assert_eq!(
        local_request(&request("G T", "/a b", &[])).unwrap_err(),
        ProxyError::InvalidMethod
    );
}

#[test]
fn header_names_have_a_longest_length() {
    let longest = "a".repeat(MAX_HEADER_NAME_LEN);
    assert!(local_request(&request("GET", "/", &[(longest.as_str(), b"v")])).is_ok());
    let longer = "a".repeat(MAX_HEADER_NAME_LEN + 1);
    assert_eq!(
        local_request(&request("GET", "/", &[(longer.as_str(), b"v")])).unwrap_err(),
        ProxyError::BuildFailed
    );
}

#[test]
fn many_headers_have_room() {
    let mut crowded = request("GET", "/", &[]);
    crowded.headers = many_headers(ROOMY_TABLE + 1);
    let built = local_request(&crowded).unwrap();
    assert_eq!(built.headers().len(), ROOMY_TABLE + 1);
    crowded.headers = many_headers(40_000);
    assert_eq!(local_request(&crowded).unwrap_err(), ProxyError::BuildFailed);
}

#[test]
fn a_response_is_built_as_it_came() {
    let built: Response<Full<Bytes>> =
        http_response(&reply(207, &[("Set-Cookie", b"a=1"), ("set-cookie", b"b=2")]));
    assert_eq!(built.status(), StatusCode::MULTI_STATUS);
    let values: Vec<&[u8]> =
        built.headers().get_all("set-cookie").iter().map(|v| v.as_bytes()).collect();
    assert_eq!(values, vec![b"a=1".as_slice(), b"b=2".as_slice()]);
    assert_eq!(body_of(built.into_body()), b"content");
}

#[test]
fn statuses_have_three_digits() {
    for status in [100u16, 200, 599, 999] {
        assert_eq!(http_response(&reply(status, &[])).status().as_u16(), status);
    }
    for status in [0u16, 99, 1000, 65535] {
        let built = http_response(&reply(status, &[]));
        assert_eq!(built.status(), StatusCode::BAD_GATEWAY);
        assert_eq!(built.headers().get("content-type").unwrap().as_bytes(), b"text/plain");
        assert_eq!(body_of(built.into_body()), b"invalid response from tunnel client");
    }
}

#[test]
fn what_is_no_response_becomes_a_502() {
    for bad in [reply(200, &[("bad name", b"v")]), reply(200, &[("name", b"a\r\nb")])] {
        assert_eq!(http_response(&bad).status(), StatusCode::BAD_GATEWAY);
    }
    let mut crowded = reply(200, &[]);
    crowded.headers = many_headers(40_000);
    assert_eq!(http_response(&crowded).status(), StatusCode::BAD_GATEWAY);
    crowded.headers = many_headers(ROOMY_TABLE + 1);
    assert_eq!(http_response(&crowded).status(), StatusCode::OK);
}

#[test]
fn text_replies_can_be_sent() {
    let built = http_response(&response(404, "no tunnel found"));
    assert_eq!(built.status(), StatusCode::NOT_FOUND);
    assert_eq!(built.headers().get("content-type").unwrap().as_bytes(), b"text/plain");
    assert_eq!(body_of(built.into_body()), b"no tunnel found");
}

#[test]
fn the_switching_reply_can_be_sent() {
    let asked = headers(&[("sec-websocket-key", b"any key at all")]);
    let built = http_response(&handle_tunnel_upgrade(&asked).reply);
    assert_eq!(built.status(), StatusCode::SWITCHING_PROTOCOLS);
    assert_eq!(built.headers().get("sec-websocket-accept").unwrap().len(), 28);
    let built = http_response(&switching("s3pPLMBiTxaQ9kYGzzhZRbK+xOo="));
    assert_eq!(built.status(), StatusCode::SWITCHING_PROTOCOLS);
    assert_eq!(built.headers().get("upgrade").unwrap().as_bytes(), b"websocket");
    assert_eq!(built.headers().get("connection").unwrap().as_bytes(), b"Upgrade");
}
