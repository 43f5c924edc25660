//! What the server does with the requests that reach it: clients that register
//! a tunnel, and visitors that are forwarded through one.
use std::sync::Arc;

use hyper::header::HeaderValue;
use vstd::prelude::*;
use vstd::utf8::encode_utf8;

use crate::format::frame_fits;
use crate::frame::{
    can_encode_request, headers_view, FrameView, HeaderView, RequestView, ResponseView,
    TunnelRequest, TunnelResponse,
};
use crate::http::{headers_have_room, is_sendable, law_text_response_is_sendable};
use crate::protocol::TUNNEL_WS_PATH;
use crate::registry::{RegistryView, TunnelRegistry};
use crate::reply::{header, response, text_header, text_response};
use crate::stream_id::StreamId;
use crate::subdomain::{extract_subdomain, subdomain_of};
use crate::text::{ascii_chars, ascii_lowercase, eq_ignore_ascii_case, joined, str_eq};
use crate::tunnel::Tunnel;
use crate::tunnel_laws::law_switching_response_is_sendable;

verus! {

/// The largest body of a visitor's request, in bytes.
pub const MAX_BODY_LEN: usize = 10 * 1024 * 1024;

/// How long a visitor waits for the tunnel's client, in seconds.
pub const VISITOR_TIMEOUT_SECS: u64 = 30;

/// All of a request but its body.
pub struct RequestHead {
    pub method: String,
    pub uri: String,
    /// The path in the URI.
    pub path: String,
    pub headers: Vec<(String, Vec<u8>)>,
}

/// What a [`RequestHead`] denotes.
#[verifier::ext_equal]
pub struct RequestHeadView {
    pub method: Seq<char>,
    pub uri: Seq<char>,
    pub path: Seq<char>,
    pub headers: Seq<HeaderView>,
}

impl View for RequestHead {
    type V = RequestHeadView;

    open spec fn view(&self) -> RequestHeadView {
        RequestHeadView {
            method: self.method@,
            uri: self.uri@,
            path: self.path@,
            headers: headers_view(self.headers@),
        }
    }
}

/// The first value of a header. The case of its name does not matter.
pub open spec fn header_value(headers: Seq<HeaderView>, name: Seq<char>) -> Option<Seq<u8>>
    decreases headers.len(),
{
    if headers.len() == 0 {
        None
    } else if ascii_lowercase(headers[0].0) == ascii_lowercase(name) {
        Some(headers[0].1)
    } else {
        header_value(headers.drop_first(), name)
    }
}

/// Visible ASCII characters and tabs.
pub open spec fn is_visible(value: Seq<u8>) -> bool {
    forall|i: int|
        0 <= i < value.len() ==> (#[trigger] value[i] == 9 || (32 <= value[i] && value[i] < 127))
}

/// The first value of a header as text, where it is nothing but visible ASCII
/// characters and tabs.
pub open spec fn header_text(headers: Seq<HeaderView>, name: Seq<char>) -> Option<Seq<char>> {
    match header_value(headers, name) {
        Some(value) if is_visible(value) => Some(ascii_chars(value)),
        _ => None,
    }
}

/// `HeaderValue::to_str`, on the value with the given bytes: the text, if the
/// bytes are visible ASCII characters and tabs. Bytes that make up no header
/// value at all are not.
#[verifier::external_body]
fn visible_text(value: &[u8]) -> (text: Option<String>)
    ensures
        text is Some <==> is_visible(value@),
        text matches Some(t) ==> t@ == ascii_chars(value@),
{
    match HeaderValue::from_bytes(value) {
        Ok(value) => value.to_str().ok().map(str::to_string),
        Err(_) => None,
    }
}

/// Looks up the first value of a header.
fn find_header<'a>(headers: &'a Vec<(String, Vec<u8>)>, name: &str) -> (value: Option<&'a Vec<u8>>)
    ensures
        match value {
            Some(v) => header_value(headers_view(headers@), name@) == Some(v@),
            None => header_value(headers_view(headers@), name@) is None,
        },
{
    let ghost all = headers_view(headers@);
    let mut i: usize = 0;
    assert(all.skip(0) =~= all);
    while i < headers.len()
        invariant
            i <= headers@.len(),
            all == headers_view(headers@),
            header_value(all, name@) == header_value(all.skip(i as int), name@),
        decreases headers@.len() - i,
    {
        proof {
            assert(all.skip(i as int)[0] == all[i as int]);
            assert(all.skip(i as int).drop_first() =~= all.skip(i + 1));
        }
        if eq_ignore_ascii_case(headers[i].0.as_str(), name) {
            return Some(&headers[i].1);
        }
        i += 1;
    }
    None
}

/// Looks up the first value of a header, as text.
fn find_header_text(headers: &Vec<(String, Vec<u8>)>, name: &str) -> (text: Option<String>)
    ensures
        match text {
            Some(t) => header_text(headers_view(headers@), name@) == Some(t@),
            None => header_text(headers_view(headers@), name@) is None,
        },
{
    match find_header(headers, name) {
        Some(value) => visible_text(value.as_slice()),
        None => None,
    }
}

/// Whether the headers ask for an upgrade to a WebSocket.
pub open spec fn asks_for_websocket(headers: Seq<HeaderView>) -> bool {
    match header_text(headers, "upgrade"@) {
        Some(value) => ascii_lowercase(value) == ascii_lowercase("websocket"@),
        None => false,
    }
}

/// Whether the headers ask for an upgrade to a WebSocket.
pub fn is_websocket_upgrade(headers: &Vec<(String, Vec<u8>)>) -> (upgrade: bool)
    ensures
        upgrade == asks_for_websocket(headers_view(headers@)),
{
    match find_header_text(headers, "upgrade") {
        Some(value) => eq_ignore_ascii_case(value.as_str(), "websocket"),
        None => false,
    }
}

/// Where a request goes.
pub enum Route<T> {
    /// A client that registers a tunnel.
    Upgrade,
    /// To no tunnel: this is the reply.
    Reply(TunnelResponse),
    /// Through a tunnel.
    Forward(Arc<T>),
}

/// What a [`Route`] denotes.
#[verifier::ext_equal]
#[verifier::reject_recursive_types(T)]
pub enum RouteView<T> {
    Upgrade,
    Reply(ResponseView),
    Forward(Arc<T>),
}

impl<T> View for Route<T> {
    type V = RouteView<T>;

    open spec fn view(&self) -> RouteView<T> {
        match self {
            Route::Upgrade => RouteView::Upgrade,
            Route::Reply(reply) => RouteView::Reply(reply@),
            Route::Forward(tunnel) => RouteView::Forward(*tunnel),
        }
    }
}

/// The host that a request is for; the empty string where the request does not
/// say it in text.
pub open spec fn requested_host(headers: Seq<HeaderView>) -> Seq<char> {
    match header_text(headers, "host"@) {
        Some(host) => host,
        None => Seq::empty(),
    }
}

/// Where a request goes: clients that ask for a WebSocket at the registration
/// path register a tunnel, everybody else is forwarded by subdomain.
pub open spec fn route<T>(
    head: RequestHeadView,
    registry: RegistryView<T>,
    domain: Seq<char>,
) -> RouteView<T> {
    if head.path == TUNNEL_WS_PATH@ && asks_for_websocket(head.headers) {
        RouteView::Upgrade
    } else {
        match subdomain_of(requested_host(head.headers), domain) {
            None => RouteView::Reply(text_response(404, "no tunnel found"@)),
            Some(subdomain) => match registry.lookup(subdomain) {
                None => RouteView::Reply(
                    text_response(404, "tunnel '"@ + subdomain + "' not found"@),
                ),
                Some(tunnel) => RouteView::Forward(tunnel),
            },
        }
    }
}

/// Decides where a request goes.
pub fn handle_request<T>(head: &RequestHead, registry: &TunnelRegistry<T>, domain: &str) -> (to:
    Route<T>)
    ensures
        to@ == route(head@, registry@, domain@),
{
    let host = match find_header_text(&head.headers, "host") {
        Some(host) => host,
        None => String::new(),
    };
    if str_eq(head.path.as_str(), TUNNEL_WS_PATH) && is_websocket_upgrade(&head.headers) {
        return Route::Upgrade;
    }
    match extract_subdomain(host.as_str(), domain) {
        None => Route::Reply(response(404, "no tunnel found")),
        Some(subdomain) => match registry.get(subdomain.as_str()) {
            None => {
                let body = joined(
                    joined("tunnel '", subdomain.as_str()).as_str(),
                    "' not found",
                );
                Route::Reply(response(404, body.as_str()))
            },
            Some(tunnel) => Route::Forward(tunnel),
        },
    }
}

/// What reading the body of a visitor's request came to.
pub enum BodyRead {
    Complete(Vec<u8>),
    TooLarge,
    Failed,
}

/// The request that is sent through the tunnel, or the reply where the body is
/// too large or could not be read.
pub open spec fn collected(head: RequestHeadView, body: BodyRead) -> Result<
    RequestView,
    ResponseView,
> {
    match body {
        BodyRead::Complete(bytes) => {
            let request = RequestView {
                method: head.method,
                uri: head.uri,
                headers: head.headers,
                body: bytes@,
            };
            if bytes@.len() <= MAX_BODY_LEN && frame_fits(FrameView::Request(request)) {
                Ok(request)
            } else {
                Err(text_response(413, "request body too large"@))
            }
        },
        BodyRead::TooLarge => Err(text_response(413, "request body too large"@)),
        BodyRead::Failed => Err(text_response(400, "failed to read request body"@)),
    }
}

/// Collects a visitor's request.
pub fn collect_request(head: RequestHead, body: BodyRead) -> (result: Result<
    TunnelRequest,
    TunnelResponse,
>)
    ensures
        match result {
            Ok(request) => collected(head@, body) == Ok::<_, ResponseView>(request@) && frame_fits(
                FrameView::Request(request@),
            ),
            Err(reply) => collected(head@, body) == Err::<RequestView, _>(reply@),
        },
{
    match body {
        BodyRead::Complete(bytes) => {
            if bytes.len() > MAX_BODY_LEN {
                return Err(response(413, "request body too large"));
            }
            let request = TunnelRequest {
                method: head.method,
                uri: head.uri,
                headers: head.headers,
                body: bytes,
            };
            if can_encode_request(&request) {
                Ok(request)
            } else {
                Err(response(413, "request body too large"))
            }
        },
        BodyRead::TooLarge => Err(response(413, "request body too large")),
        BodyRead::Failed => Err(response(400, "failed to read request body")),
    }
}

/// How a visitor's wait ended.
pub enum VisitorOutcome {
    /// The request could not be sent to the client.
    SendFailed,
    /// The client answered.
    Answered(TunnelResponse),
    /// The tunnel is gone.
    Dropped,
    /// The client did not answer in time.
    TimedOut,
}

/// The visitor's response.
pub open spec fn visitor_response(outcome: VisitorOutcome) -> ResponseView {
    match outcome {
        VisitorOutcome::SendFailed => text_response(502, "tunnel client unreachable"@),
        VisitorOutcome::Answered(reply) => reply@,
        VisitorOutcome::Dropped => text_response(502, "tunnel client disconnected"@),
        VisitorOutcome::TimedOut => text_response(504, "tunnel client timed out"@),
    }
}

/// Ends a visitor's wait. After a timeout nobody waits under the stream id.
pub fn finish_visit<S, W>(
    tunnel: &mut Tunnel<S, W>,
    stream_id: StreamId,
    outcome: VisitorOutcome,
) -> (reply: TunnelResponse)
    ensures
        reply@ == visitor_response(outcome),
        final(tunnel)@ == if outcome is TimedOut {
            old(tunnel)@.cancelled(stream_id)
        } else {
            old(tunnel)@
        },
{
    match outcome {
        VisitorOutcome::SendFailed => response(502, "tunnel client unreachable"),
        VisitorOutcome::Answered(reply) => reply,
        VisitorOutcome::Dropped => response(502, "tunnel client disconnected"),
        VisitorOutcome::TimedOut => {
            tunnel.cancel_pending(&stream_id);
            response(504, "tunnel client timed out")
        },
    }
}

/// Why a request cannot be upgraded to a WebSocket.
#[derive(Debug, Clone, Copy, PartialEq, Eq, Structural)]
pub enum UpgradeError {
    /// There is no Sec-WebSocket-Key header.
    MissingKey,
    /// The key is not text.
    InvalidKey,
}

impl UpgradeError {
    /// The error in words.
    pub open spec fn text(self) -> Seq<char> {
        match self {
            UpgradeError::MissingKey => "missing Sec-WebSocket-Key header"@,
            UpgradeError::InvalidKey => "failed to convert header to a str"@,
        }
    }

    /// The error in words.
    pub fn message(&self) -> (message: String)
        ensures
            message@ == self.text(),
    {
        match self {
            UpgradeError::MissingKey => "missing Sec-WebSocket-Key header".to_owned(),
            UpgradeError::InvalidKey => "failed to convert header to a str".to_owned(),
        }
    }
}

/// The value that proves to a client that its WebSocket key was read.
pub uninterp spec fn accept_key(key: Seq<u8>) -> Seq<char>;

/// A character of the Base64 alphabet, or its padding.
pub open spec fn is_base64_char(c: char) -> bool {
    ||| ('0' <= c && c <= '9')
    ||| ('a' <= c && c <= 'z')
    ||| ('A' <= c && c <= 'Z')
    ||| c == '+'
    ||| c == '/'
    ||| c == '='
}

/// `tungstenite::handshake::derive_accept_key`: a hash of the key, in Base64.
/// The hash has only a name.
#[verifier::external_body]
fn derive_accept_key(key: &[u8]) -> (accept: String)
    ensures
        accept@ == accept_key(key@),
        forall|i: int| 0 <= i < accept@.len() ==> is_base64_char(#[trigger] accept@[i]),
{
    tungstenite::handshake::derive_accept_key(key)
}

/// The reply that switches to a WebSocket.
pub open spec fn switching_response(accept: Seq<char>) -> ResponseView {
    ResponseView {
        status: 101,
        headers: seq![
            text_header("upgrade"@, "websocket"@),
            text_header("connection"@, "Upgrade"@),
            text_header("sec-websocket-accept"@, accept),
        ],
        body: Seq::empty(),
    }
}

/// The reply to a request for a WebSocket.
pub open spec fn upgraded(headers: Seq<HeaderView>) -> Result<ResponseView, UpgradeError> {
    match header_value(headers, "sec-websocket-key"@) {
        None => Err(UpgradeError::MissingKey),
        Some(key) => if is_visible(key) {
            Ok(switching_response(accept_key(key)))
        } else {
            Err(UpgradeError::InvalidKey)
        },
    }
}

/// Builds the reply that switches to a WebSocket.
pub fn switching(accept: &str) -> (reply: TunnelResponse)
    ensures
        reply@ == switching_response(accept@),
{
    let mut headers: Vec<(String, Vec<u8>)> = Vec::new();
    headers.push(header("upgrade", "websocket"));
    headers.push(header("connection", "Upgrade"));
    headers.push(header("sec-websocket-accept", accept));
    let reply = TunnelResponse { status: 101, headers, body: Vec::new() };
    assert(headers_view(headers@) =~= switching_response(accept@).headers);
    assert(reply@ =~= switching_response(accept@));
    reply
}

/// Answers a request for a WebSocket. The reply can be sent as it is, whatever
/// the key was.
pub fn websocket_upgrade(headers: &Vec<(String, Vec<u8>)>) -> (result: Result<
    TunnelResponse,
    UpgradeError,
>)
    ensures
        match result {
            Ok(reply) => {
                &&& upgraded(headers_view(headers@)) == Ok::<_, UpgradeError>(reply@)
                &&& is_sendable(reply@)
                &&& headers_have_room(reply@.headers)
            },
            Err(e) => upgraded(headers_view(headers@)) == Err::<ResponseView, _>(e),
        },
{
    match find_header(headers, "sec-websocket-key") {
        None => Err(UpgradeError::MissingKey),
        Some(value) => match visible_text(value.as_slice()) {
            None => Err(UpgradeError::InvalidKey),
            Some(key) => {
                proof {
                    lemma_visible_text_bytes(value@);
                }
                let accept = derive_accept_key(key.as_str().as_bytes());
                proof {
                    law_switching_response_is_sendable(accept@);
                }
                Ok(switching(accept.as_str()))
            },
        },
    }
}

/// Visible text has the bytes that it was read from.
proof fn lemma_visible_text_bytes(value: Seq<u8>)
    requires
        is_visible(value),
    ensures
        encode_utf8(ascii_chars(value)) == value,
{
    let chars = ascii_chars(value);
    vstd::utf8::is_ascii_chars_encode_utf8(chars);
    assert(encode_utf8(chars) =~= value);
}

/// What a client that registers a tunnel is sent, and why its connection does not
/// become a WebSocket, if it does not.
pub struct UpgradeReply {
    pub reply: TunnelResponse,
    pub refusal: Option<UpgradeError>,
}

/// Handles a client that registers a tunnel. The reply can be sent as it is.
pub fn handle_tunnel_upgrade(headers: &Vec<(String, Vec<u8>)>) -> (outcome: UpgradeReply)
    ensures
        match upgraded(headers_view(headers@)) {
            Ok(reply) => outcome.refusal is None && outcome.reply@ == reply,
            Err(e) => outcome.refusal == Some(e) && outcome.reply@ == text_response(
                400,
                "WebSocket upgrade failed"@,
            ),
        },
        is_sendable(outcome.reply@),
        headers_have_room(outcome.reply@.headers),
{
    proof {
        law_text_response_is_sendable(400, "WebSocket upgrade failed"@);
    }
    match websocket_upgrade(headers) {
        Ok(reply) => UpgradeReply { reply, refusal: None },
        Err(e) => UpgradeReply {
            reply: response(400, "WebSocket upgrade failed"),
            refusal: Some(e),
        },
    }
}

} // verus!
