//! Requests and responses of the `hyper` crate, made from those that a tunnel
//! carries.
use bytes::Bytes;
use http_body_util::Full;
use hyper::http::request::Builder as RequestBuilder;
use hyper::http::response::Builder as ResponseBuilder;
use vstd::prelude::*;
use vstd::slice::slice_to_vec;
use vstd::utf8::{encode_utf8, is_ascii_chars, is_ascii_chars_encode_utf8};

use crate::frame::{headers_view, HeaderView, ResponseView, TunnelRequest, TunnelResponse};
use crate::reply::{response, text_response};
use crate::text::ascii_lowercase;

verus! {

/// A builder of requests.
#[verifier::external_type_specification]
#[verifier::external_body]
pub struct ExRequestBuilder(RequestBuilder);

/// A builder of responses.
#[verifier::external_type_specification]
#[verifier::external_body]
pub struct ExResponseBuilder(ResponseBuilder);

/// An HTTP request.
#[verifier::external_type_specification]
#[verifier::external_body]
#[verifier::reject_recursive_types(T)]
pub struct ExRequest<T>(hyper::Request<T>);

/// An HTTP response.
#[verifier::external_type_specification]
#[verifier::external_body]
#[verifier::reject_recursive_types(T)]
pub struct ExResponse<T>(hyper::Response<T>);

/// A body of one piece.
#[verifier::external_type_specification]
#[verifier::external_body]
#[verifier::reject_recursive_types(D)]
pub struct ExFull<D>(Full<D>);

/// A piece of memory with bytes in it.
#[verifier::external_type_specification]
#[verifier::external_body]
pub struct ExBytes(Bytes);

/// Why a builder could not build.
#[verifier::external_type_specification]
#[verifier::external_body]
pub struct ExHttpError(hyper::http::Error);

/// Headers by name, in lower case, each with its values in order.
pub type HeaderTable = Map<Seq<char>, Seq<Seq<u8>>>;

/// All of a request but its body.
#[verifier::ext_equal]
pub struct RequestParts {
    pub method: Seq<char>,
    pub uri: Seq<char>,
    pub headers: HeaderTable,
}

/// All of a response but its body.
#[verifier::ext_equal]
pub struct ResponseParts {
    pub status: u16,
    pub headers: HeaderTable,
}

/// What a request builder holds; nothing after a part that it refused.
pub uninterp spec fn drafted_request(builder: RequestBuilder) -> Option<
    RequestParts,
>;

/// What a response builder holds; nothing after a part that it refused.
pub uninterp spec fn drafted_response(builder: ResponseBuilder) -> Option<
    ResponseParts,
>;

/// What a request holds: its parts and its body.
pub uninterp spec fn request_content(request: hyper::Request<Full<Bytes>>) -> (
    RequestParts,
    Seq<u8>,
);

/// What a response holds: its parts and its body.
pub uninterp spec fn response_content(response: hyper::Response<Full<Bytes>>) -> (
    ResponseParts,
    Seq<u8>,
);

/// The text of the URI that a text is parsed into; none for a text that is no
/// URI.
pub uninterp spec fn parsed_uri(text: Seq<char>) -> Option<Seq<char>>;

/// A character of a token: a visible ASCII character that is no delimiter.
pub open spec fn is_token_char(c: char) -> bool {
    ||| ('0' <= c && c <= '9')
    ||| ('a' <= c && c <= 'z')
    ||| ('A' <= c && c <= 'Z')
    ||| c == '!'
    ||| ('#' <= c && c <= '\'')
    ||| c == '*'
    ||| c == '+'
    ||| c == '-'
    ||| c == '.'
    ||| ('^' <= c && c <= '`')
    ||| c == '|'
    ||| c == '~'
}

/// A token: the form of a method and of the name of a header.
pub open spec fn is_token(text: Seq<char>) -> bool {
    &&& text.len() > 0
    &&& forall|i: int| 0 <= i < text.len() ==> is_token_char(#[trigger] text[i])
}

/// The length up to which a token can be the name of a header.
pub const MAX_HEADER_NAME_LEN: usize = 65535;

/// The name of a header.
pub open spec fn is_header_name(text: Seq<char>) -> bool {
    is_token(text) && text.len() <= MAX_HEADER_NAME_LEN
}

/// The value of a header: no control characters but tabs.
pub open spec fn is_header_value(value: Seq<u8>) -> bool {
    forall|i: int|
        0 <= i < value.len() ==> (#[trigger] value[i] == 9 || (value[i] >= 32 && value[i] != 127))
}

/// A header that a request or a response can have.
pub open spec fn is_header(header: HeaderView) -> bool {
    is_header_name(header.0) && is_header_value(header.1)
}

/// Headers that a request or a response can have.
pub open spec fn are_headers(headers: Seq<HeaderView>) -> bool {
    forall|i: int| 0 <= i < headers.len() ==> is_header(#[trigger] headers[i])
}

/// The number of different names up to which a further header certainly has
/// room. The table doubles its slots when it is three quarters full, or, after
/// long probes, a fifth full, up to 32768 slots.
pub const ROOMY_TABLE: usize = 6553;

/// The headers with one more value.
pub open spec fn with_header(table: HeaderTable, header: HeaderView) -> HeaderTable {
    let name = ascii_lowercase(header.0);
    if table.contains_key(name) {
        table.insert(name, table[name].push(header.1))
    } else {
        table.insert(name, seq![header.1])
    }
}

/// A list of headers as a table.
pub open spec fn header_table(headers: Seq<HeaderView>) -> HeaderTable
    decreases headers.len(),
{
    if headers.len() == 0 {
        Map::empty()
    } else {
        with_header(header_table(headers.drop_last()), headers.last())
    }
}

/// Whether `after` is what comes of adding a header to `before`.
pub open spec fn adds_header(
    before: HeaderTable,
    header: HeaderView,
    after: Option<HeaderTable>,
) -> bool {
    if is_header(header) {
        ||| after == Some(with_header(before, header))
        ||| after is None && before.dom().len() > ROOMY_TABLE
    } else {
        after is None
    }
}

/// `Request::builder`: a GET of "/" without headers.
#[verifier::external_body]
fn new_request() -> (builder: RequestBuilder)
    ensures
        drafted_request(builder) == Some(
            (RequestParts { method: "GET"@, uri: "/"@, headers: Map::empty() }),
        ),
{
    hyper::Request::builder()
}

/// The parser of `Method`: the methods are the tokens.
#[verifier::external_body]
fn is_method(text: &str) -> (valid: bool)
    ensures
        valid == is_token(text@),
{
    text.parse::<hyper::Method>().is_ok()
}

/// `request::Builder::method` on a string: sets the method, and refuses what is
/// no token.
#[verifier::external_body]
fn with_method(builder: RequestBuilder, method: &str) -> (next:
    RequestBuilder)
    ensures
        drafted_request(next) == match drafted_request(builder) {
            Some(head) => if is_token(method@) {
                Some(RequestParts { method: method@, ..head })
            } else {
                None
            },
            None => None,
        },
{
    builder.method(method)
}

/// `request::Builder::uri` on a string: sets the URI that the text is parsed
/// into, and refuses a text that is none. What the parser takes for a URI has
/// only a name.
#[verifier::external_body]
fn with_uri(builder: RequestBuilder, uri: &str) -> (next:
    RequestBuilder)
    ensures
        drafted_request(next) == match (drafted_request(builder), parsed_uri(uri@)) {
            (Some(head), Some(uri)) => Some(RequestParts { uri, ..head }),
            _ => None,
        },
{
    builder.uri(uri)
}

/// `request::Builder::header` on a string and bytes: adds a value under the name
/// in lower case, after those already there. It refuses what is no header, and
/// may refuse a header when the table is large.
#[verifier::external_body]
fn with_request_header(
    builder: RequestBuilder,
    name: &str,
    value: &[u8],
) -> (next: RequestBuilder)
    ensures
        match drafted_request(builder) {
            Some(head) => match drafted_request(next) {
                Some(after) => after.method == head.method && after.uri == head.uri && adds_header(
                    head.headers,
                    (name@, value@),
                    Some(after.headers),
                ),
                None => adds_header(head.headers, (name@, value@), None),
            },
            None => drafted_request(next) is None,
        },
{
    builder.header(name, value)
}

/// `request::Builder::body`, with a body of one piece: the request, unless a
/// part of it was refused.
#[verifier::external_body]
fn finish_request(builder: RequestBuilder, body: Vec<u8>) -> (result: Result<
    hyper::Request<Full<Bytes>>,
    hyper::http::Error,
>)
    ensures
        match (drafted_request(builder), result) {
            (Some(head), Ok(request)) => request_content(request) == (head, body@),
            (None, Err(_)) => true,
            _ => false,
        },
{
    builder.body(Full::new(Bytes::from(body)))
}

/// `Response::builder`: a response with the status 200 and without headers.
#[verifier::external_body]
fn new_response() -> (builder: ResponseBuilder)
    ensures
        drafted_response(builder) == Some(
            (ResponseParts { status: 200, headers: Map::empty() }),
        ),
{
    hyper::Response::builder()
}

/// `response::Builder::status` on a number: sets the status, and refuses one
/// that has not three digits.
#[verifier::external_body]
fn with_status(builder: ResponseBuilder, status: u16) -> (next:
    ResponseBuilder)
    ensures
        drafted_response(next) == match drafted_response(builder) {
            Some(head) => if 100 <= status <= 999 {
                Some(ResponseParts { status, ..head })
            } else {
                None
            },
            None => None,
        },
{
    builder.status(status)
}

/// `response::Builder::header` on a string and bytes: adds a value under the
/// name in lower case, after those already there. It refuses what is no header,
/// and may refuse a header when the table is large.
#[verifier::external_body]
fn with_response_header(
    builder: ResponseBuilder,
    name: &str,
    value: &[u8],
) -> (next: ResponseBuilder)
    ensures
        match drafted_response(builder) {
            Some(head) => match drafted_response(next) {
                Some(after) => after.status == head.status && adds_header(
                    head.headers,
                    (name@, value@),
                    Some(after.headers),
                ),
                None => adds_header(head.headers, (name@, value@), None),
            },
            None => drafted_response(next) is None,
        },
{
    builder.header(name, value)
}

/// `response::Builder::body`, with a body of one piece: the response, unless a
/// part of it was refused.
#[verifier::external_body]
fn finish_response(builder: ResponseBuilder, body: Vec<u8>) -> (result: Result<
    hyper::Response<Full<Bytes>>,
    hyper::http::Error,
>)
    ensures
        match (drafted_response(builder), result) {
            (Some(head), Ok(response)) => response_content(response) == (head, body@),
            (None, Err(_)) => true,
            _ => false,
        },
{
    builder.body(Full::new(Bytes::from(body)))
}

/// A table has finitely many names, at most as many as there are headers.
pub proof fn lemma_table_is_finite(headers: Seq<HeaderView>)
    ensures
        header_table(headers).dom().finite(),
        header_table(headers).dom().len() <= headers.len(),
    decreases headers.len(),
{
    if headers.len() > 0 {
        lemma_table_is_finite(headers.drop_last());
    }
}

proof fn lemma_table_grows(headers: Seq<HeaderView>, n: int)
    requires
        0 <= n <= headers.len(),
    ensures
        header_table(headers.take(n)).dom().subset_of(header_table(headers).dom()),
        header_table(headers.take(n)).dom().len() <= header_table(headers).dom().len(),
    decreases headers.len() - n,
{
    if n < headers.len() {
        lemma_table_grows(headers, n + 1);
        assert(headers.take(n + 1).drop_last() =~= headers.take(n));
    } else {
        assert(headers.take(n) =~= headers);
    }
    lemma_table_is_finite(headers);
    vstd::set_lib::lemma_len_subset(
        header_table(headers.take(n)).dom(),
        header_table(headers).dom(),
    );
}

/// Whether a builder certainly takes all the headers.
pub open spec fn headers_have_room(headers: Seq<HeaderView>) -> bool {
    header_table(headers).dom().len() <= ROOMY_TABLE
}

/// What it takes for a step of a loop over `headers` to be refused.
proof fn lemma_refused(headers: Seq<HeaderView>, i: int)
    requires
        0 <= i < headers.len(),
    ensures
        adds_header(header_table(headers.take(i)), headers[i], None) ==> !are_headers(headers)
            || !headers_have_room(headers),
        headers.take(i + 1).drop_last() == headers.take(i),
        headers.take(i + 1).last() == headers[i],
{
    lemma_table_grows(headers, i);
    assert(headers.take(i + 1).drop_last() =~= headers.take(i));
}

/// Why a request did not get an answer from the local service.
#[derive(Debug, Clone, Copy, PartialEq, Eq, Structural)]
pub enum ProxyError {
    ConnectFailed,
    HandshakeFailed,
    InvalidMethod,
    BuildFailed,
    RequestFailed,
    BodyFailed,
}

/// Builds the request that goes to the local service. Its method must be a
/// token, its URI one, and its headers such as a request can have. A request
/// with more than [`ROOMY_TABLE`] different header names may be refused too.
pub fn local_request(request: &TunnelRequest) -> (result: Result<
    hyper::Request<Full<Bytes>>,
    ProxyError,
>)
    ensures
        match result {
            Ok(built) => {
                &&& is_token(request@.method)
                &&& are_headers(request@.headers)
                &&& parsed_uri(request@.uri) matches Some(uri)
                &&& request_content(built) == (
                    (RequestParts {
                        method: request@.method,
                        uri,
                        headers: header_table(request@.headers),
                    }),
                    request@.body,
                )
            },
            Err(e) => {
                ||| e == ProxyError::InvalidMethod && !is_token(request@.method)
                ||| e == ProxyError::BuildFailed && is_token(request@.method) && (parsed_uri(
                    request@.uri,
                ) is None || !are_headers(request@.headers) || !headers_have_room(request@.headers))
            },
        },
{
    if !is_method(request.method.as_str()) {
        return Err(ProxyError::InvalidMethod);
    }
    let mut builder = with_uri(
        with_method(new_request(), request.method.as_str()),
        request.uri.as_str(),
    );
    let ghost all = headers_view(request.headers@);
    let mut i: usize = 0;
    assert(all.take(0) =~= Seq::empty());
    while i < request.headers.len()
        invariant
            i <= request.headers@.len(),
            all == headers_view(request.headers@),
            match drafted_request(builder) {
                Some(head) => {
                    &&& head.method == request@.method
                    &&& Some(head.uri) == parsed_uri(request@.uri)
                    &&& head.headers == header_table(all.take(i as int))
                    &&& are_headers(all.take(i as int))
                },
                None => parsed_uri(request@.uri) is None || !are_headers(all) || !headers_have_room(
                    all,
                ),
            },
        decreases request.headers@.len() - i,
    {
        proof {
            lemma_refused(all, i as int);
            let next = all.take(i + 1);
            assert forall|j: int| 0 <= j < i implies #[trigger] next[j] == all.take(
                i as int,
            )[j] by {}
        }
        builder = with_request_header(
            builder,
            request.headers[i].0.as_str(),
            request.headers[i].1.as_slice(),
        );
        i += 1;
    }
    assert(all.take(i as int) =~= all);
    match finish_request(builder, slice_to_vec(request.body.as_slice())) {
        Ok(built) => Ok(built),
        Err(_) => Err(ProxyError::BuildFailed),
    }
}

/// A response that can be sent as it is.
pub open spec fn is_sendable(reply: ResponseView) -> bool {
    100 <= reply.status <= 999 && are_headers(reply.headers)
}

/// What is sent for a response.
pub open spec fn sent_as(reply: ResponseView) -> (ResponseParts, Seq<u8>) {
    (
        ResponseParts { status: reply.status, headers: header_table(reply.headers) },
        reply.body,
    )
}

/// Builds a response.
fn build_response(reply: &TunnelResponse) -> (result: Option<hyper::Response<Full<Bytes>>>)
    ensures
        match result {
            Some(built) => is_sendable(reply@) && response_content(built) == sent_as(reply@),
            None => !is_sendable(reply@) || !headers_have_room(reply@.headers),
        },
{
    let mut builder = with_status(new_response(), reply.status);
    let ghost all = headers_view(reply.headers@);
    let mut i: usize = 0;
    assert(all.take(0) =~= Seq::empty());
    while i < reply.headers.len()
        invariant
            i <= reply.headers@.len(),
            all == headers_view(reply.headers@),
            match drafted_response(builder) {
                Some(head) => {
                    &&& 100 <= reply.status <= 999
                    &&& head.status == reply.status
                    &&& head.headers == header_table(all.take(i as int))
                    &&& are_headers(all.take(i as int))
                },
                None => !is_sendable(reply@) || !headers_have_room(all),
            },
        decreases reply.headers@.len() - i,
    {
        proof {
            lemma_refused(all, i as int);
            let next = all.take(i + 1);
            assert forall|j: int| 0 <= j < i implies #[trigger] next[j] == all.take(
                i as int,
            )[j] by {}
        }
        builder = with_response_header(
            builder,
            reply.headers[i].0.as_str(),
            reply.headers[i].1.as_slice(),
        );
        i += 1;
    }
    assert(all.take(i as int) =~= all);
    match finish_response(builder, slice_to_vec(reply.body.as_slice())) {
        Ok(built) => Some(built),
        Err(_) => None,
    }
}

/// What a visitor gets for a response that cannot be sent.
pub open spec fn unsendable_reply() -> ResponseView {
    text_response(502, "invalid response from tunnel client"@)
}

/// Builds the response for a visitor. One that no HTTP response can carry is
/// answered by a 502; one with more than [`ROOMY_TABLE`] different header names
/// may be answered by a 502 too.
pub fn http_response(reply: &TunnelResponse) -> (built: hyper::Response<Full<Bytes>>)
    ensures
        is_sendable(reply@) && headers_have_room(reply@.headers) ==> response_content(built)
            == sent_as(reply@),
        is_sendable(reply@) ==> response_content(built) == sent_as(reply@) || response_content(
            built,
        ) == sent_as(unsendable_reply()),
        !is_sendable(reply@) ==> response_content(built) == sent_as(unsendable_reply()),
{
    match build_response(reply) {
        Some(built) => built,
        None => {
            proof {
                law_text_response_is_sendable(502, "invalid response from tunnel client"@);
            }
            build_response(&response(502, "invalid response from tunnel client")).unwrap()
        },
    }
}

/// Visible ASCII text can be the value of a header.
pub proof fn lemma_visible_header_value(text: Seq<char>)
    requires
        forall|i: int| 0 <= i < text.len() ==> ' ' <= #[trigger] text[i] && text[i] <= '~',
    ensures
        is_header_value(encode_utf8(text)),
{
    assert(is_ascii_chars(text));
    is_ascii_chars_encode_utf8(text);
}

/// A text reply can always be sent.
pub proof fn law_text_response_is_sendable(status: u16, body: Seq<char>)
    requires
        100 <= status <= 999,
    ensures
        is_sendable(text_response(status, body)),
        headers_have_room(text_response(status, body).headers),
{
    reveal_strlit("content-type");
    reveal_strlit("text/plain");
    lemma_visible_header_value("text/plain"@);
    lemma_table_is_finite(text_response(status, body).headers);
}

} // verus!
