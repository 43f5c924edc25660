//! Plain text replies to visitors.
use vstd::prelude::*;
use vstd::utf8::encode_utf8;

use crate::frame::{headers_view, HeaderView, ResponseView, TunnelResponse};
use crate::text::text_bytes;

verus! {

/// A header whose value is text.
pub open spec fn text_header(name: Seq<char>, value: Seq<char>) -> HeaderView {
    (name, encode_utf8(value))
}

/// A response with a status and a line of plain text.
pub open spec fn text_response(status: u16, body: Seq<char>) -> ResponseView {
    ResponseView {
        status,
        headers: seq![text_header("content-type"@, "text/plain"@)],
        body: encode_utf8(body),
    }
}

/// Builds a header whose value is text.
pub(crate) fn header(name: &str, value: &str) -> (header: (String, Vec<u8>))
    ensures
        (header.0@, header.1@) == text_header(name@, value@),
{
    (name.to_owned(), text_bytes(value))
}

/// Builds a response with a status and a line of plain text.
pub fn response(status: u16, body: &str) -> (reply: TunnelResponse)
    ensures
        reply@ == text_response(status, body@),
{
    let mut headers: Vec<(String, Vec<u8>)> = Vec::new();
    headers.push(header("content-type", "text/plain"));
    let body = text_bytes(body);
    assert(headers_view(headers@) =~= seq![text_header("content-type"@, "text/plain"@)]);
    TunnelResponse { status, headers, body }
}

} // verus!
