//! The binary frames that carry requests and responses over a tunnel.
//!
//! ```text
//! [16 bytes: stream id][1 byte: frame type][payload]
//! ```
//!
//! A string, a header value and a body are written as a length of four bytes
//! and then the bytes; headers as a count of four bytes and then the entries.
use bytes::BytesMut;
use vstd::prelude::*;
use vstd::slice::{slice_subrange, slice_to_vec};

use crate::buffer::{
    advance, get_u16, get_u32, get_u8, new_buffer, put_slice, put_u16, put_u32, put_u8, remaining,
    to_vec, written, MAX_BUFFER_LEN,
};
use crate::format::{
    block_bytes, entries_bytes, frame_bytes, frame_fits, header_bytes, headers_bytes, id_of_octets,
    parse_body, parse_entries, parse_frame, parse_header, parse_headers, parse_request,
    parse_response, parse_string, string_bytes,
};
use crate::stream_id::StreamId;
use crate::text::{hex_byte, hex_of, joined, text_from_utf8};
use crate::wire::{
    be_bytes, lemma_be_bytes_len, lemma_be_bytes_wrap, lemma_be_capacities,
    lemma_be_value_of_bytes,
};

verus! {

/// The type byte of a request frame.
pub const FRAME_REQUEST: u8 = 0x01;

/// The type byte of a response frame.
pub const FRAME_RESPONSE: u8 = 0x02;

/// The type byte of an error frame.
pub const FRAME_ERROR: u8 = 0x03;

/// The most bytes that an encoded frame can have.
pub const MAX_FRAME_LEN: usize = MAX_BUFFER_LEN;

/// A visitor's HTTP request.
#[derive(Debug, Clone)]
pub struct TunnelRequest {
    pub method: String,
    pub uri: String,
    pub headers: Vec<(String, Vec<u8>)>,
    pub body: Vec<u8>,
}

/// An HTTP response for a visitor.
#[derive(Debug, Clone)]
pub struct TunnelResponse {
    pub status: u16,
    pub headers: Vec<(String, Vec<u8>)>,
    pub body: Vec<u8>,
}

/// What went wrong at the client when it forwarded a request.
#[derive(Debug, Clone)]
pub struct TunnelError {
    pub message: String,
}

/// What one binary message carries.
#[derive(Debug, Clone)]
pub enum TunnelFrame {
    Request(TunnelRequest),
    Response(TunnelResponse),
    Error(TunnelError),
}

/// Why a field of a frame cannot be read.
#[derive(Debug, Clone, PartialEq, Eq)]
pub enum FieldError {
    TruncatedStringLength,
    TruncatedStringData,
    /// The bytes of a string are no UTF-8, for the reason in these words.
    InvalidUtf8(String),
    TruncatedHeaderCount,
    TruncatedHeaderValueLength,
    TruncatedHeaderValue,
    TruncatedBodyLength,
    TruncatedBodyData,
}

/// What a [`FieldError`] denotes.
#[verifier::ext_equal]
pub enum FieldErrorView {
    TruncatedStringLength,
    TruncatedStringData,
    InvalidUtf8(Seq<char>),
    TruncatedHeaderCount,
    TruncatedHeaderValueLength,
    TruncatedHeaderValue,
    TruncatedBodyLength,
    TruncatedBodyData,
}

impl View for FieldError {
    type V = FieldErrorView;

    open spec fn view(&self) -> FieldErrorView {
        match self {
            FieldError::TruncatedStringLength => FieldErrorView::TruncatedStringLength,
            FieldError::TruncatedStringData => FieldErrorView::TruncatedStringData,
            FieldError::InvalidUtf8(words) => FieldErrorView::InvalidUtf8(words@),
            FieldError::TruncatedHeaderCount => FieldErrorView::TruncatedHeaderCount,
            FieldError::TruncatedHeaderValueLength => {
                FieldErrorView::TruncatedHeaderValueLength
            },
            FieldError::TruncatedHeaderValue => FieldErrorView::TruncatedHeaderValue,
            FieldError::TruncatedBodyLength => FieldErrorView::TruncatedBodyLength,
            FieldError::TruncatedBodyData => FieldErrorView::TruncatedBodyData,
        }
    }
}

impl FieldErrorView {
    /// The error in words.
    pub open spec fn message(self) -> Seq<char> {
        match self {
            FieldErrorView::TruncatedStringLength => "truncated string length"@,
            FieldErrorView::TruncatedStringData => "truncated string data"@,
            FieldErrorView::InvalidUtf8(words) => words,
            FieldErrorView::TruncatedHeaderCount => "truncated header count"@,
            FieldErrorView::TruncatedHeaderValueLength => "truncated header value length"@,
            FieldErrorView::TruncatedHeaderValue => "truncated header value"@,
            FieldErrorView::TruncatedBodyLength => "truncated body length"@,
            FieldErrorView::TruncatedBodyData => "truncated body data"@,
        }
    }
}

impl FieldError {
    /// The error in words.
    pub fn message(&self) -> (message: String)
        ensures
            message@ == self@.message(),
    {
        match self {
            FieldError::TruncatedStringLength => "truncated string length".to_owned(),
            FieldError::TruncatedStringData => "truncated string data".to_owned(),
            FieldError::InvalidUtf8(words) => words.clone(),
            FieldError::TruncatedHeaderCount => "truncated header count".to_owned(),
            FieldError::TruncatedHeaderValueLength => "truncated header value length".to_owned(),
            FieldError::TruncatedHeaderValue => "truncated header value".to_owned(),
            FieldError::TruncatedBodyLength => "truncated body length".to_owned(),
            FieldError::TruncatedBodyData => "truncated body data".to_owned(),
        }
    }
}

/// Why a binary message is not a frame.
#[derive(Debug, Clone, PartialEq, Eq)]
pub enum FrameError {
    /// There is no room for a stream id and a frame type.
    TooShort,
    /// The method of a request cannot be read.
    Method(FieldError),
    /// The URI of a request cannot be read.
    Uri(FieldError),
    /// The headers of a request or a response cannot be read.
    Headers(FieldError),
    /// The body of a request or a response cannot be read.
    Body(FieldError),
    /// There is no room for the status of a response.
    TruncatedStatus,
    /// The message of an error cannot be read.
    ErrorMessage(FieldError),
    /// No frame has this type.
    UnknownType(u8),
}

/// What a [`FrameError`] denotes.
#[verifier::ext_equal]
pub enum FrameErrorView {
    TooShort,
    Method(FieldErrorView),
    Uri(FieldErrorView),
    Headers(FieldErrorView),
    Body(FieldErrorView),
    TruncatedStatus,
    ErrorMessage(FieldErrorView),
    UnknownType(u8),
}

impl View for FrameError {
    type V = FrameErrorView;

    open spec fn view(&self) -> FrameErrorView {
        match self {
            FrameError::TooShort => FrameErrorView::TooShort,
            FrameError::Method(e) => FrameErrorView::Method(e@),
            FrameError::Uri(e) => FrameErrorView::Uri(e@),
            FrameError::Headers(e) => FrameErrorView::Headers(e@),
            FrameError::Body(e) => FrameErrorView::Body(e@),
            FrameError::TruncatedStatus => FrameErrorView::TruncatedStatus,
            FrameError::ErrorMessage(e) => FrameErrorView::ErrorMessage(e@),
            FrameError::UnknownType(kind) => FrameErrorView::UnknownType(*kind),
        }
    }
}

impl FrameErrorView {
    /// The error in words: what is wrong with the message, or the field that
    /// cannot be read.
    pub open spec fn message(self) -> Seq<char> {
        match self {
            FrameErrorView::TooShort => "frame too short: need at least 17 bytes"@,
            FrameErrorView::Method(_) => "method"@,
            FrameErrorView::Uri(_) => "uri"@,
            FrameErrorView::Headers(_) => "headers"@,
            FrameErrorView::Body(_) => "body"@,
            FrameErrorView::TruncatedStatus => "truncated response status"@,
            FrameErrorView::ErrorMessage(_) => "error message"@,
            FrameErrorView::UnknownType(kind) => "unknown frame type: 0x"@ + hex_of(kind),
        }
    }
}

impl FrameError {
    /// The error in words.
    pub fn message(&self) -> (message: String)
        ensures
            message@ == self@.message(),
    {
        match self {
            FrameError::TooShort => "frame too short: need at least 17 bytes".to_owned(),
            FrameError::Method(_) => "method".to_owned(),
            FrameError::Uri(_) => "uri".to_owned(),
            FrameError::Headers(_) => "headers".to_owned(),
            FrameError::Body(_) => "body".to_owned(),
            FrameError::TruncatedStatus => "truncated response status".to_owned(),
            FrameError::ErrorMessage(_) => "error message".to_owned(),
            FrameError::UnknownType(kind) => joined(
                "unknown frame type: 0x",
                hex_byte(*kind).as_str(),
            ),
        }
    }
}

/// A header: its name and the bytes of its value.
pub type HeaderView = (Seq<char>, Seq<u8>);

/// The headers of a request or a response as a mathematical sequence.
pub open spec fn headers_view(headers: Seq<(String, Vec<u8>)>) -> Seq<HeaderView> {
    Seq::new(headers.len(), |i: int| (headers[i].0@, headers[i].1@))
}

/// What a [`TunnelRequest`] denotes.
#[verifier::ext_equal]
pub struct RequestView {
    pub method: Seq<char>,
    pub uri: Seq<char>,
    pub headers: Seq<HeaderView>,
    pub body: Seq<u8>,
}

/// What a [`TunnelResponse`] denotes.
#[verifier::ext_equal]
pub struct ResponseView {
    pub status: u16,
    pub headers: Seq<HeaderView>,
    pub body: Seq<u8>,
}

/// What a [`TunnelFrame`] denotes.
#[verifier::ext_equal]
pub enum FrameView {
    Request(RequestView),
    Response(ResponseView),
    Error(Seq<char>),
}

impl View for TunnelRequest {
    type V = RequestView;

    open spec fn view(&self) -> RequestView {
        RequestView {
            method: self.method@,
            uri: self.uri@,
            headers: headers_view(self.headers@),
            body: self.body@,
        }
    }
}

impl View for TunnelResponse {
    type V = ResponseView;

    open spec fn view(&self) -> ResponseView {
        ResponseView {
            status: self.status,
            headers: headers_view(self.headers@),
            body: self.body@,
        }
    }
}

impl View for TunnelError {
    type V = Seq<char>;

    open spec fn view(&self) -> Seq<char> {
        self.message@
    }
}

impl View for TunnelFrame {
    type V = FrameView;

    open spec fn view(&self) -> FrameView {
        match self {
            TunnelFrame::Request(request) => FrameView::Request(request@),
            TunnelFrame::Response(response) => FrameView::Response(response@),
            TunnelFrame::Error(error) => FrameView::Error(error@),
        }
    }
}

/// Encodes a frame into a binary message.
pub fn encode(stream_id: StreamId, frame: &TunnelFrame) -> (bytes: Vec<u8>)
    requires
        frame_fits(frame@),
    ensures
        bytes@ == frame_bytes(stream_id, frame@),
{
    match frame {
        TunnelFrame::Request(request) => encode_request(stream_id, request),
        TunnelFrame::Response(response) => encode_response(stream_id, response),
        TunnelFrame::Error(error) => encode_error(stream_id, error),
    }
}

/// What is left of a budget of bytes after a length and `len` bytes.
fn after_block(budget: usize, len: usize) -> (left: Option<usize>)
    ensures
        match left {
            Some(n) => budget == n + 4 + len,
            None => budget < 4 + len,
        },
{
    if budget < 4 || budget - 4 < len {
        None
    } else {
        Some(budget - 4 - len)
    }
}

/// What is left of a budget of bytes after a string.
fn after_string(budget: usize, s: &str) -> (left: Option<usize>)
    ensures
        match left {
            Some(n) => budget == n + string_bytes(s@).len(),
            None => budget < string_bytes(s@).len(),
        },
{
    let bytes = s.as_bytes();
    proof {
        lemma_be_bytes_len(bytes@.len(), 4);
    }
    after_block(budget, bytes.len())
}

/// What is left of a budget of bytes after a list of headers.
fn after_headers(budget: usize, headers: &[(String, Vec<u8>)]) -> (left: Option<usize>)
    ensures
        match left {
            Some(n) => budget == n + headers_bytes(headers_view(headers@)).len(),
            None => budget < headers_bytes(headers_view(headers@)).len(),
        },
{
    let ghost view = headers_view(headers@);
    let ghost total = headers_bytes(view).len();
    proof {
        lemma_be_bytes_len(view.len(), 4);
    }
    let mut left: usize = match after_block(budget, 0) {
        Some(n) => n,
        None => return None,
    };
    let mut i: usize = 0;
    assert(view.skip(0) =~= view);
    while i < headers.len()
        invariant
            i <= headers@.len(),
            view == headers_view(headers@),
            total == headers_bytes(view).len(),
            budget + entries_bytes(view.skip(i as int)).len() == left + total,
        decreases headers@.len() - i,
    {
        proof {
            let rest = view.skip(i as int);
            assert(rest[0] == view[i as int]);
            assert(rest.drop_first() =~= view.skip(i + 1));
            lemma_be_bytes_len(view[i as int].1.len(), 4);
        }
        left = match after_string(left, headers[i].0.as_str()) {
            Some(n) => n,
            None => return None,
        };
        left = match after_block(left, headers[i].1.len()) {
            Some(n) => n,
            None => return None,
        };
        i += 1;
    }
    assert(entries_bytes(view.skip(i as int)).len() == 0);
    Some(left)
}

/// Whether a request can be encoded on this machine.
pub fn can_encode_request(request: &TunnelRequest) -> (fits: bool)
    ensures
        fits == frame_fits(FrameView::Request(request@)),
{
    proof {
        lemma_be_bytes_len(request.body@.len(), 4);
    }
    let left: usize = match after_string(MAX_FRAME_LEN - 17, request.method.as_str()) {
        Some(n) => n,
        None => return false,
    };
    let left: usize = match after_string(left, request.uri.as_str()) {
        Some(n) => n,
        None => return false,
    };
    let left: usize = match after_headers(left, request.headers.as_slice()) {
        Some(n) => n,
        None => return false,
    };
    after_block(left, request.body.len()).is_some()
}

/// Whether a frame can be encoded on this machine.
pub fn can_encode(frame: &TunnelFrame) -> (fits: bool)
    ensures
        fits == frame_fits(frame@),
{
    match frame {
        TunnelFrame::Request(request) => can_encode_request(request),
        TunnelFrame::Response(response) => {
            proof {
                lemma_be_bytes_len(response.status as nat, 2);
                lemma_be_bytes_len(response.body@.len(), 4);
            }
            match after_headers(MAX_FRAME_LEN - 19, response.headers.as_slice()) {
                Some(left) => after_block(left, response.body.len()).is_some(),
                None => false,
            }
        },
        TunnelFrame::Error(error) => after_string(
            MAX_FRAME_LEN - 17,
            error.message.as_str(),
        ).is_some(),
    }
}

/// Starts a message: the stream id and the frame type.
fn begin_frame(stream_id: StreamId, kind: u8) -> (buf: BytesMut)
    ensures
        written(buf) == stream_id.octets().push(kind),
        written(buf).len() == 17,
{
    let mut buf = new_buffer();
    let octets = stream_id.as_bytes();
    proof {
        lemma_be_bytes_len(stream_id.value as nat, 16);
    }
    put_slice(&mut buf, &octets);
    assert(written(buf) =~= stream_id.octets());
    put_u8(&mut buf, kind);
    buf
}

/// Encodes a request frame.
pub fn encode_request(stream_id: StreamId, request: &TunnelRequest) -> (bytes: Vec<u8>)
    requires
        frame_fits(FrameView::Request(request@)),
    ensures
        bytes@ == frame_bytes(stream_id, FrameView::Request(request@)),
{
    let mut buf = begin_frame(stream_id, FRAME_REQUEST);
    encode_string(&mut buf, request.method.as_str());
    encode_string(&mut buf, request.uri.as_str());
    encode_headers(&mut buf, request.headers.as_slice());
    encode_body(&mut buf, request.body.as_slice());
    assert(written(buf) =~= frame_bytes(stream_id, FrameView::Request(request@)));
    to_vec(&buf)
}

/// Encodes a response frame.
pub fn encode_response(stream_id: StreamId, response: &TunnelResponse) -> (bytes: Vec<u8>)
    requires
        frame_fits(FrameView::Response(response@)),
    ensures
        bytes@ == frame_bytes(stream_id, FrameView::Response(response@)),
{
    let mut buf = begin_frame(stream_id, FRAME_RESPONSE);
    proof {
        lemma_be_bytes_len(response.status as nat, 2);
    }
    put_u16(&mut buf, response.status);
    encode_headers(&mut buf, response.headers.as_slice());
    encode_body(&mut buf, response.body.as_slice());
    assert(written(buf) =~= frame_bytes(stream_id, FrameView::Response(response@)));
    to_vec(&buf)
}

/// Encodes an error frame.
pub fn encode_error(stream_id: StreamId, error: &TunnelError) -> (bytes: Vec<u8>)
    requires
        frame_fits(FrameView::Error(error@)),
    ensures
        bytes@ == frame_bytes(stream_id, FrameView::Error(error@)),
{
    let mut buf = begin_frame(stream_id, FRAME_ERROR);
    encode_string(&mut buf, error.message.as_str());
    to_vec(&buf)
}

/// Writes the low four bytes of a length.
fn encode_len(buf: &mut BytesMut, len: usize)
    requires
        written(*old(buf)).len() + 4 <= MAX_BUFFER_LEN,
    ensures
        written(*final(buf)) == written(*old(buf)) + be_bytes(len as nat, 4),
        written(*final(buf)).len() == written(*old(buf)).len() + 4,
{
    let wide: u64 = len as u64;
    let low: u32 = #[verifier::truncate]
    (wide as u32);
    proof {
        assert(wide as u32 == wide % 0x1_0000_0000) by (bit_vector);
        lemma_be_capacities();
        lemma_be_bytes_wrap(len as nat, 4);
        lemma_be_bytes_len(len as nat, 4);
    }
    put_u32(buf, low);
}

/// Writes a length and the bytes.
fn encode_block(buf: &mut BytesMut, data: &[u8])
    requires
        written(*old(buf)).len() + block_bytes(data@).len() <= MAX_BUFFER_LEN,
    ensures
        written(*final(buf)) == written(*old(buf)) + block_bytes(data@),
{
    let ghost before = written(*buf);
    proof {
        lemma_be_bytes_len(data@.len(), 4);
    }
    encode_len(buf, data.len());
    put_slice(buf, data);
    assert(written(*buf) =~= before + block_bytes(data@));
}

/// Writes a string.
fn encode_string(buf: &mut BytesMut, s: &str)
    requires
        written(*old(buf)).len() + string_bytes(s@).len() <= MAX_BUFFER_LEN,
    ensures
        written(*final(buf)) == written(*old(buf)) + string_bytes(s@),
{
    encode_block(buf, s.as_bytes());
}

/// Writes a list of headers.
fn encode_headers(buf: &mut BytesMut, headers: &[(String, Vec<u8>)])
    requires
        written(*old(buf)).len() + headers_bytes(headers_view(headers@)).len() <= MAX_BUFFER_LEN,
    ensures
        written(*final(buf)) == written(*old(buf)) + headers_bytes(headers_view(headers@)),
{
    let ghost view = headers_view(headers@);
    let ghost all = written(*buf) + headers_bytes(view);
    proof {
        lemma_be_bytes_len(view.len(), 4);
    }
    encode_len(buf, headers.len());
    let mut i: usize = 0;
    assert(view.skip(0) =~= view);
    assert(written(*buf) + entries_bytes(view.skip(0)) =~= all);
    while i < headers.len()
        invariant
            i <= headers@.len(),
            view == headers_view(headers@),
            all.len() <= MAX_BUFFER_LEN,
            written(*buf) + entries_bytes(view.skip(i as int)) == all,
        decreases headers@.len() - i,
    {
        let ghost before = written(*buf);
        let ghost rest = view.skip(i as int);
        proof {
            assert(rest[0] == view[i as int]);
            assert(rest.drop_first() =~= view.skip(i + 1));
        }
        encode_string(buf, headers[i].0.as_str());
        encode_block(buf, headers[i].1.as_slice());
        assert(written(*buf) =~= before + header_bytes(rest[0]));
        assert(written(*buf) + entries_bytes(view.skip(i + 1)) =~= before + entries_bytes(rest));
        i += 1;
    }
    assert(entries_bytes(view.skip(i as int)) =~= Seq::<u8>::empty());
    assert(written(*buf) =~= all);
}

/// Writes a body.
fn encode_body(buf: &mut BytesMut, body: &[u8])
    requires
        written(*old(buf)).len() + block_bytes(body@).len() <= MAX_BUFFER_LEN,
    ensures
        written(*final(buf)) == written(*old(buf)) + block_bytes(body@),
{
    encode_block(buf, body);
}

/// Decodes a binary message into a stream id and a frame.
pub fn decode_frame(data: &[u8]) -> (result: Result<(StreamId, TunnelFrame), FrameError>)
    ensures
        match result {
            Ok((id, frame)) => parse_frame(data@) == Ok::<_, FrameErrorView>((id, frame@)),
            Err(e) => parse_frame(data@) == Err::<(StreamId, FrameView), _>(e@),
        },
{
    if data.len() < 17 {
        return Err(FrameError::TooShort);
    }
    let mut buf: &[u8] = data;
    let stream_id = leading_stream_id(buf);
    advance(&mut buf, 16);
    let kind: u8 = get_u8(&mut buf);
    assert(buf@ =~= data@.skip(17));
    if kind == FRAME_REQUEST {
        match decode_request(buf) {
            Ok(request) => Ok((stream_id, TunnelFrame::Request(request))),
            Err(e) => Err(e),
        }
    } else if kind == FRAME_RESPONSE {
        match decode_response(buf) {
            Ok(response) => Ok((stream_id, TunnelFrame::Response(response))),
            Err(e) => Err(e),
        }
    } else if kind == FRAME_ERROR {
        match decode_string(&mut buf) {
            Ok(message) => Ok((stream_id, TunnelFrame::Error(TunnelError { message }))),
            Err(e) => Err(FrameError::ErrorMessage(e)),
        }
    } else {
        Err(FrameError::UnknownType(kind))
    }
}

/// The stream id that a message begins with.
fn leading_stream_id(data: &[u8]) -> (id: StreamId)
    requires
        data@.len() >= 16,
    ensures
        id == id_of_octets(data@.take(16)),
{
    let octets: [u8; 16] = [
        data[0], data[1], data[2], data[3], data[4], data[5], data[6], data[7], data[8], data[9],
        data[10], data[11], data[12], data[13], data[14], data[15],
    ];
    assert(octets@ =~= data@.take(16));
    let id = StreamId::from_bytes(octets);
    proof {
        lemma_be_capacities();
        lemma_be_value_of_bytes(id.value as nat, 16);
    }
    id
}

/// Decodes the payload of a request.
fn decode_request(payload: &[u8]) -> (result: Result<TunnelRequest, FrameError>)
    ensures
        match result {
            Ok(request) => parse_request(payload@) == Ok::<_, FrameErrorView>(request@),
            Err(e) => parse_request(payload@) == Err::<RequestView, _>(e@),
        },
{
    let mut buf: &[u8] = payload;
    let method = match decode_string(&mut buf) {
        Ok(method) => method,
        Err(e) => return Err(FrameError::Method(e)),
    };
    let uri = match decode_string(&mut buf) {
        Ok(uri) => uri,
        Err(e) => return Err(FrameError::Uri(e)),
    };
    let headers = match decode_headers(&mut buf) {
        Ok(headers) => headers,
        Err(e) => return Err(FrameError::Headers(e)),
    };
    let body = match decode_body(&mut buf) {
        Ok(body) => body,
        Err(e) => return Err(FrameError::Body(e)),
    };
    Ok(TunnelRequest { method, uri, headers, body })
}

/// Decodes the payload of a response.
fn decode_response(payload: &[u8]) -> (result: Result<TunnelResponse, FrameError>)
    ensures
        match result {
            Ok(response) => parse_response(payload@) == Ok::<_, FrameErrorView>(response@),
            Err(e) => parse_response(payload@) == Err::<ResponseView, _>(e@),
        },
{
    let mut buf: &[u8] = payload;
    if remaining(&buf) < 2 {
        return Err(FrameError::TruncatedStatus);
    }
    let status: u16 = get_u16(&mut buf);
    let headers = match decode_headers(&mut buf) {
        Ok(headers) => headers,
        Err(e) => return Err(FrameError::Headers(e)),
    };
    let body = match decode_body(&mut buf) {
        Ok(body) => body,
        Err(e) => return Err(FrameError::Body(e)),
    };
    Ok(TunnelResponse { status, headers, body })
}

/// Reads a string off the front of `buf`.
pub fn decode_string(buf: &mut &[u8]) -> (result: Result<String, FieldError>)
    ensures
        match result {
            Ok(text) => parse_string(old(buf)@) == (Ok::<_, FieldErrorView>(text@), final(buf)@),
            Err(e) => parse_string(old(buf)@) == (Err::<Seq<char>, _>(e@), final(buf)@),
        },
{
    if remaining(buf) < 4 {
        return Err(FieldError::TruncatedStringLength);
    }
    let len: usize = get_u32(buf) as usize;
    if remaining(buf) < len {
        return Err(FieldError::TruncatedStringData);
    }
    let data = slice_subrange(*buf, 0, len);
    assert(data@ =~= buf@.take(len as int));
    match text_from_utf8(data) {
        Ok(text) => {
            advance(buf, len);
            Ok(text)
        },
        Err(words) => Err(FieldError::InvalidUtf8(words)),
    }
}

/// Reads a list of headers off the front of `buf`.
pub fn decode_headers(buf: &mut &[u8]) -> (result: Result<Vec<(String, Vec<u8>)>, FieldError>)
    ensures
        match result {
            Ok(headers) => parse_headers(old(buf)@) == (
                Ok::<_, FieldErrorView>(headers_view(headers@)),
                final(buf)@,
            ),
            Err(e) => parse_headers(old(buf)@) == (Err::<Seq<HeaderView>, _>(e@), final(buf)@),
        },
{
    if remaining(buf) < 4 {
        return Err(FieldError::TruncatedHeaderCount);
    }
    let count: u32 = get_u32(buf);
    let ghost start = buf@;
    let mut headers: Vec<(String, Vec<u8>)> = Vec::new();
    let mut done: u32 = 0;
    assert(prepend(headers_view(headers@), parse_entries(start, count as nat)) =~= parse_entries(
        start,
        count as nat,
    )) by {
        if let Ok(hs) = parse_entries(start, count as nat).0 {
            assert(headers_view(headers@) + hs =~= hs);
        }
    }
    while done < count
        invariant
            done <= count,
            parse_headers(old(buf)@) == parse_entries(start, count as nat),
            parse_entries(start, count as nat) == prepend(
                headers_view(headers@),
                parse_entries(buf@, (count - done) as nat),
            ),
        decreases count - done,
    {
        let ghost before = headers_view(headers@);
        let ghost here = buf@;
        let ghost left = (count - done) as nat;
        let name = match decode_string(buf) {
            Ok(name) => name,
            Err(e) => return Err(e),
        };
        if remaining(buf) < 4 {
            return Err(FieldError::TruncatedHeaderValueLength);
        }
        let len: usize = get_u32(buf) as usize;
        if remaining(buf) < len {
            return Err(FieldError::TruncatedHeaderValue);
        }
        let data = slice_subrange(*buf, 0, len);
        let value = slice_to_vec(data);
        assert(data@ =~= buf@.take(len as int));
        advance(buf, len);
        let ghost header = (name@, value@);
        headers.push((name, value));
        done += 1;
        proof {
            assert(headers_view(headers@) =~= before.push(header));
            assert(parse_header(here) == (Ok::<_, FieldErrorView>(header), buf@));
            if let Ok(others) = parse_entries(buf@, (left - 1) as nat).0 {
                assert(before + (seq![header] + others) =~= before.push(header) + others);
            }
        }
    }
    proof {
        assert(headers_view(headers@) + Seq::<HeaderView>::empty() =~= headers_view(headers@));
    }
    Ok(headers)
}

/// Reads a body off the front of `buf`.
pub fn decode_body(buf: &mut &[u8]) -> (result: Result<Vec<u8>, FieldError>)
    ensures
        match result {
            Ok(body) => parse_body(old(buf)@) == (Ok::<_, FieldErrorView>(body@), final(buf)@),
            Err(e) => parse_body(old(buf)@) == (Err::<Seq<u8>, _>(e@), final(buf)@),
        },
{
    if remaining(buf) < 4 {
        return Err(FieldError::TruncatedBodyLength);
    }
    let len: usize = get_u32(buf) as usize;
    if remaining(buf) < len {
        return Err(FieldError::TruncatedBodyData);
    }
    let data = slice_subrange(*buf, 0, len);
    let body = slice_to_vec(data);
    assert(data@ =~= buf@.take(len as int));
    advance(buf, len);
    Ok(body)
}

/// The outcome of reading headers after some that were already read.
spec fn prepend(
    before: Seq<HeaderView>,
    outcome: (Result<Seq<HeaderView>, FieldErrorView>, Seq<u8>),
) -> (Result<Seq<HeaderView>, FieldErrorView>, Seq<u8>) {
    match outcome {
        (Ok(others), rest) => (Ok(before + others), rest),
        (Err(e), rest) => (Err(e), rest),
    }
}

} // verus!
