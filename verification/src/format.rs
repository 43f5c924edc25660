//! The frame format as mathematical functions: what a frame is written as, and
//! what a binary message reads as.
use vstd::prelude::*;
use vstd::utf8::{decode_utf8, encode_utf8, valid_utf8};

use crate::frame::{
    FieldErrorView, FrameErrorView, FrameView, HeaderView, RequestView, ResponseView, FRAME_ERROR,
    FRAME_REQUEST, FRAME_RESPONSE, MAX_FRAME_LEN,
};
use crate::stream_id::StreamId;
use crate::text::utf8_complaint;
use crate::wire::{be_bytes, be_value};

verus! {

/// A length of four bytes and the bytes. Of a length beyond four bytes only the
/// low part is written.
pub open spec fn block_bytes(data: Seq<u8>) -> Seq<u8> {
    be_bytes(data.len(), 4) + data
}

/// A string, in UTF-8.
pub open spec fn string_bytes(text: Seq<char>) -> Seq<u8> {
    block_bytes(encode_utf8(text))
}

/// One header.
pub open spec fn header_bytes(header: HeaderView) -> Seq<u8> {
    string_bytes(header.0) + block_bytes(header.1)
}

/// The headers one after the other, without their count.
pub open spec fn entries_bytes(headers: Seq<HeaderView>) -> Seq<u8>
    decreases headers.len(),
{
    if headers.len() == 0 {
        Seq::empty()
    } else {
        header_bytes(headers[0]) + entries_bytes(headers.drop_first())
    }
}

/// The count of the headers and the headers.
pub open spec fn headers_bytes(headers: Seq<HeaderView>) -> Seq<u8> {
    be_bytes(headers.len(), 4) + entries_bytes(headers)
}

/// The type byte of a frame.
pub open spec fn frame_type(frame: FrameView) -> u8 {
    match frame {
        FrameView::Request(_) => FRAME_REQUEST,
        FrameView::Response(_) => FRAME_RESPONSE,
        FrameView::Error(_) => FRAME_ERROR,
    }
}

/// What follows the type byte.
pub open spec fn payload_bytes(frame: FrameView) -> Seq<u8> {
    match frame {
        FrameView::Request(r) => string_bytes(r.method) + string_bytes(r.uri) + headers_bytes(
            r.headers,
        ) + block_bytes(r.body),
        FrameView::Response(r) => be_bytes(r.status as nat, 2) + headers_bytes(r.headers)
            + block_bytes(r.body),
        FrameView::Error(message) => string_bytes(message),
    }
}

/// The binary message that carries `frame` for the connection `id`.
pub open spec fn frame_bytes(id: StreamId, frame: FrameView) -> Seq<u8> {
    id.octets().push(frame_type(frame)) + payload_bytes(frame)
}

/// The frame can be encoded on this machine.
pub open spec fn frame_fits(frame: FrameView) -> bool {
    17 + payload_bytes(frame).len() <= MAX_FRAME_LEN
}

/// What reading a length and that many bytes can come to, and what is left.
pub enum Block {
    NoLength,
    Short(Seq<u8>),
    Found(Seq<u8>, Seq<u8>),
}

/// Reads a length of four bytes and that many bytes.
pub open spec fn parse_block(s: Seq<u8>) -> Block {
    if s.len() < 4 {
        Block::NoLength
    } else {
        let len = be_value(s.take(4)) as int;
        let rest = s.skip(4);
        if rest.len() < len {
            Block::Short(rest)
        } else {
            Block::Found(rest.take(len), rest.skip(len))
        }
    }
}

/// Reads a string: the outcome, and what is left to read.
pub open spec fn parse_string(s: Seq<u8>) -> (Result<Seq<char>, FieldErrorView>, Seq<u8>) {
    match parse_block(s) {
        Block::NoLength => (Err(FieldErrorView::TruncatedStringLength), s),
        Block::Short(rest) => (Err(FieldErrorView::TruncatedStringData), rest),
        Block::Found(data, rest) => if valid_utf8(data) {
            (Ok(decode_utf8(data)), rest)
        } else {
            (Err(FieldErrorView::InvalidUtf8(utf8_complaint(data))), s.skip(4))
        },
    }
}

/// Reads the value of a header: the outcome, and what is left to read.
pub open spec fn parse_header_value(s: Seq<u8>) -> (Result<Seq<u8>, FieldErrorView>, Seq<u8>) {
    match parse_block(s) {
        Block::NoLength => (Err(FieldErrorView::TruncatedHeaderValueLength), s),
        Block::Short(rest) => (Err(FieldErrorView::TruncatedHeaderValue), rest),
        Block::Found(data, rest) => (Ok(data), rest),
    }
}

/// Reads one header: the outcome, and what is left to read.
pub open spec fn parse_header(s: Seq<u8>) -> (Result<HeaderView, FieldErrorView>, Seq<u8>) {
    match parse_string(s) {
        (Err(e), rest) => (Err(e), rest),
        (Ok(name), rest) => match parse_header_value(rest) {
            (Err(e), rest) => (Err(e), rest),
            (Ok(value), rest) => (Ok((name, value)), rest),
        },
    }
}

/// Reads `count` headers: the outcome, and what is left to read.
pub open spec fn parse_entries(s: Seq<u8>, count: nat) -> (
    Result<Seq<HeaderView>, FieldErrorView>,
    Seq<u8>,
)
    decreases count,
{
    if count == 0 {
        (Ok(Seq::empty()), s)
    } else {
        match parse_header(s) {
            (Err(e), rest) => (Err(e), rest),
            (Ok(first), rest) => match parse_entries(rest, (count - 1) as nat) {
                (Err(e), rest) => (Err(e), rest),
                (Ok(others), rest) => (Ok(seq![first] + others), rest),
            },
        }
    }
}

/// Reads a count and that many headers: the outcome, and what is left to read.
pub open spec fn parse_headers(s: Seq<u8>) -> (Result<Seq<HeaderView>, FieldErrorView>, Seq<u8>) {
    if s.len() < 4 {
        (Err(FieldErrorView::TruncatedHeaderCount), s)
    } else {
        parse_entries(s.skip(4), be_value(s.take(4)))
    }
}

/// Reads a body: the outcome, and what is left to read.
pub open spec fn parse_body(s: Seq<u8>) -> (Result<Seq<u8>, FieldErrorView>, Seq<u8>) {
    match parse_block(s) {
        Block::NoLength => (Err(FieldErrorView::TruncatedBodyLength), s),
        Block::Short(rest) => (Err(FieldErrorView::TruncatedBodyData), rest),
        Block::Found(data, rest) => (Ok(data), rest),
    }
}

/// Reads headers and a body.
pub open spec fn parse_message(s: Seq<u8>) -> Result<(Seq<HeaderView>, Seq<u8>), FrameErrorView> {
    match parse_headers(s) {
        (Err(e), _) => Err(FrameErrorView::Headers(e)),
        (Ok(headers), rest) => match parse_body(rest).0 {
            Err(e) => Err(FrameErrorView::Body(e)),
            Ok(body) => Ok((headers, body)),
        },
    }
}

/// Reads the payload of a request.
pub open spec fn parse_request(s: Seq<u8>) -> Result<RequestView, FrameErrorView> {
    match parse_string(s) {
        (Err(e), _) => Err(FrameErrorView::Method(e)),
        (Ok(method), rest) => match parse_string(rest) {
            (Err(e), _) => Err(FrameErrorView::Uri(e)),
            (Ok(uri), rest) => match parse_message(rest) {
                Err(e) => Err(e),
                Ok((headers, body)) => Ok(RequestView { method, uri, headers, body }),
            },
        },
    }
}

/// Reads the payload of a response.
pub open spec fn parse_response(s: Seq<u8>) -> Result<ResponseView, FrameErrorView> {
    if s.len() < 2 {
        Err(FrameErrorView::TruncatedStatus)
    } else {
        let status = be_value(s.take(2)) as u16;
        match parse_message(s.skip(2)) {
            Err(e) => Err(e),
            Ok((headers, body)) => Ok(ResponseView { status, headers, body }),
        }
    }
}

/// Reads what follows a type byte. Bytes after the last field do not matter.
pub open spec fn parse_payload(kind: u8, s: Seq<u8>) -> Result<FrameView, FrameErrorView> {
    if kind == FRAME_REQUEST {
        match parse_request(s) {
            Err(e) => Err(e),
            Ok(request) => Ok(FrameView::Request(request)),
        }
    } else if kind == FRAME_RESPONSE {
        match parse_response(s) {
            Err(e) => Err(e),
            Ok(response) => Ok(FrameView::Response(response)),
        }
    } else if kind == FRAME_ERROR {
        match parse_string(s).0 {
            Err(e) => Err(FrameErrorView::ErrorMessage(e)),
            Ok(message) => Ok(FrameView::Error(message)),
        }
    } else {
        Err(FrameErrorView::UnknownType(kind))
    }
}

/// The sixteen octets of a stream id.
pub open spec fn id_of_octets(octets: Seq<u8>) -> StreamId {
    StreamId { value: be_value(octets) as u128 }
}

/// Reads a binary message.
pub open spec fn parse_frame(data: Seq<u8>) -> Result<(StreamId, FrameView), FrameErrorView> {
    if data.len() < 17 {
        Err(FrameErrorView::TooShort)
    } else {
        match parse_payload(data[16], data.skip(17)) {
            Err(e) => Err(e),
            Ok(frame) => Ok((id_of_octets(data.take(16)), frame)),
        }
    }
}

} // verus!
