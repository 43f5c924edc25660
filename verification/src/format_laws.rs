//! What the frame format promises: reading undoes writing, a message has one
//! meaning, and a message that was cut short is refused.
use vstd::prelude::*;
use vstd::utf8::{
    decode_utf8, decode_utf8_encode_utf8, encode_utf8, encode_utf8_decode_utf8,
    encode_utf8_valid_utf8, valid_utf8,
};

use crate::format::{
    block_bytes, entries_bytes, frame_bytes, frame_fits, frame_type, header_bytes, headers_bytes,
    parse_block, parse_body, parse_entries, parse_frame, parse_header, parse_headers,
    parse_message, parse_payload, parse_request, parse_response, parse_string, payload_bytes,
    string_bytes, Block,
};
use crate::frame::{
    FieldErrorView, FrameErrorView, FrameView, HeaderView, RequestView, ResponseView,
};
use crate::stream_id::StreamId;
use crate::text::utf8_complaint;
use crate::wire::{
    be_bytes, be_value, lemma_be_bytes_len, lemma_be_bytes_of_value, lemma_be_bytes_wrap,
    lemma_be_capacities, lemma_be_value_of_bytes,
};

verus! {

/// The length can be written in four bytes.
pub open spec fn short(len: nat) -> bool {
    len < 0x1_0000_0000
}

/// The lengths within one header can be written in four bytes.
pub open spec fn header_is_short(header: HeaderView) -> bool {
    short(encode_utf8(header.0).len()) && short(header.1.len())
}

/// The number of headers, and the lengths within them, can be written in four
/// bytes.
pub open spec fn headers_are_short(headers: Seq<HeaderView>) -> bool {
    &&& short(headers.len())
    &&& forall|i: int| 0 <= i < headers.len() ==> header_is_short(#[trigger] headers[i])
}

/// Every length that the frame is written with can be written in four bytes.
pub open spec fn frame_is_short(frame: FrameView) -> bool {
    match frame {
        FrameView::Request(r) => {
            &&& short(encode_utf8(r.method).len())
            &&& short(encode_utf8(r.uri).len())
            &&& headers_are_short(r.headers)
            &&& short(r.body.len())
        },
        FrameView::Response(r) => headers_are_short(r.headers) && short(r.body.len()),
        FrameView::Error(message) => short(encode_utf8(message).len()),
    }
}

/// Decoding an encoded frame gives back the stream id and the frame, for every
/// frame whose lengths can be written in four bytes.
pub proof fn law_decode_undoes_encode(id: StreamId, frame: FrameView)
    requires
        frame_is_short(frame),
    ensures
        parse_frame(frame_bytes(id, frame)) == Ok::<_, FrameErrorView>((id, frame)),
{
    lemma_frame_read(id, frame, Seq::empty());
    assert(frame_bytes(id, frame) + Seq::<u8>::empty() =~= frame_bytes(id, frame));
}

/// A message that decodes begins with the encoding of what it decodes to.
pub proof fn law_encode_undoes_decode(data: Seq<u8>)
    requires
        parse_frame(data) is Ok,
    ensures
        ({
            let (id, frame) = parse_frame(data)->Ok_0;
            frame_is_short(frame) && frame_bytes(id, frame).is_prefix_of(data)
        }),
{
    let (id, frame) = parse_frame(data)->Ok_0;
    let rest = lemma_frame_written(data);
    assert(frame_bytes(id, frame) =~= data.take(frame_bytes(id, frame).len() as int));
}

/// Bytes after a frame do not change what it decodes to.
pub proof fn law_trailing_bytes_are_ignored(data: Seq<u8>, extra: Seq<u8>)
    requires
        parse_frame(data) is Ok,
    ensures
        parse_frame(data + extra) == parse_frame(data),
{
    let (id, frame) = parse_frame(data)->Ok_0;
    let rest = lemma_frame_written(data);
    lemma_frame_read(id, frame, rest + extra);
    lemma_concat(frame_bytes(id, frame), rest, extra);
}

/// Two different frames, or the same frame for two connections, are never
/// encoded alike, nor is one encoding the beginning of another.
pub proof fn law_encoding_is_prefix_free(
    id1: StreamId,
    frame1: FrameView,
    id2: StreamId,
    frame2: FrameView,
)
    requires
        frame_is_short(frame1),
        frame_is_short(frame2),
        frame_bytes(id1, frame1).is_prefix_of(frame_bytes(id2, frame2)),
    ensures
        id1 == id2,
        frame1 == frame2,
{
    let data1 = frame_bytes(id1, frame1);
    let data2 = frame_bytes(id2, frame2);
    let extra = data2.skip(data1.len() as int);
    assert(data2 == data1 + extra) by {
        assert(data2 =~= data1 + extra);
    }
    lemma_frame_read(id1, frame1, extra);
    law_decode_undoes_encode(id2, frame2);
    lemma_one_outcome(parse_frame(data2), id1, frame1, id2, frame2);
}

/// A message decodes to a frame exactly when it begins with the frame's encoding.
pub proof fn law_message_decodes_where_it_begins(data: Seq<u8>, id: StreamId, frame: FrameView)
    requires
        frame_is_short(frame),
    ensures
        parse_frame(data) == Ok::<_, FrameErrorView>((id, frame)) <==> frame_bytes(
            id,
            frame,
        ).is_prefix_of(data),
{
    let bytes = frame_bytes(id, frame);
    if bytes.is_prefix_of(data) {
        let extra = data.skip(bytes.len() as int);
        assert(data == bytes + extra) by {
            assert(data =~= bytes + extra);
        }
        lemma_frame_read(id, frame, extra);
    } else if parse_frame(data) == Ok::<_, FrameErrorView>((id, frame)) {
        law_encode_undoes_decode(data);
        lemma_one_outcome(
            parse_frame(data),
            id,
            frame,
            (parse_frame(data)->Ok_0).0,
            (parse_frame(data)->Ok_0).1,
        );
    }
}

proof fn lemma_one_outcome(
    outcome: Result<(StreamId, FrameView), FrameErrorView>,
    id1: StreamId,
    frame1: FrameView,
    id2: StreamId,
    frame2: FrameView,
)
    requires
        outcome == Ok::<_, FrameErrorView>((id1, frame1)),
        outcome == Ok::<_, FrameErrorView>((id2, frame2)),
    ensures
        id1 == id2,
        frame1 == frame2,
{
}

/// An encoded frame that was cut short does not decode.
pub proof fn law_truncated_frame_is_refused(id: StreamId, frame: FrameView, len: int)
    requires
        frame_is_short(frame),
        0 <= len < frame_bytes(id, frame).len(),
    ensures
        parse_frame(frame_bytes(id, frame).take(len)) is Err,
{
    let whole = frame_bytes(id, frame);
    let part = whole.take(len);
    if parse_frame(part) is Ok {
        let extra = whole.skip(len);
        assert(whole =~= part + extra);
        law_trailing_bytes_are_ignored(part, extra);
        law_decode_undoes_encode(id, frame);
        law_encode_undoes_decode(part);
        assert(false);
    }
}

/// A message carries the stream id in its first sixteen bytes and the frame
/// type in the seventeenth.
pub proof fn law_frame_layout(id: StreamId, frame: FrameView)
    ensures
        frame_bytes(id, frame).len() >= 17,
        frame_bytes(id, frame).take(16) == id.octets(),
        frame_bytes(id, frame)[16] == frame_type(frame),
        frame_bytes(id, frame).skip(17) == payload_bytes(frame),
{
    lemma_be_bytes_len(id.value as nat, 16);
    assert(frame_bytes(id, frame).take(16) =~= id.octets());
    assert(frame_bytes(id, frame).skip(17) =~= payload_bytes(frame));
}

// Reading what was written.

proof fn lemma_block_read(data: Seq<u8>, rest: Seq<u8>)
    requires
        short(data.len()),
    ensures
        parse_block(block_bytes(data) + rest) == Block::Found(data, rest),
{
    lemma_be_bytes_len(data.len(), 4);
    lemma_be_capacities();
    lemma_be_value_of_bytes(data.len(), 4);
    let s = block_bytes(data) + rest;
    assert(s.take(4) =~= be_bytes(data.len(), 4));
    assert(s.skip(4) =~= data + rest);
    assert((data + rest).take(data.len() as int) =~= data);
    assert((data + rest).skip(data.len() as int) =~= rest);
}

proof fn lemma_string_read(text: Seq<char>, rest: Seq<u8>)
    requires
        short(encode_utf8(text).len()),
    ensures
        parse_string(string_bytes(text) + rest) == (Ok::<_, FieldErrorView>(text), rest),
{
    lemma_block_read(encode_utf8(text), rest);
    encode_utf8_valid_utf8(text);
    encode_utf8_decode_utf8(text);
}

proof fn lemma_header_read(header: HeaderView, rest: Seq<u8>)
    requires
        header_is_short(header),
    ensures
        parse_header(header_bytes(header) + rest) == (Ok::<_, FieldErrorView>(header), rest),
{
    let after = block_bytes(header.1) + rest;
    assert(header_bytes(header) + rest =~= string_bytes(header.0) + after);
    lemma_string_read(header.0, after);
    lemma_block_read(header.1, rest);
}

proof fn lemma_entries_read(headers: Seq<HeaderView>, rest: Seq<u8>)
    requires
        forall|i: int| 0 <= i < headers.len() ==> header_is_short(#[trigger] headers[i]),
    ensures
        parse_entries(entries_bytes(headers) + rest, headers.len()) == (
            Ok::<_, FieldErrorView>(headers),
            rest,
        ),
    decreases headers.len(),
{
    if headers.len() == 0 {
        assert(entries_bytes(headers) + rest =~= rest);
        assert(headers =~= Seq::<HeaderView>::empty());
    } else {
        let others = headers.drop_first();
        let after = entries_bytes(others) + rest;
        assert(entries_bytes(headers) + rest =~= header_bytes(headers[0]) + after);
        lemma_header_read(headers[0], after);
        assert forall|i: int| 0 <= i < others.len() implies header_is_short(
            #[trigger] others[i],
        ) by {
            assert(others[i] == headers[i + 1]);
        }
        lemma_entries_read(others, rest);
        assert(seq![headers[0]] + others =~= headers);
    }
}

proof fn lemma_message_read(headers: Seq<HeaderView>, body: Seq<u8>, rest: Seq<u8>)
    requires
        headers_are_short(headers),
        short(body.len()),
    ensures
        parse_message(headers_bytes(headers) + block_bytes(body) + rest) == Ok::<_, FrameErrorView>(
            (headers, body),
        ),
{
    let s = headers_bytes(headers) + block_bytes(body) + rest;
    let after = block_bytes(body) + rest;
    lemma_be_bytes_len(headers.len(), 4);
    lemma_be_capacities();
    lemma_be_value_of_bytes(headers.len(), 4);
    assert(s.take(4) =~= be_bytes(headers.len(), 4));
    assert(s.skip(4) =~= entries_bytes(headers) + after);
    lemma_entries_read(headers, after);
    lemma_block_read(body, rest);
}

proof fn lemma_request_read(r: RequestView, rest: Seq<u8>)
    requires
        frame_is_short(FrameView::Request(r)),
    ensures
        parse_request(payload_bytes(FrameView::Request(r)) + rest) == Ok::<_, FrameErrorView>(r),
{
    let message = headers_bytes(r.headers) + block_bytes(r.body) + rest;
    let after = string_bytes(r.uri) + message;
    assert(payload_bytes(FrameView::Request(r)) + rest =~= string_bytes(r.method) + after);
    lemma_string_read(r.method, after);
    lemma_string_read(r.uri, message);
    lemma_message_read(r.headers, r.body, rest);
}

proof fn lemma_response_read(r: ResponseView, rest: Seq<u8>)
    requires
        frame_is_short(FrameView::Response(r)),
    ensures
        parse_response(payload_bytes(FrameView::Response(r)) + rest) == Ok::<_, FrameErrorView>(r),
{
    let s = payload_bytes(FrameView::Response(r)) + rest;
    lemma_be_bytes_len(r.status as nat, 2);
    lemma_be_capacities();
    lemma_be_value_of_bytes(r.status as nat, 2);
    assert(s.take(2) =~= be_bytes(r.status as nat, 2));
    assert(s.skip(2) =~= headers_bytes(r.headers) + block_bytes(r.body) + rest);
    lemma_message_read(r.headers, r.body, rest);
}

proof fn lemma_payload_read(frame: FrameView, rest: Seq<u8>)
    requires
        frame_is_short(frame),
    ensures
        parse_payload(frame_type(frame), payload_bytes(frame) + rest) == Ok::<_, FrameErrorView>(
            frame,
        ),
{
    match frame {
        FrameView::Request(r) => lemma_request_read(r, rest),
        FrameView::Response(r) => lemma_response_read(r, rest),
        FrameView::Error(message) => lemma_string_read(message, rest),
    }
}

// What was read is what was written.

proof fn lemma_block_written(s: Seq<u8>)
    ensures
        parse_block(s) matches Block::Found(data, rest) ==> short(data.len()) && s == block_bytes(
            data,
        ) + rest,
{
    if let Block::Found(data, rest) = parse_block(s) {
        lemma_be_bytes_of_value(s.take(4));
        lemma_be_capacities();
        assert(s =~= s.take(4) + data + rest);
        assert(s =~= block_bytes(data) + rest);
    }
}

proof fn lemma_string_written(s: Seq<u8>)
    ensures
        parse_string(s).0 matches Ok(text) ==> short(encode_utf8(text).len()) && s
            == string_bytes(text) + parse_string(s).1,
{
    lemma_block_written(s);
    if let Block::Found(data, _) = parse_block(s) {
        if valid_utf8(data) {
            decode_utf8_encode_utf8(data);
        }
    }
}

proof fn lemma_header_written(s: Seq<u8>)
    ensures
        parse_header(s).0 matches Ok(header) ==> header_is_short(header) && s == header_bytes(
            header,
        ) + parse_header(s).1,
{
    lemma_string_written(s);
    lemma_block_written(parse_string(s).1);
    if let Ok(header) = parse_header(s).0 {
        assert(s =~= header_bytes(header) + parse_header(s).1);
    }
}

proof fn lemma_entries_written(s: Seq<u8>, count: nat)
    ensures
        parse_entries(s, count).0 matches Ok(headers) ==> {
            &&& headers.len() == count
            &&& forall|i: int| 0 <= i < headers.len() ==> header_is_short(#[trigger] headers[i])
            &&& s == entries_bytes(headers) + parse_entries(s, count).1
        },
    decreases count,
{
    if count == 0 {
        assert(s =~= entries_bytes(Seq::empty()) + s);
    } else {
        lemma_header_written(s);
        let after = parse_header(s).1;
        lemma_entries_written(after, (count - 1) as nat);
        if let Ok(headers) = parse_entries(s, count).0 {
            let first = parse_header(s).0->Ok_0;
            let others = parse_entries(after, (count - 1) as nat).0->Ok_0;
            assert(headers == seq![first] + others);
            assert(headers.drop_first() =~= others);
            assert forall|i: int| 0 <= i < headers.len() implies header_is_short(
                #[trigger] headers[i],
            ) by {
                if i > 0 {
                    assert(headers[i] == others[i - 1]);
                }
            }
            assert(s =~= entries_bytes(headers) + parse_entries(s, count).1);
        }
    }
}

proof fn lemma_message_written(s: Seq<u8>) -> (rest: Seq<u8>)
    ensures
        parse_message(s) matches Ok((headers, body)) ==> {
            &&& headers_are_short(headers)
            &&& short(body.len())
            &&& s == headers_bytes(headers) + block_bytes(body) + rest
        },
{
    if let Ok((headers, body)) = parse_message(s) {
        lemma_be_bytes_of_value(s.take(4));
        lemma_be_capacities();
        lemma_entries_written(s.skip(4), be_value(s.take(4)));
        let after = parse_headers(s).1;
        lemma_block_written(after);
        let rest = parse_body(after).1;
        assert(s =~= s.take(4) + s.skip(4));
        assert(s =~= headers_bytes(headers) + block_bytes(body) + rest);
        rest
    } else {
        Seq::empty()
    }
}

proof fn lemma_request_written(s: Seq<u8>) -> (rest: Seq<u8>)
    ensures
        parse_request(s) matches Ok(r) ==> {
            &&& frame_is_short(FrameView::Request(r))
            &&& s == payload_bytes(FrameView::Request(r)) + rest
        },
{
    if let Ok(r) = parse_request(s) {
        lemma_string_written(s);
        let after = parse_string(s).1;
        lemma_string_written(after);
        let message = parse_string(after).1;
        let rest = lemma_message_written(message);
        assert(s == string_bytes(r.method) + (string_bytes(r.uri) + message));
        assert(s =~= payload_bytes(FrameView::Request(r)) + rest);
        rest
    } else {
        Seq::empty()
    }
}

proof fn lemma_response_written(s: Seq<u8>) -> (rest: Seq<u8>)
    ensures
        parse_response(s) matches Ok(r) ==> {
            &&& frame_is_short(FrameView::Response(r))
            &&& s == payload_bytes(FrameView::Response(r)) + rest
        },
{
    if let Ok(r) = parse_response(s) {
        lemma_be_bytes_of_value(s.take(2));
        lemma_be_capacities();
        let rest = lemma_message_written(s.skip(2));
        assert(s =~= s.take(2) + s.skip(2));
        assert(s =~= payload_bytes(FrameView::Response(r)) + rest);
        rest
    } else {
        Seq::empty()
    }
}

/// What is left after the payload that was read.
proof fn lemma_payload_written(kind: u8, s: Seq<u8>) -> (rest: Seq<u8>)
    ensures
        parse_payload(kind, s) matches Ok(frame) ==> {
            &&& kind == frame_type(frame)
            &&& frame_is_short(frame)
            &&& s == payload_bytes(frame) + rest
        },
{
    match parse_payload(kind, s) {
        Ok(FrameView::Request(_)) => lemma_request_written(s),
        Ok(FrameView::Response(_)) => lemma_response_written(s),
        Ok(FrameView::Error(_)) => {
            lemma_string_written(s);
            parse_string(s).1
        },
        Err(_) => Seq::empty(),
    }
}

/// A message that decodes is the encoding of what it decodes to and some more.
proof fn lemma_frame_written(data: Seq<u8>) -> (rest: Seq<u8>)
    requires
        parse_frame(data) is Ok,
    ensures
        ({
            let (id, frame) = parse_frame(data)->Ok_0;
            frame_is_short(frame) && data == frame_bytes(id, frame) + rest
        }),
{
    let (id, frame) = parse_frame(data)->Ok_0;
    let octets = data.take(16);
    let payload = data.skip(17);
    lemma_be_bytes_of_value(octets);
    lemma_be_capacities();
    assert(id.octets() == octets);
    let rest = lemma_payload_written(data[16], payload);
    lemma_concat(octets.push(data[16]), payload_bytes(frame), rest);
    assert(data =~= octets.push(data[16]) + payload);
    rest
}

/// A frame and some more decodes to the frame.
proof fn lemma_frame_read(id: StreamId, frame: FrameView, rest: Seq<u8>)
    requires
        frame_is_short(frame),
    ensures
        parse_frame(frame_bytes(id, frame) + rest) == Ok::<_, FrameErrorView>((id, frame)),
{
    let data = frame_bytes(id, frame) + rest;
    lemma_be_bytes_len(id.value as nat, 16);
    lemma_be_capacities();
    lemma_be_value_of_bytes(id.value as nat, 16);
    let payload = payload_bytes(frame);
    assert(data.take(16) =~= id.octets());
    assert(data.skip(17) =~= payload + rest);
    assert(data[16] == frame_type(frame));
    lemma_payload_read(frame, rest);
}

proof fn lemma_concat(a: Seq<u8>, b: Seq<u8>, c: Seq<u8>)
    ensures
        (a + b) + c == a + (b + c),
{
    assert((a + b) + c =~= a + (b + c));
}

// The bytes of every field, and the error for every way in which they can be wrong.

/// The number that four bytes denote, the first one the most significant.
pub open spec fn four_bytes(s: Seq<u8>) -> int {
    s[0] * 0x100_0000 + s[1] * 0x1_0000 + s[2] * 0x100 + s[3]
}

proof fn lemma_four_bytes(s: Seq<u8>)
    requires
        s.len() >= 4,
    ensures
        be_value(s.take(4)) == four_bytes(s),
{
    let a = s.take(4);
    reveal_with_fuel(be_value, 5);
    let b = a.drop_last();
    let c = b.drop_last();
    let d = c.drop_last();
    assert(d.drop_last().len() == 0);
    assert(a.last() == s[3] && b.last() == s[2] && c.last() == s[1] && d.last() == s[0]);
}

/// A block is the low four bytes of its length, the most significant first, and then
/// its data.
pub proof fn law_block_layout(data: Seq<u8>)
    ensures
        block_bytes(data).len() == 4 + data.len(),
        four_bytes(block_bytes(data)) == data.len() % 0x1_0000_0000,
        block_bytes(data).skip(4) == data,
{
    lemma_be_bytes_len(data.len(), 4);
    lemma_be_capacities();
    lemma_be_bytes_wrap(data.len(), 4);
    lemma_be_value_of_bytes(data.len() % 0x1_0000_0000, 4);
    let s = block_bytes(data);
    assert(s.take(4) =~= be_bytes(data.len(), 4));
    assert(s.skip(4) =~= data);
    lemma_four_bytes(s);
}

/// Headers are the low four bytes of their number, and then each header in turn: its name
/// as a block of UTF-8, and its value as a block.
pub proof fn law_headers_layout(headers: Seq<HeaderView>, header: HeaderView)
    ensures
        headers_bytes(headers).len() >= 4,
        four_bytes(headers_bytes(headers)) == headers.len() % 0x1_0000_0000,
        headers_bytes(headers).skip(4) == entries_bytes(headers),
        entries_bytes(headers.push(header)) == entries_bytes(headers) + (block_bytes(
            encode_utf8(header.0),
        ) + block_bytes(header.1)),
        entries_bytes(Seq::empty()) == Seq::<u8>::empty(),
{
    lemma_be_bytes_len(headers.len(), 4);
    lemma_be_capacities();
    lemma_be_bytes_wrap(headers.len(), 4);
    lemma_be_value_of_bytes(headers.len() % 0x1_0000_0000, 4);
    let s = headers_bytes(headers);
    assert(s.take(4) =~= be_bytes(headers.len(), 4));
    assert(s.skip(4) =~= entries_bytes(headers));
    lemma_four_bytes(s);
    lemma_entries_push(headers, header);
}

proof fn lemma_entries_push(headers: Seq<HeaderView>, header: HeaderView)
    ensures
        entries_bytes(headers.push(header)) == entries_bytes(headers) + header_bytes(header),
    decreases headers.len(),
{
    let all = headers.push(header);
    if headers.len() == 0 {
        assert(all.drop_first() =~= Seq::empty());
        reveal_with_fuel(entries_bytes, 2);
        assert(entries_bytes(all) =~= header_bytes(header));
        assert(entries_bytes(headers) + header_bytes(header) =~= header_bytes(header));
    } else {
        assert(all.drop_first() =~= headers.drop_first().push(header));
        lemma_entries_push(headers.drop_first(), header);
        lemma_concat(
            header_bytes(headers[0]),
            entries_bytes(headers.drop_first()),
            header_bytes(header),
        );
    }
}

/// The three kinds of frames have the types 1, 2 and 3. A request is its method and
/// its URI as blocks of UTF-8, its headers, and its body as a block; a response is
/// its status in two bytes, the most significant first, its headers, and its body as
/// a block; an error is its message as a block of UTF-8.
pub proof fn law_payload_layout(frame: FrameView)
    ensures
        match frame {
            FrameView::Request(r) => frame_type(frame) == 1 && payload_bytes(frame) == block_bytes(
                encode_utf8(r.method),
            ) + block_bytes(encode_utf8(r.uri)) + headers_bytes(r.headers) + block_bytes(r.body),
            FrameView::Response(r) => frame_type(frame) == 2 && payload_bytes(frame) == seq![
                (r.status / 256) as u8,
                (r.status % 256) as u8,
            ] + headers_bytes(r.headers) + block_bytes(r.body),
            FrameView::Error(message) => frame_type(frame) == 3 && payload_bytes(frame)
                == block_bytes(encode_utf8(message)),
        },
{
    if let FrameView::Response(r) = frame {
        reveal_with_fuel(be_bytes, 3);
        assert(be_bytes(r.status as nat, 2) =~= seq![
            (r.status / 256) as u8,
            (r.status % 256) as u8,
        ]);
    }
}

/// The stream id stands in sixteen bytes, the most significant first.
pub proof fn law_stream_id_layout(id: StreamId, other: StreamId)
    ensures
        id.octets().len() == 16,
        be_value(id.octets()) == id.value,
        id.octets() == other.octets() ==> id == other,
{
    lemma_be_capacities();
    lemma_be_bytes_len(id.value as nat, 16);
    lemma_be_value_of_bytes(id.value as nat, 16);
    lemma_be_value_of_bytes(other.value as nat, 16);
}

/// A byte more multiplies the number by 256 and adds the byte.
pub proof fn law_bytes_denote_numbers(s: Seq<u8>, byte: u8)
    ensures
        be_value(s.push(byte)) == be_value(s) * 256 + byte,
        be_value(Seq::empty()) == 0,
{
    assert(s.push(byte).drop_last() =~= s);
}

/// A frame can be encoded exactly when its message is no longer than a quarter of
/// what a machine word can count.
pub proof fn law_frame_fits(id: StreamId, frame: FrameView)
    ensures
        frame_fits(frame) <==> frame_bytes(id, frame).len() <= usize::MAX / 4,
{
    lemma_be_bytes_len(id.value as nat, 16);
}

/// A block is read exactly when its length and that many bytes are there.
proof fn lemma_block_parse(s: Seq<u8>)
    ensures
        s.len() < 4 ==> parse_block(s) == Block::NoLength,
        s.len() >= 4 && s.len() - 4 < four_bytes(s) ==> parse_block(s) == Block::Short(s.skip(4)),
        s.len() >= 4 && s.len() - 4 >= four_bytes(s) ==> parse_block(s) == Block::Found(
            s.subrange(4, 4 + four_bytes(s)),
            s.skip(4 + four_bytes(s)),
        ),
{
    if s.len() >= 4 {
        lemma_four_bytes(s);
        let n = four_bytes(s);
        if s.len() - 4 >= n {
            assert(s.skip(4).take(n) =~= s.subrange(4, 4 + n));
            assert(s.skip(4).skip(n) =~= s.skip(4 + n));
        }
    }
}

/// A string is read exactly when its length, that many bytes, and UTF-8 in them are
/// there. Else the error says which of these is missing, and only a length that is
/// there is taken off.
pub proof fn law_string_is_read(s: Seq<u8>)
    ensures
        s.len() < 4 ==> parse_string(s) == (
            Err::<Seq<char>, _>(FieldErrorView::TruncatedStringLength),
            s,
        ),
        s.len() >= 4 && s.len() - 4 < four_bytes(s) ==> parse_string(s) == (
            Err::<Seq<char>, _>(FieldErrorView::TruncatedStringData),
            s.skip(4),
        ),
        s.len() >= 4 && s.len() - 4 >= four_bytes(s) ==> ({
            let data = s.subrange(4, 4 + four_bytes(s));
            if valid_utf8(data) {
                parse_string(s) == (
                    Ok::<_, FieldErrorView>(decode_utf8(data)),
                    s.skip(4 + four_bytes(s)),
                )
            } else {
                parse_string(s) == (
                    Err::<Seq<char>, _>(FieldErrorView::InvalidUtf8(utf8_complaint(data))),
                    s.skip(4),
                )
            }
        }),
{
    lemma_block_parse(s);
}

/// A body is read exactly when its length and that many bytes are there. Else the
/// error says which of these is missing, and only a length that is there is taken
/// off.
pub proof fn law_body_is_read(s: Seq<u8>)
    ensures
        s.len() < 4 ==> parse_body(s) == (
            Err::<Seq<u8>, _>(FieldErrorView::TruncatedBodyLength),
            s,
        ),
        s.len() >= 4 && s.len() - 4 < four_bytes(s) ==> parse_body(s) == (
            Err::<Seq<u8>, _>(FieldErrorView::TruncatedBodyData),
            s.skip(4),
        ),
        s.len() >= 4 && s.len() - 4 >= four_bytes(s) ==> parse_body(s) == (
            Ok::<_, FieldErrorView>(s.subrange(4, 4 + four_bytes(s))),
            s.skip(4 + four_bytes(s)),
        ),
{
    lemma_block_parse(s);
}

/// A header is its name and its value: what is wrong with the name is reported
/// first, and behind a good name the value is read exactly when its length and that
/// many bytes are there.
pub proof fn law_header_is_read(s: Seq<u8>, name: Seq<char>, rest: Seq<u8>)
    requires
        short(encode_utf8(name).len()),
    ensures
        parse_string(s) matches (Err(e), left) ==> parse_header(s) == (
            Err::<HeaderView, _>(e),
            left,
        ),
        ({
            let all = block_bytes(encode_utf8(name)) + rest;
            &&& rest.len() < 4 ==> parse_header(all) == (
                Err::<HeaderView, _>(FieldErrorView::TruncatedHeaderValueLength),
                rest,
            )
            &&& rest.len() >= 4 && rest.len() - 4 < four_bytes(rest) ==> parse_header(all) == (
                Err::<HeaderView, _>(FieldErrorView::TruncatedHeaderValue),
                rest.skip(4),
            )
            &&& rest.len() >= 4 && rest.len() - 4 >= four_bytes(rest) ==> parse_header(all) == (
                Ok::<_, FieldErrorView>((name, rest.subrange(4, 4 + four_bytes(rest)))),
                rest.skip(4 + four_bytes(rest)),
            )
        }),
{
    lemma_string_read(name, rest);
    lemma_block_parse(rest);
}

/// Headers are read in turn: behind good headers the first bad one is reported, and
/// without room for their number that is.
pub proof fn law_first_bad_header_is_reported(
    good: Seq<HeaderView>,
    tail: Seq<u8>,
    count: nat,
    s: Seq<u8>,
)
    requires
        headers_are_short(good),
        good.len() < count,
        short(count),
    ensures
        parse_header(tail) matches (Err(e), left) ==> parse_headers(
            be_bytes(count, 4) + (entries_bytes(good) + tail),
        ) == (Err::<Seq<HeaderView>, _>(e), left),
        s.len() < 4 ==> parse_headers(s) == (
            Err::<Seq<HeaderView>, _>(FieldErrorView::TruncatedHeaderCount),
            s,
        ),
{
    let all = be_bytes(count, 4) + (entries_bytes(good) + tail);
    lemma_be_bytes_len(count, 4);
    lemma_be_capacities();
    lemma_be_value_of_bytes(count, 4);
    assert(all.take(4) =~= be_bytes(count, 4));
    assert(all.skip(4) =~= entries_bytes(good) + tail);
    lemma_bad_entry(good, tail, count);
}

proof fn lemma_bad_entry(good: Seq<HeaderView>, tail: Seq<u8>, count: nat)
    requires
        forall|i: int| 0 <= i < good.len() ==> header_is_short(#[trigger] good[i]),
        good.len() < count,
    ensures
        parse_header(tail) matches (Err(e), left) ==> parse_entries(
            entries_bytes(good) + tail,
            count,
        ) == (Err::<Seq<HeaderView>, _>(e), left),
    decreases good.len(),
{
    if good.len() == 0 {
        assert(entries_bytes(good) + tail =~= tail);
    } else {
        let others = good.drop_first();
        let after = entries_bytes(others) + tail;
        assert(entries_bytes(good) + tail =~= header_bytes(good[0]) + after);
        lemma_header_read(good[0], after);
        assert forall|i: int| 0 <= i < others.len() implies header_is_short(
            #[trigger] others[i],
        ) by {
            assert(others[i] == good[i + 1]);
        }
        lemma_bad_entry(others, tail, (count - 1) as nat);
    }
}

/// A message is too short exactly when it has fewer than seventeen bytes, and its
/// type is unknown exactly when it is none of the three.
pub proof fn law_what_is_no_frame(data: Seq<u8>)
    ensures
        parse_frame(data) == Err::<(StreamId, FrameView), _>(FrameErrorView::TooShort)
            <==> data.len() < 17,
        data.len() >= 17 ==> (parse_frame(data) == Err::<(StreamId, FrameView), _>(
            FrameErrorView::UnknownType(data[16]),
        ) <==> data[16] != 1 && data[16] != 2 && data[16] != 3),
{
}

/// The fields of a request are read in turn, and the first one that cannot be read
/// is reported.
pub proof fn law_first_bad_request_field_is_reported(
    method: Seq<char>,
    uri: Seq<char>,
    headers: Seq<HeaderView>,
    tail: Seq<u8>,
)
    requires
        short(encode_utf8(method).len()),
        short(encode_utf8(uri).len()),
        headers_are_short(headers),
    ensures
        parse_string(tail).0 matches Err(e) ==> parse_payload(1, tail) == Err::<FrameView, _>(
            FrameErrorView::Method(e),
        ),
        parse_string(tail).0 matches Err(e) ==> parse_payload(
            1,
            block_bytes(encode_utf8(method)) + tail,
        ) == Err::<FrameView, _>(FrameErrorView::Uri(e)),
        parse_headers(tail).0 matches Err(e) ==> parse_payload(
            1,
            block_bytes(encode_utf8(method)) + (block_bytes(encode_utf8(uri)) + tail),
        ) == Err::<FrameView, _>(FrameErrorView::Headers(e)),
        parse_body(tail).0 matches Err(e) ==> parse_payload(
            1,
            block_bytes(encode_utf8(method)) + (block_bytes(encode_utf8(uri)) + (headers_bytes(
                headers,
            ) + tail)),
        ) == Err::<FrameView, _>(FrameErrorView::Body(e)),
{
    lemma_string_read(method, tail);
    lemma_bad_request_message(method, uri, tail);
    lemma_bad_request_message(method, uri, headers_bytes(headers) + tail);
    lemma_bad_body(headers, tail);
}

proof fn lemma_bad_request_message(method: Seq<char>, uri: Seq<char>, message: Seq<u8>)
    requires
        short(encode_utf8(method).len()),
        short(encode_utf8(uri).len()),
    ensures
        parse_message(message) matches Err(e) ==> parse_payload(
            1,
            block_bytes(encode_utf8(method)) + (block_bytes(encode_utf8(uri)) + message),
        ) == Err::<FrameView, _>(e),
{
    lemma_string_read(method, block_bytes(encode_utf8(uri)) + message);
    lemma_string_read(uri, message);
}

proof fn lemma_bad_body(headers: Seq<HeaderView>, tail: Seq<u8>)
    requires
        headers_are_short(headers),
    ensures
        parse_body(tail).0 matches Err(e) ==> parse_message(headers_bytes(headers) + tail) == Err::<
            (Seq<HeaderView>, Seq<u8>),
            _,
        >(FrameErrorView::Body(e)),
{
    law_headers_are_read(headers, tail);
}

/// Headers are read back as they were written, and what follows them is left.
pub proof fn law_headers_are_read(headers: Seq<HeaderView>, rest: Seq<u8>)
    requires
        headers_are_short(headers),
    ensures
        parse_headers(headers_bytes(headers) + rest) == (Ok::<_, FieldErrorView>(headers), rest),
{
    let s = headers_bytes(headers) + rest;
    lemma_be_bytes_len(headers.len(), 4);
    lemma_be_capacities();
    lemma_be_value_of_bytes(headers.len(), 4);
    assert(s.take(4) =~= be_bytes(headers.len(), 4));
    assert(s.skip(4) =~= entries_bytes(headers) + rest);
    lemma_entries_read(headers, rest);
}

/// The fields of a response and of an error are read in turn, and the first one that
/// cannot be read is reported.
pub proof fn law_first_bad_answer_field_is_reported(
    high: u8,
    low: u8,
    headers: Seq<HeaderView>,
    tail: Seq<u8>,
)
    requires
        headers_are_short(headers),
    ensures
        parse_payload(2, tail) == Err::<FrameView, _>(FrameErrorView::TruncatedStatus)
            <==> tail.len() < 2,
        parse_headers(tail).0 matches Err(e) ==> parse_payload(2, seq![high, low] + tail) == Err::<
            FrameView,
            _,
        >(FrameErrorView::Headers(e)),
        parse_body(tail).0 matches Err(e) ==> parse_payload(
            2,
            seq![high, low] + (headers_bytes(headers) + tail),
        ) == Err::<FrameView, _>(FrameErrorView::Body(e)),
        parse_string(tail).0 matches Err(e) ==> parse_payload(3, tail) == Err::<FrameView, _>(
            FrameErrorView::ErrorMessage(e),
        ),
{
    assert((seq![high, low] + tail).skip(2) =~= tail);
    let message = headers_bytes(headers) + tail;
    assert((seq![high, low] + message).skip(2) =~= message);
    law_headers_are_read(headers, tail);
}

/// A message with a known type is what its payload is: what is wrong with the
/// payload is wrong with the message.
pub proof fn law_payload_decides(data: Seq<u8>)
    requires
        data.len() >= 17,
    ensures
        parse_payload(data[16], data.skip(17)) matches Err(e) ==> parse_frame(data) == Err::<
            (StreamId, FrameView),
            _,
        >(e),
        parse_payload(data[16], data.skip(17)) matches Ok(frame) ==> (parse_frame(data) matches Ok(
            (id, read),
        ) && read == frame && id.octets() == data.take(16)),
{
    lemma_be_bytes_of_value(data.take(16));
    lemma_be_capacities();
}

} // verus!
