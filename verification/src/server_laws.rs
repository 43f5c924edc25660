//! What holds of the server's visitors: how their headers are read, where they
//! are routed, how their requests are collected and how they are answered.

use vstd::prelude::*;
use vstd::utf8::encode_utf8;

use crate::format::frame_fits;
use crate::frame::{FrameView, HeaderView, RequestView, ResponseView, TunnelResponse};
use crate::http::{
    are_headers, header_table, headers_have_room, is_header_name, is_header_value, is_sendable,
    lemma_table_is_finite, sent_as, unsendable_reply,
};
use crate::registry::RegistryView;
use crate::reply::{text_header, text_response};
use crate::server::{
    accept_key, asks_for_websocket, collected, header_text, header_value, requested_host, route,
    switching_response, upgraded, visitor_response, BodyRead, RequestHead, RequestHeadView, Route,
    UpgradeError, VisitorOutcome,
};
use crate::subdomain::subdomain_of;
use crate::text::{ascii_lower_char, ascii_lowercase};

verus! {

/// Headers are looked up in order: those at the front come first, and only when
/// none of them has the name do the later ones decide.
pub proof fn law_headers_are_looked_up_in_order(
    first: Seq<HeaderView>,
    later: Seq<HeaderView>,
    name: Seq<char>,
)
    ensures
        header_value(first + later, name) == match header_value(first, name) {
            Some(value) => Some(value),
            None => header_value(later, name),
        },
    decreases first.len(),
{
    let all = first + later;
    if first.len() == 0 {
        assert(all =~= later);
    } else {
        assert(all[0] == first[0]);
        assert(all.drop_first() =~= first.drop_first() + later);
        law_headers_are_looked_up_in_order(first.drop_first(), later, name);
    }
}

/// A header is found under its name, whatever the case of the letters, and under
/// no other name; among no headers none is found.
pub proof fn law_header_is_found_under_its_name(header: HeaderView, name: Seq<char>)
    ensures
        header_value(seq![header], name) == if header.0.len() == name.len() && (forall|i: int|
            0 <= i < name.len() ==> ascii_lower_char(#[trigger] header.0[i]) == ascii_lower_char(
                name[i],
            )) {
            Some(header.1)
        } else {
            None
        },
        header_value(Seq::empty(), name) is None,
{
    let one = seq![header];
    let a = ascii_lowercase(header.0);
    let b = ascii_lowercase(name);
    reveal_with_fuel(header_value, 2);
    assert(one.drop_first() =~= Seq::empty());
    if a == b {
        assert(a.len() == header.0.len() && b.len() == name.len());
        assert forall|i: int| 0 <= i < name.len() implies ascii_lower_char(#[trigger] header.0[i])
            == ascii_lower_char(name[i]) by {
            assert(a[i] == b[i]);
        }
    } else if header.0.len() == name.len() && (forall|i: int|
        0 <= i < name.len() ==> ascii_lower_char(#[trigger] header.0[i]) == ascii_lower_char(
            name[i],
        )) {
        assert(a =~= b);
    }
}

/// A header is read as text exactly when all its bytes are visible ASCII
/// characters or tabs, and then each byte is one character.
pub proof fn law_visible_header_is_read(headers: Seq<HeaderView>, name: Seq<char>)
    ensures
        match header_value(headers, name) {
            Some(value) => {
                &&& header_text(headers, name) is Some <==> forall|i: int|
                    0 <= i < value.len() ==> (#[trigger] value[i] == 9 || (32 <= value[i]
                        && value[i] <= 126))
                &&& header_text(headers, name) matches Some(text) ==> text.len() == value.len() && (
                forall|i: int| 0 <= i < text.len() ==> #[trigger] text[i] == value[i] as char)
            },
            None => header_text(headers, name) is None,
        },
{
}

/// A WebSocket is asked for exactly by an Upgrade header that reads "websocket",
/// whatever the case of the letters.
pub proof fn law_websocket_is_asked_for_by_name(headers: Seq<HeaderView>)
    ensures
        asks_for_websocket(headers) <==> (header_text(headers, "upgrade"@) matches Some(text)
            && text.len() == "websocket"@.len() && forall|i: int|
            0 <= i < text.len() ==> ascii_lower_char(#[trigger] text[i]) == ascii_lower_char(
                "websocket"@[i],
            )),
{
    if let Some(text) = header_text(headers, "upgrade"@) {
        let a = ascii_lowercase(text);
        let b = ascii_lowercase("websocket"@);
        if a == b {
            assert(a.len() == text.len() && b.len() == "websocket"@.len());
            assert forall|i: int| 0 <= i < text.len() implies ascii_lower_char(#[trigger] text[i])
                == ascii_lower_char("websocket"@[i]) by {
                assert(a[i] == b[i]);
            }
        } else if text.len() == "websocket"@.len() && (forall|i: int|
            0 <= i < text.len() ==> ascii_lower_char(#[trigger] text[i]) == ascii_lower_char(
                "websocket"@[i],
            )) {
            assert(a =~= b);
        }
    }
}

/// Every request for a WebSocket at the registration path opens a tunnel, whatever
/// else it says, whatever tunnels there are and whatever the domain; and no other
/// request does.
pub proof fn law_every_client_can_register<T>(
    head: RequestHead,
    registry: RegistryView<T>,
    domain: Seq<char>,
    to: Route<T>,
)
    requires
        to@ == route(head@, registry, domain),
    ensures
        (to is Upgrade) == (head.path@ == "/burrow"@ && asks_for_websocket(head@.headers)),
{
}

/// Every other request goes where its host says: through the tunnel of its
/// subdomain, or to a 404 that says what was not found.
pub proof fn law_visitor_goes_where_the_host_says<T>(
    head: RequestHead,
    registry: RegistryView<T>,
    domain: Seq<char>,
    to: Route<T>,
)
    requires
        to@ == route(head@, registry, domain),
        !(head.path@ == "/burrow"@ && asks_for_websocket(head@.headers)),
    ensures
        match subdomain_of(requested_host(head@.headers), domain) {
            Some(name) => if registry.tunnels.contains_key(name) {
                to matches Route::Forward(tunnel) && tunnel == registry.tunnels[name]
            } else {
                to matches Route::Reply(reply) && reply@ == text_response(
                    404,
                    "tunnel '"@ + name + "' not found"@,
                )
            },
            None => to matches Route::Reply(reply) && reply@ == text_response(
                404,
                "no tunnel found"@,
            ),
        },
{
}

/// The host is what the Host header says, and nothing where there is none that
/// can be read.
pub proof fn law_host_is_what_the_header_says(headers: Seq<HeaderView>)
    ensures
        header_text(headers, "host"@) matches Some(text) ==> requested_host(headers) == text,
        header_text(headers, "host"@) is None ==> requested_host(headers).len() == 0,
{
}

/// Only the path, the wish for a WebSocket and the host decide where a request
/// goes: not its method, its URI or its other headers.
pub proof fn law_nothing_else_decides_the_route<T>(
    one: RequestHeadView,
    other: RequestHeadView,
    registry: RegistryView<T>,
    domain: Seq<char>,
)
    requires
        one.path == other.path,
        asks_for_websocket(one.headers) == asks_for_websocket(other.headers),
        requested_host(one.headers) == requested_host(other.headers),
    ensures
        route(one, registry, domain) == route(other, registry, domain),
{
}

/// Only the tunnel of the visitor's own subdomain matters for a visitor: registries
/// that agree on it route the visitor alike.
pub proof fn law_other_tunnels_do_not_matter<T>(
    head: RequestHeadView,
    one: RegistryView<T>,
    other: RegistryView<T>,
    domain: Seq<char>,
)
    requires
        subdomain_of(requested_host(head.headers), domain) matches Some(name)
            ==> one.tunnels.contains_key(name) == other.tunnels.contains_key(name) && (
        one.tunnels.contains_key(name) ==> one.tunnels[name] == other.tunnels[name]),
    ensures
        route(head, one, domain) == route(head, other, domain),
{
}

/// Every request with a complete body of at most ten megabytes that fits in a frame
/// is collected, whatever its method, URI and headers, and it is collected as it
/// came.
pub proof fn law_every_small_request_is_collected(head: RequestHead, bytes: Vec<u8>)
    ensures
        ({
            let request = RequestView {
                method: head.method@,
                uri: head.uri@,
                headers: Seq::new(
                    head.headers@.len(),
                    |i: int| (head.headers@[i].0@, head.headers@[i].1@),
                ),
                body: bytes@,
            };
            let fits = bytes@.len() <= 10 * 1024 * 1024 && frame_fits(FrameView::Request(request));
            &&& fits ==> collected(head@, BodyRead::Complete(bytes)) == Ok::<_, ResponseView>(
                request,
            )
            &&& !fits ==> collected(head@, BodyRead::Complete(bytes)) == Err::<RequestView, _>(
                text_response(413, "request body too large"@),
            )
        }),
{
}

/// A request is refused only for its size or because it could not be read: a 413
/// for a body that is too large, and a 400 for a body that could not be read.
pub proof fn law_refusal_says_why(head: RequestHeadView, body: BodyRead)
    ensures
        body is TooLarge ==> collected(head, body) == Err::<RequestView, _>(
            text_response(413, "request body too large"@),
        ),
        body is Failed ==> collected(head, body) == Err::<RequestView, _>(
            text_response(400, "failed to read request body"@),
        ),
        collected(head, body) matches Err(reply) ==> (reply.status == 400) == (body is Failed),
        collected(head, body) is Ok ==> body is Complete,
{
}

/// The visitor gets the client's whole response: its status, its headers in their
/// order, and its body.
pub proof fn law_visitor_gets_the_whole_response(reply: TunnelResponse)
    ensures
        ({
            let got = visitor_response(VisitorOutcome::Answered(reply));
            &&& got.status == reply.status
            &&& got.body == reply.body@
            &&& got.headers.len() == reply.headers@.len()
            &&& forall|i: int|
                0 <= i < got.headers.len() ==> #[trigger] got.headers[i] == (
                    reply.headers@[i].0@,
                    reply.headers@[i].1@,
                )
        }),
{
}

/// Without an answer the visitor is told what happened: a 504 when the client did
/// not answer in time, and a 502 when it could not be reached or has left.
pub proof fn law_visitor_without_answer_is_told(outcome: VisitorOutcome)
    ensures
        outcome is TimedOut ==> visitor_response(outcome) == text_response(
            504,
            "tunnel client timed out"@,
        ),
        outcome is SendFailed ==> visitor_response(outcome) == text_response(
            502,
            "tunnel client unreachable"@,
        ),
        outcome is Dropped ==> visitor_response(outcome) == text_response(
            502,
            "tunnel client disconnected"@,
        ),
{
}

/// A text reply has the status it was given, one header, which says that the body
/// is plain text, and the text as its body.
pub proof fn law_text_reply_says_its_text(status: u16, body: Seq<char>)
    ensures
        ({
            let reply = text_response(status, body);
            &&& reply.status == status
            &&& reply.headers.len() == 1
            &&& reply.headers[0].0 == "content-type"@
            &&& reply.headers[0].1 == encode_utf8("text/plain"@)
            &&& reply.body == encode_utf8(body)
        }),
{
}

/// A request for a WebSocket is granted for every key that is text, with the value
/// derived from the key's own bytes; else the refusal says what is wrong with the
/// key.
pub proof fn law_upgrade_is_granted_for_every_key(headers: Seq<HeaderView>)
    ensures
        match header_value(headers, "sec-websocket-key"@) {
            None => upgraded(headers) == Err::<ResponseView, _>(UpgradeError::MissingKey),
            Some(key) => if header_text(headers, "sec-websocket-key"@) is Some {
                upgraded(headers) == Ok::<_, UpgradeError>(switching_response(accept_key(key)))
            } else {
                upgraded(headers) == Err::<ResponseView, _>(UpgradeError::InvalidKey)
            },
        },
{
}

/// The reply that switches to a WebSocket has the status 101, names the protocol
/// and the connection option, carries the accept value, and has no body.
pub proof fn law_switching_reply_names_the_protocol(accept: Seq<char>)
    ensures
        ({
            let reply = switching_response(accept);
            &&& reply.status == 101
            &&& reply.headers.len() == 3
            &&& header_value(reply.headers, "upgrade"@) == Some(encode_utf8("websocket"@))
            &&& header_value(reply.headers, "connection"@) == Some(encode_utf8("Upgrade"@))
            &&& header_value(reply.headers, "sec-websocket-accept"@) == Some(encode_utf8(accept))
            &&& reply.body.len() == 0
        }),
{
    let headers = switching_response(accept).headers;
    let upgrade = text_header("upgrade"@, "websocket"@);
    let connection = text_header("connection"@, "Upgrade"@);
    let accepted = text_header("sec-websocket-accept"@, accept);
    reveal_strlit("upgrade");
    reveal_strlit("connection");
    reveal_strlit("sec-websocket-accept");
    assert(headers =~= seq![upgrade] + (seq![connection] + seq![accepted]));
    law_headers_are_looked_up_in_order(
        seq![upgrade],
        seq![connection] + seq![accepted],
        "upgrade"@,
    );
    law_headers_are_looked_up_in_order(
        seq![upgrade],
        seq![connection] + seq![accepted],
        "connection"@,
    );
    law_headers_are_looked_up_in_order(
        seq![upgrade],
        seq![connection] + seq![accepted],
        "sec-websocket-accept"@,
    );
    law_headers_are_looked_up_in_order(seq![connection], seq![accepted], "connection"@);
    law_headers_are_looked_up_in_order(seq![connection], seq![accepted], "sec-websocket-accept"@);
    law_header_is_found_under_its_name(upgrade, "upgrade"@);
    law_header_is_found_under_its_name(upgrade, "connection"@);
    law_header_is_found_under_its_name(upgrade, "sec-websocket-accept"@);
    law_header_is_found_under_its_name(connection, "connection"@);
    law_header_is_found_under_its_name(connection, "sec-websocket-accept"@);
    law_header_is_found_under_its_name(accepted, "sec-websocket-accept"@);
}

/// The values that a list of headers gives to a name in lower case, in order.
pub open spec fn values_under(headers: Seq<HeaderView>, name: Seq<char>) -> Seq<Seq<u8>> {
    headers.filter(|h: HeaderView| ascii_lowercase(h.0) == name).map_values(|h: HeaderView| h.1)
}

/// A table of headers holds under each name all the values that the list gives to
/// it, in their order, and nothing else.
pub proof fn law_header_table_keeps_every_value(headers: Seq<HeaderView>, name: Seq<char>)
    ensures
        header_table(headers).contains_key(name) <==> values_under(headers, name).len() > 0,
        header_table(headers).contains_key(name) ==> header_table(headers)[name] == values_under(
            headers,
            name,
        ),
    decreases headers.len(),
{
    reveal(Seq::filter);
    let p = |h: HeaderView| ascii_lowercase(h.0) == name;
    let value = |h: HeaderView| h.1;
    if headers.len() > 0 {
        let init = headers.drop_last();
        let last = headers.last();
        law_header_table_keeps_every_value(init, name);
        if p(last) {
            assert(headers.filter(p) == init.filter(p).push(last));
            assert(headers.filter(p).map_values(value) =~= init.filter(p).map_values(value).push(
                last.1,
            ));
            assert(values_under(init, name).push(last.1) =~= values_under(headers, name));
            if values_under(init, name).len() == 0 {
                assert(values_under(headers, name) =~= seq![last.1]);
            }
        } else {
            assert(headers.filter(p) == init.filter(p));
            assert(values_under(init, name) == values_under(headers, name));
        }
    }
}

/// A response is sent with its own status, its headers and its body; it can be sent
/// exactly when its status has three digits and every header is one. For any other
/// the visitor gets a 502.
pub proof fn law_response_is_sent_as_it_is(reply: ResponseView)
    ensures
        sent_as(reply).0.status == reply.status,
        sent_as(reply).0.headers == header_table(reply.headers),
        sent_as(reply).1 == reply.body,
        is_sendable(reply) <==> 100 <= reply.status <= 999 && (forall|i: int|
            0 <= i < reply.headers.len() ==> is_header_name((#[trigger] reply.headers[i]).0)
                && is_header_value(reply.headers[i].1)),
        unsendable_reply() == text_response(502, "invalid response from tunnel client"@),
{
}

/// Headers certainly have room when they are no more than 6553, and exactly when
/// they have no more different names than that.
pub proof fn law_headers_have_room(headers: Seq<HeaderView>)
    ensures
        headers.len() <= 6553 ==> headers_have_room(headers),
        headers_have_room(headers) <==> header_table(headers).dom().len() <= 6553,
        are_headers(headers) <==> forall|i: int|
            0 <= i < headers.len() ==> is_header_name((#[trigger] headers[i]).0)
                && is_header_value(headers[i].1),
{
    lemma_table_is_finite(headers);
}

} // verus!
