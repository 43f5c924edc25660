//! What holds of tunnels, their registry, and the sessions of their clients.
use std::sync::Arc;

use vstd::prelude::*;
use vstd::utf8::encode_utf8;

use crate::format::{frame_bytes, parse_frame};
use crate::format_laws::{
    frame_is_short, law_decode_undoes_encode, law_encode_undoes_decode,
    law_message_decodes_where_it_begins,
};
use crate::frame::{FrameView, RequestView, ResponseView};
use crate::protocol::{ClientMessage, ServerMessage};
use crate::registry::{public_url, registers, RegistryView};
use crate::session::{
    admits, answer_in, hello_step, session_step, Admission, ClientEvent, HelloStep, SessionStep,
};
use crate::stream_id::StreamId;
use crate::subdomain::{is_generated_name, is_reserved_name, spelled, NAME_LEN};
use crate::text::lowercase;
use crate::tunnel::{announces, NewConnection, Tunnel, TunnelView};

verus! {

/// At a new tunnel nobody waits.
pub proof fn law_nobody_waits_at_a_new_tunnel<S, W>(subdomain: Seq<char>, ws_tx: S, id: StreamId)
    ensures
        ({
            let tunnel = TunnelView::<S, W>::fresh(subdomain, ws_tx);
            &&& tunnel.waiting(id) is None
            &&& tunnel.subdomain == subdomain
            &&& tunnel.ws_tx == ws_tx
        }),
{
}

/// Whoever opens a connection waits under its stream id, and nobody else begins or
/// ceases to wait.
pub proof fn law_opening_makes_one_wait<S, W>(
    tunnel: TunnelView<S, W>,
    id: StreamId,
    waiter: W,
    other: StreamId,
)
    ensures
        tunnel.opened(id, waiter).waiting(id) == Some(waiter),
        other != id ==> tunnel.opened(id, waiter).waiting(other) == tunnel.waiting(other),
        tunnel.opened(id, waiter).subdomain == tunnel.subdomain,
        tunnel.opened(id, waiter).ws_tx == tunnel.ws_tx,
{
}

/// After a cancellation nobody waits under the stream id, and everybody else waits
/// on.
pub proof fn law_cancelling_ends_one_wait<S, W>(
    tunnel: TunnelView<S, W>,
    id: StreamId,
    other: StreamId,
)
    ensures
        tunnel.cancelled(id).waiting(id) is None,
        other != id ==> tunnel.cancelled(id).waiting(other) == tunnel.waiting(other),
        tunnel.cancelled(id).subdomain == tunnel.subdomain,
        tunnel.cancelled(id).ws_tx == tunnel.ws_tx,
{
}

/// A new connection is announced under its own stream id, and the frame that
/// follows decodes to that stream id and the visitor's request.
pub proof fn law_announcement_carries_the_request(
    connection: NewConnection,
    id: StreamId,
    request: RequestView,
)
    requires
        announces(connection, id, request),
        frame_is_short(FrameView::Request(request)),
    ensures
        connection.stream_id == id,
        connection.control matches ServerMessage::NewConnection { stream_id } && stream_id == id,
        parse_frame(connection.frame@) matches Ok((found, FrameView::Request(read))) && found == id
            && read == request,
{
    law_decode_undoes_encode(id, FrameView::Request(request));
}

/// A client that asks for no name, or for one that is reserved or taken, gets any
/// generated name that is free, and no other name.
pub proof fn law_others_get_a_generated_name<T>(
    registry: RegistryView<T>,
    requested: Option<Seq<char>>,
    name: Seq<char>,
)
    requires
        requested matches Some(wish) ==> is_reserved_name(lowercase(wish))
            || registry.tunnels.contains_key(lowercase(wish)),
    ensures
        registry.may_assign(requested, name) <==> is_generated_name(name)
            && !registry.tunnels.contains_key(name),
{
}

/// A name is free exactly when no tunnel has it; the registry is full exactly when
/// no generated name is free.
pub proof fn law_full_means_no_free_name<T>(registry: RegistryView<T>, name: Seq<char>)
    ensures
        registry.is_free(name) <==> registry.lookup(name) is None,
        registry.is_full() && is_generated_name(name) ==> registry.lookup(name) is Some,
        !registry.is_full() ==> exists|other: Seq<char>|
            is_generated_name(other) && registry.lookup(other) is None,
{
    if !registry.is_full() {
        let other = choose|other: Seq<char>|
            is_generated_name(other) && #[trigger] registry.is_free(other);
        assert(is_generated_name(other) && registry.lookup(other) is None);
    }
}

/// Registering and unregistering change neither the domain nor the allow-list.
pub proof fn law_settings_stay<T>(registry: RegistryView<T>, name: Seq<char>, tunnel: Arc<T>)
    ensures
        registry.with(name, tunnel).domain == registry.domain,
        registry.with(name, tunnel).allowed_tokens == registry.allowed_tokens,
        registry.without(name).domain == registry.domain,
        registry.without(name).allowed_tokens == registry.allowed_tokens,
{
}

/// The draws for one candidate give that candidate if it is free and else nothing;
/// fewer draws give nothing.
pub proof fn law_one_candidate<T>(registry: RegistryView<T>, draws: Seq<u8>)
    requires
        draws.len() <= NAME_LEN,
    ensures
        registry.first_drawn(draws) == if draws.len() == NAME_LEN
            && !registry.tunnels.contains_key(spelled(draws)) {
            Some(spelled(draws))
        } else {
            None
        },
{
    reveal_with_fuel(RegistryView::first_drawn, 2);
    if draws.len() == NAME_LEN {
        assert(draws.take(NAME_LEN as int) =~= draws);
    }
}

/// After a registration the tunnel is found under the name that was assigned, it is
/// a fresh tunnel to the client, and every other name leads where it led.
pub proof fn law_registration_is_complete<S, W, T, F: FnOnce(Tunnel<S, W>) -> T>(
    before: RegistryView<T>,
    after: RegistryView<T>,
    ws_tx: S,
    requested: Option<Seq<char>>,
    share: F,
    subdomain: Seq<char>,
    handle: Arc<T>,
    other: Seq<char>,
)
    requires
        registers::<S, W, T, F>(before, after, ws_tx, requested, share, subdomain, handle),
    ensures
        before.may_assign(requested, subdomain),
        after.lookup(subdomain) == Some(handle),
        other != subdomain ==> after.lookup(other) == before.lookup(other),
        after.domain == before.domain,
        after.allowed_tokens == before.allowed_tokens,
        exists|tunnel: Tunnel<S, W>|
            tunnel@.subdomain == subdomain && tunnel@.ws_tx == ws_tx && tunnel@.pending
                == Map::<u128, W>::empty() && #[trigger] call_ensures(share, (tunnel,), *handle),
{
    let tunnel = choose|tunnel: Tunnel<S, W>|
        tunnel@ == TunnelView::<S, W>::fresh(subdomain, ws_tx) && #[trigger] call_ensures(
            share,
            (tunnel,),
            *handle,
        );
    assert(tunnel@.subdomain == subdomain);
}

/// A client is turned away exactly when its token is not allowed. Then it is told
/// so and nothing is registered; else it gets a tunnel, unless every name that it
/// could get is taken, and it is told the name and the URL.
pub proof fn law_token_decides_admission<S, W, T, F: FnOnce(Tunnel<S, W>) -> T>(
    before: RegistryView<T>,
    after: RegistryView<T>,
    ws_tx: S,
    token: Option<Seq<char>>,
    requested: Option<Seq<char>>,
    share: F,
    admission: Admission<S, T>,
)
    requires
        admits::<S, W, T, F>(before, after, ws_tx, token, requested, share, admission),
    ensures
        admission is Rejected <==> !before.allows(token),
        admission matches Admission::Rejected { ws_tx: returned, message } ==> returned == ws_tx
            && after == before && (message matches ServerMessage::Error { message: words }
            && words@ == "invalid or missing auth token"@),
        admission is Full ==> after == before && before.granted(requested) is None
            && before.is_full(),
        before.allows(token) && !before.is_full() ==> admission is Accepted,
        before.allows(token) && before.granted(requested) is Some ==> admission is Accepted,
        admission matches Admission::Accepted { tunnel, message } ==> (
        message matches ServerMessage::Assigned { subdomain, url } && url@ == public_url(
            subdomain@,
            before.domain,
        ) && before.may_assign(requested, subdomain@) && after == before.with(subdomain@, tunnel)
            && registers::<S, W, T, F>(
            before,
            after,
            ws_tx,
            requested,
            share,
            subdomain@,
            tunnel,
        )),
{
}

/// A session fails with its own words for a client that was turned away, and does
/// not fail for one that was accepted.
pub proof fn law_rejected_session_fails<S, T>(admission: Admission<S, T>)
    ensures
        admission is Rejected ==> admission.failure() == Some("client auth failed"@),
        admission is Accepted <==> admission.failure() is None,
{
}

/// The server goes on from the handshake exactly at a Hello, with its token and its
/// wish.
pub proof fn law_handshake_ends_at_hello(event: ClientEvent, step: HelloStep)
    requires
        step@ == hello_step(event),
    ensures
        event matches ClientEvent::Text(
            Ok(ClientMessage::Hello { token, requested_subdomain }),
        ) ==> (step matches HelloStep::Proceed { token: t, requested_subdomain: r } && (match (
            token,
            t,
        ) {
            (Some(a), Some(b)) => a@ == b@,
            (None, None) => true,
            _ => false,
        }) && (match (requested_subdomain, r) {
            (Some(a), Some(b)) => a@ == b@,
            (None, None) => true,
            _ => false,
        })),
        step is Proceed ==> (event matches ClientEvent::Text(
            Ok(ClientMessage::Hello { token: _, requested_subdomain: _ }),
        )),
{
}

/// The handshake fails exactly when the stream ends, cannot be read, or has text
/// that is no message; and it says why. Everything else is waited through.
pub proof fn law_failed_hello_says_why(event: ClientEvent, step: HelloStep)
    requires
        step@ == hello_step(event),
    ensures
        event is Ended ==> (step matches HelloStep::Fail(e) && e@.message()
            == "client disconnected before Hello"@),
        event matches ClientEvent::ReadFailed(words) ==> (step matches HelloStep::Fail(e)
            && e@.message() == words@),
        event matches ClientEvent::Text(Err(words)) ==> (step matches HelloStep::Fail(e)
            && e@.message() == words@),
        step is Fail ==> (event is Ended || event is ReadFailed || (
        event matches ClientEvent::Text(Err(_)))),
{
}

/// An answer is found in exactly those messages that begin with the encoding of a
/// response or of an error; an error is answered by a 502 with its words.
pub proof fn law_answer_is_found_where_it_is(data: Seq<u8>, id: StreamId, frame: FrameView)
    requires
        frame_is_short(frame),
        frame_bytes(id, frame).is_prefix_of(data),
    ensures
        match frame {
            FrameView::Response(reply) => answer_in(data) == Some((id, reply)),
            FrameView::Error(message) => answer_in(data) matches Some((found, reply)) && found == id
                && reply.status == 502 && reply.headers.len() == 1 && reply.headers[0] == (
                "content-type"@,
                encode_utf8("text/plain"@),
            ) && reply.body == encode_utf8("upstream error: "@ + message),
            FrameView::Request(_) => answer_in(data) is None,
        },
{
    law_message_decodes_where_it_begins(data, id, frame);
}

/// Nothing else is taken for an answer, and no response is altered.
pub proof fn law_nothing_else_is_an_answer(data: Seq<u8>, id: StreamId, reply: ResponseView)
    requires
        answer_in(data) == Some((id, reply)),
    ensures
        exists|frame: FrameView|
            (#[trigger] frame_bytes(id, frame)).is_prefix_of(data) && match frame {
                FrameView::Response(sent) => sent == reply,
                FrameView::Error(_) => reply.status == 502,
                FrameView::Request(_) => false,
            },
{
    law_encode_undoes_decode(data);
    let frame = (parse_frame(data)->Ok_0).1;
    assert((parse_frame(data)->Ok_0).0 == id);
    assert(frame_bytes(id, frame).is_prefix_of(data));
}

/// A session ends exactly when the client has left: its stream ended, it closed, or
/// it cannot be read. The tunnel is not touched by that.
pub proof fn law_session_ends_with_the_client<S, W>(
    tunnel: TunnelView<S, W>,
    event: ClientEvent,
    after: TunnelView<S, W>,
    step: SessionStep<W>,
)
    requires
        (after, step@) == session_step(tunnel, event),
    ensures
        step is Stop <==> (event is Ended || event is Closed || event is ReadFailed),
        step is Stop ==> after == tunnel,
{
}

/// Pings and heartbeats are answered by a heartbeat, and the server sends nothing
/// else on its own.
pub proof fn law_heartbeats_are_answered<S, W>(
    tunnel: TunnelView<S, W>,
    event: ClientEvent,
    after: TunnelView<S, W>,
    step: SessionStep<W>,
)
    requires
        (after, step@) == session_step(tunnel, event),
    ensures
        (step is Send) == (event is Ping || (event matches ClientEvent::Text(
            Ok(ClientMessage::Heartbeat),
        ))),
        step matches SessionStep::Send(message) ==> message is Heartbeat,
        !(event is Binary) ==> after == tunnel && !(step is Answer),
{
}

/// An answer in a binary message goes, whole, to the visitor that waits under its
/// stream id, who then waits no more; where nobody waits, and where there is no
/// answer in the message, nothing happens.
pub proof fn law_answer_goes_to_its_visitor<S, W>(
    tunnel: TunnelView<S, W>,
    data: Vec<u8>,
    after: TunnelView<S, W>,
    step: SessionStep<W>,
)
    requires
        (after, step@) == session_step(tunnel, ClientEvent::Binary(data)),
    ensures
        match answer_in(data@) {
            Some((id, reply)) => {
                &&& match tunnel.waiting(id) {
                    Some(waiter) => step matches SessionStep::Answer(who, sent) && who == waiter
                        && sent.status == reply.status && sent.body@ == reply.body
                        && sent.headers@.len() == reply.headers.len() && (forall|i: int|
                        0 <= i < reply.headers.len() ==> #[trigger] reply.headers[i] == (
                            sent.headers@[i].0@,
                            sent.headers@[i].1@,
                        )),
                    None => step is Continue,
                }
                &&& after.waiting(id) is None
                &&& forall|other: StreamId|
                    other != id ==> #[trigger] after.waiting(other) == tunnel.waiting(other)
            },
            None => step is Continue && after == tunnel,
        },
        after.subdomain == tunnel.subdomain,
        after.ws_tx == tunnel.ws_tx,
{
    if let Some((id, reply)) = answer_in(data@) {
        if let Some(waiter) = tunnel.waiting(id) {
            let sent = step->Answer_1;
            assert(sent@.headers == reply.headers);
        }
    }
}

} // verus!
