//! What holds of the server and the client as wholes.
use std::sync::Arc;

use vstd::arithmetic::power2::{lemma_pow2_unfold, pow2};
use vstd::prelude::*;
use vstd::utf8::{encode_utf8, is_ascii_chars, is_ascii_chars_encode_utf8};

use crate::client::{
    answer_to, doubled, endpoint, handshake_step, reconnect_step, request_in, HandshakeStepView,
    ReconnectAction, ReconnectEvent, ServerEvent, BACKOFF_INITIAL, BACKOFF_MAX,
};
use crate::format::frame_bytes;
use crate::format_laws::{frame_is_short, law_decode_undoes_encode};
use crate::frame::{FrameView, HeaderView, RequestView, ResponseView, TunnelResponse};
use crate::http::{
    headers_have_room, is_sendable, law_text_response_is_sendable, lemma_table_is_finite,
    lemma_visible_header_value, ProxyError,
};
use crate::protocol::{
    ClientMessage, ClientMessageView, ServerMessage, ServerMessageView, TUNNEL_WS_PATH,
};
use crate::registry::{public_url, RegistryView};
use crate::reply::text_response;
use crate::server::{
    asks_for_websocket, collected, header_value, is_base64_char, requested_host, route,
    switching_response, visitor_response, BodyRead, RequestHeadView, RouteView, VisitorOutcome,
    MAX_BODY_LEN,
};
use crate::session::{
    answer_in, hello_step, session_step, upstream_error, ClientEvent, HelloStepView, SessionStep,
    SessionStepView,
};
use crate::stream_id::StreamId;
use crate::subdomain::{
    are_indices, host_of, is_generated_name, is_label, is_name_char, is_reserved_name,
    law_generated_name_is_a_label, law_generated_name_is_not_reserved, law_lowercase_keeps_labels,
    law_public_host_names_the_tunnel, spelled, subdomain_of, ALPHABET_LEN, NAME_LEN,
};
use crate::text::{ascii_chars, is_char, lowercase, strip_start};
use crate::tunnel::TunnelView;

verus! {

/// A name is only ever assigned while it is free, so that a registration leaves
/// every other tunnel where it was; and no reserved name is assigned.
pub proof fn law_assignment_displaces_nobody<T>(
    registry: RegistryView<T>,
    requested: Option<Seq<char>>,
    name: Seq<char>,
    tunnel: Arc<T>,
)
    requires
        registry.may_assign(requested, name),
    ensures
        registry.is_free(name),
        !is_reserved_name(name),
        registry.with(name, tunnel).lookup(name) == Some(tunnel),
        forall|other: Seq<char>|
            other != name ==> #[trigger] registry.with(name, tunnel).lookup(other)
                == registry.lookup(other),
{
    if registry.granted(requested) is None {
        law_generated_name_is_not_reserved(name);
    }
}

/// Draws are taken in turn: if the first draws, enough for whole candidates, give
/// a name, later ones do not matter; if they give none, the later ones decide.
pub proof fn law_draws_are_taken_in_turn<T>(
    registry: RegistryView<T>,
    first: Seq<u8>,
    later: Seq<u8>,
)
    requires
        first.len() % NAME_LEN as nat == 0,
    ensures
        registry.first_drawn(first + later) == match registry.first_drawn(first) {
            Some(name) => Some(name),
            None => registry.first_drawn(later),
        },
    decreases first.len(),
{
    let all = first + later;
    if first.len() == 0 {
        assert(all =~= later);
    } else {
        assert(all.take(NAME_LEN as int) =~= first.take(NAME_LEN as int));
        assert(all.skip(NAME_LEN as int) =~= first.skip(NAME_LEN as int) + later);
        law_draws_are_taken_in_turn(registry, first.skip(NAME_LEN as int), later);
    }
}

/// The name that draws give is free, of the form that is generated, and not
/// reserved.
pub proof fn law_drawn_name_is_free<T>(registry: RegistryView<T>, draws: Seq<u8>)
    requires
        are_indices(draws),
        registry.first_drawn(draws) is Some,
    ensures
        registry.is_free(registry.first_drawn(draws)->0),
        is_generated_name(registry.first_drawn(draws)->0),
        !is_reserved_name(registry.first_drawn(draws)->0),
    decreases draws.len(),
{
    let candidate = spelled(draws.take(NAME_LEN as int));
    if registry.is_free(candidate) {
        assert forall|i: int| 0 <= i < candidate.len() implies is_name_char(
            #[trigger] candidate[i],
        ) by {
            assert(draws[i] < ALPHABET_LEN);
        }
        law_generated_name_is_not_reserved(candidate);
    } else {
        law_drawn_name_is_free(registry, draws.skip(NAME_LEN as int));
    }
}

/// Unregistering a tunnel undoes its registration.
pub proof fn law_unregister_undoes_register<T>(
    registry: RegistryView<T>,
    requested: Option<Seq<char>>,
    name: Seq<char>,
    tunnel: Arc<T>,
)
    requires
        registry.may_assign(requested, name),
    ensures
        registry.with(name, tunnel).without(name) == registry,
{
    law_assignment_displaces_nobody(registry, requested, name, tunnel);
    assert(registry.tunnels.insert(name, tunnel).remove(name) =~= registry.tunnels);
}

/// An unregistered name leads nowhere, and every other name where it led.
pub proof fn law_unregister_removes_only_its_name<T>(registry: RegistryView<T>, name: Seq<char>)
    ensures
        registry.without(name).lookup(name) is None,
        forall|other: Seq<char>|
            other != name ==> #[trigger] registry.without(name).lookup(other) == registry.lookup(
                other,
            ),
{
}

/// A client that asks for a name which is neither reserved nor taken gets it.
pub proof fn law_available_name_is_granted<T>(
    registry: RegistryView<T>,
    requested: Seq<char>,
    name: Seq<char>,
)
    requires
        !is_reserved_name(lowercase(requested)),
        registry.is_free(lowercase(requested)),
    ensures
        registry.may_assign(Some(requested), name) <==> name == lowercase(requested),
{
}

/// Without an allow-list every client may open a tunnel; with one, exactly those
/// whose token is on it.
pub proof fn law_allow_list_decides<T>(registry: RegistryView<T>, token: Option<Seq<char>>)
    ensures
        registry.allowed_tokens is None ==> registry.allows(token),
        registry.allowed_tokens matches Some(list) ==> (registry.allows(token) <==> token is Some
            && list.contains(token->0)),
{
}

/// A host in visible ASCII is read off the Host header as it stands.
pub proof fn law_host_header_is_read(headers: Seq<HeaderView>, host: Seq<char>)
    requires
        header_value(headers, "host"@) == Some(encode_utf8(host)),
        forall|i: int| 0 <= i < host.len() ==> ' ' <= #[trigger] host[i] && host[i] <= '~',
    ensures
        requested_host(headers) == host,
{
    assert(is_ascii_chars(host));
    is_ascii_chars_encode_utf8(host);
    assert(ascii_chars(encode_utf8(host)) =~= host);
}

/// A request that does not ask to register a tunnel.
pub open spec fn is_visit(head: RequestHeadView) -> bool {
    !(head.path == TUNNEL_WS_PATH@ && asks_for_websocket(head.headers))
}

/// An assigned name is in lower case: it was generated, or made so from an ASCII
/// request.
pub proof fn law_assigned_name_is_lower_case<T>(
    registry: RegistryView<T>,
    requested: Option<Seq<char>>,
    name: Seq<char>,
)
    requires
        registry.may_assign(requested, name),
        registry.granted(requested) is Some ==> is_ascii_chars(requested->0),
    ensures
        lowercase(name) == name,
{
    match registry.granted(requested) {
        Some(_) => {
            law_lowercase_keeps_labels(requested->0);
        },
        None => {
            law_generated_name_is_a_label(name);
        },
    }
}

/// The host of an assigned public URL, with or without a port, names the very
/// subdomain that was assigned. The name must be a label, and where it was made
/// from a request beyond ASCII it must be its own lower-case form.
pub proof fn law_assigned_url_names_the_subdomain<T>(
    registry: RegistryView<T>,
    requested: Option<Seq<char>>,
    name: Seq<char>,
    port: Seq<char>,
)
    requires
        registry.may_assign(requested, name),
        is_label(name),
        registry.granted(requested) is Some && !is_ascii_chars(requested->0) ==> lowercase(name)
            == name,
        !registry.domain.contains(':'),
    ensures
        public_url(name, registry.domain) == "https://"@ + host_of(name, registry.domain),
        subdomain_of(host_of(name, registry.domain), registry.domain) == Some(name),
        subdomain_of(host_of(name, registry.domain) + ":"@ + port, registry.domain) == Some(name),
{
    if !(registry.granted(requested) is Some && !is_ascii_chars(requested->0)) {
        law_assigned_name_is_lower_case(registry, requested, name);
    }
    law_public_host_names_the_tunnel(name, registry.domain, port);
    assert(public_url(name, registry.domain) =~= "https://"@ + host_of(name, registry.domain));
}

/// A visitor that asks for the host of a tunnel's public URL, with or without a
/// port, is forwarded through that tunnel, as long as the tunnel is registered.
/// Before that the visitor is told that there is no such tunnel. The name must be
/// a label, and where it was made from a request beyond ASCII it must be its own
/// lower-case form.
pub proof fn law_registered_tunnel_is_reached<T>(
    registry: RegistryView<T>,
    requested: Option<Seq<char>>,
    name: Seq<char>,
    tunnel: Arc<T>,
    head: RequestHeadView,
    port: Seq<char>,
)
    requires
        registry.may_assign(requested, name),
        is_label(name),
        registry.granted(requested) is Some && !is_ascii_chars(requested->0) ==> lowercase(name)
            == name,
        !registry.domain.contains(':'),
        is_visit(head),
        requested_host(head.headers) == host_of(name, registry.domain) || requested_host(
            head.headers,
        ) == host_of(name, registry.domain) + ":"@ + port,
    ensures
        route(head, registry.with(name, tunnel), registry.domain) == RouteView::Forward(tunnel),
        route(head, registry, registry.domain) == RouteView::<T>::Reply(
            text_response(404, "tunnel '"@ + name + "' not found"@),
        ),
{
    law_assigned_url_names_the_subdomain(registry, requested, name, port);
    law_assignment_displaces_nobody(registry, requested, name, tunnel);
}

/// Once a client has left and its tunnel is unregistered, its visitors are told
/// that there is no such tunnel.
pub proof fn law_departed_client_is_not_reached<T>(
    registry: RegistryView<T>,
    name: Seq<char>,
    head: RequestHeadView,
    domain: Seq<char>,
)
    requires
        is_visit(head),
        subdomain_of(requested_host(head.headers), domain) == Some(name),
    ensures
        route(head, registry.without(name), domain) == RouteView::<T>::Reply(
            text_response(404, "tunnel '"@ + name + "' not found"@),
        ),
{
}

/// A host that names no subdomain, or one without a tunnel, is answered by a 404,
/// and the reply can be sent.
pub proof fn law_unknown_host_is_not_found<T>(
    head: RequestHeadView,
    registry: RegistryView<T>,
    domain: Seq<char>,
)
    requires
        is_visit(head),
        match subdomain_of(requested_host(head.headers), domain) {
            Some(name) => registry.lookup(name) is None,
            None => true,
        },
    ensures
        route(head, registry, domain) matches RouteView::Reply(reply) && reply.status == 404
            && is_sendable(reply) && headers_have_room(reply.headers),
{
    match subdomain_of(requested_host(head.headers), domain) {
        Some(name) => {
            law_text_response_is_sendable(404, "tunnel '"@ + name + "' not found"@);
        },
        None => {
            law_text_response_is_sendable(404, "no tunnel found"@);
        },
    }
}

/// The client finds in the frame for a new connection the stream id and the
/// visitor's request, unchanged.
pub proof fn law_request_reaches_the_client(id: StreamId, request: RequestView)
    requires
        frame_is_short(FrameView::Request(request)),
    ensures
        request_in(frame_bytes(id, FrameView::Request(request))) == Some((id, request)),
{
    law_decode_undoes_encode(id, FrameView::Request(request));
}

/// The response that a visitor is due for what the local service came to.
pub open spec fn due_response(outcome: Result<TunnelResponse, ProxyError>) -> ResponseView {
    match outcome {
        Ok(reply) => reply@,
        Err(e) => upstream_error(e.text()),
    }
}

/// The client's answer reaches the visitor that waits for it: the local
/// service's response unchanged, or a 502 with the reason. Afterwards the tunnel
/// is as it was before the visitor came, if nobody waited under the same stream
/// id.
pub proof fn law_answer_reaches_the_visitor<S, W>(
    tunnel: TunnelView<S, W>,
    id: StreamId,
    waiter: W,
    outcome: Result<TunnelResponse, ProxyError>,
    message: Vec<u8>,
)
    requires
        frame_is_short(answer_to(outcome)),
        message@ == frame_bytes(id, answer_to(outcome)),
    ensures
        session_step(tunnel.opened(id, waiter), ClientEvent::Binary(message)) == (
            tunnel.cancelled(id),
            SessionStepView::Answer(waiter, due_response(outcome)),
        ),
        tunnel.waiting(id) is None ==> tunnel.cancelled(id) == tunnel,
{
    law_decode_undoes_encode(id, answer_to(outcome));
    let pending = tunnel.pending;
    assert(pending.insert(id.value, waiter).remove(id.value) =~= pending.remove(id.value));
    if tunnel.waiting(id) is None {
        assert(pending.remove(id.value) =~= pending);
    }
}

/// Nobody is answered twice, nor after a timeout: once a visitor has ceased to
/// wait, an answer for it changes nothing.
pub proof fn law_late_answer_is_dropped<S, W>(
    tunnel: TunnelView<S, W>,
    id: StreamId,
    answer: FrameView,
    message: Vec<u8>,
)
    requires
        frame_is_short(answer),
        message@ == frame_bytes(id, answer),
    ensures
        session_step(tunnel.cancelled(id), ClientEvent::Binary(message)) == (
            tunnel.cancelled(id),
            SessionStepView::<W>::Continue,
        ),
{
    law_decode_undoes_encode(id, answer);
    let after = tunnel.cancelled(id);
    assert(after.pending.remove(id.value) =~= after.pending);
}

/// Visitors are independent: an answer to one leaves every other one waiting.
pub proof fn law_visitors_are_independent<S, W>(
    tunnel: TunnelView<S, W>,
    event: ClientEvent,
    id: StreamId,
)
    requires
        event matches ClientEvent::Binary(data) ==> (answer_in(
            data@,
        ) matches Some((answered, _)) ==> answered != id),
    ensures
        session_step(tunnel, event).0.waiting(id) == tunnel.waiting(id),
{
}

/// A client can only answer visitors, and only one per message: whatever it
/// sends, nobody begins to wait, and at most one visitor ceases to.
pub proof fn law_client_opens_nothing<S, W>(tunnel: TunnelView<S, W>, event: ClientEvent)
    ensures
        ({
            let after = session_step(tunnel, event).0;
            &&& after.subdomain == tunnel.subdomain
            &&& after.ws_tx == tunnel.ws_tx
            &&& after.pending == tunnel.pending || exists|id: StreamId|
                after == #[trigger] tunnel.cancelled(id)
        }),
{
    if let ClientEvent::Binary(data) = event {
        if let Some((id, _)) = answer_in(data@) {
            assert(session_step(tunnel, event).0 == tunnel.cancelled(id));
        }
    }
}

/// A request frame from a client is passed over.
pub proof fn law_request_from_client_is_ignored<S, W>(
    tunnel: TunnelView<S, W>,
    id: StreamId,
    request: RequestView,
    message: Vec<u8>,
)
    requires
        frame_is_short(FrameView::Request(request)),
        message@ == frame_bytes(id, FrameView::Request(request)),
    ensures
        session_step(tunnel, ClientEvent::Binary(message)) == (
            tunnel,
            SessionStepView::<W>::Continue,
        ),
{
    law_decode_undoes_encode(id, FrameView::Request(request));
}

/// A client that does not answer in time costs the visitor a 504, which can be
/// sent.
pub proof fn law_timeout_is_a_504()
    ensures
        visitor_response(VisitorOutcome::TimedOut).status == 504,
        is_sendable(visitor_response(VisitorOutcome::TimedOut)),
        headers_have_room(visitor_response(VisitorOutcome::TimedOut).headers),
{
    law_text_response_is_sendable(504, "tunnel client timed out"@);
}

/// A request with a body beyond the limit is never forwarded, and a request
/// within it is forwarded as it came, if it can be encoded at all.
pub proof fn law_body_limit(head: RequestHeadView, body: BodyRead)
    ensures
        collected(head, body) matches Ok(request) ==> {
            &&& request.body.len() <= MAX_BODY_LEN
            &&& body matches BodyRead::Complete(bytes)
            &&& request == (RequestView {
                method: head.method,
                uri: head.uri,
                headers: head.headers,
                body: bytes@,
            })
        },
        collected(head, body) matches Err(reply) ==> {
            &&& is_sendable(reply)
            &&& headers_have_room(reply.headers)
            &&& reply.status == 413 || reply.status == 400
        },
{
    law_text_response_is_sendable(413, "request body too large"@);
    law_text_response_is_sendable(400, "failed to read request body"@);
}

/// The reply that switches to a WebSocket can be sent for every accept value in
/// Base64.
pub proof fn law_switching_response_is_sendable(accept: Seq<char>)
    requires
        forall|i: int| 0 <= i < accept.len() ==> is_base64_char(#[trigger] accept[i]),
    ensures
        is_sendable(switching_response(accept)),
        headers_have_room(switching_response(accept).headers),
{
    reveal_strlit("upgrade");
    reveal_strlit("connection");
    reveal_strlit("sec-websocket-accept");
    reveal_strlit("websocket");
    reveal_strlit("Upgrade");
    lemma_visible_header_value("websocket"@);
    lemma_visible_header_value("Upgrade"@);
    lemma_visible_header_value(accept);
    lemma_table_is_finite(switching_response(accept).headers);
}

/// Slashes at the end of the server's address do not matter, and the endpoint is
/// the address with the registration path behind it.
pub proof fn law_endpoint(server_url: Seq<char>)
    ensures
        endpoint(server_url + "/"@) == endpoint(server_url),
        server_url.len() > 0 && server_url.last() != '/' ==> endpoint(server_url) == server_url
            + TUNNEL_WS_PATH@,
{
    reveal_strlit("/");
    reveal_strlit("/burrow");
    let slashed = server_url + "/"@;
    assert(slashed.drop_last() =~= server_url);
    assert(slashed.last() == '/');
    let path = TUNNEL_WS_PATH@;
    reveal_with_fuel(strip_start, 2);
    assert(strip_start(path, is_char('/')) =~= path.drop_first());
    assert(server_url + "/"@ + path.drop_first() =~= server_url + path);
}

/// A tunnel is given up if and only if a shutdown was requested.
pub proof fn law_only_shutdown_stops(delay: nat, event: ReconnectEvent)
    ensures
        reconnect_step(delay, event).1 == ReconnectAction::Stop <==> (event
            == ReconnectEvent::Interrupted || event == (ReconnectEvent::LoopEnded {
            shutdown: true,
        }) || event == (ReconnectEvent::Waited { shutdown: true })),
{
}

/// The delays stay between the shortest and the longest one.
pub proof fn law_backoff_range(delay: nat, event: ReconnectEvent)
    requires
        BACKOFF_INITIAL <= delay <= BACKOFF_MAX,
    ensures
        BACKOFF_INITIAL <= reconnect_step(delay, event).0 <= BACKOFF_MAX,
        reconnect_step(delay, event).1 matches ReconnectAction::Wait(seconds)
            ==> BACKOFF_INITIAL <= seconds <= BACKOFF_MAX,
{
}

/// The delay after a number of failed attempts in a row, from a first delay.
pub open spec fn delay_after(first: nat, failures: nat) -> nat
    decreases failures,
{
    if failures == 0 {
        first
    } else {
        reconnect_step(
            delay_after(first, (failures - 1) as nat),
            ReconnectEvent::ConnectFailed,
        ).0
    }
}

/// The backoff is exponential: with every failure the delay doubles, until it is
/// the longest one.
pub proof fn law_backoff_is_exponential(first: nat, failures: nat)
    requires
        BACKOFF_INITIAL <= first <= BACKOFF_MAX,
    ensures
        delay_after(first, failures) == if first * pow2(failures) < BACKOFF_MAX {
            first * pow2(failures)
        } else {
            BACKOFF_MAX as nat
        },
    decreases failures,
{
    if failures == 0 {
        vstd::arithmetic::power2::lemma2_to64();
        assert(first * pow2(0) == first) by (nonlinear_arith)
            requires
                pow2(0) == 1,
        ;
    } else {
        let before = (failures - 1) as nat;
        law_backoff_is_exponential(first, before);
        lemma_pow2_unfold(failures);
        let p = pow2(before);
        assert(first * (2 * p) == 2 * (first * p)) by (nonlinear_arith);
        assert(delay_after(first, failures) == doubled(delay_after(first, before)));
    }
}

/// The server learns from a client's Hello what the client was configured with.
pub proof fn law_hello_is_understood(
    message: ClientMessage,
    token: Option<Seq<char>>,
    subdomain: Option<Seq<char>>,
)
    requires
        message@ == (ClientMessageView::Hello { token, requested_subdomain: subdomain }),
    ensures
        hello_step(ClientEvent::Text(Ok(message))) == (HelloStepView::Proceed {
            token,
            requested_subdomain: subdomain,
        }),
{
}

/// A client whose tunnel was registered learns its URL, and a client that was
/// turned away learns why.
pub proof fn law_handshake_is_answered(message: ServerMessage)
    ensures
        message@ matches ServerMessageView::Assigned { subdomain, url } ==> handshake_step(
            ServerEvent::Text(Ok(message)),
        ) == (HandshakeStepView::Connected { url }),
        message@ matches ServerMessageView::Error { message: reason } ==> (handshake_step(
            ServerEvent::Text(Ok(message)),
        ) matches HandshakeStepView::Fail(e) && e.message() == "server rejected tunnel: "@
            + reason),
{
}

/// The local service's response travels unchanged: when the client answers a
/// request with it, the visitor that waits for that answer ends its wait with the
/// same status, the same headers in the same order, and the same body.
pub proof fn law_response_travels_unchanged<S, W>(
    tunnel: TunnelView<S, W>,
    id: StreamId,
    waiter: W,
    reply: TunnelResponse,
    message: Vec<u8>,
    after: TunnelView<S, W>,
    step: SessionStep<W>,
)
    requires
        frame_is_short(answer_to(Ok(reply))),
        message@ == frame_bytes(id, answer_to(Ok(reply))),
        (after, step@) == session_step(tunnel.opened(id, waiter), ClientEvent::Binary(message)),
    ensures
        step matches SessionStep::Answer(who, sent) && who == waiter && ({
            let got = visitor_response(VisitorOutcome::Answered(sent));
            &&& got.status == reply.status
            &&& got.body == reply.body@
            &&& got.headers.len() == reply.headers@.len()
            &&& forall|i: int|
                0 <= i < got.headers.len() ==> #[trigger] got.headers[i] == (
                    reply.headers@[i].0@,
                    reply.headers@[i].1@,
                )
        }),
        after.waiting(id) is None,
{
    law_decode_undoes_encode(id, answer_to(Ok(reply)));
}

} // verus!
