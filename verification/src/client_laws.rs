//! What holds of the client: its endpoint, its handshake, its main loop, its
//! answers and its reconnections.
use vstd::prelude::*;

use crate::client::{
    answer_to, endpoint, handshake_step, loop_step, reconnect_step, request_in, HandshakeError,
    HandshakeStep, LoopEvent, LoopStep, ReconnectAction, ReconnectEvent, ServerEvent,
};
use crate::format::{frame_bytes, parse_frame};
use crate::format_laws::{
    frame_is_short, law_decode_undoes_encode, law_encode_undoes_decode,
    law_message_decodes_where_it_begins,
};
use crate::frame::{FrameView, RequestView, TunnelResponse};
use crate::http::ProxyError;
use crate::protocol::{ClientMessage, ServerMessage, TUNNEL_WS_PATH};
use crate::stream_id::StreamId;
use crate::text::{is_char, strip_start};
use crate::tunnel::{announces, NewConnection};

verus! {

/// The main loop hands on every binary message, whatever its bytes, and nothing
/// else; and it hands it on unchanged.
pub proof fn law_every_binary_message_is_handed_on(event: LoopEvent, step: LoopStep)
    requires
        step@ == loop_step(event),
    ensures
        event matches LoopEvent::Server(ServerEvent::Binary(data)) ==> (
        step matches LoopStep::Proxy(handed) && handed@ == data@),
        step is Proxy ==> (event matches LoopEvent::Server(ServerEvent::Binary(_))),
{
}

/// What the server announces for a visitor, read by the client's main loop as a
/// binary message, is handed on, and the visitor's request is found in it.
pub proof fn law_announced_request_is_served(
    connection: NewConnection,
    id: StreamId,
    request: RequestView,
    message: Vec<u8>,
    step: LoopStep,
)
    requires
        announces(connection, id, request),
        frame_is_short(FrameView::Request(request)),
        message@ == connection.frame@,
        step@ == loop_step(LoopEvent::Server(ServerEvent::Binary(message))),
    ensures
        step matches LoopStep::Proxy(handed) && handed@ == connection.frame@ && request_in(handed@)
            == Some((id, request)),
{
    law_decode_undoes_encode(id, FrameView::Request(request));
}

/// A ping is answered by a pong with the same bytes, a heartbeat by a heartbeat,
/// and the client sends nothing else on its own.
pub proof fn law_keep_alives_are_answered(event: LoopEvent, step: LoopStep)
    requires
        step@ == loop_step(event),
    ensures
        event matches LoopEvent::Server(ServerEvent::Ping(data)) ==> (step matches LoopStep::Pong(
            sent,
        ) && sent@ == data@),
        step is Pong ==> (event matches LoopEvent::Server(ServerEvent::Ping(_))),
        event matches LoopEvent::Server(ServerEvent::Text(Ok(ServerMessage::Heartbeat))) ==> (
        step matches LoopStep::Send(ClientMessage::Heartbeat)),
        step is Send ==> (event matches LoopEvent::Server(
            ServerEvent::Text(Ok(ServerMessage::Heartbeat)),
        )),
{
}

/// The main loop ends exactly when it is shut down or the connection is lost: with
/// a close for a shutdown, quietly when the server has left, and otherwise with
/// the words of what went wrong.
pub proof fn law_loop_ends_with_the_connection(event: LoopEvent, step: LoopStep)
    requires
        step@ == loop_step(event),
    ensures
        (step is CloseAndStop) == (event is Shutdown),
        (step is Stop) == ((event matches LoopEvent::Server(ServerEvent::Ended)) || (
        event matches LoopEvent::Server(ServerEvent::Closed))),
        event matches LoopEvent::Server(ServerEvent::ReadFailed(words)) ==> (
        step matches LoopStep::Fail(reason) && reason@ == words@),
        event matches LoopEvent::Server(ServerEvent::Text(Err(words))) ==> (
        step matches LoopStep::Fail(reason) && reason@ == words@),
        step is Fail ==> ((event matches LoopEvent::Server(ServerEvent::ReadFailed(_))) || (
        event matches LoopEvent::Server(ServerEvent::Text(Err(_))))),
{
}

/// Every other message leaves the loop running and calls for nothing.
pub proof fn law_other_messages_are_passed_over(event: LoopEvent, step: LoopStep)
    requires
        step@ == loop_step(event),
    ensures
        (step is Continue) == ((event matches LoopEvent::Server(ServerEvent::Other)) || (
        event matches LoopEvent::Server(ServerEvent::Text(Ok(message))) && !(
        message is Heartbeat))),
{
}

/// A handshake succeeds exactly on an assignment, with the URL that was assigned.
pub proof fn law_handshake_gives_the_assigned_url(event: ServerEvent, step: HandshakeStep)
    requires
        step@ == handshake_step(event),
    ensures
        event matches ServerEvent::Text(Ok(ServerMessage::Assigned { subdomain, url })) ==> (
        step matches HandshakeStep::Connected { url: given } && given@ == url@),
        step is Connected ==> (event matches ServerEvent::Text(
            Ok(ServerMessage::Assigned { subdomain: _, url: _ }),
        )),
{
}

/// A handshake fails exactly on an error of the server, on a message that cannot
/// be read or parsed, and when the connection is closed or ends; and it says why.
pub proof fn law_handshake_failure_says_why(event: ServerEvent, step: HandshakeStep)
    requires
        step@ == handshake_step(event),
    ensures
        event matches ServerEvent::Text(Ok(ServerMessage::Error { message })) ==> (
        step matches HandshakeStep::Fail(e) && e@.message() == "server rejected tunnel: "@
            + message@),
        event matches ServerEvent::Text(Err(words)) ==> (step matches HandshakeStep::Fail(e)
            && e@.message() == words@),
        event matches ServerEvent::ReadFailed(cause) ==> (step matches HandshakeStep::Fail(e)
            && e@.message() == "WebSocket error during handshake"@
            && (e matches HandshakeError::ReadFailed(kept) && kept@ == cause@)),
        event is Closed ==> (step matches HandshakeStep::Fail(e) && e@.message()
            == "server closed connection during handshake"@),
        event is Ended ==> (step matches HandshakeStep::Fail(e) && e@.message()
            == "WebSocket closed before handshake completed"@),
        step is Fail ==> (event is Closed || event is Ended || event is ReadFailed || (
        event matches ServerEvent::Text(Err(_))) || (event matches ServerEvent::Text(
            Ok(ServerMessage::Error { message: _ }),
        ))),
{
}

/// A request is found in exactly those messages that begin with its encoding.
pub proof fn law_request_is_found_where_it_is(
    data: Seq<u8>,
    id: StreamId,
    request: RequestView,
)
    requires
        frame_is_short(FrameView::Request(request)),
    ensures
        request_in(data) == Some((id, request)) <==> frame_bytes(
            id,
            FrameView::Request(request),
        ).is_prefix_of(data),
{
    law_message_decodes_where_it_begins(data, id, FrameView::Request(request));
}

/// Any message in which a request is found begins with the encoding of a request.
pub proof fn law_nothing_else_is_taken_for_a_request(data: Seq<u8>)
    ensures
        request_in(data) matches Some((id, request)) ==> frame_is_short(FrameView::Request(request))
            && frame_bytes(id, FrameView::Request(request)).is_prefix_of(data),
        request_in(data) is None ==> !(parse_frame(data) matches Ok((_, FrameView::Request(_)))),
{
    if request_in(data) is Some {
        law_encode_undoes_decode(data);
    }
}

/// The answer to a request carries the whole response of the local service, or
/// the words of what went wrong.
pub proof fn law_answer_carries_the_whole_response(outcome: Result<TunnelResponse, ProxyError>)
    ensures
        outcome matches Ok(reply) ==> (answer_to(outcome) matches FrameView::Response(sent)
            && sent.status == reply.status && sent.body == reply.body@ && sent.headers.len()
            == reply.headers@.len() && (forall|i: int|
            0 <= i < sent.headers.len() ==> #[trigger] sent.headers[i] == (
                reply.headers@[i].0@,
                reply.headers@[i].1@,
            ))),
        outcome matches Err(e) ==> answer_to(outcome) == FrameView::Error(e.text()),
{
}

/// The endpoint is the server's address without the slashes at its end, then the
/// registration path.
pub proof fn law_endpoint_is_below_the_address(base: Seq<char>, slashes: Seq<char>)
    requires
        base.len() > 0 ==> base.last() != '/',
        forall|i: int| 0 <= i < slashes.len() ==> #[trigger] slashes[i] == '/',
    ensures
        endpoint(base + slashes) == base + "/burrow"@,
    decreases slashes.len(),
{
    reveal_strlit("/");
    reveal_strlit("/burrow");
    let url = base + slashes;
    if slashes.len() > 0 {
        let fewer = slashes.drop_last();
        assert(url.drop_last() =~= base + fewer);
        assert(url.last() == '/');
        law_endpoint_is_below_the_address(base, fewer);
    } else {
        assert(url =~= base);
        let path = TUNNEL_WS_PATH@;
        reveal_with_fuel(strip_start, 2);
        assert(strip_start(path, is_char('/')) =~= path.drop_first());
        assert(base + "/"@ + path.drop_first() =~= base + "/burrow"@);
    }
}

/// The main loop is entered exactly after a successful connection, and a
/// connection is tried exactly after a delay in which no shutdown was requested.
pub proof fn law_regained_connection_is_used(delay: nat, event: ReconnectEvent)
    ensures
        reconnect_step(delay, event).1 == ReconnectAction::RunLoop <==> event
            == ReconnectEvent::Connected,
        reconnect_step(delay, event).1 == ReconnectAction::Connect <==> event
            == (ReconnectEvent::Waited { shutdown: false }),
        reconnect_step(delay, event).1 == ReconnectAction::Stop <==> (event
            == ReconnectEvent::Interrupted || event == (ReconnectEvent::LoopEnded {
            shutdown: true,
        }) || event == (ReconnectEvent::Waited { shutdown: true })),
{
}

/// A lost connection and a failed attempt are followed by a wait: of the current
/// delay after a loss, and of twice the delay, up to a minute, after a failure.
pub proof fn law_wait_is_the_delay(delay: nat, event: ReconnectEvent)
    requires
        1 <= delay <= 60,
    ensures
        ({
            let (next, action) = reconnect_step(delay, event);
            &&& event == (ReconnectEvent::LoopEnded { shutdown: false }) ==> next == delay && action
                == ReconnectAction::Wait(delay as u64)
            &&& event == ReconnectEvent::ConnectFailed ==> (next == 2 * delay || next == 60) && next
                <= 2 * delay && next <= 60 && action == ReconnectAction::Wait(next as u64)
            &&& action is Wait ==> event == ReconnectEvent::ConnectFailed || event == (
            ReconnectEvent::LoopEnded { shutdown: false })
        }),
{
}

/// Only a failure and a success change the delay; after a success it does not
/// depend on what it was before.
pub proof fn law_success_forgets_the_delay(delay: nat, other: nat, event: ReconnectEvent)
    ensures
        reconnect_step(delay, ReconnectEvent::Connected).0 == reconnect_step(
            other,
            ReconnectEvent::Connected,
        ).0,
        reconnect_step(delay, ReconnectEvent::Connected).0 == 2,
        event != ReconnectEvent::Connected && event != ReconnectEvent::ConnectFailed
            ==> reconnect_step(delay, event).0 == delay,
{
}

} // verus!
