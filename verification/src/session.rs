//! The server's side of a client's control channel: the handshake, and then the
//! messages of the client until it leaves.
use std::sync::Arc;

use vstd::prelude::*;

use crate::format::parse_frame;
use crate::frame::{decode_frame, FrameView, ResponseView, TunnelFrame, TunnelResponse};
use crate::protocol::{text_view, ClientMessage, ServerMessage, ServerMessageView};
use crate::registry::{public_url, registers, NoNameLeft, RegistryView, TunnelRegistry};
use crate::reply::{response, text_response};
use crate::stream_id::StreamId;
use crate::text::joined;
use crate::tunnel::{Tunnel, TunnelView};

verus! {

/// What the server reads from a client's WebSocket.
pub enum ClientEvent {
    /// The stream of messages has ended.
    Ended,
    /// Reading failed, for the reason in these words.
    ReadFailed(String),
    /// A text message, or the words of its parser where it is no
    /// [`ClientMessage`].
    Text(Result<ClientMessage, String>),
    Binary(Vec<u8>),
    Ping,
    Closed,
    Other,
}

/// Why a client did not get as far as a Hello.
#[derive(Debug, Clone)]
pub enum HelloError {
    /// The client disconnected before Hello.
    Disconnected,
    /// Reading failed, for the reason in these words.
    ReadFailed(String),
    /// A text message is no [`ClientMessage`]; these are the words of its parser.
    BadMessage(String),
}

/// What a [`HelloError`] denotes.
#[verifier::ext_equal]
pub enum HelloErrorView {
    Disconnected,
    ReadFailed(Seq<char>),
    BadMessage(Seq<char>),
}

impl View for HelloError {
    type V = HelloErrorView;

    open spec fn view(&self) -> HelloErrorView {
        match self {
            HelloError::Disconnected => HelloErrorView::Disconnected,
            HelloError::ReadFailed(words) => HelloErrorView::ReadFailed(words@),
            HelloError::BadMessage(words) => HelloErrorView::BadMessage(words@),
        }
    }
}

impl HelloErrorView {
    /// The error in words.
    pub open spec fn message(self) -> Seq<char> {
        match self {
            HelloErrorView::Disconnected => "client disconnected before Hello"@,
            HelloErrorView::ReadFailed(words) => words,
            HelloErrorView::BadMessage(words) => words,
        }
    }
}

impl HelloError {
    /// The error in words.
    pub fn message(&self) -> (message: String)
        ensures
            message@ == self@.message(),
    {
        match self {
            HelloError::Disconnected => "client disconnected before Hello".to_owned(),
            HelloError::ReadFailed(words) => words.clone(),
            HelloError::BadMessage(words) => words.clone(),
        }
    }
}

/// What the server does while it waits for Hello.
pub enum HelloStep {
    Wait,
    Fail(HelloError),
    Proceed { token: Option<String>, requested_subdomain: Option<String> },
}

/// What a [`HelloStep`] denotes.
#[verifier::ext_equal]
pub enum HelloStepView {
    Wait,
    Fail(HelloErrorView),
    Proceed { token: Option<Seq<char>>, requested_subdomain: Option<Seq<char>> },
}

impl View for HelloStep {
    type V = HelloStepView;

    open spec fn view(&self) -> HelloStepView {
        match self {
            HelloStep::Wait => HelloStepView::Wait,
            HelloStep::Fail(e) => HelloStepView::Fail(e@),
            HelloStep::Proceed { token, requested_subdomain } => HelloStepView::Proceed {
                token: text_view(*token),
                requested_subdomain: text_view(*requested_subdomain),
            },
        }
    }
}

/// The server waits for the first Hello. Before it every other message is passed
/// over, but text must be a [`ClientMessage`].
pub open spec fn hello_step(event: ClientEvent) -> HelloStepView {
    match event {
        ClientEvent::Ended => HelloStepView::Fail(HelloErrorView::Disconnected),
        ClientEvent::ReadFailed(words) => HelloStepView::Fail(HelloErrorView::ReadFailed(words@)),
        ClientEvent::Text(Err(words)) => HelloStepView::Fail(HelloErrorView::BadMessage(words@)),
        ClientEvent::Text(Ok(ClientMessage::Hello { token, requested_subdomain })) => {
            HelloStepView::Proceed {
                token: text_view(token),
                requested_subdomain: text_view(requested_subdomain),
            }
        },
        _ => HelloStepView::Wait,
    }
}

/// Waits for the client's Hello: what one event calls for.
pub fn await_hello(event: ClientEvent) -> (step: HelloStep)
    ensures
        step@ == hello_step(event),
{
    match event {
        ClientEvent::Ended => HelloStep::Fail(HelloError::Disconnected),
        ClientEvent::ReadFailed(words) => HelloStep::Fail(HelloError::ReadFailed(words)),
        ClientEvent::Text(message) => match message {
            Err(words) => HelloStep::Fail(HelloError::BadMessage(words)),
            Ok(ClientMessage::Hello { token, requested_subdomain }) => HelloStep::Proceed {
                token,
                requested_subdomain,
            },
            Ok(_) => HelloStep::Wait,
        },
        _ => HelloStep::Wait,
    }
}

/// What comes of a Hello.
pub enum Admission<S, T> {
    /// The client may not open a tunnel: it is told so and the session fails.
    Rejected { ws_tx: S, message: ServerMessage },
    /// There is no name to give to the tunnel.
    Full(NoNameLeft),
    /// The tunnel is registered: the client is told its name and URL.
    Accepted { tunnel: Arc<T>, message: ServerMessage },
}

impl<S, T> Admission<S, T> {
    /// The error that the session fails with, in words; none for a client that
    /// was accepted.
    pub open spec fn failure(self) -> Option<Seq<char>> {
        match self {
            Admission::Rejected { .. } => Some("client auth failed"@),
            Admission::Full(_) => Some("no subdomain is left"@),
            Admission::Accepted { .. } => None,
        }
    }

    /// The error that the session fails with, in words; none for a client that
    /// was accepted.
    pub fn failure_message(&self) -> (message: Option<String>)
        ensures
            text_view(message) == self.failure(),
    {
        match self {
            Admission::Rejected { .. } => Some("client auth failed".to_owned()),
            Admission::Full(_) => Some("no subdomain is left".to_owned()),
            Admission::Accepted { .. } => None,
        }
    }
}

/// Whether an [`Admission`] is what a Hello calls for.
pub open spec fn admits<S, W, T, F: FnOnce(Tunnel<S, W>) -> T>(
    before: RegistryView<T>,
    after: RegistryView<T>,
    ws_tx: S,
    token: Option<Seq<char>>,
    requested: Option<Seq<char>>,
    share: F,
    admission: Admission<S, T>,
) -> bool {
    match admission {
        Admission::Rejected { ws_tx: returned, message } => {
            &&& !before.allows(token)
            &&& returned == ws_tx
            &&& message@ == ServerMessageView::Error { message: "invalid or missing auth token"@ }
            &&& after == before
        },
        Admission::Full(_) => {
            &&& before.allows(token)
            &&& before.granted(requested) is None
            &&& before.is_full()
            &&& after == before
        },
        Admission::Accepted { tunnel, message } => {
            &&& before.allows(token)
            &&& message@ matches ServerMessageView::Assigned { subdomain, url }
            &&& url == public_url(subdomain, before.domain)
            &&& registers::<S, W, T, F>(
                before,
                after,
                ws_tx,
                requested,
                share,
                subdomain,
                tunnel,
            )
        },
    }
}

/// Answers a Hello: checks the token and registers the tunnel.
pub fn answer_hello<S, W, T, F: FnOnce(Tunnel<S, W>) -> T>(
    registry: &mut TunnelRegistry<T>,
    ws_tx: S,
    token: &Option<String>,
    requested_subdomain: Option<String>,
    share: F,
) -> (admission: Admission<S, T>)
    requires
        forall|tunnel: Tunnel<S, W>| #[trigger] call_requires(share, (tunnel,)),
    ensures
        admits::<S, W, T, F>(
            old(registry)@,
            final(registry)@,
            ws_tx,
            text_view(*token),
            text_view(requested_subdomain),
            share,
            admission,
        ),
{
    if !registry.validate_token(token) {
        let message = ServerMessage::Error { message: "invalid or missing auth token".to_owned() };
        return Admission::Rejected { ws_tx, message };
    }
    match registry.register(ws_tx, requested_subdomain, share) {
        Ok((subdomain, url, tunnel)) => {
            let message = ServerMessage::Assigned { subdomain, url };
            Admission::Accepted { tunnel, message }
        },
        Err(e) => Admission::Full(e),
    }
}

/// What the server does about a message of a registered client.
pub enum SessionStep<W> {
    /// Nothing; the next message is awaited.
    Continue,
    /// A message goes to the client.
    Send(ServerMessage),
    /// A waiting visitor is answered.
    Answer(W, TunnelResponse),
    /// The session is over.
    Stop,
}

/// What a [`SessionStep`] denotes.
#[verifier::ext_equal]
pub enum SessionStepView<W> {
    Continue,
    Send(ServerMessageView),
    Answer(W, ResponseView),
    Stop,
}

impl<W> View for SessionStep<W> {
    type V = SessionStepView<W>;

    open spec fn view(&self) -> SessionStepView<W> {
        match self {
            SessionStep::Continue => SessionStepView::Continue,
            SessionStep::Send(message) => SessionStepView::Send(message@),
            SessionStep::Answer(waiter, reply) => SessionStepView::Answer(*waiter, reply@),
            SessionStep::Stop => SessionStepView::Stop,
        }
    }
}

/// The response that a visitor gets when the client could not serve the request.
pub open spec fn upstream_error(message: Seq<char>) -> ResponseView {
    text_response(502, "upstream error: "@ + message)
}

/// The answer that a binary message carries, and for whom: the response of a
/// response frame, and a 502 for an error frame.
pub open spec fn answer_in(data: Seq<u8>) -> Option<(StreamId, ResponseView)> {
    match parse_frame(data) {
        Ok((id, FrameView::Response(reply))) => Some((id, reply)),
        Ok((id, FrameView::Error(message))) => Some((id, upstream_error(message))),
        _ => None,
    }
}

/// What an event calls for, and the tunnel after it.
pub open spec fn session_step<S, W>(tunnel: TunnelView<S, W>, event: ClientEvent) -> (
    TunnelView<S, W>,
    SessionStepView<W>,
) {
    match event {
        ClientEvent::Ended | ClientEvent::ReadFailed(_) | ClientEvent::Closed => (
            tunnel,
            SessionStepView::Stop,
        ),
        ClientEvent::Ping | ClientEvent::Text(Ok(ClientMessage::Heartbeat)) => (
            tunnel,
            SessionStepView::Send(ServerMessageView::Heartbeat),
        ),
        ClientEvent::Binary(data) => match answer_in(data@) {
            Some((id, reply)) => (
                tunnel.cancelled(id),
                match tunnel.waiting(id) {
                    Some(waiter) => SessionStepView::Answer(waiter, reply),
                    None => SessionStepView::Continue,
                },
            ),
            None => (tunnel, SessionStepView::Continue),
        },
        _ => (tunnel, SessionStepView::Continue),
    }
}

/// Handles one event of a registered client: heartbeats are answered, response
/// and error frames go to the visitor that waits for them. When the client has
/// left, its tunnel leaves the registry.
pub fn handle_client_messages<S, W, T>(
    tunnel: &mut Tunnel<S, W>,
    event: ClientEvent,
    registry: &mut TunnelRegistry<T>,
) -> (step: SessionStep<W>)
    ensures
        (final(tunnel)@, step@) == session_step(old(tunnel)@, event),
        final(registry)@ == if step is Stop {
            old(registry)@.without(old(tunnel)@.subdomain)
        } else {
            old(registry)@
        },
{
    let step = handle_client_message(tunnel, event);
    if let SessionStep::Stop = step {
        registry.unregister(tunnel.subdomain());
    }
    step
}

/// Decides what one event of a registered client calls for.
fn handle_client_message<S, W>(tunnel: &mut Tunnel<S, W>, event: ClientEvent) -> (step:
    SessionStep<W>)
    ensures
        (final(tunnel)@, step@) == session_step(old(tunnel)@, event),
{
    match event {
        ClientEvent::Ended | ClientEvent::ReadFailed(_) | ClientEvent::Closed => SessionStep::Stop,
        ClientEvent::Ping => SessionStep::Send(ServerMessage::Heartbeat),
        ClientEvent::Text(message) => match message {
            Ok(ClientMessage::Heartbeat) => SessionStep::Send(ServerMessage::Heartbeat),
            _ => SessionStep::Continue,
        },
        ClientEvent::Binary(data) => match decode_frame(data.as_slice()) {
            Ok((stream_id, TunnelFrame::Response(reply))) => answer(tunnel, stream_id, reply),
            Ok((stream_id, TunnelFrame::Error(error))) => {
                let body = joined("upstream error: ", error.message.as_str());
                answer(tunnel, stream_id, response(502, body.as_str()))
            },
            _ => SessionStep::Continue,
        },
        ClientEvent::Other => SessionStep::Continue,
    }
}

/// Answers the visitor that waits under a stream id, if there is one.
fn answer<S, W>(tunnel: &mut Tunnel<S, W>, stream_id: StreamId, reply: TunnelResponse) -> (step:
    SessionStep<W>)
    ensures
        final(tunnel)@ == old(tunnel)@.cancelled(stream_id),
        step@ == match old(tunnel)@.waiting(stream_id) {
            Some(waiter) => SessionStepView::Answer(waiter, reply@),
            None => SessionStepView::Continue,
        },
{
    match tunnel.resolve_connection(stream_id, reply) {
        Some((waiter, reply)) => SessionStep::Answer(waiter, reply),
        None => SessionStep::Continue,
    }
}

} // verus!
