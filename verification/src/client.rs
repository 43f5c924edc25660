//! The client's side: the handshake with the server, the messages of the
//! server, the requests that go to the local service, and reconnection.
use vstd::prelude::*;

use crate::format::{frame_bytes, frame_fits, parse_frame};
use crate::frame::{
    can_encode, decode_frame, encode, FrameView, RequestView, TunnelError, TunnelFrame,
    TunnelRequest, TunnelResponse,
};
use crate::http::ProxyError;
use crate::protocol::{text_view, ClientMessage, ClientMessageView, ServerMessage, TUNNEL_WS_PATH};
use crate::stream_id::StreamId;
use crate::text::{is_char, joined, strip_end, strip_start, trim_end_matches, trim_start_matches};

verus! {

/// A client before it connects. `A` is the address of the local service.
pub struct TunnelClient<A> {
    server_url: String,
    local_addr: A,
    token: Option<String>,
    subdomain: Option<String>,
}

/// What a [`TunnelClient`] denotes.
#[verifier::ext_equal]
pub struct ClientView<A> {
    pub server_url: Seq<char>,
    pub local_addr: A,
    pub token: Option<Seq<char>>,
    pub subdomain: Option<Seq<char>>,
}

impl<A> View for TunnelClient<A> {
    type V = ClientView<A>;

    closed spec fn view(&self) -> ClientView<A> {
        ClientView {
            server_url: self.server_url@,
            local_addr: self.local_addr,
            token: text_view(self.token),
            subdomain: text_view(self.subdomain),
        }
    }
}

/// The address of the server's registration endpoint.
pub open spec fn endpoint(server_url: Seq<char>) -> Seq<char> {
    strip_end(server_url, is_char('/')) + "/"@ + strip_start(TUNNEL_WS_PATH@, is_char('/'))
}

/// The text of an optional string.
fn copied(text: &Option<String>) -> (copy: Option<String>)
    ensures
        text_view(copy) == text_view(*text),
{
    match text {
        Some(t) => Some(t.clone()),
        None => None,
    }
}

impl<A> TunnelClient<A> {
    /// A client for the given server and local address, without a token and
    /// without a wish for a subdomain.
    pub fn new(server_url: &str, local_addr: A) -> (client: Self)
        ensures
            client@ == (ClientView {
                server_url: server_url@,
                local_addr,
                token: None,
                subdomain: None,
            }),
    {
        TunnelClient { server_url: server_url.to_owned(), local_addr, token: None, subdomain: None }
    }

    /// Sets an authentication token.
    pub fn token(self, token: &str) -> (client: Self)
        ensures
            client@ == (ClientView { token: Some(token@), ..self@ }),
    {
        TunnelClient {
            server_url: self.server_url,
            local_addr: self.local_addr,
            token: Some(token.to_owned()),
            subdomain: self.subdomain,
        }
    }

    /// Requests a specific subdomain: "myapp" for myapp.yourdomain.com.
    pub fn subdomain(self, subdomain: &str) -> (client: Self)
        ensures
            client@ == (ClientView { subdomain: Some(subdomain@), ..self@ }),
    {
        TunnelClient {
            server_url: self.server_url,
            local_addr: self.local_addr,
            token: self.token,
            subdomain: Some(subdomain.to_owned()),
        }
    }

    /// The address of the local service.
    pub fn local_addr(&self) -> (local_addr: &A)
        ensures
            *local_addr == self@.local_addr,
    {
        &self.local_addr
    }

    /// The address to connect to.
    pub fn ws_url(&self) -> (url: String)
        ensures
            url@ == endpoint(self@.server_url),
    {
        let base = trim_end_matches(self.server_url.as_str(), '/');
        joined(joined(base, "/").as_str(), trim_start_matches(TUNNEL_WS_PATH, '/'))
    }

    /// The message that opens the handshake.
    pub fn hello(&self) -> (message: ClientMessage)
        ensures
            message@ == (ClientMessageView::Hello {
                token: self@.token,
                requested_subdomain: self@.subdomain,
            }),
    {
        ClientMessage::Hello {
            token: copied(&self.token),
            requested_subdomain: copied(&self.subdomain),
        }
    }
}

/// A running tunnel: its public URL, and what keeps it running.
pub struct TunnelHandle<K> {
    url: String,
    keeper: K,
}

/// What a [`TunnelHandle`] denotes.
#[verifier::ext_equal]
pub struct HandleView<K> {
    pub url: Seq<char>,
    pub keeper: K,
}

impl<K> View for TunnelHandle<K> {
    type V = HandleView<K>;

    closed spec fn view(&self) -> HandleView<K> {
        HandleView { url: self.url@, keeper: self.keeper }
    }
}

impl<K> TunnelHandle<K> {
    /// A handle on a tunnel that runs under the given URL.
    pub fn new(url: String, keeper: K) -> (handle: Self)
        ensures
            handle@ == (HandleView { url: url@, keeper }),
    {
        TunnelHandle { url, keeper }
    }

    /// The public URL that the server assigned.
    pub fn url(&self) -> (url: &str)
        ensures
            url@ == self@.url,
    {
        self.url.as_str()
    }

    /// Gives up the handle for what keeps the tunnel running.
    pub fn into_keeper(self) -> (keeper: K)
        ensures
            keeper == self@.keeper,
    {
        self.keeper
    }
}

/// What the client reads from the server's WebSocket.
pub enum ServerEvent {
    /// The stream of messages has ended.
    Ended,
    /// Reading failed, for the reason in these words.
    ReadFailed(String),
    /// A text message, or the words of its parser where it is no
    /// [`ServerMessage`].
    Text(Result<ServerMessage, String>),
    Binary(Vec<u8>),
    Ping(Vec<u8>),
    Closed,
    Other,
}

/// Why a handshake failed.
#[derive(Debug, Clone)]
pub enum HandshakeError {
    /// Reading failed, for the reason in these words.
    ReadFailed(String),
    /// A text message is no [`ServerMessage`]; these are the words of its parser.
    BadMessage(String),
    /// The server rejected the tunnel, with this message.
    Rejected(String),
    /// The server closed the connection.
    Closed,
    /// The stream of messages ended.
    Ended,
}

/// What a [`HandshakeError`] denotes.
#[verifier::ext_equal]
pub enum HandshakeErrorView {
    ReadFailed(Seq<char>),
    BadMessage(Seq<char>),
    Rejected(Seq<char>),
    Closed,
    Ended,
}

impl View for HandshakeError {
    type V = HandshakeErrorView;

    open spec fn view(&self) -> HandshakeErrorView {
        match self {
            HandshakeError::ReadFailed(cause) => HandshakeErrorView::ReadFailed(cause@),
            HandshakeError::BadMessage(words) => HandshakeErrorView::BadMessage(words@),
            HandshakeError::Rejected(message) => HandshakeErrorView::Rejected(message@),
            HandshakeError::Closed => HandshakeErrorView::Closed,
            HandshakeError::Ended => HandshakeErrorView::Ended,
        }
    }
}

impl HandshakeErrorView {
    /// The error in words.
    pub open spec fn message(self) -> Seq<char> {
        match self {
            HandshakeErrorView::ReadFailed(_) => "WebSocket error during handshake"@,
            HandshakeErrorView::BadMessage(words) => words,
            HandshakeErrorView::Rejected(message) => "server rejected tunnel: "@ + message,
            HandshakeErrorView::Closed => "server closed connection during handshake"@,
            HandshakeErrorView::Ended => "WebSocket closed before handshake completed"@,
        }
    }
}

impl HandshakeError {
    /// The error in words.
    pub fn message(&self) -> (message: String)
        ensures
            message@ == self@.message(),
    {
        match self {
            HandshakeError::ReadFailed(_) => "WebSocket error during handshake".to_owned(),
            HandshakeError::BadMessage(words) => words.clone(),
            HandshakeError::Rejected(message) => joined(
                "server rejected tunnel: ",
                message.as_str(),
            ),
            HandshakeError::Closed => "server closed connection during handshake".to_owned(),
            HandshakeError::Ended => "WebSocket closed before handshake completed".to_owned(),
        }
    }
}

/// What the client does during the handshake.
pub enum HandshakeStep {
    Wait,
    Connected { url: String },
    Fail(HandshakeError),
}

/// What a [`HandshakeStep`] denotes.
#[verifier::ext_equal]
pub enum HandshakeStepView {
    Wait,
    Connected { url: Seq<char> },
    Fail(HandshakeErrorView),
}

impl View for HandshakeStep {
    type V = HandshakeStepView;

    open spec fn view(&self) -> HandshakeStepView {
        match self {
            HandshakeStep::Wait => HandshakeStepView::Wait,
            HandshakeStep::Connected { url } => HandshakeStepView::Connected { url: url@ },
            HandshakeStep::Fail(e) => HandshakeStepView::Fail(e@),
        }
    }
}

/// The client waits for the server to assign a URL or to report an error.
pub open spec fn handshake_step(event: ServerEvent) -> HandshakeStepView {
    match event {
        ServerEvent::Ended => HandshakeStepView::Fail(HandshakeErrorView::Ended),
        ServerEvent::ReadFailed(cause) => HandshakeStepView::Fail(
            HandshakeErrorView::ReadFailed(cause@),
        ),
        ServerEvent::Closed => HandshakeStepView::Fail(HandshakeErrorView::Closed),
        ServerEvent::Text(Err(words)) => HandshakeStepView::Fail(
            HandshakeErrorView::BadMessage(words@),
        ),
        ServerEvent::Text(Ok(ServerMessage::Assigned { subdomain, url })) => {
            HandshakeStepView::Connected { url: url@ }
        },
        ServerEvent::Text(Ok(ServerMessage::Error { message })) => HandshakeStepView::Fail(
            HandshakeErrorView::Rejected(message@),
        ),
        _ => HandshakeStepView::Wait,
    }
}

/// The handshake after Hello: what one event calls for.
pub fn handshake(event: ServerEvent) -> (step: HandshakeStep)
    ensures
        step@ == handshake_step(event),
{
    match event {
        ServerEvent::Ended => HandshakeStep::Fail(HandshakeError::Ended),
        ServerEvent::ReadFailed(cause) => HandshakeStep::Fail(HandshakeError::ReadFailed(cause)),
        ServerEvent::Closed => HandshakeStep::Fail(HandshakeError::Closed),
        ServerEvent::Text(message) => match message {
            Err(words) => HandshakeStep::Fail(HandshakeError::BadMessage(words)),
            Ok(ServerMessage::Assigned { subdomain, url }) => HandshakeStep::Connected { url },
            Ok(ServerMessage::Error { message }) => HandshakeStep::Fail(
                HandshakeError::Rejected(message),
            ),
            Ok(_) => HandshakeStep::Wait,
        },
        _ => HandshakeStep::Wait,
    }
}

/// What happens to a running tunnel.
pub enum LoopEvent {
    /// The tunnel is to be shut down.
    Shutdown,
    /// The server's WebSocket has something to read.
    Server(ServerEvent),
}

/// What the client does about it.
pub enum LoopStep {
    /// Nothing; the next event is awaited.
    Continue,
    /// A message goes to the server.
    Send(ClientMessage),
    /// A pong with these bytes goes to the server.
    Pong(Vec<u8>),
    /// A binary message is handled beside the loop.
    Proxy(Vec<u8>),
    /// The WebSocket is closed and the loop ends.
    CloseAndStop,
    /// The loop ends.
    Stop,
    /// The loop ends with an error, in these words.
    Fail(String),
}

/// What a [`LoopStep`] denotes.
#[verifier::ext_equal]
pub enum LoopStepView {
    Continue,
    Send(ClientMessageView),
    Pong(Seq<u8>),
    Proxy(Seq<u8>),
    CloseAndStop,
    Stop,
    Fail(Seq<char>),
}

impl View for LoopStep {
    type V = LoopStepView;

    open spec fn view(&self) -> LoopStepView {
        match self {
            LoopStep::Continue => LoopStepView::Continue,
            LoopStep::Send(message) => LoopStepView::Send(message@),
            LoopStep::Pong(data) => LoopStepView::Pong(data@),
            LoopStep::Proxy(data) => LoopStepView::Proxy(data@),
            LoopStep::CloseAndStop => LoopStepView::CloseAndStop,
            LoopStep::Stop => LoopStepView::Stop,
            LoopStep::Fail(words) => LoopStepView::Fail(words@),
        }
    }
}

/// What an event calls for: heartbeats and pings are answered, binary messages
/// are handled, and the loop ends when the tunnel is shut down or the connection
/// is lost.
pub open spec fn loop_step(event: LoopEvent) -> LoopStepView {
    match event {
        LoopEvent::Shutdown => LoopStepView::CloseAndStop,
        LoopEvent::Server(event) => match event {
            ServerEvent::Ended | ServerEvent::Closed => LoopStepView::Stop,
            ServerEvent::ReadFailed(words) | ServerEvent::Text(Err(words)) => LoopStepView::Fail(
                words@,
            ),
            ServerEvent::Text(Ok(ServerMessage::Heartbeat)) => LoopStepView::Send(
                ClientMessageView::Heartbeat,
            ),
            ServerEvent::Binary(data) => LoopStepView::Proxy(data@),
            ServerEvent::Ping(data) => LoopStepView::Pong(data@),
            _ => LoopStepView::Continue,
        },
    }
}

/// The main loop of a running tunnel: what one event calls for.
pub fn tunnel_loop(event: LoopEvent) -> (step: LoopStep)
    ensures
        step@ == loop_step(event),
{
    match event {
        LoopEvent::Shutdown => LoopStep::CloseAndStop,
        LoopEvent::Server(event) => match event {
            ServerEvent::Ended | ServerEvent::Closed => LoopStep::Stop,
            ServerEvent::ReadFailed(words) => LoopStep::Fail(words),
            ServerEvent::Text(message) => match message {
                Err(words) => LoopStep::Fail(words),
                Ok(ServerMessage::Heartbeat) => LoopStep::Send(ClientMessage::Heartbeat),
                Ok(_) => LoopStep::Continue,
            },
            ServerEvent::Binary(data) => LoopStep::Proxy(data),
            ServerEvent::Ping(data) => LoopStep::Pong(data),
            ServerEvent::Other => LoopStep::Continue,
        },
    }
}

/// The request that a binary message carries, and the connection it is for.
pub open spec fn request_in(data: Seq<u8>) -> Option<(StreamId, RequestView)> {
    match parse_frame(data) {
        Ok((id, FrameView::Request(request))) => Some((id, request)),
        _ => None,
    }
}

/// Reads the request in a binary message. Anything but a request frame is passed
/// over.
pub fn accept_frame(data: &[u8]) -> (request: Option<(StreamId, TunnelRequest)>)
    ensures
        match request {
            Some((id, r)) => request_in(data@) == Some((id, r@)),
            None => request_in(data@) is None,
        },
{
    match decode_frame(data) {
        Ok((id, TunnelFrame::Request(request))) => Some((id, request)),
        _ => None,
    }
}

impl ProxyError {
    /// The error in words.
    pub open spec fn text(self) -> Seq<char> {
        match self {
            ProxyError::ConnectFailed => "failed to connect to local service"@,
            ProxyError::HandshakeFailed => "HTTP handshake with local service failed"@,
            ProxyError::InvalidMethod => "invalid HTTP method"@,
            ProxyError::BuildFailed => "failed to build request"@,
            ProxyError::RequestFailed => "local service request failed"@,
            ProxyError::BodyFailed => "failed to read local response body"@,
        }
    }

    /// The error in words.
    pub fn message(&self) -> (message: String)
        ensures
            message@ == self.text(),
    {
        match self {
            ProxyError::ConnectFailed => "failed to connect to local service".to_owned(),
            ProxyError::HandshakeFailed => "HTTP handshake with local service failed".to_owned(),
            ProxyError::InvalidMethod => "invalid HTTP method".to_owned(),
            ProxyError::BuildFailed => "failed to build request".to_owned(),
            ProxyError::RequestFailed => "local service request failed".to_owned(),
            ProxyError::BodyFailed => "failed to read local response body".to_owned(),
        }
    }
}

/// The frame that answers a request: the local service's response, or what went
/// wrong.
pub open spec fn answer_to(outcome: Result<TunnelResponse, ProxyError>) -> FrameView {
    match outcome {
        Ok(reply) => FrameView::Response(reply@),
        Err(e) => FrameView::Error(e.text()),
    }
}

/// Encodes the answer to a request. There is none only for a response that is
/// too large to encode on this machine.
pub fn answer_frame(stream_id: StreamId, outcome: Result<TunnelResponse, ProxyError>) -> (data:
    Option<Vec<u8>>)
    ensures
        match data {
            Some(bytes) => frame_fits(answer_to(outcome)) && bytes@ == frame_bytes(
                stream_id,
                answer_to(outcome),
            ),
            None => !frame_fits(answer_to(outcome)),
        },
{
    let frame = match outcome {
        Ok(reply) => TunnelFrame::Response(reply),
        Err(e) => TunnelFrame::Error(TunnelError { message: e.message() }),
    };
    if can_encode(&frame) {
        Some(encode(stream_id, &frame))
    } else {
        None
    }
}

/// The first delay before a reconnection, in seconds.
pub const BACKOFF_INITIAL: u64 = 1;

/// The longest delay before a reconnection, in seconds.
pub const BACKOFF_MAX: u64 = 60;

/// What happens to a tunnel that is kept connected.
#[derive(Debug, Clone, Copy, PartialEq, Eq, Structural)]
pub enum ReconnectEvent {
    /// The main loop ended; whether a shutdown was requested by then.
    LoopEnded { shutdown: bool },
    /// A shutdown was requested during a delay.
    Interrupted,
    /// A delay is over; whether a shutdown was requested by then.
    Waited { shutdown: bool },
    /// The connection or the handshake failed.
    ConnectFailed,
    /// The connection and the handshake succeeded.
    Connected,
}

/// What is done about it.
#[derive(Debug, Clone, Copy, PartialEq, Eq, Structural)]
pub enum ReconnectAction {
    /// Wait for this many seconds.
    Wait(u64),
    /// Try to connect.
    Connect,
    /// Enter the main loop.
    RunLoop,
    /// Give up the tunnel.
    Stop,
}

/// The delay after a delay of `delay` seconds.
pub open spec fn doubled(delay: nat) -> nat {
    if 2 * delay < BACKOFF_MAX {
        2 * delay
    } else {
        BACKOFF_MAX as nat
    }
}

/// What an event calls for, and the delay that comes next.
pub open spec fn reconnect_step(delay: nat, event: ReconnectEvent) -> (nat, ReconnectAction) {
    match event {
        ReconnectEvent::LoopEnded { shutdown: true }
        | ReconnectEvent::Interrupted
        | ReconnectEvent::Waited { shutdown: true } => (delay, ReconnectAction::Stop),
        ReconnectEvent::LoopEnded { shutdown: false } => (
            delay,
            ReconnectAction::Wait(delay as u64),
        ),
        ReconnectEvent::Waited { shutdown: false } => (delay, ReconnectAction::Connect),
        ReconnectEvent::ConnectFailed => (
            doubled(delay),
            ReconnectAction::Wait(doubled(delay) as u64),
        ),
        ReconnectEvent::Connected => (doubled(BACKOFF_INITIAL as nat), ReconnectAction::RunLoop),
    }
}

/// Keeps a tunnel connected, with exponential backoff.
pub struct Reconnect {
    /// The next delay, in seconds.
    delay: u64,
}

impl View for Reconnect {
    type V = nat;

    closed spec fn view(&self) -> nat {
        self.delay as nat
    }
}

impl Reconnect {
    #[verifier::type_invariant]
    spec fn in_range(self) -> bool {
        BACKOFF_INITIAL <= self.delay <= BACKOFF_MAX
    }

    /// The state of a tunnel that has just connected for the first time.
    pub fn new() -> (state: Self)
        ensures
            state@ == BACKOFF_INITIAL,
    {
        Reconnect { delay: BACKOFF_INITIAL }
    }

    /// Decides what an event calls for. After a successful connection the
    /// shortest delay counts as spent.
    pub fn run_with_reconnect(&mut self, event: ReconnectEvent) -> (action: ReconnectAction)
        ensures
            (final(self)@, action) == reconnect_step(old(self)@, event),
            BACKOFF_INITIAL <= final(self)@ <= BACKOFF_MAX,
    {
        proof {
            use_type_invariant(&*self);
        }
        match event {
            ReconnectEvent::LoopEnded { shutdown } => if shutdown {
                ReconnectAction::Stop
            } else {
                ReconnectAction::Wait(self.delay)
            },
            ReconnectEvent::Interrupted => ReconnectAction::Stop,
            ReconnectEvent::Waited { shutdown } => if shutdown {
                ReconnectAction::Stop
            } else {
                ReconnectAction::Connect
            },
            ReconnectEvent::ConnectFailed => {
                self.delay = next_delay(self.delay);
                ReconnectAction::Wait(self.delay)
            },
            ReconnectEvent::Connected => {
                self.delay = next_delay(BACKOFF_INITIAL);
                ReconnectAction::RunLoop
            },
        }
    }
}

/// Twice the delay, up to the longest one.
fn next_delay(delay: u64) -> (next: u64)
    ensures
        next == doubled(delay as nat),
{
    if delay < BACKOFF_MAX / 2 {
        delay * 2
    } else {
        BACKOFF_MAX
    }
}

} // verus!
