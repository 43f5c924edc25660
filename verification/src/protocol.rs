//! The messages of the control channel, which travel as JSON text.
use vstd::prelude::*;

use crate::stream_id::StreamId;

verus! {

/// Path of the WebSocket endpoint at which tunnel clients register.
pub const TUNNEL_WS_PATH: &'static str = "/burrow";

/// Default server port.
pub const DEFAULT_PORT: u16 = 8080;

/// Messages from the tunnel client to the server.
#[derive(Debug, Clone)]
pub enum ClientMessage {
    /// The client announces itself and may request a subdomain.
    Hello { token: Option<String>, requested_subdomain: Option<String> },
    /// The client is ready to handle a visitor connection.
    Accept { stream_id: StreamId },
    /// Keep-alive from the client.
    Heartbeat,
}

/// Messages from the server to the tunnel client.
#[derive(Debug, Clone)]
pub enum ServerMessage {
    /// The tunnel is live, under this public URL.
    Assigned { subdomain: String, url: String },
    /// A visitor connection arrived.
    NewConnection { stream_id: StreamId },
    /// Keep-alive from the server.
    Heartbeat,
    /// Something went wrong.
    Error { message: String },
}

/// The header at the start of a stream: the visitor connection it belongs to.
#[derive(Debug, Clone)]
pub struct StreamHeader {
    pub stream_id: StreamId,
}

/// The text that an optional string holds.
pub open spec fn text_view(text: Option<String>) -> Option<Seq<char>> {
    match text {
        Some(t) => Some(t@),
        None => None,
    }
}

/// What a [`ClientMessage`] denotes.
#[verifier::ext_equal]
pub enum ClientMessageView {
    Hello { token: Option<Seq<char>>, requested_subdomain: Option<Seq<char>> },
    Accept { stream_id: StreamId },
    Heartbeat,
}

/// What a [`ServerMessage`] denotes.
#[verifier::ext_equal]
pub enum ServerMessageView {
    Assigned { subdomain: Seq<char>, url: Seq<char> },
    NewConnection { stream_id: StreamId },
    Heartbeat,
    Error { message: Seq<char> },
}

impl View for ClientMessage {
    type V = ClientMessageView;

    open spec fn view(&self) -> ClientMessageView {
        match self {
            ClientMessage::Hello { token, requested_subdomain } => ClientMessageView::Hello {
                token: text_view(*token),
                requested_subdomain: text_view(*requested_subdomain),
            },
            ClientMessage::Accept { stream_id } => ClientMessageView::Accept {
                stream_id: *stream_id,
            },
            ClientMessage::Heartbeat => ClientMessageView::Heartbeat,
        }
    }
}

impl View for ServerMessage {
    type V = ServerMessageView;

    open spec fn view(&self) -> ServerMessageView {
        match self {
            ServerMessage::Assigned { subdomain, url } => ServerMessageView::Assigned {
                subdomain: subdomain@,
                url: url@,
            },
            ServerMessage::NewConnection { stream_id } => ServerMessageView::NewConnection {
                stream_id: *stream_id,
            },
            ServerMessage::Heartbeat => ServerMessageView::Heartbeat,
            ServerMessage::Error { message } => ServerMessageView::Error { message: message@ },
        }
    }
}

} // verus!
