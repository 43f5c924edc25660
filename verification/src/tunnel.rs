//! A registered tunnel: the way to its client, and the visitors that wait for
//! the client's answer.
use std::collections::HashMap;

use vstd::prelude::*;

use crate::format::{frame_bytes, frame_fits};
use crate::frame::{encode_request, FrameView, RequestView, TunnelRequest, TunnelResponse};
use crate::protocol::{ServerMessage, ServerMessageView};
use crate::stream_id::StreamId;

verus! {

broadcast use vstd::std_specs::hash::group_hash_axioms;

/// A tunnel. `S` is what messages to its client are sent through, `W` what one
/// waiting visitor is answered through.
pub struct Tunnel<S, W> {
    pub subdomain: String,
    ws_tx: S,
    /// The visitors that wait for the client's response, by stream id.
    pending: HashMap<u128, W>,
}

/// What a [`Tunnel`] denotes.
#[verifier::ext_equal]
pub struct TunnelView<S, W> {
    pub subdomain: Seq<char>,
    pub ws_tx: S,
    /// The visitors that wait, by the number of their stream id.
    pub pending: Map<u128, W>,
}

impl<S, W> View for Tunnel<S, W> {
    type V = TunnelView<S, W>;

    closed spec fn view(&self) -> TunnelView<S, W> {
        TunnelView {
            subdomain: self.subdomain@,
            ws_tx: self.ws_tx,
            pending: self.pending@,
        }
    }
}

impl<S, W> TunnelView<S, W> {
    /// A tunnel that no visitor waits at.
    pub open spec fn fresh(subdomain: Seq<char>, ws_tx: S) -> TunnelView<S, W> {
        TunnelView { subdomain, ws_tx, pending: Map::empty() }
    }

    /// The tunnel after a visitor has begun to wait.
    pub open spec fn opened(self, id: StreamId, waiter: W) -> TunnelView<S, W> {
        TunnelView { pending: self.pending.insert(id.value, waiter), ..self }
    }

    /// The tunnel after a visitor has ceased to wait.
    pub open spec fn cancelled(self, id: StreamId) -> TunnelView<S, W> {
        TunnelView { pending: self.pending.remove(id.value), ..self }
    }

    /// Whoever waits under a stream id.
    pub open spec fn waiting(self, id: StreamId) -> Option<W> {
        if self.pending.contains_key(id.value) {
            Some(self.pending[id.value])
        } else {
            None
        }
    }
}

/// What goes to the client for a new visitor: first the control message, and
/// right after it the binary frame.
pub struct NewConnection {
    pub stream_id: StreamId,
    pub control: ServerMessage,
    pub frame: Vec<u8>,
}

/// What [`Tunnel::send_new_connection_with_request`] hands out for a visitor's
/// request under a stream id.
pub open spec fn announces(
    connection: NewConnection,
    id: StreamId,
    request: RequestView,
) -> bool {
    &&& connection.stream_id == id
    &&& connection.control@ == ServerMessageView::NewConnection { stream_id: id }
    &&& connection.frame@ == frame_bytes(id, FrameView::Request(request))
}

impl<S, W> Tunnel<S, W> {
    /// A tunnel that no visitor waits at.
    pub fn new(subdomain: String, ws_tx: S) -> (tunnel: Self)
        ensures
            tunnel@ == TunnelView::<S, W>::fresh(subdomain@, ws_tx),
    {
        Tunnel { subdomain, ws_tx, pending: HashMap::new() }
    }

    /// The name that the tunnel is reached under.
    pub fn subdomain(&self) -> (subdomain: &str)
        ensures
            subdomain@ == self@.subdomain,
    {
        self.subdomain.as_str()
    }

    /// The way to the tunnel's client.
    pub fn ws_tx(&self) -> (ws_tx: &S)
        ensures
            *ws_tx == self@.ws_tx,
    {
        &self.ws_tx
    }

    /// Opens a visitor connection under a stream id of its own choice: the
    /// visitor waits from now on, and the two messages are to be sent to the
    /// client in one go. Which stream id it is, chance decides;
    /// [`Tunnel::open_connection`] says what follows for each.
    pub fn send_new_connection_with_request(
        &mut self,
        request: &TunnelRequest,
        waiter: W,
    ) -> (connection: NewConnection)
        requires
            frame_fits(FrameView::Request(request@)),
        ensures
            connection.stream_id.is_random_uuid(),
            announces(connection, connection.stream_id, request@),
            final(self)@ == old(self)@.opened(connection.stream_id, waiter),
    {
        let stream_id = StreamId::random();
        self.open_connection(stream_id, request, waiter)
    }

    /// Opens a visitor connection under the given stream id.
    pub fn open_connection(
        &mut self,
        stream_id: StreamId,
        request: &TunnelRequest,
        waiter: W,
    ) -> (connection: NewConnection)
        requires
            frame_fits(FrameView::Request(request@)),
        ensures
            announces(connection, stream_id, request@),
            final(self)@ == old(self)@.opened(stream_id, waiter),
    {
        self.pending.insert(stream_id.value, waiter);
        let control = ServerMessage::NewConnection { stream_id };
        let frame = encode_request(stream_id, request);
        NewConnection { stream_id, control, frame }
    }

    /// Ends the wait of a visitor, as on a timeout.
    pub fn cancel_pending(&mut self, stream_id: &StreamId)
        ensures
            final(self)@ == old(self)@.cancelled(*stream_id),
    {
        let ghost before = self.pending@;
        let _ = self.pending.remove(&stream_id.value);
        assert(self.pending@ =~= before.remove(stream_id.value));
    }

    /// Hands out whoever waits under the stream id, together with the response
    /// to answer with. Nobody waits there any more.
    pub fn resolve_connection(
        &mut self,
        stream_id: StreamId,
        response: TunnelResponse,
    ) -> (answer: Option<(W, TunnelResponse)>)
        ensures
            match answer {
                Some((waiter, reply)) => old(self)@.waiting(stream_id) == Some(waiter) && reply
                    == response,
                None => old(self)@.waiting(stream_id) is None,
            },
            final(self)@ == old(self)@.cancelled(stream_id),
    {
        let ghost before = self.pending@;
        let removed = self.pending.remove(&stream_id.value);
        assert(self.pending@ =~= before.remove(stream_id.value));
        match removed {
            Some(waiter) => Some((waiter, response)),
            None => None,
        }
    }
}

} // verus!
