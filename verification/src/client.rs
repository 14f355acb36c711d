//! The client's side of the protocol: its configuration, the requests it
//! sends, and how it treats what the server sends back.

use vstd::prelude::*;
use crate::error::{connection_closed, io_kind_of, IoErrorKind, SyncError};
use crate::types::{ClientWire, ServerEvent, ServerWire};

verus! {

/// Builder for configuring a client.
pub struct ClientBuilder {
    /// The largest incoming frame the client accepts, in bytes.
    pub max_payload: usize,
}

impl ClientBuilder {
    /// A builder with a 256 KiB payload limit.
    pub fn new() -> (b: Self)
        ensures
            b.max_payload == 256 * 1024,
    {
        ClientBuilder { max_payload: 256 * 1024 }
    }

    /// Set max payload size for incoming frames.
    pub fn max_payload(self, n: usize) -> (b: Self)
        ensures
            b.max_payload == n,
    {
        let mut b = self;
        b.max_payload = n;
        b
    }
}

impl Default for ClientBuilder {
    fn default() -> (b: Self)
        ensures
            b.max_payload == 256 * 1024,
    {
        ClientBuilder::new()
    }
}

/// The event that a server message shows the user; keepalive messages show none.
pub open spec fn event_of(wire: ServerWire) -> Option<ServerEvent> {
    match wire {
        ServerWire::Joined { client_id, room_id } => Some(ServerEvent::Joined { client_id, room_id }),
        ServerWire::PlayerJoined { client_id } => Some(ServerEvent::PlayerJoined { client_id }),
        ServerWire::PlayerLeft { client_id } => Some(ServerEvent::PlayerLeft { client_id }),
        ServerWire::Error(msg) => Some(ServerEvent::Error(msg)),
        ServerWire::Broadcast { sender_id, data } => Some(ServerEvent::Broadcast { sender_id, data }),
        ServerWire::Ping | ServerWire::Pong => None,
    }
}

/// Turns a server message other than Ping or Pong into the user's event.
pub fn wire_to_event(wire: ServerWire) -> (e: ServerEvent)
    requires
        !(wire is Ping),
        !(wire is Pong),
    ensures
        event_of(wire) == Some(e),
{
    match wire {
        ServerWire::Joined { client_id, room_id } => ServerEvent::Joined { client_id, room_id },
        ServerWire::PlayerJoined { client_id } => ServerEvent::PlayerJoined { client_id },
        ServerWire::PlayerLeft { client_id } => ServerEvent::PlayerLeft { client_id },
        ServerWire::Error(msg) => ServerEvent::Error(msg),
        ServerWire::Broadcast { sender_id, data } => ServerEvent::Broadcast { sender_id, data },
        ServerWire::Ping | ServerWire::Pong => vstd::pervasive::unreached(),
    }
}

/// What the client does with one message from the server.
pub enum Incoming {
    /// The server pinged: answer with a Pong and keep reading.
    AnswerPing,
    /// A Pong: swallow it and keep reading.
    Skip,
    /// Hand this event to the user.
    Deliver(ServerEvent),
}

/// Sorts a server message: keepalive traffic is handled inside the client,
/// everything else becomes the user's event.
pub fn classify(wire: ServerWire) -> (r: Incoming)
    ensures
        wire is Ping <==> r is AnswerPing,
        wire is Pong <==> r is Skip,
        r matches Incoming::Deliver(e) ==> event_of(wire) == Some(e),
{
    match wire {
        ServerWire::Ping => Incoming::AnswerPing,
        ServerWire::Pong => Incoming::Skip,
        other => Incoming::Deliver(wire_to_event(other)),
    }
}

/// What receiving yields when reading a frame failed: the end of the stream
/// (`Ok(None)`) on an ordinary close, the error otherwise.
pub fn read_failure(e: SyncError) -> (r: Result<Option<ServerEvent>, SyncError>)
    ensures
        connection_closed(e) ==> r == Ok::<Option<ServerEvent>, SyncError>(None),
        !connection_closed(e) ==> r == Err::<Option<ServerEvent>, SyncError>(e),
{
    if e.is_connection_closed() {
        Ok(None)
    } else {
        Err(e)
    }
}

/// The error that a failed connect reports: `ConnectionRefused` when the
/// server refused, the I/O error itself otherwise.
pub fn connect_error(e: std::io::Error) -> (r: SyncError)
    ensures
        io_kind_of(e) == IoErrorKind::ConnectionRefused ==> r == SyncError::ConnectionRefused,
        io_kind_of(e) != IoErrorKind::ConnectionRefused ==> r == SyncError::Io(e),
{
    if crate::error::io_error_kind(&e) == IoErrorKind::ConnectionRefused {
        SyncError::ConnectionRefused
    } else {
        SyncError::Io(e)
    }
}

/// The request to join a room.
pub fn join_request(room_id: &str) -> (m: ClientWire)
    ensures
        m matches ClientWire::JoinRoom { room_id: r } && r@ == room_id@,
{
    ClientWire::JoinRoom { room_id: room_id.to_owned() }
}

/// The request to broadcast bytes to the other members of the current room.
pub fn broadcast_request(data: &[u8]) -> (m: ClientWire)
    ensures
        m matches ClientWire::Broadcast { data: d } && d@ == data@,
{
    ClientWire::Broadcast { data: vstd::slice::slice_to_vec(data) }
}

/// The client's own id after receiving `event`: a join confirmation names it;
/// every other event leaves the known id as it was.
pub fn learned_client_id(known: Option<u128>, event: &ServerEvent) -> (id: Option<u128>)
    ensures
        event matches ServerEvent::Joined { client_id, .. } ==> id == Some(*client_id),
        !(event is Joined) ==> id == known,
{
    match event {
        ServerEvent::Joined { client_id, .. } => Some(*client_id),
        _ => known,
    }
}

} // verus!
