//! Wire messages, client events and the server's configuration.
//!
//! Client and room ids are 128-bit values: the bits of a UUID.

use vstd::prelude::*;

verus! {

/// Messages clients send to the server.
#[derive(Clone, Debug, PartialEq, Eq)]
pub enum ClientWire {
    JoinRoom { room_id: String },
    LeaveRoom,
    Ping,
    Pong,
    Broadcast { data: Vec<u8> },
}

/// Messages the server sends to clients.
#[derive(Clone, Debug, PartialEq, Eq)]
pub enum ServerWire {
    Joined { client_id: u128, room_id: String },
    PlayerJoined { client_id: u128 },
    PlayerLeft { client_id: u128 },
    Ping,
    Pong,
    Error(String),
    Broadcast { sender_id: u128, data: Vec<u8> },
}

/// A server message with its strings and bytes taken by their views.
pub enum WireSpec {
    Joined { client_id: u128, room_id: Seq<char> },
    PlayerJoined { client_id: u128 },
    PlayerLeft { client_id: u128 },
    Ping,
    Pong,
    Error(Seq<char>),
    Broadcast { sender_id: u128, data: Seq<u8> },
}

impl View for ServerWire {
    type V = WireSpec;

    open spec fn view(&self) -> WireSpec {
        match self {
            ServerWire::Joined { client_id, room_id } => WireSpec::Joined { client_id: *client_id, room_id: room_id@ },
            ServerWire::PlayerJoined { client_id } => WireSpec::PlayerJoined { client_id: *client_id },
            ServerWire::PlayerLeft { client_id } => WireSpec::PlayerLeft { client_id: *client_id },
            ServerWire::Ping => WireSpec::Ping,
            ServerWire::Pong => WireSpec::Pong,
            ServerWire::Error(msg) => WireSpec::Error(msg@),
            ServerWire::Broadcast { sender_id, data } => WireSpec::Broadcast { sender_id: *sender_id, data: data@ },
        }
    }
}

/// Events the client receives from the server (the keepalive traffic of
/// [`ServerWire`] never reaches the user).
#[derive(Clone, Debug, PartialEq, Eq)]
pub enum ServerEvent {
    /// Room join confirmed.
    Joined { client_id: u128, room_id: String },
    /// Another player joined your room.
    PlayerJoined { client_id: u128 },
    /// Another player left your room.
    PlayerLeft { client_id: u128 },
    /// Server error.
    Error(String),
    /// Relayed data from a peer.
    Broadcast { sender_id: u128, data: Vec<u8> },
}

/// The value that `std::time::Duration::from_secs` makes of a number of seconds.
pub uninterp spec fn duration_from_secs(secs: u64) -> std::time::Duration;

/// Calls `std::time::Duration::from_secs`.
/// Claimed: the result is `duration_from_secs(secs)`, a function of `secs` alone.
#[verifier::external_body]
pub(crate) fn seconds(secs: u64) -> (d: std::time::Duration)
    ensures
        d == duration_from_secs(secs),
{
    std::time::Duration::from_secs(secs)
}

/// Server configuration.
#[derive(Debug)]
pub struct ServerConfig {
    pub bind_addr: String,
    pub max_clients: usize,
    pub max_payload: usize,
    /// Disconnect clients that send nothing for this duration.
    pub idle_timeout: std::time::Duration,
    /// How often the server pings clients. If no Pong arrives before the
    /// next ping tick, the client is disconnected with `SyncError::PingTimeout`.
    pub ping_interval: std::time::Duration,
    /// Per-client write channel capacity. Frames are dropped when the channel
    /// is full (with the `on_backpressure` hook).
    pub channel_capacity: usize,
}

/// The default configuration: listen on 0.0.0.0:7777, at most 1024 clients,
/// frames of at most 64 KiB, 31 s idle timeout, a ping every 13 s (the two are
/// not multiples of each other, so the timers do not always fire together), and
/// 64 frames of write buffer per client.
pub open spec fn is_default_config(c: ServerConfig) -> bool {
    &&& c.bind_addr@ == "0.0.0.0:7777"@
    &&& c.max_clients == 1024
    &&& c.max_payload == 64 * 1024
    &&& c.idle_timeout == duration_from_secs(31)
    &&& c.ping_interval == duration_from_secs(13)
    &&& c.channel_capacity == 64
}

impl Clone for ServerConfig {
    fn clone(&self) -> (c: Self)
        ensures
            c == *self,
    {
        ServerConfig {
            bind_addr: self.bind_addr.clone(),
            max_clients: self.max_clients,
            max_payload: self.max_payload,
            idle_timeout: self.idle_timeout,
            ping_interval: self.ping_interval,
            channel_capacity: self.channel_capacity,
        }
    }
}

impl Default for ServerConfig {
    fn default() -> (c: Self)
        ensures
            is_default_config(c),
    {
        ServerConfig {
            bind_addr: "0.0.0.0:7777".to_owned(),
            max_clients: 1024,
            max_payload: 64 * 1024,
            idle_timeout: seconds(31),
            ping_interval: seconds(13),
            channel_capacity: 64,
        }
    }
}

} // verus!
