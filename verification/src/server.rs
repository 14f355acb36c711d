//! The relay server's state and decisions.
//!
//! [`Server`] holds the rooms and the connected clients. Every decision of the
//! server is a method here that updates this state and returns the actions to
//! perform: messages to send, fan-outs to room members, and handler hooks to
//! call. Sockets, timers and channels carry the actions out around it.

use vstd::prelude::*;
use dashmap::DashMap;
use crate::error::{io_kind_of, IoErrorKind, SyncError};
use crate::protocol::ReadFailure;
use crate::room::{empty_room, with_member, without_member, RoomManager, RoomState};
use crate::types::{is_default_config, ClientWire, ServerConfig, ServerWire, WireSpec};
use std::collections::HashMap;

verus! {

broadcast use vstd::std_specs::hash::group_hash_axioms;

#[verifier::external_type_specification]
#[verifier::external_body]
#[verifier::reject_recursive_types(K)]
#[verifier::reject_recursive_types(V)]
#[verifier::reject_recursive_types(S)]
pub struct ExDashMap<K, V, S>(DashMap<K, V, S>);

/// The table of connected clients: the room each is in, by client id.
pub type ClientTable = DashMap<u128, Option<String>>;

/// The room that each connected client is in (`None`: in no room), by client id.
pub uninterp spec fn client_rooms(m: ClientTable) -> Map<u128, Option<Seq<char>>>;

/// A room id taken by its view.
pub open spec fn room_of(r: Option<String>) -> Option<Seq<char>> {
    match r {
        Some(s) => Some(s@),
        None => None,
    }
}

/// Calls `DashMap::with_capacity`. Claimed: the new map is empty.
#[verifier::external_body]
fn clients_with_capacity(capacity: usize) -> (m: ClientTable)
    ensures
        client_rooms(m).dom() == Set::<u128>::empty(),
{
    DashMap::with_capacity(capacity)
}

/// Calls `DashMap::insert`. Claimed: the id then maps to `room`, and nothing
/// else changes.
#[verifier::external_body]
fn clients_insert(m: &mut ClientTable, id: u128, room: Option<String>)
    ensures
        client_rooms(*final(m)) == client_rooms(*old(m)).insert(id, room_of(room)),
{
    m.insert(id, room);
}

/// Calls `DashMap::remove` and hands out the removed value. Claimed: the id is
/// then absent, nothing else changes, and what comes out is what it mapped to.
#[verifier::external_body]
fn clients_remove(m: &mut ClientTable, id: u128) -> (r: Option<Option<String>>)
    ensures
        client_rooms(*final(m)) == client_rooms(*old(m)).remove(id),
        r is Some <==> client_rooms(*old(m)).contains_key(id),
        r matches Some(v) ==> room_of(v) == client_rooms(*old(m))[id],
{
    m.remove(&id).map(|(_, v)| v)
}

/// Calls `DashMap::get` and copies the value out. Claimed: the answer is what
/// the id maps to, if anything.
#[verifier::external_body]
fn clients_get(m: &ClientTable, id: u128) -> (r: Option<Option<String>>)
    ensures
        r is Some <==> client_rooms(*m).contains_key(id),
        r matches Some(v) ==> room_of(v) == client_rooms(*m)[id],
{
    m.get(&id).map(|entry| entry.value().clone())
}

/// Calls `DashMap::len`. Claimed: the answer is the number of clients recorded.
#[verifier::external_body]
fn clients_len(m: &ClientTable) -> (n: usize)
    ensures
        n == client_rooms(*m).dom().len(),
{
    m.len()
}

/// Calls `uuid::Uuid::new_v4` and takes the id's 128 bits. Claimed: the id is
/// a version-4 UUID of the RFC variant, so its version nibble is 4 and its
/// variant bits are `10`; the other bits are random and nothing is claimed of
/// them. (The call panics when the operating system's random source fails;
/// no argument can rule that out.)
#[verifier::external_body]
fn new_client_id() -> (id: u128)
    ensures
        id & VERSION_MASK == VERSION_4,
{
    uuid::Uuid::new_v4().as_u128()
}

/// The number of ids in a UUID's node field (its low 48 bits).
pub open spec fn node_space() -> nat {
    0x1_0000_0000_0000
}

/// The bits that hold a UUID's version nibble and variant.
pub const VERSION_MASK: u128 = 0x0000_0000_0000_F000_C000_0000_0000_0000u128;

/// Those bits in a version-4 UUID of the RFC variant.
pub const VERSION_4: u128 = 0x0000_0000_0000_4000_8000_0000_0000_0000u128;

/// The `k`-th id tried after `base`: `base` with its low 48 bits counted up
/// by `k`, wrapping within those bits.
pub open spec fn candidate_id(base: u128, k: u128) -> u128 {
    (base & 0xFFFF_FFFF_FFFF_FFFF_FFFF_0000_0000_0000u128) | ((((base & 0xFFFF_FFFF_FFFFu128) + k) as u128) & 0xFFFF_FFFF_FFFFu128)
}

proof fn lemma_candidate_keeps_version(base: u128, k: u128)
    requires
        k < 0x1_0000_0000_0000u128,
        base & 0x0000_0000_0000_F000_C000_0000_0000_0000u128 == 0x0000_0000_0000_4000_8000_0000_0000_0000u128,
    ensures
        candidate_id(base, k) & 0x0000_0000_0000_F000_C000_0000_0000_0000u128
            == 0x0000_0000_0000_4000_8000_0000_0000_0000u128,
{
    assert(((base & 0xFFFF_FFFF_FFFF_FFFF_FFFF_0000_0000_0000u128) | ((((base & 0xFFFF_FFFF_FFFFu128) + k) as u128) & 0xFFFF_FFFF_FFFFu128)) & 0x0000_0000_0000_F000_C000_0000_0000_0000u128
        == 0x0000_0000_0000_4000_8000_0000_0000_0000u128) by (bit_vector)
        requires
            k < 0x1_0000_0000_0000u128,
            base & 0x0000_0000_0000_F000_C000_0000_0000_0000u128 == 0x0000_0000_0000_4000_8000_0000_0000_0000u128,
    ;
}

proof fn lemma_candidates_distinct(base: u128, j: u128, k: u128)
    requires
        j < 0x1_0000_0000_0000u128,
        k < 0x1_0000_0000_0000u128,
        j != k,
    ensures
        candidate_id(base, j) != candidate_id(base, k),
{
    assert(((base & 0xFFFF_FFFF_FFFF_FFFF_FFFF_0000_0000_0000u128) | ((((base & 0xFFFF_FFFF_FFFFu128) + j) as u128) & 0xFFFF_FFFF_FFFFu128)) != ((base & 0xFFFF_FFFF_FFFF_FFFF_FFFF_0000_0000_0000u128) | ((((base & 0xFFFF_FFFF_FFFFu128) + k) as u128) & 0xFFFF_FFFF_FFFFu128))) by (bit_vector)
        requires
            j < 0x1_0000_0000_0000u128,
            k < 0x1_0000_0000_0000u128,
            j != k,
    ;
}

/// A finite set of `n` ids misses one of the first `n + 1` candidates after
/// `base`: they are all different.
proof fn lemma_candidates_fill(base: u128, n: nat, dom: Set<u128>)
    requires
        dom.finite(),
        dom.len() == n,
        n < 0x1_0000_0000_0000,
    ensures
        exists|j: u128| j <= n && !dom.contains(#[trigger] candidate_id(base, j)),
{
    if forall|j: u128| j <= n ==> dom.contains(#[trigger] candidate_id(base, j)) {
        let tried = Seq::new(n + 1, |j: int| candidate_id(base, j as u128));
        assert(tried.no_duplicates()) by {
            assert forall|a: int, b: int| 0 <= a < tried.len() && 0 <= b < tried.len() && a != b implies tried[a] != tried[b] by {
                lemma_candidates_distinct(base, a as u128, b as u128);
            }
        }
        tried.unique_seq_to_set();
        assert(tried.to_set().subset_of(dom)) by {
            assert forall|x: u128| tried.to_set().contains(x) implies dom.contains(x) by {
                let a = choose|a: int| 0 <= a < tried.len() && tried[a] == x;
                assert(dom.contains(candidate_id(base, a as u128)));
            }
        }
        vstd::set_lib::lemma_len_subset(tried.to_set(), dom);
    }
}

/// What the server holds: its configuration, the rooms, the room of each
/// connected client, the number of admitted connections, and the metadata of
/// each client.
pub struct ServerState<M, C> {
    pub config: ServerConfig,
    pub rooms: Map<Seq<char>, RoomState<M>>,
    pub clients: Map<u128, Option<Seq<char>>>,
    pub client_count: usize,
    /// The metadata each connected client holds, if any.
    pub client_meta: Map<u128, C>,
}

/// A broadcast relay game server's state.
pub struct Server<M, C> {
    config: ServerConfig,
    rooms: RoomManager<M>,
    clients: ClientTable,
    client_count: usize,
    client_meta: HashMap<u128, C>,
}

impl<M, C> View for Server<M, C> {
    type V = ServerState<M, C>;

    closed spec fn view(&self) -> ServerState<M, C> {
        ServerState {
            config: self.config,
            rooms: self.rooms@,
            clients: client_rooms(self.clients),
            client_count: self.client_count,
            client_meta: self.client_meta@,
        }
    }
}

/// Builder for configuring a [`Server`].
pub struct ServerBuilder {
    pub config: ServerConfig,
}

impl ServerBuilder {
    /// A builder with the default configuration.
    pub fn new() -> (b: Self)
        ensures
            is_default_config(b.config),
    {
        ServerBuilder { config: ServerConfig::default() }
    }

    /// Set the bind address (e.g., `"0.0.0.0:7777"`).
    pub fn bind(self, addr: String) -> (b: Self)
        ensures
            b.config == (ServerConfig { bind_addr: addr, ..self.config }),
    {
        let mut b = self;
        b.config.bind_addr = addr;
        b
    }

    /// Set max concurrent clients. Connections beyond this are rejected.
    pub fn max_clients(self, n: usize) -> (b: Self)
        ensures
            b.config == (ServerConfig { max_clients: n, ..self.config }),
    {
        let mut b = self;
        b.config.max_clients = n;
        b
    }

    /// Set max incoming payload size in bytes. Frames larger than this are rejected.
    pub fn max_payload(self, n: usize) -> (b: Self)
        ensures
            b.config == (ServerConfig { max_payload: n, ..self.config }),
    {
        let mut b = self;
        b.config.max_payload = n;
        b
    }

    /// Disconnect clients that send nothing for this duration.
    pub fn idle_timeout(self, d: std::time::Duration) -> (b: Self)
        ensures
            b.config == (ServerConfig { idle_timeout: d, ..self.config }),
    {
        let mut b = self;
        b.config.idle_timeout = d;
        b
    }

    /// How often the server pings clients; a Pong must arrive before the next ping.
    pub fn ping_interval(self, d: std::time::Duration) -> (b: Self)
        ensures
            b.config == (ServerConfig { ping_interval: d, ..self.config }),
    {
        let mut b = self;
        b.config.ping_interval = d;
        b
    }

    /// Per-client write channel capacity. Frames are dropped when full.
    pub fn channel_capacity(self, n: usize) -> (b: Self)
        ensures
            b.config == (ServerConfig { channel_capacity: n, ..self.config }),
    {
        let mut b = self;
        b.config.channel_capacity = n;
        b
    }

    /// Build the server: no rooms, no clients.
    pub fn build<M, C>(self) -> (s: Server<M, C>)
        ensures
            s.wf(),
            s@.config == self.config,
            s@.rooms == Map::<Seq<char>, RoomState<M>>::empty(),
            s@.clients == Map::<u128, Option<Seq<char>>>::empty(),
            s@.client_count == 0,
            s@.client_meta == Map::<u128, C>::empty(),
    {
        let clients = clients_with_capacity(self.config.max_clients);
        Server {
            config: self.config,
            rooms: RoomManager::new(),
            clients,
            client_count: 0,
            client_meta: HashMap::new(),
        }
    }
}

impl Default for ServerBuilder {
    fn default() -> (b: Self)
        ensures
            is_default_config(b.config),
    {
        ServerBuilder::new()
    }
}

impl<M, C> Server<M, C> {
    /// The server's well-formedness: its room registry is well formed, at
    /// most `max_clients` connections are counted, and metadata is held only
    /// for connected clients.
    pub closed spec fn wf(&self) -> bool {
        &&& self.rooms.wf()
        &&& self.client_count <= self.config.max_clients
        &&& client_rooms(self.clients).dom().finite()
        &&& forall|c: u128| #[trigger] self.client_meta@.contains_key(c) ==> client_rooms(self.clients).contains_key(c)
    }

    /// Start building a server.
    pub fn builder() -> (b: ServerBuilder)
        ensures
            is_default_config(b.config),
    {
        ServerBuilder::new()
    }

    /// The server's configuration.
    pub fn config(&self) -> (c: &ServerConfig)
        ensures
            *c == self@.config,
    {
        &self.config
    }

    /// Create a room at runtime. Fails with `RoomAlreadyExists` if a room with
    /// this id exists, and then changes nothing.
    pub fn create_room(&mut self, id: &str) -> (r: Result<(), SyncError>)
        requires
            old(self).wf(),
        ensures
            final(self).wf(),
            final(self)@ == (ServerState { rooms: final(self)@.rooms, ..old(self)@ }),
            old(self)@.rooms.contains_key(id@) ==> {
                &&& r matches Err(SyncError::RoomAlreadyExists(e)) && e@ == id@
                &&& final(self)@.rooms == old(self)@.rooms
            },
            !old(self)@.rooms.contains_key(id@) ==> {
                &&& r is Ok
                &&& final(self)@.rooms == old(self)@.rooms.insert(id@, empty_room())
            },
    {
        self.rooms.create(id)
    }

    /// Create a room before the server runs; the same as [`Server::create_room`].
    pub fn pre_create_room(&mut self, id: &str) -> (r: Result<(), SyncError>)
        requires
            old(self).wf(),
        ensures
            final(self).wf(),
            final(self)@ == (ServerState { rooms: final(self)@.rooms, ..old(self)@ }),
            old(self)@.rooms.contains_key(id@) ==> {
                &&& r matches Err(SyncError::RoomAlreadyExists(e)) && e@ == id@
                &&& final(self)@.rooms == old(self)@.rooms
            },
            !old(self)@.rooms.contains_key(id@) ==> {
                &&& r is Ok
                &&& final(self)@.rooms == old(self)@.rooms.insert(id@, empty_room())
            },
    {
        self.create_room(id)
    }

    /// Delete a room at runtime; answers whether it existed. Soft delete: the
    /// clients in it are not disconnected.
    pub fn delete_room(&mut self, id: &str) -> (existed: bool)
        requires
            old(self).wf(),
        ensures
            final(self).wf(),
            existed == old(self)@.rooms.contains_key(id@),
            final(self)@ == (ServerState { rooms: old(self)@.rooms.remove(id@), ..old(self)@ }),
    {
        self.rooms.delete(id)
    }

    /// Delete a room before the server runs; the same as [`Server::delete_room`].
    pub fn pre_delete_room(&mut self, id: &str) -> (existed: bool)
        requires
            old(self).wf(),
        ensures
            final(self).wf(),
            existed == old(self)@.rooms.contains_key(id@),
            final(self)@ == (ServerState { rooms: old(self)@.rooms.remove(id@), ..old(self)@ }),
    {
        self.delete_room(id)
    }

    /// Check if a room exists.
    pub fn room_exists(&self, id: &str) -> (b: bool)
        requires
            self.wf(),
        ensures
            b == self@.rooms.contains_key(id@),
    {
        self.rooms.contains(id)
    }

    /// Number of active rooms.
    pub fn room_count(&self) -> (n: usize)
        requires
            self.wf(),
        ensures
            n == self@.rooms.len(),
    {
        self.rooms.len()
    }

    /// All room ids, each once.
    pub fn get_room_ids(&self) -> (v: Vec<String>)
        requires
            self.wf(),
        ensures
            v@.map_values(|s: String| s@).no_duplicates(),
            v@.map_values(|s: String| s@).to_set() == self@.rooms.dom(),
    {
        self.rooms.room_ids()
    }

    /// Client ids in a room, each once. `None` if the room doesn't exist.
    pub fn get_room_clients(&self, id: &str) -> (r: Option<Vec<u128>>)
        requires
            self.wf(),
        ensures
            r is Some <==> self@.rooms.contains_key(id@),
            r matches Some(v) ==> v@.no_duplicates() && v@.to_set() == self@.rooms[id@].members,
    {
        match self.rooms.get(id) {
            Some(room) => Some(room.client_ids()),
            None => None,
        }
    }

    /// Number of clients in a room. `None` if the room doesn't exist.
    pub fn room_client_count(&self, id: &str) -> (r: Option<usize>)
        requires
            self.wf(),
        ensures
            r is Some <==> self@.rooms.contains_key(id@),
            r matches Some(n) ==> n == self@.rooms[id@].members.len(),
    {
        match self.rooms.get(id) {
            Some(room) => Some(room.len()),
            None => None,
        }
    }

    /// Set a metadata value on a room. Returns `false` if the room doesn't exist.
    pub fn set_room_meta(&mut self, id: &str, value: M) -> (found: bool)
        requires
            old(self).wf(),
        ensures
            final(self).wf(),
            found == old(self)@.rooms.contains_key(id@),
            final(self)@ == (ServerState { rooms: final(self)@.rooms, ..old(self)@ }),
            found ==> final(self)@.rooms == old(self)@.rooms.insert(
                id@,
                RoomState { members: old(self)@.rooms[id@].members, meta: Some(value) },
            ),
            !found ==> final(self)@.rooms == old(self)@.rooms,
    {
        self.rooms.set_meta(id, value)
    }

    /// Whether a room exists and holds metadata.
    pub fn room_has_meta(&self, id: &str) -> (b: bool)
        requires
            self.wf(),
        ensures
            b == (self@.rooms.contains_key(id@) && self@.rooms[id@].meta is Some),
    {
        match self.rooms.get(id) {
            Some(room) => room.has_meta(),
            None => false,
        }
    }

    /// Reads a room's metadata through a callback. `None` if the room doesn't
    /// exist or holds no metadata.
    pub fn with_room_meta<R, F: FnOnce(&M) -> R>(&self, id: &str, f: F) -> (r: Option<R>)
        requires
            self.wf(),
            self@.rooms.contains_key(id@) ==> (self@.rooms[id@].meta matches Some(v) ==> f.requires((&v,))),
        ensures
            r is Some <==> (self@.rooms.contains_key(id@) && self@.rooms[id@].meta is Some),
            r matches Some(x) ==> f.ensures((&self@.rooms[id@].meta->0,), x),
    {
        match self.rooms.get(id) {
            Some(room) => room.get_meta(f),
            None => None,
        }
    }

    /// Removes and returns a room's metadata. `None` if the room doesn't exist
    /// or holds none.
    pub fn take_room_meta(&mut self, id: &str) -> (r: Option<M>)
        requires
            old(self).wf(),
        ensures
            final(self).wf(),
            final(self)@ == (ServerState { rooms: final(self)@.rooms, ..old(self)@ }),
            old(self)@.rooms.contains_key(id@) ==> {
                &&& r == old(self)@.rooms[id@].meta
                &&& final(self)@.rooms == old(self)@.rooms.insert(
                    id@,
                    RoomState { members: old(self)@.rooms[id@].members, meta: None },
                )
            },
            !old(self)@.rooms.contains_key(id@) ==> r is None && final(self)@.rooms == old(self)@.rooms,
    {
        self.rooms.take_meta(id)
    }

    /// Room a client is currently in. `None` if not in a room or not connected.
    pub fn get_client_room(&self, client_id: u128) -> (r: Option<String>)
        ensures
            room_of(r) == (if self@.clients.contains_key(client_id) { self@.clients[client_id] } else { None }),
    {
        match clients_get(&self.clients, client_id) {
            Some(room) => room,
            None => None,
        }
    }

    /// Whether a client is connected.
    pub fn is_connected(&self, client_id: u128) -> (b: bool)
        ensures
            b == self@.clients.contains_key(client_id),
    {
        clients_get(&self.clients, client_id).is_some()
    }

    /// Total number of admitted connections; never above `max_clients`.
    pub fn get_client_count(&self) -> (n: usize)
        requires
            self.wf(),
        ensures
            n == self@.client_count,
            n <= self@.config.max_clients,
    {
        self.client_count
    }
}

} // verus!

verus! {

/// Something the server's surroundings must do after a decision.
pub enum Action {
    /// Send a message to a client over its own connection. If its queue is
    /// full, the frame is dropped and the backpressure hook is told.
    Send { to: u128, msg: ServerWire },
    /// Send a message to each recipient, all members of `room_id`. A recipient
    /// whose queue is full misses it and is reported to the backpressure hook.
    Relay { room_id: String, recipients: Vec<u128>, msg: ServerWire },
    /// Tell the handler that a client left a room (or disconnected from it).
    Left { client_id: u128, room_id: String },
    /// Tell the handler that a client's data was relayed to its room.
    Relayed { client_id: u128, room_id: String, data: Vec<u8> },
}

/// An action with strings and bytes taken by their views, and the recipients
/// of a fan-out as a set (they are handed out once each, in no stated order).
pub enum ActionSpec {
    Send { to: u128, msg: WireSpec },
    Relay { room: Seq<char>, recipients: Set<u128>, msg: WireSpec },
    Left { client: u128, room: Seq<char> },
    Relayed { client: u128, room: Seq<char>, data: Seq<u8> },
}

impl View for Action {
    type V = ActionSpec;

    open spec fn view(&self) -> ActionSpec {
        match self {
            Action::Send { to, msg } => ActionSpec::Send { to: *to, msg: msg@ },
            Action::Relay { room_id, recipients, msg } => ActionSpec::Relay {
                room: room_id@,
                recipients: recipients@.to_set(),
                msg: msg@,
            },
            Action::Left { client_id, room_id } => ActionSpec::Left { client: *client_id, room: room_id@ },
            Action::Relayed { client_id, room_id, data } => ActionSpec::Relayed {
                client: *client_id,
                room: room_id@,
                data: data@,
            },
        }
    }
}

/// A list of actions taken by their views.
pub open spec fn actions_view(a: Seq<Action>) -> Seq<ActionSpec> {
    a.map_values(|x: Action| x@)
}

/// Every fan-out names each recipient once.
pub open spec fn recipients_distinct(a: Seq<Action>) -> bool {
    forall|i: int| 0 <= i < a.len() ==> (#[trigger] a[i] matches Action::Relay { recipients, .. } ==> recipients@.no_duplicates())
}

/// The text of the error sent for a join to a room that does not exist.
pub open spec fn room_not_found_text(room: Seq<char>) -> Seq<char> {
    "room not found: "@ + room
}

/// A client leaves room `room`: the other members hear `PlayerLeft` (when the
/// room still exists), the client is removed from it, and the handler is told.
pub open spec fn cleanup_outcome<M, C>(s: ServerState<M, C>, c: u128, room: Seq<char>) -> (ServerState<M, C>, Seq<ActionSpec>) {
    if s.rooms.contains_key(room) {
        (
            ServerState { rooms: s.rooms.insert(room, without_member(s.rooms[room], c)), ..s },
            seq![
                ActionSpec::Relay {
                    room: room,
                    recipients: s.rooms[room].members.remove(c),
                    msg: WireSpec::PlayerLeft { client_id: c },
                },
                ActionSpec::Left { client: c, room: room },
            ],
        )
    } else {
        (s, seq![ActionSpec::Left { client: c, room: room }])
    }
}

/// A client asks to leave its room: if it is in one, its record says no room
/// and it leaves that room; otherwise nothing happens.
pub open spec fn leave_outcome<M, C>(s: ServerState<M, C>, c: u128) -> (ServerState<M, C>, Seq<ActionSpec>) {
    if s.clients.contains_key(c) && s.clients[c] is Some {
        cleanup_outcome(ServerState { clients: s.clients.insert(c, None), ..s }, c, s.clients[c]->0)
    } else {
        (s, seq![])
    }
}

/// A client asks to join room `room`, and the join hook answered `approved`.
/// An unknown client is ignored; a missing room or a refusal is answered with
/// an error message; otherwise the client leaves its old room, enters the new
/// one, is told `Joined`, and the other members hear `PlayerJoined`.
pub open spec fn join_outcome<M, C>(s: ServerState<M, C>, c: u128, room: Seq<char>, approved: bool) -> (ServerState<M, C>, Seq<ActionSpec>) {
    if !s.clients.contains_key(c) {
        (s, seq![])
    } else if !s.rooms.contains_key(room) {
        (s, seq![ActionSpec::Send { to: c, msg: WireSpec::Error(room_not_found_text(room)) }])
    } else if !approved {
        (s, seq![ActionSpec::Send { to: c, msg: WireSpec::Error("join rejected"@) }])
    } else {
        let (s1, left) = leave_outcome(s, c);
        let s2 = ServerState {
            rooms: s1.rooms.insert(room, with_member(s1.rooms[room], c)),
            clients: s1.clients.insert(c, Some(room)),
            ..s1
        };
        (
            s2,
            left + seq![
                ActionSpec::Send { to: c, msg: WireSpec::Joined { client_id: c, room_id: room } },
                ActionSpec::Relay {
                    room: room,
                    recipients: s2.rooms[room].members.remove(c),
                    msg: WireSpec::PlayerJoined { client_id: c },
                },
            ],
        )
    }
}

/// A client broadcasts `data`: it reaches every other member of the client's
/// room and the handler is told. A client in no room is answered with an error
/// message, and so is a client whose room was deleted (deletion is soft: the
/// client stays connected, nothing is relayed and the handler is not told).
pub open spec fn broadcast_outcome<M, C>(s: ServerState<M, C>, c: u128, data: Seq<u8>) -> Seq<ActionSpec> {
    if !s.clients.contains_key(c) {
        seq![]
    } else {
        match s.clients[c] {
            None => seq![ActionSpec::Send { to: c, msg: WireSpec::Error("not in a room"@) }],
            Some(room) => if s.rooms.contains_key(room) {
                seq![
                    ActionSpec::Relay {
                        room: room,
                        recipients: s.rooms[room].members.remove(c),
                        msg: WireSpec::Broadcast { sender_id: c, data: data },
                    },
                    ActionSpec::Relayed { client: c, room: room, data: data },
                ]
            } else {
                seq![ActionSpec::Send { to: c, msg: WireSpec::Error(room_not_found_text(room)) }]
            },
        }
    }
}

/// A client disconnects: its record and its metadata are removed and it
/// leaves its room, if any.
pub open spec fn disconnect_outcome<M, C>(s: ServerState<M, C>, c: u128) -> (ServerState<M, C>, Seq<ActionSpec>) {
    if s.clients.contains_key(c) {
        let s0 = ServerState { clients: s.clients.remove(c), client_meta: s.client_meta.remove(c), ..s };
        match s.clients[c] {
            Some(room) => cleanup_outcome(s0, c, room),
            None => (s0, seq![]),
        }
    } else {
        (s, seq![])
    }
}

impl<M, C> Server<M, C> {
    /// Client `c` leaves room `room_id` (see [`cleanup_outcome`]).
    fn cleanup_client(&mut self, c: u128, room_id: &str) -> (r: Vec<Action>)
        requires
            old(self).wf(),
        ensures
            final(self).wf(),
            (final(self)@, actions_view(r@)) == cleanup_outcome(old(self)@, c, room_id@),
            recipients_distinct(r@),
    {
        let mut actions: Vec<Action> = Vec::new();
        let recipients = match self.rooms.get(room_id) {
            Some(room) => Some(room.recipients(c)),
            None => None,
        };
        match recipients {
            Some(recipients) => {
                actions.push(Action::Relay {
                    room_id: room_id.to_owned(),
                    recipients,
                    msg: ServerWire::PlayerLeft { client_id: c },
                });
            },
            None => {},
        }
        self.rooms.remove_client(room_id, c);
        actions.push(Action::Left { client_id: c, room_id: room_id.to_owned() });
        proof {
            assert(actions_view(actions@) =~= cleanup_outcome(old(self)@, c, room_id@).1);
            assert(self@.rooms == cleanup_outcome(old(self)@, c, room_id@).0.rooms);
        }
        actions
    }

    /// A client leaves its room, if it is in one (see [`leave_outcome`]).
    pub fn leave_room(&mut self, c: u128) -> (r: Vec<Action>)
        requires
            old(self).wf(),
        ensures
            final(self).wf(),
            (final(self)@, actions_view(r@)) == leave_outcome(old(self)@, c),
            recipients_distinct(r@),
    {
        match clients_get(&self.clients, c) {
            Some(Some(room_id)) => {
                clients_insert(&mut self.clients, c, None);
                self.cleanup_client(c, room_id.as_str())
            },
            _ => {
                let v: Vec<Action> = Vec::new();
                assert(actions_view(v@) =~= seq![]);
                v
            },
        }
    }
}

} // verus!

verus! {

/// What processing one client message leads to.
pub enum Step {
    /// Perform these actions.
    Done(Vec<Action>),
    /// The client asks to join an existing room: ask the join hook, then
    /// finish with [`Server::join_room`].
    ConsultJoin { room_id: String },
}

/// A step taken by its view.
pub enum StepSpec {
    Done(Seq<ActionSpec>),
    ConsultJoin(Seq<char>),
}

impl View for Step {
    type V = StepSpec;

    open spec fn view(&self) -> StepSpec {
        match self {
            Step::Done(a) => StepSpec::Done(actions_view(a@)),
            Step::ConsultJoin { room_id } => StepSpec::ConsultJoin(room_id@),
        }
    }
}

/// The fan-outs of a step name each recipient once.
pub open spec fn step_distinct(s: Step) -> bool {
    s matches Step::Done(a) ==> recipients_distinct(a@)
}

/// What one client message does: the new state and the step. Every message
/// is answered without ending the connection.
pub open spec fn process_outcome<M, C>(s: ServerState<M, C>, c: u128, msg: ClientWire) -> (ServerState<M, C>, StepSpec) {
    match msg {
        ClientWire::JoinRoom { room_id } => if !s.clients.contains_key(c) {
            (s, StepSpec::Done(seq![]))
        } else if !s.rooms.contains_key(room_id@) {
            (s, StepSpec::Done(seq![ActionSpec::Send { to: c, msg: WireSpec::Error(room_not_found_text(room_id@)) }]))
        } else {
            (s, StepSpec::ConsultJoin(room_id@))
        },
        ClientWire::LeaveRoom => {
            let (s1, a) = leave_outcome(s, c);
            (s1, StepSpec::Done(a))
        },
        ClientWire::Ping => (s, StepSpec::Done(seq![ActionSpec::Send { to: c, msg: WireSpec::Pong }])),
        ClientWire::Pong => (s, StepSpec::Done(seq![])),
        ClientWire::Broadcast { data } => (s, StepSpec::Done(broadcast_outcome(s, c, data@))),
    }
}

impl<M, C> Server<M, C> {
    /// The error message for a join to a missing room.
    fn room_not_found(room_id: &str) -> (m: ServerWire)
        ensures
            m@ == WireSpec::Error(room_not_found_text(room_id@)),
    {
        let mut text = "room not found: ".to_owned();
        text.append(room_id);
        ServerWire::Error(text)
    }

    /// Finishes a join once the join hook has answered `approved` (see
    /// [`join_outcome`]); the client, the room and the answer are all checked
    /// against the current state.
    pub fn join_room(&mut self, c: u128, room_id: &str, approved: bool) -> (r: Vec<Action>)
        requires
            old(self).wf(),
        ensures
            final(self).wf(),
            (final(self)@, actions_view(r@)) == join_outcome(old(self)@, c, room_id@, approved),
            recipients_distinct(r@),
    {
        if clients_get(&self.clients, c).is_none() {
            let v: Vec<Action> = Vec::new();
            assert(actions_view(v@) =~= seq![]);
            return v;
        }
        if !self.rooms.contains(room_id) {
            let v = vec![Action::Send { to: c, msg: Self::room_not_found(room_id) }];
            assert(actions_view(v@) =~= join_outcome(old(self)@, c, room_id@, approved).1);
            return v;
        }
        if !approved {
            let v = vec![Action::Send { to: c, msg: ServerWire::Error("join rejected".to_owned()) }];
            assert(actions_view(v@) =~= join_outcome(old(self)@, c, room_id@, approved).1);
            return v;
        }
        let ghost s0 = self@;
        let mut actions = self.leave_room(c);
        let ghost s1 = self@;
        let ghost left = actions_view(actions@);
        assert(s1.rooms.contains_key(room_id@));
        self.rooms.add_client(room_id, c);
        clients_insert(&mut self.clients, c, Some(room_id.to_owned()));
        let recipients = match self.rooms.get(room_id) {
            Some(room) => room.recipients(c),
            None => Vec::new(),
        };
        let ghost before_push = actions@;
        actions.push(Action::Send {
            to: c,
            msg: ServerWire::Joined { client_id: c, room_id: room_id.to_owned() },
        });
        actions.push(Action::Relay {
            room_id: room_id.to_owned(),
            recipients,
            msg: ServerWire::PlayerJoined { client_id: c },
        });
        proof {
            let expect = join_outcome(s0, c, room_id@, approved);
            assert(self@.rooms =~= expect.0.rooms);
            assert(self@.clients =~= expect.0.clients);
            assert(actions_view(actions@) =~= expect.1);
            assert forall|i: int| 0 <= i < actions@.len() implies (#[trigger] actions@[i] matches Action::Relay { recipients, .. } ==> recipients@.no_duplicates()) by {
                if i < before_push.len() {
                    assert(actions@[i] == before_push[i]);
                }
            }
        }
        actions
    }

    /// Relays a client's data to the other members of its room (see
    /// [`broadcast_outcome`]); the state does not change.
    pub fn broadcast(&self, c: u128, data: Vec<u8>) -> (r: Vec<Action>)
        requires
            self.wf(),
        ensures
            actions_view(r@) == broadcast_outcome(self@, c, data@),
            recipients_distinct(r@),
    {
        let room_id = match clients_get(&self.clients, c) {
            None => {
                let v: Vec<Action> = Vec::new();
                assert(actions_view(v@) =~= seq![]);
                return v;
            },
            Some(None) => {
                let v = vec![Action::Send { to: c, msg: ServerWire::Error("not in a room".to_owned()) }];
                assert(actions_view(v@) =~= seq![ActionSpec::Send { to: c, msg: WireSpec::Error("not in a room"@) }]);
                return v;
            },
            Some(Some(room_id)) => room_id,
        };
        match self.rooms.get(room_id.as_str()) {
            Some(room) => {
                let recipients = room.recipients(c);
                let copy = vstd::slice::slice_to_vec(data.as_slice());
                let v = vec![
                    Action::Relay {
                        room_id: room_id.clone(),
                        recipients,
                        msg: ServerWire::Broadcast { sender_id: c, data },
                    },
                    Action::Relayed { client_id: c, room_id, data: copy },
                ];
                proof {
                    let expect = broadcast_outcome(self@, c, data@);
                    assert(actions_view(v@) =~= expect);
                    assert forall|i: int| 0 <= i < v@.len() implies (#[trigger] v@[i] matches Action::Relay { recipients, .. } ==> recipients@.no_duplicates()) by {}
                }
                v
            },
            None => {
                let v = vec![Action::Send { to: c, msg: Self::room_not_found(room_id.as_str()) }];
                assert(actions_view(v@) =~= broadcast_outcome(self@, c, data@));
                v
            },
        }
    }

    /// Processes one message from client `c` (see [`process_outcome`]). A Pong
    /// does nothing here: the connection's liveness takes it.
    pub fn process_message(&mut self, c: u128, msg: ClientWire) -> (r: Step)
        requires
            old(self).wf(),
        ensures
            final(self).wf(),
            (final(self)@, r@) == process_outcome(old(self)@, c, msg),
            step_distinct(r),
    {
        match msg {
            ClientWire::JoinRoom { room_id } => {
                if clients_get(&self.clients, c).is_none() {
                    let v: Vec<Action> = Vec::new();
                    assert(actions_view(v@) =~= seq![]);
                    Step::Done(v)
                } else if !self.rooms.contains(room_id.as_str()) {
                    let v = vec![Action::Send { to: c, msg: Self::room_not_found(room_id.as_str()) }];
                    assert(actions_view(v@) =~= seq![ActionSpec::Send { to: c, msg: WireSpec::Error(room_not_found_text(room_id@)) }]);
                    Step::Done(v)
                } else {
                    Step::ConsultJoin { room_id }
                }
            },
            ClientWire::LeaveRoom => Step::Done(self.leave_room(c)),
            ClientWire::Ping => {
                let v = vec![Action::Send { to: c, msg: ServerWire::Pong }];
                assert(actions_view(v@) =~= seq![ActionSpec::Send { to: c, msg: WireSpec::Pong }]);
                Step::Done(v)
            },
            ClientWire::Pong => {
                let v: Vec<Action> = Vec::new();
                assert(actions_view(v@) =~= seq![]);
                Step::Done(v)
            },
            ClientWire::Broadcast { data } => Step::Done(self.broadcast(c, data)),
        }
    }

    /// Records a newly connected client, in no room and without metadata. An
    /// existing record for the same id is replaced.
    pub fn register_client(&mut self, c: u128)
        requires
            old(self).wf(),
        ensures
            final(self).wf(),
            final(self)@ == (ServerState {
                clients: old(self)@.clients.insert(c, None),
                client_meta: old(self)@.client_meta.remove(c),
                ..old(self)@
            }),
    {
        clients_insert(&mut self.clients, c, None);
        self.client_meta.remove(&c);
    }

    /// Gives a newly connected client an id not held by any connected client
    /// and records it, in no room and without metadata. The id is a random
    /// version-4 UUID; when that one is already in use, the low 48 bits (the
    /// UUID's node field) are counted up from it until a free id is found, so
    /// the version and variant bits stay. Only when 2^48 clients are recorded
    /// can no id be promised: then nothing changes and `None` is returned.
    pub fn connect_client(&mut self) -> (r: Option<u128>)
        requires
            old(self).wf(),
        ensures
            final(self).wf(),
            r is None <==> old(self)@.clients.dom().len() >= node_space(),
            r is None ==> final(self)@ == old(self)@,
            r matches Some(c) ==> {
                &&& !old(self)@.clients.contains_key(c)
                &&& c & VERSION_MASK == VERSION_4
                &&& final(self)@ == (ServerState {
                    clients: old(self)@.clients.insert(c, None),
                    client_meta: old(self)@.client_meta.remove(c),
                    ..old(self)@
                })
            },
    {
        let n = clients_len(&self.clients);
        if n as u128 >= 0x1_0000_0000_0000u128 {
            return None;
        }
        let base = new_client_id();
        let ghost dom = self@.clients.dom();
        let mut k: u128 = 0;
        loop
            invariant
                self@ == old(self)@,
                self.wf(),
                dom == self@.clients.dom(),
                n == dom.len(),
                n < node_space(),
                k <= n,
                base & VERSION_MASK == VERSION_4,
                forall|j: u128| j < k ==> dom.contains(#[trigger] candidate_id(base, j)),
            decreases n - k,
        {
            assert(base & 0xFFFF_FFFF_FFFFu128 <= 0xFFFF_FFFF_FFFFu128) by (bit_vector);
            let c = (base & 0xFFFF_FFFF_FFFF_FFFF_FFFF_0000_0000_0000u128)
                | (((base & 0xFFFF_FFFF_FFFFu128) + k) & 0xFFFF_FFFF_FFFFu128);
            assert(c == candidate_id(base, k));
            if clients_get(&self.clients, c).is_none() {
                proof {
                    lemma_candidate_keeps_version(base, k);
                }
                self.register_client(c);
                return Some(c);
            }
            proof {
                if k == n as u128 {
                    lemma_candidates_fill(base, n as nat, dom);
                }
            }
            k = k + 1;
        }
    }

    /// A client's connection ended: its record is removed and it leaves its
    /// room, if any (see [`disconnect_outcome`]).
    pub fn disconnect_client(&mut self, c: u128) -> (r: Vec<Action>)
        requires
            old(self).wf(),
        ensures
            final(self).wf(),
            (final(self)@, actions_view(r@)) == disconnect_outcome(old(self)@, c),
            recipients_distinct(r@),
    {
        match clients_remove(&mut self.clients, c) {
            Some(Some(room_id)) => {
                self.client_meta.remove(&c);
                self.cleanup_client(c, room_id.as_str())
            },
            Some(None) => {
                self.client_meta.remove(&c);
                let v: Vec<Action> = Vec::new();
                assert(actions_view(v@) =~= seq![]);
                v
            },
            None => {
                let v: Vec<Action> = Vec::new();
                assert(actions_view(v@) =~= seq![]);
                assert(self@.clients =~= old(self)@.clients);
                v
            },
        }
    }
}

} // verus!

verus! {

/// What a connection's task observed.
pub enum ConnectionEvent {
    /// A frame arrived and decoded to this message.
    Frame(ClientWire),
    /// A frame arrived that did not decode; the text describes why.
    Undecodable(String),
    /// Reading a frame failed.
    ReadFailed(ReadFailure),
    /// No frame arrived within the idle timeout.
    IdleTimeout,
    /// The ping timer fired.
    PingTick,
    /// The server is shutting down.
    Shutdown,
}

/// What the connection's task does next.
pub enum LoopStep {
    /// Perform these actions and keep serving the connection.
    Continue(Vec<Action>),
    /// Ask the join hook about this room, finish with [`Server::join_room`],
    /// and keep serving the connection.
    ConsultJoin { room_id: String },
    /// End the connection with this result.
    Stop(Result<(), SyncError>),
}

/// A loop step taken by its view.
pub enum LoopSpec {
    Continue(Seq<ActionSpec>),
    ConsultJoin(Seq<char>),
    Stop(Result<(), SyncError>),
}

impl View for LoopStep {
    type V = LoopSpec;

    open spec fn view(&self) -> LoopSpec {
        match self {
            LoopStep::Continue(a) => LoopSpec::Continue(actions_view(a@)),
            LoopStep::ConsultJoin { room_id } => LoopSpec::ConsultJoin(room_id@),
            LoopStep::Stop(r) => LoopSpec::Stop(*r),
        }
    }
}

/// What one event does to the server's state and to the connection's
/// `awaiting_pong` flag, and what the connection does next.
///
/// A Pong clears the flag. Any other message is processed. An undecodable
/// frame ends the connection with a protocol error; a read failure ends it,
/// cleanly when the stream just ended. The idle timeout ends it. A ping tick
/// ends it with `PingTimeout` when the last ping is still unanswered, and
/// otherwise sends a Ping and raises the flag. Shutdown ends it as closed.
pub open spec fn connection_outcome<M, C>(s: ServerState<M, C>, awaiting_pong: bool, c: u128, ev: ConnectionEvent) -> (ServerState<M, C>, bool, LoopSpec) {
    match ev {
        ConnectionEvent::Frame(msg) => match msg {
            ClientWire::Pong => (s, false, LoopSpec::Continue(seq![])),
            _ => {
                let (s1, r) = process_outcome(s, c, msg);
                match r {
                    StepSpec::Done(a) => (s1, awaiting_pong, LoopSpec::Continue(a)),
                    StepSpec::ConsultJoin(room) => (s1, awaiting_pong, LoopSpec::ConsultJoin(room)),
                }
            },
        },
        ConnectionEvent::Undecodable(why) => (s, awaiting_pong, LoopSpec::Stop(Err(SyncError::Protocol(why)))),
        ConnectionEvent::ReadFailed(f) => match f {
            ReadFailure::Io(io) => if io_kind_of(io) == IoErrorKind::UnexpectedEof {
                (s, awaiting_pong, LoopSpec::Stop(Ok(())))
            } else {
                (s, awaiting_pong, LoopSpec::Stop(Err(SyncError::Io(io))))
            },
            ReadFailure::PayloadTooLarge { size, max } => (
                s,
                awaiting_pong,
                LoopSpec::Stop(Err(SyncError::PayloadTooLarge { size, max })),
            ),
        },
        ConnectionEvent::IdleTimeout => (s, awaiting_pong, LoopSpec::Stop(Err(SyncError::IdleTimeout))),
        ConnectionEvent::PingTick => if awaiting_pong {
            (s, awaiting_pong, LoopSpec::Stop(Err(SyncError::PingTimeout)))
        } else {
            (s, true, LoopSpec::Continue(seq![ActionSpec::Send { to: c, msg: WireSpec::Ping }]))
        },
        ConnectionEvent::Shutdown => (s, awaiting_pong, LoopSpec::Stop(Err(SyncError::ConnectionClosed))),
    }
}

/// Whether the server admits a new connection.
#[derive(Clone, Copy, Debug, PartialEq, Eq, Structural)]
pub enum Admission {
    Accepted,
    /// The connect hook refused it.
    RejectedByHandler,
    /// `max_clients` connections are already admitted.
    ServerFull,
}

/// A new connection, given the connect hook's answer: refused by the hook,
/// refused because `max_clients` connections are admitted, or admitted and
/// counted.
pub open spec fn admission_outcome<M, C>(s: ServerState<M, C>, handler_accepts: bool) -> (ServerState<M, C>, Admission) {
    if !handler_accepts {
        (s, Admission::RejectedByHandler)
    } else if s.client_count >= s.config.max_clients {
        (s, Admission::ServerFull)
    } else {
        (ServerState { client_count: (s.client_count + 1) as usize, ..s }, Admission::Accepted)
    }
}

/// An admitted connection ended: the count goes down by one (it never goes
/// below zero).
pub open spec fn release_outcome<M, C>(s: ServerState<M, C>) -> ServerState<M, C> {
    ServerState { client_count: if s.client_count > 0 { (s.client_count - 1) as usize } else { 0 }, ..s }
}

impl<M, C> Server<M, C> {
    /// Handles one event of client `c`'s connection (see [`connection_outcome`]).
    pub fn connection_step(&mut self, c: u128, awaiting_pong: &mut bool, ev: ConnectionEvent) -> (r: LoopStep)
        requires
            old(self).wf(),
        ensures
            final(self).wf(),
            (final(self)@, *final(awaiting_pong), r@) == connection_outcome(old(self)@, *old(awaiting_pong), c, ev),
            r matches LoopStep::Continue(a) ==> recipients_distinct(a@),
    {
        match ev {
            ConnectionEvent::Frame(msg) => {
                if let ClientWire::Pong = msg {
                    *awaiting_pong = false;
                    let v: Vec<Action> = Vec::new();
                    assert(actions_view(v@) =~= seq![]);
                    return LoopStep::Continue(v);
                }
                match self.process_message(c, msg) {
                    Step::Done(a) => LoopStep::Continue(a),
                    Step::ConsultJoin { room_id } => LoopStep::ConsultJoin { room_id },
                }
            },
            ConnectionEvent::Undecodable(why) => LoopStep::Stop(Err(SyncError::Protocol(why))),
            ConnectionEvent::ReadFailed(f) => match f {
                ReadFailure::Io(io) => {
                    if crate::error::io_error_kind(&io) == IoErrorKind::UnexpectedEof {
                        LoopStep::Stop(Ok(()))
                    } else {
                        LoopStep::Stop(Err(SyncError::Io(io)))
                    }
                },
                ReadFailure::PayloadTooLarge { size, max } => LoopStep::Stop(Err(SyncError::PayloadTooLarge { size, max })),
            },
            ConnectionEvent::IdleTimeout => LoopStep::Stop(Err(SyncError::IdleTimeout)),
            ConnectionEvent::PingTick => {
                if *awaiting_pong {
                    LoopStep::Stop(Err(SyncError::PingTimeout))
                } else {
                    *awaiting_pong = true;
                    let v = vec![Action::Send { to: c, msg: ServerWire::Ping }];
                    assert(actions_view(v@) =~= seq![ActionSpec::Send { to: c, msg: WireSpec::Ping }]);
                    LoopStep::Continue(v)
                }
            },
            ConnectionEvent::Shutdown => LoopStep::Stop(Err(SyncError::ConnectionClosed)),
        }
    }

    /// Decides on a new connection, given the connect hook's answer (see
    /// [`admission_outcome`]).
    pub fn admit_connection(&mut self, handler_accepts: bool) -> (a: Admission)
        requires
            old(self).wf(),
        ensures
            final(self).wf(),
            (final(self)@, a) == admission_outcome(old(self)@, handler_accepts),
    {
        if !handler_accepts {
            return Admission::RejectedByHandler;
        }
        if self.client_count >= self.config.max_clients {
            return Admission::ServerFull;
        }
        self.client_count = self.client_count + 1;
        Admission::Accepted
    }

    /// An admitted connection ended: it is no longer counted (see
    /// [`release_outcome`]).
    pub fn release_connection(&mut self)
        requires
            old(self).wf(),
        ensures
            final(self).wf(),
            final(self)@ == release_outcome(old(self)@),
    {
        if self.client_count > 0 {
            self.client_count = self.client_count - 1;
        }
    }
}

} // verus!

verus! {

impl<M, C> Server<M, C> {
    /// Store metadata on a connected client, replacing any previous value.
    /// Returns `false` (and changes nothing) if the client is not connected.
    pub fn set_client_meta(&mut self, c: u128, value: C) -> (found: bool)
        requires
            old(self).wf(),
        ensures
            final(self).wf(),
            found == old(self)@.clients.contains_key(c),
            found ==> final(self)@ == (ServerState { client_meta: old(self)@.client_meta.insert(c, value), ..old(self)@ }),
            !found ==> final(self)@ == old(self)@,
    {
        if clients_get(&self.clients, c).is_some() {
            self.client_meta.insert(c, value);
            true
        } else {
            false
        }
    }

    /// Whether a client holds metadata.
    pub fn client_has_meta(&self, c: u128) -> (b: bool)
        ensures
            b == self@.client_meta.contains_key(c),
    {
        self.client_meta.contains_key(&c)
    }

    /// Reads a client's metadata through a callback. `None` if it holds none.
    pub fn with_client_meta<R, F: FnOnce(&C) -> R>(&self, c: u128, f: F) -> (r: Option<R>)
        requires
            self@.client_meta.contains_key(c) ==> f.requires((&self@.client_meta[c],)),
        ensures
            r is Some <==> self@.client_meta.contains_key(c),
            r matches Some(x) ==> f.ensures((&self@.client_meta[c],), x),
    {
        match self.client_meta.get(&c) {
            Some(v) => Some(f(v)),
            None => None,
        }
    }

    /// Removes and returns a client's metadata.
    pub fn take_client_meta(&mut self, c: u128) -> (r: Option<C>)
        requires
            old(self).wf(),
        ensures
            final(self).wf(),
            r == (if old(self)@.client_meta.contains_key(c) { Some(old(self)@.client_meta[c]) } else { None::<C> }),
            final(self)@ == (ServerState { client_meta: old(self)@.client_meta.remove(c), ..old(self)@ }),
    {
        self.client_meta.remove(&c)
    }
}

/// The recipients among the first `n` whose send was not delivered, in order.
pub open spec fn undelivered(recipients: Seq<u128>, delivered: Seq<bool>, n: nat) -> Seq<u128>
    decreases n,
{
    if n == 0 {
        seq![]
    } else {
        let rest = undelivered(recipients, delivered, (n - 1) as nat);
        if delivered[n - 1] {
            rest
        } else {
            rest.push(recipients[n - 1])
        }
    }
}

/// The outcomes of the sends that an action makes line up with the action:
/// one per recipient of a fan-out, one for a single send, none otherwise.
pub open spec fn outcomes_match(action: Action, delivered: Seq<bool>) -> bool {
    match action {
        Action::Relay { recipients, .. } => delivered.len() == recipients@.len(),
        Action::Send { .. } => delivered.len() == 1,
        _ => delivered.len() == 0,
    }
}

/// Who the backpressure hook hears about after an action was carried out:
/// for a fan-out, every recipient whose frame was dropped, in order, with the
/// fan-out's room; for a single send that was dropped, the client with its
/// room, if it is in one; otherwise nobody.
pub open spec fn backpressure_outcome<M, C>(s: ServerState<M, C>, action: Action, delivered: Seq<bool>) -> Seq<(u128, Seq<char>)> {
    match action {
        Action::Relay { room_id, recipients, .. } => undelivered(recipients@, delivered, recipients@.len()).map_values(
            |id: u128| (id, room_id@),
        ),
        Action::Send { to, .. } => if !delivered[0] && s.clients.contains_key(to) && s.clients[to] is Some {
            seq![(to, s.clients[to]->0)]
        } else {
            seq![]
        },
        _ => seq![],
    }
}

/// A list of reports taken by their views.
pub open spec fn reports_view(r: Seq<(u128, String)>) -> Seq<(u128, Seq<char>)> {
    r.map_values(|p: (u128, String)| (p.0, p.1@))
}

impl<M, C> Server<M, C> {
    /// Decides whom the backpressure hook hears about, given which of the
    /// action's sends were delivered (see [`backpressure_outcome`]).
    pub fn backpressure_reports(&self, action: &Action, delivered: &Vec<bool>) -> (r: Vec<(u128, String)>)
        requires
            outcomes_match(*action, delivered@),
        ensures
            reports_view(r@) == backpressure_outcome(self@, *action, delivered@),
    {
        match action {
            Action::Relay { room_id, recipients, .. } => {
                let mut out: Vec<(u128, String)> = Vec::new();
                let mut i: usize = 0;
                while i < recipients.len()
                    invariant
                        i <= recipients@.len(),
                        delivered@.len() == recipients@.len(),
                        reports_view(out@) =~= undelivered(recipients@, delivered@, i as nat).map_values(
                            |id: u128| (id, room_id@),
                        ),
                    decreases recipients@.len() - i,
                {
                    let ghost before = out@;
                    if !delivered[i] {
                        out.push((recipients[i], room_id.clone()));
                        assert(reports_view(out@) =~= reports_view(before).push((recipients@[i as int], room_id@)));
                    }
                    i = i + 1;
                }
                out
            },
            Action::Send { to, .. } => {
                let mut out: Vec<(u128, String)> = Vec::new();
                if !delivered[0] {
                    match clients_get(&self.clients, *to) {
                        Some(Some(room)) => {
                            out.push((*to, room));
                        },
                        _ => {},
                    }
                }
                assert(reports_view(out@) =~= backpressure_outcome(self@, *action, delivered@));
                out
            },
            _ => {
                let out: Vec<(u128, String)> = Vec::new();
                assert(reports_view(out@) =~= seq![]);
                out
            },
        }
    }
}

} // verus!
