//! What holds of the relay across its operations: the rooms and the client
//! records agree, broadcasts stay inside a room, joins and leaves are seen in
//! the state, pings must be answered, and admission respects `max_clients`.

use vstd::prelude::*;
use crate::error::SyncError;
use crate::room::{empty_room, RoomState};
use crate::server::{
    admission_outcome, broadcast_outcome, connection_outcome, disconnect_outcome, join_outcome, leave_outcome,
    backpressure_outcome, process_outcome, release_outcome, room_not_found_text, undelivered, Action, ActionSpec, Admission, ConnectionEvent, LoopSpec, ServerState,
    StepSpec,
};
use crate::types::{ClientWire, WireSpec};

verus! {

/// Every member of a room is a connected client whose record names that room.
pub open spec fn members_registered<M, C>(s: ServerState<M, C>) -> bool {
    forall|room: Seq<char>, c: u128|
        s.rooms.contains_key(room) && #[trigger] s.rooms[room].members.contains(c) ==> s.clients.contains_key(c)
            && s.clients[c] == Some(room)
}

/// Every admitted connection is within `max_clients`.
pub open spec fn count_bounded<M, C>(s: ServerState<M, C>) -> bool {
    s.client_count <= s.config.max_clients
}

proof fn lemma_leave_registered<M, C>(s: ServerState<M, C>, c: u128)
    requires
        members_registered(s),
    ensures
        members_registered(leave_outcome(s, c).0),
        leave_outcome(s, c).0.clients.contains_key(c) == s.clients.contains_key(c),
        s.clients.contains_key(c) ==> leave_outcome(s, c).0.clients[c] is None,
        leave_outcome(s, c).0.rooms.dom() == s.rooms.dom(),
        forall|x: u128| x != c ==> (leave_outcome(s, c).0.clients.contains_key(x) == s.clients.contains_key(x)
            && (s.clients.contains_key(x) ==> leave_outcome(s, c).0.clients[x] == s.clients[x])),
{
    let t = leave_outcome(s, c).0;
    if s.clients.contains_key(c) && s.clients[c] is Some {
        let r = s.clients[c]->0;
        assert forall|room: Seq<char>, m: u128|
            t.rooms.contains_key(room) && #[trigger] t.rooms[room].members.contains(m) implies t.clients.contains_key(m)
                && t.clients[m] == Some(room) by {
            if room == r {
                assert(m != c);
                assert(s.rooms[room].members.contains(m));
            } else {
                assert(s.rooms[room].members.contains(m));
                assert(m != c);
            }
        }
        assert(t.rooms.dom() =~= s.rooms.dom());
    }
}

/// Law: leaving a room keeps the rooms and the client records in agreement;
/// afterwards the client's record names no room and the client is a member of
/// no room.
pub proof fn law_leave_keeps_membership_consistent<M, C>(s: ServerState<M, C>, c: u128)
    requires
        members_registered(s),
    ensures
        members_registered(leave_outcome(s, c).0),
        s.clients.contains_key(c) ==> leave_outcome(s, c).0.clients[c] is None,
        forall|room: Seq<char>| #[trigger] leave_outcome(s, c).0.rooms.contains_key(room)
            ==> !leave_outcome(s, c).0.rooms[room].members.contains(c),
{
    lemma_leave_registered(s, c);
}

/// Law: a join keeps the rooms and the client records in agreement. An
/// approved join of a connected client to an existing room makes the client a
/// member of that room, and of no other, and its record names that room.
pub proof fn law_join_keeps_membership_consistent<M, C>(s: ServerState<M, C>, c: u128, room: Seq<char>, approved: bool)
    requires
        members_registered(s),
    ensures
        members_registered(join_outcome(s, c, room, approved).0),
        approved && s.clients.contains_key(c) && s.rooms.contains_key(room) ==> {
            let t = join_outcome(s, c, room, approved).0;
            &&& t.rooms[room].members.contains(c)
            &&& t.clients[c] == Some(room)
            &&& forall|other: Seq<char>| other != room && #[trigger] t.rooms.contains_key(other) ==> !t.rooms[other].members.contains(c)
        },
{
    if approved && s.clients.contains_key(c) && s.rooms.contains_key(room) {
        lemma_leave_registered(s, c);
        let s1 = leave_outcome(s, c).0;
        let t = join_outcome(s, c, room, approved).0;
        assert(s1.rooms.contains_key(room));
        assert forall|q: Seq<char>, m: u128|
            t.rooms.contains_key(q) && #[trigger] t.rooms[q].members.contains(m) implies t.clients.contains_key(m)
                && t.clients[m] == Some(q) by {
            if q == room {
                if m != c {
                    assert(s1.rooms[q].members.contains(m));
                }
            } else {
                assert(s1.rooms[q].members.contains(m));
                assert(s1.clients[m] == Some(q));
                assert(m != c);
            }
        }
    }
}

/// Law: a disconnect keeps the rooms and the client records in agreement; the
/// client's record and its metadata are gone and it is a member of no room.
pub proof fn law_disconnect_keeps_membership_consistent<M, C>(s: ServerState<M, C>, c: u128)
    requires
        members_registered(s),
    ensures
        members_registered(disconnect_outcome(s, c).0),
        !disconnect_outcome(s, c).0.clients.contains_key(c),
        !disconnect_outcome(s, c).0.client_meta.contains_key(c) || !s.clients.contains_key(c),
        forall|room: Seq<char>| #[trigger] disconnect_outcome(s, c).0.rooms.contains_key(room)
            ==> !disconnect_outcome(s, c).0.rooms[room].members.contains(c),
{
    let t = disconnect_outcome(s, c).0;
    if s.clients.contains_key(c) {
        assert forall|q: Seq<char>, m: u128|
            t.rooms.contains_key(q) && #[trigger] t.rooms[q].members.contains(m) implies t.clients.contains_key(m)
                && t.clients[m] == Some(q) by {
            assert(s.rooms[q].members.contains(m));
            assert(m != c);
        }
    }
}

/// Law: processing any client message keeps the rooms and the client records
/// in agreement.
pub proof fn law_process_keeps_membership_consistent<M, C>(s: ServerState<M, C>, c: u128, msg: ClientWire)
    requires
        members_registered(s),
    ensures
        members_registered(process_outcome(s, c, msg).0),
{
    if msg is LeaveRoom {
        lemma_leave_registered(s, c);
    }
}

/// Law: every event of a connection keeps the rooms and the client records in
/// agreement.
pub proof fn law_connection_step_keeps_membership_consistent<M, C>(s: ServerState<M, C>, awaiting_pong: bool, c: u128, ev: ConnectionEvent)
    requires
        members_registered(s),
    ensures
        members_registered(connection_outcome(s, awaiting_pong, c, ev).0),
{
    if let ConnectionEvent::Frame(msg) = ev {
        law_process_keeps_membership_consistent(s, c, msg);
    }
}

/// Law: recording a client whose id is not yet in use, as
/// `Server::connect_client` does, keeps the rooms and the client records in
/// agreement. (A reused id would replace a record whose client may still be a
/// member of a room.)
pub proof fn law_register_keeps_membership_consistent<M, C>(s: ServerState<M, C>, c: u128)
    requires
        members_registered(s),
        !s.clients.contains_key(c),
    ensures
        members_registered(ServerState { clients: s.clients.insert(c, None), client_meta: s.client_meta.remove(c), ..s }),
{
    let t = ServerState { clients: s.clients.insert(c, None), client_meta: s.client_meta.remove(c), ..s };
    assert forall|q: Seq<char>, m: u128| t.rooms.contains_key(q) && #[trigger] t.rooms[q].members.contains(m) implies t.clients.contains_key(m)
        && t.clients[m] == Some(q) by {
        assert(s.rooms[q].members.contains(m));
    }
}

/// Law: creating a room that does not exist, deleting a room, and setting or
/// taking a room's metadata keep the rooms and the client records in agreement.
pub proof fn law_room_changes_keep_membership_consistent<M, C>(s: ServerState<M, C>, id: Seq<char>, meta: Option<M>)
    requires
        members_registered(s),
    ensures
        !s.rooms.contains_key(id) ==> members_registered(ServerState { rooms: s.rooms.insert(id, empty_room()), ..s }),
        members_registered(ServerState { rooms: s.rooms.remove(id), ..s }),
        s.rooms.contains_key(id) ==> members_registered(
            ServerState { rooms: s.rooms.insert(id, RoomState { members: s.rooms[id].members, meta: meta }), ..s },
        ),
{
    let t1 = ServerState { rooms: s.rooms.insert(id, empty_room()), ..s };
    if !s.rooms.contains_key(id) {
        assert forall|q: Seq<char>, m: u128| t1.rooms.contains_key(q) && #[trigger] t1.rooms[q].members.contains(m) implies t1.clients.contains_key(m)
            && t1.clients[m] == Some(q) by {
            if q != id {
                assert(s.rooms[q].members.contains(m));
            }
        }
    }
    let t2 = ServerState { rooms: s.rooms.remove(id), ..s };
    assert forall|q: Seq<char>, m: u128| t2.rooms.contains_key(q) && #[trigger] t2.rooms[q].members.contains(m) implies t2.clients.contains_key(m)
        && t2.clients[m] == Some(q) by {
        assert(s.rooms[q].members.contains(m));
    }
    if s.rooms.contains_key(id) {
        let t3 = ServerState { rooms: s.rooms.insert(id, RoomState { members: s.rooms[id].members, meta: meta }), ..s };
        assert forall|q: Seq<char>, m: u128| t3.rooms.contains_key(q) && #[trigger] t3.rooms[q].members.contains(m) implies t3.clients.contains_key(m)
            && t3.clients[m] == Some(q) by {
            assert(s.rooms[q].members.contains(m));
        }
    }
}

/// Law: a broadcast reaches only the other members of the sender's own room:
/// never the sender, never a client of another room. Every recipient's record
/// names the sender's room.
pub proof fn law_broadcast_stays_in_room<M, C>(s: ServerState<M, C>, c: u128, data: Seq<u8>)
    requires
        members_registered(s),
    ensures
        forall|i: int| 0 <= i < broadcast_outcome(s, c, data).len() ==> (
            #[trigger] broadcast_outcome(s, c, data)[i] matches ActionSpec::Relay { room, recipients, .. } ==> {
                &&& s.clients[c] == Some(room)
                &&& recipients == s.rooms[room].members.remove(c)
                &&& !recipients.contains(c)
                &&& forall|m: u128| #[trigger] recipients.contains(m) ==> s.rooms[room].members.contains(m)
                    && s.clients[m] == Some(room)
            }),
{
}

/// Law: rooms are deleted only explicitly. A client leaving, joining or
/// disconnecting never removes a room, even one it leaves empty.
pub proof fn law_rooms_outlive_their_members<M, C>(s: ServerState<M, C>, c: u128, room: Seq<char>, approved: bool)
    ensures
        leave_outcome(s, c).0.rooms.dom() == s.rooms.dom(),
        disconnect_outcome(s, c).0.rooms.dom() == s.rooms.dom(),
        join_outcome(s, c, room, approved).0.rooms.dom() == s.rooms.dom(),
{
    if s.clients.contains_key(c) && s.clients[c] is Some {
        let r = s.clients[c]->0;
        if s.rooms.contains_key(r) {
            assert(leave_outcome(s, c).0.rooms.dom() =~= s.rooms.dom());
            assert(disconnect_outcome(s, c).0.rooms.dom() =~= s.rooms.dom());
        }
    }
    if approved && s.clients.contains_key(c) && s.rooms.contains_key(room) {
        let s1 = leave_outcome(s, c).0;
        assert(s1.rooms.dom() == s.rooms.dom());
        assert(join_outcome(s, c, room, approved).0.rooms.dom() =~= s.rooms.dom());
    }
}

/// Law: deleting a room is soft. Its clients stay connected and their records
/// still name the room; a broadcast from one of them is answered with a
/// "room not found" error message, relays nothing and tells no hook.
pub proof fn law_deleted_room_refuses_broadcast<M, C>(s: ServerState<M, C>, room: Seq<char>, c: u128, data: Seq<u8>)
    requires
        s.clients.contains_key(c),
        s.clients[c] == Some(room),
    ensures
        ({
            let t = ServerState { rooms: s.rooms.remove(room), ..s };
            &&& t.clients == s.clients
            &&& broadcast_outcome(t, c, data) == seq![
                ActionSpec::Send { to: c, msg: WireSpec::Error(room_not_found_text(room)) },
            ]
        }),
{
}

/// Law: a join that the hook refuses, or that names a missing room, changes
/// nothing and answers the client with an error message.
pub proof fn law_refused_join_changes_nothing<M, C>(s: ServerState<M, C>, c: u128, room: Seq<char>, approved: bool)
    requires
        s.clients.contains_key(c),
        !approved || !s.rooms.contains_key(room),
    ensures
        join_outcome(s, c, room, approved).0 == s,
        join_outcome(s, c, room, approved).1.len() == 1,
        join_outcome(s, c, room, approved).1[0] matches ActionSpec::Send { to, msg: WireSpec::Error(_) } && to == c,
{
}

/// Law: a ping that goes unanswered until the next tick ends the connection
/// with `PingTimeout`; a Pong in between clears the wait.
pub proof fn law_unanswered_ping_times_out<M, C>(s: ServerState<M, C>, c: u128)
    ensures
        ({
            let (s1, waiting, first) = connection_outcome(s, false, c, ConnectionEvent::PingTick);
            &&& waiting
            &&& first == LoopSpec::Continue(seq![ActionSpec::Send { to: c, msg: WireSpec::Ping }])
            &&& connection_outcome(s1, waiting, c, ConnectionEvent::PingTick).2
                == LoopSpec::Stop(Err(SyncError::PingTimeout))
            &&& !connection_outcome(s1, waiting, c, ConnectionEvent::Frame(ClientWire::Pong)).1
        }),
{
}

/// Law: admission never lets more than `max_clients` connections in, and a
/// connection's end keeps the bound.
pub proof fn law_admission_respects_max_clients<M, C>(s: ServerState<M, C>, handler_accepts: bool)
    requires
        count_bounded(s),
    ensures
        count_bounded(admission_outcome(s, handler_accepts).0),
        count_bounded(release_outcome(s)),
        admission_outcome(s, handler_accepts).1 == Admission::Accepted ==> admission_outcome(s, handler_accepts).0.client_count
            == s.client_count + 1,
{
}

/// Law: creating a room that does not exist and then deleting it leaves the
/// rooms as they were.
pub proof fn law_create_then_delete_restores<M>(rooms: Map<Seq<char>, RoomState<M>>, id: Seq<char>)
    requires
        !rooms.contains_key(id),
    ensures
        rooms.insert(id, empty_room()).remove(id) == rooms,
        rooms.insert(id, empty_room()).contains_key(id),
{
    assert(rooms.insert(id, empty_room()).remove(id) =~= rooms);
}

proof fn lemma_undelivered(recipients: Seq<u128>, delivered: Seq<bool>, n: nat)
    requires
        n <= recipients.len(),
        n <= delivered.len(),
    ensures
        forall|j: int| 0 <= j < undelivered(recipients, delivered, n).len() ==> exists|k: int|
            0 <= k < n && !delivered[k] && #[trigger] undelivered(recipients, delivered, n)[j] == recipients[k],
        forall|k: int| 0 <= k < n && !delivered[k] ==> undelivered(recipients, delivered, n).contains(#[trigger] recipients[k]),
    decreases n,
{
    if n > 0 {
        let m = (n - 1) as nat;
        lemma_undelivered(recipients, delivered, m);
        let rest = undelivered(recipients, delivered, m);
        let all = undelivered(recipients, delivered, n);
        assert forall|j: int| 0 <= j < all.len() implies exists|k: int|
            0 <= k < n && !delivered[k] && #[trigger] all[j] == recipients[k] by {
            if j < rest.len() {
                assert(all[j] == rest[j]);
                let k = choose|k: int| 0 <= k < m && !delivered[k] && rest[j] == recipients[k];
                assert(all[j] == recipients[k]);
            } else {
                assert(all[j] == recipients[m as int]);
            }
        }
        assert forall|k: int| 0 <= k < n && !delivered[k] implies all.contains(#[trigger] recipients[k]) by {
            if k < m {
                assert(rest.contains(recipients[k]));
                let j = choose|j: int| 0 <= j < rest.len() && rest[j] == recipients[k];
                assert(all[j] == recipients[k]);
            } else {
                assert(all[all.len() - 1] == recipients[k]);
            }
        }
    }
}

/// Law: after a fan-out, the backpressure hook hears about exactly the
/// recipients whose frame was dropped (never one that got it), each with the
/// fan-out's room.
pub proof fn law_backpressure_reports_exactly_the_dropped<M, C>(s: ServerState<M, C>, action: Action, delivered: Seq<bool>)
    requires
        action matches Action::Relay { recipients, .. } && delivered.len() == recipients@.len(),
    ensures
        action matches Action::Relay { room_id, recipients, .. } ==> {
            let out = backpressure_outcome(s, action, delivered);
            &&& forall|j: int| 0 <= j < out.len() ==> (#[trigger] out[j]).1 == room_id@ && exists|k: int|
                0 <= k < recipients@.len() && !delivered[k] && out[j].0 == recipients@[k]
            &&& forall|k: int| 0 <= k < recipients@.len() && !delivered[k] ==> exists|j: int|
                0 <= j < out.len() && #[trigger] out[j].0 == recipients@[k]
        },
{
    if let Action::Relay { room_id, recipients, .. } = action {
        let n = recipients@.len();
        lemma_undelivered(recipients@, delivered, n);
        let u = undelivered(recipients@, delivered, n);
        let out = backpressure_outcome(s, action, delivered);
        assert forall|j: int| 0 <= j < out.len() implies (#[trigger] out[j]).1 == room_id@ && exists|k: int|
            0 <= k < recipients@.len() && !delivered[k] && out[j].0 == recipients@[k] by {
            assert(out[j] == (u[j], room_id@));
            let k = choose|k: int| 0 <= k < n && !delivered[k] && u[j] == recipients@[k];
        }
        assert forall|k: int| 0 <= k < recipients@.len() && !delivered[k] implies exists|j: int|
            0 <= j < out.len() && #[trigger] out[j].0 == recipients@[k] by {
            assert(u.contains(recipients@[k]));
            let j = choose|j: int| 0 <= j < u.len() && u[j] == recipients@[k];
            assert(out[j].0 == u[j]);
        }
    }
}

/// Law: a connection ends with `PingTimeout` exactly when the ping timer fires
/// while a ping is still unanswered; no other event ends it that way.
pub proof fn law_ping_timeout_only_from_unanswered_ping<M, C>(s: ServerState<M, C>, awaiting_pong: bool, c: u128, ev: ConnectionEvent)
    ensures
        connection_outcome(s, awaiting_pong, c, ev).2 == LoopSpec::Stop(Err(SyncError::PingTimeout))
            <==> (ev is PingTick && awaiting_pong),
{
}

/// Law: a broadcast from a member of an existing room relays exactly the data
/// it was given, under the sender's id, to every other member of that room and
/// to no one else, and the handler hears of that same data. This holds whether
/// the broadcast is called directly or arrives as a client message.
pub proof fn law_broadcast_relays_the_data_unchanged<M, C>(s: ServerState<M, C>, c: u128, room: Seq<char>, data: Vec<u8>)
    requires
        s.clients.contains_key(c),
        s.clients[c] == Some(room),
        s.rooms.contains_key(room),
    ensures
        ({
            let out = broadcast_outcome(s, c, data@);
            &&& out.len() == 2
            &&& out[0] == ActionSpec::Relay {
                room: room,
                recipients: s.rooms[room].members.remove(c),
                msg: WireSpec::Broadcast { sender_id: c, data: data@ },
            }
            &&& out[1] == ActionSpec::Relayed { client: c, room: room, data: data@ }
            &&& forall|i: int| 0 <= i < out.len() ==> (#[trigger] out[i] matches ActionSpec::Relay { msg, .. } ==> msg
                == WireSpec::Broadcast { sender_id: c, data: data@ })
            &&& process_outcome(s, c, ClientWire::Broadcast { data }) == (s, StepSpec::Done(out))
        }),
{
}

/// Law: an approved join of a connected client to an existing room makes the
/// client a member of that room, confirms `Joined` to it, and relays
/// `PlayerJoined` to exactly the room's members other than the client, whether
/// or not it was in a room before; what comes first is what leaving its old
/// room yields.
pub proof fn law_join_tells_every_other_member<M, C>(s: ServerState<M, C>, c: u128, room: Seq<char>)
    requires
        s.clients.contains_key(c),
        s.rooms.contains_key(room),
    ensures
        ({
            let (t, out) = join_outcome(s, c, room, true);
            &&& out == leave_outcome(s, c).1 + seq![
                ActionSpec::Send { to: c, msg: WireSpec::Joined { client_id: c, room_id: room } },
                ActionSpec::Relay {
                    room: room,
                    recipients: s.rooms[room].members.remove(c),
                    msg: WireSpec::PlayerJoined { client_id: c },
                },
            ]
            &&& t.rooms[room].members == s.rooms[room].members.insert(c)
            &&& t.clients[c] == Some(room)
        }),
{
    let (s1, left) = leave_outcome(s, c);
    assert(s1.rooms.contains_key(room));
    assert(s1.rooms[room].members.insert(c).remove(c) =~= s.rooms[room].members.remove(c));
    assert(s1.rooms[room].members.insert(c) =~= s.rooms[room].members.insert(c));
}

/// Law: when a client in an existing room leaves it, or disconnects, every
/// other member of the room hears `PlayerLeft` exactly once, whatever the
/// room's size, the handler is told, and the client is no longer a member.
pub proof fn law_leaving_tells_every_other_member<M, C>(s: ServerState<M, C>, c: u128, room: Seq<char>)
    requires
        s.clients.contains_key(c),
        s.clients[c] == Some(room),
        s.rooms.contains_key(room),
    ensures
        ({
            let told = seq![
                ActionSpec::Relay {
                    room: room,
                    recipients: s.rooms[room].members.remove(c),
                    msg: WireSpec::PlayerLeft { client_id: c },
                },
                ActionSpec::Left { client: c, room: room },
            ];
            &&& leave_outcome(s, c).1 == told
            &&& disconnect_outcome(s, c).1 == told
            &&& leave_outcome(s, c).0.rooms[room].members == s.rooms[room].members.remove(c)
            &&& disconnect_outcome(s, c).0.rooms[room].members == s.rooms[room].members.remove(c)
        }),
{
}

/// Law: only a ping tick raises the connection's `awaiting_pong` flag and only
/// a Pong clears it; every other event, every other client message included,
/// leaves it as it was.
pub proof fn law_only_ping_and_pong_move_the_flag<M, C>(s: ServerState<M, C>, awaiting_pong: bool, c: u128, ev: ConnectionEvent)
    ensures
        connection_outcome(s, awaiting_pong, c, ev).1 == (if ev == ConnectionEvent::Frame(ClientWire::Pong) {
            false
        } else if ev is PingTick {
            true
        } else {
            awaiting_pong
        }),
        ev is PingTick && !awaiting_pong ==> connection_outcome(s, awaiting_pong, c, ev).2 == LoopSpec::Continue(
            seq![ActionSpec::Send { to: c, msg: WireSpec::Ping }],
        ),
{
}

/// Law: a connection that the connect hook accepts is admitted exactly when
/// fewer than `max_clients` connections are counted, and then the count goes
/// up by one; one the hook refuses is refused whatever the count.
pub proof fn law_admission_accepts_below_max<M, C>(s: ServerState<M, C>, handler_accepts: bool)
    ensures
        handler_accepts && s.client_count < s.config.max_clients ==> admission_outcome(s, handler_accepts) == (
            ServerState { client_count: (s.client_count + 1) as usize, ..s },
            Admission::Accepted,
        ),
        handler_accepts && s.client_count >= s.config.max_clients ==> admission_outcome(s, handler_accepts) == (
            s,
            Admission::ServerFull,
        ),
        !handler_accepts ==> admission_outcome(s, handler_accepts) == (s, Admission::RejectedByHandler),
{
}

} // verus!
