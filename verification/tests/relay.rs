use ghost_sync::server::{Action, Admission, ConnectionEvent, LoopStep, Server, ServerBuilder, Step};
use ghost_sync::protocol::ReadFailure;
use ghost_sync::{ClientWire, ServerWire, SyncError};
use std::any::Any;
use std::collections::BTreeSet;

const A: u128 = 0xA;
const B: u128 = 0xB;
const C: u128 = 0xC;

fn server_with_room(room: &str) -> Server<String, String> {
    let mut s: Server<String, String> = ServerBuilder::new().max_clients(10).max_payload(1024).build();
    s.pre_create_room(room).unwrap();
    s
}

/// Sends a join request through the server and approves it as the no-op handler would.
fn join(s: &mut Server<String, String>, c: u128, room: &str) -> Vec<Action> {
    match s.process_message(c, ClientWire::JoinRoom { room_id: room.to_string() }) {
        Step::ConsultJoin { room_id } => s.join_room(c, &room_id, true),
        Step::Done(actions) => actions,
    }
}

fn set(v: &[u128]) -> BTreeSet<u128> {
    v.iter().copied().collect()
}

#[test]
fn connect_and_join() {
    let mut s = server_with_room("test");
    s.register_client(A);
    let actions = join(&mut s, A, "test");
    match &actions[0] {
        Action::Send { to, msg: ServerWire::Joined { client_id, room_id } } => {
            assert_eq!(*to, A);
            assert_eq!(*client_id, A);
            assert_eq!(room_id, "test");
        }
        _ => panic!("expected Joined"),
    }
    match &actions[1] {
        Action::Relay { room_id, recipients, msg: ServerWire::PlayerJoined { client_id } } => {
            assert_eq!(room_id, "test");
            assert!(recipients.is_empty());
            assert_eq!(*client_id, A);
        }
        _ => panic!("expected PlayerJoined relay"),
    }
    assert_eq!(actions.len(), 2);
    assert_eq!(s.get_client_room(A), Some("test".to_string()));
    assert_eq!(s.room_client_count("test"), Some(1));
}

#[test]
fn join_nonexistent_room() {
    let mut s = server_with_room("test");
    s.register_client(A);
    match s.process_message(A, ClientWire::JoinRoom { room_id: "nonexistent".to_string() }) {
        Step::Done(actions) => match &actions[..] {
            [Action::Send { to, msg: ServerWire::Error(text) }] => {
                assert_eq!(*to, A);
                assert!(text.contains("room not found"));
                assert_eq!(text, "room not found: nonexistent");
            }
            _ => panic!("expected one error message"),
        },
        _ => panic!("expected an error message"),
    }
    assert_eq!(s.get_client_room(A), None);
}

#[test]
fn join_rejected_by_hook() {
    let mut s = server_with_room("test");
    s.register_client(A);
    let actions = s.join_room(A, "test", false);
    match &actions[..] {
        [Action::Send { to, msg: ServerWire::Error(text) }] => {
            assert_eq!(*to, A);
            assert_eq!(text, "join rejected");
        }
        _ => panic!("expected a rejection"),
    }
    assert_eq!(s.room_client_count("test"), Some(0));
    assert_eq!(s.get_client_room(A), None);
}

#[test]
fn unknown_client_is_ignored() {
    let mut s = server_with_room("test");
    assert!(join(&mut s, A, "test").is_empty());
    assert_eq!(s.room_client_count("test"), Some(0));
}

#[test]
fn broadcast_relay() {
    let mut s = server_with_room("test");
    s.register_client(A);
    s.register_client(B);
    join(&mut s, A, "test");
    let joined = join(&mut s, B, "test");
    match &joined[1] {
        Action::Relay { recipients, msg: ServerWire::PlayerJoined { client_id }, .. } => {
            assert_eq!(set(recipients), set(&[A]));
            assert_eq!(*client_id, B);
        }
        _ => panic!("expected PlayerJoined relay to A"),
    }
    let actions = match s.process_message(B, ClientWire::Broadcast { data: b"hello".to_vec() }) {
        Step::Done(a) => a,
        _ => panic!("broadcast failed"),
    };
    assert_eq!(actions.len(), 2);
    match &actions[0] {
        Action::Relay { room_id, recipients, msg: ServerWire::Broadcast { sender_id, data } } => {
            assert_eq!(room_id, "test");
            // The sender does not receive its own broadcast.
            assert_eq!(set(recipients), set(&[A]));
            assert_eq!(*sender_id, B);
            assert_eq!(data, b"hello");
        }
        _ => panic!("expected a relay"),
    }
    match &actions[1] {
        Action::Relayed { client_id, room_id, data } => {
            assert_eq!(*client_id, B);
            assert_eq!(room_id, "test");
            assert_eq!(data, b"hello");
        }
        _ => panic!("expected the broadcast hook"),
    }
}

#[test]
fn broadcast_isolation() {
    let mut s = server_with_room("room_a");
    s.pre_create_room("room_b").unwrap();
    s.register_client(A);
    s.register_client(B);
    s.register_client(C);
    join(&mut s, A, "room_a");
    join(&mut s, C, "room_a");
    join(&mut s, B, "room_b");
    let actions = s.broadcast(A, b"from_a".to_vec());
    match &actions[0] {
        Action::Relay { room_id, recipients, .. } => {
            assert_eq!(room_id, "room_a");
            assert!(!recipients.contains(&B), "different rooms should not see each other's broadcasts");
            assert_eq!(set(recipients), set(&[C]));
        }
        _ => panic!("expected a relay"),
    }
}

#[test]
fn broadcast_outside_a_room() {
    let mut s = server_with_room("test");
    s.register_client(A);
    match &s.broadcast(A, vec![1, 2, 3])[..] {
        [Action::Send { to, msg: ServerWire::Error(text) }] => {
            assert_eq!(*to, A);
            assert_eq!(text, "not in a room");
        }
        _ => panic!("expected an error message"),
    }
}

#[test]
fn broadcast_after_room_deleted_is_answered() {
    let mut s = server_with_room("test");
    s.register_client(A);
    s.register_client(B);
    join(&mut s, A, "test");
    join(&mut s, B, "test");
    assert!(s.delete_room("test"));
    // Soft delete: the clients stay connected and still name the room.
    assert_eq!(s.get_client_room(A), Some("test".to_string()));
    // The next broadcast fails with an error message; nothing is relayed and
    // the connection goes on.
    let mut waiting = false;
    match s.connection_step(A, &mut waiting, ConnectionEvent::Frame(ClientWire::Broadcast { data: vec![1] })) {
        LoopStep::Continue(actions) => match &actions[..] {
            [Action::Send { to, msg: ServerWire::Error(text) }] => {
                assert_eq!(*to, A);
                assert_eq!(text, "room not found: test");
            }
            _ => panic!("expected only an error message"),
        },
        _ => panic!("the connection should go on"),
    }
    assert!(s.is_connected(A));
}

#[test]
fn leave_room() {
    let mut s = server_with_room("test");
    s.register_client(A);
    s.register_client(B);
    join(&mut s, A, "test");
    join(&mut s, B, "test");
    let actions = match s.process_message(B, ClientWire::LeaveRoom) {
        Step::Done(a) => a,
        _ => panic!("leave failed"),
    };
    assert_eq!(actions.len(), 2);
    match &actions[0] {
        Action::Relay { recipients, msg: ServerWire::PlayerLeft { client_id }, .. } => {
            assert_eq!(set(recipients), set(&[A]));
            assert_eq!(*client_id, B);
        }
        _ => panic!("expected PlayerLeft"),
    }
    match &actions[1] {
        Action::Left { client_id, room_id } => {
            assert_eq!(*client_id, B);
            assert_eq!(room_id, "test");
        }
        _ => panic!("expected the leave hook"),
    }
    assert_eq!(s.get_client_room(B), None);
    assert_eq!(s.get_room_clients("test").map(|v| set(&v)), Some(set(&[A])));
    // Leaving again does nothing.
    assert!(s.leave_room(B).is_empty());
}

#[test]
fn client_disconnect_cleanup() {
    let mut s = server_with_room("test");
    s.register_client(A);
    s.register_client(B);
    join(&mut s, A, "test");
    join(&mut s, B, "test");
    let actions = s.disconnect_client(B);
    match &actions[0] {
        Action::Relay { recipients, msg: ServerWire::PlayerLeft { client_id }, .. } => {
            assert_eq!(set(recipients), set(&[A]));
            assert_eq!(*client_id, B);
        }
        _ => panic!("expected PlayerLeft after disconnect"),
    }
    assert!(matches!(&actions[1], Action::Left { client_id, .. } if *client_id == B));
    assert!(!s.is_connected(B));
    assert_eq!(s.room_client_count("test"), Some(1));
    assert!(s.disconnect_client(B).is_empty());
}

#[test]
fn rejoin_moves_between_rooms() {
    let mut s = server_with_room("lobby");
    s.pre_create_room("match-1").unwrap();
    s.register_client(A);
    s.register_client(B);
    join(&mut s, B, "lobby");
    join(&mut s, A, "lobby");
    let actions = join(&mut s, A, "match-1");
    // Leave the lobby first, then join the match.
    assert_eq!(actions.len(), 4);
    assert!(matches!(&actions[0], Action::Relay { msg: ServerWire::PlayerLeft { .. }, .. }));
    assert!(matches!(&actions[1], Action::Left { room_id, .. } if room_id == "lobby"));
    assert!(matches!(&actions[2], Action::Send { msg: ServerWire::Joined { .. }, .. }));
    assert!(matches!(&actions[3], Action::Relay { msg: ServerWire::PlayerJoined { .. }, .. }));
    assert_eq!(s.room_client_count("lobby"), Some(1));
    assert_eq!(s.room_client_count("match-1"), Some(1));
    assert_eq!(s.get_client_room(A), Some("match-1".to_string()));
}

#[test]
fn create_duplicate_room() {
    let mut s: Server<u8, u8> = ServerBuilder::new().bind("127.0.0.1:0".to_string()).build();
    s.pre_create_room("dup").unwrap();
    match s.pre_create_room("dup") {
        Err(SyncError::RoomAlreadyExists(id)) => assert_eq!(id, "dup"),
        _ => panic!("expected RoomAlreadyExists"),
    }
}

#[test]
fn runtime_room_management() {
    let mut s: Server<u8, u8> = Server::<u8, u8>::builder().build();
    s.pre_create_room("lobby").unwrap();
    assert!(s.room_exists("lobby"));
    assert_eq!(s.room_count(), 1);
    s.create_room("match-1").unwrap();
    assert!(s.room_exists("match-1"));
    assert_eq!(s.room_count(), 2);
    assert!(matches!(s.create_room("match-1"), Err(SyncError::RoomAlreadyExists(_))));
    let mut ids = s.get_room_ids();
    ids.sort();
    assert_eq!(ids, vec!["lobby".to_string(), "match-1".to_string()]);
    s.register_client(A);
    match s.process_message(A, ClientWire::JoinRoom { room_id: "match-1".to_string() }) {
        Step::ConsultJoin { room_id } => {
            assert_eq!(room_id, "match-1");
            s.join_room(A, &room_id, true);
        }
        _ => panic!("expected the join hook to be consulted"),
    }
    assert_eq!(s.room_client_count("match-1"), Some(1));
    assert!(s.delete_room("match-1"));
    assert!(!s.room_exists("match-1"));
    assert_eq!(s.room_count(), 1);
    assert!(!s.delete_room("nonexistent"));
    assert!(!s.pre_delete_room("nonexistent"));
    assert_eq!(s.room_client_count("nonexistent"), None);
    assert_eq!(s.get_room_clients("nonexistent"), None);
}

type AnyMeta = Box<dyn Any + Send + Sync>;

#[derive(Clone, Debug, PartialEq)]
struct RoomMeta {
    mode: String,
    max_players: u32,
}

#[derive(Clone, Debug, PartialEq)]
struct ClientMeta {
    username: String,
}

#[test]
fn room_metadata_typed() {
    let mut s: Server<AnyMeta, AnyMeta> = ServerBuilder::new().build();
    s.pre_create_room("test").unwrap();
    assert!(!s.room_has_meta("test"));
    let meta = RoomMeta { mode: "deathmatch".into(), max_players: 8 };
    assert!(s.set_room_meta("test", Box::new(meta.clone())));
    assert!(s.room_has_meta("test"));
    let mode = s.with_room_meta("test", |m: &AnyMeta| m.downcast_ref::<RoomMeta>().map(|m| m.mode.clone()));
    assert_eq!(mode, Some(Some("deathmatch".to_string())));
    let max = s.with_room_meta("test", |m: &AnyMeta| m.downcast_ref::<RoomMeta>().map(|m| m.max_players));
    assert_eq!(max, Some(Some(8)));
    // A read at the wrong type finds nothing.
    let wrong = s.with_room_meta("test", |m: &AnyMeta| m.downcast_ref::<u64>().copied());
    assert_eq!(wrong, Some(None));
    let taken = s.take_room_meta("test").and_then(|b| b.downcast::<RoomMeta>().ok()).map(|b| *b);
    assert_eq!(taken, Some(meta));
    assert!(!s.room_has_meta("test"));
    assert!(s.with_room_meta("test", |m: &AnyMeta| m.is::<RoomMeta>()).is_none());
    assert!(!s.set_room_meta("nope", Box::new(RoomMeta { mode: "x".into(), max_players: 1 })));
    assert!(!s.room_has_meta("nope"));
}

#[test]
fn client_metadata_typed() {
    let mut s: Server<AnyMeta, AnyMeta> = ServerBuilder::new().build();
    s.pre_create_room("test").unwrap();
    let a = s.connect_client().expect("a free id");
    let joined = match s.process_message(a, ClientWire::JoinRoom { room_id: "test".to_string() }) {
        Step::ConsultJoin { room_id } => s.join_room(a, &room_id, true),
        Step::Done(_) => panic!("expected the join hook to be consulted"),
    };
    // The client learns its id from the join confirmation.
    let id = match &joined[0] {
        Action::Send { msg: ServerWire::Joined { client_id, .. }, .. } => *client_id,
        _ => panic!("expected Joined"),
    };
    assert_eq!(id, a);
    assert!(s.set_client_meta(id, Box::new(ClientMeta { username: "alice".into() })));
    assert!(s.client_has_meta(id));
    let name = s.with_client_meta(id, |m: &AnyMeta| m.downcast_ref::<ClientMeta>().map(|m| m.username.clone()));
    assert_eq!(name, Some(Some("alice".to_string())));
    // Metadata goes with the connection.
    s.disconnect_client(id);
    assert!(!s.client_has_meta(id));
    assert!(!s.set_client_meta(id, Box::new(ClientMeta { username: "bob".into() })));
}

#[test]
fn client_metadata_replaced_and_taken() {
    let mut s = server_with_room("test");
    s.register_client(A);
    assert!(s.set_client_meta(A, "one".to_string()));
    assert!(s.set_client_meta(A, "two".to_string()));
    assert_eq!(s.with_client_meta(A, |m: &String| m.len()), Some(3));
    assert_eq!(s.take_client_meta(A), Some("two".to_string()));
    assert!(!s.client_has_meta(A));
    assert_eq!(s.take_client_meta(A), None);
    s.set_client_meta(A, "three".to_string());
    // A fresh record for the same id starts without metadata.
    s.register_client(A);
    assert!(!s.client_has_meta(A));
}

#[test]
fn backpressure_fires_on_slow_client() {
    let mut s = server_with_room("test");
    s.register_client(A);
    s.register_client(B);
    s.register_client(C);
    join(&mut s, A, "test");
    join(&mut s, B, "test");
    join(&mut s, C, "test");
    let actions = s.broadcast(A, b"msg-0".to_vec());
    let relay = &actions[0];
    let recipients = match relay {
        Action::Relay { recipients, .. } => recipients.clone(),
        _ => panic!("expected a relay"),
    };
    assert_eq!(set(&recipients), set(&[B, C]));
    // B's queue is full, C's is not.
    let delivered: Vec<bool> = recipients.iter().map(|id| *id != B).collect();
    let reports = s.backpressure_reports(relay, &delivered);
    assert_eq!(reports, vec![(B, "test".to_string())]);
    assert!(reports.iter().all(|(_, room)| room == "test"));
    // Everyone got it: nobody is reported.
    assert!(s.backpressure_reports(relay, &vec![true; recipients.len()]).is_empty());
    // A dropped direct send is reported with the client's room.
    let send = Action::Send { to: A, msg: ServerWire::Pong };
    assert_eq!(s.backpressure_reports(&send, &vec![false]), vec![(A, "test".to_string())]);
    assert!(s.backpressure_reports(&send, &vec![true]).is_empty());
    // ...but not for a client in no room.
    s.leave_room(A);
    assert!(s.backpressure_reports(&send, &vec![false]).is_empty());
    let hook = Action::Left { client_id: A, room_id: "test".to_string() };
    assert!(s.backpressure_reports(&hook, &vec![]).is_empty());
}

#[test]
fn ping_is_answered_with_pong() {
    let mut s = server_with_room("test");
    s.register_client(A);
    match s.process_message(A, ClientWire::Ping) {
        Step::Done(a) => assert!(matches!(&a[..], [Action::Send { to, msg: ServerWire::Pong }] if *to == A)),
        _ => panic!("expected a Pong"),
    }
}

#[test]
fn unanswered_ping_times_out() {
    let mut s = server_with_room("test");
    s.register_client(A);
    let mut waiting = false;
    match s.connection_step(A, &mut waiting, ConnectionEvent::PingTick) {
        LoopStep::Continue(a) => assert!(matches!(&a[..], [Action::Send { to, msg: ServerWire::Ping }] if *to == A)),
        _ => panic!("expected a Ping"),
    }
    assert!(waiting);
    assert!(matches!(
        s.connection_step(A, &mut waiting, ConnectionEvent::PingTick),
        LoopStep::Stop(Err(SyncError::PingTimeout))
    ));
}

#[test]
fn ping_timeout_disconnects() {
    // A client that answers every ping survives the ping cycles and can still
    // broadcast.
    let mut s = server_with_room("test");
    s.register_client(A);
    join(&mut s, A, "test");
    let mut waiting = false;
    for _ in 0..2 {
        assert!(matches!(s.connection_step(A, &mut waiting, ConnectionEvent::PingTick), LoopStep::Continue(_)));
        assert!(matches!(
            s.connection_step(A, &mut waiting, ConnectionEvent::Frame(ClientWire::Pong)),
            LoopStep::Continue(_)
        ));
    }
    assert!(matches!(
        s.connection_step(A, &mut waiting, ConnectionEvent::Frame(ClientWire::Broadcast { data: b"still alive".to_vec() })),
        LoopStep::Continue(_)
    ));
    assert!(s.is_connected(A));
}

#[test]
fn ping_pong_internal() {
    let mut s = server_with_room("test");
    s.register_client(A);
    let mut waiting = false;
    for _ in 0..3 {
        assert!(matches!(s.connection_step(A, &mut waiting, ConnectionEvent::PingTick), LoopStep::Continue(_)));
        assert!(waiting);
        assert!(matches!(
            s.connection_step(A, &mut waiting, ConnectionEvent::Frame(ClientWire::Pong)),
            LoopStep::Continue(ref a) if a.is_empty()
        ));
        assert!(!waiting);
    }
}

#[test]
fn idle_timeout_disconnects() {
    let mut s = server_with_room("test");
    let mut waiting = false;
    assert!(matches!(
        s.connection_step(A, &mut waiting, ConnectionEvent::IdleTimeout),
        LoopStep::Stop(Err(SyncError::IdleTimeout))
    ));
}

#[test]
fn connection_ends_on_read_failures() {
    let mut s = server_with_room("test");
    let mut waiting = false;
    let eof = std::io::Error::new(std::io::ErrorKind::UnexpectedEof, "eof");
    assert!(matches!(
        s.connection_step(A, &mut waiting, ConnectionEvent::ReadFailed(ReadFailure::Io(eof))),
        LoopStep::Stop(Ok(()))
    ));
    let reset = std::io::Error::new(std::io::ErrorKind::ConnectionReset, "reset");
    assert!(matches!(
        s.connection_step(A, &mut waiting, ConnectionEvent::ReadFailed(ReadFailure::Io(reset))),
        LoopStep::Stop(Err(SyncError::Io(_)))
    ));
    assert!(matches!(
        s.connection_step(
            A,
            &mut waiting,
            ConnectionEvent::ReadFailed(ReadFailure::PayloadTooLarge { size: 2000, max: 1024 })
        ),
        LoopStep::Stop(Err(SyncError::PayloadTooLarge { size: 2000, max: 1024 }))
    ));
    match s.connection_step(A, &mut waiting, ConnectionEvent::Undecodable("bad tag".to_string())) {
        LoopStep::Stop(Err(SyncError::Protocol(why))) => assert_eq!(why, "bad tag"),
        _ => panic!("expected a protocol error"),
    }
    assert!(matches!(
        s.connection_step(A, &mut waiting, ConnectionEvent::Shutdown),
        LoopStep::Stop(Err(SyncError::ConnectionClosed))
    ));
}

#[test]
fn join_through_the_connection_loop() {
    let mut s = server_with_room("test");
    s.register_client(A);
    let mut waiting = false;
    match s.connection_step(A, &mut waiting, ConnectionEvent::Frame(ClientWire::JoinRoom { room_id: "test".to_string() })) {
        LoopStep::ConsultJoin { room_id } => assert_eq!(room_id, "test"),
        _ => panic!("expected the join hook to be consulted"),
    }
}

#[test]
fn on_connect_reject() {
    let mut s: Server<u8, u8> = ServerBuilder::new().max_clients(2).build();
    assert_eq!(s.admit_connection(false), Admission::RejectedByHandler);
    assert_eq!(s.get_client_count(), 0);
    assert_eq!(s.admit_connection(true), Admission::Accepted);
    assert_eq!(s.admit_connection(true), Admission::Accepted);
    assert_eq!(s.admit_connection(true), Admission::ServerFull);
    assert_eq!(s.get_client_count(), 2);
    s.release_connection();
    assert_eq!(s.get_client_count(), 1);
    assert_eq!(s.admit_connection(true), Admission::Accepted);
    s.release_connection();
    s.release_connection();
    s.release_connection();
    assert_eq!(s.get_client_count(), 0);
}

#[test]
fn connect_client_gets_a_fresh_record() {
    let mut s = server_with_room("test");
    let a = s.connect_client().expect("a free id");
    let b = s.connect_client().expect("a free id");
    assert_ne!(a, b);
    assert!(s.is_connected(a));
    assert!(s.is_connected(b));
    assert_eq!(s.get_client_room(a), None);
    assert_eq!(uuid::Uuid::from_u128(a).get_version_num(), 4);
    assert_eq!(uuid::Uuid::from_u128(b).get_variant(), uuid::Variant::RFC4122);
}

#[test]
fn builder_sets_configuration() {
    let b = ServerBuilder::default()
        .bind("127.0.0.1:9000".to_string())
        .max_clients(3)
        .max_payload(2048)
        .idle_timeout(std::time::Duration::from_secs(5))
        .ping_interval(std::time::Duration::from_secs(2))
        .channel_capacity(16);
    let s: Server<u8, u8> = b.build();
    let c = s.config();
    assert_eq!(c.bind_addr, "127.0.0.1:9000");
    assert_eq!(c.max_clients, 3);
    assert_eq!(c.max_payload, 2048);
    assert_eq!(c.idle_timeout, std::time::Duration::from_secs(5));
    assert_eq!(c.ping_interval, std::time::Duration::from_secs(2));
    assert_eq!(c.channel_capacity, 16);
    assert_eq!(s.room_count(), 0);
}

#[test]
fn empty_rooms_are_not_deleted() {
    let mut s = server_with_room("test");
    s.register_client(A);
    join(&mut s, A, "test");
    s.leave_room(A);
    assert!(s.room_exists("test"));
    assert_eq!(s.room_client_count("test"), Some(0));
    join(&mut s, A, "test");
    s.disconnect_client(A);
    assert!(s.room_exists("test"));
    assert_eq!(s.room_client_count("test"), Some(0));
}
