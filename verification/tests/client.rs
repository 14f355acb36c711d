use ghost_sync::client::{
    broadcast_request, classify, connect_error, join_request, learned_client_id, read_failure, wire_to_event, Incoming,
};
use ghost_sync::{ClientBuilder, ClientWire, ServerEvent, ServerWire, SyncError};

#[test]
fn client_builder_defaults_and_setter() {
    assert_eq!(ClientBuilder::new().max_payload, 256 * 1024);
    assert_eq!(ClientBuilder::default().max_payload, 256 * 1024);
    assert_eq!(ClientBuilder::new().max_payload(1024).max_payload, 1024);
}

#[test]
fn requests() {
    assert_eq!(join_request("lobby"), ClientWire::JoinRoom { room_id: "lobby".to_string() });
    assert_eq!(broadcast_request(b"hello"), ClientWire::Broadcast { data: b"hello".to_vec() });
}

#[test]
fn events_carry_the_message() {
    assert_eq!(
        wire_to_event(ServerWire::Joined { client_id: 7, room_id: "test".to_string() }),
        ServerEvent::Joined { client_id: 7, room_id: "test".to_string() }
    );
    assert_eq!(wire_to_event(ServerWire::PlayerJoined { client_id: 3 }), ServerEvent::PlayerJoined { client_id: 3 });
    assert_eq!(wire_to_event(ServerWire::PlayerLeft { client_id: 3 }), ServerEvent::PlayerLeft { client_id: 3 });
    assert_eq!(wire_to_event(ServerWire::Error("x".to_string())), ServerEvent::Error("x".to_string()));
    assert_eq!(
        wire_to_event(ServerWire::Broadcast { sender_id: 9, data: vec![1, 2] }),
        ServerEvent::Broadcast { sender_id: 9, data: vec![1, 2] }
    );
}

#[test]
fn keepalive_never_reaches_the_user() {
    assert!(matches!(classify(ServerWire::Ping), Incoming::AnswerPing));
    assert!(matches!(classify(ServerWire::Pong), Incoming::Skip));
    match classify(ServerWire::Error("room not found: x".to_string())) {
        Incoming::Deliver(ServerEvent::Error(m)) => assert_eq!(m, "room not found: x"),
        _ => panic!("expected an event"),
    }
}

#[test]
fn closed_connection_ends_the_stream() {
    assert!(matches!(read_failure(SyncError::ConnectionClosed), Ok(None)));
    let eof = std::io::Error::new(std::io::ErrorKind::UnexpectedEof, "eof");
    assert!(matches!(read_failure(SyncError::Io(eof)), Ok(None)));
    assert!(matches!(read_failure(SyncError::IdleTimeout), Err(SyncError::IdleTimeout)));
    assert!(matches!(
        read_failure(SyncError::PayloadTooLarge { size: 10, max: 1 }),
        Err(SyncError::PayloadTooLarge { size: 10, max: 1 })
    ));
}

#[test]
fn refused_connect_is_named() {
    let refused = std::io::Error::new(std::io::ErrorKind::ConnectionRefused, "refused");
    assert!(matches!(connect_error(refused), SyncError::ConnectionRefused));
    let other = std::io::Error::new(std::io::ErrorKind::TimedOut, "slow");
    assert!(matches!(connect_error(other), SyncError::Io(_)));
}

#[test]
fn client_learns_its_id_from_joined() {
    let joined = ServerEvent::Joined { client_id: 42, room_id: "test".to_string() };
    assert_eq!(learned_client_id(None, &joined), Some(42));
    assert_eq!(learned_client_id(Some(7), &joined), Some(42));
    assert_eq!(learned_client_id(Some(7), &ServerEvent::PlayerJoined { client_id: 9 }), Some(7));
    assert_eq!(learned_client_id(None, &ServerEvent::Error("x".to_string())), None);
}
