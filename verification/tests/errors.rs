use ghost_sync::error::{decimal_string, is_graceful_close};
use ghost_sync::{is_graceful_io_error, IoErrorKind, Room, RoomManager, ServerConfig, SyncError};
use std::io::{Error, ErrorKind};

#[test]
fn graceful_io_errors() {
    for kind in [ErrorKind::UnexpectedEof, ErrorKind::ConnectionReset, ErrorKind::ConnectionAborted, ErrorKind::BrokenPipe] {
        assert!(is_graceful_io_error(&Error::new(kind, "x")));
    }
    assert!(!is_graceful_io_error(&Error::new(ErrorKind::TimedOut, "x")));
    assert!(!is_graceful_io_error(&Error::new(ErrorKind::ConnectionRefused, "x")));
    assert!(is_graceful_io_error(&Error::from_raw_os_error(10054)));
    assert!(is_graceful_io_error(&Error::from_raw_os_error(10053)));
    assert!(is_graceful_io_error(&Error::from_raw_os_error(10058)));
}

#[test]
fn windows_codes_count_for_any_other_kind() {
    assert!(is_graceful_close(IoErrorKind::Other, Some(10054)));
    assert!(is_graceful_close(IoErrorKind::Other, Some(10058)));
    assert!(!is_graceful_close(IoErrorKind::Other, Some(10055)));
    assert!(!is_graceful_close(IoErrorKind::Other, None));
    assert!(!is_graceful_close(IoErrorKind::ConnectionRefused, None));
    assert!(is_graceful_close(IoErrorKind::BrokenPipe, None));
}

#[test]
fn connection_closed_errors() {
    assert!(SyncError::ConnectionClosed.is_connection_closed());
    assert!(SyncError::Io(Error::new(ErrorKind::BrokenPipe, "x")).is_connection_closed());
    assert!(!SyncError::Io(Error::new(ErrorKind::TimedOut, "x")).is_connection_closed());
    assert!(!SyncError::IdleTimeout.is_connection_closed());
    assert!(!SyncError::PingTimeout.is_connection_closed());
    assert!(!SyncError::RoomNotFound.is_connection_closed());
}

#[test]
fn from_io_error() {
    let e: SyncError = Error::new(ErrorKind::Other, "boom").into();
    assert!(matches!(e, SyncError::Io(_)));
}

#[test]
fn messages() {
    assert_eq!(SyncError::PayloadTooLarge { size: 2048, max: 1024 }.message(), "payload too large: 2048 bytes (max 1024)");
    assert_eq!(SyncError::IdleTimeout.message(), "client idle timeout");
    assert_eq!(SyncError::PingTimeout.message(), "no pong received before next ping tick");
    assert_eq!(SyncError::RoomNotFound.message(), "room not found");
    assert_eq!(SyncError::RoomAlreadyExists("dup".to_string()).message(), "room already exists: dup");
    assert_eq!(SyncError::NotInRoom.message(), "client not in a room");
    assert_eq!(SyncError::MaxClientsReached.message(), "max clients reached");
    assert_eq!(SyncError::ConnectionClosed.message(), "connection closed");
    assert_eq!(SyncError::ConnectionRefused.message(), "connection refused \u{2014} is the server running?");
    assert_eq!(SyncError::Protocol("bad".to_string()).message(), "protocol error: bad");
    assert_eq!(SyncError::Io(Error::new(ErrorKind::Other, "boom")).message(), "io error: boom");
}

#[test]
fn decimal_digits() {
    assert_eq!(decimal_string(0), "0");
    assert_eq!(decimal_string(7), "7");
    assert_eq!(decimal_string(10), "10");
    assert_eq!(decimal_string(65536), "65536");
    assert_eq!(decimal_string(usize::MAX), usize::MAX.to_string());
}

#[test]
fn default_config() {
    let c = ServerConfig::default();
    assert_eq!(c.bind_addr, "0.0.0.0:7777");
    assert_eq!(c.max_clients, 1024);
    assert_eq!(c.max_payload, 64 * 1024);
    assert_eq!(c.idle_timeout, std::time::Duration::from_secs(31));
    assert_eq!(c.ping_interval, std::time::Duration::from_secs(13));
    assert_eq!(c.channel_capacity, 64);
    let d = c.clone();
    assert_eq!(d.bind_addr, c.bind_addr);
    assert_eq!(d.idle_timeout, c.idle_timeout);
}

#[test]
fn rooms_directly() {
    let mut r: Room<u8> = Room::new();
    assert!(r.is_empty());
    r.insert(1);
    r.insert(2);
    r.insert(2);
    assert_eq!(r.len(), 2);
    assert!(r.contains(2));
    let mut rec = r.recipients(1);
    rec.sort();
    assert_eq!(rec, vec![2]);
    assert!(r.remove(2));
    assert!(!r.remove(2));
    r.set_meta(5);
    assert!(r.has_meta());
    assert_eq!(r.get_meta(|m: &u8| *m + 1), Some(6));
    assert_eq!(r.take_meta(), Some(5));
    assert!(!r.has_meta());
    let mut m: RoomManager<u8> = RoomManager::new();
    assert!(m.create("a").is_ok());
    assert!(m.add_client("a", 9));
    assert!(!m.add_client("b", 9));
    assert_eq!(m.get("a").map(|room| room.len()), Some(1));
    m.remove_client("a", 9);
    assert_eq!(m.get("a").map(|room| room.len()), Some(0));
    assert_eq!(m.len(), 1);
    assert!(m.delete("a"));
    assert!(!m.delete("a"));
    assert_eq!(m.len(), 0);
}
