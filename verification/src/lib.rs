//! A room-based relay for real-time multiplayer messaging: the verified core.
//!
//! Clients join rooms; what one member broadcasts reaches every other member
//! of the same room. This crate holds the decisions of the relay (room
//! registry, message processing, connection liveness, admission, framing)
//! with their contracts; sockets, timers and channels are driven around it.

pub mod client;
pub mod error;
pub mod handler;
pub mod laws;
pub mod protocol;
pub mod room;
pub mod server;
pub mod storage;
pub mod types;

pub use client::ClientBuilder;
pub use error::{is_graceful_io_error, IoErrorKind, SyncError};
pub use handler::NoopHandler;
pub use room::{Room, RoomManager};
pub use server::{Action, Admission, ConnectionEvent, LoopStep, Server, ServerBuilder, Step};
pub use storage::Storage;
pub use types::{ClientWire, ServerConfig, ServerEvent, ServerWire};
