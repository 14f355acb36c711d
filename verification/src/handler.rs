//! The default handler: accepts every connection and join, ignores every event.
//!
//! The handler hooks themselves are called by the code that runs the server,
//! which answers [`crate::server::Server::admit_connection`] and
//! [`crate::server::Server::join_room`] with the hooks' decisions.

use vstd::prelude::*;

verus! {

/// Default no-op handler. Accepts all connections, ignores all events.
#[derive(Clone, Copy, Debug, Default)]
pub struct NoopHandler;

} // verus!
