# ghost_sync

A room-based relay for real-time multiplayer messaging. Clients connect over
TCP, join rooms that the server has created, and broadcast bytes to the other
members of their room. Frames are a 4-byte big-endian length followed by a
`wincode`-encoded message.

## Layout

- `src/` — the verified library (Verus):
  - `protocol.rs`: the length field of a frame, its payload limit, and the
    round trip between writer and reader;
  - `storage.rs`, `room.rs`: metadata, rooms and the room registry. A room's
    members are a `dashmap::DashSet` behind trusted wrappers. The registry of
    rooms is a vector of (id, room) slots with unique ids rather than a
    `DashMap<String, Room<M>>`: its values are generic in the metadata type,
    and an uninterpreted function naming such a map's contents would have to
    be generic too, which this project's trusted items never are; so the
    registry is written and proved directly;
  - `server.rs`: the server's state and every decision it takes — admitting a
    connection, recording a client under an id no other client holds,
    processing a client message, joining and leaving rooms, relaying
    broadcasts, liveness (ping, pong, idle timeout), disconnect
    cleanup, client metadata, and whom the backpressure hook hears about —
    each returning the actions to carry out;
  - `client.rs`: the client's requests and how it treats server messages;
  - `error.rs`, `types.rs`: errors, wire messages, configuration;
  - `laws.rs`: properties across operations (rooms and client records agree,
    broadcasts stay in their room, admission respects `max_clients`, …).
- `app/` — the Tokio runtime around it: sockets, timers, write queues,
  `wincode` serialization, the `ServerHandler` hooks, and the error type with
  `Debug`, `Display` and `std::error::Error`, whose text comes from the
  library.
- `tests/` — tests of the library.
