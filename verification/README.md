# peerjs_server

A PeerJS signalling server whose core is verified with Verus.

## Layout

- `src/` — the verified library.
  - `room/` — peers (`client`), signalling messages (`message`), the
    per-destination message queues (`message_queue`), the room that holds
    them (`mod.rs`) and the routing of messages between peers
    (`messagehandler`).
  - `services/` — the periodic housekeeping: expiry of queued messages
    (`messages_expire`) and the removal of peers that stopped pinging
    (`check_connections`).
  - `wshandler.rs` — the decisions taken for a WebSocket connection: query
    check, admission of a peer, handling of each received frame, release of
    the connection.
  - `server.rs` — the HTTP-side decisions: peer listing, log filter,
    connection-upgrade header fix, failure page.
  - `config.rs`, `text.rs`, `calendar.rs` — the configuration with its
    defaults and migration, the text of the configuration file (string
    values are written by the `toml` crate), and the UTC time stamp used to
    name the backup of a migrated file.
  - `laws.rs` — properties that relate several operations.
  - `assoc.rs` — lemmas on association lists, the representation of the
    room's maps.
  - `clock.rs` — the system clock, behind trusted wrappers.
- `tests/` — tests of the library on concrete values.
- `app/` — the executable: command line, configuration file I/O, HTTP
  routes, WebSocket transport and timers, all delegating their decisions to
  the library.

## Peers are values

The room keeps one record per peer, and every change to a peer (a new
connection, a new ping time) goes through the room. A `Client` taken out of
the room, or cloned, is a snapshot: it names the same connection handle, but
later changes made through one copy are not seen through another. Peers are
not shared, mutable objects.
