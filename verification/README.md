# MCTier signaling server

A WebSocket signaling server for small groups of players. Clients prove an
identity, enter a lobby with its name and password, and exchange WebRTC offers,
screen and file sharing notices and remote control requests with the other
members. The server also keeps a list of network nodes that its users share.

The decisions are a library that Verus verifies; a thin program around it does
the input and output.

## Layout

- `src/` — the verified library.
  - `session.rs` — what each frame of a connection leads to, as a list of actions
  - `registration.rs`, `security.rs`, `validation.rs` — what a client has to show
  - `lobby.rs`, `moderation.rs`, `state.rs` — lobbies, members and hosts
  - `password_failures.rs`, `limiter.rs`, `connection_guard.rs` — limits on
    passwords, messages and connections
  - `delivery.rs`, `json.rs` — to whom a message goes, and in which form
  - `node_address.rs`, `node_spelling.rs`, `community_nodes.rs`,
    `node_submission.rs` — shared nodes
  - `protocol.rs`, `config.rs`, `limits.rs` — messages, settings and constants
  - `text.rs`, `number.rs`, `ip.rs`, `table.rs` — texts, numbers, addresses, maps
  - `laws.rs` — what holds of the library as a whole
- `app/` — the program: sockets, timeouts, the file of nodes, and JSON.
- `tests/` — tests of the library.

## Running

The program listens on `BIND_ADDRESS` (`0.0.0.0:8445` unless set). Further
settings: `MINIMUM_CLIENT_VERSION`, `CLIENT_DOWNLOAD_URL`, `MAX_CONNECTIONS`,
`MAX_CONNECTIONS_PER_SOURCE`, `TRUSTED_PROXIES`, `COMMUNITY_NODES_FILE`,
`COMMUNITY_NODE_CAPACITY`, `COMMUNITY_NODE_ALLOW_PRIVATE_TARGETS`.

## What is trusted

Random numbers, SHA-256, base64, P-256, JSON objects and the lower case of a text
come from other crates and from std. Each such call stands in a function of its
own whose doc comment says what is claimed of it: see `security.rs`, `json.rs`
and `text.rs`.
