//! Rules of a WebSocket signaling server for game lobbies.
//!
//! Every decision the server takes is a verified function on plain values:
//! who may connect, which messages are well formed, who may join a lobby, what
//! each message changes and whom it reaches. Sockets, clocks, files and the
//! JSON codec stay with the caller.

pub mod address_laws;
pub mod community_nodes;
pub mod config;
pub mod connection_guard;
pub mod delivery;
pub mod frame_laws;
pub mod guard_laws;
pub mod host_laws;
pub mod ip;
pub mod limit_laws;
pub mod limits;
pub mod json;
pub mod laws;
pub mod limiter;
pub mod lobby;
pub mod lobby_laws;
pub mod moderation;
pub mod node_address;
pub mod node_laws;
pub mod node_list_laws;
pub mod node_spelling;
pub mod node_submission;
pub mod number;
pub mod number_laws;
pub mod password_failures;
pub mod protocol;
pub mod registration;
pub mod registration_laws;
pub mod security;
pub mod service_laws;
pub mod session;
pub mod shape_laws;
pub mod state;
pub mod table;
pub mod text;
pub mod text_laws;
pub mod validation;
