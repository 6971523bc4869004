//! The server's fixed limits.
use vstd::prelude::*;

verus! {

/// Longest time a client may hold a connection during the handshake.
pub const WEBSOCKET_HANDSHAKE_TIMEOUT_SECS: u64 = 10;

/// Deadline for the first registration message.
pub const REGISTRATION_TIMEOUT_SECS: u64 = 15;

/// Longest wait for one send.
pub const SEND_TIMEOUT_SECS: u64 = 5;

/// Registered connections that stay silent this long are dropped.
pub const REGISTERED_IDLE_TIMEOUT_SECS: u64 = 60;

/// Largest WebSocket message.
pub const MAX_MESSAGE_SIZE: usize = 512 * 1024;

/// Largest WebSocket frame.
pub const MAX_FRAME_SIZE: usize = 256 * 1024;

/// Connections that are accepted at once unless configured otherwise.
pub const DEFAULT_MAX_CONNECTIONS: usize = 1024;

pub const MAX_LOBBY_MEMBERS: usize = 64;

pub const MAX_CLIENT_ID_LEN: usize = 128;

pub const MAX_PLAYER_NAME_LEN: usize = 128;

pub const MAX_LOBBY_NAME_LEN: usize = 128;

pub const MAX_LOBBY_PASSWORD_LEN: usize = 256;

pub const MAX_VIRTUAL_DOMAIN_LEN: usize = 253;

pub const MAX_CLIENT_VERSION_LEN: usize = 32;

pub const SIGNALING_PROTOCOL_VERSION: u32 = 3;

pub const CHALLENGE_BYTES: usize = 32;

pub const CHAT_TOKEN_BYTES: usize = 32;

pub const LOBBY_PASSWORD_SALT_BYTES: usize = 16;

pub const MAX_IDENTITY_PUBLIC_KEY_LEN: usize = 512;

pub const MAX_IDENTITY_SIGNATURE_LEN: usize = 256;

/// Largest identity key in DER.
pub const MAX_IDENTITY_KEY_DER_LEN: usize = 200;

pub const MAX_CHAT_PUBLIC_KEY_LEN: usize = 512;

pub const MAX_SDP_LEN: usize = 128 * 1024;

pub const MAX_ICE_CANDIDATE_LEN: usize = 16 * 1024;

pub const MAX_CONTROL_TEXT_LEN: usize = 8 * 1024;

pub const MAX_REMOTE_SESSION_ID_LEN: usize = 128;

pub const MAX_SHARE_ID_LEN: usize = 128;

pub const MAX_SHARE_NAME_LEN: usize = 256;

pub const MAX_ERROR_TEXT_LEN: usize = 512;

/// Messages that one connection may send in a window.
pub const MAX_MESSAGES_PER_WINDOW: u32 = 120;

pub const MESSAGE_RATE_WINDOW_SECS: u64 = 10;

/// Frames and bytes that one connection is sent in a window.
pub const MAX_OUTBOUND_FRAMES_PER_WINDOW: u32 = 64;

pub const MAX_OUTBOUND_BYTES_PER_WINDOW: usize = 1024 * 1024;

pub const OUTBOUND_BUDGET_WINDOW_SECS: u64 = 1;

/// Node submissions of one source in a window.
pub const COMMUNITY_NODE_SUBMIT_MAX_PER_WINDOW: u32 = 8;

pub const COMMUNITY_NODE_SUBMIT_WINDOW_SECS: u64 = 10 * 60;

pub const MAX_TRACKED_IP_SUBMITTERS: usize = 8192;

/// Pause between two submissions of one source.
pub const COMMUNITY_NODE_SUBMIT_COOLDOWN_SECS: u64 = 30;

/// A node that was not reached for longer than this is removed.
pub const COMMUNITY_NODE_MAX_OFFLINE_SECS: u64 = 24 * 60 * 60;

/// Time between two sweeps over the shared nodes.
pub const COMMUNITY_NODE_PROBE_INTERVAL_SECS: u64 = 5 * 60;

/// Time limit of one probe.
pub const COMMUNITY_NODE_PROBE_TIMEOUT_SECS: u64 = 3;

/// Time limit of the wait for a probe slot.
pub const COMMUNITY_NODE_PROBE_QUEUE_TIMEOUT_SECS: u64 = 1;

/// Probes that run at once.
pub const COMMUNITY_NODE_PROBE_CONCURRENCY: usize = 16;

/// Addresses that are probed for one host name.
pub const COMMUNITY_NODE_PROBE_MAX_TARGETS: usize = 4;

pub const DEFAULT_COMMUNITY_NODE_CAPACITY: usize = 200;

pub const COMMUNITY_NODE_NAME_MAX_LEN: usize = 32;

pub const COMMUNITY_NODE_ADDRESS_MAX_LEN: usize = 128;

pub const COMMUNITY_NODE_SUBMITTER_MAX_LEN: usize = 24;

/// Wrong passwords for one lobby from one source until it is locked out.
pub const MAX_REGISTER_PASSWORD_FAILURES: usize = 5;

pub const REGISTER_PASSWORD_FAILURE_WINDOW_SECS: u64 = 300;

/// Keys that the table of wrong passwords holds at most.
pub const MAX_REGISTER_PASSWORD_KEYS: usize = 4096;

/// Handshakes that may be pending at once.
pub const MAX_PENDING_HANDSHAKES: usize = 128;

/// Handshakes that one source may have pending.
pub const DEFAULT_PENDING_SOURCE_LIMIT: usize = 16;

pub const NANOS_PER_SEC: u64 = 1_000_000_000;

} // verus!
