//! Settings, each from the value of its environment variable.
use vstd::prelude::*;
use crate::limits::{
    DEFAULT_COMMUNITY_NODE_CAPACITY, DEFAULT_MAX_CONNECTIONS, MAX_CLIENT_VERSION_LEN,
    MAX_FRAME_SIZE, MAX_MESSAGE_SIZE,
};
use crate::number;
use crate::text;

verus! {

/// The limits that the WebSocket layer enforces.
#[derive(Clone, Copy, Debug, PartialEq, Eq, Structural)]
pub struct WebSocketLimits {
    pub max_message_size: Option<usize>,
    pub max_frame_size: Option<usize>,
}

pub fn websocket_config() -> (r: WebSocketLimits)
    ensures
        r.max_message_size == Some(MAX_MESSAGE_SIZE),
        r.max_frame_size == Some(MAX_FRAME_SIZE),
{
    WebSocketLimits {
        max_message_size: Some(MAX_MESSAGE_SIZE),
        max_frame_size: Some(MAX_FRAME_SIZE),
    }
}

// ---------------------------------------------------------------------------
// Numbers
// ---------------------------------------------------------------------------
/// A positive number that a setting writes, with white space around it or not.
pub open spec fn positive_setting(value: Option<&str>) -> Option<nat> {
    match value {
        Some(raw) => match number::unsigned_up_to(text::trimmed(raw@), usize::MAX as nat) {
            Some(n) => if n > 0 {
                Some(n)
            } else {
                None
            },
            None => None,
        },
        None => None,
    }
}

fn read_positive(value: Option<&str>) -> (r: Option<usize>)
    ensures
        match r {
            Some(n) => positive_setting(value) == Some(n as nat),
            None => positive_setting(value) is None,
        },
{
    match value {
        Some(raw) => {
            let trimmed = text::trim_chars(text::chars_of(raw).as_slice());
            match number::parse_usize(trimmed.as_slice()) {
                Some(n) => if n > 0 {
                    Some(n)
                } else {
                    None
                },
                None => None,
            }
        },
        None => None,
    }
}

fn read_positive_or(value: Option<&str>, default: usize) -> (r: usize)
    ensures
        r == match positive_setting(value) {
            Some(n) => n,
            None => default as nat,
        },
{
    match read_positive(value) {
        Some(n) => n,
        None => default,
    }
}

/// `MAX_CONNECTIONS`: connections that are accepted at once.
pub fn connection_limit_from_env(value: Option<&str>) -> (r: usize)
    ensures
        r == match positive_setting(value) {
            Some(n) => n,
            None => DEFAULT_MAX_CONNECTIONS as nat,
        },
{
    read_positive_or(value, DEFAULT_MAX_CONNECTIONS)
}

/// `MAX_CONNECTIONS_PER_SOURCE`: connections of one source, unlimited unless set.
pub fn source_limit_from_env(value: Option<&str>) -> (r: Option<usize>)
    ensures
        match r {
            Some(n) => positive_setting(value) == Some(n as nat),
            None => positive_setting(value) is None,
        },
{
    read_positive(value)
}

/// `COMMUNITY_NODE_CAPACITY`: nodes that the shared list holds.
pub fn community_node_capacity(value: Option<&str>) -> (r: usize)
    ensures
        r == match positive_setting(value) {
            Some(n) => n,
            None => DEFAULT_COMMUNITY_NODE_CAPACITY as nat,
        },
{
    read_positive_or(value, DEFAULT_COMMUNITY_NODE_CAPACITY)
}

// ---------------------------------------------------------------------------
// Texts
// ---------------------------------------------------------------------------
/// A setting without the white space around it; the default where it is unset
/// or blank.
pub open spec fn setting_or(value: Option<&str>, default: Seq<char>) -> Seq<char> {
    match value {
        Some(raw) => if text::trimmed(raw@).len() > 0 {
            text::trimmed(raw@)
        } else {
            default
        },
        None => default,
    }
}

pub fn env_or(value: Option<&str>, default: &str) -> (r: String)
    ensures
        r@ == setting_or(value, default@),
{
    match value {
        Some(raw) => {
            let chars = text::trim_chars(text::chars_of(raw).as_slice());
            if chars.len() > 0 {
                text::text_of(chars.as_slice())
            } else {
                default.to_owned()
            }
        },
        None => default.to_owned(),
    }
}

/// `BIND_ADDRESS`: where the server listens.
pub fn bind_address(value: Option<&str>) -> (r: String)
    ensures
        r@ == setting_or(value, "0.0.0.0:8445"@),
{
    env_or(value, "0.0.0.0:8445")
}

/// `CLIENT_DOWNLOAD_URL`: where clients that are too old are sent.
pub fn client_download_url(value: Option<&str>) -> (r: String)
    ensures
        r@ == setting_or(value, "https://mctier.pmhs.top"@),
{
    env_or(value, "https://mctier.pmhs.top")
}

/// `MINIMUM_CLIENT_VERSION`: the oldest version that may register.
pub fn minimum_client_version(value: Option<&str>) -> (r: String)
    ensures
        r@ == setting_or(value, "3.0.0"@),
{
    env_or(value, "3.0.0")
}

/// `COMMUNITY_NODES_FILE`: where the shared nodes are kept.
pub fn community_nodes_file(value: Option<&str>) -> (r: String)
    ensures
        r@ == setting_or(value, "community_nodes.json"@),
{
    env_or(value, "community_nodes.json")
}

/// The texts that switch a setting on, whatever their case.
pub open spec fn is_switched_on(setting: Seq<char>) -> bool {
    let lower = text::lowercase(setting);
    lower == "1"@ || lower == "true"@ || lower == "yes"@ || lower == "on"@
}

/// `COMMUNITY_NODE_ALLOW_PRIVATE_TARGETS`: whether private addresses may be
/// probed. Off unless the deployment asks for it.
pub fn probe_allows_private_targets(value: Option<&str>) -> (r: bool)
    ensures
        r == is_switched_on(setting_or(value, "false"@)),
{
    let setting = env_or(value, "false");
    switched_on(text::to_lower(setting.as_str()).as_str())
}

/// Decides whether a setting in lower case switches something on.
pub fn switched_on(lower: &str) -> (r: bool)
    ensures
        r == (lower@ == "1"@ || lower@ == "true"@ || lower@ == "yes"@ || lower@ == "on"@),
{
    text::same_text(lower, "1") || text::same_text(lower, "true") || text::same_text(lower, "yes")
        || text::same_text(lower, "on")
}

// ---------------------------------------------------------------------------
// Client versions
// ---------------------------------------------------------------------------
/// The three numbers of a version such as `3.0.1`.
pub open spec fn version_of(s: Seq<char>) -> Option<(nat, nat, nat)> {
    let parts = text::split_text(s, '.');
    if s.len() == 0 || text::utf8_len(s) > MAX_CLIENT_VERSION_LEN || parts.len() != 3 {
        None
    } else {
        match (
            number::unsigned_up_to(parts[0], u32::MAX as nat),
            number::unsigned_up_to(parts[1], u32::MAX as nat),
            number::unsigned_up_to(parts[2], u32::MAX as nat),
        ) {
            (Some(major), Some(minor), Some(patch)) => Some((major, minor, patch)),
            _ => None,
        }
    }
}

/// One version is not older than another.
pub open spec fn version_at_least(a: (nat, nat, nat), b: (nat, nat, nat)) -> bool {
    a.0 > b.0 || (a.0 == b.0 && (a.1 > b.1 || (a.1 == b.1 && a.2 >= b.2)))
}

/// Both texts are versions, and the first is not older than the second.
pub open spec fn version_accepted(version: Seq<char>, minimum: Seq<char>) -> bool {
    match (version_of(version), version_of(minimum)) {
        (Some(a), Some(b)) => version_at_least(a, b),
        _ => false,
    }
}

fn parse_version(s: &str) -> (r: Option<(u64, u64, u64)>)
    ensures
        match r {
            Some((a, b, c)) => version_of(s@) == Some((a as nat, b as nat, c as nat)),
            None => version_of(s@) is None,
        },
{
    let chars = text::chars_of(s);
    if chars.len() == 0 || text::byte_len(s) > MAX_CLIENT_VERSION_LEN {
        return None;
    }
    let parts = text::split_chars(chars.as_slice(), '.');
    let ghost pieces = text::split_text(s@, '.');
    assert(parts@.len() == pieces.len());
    assert(forall|i: int| 0 <= i < pieces.len() ==> pieces[i] == parts@[i]@);
    if parts.len() != 3 {
        return None;
    }
    match (
        number::parse_unsigned(parts[0].as_slice(), u32::MAX as u64),
        number::parse_unsigned(parts[1].as_slice(), u32::MAX as u64),
        number::parse_unsigned(parts[2].as_slice(), u32::MAX as u64),
    ) {
        (Some(a), Some(b), Some(c)) => Some((a, b, c)),
        _ => None,
    }
}

/// Decides whether a client version is accepted: it must be a complete version,
/// and not older than the minimum.
pub fn is_version_valid(version: &str, minimum_version: &str) -> (r: bool)
    ensures
        r == version_accepted(version@, minimum_version@),
{
    match (parse_version(version), parse_version(minimum_version)) {
        (Some(a), Some(b)) => {
            a.0 > b.0 || (a.0 == b.0 && (a.1 > b.1 || (a.1 == b.1 && a.2 >= b.2)))
        },
        _ => false,
    }
}

/// Every version accepts itself as the minimum, and raising the minimum never
/// lets an older version in.
pub proof fn version_gate_is_monotonic(version: Seq<char>, low: Seq<char>, high: Seq<char>)
    requires
        version_accepted(version, high),
        version_accepted(high, low),
    ensures
        version_accepted(version, low),
        version_accepted(version, version),
{
}

} // verus!
