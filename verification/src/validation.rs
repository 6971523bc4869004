//! Bounds on the payload of messages. The WebSocket limits protect the parser;
//! these bounds protect whatever is behind it.
use vstd::prelude::*;
use vstd::string::*;
use crate::ip;
use crate::ip::Ipv4Addr;
use crate::limits::{
    CHALLENGE_BYTES, COMMUNITY_NODE_ADDRESS_MAX_LEN, COMMUNITY_NODE_NAME_MAX_LEN,
    COMMUNITY_NODE_SUBMITTER_MAX_LEN, MAX_CHAT_PUBLIC_KEY_LEN, MAX_CLIENT_ID_LEN,
    MAX_CLIENT_VERSION_LEN, MAX_CONTROL_TEXT_LEN, MAX_ERROR_TEXT_LEN, MAX_ICE_CANDIDATE_LEN,
    MAX_IDENTITY_PUBLIC_KEY_LEN, MAX_IDENTITY_SIGNATURE_LEN, MAX_LOBBY_NAME_LEN,
    MAX_LOBBY_PASSWORD_LEN, MAX_PLAYER_NAME_LEN, MAX_REMOTE_SESSION_ID_LEN, MAX_SDP_LEN,
    MAX_SHARE_ID_LEN, MAX_SHARE_NAME_LEN, MAX_VIRTUAL_DOMAIN_LEN,
};
use crate::number;
use crate::protocol::{AnswerData, CandidateData, FileShareInfo, OfferData, SignalingMessage};
use crate::text;

verus! {

// ---------------------------------------------------------------------------
// Texts
// ---------------------------------------------------------------------------
/// At most `max` bytes, no control character and, unless `allow_empty`, more
/// than white space.
pub open spec fn text_ok(s: Seq<char>, max: nat, allow_empty: bool) -> bool {
    &&& allow_empty || text::trimmed(s).len() > 0
    &&& text::utf8_len(s) <= max
    &&& !text::has_control(s)
}

pub open spec fn id_ok(s: Seq<char>) -> bool {
    text_ok(s, MAX_CLIENT_ID_LEN as nat, false)
}

/// As `text_ok`, under the bound that holds for every control text.
pub open spec fn control_ok(s: Seq<char>, max: nat, allow_empty: bool) -> bool {
    text_ok(
        s,
        if max <= MAX_CONTROL_TEXT_LEN {
            max
        } else {
            MAX_CONTROL_TEXT_LEN as nat
        },
        allow_empty,
    )
}

/// Absent, or a control text that may be empty.
pub open spec fn optional_ok(o: Option<String>, max: nat) -> bool {
    o matches Some(s) ==> control_ok(s@, max, true)
}

pub fn valid_text(value: &str, max_len: usize, allow_empty: bool) -> (r: bool)
    ensures
        r == text_ok(value@, max_len as nat, allow_empty),
{
    (allow_empty || text::trim_chars(text::chars_of(value).as_slice()).len() > 0)
        && text::byte_len(value) <= max_len && !text::contains_control(value)
}

pub fn valid_identifier(value: &str) -> (r: bool)
    ensures
        r == id_ok(value@),
{
    valid_text(value, MAX_CLIENT_ID_LEN, false)
}

pub fn valid_control_text(value: &str, max_len: usize, allow_empty: bool) -> (r: bool)
    ensures
        r == control_ok(value@, max_len as nat, allow_empty),
{
    let bound: usize = if max_len <= MAX_CONTROL_TEXT_LEN {
        max_len
    } else {
        MAX_CONTROL_TEXT_LEN
    };
    valid_text(value, bound, allow_empty)
}

pub fn valid_session_id(value: &str) -> (r: bool)
    ensures
        r == text_ok(value@, MAX_REMOTE_SESSION_ID_LEN as nat, false),
{
    valid_text(value, MAX_REMOTE_SESSION_ID_LEN, false)
}

pub fn valid_share_id(value: &str) -> (r: bool)
    ensures
        r == text_ok(value@, MAX_SHARE_ID_LEN as nat, false),
{
    valid_text(value, MAX_SHARE_ID_LEN, false)
}

fn valid_optional(value: &Option<String>, max_len: usize) -> (r: bool)
    ensures
        r == optional_ok(*value, max_len as nat),
{
    match value {
        Some(s) => valid_control_text(s.as_str(), max_len, true),
        None => true,
    }
}

/// The address in 10.126.126.1 to 10.126.126.254 that a text writes.
pub open spec fn virtual_ip_of(s: Seq<char>) -> Option<Ipv4Addr> {
    match ip::v4_of(text::trimmed(s)) {
        Some(ip) => if ip.a == 10 && ip.b == 126 && ip.c == 126 && ip.d != 0 && ip.d != 255 {
            Some(ip)
        } else {
            None
        },
        None => None,
    }
}

/// Reads a virtual address, which lies in 10.126.126.1 to 10.126.126.254.
pub fn parse_virtual_ipv4(raw: Option<&str>) -> (r: Option<Ipv4Addr>)
    ensures
        match raw {
            Some(s) => r == virtual_ip_of(s@),
            None => r is None,
        },
{
    match raw {
        Some(s) => {
            let trimmed = text::trim_chars(text::chars_of(s).as_slice());
            match ip::parse_v4(trimmed.as_slice()) {
                Some(ip) => if ip.a == 10 && ip.b == 126 && ip.c == 126 && ip.d != 0 && ip.d != 255 {
                    Some(ip)
                } else {
                    None
                },
                None => None,
            }
        },
        None => None,
    }
}

// ---------------------------------------------------------------------------
// WebRTC payloads
// ---------------------------------------------------------------------------
/// A control character other than those that end a line.
pub open spec fn is_stray_control(c: char) -> bool {
    text::is_control_char(c) && c != '\r' && c != '\n'
}

/// A session description of the expected kind: not empty, bounded, and with no
/// control characters but line ends.
pub open spec fn description_ok(
    sdp_type: Seq<char>,
    sdp: Seq<char>,
    expected_type: Seq<char>,
) -> bool {
    &&& sdp_type == expected_type
    &&& text::utf8_len(sdp) <= MAX_SDP_LEN
    &&& sdp.len() > 0
    &&& forall|i: int| 0 <= i < sdp.len() ==> !is_stray_control(#[trigger] sdp[i])
}

pub fn valid_session_description(sdp_type: &str, sdp: &str, expected_type: &str) -> (r: bool)
    ensures
        r == description_ok(sdp_type@, sdp@, expected_type@),
{
    if !text::same_text(sdp_type, expected_type) || text::byte_len(sdp) > MAX_SDP_LEN {
        return false;
    }
    let chars = text::chars_of(sdp);
    if chars.len() == 0 {
        return false;
    }
    let mut i: usize = 0;
    while i < chars.len()
        invariant
            i <= chars@.len(),
            chars@ == sdp@,
            forall|k: int| 0 <= k < i ==> !is_stray_control(#[trigger] sdp@[k]),
        decreases chars@.len() - i,
    {
        let c = chars[i];
        if text::is_control(c) && c != '\r' && c != '\n' {
            assert(is_stray_control(sdp@[i as int]));
            return false;
        }
        i = i + 1;
    }
    true
}

pub fn valid_offer_data(data: &OfferData, expected_type: &str) -> (r: bool)
    ensures
        r == description_ok(data.sdp_type@, data.sdp@, expected_type@),
{
    valid_session_description(data.sdp_type.as_str(), data.sdp.as_str(), expected_type)
}

pub fn valid_answer_data(data: &AnswerData, expected_type: &str) -> (r: bool)
    ensures
        r == description_ok(data.sdp_type@, data.sdp@, expected_type@),
{
    valid_session_description(data.sdp_type.as_str(), data.sdp.as_str(), expected_type)
}

pub open spec fn candidate_ok(data: CandidateData) -> bool {
    &&& data.candidate@.len() > 0
    &&& text::utf8_len(data.candidate@) <= MAX_ICE_CANDIDATE_LEN
    &&& !text::has_control(data.candidate@)
    &&& data.sdp_m_line_index matches Some(index) ==> index <= 256
    &&& optional_ok(data.sdp_mid, 128)
}

pub fn valid_candidate_data(data: &CandidateData) -> (r: bool)
    ensures
        r == candidate_ok(*data),
{
    let index_ok = match data.sdp_m_line_index {
        Some(index) => index <= 256,
        None => true,
    };
    data.candidate.as_str().unicode_len() > 0 && text::byte_len(data.candidate.as_str())
        <= MAX_ICE_CANDIDATE_LEN && !text::contains_control(data.candidate.as_str()) && index_ok
        && valid_optional(&data.sdp_mid, 128)
}

// ---------------------------------------------------------------------------
// Messages
// ---------------------------------------------------------------------------
pub open spec fn pair_ok(from: String, to: String) -> bool {
    id_ok(from@) && id_ok(to@)
}

pub open spec fn name_ok(name: String) -> bool {
    control_ok(name@, MAX_PLAYER_NAME_LEN as nat, false)
}

pub open spec fn share_ok(share_id: String) -> bool {
    text_ok(share_id@, MAX_SHARE_ID_LEN as nat, false)
}

pub open spec fn session_ok(session_id: String) -> bool {
    text_ok(session_id@, MAX_REMOTE_SESSION_ID_LEN as nat, false)
}

pub open spec fn sequence_ok(n: Option<u64>) -> bool {
    n matches Some(n) ==> n <= 1_000_000_000
}

/// A challenge as the server writes it.
pub open spec fn challenge_ok(challenge: Seq<char>) -> bool {
    challenge.len() == 2 * CHALLENGE_BYTES && number::is_lower_hex(challenge)
}

pub open spec fn file_share_ok(share: FileShareInfo) -> bool {
    &&& share_ok(share.share_id)
    &&& control_ok(share.share_name@, MAX_SHARE_NAME_LEN as nat, false)
    &&& name_ok(share.player_name)
}

/// The fields that every form of registration bounds.
pub open spec fn registration_ok(
    player_name: String,
    virtual_domain: Option<String>,
    lobby_name: String,
    lobby_password: String,
    client_version: Option<String>,
) -> bool {
    &&& name_ok(player_name)
    &&& optional_ok(virtual_domain, MAX_VIRTUAL_DOMAIN_LEN as nat)
    &&& control_ok(lobby_name@, MAX_LOBBY_NAME_LEN as nat, false)
    &&& control_ok(lobby_password@, MAX_LOBBY_PASSWORD_LEN as nat, true)
    &&& optional_ok(client_version, MAX_CLIENT_VERSION_LEN as nat)
}

/// The payload of a message is within bounds.
pub open spec fn message_ok(message: SignalingMessage) -> bool {
    match message {
        SignalingMessage::ServerChallenge { challenge, .. } => challenge_ok(challenge@),
        SignalingMessage::RegisterV3 {
            identity_public_key,
            challenge_signature,
            player_name,
            virtual_ip,
            virtual_domain,
            lobby_name,
            lobby_password,
            client_version,
            ..
        } => {
            &&& text::utf8_len(identity_public_key@) <= MAX_IDENTITY_PUBLIC_KEY_LEN
            &&& text::utf8_len(challenge_signature@) <= MAX_IDENTITY_SIGNATURE_LEN
            &&& virtual_ip matches Some(ip) && control_ok(ip@, 32, false)
            &&& registration_ok(
                player_name,
                virtual_domain,
                lobby_name,
                lobby_password,
                client_version,
            )
        },
        SignalingMessage::Register {
            client_id,
            player_name,
            virtual_ip,
            virtual_domain,
            lobby_name,
            lobby_password,
            client_version,
            chat_public_key,
            ..
        } => {
            &&& id_ok(client_id@)
            &&& virtual_ip matches Some(ip) ==> control_ok(ip@, 32, false)
            &&& registration_ok(
                player_name,
                virtual_domain,
                lobby_name,
                lobby_password,
                client_version,
            )
            &&& optional_ok(chat_public_key, MAX_CHAT_PUBLIC_KEY_LEN as nat)
        },
        SignalingMessage::Offer { from, to, offer, .. } => pair_ok(from, to) && description_ok(
            offer.sdp_type@,
            offer.sdp@,
            "offer"@,
        ),
        SignalingMessage::Answer { from, to, answer } => pair_ok(from, to) && description_ok(
            answer.sdp_type@,
            answer.sdp@,
            "answer"@,
        ),
        SignalingMessage::VoiceReconnect { from, to } => pair_ok(from, to) && from@ != to@,
        SignalingMessage::IceCandidate { from, to, candidate } => pair_ok(from, to)
            && candidate_ok(candidate),
        SignalingMessage::ChatMessage { from, player_id, player_name, content, .. } => {
            &&& pair_ok(from, player_id)
            &&& name_ok(player_name)
            &&& control_ok(content@, MAX_CONTROL_TEXT_LEN as nat, false)
        },
        SignalingMessage::StatusUpdate { client_id, .. } => id_ok(client_id@),
        SignalingMessage::ScreenShareStart { from, share_id, player_name, .. } => {
            &&& id_ok(from@)
            &&& share_ok(share_id)
            &&& name_ok(player_name)
        },
        SignalingMessage::ScreenShareStop { from, share_id } => id_ok(from@) && share_ok(share_id),
        SignalingMessage::ScreenShareViewerLeft { from, share_id } => id_ok(from@) && share_ok(
            share_id,
        ),
        SignalingMessage::ScreenShareRelay {
            from,
            to,
            share_id,
            action,
            player_name,
            password,
            upstream_id,
            downstream_id,
            sequence,
            source_sequence,
            sent_sequence,
            reason,
            ..
        } => {
            &&& pair_ok(from, to)
            &&& share_ok(share_id)
            &&& control_ok(action@, 32, false)
            &&& optional_ok(player_name, MAX_PLAYER_NAME_LEN as nat)
            &&& optional_ok(password, MAX_CONTROL_TEXT_LEN as nat)
            &&& optional_ok(upstream_id, MAX_CLIENT_ID_LEN as nat)
            &&& optional_ok(downstream_id, MAX_CLIENT_ID_LEN as nat)
            &&& optional_ok(reason, 256)
            &&& sequence_ok(sequence)
            &&& sequence_ok(source_sequence)
            &&& sequence_ok(sent_sequence)
        },
        SignalingMessage::ScreenShareOffer {
            from,
            to,
            share_id,
            player_name,
            password,
            offer,
            ..
        } => {
            &&& pair_ok(from, to)
            &&& share_ok(share_id)
            &&& optional_ok(player_name, MAX_PLAYER_NAME_LEN as nat)
            &&& optional_ok(password, MAX_CONTROL_TEXT_LEN as nat)
            &&& description_ok(offer.sdp_type@, offer.sdp@, "offer"@)
        },
        SignalingMessage::ScreenShareAnswer { from, to, share_id, answer, .. } => {
            &&& pair_ok(from, to)
            &&& share_ok(share_id)
            &&& description_ok(answer.sdp_type@, answer.sdp@, "answer"@)
        },
        SignalingMessage::ScreenShareIceCandidate {
            from,
            to,
            share_id,
            candidate,
            connection_role,
            ..
        } => {
            &&& pair_ok(from, to)
            &&& share_ok(share_id)
            &&& optional_ok(connection_role, 32)
            &&& candidate_ok(candidate)
        },
        SignalingMessage::ScreenShareError { from, to, share_id, error } => {
            &&& pair_ok(from, to)
            &&& share_ok(share_id)
            &&& control_ok(error@, MAX_ERROR_TEXT_LEN as nat, false)
        },
        SignalingMessage::ScreenShareListRequest { from } => id_ok(from@),
        SignalingMessage::FileShareListRequest { from } => id_ok(from@),
        SignalingMessage::ScreenShareListResponse { from, to, share_id, player_name, .. } => {
            &&& pair_ok(from, to)
            &&& share_ok(share_id)
            &&& name_ok(player_name)
        },
        SignalingMessage::ScreenShareUpdate { from, share_id, viewer_id, viewer_name, .. } => {
            &&& id_ok(from@)
            &&& share_ok(share_id)
            &&& optional_ok(viewer_id, MAX_CLIENT_ID_LEN as nat)
            &&& optional_ok(viewer_name, MAX_PLAYER_NAME_LEN as nat)
        },
        SignalingMessage::FileShareAdded { from, share_id, share_name, player_name, .. } => {
            &&& id_ok(from@)
            &&& share_ok(share_id)
            &&& control_ok(share_name@, MAX_SHARE_NAME_LEN as nat, false)
            &&& name_ok(player_name)
        },
        SignalingMessage::FileShareRemoved { from, share_id } => id_ok(from@) && share_ok(share_id),
        SignalingMessage::FileShareListResponse { from, to, shares } => {
            &&& pair_ok(from, to)
            &&& shares@.len() <= 256
            &&& forall|i: int| 0 <= i < shares@.len() ==> file_share_ok(#[trigger] shares@[i])
        },
        SignalingMessage::ShareUpdated { from, share_id, share_name, player_name, .. } => {
            &&& id_ok(from@)
            &&& share_ok(share_id)
            &&& optional_ok(share_name, MAX_SHARE_NAME_LEN as nat)
            &&& optional_ok(player_name, MAX_PLAYER_NAME_LEN as nat)
        },
        SignalingMessage::RemoteControlRequest { from, to, session_id, from_name } => {
            &&& pair_ok(from, to)
            &&& session_ok(session_id)
            &&& control_ok(from_name@, 64, false)
        },
        SignalingMessage::RemoteControlAccept { from, to, session_id } => pair_ok(from, to)
            && session_ok(session_id),
        SignalingMessage::RemoteControlStop { from, to, session_id } => pair_ok(from, to)
            && session_ok(session_id),
        SignalingMessage::RemoteControlReject { from, to, session_id, reason } => {
            &&& pair_ok(from, to)
            &&& session_ok(session_id)
            &&& control_ok(reason@, MAX_ERROR_TEXT_LEN as nat, false)
        },
        SignalingMessage::RemoteControlOffer { from, to, session_id, offer } => {
            &&& pair_ok(from, to)
            &&& session_ok(session_id)
            &&& description_ok(offer.sdp_type@, offer.sdp@, "offer"@)
        },
        SignalingMessage::RemoteControlAnswer { from, to, session_id, answer } => {
            &&& pair_ok(from, to)
            &&& session_ok(session_id)
            &&& description_ok(answer.sdp_type@, answer.sdp@, "answer"@)
        },
        SignalingMessage::RemoteControlIce { from, to, session_id, candidate } => {
            &&& pair_ok(from, to)
            &&& session_ok(session_id)
            &&& candidate_ok(candidate)
        },
        SignalingMessage::Leave { client_id } => id_ok(client_id@),
        SignalingMessage::KickPlayer { from, target } => pair_ok(from, target),
        SignalingMessage::MutePlayer { from, target, .. } => pair_ok(from, target),
        SignalingMessage::TransferHost { from, target } => pair_ok(from, target),
        SignalingMessage::SetLobbyOptions { from, description, server_node, .. } => {
            &&& id_ok(from@)
            &&& optional_ok(description, MAX_CONTROL_TEXT_LEN as nat)
            &&& optional_ok(server_node, MAX_LOBBY_PASSWORD_LEN as nat)
        },
        SignalingMessage::CommunityNodeSubmit { name, address, submitter } => {
            &&& control_ok(name@, COMMUNITY_NODE_NAME_MAX_LEN as nat, false)
            &&& control_ok(address@, COMMUNITY_NODE_ADDRESS_MAX_LEN as nat, false)
            &&& optional_ok(submitter, COMMUNITY_NODE_SUBMITTER_MAX_LEN as nat)
        },
        _ => true,
    }
}

fn valid_pair(from: &String, to: &String) -> (r: bool)
    ensures
        r == pair_ok(*from, *to),
{
    valid_identifier(from.as_str()) && valid_identifier(to.as_str())
}

fn valid_name(name: &String) -> (r: bool)
    ensures
        r == name_ok(*name),
{
    valid_control_text(name.as_str(), MAX_PLAYER_NAME_LEN, false)
}

fn valid_sequence(n: Option<u64>) -> (r: bool)
    ensures
        r == sequence_ok(n),
{
    match n {
        Some(n) => n <= 1_000_000_000,
        None => true,
    }
}

fn valid_challenge(challenge: &str) -> (r: bool)
    ensures
        r == challenge_ok(challenge@),
{
    let chars = text::chars_of(challenge);
    if chars.len() != 2 * CHALLENGE_BYTES {
        return false;
    }
    let mut i: usize = 0;
    while i < chars.len()
        invariant
            i <= chars@.len(),
            chars@ == challenge@,
            forall|k: int| 0 <= k < i ==> number::is_lower_hex_char(#[trigger] challenge@[k]),
        decreases chars@.len() - i,
    {
        let c = chars[i];
        if !(number::is_digit(c) || ('a' <= c && c <= 'f')) {
            assert(!number::is_lower_hex_char(challenge@[i as int]));
            return false;
        }
        i = i + 1;
    }
    true
}

fn valid_registration(
    player_name: &String,
    virtual_domain: &Option<String>,
    lobby_name: &String,
    lobby_password: &String,
    client_version: &Option<String>,
) -> (r: bool)
    ensures
        r == registration_ok(
            *player_name,
            *virtual_domain,
            *lobby_name,
            *lobby_password,
            *client_version,
        ),
{
    valid_name(player_name) && valid_optional(virtual_domain, MAX_VIRTUAL_DOMAIN_LEN)
        && valid_control_text(lobby_name.as_str(), MAX_LOBBY_NAME_LEN, false)
        && valid_control_text(lobby_password.as_str(), MAX_LOBBY_PASSWORD_LEN, true)
        && valid_optional(client_version, MAX_CLIENT_VERSION_LEN)
}

fn valid_file_shares(shares: &Vec<FileShareInfo>) -> (r: bool)
    ensures
        r == (shares@.len() <= 256 && forall|i: int|
            0 <= i < shares@.len() ==> file_share_ok(#[trigger] shares@[i])),
{
    if shares.len() > 256 {
        return false;
    }
    let mut i: usize = 0;
    while i < shares.len()
        invariant
            i <= shares@.len(),
            forall|k: int| 0 <= k < i ==> file_share_ok(#[trigger] shares@[k]),
        decreases shares@.len() - i,
    {
        let share = &shares[i];
        if !(valid_share_id(share.share_id.as_str()) && valid_control_text(
            share.share_name.as_str(),
            MAX_SHARE_NAME_LEN,
            false,
        ) && valid_name(&share.player_name)) {
            assert(!file_share_ok(shares@[i as int]));
            return false;
        }
        i = i + 1;
    }
    true
}

/// Decides whether the payload of a message is within bounds. Messages are
/// checked before they are routed.
pub fn validate_message_shape(message: &SignalingMessage) -> (r: bool)
    ensures
        r == message_ok(*message),
{
    match message {
        SignalingMessage::ServerChallenge { challenge, .. } => valid_challenge(challenge.as_str()),
        SignalingMessage::RegisterV3 {
            identity_public_key,
            challenge_signature,
            player_name,
            virtual_ip,
            virtual_domain,
            lobby_name,
            lobby_password,
            client_version,
            ..
        } => {
            let ip_ok = match virtual_ip {
                Some(ip) => valid_control_text(ip.as_str(), 32, false),
                None => false,
            };
            text::byte_len(identity_public_key.as_str()) <= MAX_IDENTITY_PUBLIC_KEY_LEN
                && text::byte_len(challenge_signature.as_str()) <= MAX_IDENTITY_SIGNATURE_LEN
                && ip_ok && valid_registration(
                player_name,
                virtual_domain,
                lobby_name,
                lobby_password,
                client_version,
            )
        },
        SignalingMessage::Register {
            client_id,
            player_name,
            virtual_ip,
            virtual_domain,
            lobby_name,
            lobby_password,
            client_version,
            chat_public_key,
            ..
        } => {
            let ip_ok = match virtual_ip {
                Some(ip) => valid_control_text(ip.as_str(), 32, false),
                None => true,
            };
            valid_identifier(client_id.as_str()) && ip_ok && valid_registration(
                player_name,
                virtual_domain,
                lobby_name,
                lobby_password,
                client_version,
            ) && valid_optional(chat_public_key, MAX_CHAT_PUBLIC_KEY_LEN)
        },
        SignalingMessage::Offer { from, to, offer, .. } => valid_pair(from, to)
            && valid_offer_data(offer, "offer"),
        SignalingMessage::Answer { from, to, answer } => valid_pair(from, to) && valid_answer_data(
            answer,
            "answer",
        ),
        SignalingMessage::VoiceReconnect { from, to } => valid_pair(from, to) && !text::same_text(
            from.as_str(),
            to.as_str(),
        ),
        SignalingMessage::IceCandidate { from, to, candidate } => valid_pair(from, to)
            && valid_candidate_data(candidate),
        SignalingMessage::ChatMessage { from, player_id, player_name, content, .. } => valid_pair(
            from,
            player_id,
        ) && valid_name(player_name) && valid_control_text(
            content.as_str(),
            MAX_CONTROL_TEXT_LEN,
            false,
        ),
        SignalingMessage::StatusUpdate { client_id, .. } => valid_identifier(client_id.as_str()),
        SignalingMessage::ScreenShareStart { from, share_id, player_name, .. } => valid_identifier(
            from.as_str(),
        ) && valid_share_id(share_id.as_str()) && valid_name(player_name),
        SignalingMessage::ScreenShareStop { from, share_id } => valid_identifier(from.as_str())
            && valid_share_id(share_id.as_str()),
        SignalingMessage::ScreenShareViewerLeft { from, share_id } => valid_identifier(
            from.as_str(),
        ) && valid_share_id(share_id.as_str()),
        SignalingMessage::ScreenShareRelay {
            from,
            to,
            share_id,
            action,
            player_name,
            password,
            upstream_id,
            downstream_id,
            sequence,
            source_sequence,
            sent_sequence,
            reason,
            ..
        } => valid_pair(from, to) && valid_share_id(share_id.as_str()) && valid_control_text(
            action.as_str(),
            32,
            false,
        ) && valid_optional(player_name, MAX_PLAYER_NAME_LEN) && valid_optional(
            password,
            MAX_CONTROL_TEXT_LEN,
        ) && valid_optional(upstream_id, MAX_CLIENT_ID_LEN) && valid_optional(
            downstream_id,
            MAX_CLIENT_ID_LEN,
        ) && valid_optional(reason, 256) && valid_sequence(*sequence) && valid_sequence(
            *source_sequence,
        ) && valid_sequence(*sent_sequence),
        SignalingMessage::ScreenShareOffer {
            from,
            to,
            share_id,
            player_name,
            password,
            offer,
            ..
        } => valid_pair(from, to) && valid_share_id(share_id.as_str()) && valid_optional(
            player_name,
            MAX_PLAYER_NAME_LEN,
        ) && valid_optional(password, MAX_CONTROL_TEXT_LEN) && valid_offer_data(offer, "offer"),
        SignalingMessage::ScreenShareAnswer { from, to, share_id, answer, .. } => valid_pair(
            from,
            to,
        ) && valid_share_id(share_id.as_str()) && valid_answer_data(answer, "answer"),
        SignalingMessage::ScreenShareIceCandidate {
            from,
            to,
            share_id,
            candidate,
            connection_role,
            ..
        } => valid_pair(from, to) && valid_share_id(share_id.as_str()) && valid_optional(
            connection_role,
            32,
        ) && valid_candidate_data(candidate),
        SignalingMessage::ScreenShareError { from, to, share_id, error } => valid_pair(from, to)
            && valid_share_id(share_id.as_str()) && valid_control_text(
            error.as_str(),
            MAX_ERROR_TEXT_LEN,
            false,
        ),
        SignalingMessage::ScreenShareListRequest { from } => valid_identifier(from.as_str()),
        SignalingMessage::FileShareListRequest { from } => valid_identifier(from.as_str()),
        SignalingMessage::ScreenShareListResponse { from, to, share_id, player_name, .. } =>
        valid_pair(from, to) && valid_share_id(share_id.as_str()) && valid_name(player_name),
        SignalingMessage::ScreenShareUpdate { from, share_id, viewer_id, viewer_name, .. } =>
        valid_identifier(from.as_str()) && valid_share_id(share_id.as_str()) && valid_optional(
            viewer_id,
            MAX_CLIENT_ID_LEN,
        ) && valid_optional(viewer_name, MAX_PLAYER_NAME_LEN),
        SignalingMessage::FileShareAdded { from, share_id, share_name, player_name, .. } =>
        valid_identifier(from.as_str()) && valid_share_id(share_id.as_str()) && valid_control_text(
            share_name.as_str(),
            MAX_SHARE_NAME_LEN,
            false,
        ) && valid_name(player_name),
        SignalingMessage::FileShareRemoved { from, share_id } => valid_identifier(from.as_str())
            && valid_share_id(share_id.as_str()),
        SignalingMessage::FileShareListResponse { from, to, shares } => valid_pair(from, to)
            && valid_file_shares(shares),
        SignalingMessage::ShareUpdated { from, share_id, share_name, player_name, .. } =>
        valid_identifier(from.as_str()) && valid_share_id(share_id.as_str()) && valid_optional(
            share_name,
            MAX_SHARE_NAME_LEN,
        ) && valid_optional(player_name, MAX_PLAYER_NAME_LEN),
        SignalingMessage::RemoteControlRequest { from, to, session_id, from_name } => valid_pair(
            from,
            to,
        ) && valid_session_id(session_id.as_str()) && valid_control_text(
            from_name.as_str(),
            64,
            false,
        ),
        SignalingMessage::RemoteControlAccept { from, to, session_id } => valid_pair(from, to)
            && valid_session_id(session_id.as_str()),
        SignalingMessage::RemoteControlStop { from, to, session_id } => valid_pair(from, to)
            && valid_session_id(session_id.as_str()),
        SignalingMessage::RemoteControlReject { from, to, session_id, reason } => valid_pair(
            from,
            to,
        ) && valid_session_id(session_id.as_str()) && valid_control_text(
            reason.as_str(),
            MAX_ERROR_TEXT_LEN,
            false,
        ),
        SignalingMessage::RemoteControlOffer { from, to, session_id, offer } => valid_pair(from, to)
            && valid_session_id(session_id.as_str()) && valid_offer_data(offer, "offer"),
        SignalingMessage::RemoteControlAnswer { from, to, session_id, answer } => valid_pair(
            from,
            to,
        ) && valid_session_id(session_id.as_str()) && valid_answer_data(answer, "answer"),
        SignalingMessage::RemoteControlIce { from, to, session_id, candidate } => valid_pair(
            from,
            to,
        ) && valid_session_id(session_id.as_str()) && valid_candidate_data(candidate),
        SignalingMessage::Leave { client_id } => valid_identifier(client_id.as_str()),
        SignalingMessage::KickPlayer { from, target } => valid_pair(from, target),
        SignalingMessage::MutePlayer { from, target, .. } => valid_pair(from, target),
        SignalingMessage::TransferHost { from, target } => valid_pair(from, target),
        SignalingMessage::SetLobbyOptions { from, description, server_node, .. } =>
        valid_identifier(from.as_str()) && valid_optional(description, MAX_CONTROL_TEXT_LEN)
            && valid_optional(server_node, MAX_LOBBY_PASSWORD_LEN),
        SignalingMessage::CommunityNodeSubmit { name, address, submitter } => valid_control_text(
            name.as_str(),
            COMMUNITY_NODE_NAME_MAX_LEN,
            false,
        ) && valid_control_text(address.as_str(), COMMUNITY_NODE_ADDRESS_MAX_LEN, false)
            && valid_optional(submitter, COMMUNITY_NODE_SUBMITTER_MAX_LEN),
        _ => true,
    }
}

/// A lobby with a password is never public.
pub fn effective_public_setting(requested_public: bool, is_passwordless: bool) -> (r: bool)
    ensures
        r == (requested_public && is_passwordless),
{
    requested_public && is_passwordless
}

} // verus!
