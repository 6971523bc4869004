//! Which messages are within bounds, field by field.
use vstd::prelude::*;
use crate::number;
use crate::protocol::{AnswerData, CandidateData, OfferData, SignalingMessage};
use crate::text;
use crate::text_laws;
use crate::validation;

verus! {

/// A text of at most `max` bytes without control codes.
pub open spec fn fits(s: Seq<char>, max: nat) -> bool {
    text::utf8_len(s) <= max && text_laws::is_clean(s)
}

/// A text of at most `max` bytes without control codes that is not blank.
pub open spec fn says(s: Seq<char>, max: nat) -> bool {
    fits(s, max) && !text_laws::is_blank(s)
}

/// A text that may be missing fits where it is there.
pub open spec fn may_fit(o: Option<String>, max: nat) -> bool {
    o matches Some(s) ==> fits(s@, max)
}

/// Two identities.
pub open spec fn both(from: String, to: String) -> bool {
    says(from@, 128) && says(to@, 128)
}

/// A session description of at most 128 KiB whose only control codes are line ends.
pub open spec fn describes(sdp: Seq<char>) -> bool {
    &&& sdp.len() > 0
    &&& text::utf8_len(sdp) <= 131_072
    &&& forall|i: int|
        0 <= i < sdp.len() ==> !text_laws::shows_nothing(#[trigger] sdp[i]) || sdp[i] as u32 == 10
            || sdp[i] as u32 == 13
}

pub open spec fn offers(offer: OfferData) -> bool {
    offer.sdp_type@ == seq!['o', 'f', 'f', 'e', 'r'] && describes(offer.sdp@)
}

pub open spec fn answers(answer: AnswerData) -> bool {
    answer.sdp_type@ == seq!['a', 'n', 's', 'w', 'e', 'r'] && describes(answer.sdp@)
}

/// A candidate of at most 16 KiB for one of the first lines of a description.
pub open spec fn nominates(data: CandidateData) -> bool {
    &&& data.candidate@.len() > 0
    &&& fits(data.candidate@, 16_384)
    &&& data.sdp_m_line_index matches Some(index) ==> index <= 256
    &&& may_fit(data.sdp_mid, 128)
}

/// A running number that may be missing.
pub open spec fn counts(n: Option<u64>) -> bool {
    n matches Some(n) ==> n <= 1_000_000_000
}

proof fn lemma_says(s: Seq<char>, max: nat)
    ensures
        validation::text_ok(s, max, false) == says(s, max),
        validation::text_ok(s, max, true) == fits(s, max),
{
    text_laws::controls_are_what_is_not_clean(s);
    text_laws::trimming_leaves_nothing_of_blank_texts(s);
}

proof fn lemma_control(s: Seq<char>, max: nat)
    requires
        max <= 8192,
    ensures
        validation::control_ok(s, max, false) == says(s, max),
        validation::control_ok(s, max, true) == fits(s, max),
{
    lemma_says(s, max);
}

proof fn lemma_optional(o: Option<String>, max: nat)
    requires
        max <= 8192,
    ensures
        validation::optional_ok(o, max) == may_fit(o, max),
{
    if let Some(s) = o {
        lemma_control(s@, max);
    }
}

proof fn lemma_pair(from: String, to: String)
    ensures
        validation::pair_ok(from, to) == both(from, to),
        validation::id_ok(from@) == says(from@, 128),
{
    lemma_says(from@, 128);
    lemma_says(to@, 128);
}

proof fn lemma_stray(c: char)
    ensures
        validation::is_stray_control(c) <==> text_laws::shows_nothing(c) && c as u32 != 10 && c as u32
            != 13,
{
}

proof fn lemma_hex_code(c: char)
    ensures
        number::is_lower_hex_char(c) <==> (48 <= c as u32 <= 57 || 97 <= c as u32 <= 102),
{
}

proof fn lemma_described(sdp: Seq<char>)
    ensures
        (text::utf8_len(sdp) <= 131_072 && sdp.len() > 0 && forall|i: int|
            0 <= i < sdp.len() ==> !validation::is_stray_control(#[trigger] sdp[i])) <==> describes(
            sdp,
        ),
{
    assert forall|i: int| 0 <= i < sdp.len() implies (validation::is_stray_control(
        #[trigger] sdp[i],
    ) <==> text_laws::shows_nothing(sdp[i]) && sdp[i] as u32 != 10 && sdp[i] as u32 != 13) by {
        lemma_stray(sdp[i]);
    }
    if forall|i: int| 0 <= i < sdp.len() ==> !validation::is_stray_control(#[trigger] sdp[i]) {
        assert forall|i: int| 0 <= i < sdp.len() implies !text_laws::shows_nothing(
            #[trigger] sdp[i],
        ) || sdp[i] as u32 == 10 || sdp[i] as u32 == 13 by {
            assert(!validation::is_stray_control(sdp[i]));
        }
    }
    if describes(sdp) {
        assert forall|i: int| 0 <= i < sdp.len() implies !validation::is_stray_control(
            #[trigger] sdp[i],
        ) by {
            assert(!text_laws::shows_nothing(sdp[i]) || sdp[i] as u32 == 10 || sdp[i] as u32 == 13);
        }
    }
}

proof fn lemma_offer(offer: OfferData)
    ensures
        validation::description_ok(offer.sdp_type@, offer.sdp@, "offer"@) == offers(offer),
{
    reveal_strlit("offer");
    assert("offer"@ =~= seq!['o', 'f', 'f', 'e', 'r']);
    lemma_described(offer.sdp@);
}

proof fn lemma_answer(answer: AnswerData)
    ensures
        validation::description_ok(answer.sdp_type@, answer.sdp@, "answer"@) == answers(answer),
{
    reveal_strlit("answer");
    assert("answer"@ =~= seq!['a', 'n', 's', 'w', 'e', 'r']);
    lemma_described(answer.sdp@);
}

proof fn lemma_nominates(data: CandidateData)
    ensures
        validation::candidate_ok(data) == nominates(data),
{
    text_laws::controls_are_what_is_not_clean(data.candidate@);
    lemma_optional(data.sdp_mid, 128);
}

/// Descriptions of a session are within bounds exactly when their identities and
/// the ids of what they belong to are, and they are of the kind that the message
/// carries: an offer in an offer, an answer in an answer.
pub proof fn offers_carry_offers_and_answers_answers(message: SignalingMessage)
    ensures
        match message {
            SignalingMessage::Offer { from, to, offer, .. } => validation::message_ok(message) == {
                &&& both(from, to)
                &&& offers(offer)
            },
            SignalingMessage::Answer { from, to, answer } => validation::message_ok(message) == {
                &&& both(from, to)
                &&& answers(answer)
            },
            SignalingMessage::ScreenShareOffer {
                from,
                to,
                share_id,
                player_name,
                password,
                offer,
                ..
            } => validation::message_ok(message) == {
                &&& both(from, to)
                &&& says(share_id@, 128)
                &&& may_fit(player_name, 128)
                &&& may_fit(password, 8192)
                &&& offers(offer)
            },
            SignalingMessage::ScreenShareAnswer { from, to, share_id, answer, .. } => validation::message_ok(
                message,
            ) == {
                &&& both(from, to)
                &&& says(share_id@, 128)
                &&& answers(answer)
            },
            SignalingMessage::RemoteControlOffer { from, to, session_id, offer } => validation::message_ok(
                message,
            ) == {
                &&& both(from, to)
                &&& says(session_id@, 128)
                &&& offers(offer)
            },
            SignalingMessage::RemoteControlAnswer { from, to, session_id, answer } => validation::message_ok(
                message,
            ) == {
                &&& both(from, to)
                &&& says(session_id@, 128)
                &&& answers(answer)
            },
            SignalingMessage::IceCandidate { from, to, candidate } => validation::message_ok(
                message,
            ) == {
                &&& both(from, to)
                &&& nominates(candidate)
            },
            SignalingMessage::ScreenShareIceCandidate {
                from,
                to,
                share_id,
                candidate,
                connection_role,
                ..
            } => validation::message_ok(message) == {
                &&& both(from, to)
                &&& says(share_id@, 128)
                &&& may_fit(connection_role, 32)
                &&& nominates(candidate)
            },
            SignalingMessage::RemoteControlIce { from, to, session_id, candidate } => validation::message_ok(
                message,
            ) == {
                &&& both(from, to)
                &&& says(session_id@, 128)
                &&& nominates(candidate)
            },
            _ => true,
        },
{
    match message {
        SignalingMessage::Offer { from, to, offer, .. } => {
            lemma_pair(from, to);
            lemma_offer(offer);
        },
        SignalingMessage::Answer { from, to, answer } => {
            lemma_pair(from, to);
            lemma_answer(answer);
        },
        SignalingMessage::ScreenShareOffer {
            from,
            to,
            share_id,
            player_name,
            password,
            offer,
            ..
        } => {
            lemma_pair(from, to);
            lemma_says(share_id@, 128);
            lemma_optional(player_name, 128);
            lemma_optional(password, 8192);
            lemma_offer(offer);
        },
        SignalingMessage::ScreenShareAnswer { from, to, share_id, answer, .. } => {
            lemma_pair(from, to);
            lemma_says(share_id@, 128);
            lemma_answer(answer);
        },
        SignalingMessage::RemoteControlOffer { from, to, session_id, offer } => {
            lemma_pair(from, to);
            lemma_says(session_id@, 128);
            lemma_offer(offer);
        },
        SignalingMessage::RemoteControlAnswer { from, to, session_id, answer } => {
            lemma_pair(from, to);
            lemma_says(session_id@, 128);
            lemma_answer(answer);
        },
        SignalingMessage::IceCandidate { from, to, candidate } => {
            lemma_pair(from, to);
            lemma_nominates(candidate);
        },
        SignalingMessage::ScreenShareIceCandidate {
            from,
            to,
            share_id,
            candidate,
            connection_role,
            ..
        } => {
            lemma_pair(from, to);
            lemma_says(share_id@, 128);
            lemma_optional(connection_role, 32);
            lemma_nominates(candidate);
        },
        SignalingMessage::RemoteControlIce { from, to, session_id, candidate } => {
            lemma_pair(from, to);
            lemma_says(session_id@, 128);
            lemma_nominates(candidate);
        },
        _ => {},
    }
}

/// The bounds of the messages about shared screens.
pub proof fn screen_share_messages_are_bounded(message: SignalingMessage)
    ensures
        match message {
            SignalingMessage::ScreenShareStart { from, share_id, player_name, .. } => validation::message_ok(
                message,
            ) == {
                &&& says(from@, 128)
                &&& says(share_id@, 128)
                &&& says(player_name@, 128)
            },
            SignalingMessage::ScreenShareStop { from, share_id } => validation::message_ok(
                message,
            ) == {
                &&& says(from@, 128)
                &&& says(share_id@, 128)
            },
            SignalingMessage::ScreenShareViewerLeft { from, share_id } => validation::message_ok(
                message,
            ) == {
                &&& says(from@, 128)
                &&& says(share_id@, 128)
            },
            SignalingMessage::ScreenShareListRequest { from } => validation::message_ok(
                message,
            ) == {
                &&& says(from@, 128)
            },
            SignalingMessage::ScreenShareListResponse {
                from,
                to,
                share_id,
                player_name,
                ..
            } => validation::message_ok(message) == {
                &&& both(from, to)
                &&& says(share_id@, 128)
                &&& says(player_name@, 128)
            },
            SignalingMessage::ScreenShareUpdate {
                from,
                share_id,
                viewer_id,
                viewer_name,
                ..
            } => validation::message_ok(message) == {
                &&& says(from@, 128)
                &&& says(share_id@, 128)
                &&& may_fit(viewer_id, 128)
                &&& may_fit(viewer_name, 128)
            },
            SignalingMessage::ScreenShareError { from, to, share_id, error } => validation::message_ok(
                message,
            ) == {
                &&& both(from, to)
                &&& says(share_id@, 128)
                &&& says(error@, 512)
            },
            SignalingMessage::ScreenShareRelay {
                from,
                to,
                share_id,
                action,
                player_name,
                password,
                upstream_id,
                downstream_id,
                sequence,
                source_sequence,
                sent_sequence,
                reason,
                ..
            } => validation::message_ok(message) == {
                &&& both(from, to)
                &&& says(share_id@, 128)
                &&& says(action@, 32)
                &&& may_fit(player_name, 128)
                &&& may_fit(password, 8192)
                &&& may_fit(upstream_id, 128)
                &&& may_fit(downstream_id, 128)
                &&& may_fit(reason, 256)
                &&& counts(sequence)
                &&& counts(source_sequence)
                &&& counts(sent_sequence)
            },
            _ => true,
        },
{
    match message {
        SignalingMessage::ScreenShareStart { from, share_id, player_name, .. } => {
            lemma_pair(from, from);
            lemma_says(share_id@, 128);
            lemma_control(player_name@, 128);
        },
        SignalingMessage::ScreenShareStop { from, share_id } => {
            lemma_pair(from, from);
            lemma_says(share_id@, 128);
        },
        SignalingMessage::ScreenShareViewerLeft { from, share_id } => {
            lemma_pair(from, from);
            lemma_says(share_id@, 128);
        },
        SignalingMessage::ScreenShareListRequest { from } => {
            lemma_pair(from, from);
        },
        SignalingMessage::ScreenShareListResponse {
            from,
            to,
            share_id,
            player_name,
            ..
        } => {
            lemma_pair(from, to);
            lemma_says(share_id@, 128);
            lemma_control(player_name@, 128);
        },
        SignalingMessage::ScreenShareUpdate {
            from,
            share_id,
            viewer_id,
            viewer_name,
            ..
        } => {
            lemma_pair(from, from);
            lemma_says(share_id@, 128);
            lemma_optional(viewer_id, 128);
            lemma_optional(viewer_name, 128);
        },
        SignalingMessage::ScreenShareError { from, to, share_id, error } => {
            lemma_pair(from, to);
            lemma_says(share_id@, 128);
            lemma_control(error@, 512);
        },
        SignalingMessage::ScreenShareRelay {
            from,
            to,
            share_id,
            action,
            player_name,
            password,
            upstream_id,
            downstream_id,
            sequence,
            source_sequence,
            sent_sequence,
            reason,
            ..
        } => {
            lemma_pair(from, to);
            lemma_says(share_id@, 128);
            lemma_control(action@, 32);
            lemma_optional(player_name, 128);
            lemma_optional(password, 8192);
            lemma_optional(upstream_id, 128);
            lemma_optional(downstream_id, 128);
            lemma_optional(reason, 256);
        },
        _ => {},
    }
}

/// The bounds of the messages about shared files and of remote control.
pub proof fn file_share_and_control_messages_are_bounded(message: SignalingMessage)
    ensures
        match message {
            SignalingMessage::FileShareAdded {
                from,
                share_id,
                share_name,
                player_name,
                ..
            } => validation::message_ok(message) == {
                &&& says(from@, 128)
                &&& says(share_id@, 128)
                &&& says(share_name@, 256)
                &&& says(player_name@, 128)
            },
            SignalingMessage::FileShareRemoved { from, share_id } => validation::message_ok(
                message,
            ) == {
                &&& says(from@, 128)
                &&& says(share_id@, 128)
            },
            SignalingMessage::FileShareListRequest { from } => validation::message_ok(message) == {
                &&& says(from@, 128)
            },
            SignalingMessage::ShareUpdated {
                from,
                share_id,
                share_name,
                player_name,
                ..
            } => validation::message_ok(message) == {
                &&& says(from@, 128)
                &&& says(share_id@, 128)
                &&& may_fit(share_name, 256)
                &&& may_fit(player_name, 128)
            },
            SignalingMessage::RemoteControlRequest { from, to, session_id, from_name } => validation::message_ok(
                message,
            ) == {
                &&& both(from, to)
                &&& says(session_id@, 128)
                &&& says(from_name@, 64)
            },
            SignalingMessage::RemoteControlAccept { from, to, session_id } => validation::message_ok(
                message,
            ) == {
                &&& both(from, to)
                &&& says(session_id@, 128)
            },
            SignalingMessage::RemoteControlStop { from, to, session_id } => validation::message_ok(
                message,
            ) == {
                &&& both(from, to)
                &&& says(session_id@, 128)
            },
            SignalingMessage::RemoteControlReject { from, to, session_id, reason } => validation::message_ok(
                message,
            ) == {
                &&& both(from, to)
                &&& says(session_id@, 128)
                &&& says(reason@, 512)
            },
            _ => true,
        },
{
    match message {
        SignalingMessage::FileShareAdded {
            from,
            share_id,
            share_name,
            player_name,
            ..
        } => {
            lemma_pair(from, from);
            lemma_says(share_id@, 128);
            lemma_control(share_name@, 256);
            lemma_control(player_name@, 128);
        },
        SignalingMessage::FileShareRemoved { from, share_id } => {
            lemma_pair(from, from);
            lemma_says(share_id@, 128);
        },
        SignalingMessage::FileShareListRequest { from } => {
            lemma_pair(from, from);
        },
        SignalingMessage::ShareUpdated { from, share_id, share_name, player_name, .. } => {
            lemma_pair(from, from);
            lemma_says(share_id@, 128);
            lemma_optional(share_name, 256);
            lemma_optional(player_name, 128);
        },
        SignalingMessage::RemoteControlRequest { from, to, session_id, from_name } => {
            lemma_pair(from, to);
            lemma_says(session_id@, 128);
            lemma_control(from_name@, 64);
        },
        SignalingMessage::RemoteControlAccept { from, to, session_id } => {
            lemma_pair(from, to);
            lemma_says(session_id@, 128);
        },
        SignalingMessage::RemoteControlStop { from, to, session_id } => {
            lemma_pair(from, to);
            lemma_says(session_id@, 128);
        },
        SignalingMessage::RemoteControlReject { from, to, session_id, reason } => {
            lemma_pair(from, to);
            lemma_says(session_id@, 128);
            lemma_control(reason@, 512);
        },
        _ => {},
    }
}

/// The bounds of what members say of themselves and hosts ask for, and of a node
/// that is submitted.
pub proof fn requests_are_bounded(message: SignalingMessage)
    ensures
        match message {
            SignalingMessage::VoiceReconnect { from, to } => validation::message_ok(message) == {
                &&& both(from, to)
                &&& from@ != to@
            },
            SignalingMessage::ChatMessage {
                from,
                player_id,
                player_name,
                content,
                ..
            } => validation::message_ok(message) == {
                &&& both(from, player_id)
                &&& says(player_name@, 128)
                &&& says(content@, 8192)
            },
            SignalingMessage::StatusUpdate { client_id, .. } => validation::message_ok(message) == {
                &&& says(client_id@, 128)
            },
            SignalingMessage::Leave { client_id } => validation::message_ok(message) == {
                &&& says(client_id@, 128)
            },
            SignalingMessage::KickPlayer { from, target } => validation::message_ok(message) == {
                &&& both(from, target)
            },
            SignalingMessage::MutePlayer { from, target, .. } => validation::message_ok(
                message,
            ) == {
                &&& both(from, target)
            },
            SignalingMessage::TransferHost { from, target } => validation::message_ok(message) == {
                &&& both(from, target)
            },
            SignalingMessage::SetLobbyOptions { from, description, server_node, .. } => validation::message_ok(
                message,
            ) == {
                &&& says(from@, 128)
                &&& may_fit(description, 8192)
                &&& may_fit(server_node, 256)
            },
            SignalingMessage::CommunityNodeSubmit { name, address, submitter } => validation::message_ok(
                message,
            ) == {
                &&& says(name@, 32)
                &&& says(address@, 128)
                &&& may_fit(submitter, 24)
            },
            _ => true,
        },
{
    match message {
        SignalingMessage::VoiceReconnect { from, to } => {
            lemma_pair(from, to);
        },
        SignalingMessage::ChatMessage { from, player_id, player_name, content, .. } => {
            lemma_pair(from, player_id);
            lemma_control(player_name@, 128);
            lemma_control(content@, 8192);
        },
        SignalingMessage::StatusUpdate { client_id, .. } => {
            lemma_pair(client_id, client_id);
        },
        SignalingMessage::Leave { client_id } => {
            lemma_pair(client_id, client_id);
        },
        SignalingMessage::KickPlayer { from, target } => {
            lemma_pair(from, target);
        },
        SignalingMessage::MutePlayer { from, target, .. } => {
            lemma_pair(from, target);
        },
        SignalingMessage::TransferHost { from, target } => {
            lemma_pair(from, target);
        },
        SignalingMessage::SetLobbyOptions { from, description, server_node, .. } => {
            lemma_pair(from, from);
            lemma_optional(description, 8192);
            lemma_optional(server_node, 256);
        },
        SignalingMessage::CommunityNodeSubmit { name, address, submitter } => {
            lemma_control(name@, 32);
            lemma_control(address@, 128);
            lemma_optional(submitter, 24);
        },
        _ => {},
    }
}

/// The bounds of a registration, of the current form and of the retired one.
pub proof fn registrations_are_bounded(message: SignalingMessage)
    ensures
        match message {
            SignalingMessage::RegisterV3 {
                identity_public_key,
                challenge_signature,
                player_name,
                virtual_ip,
                virtual_domain,
                lobby_name,
                lobby_password,
                client_version,
                ..
            } => validation::message_ok(message) == {
                &&& text::utf8_len(identity_public_key@) <= 512
                &&& text::utf8_len(challenge_signature@) <= 256
                &&& virtual_ip matches Some(ip) && says(ip@, 32)
                &&& says(player_name@, 128)
                &&& may_fit(virtual_domain, 253)
                &&& says(lobby_name@, 128)
                &&& fits(lobby_password@, 256)
                &&& may_fit(client_version, 32)
            },
            SignalingMessage::Register {
                client_id,
                player_name,
                virtual_ip,
                virtual_domain,
                lobby_name,
                lobby_password,
                client_version,
                chat_public_key,
                ..
            } => validation::message_ok(message) == {
                &&& says(client_id@, 128)
                &&& virtual_ip matches Some(ip) ==> says(ip@, 32)
                &&& may_fit(chat_public_key, 512)
                &&& says(player_name@, 128)
                &&& may_fit(virtual_domain, 253)
                &&& says(lobby_name@, 128)
                &&& fits(lobby_password@, 256)
                &&& may_fit(client_version, 32)
            },
            _ => true,
        },
{
    match message {
        SignalingMessage::RegisterV3 {
            identity_public_key,
            challenge_signature,
            player_name,
            virtual_ip,
            virtual_domain,
            lobby_name,
            lobby_password,
            client_version,
            ..
        } => {
            lemma_control(virtual_ip->0@, 32);
            lemma_control(player_name@, 128);
            lemma_optional(virtual_domain, 253);
            lemma_control(lobby_name@, 128);
            lemma_control(lobby_password@, 256);
            lemma_optional(client_version, 32);
        },
        SignalingMessage::Register {
            client_id,
            player_name,
            virtual_ip,
            virtual_domain,
            lobby_name,
            lobby_password,
            client_version,
            chat_public_key,
            ..
        } => {
            lemma_pair(client_id, client_id);
            lemma_control(virtual_ip->0@, 32);
            lemma_optional(chat_public_key, 512);
            lemma_control(player_name@, 128);
            lemma_optional(virtual_domain, 253);
            lemma_control(lobby_name@, 128);
            lemma_control(lobby_password@, 256);
            lemma_optional(client_version, 32);
        },
        _ => {},
    }
}

/// What carries no field that a client fills in needs no bound, and a challenge is
/// 64 digits of a hexadecimal number in small letters.
pub proof fn messages_without_texts_are_in_bounds(message: SignalingMessage)
    ensures
        match message {
            SignalingMessage::PlayersListRequest => validation::message_ok(message),
            SignalingMessage::Ping => validation::message_ok(message),
            SignalingMessage::Pong => validation::message_ok(message),
            SignalingMessage::PublicLobbyListRequest => validation::message_ok(message),
            SignalingMessage::CommunityNodeListRequest => validation::message_ok(message),
            SignalingMessage::ServerChallenge { challenge, .. } => validation::message_ok(message)
                == (challenge@.len() == 64 && forall|i: int|
                0 <= i < challenge@.len() ==> (48 <= (#[trigger] challenge@[i]) as u32 <= 57 || 97
                    <= challenge@[i] as u32 <= 102)),
            _ => true,
        },
{
    if let SignalingMessage::ServerChallenge { challenge, .. } = message {
        assert forall|i: int| 0 <= i < challenge@.len() implies (
        number::is_lower_hex_char(#[trigger] challenge@[i]) <==> (48 <= challenge@[i] as u32
            <= 57 || 97 <= challenge@[i] as u32 <= 102)) by {
            lemma_hex_code(challenge@[i]);
        }
        if number::is_lower_hex(challenge@) {
            assert forall|i: int| 0 <= i < challenge@.len() implies (48 <= (
            #[trigger] challenge@[i]) as u32 <= 57 || 97 <= challenge@[i] as u32 <= 102) by {
                assert(number::is_lower_hex_char(challenge@[i]));
            }
        }
    }
}

/// A list of shared files has up to 256 entries, each within the bounds of a shared
/// file.
pub proof fn file_lists_are_bounded(message: SignalingMessage)
    ensures
        message matches SignalingMessage::FileShareListResponse { from, to, shares }
            ==> validation::message_ok(message) == {
            &&& both(from, to)
            &&& shares@.len() <= 256
            &&& forall|i: int|
                0 <= i < shares@.len() ==> says((#[trigger] shares@[i]).share_id@, 128) && says(
                    shares@[i].share_name@,
                    256,
                ) && says(shares@[i].player_name@, 128)
        },
{
    if let SignalingMessage::FileShareListResponse { from, to, shares } = message {
        lemma_pair(from, to);
        assert forall|i: int| 0 <= i < shares@.len() implies validation::file_share_ok(
            #[trigger] shares@[i],
        ) == (says(shares@[i].share_id@, 128) && says(shares@[i].share_name@, 256) && says(
            shares@[i].player_name@,
            128,
        )) by {
            lemma_says(shares@[i].share_id@, 128);
            lemma_control(shares@[i].share_name@, 256);
            lemma_control(shares@[i].player_name@, 128);
        }
        if validation::message_ok(message) {
            assert forall|i: int| 0 <= i < shares@.len() implies says(
                (#[trigger] shares@[i]).share_id@,
                128,
            ) && says(shares@[i].share_name@, 256) && says(shares@[i].player_name@, 128) by {
                assert(validation::file_share_ok(shares@[i]));
            }
        }
    }
}

} // verus!
