//! What a registration needs, and what each refusal says.
use vstd::prelude::*;
use vstd::utf8::*;
use crate::config;
use crate::connection_guard;
use crate::frame_laws;
use crate::host_laws;
use crate::ip;
use crate::ip::Ipv4Addr;
use crate::lobby;
use crate::lobby::JoinDecision;
use crate::number;
use crate::number_laws;
use crate::protocol::SignalingMessage;
use crate::registration;
use crate::registration::{RegisterFields, RegistrationRefusal, Settings};
use crate::security;
use crate::session;
use crate::session::{Action, Frame, Next, Session, Step};
use crate::shape_laws;
use crate::state;
use crate::text;
use crate::text_laws;
use crate::validation;

verus! {

/// What a registration message says of the client.
pub open spec fn fields_of(message: SignalingMessage) -> RegisterFields {
    RegisterFields {
        protocol_version: message->RegisterV3_protocol_version,
        identity_public_key: message->RegisterV3_identity_public_key,
        challenge_signature: message->RegisterV3_challenge_signature,
        player_name: message->RegisterV3_player_name,
        virtual_ip: message->RegisterV3_virtual_ip,
        use_domain: message->RegisterV3_use_domain,
        lobby_name: message->RegisterV3_lobby_name,
        lobby_password: message->RegisterV3_lobby_password,
        client_version: message->RegisterV3_client_version,
    }
}

/// A registration that nothing but its own contents can stop.
pub open spec fn registers(
    before: session::WorldView,
    after: session::WorldView,
    connection: Session,
    settings: Settings,
    message: SignalingMessage,
    draws: lobby::DrawsView,
    now: u64,
    step: Step,
) -> bool {
    &&& session::frame_ok(
        before,
        after,
        connection,
        settings,
        Frame::Message(message),
        draws,
        now,
        step,
    )
    &&& frame_laws::within_rate(connection, now)
    &&& validation::message_ok(message)
    &&& message is RegisterV3
}

/// Whoever has registered already is cut off when it registers again.
pub proof fn registering_twice_ends_the_connection(
    before: session::WorldView,
    after: session::WorldView,
    connection: Session,
    settings: Settings,
    message: SignalingMessage,
    draws: lobby::DrawsView,
    now: u64,
    step: Step,
)
    requires
        registers(before, after, connection, settings, message, draws, now, step),
        frame_laws::is_live(before, connection),
    ensures
        after == before,
        step.actions@.len() == 0,
        step.next == Next::Break,
{
}

/// A registration with another protocol version than 3 is told so, and cut off.
pub proof fn only_the_third_protocol_is_spoken(
    before: session::WorldView,
    after: session::WorldView,
    connection: Session,
    settings: Settings,
    message: SignalingMessage,
    draws: lobby::DrawsView,
    now: u64,
    step: Step,
)
    requires
        registers(before, after, connection, settings, message, draws, now, step),
        before.registered is None,
        fields_of(message).protocol_version != 3,
    ensures
        after == before,
        frame_laws::refuses(step, "不支持的信令协议版本，要求 "@ + seq!['3']),
{
    assert(number::decimal(3) =~= seq!['3']);
}

/// A registration without a virtual address of the network is told so, and may be
/// tried again.
pub proof fn addresses_of_other_networks_may_be_corrected(
    before: session::WorldView,
    after: session::WorldView,
    connection: Session,
    settings: Settings,
    message: SignalingMessage,
    draws: lobby::DrawsView,
    now: u64,
    step: Step,
)
    requires
        registers(before, after, connection, settings, message, draws, now, step),
        before.registered is None,
        fields_of(message).protocol_version == 3,
        fields_of(message).virtual_ip matches Some(s) ==> validation::virtual_ip_of(s@) is None,
    ensures
        after == before,
        complains(step, "virtualIp 必须位于 10.126.126.1-254"@),
{
}

/// The step is one error, after which the connection goes on.
pub open spec fn complains(step: Step, reason: Seq<char>) -> bool {
    &&& step.next == Next::Continue
    &&& step.actions@.len() == 1
    &&& step.actions@[0] matches Action::Reply(SignalingMessage::RegisterError { message })
        && message@ == reason
}

/// What a client signs: the protocol and its version, the challenge of its
/// connection, the lobby and the virtual address, each on a line of its own.
pub open spec fn signed_text(challenge: Seq<char>, lobby: Seq<char>, address: Seq<char>) -> Seq<
    char,
> {
    text_laws::put_together(
        seq!["MCTIER-SIGNALING-V3"@, seq!['3'], challenge, lobby, address],
        '\n',
    )
}

proof fn lemma_signed_text(challenge: Seq<char>, lobby: Seq<char>, address: Seq<char>)
    ensures
        security::canonical_text(challenge, lobby, address) == signed_text(
            challenge,
            lobby,
            address,
        ),
{
    reveal_strlit("MCTIER-SIGNALING-V3\n");
    reveal_strlit("MCTIER-SIGNALING-V3");
    assert(number::decimal(3) =~= seq!['3']);
    assert("MCTIER-SIGNALING-V3\n"@ =~= "MCTIER-SIGNALING-V3"@ + seq!['\n']);
    let p = seq!["MCTIER-SIGNALING-V3"@, seq!['3'], challenge, lobby, address];
    let q = p.drop_first();
    let r = q.drop_first();
    let t = r.drop_first();
    let u = t.drop_first();
    assert(q[0] == p[1] && r[0] == p[2] && t[0] == p[3] && u[0] == p[4]);
    reveal_with_fuel(text_laws::put_together, 5);
    assert(text_laws::put_together(u, '\n') == address);
    assert(text_laws::put_together(t, '\n') == lobby + seq!['\n'] + address);
    assert(security::canonical_text(challenge, lobby, address) =~= signed_text(
        challenge,
        lobby,
        address,
    ));
}

/// A key and a signature, in Base64 of at most 512 and 256 bytes with or without
/// white space around them, prove an identity exactly when the key has at most 200
/// bytes and the signature under what the client signs is the key's. The identity
/// is the digest of the key, and its domain begins with half of that.
pub proof fn identities_are_proved_by_signatures(
    challenge: Seq<char>,
    lobby: Seq<char>,
    address: Seq<char>,
    key_text: Seq<char>,
    signature_text: Seq<char>,
    key: Seq<u8>,
    signature: Seq<u8>,
)
    requires
        security::base64_decoded(text::trimmed(key_text)) == Some(key),
        security::base64_decoded(text::trimmed(signature_text)) == Some(signature),
    ensures
        ({
            let shown = security::verified_identity(
                challenge,
                lobby,
                address,
                key_text,
                signature_text,
            );
            let id = number::hex(security::sha256_of(key));
            &&& shown is Some <==> {
                &&& 1 <= text::trimmed(key_text).len()
                &&& text::utf8_len(text::trimmed(key_text)) <= 512
                &&& 1 <= text::trimmed(signature_text).len()
                &&& text::utf8_len(text::trimmed(signature_text)) <= 256
                &&& 1 <= key.len() <= 200
                &&& security::p256_verified(
                    key,
                    signature,
                    encode_utf8(signed_text(challenge, lobby, address)),
                )
            }
            &&& shown matches Some(identity) ==> {
                &&& identity.client_id == id
                &&& identity.public_key == text::trimmed(key_text)
                &&& identity.virtual_domain == id.take(32) + ".mct.net"@
            }
        }),
{
    lemma_signed_text(challenge, lobby, address);
}

/// Texts that are no Base64 prove nothing.
pub proof fn texts_that_are_no_base64_prove_nothing(
    challenge: Seq<char>,
    lobby: Seq<char>,
    address: Seq<char>,
    key_text: Seq<char>,
    signature_text: Seq<char>,
)
    requires
        security::base64_decoded(text::trimmed(key_text)) is None || security::base64_decoded(
            text::trimmed(signature_text),
        ) is None,
    ensures
        security::verified_identity(challenge, lobby, address, key_text, signature_text) is None,
{
}

/// What a registration at the right address shows of the client's identity.
pub open spec fn shown_identity(
    connection: Session,
    fields: RegisterFields,
    address: Ipv4Addr,
) -> Option<security::IdentityView> {
    security::verified_identity(
        connection.challenge@,
        fields.lobby_name@,
        number_laws::dotted(address),
        fields.identity_public_key@,
        fields.challenge_signature@,
    )
}

/// A registration that proves no identity for this connection, lobby and address is
/// told so, and cut off.
pub proof fn unproved_identities_are_cut_off(
    before: session::WorldView,
    after: session::WorldView,
    connection: Session,
    settings: Settings,
    message: SignalingMessage,
    draws: lobby::DrawsView,
    now: u64,
    step: Step,
    address: Ipv4Addr,
)
    requires
        registers(before, after, connection, settings, message, draws, now, step),
        before.registered is None,
        fields_of(message).protocol_version == 3,
        fields_of(message).virtual_ip matches Some(s) && validation::virtual_ip_of(s@) == Some(
            address,
        ),
        shown_identity(connection, fields_of(message), address) is None,
    ensures
        after == before,
        frame_laws::refuses(step, "身份公钥或 challengeSignature 无效"@),
{
    number_laws::addresses_are_four_numbers_with_dots(Seq::empty(), address);
}

/// The fields of a registration that names are taken from: up to 128 bytes for the
/// player and the lobby, neither blank, and up to 256 for the password, all without
/// control codes.
pub open spec fn names_fit(fields: RegisterFields) -> bool {
    &&& shape_laws::says(fields.player_name@, 128)
    &&& shape_laws::says(fields.lobby_name@, 128)
    &&& shape_laws::fits(fields.lobby_password@, 256)
}

proof fn lemma_says(s: Seq<char>, max: nat)
    ensures
        validation::text_ok(s, max, false) == shape_laws::says(s, max),
        validation::text_ok(s, max, true) == shape_laws::fits(s, max),
{
    text_laws::controls_are_what_is_not_clean(s);
    text_laws::trimming_leaves_nothing_of_blank_texts(s);
}

/// A registration is checked in turn: the protocol, the address, the identity, the
/// fields and the version. The first that is wrong is what it is refused for. The
/// candidate that comes of it is who the key shows, whatever the client says of
/// itself; it gets its domain unless it says that it wants none.
pub proof fn registrations_are_checked_in_turn(
    connection: Session,
    fields: RegisterFields,
    minimum: Seq<char>,
    address: Ipv4Addr,
)
    requires
        fields.virtual_ip matches Some(s) && validation::virtual_ip_of(s@) == Some(address),
    ensures
        ({
            let r = registration::registration_check(connection.challenge@, fields, minimum);
            let shown = shown_identity(connection, fields, address);
            if fields.protocol_version != 3 {
                r == Err::<lobby::CandidateView, _>(RegistrationRefusal::Protocol)
            } else {
                match shown {
                    None => r == Err::<lobby::CandidateView, _>(RegistrationRefusal::Identity),
                    Some(identity) => if !(names_fit(fields) && shape_laws::says(
                        identity.client_id,
                        128,
                    ) && shape_laws::fits(identity.virtual_domain, 253)) {
                        r == Err::<lobby::CandidateView, _>(RegistrationRefusal::Fields)
                    } else if !(fields.client_version matches Some(v) && v@ != "unknown"@
                        && config::version_accepted(v@, minimum)) {
                        r == Err::<lobby::CandidateView, _>(RegistrationRefusal::Version)
                    } else {
                        &&& r matches Ok(candidate)
                        &&& candidate.client_id == identity.client_id
                        &&& candidate.player_name == fields.player_name@
                        &&& candidate.virtual_ip == address
                        &&& candidate.virtual_domain == identity.virtual_domain
                        &&& candidate.use_domain == Some(fields.use_domain != Some(false))
                        &&& candidate.lobby_name == fields.lobby_name@
                        &&& candidate.lobby_password == fields.lobby_password@
                    },
                }
            }
        }),
{
    number_laws::addresses_are_four_numbers_with_dots(Seq::empty(), address);
    if let Some(identity) = shown_identity(connection, fields, address) {
        lemma_says(fields.player_name@, 128);
        lemma_says(fields.lobby_name@, 128);
        lemma_says(fields.lobby_password@, 256);
        lemma_says(identity.client_id, 128);
        lemma_says(identity.virtual_domain, 253);
    }
}

/// The key that a candidate signs its chat with is its identity key, where that is
/// Base64 of at most 512 bytes and a key of the curve.
pub proof fn identity_keys_sign_the_chat(
    connection: Session,
    fields: RegisterFields,
    minimum: Seq<char>,
)
    ensures
        registration::registration_check(connection.challenge@, fields, minimum) matches Ok(
            candidate,
        ) ==> ({
            let key = text::trimmed(text::trimmed(fields.identity_public_key@));
            let fine = key.len() > 0 && text::utf8_len(key) <= 512 && (security::base64_decoded(
                key,
            ) matches Some(der) && security::p256_key_accepted(der));
            &&& fine ==> candidate.chat_public_key == Some(key)
            &&& !fine ==> candidate.chat_public_key is None
        }),
{
}

/// A registration that fails at its fields may be tried again; one that fails at
/// its version is told which version it has, which it needs and where that is to be
/// had, and is cut off half a second later.
pub proof fn old_clients_are_shown_the_way(
    before: session::WorldView,
    after: session::WorldView,
    connection: Session,
    settings: Settings,
    message: SignalingMessage,
    draws: lobby::DrawsView,
    now: u64,
    step: Step,
)
    requires
        registers(before, after, connection, settings, message, draws, now, step),
        before.registered is None,
    ensures
        ({
            let fields = fields_of(message);
            let minimum = settings.minimum_client_version@;
            let r = registration::registration_check(connection.challenge@, fields, minimum);
            let version = if fields.client_version is Some {
                fields.client_version->0@
            } else {
                "unknown"@
            };
            &&& r is Err ==> after == before
            &&& r == Err::<lobby::CandidateView, _>(RegistrationRefusal::Fields) ==> complains(
                step,
                "注册字段为空、过长或包含控制字符"@,
            )
            &&& r == Err::<lobby::CandidateView, _>(RegistrationRefusal::Version) ==> {
                &&& step.next == Next::Break
                &&& step.actions@.len() == 2
                &&& step.actions@[0] matches Action::Reply(notice)
                &&& says_too_old(notice, version, minimum, settings.client_download_url@)
                &&& step.actions@[1] == Action::Pause(500)
            }
        }),
{
}

/// The notice for a client that is too old.
pub open spec fn says_too_old(
    notice: SignalingMessage,
    version: Seq<char>,
    minimum: Seq<char>,
    url: Seq<char>,
) -> bool {
    &&& notice matches SignalingMessage::VersionTooOld {
        message,
        current_version,
        minimum_version,
        download_url,
    }
    &&& message@ == "您的客户端版本过低（当前版本: "@ + version + "），请更新到最新版本（最低要求: "@ + minimum
        + "）"@
    &&& current_version@ == version
    &&& minimum_version@ == minimum
    &&& download_url@ == url
}

/// The retired form of registration is refused whoever sends it: clients that are
/// new enough are told to use the current form, and others that they are too old.
pub proof fn the_retired_form_is_refused(
    before: session::WorldView,
    after: session::WorldView,
    connection: Session,
    settings: Settings,
    message: SignalingMessage,
    draws: lobby::DrawsView,
    now: u64,
    step: Step,
)
    requires
        session::frame_ok(
            before,
            after,
            connection,
            settings,
            Frame::Message(message),
            draws,
            now,
            step,
        ),
        frame_laws::within_rate(connection, now),
        validation::message_ok(message),
        message is Register,
        before.registered is None || frame_laws::is_live(before, connection),
    ensures
        ({
            let minimum = settings.minimum_client_version@;
            let said = message->Register_client_version;
            let version = if said is Some {
                said->0@
            } else {
                "unknown"@
            };
            &&& after == before
            &&& config::version_accepted(version, minimum) ==> frame_laws::refuses(
                step,
                "已拒绝旧注册协议，请先等待 server-challenge 后使用 register-v3"@,
            )
            &&& !config::version_accepted(version, minimum) ==> {
                &&& step.next == Next::Break
                &&& step.actions@.len() == 1
                &&& step.actions@[0] matches Action::Reply(notice)
                &&& says_too_old(notice, version, minimum, settings.client_download_url@)
            }
        }),
{
}

/// What becomes of a candidate decides what it is told: in another lobby, locked out
/// or with a wrong password it is cut off; with an address that is taken or at a
/// lobby without room it may try again.
pub proof fn refused_candidates_are_told_why(
    before: session::WorldView,
    after: session::WorldView,
    connection: Session,
    settings: Settings,
    message: SignalingMessage,
    draws: lobby::DrawsView,
    now: u64,
    step: Step,
    candidate: lobby::CandidateView,
)
    requires
        registers(before, after, connection, settings, message, draws, now, step),
        before.registered is None,
        registration::registration_check(
            connection.challenge@,
            fields_of(message),
            settings.minimum_client_version@,
        ) == Ok::<_, RegistrationRefusal>(candidate),
    ensures
        ({
            let decision = lobby::join_decision(
                before.hub,
                before.failures,
                connection_guard::quota_of(connection.source_ip),
                candidate,
                now,
            );
            &&& match decision {
                JoinDecision::Elsewhere => frame_laws::refuses(step, "客户端身份已在使用中，请重新连接"@),
                JoinDecision::Locked => frame_laws::refuses(step, "密码错误次数过多，请稍后再试"@),
                JoinDecision::WrongPassword => frame_laws::refuses(step, "密码错误"@),
                JoinDecision::AddressTaken => complains(step, "virtualIp 已被大厅内其他成员使用"@),
                JoinDecision::Full => complains(
                    step,
                    "大厅人数已满（服务端上限 "@ + seq!['6', '4'] + " 人）"@,
                ),
                JoinDecision::Found => true,
                JoinDecision::Join => true,
            }
            &&& decision != JoinDecision::Found && decision != JoinDecision::Join ==> after.hub
                == before.hub && after.registered is None
        }),
{
    reveal_with_fuel(number::decimal, 2);
    assert(number::decimal(64) =~= seq!['6', '4']);
}

/// A candidate that gets in is registered under its own identity, in the lobby that
/// it named, for the session that was drawn. The connection that it replaces is
/// dropped first; it is told of its registration and of the roster; the others get
/// the new credential, where there are others, and everyone else is told of it.
pub proof fn admitted_candidates_are_introduced(
    before: session::WorldView,
    after: session::WorldView,
    connection: Session,
    settings: Settings,
    message: SignalingMessage,
    draws: lobby::DrawsView,
    now: u64,
    step: Step,
    candidate: lobby::CandidateView,
)
    requires
        registers(before, after, connection, settings, message, draws, now, step),
        before.registered is None,
        registration::registration_check(
            connection.challenge@,
            fields_of(message),
            settings.minimum_client_version@,
        ) == Ok::<_, RegistrationRefusal>(candidate),
        ({
            let decision = lobby::join_decision(
                before.hub,
                before.failures,
                connection_guard::quota_of(connection.source_ip),
                candidate,
                now,
            );
            decision == JoinDecision::Found || decision == JoinDecision::Join
        }),
    ensures
        ({
            let id = number::hex(security::sha256_of(encode_utf8(candidate.lobby_name)));
            let cid = candidate.client_id;
            let lobby = after.hub.lobbies[id];
            let actions = step.actions@;
            let comes_back = before.hub.lobbies.contains_key(id)
                && before.hub.lobbies[id].clients.contains_key(cid);
            let alone = lobby.clients.dom() == set![cid];
            let n: int = if comes_back {
                1
            } else {
                0
            };
            &&& after.registered matches Some(r) && r.client_id == cid && r.lobby_id == id
                && r.generation == draws.generation
            &&& after.hub.lobbies.contains_key(id)
            &&& lobby.clients.contains_key(cid)
            &&& lobby.clients[cid].sender == connection.sender
            &&& lobby.clients[cid].session_generation == draws.generation
            &&& step.next == Next::Continue
            &&& actions.len() == n + if alone {
                4int
            } else {
                5
            }
            &&& comes_back ==> actions[0] == Action::Disconnect(
                before.hub.lobbies[id].clients[cid].sender,
            )
            &&& actions[n] == Action::Confirm
            &&& actions[n + 1] matches Action::Reply(told) && tells_success(
                told,
                cid,
                draws.generation,
                id,
                lobby,
            )
            &&& actions[n + 2] matches Action::ReplyRoster { lobby: l, except } && l@ == id
                && except@ == cid
            &&& !alone ==> (actions[n + 3] matches Action::Rotate { lobby: l, targets, token, epoch }
                && l@ == id && token@ == draws.token && epoch == lobby.chat_token_epoch
                && host_laws::hands_to_all_but(targets@, lobby.clients, cid))
            &&& actions.last() matches Action::Broadcast { lobby: l, except, message: told } && l@
                == id && except@ == cid && tells_joined(told, candidate, draws.generation)
        }),
{
    let id = security::lobby_id_of(candidate.lobby_name);
    let cid = candidate.client_id;
    let members = after.hub.lobbies[id].clients;
    assert(members.contains_key(cid));
    if lobby::is_alone(after.hub.lobbies[id], cid) {
        assert(members.dom() =~= set![cid]);
    } else {
        let c = choose|c: Seq<char>| #[trigger] members.contains_key(c) && c != cid;
        assert(members.dom().contains(c) && !set![cid].contains(c));
    }
}

/// The message that tells a member of its registration.
pub open spec fn tells_success(
    told: SignalingMessage,
    cid: Seq<char>,
    generation: u64,
    id: Seq<char>,
    lobby: state::LobbyView,
) -> bool {
    &&& told matches SignalingMessage::RegisterSuccess {
        client_id,
        session_generation,
        lobby_id,
        host_id,
        max_players,
        is_public,
        muted_players,
        chat_token,
        chat_token_epoch,
    }
    &&& client_id@ == cid
    &&& session_generation == generation
    &&& lobby_id@ == id
    &&& host_id matches Some(host) && host@ == lobby.host_id
    &&& max_players == lobby.max_players
    &&& is_public == Some(lobby.is_public)
    &&& muted_players matches Some(muted) && forall|i: int|
        0 <= i < muted@.len() ==> lobby.muted.contains((#[trigger] muted@[i])@)
    &&& forall|i: int, j: int|
        0 <= i < j < muted_players->0@.len() ==> (#[trigger] muted_players->0@[i])@ != (
        #[trigger] muted_players->0@[j])@
    &&& forall|c: Seq<char>| #[trigger]
        lobby.muted.contains(c) ==> exists|i: int|
            0 <= i < muted_players->0@.len() && (#[trigger] muted_players->0@[i])@ == c
    &&& chat_token@ == lobby.chat_token
    &&& chat_token_epoch == lobby.chat_token_epoch
}

/// The message that tells the others of a new member.
pub open spec fn tells_joined(
    told: SignalingMessage,
    candidate: lobby::CandidateView,
    generation: u64,
) -> bool {
    &&& told matches SignalingMessage::PlayerJoined {
        player_id,
        player_name,
        virtual_ip,
        virtual_domain,
        use_domain,
        chat_public_key,
        session_generation,
    }
    &&& player_id@ == candidate.client_id
    &&& player_name@ == candidate.player_name
    &&& virtual_ip matches Some(ip) && ip@ == ip::v4_text(candidate.virtual_ip)
    &&& virtual_domain matches Some(domain) && domain@ == candidate.virtual_domain
    &&& use_domain == candidate.use_domain
    &&& match candidate.chat_public_key {
        Some(key) => chat_public_key matches Some(k) && k@ == key,
        None => chat_public_key is None,
    }
    &&& session_generation == generation
}

} // verus!
