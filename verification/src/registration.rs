//! Registration: what a client has to show, and what it is told.
use vstd::prelude::*;
use vstd::string::*;
use crate::config;
use crate::ip;
use crate::ip::Ipv4Addr;
use crate::limits::{
    MAX_CLIENT_ID_LEN, MAX_LOBBY_MEMBERS, MAX_LOBBY_NAME_LEN, MAX_LOBBY_PASSWORD_LEN,
    MAX_PLAYER_NAME_LEN, MAX_VIRTUAL_DOMAIN_LEN, SIGNALING_PROTOCOL_VERSION,
};
use crate::lobby;
use crate::lobby::{Candidate, JoinDecision};
use crate::number;
use crate::protocol::SignalingMessage;
use crate::security;
use crate::text;
use crate::validation;

verus! {

/// The settings that registration depends on.
pub struct Settings {
    pub minimum_client_version: String,
    pub client_download_url: String,
}

/// The fields of a registration. The domain name that the client asks for is
/// not among them: it follows from the identity.
pub struct RegisterFields {
    pub protocol_version: u32,
    pub identity_public_key: String,
    pub challenge_signature: String,
    pub player_name: String,
    pub virtual_ip: Option<String>,
    pub use_domain: Option<bool>,
    pub lobby_name: String,
    pub lobby_password: String,
    pub client_version: Option<String>,
}

/// Why a registration is refused before any lobby is looked at.
#[derive(Clone, Copy, Debug, PartialEq, Eq, Structural)]
pub enum RegistrationRefusal {
    Protocol,
    Address,
    Identity,
    Fields,
    Version,
}

// ---------------------------------------------------------------------------
// The proof and the fields
// ---------------------------------------------------------------------------
/// The version that a client reports.
pub open spec fn reported_version(client_version: Option<String>) -> Seq<char> {
    match client_version {
        Some(version) => version@,
        None => "unknown"@,
    }
}

/// The version is one that may register.
pub open spec fn version_admitted(client_version: Option<String>, minimum: Seq<char>) -> bool {
    reported_version(client_version) != "unknown"@ && config::version_accepted(
        reported_version(client_version),
        minimum,
    )
}

/// The virtual address that a registration asks for.
pub open spec fn requested_address(virtual_ip: Option<String>) -> Option<Ipv4Addr> {
    match virtual_ip {
        Some(s) => validation::virtual_ip_of(s@),
        None => None,
    }
}

/// The texts of a registration are within bounds.
pub open spec fn fields_ok(fields: RegisterFields, identity: security::IdentityView) -> bool {
    &&& validation::text_ok(identity.client_id, MAX_CLIENT_ID_LEN as nat, false)
    &&& validation::text_ok(fields.player_name@, MAX_PLAYER_NAME_LEN as nat, false)
    &&& validation::text_ok(fields.lobby_name@, MAX_LOBBY_NAME_LEN as nat, false)
    &&& validation::text_ok(fields.lobby_password@, MAX_LOBBY_PASSWORD_LEN as nat, true)
    &&& validation::text_ok(identity.virtual_domain, MAX_VIRTUAL_DOMAIN_LEN as nat, true)
}

/// The chat key of an identity.
pub open spec fn chat_key_of(public_key: Seq<char>) -> Option<Seq<char>> {
    if security::is_chat_public_key(text::trimmed(public_key)) {
        Some(text::trimmed(public_key))
    } else {
        None
    }
}

/// The candidate that a registration with a verified identity stands for.
pub open spec fn candidate_of(
    fields: RegisterFields,
    address: Ipv4Addr,
    identity: security::IdentityView,
) -> lobby::CandidateView {
    lobby::CandidateView {
        client_id: identity.client_id,
        player_name: fields.player_name@,
        virtual_ip: address,
        virtual_domain: identity.virtual_domain,
        use_domain: match fields.use_domain {
            Some(use_domain) => Some(use_domain),
            None => Some(true),
        },
        chat_public_key: chat_key_of(identity.public_key),
        lobby_name: fields.lobby_name@,
        lobby_password: fields.lobby_password@,
    }
}

/// What a registration comes to, in the order in which the grounds are checked.
pub open spec fn registration_check(
    challenge: Seq<char>,
    fields: RegisterFields,
    minimum: Seq<char>,
) -> Result<lobby::CandidateView, RegistrationRefusal> {
    if fields.protocol_version != SIGNALING_PROTOCOL_VERSION {
        Err(RegistrationRefusal::Protocol)
    } else {
        match requested_address(fields.virtual_ip) {
            None => Err(RegistrationRefusal::Address),
            Some(address) => match security::verified_identity(
                challenge,
                fields.lobby_name@,
                ip::v4_text(address),
                fields.identity_public_key@,
                fields.challenge_signature@,
            ) {
                None => Err(RegistrationRefusal::Identity),
                Some(identity) => if !fields_ok(fields, identity) {
                    Err(RegistrationRefusal::Fields)
                } else if !version_admitted(fields.client_version, minimum) {
                    Err(RegistrationRefusal::Version)
                } else {
                    Ok(candidate_of(fields, address, identity))
                },
            },
        }
    }
}

fn version_text(client_version: &Option<String>) -> (r: String)
    ensures
        r@ == reported_version(*client_version),
{
    match client_version {
        Some(version) => version.clone(),
        None => "unknown".to_owned(),
    }
}

/// Checks a registration whose identity has been verified.
pub fn check_fields(
    fields: &RegisterFields,
    address: Ipv4Addr,
    client_id: String,
    public_key: String,
    virtual_domain: String,
    minimum: &str,
) -> (r: Result<Candidate, RegistrationRefusal>)
    ensures
        ({
            let identity = security::IdentityView {
                client_id: client_id@,
                public_key: public_key@,
                virtual_domain: virtual_domain@,
            };
            match r {
                Ok(candidate) => fields_ok(*fields, identity) && version_admitted(
                    fields.client_version,
                    minimum@,
                ) && candidate@ == candidate_of(*fields, address, identity),
                Err(RegistrationRefusal::Fields) => !fields_ok(*fields, identity),
                Err(RegistrationRefusal::Version) => fields_ok(*fields, identity)
                    && !version_admitted(fields.client_version, minimum@),
                Err(_) => false,
            }
        }),
{
    if !validation::valid_text(client_id.as_str(), MAX_CLIENT_ID_LEN, false)
        || !validation::valid_text(fields.player_name.as_str(), MAX_PLAYER_NAME_LEN, false)
        || !validation::valid_text(fields.lobby_name.as_str(), MAX_LOBBY_NAME_LEN, false)
        || !validation::valid_text(fields.lobby_password.as_str(), MAX_LOBBY_PASSWORD_LEN, true)
        || !validation::valid_text(virtual_domain.as_str(), MAX_VIRTUAL_DOMAIN_LEN, true) {
        return Err(RegistrationRefusal::Fields);
    }
    let version = version_text(&fields.client_version);
    if text::same_text(version.as_str(), "unknown") || !config::is_version_valid(
        version.as_str(),
        minimum,
    ) {
        return Err(RegistrationRefusal::Version);
    }
    let use_domain = match fields.use_domain {
        Some(use_domain) => Some(use_domain),
        None => Some(true),
    };
    let chat_public_key = security::normalize_chat_public_key(Some(public_key));
    Ok(
        Candidate {
            client_id,
            player_name: fields.player_name.clone(),
            virtual_ip: address,
            virtual_domain,
            use_domain,
            chat_public_key,
            lobby_name: fields.lobby_name.clone(),
            lobby_password: fields.lobby_password.clone(),
        },
    )
}

/// Checks a registration against the challenge of its connection.
pub fn check_registration(challenge: &str, fields: &RegisterFields, minimum: &str) -> (r: Result<
    Candidate,
    RegistrationRefusal,
>)
    ensures
        match r {
            Ok(candidate) => registration_check(challenge@, *fields, minimum@) == Ok::<
                lobby::CandidateView,
                RegistrationRefusal,
            >(candidate@),
            Err(refusal) => registration_check(challenge@, *fields, minimum@) == Err::<
                lobby::CandidateView,
                RegistrationRefusal,
            >(refusal),
        },
{
    if fields.protocol_version != SIGNALING_PROTOCOL_VERSION {
        return Err(RegistrationRefusal::Protocol);
    }
    let requested = match &fields.virtual_ip {
        Some(s) => validation::parse_virtual_ipv4(Some(s.as_str())),
        None => None,
    };
    let address = match requested {
        Some(address) => address,
        None => {
            return Err(RegistrationRefusal::Address);
        },
    };
    match security::verify_registration_identity(
        challenge,
        fields.lobby_name.as_str(),
        address.to_text().as_str(),
        fields.identity_public_key.as_str(),
        fields.challenge_signature.as_str(),
    ) {
        Some((client_id, public_key, virtual_domain)) => check_fields(
            fields,
            address,
            client_id,
            public_key,
            virtual_domain,
            minimum,
        ),
        None => Err(RegistrationRefusal::Identity),
    }
}

// ---------------------------------------------------------------------------
// Answers
// ---------------------------------------------------------------------------
/// What a client that is too old is told.
pub open spec fn is_version_notice(
    message: SignalingMessage,
    version: Seq<char>,
    settings: Settings,
) -> bool {
    &&& message matches SignalingMessage::VersionTooOld {
        message: text,
        current_version,
        minimum_version,
        download_url,
    }
    &&& text@ == "您的客户端版本过低（当前版本: "@ + version + "），请更新到最新版本（最低要求: "@
        + settings.minimum_client_version@ + "）"@
    &&& current_version@ == version
    &&& minimum_version@ == settings.minimum_client_version@
    &&& download_url@ == settings.client_download_url@
}

/// Tells a client that it is too old.
pub fn version_notice(version: &str, settings: &Settings) -> (r: SignalingMessage)
    ensures
        is_version_notice(r, version@, *settings),
{
    let mut message = "您的客户端版本过低（当前版本: ".to_owned();
    message.append(version);
    message.append("），请更新到最新版本（最低要求: ");
    message.append(settings.minimum_client_version.as_str());
    message.append("）");
    assert(message@ =~= "您的客户端版本过低（当前版本: "@ + version@
        + "），请更新到最新版本（最低要求: "@ + settings.minimum_client_version@ + "）"@);
    SignalingMessage::VersionTooOld {
        message,
        current_version: version.to_owned(),
        minimum_version: settings.minimum_client_version.clone(),
        download_url: settings.client_download_url.clone(),
    }
}

/// The message is an error with the given text.
pub open spec fn is_error(message: SignalingMessage, reason: Seq<char>) -> bool {
    message matches SignalingMessage::RegisterError { message: text } && text@ == reason
}

pub fn error_reply(reason: &str) -> (r: SignalingMessage)
    ensures
        is_error(r, reason@),
{
    SignalingMessage::RegisterError { message: reason.to_owned() }
}

/// What a client is told whose registration is refused.
pub open spec fn is_refusal_reply(
    message: SignalingMessage,
    refusal: RegistrationRefusal,
    version: Seq<char>,
    settings: Settings,
) -> bool {
    match refusal {
        RegistrationRefusal::Protocol => is_error(
            message,
            "不支持的信令协议版本，要求 "@ + number::decimal(SIGNALING_PROTOCOL_VERSION as nat),
        ),
        RegistrationRefusal::Address => is_error(message, "virtualIp 必须位于 10.126.126.1-254"@),
        RegistrationRefusal::Identity => is_error(message, "身份公钥或 challengeSignature 无效"@),
        RegistrationRefusal::Fields => is_error(message, "注册字段为空、过长或包含控制字符"@),
        RegistrationRefusal::Version => is_version_notice(message, version, settings),
    }
}

/// A refusal after which the client may try again on the same connection.
pub open spec fn may_retry(refusal: RegistrationRefusal) -> bool {
    refusal == RegistrationRefusal::Address || refusal == RegistrationRefusal::Fields
}

/// Answers a registration that is refused.
pub fn refusal_reply(
    refusal: RegistrationRefusal,
    client_version: &Option<String>,
    settings: &Settings,
) -> (r: SignalingMessage)
    ensures
        is_refusal_reply(r, refusal, reported_version(*client_version), *settings),
{
    match refusal {
        RegistrationRefusal::Protocol => {
            let mut message = "不支持的信令协议版本，要求 ".to_owned();
            number::push_decimal(&mut message, SIGNALING_PROTOCOL_VERSION as u64);
            error_reply(message.as_str())
        },
        RegistrationRefusal::Address => error_reply("virtualIp 必须位于 10.126.126.1-254"),
        RegistrationRefusal::Identity => error_reply("身份公钥或 challengeSignature 无效"),
        RegistrationRefusal::Fields => error_reply("注册字段为空、过长或包含控制字符"),
        RegistrationRefusal::Version => version_notice(
            version_text(client_version).as_str(),
            settings,
        ),
    }
}

/// What a candidate is told that is not let in.
pub open spec fn join_refusal(decision: JoinDecision) -> Option<Seq<char>> {
    match decision {
        JoinDecision::Elsewhere => Some("客户端身份已在使用中，请重新连接"@),
        JoinDecision::Locked => Some("密码错误次数过多，请稍后再试"@),
        JoinDecision::WrongPassword => Some("密码错误"@),
        JoinDecision::AddressTaken => Some("virtualIp 已被大厅内其他成员使用"@),
        JoinDecision::Full => Some(
            "大厅人数已满（服务端上限 "@ + number::decimal(MAX_LOBBY_MEMBERS as nat) + " 人）"@,
        ),
        JoinDecision::Found => None,
        JoinDecision::Join => None,
    }
}

/// A refusal after which the candidate may try again on the same connection. A
/// wrong password ends it, so that every guess takes a new handshake and a new
/// signature.
pub open spec fn may_rejoin(decision: JoinDecision) -> bool {
    decision == JoinDecision::AddressTaken || decision == JoinDecision::Full
}

/// Answers a candidate that is not let in.
pub fn join_refusal_reply(decision: JoinDecision) -> (r: Option<SignalingMessage>)
    ensures
        match r {
            Some(message) => join_refusal(decision) matches Some(reason) && is_error(
                message,
                reason,
            ),
            None => join_refusal(decision) is None,
        },
{
    match decision {
        JoinDecision::Elsewhere => Some(error_reply("客户端身份已在使用中，请重新连接")),
        JoinDecision::Locked => Some(error_reply("密码错误次数过多，请稍后再试")),
        JoinDecision::WrongPassword => Some(error_reply("密码错误")),
        JoinDecision::AddressTaken => Some(error_reply("virtualIp 已被大厅内其他成员使用")),
        JoinDecision::Full => {
            let mut message = "大厅人数已满（服务端上限 ".to_owned();
            number::push_decimal(&mut message, MAX_LOBBY_MEMBERS as u64);
            message.append(" 人）");
            Some(error_reply(message.as_str()))
        },
        JoinDecision::Found => None,
        JoinDecision::Join => None,
    }
}

} // verus!
