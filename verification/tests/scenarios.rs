use base64::Engine;
use mctier_signaling_server::community_nodes::{community_node_list, ProbeOutcome};
use mctier_signaling_server::connection_guard::{Admission, ForwardedHeaders};
use mctier_signaling_server::delivery::{
    broadcast_to_lobby, send_chat_token_rotation, send_to_lobby_client,
};
use mctier_signaling_server::ip::{parse_ip, IpAddr};
use mctier_signaling_server::limits::{
    CHALLENGE_BYTES, CHAT_TOKEN_BYTES, MAX_LOBBY_MEMBERS, MAX_MESSAGES_PER_WINDOW,
    MAX_REGISTER_PASSWORD_FAILURES, NANOS_PER_SEC, SIGNALING_PROTOCOL_VERSION,
};
use mctier_signaling_server::lobby::{
    join, leave, rotate_chat_token, Candidate, Draws, JoinDecision,
};
use mctier_signaling_server::moderation::{kick, public_lobbies};
use mctier_signaling_server::node_submission::{
    begin_submission, finish_submission, reject_submission, Submitters,
};
use mctier_signaling_server::password_failures::RegisterPasswordFailures;
use mctier_signaling_server::protocol::{
    CommunityNodeInfo, OfferData, PlayerInfo, SignalingMessage,
};
use mctier_signaling_server::registration::Settings;
use mctier_signaling_server::security::registration_canonical;
use mctier_signaling_server::session::{
    end_session, frame_step, handle_frame, open_session, Action, Frame, Next, Session,
};
use mctier_signaling_server::state::{current_players, is_current_session, Hub};
use mctier_signaling_server::table::Table;
use mctier_signaling_server::validation::{parse_virtual_ipv4, validate_message_shape};
use p256::ecdsa::{signature::Signer, SigningKey};
use p256::pkcs8::EncodePublicKey;
use sha2::{Digest, Sha256};
use std::collections::{HashMap, HashSet};

// ---------------------------------------------------------------------------
// A server without a network
// ---------------------------------------------------------------------------
struct Server {
    hub: Hub,
    failures: RegisterPasswordFailures,
    settings: Settings,
    nodes: Table<String, CommunityNodeInfo>,
    inbox: HashMap<u64, Vec<SignalingMessage>>,
    ended: HashSet<u64>,
    submitted: Vec<(String, String)>,
    next_transport: u64,
    now: u64,
}

fn ip(s: &str) -> IpAddr {
    parse_ip(&s.chars().collect::<Vec<_>>()).unwrap()
}

fn server() -> Server {
    Server {
        hub: Hub::new(),
        failures: RegisterPasswordFailures::new(),
        settings: Settings {
            minimum_client_version: "3.0.0".to_string(),
            client_download_url: "https://mctier.pmhs.top".to_string(),
        },
        nodes: Table::new(),
        inbox: HashMap::new(),
        ended: HashSet::new(),
        submitted: Vec::new(),
        next_transport: 1,
        now: 1_000 * NANOS_PER_SEC,
    }
}

impl Server {
    fn connect(&mut self) -> Session {
        let transport = self.next_transport;
        self.next_transport += 1;
        open_session(ip("192.0.2.50"), transport, self.now)
    }

    fn deliver(&mut self, transport: u64, message: SignalingMessage) {
        if !self.ended.contains(&transport) {
            self.inbox.entry(transport).or_default().push(message);
        }
    }

    fn perform(&mut self, session: &Session, actions: Vec<Action>) {
        let own = session.sender;
        for action in actions {
            match action {
                Action::Reply(message) => self.deliver(own, message),
                Action::Close => {
                    self.ended.insert(own);
                }
                Action::Pause(_) => {}
                Action::Disconnect(transport) => {
                    if transport == own {
                        self.ended.insert(transport);
                    }
                    self.ended.insert(transport + 1_000_000);
                }
                Action::Confirm => {
                    let registered = session.registered.as_ref().unwrap();
                    if !is_current_session(
                        &self.hub,
                        &registered.lobby_id,
                        &registered.client_id,
                        registered.generation,
                        own,
                    ) {
                        return;
                    }
                }
                Action::ReplyRoster { lobby, except } => {
                    let players = current_players(&self.hub, &lobby, Some(&except));
                    self.deliver(own, SignalingMessage::PlayersList { players });
                }
                Action::Direct { lobby, target, message } => {
                    if let Some(direct) =
                        send_to_lobby_client(&self.hub, &lobby, &target, String::new())
                    {
                        self.deliver(direct.transport, message);
                    }
                }
                Action::Broadcast { lobby, except, message } => {
                    if let Some(broadcast) =
                        broadcast_to_lobby(&self.hub, &lobby, &except, String::new())
                    {
                        for (_, transport) in broadcast.targets {
                            self.deliver(transport, message.clone());
                        }
                    }
                }
                Action::Rotate { lobby, targets, token, epoch } => {
                    let transports =
                        send_chat_token_rotation(&self.hub, &targets, &lobby, &token, epoch);
                    for transport in transports {
                        self.deliver(
                            transport,
                            SignalingMessage::ChatTokenRotated {
                                lobby_id: lobby.clone(),
                                chat_token: token.clone(),
                                chat_token_epoch: epoch,
                            },
                        );
                    }
                }
                Action::SendTo { transport, message } => self.deliver(transport, message),
                Action::CloseTransport(transport) => {
                    self.ended.insert(transport);
                }
                Action::ReplyNodes => {
                    let nodes = community_node_list(&self.nodes);
                    self.deliver(own, SignalingMessage::CommunityNodeListResponse { nodes });
                }
                Action::SubmitNode { name, address, .. } => self.submitted.push((name, address)),
            }
        }
    }

    fn frame(&mut self, session: &mut Session, frame: Frame) -> Next {
        let step = handle_frame(
            session,
            &mut self.hub,
            &mut self.failures,
            &self.settings,
            frame,
            self.now,
        );
        self.perform(session, step.actions);
        if step.next == Next::Break {
            self.disconnect(session);
        }
        step.next
    }

    fn send(&mut self, session: &mut Session, message: SignalingMessage) -> Next {
        self.frame(session, Frame::Message(message))
    }

    fn disconnect(&mut self, session: &Session) {
        let actions = end_session(session, &mut self.hub);
        self.perform(session, actions);
        self.ended.insert(session.sender);
    }

    fn received(&mut self, session: &Session) -> Vec<SignalingMessage> {
        self.inbox.remove(&session.sender).unwrap_or_default()
    }

    fn register(&mut self, label: &str, lobby: &str) -> Session {
        let mut session = self.connect();
        let message = registration(&session, label, lobby, "password", &test_virtual_ip(label));
        assert_eq!(self.send(&mut session, message), Next::Continue);
        let told = self.received(&session);
        assert!(matches!(told[0], SignalingMessage::RegisterSuccess { .. }));
        assert!(matches!(told[1], SignalingMessage::PlayersList { .. }));
        assert_eq!(told.len(), 2);
        session
    }

    fn try_register(
        &mut self,
        label: &str,
        lobby: &str,
        password: &str,
        address: &str,
    ) -> (Session, Vec<SignalingMessage>, Next) {
        let mut session = self.connect();
        let message = registration(&session, label, lobby, password, address);
        let next = self.send(&mut session, message);
        let told = self.received(&session);
        (session, told, next)
    }
}

fn test_virtual_ip(client_id: &str) -> String {
    let digest = Sha256::digest(client_id.as_bytes());
    let host = ((u16::from(digest[0]) << 8) | u16::from(digest[1])) % 254 + 1;
    format!("10.126.126.{host}")
}

fn test_signing_key(label: &str) -> SigningKey {
    let mut bytes = [0u8; 32];
    let digest = Sha256::digest(format!("mctier-test-identity:{label}").as_bytes());
    bytes.copy_from_slice(&digest);
    for _ in 0..256 {
        if let Ok(key) = SigningKey::from_slice(&bytes) {
            return key;
        }
        bytes[31] = bytes[31].wrapping_add(1);
    }
    panic!("unable to derive a test P-256 key");
}

fn test_identity_key(label: &str) -> (SigningKey, String, String) {
    let key = test_signing_key(label);
    let der = key
        .verifying_key()
        .to_public_key_der()
        .expect("test public key should encode");
    let encoded = base64::engine::general_purpose::STANDARD.encode(der.as_bytes());
    let digest = Sha256::digest(der.as_bytes());
    let client_id = digest.iter().map(|byte| format!("{byte:02x}")).collect();
    (key, encoded, client_id)
}

fn test_client_id(label: &str) -> String {
    test_identity_key(label).2
}

fn registration(
    session: &Session,
    label: &str,
    lobby: &str,
    password: &str,
    address: &str,
) -> SignalingMessage {
    let (key, identity_public_key, _) = test_identity_key(label);
    let signature: p256::ecdsa::Signature =
        key.sign(&registration_canonical(&session.challenge, lobby, address));
    SignalingMessage::RegisterV3 {
        protocol_version: SIGNALING_PROTOCOL_VERSION,
        identity_public_key,
        challenge_signature: base64::engine::general_purpose::STANDARD
            .encode(signature.to_der().as_bytes()),
        player_name: label.to_string(),
        virtual_ip: Some(address.to_string()),
        lobby_name: lobby.to_string(),
        lobby_password: password.to_string(),
        client_version: Some("3.0.0".to_string()),
        virtual_domain: None,
        use_domain: None,
    }
}

fn offer(from: &str, to: &str, sdp: &str) -> SignalingMessage {
    SignalingMessage::Offer {
        from: from.to_string(),
        to: to.to_string(),
        offer: OfferData {
            sdp_type: "offer".to_string(),
            sdp: sdp.to_string(),
        },
        player_name: Some("made up".to_string()),
    }
}

fn error_of(message: &SignalingMessage) -> &str {
    match message {
        SignalingMessage::RegisterError { message } => message,
        other => panic!("expected an error, got {other:?}"),
    }
}

/// The lobby id, host id, token and epoch that a success tells.
fn success_of(message: &SignalingMessage) -> (String, String, String, u64, u64) {
    match message {
        SignalingMessage::RegisterSuccess {
            lobby_id,
            host_id,
            chat_token,
            chat_token_epoch,
            session_generation,
            ..
        } => (
            lobby_id.clone(),
            host_id.clone().unwrap(),
            chat_token.clone(),
            *chat_token_epoch,
            *session_generation,
        ),
        other => panic!("expected a success, got {other:?}"),
    }
}

fn rotation_of(message: &SignalingMessage) -> (String, u64) {
    match message {
        SignalingMessage::ChatTokenRotated { chat_token, chat_token_epoch, .. } => {
            (chat_token.clone(), *chat_token_epoch)
        }
        other => panic!("expected a rotation, got {other:?}"),
    }
}

fn roster_of(message: &SignalingMessage) -> &Vec<PlayerInfo> {
    match message {
        SignalingMessage::PlayersList { players } => players,
        other => panic!("expected a roster, got {other:?}"),
    }
}

fn is_joined(message: &SignalingMessage) -> bool {
    matches!(message, SignalingMessage::PlayerJoined { .. })
}

fn is_left(message: &SignalingMessage) -> bool {
    matches!(message, SignalingMessage::PlayerLeft { .. })
}

// ---------------------------------------------------------------------------
// Registration
// ---------------------------------------------------------------------------
#[test]
fn websocket_client_can_register_before_deadline() {
    let mut server = server();
    let session = server.connect();
    match session.greeting() {
        SignalingMessage::ServerChallenge { challenge, protocol_version } => {
            assert_eq!(challenge.len(), CHALLENGE_BYTES * 2);
            assert_eq!(protocol_version, SIGNALING_PROTOCOL_VERSION);
        }
        other => panic!("unexpected greeting {other:?}"),
    }
    assert!(validate_message_shape(&session.greeting()));
    let registered = server.register("client", "room");
    let r = registered.registered.as_ref().unwrap();
    assert_eq!(r.client_id, test_client_id("client"));
    assert_eq!(server.hub.lobbies.len(), 1);
}

fn old_registration(version: Option<&str>) -> SignalingMessage {
    SignalingMessage::Register {
        client_id: "legacy".to_string(),
        player_name: "Legacy".to_string(),
        virtual_ip: Some("10.126.126.10".to_string()),
        virtual_domain: None,
        use_domain: None,
        lobby_name: "room".to_string(),
        lobby_password: "password".to_string(),
        client_version: version.map(str::to_string),
        chat_public_key: None,
    }
}

#[test]
fn legacy_register_old_versions_receive_upgrade_error_and_disconnect() {
    for version in [Some("2.7.5"), Some("2.9.99"), None] {
        let mut server = server();
        let mut session = server.connect();
        assert_eq!(server.send(&mut session, old_registration(version)), Next::Break);
        match &server.received(&session)[0] {
            SignalingMessage::VersionTooOld {
                message,
                current_version,
                minimum_version,
                download_url,
            } => {
                let version = version.unwrap_or("unknown");
                assert_eq!(current_version, version);
                assert_eq!(minimum_version, "3.0.0");
                assert_eq!(download_url, "https://mctier.pmhs.top");
                assert_eq!(
                    *message,
                    format!("您的客户端版本过低（当前版本: {version}），请更新到最新版本（最低要求: 3.0.0）")
                );
            }
            other => panic!("unexpected {other:?}"),
        }
        assert_eq!(server.hub.lobbies.len(), 0);
    }
}

#[test]
fn legacy_register_protocol_is_rejected_after_challenge() {
    let mut server = server();
    let mut session = server.connect();
    assert_eq!(server.send(&mut session, old_registration(Some("3.0.0"))), Next::Break);
    let told = server.received(&session);
    assert!(error_of(&told[0]).contains("register-v3"));
    assert_eq!(server.hub.lobbies.len(), 0);
}

#[test]
fn each_bad_registration_is_refused_for_its_own_reason() {
    let mut server = server();
    let mut attempt = |change: &dyn Fn(&mut SignalingMessage)| {
        let mut session = server.connect();
        let mut message = registration(&session, "someone", "room", "pw", "10.126.126.9");
        change(&mut message);
        let next = server.send(&mut session, message);
        (server.received(&session), next)
    };
    let (told, next) = attempt(&|m| {
        if let SignalingMessage::RegisterV3 { protocol_version, .. } = m {
            *protocol_version = 2;
        }
    });
    assert_eq!(error_of(&told[0]), "不支持的信令协议版本，要求 3");
    assert_eq!(next, Next::Break);
    let (told, next) = attempt(&|m| {
        if let SignalingMessage::RegisterV3 { virtual_ip, .. } = m {
            *virtual_ip = Some("10.126.126.255".to_string());
        }
    });
    assert_eq!(error_of(&told[0]), "virtualIp 必须位于 10.126.126.1-254");
    assert_eq!(next, Next::Continue);
    let (told, next) = attempt(&|m| {
        if let SignalingMessage::RegisterV3 { lobby_name, .. } = m {
            *lobby_name = "another".to_string();
        }
    });
    assert_eq!(error_of(&told[0]), "身份公钥或 challengeSignature 无效");
    assert_eq!(next, Next::Break);
    let (told, next) = attempt(&|m| {
        if let SignalingMessage::RegisterV3 { player_name, .. } = m {
            *player_name = " ".to_string();
        }
    });
    assert_eq!(error_of(&told[0]), "信令字段无效或超出长度限制");
    assert_eq!(next, Next::Break);
    for version in [None, Some("2.9.9"), Some("unknown"), Some("x")] {
        let (told, next) = attempt(&|m| {
            if let SignalingMessage::RegisterV3 { client_version, .. } = m {
                *client_version = version.map(str::to_string);
            }
        });
        assert!(matches!(told[0], SignalingMessage::VersionTooOld { .. }));
        assert_eq!(next, Next::Break);
    }
    let (told, next) = attempt(&|_| {});
    assert!(matches!(told[0], SignalingMessage::RegisterSuccess { .. }));
    assert_eq!(next, Next::Continue);
}

#[test]
fn a_second_registration_on_a_connection_ends_it() {
    let mut server = server();
    let mut session = server.register("host", "room");
    let again = registration(&session, "host", "room", "password", &test_virtual_ip("host"));
    assert_eq!(server.send(&mut session, again), Next::Break);
    assert!(server.received(&session).is_empty());
    assert_eq!(server.hub.lobbies.len(), 0);
}

#[test]
fn an_identity_is_in_one_lobby_at_a_time() {
    let mut server = server();
    server.register("host", "room");
    let (_, told, next) = server.try_register("host", "other", "pw", "10.126.126.3");
    assert_eq!(error_of(&told[0]), "客户端身份已在使用中，请重新连接");
    assert_eq!(next, Next::Break);
    assert_eq!(server.hub.lobbies.len(), 1);
}

#[test]
fn registration_rejects_non_routable_and_duplicate_virtual_ips() {
    let mut server = server();
    for (index, address) in [
        "127.0.0.1",
        "0.0.0.0",
        "169.254.1.1",
        "224.0.0.1",
        "255.255.255.255",
        "10.126.126.0",
        "10.126.126.255",
        "10.126.125.10",
        "192.168.1.10",
        "8.8.8.8",
        "::1",
        "::",
        "2001:db8::1",
    ]
    .iter()
    .enumerate()
    {
        let (_, told, _) =
            server.try_register(&format!("invalid-{index}"), "room", "password", address);
        error_of(&told[0]);
    }
    assert_eq!(server.hub.lobbies.len(), 0);

    server.register("host-id", "room");
    let (mut other, told, next) =
        server.try_register("other-id", "room", "password", &test_virtual_ip("host-id"));
    assert_eq!(error_of(&told[0]), "virtualIp 已被大厅内其他成员使用");
    assert_eq!(next, Next::Continue);
    let message = registration(&other, "other-id", "room", "password", &test_virtual_ip("other-id"));
    assert_eq!(server.send(&mut other, message), Next::Continue);
    assert!(other.registered.is_some());
}

#[test]
fn repeated_wrong_passwords_close_connections_and_lock_the_source() {
    let mut server = server();
    let (_, told, _) = server.try_register("brute-host", "brute-room", "correct", "10.126.126.1");
    success_of(&told[0]);
    for _ in 0..MAX_REGISTER_PASSWORD_FAILURES {
        let (_, told, next) = server.try_register("brute", "brute-room", "bad", "10.126.126.2");
        assert_eq!(error_of(&told[0]), "密码错误");
        assert_eq!(told.len(), 1);
        assert_eq!(next, Next::Break);
    }
    let (_, told, next) = server.try_register("brute", "brute-room", "correct", "10.126.126.3");
    assert_eq!(error_of(&told[0]), "密码错误次数过多，请稍后再试");
    assert_eq!(next, Next::Break);

    server.now += 301 * NANOS_PER_SEC;
    let (_, told, _) = server.try_register("brute", "brute-room", "correct", "10.126.126.3");
    success_of(&told[0]);
}

#[test]
fn the_right_password_clears_the_record() {
    let mut server = server();
    server.try_register("host", "room", "correct", "10.126.126.1");
    for _ in 0..MAX_REGISTER_PASSWORD_FAILURES - 1 {
        server.try_register("guest", "room", "bad", "10.126.126.2");
    }
    let (guest, told, _) = server.try_register("guest", "room", "correct", "10.126.126.2");
    success_of(&told[0]);
    server.disconnect(&guest);
    for _ in 0..MAX_REGISTER_PASSWORD_FAILURES {
        let (_, told, _) = server.try_register("guest", "room", "bad", "10.126.126.2");
        assert_eq!(error_of(&told[0]), "密码错误");
    }
}

#[test]
fn wrong_password_cannot_create_a_second_room_or_obtain_credentials() {
    let mut server = server();
    let (host, told, _) =
        server.try_register("password-host", "unique-room", "correct", "10.126.126.1");
    let accepted = success_of(&told[0]);
    roster_of(&told[1]);
    let (_, told, _) =
        server.try_register("password-wrong", "unique-room", "incorrect", "10.126.126.2");
    assert_eq!(error_of(&told[0]), "密码错误");
    assert_eq!(told.len(), 1);
    let (_, told, _) =
        server.try_register("password-member", "unique-room", "correct", "10.126.126.3");
    let joined = success_of(&told[0]);
    assert_eq!(joined.0, accepted.0);
    let heard = server.received(&host);
    rotation_of(&heard[0]);
    assert!(is_joined(&heard[1]));
    assert_eq!(server.hub.lobbies.len(), 1);
}

#[test]
fn wrong_password_is_rejected_and_does_not_create_ghost_lobby() {
    let mut server = server();
    let host = server.register("host_user", "private_room");
    let lobby = host.registered.as_ref().unwrap().lobby_id.clone();
    let (_, told, _) =
        server.try_register("peer_user", "private_room", "wrong_pass", "10.126.126.12");
    assert_eq!(error_of(&told[0]), "密码错误");
    assert_eq!(told.len(), 1);
    let (_, told, _) =
        server.try_register("correct_peer", "private_room", "password", "10.126.126.13");
    assert_eq!(success_of(&told[0]).0, lobby);
    assert_eq!(server.hub.lobbies.len(), 1);
}

#[test]
fn separator_in_lobby_credentials_cannot_merge_distinct_rooms() {
    let mut server = server();
    let (_, told, _) =
        server.try_register("separator-host", "alpha:beta", "gamma", "10.126.126.1");
    let first = success_of(&told[0]);
    let (_, told, _) =
        server.try_register("separator-other", "alpha", "beta:gamma", "10.126.126.2");
    let second = success_of(&told[0]);
    assert_ne!(first.0, second.0);
    assert_ne!(first.1, second.1);
    assert_ne!(first.2, second.2);
    assert!(roster_of(&told[1])
        .iter()
        .all(|player| player.player_id != test_client_id("separator-host")));
}

// ---------------------------------------------------------------------------
// Membership
// ---------------------------------------------------------------------------
#[test]
fn chat_public_keys_reach_peers_bound_to_their_owner() {
    let mut server = server();
    let (host, told, _) =
        server.try_register("host-id", "room", "password", &test_virtual_ip("host-id"));
    let host_success = success_of(&told[0]);
    let (_, told, _) =
        server.try_register("peer-id", "room", "password", &test_virtual_ip("peer-id"));
    let peer_success = success_of(&told[0]);

    let (_, host_key, host_id) = test_identity_key("host-id");
    let (_, peer_key, peer_id) = test_identity_key("peer-id");
    let players = roster_of(&told[1]);
    assert_eq!(players.len(), 1);
    assert_eq!(players[0].player_id, host_id);
    assert_eq!(players[0].chat_public_key.as_deref(), Some(host_key.as_str()));
    assert_eq!(players[0].session_generation, host_success.4);
    assert_eq!(players[0].use_domain, Some(true));
    assert_eq!(
        players[0].virtual_domain.as_deref(),
        Some(format!("{}.mct.net", &host_id[..32]).as_str())
    );

    let heard = server.received(&host);
    rotation_of(&heard[0]);
    match &heard[1] {
        SignalingMessage::PlayerJoined {
            player_id,
            chat_public_key,
            session_generation,
            virtual_ip,
            ..
        } => {
            assert_eq!(*player_id, peer_id);
            assert_eq!(chat_public_key.as_deref(), Some(peer_key.as_str()));
            assert_eq!(*session_generation, peer_success.4);
            assert_eq!(virtual_ip.as_deref(), Some(test_virtual_ip("peer-id").as_str()));
        }
        other => panic!("unexpected {other:?}"),
    }
}

#[test]
fn membership_changes_rotate_chat_token_without_broadcasting_it_in_roster_events() {
    let mut server = server();
    let (host, told, _) =
        server.try_register("host-id", "room", "password", &test_virtual_ip("host-id"));
    let (_, _, first_token, first_epoch, _) = success_of(&told[0]);
    assert_eq!(first_token.len(), CHAT_TOKEN_BYTES * 2);
    assert!(first_token.chars().all(|ch| ch.is_ascii_hexdigit()));
    assert_eq!(first_epoch, 1);

    let (peer, told, _) =
        server.try_register("peer-id", "room", "password", &test_virtual_ip("peer-id"));
    let (_, _, second_token, second_epoch, _) = success_of(&told[0]);
    assert_ne!(second_token, first_token);
    assert_eq!(second_epoch, 2);

    let heard = server.received(&host);
    assert_eq!(rotation_of(&heard[0]), (second_token.clone(), 2));
    assert!(is_joined(&heard[1]));

    server.frame(&mut { peer }, Frame::Close);
    let heard = server.received(&host);
    assert!(is_left(&heard[0]));
    let (token, epoch) = rotation_of(&heard[1]);
    assert_eq!(epoch, 3);
    assert_ne!(token, second_token);
}

#[test]
fn explicit_leave_immediately_removes_member_and_rotates_token() {
    let mut server = server();
    let host = server.register("host-id", "room");
    let mut peer = server.register("peer-id", "room");
    server.received(&host);
    let message = SignalingMessage::Leave {
        client_id: test_client_id("peer-id"),
    };
    assert_eq!(server.send(&mut peer, message), Next::Break);
    let heard = server.received(&host);
    assert!(is_left(&heard[0]));
    rotation_of(&heard[1]);
    assert_eq!(heard.len(), 2);
}

#[test]
fn the_host_role_falls_to_someone_who_is_left() {
    let mut server = server();
    let host = server.register("host-id", "room");
    let peer = server.register("peer-id", "room");
    server.received(&host);
    server.disconnect(&host);
    let heard = server.received(&peer);
    assert!(is_left(&heard[0]));
    rotation_of(&heard[1]);
    match &heard[2] {
        SignalingMessage::HostChanged { host_id } => assert_eq!(*host_id, test_client_id("peer-id")),
        other => panic!("unexpected {other:?}"),
    }
    server.disconnect(&peer);
    assert_eq!(server.hub.lobbies.len(), 0);
    assert_eq!(server.hub.client_lobby.len(), 0);
}

#[test]
fn same_client_id_reconnect_replaces_existing_session() {
    let mut server = server();
    let mut first = server.register("same-id", "same-room");
    let (second, told, _) =
        server.try_register("same-id", "same-room", "password", &test_virtual_ip("same-id"));
    success_of(&told[0]);
    assert!(roster_of(&told[1]).is_empty());
    assert!(server.ended.contains(&(first.sender + 1_000_000)));
    assert_eq!(server.send(&mut first, SignalingMessage::Ping), Next::Break);
    assert!(server.received(&first).is_empty());
    let lobby = second.registered.as_ref().unwrap().lobby_id.clone();
    assert_eq!(current_players(&server.hub, &lobby, None).len(), 1);
}

#[test]
fn half_open_session_is_reclaimed_so_same_id_can_reconnect() {
    let mut server = server();
    let ghost = server.register("ghost-id", "room");
    server.disconnect(&ghost);
    let (_, told, _) =
        server.try_register("ghost-id", "room", "password", &test_virtual_ip("ghost-id"));
    success_of(&told[0]);
}

#[test]
fn a_replaced_connection_ends_without_a_trace() {
    let mut server = server();
    let first = server.register("same-id", "same-room");
    let second = server.register("same-id", "same-room");
    server.disconnect(&first);
    let r = second.registered.as_ref().unwrap();
    assert!(is_current_session(&server.hub, &r.lobby_id, &r.client_id, r.generation, second.sender));
    assert!(server.received(&second).is_empty());
}

fn candidate(index: u8, lobby: &str) -> Candidate {
    Candidate {
        client_id: format!("client-{index}"),
        player_name: format!("player {index}"),
        virtual_ip: parse_virtual_ipv4(Some(&format!("10.126.126.{index}"))).unwrap(),
        virtual_domain: String::new(),
        use_domain: None,
        chat_public_key: None,
        lobby_name: lobby.to_string(),
        lobby_password: String::new(),
    }
}

fn draws(index: u64) -> Draws {
    Draws {
        salt: format!("salt-{index}"),
        token: format!("token-{index}"),
        generation: 1_000_000_000_000_000 + index,
    }
}

#[test]
fn lobbies_hold_a_bounded_number_of_members() {
    let mut hub = Hub::new();
    let mut failures = RegisterPasswordFailures::new();
    for index in 1..=MAX_LOBBY_MEMBERS as u8 {
        let (decision, welcome) = join(
            &mut hub,
            &mut failures,
            &candidate(index, "room"),
            ip("1.1.1.1"),
            draws(index as u64),
            index as u64,
            0,
        );
        let welcome = welcome.unwrap();
        assert_eq!(decision, if index == 1 { JoinDecision::Found } else { JoinDecision::Join });
        assert_eq!(welcome.others.len(), index as usize - 1);
        assert_eq!(welcome.chat_token, format!("token-{index}"));
        assert_eq!(welcome.chat_token_epoch, index as u64);
        assert_eq!(welcome.host_id, "client-1");
    }
    for index in [1u8, 200] {
        let (decision, welcome) = join(
            &mut hub,
            &mut failures,
            &candidate(index, "room"),
            ip("1.1.1.1"),
            draws(999),
            999,
            0,
        );
        assert_eq!(decision, JoinDecision::Full);
        assert!(welcome.is_none());
    }
    let lobby = hub.client_lobby.get(&"client-5".to_string()).unwrap().clone();
    let gone = leave(&mut hub, &lobby, &"client-5".to_string(), 5, "fresh".to_string()).unwrap();
    assert!(gone.new_host.is_none());
    let rotation = gone.rotation.unwrap();
    assert_eq!((rotation.token.as_str(), rotation.epoch), ("fresh", 65));
    assert_eq!(rotation.targets.len(), 63);
    assert!(leave(&mut hub, &lobby, &"client-6".to_string(), 5, "x".to_string()).is_none());
    assert!(leave(&mut hub, &"none".to_string(), &"client-6".to_string(), 6, "x".to_string()).is_none());
}

// ---------------------------------------------------------------------------
// Routing
// ---------------------------------------------------------------------------
#[test]
fn forged_host_command_does_not_remove_authenticated_peer() {
    let mut server = server();
    let host = server.register("host-id", "room");
    let mut peer = server.register("peer-id", "room");
    let host_id = test_client_id("host-id");
    let peer_id = test_client_id("peer-id");
    server.received(&host);

    let forged = SignalingMessage::KickPlayer {
        from: host_id.clone(),
        target: peer_id.clone(),
    };
    assert_eq!(server.send(&mut peer, forged), Next::Continue);
    assert_eq!(server.send(&mut peer, offer(&peer_id, &host_id, "test")), Next::Continue);

    let heard = server.received(&host);
    assert_eq!(heard.len(), 1);
    match &heard[0] {
        SignalingMessage::Offer { from, player_name, offer, .. } => {
            assert_eq!(*from, peer_id);
            assert_eq!(player_name.as_deref(), Some("peer-id"));
            assert_eq!(offer.sdp, "test");
        }
        other => panic!("unexpected {other:?}"),
    }
}

#[test]
fn kicked_old_socket_cannot_forward_after_same_id_reconnects() {
    let mut server = server();
    let mut host = server.register("host-id", "room");
    let host_id = test_client_id("host-id");
    let peer_id = test_client_id("peer-id");
    let mut old_peer = server.register("peer-id", "room");
    server.received(&host);

    let command = SignalingMessage::KickPlayer {
        from: host_id.clone(),
        target: peer_id.clone(),
    };
    assert_eq!(server.send(&mut host, command), Next::Continue);
    match &server.received(&old_peer)[0] {
        SignalingMessage::Kicked { reason } => assert_eq!(reason, "你已被房主移出大厅"),
        other => panic!("unexpected {other:?}"),
    }
    let heard = server.received(&host);
    assert!(is_left(&heard[0]));
    rotation_of(&heard[1]);

    let mut new_peer = server.register("peer-id", "room");
    let heard = server.received(&host);
    rotation_of(&heard[0]);
    assert!(is_joined(&heard[1]));

    assert_eq!(server.send(&mut old_peer, offer(&peer_id, &host_id, "stale")), Next::Break);
    assert!(server.received(&host).is_empty());

    server.send(&mut new_peer, offer(&peer_id, &host_id, "current"));
    match &server.received(&host)[0] {
        SignalingMessage::Offer { offer, .. } => assert_eq!(offer.sdp, "current"),
        other => panic!("unexpected {other:?}"),
    }
}

#[test]
fn kick_does_not_remove_mapping_for_target_in_another_lobby() {
    let mut server = server();
    let mut host = server.register("host-a", "room-a");
    let mut target = server.register("target-b", "room-b");
    let peer = server.register("peer-b", "room-b");
    server.received(&target);
    let target_id = test_client_id("target-b");
    let command = SignalingMessage::KickPlayer {
        from: test_client_id("host-a"),
        target: target_id.clone(),
    };
    assert_eq!(server.send(&mut host, command), Next::Continue);
    assert!(server.received(&host).is_empty());

    server.send(&mut target, offer(&target_id, &test_client_id("peer-b"), "other-lobby"));
    match &server.received(&peer)[0] {
        SignalingMessage::Offer { offer, .. } => assert_eq!(offer.sdp, "other-lobby"),
        other => panic!("unexpected {other:?}"),
    }
}

#[test]
fn voice_reconnect_routes_only_between_authenticated_lobby_members() {
    let mut server = server();
    let mut sender = server.register("voice-sender", "voice-room");
    let mut receiver = server.register("voice-receiver", "voice-room");
    server.received(&sender);
    let mut outsider = server.register("voice-outsider", "other-room");
    let sender_id = test_client_id("voice-sender");
    let receiver_id = test_client_id("voice-receiver");
    let outsider_id = test_client_id("voice-outsider");
    let request = |from: &str| SignalingMessage::VoiceReconnect {
        from: from.to_string(),
        to: receiver_id.clone(),
    };

    assert_eq!(server.send(&mut sender, request(&sender_id)), Next::Continue);
    match &server.received(&receiver)[0] {
        SignalingMessage::VoiceReconnect { from, to } => {
            assert_eq!(*from, sender_id);
            assert_eq!(*to, receiver_id);
        }
        other => panic!("unexpected {other:?}"),
    }

    for from in [&outsider_id, &sender_id] {
        assert_eq!(server.send(&mut outsider, request(from)), Next::Continue);
        server.send(&mut outsider, SignalingMessage::Ping);
        assert!(matches!(server.received(&outsider)[..], [SignalingMessage::Pong]));
        server.send(&mut receiver, SignalingMessage::Ping);
        assert!(matches!(server.received(&receiver)[..], [SignalingMessage::Pong]));
    }
    let mut unregistered = server.connect();
    assert_eq!(server.send(&mut unregistered, request(&sender_id)), Next::Continue);
    server.send(&mut unregistered, SignalingMessage::Ping);
    assert!(matches!(server.received(&unregistered)[..], [SignalingMessage::Pong]));
    server.send(&mut receiver, SignalingMessage::Ping);
    assert!(matches!(server.received(&receiver)[..], [SignalingMessage::Pong]));
    for (from, to) in [
        ("", receiver_id.as_str()),
        (sender_id.as_str(), "bad\ntarget"),
        (sender_id.as_str(), sender_id.as_str()),
    ] {
        let invalid = SignalingMessage::VoiceReconnect {
            from: from.into(),
            to: to.into(),
        };
        assert!(!validate_message_shape(&invalid));
    }
}

#[test]
fn screen_health_reaches_authenticated_viewer_intact() {
    let mut server = server();
    let mut publisher = server.register("phone", "screen-room");
    let viewer = server.register("desktop", "screen-room");
    server.received(&publisher);
    let publisher_id = test_client_id("phone");
    let viewer_id = test_client_id("desktop");
    let health = SignalingMessage::ScreenShareRelay {
        from: publisher_id.clone(),
        to: viewer_id.clone(),
        share_id: format!("share-{publisher_id}-1800000000000"),
        action: "health".to_string(),
        player_name: None,
        password: None,
        upstream_id: None,
        downstream_id: None,
        route_version: Some(1),
        sequence: Some(53),
        source_sequence: Some(53),
        sent_sequence: Some(49),
        limited: Some(false),
        reason: Some("stalled".to_string()),
    };
    let sent = format!("{health:?}");
    assert_eq!(server.send(&mut publisher, health), Next::Continue);
    let heard = server.received(&viewer);
    assert_eq!(format!("{:?}", heard[0]), sent);

    let registered = publisher.registered.as_ref().unwrap();
    let raw = format!(r#"{{"type":"screen-share-relay","from":"{publisher_id}","to":"{viewer_id}"}}"#);
    let direct = send_to_lobby_client(&server.hub, &registered.lobby_id, &viewer_id, raw).unwrap();
    let value: serde_json::Value = serde_json::from_str(&direct.text).unwrap();
    assert_eq!(direct.transport, viewer.sender);
    assert_eq!(value["sessionGeneration"], registered.generation);
    assert_eq!(value["from"], publisher_id.as_str());
}

#[test]
fn deliveries_leave_strangers_and_their_marks_alone() {
    let mut server = server();
    let host = server.register("host", "room");
    let lobby = host.registered.as_ref().unwrap().lobby_id.clone();
    let raw = r#"{"from":"stranger"}"#.to_string();
    let everyone = broadcast_to_lobby(&server.hub, &lobby, &String::new(), raw.clone()).unwrap();
    assert_eq!(everyone.text, raw);
    assert_eq!(everyone.targets, vec![(test_client_id("host"), host.sender)]);
    let none = broadcast_to_lobby(&server.hub, &lobby, &test_client_id("host"), raw.clone()).unwrap();
    assert!(none.targets.is_empty());
    assert!(broadcast_to_lobby(&server.hub, &"no".to_string(), &String::new(), raw.clone()).is_none());
    assert!(send_to_lobby_client(&server.hub, &lobby, &"stranger".to_string(), raw).is_none());
    let targets = vec![(test_client_id("host"), host.sender), (test_client_id("host"), 77)];
    let token = server.hub.lobbies.get(&lobby).unwrap().chat_token.clone();
    assert_eq!(send_chat_token_rotation(&server.hub, &targets, &lobby, &token, 1), vec![host.sender]);
    assert!(send_chat_token_rotation(&server.hub, &targets, &lobby, &token, 2).is_empty());
    assert!(send_chat_token_rotation(&server.hub, &targets, &lobby, &"old".to_string(), 1).is_empty());
}

#[test]
fn announcements_reach_everyone_else_in_the_lobby() {
    let mut server = server();
    let mut host = server.register("host", "room");
    let peer = server.register("peer", "room");
    let outsider = server.register("outsider", "elsewhere");
    server.received(&host);
    let update = SignalingMessage::StatusUpdate {
        client_id: test_client_id("host"),
        mic_enabled: true,
    };
    assert_eq!(server.send(&mut host, update), Next::Continue);
    assert!(matches!(
        server.received(&peer)[..],
        [SignalingMessage::StatusUpdate { mic_enabled: true, .. }]
    ));
    assert!(server.received(&host).is_empty());
    assert!(server.received(&outsider).is_empty());
    let chat = SignalingMessage::ChatMessage {
        from: test_client_id("host"),
        player_id: test_client_id("host"),
        player_name: "host".to_string(),
        content: "hello".to_string(),
        timestamp: 1,
    };
    assert_eq!(server.send(&mut host, chat), Next::Continue);
    assert!(server.received(&peer).is_empty());
    assert_eq!(server.send(&mut host, SignalingMessage::PlayersListRequest), Next::Continue);
    assert_eq!(roster_of(&server.received(&host)[0]).len(), 1);
}

// ---------------------------------------------------------------------------
// The host
// ---------------------------------------------------------------------------
#[test]
fn hosts_mute_transfer_and_set_options() {
    let mut server = server();
    let mut host = server.register("host", "room");
    let mut peer = server.register("peer", "room");
    server.received(&host);
    let host_id = test_client_id("host");
    let peer_id = test_client_id("peer");
    let lobby = host.registered.as_ref().unwrap().lobby_id.clone();

    let mute = |from: &str, target: &str, muted: bool| SignalingMessage::MutePlayer {
        from: from.to_string(),
        target: target.to_string(),
        muted,
    };
    server.send(&mut peer, mute(&peer_id, &host_id, true));
    assert!(server.received(&host).is_empty());
    server.send(&mut host, mute(&host_id, "nobody", true));
    assert!(server.received(&peer).is_empty());
    server.send(&mut host, mute(&host_id, &peer_id, true));
    for session in [&host, &peer] {
        match &server.received(session)[0] {
            SignalingMessage::PlayerMuteChanged { player_id, muted } => {
                assert_eq!((player_id, *muted), (&peer_id, true));
            }
            other => panic!("unexpected {other:?}"),
        }
    }
    assert!(server.hub.lobbies.get(&lobby).unwrap().muted.contains(&peer_id));
    server.send(&mut host, mute(&host_id, &peer_id, false));
    assert_eq!(server.hub.lobbies.get(&lobby).unwrap().muted.len(), 0);
    server.received(&host);
    server.received(&peer);

    let options = |from: &str, max: Option<u32>, public: Option<bool>, text: Option<&str>| {
        SignalingMessage::SetLobbyOptions {
            from: from.to_string(),
            max_players: max,
            is_public: public,
            description: text.map(str::to_string),
            server_node: text.map(str::to_string),
        }
    };
    server.send(&mut peer, options(&peer_id, Some(2), None, None));
    assert!(server.received(&peer).is_empty());
    server.send(&mut host, options(&host_id, Some(1000), Some(true), Some("welcome")));
    assert!(matches!(
        server.received(&peer)[0],
        SignalingMessage::LobbyOptionsChanged { max_players: Some(64), is_public: false }
    ));
    assert_eq!(server.hub.lobbies.get(&lobby).unwrap().description, "welcome");
    assert_eq!(server.hub.lobbies.get(&lobby).unwrap().server_node, "welcome");
    let long = "d".repeat(201);
    server.send(&mut host, options(&host_id, Some(0), None, Some(&long)));
    assert_eq!(server.hub.lobbies.get(&lobby).unwrap().description, "welcome");
    assert_eq!(server.hub.lobbies.get(&lobby).unwrap().max_players, None);
    server.send(&mut host, options(&host_id, Some(2), None, None));
    let (_, told, next) = server.try_register("third", "room", "password", "10.126.126.77");
    assert_eq!(error_of(&told[0]), "大厅人数已满（服务端上限 64 人）");
    assert_eq!(next, Next::Continue);
    server.received(&host);
    server.received(&peer);

    let transfer = |from: &str, target: &str| SignalingMessage::TransferHost {
        from: from.to_string(),
        target: target.to_string(),
    };
    server.send(&mut host, transfer(&host_id, "nobody"));
    assert!(server.received(&peer).is_empty());
    server.send(&mut host, transfer(&host_id, &peer_id));
    assert!(matches!(server.received(&peer)[0], SignalingMessage::HostChanged { .. }));
    assert_eq!(server.hub.lobbies.get(&lobby).unwrap().host_id, peer_id);
    server.send(&mut host, transfer(&host_id, &host_id));
    assert_eq!(server.hub.lobbies.get(&lobby).unwrap().host_id, peer_id);
}

#[test]
fn hosts_do_not_remove_themselves() {
    let mut hub = Hub::new();
    let mut failures = RegisterPasswordFailures::new();
    for index in 1..=2u8 {
        join(
            &mut hub,
            &mut failures,
            &candidate(index, "room"),
            ip("1.1.1.1"),
            draws(index as u64),
            index as u64,
            0,
        );
    }
    let one = "client-1".to_string();
    let two = "client-2".to_string();
    assert!(kick(&mut hub, &one, &one, "t".to_string()).is_none());
    assert!(kick(&mut hub, &two, &one, "t".to_string()).is_none());
    assert!(kick(&mut hub, &one, &"nobody".to_string(), "t".to_string()).is_none());
    let gone = kick(&mut hub, &one, &two, "t".to_string()).unwrap();
    assert_eq!(gone.transport, 2);
    assert_eq!(gone.session_generation, 1_000_000_000_000_002);
    assert_eq!(gone.rotation.targets, vec![(one, 1)]);
    assert_eq!(gone.rotation.epoch, 3);
    assert!(!hub.client_lobby.contains(&two));
}

#[test]
fn only_open_lobbies_are_published() {
    let mut server = server();
    let (mut open, _, _) = server.try_register("open-host", "open", "", "10.126.126.1");
    let mut closed = server.register("closed-host", "closed");
    for (session, label) in [(&mut open, "open-host"), (&mut closed, "closed-host")] {
        let message = SignalingMessage::SetLobbyOptions {
            from: test_client_id(label),
            max_players: Some(8),
            is_public: Some(true),
            description: Some("come in".to_string()),
            server_node: None,
        };
        assert_eq!(server.send(session, message), Next::Continue);
    }
    let mut stranger = server.connect();
    assert_eq!(server.send(&mut stranger, SignalingMessage::PublicLobbyListRequest), Next::Continue);
    match &server.received(&stranger)[0] {
        SignalingMessage::PublicLobbyListResponse { lobbies } => {
            assert_eq!(lobbies.len(), 1);
            assert_eq!(lobbies[0].lobby_name, "open");
            assert_eq!(lobbies[0].player_count, 1);
            assert_eq!(lobbies[0].max_players, Some(8));
            assert_eq!(lobbies[0].host_name, "open-host");
            assert_eq!(lobbies[0].description, "come in");
            assert_eq!(lobbies[0].server_node, "");
        }
        other => panic!("unexpected {other:?}"),
    }
    assert_eq!(public_lobbies(&server.hub).len(), 1);
}

// ---------------------------------------------------------------------------
// Frames
// ---------------------------------------------------------------------------
#[test]
fn proxy_clients_do_not_share_message_budget() {
    let mut server = server();
    let mut clients: Vec<Session> = (0..3).map(|_| server.connect()).collect();
    for _ in 0..45 {
        for client in &mut clients {
            assert_eq!(server.send(client, SignalingMessage::Ping), Next::Continue);
            assert!(matches!(server.received(client)[..], [SignalingMessage::Pong]));
        }
    }
}

#[test]
fn a_connection_that_floods_is_closed() {
    let mut server = server();
    let mut session = server.connect();
    for _ in 0..MAX_MESSAGES_PER_WINDOW {
        assert_eq!(server.frame(&mut session, Frame::Other), Next::Continue);
    }
    let mut hub = Hub::new();
    let mut failures = RegisterPasswordFailures::new();
    let step = frame_step(
        &mut session,
        &mut hub,
        &mut failures,
        &server.settings,
        Frame::Message(SignalingMessage::Ping),
        draws(0),
        server.now,
    );
    assert!(matches!(step.actions[..], [Action::Close]));
    assert_eq!(step.next, Next::Break);
    server.now += 10 * NANOS_PER_SEC;
    assert_eq!(server.send(&mut session, SignalingMessage::Ping), Next::Continue);
}

#[test]
fn unreadable_frames_end_the_connection_with_a_reason() {
    let reply = |registered: bool, error: &str| {
        let mut server = server();
        let mut session = if registered {
            server.register("client", "room")
        } else {
            server.connect()
        };
        let next = server.frame(&mut session, Frame::Unreadable(error.to_string()));
        assert_eq!(next, Next::Break);
        error_of(&server.received(&session)[0]).to_string()
    };
    assert_eq!(reply(true, "unknown variant `x`"), "不支持的信令消息类型");
    assert_eq!(reply(false, "unknown variant `x`"), "不支持的信令消息类型");
    assert_eq!(reply(false, "missing field"), "请先使用 register-v3 完成注册");
    assert_eq!(reply(true, "missing field"), "信令消息格式无效");
}

#[test]
fn unregistered_client_can_query_and_submit_community_nodes() {
    let mut server = server();
    let mut client = server.connect();
    assert_eq!(
        server.send(&mut client, SignalingMessage::CommunityNodeListRequest),
        Next::Continue
    );
    match &server.received(&client)[0] {
        SignalingMessage::CommunityNodeListResponse { nodes } => assert_eq!(nodes.len(), 0),
        other => panic!("unexpected {other:?}"),
    }
    let message = SignalingMessage::CommunityNodeSubmit {
        name: "死节点".to_string(),
        address: "tcp://127.0.0.1:9".to_string(),
        submitter: None,
    };
    assert_eq!(server.send(&mut client, message), Next::Continue);
    assert_eq!(
        server.submitted,
        vec![("死节点".to_string(), "tcp://127.0.0.1:9".to_string())]
    );
    assert_eq!(server.send(&mut client, SignalingMessage::PlayersListRequest), Next::Break);
}

#[test]
fn messages_of_the_server_are_ignored() {
    let mut server = server();
    let mut client = server.connect();
    for message in [
        SignalingMessage::Pong,
        SignalingMessage::Kicked { reason: "x".to_string() },
        SignalingMessage::HostChanged { host_id: "x".to_string() },
        SignalingMessage::CommunityNodeListResponse { nodes: Vec::new() },
    ] {
        assert_eq!(server.send(&mut client, message), Next::Continue);
        assert!(server.received(&client).is_empty());
    }
    assert_eq!(server.frame(&mut client, Frame::Close), Next::Break);
}

#[test]
fn proxy_headers_isolate_connection_and_submission_limits_over_websocket() {
    let mut policy = Admission::new(16, Some(2), "127.0.0.1").unwrap();
    let proxy = ip("127.0.0.1");
    let from = |address: &str| ForwardedHeaders {
        forwarded_for: vec![Some(address.to_string())],
        real_ip: Vec::new(),
    };
    let (a, _lease_a) = policy.admit_handshake(proxy, &from("192.0.2.1"), &mut None).unwrap();
    let (_, _lease_a2) = policy.admit_handshake(proxy, &from("192.0.2.1"), &mut None).unwrap();
    assert_eq!(
        policy.admit_handshake(proxy, &from("192.0.2.1"), &mut None).unwrap_err(),
        "source connection capacity reached"
    );
    let (b, _lease_b) = policy.admit_handshake(proxy, &from("192.0.2.2"), &mut None).unwrap();
    let nothing = ForwardedHeaders { forwarded_for: Vec::new(), real_ip: Vec::new() };
    assert!(
        policy.admit_handshake(proxy, &nothing, &mut None).is_err(),
        "missing forwarded identity must not share the proxy IP"
    );

    let mut submitters = Submitters::new();
    let mut nodes = Table::new();
    let mut submit = |source: IpAddr| {
        let begun = begin_submission(
            &mut submitters,
            &nodes,
            200,
            source,
            "test",
            "tcp://127.0.0.1:9",
            &None,
            1_000,
            0,
        );
        let answer = match begun {
            Ok(submission) => finish_submission(&mut nodes, submission, ProbeOutcome::Busy, 200),
            Err(reason) => reject_submission(reason),
        };
        match answer {
            SignalingMessage::CommunityNodeSubmitResult { ok, message, .. } => (ok, message),
            other => panic!("unexpected {other:?}"),
        }
    };
    let (ok, message) = submit(a);
    assert!(!ok);
    assert!(!message.contains("频繁"));
    let (_, limited) = submit(a);
    assert!(limited.contains("频繁"));
    let (_, independent) = submit(b);
    assert!(!independent.contains("频繁"));
}

#[test]
fn epochs_count_from_one_and_stop_at_the_last() {
    let mut hub = Hub::new();
    let mut failures = RegisterPasswordFailures::new();
    join(
        &mut hub,
        &mut failures,
        &candidate(1, "room"),
        ip("1.1.1.1"),
        draws(1),
        1,
        0,
    );
    let (_, mut lobby) = hub.lobbies.take_at(0);
    for (before, after) in [(0, 1), (1, 2), (u64::MAX, u64::MAX)] {
        lobby.chat_token_epoch = before;
        let rotated = rotate_chat_token(&mut lobby, "fresh".to_string());
        assert_eq!(rotated, ("fresh".to_string(), after));
        assert_eq!(lobby.chat_token_epoch, after);
    }
}
