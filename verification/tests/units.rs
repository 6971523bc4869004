use base64::Engine;
use mctier_signaling_server::config::{
    bind_address, client_download_url, community_node_capacity, community_nodes_file,
    connection_limit_from_env, is_version_valid, minimum_client_version,
    probe_allows_private_targets, switched_on, websocket_config,
};
use mctier_signaling_server::ip::{parse_ip, IpAddr, Ipv4Addr};
use mctier_signaling_server::json::{choose_sender, inject_session_metadata, json_sender_id};
use mctier_signaling_server::limiter::{
    allow_submit_quota, MessageRateLimiter, OutboundBudget, SubmitQuota,
};
use mctier_signaling_server::limits::{
    CHALLENGE_BYTES, CHAT_TOKEN_BYTES, COMMUNITY_NODE_SUBMIT_MAX_PER_WINDOW,
    COMMUNITY_NODE_SUBMIT_WINDOW_SECS, DEFAULT_COMMUNITY_NODE_CAPACITY, DEFAULT_MAX_CONNECTIONS,
    LOBBY_PASSWORD_SALT_BYTES, MAX_CHAT_PUBLIC_KEY_LEN, MAX_MESSAGES_PER_WINDOW,
    MAX_OUTBOUND_BYTES_PER_WINDOW, MAX_OUTBOUND_FRAMES_PER_WINDOW, MAX_REGISTER_PASSWORD_FAILURES,
    MAX_REGISTER_PASSWORD_KEYS, MESSAGE_RATE_WINDOW_SECS, NANOS_PER_SEC,
    OUTBOUND_BUDGET_WINDOW_SECS, REGISTER_PASSWORD_FAILURE_WINDOW_SECS,
};
use mctier_signaling_server::password_failures::RegisterPasswordFailures;
use mctier_signaling_server::protocol::{
    CandidateData, FileShareInfo, OfferData, PublicLobbyInfo, SignalingMessage,
};
use mctier_signaling_server::security::{
    ct_eq, ct_text_eq, generate_chat_token, generate_lobby_id, hash_lobby_password,
    normalize_chat_public_key, random_hex, random_session_generation, registration_canonical,
    session_generation_from, valid_chat_public_key, verify_registration_identity,
};
use mctier_signaling_server::validation::{
    effective_public_setting, parse_virtual_ipv4, valid_candidate_data, valid_control_text,
    valid_identifier, valid_offer_data, valid_session_description, valid_session_id,
    valid_share_id, valid_text, validate_message_shape,
};
use p256::ecdsa::{signature::Signer, SigningKey};
use p256::pkcs8::EncodePublicKey;
use sha2::{Digest, Sha256};

fn test_signing_key(label: &str) -> SigningKey {
    let mut bytes = [0u8; 32];
    let digest = Sha256::digest(format!("mctier-test-identity:{label}").as_bytes());
    bytes.copy_from_slice(&digest);
    for _ in 0..256 {
        if let Ok(key) = SigningKey::from_slice(&bytes) {
            return key;
        }
        bytes[31] = bytes[31].wrapping_add(1);
    }
    panic!("unable to derive a test P-256 key");
}

fn test_identity_key(label: &str) -> (SigningKey, String, String) {
    let key = test_signing_key(label);
    let der = key
        .verifying_key()
        .to_public_key_der()
        .expect("test public key should encode");
    let encoded = base64::engine::general_purpose::STANDARD.encode(der.as_bytes());
    let digest = Sha256::digest(der.as_bytes());
    let client_id = digest.iter().map(|byte| format!("{byte:02x}")).collect();
    (key, encoded, client_id)
}

fn ip(s: &str) -> IpAddr {
    parse_ip(&s.chars().collect::<Vec<_>>()).unwrap()
}

// ---------------------------------------------------------------------------
// Settings
// ---------------------------------------------------------------------------
#[test]
fn websocket_limits_are_explicit() {
    let config = websocket_config();
    assert_eq!(config.max_message_size, Some(512 * 1024));
    assert_eq!(config.max_frame_size, Some(256 * 1024));
}

#[test]
fn version_gate_rejects_partial_or_malformed_versions() {
    assert!(is_version_valid("2.8.0", "2.1.0"));
    assert!(!is_version_valid("999.invalid", "2.1.0"));
    assert!(!is_version_valid("2.1", "2.1.0"));
    assert!(!is_version_valid("2.1.0.1", "2.1.0"));
}

#[test]
fn minimum_client_version_blocks_pre_3_clients() {
    let minimum = minimum_client_version(None);
    assert_eq!(minimum, "3.0.0");

    for old in ["1.0.0", "2.0.0", "2.1.0", "2.7.5", "2.8.0", "2.9.9"] {
        assert!(!is_version_valid(old, &minimum), "client {old} must be rejected");
    }

    for ok in ["3.0.0", "3.0.1", "3.1.0", "4.0.0"] {
        assert!(is_version_valid(ok, &minimum), "client {ok} must be allowed");
    }

    assert!(!is_version_valid("unknown", &minimum));
    assert!(!is_version_valid("", &minimum));
}

#[test]
fn version_numbers_are_compared_as_numbers() {
    assert!(is_version_valid("3.10.0", "3.9.9"));
    assert!(is_version_valid("+3.0.0", "3.0.0"));
    assert!(is_version_valid("3.0.4294967295", "3.0.0"));
    assert!(!is_version_valid("3.0.4294967296", "3.0.0"));
    assert!(!is_version_valid("3.0.0", "not-a-version"));
    assert!(!is_version_valid(&format!("3.0.{}", "0".repeat(40)), "3.0.0"));
}

#[test]
fn connection_limit_defaults_and_rejects_invalid_values() {
    assert_eq!(connection_limit_from_env(None), DEFAULT_MAX_CONNECTIONS);
    assert_eq!(connection_limit_from_env(Some("0")), DEFAULT_MAX_CONNECTIONS);
    assert_eq!(connection_limit_from_env(Some("not-a-number")), DEFAULT_MAX_CONNECTIONS);
    assert_eq!(connection_limit_from_env(Some("7")), 7);
}

#[test]
fn the_default_connection_limit_is_the_documented_one() {
    assert_eq!(connection_limit_from_env(None), 1024);
}

#[test]
fn settings_fall_back_where_they_are_blank() {
    assert_eq!(bind_address(None), "0.0.0.0:8445");
    assert_eq!(bind_address(Some(" 127.0.0.1:1 ")), "127.0.0.1:1");
    assert_eq!(client_download_url(Some("   ")), "https://mctier.pmhs.top");
    assert_eq!(client_download_url(Some("https://example.com")), "https://example.com");
    assert_eq!(community_nodes_file(Some("")), "community_nodes.json");
    assert_eq!(community_node_capacity(Some("x")), DEFAULT_COMMUNITY_NODE_CAPACITY);
    assert_eq!(community_node_capacity(Some(" 12 ")), 12);
    assert!(!probe_allows_private_targets(None));
    assert!(!probe_allows_private_targets(Some("no")));
    for on in ["1", "true", "YES", " On "] {
        assert!(probe_allows_private_targets(Some(on)), "{on}");
    }
    assert!(switched_on("yes"));
    assert!(!switched_on("YES"));
}

// ---------------------------------------------------------------------------
// Credentials
// ---------------------------------------------------------------------------
#[test]
fn lobby_password_hash_uses_salt_and_constant_time_compare() {
    let salt = random_hex::<LOBBY_PASSWORD_SALT_BYTES>();
    let correct = hash_lobby_password(&salt, "pw");
    assert_eq!(correct, hash_lobby_password(&salt, "pw"));
    assert_ne!(correct, hash_lobby_password(&salt, "PW"));
    assert_ne!(
        correct,
        hash_lobby_password(&random_hex::<LOBBY_PASSWORD_SALT_BYTES>(), "pw")
    );
    assert!(ct_eq(
        correct.as_bytes(),
        hash_lobby_password(&salt, "pw").as_bytes()
    ));
    assert!(!ct_eq(correct.as_bytes(), b"different"));
    assert!(!ct_eq(b"short", b"longer value"));
}

#[test]
fn hashes_are_sha256_in_lower_case_hexadecimal() {
    let expected: String = Sha256::digest(b"saltpw").iter().map(|b| format!("{b:02x}")).collect();
    assert_eq!(hash_lobby_password("salt", "pw"), expected);
    assert_eq!(hash_lobby_password("salt", "pw"), generate_lobby_id("saltpw"));
    assert_eq!(generate_lobby_id("").len(), 64);
    assert_eq!(
        generate_lobby_id("abc"),
        "ba7816bf8f01cfea414140de5dae2223b00361a396177a9cb410ff61f20015ad"
    );
    assert!(ct_text_eq("密码", "密码"));
    assert!(!ct_text_eq("密码", "密吗"));
}

#[test]
fn random_credentials_have_their_shape_and_differ() {
    let token = generate_chat_token();
    assert_eq!(token.len(), CHAT_TOKEN_BYTES * 2);
    assert!(token.bytes().all(|b| b.is_ascii_digit() || (b'a'..=b'f').contains(&b)));
    assert_ne!(token, generate_chat_token());
    assert_ne!(random_hex::<16>(), random_hex::<16>());
    assert_eq!(random_hex::<0>(), "");
    let first = random_session_generation();
    let second = random_session_generation();
    for generation in [first, second] {
        assert!((1_000_000_000_000_000..=9_000_000_000_000_000).contains(&generation));
    }
    assert_ne!(first, second);
}

#[test]
fn session_generations_come_from_the_low_bits() {
    assert_eq!(session_generation_from(1_000_000_000_000_000), Some(1_000_000_000_000_000));
    assert_eq!(session_generation_from(999_999_999_999_999), None);
    assert_eq!(session_generation_from(9_000_000_000_000_001), None);
    assert_eq!(
        session_generation_from((1u64 << 53) + 5_000_000_000_000_000),
        Some(5_000_000_000_000_000)
    );
    assert_eq!(session_generation_from(u64::MAX), None);
}

#[test]
fn registration_proof_is_bound_to_challenge_lobby_and_virtual_ip() {
    let challenge = "ab".repeat(CHALLENGE_BYTES);
    let (key, encoded_key, expected_id) = test_identity_key("proof-owner");
    let signature: p256::ecdsa::Signature =
        key.sign(&registration_canonical(&challenge, "room", "10.126.126.7"));
    let encoded_signature =
        base64::engine::general_purpose::STANDARD.encode(signature.to_der().as_bytes());
    let (client_id, stored_key, virtual_domain) = verify_registration_identity(
        &challenge,
        "room",
        "10.126.126.7",
        &encoded_key,
        &encoded_signature,
    )
    .expect("valid P-256 proof should verify");
    assert_eq!(client_id, expected_id);
    assert_eq!(stored_key, encoded_key);
    assert_eq!(virtual_domain, format!("{}.mct.net", &expected_id[..32]));

    let wrong_lobby = verify_registration_identity(
        &challenge,
        "other-room",
        "10.126.126.7",
        &encoded_key,
        &encoded_signature,
    );
    assert!(wrong_lobby.is_none(), "proof must include the lobby name");
    assert!(
        verify_registration_identity(
            &challenge,
            "room",
            "10.126.126.8",
            &encoded_key,
            &encoded_signature,
        )
        .is_none(),
        "proof must include the virtual IP"
    );
    assert!(
        verify_registration_identity(
            &"cd".repeat(CHALLENGE_BYTES),
            "room",
            "10.126.126.7",
            &encoded_key,
            &encoded_signature,
        )
        .is_none(),
        "proof must include the challenge"
    );
}

#[test]
fn registration_proof_needs_a_readable_key_and_signature() {
    let challenge = "ab".repeat(CHALLENGE_BYTES);
    let (key, encoded_key, _) = test_identity_key("proof-owner");
    let signature: p256::ecdsa::Signature =
        key.sign(&registration_canonical(&challenge, "room", "10.126.126.7"));
    let encoded = base64::engine::general_purpose::STANDARD.encode(signature.to_der().as_bytes());
    let check = |public_key: &str, proof: &str| {
        verify_registration_identity(&challenge, "room", "10.126.126.7", public_key, proof).is_some()
    };
    assert!(check(&format!("  {encoded_key}\n"), &format!(" {encoded} ")));
    assert!(!check("", &encoded));
    assert!(!check(&encoded_key, ""));
    assert!(!check("AAAA", &encoded));
    assert!(!check(&encoded_key, "AAAA"));
    assert!(!check("not base64!", &encoded));
    assert!(!check(&"A".repeat(516), &encoded));
    assert!(!check(&encoded_key, &"A".repeat(260)));
    let (_, other_key, _) = test_identity_key("someone-else");
    assert!(!check(&other_key, &encoded));
}

#[test]
fn the_signed_text_has_one_line_for_each_field() {
    assert_eq!(
        registration_canonical("c", "room", "10.126.126.7"),
        b"MCTIER-SIGNALING-V3\n3\nc\nroom\n10.126.126.7".to_vec()
    );
    assert_ne!(registration_canonical("c", "a", "b"), registration_canonical("c", "b", "a"));
}

#[test]
fn chat_public_keys_are_shape_checked_before_entering_a_roster() {
    let (_, valid_key, _) = test_identity_key("valid-key");
    assert!(valid_chat_public_key(&valid_key));
    assert!(!valid_chat_public_key(""));
    assert!(!valid_chat_public_key("has spaces"));
    assert!(!valid_chat_public_key("bad\ncontrol"));
    assert!(!valid_chat_public_key("<script>"));
    assert!(!valid_chat_public_key(
        &"A".repeat(MAX_CHAT_PUBLIC_KEY_LEN + 1)
    ));

    assert_eq!(
        normalize_chat_public_key(Some("  AAAA  ".to_string())),
        None
    );
    assert_eq!(normalize_chat_public_key(Some("!!".to_string())), None);
    assert_eq!(normalize_chat_public_key(None), None);
    assert_eq!(
        normalize_chat_public_key(Some(format!("  {valid_key} "))),
        Some(valid_key)
    );
}

// ---------------------------------------------------------------------------
// Wrong passwords
// ---------------------------------------------------------------------------
#[test]
fn register_password_failures_lock_after_threshold_and_expire() {
    let key = (ip("192.0.2.9"), "lock-lobby".to_string());
    let now = 1_000 * NANOS_PER_SEC;
    let mut tracker = RegisterPasswordFailures::new();
    for _ in 0..MAX_REGISTER_PASSWORD_FAILURES {
        assert!(!tracker.is_locked(&key, now));
        tracker.record_failure(&key, now);
    }
    assert!(tracker.is_locked(&key, now));
    let later = now + (REGISTER_PASSWORD_FAILURE_WINDOW_SECS + 1) * NANOS_PER_SEC;
    assert!(!tracker.is_locked(&key, later));
    assert!(tracker.attempts.len() == 0);
    tracker.record_failure(&key, later);
    tracker.clear(&key);
    assert!(tracker.attempts.len() == 0);
    assert!(!tracker.is_locked(&key, later));
}

#[test]
fn full_failure_table_does_not_lock_unrelated_users_and_stays_bounded() {
    let now = 1_000 * NANOS_PER_SEC;
    let mut failures = RegisterPasswordFailures::new();
    let attacker = ip("192.0.2.1");
    for index in 0..MAX_REGISTER_PASSWORD_KEYS {
        failures.record_failure(&(attacker, format!("room-{index}")), now);
    }
    let innocent = (ip("192.0.2.2"), "new-room".to_string());
    assert!(!failures.is_locked(&innocent, now));
    failures.record_failure(&innocent, now);
    assert!(failures.attempts.len() <= MAX_REGISTER_PASSWORD_KEYS);
    for _ in 1..MAX_REGISTER_PASSWORD_FAILURES {
        failures.record_failure(&innocent, now);
    }
    assert!(failures.is_locked(&innocent, now));
    let stranger = (ip("192.0.2.3"), "another-room".to_string());
    assert!(!failures.is_locked(&stranger, now));
}

#[test]
fn a_full_failure_table_gives_up_the_key_that_failed_longest_ago() {
    let mut failures = RegisterPasswordFailures::new();
    let source = ip("192.0.2.1");
    for index in 0..MAX_REGISTER_PASSWORD_KEYS {
        let at = NANOS_PER_SEC * (100 + (index as u64 % 50));
        failures.record_failure(&(source, format!("room-{index}")), at);
    }
    failures.record_failure(&(source, "room-0".to_string()), NANOS_PER_SEC * 200);
    failures.record_failure(&(source, "one-more".to_string()), NANOS_PER_SEC * 201);
    assert_eq!(failures.attempts.len(), MAX_REGISTER_PASSWORD_KEYS);
    assert!(failures.attempts.contains(&(source, "room-0".to_string())));
    assert!(failures.attempts.contains(&(source, "one-more".to_string())));
    let gone = (0..MAX_REGISTER_PASSWORD_KEYS)
        .filter(|index| !failures.attempts.contains(&(source, format!("room-{index}"))))
        .collect::<Vec<_>>();
    assert_eq!(gone.len(), 1);
    assert_eq!(gone[0] % 50, 0);
}

#[test]
fn failures_at_the_edge_of_the_window_still_count() {
    let key = (ip("2001:db8::1"), "room".to_string());
    let mut failures = RegisterPasswordFailures::new();
    for _ in 0..MAX_REGISTER_PASSWORD_FAILURES {
        failures.record_failure(&key, 0);
    }
    let edge = REGISTER_PASSWORD_FAILURE_WINDOW_SECS * NANOS_PER_SEC;
    assert!(failures.is_locked(&key, edge));
    assert!(!failures.is_locked(&(key.0, "other".to_string()), edge));
    assert!(!failures.is_locked(&key, edge + 1));
}

// ---------------------------------------------------------------------------
// Budgets
// ---------------------------------------------------------------------------
#[test]
fn message_and_outbound_budgets_are_bounded() {
    let mut inbound = MessageRateLimiter::new(7);
    for _ in 0..MAX_MESSAGES_PER_WINDOW {
        assert!(inbound.allow(7));
    }
    assert!(!inbound.allow(7));

    let mut outbound = OutboundBudget::new(7);
    for _ in 0..MAX_OUTBOUND_FRAMES_PER_WINDOW {
        assert!(outbound.allow(1, 7));
    }
    assert!(!outbound.allow(1, 7));
    assert!(valid_session_description(
        "offer",
        "v=0\r\no=- 1 2 IN IP4 127.0.0.1\r\n",
        "offer"
    ));
    assert!(!valid_session_description("offer", "v=0\u{0000}", "offer"));
}

#[test]
fn budgets_start_over_with_a_new_window() {
    let mut inbound = MessageRateLimiter::new(0);
    for _ in 0..MAX_MESSAGES_PER_WINDOW {
        assert!(inbound.allow(0));
    }
    let window = MESSAGE_RATE_WINDOW_SECS * NANOS_PER_SEC;
    assert!(!inbound.allow(window - 1));
    assert!(inbound.allow(window));
    assert_eq!(inbound.messages, 1);

    let mut outbound = OutboundBudget::new(0);
    assert!(outbound.allow(MAX_OUTBOUND_BYTES_PER_WINDOW, 0));
    assert!(!outbound.allow(1, 0));
    assert!(outbound.allow(0, 0));
    assert!(!outbound.allow(MAX_OUTBOUND_BYTES_PER_WINDOW + 1, u64::MAX));
    assert!(outbound.allow(1, OUTBOUND_BUDGET_WINDOW_SECS * NANOS_PER_SEC + u64::MAX / 2));
}

#[test]
fn community_submit_quota_has_a_fixed_source_budget() {
    let mut quota = SubmitQuota {
        window_started: 5,
        submissions: 0,
    };
    for _ in 0..COMMUNITY_NODE_SUBMIT_MAX_PER_WINDOW {
        assert!(allow_submit_quota(&mut quota, 5));
    }
    assert!(!allow_submit_quota(&mut quota, 5));
    let later = 5 + COMMUNITY_NODE_SUBMIT_WINDOW_SECS * NANOS_PER_SEC;
    assert!(allow_submit_quota(&mut quota, later));
}

// ---------------------------------------------------------------------------
// Messages
// ---------------------------------------------------------------------------
#[test]
fn extracts_sender_from_typed_host_command() {
    let raw = r#"{"type":"kick-player","from":"host-id","target":"peer-id"}"#;
    let message = SignalingMessage::KickPlayer {
        from: "host-id".to_string(),
        target: "peer-id".to_string(),
    };

    assert_eq!(message.claimed_sender(raw).as_deref(), Some("host-id"));
}

#[test]
fn extracts_sender_from_forwarded_message() {
    let raw = r#"{"type":"remote-control-request","from":"controller-id","to":"phone-id","sessionId":"rc-1","fromName":"Controller"}"#;
    let message = SignalingMessage::RemoteControlRequest {
        from: "controller-id".to_string(),
        to: "phone-id".to_string(),
        session_id: "rc-1".to_string(),
        from_name: "Controller".to_string(),
    };

    assert_eq!(
        message.claimed_sender(raw).as_deref(),
        Some("controller-id")
    );
}

#[test]
fn server_messages_do_not_claim_a_client_identity() {
    let raw = r#"{"type":"kicked","reason":"removed"}"#;
    let message = SignalingMessage::Kicked {
        reason: "removed".to_string(),
    };

    assert_eq!(message.claimed_sender(raw), None);
}

#[test]
fn extracts_sender_from_status_update() {
    let raw = r#"{"type":"status-update","clientId":"player-id","micEnabled":true}"#;
    let message = SignalingMessage::StatusUpdate {
        client_id: "player-id".to_string(),
        mic_enabled: true,
    };

    assert_eq!(message.claimed_sender(raw).as_deref(), Some("player-id"));
}

#[test]
fn extracts_sender_from_explicit_leave() {
    let raw = r#"{"type":"leave","clientId":"player-id"}"#;
    let message = SignalingMessage::Leave {
        client_id: "player-id".to_string(),
    };

    assert_eq!(message.claimed_sender(raw).as_deref(), Some("player-id"));
}

#[test]
fn register_message_does_not_claim_a_sender() {
    let raw = r#"{"type":"register","clientId":"player-id","playerName":"player","lobbyName":"room","lobbyPassword":"password","clientVersion":"2.7.5"}"#;
    let message = SignalingMessage::Register {
        client_id: "player-id".to_string(),
        player_name: "player".to_string(),
        virtual_ip: None,
        virtual_domain: None,
        use_domain: None,
        lobby_name: "room".to_string(),
        lobby_password: "password".to_string(),
        client_version: Some("2.7.5".to_string()),
        chat_public_key: None,
    };

    assert_eq!(message.claimed_sender(raw), None);
    assert!(validate_message_shape(&message));
}

fn health(source_sequence: u64) -> SignalingMessage {
    SignalingMessage::ScreenShareRelay {
        from: "android".to_string(),
        to: "desktop".to_string(),
        share_id: "share-android-1800000000000".to_string(),
        action: "health".to_string(),
        player_name: None,
        password: None,
        upstream_id: None,
        downstream_id: None,
        route_version: Some(1),
        sequence: Some(53),
        source_sequence: Some(source_sequence),
        sent_sequence: Some(49),
        limited: Some(false),
        reason: Some("stalled".to_string()),
    }
}

#[test]
fn screen_health_survives_signal_serialization() {
    assert!(validate_message_shape(&health(53)));
    assert!(!validate_message_shape(&health(1_000_000_001)));
}

#[test]
fn public_lobby_metadata_never_contains_a_password() {
    let info = PublicLobbyInfo {
        lobby_name: "open".to_string(),
        player_count: 1,
        max_players: Some(64),
        host_name: "host".to_string(),
        description: String::new(),
        server_node: String::new(),
    };
    assert!(!format!("{info:?}").contains("password"));
}

#[test]
fn password_protected_lobbies_cannot_be_public() {
    assert!(effective_public_setting(true, true));
    assert!(!effective_public_setting(true, false));
    assert!(!effective_public_setting(false, true));
    assert!(!effective_public_setting(false, false));
}

#[test]
fn texts_are_bounded_in_bytes_and_hold_no_controls() {
    assert!(valid_text("房间", 6, false));
    assert!(!valid_text("房间", 5, false));
    assert!(!valid_text(" \u{3000}", 10, false));
    assert!(valid_text("", 0, true));
    assert!(!valid_text("a\u{85}b", 10, true));
    assert!(valid_identifier(&"x".repeat(128)));
    assert!(!valid_identifier(&"x".repeat(129)));
    assert!(valid_control_text(&"x".repeat(8 * 1024), usize::MAX, false));
    assert!(!valid_control_text(&"x".repeat(8 * 1024 + 1), usize::MAX, false));
    assert!(valid_session_id("rc-1"));
    assert!(!valid_session_id(""));
    assert!(valid_share_id("share"));
    assert!(!valid_share_id("sh\nare"));
}

#[test]
fn webrtc_payloads_are_checked() {
    let offer = |kind: &str, sdp: &str| OfferData {
        sdp_type: kind.to_string(),
        sdp: sdp.to_string(),
    };
    assert!(valid_offer_data(&offer("offer", "v=0"), "offer"));
    assert!(!valid_offer_data(&offer("answer", "v=0"), "offer"));
    assert!(!valid_offer_data(&offer("offer", ""), "offer"));
    assert!(!valid_offer_data(&offer("offer", &"v".repeat(128 * 1024 + 1)), "offer"));
    let candidate = |text: &str, index: Option<u16>, mid: Option<&str>| CandidateData {
        candidate: text.to_string(),
        sdp_m_line_index: index,
        sdp_mid: mid.map(str::to_string),
    };
    assert!(valid_candidate_data(&candidate("candidate:1", Some(256), Some(""))));
    assert!(!valid_candidate_data(&candidate("", None, None)));
    assert!(!valid_candidate_data(&candidate("a\nb", None, None)));
    assert!(!valid_candidate_data(&candidate("a", Some(257), None)));
    assert!(!valid_candidate_data(&candidate("a", None, Some(&"m".repeat(129)))));
}

#[test]
fn message_shapes_are_bounded_for_each_kind() {
    let own = "a".to_string();
    assert!(!validate_message_shape(&SignalingMessage::VoiceReconnect {
        from: own.clone(),
        to: own.clone(),
    }));
    assert!(validate_message_shape(&SignalingMessage::VoiceReconnect {
        from: own.clone(),
        to: "b".to_string(),
    }));
    assert!(validate_message_shape(&SignalingMessage::ServerChallenge {
        challenge: "0f".repeat(32),
        protocol_version: 3,
    }));
    assert!(!validate_message_shape(&SignalingMessage::ServerChallenge {
        challenge: "0F".repeat(32),
        protocol_version: 3,
    }));
    let share = FileShareInfo {
        share_id: "s".to_string(),
        share_name: "docs".to_string(),
        player_name: "p".to_string(),
        has_password: false,
    };
    assert!(validate_message_shape(&SignalingMessage::FileShareListResponse {
        from: own.clone(),
        to: "b".to_string(),
        shares: vec![share.clone(); 256],
    }));
    assert!(!validate_message_shape(&SignalingMessage::FileShareListResponse {
        from: own.clone(),
        to: "b".to_string(),
        shares: vec![share; 257],
    }));
    assert!(validate_message_shape(&SignalingMessage::Ping));
    assert!(!validate_message_shape(&SignalingMessage::CommunityNodeSubmit {
        name: "n".repeat(33),
        address: "tcp://a".to_string(),
        submitter: None,
    }));
    assert!(!validate_message_shape(&SignalingMessage::SetLobbyOptions {
        from: own,
        max_players: None,
        is_public: None,
        description: None,
        server_node: Some("n".repeat(257)),
    }));
}

#[test]
fn virtual_addresses_lie_in_one_network() {
    let address = |d: u8| Ipv4Addr { a: 10, b: 126, c: 126, d };
    assert_eq!(parse_virtual_ipv4(Some(" 10.126.126.1 ")), Some(address(1)));
    assert_eq!(parse_virtual_ipv4(Some("10.126.126.254")), Some(address(254)));
    for bad in ["10.126.126.0", "10.126.126.255", "10.126.125.1", "10.126.126.01", "::1", ""] {
        assert_eq!(parse_virtual_ipv4(Some(bad)), None, "{bad}");
    }
    assert_eq!(parse_virtual_ipv4(None), None);
    assert_eq!(address(7).to_text(), "10.126.126.7");
}

// ---------------------------------------------------------------------------
// JSON
// ---------------------------------------------------------------------------
#[test]
fn peer_metadata_is_canonicalized_on_server_output() {
    let raw = r#"{"type":"offer","from":"attacker","to":"peer","sessionGeneration":1,"offer":{"type":"offer","sdp":"v=0"}}"#;
    let value: serde_json::Value =
        serde_json::from_str(&inject_session_metadata(raw.to_string(), "canonical-peer", 42)).unwrap();
    assert_eq!(value["from"], "canonical-peer");
    assert_eq!(value["sessionGeneration"], 42);
    assert_eq!(value["to"], "peer");
    assert_eq!(value["offer"]["sdp"], "v=0");
    assert!(value.get("clientId").is_none());
}

#[test]
fn metadata_leaves_other_texts_alone() {
    assert_eq!(inject_session_metadata("[1]".to_string(), "x", 1), "[1]");
    assert_eq!(inject_session_metadata("{".to_string(), "x", 1), "{");
    let out = inject_session_metadata(r#"{"clientId":"a","n":"\"\n"}"#.to_string(), "ü\"x", 7);
    let value: serde_json::Value = serde_json::from_str(&out).unwrap();
    assert_eq!(value["clientId"], "ü\"x");
    assert_eq!(value["n"], "\"\n");
    assert_eq!(json_sender_id(&out).as_deref(), Some("ü\"x"));
}

#[test]
fn the_sender_is_from_before_client_id() {
    assert_eq!(json_sender_id(r#"{"from":"a","clientId":"b"}"#).as_deref(), Some("a"));
    assert_eq!(json_sender_id(r#"{"clientId":"b"}"#).as_deref(), Some("b"));
    assert_eq!(json_sender_id(r#"{"from":123,"clientId":"b"}"#), None);
    assert_eq!(json_sender_id(r#"{"to":"x"}"#), None);
    assert_eq!(json_sender_id("not json"), None);
    assert_eq!(json_sender_id(r#""from""#), None);
    assert_eq!(choose_sender(None, Some(Some("b".to_string()))).as_deref(), Some("b"));
    assert_eq!(choose_sender(Some(None), Some(Some("b".to_string()))), None);
    assert_eq!(choose_sender(None, None), None);
}
