//! The wire messages and who they claim to come from.
use vstd::prelude::*;

verus! {

/// A signaling message. Members address each other by client id.
#[allow(inconsistent_fields)]
#[derive(Debug, Clone)]
pub enum SignalingMessage {
    /// The one-time challenge that the server sends as soon as a connection stands.
    ServerChallenge {
        challenge: String,
        protocol_version: u32,
    },
    /// Registration. The identity is the fingerprint of the identity key: a client
    /// does not choose its own id.
    RegisterV3 {
        protocol_version: u32,
        identity_public_key: String,
        challenge_signature: String,
        player_name: String,
        virtual_ip: Option<String>,
        lobby_name: String,
        lobby_password: String,
        client_version: Option<String>,
        virtual_domain: Option<String>,
        use_domain: Option<bool>,
    },
    /// The retired form of registration, known only to be refused with a clear error.
    Register {
        client_id: String,
        player_name: String,
        virtual_ip: Option<String>,
        virtual_domain: Option<String>,
        use_domain: Option<bool>,
        lobby_name: String,
        lobby_password: String,
        client_version: Option<String>,
        chat_public_key: Option<String>,
    },
    /// Registration succeeded. The chat credential goes to the registering member
    /// alone.
    RegisterSuccess {
        client_id: String,
        session_generation: u64,
        lobby_id: String,
        host_id: Option<String>,
        max_players: Option<u32>,
        is_public: Option<bool>,
        muted_players: Option<Vec<String>>,
        chat_token: String,
        chat_token_epoch: u64,
    },
    /// The chat credential changed; sent to current members only.
    ChatTokenRotated {
        lobby_id: String,
        chat_token: String,
        chat_token_epoch: u64,
    },
    /// Registration, or a message, was refused.
    RegisterError { message: String },
    /// The client leaves.
    Leave {
        client_id: String,
    },
    /// The client is too old.
    VersionTooOld {
        message: String,
        current_version: String,
        minimum_version: String,
        download_url: String,
    },
    /// The members of the lobby.
    PlayersList { players: Vec<PlayerInfo> },
    /// Asks for the members of the lobby.
    PlayersListRequest,
    /// A member joined.
    PlayerJoined {
        player_id: String,
        player_name: String,
        virtual_ip: Option<String>,
        virtual_domain: Option<String>,
        use_domain: Option<bool>,
        chat_public_key: Option<String>,
        session_generation: u64,
    },
    /// A member left.
    PlayerLeft {
        player_id: String,
        session_generation: u64,
    },
    /// WebRTC offer for voice.
    Offer {
        from: String,
        to: String,
        offer: OfferData,
        player_name: Option<String>,
    },
    /// Asks one member for a fresh voice negotiation.
    VoiceReconnect { from: String, to: String },
    /// WebRTC answer for voice.
    Answer {
        from: String,
        to: String,
        answer: AnswerData,
    },
    /// ICE candidate for voice.
    IceCandidate {
        from: String,
        to: String,
        candidate: CandidateData,
    },
    /// Chat through the server, which is retired: chat runs between the members.
    ChatMessage {
        from: String,
        player_id: String,
        player_name: String,
        content: String,
        timestamp: i64,
    },
    /// The microphone was switched.
    StatusUpdate {
        client_id: String,
        mic_enabled: bool,
    },
    ScreenShareStart {
        from: String,
        share_id: String,
        player_name: String,
        has_password: bool,
    },
    ScreenShareStop {
        from: String,
        share_id: String,
    },
    /// Control of the screen share relay chain.
    ScreenShareRelay {
        from: String,
        to: String,
        share_id: String,
        action: String,
        player_name: Option<String>,
        password: Option<String>,
        upstream_id: Option<String>,
        downstream_id: Option<String>,
        route_version: Option<u64>,
        sequence: Option<u64>,
        source_sequence: Option<u64>,
        sent_sequence: Option<u64>,
        limited: Option<bool>,
        reason: Option<String>,
    },
    ScreenShareOffer {
        from: String,
        to: String,
        share_id: String,
        player_name: Option<String>,
        password: Option<String>,
        route_version: Option<u64>,
        offer: OfferData,
    },
    ScreenShareAnswer {
        from: String,
        to: String,
        share_id: String,
        route_version: Option<u64>,
        answer: AnswerData,
    },
    ScreenShareIceCandidate {
        from: String,
        to: String,
        share_id: String,
        connection_role: Option<String>,
        route_version: Option<u64>,
        candidate: CandidateData,
    },
    ScreenShareError {
        from: String,
        to: String,
        share_id: String,
        error: String,
    },
    ScreenShareListRequest { from: String },
    ScreenShareListResponse {
        from: String,
        to: String,
        share_id: String,
        player_name: String,
        has_password: bool,
    },
    ScreenShareViewerLeft {
        from: String,
        share_id: String,
    },
    ScreenShareUpdate {
        from: String,
        share_id: String,
        viewer_id: Option<String>,
        viewer_name: Option<String>,
        viewer_count: Option<usize>,
    },
    FileShareAdded {
        from: String,
        share_id: String,
        share_name: String,
        player_name: String,
        has_password: bool,
    },
    FileShareRemoved {
        from: String,
        share_id: String,
    },
    FileShareListRequest { from: String },
    FileShareListResponse {
        from: String,
        to: String,
        shares: Vec<FileShareInfo>,
    },
    /// A file share changed.
    ShareUpdated {
        from: String,
        share_id: String,
        share_name: Option<String>,
        player_name: Option<String>,
        has_password: Option<bool>,
    },
    /// Remote control.
    RemoteControlRequest {
        from: String,
        to: String,
        session_id: String,
        from_name: String,
    },
    RemoteControlAccept {
        from: String,
        to: String,
        session_id: String,
    },
    RemoteControlReject {
        from: String,
        to: String,
        session_id: String,
        reason: String,
    },
    RemoteControlOffer {
        from: String,
        to: String,
        session_id: String,
        offer: OfferData,
    },
    RemoteControlAnswer {
        from: String,
        to: String,
        session_id: String,
        answer: AnswerData,
    },
    RemoteControlIce {
        from: String,
        to: String,
        session_id: String,
        candidate: CandidateData,
    },
    RemoteControlStop {
        from: String,
        to: String,
        session_id: String,
    },
    /// Heartbeat of a client.
    Ping,
    /// Answer to a heartbeat.
    Pong,
    /// The host removes a member.
    KickPlayer { from: String, target: String },
    /// Tells a member that it was removed.
    Kicked { reason: String },
    /// The host mutes a member or lifts the mute.
    MutePlayer {
        from: String,
        target: String,
        muted: bool,
    },
    /// A member was muted, or is no longer.
    PlayerMuteChanged {
        player_id: String,
        muted: bool,
    },
    /// The host hands its role on.
    TransferHost { from: String, target: String },
    /// The lobby has another host.
    HostChanged {
        host_id: String,
    },
    /// The host changes the options of the lobby.
    SetLobbyOptions {
        from: String,
        max_players: Option<u32>,
        is_public: Option<bool>,
        description: Option<String>,
        server_node: Option<String>,
    },
    /// The options of the lobby changed.
    LobbyOptionsChanged {
        max_players: Option<u32>,
        is_public: bool,
    },
    /// Asks for the published lobbies; needs no registration.
    PublicLobbyListRequest,
    /// The published lobbies.
    PublicLobbyListResponse { lobbies: Vec<PublicLobbyInfo> },
    /// Asks for the shared nodes; needs no registration.
    CommunityNodeListRequest,
    /// The shared nodes.
    CommunityNodeListResponse { nodes: Vec<CommunityNodeInfo> },
    /// Submits a node to share; needs no registration.
    CommunityNodeSubmit {
        name: String,
        address: String,
        submitter: Option<String>,
    },
    /// What became of a submission.
    CommunityNodeSubmitResult {
        ok: bool,
        message: String,
        node: Option<CommunityNodeInfo>,
    },
}

/// A shared folder, as its owner lists it.
#[derive(Debug, Clone)]
pub struct FileShareInfo {
    pub share_id: String,
    pub share_name: String,
    pub player_name: String,
    pub has_password: bool,
}

/// A published lobby. `server_node` is the node that its host uses, empty where
/// that is unknown.
#[derive(Debug, Clone)]
pub struct PublicLobbyInfo {
    pub lobby_name: String,
    pub player_count: u32,
    pub max_players: Option<u32>,
    pub host_name: String,
    pub description: String,
    pub server_node: String,
}
/// A node that users share. `last_ok_at` is the Unix second of the last successful
/// probe and decides when the node is removed; `online` is what the last probe
/// found, for display only.
#[derive(Debug, Clone)]
pub struct CommunityNodeInfo {
    pub name: String,
    pub address: String,
    pub submitter: Option<String>,
    pub submitted_at: u64,
    pub last_ok_at: u64,
    pub online: bool,
    pub latency_ms: Option<u64>,
}

/// A member of a lobby. `chat_public_key` is what its chat messages are verified with.
#[derive(Debug, Clone)]
pub struct PlayerInfo {
    pub player_id: String,
    pub player_name: String,
    pub virtual_ip: Option<String>,
    pub virtual_domain: Option<String>,
    pub use_domain: Option<bool>,
    pub chat_public_key: Option<String>,
    pub session_generation: u64,
}

/// A session description that offers.
#[derive(Debug, Clone)]
pub struct OfferData {
    pub sdp_type: String,
    pub sdp: String,
}

/// A session description that answers.
#[derive(Debug, Clone)]
pub struct AnswerData {
    pub sdp_type: String,
    pub sdp: String,
}

/// An ICE candidate.
#[derive(Debug, Clone)]
pub struct CandidateData {
    pub candidate: String,
    pub sdp_m_line_index: Option<u16>,
    pub sdp_mid: Option<String>,
}

impl SignalingMessage {
    /// The identity that a message from a client claims.
    pub open spec fn sender_claim(self) -> Option<Seq<char>> {
        match self {
            SignalingMessage::Offer { from, .. } => Some(from@),
            SignalingMessage::VoiceReconnect { from, .. } => Some(from@),
            SignalingMessage::Answer { from, .. } => Some(from@),
            SignalingMessage::IceCandidate { from, .. } => Some(from@),
            SignalingMessage::ChatMessage { from, .. } => Some(from@),
            SignalingMessage::ScreenShareStart { from, .. } => Some(from@),
            SignalingMessage::ScreenShareStop { from, .. } => Some(from@),
            SignalingMessage::ScreenShareRelay { from, .. } => Some(from@),
            SignalingMessage::ScreenShareOffer { from, .. } => Some(from@),
            SignalingMessage::ScreenShareAnswer { from, .. } => Some(from@),
            SignalingMessage::ScreenShareIceCandidate { from, .. } => Some(from@),
            SignalingMessage::ScreenShareError { from, .. } => Some(from@),
            SignalingMessage::ScreenShareListRequest { from, .. } => Some(from@),
            SignalingMessage::ScreenShareListResponse { from, .. } => Some(from@),
            SignalingMessage::ScreenShareViewerLeft { from, .. } => Some(from@),
            SignalingMessage::ScreenShareUpdate { from, .. } => Some(from@),
            SignalingMessage::FileShareAdded { from, .. } => Some(from@),
            SignalingMessage::FileShareRemoved { from, .. } => Some(from@),
            SignalingMessage::FileShareListRequest { from, .. } => Some(from@),
            SignalingMessage::FileShareListResponse { from, .. } => Some(from@),
            SignalingMessage::ShareUpdated { from, .. } => Some(from@),
            SignalingMessage::RemoteControlRequest { from, .. } => Some(from@),
            SignalingMessage::RemoteControlAccept { from, .. } => Some(from@),
            SignalingMessage::RemoteControlReject { from, .. } => Some(from@),
            SignalingMessage::RemoteControlOffer { from, .. } => Some(from@),
            SignalingMessage::RemoteControlAnswer { from, .. } => Some(from@),
            SignalingMessage::RemoteControlIce { from, .. } => Some(from@),
            SignalingMessage::RemoteControlStop { from, .. } => Some(from@),
            SignalingMessage::KickPlayer { from, .. } => Some(from@),
            SignalingMessage::MutePlayer { from, .. } => Some(from@),
            SignalingMessage::TransferHost { from, .. } => Some(from@),
            SignalingMessage::SetLobbyOptions { from, .. } => Some(from@),
            SignalingMessage::StatusUpdate { client_id, .. } => Some(client_id@),
            SignalingMessage::Leave { client_id } => Some(client_id@),
            _ => None,
        }
    }

    /// The identity that a message from a client claims.
    ///
    /// A connection is what authenticates: the claim has to be the id that was
    /// registered on the same connection before the message is routed or
    /// authorizes anything.
    pub fn claimed_sender(&self, _raw: &str) -> (r: Option<String>)
        ensures
            match r {
                Some(sender) => self.sender_claim() == Some(sender@),
                None => self.sender_claim() is None,
            },
    {
        match self {
            SignalingMessage::Offer { from, .. } => Some(from.clone()),
            SignalingMessage::VoiceReconnect { from, .. } => Some(from.clone()),
            SignalingMessage::Answer { from, .. } => Some(from.clone()),
            SignalingMessage::IceCandidate { from, .. } => Some(from.clone()),
            SignalingMessage::ChatMessage { from, .. } => Some(from.clone()),
            SignalingMessage::ScreenShareStart { from, .. } => Some(from.clone()),
            SignalingMessage::ScreenShareStop { from, .. } => Some(from.clone()),
            SignalingMessage::ScreenShareRelay { from, .. } => Some(from.clone()),
            SignalingMessage::ScreenShareOffer { from, .. } => Some(from.clone()),
            SignalingMessage::ScreenShareAnswer { from, .. } => Some(from.clone()),
            SignalingMessage::ScreenShareIceCandidate { from, .. } => Some(from.clone()),
            SignalingMessage::ScreenShareError { from, .. } => Some(from.clone()),
            SignalingMessage::ScreenShareListRequest { from, .. } => Some(from.clone()),
            SignalingMessage::ScreenShareListResponse { from, .. } => Some(from.clone()),
            SignalingMessage::ScreenShareViewerLeft { from, .. } => Some(from.clone()),
            SignalingMessage::ScreenShareUpdate { from, .. } => Some(from.clone()),
            SignalingMessage::FileShareAdded { from, .. } => Some(from.clone()),
            SignalingMessage::FileShareRemoved { from, .. } => Some(from.clone()),
            SignalingMessage::FileShareListRequest { from, .. } => Some(from.clone()),
            SignalingMessage::FileShareListResponse { from, .. } => Some(from.clone()),
            SignalingMessage::ShareUpdated { from, .. } => Some(from.clone()),
            SignalingMessage::RemoteControlRequest { from, .. } => Some(from.clone()),
            SignalingMessage::RemoteControlAccept { from, .. } => Some(from.clone()),
            SignalingMessage::RemoteControlReject { from, .. } => Some(from.clone()),
            SignalingMessage::RemoteControlOffer { from, .. } => Some(from.clone()),
            SignalingMessage::RemoteControlAnswer { from, .. } => Some(from.clone()),
            SignalingMessage::RemoteControlIce { from, .. } => Some(from.clone()),
            SignalingMessage::RemoteControlStop { from, .. } => Some(from.clone()),
            SignalingMessage::KickPlayer { from, .. } => Some(from.clone()),
            SignalingMessage::MutePlayer { from, .. } => Some(from.clone()),
            SignalingMessage::TransferHost { from, .. } => Some(from.clone()),
            SignalingMessage::SetLobbyOptions { from, .. } => Some(from.clone()),
            SignalingMessage::StatusUpdate { client_id, .. } => Some(client_id.clone()),
            SignalingMessage::Leave { client_id } => Some(client_id.clone()),
            _ => None,
        }
    }
}

} // verus!
