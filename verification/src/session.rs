//! One connection: what each frame from a client leads to.
use vstd::prelude::*;
use vstd::string::*;
use crate::config;
use crate::connection_guard;
use crate::ip;
use crate::ip::IpAddr;
use crate::limiter::MessageRateLimiter;
use crate::limits::{
    CHALLENGE_BYTES, CHAT_TOKEN_BYTES, LOBBY_PASSWORD_SALT_BYTES, MAX_MESSAGES_PER_WINDOW,
    SIGNALING_PROTOCOL_VERSION,
};
use crate::lobby;
use crate::lobby::{Draws, JoinDecision, Welcome};
use crate::moderation;
use crate::password_failures;
use crate::password_failures::RegisterPasswordFailures;
use crate::protocol::SignalingMessage;
use crate::registration;
use crate::registration::{RegisterFields, Settings};
use crate::security;
use crate::state;
use crate::state::Hub;
use crate::table::Key;
use crate::text;
use crate::validation;

verus! {

// ---------------------------------------------------------------------------
// Sessions and actions
// ---------------------------------------------------------------------------
/// What a connection has registered as.
pub struct Registered {
    pub client_id: String,
    pub lobby_id: String,
    pub generation: u64,
}

#[verifier::ext_equal]
pub struct RegisteredView {
    pub client_id: Seq<char>,
    pub lobby_id: Seq<char>,
    pub generation: u64,
}

impl View for Registered {
    type V = RegisteredView;

    open spec fn view(&self) -> RegisteredView {
        RegisteredView {
            client_id: self.client_id@,
            lobby_id: self.lobby_id@,
            generation: self.generation,
        }
    }
}

/// A connection.
pub struct Session {
    /// The client's address.
    pub source_ip: IpAddr,
    /// What identifies the connection.
    pub sender: u64,
    /// The challenge that was sent when the connection was made.
    pub challenge: String,
    pub registered: Option<Registered>,
    pub rate: MessageRateLimiter,
}

/// What is to be done, in order.
pub enum Action {
    /// Send to this connection.
    Reply(SignalingMessage),
    /// Close this connection.
    Close,
    /// Wait for so many milliseconds.
    Pause(u64),
    /// End another connection.
    Disconnect(u64),
    /// Go on only if the session that was registered is still current.
    Confirm,
    /// Send the members of a lobby, but one, to this connection.
    ReplyRoster { lobby: String, except: String },
    /// Send to one member of a lobby.
    Direct { lobby: String, target: String, message: SignalingMessage },
    /// Send to the members of a lobby, but one.
    Broadcast { lobby: String, except: String, message: SignalingMessage },
    /// Announce a chat credential.
    Rotate { lobby: String, targets: Vec<(String, u64)>, token: String, epoch: u64 },
    /// Send to another connection.
    SendTo { transport: u64, message: SignalingMessage },
    /// Close another connection.
    CloseTransport(u64),
    /// Send the shared nodes to this connection.
    ReplyNodes,
    /// Deal with a submitted node.
    SubmitNode { name: String, address: String, submitter: Option<String> },
}

/// Whether a connection goes on.
#[derive(Clone, Copy, Debug, PartialEq, Eq, Structural)]
pub enum Next {
    Continue,
    Break,
}

/// What a frame leads to.
pub struct Step {
    pub actions: Vec<Action>,
    pub next: Next,
}

/// The state that frames change.
#[verifier::ext_equal]
pub struct WorldView {
    pub hub: state::HubView,
    pub failures: password_failures::FailureMap,
    pub registered: Option<RegisteredView>,
}

/// What a connection has registered as, by its view.
pub open spec fn registered_view(registered: Option<Registered>) -> Option<RegisteredView> {
    match registered {
        Some(r) => Some(r@),
        None => None,
    }
}

/// The state as a connection sees it.
pub open spec fn world(
    hub: Hub,
    failures: RegisterPasswordFailures,
    session: Session,
) -> WorldView {
    WorldView {
        hub: hub@,
        failures: failures@,
        registered: registered_view(session.registered),
    }
}

/// A registered connection speaks for the session that it registered.
pub open spec fn is_current(world: WorldView, sender: u64) -> bool {
    world.registered matches Some(r) ==> state::session_current(
        world.hub,
        r.lobby_id,
        r.client_id,
        r.generation,
        sender,
    )
}

// ---------------------------------------------------------------------------
// Kinds of messages
// ---------------------------------------------------------------------------
impl SignalingMessage {
    /// The member that a message is for, where it is for one.
    pub open spec fn addressee(self) -> Option<Seq<char>> {
        match self {
            SignalingMessage::Offer { to, .. } => Some(to@),
            SignalingMessage::VoiceReconnect { to, .. } => Some(to@),
            SignalingMessage::Answer { to, .. } => Some(to@),
            SignalingMessage::IceCandidate { to, .. } => Some(to@),
            SignalingMessage::ScreenShareRelay { to, .. } => Some(to@),
            SignalingMessage::ScreenShareOffer { to, .. } => Some(to@),
            SignalingMessage::ScreenShareAnswer { to, .. } => Some(to@),
            SignalingMessage::ScreenShareIceCandidate { to, .. } => Some(to@),
            SignalingMessage::ScreenShareError { to, .. } => Some(to@),
            SignalingMessage::ScreenShareListResponse { to, .. } => Some(to@),
            SignalingMessage::FileShareListResponse { to, .. } => Some(to@),
            SignalingMessage::RemoteControlRequest { to, .. } => Some(to@),
            SignalingMessage::RemoteControlAccept { to, .. } => Some(to@),
            SignalingMessage::RemoteControlReject { to, .. } => Some(to@),
            SignalingMessage::RemoteControlOffer { to, .. } => Some(to@),
            SignalingMessage::RemoteControlAnswer { to, .. } => Some(to@),
            SignalingMessage::RemoteControlIce { to, .. } => Some(to@),
            SignalingMessage::RemoteControlStop { to, .. } => Some(to@),
            _ => None,
        }
    }

    /// The message is for all other members.
    pub open spec fn is_announcement(self) -> bool {
        match self {
            SignalingMessage::StatusUpdate { .. } => true,
            SignalingMessage::ScreenShareStart { .. } => true,
            SignalingMessage::ScreenShareStop { .. } => true,
            SignalingMessage::ScreenShareListRequest { .. } => true,
            SignalingMessage::ScreenShareViewerLeft { .. } => true,
            SignalingMessage::ScreenShareUpdate { .. } => true,
            SignalingMessage::FileShareAdded { .. } => true,
            SignalingMessage::FileShareRemoved { .. } => true,
            SignalingMessage::FileShareListRequest { .. } => true,
            SignalingMessage::ShareUpdated { .. } => true,
            _ => false,
        }
    }

    fn addressed_to(&self) -> (r: Option<String>)
        ensures
            match r {
                Some(to) => self.addressee() == Some(to@),
                None => self.addressee() is None,
            },
    {
        match self {
            SignalingMessage::Offer { to, .. } => Some(to.clone()),
            SignalingMessage::VoiceReconnect { to, .. } => Some(to.clone()),
            SignalingMessage::Answer { to, .. } => Some(to.clone()),
            SignalingMessage::IceCandidate { to, .. } => Some(to.clone()),
            SignalingMessage::ScreenShareRelay { to, .. } => Some(to.clone()),
            SignalingMessage::ScreenShareOffer { to, .. } => Some(to.clone()),
            SignalingMessage::ScreenShareAnswer { to, .. } => Some(to.clone()),
            SignalingMessage::ScreenShareIceCandidate { to, .. } => Some(to.clone()),
            SignalingMessage::ScreenShareError { to, .. } => Some(to.clone()),
            SignalingMessage::ScreenShareListResponse { to, .. } => Some(to.clone()),
            SignalingMessage::FileShareListResponse { to, .. } => Some(to.clone()),
            SignalingMessage::RemoteControlRequest { to, .. } => Some(to.clone()),
            SignalingMessage::RemoteControlAccept { to, .. } => Some(to.clone()),
            SignalingMessage::RemoteControlReject { to, .. } => Some(to.clone()),
            SignalingMessage::RemoteControlOffer { to, .. } => Some(to.clone()),
            SignalingMessage::RemoteControlAnswer { to, .. } => Some(to.clone()),
            SignalingMessage::RemoteControlIce { to, .. } => Some(to.clone()),
            SignalingMessage::RemoteControlStop { to, .. } => Some(to.clone()),
            _ => None,
        }
    }

    fn announces(&self) -> (r: bool)
        ensures
            r == self.is_announcement(),
    {
        match self {
            SignalingMessage::StatusUpdate { .. } => true,
            SignalingMessage::ScreenShareStart { .. } => true,
            SignalingMessage::ScreenShareStop { .. } => true,
            SignalingMessage::ScreenShareListRequest { .. } => true,
            SignalingMessage::ScreenShareViewerLeft { .. } => true,
            SignalingMessage::ScreenShareUpdate { .. } => true,
            SignalingMessage::FileShareAdded { .. } => true,
            SignalingMessage::FileShareRemoved { .. } => true,
            SignalingMessage::FileShareListRequest { .. } => true,
            SignalingMessage::ShareUpdated { .. } => true,
            _ => false,
        }
    }
}

// ---------------------------------------------------------------------------
// Steps
// ---------------------------------------------------------------------------
/// Nothing happens.
pub open spec fn is_quiet(step: Step) -> bool {
    step.actions@.len() == 0 && step.next == Next::Continue
}

/// The connection ends without a word.
pub open spec fn is_end(step: Step) -> bool {
    step.actions@.len() == 0 && step.next == Next::Break
}

fn quiet() -> (r: Step)
    ensures
        is_quiet(r),
{
    Step { actions: Vec::new(), next: Next::Continue }
}

fn end() -> (r: Step)
    ensures
        is_end(r),
{
    Step { actions: Vec::new(), next: Next::Break }
}

fn single(action: Action, next: Next) -> (r: Step)
    ensures
        r.actions@ == seq![action],
        r.next == next,
{
    let mut actions: Vec<Action> = Vec::new();
    actions.push(action);
    assert(actions@ =~= seq![action]);
    Step { actions, next }
}

/// The action tells all members of a lobby but `except`.
pub open spec fn tells(
    action: Action,
    lobby_id: Seq<char>,
    except_id: Seq<char>,
    sent: SignalingMessage,
) -> bool {
    action matches Action::Broadcast { lobby, except, message } && lobby@ == lobby_id && except@
        == except_id && message == sent
}

/// The action announces the chat credential that a lobby has.
pub open spec fn announces_credential(
    action: Action,
    lobby_id: Seq<char>,
    lobby: state::LobbyView,
    except: Option<Seq<char>>,
) -> bool {
    action matches Action::Rotate { lobby: id, targets, token, epoch } && id@ == lobby_id
        && state::is_targets(targets@, lobby.clients, except) && token@ == lobby.chat_token && epoch
        == lobby.chat_token_epoch
}

// ---------------------------------------------------------------------------
// Relaying
// ---------------------------------------------------------------------------
/// A relayed message is passed on as it is, but for the sender's name in a voice
/// offer, which is the one that was registered.
pub open spec fn is_relayed(
    original: SignalingMessage,
    sent: SignalingMessage,
    sender: state::ClientView,
) -> bool {
    match original {
        SignalingMessage::Offer { from, to, offer, .. } => {
            sent matches SignalingMessage::Offer { from: f, to: t, offer: o, player_name } && f
                == from && t == to && o == offer && state::opt_view(player_name) == Some(
                sender.player_name,
            )
        },
        _ => sent == original,
    }
}

/// What a message to one member leads to.
pub open spec fn relay_ok(world: WorldView, message: SignalingMessage, step: Step) -> bool {
    match world.registered {
        None => is_end(step),
        Some(r) => {
            &&& step.next == Next::Continue
            &&& step.actions@.len() == 1
            &&& step.actions@[0] matches Action::Direct { lobby, target, message: sent }
            &&& lobby@ == r.lobby_id
            &&& message.addressee() == Some(target@)
            &&& is_relayed(
                message,
                sent,
                world.hub.lobbies[r.lobby_id].clients[r.client_id],
            )
        },
    }
}

/// What a message to all other members leads to.
pub open spec fn announcement_ok(world: WorldView, message: SignalingMessage, step: Step) -> bool {
    match world.registered {
        None => is_end(step),
        Some(r) => step.next == Next::Continue && step.actions@.len() == 1 && tells(
            step.actions@[0],
            r.lobby_id,
            r.client_id,
            message,
        ),
    }
}

/// Writes the registered name of the sender into a voice offer.
fn with_sender_name(message: SignalingMessage, name: String) -> (r: SignalingMessage)
    ensures
        match message {
            SignalingMessage::Offer { from, to, offer, .. } => r == (SignalingMessage::Offer {
                from,
                to,
                offer,
                player_name: Some(name),
            }),
            _ => r == message,
        },
{
    match message {
        SignalingMessage::Offer { from, to, offer, .. } => SignalingMessage::Offer {
            from,
            to,
            offer,
            player_name: Some(name),
        },
        other => other,
    }
}

fn relay(session: &Session, hub: &Hub, message: SignalingMessage, to: String) -> (r: Step)
    requires
        message.addressee() == Some(to@),
        registered_view(session.registered) matches Some(r) ==> state::session_current(
            hub@,
            r.lobby_id,
            r.client_id,
            r.generation,
            session.sender,
        ),
    ensures
        forall|failures: password_failures::FailureMap| #[trigger]
            relay_ok(
                (WorldView {
                    hub: hub@,
                    failures,
                    registered: registered_view(session.registered),
                }),
                message,
                r,
            ),
{
    match &session.registered {
        None => end(),
        Some(registered) => {
            let name = match hub.lobbies.get(&registered.lobby_id) {
                Some(lobby) => match lobby.clients.get(&registered.client_id) {
                    Some(client) => client.player_name.clone(),
                    None => String::new(),
                },
                None => String::new(),
            };
            single(
                Action::Direct {
                    lobby: registered.lobby_id.clone(),
                    target: to,
                    message: with_sender_name(message, name),
                },
                Next::Continue,
            )
        },
    }
}

fn broadcast(lobby: String, except: String, message: SignalingMessage) -> (r: Step)
    ensures
        r.next == Next::Continue,
        r.actions@.len() == 1,
        tells(r.actions@[0], lobby@, except@, message),
{
    single(Action::Broadcast { lobby, except, message }, Next::Continue)
}

// ---------------------------------------------------------------------------
// Registering
// ---------------------------------------------------------------------------
/// What a member that was let in is told.
pub open spec fn is_success(
    message: SignalingMessage,
    client: Seq<char>,
    generation: u64,
    id: Seq<char>,
    lobby: state::LobbyView,
) -> bool {
    &&& message matches SignalingMessage::RegisterSuccess {
        client_id,
        session_generation,
        lobby_id,
        host_id,
        max_players,
        is_public,
        muted_players,
        chat_token,
        chat_token_epoch,
    }
    &&& client_id@ == client
    &&& session_generation == generation
    &&& lobby_id@ == id
    &&& host_id matches Some(host) && host@ == lobby.host_id
    &&& max_players == lobby.max_players
    &&& is_public == Some(lobby.is_public)
    &&& muted_players matches Some(muted) && state::lists_set(muted@, lobby.muted)
    &&& chat_token@ == lobby.chat_token
    &&& chat_token_epoch == lobby.chat_token_epoch
}

/// What the other members are told.
pub open spec fn is_joined(
    message: SignalingMessage,
    candidate: lobby::CandidateView,
    generation: u64,
) -> bool {
    &&& message matches SignalingMessage::PlayerJoined {
        player_id,
        player_name,
        virtual_ip,
        virtual_domain,
        use_domain,
        chat_public_key,
        session_generation,
    }
    &&& player_id@ == candidate.client_id
    &&& player_name@ == candidate.player_name
    &&& state::opt_view(virtual_ip) == Some(ip::v4_text(candidate.virtual_ip))
    &&& state::opt_view(virtual_domain) == Some(candidate.virtual_domain)
    &&& use_domain == candidate.use_domain
    &&& state::opt_view(chat_public_key) == candidate.chat_public_key
    &&& session_generation == generation
}

/// What is done once a candidate was let in: a connection that it replaces is
/// ended, and while the session is still current, the member is told of its
/// registration and of the others, and the others of the new credential and
/// the new member.
pub open spec fn is_welcomed(
    actions: Seq<Action>,
    before: state::HubView,
    after: state::HubView,
    candidate: lobby::CandidateView,
    generation: u64,
) -> bool {
    let id = security::lobby_id_of(candidate.lobby_name);
    let cid = candidate.client_id;
    let lobby = after.lobbies[id];
    let comes_back = before.lobbies.contains_key(id) && before.lobbies[id].clients.contains_key(cid);
    let n: int = if comes_back {
        1
    } else {
        0
    };
    let m: int = if lobby::is_alone(lobby, cid) {
        0
    } else {
        1
    };
    &&& actions.len() == n + m + 4
    &&& comes_back ==> actions[0] == Action::Disconnect(before.lobbies[id].clients[cid].sender)
    &&& actions[n] == Action::Confirm
    &&& actions[n + 1] matches Action::Reply(told) && is_success(told, cid, generation, id, lobby)
    &&& actions[n + 2] matches Action::ReplyRoster { lobby: l, except } && l@ == id && except@
        == cid
    &&& m == 1 ==> announces_credential(actions[n + 3], id, lobby, Some(cid))
    &&& actions[n + m + 3] matches Action::Broadcast { lobby: l, except, message } && l@ == id
        && except@ == cid && is_joined(message, candidate, generation)
}

/// What a registration leads to.
pub open spec fn register_ok(
    before: WorldView,
    after: WorldView,
    source: IpAddr,
    sender: u64,
    challenge: Seq<char>,
    settings: Settings,
    fields: RegisterFields,
    draws: lobby::DrawsView,
    now: u64,
    step: Step,
) -> bool {
    if before.registered is Some {
        after == before && is_end(step)
    } else {
        match registration::registration_check(
            challenge,
            fields,
            settings.minimum_client_version@,
        ) {
            Err(refusal) => {
                &&& after == before
                &&& step.next == if registration::may_retry(refusal) {
                    Next::Continue
                } else {
                    Next::Break
                }
                &&& step.actions@.len() == if refusal == registration::RegistrationRefusal::Version {
                    2int
                } else {
                    1
                }
                &&& step.actions@[0] matches Action::Reply(told) && registration::is_refusal_reply(
                    told,
                    refusal,
                    registration::reported_version(fields.client_version),
                    settings,
                )
                &&& refusal == registration::RegistrationRefusal::Version ==> step.actions@[1]
                    == Action::Pause(500)
            },
            Ok(candidate) => {
                let id = security::lobby_id_of(candidate.lobby_name);
                let quota = connection_guard::quota_of(source);
                let decision = lobby::join_decision(
                    before.hub,
                    before.failures,
                    quota,
                    candidate,
                    now,
                );
                &&& after.hub == lobby::hub_after_join(
                    before.hub,
                    decision,
                    candidate,
                    draws,
                    sender,
                )
                &&& lobby::failures_after_join(
                    before.failures,
                    after.failures,
                    decision,
                    (quota, id),
                    now,
                )
                &&& match registration::join_refusal(decision) {
                    Some(reason) => {
                        &&& after.registered is None
                        &&& step.next == if registration::may_rejoin(decision) {
                            Next::Continue
                        } else {
                            Next::Break
                        }
                        &&& step.actions@.len() == 1
                        &&& step.actions@[0] matches Action::Reply(told) && registration::is_error(
                            told,
                            reason,
                        )
                    },
                    None => {
                        &&& after.registered == Some(
                            RegisteredView {
                                client_id: candidate.client_id,
                                lobby_id: id,
                                generation: draws.generation,
                            },
                        )
                        &&& step.next == Next::Continue
                        &&& is_welcomed(
                            step.actions@,
                            before.hub,
                            after.hub,
                            candidate,
                            draws.generation,
                        )
                    },
                }
            },
        }
    }
}

/// Puts the actions for a new member together.
fn welcome_actions(
    welcome: Welcome,
    candidate: &lobby::Candidate,
    generation: u64,
    Ghost(before): Ghost<state::HubView>,
    Ghost(after): Ghost<state::HubView>,
) -> (r: Vec<Action>)
    requires
        lobby::welcome_ok(welcome, before, after, candidate@),
    ensures
        is_welcomed(r@, before, after, candidate@, generation),
{
    let ghost id = security::lobby_id_of(candidate@.lobby_name);
    let ghost lobby = after.lobbies[id];
    let mut actions: Vec<Action> = Vec::new();
    if let Some(previous) = welcome.replaced {
        actions.push(Action::Disconnect(previous));
    }
    actions.push(Action::Confirm);
    let success = SignalingMessage::RegisterSuccess {
        client_id: candidate.client_id.clone(),
        session_generation: generation,
        lobby_id: welcome.lobby_id.clone(),
        host_id: Some(welcome.host_id),
        max_players: welcome.max_players,
        is_public: Some(welcome.is_public),
        muted_players: Some(welcome.muted),
        chat_token: welcome.chat_token.clone(),
        chat_token_epoch: welcome.chat_token_epoch,
    };
    actions.push(Action::Reply(success));
    actions.push(
        Action::ReplyRoster {
            lobby: welcome.lobby_id.clone(),
            except: candidate.client_id.clone(),
        },
    );
    let has_others = welcome.others.len() > 0;
    proof {
        if has_others {
            assert(lobby.clients.contains_key(welcome.others@[0].0@));
            assert(!lobby::is_alone(lobby, candidate@.client_id));
        } else {
            assert forall|c: Seq<char>| #[trigger] lobby.clients.contains_key(c) implies c
                == candidate@.client_id by {
                if c != candidate@.client_id {
                    let i = choose|i: int|
                        0 <= i < welcome.others@.len() && (#[trigger] welcome.others@[i]).0@ == c;
                }
            }
        }
    }
    if has_others {
        actions.push(
            Action::Rotate {
                lobby: welcome.lobby_id.clone(),
                targets: welcome.others,
                token: welcome.chat_token,
                epoch: welcome.chat_token_epoch,
            },
        );
    }
    let joined = SignalingMessage::PlayerJoined {
        player_id: candidate.client_id.clone(),
        player_name: candidate.player_name.clone(),
        virtual_ip: Some(candidate.virtual_ip.to_text()),
        virtual_domain: Some(candidate.virtual_domain.clone()),
        use_domain: candidate.use_domain,
        chat_public_key: state::clone_opt(&candidate.chat_public_key),
        session_generation: generation,
    };
    actions.push(
        Action::Broadcast {
            lobby: welcome.lobby_id,
            except: candidate.client_id.clone(),
            message: joined,
        },
    );
    actions
}

/// Registers a connection.
fn register(
    session: &mut Session,
    hub: &mut Hub,
    failures: &mut RegisterPasswordFailures,
    settings: &Settings,
    fields: RegisterFields,
    draws: Draws,
    now: u64,
) -> (r: Step)
    requires
        state::hub_wf(old(hub)@),
        security::is_session_generation(draws.generation as int),
        is_current(world(*old(hub), *old(failures), *old(session)), old(session).sender),
    ensures
        register_ok(
            world(*old(hub), *old(failures), *old(session)),
            world(*final(hub), *final(failures), *final(session)),
            old(session).source_ip,
            old(session).sender,
            old(session).challenge@,
            *settings,
            fields,
            draws@,
            now,
            r,
        ),
        state::hub_wf(final(hub)@),
        password_failures::failures_bounded(old(failures)@) ==> password_failures::failures_bounded(
            final(failures)@,
        ),
        is_current(world(*final(hub), *final(failures), *final(session)), old(session).sender),
        same_connection(*old(session), *final(session)),
{
    if session.registered.is_some() {
        return end();
    }
    let ghost before = hub@;
    let candidate = match registration::check_registration(
        session.challenge.as_str(),
        &fields,
        settings.minimum_client_version.as_str(),
    ) {
        Ok(candidate) => candidate,
        Err(refusal) => {
            let reply = registration::refusal_reply(refusal, &fields.client_version, settings);
            let mut actions: Vec<Action> = Vec::new();
            actions.push(Action::Reply(reply));
            return match refusal {
                registration::RegistrationRefusal::Version => {
                    actions.push(Action::Pause(500));
                    Step { actions, next: Next::Break }
                },
                registration::RegistrationRefusal::Address => Step {
                    actions,
                    next: Next::Continue,
                },
                registration::RegistrationRefusal::Fields => Step {
                    actions,
                    next: Next::Continue,
                },
                _ => Step { actions, next: Next::Break },
            };
        },
    };
    let source = connection_guard::quota_source(session.source_ip);
    let generation: u64 = draws.generation;
    let (decision, welcome) = lobby::join(
        hub,
        failures,
        &candidate,
        source,
        draws,
        session.sender,
        now,
    );
    match welcome {
        Some(welcome) => {
            session.registered = Some(
                Registered {
                    client_id: candidate.client_id.clone(),
                    lobby_id: welcome.lobby_id.clone(),
                    generation,
                },
            );
            let actions = welcome_actions(
                welcome,
                &candidate,
                generation,
                Ghost(before),
                Ghost(hub@),
            );
            Step { actions, next: Next::Continue }
        },
        None => {
            let next = match decision {
                JoinDecision::AddressTaken => Next::Continue,
                JoinDecision::Full => Next::Continue,
                _ => Next::Break,
            };
            match registration::join_refusal_reply(decision) {
                Some(reply) => single(Action::Reply(reply), next),
                None => end(),
            }
        },
    }
}

/// Only what was registered differs.
pub open spec fn same_connection(before: Session, after: Session) -> bool {
    &&& after.source_ip == before.source_ip
    &&& after.sender == before.sender
    &&& after.challenge == before.challenge
    &&& after.rate == before.rate
}

// ---------------------------------------------------------------------------
// Managing a lobby
// ---------------------------------------------------------------------------
/// The state with another hub.
pub open spec fn with_hub(world: WorldView, hub: state::HubView) -> WorldView {
    WorldView { hub, ..world }
}

/// What removing a member leads to: its connection is told and ended, and the
/// others are told of the departure and of the new credential. Where it is not
/// allowed, nothing happens.
pub open spec fn kick_step_ok(
    before: WorldView,
    after: WorldView,
    from: Seq<char>,
    target: Seq<char>,
    token: Seq<char>,
    step: Step,
) -> bool {
    if moderation::kick_allowed(before.hub, from, target) {
        let id = before.hub.homes[from];
        let client = before.hub.lobbies[id].clients[target];
        let actions = step.actions@;
        &&& after == with_hub(before, lobby::without_member(before.hub, id, target, from, token))
        &&& step.next == Next::Continue
        &&& actions.len() == 5
        &&& actions[0] == Action::Disconnect(client.sender)
        &&& actions[1] matches Action::SendTo { transport, message } && transport == client.sender
            && is_kick_notice(message)
        &&& actions[2] == Action::CloseTransport(client.sender)
        &&& actions[3] matches Action::Broadcast { lobby, except, message } && lobby@ == id
            && except@ == target && is_left(message, target, client.session_generation)
        &&& announces_credential(actions[4], id, after.hub.lobbies[id], None)
    } else {
        after == before && is_quiet(step)
    }
}

/// The member is told that it was removed.
pub open spec fn is_kick_notice(message: SignalingMessage) -> bool {
    message matches SignalingMessage::Kicked { reason } && reason@ == "你已被房主移出大厅"@
}

/// The others are told that a member is gone.
pub open spec fn is_left(message: SignalingMessage, client: Seq<char>, generation: u64) -> bool {
    message matches SignalingMessage::PlayerLeft { player_id, session_generation } && player_id@
        == client && session_generation == generation
}

/// The members are told of another host.
pub open spec fn is_host_change(message: SignalingMessage, host: Seq<char>) -> bool {
    message matches SignalingMessage::HostChanged { host_id } && host_id@ == host
}

/// The step tells all members of a lobby one thing.
pub open spec fn tells_everyone(step: Step, id: Seq<char>) -> bool {
    &&& step.next == Next::Continue
    &&& step.actions@.len() == 1
    &&& step.actions@[0] matches Action::Broadcast { lobby, except, .. } && lobby@ == id
        && except@.len() == 0
}

/// What muting a member leads to.
pub open spec fn mute_step_ok(
    before: WorldView,
    after: WorldView,
    from: Seq<char>,
    target: Seq<char>,
    muted: bool,
    step: Step,
) -> bool {
    if moderation::manages(before.hub, from, target) {
        let id = before.hub.homes[from];
        &&& after == with_hub(
            before,
            moderation::with_lobby(
                before.hub,
                id,
                moderation::with_mute(before.hub.lobbies[id], target, muted),
            ),
        )
        &&& tells_everyone(step, id)
        &&& step.actions@[0] matches Action::Broadcast { message, .. }
        &&& message matches SignalingMessage::PlayerMuteChanged { player_id, muted: now_muted }
        &&& player_id@ == target && now_muted == muted
    } else {
        after == before && is_quiet(step)
    }
}

/// What handing the host's role on leads to.
pub open spec fn transfer_step_ok(
    before: WorldView,
    after: WorldView,
    from: Seq<char>,
    target: Seq<char>,
    step: Step,
) -> bool {
    if moderation::manages(before.hub, from, target) {
        let id = before.hub.homes[from];
        &&& after == with_hub(
            before,
            moderation::with_lobby(
                before.hub,
                id,
                state::LobbyView { host_id: target, ..before.hub.lobbies[id] },
            ),
        )
        &&& tells_everyone(step, id)
        &&& step.actions@[0] matches Action::Broadcast { message, .. }
        &&& is_host_change(message, target)
    } else {
        after == before && is_quiet(step)
    }
}

/// What a change of options leads to.
pub open spec fn options_step_ok(
    before: WorldView,
    after: WorldView,
    from: Seq<char>,
    max_players: Option<u32>,
    is_public: Option<bool>,
    description: Option<Seq<char>>,
    server_node: Option<Seq<char>>,
    step: Step,
) -> bool {
    if moderation::is_host(before.hub, from) {
        let id = before.hub.homes[from];
        let lobby = moderation::with_options(
            before.hub.lobbies[id],
            max_players,
            is_public,
            description,
            server_node,
        );
        &&& after == with_hub(before, moderation::with_lobby(before.hub, id, lobby))
        &&& tells_everyone(step, id)
        &&& step.actions@[0] matches Action::Broadcast { message, .. }
        &&& message == (SignalingMessage::LobbyOptionsChanged {
            max_players: lobby.max_players,
            is_public: lobby.is_public,
        })
    } else {
        after == before && is_quiet(step)
    }
}

fn kick_step(hub: &mut Hub, from: String, target: String, token: String) -> (r: Step)
    requires
        state::hub_wf(old(hub)@),
    ensures
        state::hub_wf(final(hub)@),
        forall|world: WorldView| #[trigger]
            with_hub(world, old(hub)@) == world ==> kick_step_ok(
                world,
                with_hub(world, final(hub)@),
                from@,
                target@,
                token@,
                r,
            ),
{
    match moderation::kick(hub, &from, &target, token) {
        Some(kick) => {
            let mut actions: Vec<Action> = Vec::new();
            actions.push(Action::Disconnect(kick.transport));
            actions.push(
                Action::SendTo {
                    transport: kick.transport,
                    message: SignalingMessage::Kicked { reason: "你已被房主移出大厅".to_owned() },
                },
            );
            actions.push(Action::CloseTransport(kick.transport));
            actions.push(
                Action::Broadcast {
                    lobby: kick.lobby_id.clone(),
                    except: target.clone(),
                    message: SignalingMessage::PlayerLeft {
                        player_id: target,
                        session_generation: kick.session_generation,
                    },
                },
            );
            actions.push(
                Action::Rotate {
                    lobby: kick.lobby_id,
                    targets: kick.rotation.targets,
                    token: kick.rotation.token,
                    epoch: kick.rotation.epoch,
                },
            );
            Step { actions, next: Next::Continue }
        },
        None => quiet(),
    }
}

fn mute_step(hub: &mut Hub, from: String, target: String, muted: bool) -> (r: Step)
    requires
        state::hub_wf(old(hub)@),
    ensures
        state::hub_wf(final(hub)@),
        forall|world: WorldView| #[trigger]
            with_hub(world, old(hub)@) == world ==> mute_step_ok(
                world,
                with_hub(world, final(hub)@),
                from@,
                target@,
                muted,
                r,
            ),
{
    match moderation::set_muted(hub, &from, &target, muted) {
        Some(id) => broadcast(
            id,
            String::new(),
            SignalingMessage::PlayerMuteChanged { player_id: target, muted },
        ),
        None => quiet(),
    }
}

fn transfer_step(hub: &mut Hub, from: String, target: String) -> (r: Step)
    requires
        state::hub_wf(old(hub)@),
    ensures
        state::hub_wf(final(hub)@),
        forall|world: WorldView| #[trigger]
            with_hub(world, old(hub)@) == world ==> transfer_step_ok(
                world,
                with_hub(world, final(hub)@),
                from@,
                target@,
                r,
            ),
{
    match moderation::transfer_host(hub, &from, &target) {
        Some(id) => broadcast(
            id,
            String::new(),
            SignalingMessage::HostChanged { host_id: target },
        ),
        None => quiet(),
    }
}

fn options_step(
    hub: &mut Hub,
    from: String,
    max_players: Option<u32>,
    is_public: Option<bool>,
    description: Option<String>,
    server_node: Option<String>,
) -> (r: Step)
    requires
        state::hub_wf(old(hub)@),
    ensures
        state::hub_wf(final(hub)@),
        forall|world: WorldView| #[trigger]
            with_hub(world, old(hub)@) == world ==> options_step_ok(
                world,
                with_hub(world, final(hub)@),
                from@,
                max_players,
                is_public,
                state::opt_view(description),
                state::opt_view(server_node),
                r,
            ),
{
    match moderation::set_options(hub, &from, max_players, is_public, description, server_node) {
        Some(change) => broadcast(
            change.lobby_id,
            String::new(),
            SignalingMessage::LobbyOptionsChanged {
                max_players: change.max_players,
                is_public: change.is_public,
            },
        ),
        None => quiet(),
    }
}

// ---------------------------------------------------------------------------
// Messages
// ---------------------------------------------------------------------------
/// The message claims no sender, or the one that its connection registered.
pub open spec fn sender_matches(
    registered: Option<RegisteredView>,
    message: SignalingMessage,
) -> bool {
    message.sender_claim() matches Some(claim) ==> registered matches Some(r) && r.client_id
        == claim
}

/// The retired form of registration is refused, with the notice that old
/// clients understand where they are too old.
pub open spec fn old_register_ok(
    client_version: Option<String>,
    settings: Settings,
    step: Step,
) -> bool {
    let version = registration::reported_version(client_version);
    &&& step.next == Next::Break
    &&& step.actions@.len() == 1
    &&& step.actions@[0] matches Action::Reply(told) && if config::version_accepted(
        version,
        settings.minimum_client_version@,
    ) {
        registration::is_error(
            told,
            "已拒绝旧注册协议，请先等待 server-challenge 后使用 register-v3"@,
        )
    } else {
        registration::is_version_notice(told, version, settings)
    }
}

/// The step is a single action, and the connection goes on.
pub open spec fn does(step: Step) -> bool {
    step.next == Next::Continue && step.actions@.len() == 1
}

/// What a message leads to whose sender is who it claims to be.
pub open spec fn dispatch_ok(
    before: WorldView,
    after: WorldView,
    source: IpAddr,
    sender: u64,
    challenge: Seq<char>,
    settings: Settings,
    message: SignalingMessage,
    draws: lobby::DrawsView,
    now: u64,
    step: Step,
) -> bool {
    match message {
        SignalingMessage::Register { client_version, .. } => after == before && old_register_ok(
            client_version,
            settings,
            step,
        ),
        SignalingMessage::RegisterV3 {
            protocol_version,
            identity_public_key,
            challenge_signature,
            player_name,
            virtual_ip,
            use_domain,
            lobby_name,
            lobby_password,
            client_version,
            ..
        } => register_ok(
            before,
            after,
            source,
            sender,
            challenge,
            settings,
            RegisterFields {
                protocol_version,
                identity_public_key,
                challenge_signature,
                player_name,
                virtual_ip,
                use_domain,
                lobby_name,
                lobby_password,
                client_version,
            },
            draws,
            now,
            step,
        ),
        SignalingMessage::Leave { .. } => after == before && is_end(step),
        SignalingMessage::PlayersListRequest => after == before && match before.registered {
            None => is_end(step),
            Some(r) => {
                &&& does(step)
                &&& step.actions@[0] matches Action::ReplyRoster { lobby, except }
                &&& lobby@ == r.lobby_id && except@ == r.client_id
            },
        },
        SignalingMessage::Ping => after == before && does(step) && step.actions@[0]
            == Action::Reply(SignalingMessage::Pong),
        SignalingMessage::PublicLobbyListRequest => after == before && does(step) && {
            &&& step.actions@[0] matches Action::Reply(told)
            &&& told matches SignalingMessage::PublicLobbyListResponse { lobbies }
            &&& moderation::is_public_list(lobbies@, before.hub)
        },
        SignalingMessage::CommunityNodeListRequest => after == before && does(step)
            && step.actions@[0] == Action::ReplyNodes,
        SignalingMessage::CommunityNodeSubmit { name, address, submitter } => after == before
            && does(step) && step.actions@[0] == (Action::SubmitNode { name, address, submitter }),
        SignalingMessage::KickPlayer { from, target } => kick_step_ok(
            before,
            after,
            from@,
            target@,
            draws.token,
            step,
        ),
        SignalingMessage::MutePlayer { from, target, muted } => mute_step_ok(
            before,
            after,
            from@,
            target@,
            muted,
            step,
        ),
        SignalingMessage::TransferHost { from, target } => transfer_step_ok(
            before,
            after,
            from@,
            target@,
            step,
        ),
        SignalingMessage::SetLobbyOptions {
            from,
            max_players,
            is_public,
            description,
            server_node,
        } => options_step_ok(
            before,
            after,
            from@,
            max_players,
            is_public,
            state::opt_view(description),
            state::opt_view(server_node),
            step,
        ),
        _ => {
            &&& after == before
            &&& if message.addressee() is Some {
                relay_ok(before, message, step)
            } else if message.is_announcement() {
                announcement_ok(before, message, step)
            } else {
                is_quiet(step)
            }
        },
    }
}

fn old_register_step(client_version: &Option<String>, settings: &Settings) -> (r: Step)
    ensures
        old_register_ok(*client_version, *settings, r),
{
    let version = match client_version {
        Some(version) => version.clone(),
        None => "unknown".to_owned(),
    };
    let reply = if config::is_version_valid(
        version.as_str(),
        settings.minimum_client_version.as_str(),
    ) {
        registration::error_reply("已拒绝旧注册协议，请先等待 server-challenge 后使用 register-v3")
    } else {
        registration::version_notice(version.as_str(), settings)
    };
    single(Action::Reply(reply), Next::Break)
}

/// Deals with a message whose sender is who it claims to be.
#[verifier::rlimit(50)]
pub fn dispatch(
    session: &mut Session,
    hub: &mut Hub,
    failures: &mut RegisterPasswordFailures,
    settings: &Settings,
    message: SignalingMessage,
    draws: Draws,
    now: u64,
) -> (r: Step)
    requires
        state::hub_wf(old(hub)@),
        security::is_session_generation(draws.generation as int),
        is_current(world(*old(hub), *old(failures), *old(session)), old(session).sender),
        sender_matches(registered_view(old(session).registered), message),
    ensures
        dispatch_ok(
            world(*old(hub), *old(failures), *old(session)),
            world(*final(hub), *final(failures), *final(session)),
            old(session).source_ip,
            old(session).sender,
            old(session).challenge@,
            *settings,
            message,
            draws@,
            now,
            r,
        ),
        state::hub_wf(final(hub)@),
        password_failures::failures_bounded(old(failures)@) ==> password_failures::failures_bounded(
            final(failures)@,
        ),
        same_connection(*old(session), *final(session)),
{
    let ghost before = world(*hub, *failures, *session);
    assert(with_hub(before, hub@) == before);
    if let Some(to) = message.addressed_to() {
        let step = relay(session, hub, message, to);
        assert(relay_ok(
            WorldView {
                hub: hub@,
                failures: failures@,
                registered: registered_view(session.registered),
            },
            message,
            step,
        ));
        return step;
    }
    if message.announces() {
        return match &session.registered {
            Some(registered) => broadcast(
                registered.lobby_id.clone(),
                registered.client_id.clone(),
                message,
            ),
            None => end(),
        };
    }
    match message {
        SignalingMessage::Register { client_version, .. } => old_register_step(
            &client_version,
            settings,
        ),
        SignalingMessage::RegisterV3 {
            protocol_version,
            identity_public_key,
            challenge_signature,
            player_name,
            virtual_ip,
            use_domain,
            lobby_name,
            lobby_password,
            client_version,
            ..
        } => {
            let fields = RegisterFields {
                protocol_version,
                identity_public_key,
                challenge_signature,
                player_name,
                virtual_ip,
                use_domain,
                lobby_name,
                lobby_password,
                client_version,
            };
            register(session, hub, failures, settings, fields, draws, now)
        },
        SignalingMessage::Leave { .. } => end(),
        SignalingMessage::PlayersListRequest => match &session.registered {
            Some(registered) => single(
                Action::ReplyRoster {
                    lobby: registered.lobby_id.clone(),
                    except: registered.client_id.clone(),
                },
                Next::Continue,
            ),
            None => end(),
        },
        SignalingMessage::Ping => single(Action::Reply(SignalingMessage::Pong), Next::Continue),
        SignalingMessage::PublicLobbyListRequest => single(
            Action::Reply(
                SignalingMessage::PublicLobbyListResponse {
                    lobbies: moderation::public_lobbies(hub),
                },
            ),
            Next::Continue,
        ),
        SignalingMessage::CommunityNodeListRequest => single(Action::ReplyNodes, Next::Continue),
        SignalingMessage::CommunityNodeSubmit { name, address, submitter } => single(
            Action::SubmitNode { name, address, submitter },
            Next::Continue,
        ),
        SignalingMessage::KickPlayer { from, target } => kick_step(hub, from, target, draws.token),
        SignalingMessage::MutePlayer { from, target, muted } => mute_step(hub, from, target, muted),
        SignalingMessage::TransferHost { from, target } => transfer_step(hub, from, target),
        SignalingMessage::SetLobbyOptions {
            from,
            max_players,
            is_public,
            description,
            server_node,
        } => options_step(hub, from, max_players, is_public, description, server_node),
        _ => quiet(),
    }
}

// ---------------------------------------------------------------------------
// Frames
// ---------------------------------------------------------------------------
/// A frame from a client.
pub enum Frame {
    /// A text frame that is a message.
    Message(SignalingMessage),
    /// A text frame that is none, and why.
    Unreadable(String),
    Close,
    /// Any other frame.
    Other,
}

/// What a client is told whose text frame is no message.
pub open spec fn unreadable_reason(error: Seq<char>, is_registered: bool) -> Seq<char> {
    if text::find_text(error, "unknown variant"@) is Some {
        "不支持的信令消息类型"@
    } else if !is_registered {
        "请先使用 register-v3 完成注册"@
    } else {
        "信令消息格式无效"@
    }
}

/// The step is one reply that ends the connection.
pub open spec fn is_refused(step: Step, reason: Seq<char>) -> bool {
    &&& step.next == Next::Break
    &&& step.actions@.len() == 1
    &&& step.actions@[0] matches Action::Reply(told) && registration::is_error(told, reason)
}

/// The step closes the connection.
pub open spec fn is_closed(step: Step) -> bool {
    step.next == Next::Break && step.actions@ == seq![Action::Close]
}

/// What a frame leads to. The checks come in this order: the rate of the
/// connection, whether its session is still current, the bounds of the payload,
/// and the sender that the message claims. A claim that is not the identity
/// that was registered is passed over in silence.
pub open spec fn frame_ok(
    before: WorldView,
    after: WorldView,
    session: Session,
    settings: Settings,
    frame: Frame,
    draws: lobby::DrawsView,
    now: u64,
    step: Step,
) -> bool {
    if session.rate.at(now).messages >= MAX_MESSAGES_PER_WINDOW || !is_current(
        before,
        session.sender,
    ) {
        after == before && is_closed(step)
    } else {
        match frame {
            Frame::Close => after == before && is_end(step),
            Frame::Other => after == before && is_quiet(step),
            Frame::Unreadable(error) => after == before && is_refused(
                step,
                unreadable_reason(error@, before.registered is Some),
            ),
            Frame::Message(message) => if !validation::message_ok(message) {
                after == before && is_refused(step, "信令字段无效或超出长度限制"@)
            } else if !sender_matches(before.registered, message) {
                after == before && is_quiet(step)
            } else {
                dispatch_ok(
                    before,
                    after,
                    session.source_ip,
                    session.sender,
                    session.challenge@,
                    settings,
                    message,
                    draws,
                    now,
                    step,
                )
            },
        }
    }
}

/// The connection is the same, with one more frame counted against its rate.
pub open spec fn counted_connection(before: Session, after: Session, now: u64) -> bool {
    &&& after.source_ip == before.source_ip
    &&& after.sender == before.sender
    &&& after.challenge == before.challenge
    &&& after.rate == if before.rate.at(now).messages < MAX_MESSAGES_PER_WINDOW {
        before.rate.at(now).counted()
    } else {
        before.rate.at(now)
    }
}

fn is_session_current(session: &Session, hub: &Hub) -> (r: bool)
    ensures
        forall|failures: password_failures::FailureMap| #[trigger]
            is_current(
                (WorldView {
                    hub: hub@,
                    failures,
                    registered: registered_view(session.registered),
                }),
                session.sender,
            ) == r,
{
    match &session.registered {
        Some(registered) => state::is_current_session(
            hub,
            &registered.lobby_id,
            &registered.client_id,
            registered.generation,
            session.sender,
        ),
        None => true,
    }
}

fn claim_matches(session: &Session, message: &SignalingMessage) -> (r: bool)
    ensures
        r == sender_matches(registered_view(session.registered), *message),
{
    match message.claimed_sender("") {
        Some(claim) => match &session.registered {
            Some(registered) => registered.client_id.same(&claim),
            None => false,
        },
        None => true,
    }
}

fn unreadable_step(error: &str, is_registered: bool) -> (r: Step)
    ensures
        is_refused(r, unreadable_reason(error@, is_registered)),
{
    let reply = if text::contains_text(error, "unknown variant") {
        registration::error_reply("不支持的信令消息类型")
    } else if !is_registered {
        registration::error_reply("请先使用 register-v3 完成注册")
    } else {
        registration::error_reply("信令消息格式无效")
    };
    single(Action::Reply(reply), Next::Break)
}

/// Deals with a frame, given the random values that it may use up.
pub fn frame_step(
    session: &mut Session,
    hub: &mut Hub,
    failures: &mut RegisterPasswordFailures,
    settings: &Settings,
    frame: Frame,
    draws: Draws,
    now: u64,
) -> (r: Step)
    requires
        state::hub_wf(old(hub)@),
        security::is_session_generation(draws.generation as int),
    ensures
        frame_ok(
            world(*old(hub), *old(failures), *old(session)),
            world(*final(hub), *final(failures), *final(session)),
            *old(session),
            *settings,
            frame,
            draws@,
            now,
            r,
        ),
        state::hub_wf(final(hub)@),
        password_failures::failures_bounded(old(failures)@) ==> password_failures::failures_bounded(
            final(failures)@,
        ),
        counted_connection(*old(session), *final(session), now),
{
    if !session.rate.allow(now) {
        return single(Action::Close, Next::Break);
    }
    let current = is_session_current(session, hub);
    assert(world(*hub, *failures, *session) == WorldView {
        hub: hub@,
        failures: failures@,
        registered: registered_view(session.registered),
    });
    assert(is_current(world(*hub, *failures, *session), session.sender) == current);
    if !current {
        return single(Action::Close, Next::Break);
    }
    match frame {
        Frame::Close => end(),
        Frame::Other => quiet(),
        Frame::Unreadable(error) => unreadable_step(error.as_str(), session.registered.is_some()),
        Frame::Message(message) => {
            if !validation::validate_message_shape(&message) {
                return single(
                    Action::Reply(registration::error_reply("信令字段无效或超出长度限制")),
                    Next::Break,
                );
            }
            if !claim_matches(session, &message) {
                return quiet();
            }
            dispatch(session, hub, failures, settings, message, draws, now)
        },
    }
}

// ---------------------------------------------------------------------------
// Random values
// ---------------------------------------------------------------------------
/// Random values as they are drawn.
pub open spec fn draws_fresh(draws: lobby::DrawsView) -> bool {
    &&& security::is_random_hex(draws.salt, LOBBY_PASSWORD_SALT_BYTES as nat)
    &&& security::is_random_hex(draws.token, CHAT_TOKEN_BYTES as nat)
    &&& security::is_session_generation(draws.generation as int)
}

/// The frame may use up random values.
pub open spec fn needs_draws(frame: Frame) -> bool {
    match frame {
        Frame::Message(message) => message is RegisterV3 || message is KickPlayer,
        _ => false,
    }
}

/// Draws random values.
pub fn draw() -> (r: Draws)
    ensures
        draws_fresh(r@),
{
    Draws {
        salt: security::random_hex::<LOBBY_PASSWORD_SALT_BYTES>(),
        token: security::generate_chat_token(),
        generation: security::random_session_generation(),
    }
}

fn draws_for(frame: &Frame) -> (r: Draws)
    ensures
        needs_draws(*frame) ==> draws_fresh(r@),
        security::is_session_generation(r.generation as int),
{
    let needed = match frame {
        Frame::Message(SignalingMessage::RegisterV3 { .. }) => true,
        Frame::Message(SignalingMessage::KickPlayer { .. }) => true,
        _ => false,
    };
    if needed {
        draw()
    } else {
        Draws { salt: String::new(), token: String::new(), generation: 1_000_000_000_000_000 }
    }
}

/// Deals with a frame.
pub fn handle_frame(
    session: &mut Session,
    hub: &mut Hub,
    failures: &mut RegisterPasswordFailures,
    settings: &Settings,
    frame: Frame,
    now: u64,
) -> (r: Step)
    requires
        state::hub_wf(old(hub)@),
    ensures
        exists|draws: lobby::DrawsView|
            (needs_draws(frame) ==> draws_fresh(draws)) && #[trigger] frame_ok(
                world(*old(hub), *old(failures), *old(session)),
                world(*final(hub), *final(failures), *final(session)),
                *old(session),
                *settings,
                frame,
                draws,
                now,
                r,
            ),
        state::hub_wf(final(hub)@),
        password_failures::failures_bounded(old(failures)@) ==> password_failures::failures_bounded(
            final(failures)@,
        ),
        counted_connection(*old(session), *final(session), now),
{
    let draws = draws_for(&frame);
    frame_step(session, hub, failures, settings, frame, draws, now)
}

// ---------------------------------------------------------------------------
// The beginning and the end
// ---------------------------------------------------------------------------
impl Session {
    /// A connection that has not registered.
    pub fn new(source_ip: IpAddr, sender: u64, challenge: String, now: u64) -> (r: Self)
        ensures
            r.source_ip == source_ip,
            r.sender == sender,
            r.challenge == challenge,
            r.registered is None,
            r.rate == (MessageRateLimiter { window_started: now, messages: 0 }),
    {
        Session {
            source_ip,
            sender,
            challenge,
            registered: None,
            rate: MessageRateLimiter::new(now),
        }
    }

    /// The first message on a connection.
    pub fn greeting(&self) -> (r: SignalingMessage)
        ensures
            r matches SignalingMessage::ServerChallenge { challenge, protocol_version } && challenge@
                == self.challenge@ && protocol_version == SIGNALING_PROTOCOL_VERSION,
    {
        SignalingMessage::ServerChallenge {
            challenge: self.challenge.clone(),
            protocol_version: SIGNALING_PROTOCOL_VERSION,
        }
    }
}

/// Begins a connection with a challenge of its own.
pub fn open_session(source_ip: IpAddr, sender: u64, now: u64) -> (r: Session)
    ensures
        r.source_ip == source_ip,
        r.sender == sender,
        security::is_random_hex(r.challenge@, CHALLENGE_BYTES as nat),
        r.registered is None,
        r.rate == (MessageRateLimiter { window_started: now, messages: 0 }),
{
    Session::new(source_ip, sender, security::random_hex::<CHALLENGE_BYTES>(), now)
}

/// What is told when the member that a connection speaks for is gone: that it
/// left, the new credential where others remain, and the new host where it was
/// the host.
pub open spec fn departure_told(
    actions: Seq<Action>,
    departure: lobby::Departure,
    after: state::HubView,
    r: RegisteredView,
) -> bool {
    let n: int = if departure.rotation is Some {
        1
    } else {
        0
    };
    let m: int = if departure.new_host is Some {
        1
    } else {
        0
    };
    &&& actions.len() == 1 + n + m
    &&& actions[0] matches Action::Broadcast { lobby, except, message } && lobby@ == r.lobby_id
        && except@ == r.client_id && is_left(message, r.client_id, r.generation)
    &&& departure.rotation is Some ==> announces_credential(
        actions[1],
        r.lobby_id,
        after.lobbies[r.lobby_id],
        None,
    )
    &&& departure.new_host matches Some(host) ==> actions[1 + n] matches Action::Broadcast {
        lobby,
        except,
        message,
    } && lobby@ == r.lobby_id && except@.len() == 0 && is_host_change(message, host@)
}

/// What the end of a connection leads to. A connection that speaks for no
/// member, because it never registered or because a newer connection of the
/// same identity has taken its place, leaves everything as it is.
pub open spec fn end_ok(
    before: state::HubView,
    after: state::HubView,
    registered: Option<RegisteredView>,
    sender: u64,
    token: Seq<char>,
    actions: Seq<Action>,
) -> bool {
    match registered {
        Some(r) => if lobby::speaks_for(before, r.lobby_id, r.client_id, sender) {
            exists|departure: lobby::Departure| #[trigger]
                lobby::departure_ok(
                    departure,
                    before,
                    after,
                    r.lobby_id,
                    r.client_id,
                    token,
                ) && departure_told(actions, departure, after, r)
        } else {
            after == before && actions.len() == 0
        },
        None => after == before && actions.len() == 0,
    }
}

/// Ends a connection, given the credential that its lobby gets.
pub fn end_step(session: &Session, hub: &mut Hub, token: String) -> (r: Vec<Action>)
    requires
        state::hub_wf(old(hub)@),
    ensures
        state::hub_wf(final(hub)@),
        end_ok(
            old(hub)@,
            final(hub)@,
            registered_view(session.registered),
            session.sender,
            token@,
            r@,
        ),
{
    let mut actions: Vec<Action> = Vec::new();
    let registered = match &session.registered {
        Some(registered) => registered,
        None => {
            return actions;
        },
    };
    let departure = match lobby::leave(
        hub,
        &registered.lobby_id,
        &registered.client_id,
        session.sender,
        token,
    ) {
        Some(departure) => departure,
        None => {
            return actions;
        },
    };
    let ghost whole = departure;
    actions.push(
        Action::Broadcast {
            lobby: registered.lobby_id.clone(),
            except: registered.client_id.clone(),
            message: SignalingMessage::PlayerLeft {
                player_id: registered.client_id.clone(),
                session_generation: registered.generation,
            },
        },
    );
    if let Some(rotation) = departure.rotation {
        actions.push(
            Action::Rotate {
                lobby: registered.lobby_id.clone(),
                targets: rotation.targets,
                token: rotation.token,
                epoch: rotation.epoch,
            },
        );
    }
    if let Some(host) = departure.new_host {
        let except = String::new();
        assert(except@.len() == 0);
        actions.push(
            Action::Broadcast {
                lobby: registered.lobby_id.clone(),
                except,
                message: SignalingMessage::HostChanged { host_id: host },
            },
        );
    }
    assert(departure_told(actions@, whole, hub@, registered@));
    actions
}

/// Ends a connection.
pub fn end_session(session: &Session, hub: &mut Hub) -> (r: Vec<Action>)
    requires
        state::hub_wf(old(hub)@),
    ensures
        state::hub_wf(final(hub)@),
        exists|token: Seq<char>|
            security::is_random_hex(token, CHAT_TOKEN_BYTES as nat) && #[trigger] end_ok(
                old(hub)@,
                final(hub)@,
                registered_view(session.registered),
                session.sender,
                token,
                r@,
            ),
{
    end_step(session, hub, security::generate_chat_token())
}

} // verus!
