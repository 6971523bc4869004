//! What holds of the library as a whole.
use vstd::prelude::*;
use crate::community_nodes;
use crate::community_nodes::{NodeOrder, ProbeOutcome};
use crate::connection_guard;
use crate::delivery;
use crate::ip;
use crate::ip::IpAddr;
use crate::limits::{MAX_REGISTER_PASSWORD_FAILURES, MAX_REGISTER_PASSWORD_KEYS};
use crate::lobby;
use crate::lobby::JoinDecision;
use crate::moderation;
use crate::node_address;
use crate::node_spelling;
use crate::node_submission;
use crate::node_submission::Submission;
use crate::password_failures;
use crate::protocol::{CommunityNodeInfo, PublicLobbyInfo, SignalingMessage};
use crate::registration;
use crate::registration::{RegisterFields, Settings};
use crate::security;
use crate::session;
use crate::session::{Action, Frame, Next, Session, Step};
use crate::state;
use crate::text;

verus! {

// ---------------------------------------------------------------------------
// Who may do what
// ---------------------------------------------------------------------------
/// The action concerns this connection alone.
pub open spec fn is_own(action: Action) -> bool {
    action is Reply || action is Close || action is Pause
}

/// Every action concerns this connection alone.
pub open spec fn all_own(actions: Seq<Action>) -> bool {
    forall|i: int| 0 <= i < actions.len() ==> is_own(#[trigger] actions[i])
}

/// A message that claims to come from anyone but the registered identity of its
/// connection changes nothing and reaches no one.
pub proof fn forged_senders_have_no_effect(
    before: session::WorldView,
    after: session::WorldView,
    connection: Session,
    settings: Settings,
    message: SignalingMessage,
    draws: lobby::DrawsView,
    now: u64,
    step: Step,
)
    requires
        session::frame_ok(
            before,
            after,
            connection,
            settings,
            Frame::Message(message),
            draws,
            now,
            step,
        ),
        message.sender_claim() is Some,
        before.registered is None || before.registered->0.client_id != message.sender_claim()->0,
    ensures
        after == before,
        all_own(step.actions@),
{
}

/// A connection that has not registered changes nothing and reaches no member
/// by anything but a registration.
pub proof fn strangers_reach_no_one(
    before: session::WorldView,
    after: session::WorldView,
    connection: Session,
    settings: Settings,
    message: SignalingMessage,
    draws: lobby::DrawsView,
    now: u64,
    step: Step,
)
    requires
        session::frame_ok(
            before,
            after,
            connection,
            settings,
            Frame::Message(message),
            draws,
            now,
            step,
        ),
        before.registered is None,
        message !is RegisterV3,
    ensures
        after == before,
        forall|i: int|
            0 <= i < step.actions@.len() ==> is_own(#[trigger] step.actions@[i])
                || step.actions@[i] is ReplyNodes || step.actions@[i] is SubmitNode,
{
}

/// A connection whose session has been taken over is closed at its next frame,
/// whatever that holds, and changes nothing.
pub proof fn stale_sessions_are_closed(
    before: session::WorldView,
    after: session::WorldView,
    connection: Session,
    settings: Settings,
    frame: Frame,
    draws: lobby::DrawsView,
    now: u64,
    step: Step,
)
    requires
        session::frame_ok(before, after, connection, settings, frame, draws, now, step),
        !session::is_current(before, connection.sender),
    ensures
        after == before,
        session::is_closed(step),
{
}

/// The commands of a host change nothing, and are answered by nothing, where
/// they come from anyone else.
pub proof fn only_hosts_manage_lobbies(
    before: session::WorldView,
    after: session::WorldView,
    connection: Session,
    settings: Settings,
    message: SignalingMessage,
    draws: lobby::DrawsView,
    now: u64,
    step: Step,
)
    requires
        session::frame_ok(
            before,
            after,
            connection,
            settings,
            Frame::Message(message),
            draws,
            now,
            step,
        ),
        message is KickPlayer || message is MutePlayer || message is TransferHost
            || message is SetLobbyOptions,
        before.registered is None || !moderation::is_host(
            before.hub,
            before.registered->0.client_id,
        ),
    ensures
        after == before,
        all_own(step.actions@),
{
}

/// A message to one member stays in the sender's lobby, and everything else that
/// members are told by a frame concerns the sender's lobby.
pub proof fn relays_stay_in_the_lobby(
    before: session::WorldView,
    after: session::WorldView,
    connection: Session,
    settings: Settings,
    message: SignalingMessage,
    draws: lobby::DrawsView,
    now: u64,
    step: Step,
    i: int,
)
    requires
        state::hub_wf(before.hub),
        session::frame_ok(
            before,
            after,
            connection,
            settings,
            Frame::Message(message),
            draws,
            now,
            step,
        ),
        before.registered is Some,
        0 <= i < step.actions@.len(),
    ensures
        match step.actions@[i] {
            Action::Direct { lobby, .. } => lobby@ == before.registered->0.lobby_id,
            Action::Broadcast { lobby, .. } => lobby@ == before.registered->0.lobby_id,
            Action::ReplyRoster { lobby, .. } => lobby@ == before.registered->0.lobby_id,
            Action::Rotate { lobby, .. } => lobby@ == before.registered->0.lobby_id,
            _ => true,
        },
{
    let r = before.registered->0;
    if session::is_current(before, connection.sender) {
        assert(before.hub.lobbies.contains_key(r.lobby_id));
        assert(before.hub.lobbies[r.lobby_id].clients.contains_key(r.client_id));
        assert(before.hub.homes[r.client_id] == r.lobby_id);
    }
}

// ---------------------------------------------------------------------------
// Sessions
// ---------------------------------------------------------------------------
/// A connection registers only as the identity whose key signed its own
/// challenge together with the lobby and the address, only with a version that
/// is recent enough, and only for an address of the virtual network.
pub proof fn registrations_are_proved(
    before: session::WorldView,
    after: session::WorldView,
    source: IpAddr,
    sender: u64,
    challenge: Seq<char>,
    settings: Settings,
    fields: RegisterFields,
    draws: lobby::DrawsView,
    now: u64,
    step: Step,
)
    requires
        session::register_ok(
            before,
            after,
            source,
            sender,
            challenge,
            settings,
            fields,
            draws,
            now,
            step,
        ),
        before.registered is None,
        after.registered is Some,
    ensures
        registration::version_admitted(fields.client_version, settings.minimum_client_version@),
        registration::requested_address(fields.virtual_ip) is Some,
        security::verified_identity(
            challenge,
            fields.lobby_name@,
            ip::v4_text(registration::requested_address(fields.virtual_ip)->0),
            fields.identity_public_key@,
            fields.challenge_signature@,
        ) matches Some(identity) && identity.client_id == after.registered->0.client_id,
        after.registered->0.lobby_id == security::lobby_id_of(fields.lobby_name@),
{
}

/// A connection that has just registered speaks for its session.
pub proof fn registering_makes_the_session_current(
    before: session::WorldView,
    after: session::WorldView,
    source: IpAddr,
    sender: u64,
    challenge: Seq<char>,
    settings: Settings,
    fields: RegisterFields,
    draws: lobby::DrawsView,
    now: u64,
    step: Step,
)
    requires
        session::register_ok(
            before,
            after,
            source,
            sender,
            challenge,
            settings,
            fields,
            draws,
            now,
            step,
        ),
        before.registered is None,
        after.registered is Some,
    ensures
        session::is_current(after, sender),
{
}

/// After an identity has joined over a new connection, the old connection no
/// longer speaks for it: its session is stale, and its late end removes nothing.
pub proof fn late_ends_spare_the_successor(
    hub: state::HubView,
    candidate: lobby::CandidateView,
    draws: lobby::DrawsView,
    sender: u64,
    old: session::RegisteredView,
    old_sender: u64,
    after: state::HubView,
    token: Seq<char>,
    actions: Seq<Action>,
)
    requires
        old.client_id == candidate.client_id,
        old.lobby_id == security::lobby_id_of(candidate.lobby_name),
        old_sender != sender,
        session::end_ok(
            lobby::hub_after_join(hub, JoinDecision::Join, candidate, draws, sender),
            after,
            Some(old),
            old_sender,
            token,
            actions,
        ),
    ensures
        after == lobby::hub_after_join(hub, JoinDecision::Join, candidate, draws, sender),
        actions.len() == 0,
        !state::session_current(after, old.lobby_id, old.client_id, old.generation, old_sender),
{
}

/// An identity is in one lobby at a time.
pub proof fn identities_are_in_one_lobby(
    hub: state::HubView,
    a: Seq<char>,
    b: Seq<char>,
    client_id: Seq<char>,
)
    requires
        state::hub_wf(hub),
        hub.lobbies.contains_key(a),
        hub.lobbies.contains_key(b),
        hub.lobbies[a].clients.contains_key(client_id),
        hub.lobbies[b].clients.contains_key(client_id),
    ensures
        a == b,
{
}

/// A member that the host removes no longer speaks for any session, so that its
/// connection is closed at its next frame; the host keeps its role.
pub proof fn removed_members_are_silenced(
    kick: moderation::Kick,
    before: state::HubView,
    after: state::HubView,
    from: Seq<char>,
    target: Seq<char>,
    token: Seq<char>,
    generation: u64,
    sender: u64,
)
    requires
        state::hub_wf(before),
        moderation::kick_allowed(before, from, target),
        moderation::kick_ok(kick, before, after, from, target, token),
    ensures
        !state::session_current(after, before.homes[from], target, generation, sender),
        moderation::is_host(after, from),
{
    let id = before.homes[from];
    assert(before.lobbies[id].clients.contains_key(from));
    assert(!lobby::is_alone(before.lobbies[id], target));
}

/// A member that leaves is in no lobby any more, and all other clients stay
/// where they are.
pub proof fn leaving_moves_no_one_else(
    hub: state::HubView,
    id: Seq<char>,
    client_id: Seq<char>,
    host_id: Seq<char>,
    token: Seq<char>,
    other: Seq<char>,
)
    requires
        state::hub_wf(hub),
        hub.lobbies.contains_key(id),
        hub.lobbies[id].clients.contains_key(client_id),
        other != client_id,
    ensures
        !lobby::without_member(hub, id, client_id, host_id, token).homes.contains_key(client_id),
        lobby::without_member(hub, id, client_id, host_id, token).homes.contains_key(other)
            == hub.homes.contains_key(other),
        hub.homes.contains_key(other) ==> lobby::without_member(
            hub,
            id,
            client_id,
            host_id,
            token,
        ).homes[other] == hub.homes[other],
{
}

/// Joining a lobby, and leaving or being removed from one, leaves all other
/// lobbies as they are.
pub proof fn other_lobbies_are_untouched(
    hub: state::HubView,
    decision: JoinDecision,
    candidate: lobby::CandidateView,
    draws: lobby::DrawsView,
    sender: u64,
    id: Seq<char>,
    client_id: Seq<char>,
    host_id: Seq<char>,
    token: Seq<char>,
    other: Seq<char>,
)
    requires
        other != security::lobby_id_of(candidate.lobby_name),
        other != id,
    ensures
        ({
            let joined = lobby::hub_after_join(hub, decision, candidate, draws, sender).lobbies;
            let left = lobby::without_member(hub, id, client_id, host_id, token).lobbies;
            &&& joined.contains_key(other) == hub.lobbies.contains_key(other)
            &&& left.contains_key(other) == hub.lobbies.contains_key(other)
            &&& hub.lobbies.contains_key(other) ==> joined[other] == hub.lobbies[other]
                && left[other] == hub.lobbies[other]
        }),
{
}

/// A founder that leaves takes the lobby with it: the hub is as it was before.
pub proof fn leaving_undoes_founding(
    hub: state::HubView,
    candidate: lobby::CandidateView,
    draws: lobby::DrawsView,
    sender: u64,
    host_id: Seq<char>,
    token: Seq<char>,
)
    requires
        !hub.lobbies.contains_key(security::lobby_id_of(candidate.lobby_name)),
        !hub.homes.contains_key(candidate.client_id),
    ensures
        lobby::without_member(
            lobby::hub_after_join(hub, JoinDecision::Found, candidate, draws, sender),
            security::lobby_id_of(candidate.lobby_name),
            candidate.client_id,
            host_id,
            token,
        ) == hub,
{
    let id = security::lobby_id_of(candidate.lobby_name);
    let founded = lobby::hub_after_join(hub, JoinDecision::Found, candidate, draws, sender);
    assert(lobby::is_alone(founded.lobbies[id], candidate.client_id));
    let back = lobby::without_member(founded, id, candidate.client_id, host_id, token);
    assert(back.lobbies =~= hub.lobbies);
    assert(back.homes =~= hub.homes);
}

// ---------------------------------------------------------------------------
// Passwords
// ---------------------------------------------------------------------------
/// A lobby that exists is entered only with its password.
pub proof fn only_the_password_opens_a_lobby(
    hub: state::HubView,
    failures: password_failures::FailureMap,
    source: IpAddr,
    candidate: lobby::CandidateView,
    now: u64,
)
    requires
        hub.lobbies.contains_key(security::lobby_id_of(candidate.lobby_name)),
        registration::join_refusal(
            lobby::join_decision(hub, failures, source, candidate, now),
        ) is None,
    ensures
        security::password_hash(
            hub.lobbies[security::lobby_id_of(candidate.lobby_name)].password_salt,
            candidate.lobby_password,
        ) == hub.lobbies[security::lobby_id_of(candidate.lobby_name)].password_hash,
{
}

/// The password that a lobby was founded with opens it, however many members
/// have come and gone: neither joining, leaving, nor the host's commands change
/// what the password is checked against.
pub proof fn the_password_stays_the_same(
    lobby: state::LobbyView,
    candidate: lobby::CandidateView,
    draws: lobby::DrawsView,
    sender: u64,
    client_id: Seq<char>,
    host_id: Seq<char>,
    token: Seq<char>,
    muted: bool,
    max_players: Option<u32>,
    is_public: Option<bool>,
    description: Option<Seq<char>>,
    server_node: Option<Seq<char>>,
)
    ensures
        security::password_hash(
            lobby::founded(candidate, draws, sender).password_salt,
            candidate.lobby_password,
        ) == lobby::founded(candidate, draws, sender).password_hash,
        same_password(lobby, lobby::joined(lobby, candidate, draws, sender)),
        same_password(lobby, lobby::departed(lobby, client_id, host_id, token)),
        same_password(lobby, moderation::with_mute(lobby, client_id, muted)),
        same_password(
            lobby,
            moderation::with_options(lobby, max_players, is_public, description, server_node),
        ),
{
}

/// Two states of a lobby check passwords alike.
pub open spec fn same_password(a: state::LobbyView, b: state::LobbyView) -> bool {
    a.password_salt == b.password_salt && a.password_hash == b.password_hash && a.is_passwordless
        == b.is_passwordless
}

/// A wrong password leaves the hub as it was, ends the connection, and is
/// recorded.
pub proof fn wrong_passwords_are_recorded_and_end_the_connection(
    before: session::WorldView,
    after: session::WorldView,
    source: IpAddr,
    sender: u64,
    challenge: Seq<char>,
    settings: Settings,
    fields: RegisterFields,
    draws: lobby::DrawsView,
    now: u64,
    step: Step,
    candidate: lobby::CandidateView,
)
    requires
        session::register_ok(
            before,
            after,
            source,
            sender,
            challenge,
            settings,
            fields,
            draws,
            now,
            step,
        ),
        before.registered is None,
        registration::registration_check(challenge, fields, settings.minimum_client_version@)
            == Ok::<lobby::CandidateView, registration::RegistrationRefusal>(candidate),
        lobby::join_decision(
            before.hub,
            before.failures,
            connection_guard::quota_of(source),
            candidate,
            now,
        ) == JoinDecision::WrongPassword,
    ensures
        after.hub == before.hub,
        after.registered is None,
        step.next == Next::Break,
        password_failures::recorded(
            password_failures::pruned(before.failures, now),
            after.failures,
            (
                connection_guard::quota_of(source),
                security::lobby_id_of(candidate.lobby_name),
            ),
            now,
        ),
{
}

/// A source that is locked out of a lobby is refused, with the right password
/// too.
pub proof fn lockouts_refuse_the_right_password(
    hub: state::HubView,
    failures: password_failures::FailureMap,
    source: IpAddr,
    candidate: lobby::CandidateView,
    now: u64,
)
    requires
        password_failures::locked(
            failures,
            (source, security::lobby_id_of(candidate.lobby_name)),
            now,
        ),
    ensures
        registration::join_refusal(
            lobby::join_decision(hub, failures, source, candidate, now),
        ) is Some,
        !registration::may_rejoin(lobby::join_decision(hub, failures, source, candidate, now)),
{
}

proof fn lemma_fresh_twice(s: Seq<u64>, now: u64)
    ensures
        password_failures::fresh(password_failures::fresh(s, now), now) == password_failures::fresh(
            s,
            now,
        ),
        password_failures::fresh(s, now).len() > 0 ==> !password_failures::is_expired(
            password_failures::fresh(s, now)[0],
            now,
        ),
    decreases s.len(),
{
    if s.len() > 0 && password_failures::is_expired(s[0], now) {
        lemma_fresh_twice(s.drop_first(), now);
    }
}

/// The last failure that is allowed locks its source out of the lobby at once.
pub proof fn the_last_failure_locks_out(
    before: password_failures::FailureMap,
    after: password_failures::FailureMap,
    key: (IpAddr, Seq<char>),
    now: u64,
)
    requires
        password_failures::recorded(before, after, key, now),
        password_failures::failures_of(password_failures::pruned(before, now), key).len()
            >= MAX_REGISTER_PASSWORD_FAILURES - 1,
    ensures
        password_failures::locked(after, key, now),
{
    let m = password_failures::pruned(before, now);
    assert(m.contains_key(key));
    lemma_fresh_twice(before[key], now);
    let list = m[key];
    assert(after[key] == if list.len() < MAX_REGISTER_PASSWORD_FAILURES {
        list.push(now)
    } else {
        list
    });
    assert(after[key][0] == list[0]);
    assert(password_failures::fresh(after[key], now) == after[key]);
}

/// Failures of one source at one lobby lock no one else out, and no lobby but
/// that one.
pub proof fn failures_lock_no_one_else_out(
    before: password_failures::FailureMap,
    after: password_failures::FailureMap,
    key: (IpAddr, Seq<char>),
    other: (IpAddr, Seq<char>),
    now: u64,
)
    requires
        password_failures::recorded(before, after, key, now),
        other != key,
    ensures
        password_failures::locked(after, other, now) ==> password_failures::locked(
            before,
            other,
            now,
        ),
{
    let m = password_failures::pruned(before, now);
    if before.contains_key(other) {
        lemma_fresh_twice(before[other], now);
    }
    if m.contains_key(key) || m.dom().len() < MAX_REGISTER_PASSWORD_KEYS {
        assert(after == password_failures::with_failure(m, key, now));
    } else {
        let oldest = choose|oldest: (IpAddr, Seq<char>)| #[trigger]
            password_failures::is_oldest(m, oldest) && after == password_failures::with_failure(
                m.remove(oldest),
                key,
                now,
            );
        assert(after == password_failures::with_failure(m.remove(oldest), key, now));
    }
}

// ---------------------------------------------------------------------------
// Chat credentials and publication
// ---------------------------------------------------------------------------
/// The message carries a chat credential.
pub open spec fn carries_credential(message: SignalingMessage) -> bool {
    message is RegisterSuccess || message is ChatTokenRotated
}

/// The action hands a chat credential to no one but members of the lobby: what
/// members are told by relays, announcements and notices carries none, and an
/// announcement of a credential goes to members.
pub open spec fn keeps_credential(action: Action, hub: state::HubView) -> bool {
    match action {
        Action::Direct { message, .. } => !carries_credential(message),
        Action::Broadcast { message, .. } => !carries_credential(message),
        Action::SendTo { message, .. } => !carries_credential(message),
        Action::Rotate { lobby, targets, token, .. } => {
            &&& hub.lobbies.contains_key(lobby@)
            &&& token@ == hub.lobbies[lobby@].chat_token
            &&& forall|i: int|
                0 <= i < targets@.len() ==> delivery::still_there(
                    #[trigger] targets@[i],
                    hub.lobbies[lobby@],
                )
        },
        _ => true,
    }
}

/// A chat credential reaches the members of its lobby alone, each over its own
/// connection; no event about the roster carries it.
pub proof fn credentials_reach_members_alone(
    before: session::WorldView,
    after: session::WorldView,
    connection: Session,
    settings: Settings,
    message: SignalingMessage,
    draws: lobby::DrawsView,
    now: u64,
    step: Step,
    i: int,
)
    requires
        state::hub_wf(before.hub),
        session::frame_ok(
            before,
            after,
            connection,
            settings,
            Frame::Message(message),
            draws,
            now,
            step,
        ),
        0 <= i < step.actions@.len(),
    ensures
        keeps_credential(step.actions@[i], after.hub),
        step.actions@[i] matches Action::Reply(told) && told is RegisterSuccess
            ==> after.registered is Some && before.registered is None,
{
}

/// The end of a connection tells the chat credential to the members that are
/// left, and to no one else.
pub proof fn ends_keep_the_credential(
    before: state::HubView,
    after: state::HubView,
    registered: Option<session::RegisteredView>,
    sender: u64,
    token: Seq<char>,
    actions: Seq<Action>,
    i: int,
)
    requires
        session::end_ok(before, after, registered, sender, token, actions),
        0 <= i < actions.len(),
    ensures
        keeps_credential(actions[i], after),
{
}

/// Every change of the membership gives the lobby a new credential, with a
/// later epoch as long as epochs last.
pub proof fn membership_changes_rotate_the_credential(
    lobby: state::LobbyView,
    candidate: lobby::CandidateView,
    draws: lobby::DrawsView,
    sender: u64,
    client_id: Seq<char>,
    host_id: Seq<char>,
    token: Seq<char>,
)
    ensures
        lobby::joined(lobby, candidate, draws, sender).chat_token == draws.token,
        lobby::departed(lobby, client_id, host_id, token).chat_token == token,
        lobby.chat_token_epoch < u64::MAX ==> lobby::joined(
            lobby,
            candidate,
            draws,
            sender,
        ).chat_token_epoch == lobby.chat_token_epoch + 1,
        lobby.chat_token_epoch < u64::MAX ==> lobby::departed(
            lobby,
            client_id,
            host_id,
            token,
        ).chat_token_epoch == lobby.chat_token_epoch + 1,
{
}

/// A credential that a joining or leaving member has replaced is no longer
/// announced.
pub proof fn replaced_credentials_are_not_announced(
    hub: state::HubView,
    id: Seq<char>,
    candidate: lobby::CandidateView,
    draws: lobby::DrawsView,
    sender: u64,
    client_id: Seq<char>,
    host_id: Seq<char>,
    token: Seq<char>,
    old_token: Seq<char>,
    old_epoch: u64,
)
    requires
        id == security::lobby_id_of(candidate.lobby_name),
        hub.lobbies.contains_key(id),
        hub.lobbies[id].chat_token_epoch < u64::MAX,
        old_epoch == hub.lobbies[id].chat_token_epoch,
    ensures
        !delivery::credential_current(
            lobby::hub_after_join(hub, JoinDecision::Join, candidate, draws, sender),
            id,
            old_token,
            old_epoch,
        ),
        !delivery::credential_current(
            lobby::without_member(hub, id, client_id, host_id, token),
            id,
            old_token,
            old_epoch,
        ),
{
}

/// No lobby with a password is ever on the public list.
pub proof fn published_lobbies_have_no_password(
    hub: state::HubView,
    list: Seq<PublicLobbyInfo>,
    ids: Seq<Seq<char>>,
    i: int,
)
    requires
        state::hub_wf(hub),
        moderation::is_public_list_of(list, ids, hub),
        0 <= i < list.len(),
    ensures
        hub.lobbies[ids[i]].is_passwordless,
        moderation::publishes(list[i], hub.lobbies[ids[i]]),
{
    assert(hub.lobbies.contains_key(ids[i]));
    assert(state::lobby_wf(ids[i], hub.lobbies[ids[i]]));
}

/// No lobby has more muted members than members.
pub proof fn mutes_are_bounded_by_members(id: Seq<char>, lobby: state::LobbyView)
    requires
        state::lobby_wf(id, lobby),
    ensures
        lobby.muted.len() <= lobby.clients.dom().len(),
{
    assert(lobby.muted.subset_of(lobby.clients.dom()));
    vstd::set_lib::lemma_len_subset(lobby.muted, lobby.clients.dom());
}

// ---------------------------------------------------------------------------
// Shared nodes
// ---------------------------------------------------------------------------
/// The list of nodes never outgrows its capacity, and only a node that answered
/// its probe gets on it.
pub proof fn submissions_keep_the_list_bounded(
    nodes: community_nodes::NodeMap,
    submission: Submission,
    outcome: ProbeOutcome,
    capacity: usize,
)
    requires
        nodes.dom().finite(),
        nodes.dom().len() <= capacity,
        node_submission::probe_refusal(nodes, submission, outcome, capacity) is None,
    ensures
        outcome is Alive,
        nodes.insert(
            submission.address@,
            node_submission::listed_node(nodes, submission, outcome->Alive_0),
        ).dom().len() <= capacity,
{
    let listed = node_submission::listed_node(nodes, submission, outcome->Alive_0);
    let after = nodes.insert(submission.address@, listed);
    assert(after.dom() =~= nodes.dom().insert(submission.address@));
}

/// A node that has just been listed is not expired, and stays on the list for
/// at least a day of sweeps.
pub proof fn listed_nodes_last_a_day(
    nodes: community_nodes::NodeMap,
    submission: Submission,
    latency_ms: u64,
    now: u64,
)
    requires
        now - submission.submitted_at <= crate::limits::COMMUNITY_NODE_MAX_OFFLINE_SECS,
    ensures
        !community_nodes::expired(
            node_submission::listed_node(nodes, submission, latency_ms),
            now,
        ),
{
}

/// A saved node that has not expired and is loaded at all is there again after a
/// restart, under the form of its address.
pub proof fn saved_nodes_come_back(
    list: Seq<CommunityNodeInfo>,
    i: int,
    form: Seq<char>,
    now: u64,
)
    requires
        0 <= i < list.len(),
        node_spelling::loaded_form(list[i]@.address) == Ok::<Seq<char>, Seq<char>>(form),
        !community_nodes::expired(list[i]@, now),
    ensures
        community_nodes::restored(list, now).contains_key(form),
    decreases list.len(),
{
    if i < list.len() - 1 {
        assert(list.drop_last()[i] == list[i]);
        saved_nodes_come_back(list.drop_last(), i, form, now);
    }
}

/// An accepted submission survives a restart, however long its form has grown:
/// once it is on the list and the list was saved, its node is filed under the
/// same form after loading, as long as it has not expired.
pub proof fn accepted_submissions_survive_a_restart(
    submission: Submission,
    nodes: community_nodes::NodeMap,
    name: Seq<char>,
    address: Seq<char>,
    submitter: Option<Seq<char>>,
    submitted_at: u64,
    list: Seq<CommunityNodeInfo>,
    i: int,
    now: u64,
)
    requires
        node_submission::submission_ok(submission, nodes, name, address, submitter, submitted_at),
        node_address::files_stably(address),
        node_spelling::respells(address),
        0 <= i < list.len(),
        list[i]@.address == submission.address@,
        !community_nodes::expired(list[i]@, now),
    ensures
        community_nodes::restored(list, now).contains_key(submission.address@),
{
    node_spelling::accepted_forms_are_loaded(address);
    saved_nodes_come_back(list, i, submission.address@, now);
}

/// Every node is filed under its own address, which is in form and is loaded.
pub open spec fn filed_in_form(nodes: community_nodes::NodeMap) -> bool {
    forall|k: Seq<char>| #[trigger]
        nodes.contains_key(k) ==> nodes[k].address == k && node_spelling::loaded_form(k) == Ok::<
            Seq<char>,
            Seq<char>,
        >(k)
}

proof fn lemma_restored_prefix(
    list: Seq<CommunityNodeInfo>,
    keys: Seq<Seq<char>>,
    nodes: community_nodes::NodeMap,
    now: u64,
    k: Seq<char>,
)
    requires
        filed_in_form(nodes),
        community_nodes::holds_nodes(list, keys, nodes),
    ensures
        community_nodes::restored(list, now).contains_key(k) == (keys.contains(k)
            && !community_nodes::expired(nodes[k], now)),
        community_nodes::restored(list, now).contains_key(k) ==> community_nodes::restored(
            list,
            now,
        )[k] == nodes[k],
    decreases list.len(),
{
    if list.len() > 0 {
        let n = list.len() - 1;
        let shorter = keys.drop_last();
        assert forall|i: int| 0 <= i < shorter.len() implies nodes.contains_key(
            #[trigger] shorter[i],
        ) && list.drop_last()[i]@ == nodes[shorter[i]] by {
            assert(shorter[i] == keys[i]);
        }
        lemma_restored_prefix(list.drop_last(), shorter, nodes, now, k);
        assert(nodes.contains_key(keys[n]));
        assert(list.last()@ == nodes[keys[n]]);
        if keys.contains(k) && k != keys[n] {
            let j = choose|j: int| 0 <= j < keys.len() && keys[j] == k;
            assert(shorter[j] == k);
        }
        if shorter.contains(k) {
            let j = choose|j: int| 0 <= j < shorter.len() && shorter[j] == k;
            assert(keys[j] == k);
        }
    }
}

/// Loading what was saved gives back the nodes that have not expired, and
/// nothing else.
pub proof fn loading_undoes_saving(
    list: Seq<CommunityNodeInfo>,
    nodes: community_nodes::NodeMap,
    order: NodeOrder,
    now: u64,
)
    requires
        filed_in_form(nodes),
        community_nodes::is_node_list(list, nodes, order),
    ensures
        community_nodes::restored(list, now) == community_nodes::unexpired(nodes, now),
{
    let keys = choose|keys: Seq<Seq<char>>| #[trigger]
        community_nodes::holds_nodes(list, keys, nodes) && forall|k: Seq<char>| #[trigger]
            nodes.contains_key(k) ==> keys.contains(k);
    let loaded = community_nodes::restored(list, now);
    let expected = community_nodes::unexpired(nodes, now);
    assert forall|k: Seq<char>| loaded.contains_key(k) == #[trigger] expected.contains_key(k) && (
    loaded.contains_key(k) ==> loaded[k] == expected[k]) by {
        lemma_restored_prefix(list, keys, nodes, now, k);
        if keys.contains(k) {
            let j = choose|j: int| 0 <= j < keys.len() && keys[j] == k;
            assert(nodes.contains_key(keys[j]));
        }
    }
    assert(loaded =~= expected);
}

/// Listing a submission whose address is in form, and sweeping, keep every node
/// filed under its own address.
pub proof fn nodes_stay_filed_in_form(
    nodes: community_nodes::NodeMap,
    submission: Submission,
    latency_ms: u64,
    results: Seq<(String, ProbeOutcome)>,
    now: u64,
)
    requires
        filed_in_form(nodes),
        node_spelling::loaded_form(submission.address@) == Ok::<Seq<char>, Seq<char>>(
            submission.address@,
        ),
    ensures
        filed_in_form(
            nodes.insert(
                submission.address@,
                node_submission::listed_node(nodes, submission, latency_ms),
            ),
        ),
        filed_in_form(
            community_nodes::unexpired(community_nodes::updated(nodes, results, now), now),
        ),
{
    lemma_updates_keep_addresses(nodes, results, now);
}

proof fn lemma_updates_keep_addresses(
    nodes: community_nodes::NodeMap,
    results: Seq<(String, ProbeOutcome)>,
    now: u64,
)
    requires
        filed_in_form(nodes),
    ensures
        filed_in_form(community_nodes::updated(nodes, results, now)),
    decreases results.len(),
{
    if results.len() > 0 {
        lemma_updates_keep_addresses(nodes, results.drop_last(), now);
    }
}

proof fn lemma_without_control(s: Seq<char>)
    ensures
        !text::has_control(node_address::without_control(s)),
        node_address::without_control(s).len() <= s.len(),
    decreases s.len(),
{
    if s.len() > 0 {
        lemma_without_control(s.drop_last());
    }
}

/// A text for display has no control characters and no more characters than
/// allowed.
pub proof fn sanitized_texts_are_safe_to_show(raw: Seq<char>, max_len: nat)
    ensures
        !text::has_control(node_address::sanitized(raw, max_len)),
        node_address::sanitized(raw, max_len).len() <= max_len,
{
    let clean = node_address::without_control(text::trimmed(raw));
    let short = node_address::at_most(clean, max_len);
    lemma_without_control(text::trimmed(raw));
    text::lemma_trimmed_is_part(short);
    let out = text::trimmed(short);
    assert forall|i: int| 0 <= i < out.len() implies !text::is_control_char(#[trigger] out[i]) by {
        assert(short.contains(out[i]));
        let j = choose|j: int| 0 <= j < short.len() && short[j] == out[i];
        assert(clean[j] == short[j]);
    }
}

// ---------------------------------------------------------------------------
// Admission
// ---------------------------------------------------------------------------
/// Headers say nothing where the peer is not a trusted proxy.
pub proof fn untrusted_peers_cannot_name_a_source(
    trusted: Set<IpAddr>,
    peer: IpAddr,
    forwarded_for: Seq<Option<String>>,
    real_ip: Seq<Option<String>>,
)
    requires
        !trusted.contains(ip::canonical_ip(peer)),
    ensures
        connection_guard::client_source(trusted, peer, forwarded_for, real_ip) == Ok::<
            IpAddr,
            Seq<char>,
        >(ip::canonical_ip(peer)),
{
}

/// The client of a forwarded chain is not a trusted proxy, and only trusted
/// proxies stand behind it: what a client writes in front of its own address
/// never counts.
pub proof fn the_nearest_client_counts(chain: Seq<IpAddr>, trusted: Set<IpAddr>)
    ensures
        match connection_guard::nearest_client(chain, trusted) {
            Some(client) => !trusted.contains(client) && exists|i: int|
                0 <= i < chain.len() && (#[trigger] chain[i]) == client && forall|j: int|
                    i < j < chain.len() ==> trusted.contains(#[trigger] chain[j]),
            None => forall|j: int|
                0 <= j < chain.len() ==> trusted.contains(#[trigger] chain[j]),
        },
    decreases chain.len(),
{
    if chain.len() > 0 {
        let n = chain.len() - 1;
        if trusted.contains(chain.last()) {
            let rest = chain.drop_last();
            the_nearest_client_counts(rest, trusted);
            match connection_guard::nearest_client(rest, trusted) {
                Some(client) => {
                    let i = choose|i: int|
                        0 <= i < rest.len() && (#[trigger] rest[i]) == client && forall|j: int|
                            i < j < rest.len() ==> trusted.contains(#[trigger] rest[j]);
                    assert(chain[i] == client);
                    assert forall|j: int| i < j < chain.len() implies trusted.contains(
                        #[trigger] chain[j],
                    ) by {
                        if j < n {
                            assert(rest[j] == chain[j]);
                        }
                    }
                },
                None => {
                    assert forall|j: int| 0 <= j < chain.len() implies trusted.contains(
                        #[trigger] chain[j],
                    ) by {
                        if j < n {
                            assert(rest[j] == chain[j]);
                        }
                    }
                },
            }
        } else {
            assert(chain[n] == chain.last());
        }
    }
}

/// A trusted proxy is never taken for the client.
pub proof fn proxies_are_no_clients(
    trusted: Set<IpAddr>,
    peer: IpAddr,
    forwarded_for: Seq<Option<String>>,
    real_ip: Seq<Option<String>>,
)
    ensures
        connection_guard::client_source(trusted, peer, forwarded_for, real_ip) matches Ok(client)
            ==> !trusted.contains(client),
{
    if forwarded_for.len() == 1 && forwarded_for[0] is Some {
        if let Some(chain) = connection_guard::chain_of(forwarded_for[0]->0@) {
            the_nearest_client_counts(chain, trusted);
        }
    }
}

} // verus!
