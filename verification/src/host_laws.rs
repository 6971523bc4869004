//! What the host of a lobby brings about, and what the end of a connection does.
use vstd::prelude::*;
use crate::frame_laws;
use crate::lobby;
use crate::lobby_laws;
use crate::protocol::{PlayerInfo, SignalingMessage};
use crate::registration::Settings;
use crate::session;
use crate::session::{Action, Frame, Next, Session, Step};
use crate::state;
use crate::text;
use crate::validation;

verus! {

/// A frame of a registered member that nothing else stops, with a message that
/// names the member as its sender.
pub open spec fn is_asked(
    before: session::WorldView,
    after: session::WorldView,
    connection: Session,
    settings: Settings,
    message: SignalingMessage,
    sender: Seq<char>,
    draws: lobby::DrawsView,
    now: u64,
    step: Step,
) -> bool {
    &&& session::frame_ok(
        before,
        after,
        connection,
        settings,
        Frame::Message(message),
        draws,
        now,
        step,
    )
    &&& state::hub_wf(before.hub)
    &&& frame_laws::within_rate(connection, now)
    &&& frame_laws::is_live(before, connection)
    &&& validation::message_ok(message)
    &&& before.registered matches Some(r) && r.client_id == sender
}

/// Only one lobby changed, and neither its members, its credential, its name nor
/// its password did.
pub open spec fn keeps_members(
    before: session::WorldView,
    after: session::WorldView,
    id: Seq<char>,
) -> bool {
    let a = before.hub.lobbies[id];
    let b = after.hub.lobbies[id];
    &&& after.failures == before.failures
    &&& after.registered == before.registered
    &&& after.hub.homes == before.hub.homes
    &&& after.hub.lobbies.dom() == before.hub.lobbies.dom()
    &&& forall|l: Seq<char>| l != id ==> #[trigger] after.hub.lobbies[l] == before.hub.lobbies[l]
    &&& b.clients == a.clients
    &&& b.lobby_name == a.lobby_name
    &&& b.password_hash == a.password_hash
    &&& b.password_salt == a.password_salt
    &&& b.is_passwordless == a.is_passwordless
    &&& b.chat_token == a.chat_token
    &&& b.chat_token_epoch == a.chat_token_epoch
}

/// The step tells everyone in a lobby, the sender too, one thing.
pub open spec fn tells_all(step: Step, id: Seq<char>) -> bool {
    &&& step.next == Next::Continue
    &&& step.actions@.len() == 1
    &&& step.actions@[0] matches Action::Broadcast { lobby, except, .. } && lobby@ == id
        && except@.len() == 0
}

/// The one thing that a step tells a lobby.
pub open spec fn told(step: Step) -> SignalingMessage {
    step.actions@[0]->Broadcast_message
}

/// A member that is not the host changes nothing in its lobby.
pub proof fn members_that_do_not_host_change_nothing(
    before: session::WorldView,
    after: session::WorldView,
    connection: Session,
    settings: Settings,
    message: SignalingMessage,
    sender: Seq<char>,
    draws: lobby::DrawsView,
    now: u64,
    step: Step,
)
    requires
        is_asked(before, after, connection, settings, message, sender, draws, now, step),
        before.hub.lobbies[before.registered->0.lobby_id].host_id != sender,
        match message {
            SignalingMessage::KickPlayer { from, .. } => from@ == sender,
            SignalingMessage::MutePlayer { from, .. } => from@ == sender,
            SignalingMessage::TransferHost { from, .. } => from@ == sender,
            SignalingMessage::SetLobbyOptions { from, .. } => from@ == sender,
            _ => false,
        },
    ensures
        after == before,
        frame_laws::does_nothing(step),
{
    let id = before.registered->0.lobby_id;
    assert(before.hub.lobbies.contains_key(id) && before.hub.lobbies[id].clients.contains_key(
        sender,
    ));
    assert(before.hub.homes[sender] == id);
}

/// A host that sets the publicity of its lobby has it public exactly when it asks
/// for that and the lobby has no password, whatever it was before. A host that
/// says nothing of it leaves it as it was.
pub proof fn hosts_publish_lobbies_without_password(
    before: session::WorldView,
    after: session::WorldView,
    connection: Session,
    settings: Settings,
    message: SignalingMessage,
    sender: Seq<char>,
    draws: lobby::DrawsView,
    now: u64,
    step: Step,
)
    requires
        is_asked(before, after, connection, settings, message, sender, draws, now, step),
        message matches SignalingMessage::SetLobbyOptions { from, .. } && from@ == sender,
        before.hub.lobbies[before.registered->0.lobby_id].host_id == sender,
    ensures
        ({
            let id = before.registered->0.lobby_id;
            let lobby = after.hub.lobbies[id];
            &&& message matches SignalingMessage::SetLobbyOptions { is_public, .. }
            &&& keeps_members(before, after, id)
            &&& is_public matches Some(p) ==> (lobby.is_public <==> p
                && before.hub.lobbies[id].is_passwordless)
            &&& is_public == Some(false) ==> !lobby.is_public
            &&& is_public is None ==> lobby.is_public == before.hub.lobbies[id].is_public
            &&& lobby.host_id == sender
            &&& lobby.muted == before.hub.lobbies[id].muted
            &&& tells_all(step, id)
            &&& told(step) == (SignalingMessage::LobbyOptionsChanged {
                max_players: lobby.max_players,
                is_public: lobby.is_public,
            })
        }),
{
    let id = before.registered->0.lobby_id;
    assert(before.hub.lobbies.contains_key(id) && before.hub.lobbies[id].clients.contains_key(
        sender,
    ));
    assert(before.hub.homes[sender] == id);
    assert(after.hub.lobbies.dom() =~= before.hub.lobbies.dom());
}

/// A host sets the limit of its lobby: none for zero, 64 for more than that, else
/// what it asks for. It sets a description of up to 200 bytes and the name of a
/// node of up to 512, which says something; texts with control characters or out
/// of bounds are left as they were, and so is what the host says nothing of.
pub proof fn hosts_set_limit_and_texts(
    before: session::WorldView,
    after: session::WorldView,
    connection: Session,
    settings: Settings,
    message: SignalingMessage,
    sender: Seq<char>,
    draws: lobby::DrawsView,
    now: u64,
    step: Step,
)
    requires
        is_asked(before, after, connection, settings, message, sender, draws, now, step),
        message matches SignalingMessage::SetLobbyOptions { from, .. } && from@ == sender,
        before.hub.lobbies[before.registered->0.lobby_id].host_id == sender,
    ensures
        ({
            let id = before.registered->0.lobby_id;
            let old_lobby = before.hub.lobbies[id];
            let lobby = after.hub.lobbies[id];
            &&& message matches SignalingMessage::SetLobbyOptions {
                max_players,
                description,
                server_node,
                ..
            }
            &&& max_players is None ==> lobby.max_players == old_lobby.max_players
            &&& max_players matches Some(max) ==> {
                &&& max == 0 ==> lobby.max_players is None
                &&& 1 <= max <= 64 ==> lobby.max_players == Some(max)
                &&& max > 64 ==> lobby.max_players == Some(64u32)
            }
            &&& description is None ==> lobby.description == old_lobby.description
            &&& description matches Some(d) ==> lobby.description == if text::utf8_len(d@) <= 200
                && !text::has_control(d@) {
                d@
            } else {
                old_lobby.description
            }
            &&& server_node is None ==> lobby.server_node == old_lobby.server_node
            &&& server_node matches Some(n) ==> lobby.server_node == if text::utf8_len(n@) <= 512
                && !text::has_control(n@) && text::trimmed(n@).len() > 0 {
                n@
            } else {
                old_lobby.server_node
            }
        }),
{
    let id = before.registered->0.lobby_id;
    assert(before.hub.lobbies.contains_key(id) && before.hub.lobbies[id].clients.contains_key(
        sender,
    ));
    assert(before.hub.homes[sender] == id);
}

/// A host mutes a member or lifts the mute: that member alone is muted exactly when
/// the host says so, and everyone is told. Whom the host names that is no member
/// is not muted.
pub proof fn hosts_mute_members(
    before: session::WorldView,
    after: session::WorldView,
    connection: Session,
    settings: Settings,
    message: SignalingMessage,
    sender: Seq<char>,
    draws: lobby::DrawsView,
    now: u64,
    step: Step,
    other: Seq<char>,
)
    requires
        is_asked(before, after, connection, settings, message, sender, draws, now, step),
        message matches SignalingMessage::MutePlayer { from, .. } && from@ == sender,
        before.hub.lobbies[before.registered->0.lobby_id].host_id == sender,
    ensures
        ({
            let id = before.registered->0.lobby_id;
            let old_lobby = before.hub.lobbies[id];
            let lobby = after.hub.lobbies[id];
            &&& message matches SignalingMessage::MutePlayer { target, muted, .. }
            &&& !old_lobby.clients.contains_key(target@) ==> after == before
                && frame_laws::does_nothing(step)
            &&& old_lobby.clients.contains_key(target@) ==> {
                &&& keeps_members(before, after, id)
                &&& lobby_laws::same_rules(old_lobby, lobby)
                &&& lobby.host_id == old_lobby.host_id
                &&& lobby.muted.contains(target@) == muted
                &&& other != target@ ==> lobby.muted.contains(other) == old_lobby.muted.contains(
                    other,
                )
                &&& tells_all(step, id)
                &&& told(step) matches SignalingMessage::PlayerMuteChanged {
                    player_id,
                    muted: m,
                } && player_id@ == target@ && m == muted
            }
        }),
{
    let id = before.registered->0.lobby_id;
    assert(before.hub.lobbies.contains_key(id) && before.hub.lobbies[id].clients.contains_key(
        sender,
    ));
    assert(before.hub.homes[sender] == id);
    if before.hub.lobbies[id].clients.contains_key(message->MutePlayer_target@) {
        assert(after.hub.lobbies.dom() =~= before.hub.lobbies.dom());
    }
}

/// A host hands its role to a member, and everyone is told; it keeps the role where
/// it names someone who is no member.
pub proof fn hosts_hand_their_role_on(
    before: session::WorldView,
    after: session::WorldView,
    connection: Session,
    settings: Settings,
    message: SignalingMessage,
    sender: Seq<char>,
    draws: lobby::DrawsView,
    now: u64,
    step: Step,
)
    requires
        is_asked(before, after, connection, settings, message, sender, draws, now, step),
        message matches SignalingMessage::TransferHost { from, .. } && from@ == sender,
        before.hub.lobbies[before.registered->0.lobby_id].host_id == sender,
    ensures
        ({
            let id = before.registered->0.lobby_id;
            let old_lobby = before.hub.lobbies[id];
            let lobby = after.hub.lobbies[id];
            &&& message matches SignalingMessage::TransferHost { target, .. }
            &&& !old_lobby.clients.contains_key(target@) ==> after == before
                && frame_laws::does_nothing(step)
            &&& old_lobby.clients.contains_key(target@) ==> {
                &&& keeps_members(before, after, id)
                &&& lobby_laws::same_rules(old_lobby, lobby)
                &&& lobby.muted == old_lobby.muted
                &&& lobby.host_id == target@
                &&& tells_all(step, id)
                &&& told(step) matches SignalingMessage::HostChanged { host_id } && host_id@
                    == target@
            }
        }),
{
    let id = before.registered->0.lobby_id;
    assert(before.hub.lobbies.contains_key(id) && before.hub.lobbies[id].clients.contains_key(
        sender,
    ));
    assert(before.hub.homes[sender] == id);
    if before.hub.lobbies[id].clients.contains_key(message->TransferHost_target@) {
        assert(after.hub.lobbies.dom() =~= before.hub.lobbies.dom());
    }
}

/// A host removes another member: that member alone is gone, is told why, and its
/// connection is closed; the others are told that it left and get a new credential.
/// A host cannot remove itself, nor anyone who is no member.
pub proof fn hosts_remove_members(
    before: session::WorldView,
    after: session::WorldView,
    connection: Session,
    settings: Settings,
    message: SignalingMessage,
    sender: Seq<char>,
    draws: lobby::DrawsView,
    now: u64,
    step: Step,
    other: Seq<char>,
)
    requires
        is_asked(before, after, connection, settings, message, sender, draws, now, step),
        message matches SignalingMessage::KickPlayer { from, .. } && from@ == sender,
        before.hub.lobbies[before.registered->0.lobby_id].host_id == sender,
    ensures
        ({
            let id = before.registered->0.lobby_id;
            let old_lobby = before.hub.lobbies[id];
            let lobby = after.hub.lobbies[id];
            &&& message matches SignalingMessage::KickPlayer { target, .. }
            &&& target@ == sender || !old_lobby.clients.contains_key(target@) ==> after == before
                && frame_laws::does_nothing(step)
            &&& target@ != sender && old_lobby.clients.contains_key(target@) ==> {
                &&& after.failures == before.failures
                &&& after.registered == before.registered
                &&& after.hub.lobbies.contains_key(id)
                &&& !after.hub.homes.contains_key(target@)
                &&& other != target@ ==> after.hub.homes.contains_key(other)
                    == before.hub.homes.contains_key(other) && after.hub.homes[other]
                    == before.hub.homes[other]
                &&& other != id ==> after.hub.lobbies.contains_key(other)
                    == before.hub.lobbies.contains_key(other) && after.hub.lobbies[other]
                    == before.hub.lobbies[other]
                &&& lobby_laws::same_rules(old_lobby, lobby)
                &&& lobby.host_id == sender
                &&& lobby.clients.contains_key(other) <==> other != target@
                    && old_lobby.clients.contains_key(other)
                &&& other != target@ ==> lobby.clients[other] == old_lobby.clients[other]
                &&& lobby.muted.contains(other) <==> other != target@ && old_lobby.muted.contains(
                    other,
                )
                &&& lobby.chat_token == draws.token
                &&& lobby_laws::follows(old_lobby.chat_token_epoch, lobby.chat_token_epoch)
            }
        }),
{
    let id = before.registered->0.lobby_id;
    let old_lobby = before.hub.lobbies[id];
    assert(before.hub.lobbies.contains_key(id) && old_lobby.clients.contains_key(sender));
    assert(before.hub.homes[sender] == id);
}

/// What is told when the host removes a member.
pub proof fn removals_are_told(
    before: session::WorldView,
    after: session::WorldView,
    connection: Session,
    settings: Settings,
    message: SignalingMessage,
    sender: Seq<char>,
    draws: lobby::DrawsView,
    now: u64,
    step: Step,
    other: Seq<char>,
)
    requires
        is_asked(before, after, connection, settings, message, sender, draws, now, step),
        message matches SignalingMessage::KickPlayer { from, target } && from@ == sender
            && target@ != sender
            && before.hub.lobbies[before.registered->0.lobby_id].clients.contains_key(target@),
        before.hub.lobbies[before.registered->0.lobby_id].host_id == sender,
    ensures
        ({
            let id = before.registered->0.lobby_id;
            let gone = message->KickPlayer_target@;
            let members = before.hub.lobbies[id].clients;
            let actions = step.actions@;
            &&& step.next == Next::Continue
            &&& actions.len() == 5
            &&& actions[0] == Action::Disconnect(members[gone].sender)
            &&& actions[1] matches Action::SendTo {
                transport,
                message: SignalingMessage::Kicked { reason },
            } && transport == members[gone].sender && reason@ == "你已被房主移出大厅"@
            &&& actions[2] == Action::CloseTransport(members[gone].sender)
            &&& actions[3] matches Action::Broadcast {
                lobby,
                except,
                message: SignalingMessage::PlayerLeft { player_id, session_generation },
            } && lobby@ == id && except@ == gone && player_id@ == gone && session_generation
                == members[gone].session_generation
            &&& actions[4] matches Action::Rotate { lobby, targets, token, epoch } && lobby@ == id
                && token@ == draws.token && epoch == after.hub.lobbies[id].chat_token_epoch
                && hands_to_all_but(targets@, members, gone)
        }),
{
    let id = before.registered->0.lobby_id;
    let members = before.hub.lobbies[id].clients;
    assert(before.hub.lobbies.contains_key(id) && members.contains_key(sender));
    assert(before.hub.homes[sender] == id);
    let gone = message->KickPlayer_target@;
    assert forall|c: Seq<char>| #[trigger] members.contains_key(c) && c != gone implies
        after.hub.lobbies[id].clients.contains_key(c) by {}
}

/// The targets are all members but one, each once, with the connection that speaks
/// for it.
pub open spec fn hands_to_all_but(
    targets: Seq<(String, u64)>,
    members: Map<Seq<char>, state::ClientView>,
    but: Seq<char>,
) -> bool {
    &&& forall|i: int|
        0 <= i < targets.len() ==> (#[trigger] targets[i]).0@ != but && members.contains_key(
            targets[i].0@,
        ) && targets[i].1 == members[targets[i].0@].sender
    &&& forall|i: int, j: int|
        0 <= i < j < targets.len() ==> (#[trigger] targets[i]).0@ != (#[trigger] targets[j]).0@
    &&& forall|c: Seq<char>| #[trigger]
        members.contains_key(c) && c != but ==> exists|i: int|
            0 <= i < targets.len() && (#[trigger] targets[i]).0@ == c
}

/// The end of a connection that speaks for a member is told to the others: that
/// the member left, with the session it had; where others remain, the credential
/// that they have from now on; and the new host, where the leaver was the host.
pub proof fn departures_are_told(
    before: state::HubView,
    after: state::HubView,
    registered: session::RegisteredView,
    sender: u64,
    token: Seq<char>,
    actions: Seq<Action>,
    other: Seq<char>,
)
    requires
        state::hub_wf(before),
        session::end_ok(before, after, Some(registered), sender, token, actions),
        before.lobbies.contains_key(registered.lobby_id),
        before.lobbies[registered.lobby_id].clients.contains_key(registered.client_id),
        before.lobbies[registered.lobby_id].clients[registered.client_id].sender == sender,
    ensures
        ({
            let id = registered.lobby_id;
            let cid = registered.client_id;
            let members = before.lobbies[id].clients;
            let stays = members.contains_key(other) && other != cid;
            &&& !after.homes.contains_key(cid)
            &&& actions.len() >= 1
            &&& actions[0] matches Action::Broadcast {
                lobby,
                except,
                message: SignalingMessage::PlayerLeft { player_id, session_generation },
            } && lobby@ == id && except@ == cid && player_id@ == cid && session_generation
                == registered.generation
            &&& members.dom() == set![cid] ==> actions.len() == 1 && !after.lobbies.contains_key(id)
            &&& stays ==> {
                &&& after.lobbies.contains_key(id)
                &&& after.lobbies[id].clients.contains_key(other)
                &&& after.lobbies[id].clients[other] == members[other]
                &&& after.lobbies[id].chat_token == token
                &&& actions.len() == if before.lobbies[id].host_id == cid {
                    3int
                } else {
                    2
                }
                &&& actions[1] matches Action::Rotate { lobby, targets, token: t, epoch } && lobby@
                    == id && t@ == token && epoch == after.lobbies[id].chat_token_epoch
                    && hands_to_all_but(targets@, members, cid)
                &&& before.lobbies[id].host_id == cid ==> (actions[2] matches Action::Broadcast {
                    lobby,
                    except,
                    message: SignalingMessage::HostChanged { host_id },
                } && lobby@ == id && except@.len() == 0 && host_id@ == after.lobbies[id].host_id
                    && host_id@ != cid && members.contains_key(host_id@))
            }
        }),
{
    let id = registered.lobby_id;
    let cid = registered.client_id;
    let members = before.lobbies[id].clients;
    let departure = choose|departure: lobby::Departure| #[trigger]
        lobby::departure_ok(departure, before, after, id, cid, token) && session::departure_told(
            actions,
            departure,
            after,
            registered,
        );
    lobby_laws::leaving_takes_one_member(before, after, departure, id, cid, token, other);
    if members.dom() == set![cid] {
        assert forall|c: Seq<char>| #[trigger] members.contains_key(c) implies c == cid by {
            assert(members.dom().contains(c));
        }
    }
    if members.contains_key(other) && other != cid {
        assert(members.dom().contains(other));
        assert(!(set![cid].contains(other)));
        assert(after.lobbies.contains_key(id));
        assert forall|c: Seq<char>| #[trigger] members.contains_key(c) && c != cid implies
            after.lobbies[id].clients.contains_key(c) by {}
    }
}

/// The end of a connection that never registered, or whose member another
/// connection speaks for by now, or whose member is gone, changes nothing.
pub proof fn ends_of_others_change_nothing(
    before: state::HubView,
    after: state::HubView,
    registered: Option<session::RegisteredView>,
    sender: u64,
    token: Seq<char>,
    actions: Seq<Action>,
)
    requires
        session::end_ok(before, after, registered, sender, token, actions),
        registered matches Some(r) ==> !(before.lobbies.contains_key(r.lobby_id)
            && before.lobbies[r.lobby_id].clients.contains_key(r.client_id)
            && before.lobbies[r.lobby_id].clients[r.client_id].sender == sender),
    ensures
        after == before,
        actions.len() == 0,
{
}

/// What is sent to a lobby goes to all members but one, each once, through the
/// connection that speaks for it; where no one is left out, it goes to all.
pub proof fn broadcasts_reach_each_member_once(
    targets: Seq<(String, u64)>,
    members: Map<Seq<char>, state::ClientView>,
    but: Option<Seq<char>>,
)
    requires
        state::is_targets(targets, members, but),
    ensures
        but matches Some(b) ==> hands_to_all_but(targets, members, b),
        but is None ==> forall|c: Seq<char>| #[trigger]
            members.contains_key(c) ==> exists|i: int|
                0 <= i < targets.len() && (#[trigger] targets[i]).0@ == c && targets[i].1
                    == members[c].sender,
        targets.len() == if but is Some {
            members.dom().remove(but->0).len()
        } else {
            members.dom().len()
        },
{
    let names = Seq::new(targets.len(), |i: int| targets[i].0@);
    let wanted = if but is Some {
        members.dom().remove(but->0)
    } else {
        members.dom()
    };
    assert forall|i: int, j: int| 0 <= i < names.len() && 0 <= j < names.len() && i
        != j implies names[i] != names[j] by {
        if i < j {
            assert(targets[i].0@ != targets[j].0@);
        } else {
            assert(targets[j].0@ != targets[i].0@);
        }
    }
    assert(names.no_duplicates());
    assert(names.to_set() =~= wanted) by {
        assert forall|c: Seq<char>| names.to_set().contains(c) == wanted.contains(c) by {
            if names.contains(c) {
                let i = choose|i: int| 0 <= i < names.len() && names[i] == c;
                assert(members.contains_key(targets[i].0@) && Some(targets[i].0@) != but);
            }
            if wanted.contains(c) {
                assert(members.contains_key(c) && Some(c) != but);
                let i = choose|i: int| 0 <= i < targets.len() && (#[trigger] targets[i]).0@ == c;
                assert(names[i] == c);
            }
        }
    }
    names.unique_seq_to_set();
    if but is None {
        assert forall|c: Seq<char>| #[trigger] members.contains_key(c) implies exists|i: int|
            0 <= i < targets.len() && (#[trigger] targets[i]).0@ == c && targets[i].1
                == members[c].sender by {
            assert(Some(c) != but);
            let i = choose|i: int| 0 <= i < targets.len() && (#[trigger] targets[i]).0@ == c;
            assert(members[targets[i].0@].sender == targets[i].1);
        }
    }
}

/// A line of a roster, field by field.
pub open spec fn introduces(
    player: PlayerInfo,
    member: state::ClientView,
) -> bool {
    &&& player.player_id@ == member.player_id
    &&& player.player_name@ == member.player_name
    &&& match member.virtual_ip {
        Some(ip) => player.virtual_ip matches Some(p) && p@ == ip,
        None => player.virtual_ip is None,
    }
    &&& match member.virtual_domain {
        Some(domain) => player.virtual_domain matches Some(p) && p@ == domain,
        None => player.virtual_domain is None,
    }
    &&& player.use_domain == member.use_domain
    &&& match member.chat_public_key {
        Some(key) => player.chat_public_key matches Some(p) && p@ == key,
        None => player.chat_public_key is None,
    }
    &&& player.session_generation == member.session_generation
}

/// A roster introduces every member but one, each once, and no one else.
pub proof fn rosters_introduce_each_member_once(
    players: Seq<PlayerInfo>,
    members: Map<Seq<char>, state::ClientView>,
    but: Seq<char>,
    member: Seq<char>,
    i: int,
)
    requires
        state::is_roster(players, members, Some(but)),
    ensures
        players.len() == members.dom().remove(but).len(),
        members.contains_key(member) && member != but ==> exists|k: int|
            0 <= k < players.len() && introduces(#[trigger] players[k], members[member]),
        0 <= i < players.len() ==> exists|c: Seq<char>| #[trigger]
            members.contains_key(c) && c != but && introduces(players[i], members[c]),
{
    let ids = choose|ids: Seq<Seq<char>>| #[trigger]
        state::is_roster_of(players, ids, members, Some(but));
    assert(ids.to_set() =~= members.dom().remove(but)) by {
        assert forall|c: Seq<char>| ids.to_set().contains(c) == members.dom().remove(but).contains(
            c,
        ) by {
            if ids.contains(c) {
                let k = choose|k: int| 0 <= k < ids.len() && ids[k] == c;
                assert(members.contains_key(ids[k]) && Some(ids[k]) != Some(but));
            }
            if members.dom().remove(but).contains(c) {
                assert(members.contains_key(c) && Some(c) != Some(but));
            }
        }
    }
    ids.unique_seq_to_set();
    if members.contains_key(member) && member != but {
        assert(Some(member) != Some(but));
        assert(ids.contains(member));
        let k = choose|k: int| 0 <= k < ids.len() && ids[k] == member;
        assert(state::describes(players[k], members[ids[k]]));
        assert(introduces(players[k], members[member]));
    }
    if 0 <= i < players.len() {
        assert(members.contains_key(ids[i]));
        assert(introduces(players[i], members[ids[i]]));
    }
}

} // verus!
