//! Who gets into a lobby, and what a member's coming and going changes.
use vstd::prelude::*;
use vstd::utf8::*;
use crate::ip;
use crate::ip::IpAddr;
use crate::lobby;
use crate::lobby::JoinDecision;
use crate::number;
use crate::password_failures;
use crate::security;
use crate::state;

verus! {

/// A member that comes back with the right password and its own virtual address
/// gets in as long as the lobby has fewer than 64 members, whatever limit the host
/// has set.
pub proof fn members_come_back_whatever_the_limit(
    hub: state::HubView,
    failures: password_failures::FailureMap,
    source: IpAddr,
    candidate: lobby::CandidateView,
    now: u64,
)
    requires
        state::hub_wf(hub),
        ({
            let id = security::lobby_id_of(candidate.lobby_name);
            let members = hub.lobbies[id].clients;
            &&& hub.lobbies.contains_key(id)
            &&& members.contains_key(candidate.client_id)
            &&& members[candidate.client_id].virtual_ip == Some(ip::v4_text(candidate.virtual_ip))
            &&& members.dom().len() < 64
            &&& hub.lobbies[id].password_hash == security::password_hash(
                hub.lobbies[id].password_salt,
                candidate.lobby_password,
            )
            &&& !password_failures::locked(failures, (source, id), now)
        }),
    ensures
        lobby::join_decision(hub, failures, source, candidate, now) == JoinDecision::Join,
{
    let id = security::lobby_id_of(candidate.lobby_name);
    let members = hub.lobbies[id].clients;
    assert(state::lobby_wf(id, hub.lobbies[id]));
    assert(hub.homes[candidate.client_id] == id);
    assert forall|c: Seq<char>| #[trigger]
        members.contains_key(c) && c != candidate.client_id implies members[c].virtual_ip != Some(
        ip::v4_text(candidate.virtual_ip),
    ) by {
        assert(members.contains_key(candidate.client_id));
    }
}

/// A candidate that is no member, and whom nothing else keeps out, is refused for
/// want of room exactly when the lobby has 64 members or as many as its limit.
pub proof fn strangers_need_room(
    hub: state::HubView,
    failures: password_failures::FailureMap,
    source: IpAddr,
    candidate: lobby::CandidateView,
    now: u64,
)
    requires
        state::hub_wf(hub),
        !hub.homes.contains_key(candidate.client_id),
        ({
            let id = security::lobby_id_of(candidate.lobby_name);
            let members = hub.lobbies[id].clients;
            &&& hub.lobbies.contains_key(id)
            &&& !members.contains_key(candidate.client_id)
            &&& forall|c: Seq<char>| #[trigger]
                members.contains_key(c) ==> members[c].virtual_ip != Some(
                    ip::v4_text(candidate.virtual_ip),
                )
            &&& hub.lobbies[id].password_hash == security::password_hash(
                hub.lobbies[id].password_salt,
                candidate.lobby_password,
            )
            &&& !password_failures::locked(failures, (source, id), now)
        }),
    ensures
        ({
            let lobby = hub.lobbies[security::lobby_id_of(candidate.lobby_name)];
            let decision = lobby::join_decision(hub, failures, source, candidate, now);
            let no_room = lobby.clients.dom().len() >= 64 || (lobby.max_players matches Some(max)
                && lobby.clients.dom().len() >= max);
            &&& no_room <==> decision == JoinDecision::Full
            &&& !no_room <==> decision == JoinDecision::Join
        }),
{
}

/// What becomes of a candidate, over the members of the lobbies: it is in another
/// lobby, it is locked out, the lobby is new, the password is wrong, another member
/// has its address, there is no room, or it gets in; the first of these that holds.
pub proof fn joins_are_decided_by_the_members(
    hub: state::HubView,
    failures: password_failures::FailureMap,
    source: IpAddr,
    candidate: lobby::CandidateView,
    now: u64,
)
    requires
        state::hub_wf(hub),
    ensures
        ({
            let decision = lobby::join_decision(hub, failures, source, candidate, now);
            let id = number::hex(security::sha256_of(encode_utf8(candidate.lobby_name)));
            let lobby = hub.lobbies[id];
            let elsewhere = exists|l: Seq<char>| #[trigger]
                hub.lobbies.contains_key(l) && l != id && hub.lobbies[l].clients.contains_key(
                    candidate.client_id,
                );
            let taken = exists|c: Seq<char>| #[trigger]
                lobby.clients.contains_key(c) && c != candidate.client_id
                    && lobby.clients[c].virtual_ip == Some(ip::v4_text(candidate.virtual_ip));
            let is_member = lobby.clients.contains_key(candidate.client_id);
            let no_room = lobby.clients.dom().len() >= 64 || !is_member && (
            lobby.max_players matches Some(max) && lobby.clients.dom().len() >= max);
            if elsewhere {
                decision == JoinDecision::Elsewhere
            } else if password_failures::locked(failures, (source, id), now) {
                decision == JoinDecision::Locked
            } else if !hub.lobbies.contains_key(id) {
                decision == JoinDecision::Found
            } else if number::hex(
                security::sha256_of(
                    encode_utf8(lobby.password_salt) + encode_utf8(candidate.lobby_password),
                ),
            ) != lobby.password_hash {
                decision == JoinDecision::WrongPassword
            } else if taken {
                decision == JoinDecision::AddressTaken
            } else if no_room {
                decision == JoinDecision::Full
            } else {
                decision == JoinDecision::Join
            }
        }),
{
    let id = security::lobby_id_of(candidate.lobby_name);
    let cid = candidate.client_id;
    if hub.homes.contains_key(cid) && hub.homes[cid] != id {
        assert(hub.lobbies.contains_key(hub.homes[cid]));
    }
    assert forall|l: Seq<char>| #[trigger]
        hub.lobbies.contains_key(l) && l != id && hub.lobbies[l].clients.contains_key(
            cid,
        ) implies hub.homes.contains_key(cid) && hub.homes[cid] != id by {
        assert(hub.homes[cid] == l);
    }
}

/// The lobby that a candidate founds has it as the only member and host, no limit,
/// no description and no node, is on no list, mutes no one, and has its first chat
/// credential. It is open to those who know the password that it was founded with.
pub proof fn founders_get_a_lobby_of_their_own(
    hub: state::HubView,
    candidate: lobby::CandidateView,
    draws: lobby::DrawsView,
    sender: u64,
    other: Seq<char>,
)
    ensures
        ({
            let after = lobby::hub_after_join(hub, JoinDecision::Found, candidate, draws, sender);
            let id = number::hex(security::sha256_of(encode_utf8(candidate.lobby_name)));
            let lobby = after.lobbies[id];
            let cid = candidate.client_id;
            &&& after.lobbies.contains_key(id)
            &&& after.homes.contains_key(cid) && after.homes[cid] == id
            &&& other != id ==> after.lobbies.contains_key(other) == hub.lobbies.contains_key(other)
                && after.lobbies[other] == hub.lobbies[other]
            &&& other != cid ==> after.homes.contains_key(other) == hub.homes.contains_key(other)
                && after.homes[other] == hub.homes[other]
            &&& lobby.lobby_name == candidate.lobby_name
            &&& lobby.password_salt == draws.salt
            &&& lobby.password_hash == number::hex(
                security::sha256_of(
                    encode_utf8(draws.salt) + encode_utf8(candidate.lobby_password),
                ),
            )
            &&& lobby.is_passwordless <==> candidate.lobby_password.len() == 0
            &&& lobby.host_id == cid
            &&& lobby.clients.contains_key(other) <==> other == cid
            &&& is_the_member(lobby.clients[cid], candidate, draws.generation, sender)
            &&& lobby.max_players is None
            &&& !lobby.is_public
            &&& lobby.description.len() == 0
            &&& lobby.server_node.len() == 0
            &&& !lobby.muted.contains(other)
            &&& lobby.chat_token == draws.token
            &&& lobby.chat_token_epoch == 1
        }),
{
}

/// A member is who it proved to be, under the name and the address that it asked
/// for, through the connection that it registered on.
pub open spec fn is_the_member(
    member: state::ClientView,
    candidate: lobby::CandidateView,
    generation: u64,
    sender: u64,
) -> bool {
    &&& member.player_id == candidate.client_id
    &&& member.player_name == candidate.player_name
    &&& member.virtual_ip == Some(ip::v4_text(candidate.virtual_ip))
    &&& member.virtual_domain == Some(candidate.virtual_domain)
    &&& member.use_domain == candidate.use_domain
    &&& member.chat_public_key == candidate.chat_public_key
    &&& member.session_generation == generation
    &&& member.sender == sender
}

/// A candidate that enters a lobby becomes a member or takes its old place again;
/// the credential changes, and nothing else does: not the other members, the host,
/// the options, the password or who is muted.
pub proof fn joining_changes_the_members_and_the_credential(
    hub: state::HubView,
    candidate: lobby::CandidateView,
    draws: lobby::DrawsView,
    sender: u64,
    other: Seq<char>,
)
    ensures
        ({
            let after = lobby::hub_after_join(hub, JoinDecision::Join, candidate, draws, sender);
            let id = number::hex(security::sha256_of(encode_utf8(candidate.lobby_name)));
            let old_lobby = hub.lobbies[id];
            let lobby = after.lobbies[id];
            let cid = candidate.client_id;
            &&& after.lobbies.contains_key(id)
            &&& after.homes.contains_key(cid) && after.homes[cid] == id
            &&& other != id ==> after.lobbies.contains_key(other) == hub.lobbies.contains_key(other)
                && after.lobbies[other] == hub.lobbies[other]
            &&& other != cid ==> after.homes.contains_key(other) == hub.homes.contains_key(other)
                && after.homes[other] == hub.homes[other]
            &&& lobby.clients.contains_key(cid)
            &&& is_the_member(lobby.clients[cid], candidate, draws.generation, sender)
            &&& other != cid ==> lobby.clients.contains_key(other) == old_lobby.clients.contains_key(
                other,
            ) && lobby.clients[other] == old_lobby.clients[other]
            &&& same_rules(old_lobby, lobby)
            &&& lobby.host_id == old_lobby.host_id
            &&& lobby.muted == old_lobby.muted
            &&& lobby.chat_token == draws.token
            &&& follows(old_lobby.chat_token_epoch, lobby.chat_token_epoch)
        }),
{
}

/// An epoch comes after another; the last there can be stays.
pub open spec fn follows(before: u64, after: u64) -> bool {
    &&& before < u64::MAX ==> after == before + 1
    &&& before == u64::MAX ==> after == u64::MAX
}

/// Two states of a lobby have the same name, password and options.
pub open spec fn same_rules(a: state::LobbyView, b: state::LobbyView) -> bool {
    &&& a.lobby_name == b.lobby_name
    &&& a.password_hash == b.password_hash
    &&& a.password_salt == b.password_salt
    &&& a.is_passwordless == b.is_passwordless
    &&& a.max_players == b.max_players
    &&& a.is_public == b.is_public
    &&& a.description == b.description
    &&& a.server_node == b.server_node
}

/// A refusal changes no lobby and no one's place.
pub proof fn refusals_change_no_lobby(
    hub: state::HubView,
    decision: JoinDecision,
    candidate: lobby::CandidateView,
    draws: lobby::DrawsView,
    sender: u64,
)
    requires
        match decision {
            JoinDecision::Elsewhere => true,
            JoinDecision::Locked => true,
            JoinDecision::WrongPassword => true,
            JoinDecision::AddressTaken => true,
            JoinDecision::Full => true,
            JoinDecision::Found => false,
            JoinDecision::Join => false,
        },
    ensures
        lobby::hub_after_join(hub, decision, candidate, draws, sender) == hub,
{
}

/// A member that leaves is at home nowhere, and a member and muted no longer. The
/// lobby goes with its last member. Where others remain, they keep their places,
/// the name, the password and the options stay, the credential is a new one, and
/// the role of the host stays where it was, unless it was the leaver's: it then
/// falls to one who remains.
pub proof fn leaving_takes_one_member(
    before: state::HubView,
    after: state::HubView,
    departure: lobby::Departure,
    id: Seq<char>,
    client_id: Seq<char>,
    token: Seq<char>,
    other: Seq<char>,
)
    requires
        state::hub_wf(before),
        before.lobbies.contains_key(id),
        before.lobbies[id].clients.contains_key(client_id),
        lobby::departure_ok(departure, before, after, id, client_id, token),
    ensures
        !after.homes.contains_key(client_id),
        other != client_id ==> after.homes.contains_key(other) == before.homes.contains_key(other)
            && after.homes[other] == before.homes[other],
        other != id ==> after.lobbies.contains_key(other) == before.lobbies.contains_key(other)
            && after.lobbies[other] == before.lobbies[other],
        ({
            let old_lobby = before.lobbies[id];
            let lobby = after.lobbies[id];
            let was_host = old_lobby.host_id == client_id;
            &&& !after.lobbies.contains_key(id) <==> old_lobby.clients.dom() == set![client_id]
            &&& after.lobbies.contains_key(id) <==> departure.rotation is Some
            &&& departure.new_host is Some <==> was_host && after.lobbies.contains_key(id)
            &&& after.lobbies.contains_key(id) ==> {
                &&& lobby.clients.contains_key(other) <==> other != client_id
                    && old_lobby.clients.contains_key(other)
                &&& other != client_id ==> lobby.clients[other] == old_lobby.clients[other]
                &&& lobby.muted.contains(other) <==> other != client_id && old_lobby.muted.contains(
                    other,
                )
                &&& same_rules(old_lobby, lobby)
                &&& lobby.chat_token == token
                &&& follows(old_lobby.chat_token_epoch, lobby.chat_token_epoch)
                &&& lobby.clients.contains_key(lobby.host_id)
                &&& !was_host ==> lobby.host_id == old_lobby.host_id
                &&& departure.new_host matches Some(host) ==> lobby.host_id == host@
                &&& departure.rotation->0.token@ == token
                &&& departure.rotation->0.epoch == lobby.chat_token_epoch
                &&& forall|i: int|
                    0 <= i < departure.rotation->0.targets@.len() ==> (
                    #[trigger] departure.rotation->0.targets@[i]).0@ != client_id
                        && old_lobby.clients.contains_key(departure.rotation->0.targets@[i].0@)
                        && departure.rotation->0.targets@[i].1
                        == old_lobby.clients[departure.rotation->0.targets@[i].0@].sender
                &&& old_lobby.clients.contains_key(other) && other != client_id ==> exists|i: int|
                    0 <= i < departure.rotation->0.targets@.len() && (
                    #[trigger] departure.rotation->0.targets@[i]).0@ == other
            }
        }),
{
    let old_lobby = before.lobbies[id];
    assert(state::lobby_wf(id, old_lobby));
    if lobby::is_alone(old_lobby, client_id) {
        assert(old_lobby.clients.dom() =~= set![client_id]);
    } else {
        let c = choose|c: Seq<char>| #[trigger]
            old_lobby.clients.contains_key(c) && c != client_id;
        assert(old_lobby.clients.dom().contains(c));
        let lobby = after.lobbies[id];
        assert(old_lobby.clients.contains_key(old_lobby.host_id));
        if old_lobby.clients.contains_key(other) && other != client_id {
            assert(lobby.clients.contains_key(other));
        }
    }
}

/// A newcomer learns which lobby it is in, what the lobby is like by now and who
/// else is there; the connection that it replaces is named.
pub proof fn welcomes_say_what_the_lobby_is_like(
    welcome: lobby::Welcome,
    before: state::HubView,
    after: state::HubView,
    candidate: lobby::CandidateView,
    member: Seq<char>,
    i: int,
)
    requires
        lobby::welcome_ok(welcome, before, after, candidate),
    ensures
        ({
            let id = number::hex(security::sha256_of(encode_utf8(candidate.lobby_name)));
            let lobby = after.lobbies[id];
            let cid = candidate.client_id;
            &&& welcome.lobby_id@ == id
            &&& welcome.host_id@ == lobby.host_id
            &&& welcome.max_players == lobby.max_players
            &&& welcome.is_public == lobby.is_public
            &&& welcome.chat_token@ == lobby.chat_token
            &&& welcome.chat_token_epoch == lobby.chat_token_epoch
            &&& welcome.replaced is Some <==> before.lobbies.contains_key(id)
                && before.lobbies[id].clients.contains_key(cid)
            &&& welcome.replaced matches Some(sender) ==> sender
                == before.lobbies[id].clients[cid].sender
            &&& lobby.muted.contains(member) ==> exists|k: int|
                0 <= k < welcome.muted@.len() && (#[trigger] welcome.muted@[k])@ == member
            &&& 0 <= i < welcome.muted@.len() ==> lobby.muted.contains(welcome.muted@[i]@)
            &&& forall|k: int|
                0 <= k < welcome.muted@.len() && 0 <= i < welcome.muted@.len() && k != i ==> (
                #[trigger] welcome.muted@[k])@ != welcome.muted@[i]@
            &&& lobby.clients.contains_key(member) && member != cid ==> exists|k: int|
                0 <= k < welcome.others@.len() && (#[trigger] welcome.others@[k]).0@ == member
            &&& 0 <= i < welcome.others@.len() ==> {
                &&& welcome.others@[i].0@ != cid
                &&& lobby.clients.contains_key(welcome.others@[i].0@)
                &&& welcome.others@[i].1 == lobby.clients[welcome.others@[i].0@].sender
            }
        }),
{
    assert forall|k: int|
        0 <= k < welcome.muted@.len() && 0 <= i < welcome.muted@.len() && k != i implies (
    #[trigger] welcome.muted@[k])@ != welcome.muted@[i]@ by {
        if k < i {
            assert(welcome.muted@[k]@ != welcome.muted@[i]@);
        } else {
            assert(welcome.muted@[i]@ != welcome.muted@[k]@);
        }
    }
}

} // verus!
