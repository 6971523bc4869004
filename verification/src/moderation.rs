//! What the host of a lobby may do, and the list of published lobbies.
use vstd::prelude::*;
use vstd::string::*;
use crate::limits::MAX_LOBBY_MEMBERS;
use crate::lobby;
use crate::lobby::Rotation;
use crate::protocol::PublicLobbyInfo;
use crate::state;
use crate::state::{Hub, LobbyInfo};
use crate::table::Key;
use crate::validation;

verus! {

/// The client is the host of the lobby that it is in.
pub open spec fn is_host(hub: state::HubView, client_id: Seq<char>) -> bool {
    hub.homes.contains_key(client_id) && hub.lobbies[hub.homes[client_id]].host_id == client_id
}

/// The hub with one lobby in a new state.
pub open spec fn with_lobby(
    hub: state::HubView,
    id: Seq<char>,
    lobby: state::LobbyView,
) -> state::HubView {
    state::HubView { lobbies: hub.lobbies.insert(id, lobby), ..hub }
}

/// Changing a lobby without changing its members keeps the hub well formed.
pub proof fn changing_lobby_keeps_hub_wf(
    hub: state::HubView,
    id: Seq<char>,
    lobby: state::LobbyView,
)
    requires
        state::hub_wf(hub),
        hub.lobbies.contains_key(id),
        state::lobby_wf(id, lobby),
        lobby.clients == hub.lobbies[id].clients,
    ensures
        state::hub_wf(with_lobby(hub, id, lobby)),
{
    let after = with_lobby(hub, id, lobby);
    assert forall|c: Seq<char>| #[trigger] after.homes.contains_key(c) implies after.lobbies
        .contains_key(after.homes[c]) && after.lobbies[after.homes[c]].clients.contains_key(c) by {
        assert(hub.homes.contains_key(c));
    }
    assert forall|l: Seq<char>, c: Seq<char>| #[trigger]
        after.lobbies.contains_key(l) && #[trigger] after.lobbies[l].clients.contains_key(
            c,
        ) implies after.homes.contains_key(c) && after.homes[c] == l by {
        assert(hub.lobbies.contains_key(l) && hub.lobbies[l].clients.contains_key(c));
    }
}

/// The lobby that a client is in, where the client is its host.
fn hosted_lobby(hub: &Hub, client_id: &String) -> (r: Option<String>)
    requires
        state::hub_wf(hub@),
    ensures
        match r {
            Some(id) => is_host(hub@, client_id@) && id@ == hub@.homes[client_id@],
            None => !is_host(hub@, client_id@),
        },
{
    match hub.client_lobby.get(client_id) {
        Some(id) => match hub.lobbies.get(id) {
            Some(lobby) => if lobby.host_id.same(client_id) {
                Some(id.clone())
            } else {
                None
            },
            None => None,
        },
        None => None,
    }
}

// ---------------------------------------------------------------------------
// Removing a member
// ---------------------------------------------------------------------------
/// The host removes another member of its lobby.
pub open spec fn kick_allowed(hub: state::HubView, from: Seq<char>, target: Seq<char>) -> bool {
    is_host(hub, from) && from != target && hub.lobbies[hub.homes[from]].clients.contains_key(
        target,
    )
}

/// A member that was removed.
pub struct Kick {
    pub lobby_id: String,
    /// The connection that spoke for the member.
    pub transport: u64,
    pub session_generation: u64,
    pub rotation: Rotation,
}

/// What the removal of a member comes to.
pub open spec fn kick_ok(
    kick: Kick,
    before: state::HubView,
    after: state::HubView,
    from: Seq<char>,
    target: Seq<char>,
    token: Seq<char>,
) -> bool {
    let id = before.homes[from];
    &&& after == lobby::without_member(before, id, target, from, token)
    &&& kick.lobby_id@ == id
    &&& kick.transport == before.lobbies[id].clients[target].sender
    &&& kick.session_generation == before.lobbies[id].clients[target].session_generation
    &&& lobby::rotation_ok(kick.rotation, after.lobbies[id])
}

/// Removes a member, if the host asks for it.
pub fn kick(hub: &mut Hub, from: &String, target: &String, token: String) -> (r: Option<Kick>)
    requires
        state::hub_wf(old(hub)@),
    ensures
        state::hub_wf(final(hub)@),
        match r {
            Some(kick) => kick_allowed(old(hub)@, from@, target@) && kick_ok(
                kick,
                old(hub)@,
                final(hub)@,
                from@,
                target@,
                token@,
            ),
            None => !kick_allowed(old(hub)@, from@, target@) && final(hub)@ == old(hub)@,
        },
{
    let ghost before = hub@;
    let lobby_id = match hosted_lobby(hub, from) {
        Some(id) => id,
        None => {
            return None;
        },
    };
    let member = match hub.lobbies.get(&lobby_id) {
        Some(lobby) => lobby.clients.contains(target),
        None => false,
    };
    if from.same(target) || !member {
        return None;
    }
    match hub.lobbies.take(&lobby_id) {
        Some(mut lobby) => {
            let ghost old_lobby = lobby@;
            assert(state::lobby_wf(lobby_id@, old_lobby));
            match lobby.clients.take(target) {
                Some(client) => {
                    let _ = lobby.muted.take(target);
                    assert(lobby.muted@.dom() =~= old_lobby.muted.remove(target@));
                    let (token_now, epoch) = lobby::rotate_chat_token(&mut lobby, token);
                    let targets = state::targets_of(&lobby.clients, None);
                    assert(lobby@ =~= lobby::departed(old_lobby, target@, from@, token@));
                    proof {
                        assert(old_lobby.clients.contains_key(from@));
                        lobby::leaving_keeps_hub_wf(before, lobby_id@, target@, from@, token@);
                    }
                    assert(before.homes[target@] == lobby_id@);
                    hub.lobbies.put(lobby_id.clone(), lobby);
                    let _ = hub.client_lobby.take(target);
                    assert(hub@ =~= lobby::without_member(
                        before,
                        lobby_id@,
                        target@,
                        from@,
                        token@,
                    ));
                    Some(
                        Kick {
                            lobby_id,
                            transport: client.sender,
                            session_generation: client.session_generation,
                            rotation: Rotation { targets, token: token_now, epoch },
                        },
                    )
                },
                None => None,
            }
        },
        None => None,
    }
}

// ---------------------------------------------------------------------------
// Muting a member
// ---------------------------------------------------------------------------
/// The client is the host of a lobby that the other is a member of.
pub open spec fn manages(hub: state::HubView, from: Seq<char>, target: Seq<char>) -> bool {
    is_host(hub, from) && hub.lobbies[hub.homes[from]].clients.contains_key(target)
}

/// The lobby with a member muted or not.
pub open spec fn with_mute(
    lobby: state::LobbyView,
    target: Seq<char>,
    muted: bool,
) -> state::LobbyView {
    state::LobbyView {
        muted: if muted {
            lobby.muted.insert(target)
        } else {
            lobby.muted.remove(target)
        },
        ..lobby
    }
}

/// Mutes a member or lifts the mute, if the host asks for it. Gives the lobby.
pub fn set_muted(hub: &mut Hub, from: &String, target: &String, muted: bool) -> (r: Option<String>)
    requires
        state::hub_wf(old(hub)@),
    ensures
        state::hub_wf(final(hub)@),
        match r {
            Some(id) => manages(old(hub)@, from@, target@) && id@ == old(hub)@.homes[from@]
                && final(hub)@ == with_lobby(
                old(hub)@,
                id@,
                with_mute(old(hub)@.lobbies[id@], target@, muted),
            ),
            None => !manages(old(hub)@, from@, target@) && final(hub)@ == old(hub)@,
        },
{
    let ghost before = hub@;
    let lobby_id = match hosted_lobby(hub, from) {
        Some(id) => id,
        None => {
            return None;
        },
    };
    let member = match hub.lobbies.get(&lobby_id) {
        Some(lobby) => lobby.clients.contains(target),
        None => false,
    };
    if !member {
        return None;
    }
    match hub.lobbies.take(&lobby_id) {
        Some(mut lobby) => {
            let ghost old_lobby = lobby@;
            assert(state::lobby_wf(lobby_id@, old_lobby));
            if muted {
                lobby.muted.put(target.clone(), ());
            } else {
                let _ = lobby.muted.take(target);
            }
            let ghost new_lobby = with_mute(old_lobby, target@, muted);
            assert(lobby@.muted =~= new_lobby.muted);
            assert(lobby@ =~= new_lobby);
            proof {
                assert(state::lobby_wf(lobby_id@, new_lobby));
                changing_lobby_keeps_hub_wf(before, lobby_id@, new_lobby);
            }
            hub.lobbies.put(lobby_id.clone(), lobby);
            assert(hub@ =~= with_lobby(before, lobby_id@, new_lobby));
            Some(lobby_id)
        },
        None => None,
    }
}

// ---------------------------------------------------------------------------
// Handing the role on
// ---------------------------------------------------------------------------
/// Makes another member the host, if the host asks for it. Gives the lobby.
pub fn transfer_host(hub: &mut Hub, from: &String, target: &String) -> (r: Option<String>)
    requires
        state::hub_wf(old(hub)@),
    ensures
        state::hub_wf(final(hub)@),
        match r {
            Some(id) => manages(old(hub)@, from@, target@) && id@ == old(hub)@.homes[from@]
                && final(hub)@ == with_lobby(
                old(hub)@,
                id@,
                (state::LobbyView { host_id: target@, ..old(hub)@.lobbies[id@] }),
            ),
            None => !manages(old(hub)@, from@, target@) && final(hub)@ == old(hub)@,
        },
{
    let ghost before = hub@;
    let lobby_id = match hosted_lobby(hub, from) {
        Some(id) => id,
        None => {
            return None;
        },
    };
    let member = match hub.lobbies.get(&lobby_id) {
        Some(lobby) => lobby.clients.contains(target),
        None => false,
    };
    if !member {
        return None;
    }
    match hub.lobbies.take(&lobby_id) {
        Some(mut lobby) => {
            let ghost old_lobby = lobby@;
            assert(state::lobby_wf(lobby_id@, old_lobby));
            lobby.host_id = target.clone();
            let ghost new_lobby = state::LobbyView { host_id: target@, ..old_lobby };
            assert(lobby@ =~= new_lobby);
            proof {
                assert(state::lobby_wf(lobby_id@, new_lobby));
                changing_lobby_keeps_hub_wf(before, lobby_id@, new_lobby);
            }
            hub.lobbies.put(lobby_id.clone(), lobby);
            assert(hub@ =~= with_lobby(before, lobby_id@, new_lobby));
            Some(lobby_id)
        },
        None => None,
    }
}

// ---------------------------------------------------------------------------
// Options
// ---------------------------------------------------------------------------
/// The limit that the host asked for: none for zero, and never above what a
/// lobby can hold.
pub open spec fn limit_from(max: u32) -> Option<u32> {
    if max == 0 {
        None
    } else if max > MAX_LOBBY_MEMBERS {
        Some(MAX_LOBBY_MEMBERS as u32)
    } else {
        Some(max)
    }
}

/// The lobby with the options that the host asked for. Texts that are out of
/// bounds are left as they were, and a lobby with a password stays unpublished.
pub open spec fn with_options(
    lobby: state::LobbyView,
    max_players: Option<u32>,
    is_public: Option<bool>,
    description: Option<Seq<char>>,
    server_node: Option<Seq<char>>,
) -> state::LobbyView {
    state::LobbyView {
        max_players: match max_players {
            Some(max) => limit_from(max),
            None => lobby.max_players,
        },
        is_public: match is_public {
            Some(public) => public && lobby.is_passwordless,
            None => lobby.is_public,
        },
        description: match description {
            Some(text) => if validation::text_ok(text, 200, true) {
                text
            } else {
                lobby.description
            },
            None => lobby.description,
        },
        server_node: match server_node {
            Some(node) => if validation::text_ok(node, 512, false) {
                node
            } else {
                lobby.server_node
            },
            None => lobby.server_node,
        },
        ..lobby
    }
}

/// The options of a lobby after a change.
pub struct OptionsChange {
    pub lobby_id: String,
    pub max_players: Option<u32>,
    pub is_public: bool,
}

fn apply_options(
    lobby: &mut LobbyInfo,
    max_players: Option<u32>,
    is_public: Option<bool>,
    description: Option<String>,
    server_node: Option<String>,
)
    ensures
        final(lobby)@ == with_options(
            old(lobby)@,
            max_players,
            is_public,
            state::opt_view(description),
            state::opt_view(server_node),
        ),
{
    if let Some(max) = max_players {
        lobby.max_players = if max == 0 {
            None
        } else if max > MAX_LOBBY_MEMBERS as u32 {
            Some(MAX_LOBBY_MEMBERS as u32)
        } else {
            Some(max)
        };
    }
    if let Some(text) = description {
        if validation::valid_text(text.as_str(), 200, true) {
            lobby.description = text;
        }
    }
    if let Some(node) = server_node {
        if validation::valid_text(node.as_str(), 512, false) {
            lobby.server_node = node;
        }
    }
    if let Some(public) = is_public {
        lobby.is_public = validation::effective_public_setting(public, lobby.is_passwordless);
    }
}

/// Changes the options of a lobby, if its host asks for it.
pub fn set_options(
    hub: &mut Hub,
    from: &String,
    max_players: Option<u32>,
    is_public: Option<bool>,
    description: Option<String>,
    server_node: Option<String>,
) -> (r: Option<OptionsChange>)
    requires
        state::hub_wf(old(hub)@),
    ensures
        state::hub_wf(final(hub)@),
        match r {
            Some(change) => {
                let id = change.lobby_id@;
                &&& is_host(old(hub)@, from@)
                &&& id == old(hub)@.homes[from@]
                &&& final(hub)@ == with_lobby(
                    old(hub)@,
                    id,
                    with_options(
                        old(hub)@.lobbies[id],
                        max_players,
                        is_public,
                        state::opt_view(description),
                        state::opt_view(server_node),
                    ),
                )
                &&& change.max_players == final(hub)@.lobbies[id].max_players
                &&& change.is_public == final(hub)@.lobbies[id].is_public
            },
            None => !is_host(old(hub)@, from@) && final(hub)@ == old(hub)@,
        },
{
    let ghost before = hub@;
    let lobby_id = match hosted_lobby(hub, from) {
        Some(id) => id,
        None => {
            return None;
        },
    };
    match hub.lobbies.take(&lobby_id) {
        Some(mut lobby) => {
            let ghost old_lobby = lobby@;
            assert(state::lobby_wf(lobby_id@, old_lobby));
            apply_options(&mut lobby, max_players, is_public, description, server_node);
            let ghost new_lobby = lobby@;
            proof {
                assert(state::lobby_wf(lobby_id@, new_lobby));
                changing_lobby_keeps_hub_wf(before, lobby_id@, new_lobby);
            }
            let change = OptionsChange {
                lobby_id: lobby_id.clone(),
                max_players: lobby.max_players,
                is_public: lobby.is_public,
            };
            hub.lobbies.put(lobby_id, lobby);
            assert(hub@ =~= with_lobby(before, lobby_id@, new_lobby));
            Some(change)
        },
        None => None,
    }
}

// ---------------------------------------------------------------------------
// Published lobbies
// ---------------------------------------------------------------------------
/// An entry of the list says what is published of a lobby.
pub open spec fn publishes(info: PublicLobbyInfo, lobby: state::LobbyView) -> bool {
    &&& info.lobby_name@ == lobby.lobby_name
    &&& info.player_count == lobby.clients.dom().len()
    &&& info.max_players == lobby.max_players
    &&& info.host_name@ == lobby.clients[lobby.host_id].player_name
    &&& info.description@ == lobby.description
    &&& info.server_node@ == lobby.server_node
}

/// `list` describes the lobbies `ids`, which are the public ones, each once.
pub open spec fn is_public_list_of(
    list: Seq<PublicLobbyInfo>,
    ids: Seq<Seq<char>>,
    hub: state::HubView,
) -> bool {
    &&& ids.len() == list.len()
    &&& ids.no_duplicates()
    &&& forall|i: int|
        0 <= i < ids.len() ==> hub.lobbies.contains_key(#[trigger] ids[i])
            && hub.lobbies[ids[i]].is_public && publishes(list[i], hub.lobbies[ids[i]])
    &&& forall|l: Seq<char>| #[trigger]
        hub.lobbies.contains_key(l) && hub.lobbies[l].is_public ==> ids.contains(l)
}

/// The list describes each public lobby once, and no other.
pub open spec fn is_public_list(list: Seq<PublicLobbyInfo>, hub: state::HubView) -> bool {
    exists|ids: Seq<Seq<char>>| #[trigger] is_public_list_of(list, ids, hub)
}

fn published(lobby: &LobbyInfo) -> (r: PublicLobbyInfo)
    requires
        exists|id: Seq<char>| state::lobby_wf(id, lobby@),
    ensures
        publishes(r, lobby@),
{
    let members: usize = lobby.clients.len();
    let host_name = match lobby.clients.get(&lobby.host_id) {
        Some(host) => host.player_name.clone(),
        None => "房主".to_owned(),
    };
    PublicLobbyInfo {
        lobby_name: lobby.lobby_name.clone(),
        player_count: members as u32,
        max_players: lobby.max_players,
        host_name,
        description: lobby.description.clone(),
        server_node: lobby.server_node.clone(),
    }
}

/// The published lobbies.
pub fn public_lobbies(hub: &Hub) -> (r: Vec<PublicLobbyInfo>)
    requires
        state::hub_wf(hub@),
    ensures
        is_public_list(r@, hub@),
{
    let mut list: Vec<PublicLobbyInfo> = Vec::new();
    let n: usize = hub.lobbies.len();
    let ghost items = hub.lobbies.items();
    let ghost mut ids: Seq<Seq<char>> = Seq::empty();
    let mut i: usize = 0;
    while i < n
        invariant
            i <= n == items.len(),
            items == hub.lobbies.items(),
            state::hub_wf(hub@),
            crate::table::keys_of(items).no_duplicates(),
            forall|j: int|
                0 <= j < items.len() ==> hub.lobbies@.contains_key((#[trigger] items[j]).0)
                    && hub.lobbies@[items[j].0] == items[j].1,
            ids.len() == list@.len(),
            ids.no_duplicates(),
            forall|k: int|
                0 <= k < ids.len() ==> hub.lobbies@.contains_key(#[trigger] ids[k])
                    && hub.lobbies@[ids[k]].is_public && publishes(
                    list@[k],
                    hub.lobbies@[ids[k]],
                ),
            forall|k: int|
                0 <= k < ids.len() ==> exists|j: int|
                    0 <= j < i && (#[trigger] items[j]).0 == #[trigger] ids[k],
            forall|j: int|
                0 <= j < i && (#[trigger] items[j]).1.is_public ==> ids.contains(items[j].0),
        decreases n - i,
    {
        let (id, lobby) = hub.lobbies.entry(i);
        assert(hub@.lobbies.contains_key(id@));
        assert(state::lobby_wf(id@, lobby@));
        if lobby.is_public {
            let ghost before = ids;
            list.push(published(lobby));
            proof {
                assert forall|k: int| 0 <= k < before.len() implies before[k] != id@ by {
                    let j = choose|j: int| 0 <= j < i && (#[trigger] items[j]).0 == before[k];
                    assert(crate::table::keys_of(items)[j] == before[k]);
                    assert(crate::table::keys_of(items)[i as int] == id@);
                }
                ids = ids.push(id@);
                assert(ids[before.len() as int] == id@);
                assert forall|j: int|
                    0 <= j < i + 1 && (#[trigger] items[j]).1.is_public implies ids.contains(
                    items[j].0,
                ) by {
                    if j < i {
                        let k = choose|k: int| 0 <= k < before.len() && before[k] == items[j].0;
                        assert(ids[k] == items[j].0);
                    }
                }
                assert forall|k: int| 0 <= k < ids.len() implies exists|j: int|
                    0 <= j < i + 1 && (#[trigger] items[j]).0 == #[trigger] ids[k] by {
                    if k == before.len() {
                        assert(items[i as int].0 == ids[k]);
                    } else {
                        let j = choose|j: int| 0 <= j < i && (#[trigger] items[j]).0 == before[k];
                        assert(items[j].0 == ids[k]);
                    }
                }
            }
        }
        i = i + 1;
    }
    proof {
        assert forall|l: Seq<char>| #[trigger]
            hub@.lobbies.contains_key(l) && hub@.lobbies[l].is_public implies ids.contains(l) by {
            let j = choose|j: int|
                0 <= j < items.len() && (#[trigger] items[j]) == (l, hub.lobbies@[l]);
            assert(items[j].0 == l);
        }
        assert(is_public_list_of(list@, ids, hub@));
    }
    list
}

} // verus!
