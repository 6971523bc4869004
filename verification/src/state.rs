//! Lobbies, their members, and which lobby each client is in.
use vstd::prelude::*;
use crate::ip;
use crate::ip::Ipv4Addr;
use crate::limits::MAX_LOBBY_MEMBERS;
use crate::protocol::PlayerInfo;
use crate::security;
use crate::table::{Key, Table};

verus! {

// ---------------------------------------------------------------------------
// The data and its views
// ---------------------------------------------------------------------------
/// An optional text by its characters.
pub open spec fn opt_view(o: Option<String>) -> Option<Seq<char>> {
    match o {
        Some(s) => Some(s@),
        None => None,
    }
}

pub fn clone_opt(o: &Option<String>) -> (r: Option<String>)
    ensures
        opt_view(r) == opt_view(*o),
{
    match o {
        Some(s) => Some(s.clone()),
        None => None,
    }
}

/// A member of a lobby. `sender` identifies the connection that speaks for it.
pub struct ClientInfo {
    pub player_id: String,
    pub player_name: String,
    pub virtual_ip: Option<String>,
    pub virtual_domain: Option<String>,
    pub use_domain: Option<bool>,
    /// The identity key, which also verifies chat requests.
    pub chat_public_key: Option<String>,
    pub session_generation: u64,
    pub sender: u64,
}

#[verifier::ext_equal]
pub struct ClientView {
    pub player_id: Seq<char>,
    pub player_name: Seq<char>,
    pub virtual_ip: Option<Seq<char>>,
    pub virtual_domain: Option<Seq<char>>,
    pub use_domain: Option<bool>,
    pub chat_public_key: Option<Seq<char>>,
    pub session_generation: u64,
    pub sender: u64,
}

impl View for ClientInfo {
    type V = ClientView;

    open spec fn view(&self) -> ClientView {
        ClientView {
            player_id: self.player_id@,
            player_name: self.player_name@,
            virtual_ip: opt_view(self.virtual_ip),
            virtual_domain: opt_view(self.virtual_domain),
            use_domain: self.use_domain,
            chat_public_key: opt_view(self.chat_public_key),
            session_generation: self.session_generation,
            sender: self.sender,
        }
    }
}

pub struct LobbyInfo {
    pub lobby_name: String,
    pub password_hash: String,
    /// Drawn when the lobby is made, so that no precomputed table fits the hash.
    pub password_salt: String,
    pub clients: Table<String, ClientInfo>,
    /// The member that manages the lobby.
    pub host_id: String,
    /// The host's limit on members.
    pub max_players: Option<u32>,
    /// The lobby is published.
    pub is_public: bool,
    /// Only a lobby without a password can be published.
    pub is_passwordless: bool,
    pub description: String,
    /// The node that the host uses.
    pub server_node: String,
    pub muted: Table<String, ()>,
    /// The credential that the current members share for chat.
    pub chat_token: String,
    pub chat_token_epoch: u64,
}

#[verifier::ext_equal]
pub struct LobbyView {
    pub lobby_name: Seq<char>,
    pub password_hash: Seq<char>,
    pub password_salt: Seq<char>,
    pub clients: Map<Seq<char>, ClientView>,
    pub host_id: Seq<char>,
    pub max_players: Option<u32>,
    pub is_public: bool,
    pub is_passwordless: bool,
    pub description: Seq<char>,
    pub server_node: Seq<char>,
    pub muted: Set<Seq<char>>,
    pub chat_token: Seq<char>,
    pub chat_token_epoch: u64,
}

impl View for LobbyInfo {
    type V = LobbyView;

    open spec fn view(&self) -> LobbyView {
        LobbyView {
            lobby_name: self.lobby_name@,
            password_hash: self.password_hash@,
            password_salt: self.password_salt@,
            clients: self.clients@,
            host_id: self.host_id@,
            max_players: self.max_players,
            is_public: self.is_public,
            is_passwordless: self.is_passwordless,
            description: self.description@,
            server_node: self.server_node@,
            muted: self.muted@.dom(),
            chat_token: self.chat_token@,
            chat_token_epoch: self.chat_token_epoch,
        }
    }
}

/// All lobbies, and the lobby of each client.
pub struct Hub {
    pub lobbies: Table<String, LobbyInfo>,
    pub client_lobby: Table<String, String>,
}

#[verifier::ext_equal]
pub struct HubView {
    pub lobbies: Map<Seq<char>, LobbyView>,
    pub homes: Map<Seq<char>, Seq<char>>,
}

impl View for Hub {
    type V = HubView;

    open spec fn view(&self) -> HubView {
        HubView { lobbies: self.lobbies@, homes: self.client_lobby@ }
    }
}

// ---------------------------------------------------------------------------
// Invariants
// ---------------------------------------------------------------------------
/// A member's record: filed under its own id, with a virtual address in dotted
/// decimal.
pub open spec fn client_wf(id: Seq<char>, client: ClientView) -> bool {
    &&& client.player_id == id
    &&& exists|ip: Ipv4Addr| client.virtual_ip == Some(#[trigger] ip::v4_text(ip))
    &&& security::is_session_generation(client.session_generation as int)
}

/// What holds of every lobby.
pub open spec fn lobby_wf(id: Seq<char>, lobby: LobbyView) -> bool {
    // A lobby is found under the identifier of its name.
    &&& id == security::lobby_id_of(lobby.lobby_name)
    &&& lobby.clients.dom().finite()
    &&& lobby.clients.dom().len() <= MAX_LOBBY_MEMBERS
    // The host is a member, so that no lobby is empty.
    &&& lobby.clients.contains_key(lobby.host_id)
    &&& forall|c: Seq<char>| #[trigger]
        lobby.clients.contains_key(c) ==> client_wf(c, lobby.clients[c])
    // No two members share a virtual address.
    &&& forall|c: Seq<char>, d: Seq<char>| #[trigger]
        lobby.clients.contains_key(c) && #[trigger] lobby.clients.contains_key(d) && c != d
            ==> lobby.clients[c].virtual_ip != lobby.clients[d].virtual_ip
    // Only members are muted.
    &&& forall|c: Seq<char>| #[trigger] lobby.muted.contains(c) ==> lobby.clients.contains_key(c)
    &&& lobby.muted.finite()
    // A lobby with a password is not public.
    &&& lobby.is_public ==> lobby.is_passwordless
    &&& lobby.max_players matches Some(max) ==> 1 <= max <= MAX_LOBBY_MEMBERS
    &&& lobby.chat_token_epoch >= 1
}

/// What holds of the hub: every lobby is well formed, and a client is at home in
/// a lobby exactly where it is a member.
pub open spec fn hub_wf(hub: HubView) -> bool {
    &&& forall|l: Seq<char>| #[trigger] hub.lobbies.contains_key(l) ==> lobby_wf(l, hub.lobbies[l])
    &&& forall|c: Seq<char>| #[trigger]
        hub.homes.contains_key(c) ==> hub.lobbies.contains_key(hub.homes[c])
            && hub.lobbies[hub.homes[c]].clients.contains_key(c)
    &&& forall|l: Seq<char>, c: Seq<char>| #[trigger]
        hub.lobbies.contains_key(l) && #[trigger] hub.lobbies[l].clients.contains_key(c)
            ==> hub.homes.contains_key(c) && hub.homes[c] == l
}

impl Hub {
    pub fn new() -> (r: Self)
        ensures
            hub_wf(r@),
            r@.lobbies == Map::<Seq<char>, LobbyView>::empty(),
            r@.homes == Map::<Seq<char>, Seq<char>>::empty(),
    {
        Hub { lobbies: Table::new(), client_lobby: Table::new() }
    }
}

// ---------------------------------------------------------------------------
// Questions
// ---------------------------------------------------------------------------
/// The client is a member of the lobby through the given connection and session.
pub open spec fn session_current(
    hub: HubView,
    lobby_id: Seq<char>,
    client_id: Seq<char>,
    session_generation: u64,
    sender: u64,
) -> bool {
    &&& hub.lobbies.contains_key(lobby_id)
    &&& hub.lobbies[lobby_id].clients.contains_key(client_id)
    &&& hub.lobbies[lobby_id].clients[client_id].session_generation == session_generation
    &&& hub.lobbies[lobby_id].clients[client_id].sender == sender
}

/// Decides whether a connection still speaks for the session that it registered.
pub fn is_current_session(
    hub: &Hub,
    lobby_id: &String,
    client_id: &String,
    session_generation: u64,
    sender: u64,
) -> (r: bool)
    ensures
        r == session_current(hub@, lobby_id@, client_id@, session_generation, sender),
{
    match hub.lobbies.get(lobby_id) {
        Some(lobby) => match lobby.clients.get(client_id) {
            Some(client) => client.session_generation == session_generation && client.sender
                == sender,
            None => false,
        },
        None => false,
    }
}

/// A roster line says of a member what others may know.
pub open spec fn describes(player: PlayerInfo, client: ClientView) -> bool {
    &&& player.player_id@ == client.player_id
    &&& player.player_name@ == client.player_name
    &&& opt_view(player.virtual_ip) == client.virtual_ip
    &&& opt_view(player.virtual_domain) == client.virtual_domain
    &&& player.use_domain == client.use_domain
    &&& opt_view(player.chat_public_key) == client.chat_public_key
    &&& player.session_generation == client.session_generation
}

/// The roster lists each of the clients but `except` once, and no one else.
pub open spec fn is_roster(
    players: Seq<PlayerInfo>,
    clients: Map<Seq<char>, ClientView>,
    except: Option<Seq<char>>,
) -> bool {
    exists|ids: Seq<Seq<char>>| #[trigger]
        is_roster_of(players, ids, clients, except)
}

/// `players` describes the clients `ids`, which are all but `except`, each once.
pub open spec fn is_roster_of(
    players: Seq<PlayerInfo>,
    ids: Seq<Seq<char>>,
    clients: Map<Seq<char>, ClientView>,
    except: Option<Seq<char>>,
) -> bool {
    &&& ids.len() == players.len()
    &&& ids.no_duplicates()
    &&& forall|i: int|
        0 <= i < ids.len() ==> clients.contains_key(#[trigger] ids[i]) && Some(ids[i]) != except
            && describes(players[i], clients[ids[i]])
    &&& forall|c: Seq<char>| #[trigger]
        clients.contains_key(c) && Some(c) != except ==> ids.contains(c)
}

fn player_of(client: &ClientInfo) -> (r: PlayerInfo)
    ensures
        describes(r, client@),
{
    PlayerInfo {
        player_id: client.player_id.clone(),
        player_name: client.player_name.clone(),
        virtual_ip: clone_opt(&client.virtual_ip),
        virtual_domain: clone_opt(&client.virtual_domain),
        use_domain: client.use_domain,
        chat_public_key: clone_opt(&client.chat_public_key),
        session_generation: client.session_generation,
    }
}

/// The members of a lobby, but for one of them.
pub fn current_players(hub: &Hub, lobby_id: &String, exclude_id: Option<&String>) -> (r: Vec<
    PlayerInfo,
>)
    ensures
        if hub@.lobbies.contains_key(lobby_id@) {
            is_roster(
                r@,
                hub@.lobbies[lobby_id@].clients,
                match exclude_id {
                    Some(id) => Some(id@),
                    None => None,
                },
            )
        } else {
            r@.len() == 0
        },
{
    let mut players: Vec<PlayerInfo> = Vec::new();
    let ghost except: Option<Seq<char>> = match exclude_id {
        Some(id) => Some(id@),
        None => None,
    };
    if let Some(lobby) = hub.lobbies.get(lobby_id) {
        let n: usize = lobby.clients.len();
        let ghost items = lobby.clients.items();
        let ghost mut ids: Seq<Seq<char>> = Seq::empty();
        let mut i: usize = 0;
        while i < n
            invariant
                i <= n == items.len(),
                items == lobby.clients.items(),
                crate::table::keys_of(items).no_duplicates(),
                except == match exclude_id {
                    Some(id) => Some(id@),
                    None => None,
                },
                forall|j: int|
                    0 <= j < items.len() ==> lobby.clients@.contains_key((#[trigger] items[j]).0)
                        && lobby.clients@[items[j].0] == items[j].1,
                ids.len() == players@.len(),
                ids.no_duplicates(),
                forall|k: int|
                    0 <= k < ids.len() ==> lobby.clients@.contains_key(#[trigger] ids[k])
                        && Some(ids[k]) != except && describes(
                        players@[k],
                        lobby.clients@[ids[k]],
                    ),
                forall|k: int|
                    0 <= k < ids.len() ==> exists|j: int|
                        0 <= j < i && (#[trigger] items[j]).0 == #[trigger] ids[k],
                forall|j: int|
                    0 <= j < i && Some((#[trigger] items[j]).0) != except ==> ids.contains(
                        items[j].0,
                    ),
            decreases n - i,
        {
            let (id, client) = lobby.clients.entry(i);
            let skip = match exclude_id {
                Some(exclude) => id.same(exclude),
                None => false,
            };
            let ghost before = ids;
            if !skip {
                players.push(player_of(client));
                proof {
                    assert forall|k: int| 0 <= k < before.len() implies before[k] != id@ by {
                        let j = choose|j: int|
                            0 <= j < i && (#[trigger] items[j]).0 == before[k];
                        assert(crate::table::keys_of(items)[j] == before[k]);
                        assert(crate::table::keys_of(items)[i as int] == id@);
                    }
                    ids = ids.push(id@);
                    assert(ids[before.len() as int] == id@);
                    assert forall|j: int|
                        0 <= j < i + 1 && Some((#[trigger] items[j]).0)
                            != except implies ids.contains(items[j].0) by {
                        if j < i {
                            let k = choose|k: int| 0 <= k < before.len() && before[k] == items[j].0;
                            assert(ids[k] == items[j].0);
                        }
                    }
                    assert forall|k: int| 0 <= k < ids.len() implies exists|j: int|
                        0 <= j < i + 1 && (#[trigger] items[j]).0 == #[trigger] ids[k] by {
                        if k == before.len() {
                            assert(items[i as int].0 == ids[k]);
                        } else {
                            let j = choose|j: int|
                                0 <= j < i && (#[trigger] items[j]).0 == before[k];
                            assert(items[j].0 == ids[k]);
                        }
                    }
                }
            }
            i = i + 1;
        }
        proof {
            assert forall|c: Seq<char>| #[trigger]
                lobby.clients@.contains_key(c) && Some(c) != except implies ids.contains(c) by {
                let j = choose|j: int|
                    0 <= j < items.len() && (#[trigger] items[j]) == (c, lobby.clients@[c]);
                assert(items[j].0 == c);
            }
            assert(is_roster_of(players@, ids, lobby.clients@, except));
        }
    }
    players
}

/// `targets` names each of the clients but `except` once, with the connection
/// that speaks for it.
pub open spec fn is_targets(
    targets: Seq<(String, u64)>,
    clients: Map<Seq<char>, ClientView>,
    except: Option<Seq<char>>,
) -> bool {
    &&& forall|i: int|
        0 <= i < targets.len() ==> clients.contains_key((#[trigger] targets[i]).0@) && Some(
            targets[i].0@,
        ) != except && clients[targets[i].0@].sender == targets[i].1
    &&& forall|i: int, j: int|
        0 <= i < j < targets.len() ==> (#[trigger] targets[i]).0@ != (#[trigger] targets[j]).0@
    &&& forall|c: Seq<char>| #[trigger]
        clients.contains_key(c) && Some(c) != except ==> exists|i: int|
            0 <= i < targets.len() && (#[trigger] targets[i]).0@ == c
}

/// The members of a lobby but `except`, each with its connection.
pub fn targets_of(clients: &Table<String, ClientInfo>, except: Option<&String>) -> (r: Vec<
    (String, u64),
>)
    ensures
        is_targets(
            r@,
            clients@,
            match except {
                Some(id) => Some(id@),
                None => None,
            },
        ),
{
    let mut targets: Vec<(String, u64)> = Vec::new();
    let ghost skipped: Option<Seq<char>> = match except {
        Some(id) => Some(id@),
        None => None,
    };
    let n: usize = clients.len();
    let ghost items = clients.items();
    let mut i: usize = 0;
    while i < n
        invariant
            i <= n == items.len(),
            items == clients.items(),
            crate::table::keys_of(items).no_duplicates(),
            skipped == match except {
                Some(id) => Some(id@),
                None => None,
            },
            forall|j: int|
                0 <= j < items.len() ==> clients@.contains_key((#[trigger] items[j]).0)
                    && clients@[items[j].0] == items[j].1,
            forall|k: int|
                0 <= k < targets@.len() ==> clients@.contains_key((#[trigger] targets@[k]).0@)
                    && Some(targets@[k].0@) != skipped && clients@[targets@[k].0@].sender
                    == targets@[k].1,
            forall|a: int, b: int|
                0 <= a < b < targets@.len() ==> (#[trigger] targets@[a]).0@ != (
                #[trigger] targets@[b]).0@,
            forall|k: int|
                0 <= k < targets@.len() ==> exists|j: int|
                    0 <= j < i && (#[trigger] items[j]).0 == (#[trigger] targets@[k]).0@,
            forall|j: int|
                0 <= j < i && Some((#[trigger] items[j]).0) != skipped ==> exists|k: int|
                    0 <= k < targets@.len() && (#[trigger] targets@[k]).0@ == items[j].0,
        decreases n - i,
    {
        let (id, client) = clients.entry(i);
        let skip = match except {
            Some(except) => id.same(except),
            None => false,
        };
        if !skip {
            let ghost before = targets@;
            targets.push((id.clone(), client.sender));
            proof {
                assert forall|k: int| 0 <= k < before.len() implies (#[trigger] before[k]).0@
                    != id@ by {
                    let j = choose|j: int| 0 <= j < i && (#[trigger] items[j]).0 == before[k].0@;
                    assert(crate::table::keys_of(items)[j] == before[k].0@);
                    assert(crate::table::keys_of(items)[i as int] == id@);
                }
                assert forall|k: int| 0 <= k < targets@.len() implies exists|j: int|
                    0 <= j < i + 1 && (#[trigger] items[j]).0 == (#[trigger] targets@[k]).0@ by {
                    if k == before.len() {
                        assert(items[i as int].0 == targets@[k].0@);
                    } else {
                        assert(targets@[k] == before[k]);
                        let j = choose|j: int|
                            0 <= j < i && (#[trigger] items[j]).0 == before[k].0@;
                        assert(items[j].0 == targets@[k].0@);
                    }
                }
                assert forall|j: int|
                    0 <= j < i + 1 && Some((#[trigger] items[j]).0) != skipped implies exists|
                    k: int,
                |
                    0 <= k < targets@.len() && (#[trigger] targets@[k]).0@ == items[j].0 by {
                    if j < i {
                        let k = choose|k: int|
                            0 <= k < before.len() && (#[trigger] before[k]).0@ == items[j].0;
                        assert(targets@[k].0@ == items[j].0);
                    } else {
                        assert(targets@[before.len() as int].0@ == items[j].0);
                    }
                }
            }
        }
        i = i + 1;
    }
    proof {
        assert forall|c: Seq<char>| #[trigger]
            clients@.contains_key(c) && Some(c) != skipped implies exists|k: int|
            0 <= k < targets@.len() && (#[trigger] targets@[k]).0@ == c by {
            let j = choose|j: int|
                0 <= j < items.len() && (#[trigger] items[j]) == (c, clients@[c]);
            assert(Some(items[j].0) != skipped);
        }
    }
    targets
}

/// `names` holds each text of the set once, and no other.
pub open spec fn lists_set(names: Seq<String>, set: Set<Seq<char>>) -> bool {
    &&& forall|i: int| 0 <= i < names.len() ==> set.contains((#[trigger] names[i])@)
    &&& forall|i: int, j: int|
        0 <= i < j < names.len() ==> (#[trigger] names[i])@ != (#[trigger] names[j])@
    &&& forall|c: Seq<char>| #[trigger]
        set.contains(c) ==> exists|i: int| 0 <= i < names.len() && (#[trigger] names[i])@ == c
}

/// The texts of a set.
pub fn names_in(set: &Table<String, ()>) -> (r: Vec<String>)
    ensures
        lists_set(r@, set@.dom()),
{
    let mut names: Vec<String> = Vec::new();
    let n: usize = set.len();
    let ghost items = set.items();
    let mut i: usize = 0;
    while i < n
        invariant
            i <= n == items.len(),
            items == set.items(),
            crate::table::keys_of(items).no_duplicates(),
            forall|j: int|
                0 <= j < items.len() ==> set@.contains_key((#[trigger] items[j]).0),
            names@.len() == i,
            forall|k: int| 0 <= k < i ==> (#[trigger] names@[k])@ == items[k].0,
        decreases n - i,
    {
        names.push(set.entry(i).0.clone());
        i = i + 1;
    }
    proof {
        assert forall|a: int, b: int| 0 <= a < b < names@.len() implies (#[trigger] names@[a])@ != (
        #[trigger] names@[b])@ by {
            assert(crate::table::keys_of(items)[a] == names@[a]@);
            assert(crate::table::keys_of(items)[b] == names@[b]@);
        }
        assert forall|c: Seq<char>| #[trigger] set@.dom().contains(c) implies exists|k: int|
            0 <= k < names@.len() && (#[trigger] names@[k])@ == c by {
            assert(set@.contains_key(c));
            let j = choose|j: int| 0 <= j < items.len() && (#[trigger] items[j]) == (c, set@[c]);
            assert(names@[j]@ == c);
        }
    }
    names
}

} // verus!
