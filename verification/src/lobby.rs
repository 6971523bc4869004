//! How lobbies change: joining and leaving.
use vstd::prelude::*;
use vstd::string::*;
use crate::ip;
use crate::ip::{IpAddr, Ipv4Addr};
use crate::limits::MAX_LOBBY_MEMBERS;
use crate::password_failures;
use crate::password_failures::RegisterPasswordFailures;
use crate::security;
use crate::state;
use crate::state::{ClientInfo, Hub, LobbyInfo};
use crate::table::{Key, Table};
use crate::text;

verus! {

// ---------------------------------------------------------------------------
// Chat credentials
// ---------------------------------------------------------------------------
/// The epoch after `epoch`.
pub open spec fn next_epoch(epoch: u64) -> u64 {
    if epoch < u64::MAX {
        (epoch + 1) as u64
    } else {
        epoch
    }
}

/// The lobby with a new chat credential.
pub open spec fn rotated(lobby: state::LobbyView, token: Seq<char>) -> state::LobbyView {
    state::LobbyView {
        chat_token: token,
        chat_token_epoch: next_epoch(lobby.chat_token_epoch),
        ..lobby
    }
}

/// Gives a lobby a new chat credential.
pub fn rotate_chat_token(lobby: &mut LobbyInfo, token: String) -> (r: (String, u64))
    ensures
        final(lobby)@ == rotated(old(lobby)@, token@),
        r.0@ == token@,
        r.1 == next_epoch(old(lobby).chat_token_epoch),
{
    let copy = token.clone();
    lobby.chat_token = token;
    lobby.chat_token_epoch = lobby.chat_token_epoch.saturating_add(1);
    (copy, lobby.chat_token_epoch)
}

// ---------------------------------------------------------------------------
// Joining
// ---------------------------------------------------------------------------
/// A client that has proved its identity and asks to enter a lobby.
pub struct Candidate {
    pub client_id: String,
    pub player_name: String,
    pub virtual_ip: Ipv4Addr,
    pub virtual_domain: String,
    pub use_domain: Option<bool>,
    pub chat_public_key: Option<String>,
    pub lobby_name: String,
    pub lobby_password: String,
}

#[verifier::ext_equal]
pub struct CandidateView {
    pub client_id: Seq<char>,
    pub player_name: Seq<char>,
    pub virtual_ip: Ipv4Addr,
    pub virtual_domain: Seq<char>,
    pub use_domain: Option<bool>,
    pub chat_public_key: Option<Seq<char>>,
    pub lobby_name: Seq<char>,
    pub lobby_password: Seq<char>,
}

impl View for Candidate {
    type V = CandidateView;

    open spec fn view(&self) -> CandidateView {
        CandidateView {
            client_id: self.client_id@,
            player_name: self.player_name@,
            virtual_ip: self.virtual_ip,
            virtual_domain: self.virtual_domain@,
            use_domain: self.use_domain,
            chat_public_key: state::opt_view(self.chat_public_key),
            lobby_name: self.lobby_name@,
            lobby_password: self.lobby_password@,
        }
    }
}

/// The random values that a registration may use up.
pub struct Draws {
    pub salt: String,
    pub token: String,
    pub generation: u64,
}

#[verifier::ext_equal]
pub struct DrawsView {
    pub salt: Seq<char>,
    pub token: Seq<char>,
    pub generation: u64,
}

impl View for Draws {
    type V = DrawsView;

    open spec fn view(&self) -> DrawsView {
        DrawsView { salt: self.salt@, token: self.token@, generation: self.generation }
    }
}

/// What becomes of a candidate.
#[derive(Clone, Copy, Debug, PartialEq, Eq, Structural)]
pub enum JoinDecision {
    /// The identity is in another lobby.
    Elsewhere,
    /// Too many wrong passwords.
    Locked,
    WrongPassword,
    /// Another member has the virtual address.
    AddressTaken,
    Full,
    /// The candidate founds the lobby.
    Found,
    /// The candidate enters a lobby that exists.
    Join,
}

/// The member that a candidate becomes.
pub open spec fn member_of(
    candidate: CandidateView,
    generation: u64,
    sender: u64,
) -> state::ClientView {
    state::ClientView {
        player_id: candidate.client_id,
        player_name: candidate.player_name,
        virtual_ip: Some(ip::v4_text(candidate.virtual_ip)),
        virtual_domain: Some(candidate.virtual_domain),
        use_domain: candidate.use_domain,
        chat_public_key: candidate.chat_public_key,
        session_generation: generation,
        sender,
    }
}

/// Another member of the lobby has the address.
pub open spec fn address_taken(
    clients: Map<Seq<char>, state::ClientView>,
    client_id: Seq<char>,
    address: Ipv4Addr,
) -> bool {
    exists|c: Seq<char>| #[trigger]
        clients.contains_key(c) && c != client_id && clients[c].virtual_ip == Some(
            ip::v4_text(address),
        )
}

/// The lobby has no room for the client. A member that comes back needs no room
/// under the host's limit.
pub open spec fn is_full(lobby: state::LobbyView, client_id: Seq<char>) -> bool {
    ||| lobby.clients.dom().len() >= MAX_LOBBY_MEMBERS
    ||| lobby.max_players matches Some(max) && !lobby.clients.contains_key(client_id)
        && lobby.clients.dom().len() >= max
}

/// What becomes of a candidate, in the order in which the grounds are checked.
pub open spec fn join_decision(
    hub: state::HubView,
    failures: password_failures::FailureMap,
    source: IpAddr,
    candidate: CandidateView,
    now: u64,
) -> JoinDecision {
    let id = security::lobby_id_of(candidate.lobby_name);
    if hub.homes.contains_key(candidate.client_id) && hub.homes[candidate.client_id] != id {
        JoinDecision::Elsewhere
    } else if password_failures::locked(failures, (source, id), now) {
        JoinDecision::Locked
    } else if !hub.lobbies.contains_key(id) {
        JoinDecision::Found
    } else if security::password_hash(hub.lobbies[id].password_salt, candidate.lobby_password)
        != hub.lobbies[id].password_hash {
        JoinDecision::WrongPassword
    } else if address_taken(hub.lobbies[id].clients, candidate.client_id, candidate.virtual_ip) {
        JoinDecision::AddressTaken
    } else if is_full(hub.lobbies[id], candidate.client_id) {
        JoinDecision::Full
    } else {
        JoinDecision::Join
    }
}

/// The lobby that a candidate founds.
pub open spec fn founded(
    candidate: CandidateView,
    draws: DrawsView,
    sender: u64,
) -> state::LobbyView {
    state::LobbyView {
        lobby_name: candidate.lobby_name,
        password_hash: security::password_hash(draws.salt, candidate.lobby_password),
        password_salt: draws.salt,
        clients: Map::empty().insert(
            candidate.client_id,
            member_of(candidate, draws.generation, sender),
        ),
        host_id: candidate.client_id,
        max_players: None,
        is_public: false,
        is_passwordless: candidate.lobby_password.len() == 0,
        description: Seq::empty(),
        server_node: Seq::empty(),
        muted: Set::empty(),
        chat_token: draws.token,
        chat_token_epoch: 1,
    }
}

/// The lobby after a candidate entered: the membership changed, so the chat
/// credential does too.
pub open spec fn joined(
    lobby: state::LobbyView,
    candidate: CandidateView,
    draws: DrawsView,
    sender: u64,
) -> state::LobbyView {
    rotated(
        state::LobbyView {
            clients: lobby.clients.insert(
                candidate.client_id,
                member_of(candidate, draws.generation, sender),
            ),
            ..lobby
        },
        draws.token,
    )
}

/// The hub with a lobby in a new state and a client at home in it.
pub open spec fn with_member(
    hub: state::HubView,
    id: Seq<char>,
    lobby: state::LobbyView,
    client_id: Seq<char>,
) -> state::HubView {
    state::HubView {
        lobbies: hub.lobbies.insert(id, lobby),
        homes: hub.homes.insert(client_id, id),
    }
}

/// The hub after a decision. A refusal leaves it as it was.
pub open spec fn hub_after_join(
    hub: state::HubView,
    decision: JoinDecision,
    candidate: CandidateView,
    draws: DrawsView,
    sender: u64,
) -> state::HubView {
    let id = security::lobby_id_of(candidate.lobby_name);
    match decision {
        JoinDecision::Found => with_member(
            hub,
            id,
            founded(candidate, draws, sender),
            candidate.client_id,
        ),
        JoinDecision::Join => with_member(
            hub,
            id,
            joined(hub.lobbies[id], candidate, draws, sender),
            candidate.client_id,
        ),
        _ => hub,
    }
}

/// The record of wrong passwords after a decision: a wrong password is added, a
/// right one clears the record.
pub open spec fn failures_after_join(
    before: password_failures::FailureMap,
    after: password_failures::FailureMap,
    decision: JoinDecision,
    key: (IpAddr, Seq<char>),
    now: u64,
) -> bool {
    let m = password_failures::pruned(before, now);
    match decision {
        JoinDecision::Elsewhere => after == before,
        JoinDecision::Locked => after == m,
        JoinDecision::Found => after == m,
        JoinDecision::WrongPassword => password_failures::recorded(m, after, key, now),
        JoinDecision::AddressTaken => after == m.remove(key),
        JoinDecision::Full => after == m.remove(key),
        JoinDecision::Join => after == m.remove(key),
    }
}

/// What a member that was let in is told, and whom that concerns.
pub struct Welcome {
    pub lobby_id: String,
    /// The connection that spoke for the same identity until now.
    pub replaced: Option<u64>,
    pub host_id: String,
    pub max_players: Option<u32>,
    pub is_public: bool,
    pub muted: Vec<String>,
    pub chat_token: String,
    pub chat_token_epoch: u64,
    /// The other members.
    pub others: Vec<(String, u64)>,
}

/// A welcome says what the lobby is like after the member entered.
pub open spec fn welcome_ok(
    welcome: Welcome,
    before: state::HubView,
    after: state::HubView,
    candidate: CandidateView,
) -> bool {
    let id = security::lobby_id_of(candidate.lobby_name);
    let lobby = after.lobbies[id];
    &&& welcome.lobby_id@ == id
    &&& welcome.replaced == if before.lobbies.contains_key(id)
        && before.lobbies[id].clients.contains_key(candidate.client_id) {
        Some(before.lobbies[id].clients[candidate.client_id].sender)
    } else {
        None
    }
    &&& welcome.host_id@ == lobby.host_id
    &&& welcome.max_players == lobby.max_players
    &&& welcome.is_public == lobby.is_public
    &&& state::lists_set(welcome.muted@, lobby.muted)
    &&& welcome.chat_token@ == lobby.chat_token
    &&& welcome.chat_token_epoch == lobby.chat_token_epoch
    &&& state::is_targets(welcome.others@, lobby.clients, Some(candidate.client_id))
}

/// Founding a lobby keeps the hub well formed.
pub proof fn founding_keeps_hub_wf(
    hub: state::HubView,
    candidate: CandidateView,
    draws: DrawsView,
    sender: u64,
)
    requires
        state::hub_wf(hub),
        security::is_session_generation(draws.generation as int),
        !hub.lobbies.contains_key(security::lobby_id_of(candidate.lobby_name)),
        hub.homes.contains_key(candidate.client_id) ==> hub.homes[candidate.client_id]
            == security::lobby_id_of(candidate.lobby_name),
    ensures
        state::hub_wf(hub_after_join(hub, JoinDecision::Found, candidate, draws, sender)),
{
    let id = security::lobby_id_of(candidate.lobby_name);
    let cid = candidate.client_id;
    let lobby = founded(candidate, draws, sender);
    let after = with_member(hub, id, lobby, cid);
    assert(!hub.homes.contains_key(cid));
    assert(lobby.clients.dom() =~= Set::empty().insert(cid));
    assert(lobby.clients[cid].virtual_ip == Some(ip::v4_text(candidate.virtual_ip)));
    assert(state::client_wf(cid, lobby.clients[cid]));
    assert(state::lobby_wf(id, lobby));
    assert forall|c: Seq<char>| #[trigger] after.homes.contains_key(c) implies after.lobbies
        .contains_key(after.homes[c]) && after.lobbies[after.homes[c]].clients.contains_key(c) by {
        if c != cid {
            assert(hub.homes.contains_key(c));
            assert(hub.homes[c] != id);
        }
    }
    assert forall|l: Seq<char>, c: Seq<char>| #[trigger]
        after.lobbies.contains_key(l) && #[trigger] after.lobbies[l].clients.contains_key(
            c,
        ) implies after.homes.contains_key(c) && after.homes[c] == l by {
        if l != id {
            assert(hub.lobbies.contains_key(l) && hub.lobbies[l].clients.contains_key(c));
        }
    }
}

/// Entering a lobby keeps the hub well formed.
pub proof fn joining_keeps_hub_wf(
    hub: state::HubView,
    candidate: CandidateView,
    draws: DrawsView,
    sender: u64,
)
    requires
        state::hub_wf(hub),
        security::is_session_generation(draws.generation as int),
        hub.lobbies.contains_key(security::lobby_id_of(candidate.lobby_name)),
        hub.homes.contains_key(candidate.client_id) ==> hub.homes[candidate.client_id]
            == security::lobby_id_of(candidate.lobby_name),
        !address_taken(
            hub.lobbies[security::lobby_id_of(candidate.lobby_name)].clients,
            candidate.client_id,
            candidate.virtual_ip,
        ),
        !is_full(
            hub.lobbies[security::lobby_id_of(candidate.lobby_name)],
            candidate.client_id,
        ),
    ensures
        state::hub_wf(hub_after_join(hub, JoinDecision::Join, candidate, draws, sender)),
{
    let id = security::lobby_id_of(candidate.lobby_name);
    let cid = candidate.client_id;
    let old_lobby = hub.lobbies[id];
    let lobby = joined(old_lobby, candidate, draws, sender);
    let after = with_member(hub, id, lobby, cid);
    assert(state::lobby_wf(id, old_lobby));
    assert(lobby.clients[cid].virtual_ip == Some(ip::v4_text(candidate.virtual_ip)));
    assert(state::client_wf(cid, lobby.clients[cid]));
    assert forall|c: Seq<char>| #[trigger] lobby.clients.contains_key(c) implies state::client_wf(
        c,
        lobby.clients[c],
    ) by {
        if c != cid {
            assert(old_lobby.clients.contains_key(c));
        }
    }
    assert forall|c: Seq<char>, d: Seq<char>| #[trigger]
        lobby.clients.contains_key(c) && #[trigger] lobby.clients.contains_key(d) && c
            != d implies lobby.clients[c].virtual_ip != lobby.clients[d].virtual_ip by {
        assert(c == cid || old_lobby.clients.contains_key(c));
        assert(d == cid || old_lobby.clients.contains_key(d));
    }
    assert(state::lobby_wf(id, lobby));
    assert forall|c: Seq<char>| #[trigger] after.homes.contains_key(c) implies after.lobbies
        .contains_key(after.homes[c]) && after.lobbies[after.homes[c]].clients.contains_key(c) by {
        if c != cid {
            assert(hub.homes.contains_key(c));
        }
    }
    assert forall|l: Seq<char>, c: Seq<char>| #[trigger]
        after.lobbies.contains_key(l) && #[trigger] after.lobbies[l].clients.contains_key(
            c,
        ) implies after.homes.contains_key(c) && after.homes[c] == l by {
        if l != id {
            assert(hub.lobbies.contains_key(l) && hub.lobbies[l].clients.contains_key(c));
        } else if c != cid {
            assert(hub.lobbies[id].clients.contains_key(c));
        }
    }
}

fn is_address_taken(
    clients: &Table<String, ClientInfo>,
    client_id: &String,
    address: Ipv4Addr,
) -> (r: bool)
    requires
        forall|c: Seq<char>| #[trigger]
            clients@.contains_key(c) ==> state::client_wf(c, clients@[c]),
    ensures
        r == address_taken(clients@, client_id@, address),
{
    let n: usize = clients.len();
    let mut i: usize = 0;
    while i < n
        invariant
            i <= n == clients.items().len(),
            forall|c: Seq<char>| #[trigger]
                clients@.contains_key(c) ==> state::client_wf(c, clients@[c]),
            forall|j: int|
                0 <= j < n ==> clients@.contains_key((#[trigger] clients.items()[j]).0)
                    && clients@[clients.items()[j].0] == clients.items()[j].1,
            forall|j: int|
                0 <= j < i ==> !((#[trigger] clients.items()[j]).0 != client_id@
                    && clients.items()[j].1.virtual_ip == Some(ip::v4_text(address))),
        decreases n - i,
    {
        let (id, client) = clients.entry(i);
        assert(clients@.contains_key(id@) && clients@[id@] == client@);
        let held = match &client.virtual_ip {
            Some(s) => ip::parse_v4(text::chars_of(s.as_str()).as_slice()),
            None => None,
        };
        proof {
            assert(state::client_wf(id@, client@));
            let known = choose|known: Ipv4Addr|
                client@.virtual_ip == Some(#[trigger] ip::v4_text(known));
            ip::v4_text_reads_back(known);
            ip::v4_text_reads_back(address);
            assert(held == Some(known));
        }
        if !id.same(client_id) {
            if let Some(held) = held {
                if held == address {
                    assert(clients@.contains_key(id@) && id@ != client_id@
                        && clients@[id@].virtual_ip == Some(ip::v4_text(address)));
                    return true;
                }
            }
        }
        i = i + 1;
    }
    proof {
        if address_taken(clients@, client_id@, address) {
            let c = choose|c: Seq<char>| #[trigger]
                clients@.contains_key(c) && c != client_id@ && clients@[c].virtual_ip == Some(
                    ip::v4_text(address),
                );
            let j = choose|j: int|
                0 <= j < clients.items().len() && (#[trigger] clients.items()[j]) == (c, clients@[c]);
            assert(clients.items()[j].0 == c);
        }
    }
    false
}

/// Decides about a candidate for a lobby that exists.
fn decide_existing(lobby: &LobbyInfo, candidate: &Candidate) -> (r: JoinDecision)
    requires
        exists|id: Seq<char>| state::lobby_wf(id, lobby@),
    ensures
        r == if security::password_hash(lobby@.password_salt, candidate@.lobby_password)
            != lobby@.password_hash {
            JoinDecision::WrongPassword
        } else if address_taken(lobby@.clients, candidate@.client_id, candidate@.virtual_ip) {
            JoinDecision::AddressTaken
        } else if is_full(lobby@, candidate@.client_id) {
            JoinDecision::Full
        } else {
            JoinDecision::Join
        },
{
    let supplied = security::hash_lobby_password(
        lobby.password_salt.as_str(),
        candidate.lobby_password.as_str(),
    );
    if !security::ct_text_eq(supplied.as_str(), lobby.password_hash.as_str()) {
        return JoinDecision::WrongPassword;
    }
    if is_address_taken(&lobby.clients, &candidate.client_id, candidate.virtual_ip) {
        return JoinDecision::AddressTaken;
    }
    let members: usize = lobby.clients.len();
    if members >= MAX_LOBBY_MEMBERS {
        return JoinDecision::Full;
    }
    if let Some(max) = lobby.max_players {
        if !lobby.clients.contains(&candidate.client_id) && members as u32 >= max {
            return JoinDecision::Full;
        }
    }
    JoinDecision::Join
}

fn new_member(candidate: &Candidate, generation: u64, sender: u64) -> (r: ClientInfo)
    ensures
        r@ == member_of(candidate@, generation, sender),
{
    ClientInfo {
        player_id: candidate.client_id.clone(),
        player_name: candidate.player_name.clone(),
        virtual_ip: Some(candidate.virtual_ip.to_text()),
        virtual_domain: Some(candidate.virtual_domain.clone()),
        use_domain: candidate.use_domain,
        chat_public_key: state::clone_opt(&candidate.chat_public_key),
        session_generation: generation,
        sender,
    }
}

fn new_lobby(candidate: &Candidate, draws: Draws, sender: u64) -> (r: LobbyInfo)
    ensures
        r@ == founded(candidate@, draws@, sender),
{
    let password_hash = security::hash_lobby_password(
        draws.salt.as_str(),
        candidate.lobby_password.as_str(),
    );
    let mut clients: Table<String, ClientInfo> = Table::new();
    clients.put(candidate.client_id.clone(), new_member(candidate, draws.generation, sender));
    let lobby = LobbyInfo {
        lobby_name: candidate.lobby_name.clone(),
        password_hash,
        password_salt: draws.salt,
        clients,
        host_id: candidate.client_id.clone(),
        max_players: None,
        is_public: false,
        is_passwordless: candidate.lobby_password.as_str().unicode_len() == 0,
        description: String::new(),
        server_node: String::new(),
        muted: Table::new(),
        chat_token: draws.token,
        chat_token_epoch: 1,
    };
    assert(lobby@.muted =~= Set::empty());
    assert(lobby@.description =~= Seq::empty());
    lobby
}

fn welcome_to(
    lobby: &LobbyInfo,
    lobby_id: String,
    client_id: &String,
    replaced: Option<u64>,
) -> (r: Welcome)
    ensures
        r.lobby_id == lobby_id,
        r.replaced == replaced,
        r.host_id@ == lobby@.host_id,
        r.max_players == lobby@.max_players,
        r.is_public == lobby@.is_public,
        state::lists_set(r.muted@, lobby@.muted),
        r.chat_token@ == lobby@.chat_token,
        r.chat_token_epoch == lobby@.chat_token_epoch,
        state::is_targets(r.others@, lobby@.clients, Some(client_id@)),
{
    Welcome {
        lobby_id,
        replaced,
        host_id: lobby.host_id.clone(),
        max_players: lobby.max_players,
        is_public: lobby.is_public,
        muted: state::names_in(&lobby.muted),
        chat_token: lobby.chat_token.clone(),
        chat_token_epoch: lobby.chat_token_epoch,
        others: state::targets_of(&lobby.clients, Some(client_id)),
    }
}

/// Decides about a candidate and, where it is let in, makes it a member.
pub fn join(
    hub: &mut Hub,
    failures: &mut RegisterPasswordFailures,
    candidate: &Candidate,
    source: IpAddr,
    draws: Draws,
    sender: u64,
    now: u64,
) -> (r: (JoinDecision, Option<Welcome>))
    requires
        state::hub_wf(old(hub)@),
        security::is_session_generation(draws.generation as int),
    ensures
        r.0 == join_decision(old(hub)@, old(failures)@, source, candidate@, now),
        final(hub)@ == hub_after_join(old(hub)@, r.0, candidate@, draws@, sender),
        state::hub_wf(final(hub)@),
        failures_after_join(
            old(failures)@,
            final(failures)@,
            r.0,
            (source, security::lobby_id_of(candidate@.lobby_name)),
            now,
        ),
        password_failures::failures_bounded(old(failures)@) ==> password_failures::failures_bounded(
            final(failures)@,
        ),
        match r.1 {
            Some(welcome) => (r.0 == JoinDecision::Found || r.0 == JoinDecision::Join)
                && welcome_ok(welcome, old(hub)@, final(hub)@, candidate@),
            None => r.0 != JoinDecision::Found && r.0 != JoinDecision::Join,
        },
{
    let ghost before = hub@;
    let lobby_id = security::generate_lobby_id(candidate.lobby_name.as_str());
    if let Some(home) = hub.client_lobby.get(&candidate.client_id) {
        if !home.same(&lobby_id) {
            return (JoinDecision::Elsewhere, None);
        }
    }
    let key = (source, lobby_id.clone());
    if failures.is_locked(&key, now) {
        return (JoinDecision::Locked, None);
    }
    let decision = match hub.lobbies.get(&lobby_id) {
        Some(lobby) => {
            assert(state::lobby_wf(lobby_id@, lobby@));
            decide_existing(lobby, candidate)
        },
        None => JoinDecision::Found,
    };
    match decision {
        JoinDecision::Found => {
            proof {
                founding_keeps_hub_wf(before, candidate@, draws@, sender);
            }
            let lobby = new_lobby(candidate, draws, sender);
            let welcome = welcome_to(&lobby, lobby_id.clone(), &candidate.client_id, None);
            hub.lobbies.put(lobby_id.clone(), lobby);
            hub.client_lobby.put(candidate.client_id.clone(), lobby_id);
            assert(hub@ =~= hub_after_join(before, decision, candidate@, draws@, sender));
            (decision, Some(welcome))
        },
        JoinDecision::Join => {
            proof {
                joining_keeps_hub_wf(before, candidate@, draws@, sender);
            }
            failures.clear(&key);
            match hub.lobbies.take(&lobby_id) {
                Some(mut lobby) => {
                    assert(state::lobby_wf(lobby_id@, lobby@));
                    let replaced = match lobby.clients.get(&candidate.client_id) {
                        Some(previous) => Some(previous.sender),
                        None => None,
                    };
                    lobby.clients.put(
                        candidate.client_id.clone(),
                        new_member(candidate, draws.generation, sender),
                    );
                    let _ = rotate_chat_token(&mut lobby, draws.token);
                    let welcome = welcome_to(
                        &lobby,
                        lobby_id.clone(),
                        &candidate.client_id,
                        replaced,
                    );
                    assert(lobby@ =~= joined(
                        before.lobbies[lobby_id@],
                        candidate@,
                        draws@,
                        sender,
                    ));
                    hub.lobbies.put(lobby_id.clone(), lobby);
                    hub.client_lobby.put(candidate.client_id.clone(), lobby_id);
                    assert(hub@ =~= hub_after_join(before, decision, candidate@, draws@, sender));
                    (decision, Some(welcome))
                },
                None => (decision, None),
            }
        },
        JoinDecision::WrongPassword => {
            failures.record_failure(&key, now);
            (decision, None)
        },
        _ => {
            failures.clear(&key);
            (decision, None)
        },
    }
}

// ---------------------------------------------------------------------------
// Leaving
// ---------------------------------------------------------------------------
/// A new chat credential and the members that are told of it.
pub struct Rotation {
    pub targets: Vec<(String, u64)>,
    pub token: String,
    pub epoch: u64,
}

/// The rotation hands the lobby's credential to all its members.
pub open spec fn rotation_ok(rotation: Rotation, lobby: state::LobbyView) -> bool {
    &&& state::is_targets(rotation.targets@, lobby.clients, None)
    &&& rotation.token@ == lobby.chat_token
    &&& rotation.epoch == lobby.chat_token_epoch
}

/// The client is the only member.
pub open spec fn is_alone(lobby: state::LobbyView, client_id: Seq<char>) -> bool {
    forall|c: Seq<char>| #[trigger] lobby.clients.contains_key(c) ==> c == client_id
}

/// The lobby after a member is gone: the chat credential changes with the
/// membership.
pub open spec fn departed(
    lobby: state::LobbyView,
    client_id: Seq<char>,
    host_id: Seq<char>,
    token: Seq<char>,
) -> state::LobbyView {
    rotated(
        state::LobbyView {
            clients: lobby.clients.remove(client_id),
            muted: lobby.muted.remove(client_id),
            host_id,
            ..lobby
        },
        token,
    )
}

/// The hub after a member is gone. An empty lobby goes with its last member.
pub open spec fn without_member(
    hub: state::HubView,
    id: Seq<char>,
    client_id: Seq<char>,
    host_id: Seq<char>,
    token: Seq<char>,
) -> state::HubView {
    state::HubView {
        lobbies: if is_alone(hub.lobbies[id], client_id) {
            hub.lobbies.remove(id)
        } else {
            hub.lobbies.insert(id, departed(hub.lobbies[id], client_id, host_id, token))
        },
        homes: hub.homes.remove(client_id),
    }
}

/// The connection is the one that speaks for the member.
pub open spec fn speaks_for(
    hub: state::HubView,
    id: Seq<char>,
    client_id: Seq<char>,
    sender: u64,
) -> bool {
    &&& hub.lobbies.contains_key(id)
    &&& hub.lobbies[id].clients.contains_key(client_id)
    &&& hub.lobbies[id].clients[client_id].sender == sender
}

/// Removing a member keeps the hub well formed, given a host among the others.
pub proof fn leaving_keeps_hub_wf(
    hub: state::HubView,
    id: Seq<char>,
    client_id: Seq<char>,
    host_id: Seq<char>,
    token: Seq<char>,
)
    requires
        state::hub_wf(hub),
        hub.lobbies.contains_key(id),
        hub.lobbies[id].clients.contains_key(client_id),
        !is_alone(hub.lobbies[id], client_id) ==> host_id != client_id
            && hub.lobbies[id].clients.contains_key(host_id),
    ensures
        state::hub_wf(without_member(hub, id, client_id, host_id, token)),
{
    let lobby = hub.lobbies[id];
    let after = without_member(hub, id, client_id, host_id, token);
    assert(state::lobby_wf(id, lobby));
    assert(hub.homes[client_id] == id);
    if !is_alone(lobby, client_id) {
        let rest = departed(lobby, client_id, host_id, token);
        assert(rest.clients.dom() =~= lobby.clients.dom().remove(client_id));
        assert forall|c: Seq<char>| #[trigger] rest.clients.contains_key(
            c,
        ) implies state::client_wf(c, rest.clients[c]) by {
            assert(lobby.clients.contains_key(c));
        }
        assert forall|c: Seq<char>, d: Seq<char>| #[trigger]
            rest.clients.contains_key(c) && #[trigger] rest.clients.contains_key(d) && c
                != d implies rest.clients[c].virtual_ip != rest.clients[d].virtual_ip by {
            assert(lobby.clients.contains_key(c) && lobby.clients.contains_key(d));
        }
        assert forall|c: Seq<char>| #[trigger] rest.muted.contains(c) implies rest.clients
            .contains_key(c) by {
            assert(lobby.muted.contains(c));
        }
        assert(state::lobby_wf(id, rest));
    }
    assert forall|c: Seq<char>| #[trigger] after.homes.contains_key(c) implies after.lobbies
        .contains_key(after.homes[c]) && after.lobbies[after.homes[c]].clients.contains_key(c) by {
        assert(hub.homes.contains_key(c));
        assert(hub.lobbies[hub.homes[c]].clients.contains_key(c));
    }
    assert forall|l: Seq<char>, c: Seq<char>| #[trigger]
        after.lobbies.contains_key(l) && #[trigger] after.lobbies[l].clients.contains_key(
            c,
        ) implies after.homes.contains_key(c) && after.homes[c] == l by {
        assert(hub.lobbies.contains_key(l) && hub.lobbies[l].clients.contains_key(c));
    }
}

/// What a departure leaves to be told.
pub struct Departure {
    /// The member that the host's role fell to.
    pub new_host: Option<String>,
    /// None where the lobby is gone.
    pub rotation: Option<Rotation>,
}

/// The host of the lobby once `client_id` is gone.
pub open spec fn host_after(
    hub: state::HubView,
    id: Seq<char>,
    new_host: Option<String>,
) -> Seq<char> {
    match new_host {
        Some(host) => host@,
        None => hub.lobbies[id].host_id,
    }
}

/// The departure of a member: where it was the host and others remain, the role
/// falls to one of them.
pub open spec fn departure_ok(
    departure: Departure,
    before: state::HubView,
    after: state::HubView,
    id: Seq<char>,
    client_id: Seq<char>,
    token: Seq<char>,
) -> bool {
    let lobby = before.lobbies[id];
    &&& after == without_member(
        before,
        id,
        client_id,
        host_after(before, id, departure.new_host),
        token,
    )
    &&& match departure.new_host {
        Some(host) => !is_alone(lobby, client_id) && lobby.host_id == client_id && host@
            != client_id && lobby.clients.contains_key(host@),
        None => is_alone(lobby, client_id) || lobby.host_id != client_id,
    }
    &&& match departure.rotation {
        Some(rotation) => !is_alone(lobby, client_id) && rotation_ok(rotation, after.lobbies[id]),
        None => is_alone(lobby, client_id),
    }
}

/// Removes the member that a connection speaks for. A connection that has been
/// replaced by a newer one of the same identity removes nothing.
pub fn leave(
    hub: &mut Hub,
    lobby_id: &String,
    client_id: &String,
    sender: u64,
    token: String,
) -> (r: Option<Departure>)
    requires
        state::hub_wf(old(hub)@),
    ensures
        state::hub_wf(final(hub)@),
        match r {
            Some(departure) => speaks_for(old(hub)@, lobby_id@, client_id@, sender)
                && departure_ok(
                departure,
                old(hub)@,
                final(hub)@,
                lobby_id@,
                client_id@,
                token@,
            ),
            None => !speaks_for(old(hub)@, lobby_id@, client_id@, sender) && final(hub)@ == old(hub)@,
        },
{
    let ghost before = hub@;
    let current = match hub.lobbies.get(lobby_id) {
        Some(lobby) => match lobby.clients.get(client_id) {
            Some(client) => client.sender == sender,
            None => false,
        },
        None => false,
    };
    if !current {
        return None;
    }
    match hub.lobbies.take(lobby_id) {
        Some(mut lobby) => {
            let ghost old_lobby = lobby@;
            assert(state::lobby_wf(lobby_id@, old_lobby));
            let _ = lobby.clients.take(client_id);
            let _ = lobby.muted.take(client_id);
            assert(lobby.muted@.dom() =~= old_lobby.muted.remove(client_id@));
            assert(before.homes[client_id@] == lobby_id@);
            let _ = hub.client_lobby.take(client_id);
            let left: usize = lobby.clients.len();
            if left == 0 {
                assert(lobby.clients@.dom() =~= Set::empty());
                assert forall|c: Seq<char>| #[trigger] old_lobby.clients.contains_key(c) implies c
                    == client_id@ by {
                    if c != client_id@ {
                        assert(lobby.clients@.dom().contains(c));
                    }
                }
                proof {
                    leaving_keeps_hub_wf(
                        before,
                        lobby_id@,
                        client_id@,
                        old_lobby.host_id,
                        token@,
                    );
                }
                assert(hub@ =~= without_member(
                    before,
                    lobby_id@,
                    client_id@,
                    old_lobby.host_id,
                    token@,
                ));
                return Some(Departure { new_host: None, rotation: None });
            }
            let ghost first = lobby.clients.items()[0].0;
            assert(lobby.clients@.contains_key(first));
            assert(old_lobby.clients.contains_key(first) && first != client_id@);
            let mut new_host: Option<String> = None;
            if lobby.host_id.same(client_id) {
                let next = lobby.clients.entry(0).0.clone();
                lobby.host_id = next.clone();
                new_host = Some(next);
            }
            let ghost host = lobby.host_id@;
            let (token_now, epoch_now) = rotate_chat_token(&mut lobby, token);
            let targets = state::targets_of(&lobby.clients, None);
            assert(lobby@ =~= departed(old_lobby, client_id@, host, token@));
            proof {
                leaving_keeps_hub_wf(before, lobby_id@, client_id@, host, token@);
            }
            hub.lobbies.put(lobby_id.clone(), lobby);
            assert(hub@ =~= without_member(before, lobby_id@, client_id@, host, token@));
            Some(
                Departure {
                    new_host,
                    rotation: Some(Rotation { targets, token: token_now, epoch: epoch_now }),
                },
            )
        },
        None => None,
    }
}

} // verus!
