//! To which connections a message goes, and in which form.
use vstd::prelude::*;
use crate::json;
use crate::state;
use crate::state::{Hub, LobbyInfo};
use crate::table::Key;

verus! {

/// The form in which a message goes out in a lobby: where the sender that it
/// names is a member, with the member's session written in.
pub open spec fn lobby_form(lobby: state::LobbyView, raw: Seq<char>) -> Seq<char> {
    match json::json_sender(raw) {
        Some(sender) => if lobby.clients.contains_key(sender) {
            json::stamped(raw, sender, lobby.clients[sender].session_generation)
        } else {
            raw
        },
        None => raw,
    }
}

/// Where the message names a member as its sender, what goes out can only be
/// read as coming from that member's current session.
pub open spec fn names_member(lobby: state::LobbyView, raw: Seq<char>, out: Seq<char>) -> bool {
    json::json_sender(raw) matches Some(sender) ==> lobby.clients.contains_key(sender)
        ==> json::names_session(out, sender, lobby.clients[sender].session_generation)
}

fn form_for_lobby(lobby: &LobbyInfo, raw: String) -> (r: String)
    ensures
        r@ == lobby_form(lobby@, raw@),
        names_member(lobby@, raw@, r@),
{
    match json::json_sender_id(raw.as_str()) {
        Some(sender) => match lobby.clients.get(&sender) {
            Some(client) => json::inject_session_metadata(
                raw,
                sender.as_str(),
                client.session_generation,
            ),
            None => raw,
        },
        None => raw,
    }
}

/// A text for one connection.
pub struct Direct {
    pub transport: u64,
    pub text: String,
}

/// Plans a message to one member of a lobby. Nobody outside the lobby gets it.
pub fn send_to_lobby_client(
    hub: &Hub,
    lobby_id: &String,
    client_id: &String,
    message: String,
) -> (r: Option<Direct>)
    ensures
        match r {
            Some(direct) => {
                let lobby = hub@.lobbies[lobby_id@];
                &&& hub@.lobbies.contains_key(lobby_id@)
                &&& lobby.clients.contains_key(client_id@)
                &&& direct.transport == lobby.clients[client_id@].sender
                &&& direct.text@ == lobby_form(lobby, message@)
                &&& names_member(lobby, message@, direct.text@)
            },
            None => !(hub@.lobbies.contains_key(lobby_id@)
                && hub@.lobbies[lobby_id@].clients.contains_key(client_id@)),
        },
{
    match hub.lobbies.get(lobby_id) {
        Some(lobby) => match lobby.clients.get(client_id) {
            Some(target) => {
                let transport: u64 = target.sender;
                Some(Direct { transport, text: form_for_lobby(lobby, message) })
            },
            None => None,
        },
        None => None,
    }
}

/// A text for several members, each with its connection.
pub struct Broadcast {
    pub targets: Vec<(String, u64)>,
    pub text: String,
}

/// Plans a message to all members of a lobby but one.
pub fn broadcast_to_lobby(
    hub: &Hub,
    lobby_id: &String,
    exclude_id: &String,
    message: String,
) -> (r: Option<Broadcast>)
    ensures
        match r {
            Some(broadcast) => {
                let lobby = hub@.lobbies[lobby_id@];
                &&& hub@.lobbies.contains_key(lobby_id@)
                &&& state::is_targets(broadcast.targets@, lobby.clients, Some(exclude_id@))
                &&& broadcast.text@ == lobby_form(lobby, message@)
                &&& names_member(lobby, message@, broadcast.text@)
            },
            None => !hub@.lobbies.contains_key(lobby_id@),
        },
{
    match hub.lobbies.get(lobby_id) {
        Some(lobby) => {
            let targets = state::targets_of(&lobby.clients, Some(exclude_id));
            Some(Broadcast { targets, text: form_for_lobby(lobby, message) })
        },
        None => None,
    }
}

/// The target is a member of the lobby through the same connection as when it
/// was put on the list.
pub open spec fn still_there(target: (String, u64), lobby: state::LobbyView) -> bool {
    lobby.clients.contains_key(target.0@) && lobby.clients[target.0@].sender == target.1
}

/// The connections of those targets that are still there, in order.
pub open spec fn remaining(targets: Seq<(String, u64)>, lobby: state::LobbyView) -> Seq<u64>
    decreases targets.len(),
{
    if targets.len() == 0 {
        Seq::empty()
    } else {
        let rest = remaining(targets.drop_last(), lobby);
        if still_there(targets.last(), lobby) {
            rest.push(targets.last().1)
        } else {
            rest
        }
    }
}

/// The credential is the one that the lobby has now.
pub open spec fn credential_current(
    hub: state::HubView,
    lobby_id: Seq<char>,
    token: Seq<char>,
    epoch: u64,
) -> bool {
    &&& hub.lobbies.contains_key(lobby_id)
    &&& hub.lobbies[lobby_id].chat_token_epoch == epoch
    &&& hub.lobbies[lobby_id].chat_token == token
}

/// Plans the announcement of a chat credential. A newer change of membership
/// supersedes it, so that no old credential arrives after a new one, and a
/// target whose connection has changed gets nothing.
pub fn send_chat_token_rotation(
    hub: &Hub,
    targets: &Vec<(String, u64)>,
    lobby_id: &String,
    chat_token: &String,
    chat_token_epoch: u64,
) -> (r: Vec<u64>)
    ensures
        r@ == if credential_current(hub@, lobby_id@, chat_token@, chat_token_epoch) {
            remaining(targets@, hub@.lobbies[lobby_id@])
        } else {
            Seq::<u64>::empty()
        },
{
    let mut out: Vec<u64> = Vec::new();
    match hub.lobbies.get(lobby_id) {
        Some(lobby) => {
            if lobby.chat_token_epoch != chat_token_epoch || !lobby.chat_token.same(chat_token) {
                assert(out@ =~= Seq::<u64>::empty());
                return out;
            }
            let mut i: usize = 0;
            assert(targets@.take(0) =~= Seq::empty());
            while i < targets.len()
                invariant
                    i <= targets@.len(),
                    out@ == remaining(targets@.take(i as int), lobby@),
                decreases targets@.len() - i,
            {
                let target = &targets[i];
                assert(targets@.take(i + 1).drop_last() =~= targets@.take(i as int));
                assert(targets@.take(i + 1).last() == target);
                if let Some(client) = lobby.clients.get(&target.0) {
                    if client.sender == target.1 {
                        out.push(target.1);
                    }
                }
                i = i + 1;
            }
            assert(targets@.take(i as int) =~= targets@);
        },
        None => {},
    }
    assert(!hub@.lobbies.contains_key(lobby_id@) ==> out@ =~= Seq::<u64>::empty());
    out
}

} // verus!
