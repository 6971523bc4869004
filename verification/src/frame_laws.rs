//! What each message on a connection comes to, message by message and field by
//! field.
use vstd::prelude::*;
use crate::lobby;
use crate::moderation;
use crate::protocol::{PublicLobbyInfo, SignalingMessage};
use crate::registration::Settings;
use crate::session;
use crate::session::{Action, Frame, Next, Session, Step};
use crate::shape_laws;
use crate::state;
use crate::text;
use crate::text_laws;
use crate::validation;

verus! {

/// The connection has sent fewer than 120 messages in its window of ten seconds, or
/// the window is over.
pub open spec fn within_rate(connection: Session, now: u64) -> bool {
    connection.rate.messages < 120 || now - connection.rate.window_started >= 10_000_000_000
}

/// The connection has registered, and is the one that its member is reached by.
pub open spec fn is_live(before: session::WorldView, connection: Session) -> bool {
    before.registered matches Some(r) && {
        &&& before.hub.lobbies.contains_key(r.lobby_id)
        &&& before.hub.lobbies[r.lobby_id].clients.contains_key(r.client_id)
        &&& before.hub.lobbies[r.lobby_id].clients[r.client_id].sender == connection.sender
        &&& before.hub.lobbies[r.lobby_id].clients[r.client_id].session_generation == r.generation
    }
}

/// The step sends one message to one member.
pub open spec fn sends_to(
    step: Step,
    lobby_id: Seq<char>,
    member: Seq<char>,
    sent: SignalingMessage,
) -> bool {
    &&& step.next == Next::Continue
    &&& step.actions@.len() == 1
    &&& step.actions@[0] matches Action::Direct { lobby, target, message } && lobby@ == lobby_id
        && target@ == member && message == sent
}

/// The step sends one message to all members but one.
pub open spec fn sends_to_others(
    step: Step,
    lobby_id: Seq<char>,
    member: Seq<char>,
    sent: SignalingMessage,
) -> bool {
    &&& step.next == Next::Continue
    &&& step.actions@.len() == 1
    &&& step.actions@[0] matches Action::Broadcast { lobby, except, message } && lobby@ == lobby_id
        && except@ == member && message == sent
}

/// The step does nothing, and the connection goes on.
pub open spec fn does_nothing(step: Step) -> bool {
    step.actions@.len() == 0 && step.next == Next::Continue
}

/// The step is one error, after which the connection ends.
pub open spec fn refuses(step: Step, reason: Seq<char>) -> bool {
    &&& step.next == Next::Break
    &&& step.actions@.len() == 1
    &&& step.actions@[0] matches Action::Reply(SignalingMessage::RegisterError { message })
        && message@ == reason
}

/// Every message with a `to` field is sent to the member that the field names, in
/// the sender's lobby, and to no one else; and as it is, but for the name in a
/// voice offer, which is the one that the sender registered.
pub proof fn addressed_messages_reach_the_member_they_name(
    before: session::WorldView,
    after: session::WorldView,
    connection: Session,
    settings: Settings,
    message: SignalingMessage,
    draws: lobby::DrawsView,
    now: u64,
    step: Step,
)
    requires
        session::frame_ok(
            before,
            after,
            connection,
            settings,
            Frame::Message(message),
            draws,
            now,
            step,
        ),
        within_rate(connection, now),
        is_live(before, connection),
        validation::message_ok(message),
    ensures
        ({
            let r = before.registered->0;
            match message {
                SignalingMessage::Offer { from, to, offer, .. } => from@ == r.client_id ==> {
                    &&& after == before
                    &&& step.next == Next::Continue
                    &&& step.actions@.len() == 1
                    &&& step.actions@[0] matches Action::Direct { lobby, target, message: sent }
                    &&& lobby@ == r.lobby_id
                    &&& target@ == to@
                    &&& sent matches SignalingMessage::Offer {
                        from: f,
                        to: t,
                        offer: o,
                        player_name,
                    }
                    &&& f == from
                    &&& t == to
                    &&& o == offer
                    &&& player_name matches Some(name) && name@
                        == before.hub.lobbies[r.lobby_id].clients[r.client_id].player_name
                },
                SignalingMessage::VoiceReconnect { from, to, .. } => from@ == r.client_id ==> after
                    == before && sends_to(step, r.lobby_id, to@, message),
                SignalingMessage::Answer { from, to, .. } => from@ == r.client_id ==> after
                    == before && sends_to(step, r.lobby_id, to@, message),
                SignalingMessage::IceCandidate { from, to, .. } => from@ == r.client_id ==> after
                    == before && sends_to(step, r.lobby_id, to@, message),
                SignalingMessage::ScreenShareRelay { from, to, .. } => from@ == r.client_id ==> after
                    == before && sends_to(step, r.lobby_id, to@, message),
                SignalingMessage::ScreenShareOffer { from, to, .. } => from@ == r.client_id ==> after
                    == before && sends_to(step, r.lobby_id, to@, message),
                SignalingMessage::ScreenShareAnswer { from, to, .. } => from@ == r.client_id ==> after
                    == before && sends_to(step, r.lobby_id, to@, message),
                SignalingMessage::ScreenShareIceCandidate { from, to, .. } => from@ == r.client_id ==> after
                    == before && sends_to(step, r.lobby_id, to@, message),
                SignalingMessage::ScreenShareError { from, to, .. } => from@ == r.client_id ==> after
                    == before && sends_to(step, r.lobby_id, to@, message),
                SignalingMessage::ScreenShareListResponse { from, to, .. } => from@ == r.client_id ==> after
                    == before && sends_to(step, r.lobby_id, to@, message),
                SignalingMessage::FileShareListResponse { from, to, .. } => from@ == r.client_id ==> after
                    == before && sends_to(step, r.lobby_id, to@, message),
                SignalingMessage::RemoteControlRequest { from, to, .. } => from@ == r.client_id ==> after
                    == before && sends_to(step, r.lobby_id, to@, message),
                SignalingMessage::RemoteControlAccept { from, to, .. } => from@ == r.client_id ==> after
                    == before && sends_to(step, r.lobby_id, to@, message),
                SignalingMessage::RemoteControlReject { from, to, .. } => from@ == r.client_id ==> after
                    == before && sends_to(step, r.lobby_id, to@, message),
                SignalingMessage::RemoteControlOffer { from, to, .. } => from@ == r.client_id ==> after
                    == before && sends_to(step, r.lobby_id, to@, message),
                SignalingMessage::RemoteControlAnswer { from, to, .. } => from@ == r.client_id ==> after
                    == before && sends_to(step, r.lobby_id, to@, message),
                SignalingMessage::RemoteControlIce { from, to, .. } => from@ == r.client_id ==> after
                    == before && sends_to(step, r.lobby_id, to@, message),
                SignalingMessage::RemoteControlStop { from, to, .. } => from@ == r.client_id ==> after
                    == before && sends_to(step, r.lobby_id, to@, message),
                _ => true,
            }
        }),
{
}

/// The two identities of a message are within bounds, and the sender is the one that
/// the connection registered.
pub open spec fn is_from_to(from: String, to: String, registered: Seq<char>) -> bool {
    shape_laws::both(from, to) && from@ == registered
}

/// An answer is sent on exactly when its identities and what it belongs to are named
/// within bounds and its description is an answer; any other ends the connection with
/// an error.
pub proof fn answers_are_sent_on_where_they_answer(
    before: session::WorldView,
    after: session::WorldView,
    connection: Session,
    settings: Settings,
    message: SignalingMessage,
    draws: lobby::DrawsView,
    now: u64,
    step: Step,
)
    requires
        session::frame_ok(
            before,
            after,
            connection,
            settings,
            Frame::Message(message),
            draws,
            now,
            step,
        ),
        within_rate(connection, now),
        is_live(before, connection),
    ensures
        after == before || !(message is Answer || message is ScreenShareAnswer
            || message is RemoteControlAnswer),
        ({
            let r = before.registered->0;
            let reason = "信令字段无效或超出长度限制"@;
            match message {
                SignalingMessage::Answer { from, to, answer } => {
                    &&& is_from_to(from, to, r.client_id) && shape_laws::answers(answer)
                        ==> sends_to(step, r.lobby_id, to@, message)
                    &&& !shape_laws::answers(answer) ==> refuses(step, reason)
                },
                SignalingMessage::ScreenShareAnswer { from, to, share_id, answer, .. } => {
                    &&& is_from_to(from, to, r.client_id) && shape_laws::says(share_id@, 128)
                        && shape_laws::answers(answer) ==> sends_to(step, r.lobby_id, to@, message)
                    &&& !shape_laws::answers(answer) ==> refuses(step, reason)
                },
                SignalingMessage::RemoteControlAnswer { from, to, session_id, answer } => {
                    &&& is_from_to(from, to, r.client_id) && shape_laws::says(session_id@, 128)
                        && shape_laws::answers(answer) ==> sends_to(step, r.lobby_id, to@, message)
                    &&& !shape_laws::answers(answer) ==> refuses(step, reason)
                },
                _ => true,
            }
        }),
{
    shape_laws::offers_carry_offers_and_answers_answers(message);
}

/// Every announcement is sent as it is to all other members of the sender's lobby.
pub proof fn announcements_reach_all_other_members(
    before: session::WorldView,
    after: session::WorldView,
    connection: Session,
    settings: Settings,
    message: SignalingMessage,
    draws: lobby::DrawsView,
    now: u64,
    step: Step,
)
    requires
        session::frame_ok(
            before,
            after,
            connection,
            settings,
            Frame::Message(message),
            draws,
            now,
            step,
        ),
        within_rate(connection, now),
        is_live(before, connection),
        validation::message_ok(message),
    ensures
        ({
            let r = before.registered->0;
            match message {
                SignalingMessage::StatusUpdate { client_id, .. } => client_id@ == r.client_id
                    ==> after == before && sends_to_others(step, r.lobby_id, r.client_id, message),
                SignalingMessage::ScreenShareStart { from, .. } => from@ == r.client_id ==> after
                    == before && sends_to_others(step, r.lobby_id, r.client_id, message),
                SignalingMessage::ScreenShareStop { from, .. } => from@ == r.client_id ==> after
                    == before && sends_to_others(step, r.lobby_id, r.client_id, message),
                SignalingMessage::ScreenShareListRequest { from, .. } => from@ == r.client_id ==> after
                    == before && sends_to_others(step, r.lobby_id, r.client_id, message),
                SignalingMessage::ScreenShareViewerLeft { from, .. } => from@ == r.client_id ==> after
                    == before && sends_to_others(step, r.lobby_id, r.client_id, message),
                SignalingMessage::ScreenShareUpdate { from, .. } => from@ == r.client_id ==> after
                    == before && sends_to_others(step, r.lobby_id, r.client_id, message),
                SignalingMessage::FileShareAdded { from, .. } => from@ == r.client_id ==> after
                    == before && sends_to_others(step, r.lobby_id, r.client_id, message),
                SignalingMessage::FileShareRemoved { from, .. } => from@ == r.client_id ==> after
                    == before && sends_to_others(step, r.lobby_id, r.client_id, message),
                SignalingMessage::FileShareListRequest { from, .. } => from@ == r.client_id ==> after
                    == before && sends_to_others(step, r.lobby_id, r.client_id, message),
                SignalingMessage::ShareUpdated { from, .. } => from@ == r.client_id ==> after
                    == before && sends_to_others(step, r.lobby_id, r.client_id, message),
                _ => true,
            }
        }),
{
}

/// A message that names anyone but the registered identity of its connection as
/// its sender does nothing.
pub proof fn messages_of_others_do_nothing(
    before: session::WorldView,
    after: session::WorldView,
    connection: Session,
    settings: Settings,
    message: SignalingMessage,
    draws: lobby::DrawsView,
    now: u64,
    step: Step,
    claimed: Seq<char>,
)
    requires
        session::frame_ok(
            before,
            after,
            connection,
            settings,
            Frame::Message(message),
            draws,
            now,
            step,
        ),
        within_rate(connection, now),
        before.registered is None || is_live(before, connection) && before.registered->0.client_id
            != claimed,
        validation::message_ok(message),
        match message {
            SignalingMessage::Offer { from, .. } => from@ == claimed,
            SignalingMessage::VoiceReconnect { from, .. } => from@ == claimed,
            SignalingMessage::Answer { from, .. } => from@ == claimed,
            SignalingMessage::IceCandidate { from, .. } => from@ == claimed,
            SignalingMessage::ChatMessage { from, .. } => from@ == claimed,
            SignalingMessage::ScreenShareStart { from, .. } => from@ == claimed,
            SignalingMessage::ScreenShareStop { from, .. } => from@ == claimed,
            SignalingMessage::ScreenShareRelay { from, .. } => from@ == claimed,
            SignalingMessage::ScreenShareOffer { from, .. } => from@ == claimed,
            SignalingMessage::ScreenShareAnswer { from, .. } => from@ == claimed,
            SignalingMessage::ScreenShareIceCandidate { from, .. } => from@ == claimed,
            SignalingMessage::ScreenShareError { from, .. } => from@ == claimed,
            SignalingMessage::ScreenShareListRequest { from, .. } => from@ == claimed,
            SignalingMessage::ScreenShareListResponse { from, .. } => from@ == claimed,
            SignalingMessage::ScreenShareViewerLeft { from, .. } => from@ == claimed,
            SignalingMessage::ScreenShareUpdate { from, .. } => from@ == claimed,
            SignalingMessage::FileShareAdded { from, .. } => from@ == claimed,
            SignalingMessage::FileShareRemoved { from, .. } => from@ == claimed,
            SignalingMessage::FileShareListRequest { from, .. } => from@ == claimed,
            SignalingMessage::FileShareListResponse { from, .. } => from@ == claimed,
            SignalingMessage::ShareUpdated { from, .. } => from@ == claimed,
            SignalingMessage::RemoteControlRequest { from, .. } => from@ == claimed,
            SignalingMessage::RemoteControlAccept { from, .. } => from@ == claimed,
            SignalingMessage::RemoteControlReject { from, .. } => from@ == claimed,
            SignalingMessage::RemoteControlOffer { from, .. } => from@ == claimed,
            SignalingMessage::RemoteControlAnswer { from, .. } => from@ == claimed,
            SignalingMessage::RemoteControlIce { from, .. } => from@ == claimed,
            SignalingMessage::RemoteControlStop { from, .. } => from@ == claimed,
            SignalingMessage::KickPlayer { from, .. } => from@ == claimed,
            SignalingMessage::MutePlayer { from, .. } => from@ == claimed,
            SignalingMessage::TransferHost { from, .. } => from@ == claimed,
            SignalingMessage::SetLobbyOptions { from, .. } => from@ == claimed,
            SignalingMessage::StatusUpdate { client_id, .. } => client_id@ == claimed,
            SignalingMessage::Leave { client_id } => client_id@ == claimed,
            _ => false,
        },
    ensures
        after == before,
        does_nothing(step),
{
}

/// What only the server says does nothing when a client says it, and neither does
/// chat, which runs between the members.
pub proof fn messages_of_the_server_do_nothing(
    before: session::WorldView,
    after: session::WorldView,
    connection: Session,
    settings: Settings,
    message: SignalingMessage,
    draws: lobby::DrawsView,
    now: u64,
    step: Step,
)
    requires
        session::frame_ok(
            before,
            after,
            connection,
            settings,
            Frame::Message(message),
            draws,
            now,
            step,
        ),
        within_rate(connection, now),
        before.registered is None || is_live(before, connection),
        validation::message_ok(message),
        match message {
            SignalingMessage::ServerChallenge { .. } => true,
            SignalingMessage::RegisterSuccess { .. } => true,
            SignalingMessage::ChatTokenRotated { .. } => true,
            SignalingMessage::RegisterError { .. } => true,
            SignalingMessage::VersionTooOld { .. } => true,
            SignalingMessage::PlayersList { .. } => true,
            SignalingMessage::PlayerJoined { .. } => true,
            SignalingMessage::PlayerLeft { .. } => true,
            SignalingMessage::Pong => true,
            SignalingMessage::Kicked { .. } => true,
            SignalingMessage::PlayerMuteChanged { .. } => true,
            SignalingMessage::HostChanged { .. } => true,
            SignalingMessage::LobbyOptionsChanged { .. } => true,
            SignalingMessage::PublicLobbyListResponse { .. } => true,
            SignalingMessage::CommunityNodeListResponse { .. } => true,
            SignalingMessage::CommunityNodeSubmitResult { .. } => true,
            SignalingMessage::ChatMessage { .. } => true,
            _ => false,
        },
    ensures
        after == before,
        does_nothing(step),
{
}

/// What a client asks for is answered on its own connection, and changes nothing.
pub proof fn requests_are_answered(
    before: session::WorldView,
    after: session::WorldView,
    connection: Session,
    settings: Settings,
    message: SignalingMessage,
    draws: lobby::DrawsView,
    now: u64,
    step: Step,
)
    requires
        session::frame_ok(
            before,
            after,
            connection,
            settings,
            Frame::Message(message),
            draws,
            now,
            step,
        ),
        within_rate(connection, now),
        before.registered is None || is_live(before, connection),
        validation::message_ok(message),
    ensures
        match message {
            SignalingMessage::Ping => {
                &&& after == before
                &&& step.next == Next::Continue
                &&& step.actions@ == seq![Action::Reply(SignalingMessage::Pong)]
            },
            SignalingMessage::PlayersListRequest => {
                &&& after == before
                &&& match before.registered {
                    Some(r) => {
                        &&& step.next == Next::Continue
                        &&& step.actions@.len() == 1
                        &&& step.actions@[0] matches Action::ReplyRoster { lobby, except }
                        &&& lobby@ == r.lobby_id
                        &&& except@ == r.client_id
                    },
                    None => step.next == Next::Break && step.actions@.len() == 0,
                }
            },
            SignalingMessage::CommunityNodeListRequest => {
                &&& after == before
                &&& step.next == Next::Continue
                &&& step.actions@ == seq![Action::ReplyNodes]
            },
            SignalingMessage::CommunityNodeSubmit { name, address, submitter } => {
                &&& after == before
                &&& step.next == Next::Continue
                &&& step.actions@ == seq![Action::SubmitNode { name, address, submitter }]
            },
            SignalingMessage::Leave { client_id } => before.registered matches Some(r) && r.client_id
                == client_id@ ==> after == before && step.next == Next::Break
                && step.actions@.len() == 0,
            _ => true,
        },
{
}

/// The public list names every public lobby, and nothing that is not public: each
/// entry says what its lobby is like, and no lobby stands on the list twice.
pub proof fn the_public_list_is_what_is_public(
    before: session::WorldView,
    after: session::WorldView,
    connection: Session,
    settings: Settings,
    message: SignalingMessage,
    draws: lobby::DrawsView,
    now: u64,
    step: Step,
    id: Seq<char>,
    i: int,
)
    requires
        session::frame_ok(
            before,
            after,
            connection,
            settings,
            Frame::Message(message),
            draws,
            now,
            step,
        ),
        within_rate(connection, now),
        before.registered is None || is_live(before, connection),
        message is PublicLobbyListRequest,
        0 <= i,
    ensures
        after == before,
        step.next == Next::Continue,
        step.actions@.len() == 1,
        ({
            &&& step.actions@[0] matches Action::Reply(
                SignalingMessage::PublicLobbyListResponse { lobbies },
            )
            &&& before.hub.lobbies.contains_key(id) && before.hub.lobbies[id].is_public
                ==> exists|k: int|
                0 <= k < lobbies@.len() && #[trigger] describes_lobby(
                    lobbies@[k],
                    before.hub.lobbies[id],
                )
            &&& i < lobbies@.len() ==> exists|l: Seq<char>| #[trigger]
                before.hub.lobbies.contains_key(l) && before.hub.lobbies[l].is_public
                    && describes_lobby(lobbies@[i], before.hub.lobbies[l])
            &&& lobbies@.len() == before.hub.lobbies.dom().filter(
                |l: Seq<char>| before.hub.lobbies[l].is_public,
            ).len()
        }),
{
    let lobbies = step.actions@[0]->Reply_0->lobbies;
    let ids = choose|ids: Seq<Seq<char>>| #[trigger]
        moderation::is_public_list_of(lobbies@, ids, before.hub);
    if before.hub.lobbies.contains_key(id) && before.hub.lobbies[id].is_public {
        let k = choose|k: int| 0 <= k < ids.len() && ids[k] == id;
        assert(before.hub.lobbies.contains_key(ids[k]));
        assert(describes_lobby(lobbies@[k], before.hub.lobbies[id]));
    }
    if i < lobbies@.len() {
        assert(before.hub.lobbies.contains_key(ids[i]));
        assert(describes_lobby(lobbies@[i], before.hub.lobbies[ids[i]]));
    }
    let shown = before.hub.lobbies.dom().filter(|l: Seq<char>| before.hub.lobbies[l].is_public);
    assert(ids.to_set() =~= shown) by {
        assert forall|l: Seq<char>| ids.to_set().contains(l) == shown.contains(l) by {
            if ids.contains(l) {
                let k = choose|k: int| 0 <= k < ids.len() && ids[k] == l;
                assert(before.hub.lobbies.contains_key(ids[k]));
            }
            if shown.contains(l) {
                assert(before.hub.lobbies.contains_key(l));
            }
        }
    }
    ids.unique_seq_to_set();
}

/// An entry of the public list, field by field.
pub open spec fn describes_lobby(
    info: PublicLobbyInfo,
    lobby: state::LobbyView,
) -> bool {
    &&& info.lobby_name@ == lobby.lobby_name
    &&& info.player_count == lobby.clients.dom().len()
    &&& info.max_players == lobby.max_players
    &&& info.host_name@ == lobby.clients[lobby.host_id].player_name
    &&& info.description@ == lobby.description
    &&& info.server_node@ == lobby.server_node
}

/// A message that is out of bounds ends its connection with an error, and so does
/// a text that is no message; a close frame ends it, and other frames do nothing.
pub proof fn frames_that_are_no_message(
    before: session::WorldView,
    after: session::WorldView,
    connection: Session,
    settings: Settings,
    frame: Frame,
    draws: lobby::DrawsView,
    now: u64,
    step: Step,
)
    requires
        session::frame_ok(before, after, connection, settings, frame, draws, now, step),
        within_rate(connection, now),
        before.registered is None || is_live(before, connection),
    ensures
        match frame {
            Frame::Message(message) => !validation::message_ok(message) ==> after == before
                && refuses(step, "信令字段无效或超出长度限制"@),
            Frame::Close => after == before && step.actions@.len() == 0 && step.next == Next::Break,
            Frame::Other => after == before && does_nothing(step),
            Frame::Unreadable(error) => after == before && refuses(
                step,
                if exists|k: int| #[trigger] text::occurs_at(error@, "unknown variant"@, k) {
                    "不支持的信令消息类型"@
                } else if before.registered is None {
                    "请先使用 register-v3 完成注册"@
                } else {
                    "信令消息格式无效"@
                },
            ),
        },
{
    if let Frame::Unreadable(error) = frame {
        let pattern = "unknown variant"@;
        if exists|k: int| #[trigger] text::occurs_at(error@, pattern, k) {
            let k = choose|k: int| #[trigger] text::occurs_at(error@, pattern, k);
            text_laws::a_text_that_occurs_is_found(error@, pattern, 0, k);
        } else {
            text::lemma_find_from_bounds(error@, pattern, 0);
        }
    }
}

/// A connection is closed that sends more than 120 messages in ten seconds, or
/// whose member is reached by another connection or session by now.
pub proof fn floods_and_stale_connections_are_closed(
    before: session::WorldView,
    after: session::WorldView,
    connection: Session,
    settings: Settings,
    frame: Frame,
    draws: lobby::DrawsView,
    now: u64,
    step: Step,
)
    requires
        session::frame_ok(before, after, connection, settings, frame, draws, now, step),
        !within_rate(connection, now) || before.registered is Some && !is_live(before, connection),
    ensures
        after == before,
        step.actions@ == seq![Action::Close],
        step.next == Next::Break,
{
}

/// Each frame within the rate counts as one; a new window begins ten seconds after
/// the last one began, and takes in the frame that finds it over.
pub proof fn every_frame_counts_once(before: Session, after: Session, now: u64)
    requires
        session::counted_connection(before, after, now),
        before.rate.messages <= 120,
    ensures
        after.rate.messages <= 120,
        ({
            let over = now - before.rate.window_started >= 10_000_000_000;
            &&& over ==> after.rate.messages == 1 && after.rate.window_started == now
            &&& !over ==> after.rate.window_started == before.rate.window_started
            &&& !over && before.rate.messages < 120 ==> after.rate.messages == before.rate.messages
                + 1
            &&& !over && before.rate.messages == 120 ==> after.rate.messages == 120
        }),
        after.source_ip == before.source_ip,
        after.sender == before.sender,
        after.challenge == before.challenge,
{
}

} // verus!
