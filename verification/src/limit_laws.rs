//! How often something may be done, and how long it is remembered.
use vstd::prelude::*;
use crate::ip::IpAddr;
use crate::limiter::{OutboundBudget, SubmitQuota};
use crate::lobby;
use crate::lobby::JoinDecision;
use crate::number;
use crate::password_failures;
use crate::protocol::SignalingMessage;
use crate::registration::Settings;
use crate::session;
use crate::session::{Frame, Session, Step};
use crate::state;

verus! {

/// Moments in the order in which they came.
pub open spec fn in_order(s: Seq<u64>) -> bool {
    forall|i: int, j: int| 0 <= i <= j < s.len() ==> #[trigger] s[i] <= #[trigger] s[j]
}

proof fn lemma_fresh(s: Seq<u64>, now: u64) -> (k: int)
    requires
        in_order(s),
    ensures
        0 <= k <= s.len(),
        password_failures::fresh(s, now) == s.skip(k),
        forall|i: int| 0 <= i < k ==> now - #[trigger] s[i] > 300_000_000_000,
        forall|i: int| k <= i < s.len() ==> now - #[trigger] s[i] <= 300_000_000_000,
    decreases s.len(),
{
    if s.len() > 0 && password_failures::is_expired(s[0], now) {
        let rest = s.drop_first();
        assert forall|i: int, j: int| 0 <= i <= j < rest.len() implies #[trigger] rest[i]
            <= #[trigger] rest[j] by {
            assert(s[i + 1] <= s[j + 1]);
        }
        let k = lemma_fresh(rest, now);
        assert(rest.skip(k) =~= s.skip(k + 1));
        assert forall|i: int| 0 <= i < k + 1 implies now - #[trigger] s[i] > 300_000_000_000 by {
            if i > 0 {
                assert(s[i] == rest[i - 1]);
            }
        }
        assert forall|i: int| k + 1 <= i < s.len() implies now - #[trigger] s[i]
            <= 300_000_000_000 by {
            assert(s[i] == rest[i - 1]);
        }
        k + 1
    } else {
        assert(s.skip(0) =~= s);
        assert forall|i: int| 0 <= i < s.len() implies now - #[trigger] s[i] <= 300_000_000_000 by {
            assert(s[0] <= s[i]);
        }
        0
    }
}

/// A source is locked out of a lobby exactly when its fifth-last wrong password
/// there is at most five minutes old.
pub proof fn five_failures_in_five_minutes_lock_out(
    m: password_failures::FailureMap,
    key: (IpAddr, Seq<char>),
    now: u64,
)
    requires
        m.contains_key(key) ==> in_order(m[key]),
    ensures
        password_failures::locked(m, key, now) <==> m.contains_key(key) && m[key].len() >= 5 && now
            - m[key][m[key].len() - 5] <= 300_000_000_000,
{
    if m.contains_key(key) {
        let s = m[key];
        let k = lemma_fresh(s, now);
        if s.len() >= 5 {
            let i = s.len() - 5;
            assert(k <= i <==> now - s[i] <= 300_000_000_000);
        }
    }
}

/// A wrong password is remembered for its source and lobby with the moment it came,
/// unless five are remembered already. Of the others nothing is forgotten that is
/// at most five minutes old, unless the table has 4096 entries: the new entry then
/// takes the place of one whose last failure is the oldest.
pub proof fn wrong_passwords_are_remembered(
    before: password_failures::FailureMap,
    after: password_failures::FailureMap,
    key: (IpAddr, Seq<char>),
    now: u64,
    other: (IpAddr, Seq<char>),
)
    requires
        password_failures::recorded(before, after, key, now),
        other != key,
    ensures
        after.contains_key(key),
        ({
            let m = password_failures::pruned(before, now);
            let old_failures = if m.contains_key(key) {
                m[key]
            } else {
                Seq::empty()
            };
            let has_room = m.contains_key(key) || m.dom().len() < 4096;
            &&& old_failures.len() < 5 ==> after[key] == old_failures.push(now)
            &&& old_failures.len() >= 5 ==> after[key] == old_failures
            &&& after.contains_key(other) ==> m.contains_key(other) && after[other] == m[other]
            &&& has_room ==> (after.contains_key(other) <==> m.contains_key(other))
            &&& m.contains_key(other) && !after.contains_key(other) ==> !has_room && forall|
                k: (IpAddr, Seq<char>),
            | #[trigger]
                m.contains_key(k) ==> m[other].last() <= m[k].last()
            &&& !has_room ==> exists|gone: (IpAddr, Seq<char>)| #[trigger]
                m.contains_key(gone) && gone != key && !after.contains_key(gone)
        }),
{
    let m = password_failures::pruned(before, now);
    if !m.contains_key(key) && m.dom().len() >= 4096 {
        let oldest = choose|oldest: (IpAddr, Seq<char>)| #[trigger]
            password_failures::is_oldest(m, oldest) && after == password_failures::with_failure(
                m.remove(oldest),
                key,
                now,
            );
        assert(m.contains_key(oldest));
    }
}

/// What is at most five minutes old stays in the table, and what is older leaves it.
pub proof fn failures_are_forgotten_after_five_minutes(
    m: password_failures::FailureMap,
    key: (IpAddr, Seq<char>),
    now: u64,
    i: int,
)
    requires
        m.contains_key(key),
        in_order(m[key]),
        0 <= i < m[key].len(),
    ensures
        ({
            let left = password_failures::pruned(m, now);
            let old_moments = m[key];
            &&& now - old_moments[i] <= 300_000_000_000 ==> left.contains_key(key)
                && left[key].len() >= old_moments.len() - i && left[key][left[key].len()
                - old_moments.len() + i] == old_moments[i]
            &&& now - old_moments[i] > 300_000_000_000 && left.contains_key(key)
                ==> left[key].len() < old_moments.len() - i
            &&& now - old_moments.last() > 300_000_000_000 ==> !left.contains_key(key)
        }),
{
    let k = lemma_fresh(m[key], now);
    assert(m[key].last() == m[key][m[key].len() - 1]);
}

/// The right password clears the record of its source at the lobby, whether or not
/// the candidate then gets in, and of no one else; a wrong one is recorded; and a
/// candidate that is refused before its password is looked at leaves the record as
/// it was, but for what has run out.
pub proof fn the_right_password_clears_the_record(
    before: password_failures::FailureMap,
    after: password_failures::FailureMap,
    decision: JoinDecision,
    key: (IpAddr, Seq<char>),
    now: u64,
    other: (IpAddr, Seq<char>),
)
    requires
        lobby::failures_after_join(before, after, decision, key, now),
        other != key,
    ensures
        ({
            let m = password_failures::pruned(before, now);
            match decision {
                JoinDecision::Elsewhere => after == before,
                JoinDecision::Locked => after == m,
                JoinDecision::Found => after == m,
                JoinDecision::WrongPassword => after.contains_key(key) && after[key].len() > 0,
                JoinDecision::AddressTaken => !after.contains_key(key) && (after.contains_key(other)
                    <==> m.contains_key(other)) && after[other] == m[other],
                JoinDecision::Full => !after.contains_key(key) && (after.contains_key(other)
                    <==> m.contains_key(other)) && after[other] == m[other],
                JoinDecision::Join => !after.contains_key(key) && (after.contains_key(other)
                    <==> m.contains_key(other)) && after[other] == m[other],
            }
        }),
{
}

/// A connection is sent at most 64 frames and 1 MiB in each second; a frame that
/// would be too much is not counted. A second that is over begins anew.
pub proof fn frames_are_sent_within_the_budget(
    before: OutboundBudget,
    after: OutboundBudget,
    bytes: usize,
    now: u64,
    allowed: bool,
)
    requires
        allowed == before.at(now).fits(bytes),
        after == if allowed {
            before.at(now).counted(bytes)
        } else {
            before.at(now)
        },
    ensures
        ({
            let over = now - before.window_started >= 1_000_000_000;
            let frames: int = if over {
                0
            } else {
                before.frames as int
            };
            let sent: int = if over {
                0
            } else {
                before.bytes as int
            };
            &&& allowed <==> frames < 64 && sent + bytes <= 1_048_576
            &&& after.window_started == if over {
                now
            } else {
                before.window_started
            }
            &&& after.frames == frames + if allowed {
                1int
            } else {
                0
            }
            &&& after.bytes == sent + if allowed {
                bytes as int
            } else {
                0
            }
        }),
{
}

/// A source submits at most eight nodes in ten minutes; a submission that would be
/// too much is not counted.
pub proof fn submissions_are_within_the_quota(before: SubmitQuota, now: u64)
    requires
        before.submissions <= 8,
    ensures
        ({
            let over = now - before.window_started >= 600_000_000_000;
            let made: int = if over {
                0
            } else {
                before.submissions as int
            };
            let after = before.asked(now);
            &&& before.allows(now) <==> made < 8
            &&& after.submissions == if made < 8 {
                made + 1
            } else {
                8
            }
            &&& after.window_started == if over {
                now
            } else {
                before.window_started
            }
        }),
{
}

/// The text is `n` digits of a hexadecimal number in small letters.
pub open spec fn is_hex_of(s: Seq<char>, n: nat) -> bool {
    s.len() == n && forall|i: int|
        0 <= i < s.len() ==> (48 <= (#[trigger] s[i]) as u32 <= 57 || 97 <= s[i] as u32 <= 102)
}

proof fn lemma_hex_of(s: Seq<char>)
    requires
        number::is_lower_hex(s),
    ensures
        is_hex_of(s, s.len()),
{
    assert forall|i: int| 0 <= i < s.len() implies (48 <= (#[trigger] s[i]) as u32 <= 57 || 97
        <= s[i] as u32 <= 102) by {
        assert(number::is_lower_hex_char(s[i]));
        lemma_hex_char(s[i]);
    }
}

proof fn lemma_hex_char(c: char)
    ensures
        number::is_lower_hex_char(c) <==> (48 <= c as u32 <= 57 || 97 <= c as u32 <= 102),
{
}

/// Whatever a frame leads to, a credential that changes becomes 32 random bytes in
/// hexadecimal digits, a new lobby is salted with 16, and a new session has a
/// generation of sixteen digits.
pub proof fn secrets_are_drawn(
    before: session::WorldView,
    after: session::WorldView,
    connection: Session,
    settings: Settings,
    frame: Frame,
    draws: lobby::DrawsView,
    now: u64,
    step: Step,
    id: Seq<char>,
    member: Seq<char>,
)
    requires
        state::hub_wf(before.hub),
        session::frame_ok(before, after, connection, settings, frame, draws, now, step),
        session::needs_draws(frame) ==> session::draws_fresh(draws),
        after.hub.lobbies.contains_key(id),
        after.hub.lobbies[id].clients.contains_key(member),
    ensures
        ({
            let old_lobby = before.hub.lobbies[id];
            let lobby = after.hub.lobbies[id];
            let was_there = before.hub.lobbies.contains_key(id);
            &&& !was_there || lobby.chat_token != old_lobby.chat_token ==> is_hex_of(
                lobby.chat_token,
                64,
            )
            &&& !was_there || lobby.password_salt != old_lobby.password_salt ==> is_hex_of(
                lobby.password_salt,
                32,
            )
            &&& !was_there || !old_lobby.clients.contains_key(member)
                || lobby.clients[member].session_generation
                != old_lobby.clients[member].session_generation ==> 1_000_000_000_000_000
                <= lobby.clients[member].session_generation <= 9_000_000_000_000_000
        }),
{
    if session::needs_draws(frame) {
        lemma_hex_of(draws.salt);
        lemma_hex_of(draws.token);
    }
    if let Frame::Message(message) = frame {
        if message is SetLobbyOptions || message is MutePlayer || message is TransferHost {
            lemma_management_keeps_secrets(
                before,
                after,
                connection,
                settings,
                message,
                draws,
                now,
                step,
                id,
            );
        }
    }
}

proof fn lemma_management_keeps_secrets(
    before: session::WorldView,
    after: session::WorldView,
    connection: Session,
    settings: Settings,
    message: SignalingMessage,
    draws: lobby::DrawsView,
    now: u64,
    step: Step,
    id: Seq<char>,
)
    requires
        state::hub_wf(before.hub),
        session::frame_ok(
            before,
            after,
            connection,
            settings,
            Frame::Message(message),
            draws,
            now,
            step,
        ),
        message is SetLobbyOptions || message is MutePlayer || message is TransferHost,
    ensures
        after.hub.lobbies.contains_key(id) == before.hub.lobbies.contains_key(id),
        after.hub.lobbies.contains_key(id) ==> after.hub.lobbies[id].chat_token
            == before.hub.lobbies[id].chat_token && after.hub.lobbies[id].password_salt
            == before.hub.lobbies[id].password_salt && after.hub.lobbies[id].clients
            == before.hub.lobbies[id].clients,
{
}

} // verus!
