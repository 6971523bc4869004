//! What settings, versions and delivered texts come to.
use vstd::prelude::*;
use crate::config;
use crate::delivery;
use crate::ip;
use crate::json;
use crate::number;
use crate::number_laws;
use crate::security;
use crate::state;
use crate::text;
use crate::text_laws;

verus! {

// ---------------------------------------------------------------------------
// Settings
// ---------------------------------------------------------------------------
/// A setting counts without the white space around it, and where it is unset or
/// blank the default does.
pub proof fn blank_settings_are_unset(value: Option<&str>, default: Seq<char>)
    ensures
        value is None ==> config::setting_or(value, default) == default,
        value matches Some(raw) ==> {
            &&& text_laws::is_blank(raw@) ==> config::setting_or(value, default) == default
            &&& !text_laws::is_blank(raw@) ==> exists|a: int, b: int| #[trigger]
                text_laws::is_core(raw@, a, b) && a < b && config::setting_or(value, default)
                    == raw@.subrange(a, b)
        },
{
    if let Some(raw) = value {
        text_laws::trimming_cuts_white_space_at_both_ends(raw@);
        text_laws::trimming_leaves_nothing_of_blank_texts(raw@);
        let (a, b) = choose|a: int, b: int| #[trigger]
            text_laws::is_core(raw@, a, b) && text::trimmed(raw@) == raw@.subrange(a, b);
        assert(text_laws::is_core(raw@, a, b));
    }
}

/// A number that is set counts where it is written in digits, is not zero, and fits
/// the machine; else the setting is as good as unset.
pub proof fn settings_are_positive_numbers(value: Option<&str>, n: nat)
    ensures
        value is None ==> config::positive_setting(value) is None,
        value matches Some(raw) ==> {
            let written = text::trimmed(raw@);
            &&& written == number::decimal(n) && 0 < n <= usize::MAX ==> config::positive_setting(
                value,
            ) == Some(n)
            &&& written == number::decimal(n) && (n == 0 || n > usize::MAX)
                ==> config::positive_setting(value) is None
            &&& config::positive_setting(value) matches Some(m) ==> 0 < m <= usize::MAX && (
            number_laws::is_digits(written) || written[0] == '+' && number_laws::is_digits(
                written.skip(1),
            ))
        },
{
    number::lemma_decimal_reads_back(n);
    if let Some(raw) = value {
        let written = text::trimmed(raw@);
        if config::positive_setting(value) is Some {
            let digits = number::unsigned_digits(written);
            if written.len() > 0 && written[0] == '+' {
                assert(written =~= seq!['+'] + digits);
            }
            number_laws::numbers_are_digits_after_a_plus(written, digits, usize::MAX as nat);
        }
    }
}

/// A switch is on where it says 1, true, yes or on, in small letters, capitals or
/// both.
pub proof fn switches_say_what_turns_them_on(setting: Seq<char>)
    requires
        text::is_ascii_text(setting),
    ensures
        config::is_switched_on(setting) <==> {
            ||| setting == seq!['1']
            ||| is_spelling(setting, seq!['t', 'r', 'u', 'e'], seq!['T', 'R', 'U', 'E'])
            ||| is_spelling(setting, seq!['y', 'e', 's'], seq!['Y', 'E', 'S'])
            ||| is_spelling(setting, seq!['o', 'n'], seq!['O', 'N'])
        },
{
    reveal_strlit("1");
    reveal_strlit("true");
    reveal_strlit("yes");
    reveal_strlit("on");
    let lower = text::lowercase(setting);
    assert("1"@ =~= seq!['1']);
    assert("true"@ =~= seq!['t', 'r', 'u', 'e']);
    assert("yes"@ =~= seq!['y', 'e', 's']);
    assert("on"@ =~= seq!['o', 'n']);
    assert forall|i: int| 0 <= i < setting.len() implies #[trigger] lower[i]
        == text::ascii_lower_char(setting[i]) by {}
    lemma_spelling(setting, seq!['t', 'r', 'u', 'e'], seq!['T', 'R', 'U', 'E']);
    lemma_spelling(setting, seq!['y', 'e', 's'], seq!['Y', 'E', 'S']);
    lemma_spelling(setting, seq!['o', 'n'], seq!['O', 'N']);
    lemma_spelling(setting, seq!['1'], seq!['1']);
    if is_spelling(setting, seq!['1'], seq!['1']) {
        assert(setting =~= seq!['1']);
    }
    if setting == seq!['1'] {
        assert(is_spelling(setting, seq!['1'], seq!['1']));
    }
}

/// Each letter of the text is that of the one word or that of the other.
pub open spec fn is_spelling(s: Seq<char>, small: Seq<char>, capital: Seq<char>) -> bool {
    s.len() == small.len() && forall|i: int|
        0 <= i < s.len() ==> (#[trigger] s[i] == small[i] || s[i] == capital[i])
}

proof fn lemma_spelling(s: Seq<char>, small: Seq<char>, capital: Seq<char>)
    requires
        text::is_ascii_text(s),
        small.len() == capital.len(),
        forall|i: int|
            0 <= i < small.len() ==> (#[trigger] small[i]) as u32 <= 127 && ((97 <= small[i] as u32
                <= 122 && capital[i] as u32 == small[i] as u32 - 32) || (capital[i] == small[i]
                && !(65 <= small[i] as u32 <= 90) && !(97 <= small[i] as u32 <= 122))),
    ensures
        text::lowercase(s) == small <==> is_spelling(s, small, capital),
{
    let lower = text::lowercase(s);
    if lower == small {
        assert forall|i: int| 0 <= i < s.len() implies (#[trigger] s[i] == small[i] || s[i]
            == capital[i]) by {
            assert(lower[i] == small[i]);
            lemma_letter(s[i], small[i], capital[i]);
        }
    }
    if is_spelling(s, small, capital) {
        assert forall|i: int| 0 <= i < s.len() implies #[trigger] lower[i] == small[i] by {
            assert(s[i] == small[i] || s[i] == capital[i]);
            lemma_letter(s[i], small[i], capital[i]);
        }
        assert(lower =~= small);
    }
}

proof fn lemma_letter(c: char, small: char, capital: char)
    requires
        small as u32 <= 127,
        (97 <= small as u32 <= 122 && capital as u32 == small as u32 - 32) || (capital == small && !(
        65 <= small as u32 <= 90) && !(97 <= small as u32 <= 122)),
    ensures
        text::ascii_lower_char(c) == small <==> c == small || c == capital,
{
}

// ---------------------------------------------------------------------------
// Versions
// ---------------------------------------------------------------------------
/// Three numbers with dots between them.
pub open spec fn version_text(a: nat, b: nat, c: nat) -> Seq<char> {
    text_laws::put_together(seq![number::decimal(a), number::decimal(b), number::decimal(c)], '.')
}

proof fn lemma_short(n: nat)
    requires
        n <= u32::MAX,
    ensures
        number::decimal(n).len() <= 10,
{
    reveal_with_fuel(number::decimal, 11);
}

proof fn lemma_version(a: nat, b: nat, c: nat)
    requires
        a <= u32::MAX,
        b <= u32::MAX,
        c <= u32::MAX,
    ensures
        config::version_of(version_text(a, b, c)) == Some((a, b, c)),
{
    let x = number::decimal(a);
    let y = number::decimal(b);
    let z = number::decimal(c);
    let p = seq![x, y, z];
    let s = version_text(a, b, c);
    reveal_with_fuel(text_laws::put_together, 3);
    assert(p.drop_first()[0] == y && p.drop_first().drop_first()[0] == z);
    assert(s == x + seq!['.'] + (y + seq!['.'] + z));
    number::lemma_decimal_reads_back(a);
    number::lemma_decimal_reads_back(b);
    number::lemma_decimal_reads_back(c);
    lemma_short(a);
    lemma_short(b);
    lemma_short(c);
    lemma_no_dot(x);
    lemma_no_dot(y);
    lemma_no_dot(z);
    ip::lemma_split_head(x, y + seq!['.'] + z, '.');
    ip::lemma_split_head(y, z, '.');
    ip::lemma_split_none(z, '.');
    assert(text::split_text(s, '.') =~= seq![x, y, z]);
    assert forall|i: int| 0 <= i < s.len() implies (#[trigger] s[i]) as u32 <= 0x7f by {
        if i < x.len() {
            lemma_digit_code(x[i]);
        } else if x.len() < i < x.len() + 1 + y.len() {
            lemma_digit_code(y[i - x.len() - 1]);
        } else if i > x.len() + 1 + y.len() {
            lemma_digit_code(z[i - x.len() - y.len() - 2]);
        }
    }
    text::lemma_utf8_len(s);
}

proof fn lemma_digit_code(c: char)
    ensures
        number::is_digit_char(c) ==> c as u32 <= 0x7f,
{
}

proof fn lemma_no_dot(s: Seq<char>)
    requires
        number::all_digits(s),
    ensures
        !s.contains('.'),
{
    if s.contains('.') {
        let i = choose|i: int| 0 <= i < s.len() && s[i] == '.';
        assert(number::is_digit_char(s[i]));
    }
}

/// Versions are compared by their first number, then the second, then the third,
/// and one that equals the minimum is new enough.
pub proof fn versions_are_compared_number_by_number(
    a: nat,
    b: nat,
    c: nat,
    least_a: nat,
    least_b: nat,
    least_c: nat,
)
    requires
        a <= u32::MAX && b <= u32::MAX && c <= u32::MAX,
        least_a <= u32::MAX && least_b <= u32::MAX && least_c <= u32::MAX,
    ensures
        config::version_accepted(version_text(a, b, c), version_text(least_a, least_b, least_c))
            <==> if a != least_a {
            a > least_a
        } else if b != least_b {
            b > least_b
        } else {
            c >= least_c
        },
{
    lemma_version(a, b, c);
    lemma_version(least_a, least_b, least_c);
}

/// What is accepted as a version is three numbers in at most 32 bytes.
pub proof fn only_versions_are_accepted(version: Seq<char>, minimum: Seq<char>)
    requires
        config::version_accepted(version, minimum),
    ensures
        text::utf8_len(version) <= 32,
        text::split_text(version, '.').len() == 3,
        forall|i: int|
            0 <= i < 3 ==> (number::unsigned_up_to(
                #[trigger] text::split_text(version, '.')[i],
                u32::MAX as nat,
            ) is Some),
{
}

// ---------------------------------------------------------------------------
// Delivered texts
// ---------------------------------------------------------------------------
/// The sender of a message is what `from` names, also where that is no text; only
/// where there is no `from`, it is what `clientId` names.
pub proof fn from_goes_before_client_id(raw: Seq<char>, members: Map<Seq<char>, Seq<char>>)
    requires
        json::json_contents(raw) == Some(members),
    ensures
        members.contains_key("from"@) ==> json::json_sender(raw) == json::json_string_value(
            members["from"@],
        ),
        !members.contains_key("from"@) && members.contains_key("clientId"@) ==> json::json_sender(
            raw,
        ) == json::json_string_value(members["clientId"@]),
        !members.contains_key("from"@) && !members.contains_key("clientId"@) ==> json::json_sender(
            raw,
        ) is None,
{
}

/// A text that is no object names no sender, and is delivered as it is.
pub proof fn texts_that_are_no_object_stay_as_they_are(
    raw: Seq<char>,
    sender: Seq<char>,
    generation: u64,
    lobby: state::LobbyView,
)
    requires
        json::json_contents(raw) is None,
    ensures
        json::json_sender(raw) is None,
        json::stamped(raw, sender, generation) == raw,
        delivery::lobby_form(lobby, raw) == raw,
{
}

/// Stamping writes the sender where the message names one, adds the session, and
/// leaves every other member as it was.
pub proof fn stamps_name_sender_and_session(
    members: Map<Seq<char>, Seq<char>>,
    sender: Seq<char>,
    generation: u64,
    key: Seq<char>,
)
    ensures
        ({
            let stamped = json::with_metadata(members, sender, generation);
            &&& stamped.contains_key("from"@) <==> members.contains_key("from"@)
            &&& stamped.contains_key("from"@) ==> stamped["from"@] == json::json_string(sender)
            &&& stamped.contains_key("clientId"@) <==> members.contains_key("clientId"@)
            &&& stamped.contains_key("clientId"@) ==> stamped["clientId"@] == json::json_string(
                sender,
            )
            &&& stamped.contains_key("sessionGeneration"@)
            &&& stamped["sessionGeneration"@] == number::decimal(generation as nat)
            &&& key != "from"@ && key != "clientId"@ && key != "sessionGeneration"@ ==> (
            stamped.contains_key(key) <==> members.contains_key(key)) && stamped[key]
                == members[key]
        }),
{
    reveal_strlit("from");
    reveal_strlit("clientId");
    reveal_strlit("sessionGeneration");
    assert("from"@.len() == 4 && "clientId"@.len() == 8 && "sessionGeneration"@.len() == 17);
}

/// What a lobby is sent is stamped with the session of the member that it names as
/// its sender, and is left alone where it names no member.
pub proof fn members_are_stamped_with_their_session(
    lobby: state::LobbyView,
    raw: Seq<char>,
    sender: Seq<char>,
    members: Map<Seq<char>, Seq<char>>,
)
    requires
        json::json_contents(raw) == Some(members),
        json::json_sender(raw) == Some(sender),
    ensures
        lobby.clients.contains_key(sender) ==> delivery::lobby_form(lobby, raw)
            == json::json_object_text(
            json::with_metadata(members, sender, lobby.clients[sender].session_generation),
        ),
        !lobby.clients.contains_key(sender) ==> delivery::lobby_form(lobby, raw) == raw,
{
}

/// Of those whom a credential is for, exactly the ones that are members through the
/// same connection are left, in their order.
pub proof fn credentials_are_left_for_those_still_there(
    targets: Seq<(String, u64)>,
    lobby: state::LobbyView,
    i: int,
    k: int,
)
    ensures
        delivery::remaining(targets, lobby).len() <= targets.len(),
        0 <= i < targets.len() && lobby.clients.contains_key(targets[i].0@)
            && lobby.clients[targets[i].0@].sender == targets[i].1 ==> delivery::remaining(
            targets,
            lobby,
        ).contains(targets[i].1),
        0 <= k < delivery::remaining(targets, lobby).len() ==> exists|j: int|
            0 <= j < targets.len() && lobby.clients.contains_key((#[trigger] targets[j]).0@)
                && lobby.clients[targets[j].0@].sender == targets[j].1 && delivery::remaining(
                targets,
                lobby,
            )[k] == targets[j].1,
    decreases targets.len(),
{
    if targets.len() > 0 {
        let shorter = targets.drop_last();
        let rest = delivery::remaining(shorter, lobby);
        let all = delivery::remaining(targets, lobby);
        credentials_are_left_for_those_still_there(shorter, lobby, i, k);
        if 0 <= i < targets.len() && lobby.clients.contains_key(targets[i].0@)
            && lobby.clients[targets[i].0@].sender == targets[i].1 {
            if i < targets.len() - 1 {
                assert(shorter[i] == targets[i]);
                let j = choose|j: int| 0 <= j < rest.len() && rest[j] == targets[i].1;
                assert(all[j] == rest[j]);
            } else {
                assert(all.last() == targets[i].1);
            }
        }
        if 0 <= k < all.len() {
            if k < rest.len() {
                let j = choose|j: int|
                    0 <= j < shorter.len() && lobby.clients.contains_key((#[trigger] shorter[j]).0@)
                        && lobby.clients[shorter[j].0@].sender == shorter[j].1 && rest[k]
                        == shorter[j].1;
                assert(targets[j] == shorter[j]);
                assert(all[k] == rest[k]);
            } else {
                assert(targets[targets.len() - 1] == targets.last());
            }
        }
    }
}

/// A credential is announced only while it is the lobby's.
pub proof fn credentials_are_announced_while_they_hold(
    hub: state::HubView,
    id: Seq<char>,
    token: Seq<char>,
    epoch: u64,
)
    ensures
        delivery::credential_current(hub, id, token, epoch) <==> {
            &&& hub.lobbies.contains_key(id)
            &&& hub.lobbies[id].chat_token == token
            &&& hub.lobbies[id].chat_token_epoch == epoch
        },
{
}

// ---------------------------------------------------------------------------
// Sessions
// ---------------------------------------------------------------------------
/// A random number gives the generation that its low 53 bits are, where these have
/// sixteen digits and are not above nine quadrillion; else it gives none.
pub proof fn generations_are_low_bits(n: u64)
    ensures
        ({
            let low = n as int % 0x20_0000_0000_0000;
            &&& 1_000_000_000_000_000 <= low <= 9_000_000_000_000_000
                ==> (security::generation_of(n) matches Some(g) && g == low)
            &&& !(1_000_000_000_000_000 <= low <= 9_000_000_000_000_000)
                ==> security::generation_of(n) is None
        }),
{
}

} // verus!
