//! Which saved addresses are loaded: those that may be submitted, and the forms
//! of those. A form writes out what a submission may leave out, so that it can be
//! longer than a submission may be.
use vstd::prelude::*;
use crate::limits::COMMUNITY_NODE_ADDRESS_MAX_LEN;
use crate::node_address;
use crate::number;
use crate::text;

verus! {

// ---------------------------------------------------------------------------
// The shortest host
// ---------------------------------------------------------------------------
/// The shortest spelling of a lower-case character: two letters take more bytes
/// in lower case than in upper case.
pub open spec fn shortest_char(c: char) -> char {
    if c == '\u{2c65}' {
        '\u{23a}'
    } else if c == '\u{2c66}' {
        '\u{23e}'
    } else {
        c
    }
}

/// The text ends in an `i` with a dot above, which is what a capital `I` with a
/// dot above is in lower case.
pub open spec fn ends_in_dotted_i(s: Seq<char>) -> bool {
    s.len() >= 2 && s[s.len() - 2] == 'i' && s.last() == '\u{307}'
}

/// The shortest spelling of a host in lower case.
pub open spec fn shortest_host(host: Seq<char>) -> Seq<char>
    decreases host.len(),
{
    if host.len() == 0 {
        host
    } else if ends_in_dotted_i(host) {
        shortest_host(host.take(host.len() - 2)).push('\u{130}')
    } else {
        shortest_host(host.drop_last()).push(shortest_char(host.last()))
    }
}

fn shorten_char(c: char) -> (r: char)
    ensures
        r == shortest_char(c),
{
    if c == '\u{2c65}' {
        '\u{23a}'
    } else if c == '\u{2c66}' {
        '\u{23e}'
    } else {
        c
    }
}

fn shorten_host(host: &[char]) -> (r: Vec<char>)
    ensures
        r@ == shortest_host(host@),
{
    let mut out: Vec<char> = Vec::new();
    let mut i: usize = 0;
    assert(host@.take(0) =~= Seq::<char>::empty());
    while i < host.len()
        invariant
            i <= host@.len(),
            out@ == shortest_host(host@.take(i as int)),
        decreases host@.len() - i,
    {
        let ghost longer = host@.take(i + 1);
        assert(longer.drop_last() =~= host@.take(i as int));
        assert(longer.last() == host@[i as int]);
        if i > 0 && host[i - 1] == 'i' && host[i] == '\u{307}' {
            let ghost earlier = host@.take(i as int);
            assert(longer.take(longer.len() - 2) =~= host@.take(i - 1));
            assert(earlier.drop_last() =~= host@.take(i - 1));
            assert(earlier.last() == 'i');
            let _ = out.pop();
            assert(out@ =~= shortest_host(host@.take(i - 1)));
            out.push('\u{130}');
        } else {
            assert(!ends_in_dotted_i(longer));
            out.push(shorten_char(host[i]));
        }
        i = i + 1;
    }
    assert(host@.take(i as int) =~= host@);
    out
}

// ---------------------------------------------------------------------------
// Spellings
// ---------------------------------------------------------------------------
/// An authority, with its host in brackets or not, and with its port or not.
pub open spec fn spelled_authority(host: Seq<char>, port: Option<u16>, brackets: bool) -> Seq<char> {
    (if brackets {
        seq!['['] + host + seq![']']
    } else {
        host
    }) + (match port {
        Some(port) => seq![':'] + number::decimal(port as nat),
        None => Seq::<char>::empty(),
    })
}

/// An address from its parts.
pub open spec fn spelled(
    scheme: Seq<char>,
    host: Seq<char>,
    port: Option<u16>,
    brackets: bool,
    path: Seq<char>,
) -> Seq<char> {
    scheme + seq![':', '/', '/'] + (spelled_authority(host, port, brackets) + path)
}

/// The address with its host in the shortest spelling, in brackets or not, and
/// with its port or not.
pub open spec fn respelled(address: Seq<char>, brackets: bool, ported: bool) -> Seq<char> {
    let (scheme, rest) = node_address::scheme_and_rest(text::trimmed(address));
    match node_address::host_port_of(address) {
        Some((host, port)) => spelled(
            scheme,
            shortest_host(host),
            if ported {
                Some(port)
            } else {
                None
            },
            brackets,
            node_address::path_of(rest),
        ),
        None => address,
    }
}

/// The spelling may be submitted, and is then filed under the given form.
pub open spec fn files_as(spelling: Seq<char>, form: Seq<char>) -> bool {
    node_address::normalized(spelling) == Ok::<Seq<char>, Seq<char>>(form)
}

/// A shorter spelling of the address may be submitted, and is then filed under
/// the address.
pub open spec fn has_submitted_spelling(address: Seq<char>) -> bool {
    ||| files_as(respelled(address, false, false), address)
    ||| files_as(respelled(address, false, true), address)
    ||| files_as(respelled(address, true, false), address)
    ||| files_as(respelled(address, true, true), address)
}

/// The form under which a saved node is filed, or why it is not loaded.
pub open spec fn loaded_form(address: Seq<char>) -> Result<Seq<char>, Seq<char>> {
    if has_submitted_spelling(address) {
        node_address::form_of(address)
    } else {
        node_address::normalized(address)
    }
}

fn spell(scheme: &str, host: &[char], port: Option<u16>, brackets: bool, path: &[char]) -> (r:
    String)
    ensures
        r@ == spelled(scheme@, host@, port, brackets, path@),
{
    let mut out = scheme.to_owned();
    out.push(':');
    out.push('/');
    out.push('/');
    if brackets {
        out.push('[');
    }
    out.append(text::text_of(host).as_str());
    if brackets {
        out.push(']');
    }
    if let Some(port) = port {
        out.push(':');
        number::push_decimal(&mut out, port as u64);
    }
    out.append(text::text_of(path).as_str());
    assert(out@ =~= spelled(scheme@, host@, port, brackets, path@));
    out
}

fn respell(address: &str, brackets: bool, ported: bool) -> (r: String)
    ensures
        r@ == respelled(address@, brackets, ported),
{
    match node_address::parse_node_host_port(address) {
        Some((host, port)) => {
            let trimmed = text::trim_chars(text::chars_of(address).as_slice());
            let (scheme, rest) = node_address::split_scheme(trimmed.as_slice());
            let host = shorten_host(text::chars_of(host.as_str()).as_slice());
            let path = node_address::path_in(rest.as_slice());
            let port = if ported {
                Some(port)
            } else {
                None
            };
            spell(scheme.as_str(), host.as_slice(), port, brackets, path.as_slice())
        },
        None => address.to_owned(),
    }
}

fn submits_as(spelling: &str, form: &str) -> (r: bool)
    ensures
        r == files_as(spelling@, form@),
{
    match node_address::normalize_community_node_address(spelling) {
        Ok(filed) => text::same_text(filed.as_str(), form),
        Err(_) => false,
    }
}

/// Gives the form under which a saved node is filed. An address that is longer
/// than a submission may be is loaded only where it is the form of a shorter
/// spelling, which is how an accepted submission is saved.
pub fn load_node_address(address: &str) -> (r: Result<String, &'static str>)
    ensures
        match r {
            Ok(form) => loaded_form(address@) == Ok::<Seq<char>, Seq<char>>(form@),
            Err(reason) => loaded_form(address@) == Err::<Seq<char>, Seq<char>>(reason@),
        },
{
    if submits_as(respell(address, false, false).as_str(), address) || submits_as(
        respell(address, false, true).as_str(),
        address,
    ) || submits_as(respell(address, true, false).as_str(), address) || submits_as(
        respell(address, true, true).as_str(),
        address,
    ) {
        node_address::form_node_address(address)
    } else {
        node_address::normalize_community_node_address(address)
    }
}

// ---------------------------------------------------------------------------
// What is loaded
// ---------------------------------------------------------------------------
/// An address that is no longer than a submission may be is loaded exactly as it
/// is accepted.
pub proof fn short_addresses_load_as_submitted(address: Seq<char>)
    requires
        text::utf8_len(text::trimmed(address)) <= COMMUNITY_NODE_ADDRESS_MAX_LEN,
    ensures
        loaded_form(address) == node_address::normalized(address),
{
}

/// Nothing is loaded that no submission yields: an address that is too long to be
/// submitted is loaded only where it is the form of one that is not.
pub proof fn long_addresses_load_as_forms(address: Seq<char>)
    requires
        text::utf8_len(text::trimmed(address)) > COMMUNITY_NODE_ADDRESS_MAX_LEN,
        loaded_form(address) is Ok,
    ensures
        exists|spelling: Seq<char>| #[trigger]
            files_as(spelling, address) && text::utf8_len(text::trimmed(spelling))
                <= COMMUNITY_NODE_ADDRESS_MAX_LEN,
{
    if files_as(respelled(address, false, false), address) {
    } else if files_as(respelled(address, false, true), address) {
    } else if files_as(respelled(address, true, false), address) {
    } else {
        assert(files_as(respelled(address, true, true), address));
    }
}

/// Nothing behind the last colon of the text reads as a port.
pub open spec fn is_port_free(s: Seq<char>) -> bool {
    let colon = text::last_index(s, ':');
    colon < 0 || number::unsigned_up_to(s.skip(colon + 1), 65535) is None
}

/// `host` can stand in an address where `written` stands.
pub open spec fn stands_for(host: Seq<char>, written: Seq<char>) -> bool {
    &&& host.len() > 0
    &&& !host.contains('/')
    &&& node_address::none_barred(host)
    &&& host.contains(']') ==> written.contains(']')
    &&& host[0] == '[' ==> written[0] == '['
    &&& is_port_free(written) ==> is_port_free(host)
}

proof fn lemma_unbarred_is_trimmed(s: Seq<char>)
    requires
        node_address::none_barred(s),
    ensures
        text::trimmed(s) == s,
{
    assert(text::trim_start(s) == s);
    assert(text::trim_end(s) == s);
}

proof fn lemma_without(a: Seq<char>, b: Seq<char>, c: char)
    requires
        !a.contains(c),
        !b.contains(c),
    ensures
        !(a + b).contains(c),
{
    assert forall|k: int| 0 <= k < (a + b).len() implies (a + b)[k] != c by {
        if k < a.len() {
            assert(a.contains(a[k]));
        } else {
            assert(b.contains(b[k - a.len()]));
        }
    }
}

proof fn lemma_authority_without_slash(host: Seq<char>, port: Option<u16>, brackets: bool)
    requires
        !host.contains('/'),
    ensures
        !spelled_authority(host, port, brackets).contains('/'),
{
    let shown = if brackets {
        seq!['['] + host + seq![']']
    } else {
        host
    };
    lemma_without(seq!['['], host, '/');
    lemma_without(seq!['['] + host, seq![']'], '/');
    match port {
        Some(port) => {
            let digits = number::decimal(port as nat);
            node_address::lemma_port_digits(port);
            assert(!digits.contains('/'));
            lemma_without(seq![':'], digits, '/');
            lemma_without(shown, seq![':'] + digits, '/');
        },
        None => {
            lemma_without(shown, Seq::empty(), '/');
        },
    }
}

proof fn lemma_bracketed(host: Seq<char>, port: Option<u16>, default: u16)
    requires
        host.len() > 0,
        !host.contains(']'),
    ensures
        spelled_authority(host, port, true).len() > 0,
        spelled_authority(host, port, true)[0] == '[',
        node_address::bracketed_host_port(spelled_authority(host, port, true).skip(1), default)
            == Some(
            (
                host,
                match port {
                    Some(port) => port,
                    None => default,
                },
            ),
        ),
{
    let inside = spelled_authority(host, port, true).skip(1);
    let n = host.len() as int;
    assert(inside.take(n) =~= host);
    assert(inside[n] == ']');
    assert forall|k: int| 0 <= k < n implies inside[k] != ']' by {
        assert(inside[k] == host[k]);
        assert(host.contains(host[k]));
    }
    text::lemma_first_index(inside, ']', n);
    let tail = inside.skip(n + 1);
    match port {
        Some(port) => {
            let digits = number::decimal(port as nat);
            node_address::lemma_port_digits(port);
            assert(tail =~= seq![':'] + digits);
            assert(tail.skip(1) =~= digits);
        },
        None => {
            assert(tail.len() == 0);
        },
    }
}

proof fn lemma_unbracketed(host: Seq<char>, port: Option<u16>, default: u16)
    requires
        host.len() > 0,
        host[0] != '[',
        port is None ==> is_port_free(host),
    ensures
        spelled_authority(host, port, false).len() > 0,
        spelled_authority(host, port, false)[0] != '[',
        node_address::plain_host_port(spelled_authority(host, port, false), default) == Some(
            (
                host,
                match port {
                    Some(port) => port,
                    None => default,
                },
            ),
        ),
{
    let authority = spelled_authority(host, port, false);
    let n = host.len() as int;
    assert(authority[0] == host[0]);
    match port {
        Some(port) => {
            let digits = number::decimal(port as nat);
            node_address::lemma_port_digits(port);
            assert(authority =~= host + (seq![':'] + digits));
            assert(authority[n] == ':');
            assert forall|k: int| n < k < authority.len() implies authority[k] != ':' by {
                assert(authority[k] == digits[k - n - 1]);
            }
            text::lemma_last_index(authority, ':', n);
            assert(authority.skip(n + 1) =~= digits);
            assert(authority.take(n) =~= host);
        },
        None => {
            assert(authority =~= host);
        },
    }
}

/// The host and port of a spelled authority.
proof fn lemma_spelled_host_port(
    scheme: Seq<char>,
    host: Seq<char>,
    port: Option<u16>,
    brackets: bool,
    path: Seq<char>,
)
    requires
        host.len() > 0,
        !host.contains('/'),
        brackets ==> !host.contains(']'),
        !brackets ==> host[0] != '[',
        !brackets && port is None ==> is_port_free(host),
        path.len() > 0 ==> path[0] == '/',
    ensures
        ({
            let rest = spelled_authority(host, port, brackets) + path;
            &&& text::first_index(rest, '/') == spelled_authority(host, port, brackets).len()
            &&& node_address::host_port_behind(scheme, rest) == Some(
                (
                    host,
                    match port {
                        Some(port) => port,
                        None => node_address::default_port(scheme),
                    },
                ),
            )
        }),
{
    let authority = spelled_authority(host, port, brackets);
    let rest = authority + path;
    lemma_authority_without_slash(host, port, brackets);
    assert forall|k: int| 0 <= k < authority.len() implies rest[k] != '/' by {
        assert(rest[k] == authority[k]);
        assert(authority.contains(authority[k]));
    }
    text::lemma_first_index(rest, '/', authority.len() as int);
    assert(rest.take(authority.len() as int) =~= authority);
    if brackets {
        lemma_bracketed(host, port, node_address::default_port(scheme));
    } else {
        lemma_unbracketed(host, port, node_address::default_port(scheme));
    }
}

/// A spelling has the form that its parts make up.
proof fn lemma_spelled_form(
    scheme: Seq<char>,
    host: Seq<char>,
    port: Option<u16>,
    brackets: bool,
    path: Seq<char>,
)
    requires
        node_address::is_node_scheme(scheme),
        host.len() > 0,
        !host.contains('/'),
        node_address::none_barred(host),
        brackets ==> !host.contains(']'),
        !brackets ==> host[0] != '[',
        !brackets && port is None ==> is_port_free(host),
        port matches Some(port) ==> port > 0,
        path.len() > 0 ==> path[0] == '/' && path.len() > 1,
        node_address::none_barred(path),
    ensures
        text::trimmed(spelled(scheme, host, port, brackets, path)) == spelled(
            scheme,
            host,
            port,
            brackets,
            path,
        ),
        node_address::form_of(spelled(scheme, host, port, brackets, path)) == Ok::<
            Seq<char>,
            Seq<char>,
        >(
            node_address::composed(
                scheme,
                text::lowercase(host),
                match port {
                    Some(port) => port,
                    None => node_address::default_port(scheme),
                },
                path,
            ),
        ),
{
    let spelling = spelled(scheme, host, port, brackets, path);
    let mark = seq![':', '/', '/'];
    let authority = spelled_authority(host, port, brackets);
    let rest = authority + path;
    let n = scheme.len() as int;
    node_address::lemma_scheme(scheme);
    lemma_spelled_barred(scheme, host, port, brackets, path);
    lemma_unbarred_is_trimmed(spelling);
    lemma_spelled_host_port(scheme, host, port, brackets, path);
    assert(spelling.subrange(n, n + 3) =~= mark);
    assert forall|k: int| 0 <= k < n implies !text::occurs_at(spelling, mark, k) by {
        if text::occurs_at(spelling, mark, k) {
            assert(spelling.subrange(k, k + 3)[0] == spelling[k]);
            assert(spelling[k] == scheme[k]);
        }
    }
    text::lemma_find_from(spelling, mark, 0, n);
    assert(spelling.take(n) =~= scheme);
    assert(spelling.skip(n + 3) =~= rest);
    assert(node_address::path_of(rest) =~= path);
}

proof fn lemma_spelled_barred(
    scheme: Seq<char>,
    host: Seq<char>,
    port: Option<u16>,
    brackets: bool,
    path: Seq<char>,
)
    requires
        node_address::is_node_scheme(scheme),
        node_address::none_barred(host),
        node_address::none_barred(path),
    ensures
        node_address::none_barred(spelled(scheme, host, port, brackets, path)),
{
    let mark = seq![':', '/', '/'];
    let shown = if brackets {
        seq!['['] + host + seq![']']
    } else {
        host
    };
    let written = match port {
        Some(port) => seq![':'] + number::decimal(port as nat),
        None => Seq::<char>::empty(),
    };
    node_address::lemma_scheme(scheme);
    if let Some(port) = port {
        node_address::lemma_port_digits(port);
        node_address::lemma_both_unbarred(seq![':'], number::decimal(port as nat));
    }
    node_address::lemma_both_unbarred(seq!['['], host);
    node_address::lemma_both_unbarred(seq!['['] + host, seq![']']);
    node_address::lemma_both_unbarred(shown, written);
    node_address::lemma_both_unbarred(shown + written, path);
    node_address::lemma_both_unbarred(scheme, mark);
    node_address::lemma_both_unbarred(scheme + mark, shown + written + path);
}

// ---------------------------------------------------------------------------
// Accepted submissions are loaded
// ---------------------------------------------------------------------------
/// The scheme of an address as it is written.
pub open spec fn written_scheme(address: Seq<char>) -> Seq<char> {
    match text::find_text(text::trimmed(address), seq![':', '/', '/']) {
        Some(k) => text::trimmed(address).take(k),
        None => Seq::empty(),
    }
}

/// The host of the address can be written in its shortest lower-case spelling, and
/// neither that nor the scheme in lower case takes more bytes than what is written.
pub open spec fn respells(address: Seq<char>) -> bool {
    let written = node_address::host_of(address);
    let host = shortest_host(text::lowercase(written));
    &&& text::lowercase(host) == text::lowercase(written)
    &&& text::utf8_len(host) <= text::utf8_len(written)
    &&& stands_for(host, written)
    &&& text::utf8_len(text::lowercase(written_scheme(address))) <= text::utf8_len(
        written_scheme(address),
    )
}

proof fn lemma_joined_len(a: Seq<char>, b: Seq<char>)
    ensures
        text::utf8_len(a + b) == text::utf8_len(a) + text::utf8_len(b),
{
    text::lemma_encode_joined(a, b);
}

proof fn lemma_digits_len(digits: Seq<char>, port: u16)
    requires
        number::unsigned_up_to(digits, 65535) == Some(port as nat),
    ensures
        text::utf8_len(number::decimal(port as nat)) <= text::utf8_len(digits),
{
    let plain = number::unsigned_digits(digits);
    number::lemma_decimal_is_shortest(plain);
    number::lemma_decimal_reads_back(port as nat);
    let shortest = number::decimal(port as nat);
    assert forall|i: int| 0 <= i < shortest.len() implies (#[trigger] shortest[i]) as u32 <= 0x7f by {
        assert(number::is_digit_char(shortest[i]));
    }
    text::lemma_utf8_len(shortest);
    text::lemma_utf8_len(digits);
}

/// How long a spelled authority is.
proof fn lemma_authority_len(host: Seq<char>, port: Option<u16>, brackets: bool)
    ensures
        text::utf8_len(spelled_authority(host, port, brackets)) == text::utf8_len(host) + (if brackets {
            2int
        } else {
            0
        }) + (match port {
            Some(port) => 1 + text::utf8_len(number::decimal(port as nat)),
            None => 0,
        }),
{
    let shown = if brackets {
        seq!['['] + host + seq![']']
    } else {
        host
    };
    lemma_joined_len(seq!['['], host);
    lemma_joined_len(seq!['['] + host, seq![']']);
    text::lemma_utf8_len(seq!['[']);
    text::lemma_utf8_len(seq![']']);
    text::lemma_utf8_len(seq![':']);
    text::lemma_utf8_len(Seq::empty());
    match port {
        Some(port) => {
            let digits = number::decimal(port as nat);
            lemma_joined_len(seq![':'], digits);
            lemma_joined_len(shown, seq![':'] + digits);
        },
        None => {
            lemma_joined_len(shown, Seq::empty());
        },
    }
}

/// The authority as a shorter spelling writes it: whether in brackets, and whether
/// with the port.
proof fn lemma_shorter_authority(
    authority: Seq<char>,
    default: u16,
    host: Seq<char>,
    port: u16,
    short: Seq<char>,
) -> (r: (bool, bool))
    requires
        authority.len() > 0,
        (if authority[0] == '[' {
            node_address::bracketed_host_port(authority.skip(1), default)
        } else {
            node_address::plain_host_port(authority, default)
        }) == Some((host, port)),
        stands_for(short, host),
        text::utf8_len(short) <= text::utf8_len(host),
    ensures
        r.0 ==> !short.contains(']'),
        !r.0 ==> short[0] != '[',
        !r.0 && !r.1 ==> is_port_free(short),
        !r.1 ==> port == default,
        ({
            let written = if r.1 {
                Some(port)
            } else {
                None
            };
            text::utf8_len(spelled_authority(short, written, r.0)) <= text::utf8_len(authority)
        }),
{
    if authority[0] == '[' {
        let inside = authority.skip(1);
        let end = text::first_index(inside, ']');
        let tail = inside.skip(end + 1);
        text::lemma_first_index_bounds(inside, ']');
        assert(!host.contains(']'));
        assert(authority =~= seq!['['] + host + seq![']'] + tail);
        lemma_joined_len(seq!['['], host);
        lemma_joined_len(seq!['['] + host, seq![']']);
        lemma_joined_len(seq!['['] + host + seq![']'], tail);
        text::lemma_utf8_len(seq!['[']);
        text::lemma_utf8_len(seq![']']);
        let ported = tail.len() > 0 && tail[0] == ':';
        if ported {
            assert(tail =~= seq![':'] + tail.skip(1));
            lemma_joined_len(seq![':'], tail.skip(1));
            text::lemma_utf8_len(seq![':']);
            lemma_digits_len(tail.skip(1), port);
            lemma_authority_len(short, Some(port), true);
        } else {
            lemma_authority_len(short, None, true);
        }
        (true, ported)
    } else {
        let colon = text::last_index(authority, ':');
        text::lemma_last_index_bounds(authority, ':');
        let ported = colon >= 0 && number::unsigned_up_to(
            authority.skip(colon + 1),
            65535,
        ) is Some;
        if ported {
            let digits = authority.skip(colon + 1);
            assert(authority =~= host + seq![':'] + digits);
            assert(host[0] == authority[0]);
            lemma_joined_len(host, seq![':']);
            lemma_joined_len(host + seq![':'], digits);
            text::lemma_utf8_len(seq![':']);
            lemma_digits_len(digits, port);
            lemma_authority_len(short, Some(port), false);
        } else {
            lemma_authority_len(short, None, false);
        }
        (false, ported)
    }
}

/// The form of an accepted address is loaded, however long it is, and is filed
/// under itself.
pub proof fn accepted_forms_are_loaded(address: Seq<char>)
    requires
        node_address::normalized(address) is Ok,
        node_address::files_stably(address),
        respells(address),
    ensures
        loaded_form(node_address::normalized(address)->Ok_0) == Ok::<Seq<char>, Seq<char>>(
            node_address::normalized(address)->Ok_0,
        ),
{
    let trimmed = text::trimmed(address);
    let mark = seq![':', '/', '/'];
    let (scheme, rest) = node_address::scheme_and_rest(trimmed);
    let (written, port) = node_address::host_port_of(address)->0;
    let host = text::lowercase(written);
    let short = shortest_host(host);
    let path = node_address::path_of(rest);
    let form = node_address::composed(scheme, host, port, path);
    node_address::lemma_trimmed_twice(address);
    node_address::lemma_path_is_part(address);
    node_address::filing_twice_is_filing_once(address);
    assert(node_address::normalized(address)->Ok_0 == form);
    // The parts of the form.
    let filed_rest = node_address::form_authority(host, port) + path;
    node_address::lemma_form_parts(scheme, host, port, path);
    node_address::lemma_form_trimmed(scheme, host, port, path);
    assert(node_address::path_of(filed_rest) =~= path);
    // A spelling that is no longer than what was submitted.
    let authority = node_address::authority_of(rest);
    let (brackets, ported) = lemma_shorter_authority(
        authority,
        node_address::default_port(scheme),
        written,
        port,
        short,
    );
    let given = if ported {
        Some(port)
    } else {
        None
    };
    let spelling = spelled(scheme, short, given, brackets, path);
    lemma_spelled_form(scheme, short, given, brackets, path);
    assert(respelled(form, brackets, ported) == spelling);
    lemma_submitted_len(address);
    lemma_joined_len(spelled_authority(short, given, brackets), path);
    lemma_joined_len(scheme, mark);
    lemma_joined_len(scheme + mark, spelled_authority(short, given, brackets) + path);
    assert(files_as(spelling, form));
    assert(files_as(respelled(form, brackets, ported), form));
    assert(has_submitted_spelling(form));
}

/// How long an address is at least.
proof fn lemma_submitted_len(address: Seq<char>)
    requires
        text::find_text(text::trimmed(address), seq![':', '/', '/']) is Some,
    ensures
        ({
            let rest = node_address::scheme_and_rest(text::trimmed(address)).1;
            text::utf8_len(text::trimmed(address)) >= text::utf8_len(written_scheme(address))
                + text::utf8_len(seq![':', '/', '/']) + text::utf8_len(
                node_address::authority_of(rest),
            ) + text::utf8_len(node_address::path_of(rest))
        }),
{
    let trimmed = text::trimmed(address);
    let mark = seq![':', '/', '/'];
    let rest = node_address::scheme_and_rest(trimmed).1;
    let authority = node_address::authority_of(rest);
    text::lemma_find_from_bounds(trimmed, mark, 0);
    text::lemma_first_index_bounds(rest, '/');
    let k = text::find_text(trimmed, mark)->0;
    let tail = rest.skip(text::first_index(rest, '/'));
    assert(trimmed.subrange(k, k + 3) == mark);
    assert(trimmed =~= trimmed.take(k) + trimmed.subrange(k, k + 3) + rest);
    assert(rest =~= authority + tail);
    lemma_joined_len(trimmed.take(k), mark);
    lemma_joined_len(trimmed.take(k) + mark, rest);
    lemma_joined_len(authority, tail);
    let path = node_address::path_of(rest);
    if text::first_index(rest, '/') + 1 < rest.len() {
        assert(path == tail);
    } else {
        assert(path =~= Seq::<char>::empty());
        text::lemma_utf8_len(path);
    }
}

proof fn lemma_ascii_is_shortest(host: Seq<char>)
    requires
        text::is_ascii_text(host),
    ensures
        shortest_host(host) == host,
    decreases host.len(),
{
    if host.len() > 0 {
        let earlier = host.drop_last();
        assert(host.last() as u32 <= 0x7f);
        assert forall|i: int| 0 <= i < earlier.len() implies (#[trigger] earlier[i]) as u32
            <= 0x7f by {
            assert(earlier[i] == host[i]);
        }
        lemma_ascii_is_shortest(earlier);
        assert(shortest_host(host) =~= host);
    }
}

/// An ASCII text in lower case reads as a port where it does as it is written.
proof fn lemma_ascii_port_free(s: Seq<char>)
    requires
        text::is_ascii_text(s),
        is_port_free(s),
    ensures
        is_port_free(text::ascii_lower(s)),
{
    let lower = text::ascii_lower(s);
    let colon = text::last_index(s, ':');
    lemma_ascii_last_colon(s);
    if colon >= 0 {
        text::lemma_last_index_bounds(s, ':');
        let a = s.skip(colon + 1);
        let b = lower.skip(colon + 1);
        let x = number::unsigned_digits(a);
        let y = number::unsigned_digits(b);
        assert forall|i: int| 0 <= i < a.len() implies b[i] == text::ascii_lower_char(
            #[trigger] a[i],
        ) by {}
        assert(a.len() > 0 ==> (a[0] == '+' <==> b[0] == '+'));
        assert(x.len() == y.len());
        if y.len() > 0 && number::all_digits(y) {
            assert forall|i: int| 0 <= i < x.len() implies x[i] == y[i] by {
                assert(number::is_digit_char(y[i]));
                assert(y[i] == text::ascii_lower_char(x[i]));
            }
            assert(x =~= y);
        }
    }
}

proof fn lemma_ascii_last_colon(s: Seq<char>)
    ensures
        text::last_index(text::ascii_lower(s), ':') == text::last_index(s, ':'),
    decreases s.len(),
{
    let lower = text::ascii_lower(s);
    if s.len() > 0 {
        assert(lower.last() == text::ascii_lower_char(s.last()));
        assert(lower.drop_last() =~= text::ascii_lower(s.drop_last()));
        lemma_ascii_last_colon(s.drop_last());
    }
}

/// The form of an accepted ASCII address is loaded, where its host reads in a
/// form.
pub proof fn accepted_ascii_forms_are_loaded(address: Seq<char>)
    requires
        text::is_ascii_text(address),
        node_address::normalized(address) is Ok,
        node_address::reads_in_form(node_address::host_of(address)),
    ensures
        node_address::files_stably(address),
        respells(address),
        loaded_form(node_address::normalized(address)->Ok_0) == Ok::<Seq<char>, Seq<char>>(
            node_address::normalized(address)->Ok_0,
        ),
{
    let trimmed = text::trimmed(address);
    let written = node_address::host_of(address);
    let scheme = written_scheme(address);
    let lower = text::lowercase(written);
    node_address::filing_keeps_ascii_nodes(address);
    node_address::lemma_trimmed_twice(address);
    let at = node_address::lemma_host_is_part(address);
    text::lemma_trimmed_is_part(address);
    text::lemma_find_from_bounds(trimmed, seq![':', '/', '/'], 0);
    assert forall|i: int| 0 <= i < trimmed.len() implies (#[trigger] trimmed[i]) as u32 <= 0x7f by {
        assert(address.contains(trimmed[i]));
    }
    assert forall|i: int| 0 <= i < written.len() implies (#[trigger] written[i]) as u32 <= 0x7f by {
        assert(written[i] == trimmed[at + i]);
    }
    assert forall|i: int| 0 <= i < scheme.len() implies (#[trigger] scheme[i]) as u32 <= 0x7f by {
        assert(scheme[i] == trimmed[i]);
    }
    text::lemma_lowercase_ascii(written);
    text::lemma_lowercase_ascii(scheme);
    text::lemma_utf8_len(written);
    text::lemma_utf8_len(lower);
    text::lemma_utf8_len(scheme);
    text::lemma_utf8_len(text::lowercase(scheme));
    lemma_ascii_is_shortest(lower);
    if is_port_free(written) {
        lemma_ascii_port_free(written);
    }
    if lower.contains(']') {
        let i = choose|i: int| 0 <= i < lower.len() && lower[i] == ']';
        assert(written[i] == ']');
    }
    assert(lower[0] == text::ascii_lower_char(written[0]));
    accepted_forms_are_loaded(address);
}

} // verus!
