//! How the addresses of nodes are read and filed, and how texts are shown.
use vstd::prelude::*;
use crate::node_address;
use crate::number;
use crate::text;
use crate::text_laws;

verus! {

// ---------------------------------------------------------------------------
// Reading an address
// ---------------------------------------------------------------------------
/// The address is a scheme, a mark, an authority and perhaps a path, with or without
/// white space around it.
pub open spec fn is_made_of(
    address: Seq<char>,
    scheme: Seq<char>,
    authority: Seq<char>,
    path: Seq<char>,
) -> bool {
    &&& text::trimmed(address) == scheme + seq![':', '/', '/'] + authority + path
    &&& !scheme.contains(':')
    &&& authority.len() > 0
    &&& !authority.contains('/')
    &&& path.len() > 0 ==> path[0] == '/'
}

/// The port that a scheme stands for: 443 for the two that are encrypted, 80 for the
/// two of the web, and 11010 for any other.
pub open spec fn usual_port(scheme: Seq<char>) -> u16 {
    if scheme == seq!['w', 's', 's'] || scheme == seq!['h', 't', 't', 'p', 's'] {
        443
    } else if scheme == seq!['w', 's'] || scheme == seq!['h', 't', 't', 'p'] {
        80
    } else {
        11010
    }
}

proof fn lemma_usual_port(scheme: Seq<char>)
    ensures
        node_address::default_port(scheme) == usual_port(scheme),
{
    reveal_strlit("wss");
    reveal_strlit("https");
    reveal_strlit("ws");
    reveal_strlit("http");
    assert("wss"@ =~= seq!['w', 's', 's']);
    assert("https"@ =~= seq!['h', 't', 't', 'p', 's']);
    assert("ws"@ =~= seq!['w', 's']);
    assert("http"@ =~= seq!['h', 't', 't', 'p']);
}

proof fn lemma_made_of(
    address: Seq<char>,
    scheme: Seq<char>,
    authority: Seq<char>,
    path: Seq<char>,
)
    requires
        is_made_of(address, scheme, authority, path),
    ensures
        text::find_text(text::trimmed(address), seq![':', '/', '/']) == Some(scheme.len() as int),
        node_address::scheme_and_rest(text::trimmed(address)) == (
            text::lowercase(scheme),
            authority + path,
        ),
        text::first_index(authority + path, '/') == authority.len(),
        node_address::authority_of(authority + path) == authority,
{
    let s = text::trimmed(address);
    let mark = seq![':', '/', '/'];
    let n = scheme.len() as int;
    let rest = authority + path;
    assert(s =~= scheme + mark + rest);
    assert(s.subrange(n, n + 3) =~= mark);
    assert forall|k: int| 0 <= k < n implies !text::occurs_at(s, mark, k) by {
        if text::occurs_at(s, mark, k) {
            assert(s.subrange(k, k + 3)[0] == s[k]);
            assert(s[k] == scheme[k]);
            assert(scheme.contains(scheme[k]));
        }
    }
    text::lemma_find_from(s, mark, 0, n);
    assert(s.take(n) =~= scheme);
    assert(s.skip(n + 3) =~= rest);
    assert forall|k: int| 0 <= k < authority.len() implies rest[k] != '/' by {
        assert(rest[k] == authority[k]);
        assert(authority.contains(authority[k]));
    }
    text::lemma_first_index(rest, '/', authority.len() as int);
    assert(rest.take(authority.len() as int) =~= authority);
}

/// An authority without a colon is a host, and the port is the usual one of the
/// scheme.
pub proof fn hosts_without_port_have_the_usual_one(
    address: Seq<char>,
    scheme: Seq<char>,
    host: Seq<char>,
    path: Seq<char>,
)
    requires
        is_made_of(address, scheme, host, path),
        !host.contains(':'),
        host[0] != '[',
    ensures
        node_address::host_port_of(address) == Some((host, usual_port(text::lowercase(scheme)))),
{
    lemma_made_of(address, scheme, host, path);
    lemma_usual_port(text::lowercase(scheme));
    text::lemma_last_index_bounds(host, ':');
    let colon = text::last_index(host, ':');
    if colon >= 0 {
        assert(host.contains(host[colon]));
    }
}

/// A number behind the last colon of an authority is the port, and what stands before
/// the colon is the host. It must be there.
pub proof fn ports_stand_behind_the_last_colon(
    address: Seq<char>,
    scheme: Seq<char>,
    host: Seq<char>,
    port: u16,
    path: Seq<char>,
)
    requires
        is_made_of(address, scheme, host + seq![':'] + number::decimal(port as nat), path),
        host.len() > 0 ==> host[0] != '[',
    ensures
        host.len() > 0 ==> node_address::host_port_of(address) == Some((host, port)),
        host.len() == 0 ==> node_address::host_port_of(address) is None,
{
    let digits = number::decimal(port as nat);
    let authority = host + seq![':'] + digits;
    let n = host.len() as int;
    lemma_made_of(address, scheme, authority, path);
    node_address::lemma_port_digits(port);
    assert(authority[n] == ':');
    assert forall|k: int| n < k < authority.len() implies authority[k] != ':' by {
        assert(authority[k] == digits[k - n - 1]);
    }
    text::lemma_last_index(authority, ':', n);
    assert(authority.skip(n + 1) =~= digits);
    assert(authority.take(n) =~= host);
    if n > 0 {
        assert(authority[0] == host[0]);
    }
}

/// What stands behind the last colon and is no port belongs to the host.
pub proof fn other_texts_behind_a_colon_belong_to_the_host(
    address: Seq<char>,
    scheme: Seq<char>,
    before: Seq<char>,
    behind: Seq<char>,
    path: Seq<char>,
)
    requires
        is_made_of(address, scheme, before + seq![':'] + behind, path),
        before.len() > 0,
        before[0] != '[',
        !behind.contains(':'),
        number::unsigned_up_to(behind, 65535) is None,
    ensures
        node_address::host_port_of(address) == Some(
            (before + seq![':'] + behind, usual_port(text::lowercase(scheme))),
        ),
{
    let authority = before + seq![':'] + behind;
    let n = before.len() as int;
    lemma_made_of(address, scheme, authority, path);
    lemma_usual_port(text::lowercase(scheme));
    assert(authority[n] == ':');
    assert forall|k: int| n < k < authority.len() implies authority[k] != ':' by {
        assert(authority[k] == behind[k - n - 1]);
        assert(behind.contains(behind[k - n - 1]));
    }
    text::lemma_last_index(authority, ':', n);
    assert(authority.skip(n + 1) =~= behind);
    assert(authority[0] == before[0]);
}

/// A host in brackets may hold colons. The port stands behind the bracket, and
/// without one it is the usual one.
pub proof fn hosts_in_brackets_may_hold_colons(
    address: Seq<char>,
    scheme: Seq<char>,
    host: Seq<char>,
    port: Option<u16>,
    path: Seq<char>,
)
    requires
        is_made_of(
            address,
            scheme,
            seq!['['] + host + seq![']'] + (if port is Some {
                seq![':'] + number::decimal(port->0 as nat)
            } else {
                Seq::<char>::empty()
            }),
            path,
        ),
        !host.contains(']'),
    ensures
        host.len() > 0 ==> node_address::host_port_of(address) == Some(
            (
                host,
                if port is Some {
                    port->0
                } else {
                    usual_port(text::lowercase(scheme))
                },
            ),
        ),
        host.len() == 0 ==> node_address::host_port_of(address) is None,
{
    let tail = if port is Some {
        seq![':'] + number::decimal(port->0 as nat)
    } else {
        Seq::<char>::empty()
    };
    let authority = seq!['['] + host + seq![']'] + tail;
    lemma_made_of(address, scheme, authority, path);
    lemma_usual_port(text::lowercase(scheme));
    let inside = authority.skip(1);
    let n = host.len() as int;
    assert(inside =~= host + seq![']'] + tail);
    assert forall|k: int| 0 <= k < n implies inside[k] != ']' by {
        assert(inside[k] == host[k]);
        assert(host.contains(host[k]));
    }
    text::lemma_first_index(inside, ']', n);
    assert(inside.skip(n + 1) =~= tail);
    assert(inside.take(n) =~= host);
    if let Some(p) = port {
        node_address::lemma_port_digits(p);
        assert(tail.skip(1) =~= number::decimal(p as nat));
    }
}

// ---------------------------------------------------------------------------
// Filing an address
// ---------------------------------------------------------------------------
/// The text holds neither white space nor control codes.
pub open spec fn is_tight(s: Seq<char>) -> bool {
    forall|i: int|
        0 <= i < s.len() ==> !text_laws::is_white(#[trigger] s[i]) && !text_laws::shows_nothing(s[i])
}

/// One of the four schemes of nodes, in small letters.
pub open spec fn is_node(scheme: Seq<char>) -> bool {
    ||| scheme == seq!['t', 'c', 'p']
    ||| scheme == seq!['u', 'd', 'p']
    ||| scheme == seq!['w', 's']
    ||| scheme == seq!['w', 's', 's']
}

proof fn lemma_node(scheme: Seq<char>)
    ensures
        node_address::is_node_scheme(scheme) <==> is_node(scheme),
{
    reveal_strlit("tcp");
    reveal_strlit("udp");
    reveal_strlit("ws");
    reveal_strlit("wss");
    assert("tcp"@ =~= seq!['t', 'c', 'p']);
    assert("udp"@ =~= seq!['u', 'd', 'p']);
    assert("ws"@ =~= seq!['w', 's']);
    assert("wss"@ =~= seq!['w', 's', 's']);
}

proof fn lemma_tight(s: Seq<char>)
    ensures
        is_tight(s) <==> !(exists|i: int|
            0 <= i < s.len() && node_address::is_barred(#[trigger] s[i])),
{
    if !is_tight(s) {
        let i = choose|i: int|
            0 <= i < s.len() && (text_laws::is_white(#[trigger] s[i]) || text_laws::shows_nothing(
                s[i],
            ));
        assert(node_address::is_barred(s[i]));
    }
    if exists|i: int| 0 <= i < s.len() && node_address::is_barred(#[trigger] s[i]) {
        let i = choose|i: int| 0 <= i < s.len() && node_address::is_barred(#[trigger] s[i]);
        assert(text_laws::is_white(s[i]) || text_laws::shows_nothing(s[i]));
    }
}

/// An address is filed with its scheme and host in lower case, the host in brackets
/// where it holds a colon, its port written out, and its path as it is, but for a
/// slash that nothing follows.
pub proof fn nodes_are_filed_by_scheme_host_port_and_path(
    address: Seq<char>,
    scheme: Seq<char>,
    authority: Seq<char>,
    path: Seq<char>,
    host: Seq<char>,
    port: u16,
)
    requires
        is_made_of(address, scheme, authority, path),
        is_tight(text::trimmed(address)),
        is_node(text::lowercase(scheme)),
        node_address::host_port_of(address) == Some((host, port)),
        port > 0,
    ensures
        ({
            let lower = text::lowercase(host);
            let shown = if lower.contains(':') {
                seq!['['] + lower + seq![']']
            } else {
                lower
            };
            let kept = if path.len() >= 2 {
                path
            } else {
                Seq::empty()
            };
            node_address::form_of(address) == Ok::<Seq<char>, Seq<char>>(
                text::lowercase(scheme) + seq![':', '/', '/'] + shown + seq![':'] + number::decimal(
                    port as nat,
                ) + kept,
            )
        }),
{
    lemma_made_of(address, scheme, authority, path);
    lemma_tight(text::trimmed(address));
    lemma_node(text::lowercase(scheme));
    node_address::lemma_trimmed_twice(address);
    let rest = authority + path;
    let kept = if path.len() >= 2 {
        path
    } else {
        Seq::empty()
    };
    assert(node_address::path_of(rest) =~= kept);
}

/// Why an address is not filed, in the order in which it is found out: it is longer
/// than 128 bytes, blank, holds white space or control codes, has no scheme or one
/// that is not of nodes, or names no host or port 0.
pub proof fn addresses_that_are_not_filed(address: Seq<char>)
    ensures
        ({
            let trimmed = text::trimmed(address);
            let r = node_address::normalized(address);
            let mark = text::find_text(trimmed, seq![':', '/', '/']);
            if text::utf8_len(trimmed) > 128 {
                r == Err::<Seq<char>, Seq<char>>("节点地址过长"@)
            } else if text_laws::is_blank(address) {
                r == Err::<Seq<char>, Seq<char>>("节点地址不能为空"@)
            } else if !is_tight(trimmed) {
                r == Err::<Seq<char>, Seq<char>>("节点地址不能包含空白或控制字符"@)
            } else if mark is None {
                r == Err::<Seq<char>, Seq<char>>("节点地址必须以 tcp:// udp:// ws:// wss:// 开头"@)
            } else if !is_node(text::lowercase(trimmed.take(mark->0))) {
                r == Err::<Seq<char>, Seq<char>>(
                    "节点地址协议不支持，仅支持 tcp:// udp:// ws:// wss://"@,
                )
            } else {
                match node_address::host_port_of(address) {
                    None => r == Err::<Seq<char>, Seq<char>>("节点地址无法解析出主机与端口"@),
                    Some((host, port)) => if port == 0 {
                        r == Err::<Seq<char>, Seq<char>>("节点端口无效"@)
                    } else {
                        r is Ok && r == node_address::form_of(address)
                    },
                }
            }
        }),
{
    let trimmed = text::trimmed(address);
    lemma_tight(trimmed);
    text_laws::trimming_leaves_nothing_of_blank_texts(address);
    node_address::lemma_trimmed_twice(address);
    if let Some(k) = text::find_text(trimmed, seq![':', '/', '/']) {
        lemma_node(text::lowercase(trimmed.take(k)));
    }
}

// ---------------------------------------------------------------------------
// Texts to show
// ---------------------------------------------------------------------------
proof fn lemma_without_control(s: Seq<char>)
    ensures
        node_address::without_control(s) == s.filter(|c: char| !text_laws::shows_nothing(c)),
    decreases s.len(),
{
    let shown = |c: char| !text_laws::shows_nothing(c);
    reveal(Seq::filter);
    if s.len() > 0 {
        lemma_without_control(s.drop_last());
        lemma_shown(s.last());
    } else {
        assert(s =~= Seq::empty());
    }
}

proof fn lemma_shown(c: char)
    ensures
        text::is_control_char(c) <==> text_laws::shows_nothing(c),
{
}

/// A text is shown without the white space around it, without control codes, and cut
/// to a number of characters.
pub proof fn texts_are_shown_trimmed_and_cut(raw: Seq<char>, max: nat)
    ensures
        ({
            let clean = text::trimmed(raw).filter(|c: char| !text_laws::shows_nothing(c));
            let cut = if clean.len() <= max {
                clean
            } else {
                clean.subrange(0, max as int)
            };
            node_address::sanitized(raw, max) == text::trimmed(cut)
        }),
{
    lemma_without_control(text::trimmed(raw));
    let clean = text::trimmed(raw).filter(|c: char| !text_laws::shows_nothing(c));
    if clean.len() > max {
        assert(clean.take(max as int) =~= clean.subrange(0, max as int));
    }
}

/// A text that fits and has no control codes is shown as it is, but for the white
/// space around it.
pub proof fn fitting_texts_are_shown_as_they_are(raw: Seq<char>, max: nat)
    requires
        text_laws::is_clean(text::trimmed(raw)),
        text::trimmed(raw).len() <= max,
    ensures
        node_address::sanitized(raw, max) == text::trimmed(raw),
{
    lemma_clean_stays(text::trimmed(raw));
    node_address::lemma_trimmed_twice(raw);
}

proof fn lemma_clean_stays(s: Seq<char>)
    requires
        text_laws::is_clean(s),
    ensures
        node_address::without_control(s) == s,
    decreases s.len(),
{
    if s.len() > 0 {
        let rest = s.drop_last();
        assert forall|i: int| 0 <= i < rest.len() implies !text_laws::shows_nothing(
            #[trigger] rest[i],
        ) by {
            assert(rest[i] == s[i]);
        }
        lemma_clean_stays(rest);
        assert(!text_laws::shows_nothing(s[s.len() - 1]));
        lemma_shown(s.last());
        assert(rest.push(s.last()) =~= s);
    }
}

} // verus!
