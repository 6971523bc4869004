//! Addresses of shared nodes: their host and port, and the one form under which
//! a node is filed.
use vstd::prelude::*;
use vstd::string::*;
use crate::limits::COMMUNITY_NODE_ADDRESS_MAX_LEN;
use crate::number;
use crate::text;

verus! {

// ---------------------------------------------------------------------------
// Host and port
// ---------------------------------------------------------------------------
/// The port that a scheme has where the address gives none.
pub open spec fn default_port(scheme: Seq<char>) -> u16 {
    if scheme == "wss"@ || scheme == "https"@ {
        443
    } else if scheme == "ws"@ || scheme == "http"@ {
        80
    } else {
        11010
    }
}

/// The scheme of an address in lower case, and what follows it. An address
/// without `://` has an empty scheme.
pub open spec fn scheme_and_rest(address: Seq<char>) -> (Seq<char>, Seq<char>) {
    match text::find_text(address, seq![':', '/', '/']) {
        Some(k) => (text::lowercase(address.take(k)), address.skip(k + 3)),
        None => (Seq::empty(), address),
    }
}

/// The part of `rest` before the first slash.
pub open spec fn authority_of(rest: Seq<char>) -> Seq<char> {
    rest.take(text::first_index(rest, '/'))
}

/// A bracketed host such as `[::1]:11010`, without its opening bracket. What
/// follows the closing bracket counts only where it begins with a colon.
pub open spec fn bracketed_host_port(inside: Seq<char>, default: u16) -> Option<
    (Seq<char>, u16),
> {
    let end = text::first_index(inside, ']');
    let tail = inside.skip(end + 1);
    if end >= inside.len() || end == 0 {
        None
    } else if tail.len() > 0 && tail[0] == ':' {
        match number::unsigned_up_to(tail.skip(1), 65535) {
            Some(port) => Some((inside.take(end), port as u16)),
            None => None,
        }
    } else {
        Some((inside.take(end), default))
    }
}

/// The host and port of an authority: the port stands behind the last colon,
/// where that is followed by a port number.
pub open spec fn plain_host_port(authority: Seq<char>, default: u16) -> Option<(Seq<char>, u16)> {
    let colon = text::last_index(authority, ':');
    if colon >= 0 && number::unsigned_up_to(authority.skip(colon + 1), 65535) is Some {
        if colon == 0 {
            None
        } else {
            Some(
                (
                    authority.take(colon),
                    number::unsigned_up_to(authority.skip(colon + 1), 65535)->0 as u16,
                ),
            )
        }
    } else {
        Some((authority, default))
    }
}

/// The host and port behind a scheme.
pub open spec fn host_port_behind(scheme: Seq<char>, rest: Seq<char>) -> Option<(Seq<char>, u16)> {
    let authority = authority_of(rest);
    if authority.len() == 0 {
        None
    } else if authority[0] == '[' {
        bracketed_host_port(authority.skip(1), default_port(scheme))
    } else {
        plain_host_port(authority, default_port(scheme))
    }
}

/// The host and port of an address.
pub open spec fn host_port_of(address: Seq<char>) -> Option<(Seq<char>, u16)> {
    let (scheme, rest) = scheme_and_rest(text::trimmed(address));
    host_port_behind(scheme, rest)
}

fn port_for(scheme: &str) -> (r: u16)
    ensures
        r == default_port(scheme@),
{
    if text::same_text(scheme, "wss") || text::same_text(scheme, "https") {
        443
    } else if text::same_text(scheme, "ws") || text::same_text(scheme, "http") {
        80
    } else {
        11010
    }
}

fn parse_port(chars: &[char]) -> (r: Option<u16>)
    ensures
        match r {
            Some(port) => number::unsigned_up_to(chars@, 65535) == Some(port as nat),
            None => number::unsigned_up_to(chars@, 65535) is None,
        },
{
    match number::parse_unsigned(chars, 65535) {
        Some(port) => Some(port as u16),
        None => None,
    }
}

pub(crate) fn split_scheme(address: &[char]) -> (r: (String, Vec<char>))
    ensures
        (r.0@, r.1@) == scheme_and_rest(address@),
{
    let mark: Vec<char> = vec![':', '/', '/'];
    assert(mark@ =~= seq![':', '/', '/']);
    let n: usize = address.len();
    match text::find_position(address, mark.as_slice()) {
        Some(k) => {
            assert(k + 3 <= n);
            let scheme = text::text_of(text::part_of(address, 0, k).as_slice());
            assert(scheme@ =~= address@.take(k as int));
            let rest = text::part_of(address, k + 3, n);
            assert(rest@ =~= address@.skip(k + 3));
            (text::to_lower(scheme.as_str()), rest)
        },
        None => {
            let rest = text::part_of(address, 0, n);
            assert(rest@ =~= address@);
            let scheme = String::new();
            assert(scheme@ =~= Seq::<char>::empty());
            (scheme, rest)
        },
    }
}

fn parse_bracketed(inside: &[char], default: u16) -> (r: Option<(String, u16)>)
    ensures
        match r {
            Some((host, port)) => bracketed_host_port(inside@, default) == Some((host@, port)),
            None => bracketed_host_port(inside@, default) is None,
        },
{
    let n: usize = inside.len();
    let end: usize = text::first_position(inside, ']');
    if end >= n || end == 0 {
        return None;
    }
    let host = text::text_of(text::part_of(inside, 0, end).as_slice());
    assert(host@ =~= inside@.take(end as int));
    let ghost tail = inside@.skip(end + 1);
    if end + 1 < n && inside[end + 1] == ':' {
        assert(tail[0] == ':');
        let digits = text::part_of(inside, end + 2, n);
        assert(digits@ =~= tail.skip(1));
        match parse_port(digits.as_slice()) {
            Some(port) => Some((host, port)),
            None => None,
        }
    } else {
        assert(!(tail.len() > 0 && tail[0] == ':'));
        Some((host, default))
    }
}

fn parse_plain(authority: &[char], default: u16) -> (r: Option<(String, u16)>)
    ensures
        match r {
            Some((host, port)) => plain_host_port(authority@, default) == Some((host@, port)),
            None => plain_host_port(authority@, default) is None,
        },
{
    let n: usize = authority.len();
    if let Some(colon) = text::last_position(authority, ':') {
        let digits = text::part_of(authority, colon + 1, n);
        assert(digits@ =~= authority@.skip(colon + 1));
        if let Some(port) = parse_port(digits.as_slice()) {
            if colon == 0 {
                return None;
            }
            let host = text::text_of(text::part_of(authority, 0, colon).as_slice());
            assert(host@ =~= authority@.take(colon as int));
            return Some((host, port));
        }
    }
    Some((text::text_of(authority), default))
}

/// The host and port behind a scheme in lower case.
pub fn parse_host_port(scheme: &str, rest: &[char]) -> (r: Option<(String, u16)>)
    ensures
        match r {
            Some((host, port)) => host_port_behind(scheme@, rest@) == Some((host@, port)),
            None => host_port_behind(scheme@, rest@) is None,
        },
{
    let authority = text::part_of(rest, 0, text::first_position(rest, '/'));
    assert(authority@ =~= authority_of(rest@));
    if authority.len() == 0 {
        return None;
    }
    let default = port_for(scheme);
    if authority[0] == '[' {
        let inside = text::part_of(authority.as_slice(), 1, authority.len());
        assert(inside@ =~= authority@.skip(1));
        parse_bracketed(inside.as_slice(), default)
    } else {
        parse_plain(authority.as_slice(), default)
    }
}

/// The host and port of a node address, with the port that the desktop client
/// assumes where the address gives none.
pub fn parse_node_host_port(address: &str) -> (r: Option<(String, u16)>)
    ensures
        match r {
            Some((host, port)) => host_port_of(address@) == Some((host@, port)),
            None => host_port_of(address@) is None,
        },
{
    let trimmed = text::trim_chars(text::chars_of(address).as_slice());
    let (scheme, rest) = split_scheme(trimmed.as_slice());
    parse_host_port(scheme.as_str(), rest.as_slice())
}

/// The scheme of an address in lower case; empty where it has none.
pub fn scheme_of(address: &str) -> (r: String)
    ensures
        r@ == scheme_and_rest(address@).0,
{
    split_scheme(text::chars_of(address).as_slice()).0
}

// ---------------------------------------------------------------------------
// The one form
// ---------------------------------------------------------------------------
/// A node can be reached over one of these schemes.
pub open spec fn is_node_scheme(scheme: Seq<char>) -> bool {
    scheme == "tcp"@ || scheme == "udp"@ || scheme == "ws"@ || scheme == "wss"@
}

/// The path with its slash; empty where there is nothing behind the slash.
pub open spec fn path_of(rest: Seq<char>) -> Seq<char> {
    rest.skip(
        if text::first_index(rest, '/') + 1 < rest.len() {
            text::first_index(rest, '/')
        } else {
            rest.len() as int
        },
    )
}

/// The one form: scheme and host in lower case, IPv6 in brackets, the port given.
pub open spec fn composed(
    scheme: Seq<char>,
    host: Seq<char>,
    port: u16,
    path: Seq<char>,
) -> Seq<char> {
    scheme + seq![':', '/', '/'] + (if host.contains(':') {
        seq!['['] + host + seq![']']
    } else {
        host
    }) + seq![':'] + number::decimal(port as nat) + path
}

/// A character that no node address has.
pub open spec fn is_barred(c: char) -> bool {
    text::is_space_char(c) || text::is_control_char(c)
}

/// The form under which the node at an address is filed, however long it is, or
/// why there is none.
pub open spec fn form_of(address: Seq<char>) -> Result<Seq<char>, Seq<char>> {
    let trimmed = text::trimmed(address);
    let (scheme, rest) = scheme_and_rest(trimmed);
    if trimmed.len() == 0 {
        Err("节点地址不能为空"@)
    } else if exists|i: int| 0 <= i < trimmed.len() && is_barred(#[trigger] trimmed[i]) {
        Err("节点地址不能包含空白或控制字符"@)
    } else if text::find_text(trimmed, seq![':', '/', '/']) is None {
        Err("节点地址必须以 tcp:// udp:// ws:// wss:// 开头"@)
    } else if !is_node_scheme(scheme) {
        Err("节点地址协议不支持，仅支持 tcp:// udp:// ws:// wss://"@)
    } else {
        match host_port_of(trimmed) {
            None => Err("节点地址无法解析出主机与端口"@),
            Some((host, port)) => if port == 0 {
                Err("节点端口无效"@)
            } else {
                Ok(composed(scheme, text::lowercase(host), port, path_of(rest)))
            },
        }
    }
}

/// The form under which the node at a submitted address is filed, or why there is
/// none. Only what is submitted is bounded in length: the form writes the port
/// out, and may be longer.
pub open spec fn normalized(address: Seq<char>) -> Result<Seq<char>, Seq<char>> {
    if text::utf8_len(text::trimmed(address)) > COMMUNITY_NODE_ADDRESS_MAX_LEN {
        Err("节点地址过长"@)
    } else {
        form_of(address)
    }
}

/// The form of a node address, from its parts in lower case.
pub fn compose_address(scheme: &str, host: &str, port: u16, path: &[char]) -> (r: String)
    ensures
        r@ == composed(scheme@, host@, port, path@),
{
    let host_chars = text::chars_of(host);
    let colon: usize = text::first_position(host_chars.as_slice(), ':');
    proof {
        text::lemma_first_index_bounds(host@, ':');
        if colon < host@.len() {
            assert(host@[colon as int] == ':');
            assert(host@.contains(':'));
        } else {
            assert(!host@.contains(':'));
        }
    }
    let mut out = scheme.to_owned();
    out.push(':');
    out.push('/');
    out.push('/');
    if colon < host_chars.len() {
        out.push('[');
        out.append(host);
        out.push(']');
    } else {
        out.append(host);
    }
    out.push(':');
    number::push_decimal(&mut out, port as u64);
    out.append(text::text_of(path).as_str());
    assert(out@ =~= composed(scheme@, host@, port, path@));
    out
}

fn has_barred(chars: &[char]) -> (r: bool)
    ensures
        r == exists|i: int| 0 <= i < chars@.len() && is_barred(#[trigger] chars@[i]),
{
    let mut i: usize = 0;
    while i < chars.len()
        invariant
            i <= chars@.len(),
            forall|k: int| 0 <= k < i ==> !is_barred(#[trigger] chars@[k]),
        decreases chars@.len() - i,
    {
        if text::is_space(chars[i]) || text::is_control(chars[i]) {
            assert(is_barred(chars@[i as int]));
            return true;
        }
        i = i + 1;
    }
    false
}

pub(crate) fn path_in(rest: &[char]) -> (r: Vec<char>)
    ensures
        r@ == path_of(rest@),
{
    let n: usize = rest.len();
    let slash: usize = text::first_position(rest, '/');
    let from: usize = if slash < n && slash + 1 < n {
        slash
    } else {
        n
    };
    let path = text::part_of(rest, from, n);
    assert(path@ =~= path_of(rest@));
    path
}

/// Trimming twice is trimming once.
pub proof fn lemma_trimmed_twice(s: Seq<char>)
    ensures
        text::trimmed(text::trimmed(s)) == text::trimmed(s),
{
    let a = text::trim_start(s);
    lemma_trim_start_done(s);
    lemma_trim_end_done(a);
    lemma_trim_end_keeps_first(a);
    let b = text::trim_end(a);
    assert(text::trim_start(b) == b);
}

proof fn lemma_trim_start_done(s: Seq<char>)
    ensures
        text::trim_start(s).len() > 0 ==> !text::is_space_char(text::trim_start(s)[0]),
    decreases s.len(),
{
    if s.len() > 0 && text::is_space_char(s.first()) {
        lemma_trim_start_done(s.drop_first());
    }
}

proof fn lemma_trim_end_done(s: Seq<char>)
    ensures
        text::trim_end(text::trim_end(s)) == text::trim_end(s),
    decreases s.len(),
{
    if s.len() > 0 && text::is_space_char(s.last()) {
        lemma_trim_end_done(s.drop_last());
    }
}

proof fn lemma_trim_end_keeps_first(s: Seq<char>)
    ensures
        text::trim_end(s).len() > 0 ==> text::trim_end(s)[0] == s[0],
    decreases s.len(),
{
    if s.len() > 0 && text::is_space_char(s.last()) {
        lemma_trim_end_keeps_first(s.drop_last());
    }
}

/// Checks a submitted address and gives the form under which its node is filed,
/// so that the same node is not filed twice.
pub fn normalize_community_node_address(address: &str) -> (r: Result<String, &'static str>)
    ensures
        match r {
            Ok(form) => normalized(address@) == Ok::<Seq<char>, Seq<char>>(form@),
            Err(reason) => normalized(address@) == Err::<Seq<char>, Seq<char>>(reason@),
        },
{
    if text::byte_len(text::trim(address).as_str()) > COMMUNITY_NODE_ADDRESS_MAX_LEN {
        return Err("节点地址过长");
    }
    form_node_address(address)
}

/// Gives the form under which the node at an address is filed, however long the
/// address is.
pub fn form_node_address(address: &str) -> (r: Result<String, &'static str>)
    ensures
        match r {
            Ok(form) => form_of(address@) == Ok::<Seq<char>, Seq<char>>(form@),
            Err(reason) => form_of(address@) == Err::<Seq<char>, Seq<char>>(reason@),
        },
{
    let trimmed = text::trim_chars(text::chars_of(address).as_slice());
    if trimmed.len() == 0 {
        return Err("节点地址不能为空");
    }
    if has_barred(trimmed.as_slice()) {
        return Err("节点地址不能包含空白或控制字符");
    }
    let mark: Vec<char> = vec![':', '/', '/'];
    assert(mark@ =~= seq![':', '/', '/']);
    if text::find_position(trimmed.as_slice(), mark.as_slice()).is_none() {
        return Err("节点地址必须以 tcp:// udp:// ws:// wss:// 开头");
    }
    let (scheme, rest) = split_scheme(trimmed.as_slice());
    let known = text::same_text(scheme.as_str(), "tcp") || text::same_text(scheme.as_str(), "udp")
        || text::same_text(scheme.as_str(), "ws") || text::same_text(scheme.as_str(), "wss");
    if !known {
        return Err("节点地址协议不支持，仅支持 tcp:// udp:// ws:// wss://");
    }
    proof {
        lemma_trimmed_twice(address@);
    }
    match parse_host_port(scheme.as_str(), rest.as_slice()) {
        None => Err("节点地址无法解析出主机与端口"),
        Some((host, port)) => {
            if port == 0 {
                return Err("节点端口无效");
            }
            let host_lower = text::to_lower(host.as_str());
            let path = path_in(rest.as_slice());
            Ok(compose_address(scheme.as_str(), host_lower.as_str(), port, path.as_slice()))
        },
    }
}

/// What tells nodes apart: the scheme and host in lower case, the port and the
/// path.
pub open spec fn node_parts(address: Seq<char>) -> Option<(Seq<char>, Seq<char>, u16, Seq<char>)> {
    let (scheme, rest) = scheme_and_rest(text::trimmed(address));
    match host_port_of(text::trimmed(address)) {
        Some((host, port)) => Some((scheme, text::lowercase(host), port, path_of(rest))),
        None => None,
    }
}

/// Spellings of one node are filed as one: two accepted addresses whose schemes
/// and hosts agree but for their case, and whose ports and paths agree, have
/// the same form.
pub proof fn spellings_of_one_node_share_a_form(a: Seq<char>, b: Seq<char>)
    requires
        normalized(a) is Ok,
        normalized(b) is Ok,
        node_parts(a) == node_parts(b),
    ensures
        normalized(a) == normalized(b),
{
}

// ---------------------------------------------------------------------------
// Reading a form
// ---------------------------------------------------------------------------
/// The host of an address; empty where it has none.
pub open spec fn host_of(address: Seq<char>) -> Seq<char> {
    match host_port_of(address) {
        Some((host, _)) => host,
        None => Seq::empty(),
    }
}

/// A host can be told apart in a form: without a colon it does not begin with a
/// bracket, and with one, where it stands in brackets, it does not hold the
/// closing one.
pub open spec fn reads_in_form(host: Seq<char>) -> bool {
    if host.contains(':') {
        !host.contains(']')
    } else {
        host.len() > 0 && host[0] != '['
    }
}

/// The authority of a form.
pub open spec fn form_authority(host: Seq<char>, port: u16) -> Seq<char> {
    (if host.contains(':') {
        seq!['['] + host + seq![']']
    } else {
        host
    }) + seq![':'] + number::decimal(port as nat)
}

/// The schemes of nodes are lower-case ASCII.
pub proof fn lemma_scheme(scheme: Seq<char>)
    requires
        is_node_scheme(scheme),
    ensures
        scheme.len() > 0,
        text::is_ascii_text(scheme),
        text::lowercase(scheme) == scheme,
        forall|i: int|
            0 <= i < scheme.len() ==> (#[trigger] scheme[i]) != ':' && !is_barred(scheme[i]),
{
    reveal_strlit("tcp");
    reveal_strlit("udp");
    reveal_strlit("ws");
    reveal_strlit("wss");
    assert(text::ascii_lower(scheme) =~= scheme);
}

/// What is written for a port reads back.
pub proof fn lemma_port_digits(port: u16)
    ensures
        number::decimal(port as nat).len() > 0,
        number::unsigned_up_to(number::decimal(port as nat), 65535) == Some(port as nat),
        forall|i: int|
            0 <= i < number::decimal(port as nat).len() ==> number::is_digit_char(
                #[trigger] number::decimal(port as nat)[i],
            ),
{
    number::lemma_decimal_reads_back(port as nat);
}

proof fn lemma_plain_authority(host: Seq<char>, port: u16, default: u16)
    requires
        host.len() > 0,
        !host.contains(':'),
    ensures
        plain_host_port(form_authority(host, port), default) == Some((host, port)),
{
    let digits = number::decimal(port as nat);
    let authority = form_authority(host, port);
    let n = host.len() as int;
    lemma_port_digits(port);
    assert(authority[n] == ':');
    assert forall|k: int| n < k < authority.len() implies authority[k] != ':' by {
        assert(authority[k] == digits[k - n - 1]);
    }
    text::lemma_last_index(authority, ':', n);
    assert(authority.skip(n + 1) =~= digits);
    assert(authority.take(n) =~= host);
}

proof fn lemma_bracketed_authority(host: Seq<char>, port: u16, default: u16)
    requires
        host.contains(':'),
        !host.contains(']'),
    ensures
        bracketed_host_port(form_authority(host, port).skip(1), default) == Some((host, port)),
{
    let digits = number::decimal(port as nat);
    let inside = form_authority(host, port).skip(1);
    let n = host.len() as int;
    lemma_port_digits(port);
    assert(inside =~= host + seq![']', ':'] + digits);
    assert forall|k: int| 0 <= k < n implies inside[k] != ']' by {
        assert(inside[k] == host[k]);
        assert(host.contains(host[k]));
    }
    assert(inside[n] == ']');
    text::lemma_first_index(inside, ']', n);
    let tail = inside.skip(n + 1);
    assert(tail[0] == ':');
    assert(tail.skip(1) =~= digits);
    assert(inside.take(n) =~= host);
    assert(n > 0);
}

/// The parts of a form with a path: its scheme, what follows it, and the host
/// and port there.
pub proof fn lemma_form_parts(scheme: Seq<char>, host: Seq<char>, port: u16, path: Seq<char>)
    requires
        is_node_scheme(scheme),
        reads_in_form(host),
        !host.contains('/'),
        path.len() > 0 ==> path[0] == '/',
    ensures
        text::find_text(composed(scheme, host, port, path), seq![':', '/', '/']) == Some(
            scheme.len() as int,
        ),
        scheme_and_rest(composed(scheme, host, port, path)) == (
            scheme,
            form_authority(host, port) + path,
        ),
        text::first_index(form_authority(host, port) + path, '/') == form_authority(
            host,
            port,
        ).len(),
        host_port_behind(scheme, form_authority(host, port) + path) == Some((host, port)),
{
    let form = composed(scheme, host, port, path);
    let mark = seq![':', '/', '/'];
    let authority = form_authority(host, port);
    let rest = authority + path;
    let digits = number::decimal(port as nat);
    let n = scheme.len() as int;
    lemma_scheme(scheme);
    lemma_port_digits(port);
    assert(form =~= scheme + mark + rest);
    assert(form.subrange(n, n + 3) =~= mark);
    assert forall|k: int| 0 <= k < n implies !text::occurs_at(form, mark, k) by {
        if text::occurs_at(form, mark, k) {
            assert(form.subrange(k, k + 3)[0] == form[k]);
            assert(form[k] == scheme[k]);
        }
    }
    text::lemma_find_from(form, mark, 0, n);
    assert(form.take(n) =~= scheme);
    assert(form.skip(n + 3) =~= rest);
    assert forall|k: int| 0 <= k < authority.len() implies rest[k] != '/' by {
        assert(rest[k] == authority[k]);
        if host.contains(':') {
            if 1 <= k < 1 + host.len() {
                assert(authority[k] == host[k - 1]);
                assert(host.contains(host[k - 1]));
            } else if k >= host.len() + 3 {
                assert(authority[k] == digits[k - host.len() - 3]);
            }
        } else {
            if k < host.len() {
                assert(authority[k] == host[k]);
                assert(host.contains(host[k]));
            } else if k > host.len() {
                assert(authority[k] == digits[k - host.len() - 1]);
            }
        }
    }
    text::lemma_first_index(rest, '/', authority.len() as int);
    assert(rest.take(authority.len() as int) =~= authority);
    if host.contains(':') {
        assert(authority[0] == '[');
        lemma_bracketed_authority(host, port, default_port(scheme));
    } else {
        assert(authority[0] == host[0]);
        lemma_plain_authority(host, port, default_port(scheme));
    }
}

proof fn lemma_form_start(scheme: Seq<char>, host: Seq<char>, port: u16, path: Seq<char>)
    requires
        is_node_scheme(scheme),
    ensures
        composed(scheme, host, port, path).len() > 0,
        text::trim_start(composed(scheme, host, port, path)) == composed(scheme, host, port, path),
        composed(scheme, host, port, path) == composed(scheme, host, port, Seq::empty()) + path,
        !text::is_space_char(composed(scheme, host, port, Seq::empty()).last()),
{
    lemma_scheme(scheme);
    lemma_port_digits(port);
    let form = composed(scheme, host, port, path);
    let bare = composed(scheme, host, port, Seq::empty());
    let digits = number::decimal(port as nat);
    assert(form[0] == scheme[0]);
    assert(form =~= bare + path);
    assert(bare.last() == digits.last());
    assert(number::is_digit_char(digits[digits.len() - 1]));
}

/// A form still names its host and its port, for every scheme of a node and
/// whatever path follows.
pub proof fn forms_name_host_and_port(
    scheme: Seq<char>,
    host: Seq<char>,
    port: u16,
    path: Seq<char>,
)
    requires
        is_node_scheme(scheme),
        reads_in_form(host),
        !host.contains('/'),
        path.len() > 0 ==> path[0] == '/',
    ensures
        host_port_of(composed(scheme, host, port, path)) == Some((host, port)),
        scheme_and_rest(text::trimmed(composed(scheme, host, port, path))).0 == scheme,
{
    let short = text::trim_end(path);
    let bare = composed(scheme, host, port, Seq::empty());
    lemma_form_start(scheme, host, port, path);
    text::lemma_trim_end_behind(bare, path);
    lemma_form_start(scheme, host, port, short);
    lemma_trim_end_keeps_first(path);
    lemma_form_parts(scheme, host, port, short);
}

/// No character of the text is barred from node addresses.
pub open spec fn none_barred(s: Seq<char>) -> bool {
    forall|i: int| 0 <= i < s.len() ==> !is_barred(#[trigger] s[i])
}

/// Two texts without barred characters make one.
pub proof fn lemma_both_unbarred(a: Seq<char>, b: Seq<char>)
    requires
        none_barred(a),
        none_barred(b),
    ensures
        none_barred(a + b),
{
}

proof fn lemma_form_barred(scheme: Seq<char>, host: Seq<char>, port: u16, path: Seq<char>)
    requires
        is_node_scheme(scheme),
        none_barred(host),
        none_barred(path),
    ensures
        none_barred(composed(scheme, host, port, path)),
{
    let digits = number::decimal(port as nat);
    let mark = seq![':', '/', '/'];
    let shown = if host.contains(':') {
        seq!['['] + host + seq![']']
    } else {
        host
    };
    lemma_scheme(scheme);
    lemma_port_digits(port);
    lemma_both_unbarred(seq!['['], host);
    lemma_both_unbarred(seq!['['] + host, seq![']']);
    lemma_both_unbarred(scheme, mark);
    lemma_both_unbarred(scheme + mark, shown);
    lemma_both_unbarred(scheme + mark + shown, seq![':']);
    lemma_both_unbarred(scheme + mark + shown + seq![':'], digits);
    lemma_both_unbarred(scheme + mark + shown + seq![':'] + digits, path);
}

/// A form without white space at its end is trimmed.
pub proof fn lemma_form_trimmed(scheme: Seq<char>, host: Seq<char>, port: u16, path: Seq<char>)
    requires
        is_node_scheme(scheme),
        none_barred(path),
    ensures
        text::trimmed(composed(scheme, host, port, path)) == composed(scheme, host, port, path),
{
    let bare = composed(scheme, host, port, Seq::empty());
    lemma_form_start(scheme, host, port, path);
    text::lemma_trim_end_behind(bare, path);
    assert(text::trim_end(path) == path);
}

/// The form of a form is the form itself.
pub proof fn forms_are_their_own_form(
    scheme: Seq<char>,
    host: Seq<char>,
    port: u16,
    path: Seq<char>,
)
    requires
        is_node_scheme(scheme),
        reads_in_form(host),
        !host.contains('/'),
        text::lowercase(host) == host,
        port > 0,
        path.len() > 0 ==> path[0] == '/' && path.len() > 1,
        none_barred(host),
        none_barred(path),
    ensures
        form_of(composed(scheme, host, port, path)) == Ok::<Seq<char>, Seq<char>>(
            composed(scheme, host, port, path),
        ),
{
    let form = composed(scheme, host, port, path);
    let rest = form_authority(host, port) + path;
    lemma_form_parts(scheme, host, port, path);
    lemma_form_trimmed(scheme, host, port, path);
    lemma_form_barred(scheme, host, port, path);
    assert(path_of(rest) =~= path);
}

/// The host of an address is a part of the address, without a slash.
pub proof fn lemma_host_is_part(address: Seq<char>) -> (at: int)
    requires
        host_port_of(address) is Some,
    ensures
        0 <= at,
        at + host_of(address).len() <= text::trimmed(address).len(),
        host_of(address) == text::trimmed(address).subrange(
            at,
            at + host_of(address).len(),
        ),
        host_of(address).len() > 0,
        !host_of(address).contains('/'),
{
    let trimmed = text::trimmed(address);
    let mark = seq![':', '/', '/'];
    let (scheme, rest) = scheme_and_rest(trimmed);
    let host = host_of(address);
    text::lemma_find_from_bounds(trimmed, mark, 0);
    let from = match text::find_text(trimmed, mark) {
        Some(k) => k + 3,
        None => 0,
    };
    assert(rest =~= trimmed.skip(from));
    text::lemma_first_index_bounds(rest, '/');
    let authority = authority_of(rest);
    let at = if authority[0] == '[' {
        from + 1
    } else {
        from
    };
    if authority[0] == '[' {
        let inside = authority.skip(1);
        text::lemma_first_index_bounds(inside, ']');
        assert(host == inside.take(text::first_index(inside, ']')));
        assert(host =~= trimmed.subrange(at, at + host.len()));
    } else {
        text::lemma_last_index_bounds(authority, ':');
        assert(host =~= trimmed.subrange(at, at + host.len()));
    }
    assert forall|i: int| 0 <= i < host.len() implies host[i] != '/' by {
        assert(host[i] == rest[at - from + i]);
    }
    at
}

/// The path of an address without barred characters has none, and begins with a
/// slash that something follows.
pub proof fn lemma_path_is_part(address: Seq<char>)
    requires
        none_barred(text::trimmed(address)),
    ensures
        ({
            let path = path_of(scheme_and_rest(text::trimmed(address)).1);
            &&& none_barred(path)
            &&& path.len() > 0 ==> path[0] == '/' && path.len() > 1
        }),
{
    let trimmed = text::trimmed(address);
    let mark = seq![':', '/', '/'];
    let rest = scheme_and_rest(trimmed).1;
    text::lemma_find_from_bounds(trimmed, mark, 0);
    let from = match text::find_text(trimmed, mark) {
        Some(k) => k + 3,
        None => 0,
    };
    assert(rest =~= trimmed.skip(from));
    text::lemma_first_index_bounds(rest, '/');
    let path = path_of(rest);
    let skipped = rest.len() - path.len();
    assert forall|i: int| 0 <= i < path.len() implies !is_barred(#[trigger] path[i]) by {
        assert(path[i] == trimmed[from + skipped + i]);
    }
}

/// Filing an accepted address keeps what it names: the form names the same host
/// in lower case, the same port, which is not zero, and the same scheme.
pub proof fn filing_keeps_the_node(address: Seq<char>)
    requires
        form_of(address) is Ok,
        reads_in_form(text::lowercase(host_of(address))),
        !text::lowercase(host_of(address)).contains('/'),
    ensures
        ({
            let form = form_of(address)->Ok_0;
            let (host, port) = host_port_of(address)->0;
            &&& port > 0
            &&& host_port_of(form) == Some((text::lowercase(host), port))
            &&& scheme_and_rest(form).0 == scheme_and_rest(text::trimmed(address)).0
            &&& is_node_scheme(scheme_and_rest(form).0)
        }),
{
    let trimmed = text::trimmed(address);
    let (scheme, rest) = scheme_and_rest(trimmed);
    lemma_trimmed_twice(address);
    let (host, port) = host_port_of(address)->0;
    let path = path_of(rest);
    lemma_path_is_part(address);
    forms_name_host_and_port(scheme, text::lowercase(host), port, path);
    lemma_form_parts(scheme, text::lowercase(host), port, path);
}

/// The host of the address in lower case stays as it is when it is put in lower
/// case again, and reads in a form.
pub open spec fn files_stably(address: Seq<char>) -> bool {
    let host = text::lowercase(host_of(address));
    &&& text::lowercase(host) == host
    &&& reads_in_form(host)
    &&& !host.contains('/')
    &&& none_barred(host)
}

/// Filing twice is filing once: the form of an accepted address is its own form.
pub proof fn filing_twice_is_filing_once(address: Seq<char>)
    requires
        form_of(address) is Ok,
        files_stably(address),
    ensures
        ({
            let form = form_of(address)->Ok_0;
            &&& form_of(form) == Ok::<Seq<char>, Seq<char>>(form)
            &&& text::utf8_len(form) <= COMMUNITY_NODE_ADDRESS_MAX_LEN ==> normalized(form) == Ok::<
                Seq<char>,
                Seq<char>,
            >(form)
        }),
{
    let trimmed = text::trimmed(address);
    let (scheme, rest) = scheme_and_rest(trimmed);
    lemma_trimmed_twice(address);
    let (host, port) = host_port_of(address)->0;
    let path = path_of(rest);
    lemma_path_is_part(address);
    forms_are_their_own_form(scheme, text::lowercase(host), port, path);
    lemma_form_trimmed(scheme, text::lowercase(host), port, path);
}

/// Filing an accepted ASCII address keeps what it names, where its host reads in
/// a form: the form names the same host in lower case and the same port, and is
/// its own form.
pub proof fn filing_keeps_ascii_nodes(address: Seq<char>)
    requires
        text::is_ascii_text(address),
        form_of(address) is Ok,
        reads_in_form(host_of(address)),
    ensures
        files_stably(address),
        ({
            let form = form_of(address)->Ok_0;
            let (host, port) = host_port_of(address)->0;
            &&& port > 0
            &&& host_port_of(form) == Some((text::ascii_lower(host), port))
            &&& scheme_and_rest(form).0 == scheme_and_rest(text::trimmed(address)).0
            &&& is_node_scheme(scheme_and_rest(form).0)
            &&& form_of(form) == Ok::<Seq<char>, Seq<char>>(form)
            &&& text::utf8_len(form) <= COMMUNITY_NODE_ADDRESS_MAX_LEN ==> normalized(form) == Ok::<
                Seq<char>,
                Seq<char>,
            >(form)
        }),
{
    let trimmed = text::trimmed(address);
    lemma_trimmed_twice(address);
    let host = host_of(address);
    let at = lemma_host_is_part(address);
    text::lemma_trimmed_is_part(address);
    assert forall|i: int| 0 <= i < host.len() implies (#[trigger] host[i]) as u32 <= 0x7f
        && !is_barred(host[i]) by {
        assert(host[i] == trimmed[at + i]);
        assert(address.contains(trimmed[at + i]));
    }
    text::lemma_lowercase_ascii(host);
    let lower = text::lowercase(host);
    assert forall|c: char| (c == ':' || c == ']' || c == '/') implies lower.contains(c)
        == host.contains(c) by {
        if lower.contains(c) {
            let i = choose|i: int| 0 <= i < lower.len() && lower[i] == c;
            assert(host[i] == c);
        }
        if host.contains(c) {
            let i = choose|i: int| 0 <= i < host.len() && host[i] == c;
            assert(lower[i] == c);
        }
    }
    assert forall|i: int| 0 <= i < lower.len() implies !is_barred(#[trigger] lower[i]) by {
        assert(!is_barred(host[i]));
    }
    assert(lower[0] == text::ascii_lower_char(host[0]));
    filing_keeps_the_node(address);
    filing_twice_is_filing_once(address);
}

// ---------------------------------------------------------------------------
// Texts for display
// ---------------------------------------------------------------------------
/// The text without its control characters.
pub open spec fn without_control(s: Seq<char>) -> Seq<char>
    decreases s.len(),
{
    if s.len() == 0 {
        s
    } else if text::is_control_char(s.last()) {
        without_control(s.drop_last())
    } else {
        without_control(s.drop_last()).push(s.last())
    }
}

/// The first `n` characters of a text, or all where it has fewer.
pub open spec fn at_most(s: Seq<char>, n: nat) -> Seq<char> {
    if s.len() <= n {
        s
    } else {
        s.take(n as int)
    }
}

/// A text for display: no control characters, bounded, no white space around it.
pub open spec fn sanitized(raw: Seq<char>, max_len: nat) -> Seq<char> {
    text::trimmed(at_most(without_control(text::trimmed(raw)), max_len))
}

/// Cleans a submitted text for display.
pub fn sanitize_community_text(raw: &str, max_len: usize) -> (r: String)
    ensures
        r@ == sanitized(raw@, max_len as nat),
{
    let trimmed = text::trim_chars(text::chars_of(raw).as_slice());
    let mut kept: Vec<char> = Vec::new();
    let mut i: usize = 0;
    assert(trimmed@.take(0) =~= Seq::<char>::empty());
    while i < trimmed.len()
        invariant
            i <= trimmed@.len(),
            kept@ == without_control(trimmed@.take(i as int)),
        decreases trimmed@.len() - i,
    {
        let ghost longer = trimmed@.take(i + 1);
        assert(longer.drop_last() =~= trimmed@.take(i as int));
        assert(longer.last() == trimmed@[i as int]);
        if !text::is_control(trimmed[i]) {
            kept.push(trimmed[i]);
        }
        i = i + 1;
    }
    assert(trimmed@.take(i as int) =~= trimmed@);
    if kept.len() > max_len {
        kept = text::part_of(kept.as_slice(), 0, max_len);
    }
    assert(kept@ =~= at_most(without_control(trimmed@), max_len as nat));
    text::text_of(text::trim_chars(kept.as_slice()).as_slice())
}

} // verus!
