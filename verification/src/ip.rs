//! IP addresses as plain values: their textual forms and the address classes
//! that admission and probing depend on.
use vstd::prelude::*;
use crate::number;
use crate::text;

verus! {

#[derive(Clone, Copy, Debug, PartialEq, Eq, Structural)]
pub struct Ipv4Addr {
    pub a: u8,
    pub b: u8,
    pub c: u8,
    pub d: u8,
}

#[derive(Clone, Copy, Debug, PartialEq, Eq, Structural)]
pub struct Ipv6Addr {
    pub s0: u16,
    pub s1: u16,
    pub s2: u16,
    pub s3: u16,
    pub s4: u16,
    pub s5: u16,
    pub s6: u16,
    pub s7: u16,
}

#[derive(Clone, Copy, Debug, PartialEq, Eq, Structural)]
pub enum IpAddr {
    V4(Ipv4Addr),
    V6(Ipv6Addr),
}

// ---------------------------------------------------------------------------
// Dotted decimal
// ---------------------------------------------------------------------------
/// One to three decimal digits without a leading zero, at most 255.
pub open spec fn is_octet(s: Seq<char>) -> bool {
    &&& 1 <= s.len() <= 3
    &&& number::all_digits(s)
    &&& s.len() > 1 ==> s[0] != '0'
    &&& number::digits_value(s) <= 255
}

/// The address that `s` writes in dotted decimal.
pub open spec fn v4_of(s: Seq<char>) -> Option<Ipv4Addr> {
    let pieces = text::split_text(s, '.');
    if pieces.len() == 4 && is_octet(pieces[0]) && is_octet(pieces[1]) && is_octet(pieces[2])
        && is_octet(pieces[3]) {
        Some(
            Ipv4Addr {
                a: number::digits_value(pieces[0]) as u8,
                b: number::digits_value(pieces[1]) as u8,
                c: number::digits_value(pieces[2]) as u8,
                d: number::digits_value(pieces[3]) as u8,
            },
        )
    } else {
        None
    }
}

fn parse_octet(s: &[char]) -> (r: Option<u8>)
    ensures
        match r {
            Some(n) => is_octet(s@) && number::digits_value(s@) == n,
            None => !is_octet(s@),
        },
{
    if s.len() == 0 || s.len() > 3 || (s.len() > 1 && s[0] == '0') {
        return None;
    }
    if s[0] == '+' {
        assert(!number::is_digit_char(s@[0]));
        return None;
    }
    match number::parse_unsigned(s, 255) {
        Some(n) => Some(n as u8),
        None => None,
    }
}

/// Reads an address in dotted decimal.
pub fn parse_v4(s: &[char]) -> (r: Option<Ipv4Addr>)
    ensures
        r == v4_of(s@),
{
    let pieces = text::split_chars(s, '.');
    let ghost parts = text::split_text(s@, '.');
    assert(pieces@.len() == parts.len());
    assert(forall|i: int| 0 <= i < parts.len() ==> parts[i] == pieces@[i]@);
    if pieces.len() != 4 {
        return None;
    }
    match (
        parse_octet(pieces[0].as_slice()),
        parse_octet(pieces[1].as_slice()),
        parse_octet(pieces[2].as_slice()),
        parse_octet(pieces[3].as_slice()),
    ) {
        (Some(a), Some(b), Some(c), Some(d)) => Some(Ipv4Addr { a, b, c, d }),
        _ => None,
    }
}

/// The address in dotted decimal.
pub open spec fn v4_text(ip: Ipv4Addr) -> Seq<char> {
    number::decimal(ip.a as nat) + seq!['.'] + number::decimal(ip.b as nat) + seq!['.']
        + number::decimal(ip.c as nat) + seq!['.'] + number::decimal(ip.d as nat)
}

impl Ipv4Addr {
    /// The address in dotted decimal.
    pub fn to_text(&self) -> (r: String)
        ensures
            r@ == v4_text(*self),
    {
        let mut out = number::decimal_text(self.a as u64);
        out.push('.');
        number::push_decimal(&mut out, self.b as u64);
        out.push('.');
        number::push_decimal(&mut out, self.c as u64);
        out.push('.');
        number::push_decimal(&mut out, self.d as u64);
        assert(out@ =~= v4_text(*self));
        out
    }
}

/// What `decimal` writes for a byte reads back as the byte.
pub proof fn lemma_decimal_octet(n: u8)
    ensures
        is_octet(number::decimal(n as nat)),
        number::digits_value(number::decimal(n as nat)) == n,
        !number::decimal(n as nat).contains('.'),
{
    reveal_with_fuel(number::decimal, 4);
    reveal_with_fuel(number::digits_value, 4);
    let d = number::decimal(n as nat);
    if n < 10 {
        assert(d.drop_last() =~= Seq::<char>::empty());
    } else if n < 100 {
        assert(d.drop_last() =~= seq![number::digit_char(n as int / 10)]);
        assert(d.drop_last().drop_last() =~= Seq::<char>::empty());
    } else {
        let hundreds = n as int / 100;
        assert((n as int / 10) / 10 == hundreds);
        assert(d.drop_last() =~= seq![
            number::digit_char(hundreds),
            number::digit_char((n as int / 10) % 10),
        ]);
        assert(d.drop_last().drop_last() =~= seq![number::digit_char(hundreds)]);
        assert(d.drop_last().drop_last().drop_last() =~= Seq::<char>::empty());
    }
}

/// Splitting where the separator stands behind a piece without it.
pub proof fn lemma_split_head(piece: Seq<char>, rest: Seq<char>, separator: char)
    requires
        !piece.contains(separator),
    ensures
        text::split_text(piece + seq![separator] + rest, separator) == seq![piece]
            + text::split_text(rest, separator),
{
    let s = piece + seq![separator] + rest;
    assert forall|k: int| 0 <= k < piece.len() implies s[k] != separator by {
        assert(piece.contains(piece[k]));
    }
    text::lemma_first_index(s, separator, piece.len() as int);
    assert(s.take(piece.len() as int) =~= piece);
    assert(s.skip(piece.len() as int + 1) =~= rest);
}

/// A text without the separator is its only piece.
pub proof fn lemma_split_none(piece: Seq<char>, separator: char)
    requires
        !piece.contains(separator),
    ensures
        text::split_text(piece, separator) == seq![piece],
{
    assert forall|k: int| 0 <= k < piece.len() implies piece[k] != separator by {
        assert(piece.contains(piece[k]));
    }
    text::lemma_first_index(piece, separator, piece.len() as int);
}

/// Reading a written IPv4 address gives the address back.
pub proof fn v4_text_reads_back(ip: Ipv4Addr)
    ensures
        v4_of(v4_text(ip)) == Some(ip),
{
    let a = number::decimal(ip.a as nat);
    let b = number::decimal(ip.b as nat);
    let c = number::decimal(ip.c as nat);
    let d = number::decimal(ip.d as nat);
    let dot = seq!['.'];
    lemma_decimal_octet(ip.a);
    lemma_decimal_octet(ip.b);
    lemma_decimal_octet(ip.c);
    lemma_decimal_octet(ip.d);
    lemma_split_none(d, '.');
    lemma_split_head(c, d, '.');
    lemma_split_head(b, c + dot + d, '.');
    lemma_split_head(a, b + dot + (c + dot + d), '.');
    assert(v4_text(ip) =~= a + dot + (b + dot + (c + dot + d)));
    assert(text::split_text(v4_text(ip), '.') =~= seq![a, b, c, d]);
}

// ---------------------------------------------------------------------------
// Colon hexadecimal
// ---------------------------------------------------------------------------
pub open spec fn is_hex_char(c: char) -> bool {
    number::is_digit_char(c) || ('a' <= c && c <= 'f') || ('A' <= c && c <= 'F')
}

/// The value of one hexadecimal digit.
pub open spec fn hex_digit(c: char) -> nat {
    if number::is_digit_char(c) {
        (c as nat - 48) as nat
    } else if 'a' <= c {
        (c as nat - 87) as nat
    } else {
        (c as nat - 55) as nat
    }
}

/// The number that the hexadecimal digits `s` write.
pub open spec fn hex_value(s: Seq<char>) -> nat
    decreases s.len(),
{
    if s.len() == 0 {
        0
    } else {
        hex_value(s.drop_last()) * 16 + hex_digit(s.last())
    }
}

/// One to four hexadecimal digits.
pub open spec fn is_group(s: Seq<char>) -> bool {
    1 <= s.len() <= 4 && forall|i: int| 0 <= i < s.len() ==> is_hex_char(#[trigger] s[i])
}

pub open spec fn all_groups(fields: Seq<Seq<char>>) -> bool {
    forall|i: int| 0 <= i < fields.len() ==> is_group(#[trigger] fields[i])
}

/// The numbers that hexadecimal groups write.
pub open spec fn group_values(fields: Seq<Seq<char>>) -> Seq<u16> {
    Seq::new(fields.len(), |i: int| hex_value(fields[i]) as u16)
}

/// The two groups that an embedded IPv4 address stands for.
pub open spec fn v4_groups(ip: Ipv4Addr) -> Seq<u16> {
    seq![(ip.a * 256 + ip.b) as u16, (ip.c * 256 + ip.d) as u16]
}

/// The groups of colon-separated fields, none where a field is not a group.
pub open spec fn plain_groups(s: Seq<char>) -> Option<Seq<u16>> {
    let fields = text::split_text(s, ':');
    if s.len() == 0 {
        Some(Seq::empty())
    } else if all_groups(fields) {
        Some(group_values(fields))
    } else {
        None
    }
}

/// The groups of colon-separated fields, of which the last may be an IPv4 address.
pub open spec fn mixed_groups(s: Seq<char>) -> Option<Seq<u16>> {
    let fields = text::split_text(s, ':');
    if s.len() == 0 {
        Some(Seq::empty())
    } else if all_groups(fields) {
        Some(group_values(fields))
    } else if fields.len() > 0 && all_groups(fields.drop_last()) {
        match v4_of(fields.last()) {
            Some(ip) => Some(group_values(fields.drop_last()) + v4_groups(ip)),
            None => None,
        }
    } else {
        None
    }
}

/// The address with the given eight groups.
pub open spec fn v6_of_groups(g: Seq<u16>) -> Ipv6Addr {
    Ipv6Addr { s0: g[0], s1: g[1], s2: g[2], s3: g[3], s4: g[4], s5: g[5], s6: g[6], s7: g[7] }
}

/// The address that `s` writes in colon hexadecimal: eight groups, or fewer
/// with one `::` that stands for at least one group of zeros.
pub open spec fn v6_of(s: Seq<char>) -> Option<Ipv6Addr> {
    match text::find_text(s, seq![':', ':']) {
        None => match mixed_groups(s) {
            Some(g) => if g.len() == 8 {
                Some(v6_of_groups(g))
            } else {
                None
            },
            None => None,
        },
        Some(k) => match (plain_groups(s.take(k)), mixed_groups(s.skip(k + 2))) {
            (Some(head), Some(tail)) => if head.len() + tail.len() <= 7 {
                Some(
                    v6_of_groups(
                        head + Seq::new((8 - head.len() - tail.len()) as nat, |i: int| 0u16) + tail,
                    ),
                )
            } else {
                None
            },
            _ => None,
        },
    }
}

/// The address that `s` writes.
pub open spec fn ip_of(s: Seq<char>) -> Option<IpAddr> {
    match v4_of(s) {
        Some(ip) => Some(IpAddr::V4(ip)),
        None => match v6_of(s) {
            Some(ip) => Some(IpAddr::V6(ip)),
            None => None,
        },
    }
}

fn parse_group(s: &[char]) -> (r: Option<u16>)
    ensures
        match r {
            Some(n) => is_group(s@) && hex_value(s@) == n,
            None => !is_group(s@),
        },
{
    if s.len() == 0 || s.len() > 4 {
        return None;
    }
    let mut value: u32 = 0;
    let mut i: usize = 0;
    while i < s.len()
        invariant
            i <= s@.len() <= 4,
            value == hex_value(s@.take(i as int)),
            i == 0 ==> value == 0,
            i == 1 ==> value < 16,
            i == 2 ==> value < 256,
            i == 3 ==> value < 4096,
            i == 4 ==> value < 65536,
            forall|k: int| 0 <= k < i ==> is_hex_char(#[trigger] s@[k]),
        decreases s@.len() - i,
    {
        let c = s[i];
        let digit: u32 = if number::is_digit(c) {
            c as u32 - 48
        } else if 'a' <= c && c <= 'f' {
            c as u32 - 87
        } else if 'A' <= c && c <= 'F' {
            c as u32 - 55
        } else {
            return None;
        };
        let ghost longer = s@.take(i + 1);
        assert(longer.drop_last() =~= s@.take(i as int));
        assert(longer.last() == c);
        value = value * 16 + digit;
        i = i + 1;
    }
    assert(s@.take(i as int) =~= s@);
    Some(value as u16)
}

/// Reads the groups of the first `n` fields.
fn parse_groups(fields: &Vec<Vec<char>>, n: usize) -> (r: Option<Vec<u16>>)
    requires
        n <= fields@.len(),
    ensures
        match r {
            Some(g) => all_groups(text::pieces_view(fields@).take(n as int)) && g@ == group_values(
                text::pieces_view(fields@).take(n as int),
            ),
            None => !all_groups(text::pieces_view(fields@).take(n as int)),
        },
{
    let ghost view = text::pieces_view(fields@).take(n as int);
    let mut out: Vec<u16> = Vec::new();
    let mut i: usize = 0;
    while i < n
        invariant
            i <= n <= fields@.len(),
            view == text::pieces_view(fields@).take(n as int),
            view.len() == n,
            out@.len() == i,
            forall|k: int|
                0 <= k < i ==> is_group(#[trigger] view[k]) && out@[k] == hex_value(view[k]) as u16,
        decreases n - i,
    {
        assert(view[i as int] == fields@[i as int]@);
        match parse_group(fields[i].as_slice()) {
            Some(g) => {
                out.push(g);
            },
            None => {
                return None;
            },
        }
        i = i + 1;
    }
    assert(out@ =~= group_values(view));
    Some(out)
}

fn parse_plain_groups(s: &[char]) -> (r: Option<Vec<u16>>)
    ensures
        match r {
            Some(g) => plain_groups(s@) == Some(g@),
            None => plain_groups(s@) is None,
        },
{
    if s.len() == 0 {
        let out: Vec<u16> = Vec::new();
        assert(out@ =~= Seq::empty());
        return Some(out);
    }
    let fields = text::split_chars(s, ':');
    assert(text::pieces_view(fields@).take(fields@.len() as int) =~= text::pieces_view(fields@));
    parse_groups(&fields, fields.len())
}

fn parse_mixed_groups(s: &[char]) -> (r: Option<Vec<u16>>)
    ensures
        match r {
            Some(g) => mixed_groups(s@) == Some(g@),
            None => mixed_groups(s@) is None,
        },
{
    if s.len() == 0 {
        let out: Vec<u16> = Vec::new();
        assert(out@ =~= Seq::empty());
        return Some(out);
    }
    let fields = text::split_chars(s, ':');
    let ghost view = text::pieces_view(fields@);
    let n: usize = fields.len();
    assert(view.take(n as int) =~= view);
    assert(view.take(n - 1) =~= view.drop_last());
    assert(view.last() == fields@[n - 1]@);
    if let Some(groups) = parse_groups(&fields, n) {
        return Some(groups);
    }
    match (parse_groups(&fields, n - 1), parse_v4(fields[n - 1].as_slice())) {
        (Some(mut groups), Some(ip)) => {
            let ghost before = groups@;
            groups.push(ip.a as u16 * 256 + ip.b as u16);
            groups.push(ip.c as u16 * 256 + ip.d as u16);
            assert(groups@ =~= before + v4_groups(ip));
            Some(groups)
        },
        _ => None,
    }
}

fn v6_from(g: &Vec<u16>) -> (r: Ipv6Addr)
    requires
        g@.len() == 8,
    ensures
        r == v6_of_groups(g@),
{
    Ipv6Addr { s0: g[0], s1: g[1], s2: g[2], s3: g[3], s4: g[4], s5: g[5], s6: g[6], s7: g[7] }
}

/// Reads an address in colon hexadecimal.
pub fn parse_v6(s: &[char]) -> (r: Option<Ipv6Addr>)
    ensures
        r == v6_of(s@),
{
    let colons: Vec<char> = vec![':', ':'];
    assert(colons@ =~= seq![':', ':']);
    match text::find_position(s, colons.as_slice()) {
        None => match parse_mixed_groups(s) {
            Some(g) => if g.len() == 8 {
                Some(v6_from(&g))
            } else {
                None
            },
            None => None,
        },
        Some(k) => {
            let n: usize = s.len();
            assert(k + 2 <= n);
            let head_text = text::part_of(s, 0, k);
            let tail_text = text::part_of(s, k + 2, n);
            assert(head_text@ =~= s@.take(k as int));
            assert(tail_text@ =~= s@.skip(k + 2));
            match (
                parse_plain_groups(head_text.as_slice()),
                parse_mixed_groups(tail_text.as_slice()),
            ) {
                (Some(head), Some(tail)) => {
                    if head.len() > 7 || tail.len() > 7 - head.len() {
                        return None;
                    }
                    let zeros: usize = 8 - head.len() - tail.len();
                    let ghost gap = Seq::new(zeros as nat, |i: int| 0u16);
                    let ghost whole = head@ + gap + tail@;
                    let mut all: Vec<u16> = Vec::new();
                    let mut i: usize = 0;
                    while i < 8
                        invariant
                            i <= 8,
                            head@.len() + zeros + tail@.len() == 8,
                            gap == Seq::new(zeros as nat, |i: int| 0u16),
                            whole == head@ + gap + tail@,
                            all@ == whole.take(i as int),
                        decreases 8 - i,
                    {
                        let g: u16 = if i < head.len() {
                            head[i]
                        } else if i < head.len() + zeros {
                            0
                        } else {
                            tail[i - head.len() - zeros]
                        };
                        assert(g == whole[i as int]);
                        all.push(g);
                        i = i + 1;
                        assert(all@ =~= whole.take(i as int));
                    }
                    assert(whole.take(8) =~= whole);
                    Some(v6_from(&all))
                },
                _ => None,
            }
        },
    }
}

/// Reads an address of either family.
pub fn parse_ip(s: &[char]) -> (r: Option<IpAddr>)
    ensures
        r == ip_of(s@),
{
    match parse_v4(s) {
        Some(ip) => Some(IpAddr::V4(ip)),
        None => match parse_v6(s) {
            Some(ip) => Some(IpAddr::V6(ip)),
            None => None,
        },
    }
}

// ---------------------------------------------------------------------------
// Address classes
// ---------------------------------------------------------------------------
/// `::ffff:a.b.c.d` as the IPv4 address it maps.
pub open spec fn mapped_v4(ip: Ipv6Addr) -> Option<Ipv4Addr> {
    if ip.s0 == 0 && ip.s1 == 0 && ip.s2 == 0 && ip.s3 == 0 && ip.s4 == 0 && ip.s5 == 0xffff {
        Some(
            Ipv4Addr {
                a: (ip.s6 / 256) as u8,
                b: (ip.s6 % 256) as u8,
                c: (ip.s7 / 256) as u8,
                d: (ip.s7 % 256) as u8,
            },
        )
    } else {
        None
    }
}

/// An IPv4-mapped IPv6 address as IPv4; any other address as it is.
pub open spec fn canonical_ip(ip: IpAddr) -> IpAddr {
    match ip {
        IpAddr::V4(_) => ip,
        IpAddr::V6(v6) => match mapped_v4(v6) {
            Some(v4) => IpAddr::V4(v4),
            None => ip,
        },
    }
}

fn v4_mapped_in(ip: Ipv6Addr) -> (r: Option<Ipv4Addr>)
    ensures
        r == mapped_v4(ip),
{
    if ip.s0 == 0 && ip.s1 == 0 && ip.s2 == 0 && ip.s3 == 0 && ip.s4 == 0 && ip.s5 == 0xffff {
        Some(
            Ipv4Addr {
                a: (ip.s6 / 256) as u8,
                b: (ip.s6 % 256) as u8,
                c: (ip.s7 / 256) as u8,
                d: (ip.s7 % 256) as u8,
            },
        )
    } else {
        None
    }
}

/// An IPv4-mapped IPv6 address as IPv4; any other address as it is.
pub fn canonical(ip: IpAddr) -> (r: IpAddr)
    ensures
        r == canonical_ip(ip),
{
    match ip {
        IpAddr::V4(_) => ip,
        IpAddr::V6(v6) => match v4_mapped_in(v6) {
            Some(v4) => IpAddr::V4(v4),
            None => ip,
        },
    }
}

/// The publicly routable unicast addresses of IPv4.
pub open spec fn public_v4(ip: Ipv4Addr) -> bool {
    &&& !(ip.a == 0 && ip.b == 0 && ip.c == 0 && ip.d == 0)
    // loopback
    &&& ip.a != 127
    // private use
    &&& ip.a != 10
    &&& !(ip.a == 172 && 16 <= ip.b <= 31)
    &&& !(ip.a == 192 && ip.b == 168)
    // link local
    &&& !(ip.a == 169 && ip.b == 254)
    // documentation
    &&& !(ip.a == 192 && ip.b == 0 && ip.c == 2)
    &&& !(ip.a == 198 && ip.b == 51 && ip.c == 100)
    &&& !(ip.a == 203 && ip.b == 0 && ip.c == 113)
    // carrier-grade NAT
    &&& !(ip.a == 100 && 64 <= ip.b <= 127)
    // protocol assignments
    &&& !(ip.a == 192 && ip.b == 0 && ip.c == 0)
    // benchmarking
    &&& !(ip.a == 198 && 18 <= ip.b <= 19)
    // multicast, reserved and broadcast
    &&& ip.a < 224
}

/// The publicly routable unicast addresses.
pub open spec fn public_ip(ip: IpAddr) -> bool {
    match ip {
        IpAddr::V4(v4) => public_v4(v4),
        IpAddr::V6(v6) => match mapped_v4(v6) {
            // A mapped address is judged as the IPv4 address.
            Some(v4) => public_v4(v4),
            None => {
                // unspecified, loopback and the retired IPv4-compatible form
                &&& !(v6.s0 == 0 && v6.s1 == 0 && v6.s2 == 0 && v6.s3 == 0 && v6.s4 == 0 && v6.s5
                    == 0)
                // multicast
                &&& v6.s0 < 0xff00
                // unique local
                &&& !(0xfc00 <= v6.s0 <= 0xfdff)
                // link local
                &&& !(0xfe80 <= v6.s0 <= 0xfebf)
                // documentation
                &&& !(v6.s0 == 0x2001 && v6.s1 == 0x0db8)
            },
        },
    }
}

fn is_public_v4(ip: Ipv4Addr) -> (r: bool)
    ensures
        r == public_v4(ip),
{
    !(ip.a == 0 && ip.b == 0 && ip.c == 0 && ip.d == 0) && ip.a != 127 && ip.a != 10 && !(ip.a
        == 172 && 16 <= ip.b && ip.b <= 31) && !(ip.a == 192 && ip.b == 168) && !(ip.a == 169
        && ip.b == 254) && !(ip.a == 192 && ip.b == 0 && ip.c == 2) && !(ip.a == 198 && ip.b == 51
        && ip.c == 100) && !(ip.a == 203 && ip.b == 0 && ip.c == 113) && !(ip.a == 100 && 64
        <= ip.b && ip.b <= 127) && !(ip.a == 192 && ip.b == 0 && ip.c == 0) && !(ip.a == 198 && 18
        <= ip.b && ip.b <= 19) && ip.a < 224
}

/// Decides whether an address may be probed: only publicly routable unicast
/// addresses may, so that a submission cannot aim the server at its own network.
pub fn is_public_probe_target(ip: &IpAddr) -> (r: bool)
    ensures
        r == public_ip(*ip),
{
    match *ip {
        IpAddr::V4(v4) => is_public_v4(v4),
        IpAddr::V6(v6) => match v4_mapped_in(v6) {
            Some(v4) => is_public_v4(v4),
            None => {
                !(v6.s0 == 0 && v6.s1 == 0 && v6.s2 == 0 && v6.s3 == 0 && v6.s4 == 0 && v6.s5 == 0)
                    && v6.s0 < 0xff00 && !(0xfc00 <= v6.s0 && v6.s0 <= 0xfdff) && !(0xfe80
                    <= v6.s0 && v6.s0 <= 0xfebf) && !(v6.s0 == 0x2001 && v6.s1 == 0x0db8)
            },
        },
    }
}

} // verus!
