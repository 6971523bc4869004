//! What written numbers and addresses mean.
use vstd::prelude::*;
use crate::ip;
use crate::ip::{IpAddr, Ipv4Addr, Ipv6Addr};
use crate::number;
use crate::text;
use crate::text_laws;
use crate::validation;

verus! {

/// The text holds nothing but the digits 0 to 9.
pub open spec fn is_digits(s: Seq<char>) -> bool {
    forall|i: int| 0 <= i < s.len() ==> 48 <= (#[trigger] s[i]) as u32 <= 57
}

proof fn lemma_digit(c: char)
    ensures
        number::is_digit_char(c) <==> 48 <= c as u32 <= 57,
{
}

proof fn lemma_digits(s: Seq<char>)
    ensures
        number::all_digits(s) <==> is_digits(s),
{
    if is_digits(s) {
        assert forall|i: int| 0 <= i < s.len() implies number::is_digit_char(#[trigger] s[i]) by {
            lemma_digit(s[i]);
        }
    }
    if number::all_digits(s) {
        assert forall|i: int| 0 <= i < s.len() implies 48 <= (#[trigger] s[i]) as u32 <= 57 by {
            lemma_digit(s[i]);
        }
    }
}

/// A digit behind a number counts once, and what stands before it ten times.
pub proof fn each_digit_counts_tenfold(s: Seq<char>, c: char)
    requires
        48 <= c as u32 <= 57,
    ensures
        number::digits_value(Seq::empty()) == 0,
        number::digits_value(s.push(c)) == 10 * number::digits_value(s) + (c as u32 - 48),
{
    assert(s.push(c).drop_last() =~= s);
}

/// A text is read as a number exactly when it is made of digits, one at least,
/// with or without a plus before them, and the number is not too large.
pub proof fn numbers_are_digits_after_a_plus(s: Seq<char>, digits: Seq<char>, max: nat)
    requires
        s == digits || s == seq!['+'] + digits,
        s == digits ==> digits.len() == 0 || digits[0] != '+',
    ensures
        match number::unsigned_up_to(s, max) {
            Some(n) => digits.len() > 0 && is_digits(digits) && n == number::digits_value(digits) && n
                <= max,
            None => digits.len() == 0 || !is_digits(digits) || number::digits_value(digits) > max,
        },
{
    if s != digits {
        assert(s.skip(1) =~= digits);
    }
    lemma_digits(digits);
}

proof fn lemma_leading_digit(s: Seq<char>)
    requires
        s.len() > 0,
        number::all_digits(s),
        s[0] != '0',
    ensures
        number::digits_value(s) > 0,
    decreases s.len(),
{
    let rest = s.drop_last();
    assert(number::is_digit_char(s.last()));
    if s.len() > 1 {
        assert(number::all_digits(rest));
        lemma_leading_digit(rest);
    } else {
        assert(s.last() == s[0]);
        assert(number::is_digit_char(s[0]));
        reveal_with_fuel(number::digits_value, 2);
    }
}

/// A number has one spelling in digits without needless zeros, and that is how it
/// is written.
pub proof fn numbers_are_written_without_needless_zeros(s: Seq<char>)
    requires
        s.len() > 0,
        is_digits(s),
        s.len() > 1 ==> s[0] as u32 != 48,
    ensures
        number::decimal(number::digits_value(s)) == s,
    decreases s.len(),
{
    lemma_digits(s);
    let rest = s.drop_last();
    let last = s.last();
    assert(number::is_digit_char(last));
    let d = (last as nat - 48) as nat;
    let v = number::digits_value(rest);
    if s.len() > 1 {
        assert(number::all_digits(rest));
        assert(s[0] as u32 != 48);
        assert(rest[0] == s[0]);
        lemma_zero_code(s[0]);
        lemma_leading_digit(rest);
        lemma_digits(rest);
        numbers_are_written_without_needless_zeros(rest);
        let n = number::digits_value(s);
        assert(n == 10 * v + d);
        assert(n / 10 == v && n % 10 == d);
        assert(number::digit_char(d as int) == last);
        assert(s =~= rest.push(last));
    } else {
        assert(rest =~= Seq::empty());
        assert(number::digits_value(rest) == 0);
        assert(number::digit_char(d as int) == last);
        assert(s =~= seq![last]);
    }
}

proof fn lemma_zero_code(c: char)
    ensures
        c == '0' <==> c as u32 == 48,
{
}

/// What is written of a number are its digits, and they read back as the number.
pub proof fn numbers_read_back(n: nat)
    ensures
        number::decimal(n).len() > 0,
        is_digits(number::decimal(n)),
        number::digits_value(number::decimal(n)) == n,
{
    number::lemma_decimal_reads_back(n);
    lemma_digits(number::decimal(n));
}

/// Bytes are written as two digits each, the high half first, with small letters
/// for ten and more.
pub proof fn bytes_are_written_as_two_digits(bytes: Seq<u8>, i: int)
    requires
        0 <= i < bytes.len(),
    ensures
        number::hex(bytes).len() == 2 * bytes.len(),
        ({
            let high = bytes[i] as int / 16;
            let low = bytes[i] as int % 16;
            let a = number::hex(bytes)[2 * i] as int;
            let b = number::hex(bytes)[2 * i + 1] as int;
            &&& a == if high < 10 {
                48 + high
            } else {
                97 + high - 10
            }
            &&& b == if low < 10 {
                48 + low
            } else {
                97 + low - 10
            }
        }),
{
    let n = bytes[i];
    assert(0 <= n as int / 16 < 16);
    assert((2 * i) / 2 == i && (2 * i + 1) / 2 == i);
    assert((2 * i) % 2 == 0 && (2 * i + 1) % 2 == 1);
}

// ---------------------------------------------------------------------------
// Addresses
// ---------------------------------------------------------------------------
/// The four numbers of an address, with dots between them.
pub open spec fn dotted(ip: Ipv4Addr) -> Seq<char> {
    text_laws::put_together(
        seq![
            number::decimal(ip.a as nat),
            number::decimal(ip.b as nat),
            number::decimal(ip.c as nat),
            number::decimal(ip.d as nat),
        ],
        '.',
    )
}

proof fn lemma_put_four(p: Seq<Seq<char>>, c: char)
    requires
        p.len() == 4,
    ensures
        text_laws::put_together(p, c) == p[0] + seq![c] + p[1] + seq![c] + p[2] + seq![c] + p[3],
{
    reveal_with_fuel(text_laws::put_together, 4);
    let q = p.drop_first();
    let r = q.drop_first();
    let t = r.drop_first();
    assert(q[0] == p[1] && r[0] == p[2] && t[0] == p[3]);
    assert(text_laws::put_together(t, c) == p[3]);
    assert(text_laws::put_together(r, c) == p[2] + seq![c] + p[3]);
    assert(text_laws::put_together(q, c) == p[1] + seq![c] + (p[2] + seq![c] + p[3]));
    assert(text_laws::put_together(p, c) =~= p[0] + seq![c] + p[1] + seq![c] + p[2] + seq![c]
        + p[3]);
}

/// An address is written as its four numbers with dots between them, and only that
/// text is read as the address.
pub proof fn addresses_are_four_numbers_with_dots(s: Seq<char>, ip: Ipv4Addr)
    ensures
        ip::v4_text(ip) == dotted(ip),
        ip::v4_of(s) == Some(ip) <==> s == dotted(ip),
{
    let numbers = seq![
        number::decimal(ip.a as nat),
        number::decimal(ip.b as nat),
        number::decimal(ip.c as nat),
        number::decimal(ip.d as nat),
    ];
    lemma_put_four(numbers, '.');
    assert(ip::v4_text(ip) == dotted(ip));
    if s == dotted(ip) {
        ip::v4_text_reads_back(ip);
    }
    if ip::v4_of(s) == Some(ip) {
        let pieces = text::split_text(s, '.');
        text_laws::pieces_make_up_the_text(s, '.');
        lemma_put_four(pieces, '.');
        lemma_octet(pieces[0], ip.a);
        lemma_octet(pieces[1], ip.b);
        lemma_octet(pieces[2], ip.c);
        lemma_octet(pieces[3], ip.d);
    }
}

proof fn lemma_octet(s: Seq<char>, n: u8)
    requires
        ip::is_octet(s),
        number::digits_value(s) as u8 == n,
    ensures
        s == number::decimal(n as nat),
{
    lemma_digits(s);
    if s.len() > 1 {
        lemma_zero_code(s[0]);
    }
    numbers_are_written_without_needless_zeros(s);
}

/// A virtual address is one of the 254 host addresses of 10.126.126.0/24, with or
/// without white space around it.
pub proof fn virtual_addresses_are_of_one_network(s: Seq<char>, ip: Ipv4Addr)
    ensures
        validation::virtual_ip_of(s) == Some(ip) <==> text::trimmed(s) == dotted(ip) && ip.a
            == 10 && ip.b == 126 && ip.c == 126 && 1 <= ip.d <= 254,
{
    addresses_are_four_numbers_with_dots(text::trimmed(s), ip);
}

/// An IPv4 address in the clothes of an IPv6 address is the IPv4 address; any other
/// address is what it is.
pub proof fn mapped_addresses_are_unwrapped(a: u8, b: u8, c: u8, d: u8, v6: Ipv6Addr)
    ensures
        ip::canonical_ip(IpAddr::V4(Ipv4Addr { a, b, c, d })) == IpAddr::V4(
            Ipv4Addr { a, b, c, d },
        ),
        ip::canonical_ip(
            IpAddr::V6(
                Ipv6Addr {
                    s0: 0,
                    s1: 0,
                    s2: 0,
                    s3: 0,
                    s4: 0,
                    s5: 0xffff,
                    s6: (a * 256 + b) as u16,
                    s7: (c * 256 + d) as u16,
                },
            ),
        ) == IpAddr::V4(Ipv4Addr { a, b, c, d }),
        v6.s0 != 0 || v6.s1 != 0 || v6.s2 != 0 || v6.s3 != 0 || v6.s4 != 0 || v6.s5 != 0xffff
            ==> ip::canonical_ip(IpAddr::V6(v6)) == IpAddr::V6(v6),
{
    let s6: u16 = (a * 256 + b) as u16;
    let s7: u16 = (c * 256 + d) as u16;
    assert(s6 == a * 256 + b);
    assert(s7 == c * 256 + d);
    assert(s6 / 256 == a && s6 % 256 == b);
    assert(s7 / 256 == c && s7 % 256 == d);
}

/// The number that an address is.
pub open spec fn v4_number(ip: Ipv4Addr) -> int {
    ip.a * 16_777_216 + ip.b * 65_536 + ip.c * 256 + ip.d
}

/// An IPv4 address is public unless it is in one of the networks that are set
/// apart: 0.0.0.0 alone, 127/8, 10/8, 172.16/12, 192.168/16, 169.254/16, 192.0.2/24,
/// 198.51.100/24, 203.0.113/24, 100.64/10, 192.0.0/24, 198.18/15, or from 224 up.
pub proof fn public_addresses_are_in_no_network_set_apart(ip: Ipv4Addr)
    ensures
        ip::public_ip(IpAddr::V4(ip)) <==> {
            let n = v4_number(ip);
            &&& n != 0
            &&& !(2_130_706_432 <= n < 2_147_483_648)
            &&& !(167_772_160 <= n < 184_549_376)
            &&& !(2_886_729_728 <= n < 2_887_778_304)
            &&& !(3_232_235_520 <= n < 3_232_301_056)
            &&& !(2_851_995_648 <= n < 2_852_061_184)
            &&& !(3_221_225_984 <= n < 3_221_226_240)
            &&& !(3_325_256_704 <= n < 3_325_256_960)
            &&& !(3_405_803_776 <= n < 3_405_804_032)
            &&& !(1_681_915_904 <= n < 1_686_110_208)
            &&& !(3_221_225_472 <= n < 3_221_225_728)
            &&& !(3_323_068_416 <= n < 3_323_199_488)
            &&& n < 3_758_096_384
        },
{
}

/// An IPv6 address that holds an IPv4 address is as public as that one. Any other
/// is public unless its upper 96 bits are zero, or it is multicast, unique local,
/// link local or for documentation.
pub proof fn public_ipv6_addresses(v6: Ipv6Addr, v4: Ipv4Addr)
    ensures
        ip::canonical_ip(IpAddr::V6(v6)) == IpAddr::V4(v4) ==> ip::public_ip(IpAddr::V6(v6))
            == ip::public_ip(IpAddr::V4(v4)),
        ip::canonical_ip(IpAddr::V6(v6)) == IpAddr::V6(v6) ==> (ip::public_ip(IpAddr::V6(v6)) <==> {
            &&& v6.s0 > 0 || v6.s1 > 0 || v6.s2 > 0 || v6.s3 > 0 || v6.s4 > 0 || v6.s5 > 0
            &&& v6.s0 / 256 != 0xff
            &&& v6.s0 / 512 != 126
            &&& v6.s0 / 64 != 1018
            &&& v6.s0 != 0x2001 || v6.s1 != 0x0db8
        }),
{
}

} // verus!
