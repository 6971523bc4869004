//! What the texts of IPv6 addresses mean.
use vstd::prelude::*;
use crate::ip;
use crate::ip::{IpAddr, Ipv4Addr, Ipv6Addr};
use crate::number;
use crate::number_laws;
use crate::text;
use crate::text_laws;

verus! {

/// The digit that a character is in a hexadecimal number, in small letters or
/// capitals.
pub open spec fn digit_of(c: char) -> Option<int> {
    let n = c as u32 as int;
    if 48 <= n <= 57 {
        Some(n - 48)
    } else if 97 <= n <= 102 {
        Some(n - 97 + 10)
    } else if 65 <= n <= 70 {
        Some(n - 65 + 10)
    } else {
        None
    }
}

/// One to four hexadecimal digits.
pub open spec fn is_short_hex(s: Seq<char>) -> bool {
    1 <= s.len() <= 4 && forall|i: int| 0 <= i < s.len() ==> (digit_of(#[trigger] s[i]) is Some)
}

proof fn lemma_digit_of(c: char)
    ensures
        ip::is_hex_char(c) <==> digit_of(c) is Some,
        digit_of(c) is Some ==> ip::hex_digit(c) == digit_of(c)->0,
        digit_of(c) is Some ==> c != ':' && c != '.',
{
}

proof fn lemma_group(s: Seq<char>)
    ensures
        ip::is_group(s) <==> is_short_hex(s),
{
    if is_short_hex(s) {
        assert forall|i: int| 0 <= i < s.len() implies ip::is_hex_char(#[trigger] s[i]) by {
            lemma_digit_of(s[i]);
        }
    }
    if ip::is_group(s) {
        assert forall|i: int| 0 <= i < s.len() implies digit_of(#[trigger] s[i]) is Some by {
            lemma_digit_of(s[i]);
        }
    }
}

/// A digit behind a hexadecimal number counts once, and what stands before it
/// sixteen times.
pub proof fn each_hex_digit_counts_sixteenfold(s: Seq<char>, c: char)
    requires
        digit_of(c) is Some,
    ensures
        ip::hex_value(Seq::empty()) == 0,
        ip::hex_value(s.push(c)) == 16 * ip::hex_value(s) + digit_of(c)->0,
{
    assert(s.push(c).drop_last() =~= s);
    lemma_digit_of(c);
}

/// Pieces that are there and hold no colon.
pub open spec fn are_pieces(pieces: Seq<Seq<char>>) -> bool {
    forall|i: int|
        0 <= i < pieces.len() ==> (#[trigger] pieces[i]).len() > 0 && !pieces[i].contains(':')
}

proof fn lemma_pieces_apart(pieces: Seq<Seq<char>>)
    requires
        are_pieces(pieces),
        pieces.len() > 0,
    ensures
        ({
            let s = text_laws::put_together(pieces, ':');
            &&& s.len() > 0
            &&& s[0] != ':'
            &&& s.last() != ':'
            &&& forall|k: int| 0 <= k < s.len() - 1 ==> #[trigger] s[k] != ':' || s[k + 1] != ':'
            &&& text::split_text(s, ':') == pieces
        }),
    decreases pieces.len(),
{
    let first = pieces[0];
    let s = text_laws::put_together(pieces, ':');
    assert(first.len() > 0 && !first.contains(':'));
    assert forall|k: int| 0 <= k < first.len() implies first[k] != ':' by {
        assert(first.contains(first[k]));
    }
    if pieces.len() == 1 {
        ip::lemma_split_none(first, ':');
        assert(pieces =~= seq![first]);
    } else {
        let others = pieces.drop_first();
        let rest = text_laws::put_together(others, ':');
        assert forall|i: int| 0 <= i < others.len() implies (#[trigger] others[i]).len() > 0
            && !others[i].contains(':') by {
            assert(others[i] == pieces[i + 1]);
        }
        lemma_pieces_apart(others);
        assert(s == first + seq![':'] + rest);
        ip::lemma_split_head(first, rest, ':');
        assert(pieces =~= seq![first] + others);
        assert forall|k: int| 0 <= k < s.len() - 1 implies #[trigger] s[k] != ':' || s[k + 1]
            != ':' by {
            if k < first.len() {
                assert(s[k] == first[k]);
            } else if k == first.len() {
                assert(s[k + 1] == rest[0]);
            } else {
                assert(s[k] == rest[k - first.len() - 1]);
                assert(s[k + 1] == rest[k - first.len()]);
            }
        }
        assert(s.last() == rest.last());
    }
}

/// The last two sixteen-bit groups that an IPv4 address stands for.
pub open spec fn as_groups(v4: Ipv4Addr) -> Seq<int> {
    seq![v4.a * 256 + v4.b, v4.c * 256 + v4.d]
}

/// The values of groups.
pub open spec fn values(groups: Seq<Seq<char>>) -> Seq<int> {
    Seq::new(groups.len(), |i: int| ip::hex_value(groups[i]) as int)
}

/// The groups that the pieces of a text stand for: a number each, or two for an IPv4
/// address at the end.
pub open spec fn are_groups(pieces: Seq<Seq<char>>, groups: Seq<int>) -> bool {
    ||| are_short_hex(pieces) && groups == values(pieces)
    ||| exists|v4: Ipv4Addr| #[trigger] end_in_v4(pieces, groups, v4)
}

/// All pieces are hexadecimal groups.
pub open spec fn are_short_hex(pieces: Seq<Seq<char>>) -> bool {
    forall|i: int| 0 <= i < pieces.len() ==> is_short_hex(#[trigger] pieces[i])
}

/// The pieces are hexadecimal groups and, at the end, an IPv4 address.
pub open spec fn end_in_v4(pieces: Seq<Seq<char>>, groups: Seq<int>, v4: Ipv4Addr) -> bool {
    &&& pieces.len() > 0
    &&& are_short_hex(pieces.drop_last())
    &&& pieces.last() == number_laws::dotted(v4)
    &&& groups == values(pieces.drop_last()) + as_groups(v4)
}

proof fn lemma_short_value(s: Seq<char>)
    requires
        is_short_hex(s),
    ensures
        0 <= ip::hex_value(s) <= 0xffff,
{
    reveal_with_fuel(ip::hex_value, 5);
    assert forall|i: int| 0 <= i < s.len() implies 0 <= ip::hex_digit(#[trigger] s[i]) <= 15 by {
        lemma_digit_of(s[i]);
    }
    let a = s.drop_last();
    let b = a.drop_last();
    let c = b.drop_last();
    assert(ip::hex_digit(s[s.len() - 1]) <= 15);
    if s.len() >= 2 {
        assert(a.last() == s[s.len() - 2]);
        assert(ip::hex_digit(s[s.len() - 2]) <= 15);
    }
    if s.len() >= 3 {
        assert(b.last() == s[s.len() - 3]);
        assert(ip::hex_digit(s[s.len() - 3]) <= 15);
    }
    if s.len() >= 4 {
        assert(c.last() == s[s.len() - 4]);
        assert(ip::hex_digit(s[s.len() - 4]) <= 15);
    }
}

proof fn lemma_hex_is_piece(s: Seq<char>)
    requires
        is_short_hex(s),
    ensures
        s.len() > 0,
        !s.contains(':'),
        !s.contains('.'),
{
    if s.contains(':') {
        let i = choose|i: int| 0 <= i < s.len() && s[i] == ':';
        lemma_digit_of(s[i]);
    }
    if s.contains('.') {
        let i = choose|i: int| 0 <= i < s.len() && s[i] == '.';
        lemma_digit_of(s[i]);
    }
}

proof fn lemma_dotted(v4: Ipv4Addr)
    ensures
        number_laws::dotted(v4).len() > 0,
        !number_laws::dotted(v4).contains(':'),
        number_laws::dotted(v4).contains('.'),
        ip::v4_of(number_laws::dotted(v4)) == Some(v4),
{
    let s = number_laws::dotted(v4);
    number_laws::addresses_are_four_numbers_with_dots(s, v4);
    let a = number::decimal(v4.a as nat);
    let b = number::decimal(v4.b as nat);
    let c = number::decimal(v4.c as nat);
    let d = number::decimal(v4.d as nat);
    number::lemma_decimal_reads_back(v4.a as nat);
    number::lemma_decimal_reads_back(v4.b as nat);
    number::lemma_decimal_reads_back(v4.c as nat);
    number::lemma_decimal_reads_back(v4.d as nat);
    assert(s == a + seq!['.'] + b + seq!['.'] + c + seq!['.'] + d);
    assert(s[a.len() as int] == '.');
    if s.contains(':') {
        let i = choose|i: int| 0 <= i < s.len() && s[i] == ':';
        let x = a.len() as int;
        let y = x + 1 + b.len();
        let z = y + 1 + c.len();
        if i < x {
            assert(number::is_digit_char(a[i]));
        } else if x < i < y {
            assert(s[i] == b[i - x - 1]);
            assert(number::is_digit_char(b[i - x - 1]));
        } else if y < i < z {
            assert(s[i] == c[i - y - 1]);
            assert(number::is_digit_char(c[i - y - 1]));
        } else if i > z {
            assert(s[i] == d[i - z - 1]);
            assert(number::is_digit_char(d[i - z - 1]));
        }
    }
}

proof fn lemma_plain(pieces: Seq<Seq<char>>)
    requires
        are_short_hex(pieces),
    ensures
        ip::plain_groups(text_laws::put_together(pieces, ':')) matches Some(g) && g.len()
            == pieces.len() && forall|i: int|
            0 <= i < g.len() ==> #[trigger] g[i] == ip::hex_value(pieces[i]),
        ip::mixed_groups(text_laws::put_together(pieces, ':')) matches Some(g) && g.len()
            == pieces.len() && forall|i: int|
            0 <= i < g.len() ==> #[trigger] g[i] == ip::hex_value(pieces[i]),
        are_pieces(pieces),
{
    assert forall|i: int| 0 <= i < pieces.len() implies (#[trigger] pieces[i]).len() > 0
        && !pieces[i].contains(':') && ip::is_group(pieces[i]) && ip::hex_value(pieces[i])
        <= 0xffff by {
        lemma_hex_is_piece(pieces[i]);
        lemma_group(pieces[i]);
        lemma_short_value(pieces[i]);
    }
    if pieces.len() > 0 {
        lemma_pieces_apart(pieces);
    }
}

proof fn lemma_mixed(pieces: Seq<Seq<char>>, groups: Seq<int>)
    requires
        are_groups(pieces, groups),
    ensures
        ip::mixed_groups(text_laws::put_together(pieces, ':')) matches Some(g) && g.len()
            == groups.len() && forall|i: int| 0 <= i < g.len() ==> #[trigger] g[i] == groups[i],
        are_pieces(pieces),
{
    if are_short_hex(pieces) && groups == values(pieces) {
        lemma_plain(pieces);
    } else {
        let v4 = choose|v4: Ipv4Addr| #[trigger] end_in_v4(pieces, groups, v4);
        let front = pieces.drop_last();
        let last = pieces.last();
        lemma_dotted(v4);
        assert forall|i: int| 0 <= i < front.len() implies (#[trigger] front[i]).len() > 0
            && !front[i].contains(':') && ip::is_group(front[i]) && ip::hex_value(front[i])
            <= 0xffff by {
            lemma_hex_is_piece(front[i]);
            lemma_group(front[i]);
            lemma_short_value(front[i]);
        }
        assert forall|i: int| 0 <= i < pieces.len() implies (#[trigger] pieces[i]).len() > 0
            && !pieces[i].contains(':') by {
            if i < front.len() {
                assert(front[i] == pieces[i]);
            }
        }
        lemma_pieces_apart(pieces);
        assert(!ip::is_group(last)) by {
            if ip::is_group(last) {
                lemma_group(last);
                lemma_hex_is_piece(last);
            }
        }
        assert(pieces[pieces.len() - 1] == last);
        assert(!ip::all_groups(pieces));
        let g = ip::group_values(front) + ip::v4_groups(v4);
        assert(v4.a * 256 + v4.b <= 0xffff && v4.c * 256 + v4.d <= 0xffff);
        assert forall|i: int| 0 <= i < g.len() implies #[trigger] g[i] == groups[i] by {
            if i < front.len() {
                assert(ip::hex_value(front[i]) <= 0xffff);
            }
        }
    }
}

/// The address is made up of eight groups.
pub open spec fn has_groups(v6: Ipv6Addr, g: Seq<int>) -> bool {
    &&& g.len() == 8
    &&& v6.s0 == g[0]
    &&& v6.s1 == g[1]
    &&& v6.s2 == g[2]
    &&& v6.s3 == g[3]
    &&& v6.s4 == g[4]
    &&& v6.s5 == g[5]
    &&& v6.s6 == g[6]
    &&& v6.s7 == g[7]
}

/// Eight groups with colons between them are an address, and the last two may be
/// written as an IPv4 address; fewer or more are none.
pub proof fn eight_groups_are_an_address(pieces: Seq<Seq<char>>, groups: Seq<int>)
    requires
        pieces.len() > 0,
        are_groups(pieces, groups),
    ensures
        ({
            let r = ip::v6_of(text_laws::put_together(pieces, ':'));
            &&& groups.len() == 8 ==> r is Some && has_groups(r->0, groups)
            &&& groups.len() != 8 ==> r is None
        }),
{
    let s = text_laws::put_together(pieces, ':');
    lemma_mixed(pieces, groups);
    lemma_pieces_apart(pieces);
    let pair = seq![':', ':'];
    if let Some(k) = text::find_text(s, pair) {
        text::lemma_find_from_bounds(s, pair, 0);
        assert(s.subrange(k, k + 2)[0] == s[k] && s.subrange(k, k + 2)[1] == s[k + 1]);
    }
}

/// Two colons stand for the zeros that are missing to eight groups, one at least;
/// with eight groups written out they are no address.
pub proof fn two_colons_stand_for_zeros(
    head: Seq<Seq<char>>,
    tail: Seq<Seq<char>>,
    groups: Seq<int>,
)
    requires
        are_short_hex(head),
        are_groups(tail, groups),
    ensures
        ({
            let s = text_laws::put_together(head, ':') + seq![':', ':'] + text_laws::put_together(
                tail,
                ':',
            );
            let r = ip::v6_of(s);
            let missing = 8 - head.len() - groups.len();
            &&& missing >= 1 ==> r is Some && has_groups(
                r->0,
                values(head) + Seq::new(missing as nat, |i: int| 0int) + groups,
            )
            &&& missing < 1 ==> r is None
        }),
{
    let before = text_laws::put_together(head, ':');
    let behind = text_laws::put_together(tail, ':');
    let pair = seq![':', ':'];
    let s = before + pair + behind;
    let n = before.len() as int;
    lemma_plain(head);
    lemma_mixed(tail, groups);
    if head.len() > 0 {
        lemma_pieces_apart(head);
    }
    assert(s.subrange(n, n + 2) =~= pair);
    assert forall|k: int| 0 <= k < n implies !text::occurs_at(s, pair, k) by {
        if text::occurs_at(s, pair, k) {
            assert(s.subrange(k, k + 2)[0] == s[k] && s.subrange(k, k + 2)[1] == s[k + 1]);
            assert(s[k] == before[k]);
            if k < n - 1 {
                assert(s[k + 1] == before[k + 1]);
            } else {
                assert(before.last() == before[k]);
            }
        }
    }
    text::lemma_find_from(s, pair, 0, n);
    assert(s.take(n) =~= before);
    assert(s.skip(n + 2) =~= behind);
    let missing = 8 - head.len() - groups.len();
    if missing >= 1 {
        let h = ip::plain_groups(before)->0;
        let t = ip::mixed_groups(behind)->0;
        let filled = h + Seq::new((8 - h.len() - t.len()) as nat, |i: int| 0u16) + t;
        let wanted = values(head) + Seq::new(missing as nat, |i: int| 0int) + groups;
        assert(filled.len() == 8 && wanted.len() == 8);
        assert forall|i: int| 0 <= i < 8 implies #[trigger] filled[i] == wanted[i] by {
            if i < h.len() {
                assert(filled[i] == h[i]);
            } else if i < h.len() + missing {
                assert(filled[i] == 0u16);
            } else {
                assert(filled[i] == t[i - h.len() - missing]);
            }
        }
        assert(filled[0] == wanted[0] && filled[1] == wanted[1] && filled[2] == wanted[2]
            && filled[3] == wanted[3] && filled[4] == wanted[4] && filled[5] == wanted[5]
            && filled[6] == wanted[6] && filled[7] == wanted[7]);
    }
}

/// Four numbers with dots are an IPv4 address; a text with a colon is an IPv6
/// address or none.
pub proof fn colons_tell_the_kinds_apart(s: Seq<char>, v4: Ipv4Addr)
    ensures
        ip::ip_of(number_laws::dotted(v4)) == Some(IpAddr::V4(v4)),
        s.contains(':') ==> ip::ip_of(s) == (match ip::v6_of(s) {
            Some(v6) => Some(IpAddr::V6(v6)),
            None => None,
        }),
{
    lemma_dotted(v4);
    if s.contains(':') {
        if let Some(found) = ip::v4_of(s) {
            number_laws::addresses_are_four_numbers_with_dots(s, found);
            lemma_dotted(found);
        }
    }
}

} // verus!
