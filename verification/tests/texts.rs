use mctier_signaling_server::ip::{canonical, parse_ip, IpAddr, Ipv4Addr, Ipv6Addr};
use mctier_signaling_server::number::{decimal_text, hex_text, parse_unsigned, parse_usize};
use mctier_signaling_server::text::{
    byte_len, chars_of, contains_control, contains_text, find_position, first_position, is_control,
    is_space, last_position, same_text, split_chars, text_before, text_of, trim,
};

fn chars(s: &str) -> Vec<char> {
    s.chars().collect()
}

fn v4(a: u8, b: u8, c: u8, d: u8) -> Option<IpAddr> {
    Some(IpAddr::V4(Ipv4Addr { a, b, c, d }))
}

fn v6(s: [u16; 8]) -> Option<IpAddr> {
    let [s0, s1, s2, s3, s4, s5, s6, s7] = s;
    Some(IpAddr::V6(Ipv6Addr { s0, s1, s2, s3, s4, s5, s6, s7 }))
}

#[test]
fn character_classes_agree_with_the_standard_ones() {
    for code in 0..=0x10ffffu32 {
        if let Some(c) = char::from_u32(code) {
            assert_eq!(is_control(c), c.is_control(), "{code:x}");
            assert_eq!(is_space(c), c.is_whitespace(), "{code:x}");
        }
    }
}

#[test]
fn texts_are_handled_as_strings_are() {
    for s in ["", " ", "a", " ä b\t", "\u{3000}房间\u{a0}", "a,b,,c", ",", "x::y::z"] {
        assert_eq!(trim(s), s.trim());
        assert_eq!(byte_len(s), s.len());
        assert_eq!(text_of(&chars_of(s)), s);
        assert_eq!(contains_control(s), s.chars().any(char::is_control));
        let pieces: Vec<String> = split_chars(&chars(s), ',').iter().map(|p| text_of(p)).collect();
        let expected: Vec<&str> = s.split(',').collect();
        assert_eq!(pieces, expected);
        for pattern in ["", "::", "b", ",c"] {
            assert_eq!(contains_text(s, pattern), s.contains(pattern), "{s:?} {pattern:?}");
        }
        for other in ["", "a", " ä b\t", "房", "x::y::z", "x::y"] {
            assert_eq!(same_text(s, other), s == other);
            assert_eq!(text_before(s, other), s <= other, "{s:?} {other:?}");
        }
    }
    assert_eq!(find_position(&chars("aXbX"), &['X']), Some(1));
    assert_eq!(find_position(&chars("ab"), &chars("abc")), None);
    assert_eq!(first_position(&chars("a/b/c"), '/'), 1);
    assert_eq!(first_position(&chars("abc"), '/'), 3);
    assert_eq!(last_position(&chars("a/b/c"), '/'), Some(3));
    assert_eq!(last_position(&chars("abc"), '/'), None);
}

#[test]
fn numbers_are_read_and_written_as_the_standard_ones() {
    for s in [
        "", "0", "+0", "+", "-1", "007", "42", " 1", "1 ", "1_0", "１",
        "65535", "65536", "18446744073709551615", "18446744073709551616",
        "99999999999999999999999999999999999999999999",
    ] {
        assert_eq!(parse_usize(&chars(s)), s.parse::<usize>().ok(), "{s}");
        assert_eq!(parse_unsigned(&chars(s), u16::MAX as u64), s.parse::<u16>().ok().map(u64::from), "{s}");
        assert_eq!(parse_unsigned(&chars(s), u64::MAX), s.parse::<u64>().ok(), "{s}");
    }
    for n in [0, 9, 10, 99, 100, 255, 1234567890, u64::MAX] {
        assert_eq!(decimal_text(n), n.to_string());
    }
    assert_eq!(hex_text(&[0x00, 0x0f, 0xa5, 0xff]), "000fa5ff");
    assert_eq!(hex_text(&[]), "");
}

#[test]
fn addresses_are_read_in_their_textual_forms() {
    let readable = [
        ("1.2.3.4", v4(1, 2, 3, 4)),
        ("0.0.0.0", v4(0, 0, 0, 0)),
        ("255.255.255.255", v4(255, 255, 255, 255)),
        ("::", v6([0; 8])),
        ("::1", v6([0, 0, 0, 0, 0, 0, 0, 1])),
        ("1::", v6([1, 0, 0, 0, 0, 0, 0, 0])),
        ("1::8", v6([1, 0, 0, 0, 0, 0, 0, 8])),
        ("1:2:3:4:5:6:7:8", v6([1, 2, 3, 4, 5, 6, 7, 8])),
        ("1:2:3:4:5:6:7::", v6([1, 2, 3, 4, 5, 6, 7, 0])),
        ("::2:3:4:5:6:7:8", v6([0, 2, 3, 4, 5, 6, 7, 8])),
        ("::FFFF", v6([0, 0, 0, 0, 0, 0, 0, 0xffff])),
        ("2001:DB8::a", v6([0x2001, 0xdb8, 0, 0, 0, 0, 0, 10])),
        ("::ffff:1.2.3.4", v6([0, 0, 0, 0, 0, 0xffff, 0x0102, 0x0304])),
        ("::1.2.3.4", v6([0, 0, 0, 0, 0, 0, 0x0102, 0x0304])),
        ("1::1.2.3.4", v6([1, 0, 0, 0, 0, 0, 0x0102, 0x0304])),
        ("1:2:3:4:5:6:1.2.3.4", v6([1, 2, 3, 4, 5, 6, 0x0102, 0x0304])),
        ("::1:2:3:4:5:1.2.3.4", v6([0, 1, 2, 3, 4, 5, 0x0102, 0x0304])),
    ];
    for (s, expected) in readable {
        assert_eq!(parse_ip(&chars(s)), expected, "{s:?}");
    }
    for s in [
        "", "01.2.3.4", "1.2.3", "1.2.3.4.5", "256.1.1.1", "1.2.3.4 ", "1..2.3", "1.2.3.+4", "1234.1.1.1",
        "1:2:3:4:5:6:7", "1:2:3:4:5:6:7:8:9", "1:2:3:4::5:6:7:8", "1::2::3", ":::", ":1", "1:", "1:::2",
        "1:2:3:4:5:6:7:1.2.3.4", "::1.2.3.4:5", "1.2.3.4::", "1:2:3:4:5:1.2.3.4", "::1:2:3:4:5:6:1.2.3.4",
        "::fffff", "::g", "fe80::1%eth0", "::1.2.3", "::256.0.0.1", "1:2:3:4:5:6:7:", "[::1]", "::00001",
    ] {
        assert_eq!(parse_ip(&chars(s)), None, "{s:?}");
    }
}

#[test]
fn written_addresses_read_back() {
    for n in 0..=255u8 {
        let address = Ipv4Addr { a: n, b: 255 - n, c: 0, d: n / 3 };
        let written = address.to_text();
        assert_eq!(written, format!("{}.{}.0.{}", n, 255 - n, n / 3));
        assert_eq!(parse_ip(&chars(&written)), Some(IpAddr::V4(address)));
    }
    let mapped = parse_ip(&chars("::ffff:192.0.2.1")).unwrap();
    assert_eq!(canonical(mapped), parse_ip(&chars("192.0.2.1")).unwrap());
    let compatible = parse_ip(&chars("::192.0.2.1")).unwrap();
    assert_eq!(canonical(compatible), compatible);
}
