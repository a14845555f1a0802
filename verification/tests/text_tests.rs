use client_addr::addr::{IpAddress, Ipv4Address, Ipv6Address};
use client_addr::text::parse_ip;

fn v4(a: u8, b: u8, c: u8, d: u8) -> Option<IpAddress> {
    Some(IpAddress::V4(Ipv4Address::new(a, b, c, d)))
}

fn v6(s: [u16; 8]) -> Option<IpAddress> {
    Some(IpAddress::V6(Ipv6Address::new(s[0], s[1], s[2], s[3], s[4], s[5], s[6], s[7])))
}

#[test]
fn parses_dotted_decimal() {
    assert_eq!(parse_ip("1.2.3.4"), v4(1, 2, 3, 4));
    assert_eq!(parse_ip("0.0.0.0"), v4(0, 0, 0, 0));
    assert_eq!(parse_ip("255.255.255.255"), v4(255, 255, 255, 255));
    assert_eq!(parse_ip("192.168.10.99"), v4(192, 168, 10, 99));
}

#[test]
fn rejects_malformed_dotted_decimal() {
    assert_eq!(parse_ip(""), None);
    assert_eq!(parse_ip("abc"), None);
    assert_eq!(parse_ip("1.2.3"), None);
    assert_eq!(parse_ip("1.2.3.4.5"), None);
    assert_eq!(parse_ip("256.1.1.1"), None);
    assert_eq!(parse_ip("1.2.3.999"), None);
    assert_eq!(parse_ip("01.2.3.4"), None);
    assert_eq!(parse_ip("1.2.3.04"), None);
    assert_eq!(parse_ip("1.2.3.0004"), None);
    assert_eq!(parse_ip("1..3.4"), None);
    assert_eq!(parse_ip("1.2.3.4 "), None);
    assert_eq!(parse_ip(" 1.2.3.4"), None);
    assert_eq!(parse_ip("1.2.3.4:80"), None);
    assert_eq!(parse_ip("1.2.3.-4"), None);
}

#[test]
fn parses_full_ipv6() {
    assert_eq!(parse_ip("1:2:3:4:5:6:7:8"), v6([1, 2, 3, 4, 5, 6, 7, 8]));
    assert_eq!(
        parse_ip("2606:4700:4700:0:0:0:0:1111"),
        v6([0x2606, 0x4700, 0x4700, 0, 0, 0, 0, 0x1111])
    );
    assert_eq!(
        parse_ip("FFFF:abcd:AbCd:0001:00:000:0:09af"),
        v6([0xFFFF, 0xABCD, 0xABCD, 1, 0, 0, 0, 0x09AF])
    );
}

#[test]
fn parses_compressed_ipv6() {
    assert_eq!(parse_ip("::"), v6([0, 0, 0, 0, 0, 0, 0, 0]));
    assert_eq!(parse_ip("::1"), v6([0, 0, 0, 0, 0, 0, 0, 1]));
    assert_eq!(parse_ip("1::"), v6([1, 0, 0, 0, 0, 0, 0, 0]));
    assert_eq!(parse_ip("2001:db8::1"), v6([0x2001, 0xDB8, 0, 0, 0, 0, 0, 1]));
    assert_eq!(
        parse_ip("2606:4700:4700::1111"),
        v6([0x2606, 0x4700, 0x4700, 0, 0, 0, 0, 0x1111])
    );
    assert_eq!(parse_ip("1:2:3:4:5:6:7::"), v6([1, 2, 3, 4, 5, 6, 7, 0]));
    assert_eq!(parse_ip("::2:3:4:5:6:7:8"), v6([0, 2, 3, 4, 5, 6, 7, 8]));
    assert_eq!(parse_ip("1:2:3::6:7:8"), v6([1, 2, 3, 0, 0, 6, 7, 8]));
}

#[test]
fn parses_dotted_tail() {
    assert_eq!(parse_ip("::ffff:1.2.3.4"), v6([0, 0, 0, 0, 0, 0xFFFF, 0x0102, 0x0304]));
    assert_eq!(parse_ip("::1.2.3.4"), v6([0, 0, 0, 0, 0, 0, 0x0102, 0x0304]));
    assert_eq!(parse_ip("1:2:3:4:5:6:10.0.0.255"), v6([1, 2, 3, 4, 5, 6, 0x0A00, 0x00FF]));
    assert_eq!(parse_ip("64:ff9b::192.0.2.33"), v6([0x64, 0xFF9B, 0, 0, 0, 0, 0xC000, 0x0221]));
}

#[test]
fn rejects_malformed_ipv6() {
    assert_eq!(parse_ip(":"), None);
    assert_eq!(parse_ip(":::"), None);
    assert_eq!(parse_ip("1:2:3:4:5:6:7"), None);
    assert_eq!(parse_ip("1:2:3:4:5:6:7:8:9"), None);
    assert_eq!(parse_ip("1::2:3:4:5:6:7:8"), None);
    assert_eq!(parse_ip("1::2::3"), None);
    assert_eq!(parse_ip("12345::"), None);
    assert_eq!(parse_ip("::12345"), None);
    assert_eq!(parse_ip("g::"), None);
    assert_eq!(parse_ip("1.2.3.4::"), None);
    assert_eq!(parse_ip("1:2:3:4:5:6:7:1.2.3.4"), None);
    assert_eq!(parse_ip("::1.2.3.4:5"), None);
    assert_eq!(parse_ip("::1.2.3"), None);
    assert_eq!(parse_ip("fe80::1%eth0"), None);
    assert_eq!(parse_ip("[::1]"), None);
    assert_eq!(parse_ip("1:2:3:4:5:6:7:"), None);
    assert_eq!(parse_ip(":1:2:3:4:5:6:7"), None);
}

#[test]
fn rejects_text_beyond_ascii() {
    assert_eq!(parse_ip("1.2.3.\u{664}"), None);
    assert_eq!(parse_ip("\u{ff11}.2.3.4"), None);
    assert_eq!(parse_ip("::\u{e9}"), None);
}
