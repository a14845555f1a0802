use client_addr::addr::{join_bytes, IpAddress, Ipv4Address, Ipv6Address};
use client_addr::classify::is_local_ip;
use client_addr::render::{ipv4_to_string, ipv6_to_string};
use client_addr::resolve::{trimmed_token, ClientAddr};
use client_addr::text::{chars_of, parse_ip, parse_ip_chars, parse_ipv4_chars, parse_ipv6_chars};

fn chars(s: &str) -> Vec<char> {
    s.chars().collect()
}

#[test]
fn bytes_join_high_first() {
    assert_eq!(join_bytes(0x12, 0x34), 0x1234);
    assert_eq!(join_bytes(0, 0xFF), 0x00FF);
    assert_eq!(join_bytes(0xFF, 0), 0xFF00);
    assert_eq!(join_bytes(0xFF, 0xFF), 0xFFFF);
}

#[test]
fn chars_of_keeps_every_character() {
    assert_eq!(chars_of(""), chars(""));
    assert_eq!(chars_of("1.2.3.4, ::1"), chars("1.2.3.4, ::1"));
    assert_eq!(chars_of("a\u{e9}\u{3000}\u{1f600}z"), chars("a\u{e9}\u{3000}\u{1f600}z"));
}

#[test]
fn token_is_cut_and_trimmed() {
    let s = chars("9.9.9.9, \t10.0.0.5 \u{a0}");
    assert_eq!(trimmed_token(&s, 8, s.len()), chars("10.0.0.5"));
    assert_eq!(trimmed_token(&s, 0, 7), chars("9.9.9.9"));
    assert_eq!(trimmed_token(&s, 8, 10), chars(""));
    assert_eq!(trimmed_token(&s, 3, 3), chars(""));
    let inner = chars("  a b  ");
    assert_eq!(trimmed_token(&inner, 0, inner.len()), chars("a b"));
}

#[test]
fn each_family_has_its_parser() {
    assert_eq!(parse_ipv4_chars(&chars("10.0.0.5")), Some(Ipv4Address::new(10, 0, 0, 5)));
    assert_eq!(parse_ipv4_chars(&chars("::1")), None);
    assert_eq!(parse_ipv6_chars(&chars("::1")), Some(Ipv6Address::new(0, 0, 0, 0, 0, 0, 0, 1)));
    assert_eq!(parse_ipv6_chars(&chars("10.0.0.5")), None);
    assert_eq!(
        parse_ip_chars(&chars("10.0.0.5")),
        Some(IpAddress::V4(Ipv4Address::new(10, 0, 0, 5)))
    );
    assert_eq!(
        parse_ip_chars(&chars("::a")),
        Some(IpAddress::V6(Ipv6Address::new(0, 0, 0, 0, 0, 0, 0, 10)))
    );
}

#[test]
fn written_addresses_read_back() {
    let v4s = [
        Ipv4Address::new(0, 0, 0, 0),
        Ipv4Address::new(1, 20, 200, 255),
        Ipv4Address::new(100, 99, 10, 9),
    ];
    for x in v4s {
        assert_eq!(parse_ip(&ipv4_to_string(&x)), Some(IpAddress::V4(x)));
    }
    let v6s = [
        Ipv6Address::new(0, 0, 0, 0, 0, 0, 0, 0),
        Ipv6Address::new(0, 0, 0, 0, 0, 0, 0, 1),
        Ipv6Address::new(1, 0, 0, 0, 0, 0, 0, 0),
        Ipv6Address::new(0, 0, 0, 0, 0, 0xFFFF, 0x0A00, 0x0005),
        Ipv6Address::new(0, 0, 0, 0, 0, 0, 0x0A00, 0x0005),
        Ipv6Address::new(1, 0, 0, 2, 0, 0, 0, 3),
        Ipv6Address::new(1, 0, 0, 2, 0, 0, 3, 4),
        Ipv6Address::new(0, 0, 1, 2, 3, 4, 5, 6),
        Ipv6Address::new(1, 2, 3, 4, 5, 6, 0, 0),
        Ipv6Address::new(1, 0, 2, 0, 3, 0, 4, 0),
        Ipv6Address::new(0xFFFF, 0xFFF, 0xFF, 0xF, 0x1000, 0x100, 0x10, 0x1),
    ];
    for x in v6s {
        assert_eq!(parse_ip(&ipv6_to_string(&x)), Some(IpAddress::V6(x)));
    }
}

#[test]
fn loopback_ipv6_has_no_ipv4_form() {
    let c = ClientAddr { ip: IpAddress::V6(Ipv6Address::new(0, 0, 0, 0, 0, 0, 0, 1)) };
    assert_eq!(c.get_ipv4(), None);
    assert_eq!(c.get_ipv4_string(), None);
    assert_eq!(c.get_ipv6_string(), "::1".to_string());
}

#[test]
fn local_test_agrees_with_classes() {
    assert!(is_local_ip(&IpAddress::V4(Ipv4Address::new(10, 0, 0, 5))));
    assert!(is_local_ip(&IpAddress::V6(Ipv6Address::new(0xFD00, 0, 0, 0, 0, 0, 0, 1))));
    assert!(!is_local_ip(&IpAddress::V4(Ipv4Address::new(9, 9, 9, 9))));
    assert!(!is_local_ip(&IpAddress::V6(Ipv6Address::new(0x2606, 0x4700, 0, 0, 0, 0, 0, 1))));
}

#[test]
fn main_items_are_at_the_root() {
    let peer = client_addr::IpAddress::V4(client_addr::Ipv4Address::new(8, 8, 8, 8));
    assert_eq!(client_addr::classify(peer), client_addr::Classification::Global);
    let ctx = client_addr::RequestAddressContext {
        peer: Some(peer),
        forwarded_for: None,
        platform_ip: None,
    };
    assert_eq!(client_addr::resolve(&ctx), Some(client_addr::ClientAddr { ip: peer }));
    assert_eq!(client_addr::parse_ip("8.8.8.8"), Some(peer));
}
