use client_addr::addr::{IpAddress, Ipv4Address, Ipv6Address};
use client_addr::classify::{classify, is_local_ip, Classification};

fn v4(a: u8, b: u8, c: u8, d: u8) -> IpAddress {
    IpAddress::V4(Ipv4Address::new(a, b, c, d))
}

fn v6(s: [u16; 8]) -> IpAddress {
    IpAddress::V6(Ipv6Address::new(s[0], s[1], s[2], s[3], s[4], s[5], s[6], s[7]))
}

#[test]
fn private_ranges_are_local() {
    assert_eq!(classify(v4(10, 0, 0, 0)), Classification::Local);
    assert_eq!(classify(v4(10, 255, 255, 255)), Classification::Local);
    assert_eq!(classify(v4(172, 16, 0, 0)), Classification::Local);
    assert_eq!(classify(v4(172, 31, 255, 255)), Classification::Local);
    assert_eq!(classify(v4(192, 168, 0, 1)), Classification::Local);
    assert_eq!(classify(v4(192, 168, 255, 255)), Classification::Local);
}

#[test]
fn neighbours_of_private_ranges_are_global() {
    assert_eq!(classify(v4(9, 255, 255, 255)), Classification::Global);
    assert_eq!(classify(v4(11, 0, 0, 0)), Classification::Global);
    assert_eq!(classify(v4(172, 15, 255, 255)), Classification::Global);
    assert_eq!(classify(v4(172, 32, 0, 0)), Classification::Global);
    assert_eq!(classify(v4(192, 167, 0, 1)), Classification::Global);
    assert_eq!(classify(v4(192, 169, 0, 1)), Classification::Global);
}

#[test]
fn loopback_and_link_local_v4_are_local() {
    assert_eq!(classify(v4(127, 0, 0, 1)), Classification::Local);
    assert_eq!(classify(v4(127, 255, 255, 255)), Classification::Local);
    assert_eq!(classify(v4(169, 254, 0, 0)), Classification::Local);
    assert_eq!(classify(v4(169, 254, 255, 255)), Classification::Local);
    assert_eq!(classify(v4(169, 253, 0, 0)), Classification::Global);
    assert_eq!(classify(v4(128, 0, 0, 1)), Classification::Global);
}

#[test]
fn broadcast_and_unspecified_v4_are_local() {
    assert_eq!(classify(v4(255, 255, 255, 255)), Classification::Local);
    assert_eq!(classify(v4(0, 0, 0, 0)), Classification::Local);
    assert_eq!(classify(v4(255, 255, 255, 254)), Classification::Global);
    assert_eq!(classify(v4(0, 0, 0, 1)), Classification::Global);
}

#[test]
fn documentation_v4_is_local() {
    assert_eq!(classify(v4(192, 0, 2, 0)), Classification::Local);
    assert_eq!(classify(v4(192, 0, 2, 255)), Classification::Local);
    assert_eq!(classify(v4(198, 51, 100, 7)), Classification::Local);
    assert_eq!(classify(v4(203, 0, 113, 200)), Classification::Local);
    assert_eq!(classify(v4(192, 0, 3, 0)), Classification::Global);
    assert_eq!(classify(v4(198, 51, 101, 7)), Classification::Global);
    assert_eq!(classify(v4(203, 0, 114, 1)), Classification::Global);
}

#[test]
fn representative_global_addresses() {
    assert_eq!(classify(v4(8, 8, 8, 8)), Classification::Global);
    assert_eq!(classify(v4(9, 9, 9, 9)), Classification::Global);
    assert_eq!(
        classify(v6([0x2606, 0x4700, 0x4700, 0, 0, 0, 0, 0x1111])),
        Classification::Global
    );
    assert!(!is_local_ip(&v4(1, 1, 1, 1)));
}

#[test]
fn multicast_v6_is_local_unless_global_scope() {
    assert_eq!(classify(v6([0xFF02, 0, 0, 0, 0, 0, 0, 1])), Classification::Local);
    assert_eq!(classify(v6([0xFF05, 0, 0, 0, 0, 0, 0, 2])), Classification::Local);
    assert_eq!(classify(v6([0xFF00, 0, 0, 0, 0, 0, 0, 0])), Classification::Local);
    assert_eq!(classify(v6([0xFF0F, 0, 0, 0, 0, 0, 0, 1])), Classification::Local);
    assert_eq!(classify(v6([0xFF0E, 0, 0, 0, 0, 0, 0, 1])), Classification::Global);
    assert_eq!(classify(v6([0xFF1E, 0, 0, 0, 0, 0, 0, 1])), Classification::Global);
    assert_eq!(classify(v6([0xFFFE, 0, 0, 0, 0, 0, 0, 1])), Classification::Global);
}

#[test]
fn loopback_and_unspecified_v6_are_local() {
    assert_eq!(classify(v6([0, 0, 0, 0, 0, 0, 0, 1])), Classification::Local);
    assert_eq!(classify(v6([0, 0, 0, 0, 0, 0, 0, 0])), Classification::Local);
    assert_eq!(classify(v6([0, 0, 0, 0, 0, 0, 0, 2])), Classification::Global);
    assert_eq!(classify(v6([0, 0, 0, 0, 0, 0, 1, 1])), Classification::Global);
}

#[test]
fn scoped_unicast_v6_is_local() {
    assert_eq!(classify(v6([0xFE80, 0, 0, 0, 0, 0, 0, 1])), Classification::Local);
    assert_eq!(classify(v6([0xFEBF, 0xFFFF, 0, 0, 0, 0, 0, 1])), Classification::Local);
    assert_eq!(classify(v6([0xFEC0, 0, 0, 0, 0, 0, 0, 1])), Classification::Local);
    assert_eq!(classify(v6([0xFEFF, 0, 0, 0, 0, 0, 0, 1])), Classification::Local);
    assert_eq!(classify(v6([0xFC00, 0, 0, 0, 0, 0, 0, 1])), Classification::Local);
    assert_eq!(classify(v6([0xFDFF, 0, 0, 0, 0, 0, 0, 1])), Classification::Local);
    assert_eq!(classify(v6([0xFBFF, 0, 0, 0, 0, 0, 0, 1])), Classification::Global);
    assert_eq!(classify(v6([0xFE00, 0, 0, 0, 0, 0, 0, 1])), Classification::Global);
    assert_eq!(classify(v6([0xFE7F, 0, 0, 0, 0, 0, 0, 1])), Classification::Global);
}

#[test]
fn documentation_v6_is_local() {
    assert_eq!(classify(v6([0x2001, 0xDB8, 0, 0, 0, 0, 0, 1])), Classification::Local);
    assert_eq!(
        classify(v6([0x2001, 0xDB8, 0xFFFF, 0xFFFF, 0xFFFF, 0xFFFF, 0xFFFF, 0xFFFF])),
        Classification::Local
    );
    assert_eq!(classify(v6([0x2001, 0xDB9, 0, 0, 0, 0, 0, 1])), Classification::Global);
    assert_eq!(classify(v6([0x2002, 0xDB8, 0, 0, 0, 0, 0, 1])), Classification::Global);
}

#[test]
fn mapped_private_v4_counts_as_v6() {
    // An IPv6 address is judged by the IPv6 ranges alone.
    assert_eq!(classify(v6([0, 0, 0, 0, 0, 0xFFFF, 0x0A00, 0x0001])), Classification::Global);
}
