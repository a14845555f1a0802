//! The trust primitive: is an address local or globally routable?

use vstd::prelude::*;
use crate::addr::{IpAddress, Ipv4Address, Ipv6Address};

verus! {

/// The two classes of address.
#[derive(Clone, Copy, Debug, PartialEq, Eq, Structural)]
pub enum Classification {
    /// Private, loopback, link-local, documentation, unspecified, broadcast or
    /// multicast of less than global scope.
    Local,
    /// Every other address.
    Global,
}

/// `10.0.0.0/8`, `172.16.0.0/12` or `192.168.0.0/16`.
pub open spec fn v4_private(x: Ipv4Address) -> bool {
    x.a == 10 || (x.a == 172 && 16 <= x.b <= 31) || (x.a == 192 && x.b == 168)
}

/// `127.0.0.0/8`.
pub open spec fn v4_loopback(x: Ipv4Address) -> bool {
    x.a == 127
}

/// `169.254.0.0/16`.
pub open spec fn v4_link_local(x: Ipv4Address) -> bool {
    x.a == 169 && x.b == 254
}

/// `255.255.255.255`.
pub open spec fn v4_broadcast(x: Ipv4Address) -> bool {
    x.a == 255 && x.b == 255 && x.c == 255 && x.d == 255
}

/// `192.0.2.0/24`, `198.51.100.0/24` or `203.0.113.0/24`.
pub open spec fn v4_documentation(x: Ipv4Address) -> bool {
    (x.a == 192 && x.b == 0 && x.c == 2) || (x.a == 198 && x.b == 51 && x.c == 100) || (x.a == 203
        && x.b == 0 && x.c == 113)
}

/// `0.0.0.0`.
pub open spec fn v4_unspecified(x: Ipv4Address) -> bool {
    x.a == 0 && x.b == 0 && x.c == 0 && x.d == 0
}

/// Whether an IPv4 address lies in one of the local ranges.
pub open spec fn v4_is_local(x: Ipv4Address) -> bool {
    v4_private(x) || v4_loopback(x) || v4_link_local(x) || v4_broadcast(x) || v4_documentation(x)
        || v4_unspecified(x)
}

/// `ff00::/8`.
pub open spec fn v6_multicast(x: Ipv6Address) -> bool {
    x.s0 >= 0xFF00
}

/// The scope field of a multicast address: the low four bits of its first
/// segment.
pub open spec fn v6_multicast_scope(x: Ipv6Address) -> int {
    x.s0 as int % 16
}

/// `::1`.
pub open spec fn v6_loopback(x: Ipv6Address) -> bool {
    x.s0 == 0 && x.s1 == 0 && x.s2 == 0 && x.s3 == 0 && x.s4 == 0 && x.s5 == 0 && x.s6 == 0 && x.s7
        == 1
}

/// `::`.
pub open spec fn v6_unspecified(x: Ipv6Address) -> bool {
    x.s0 == 0 && x.s1 == 0 && x.s2 == 0 && x.s3 == 0 && x.s4 == 0 && x.s5 == 0 && x.s6 == 0 && x.s7
        == 0
}

/// `fe80::/10`.
pub open spec fn v6_link_local(x: Ipv6Address) -> bool {
    0xFE80 <= x.s0 <= 0xFEBF
}

/// `fec0::/10`.
pub open spec fn v6_site_local(x: Ipv6Address) -> bool {
    0xFEC0 <= x.s0 <= 0xFEFF
}

/// `fc00::/7`.
pub open spec fn v6_unique_local(x: Ipv6Address) -> bool {
    0xFC00 <= x.s0 <= 0xFDFF
}

/// `2001:db8::/32`.
pub open spec fn v6_documentation(x: Ipv6Address) -> bool {
    x.s0 == 0x2001 && x.s1 == 0xDB8
}

/// Whether an IPv6 address is local: a multicast address is local unless its
/// scope is global (14); any other address is local inside the listed ranges.
pub open spec fn v6_is_local(x: Ipv6Address) -> bool {
    if v6_multicast(x) {
        v6_multicast_scope(x) != 14
    } else {
        v6_loopback(x) || v6_unspecified(x) || v6_link_local(x) || v6_site_local(x)
            || v6_unique_local(x) || v6_documentation(x)
    }
}

/// Whether an address is local.
pub open spec fn is_local(addr: IpAddress) -> bool {
    match addr {
        IpAddress::V4(x) => v4_is_local(x),
        IpAddress::V6(x) => v6_is_local(x),
    }
}

/// The class of an address.
pub open spec fn class_of(addr: IpAddress) -> Classification {
    if is_local(addr) {
        Classification::Local
    } else {
        Classification::Global
    }
}

fn v4_local(x: &Ipv4Address) -> (r: bool)
    ensures
        r == v4_is_local(*x),
{
    if x.a == 10 {
        true
    } else if x.a == 172 && 16 <= x.b && x.b <= 31 {
        true
    } else if x.a == 192 && x.b == 168 {
        true
    } else if x.a == 127 {
        true
    } else if x.a == 169 && x.b == 254 {
        true
    } else if x.a == 255 && x.b == 255 && x.c == 255 && x.d == 255 {
        true
    } else if x.a == 192 && x.b == 0 && x.c == 2 {
        true
    } else if x.a == 198 && x.b == 51 && x.c == 100 {
        true
    } else if x.a == 203 && x.b == 0 && x.c == 113 {
        true
    } else {
        x.a == 0 && x.b == 0 && x.c == 0 && x.d == 0
    }
}

fn v6_local(x: &Ipv6Address) -> (r: bool)
    ensures
        r == v6_is_local(*x),
{
    let first: u16 = x.s0;
    proof {
        assert((first & 0xFF00 == 0xFF00) == (first >= 0xFF00)) by (bit_vector);
        assert(first & 0x000F == first % 16) by (bit_vector);
        assert((first & 0xFFC0 == 0xFE80) == (0xFE80 <= first && first <= 0xFEBF)) by (bit_vector);
        assert((first & 0xFFC0 == 0xFEC0) == (0xFEC0 <= first && first <= 0xFEFF)) by (bit_vector);
        assert((first & 0xFE00 == 0xFC00) == (0xFC00 <= first && first <= 0xFDFF)) by (bit_vector);
    }
    if first & 0xFF00 == 0xFF00 {
        first & 0x000F != 14
    } else if first == 0 && x.s1 == 0 && x.s2 == 0 && x.s3 == 0 && x.s4 == 0 && x.s5 == 0 && x.s6
        == 0 && (x.s7 == 0 || x.s7 == 1) {
        true
    } else if first & 0xFFC0 == 0xFE80 || first & 0xFFC0 == 0xFEC0 {
        true
    } else if first & 0xFE00 == 0xFC00 {
        true
    } else {
        first == 0x2001 && x.s1 == 0xDB8
    }
}

/// Whether `addr` is local.
pub fn is_local_ip(addr: &IpAddress) -> (r: bool)
    ensures
        r == is_local(*addr),
{
    match addr {
        IpAddress::V4(x) => v4_local(x),
        IpAddress::V6(x) => v6_local(x),
    }
}

/// Classifies `addr`: `Local` exactly for the addresses of the local ranges,
/// `Global` for every other.
pub fn classify(addr: IpAddress) -> (c: Classification)
    ensures
        c == class_of(addr),
        c == Classification::Local <==> is_local(addr),
        c == Classification::Global <==> !is_local(addr),
{
    if is_local_ip(&addr) {
        Classification::Local
    } else {
        Classification::Global
    }
}

} // verus!
