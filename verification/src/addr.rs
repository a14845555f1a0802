//! Address values: IPv4 as four octets, IPv6 as eight 16-bit segments.

use vstd::prelude::*;

verus! {

/// An IPv4 address, octets in network order.
#[derive(Clone, Copy, Debug, PartialEq, Eq, Structural)]
pub struct Ipv4Address {
    pub a: u8,
    pub b: u8,
    pub c: u8,
    pub d: u8,
}

/// An IPv6 address, segments in network order.
#[derive(Clone, Copy, Debug, PartialEq, Eq, Structural)]
pub struct Ipv6Address {
    pub s0: u16,
    pub s1: u16,
    pub s2: u16,
    pub s3: u16,
    pub s4: u16,
    pub s5: u16,
    pub s6: u16,
    pub s7: u16,
}

/// An address of either family.
#[derive(Clone, Copy, Debug, PartialEq, Eq, Structural)]
pub enum IpAddress {
    V4(Ipv4Address),
    V6(Ipv6Address),
}

/// The 16-bit segment whose high byte is `hi` and whose low byte is `lo`.
pub open spec fn segment_of(hi: u8, lo: u8) -> u16 {
    (hi * 256 + lo) as u16
}

/// The IPv6 address `::ffff:a.b.c.d` that stands for the IPv4 address `x`.
pub open spec fn mapped_v6(x: Ipv4Address) -> Ipv6Address {
    Ipv6Address {
        s0: 0,
        s1: 0,
        s2: 0,
        s3: 0,
        s4: 0,
        s5: 0xFFFF,
        s6: segment_of(x.a, x.b),
        s7: segment_of(x.c, x.d),
    }
}

/// Whether `x` is an IPv4-mapped address, `::ffff:a.b.c.d`: the first five
/// segments are zero and the sixth is `0xffff`. No other IPv6 address carries
/// an IPv4 address; `::1` and `::a.b.c.d` do not.
pub open spec fn embeds_v4(x: Ipv6Address) -> bool {
    x.s0 == 0 && x.s1 == 0 && x.s2 == 0 && x.s3 == 0 && x.s4 == 0 && x.s5 == 0xFFFF
}

/// The IPv4 address in the last two segments of `x`.
pub open spec fn embedded_v4(x: Ipv6Address) -> Ipv4Address {
    Ipv4Address {
        a: (x.s6 / 256) as u8,
        b: (x.s6 % 256) as u8,
        c: (x.s7 / 256) as u8,
        d: (x.s7 % 256) as u8,
    }
}

/// Joins two bytes into a segment.
pub fn join_bytes(hi: u8, lo: u8) -> (r: u16)
    ensures
        r == segment_of(hi, lo),
{
    let h: u16 = hi as u16;
    let l: u16 = lo as u16;
    h * 256 + l
}

impl Ipv4Address {
    pub fn new(a: u8, b: u8, c: u8, d: u8) -> (r: Self)
        ensures
            r == (Ipv4Address { a, b, c, d }),
    {
        Ipv4Address { a, b, c, d }
    }

    /// The four octets, first to last.
    pub fn octets(&self) -> (r: [u8; 4])
        ensures
            r@ == seq![self.a, self.b, self.c, self.d],
    {
        let r: [u8; 4] = [self.a, self.b, self.c, self.d];
        assert(r@ =~= seq![self.a, self.b, self.c, self.d]);
        r
    }

    /// The IPv4-mapped IPv6 address of this address.
    pub fn to_ipv6_mapped(&self) -> (r: Ipv6Address)
        ensures
            r == mapped_v6(*self),
    {
        Ipv6Address {
            s0: 0,
            s1: 0,
            s2: 0,
            s3: 0,
            s4: 0,
            s5: 0xFFFF,
            s6: join_bytes(self.a, self.b),
            s7: join_bytes(self.c, self.d),
        }
    }
}

impl Ipv6Address {
    pub fn new(s0: u16, s1: u16, s2: u16, s3: u16, s4: u16, s5: u16, s6: u16, s7: u16) -> (r:
        Self)
        ensures
            r == (Ipv6Address { s0, s1, s2, s3, s4, s5, s6, s7 }),
    {
        Ipv6Address { s0, s1, s2, s3, s4, s5, s6, s7 }
    }

    /// The eight segments, first to last.
    pub fn segments(&self) -> (r: [u16; 8])
        ensures
            r@ == seq![self.s0, self.s1, self.s2, self.s3, self.s4, self.s5, self.s6, self.s7],
    {
        let r: [u16; 8] = [self.s0, self.s1, self.s2, self.s3, self.s4, self.s5, self.s6, self.s7];
        assert(r@ =~= seq![
            self.s0,
            self.s1,
            self.s2,
            self.s3,
            self.s4,
            self.s5,
            self.s6,
            self.s7,
        ]);
        r
    }

    /// The IPv4 address that an IPv4-mapped address stands for; `None` for
    /// every other address.
    pub fn to_ipv4_mapped(&self) -> (r: Option<Ipv4Address>)
        ensures
            r == (if embeds_v4(*self) {
                Some(embedded_v4(*self))
            } else {
                None
            }),
    {
        if self.s0 == 0 && self.s1 == 0 && self.s2 == 0 && self.s3 == 0 && self.s4 == 0 && self.s5
            == 0xFFFF {
            Some(
                Ipv4Address {
                    a: (self.s6 / 256) as u8,
                    b: (self.s6 % 256) as u8,
                    c: (self.s7 / 256) as u8,
                    d: (self.s7 % 256) as u8,
                },
            )
        } else {
            None
        }
    }
}

/// An IPv4 address survives the trip through its IPv6-mapped form.
pub proof fn lemma_mapped_round_trip(x: Ipv4Address)
    ensures
        embeds_v4(mapped_v6(x)),
        embedded_v4(mapped_v6(x)) == x,
{
}

} // verus!
