//! The chain resolver: from the transport peer, the forwarded address chain
//! and the platform's own answer to the one address that is taken for the
//! client's.

use vstd::prelude::*;
use crate::addr::{embedded_v4, embeds_v4, mapped_v6, IpAddress, Ipv4Address, Ipv6Address};
use crate::classify::{is_local, is_local_ip};
use crate::text::{chars_of, ip_text, parse_ip_chars};

verus! {

/// Whether `c` is white space: a character that Unicode marks as
/// `White_Space`.
pub open spec fn is_space(c: char) -> bool {
    ('\u{9}' <= c && c <= '\u{d}') || c == ' ' || c == '\u{85}' || c == '\u{a0}' || c == '\u{1680}'
        || ('\u{2000}' <= c && c <= '\u{200a}') || c == '\u{2028}' || c == '\u{2029}' || c
        == '\u{202f}' || c == '\u{205f}' || c == '\u{3000}'
}

/// `s` without the white space at its start.
pub open spec fn trim_start(s: Seq<char>) -> Seq<char>
    decreases s.len(),
{
    if s.len() > 0 && is_space(s[0]) {
        trim_start(s.drop_first())
    } else {
        s
    }
}

/// `s` without the white space at its end.
pub open spec fn trim_end(s: Seq<char>) -> Seq<char>
    decreases s.len(),
{
    if s.len() > 0 && is_space(s.last()) {
        trim_end(s.drop_last())
    } else {
        s
    }
}

/// `s` without the white space at either end.
pub open spec fn trimmed(s: Seq<char>) -> Seq<char> {
    trim_end(trim_start(s))
}

/// The address that the token `s[lo..hi]` spells once trimmed.
pub open spec fn token_addr(s: Seq<char>, lo: int, hi: int) -> Option<IpAddress> {
    ip_text(trimmed(s.subrange(lo, hi)))
}

/// The walk over the comma separated tokens of `s`, from the right. `i` is
/// the index that the walk has reached, `end` the end of the token that it is
/// in, `found` the address of the token read last. A token that spells no
/// address ends the walk with `found`; one that spells a global address ends
/// it with that address; a local address is kept and the walk goes on to the
/// left, until the tokens run out.
pub open spec fn chain_scan(s: Seq<char>, i: int, end: int, found: Option<IpAddress>) -> Option<
    IpAddress,
>
    decreases i,
{
    if i <= 0 {
        match token_addr(s, 0, end) {
            Some(ip) => Some(ip),
            None => found,
        }
    } else if s[i - 1] == ',' {
        match token_addr(s, i, end) {
            Some(ip) => if is_local(ip) {
                chain_scan(s, i - 1, i - 1, Some(ip))
            } else {
                Some(ip)
            },
            None => found,
        }
    } else {
        chain_scan(s, i - 1, end, found)
    }
}

/// The candidate that a forwarded address chain yields: the leftmost address
/// of the unbroken run of tokens at its right end that are local addresses,
/// with the one global address that may close the run.
pub open spec fn chain_candidate(s: Seq<char>) -> Option<IpAddress> {
    chain_scan(s, s.len() as int, s.len() as int, None)
}

/// The resolved address: a global peer at once; else the chain's candidate,
/// else the platform's answer, else the peer.
pub open spec fn resolution(
    peer: Option<IpAddress>,
    forwarded_for: Option<Seq<char>>,
    platform_ip: Option<IpAddress>,
) -> Option<IpAddress> {
    if peer is Some && !is_local(peer->0) {
        peer
    } else if forwarded_for is Some && chain_candidate(forwarded_for->0) is Some {
        chain_candidate(forwarded_for->0)
    } else if platform_ip is Some {
        platform_ip
    } else {
        peer
    }
}

/// What a request offers for finding its client's address.
#[derive(Clone, Debug)]
pub struct RequestAddressContext {
    /// The address of the transport peer.
    pub peer: Option<IpAddress>,
    /// The forwarded address chain as the request carries it: comma separated,
    /// the oldest hop first.
    pub forwarded_for: Option<String>,
    /// The address that the platform has worked out by its own means.
    pub platform_ip: Option<IpAddress>,
}

impl RequestAddressContext {
    /// The chain as a sequence of characters.
    pub open spec fn chain(&self) -> Option<Seq<char>> {
        match self.forwarded_for {
            Some(h) => Some(h@),
            None => None,
        }
    }

    /// The address that this context resolves to.
    pub open spec fn resolved(&self) -> Option<IpAddress> {
        resolution(self.peer, self.chain(), self.platform_ip)
    }
}

/// The address of a client.
#[derive(Clone, Copy, Debug, PartialEq, Eq, Structural)]
pub struct ClientAddr {
    /// The address.
    pub ip: IpAddress,
}

fn is_space_char(c: char) -> (r: bool)
    ensures
        r == is_space(c),
{
    ('\u{9}' <= c && c <= '\u{d}') || c == ' ' || c == '\u{85}' || c == '\u{a0}' || c == '\u{1680}'
        || ('\u{2000}' <= c && c <= '\u{200a}') || c == '\u{2028}' || c == '\u{2029}' || c
        == '\u{202f}' || c == '\u{205f}' || c == '\u{3000}'
}

/// The token `s[lo..hi]` without the white space at either end.
pub fn trimmed_token(s: &Vec<char>, lo: usize, hi: usize) -> (r: Vec<char>)
    requires
        lo <= hi <= s.len(),
    ensures
        r@ == trimmed(s@.subrange(lo as int, hi as int)),
{
    let mut a: usize = lo;
    while a < hi && is_space_char(s[a])
        invariant
            lo <= a <= hi <= s.len(),
            trim_start(s@.subrange(lo as int, hi as int)) == trim_start(
                s@.subrange(a as int, hi as int),
            ),
        decreases hi - a,
    {
        assert(s@.subrange(a as int, hi as int).drop_first() =~= s@.subrange(
            a as int + 1,
            hi as int,
        ));
        a += 1;
    }
    let mut b: usize = hi;
    while b > a && is_space_char(s[b - 1])
        invariant
            a <= b <= hi <= s.len(),
            trim_end(s@.subrange(a as int, hi as int)) == trim_end(s@.subrange(a as int, b as int)),
        decreases b - a,
    {
        assert(s@.subrange(a as int, b as int).drop_last() =~= s@.subrange(
            a as int,
            b as int - 1,
        ));
        b -= 1;
    }
    let mut out: Vec<char> = Vec::new();
    let mut k: usize = a;
    while k < b
        invariant
            a <= k <= b <= s.len(),
            out@ == s@.subrange(a as int, k as int),
        decreases b - k,
    {
        out.push(s[k]);
        k += 1;
        assert(out@ =~= s@.subrange(a as int, k as int));
    }
    out
}

/// Walks the forwarded address chain `header` from its right end and returns
/// its candidate.
pub fn forwarded_candidate(header: &str) -> (r: Option<IpAddress>)
    ensures
        r == chain_candidate(header@),
{
    let s = chars_of(header);
    let mut i: usize = s.len();
    let mut end: usize = s.len();
    let mut found: Option<IpAddress> = None;
    loop
        invariant
            i <= end <= s.len(),
            s@ == header@,
            chain_candidate(s@) == chain_scan(s@, i as int, end as int, found),
        decreases i,
    {
        if i == 0 || s[i - 1] == ',' {
            let token = trimmed_token(&s, i, end);
            match parse_ip_chars(&token) {
                Some(ip) => {
                    if i == 0 || !is_local_ip(&ip) {
                        return Some(ip);
                    }
                    found = Some(ip);
                    i = i - 1;
                    end = i;
                },
                None => {
                    return found;
                },
            }
        } else {
            i = i - 1;
        }
    }
}

/// Resolves the client's address. A peer with a global address is the client:
/// the chain is not read. Else the chain's candidate is the client, where
/// there is one; else the platform's answer; else the peer. `None` exactly
/// where the request offers none of these.
pub fn resolve(ctx: &RequestAddressContext) -> (r: Option<ClientAddr>)
    ensures
        r == match ctx.resolved() {
            Some(ip) => Some(ClientAddr { ip }),
            None => None,
        },
{
    if let Some(peer) = ctx.peer {
        if !is_local_ip(&peer) {
            return Some(ClientAddr { ip: peer });
        }
    }
    let candidate: Option<IpAddress> = match &ctx.forwarded_for {
        Some(header) => forwarded_candidate(header.as_str()),
        None => None,
    };
    let ip: Option<IpAddress> = if candidate.is_some() {
        candidate
    } else if ctx.platform_ip.is_some() {
        ctx.platform_ip
    } else {
        ctx.peer
    };
    match ip {
        Some(ip) => Some(ClientAddr { ip }),
        None => None,
    }
}

impl ClientAddr {
    /// The IPv4 form of the address: the address itself where it is IPv4, the
    /// mapped address where it is an IPv4-mapped IPv6 address, else `None`.
    pub open spec fn ipv4(&self) -> Option<Ipv4Address> {
        match self.ip {
            IpAddress::V4(x) => Some(x),
            IpAddress::V6(x) => if embeds_v4(x) {
                Some(embedded_v4(x))
            } else {
                None
            },
        }
    }

    /// The IPv6 form of the address: the address itself where it is IPv6, its
    /// IPv4-mapped form where it is IPv4.
    pub open spec fn ipv6(&self) -> Ipv6Address {
        match self.ip {
            IpAddress::V4(x) => mapped_v6(x),
            IpAddress::V6(x) => x,
        }
    }

    /// The address as IPv4, where it has such a form.
    pub fn get_ipv4(&self) -> (r: Option<Ipv4Address>)
        ensures
            r == self.ipv4(),
            self.ip is V4 ==> r == Some(self.ip->V4_0),
            self.ip is V6 ==> (r is Some <==> embeds_v4(self.ip->V6_0)),
    {
        match &self.ip {
            IpAddress::V4(x) => Some(*x),
            IpAddress::V6(x) => x.to_ipv4_mapped(),
        }
    }

    /// The address as IPv6.
    pub fn get_ipv6(&self) -> (r: Ipv6Address)
        ensures
            r == self.ipv6(),
    {
        match &self.ip {
            IpAddress::V4(x) => x.to_ipv6_mapped(),
            IpAddress::V6(x) => *x,
        }
    }
}

} // verus!
