//! What holds of the resolver for every request.

use vstd::prelude::*;
use crate::addr::{embeds_v4, mapped_v6, IpAddress, Ipv4Address, Ipv6Address};
use crate::classify::{
    class_of, is_local, v4_broadcast, v4_documentation, v4_link_local, v4_loopback, v4_private,
    v4_unspecified, v6_documentation, v6_link_local, v6_loopback, v6_multicast,
    v6_multicast_scope, v6_site_local, v6_unique_local, v6_unspecified, Classification,
};
use crate::resolve::{
    chain_candidate, chain_scan, token_addr, trimmed, ClientAddr, RequestAddressContext,
};
use crate::text::ip_text;

verus! {

/// Whether `s[lo..hi]` is one of the comma separated tokens of `s`: it holds
/// no comma, and a comma or an end of `s` stands on either side of it.
pub open spec fn is_token(s: Seq<char>, lo: int, hi: int) -> bool {
    &&& 0 <= lo <= hi <= s.len()
    &&& lo == 0 || s[lo - 1] == ','
    &&& hi == s.len() || s[hi] == ','
    &&& forall|k: int| lo <= k < hi ==> s[k] != ','
}

/// Whether one of the tokens of `s` spells the address `ip`.
pub open spec fn spelled_in(s: Seq<char>, ip: IpAddress) -> bool {
    exists|lo: int, hi: int| is_token(s, lo, hi) && #[trigger] token_addr(s, lo, hi) == Some(ip)
}

/// Every IPv4 address of a local range is classified as local, and no other.
pub proof fn lemma_local_v4_ranges(x: Ipv4Address)
    ensures
        v4_private(x) ==> class_of(IpAddress::V4(x)) == Classification::Local,
        v4_loopback(x) ==> class_of(IpAddress::V4(x)) == Classification::Local,
        v4_link_local(x) ==> class_of(IpAddress::V4(x)) == Classification::Local,
        v4_broadcast(x) ==> class_of(IpAddress::V4(x)) == Classification::Local,
        v4_documentation(x) ==> class_of(IpAddress::V4(x)) == Classification::Local,
        v4_unspecified(x) ==> class_of(IpAddress::V4(x)) == Classification::Local,
        !(v4_private(x) || v4_loopback(x) || v4_link_local(x) || v4_broadcast(x)
            || v4_documentation(x) || v4_unspecified(x)) ==> class_of(IpAddress::V4(x))
            == Classification::Global,
{
}

/// Every IPv6 address of a local range is classified as local, and no other:
/// a multicast address by its scope alone, any other by the unicast ranges.
pub proof fn lemma_local_v6_ranges(x: Ipv6Address)
    ensures
        v6_multicast(x) && v6_multicast_scope(x) != 14 ==> class_of(IpAddress::V6(x))
            == Classification::Local,
        v6_multicast(x) && v6_multicast_scope(x) == 14 ==> class_of(IpAddress::V6(x))
            == Classification::Global,
        v6_loopback(x) ==> class_of(IpAddress::V6(x)) == Classification::Local,
        v6_unspecified(x) ==> class_of(IpAddress::V6(x)) == Classification::Local,
        v6_link_local(x) ==> class_of(IpAddress::V6(x)) == Classification::Local,
        v6_site_local(x) ==> class_of(IpAddress::V6(x)) == Classification::Local,
        v6_unique_local(x) ==> class_of(IpAddress::V6(x)) == Classification::Local,
        v6_documentation(x) ==> class_of(IpAddress::V6(x)) == Classification::Local,
        !(v6_multicast(x) || v6_loopback(x) || v6_unspecified(x) || v6_link_local(x)
            || v6_site_local(x) || v6_unique_local(x) || v6_documentation(x)) ==> class_of(
            IpAddress::V6(x),
        ) == Classification::Global,
{
}

/// An IPv6 address has an IPv4 form exactly where it is IPv4-mapped: any
/// other, `::1` and `::` among them, has none.
pub proof fn lemma_ipv4_view_of_v6(x: Ipv6Address)
    ensures
        (ClientAddr { ip: IpAddress::V6(x) }).ipv4() is Some <==> x.s0 == 0 && x.s1 == 0 && x.s2
            == 0 && x.s3 == 0 && x.s4 == 0 && x.s5 == 0xFFFF,
        !embeds_v4(x) ==> (ClientAddr { ip: IpAddress::V6(x) }).ipv4() is None,
{
}

/// An IPv4 address has both forms, and its IPv6 form is IPv4-mapped and
/// leads back to it.
pub proof fn lemma_views_of_v4(x: Ipv4Address)
    ensures
        (ClientAddr { ip: IpAddress::V4(x) }).ipv4() == Some(x),
        (ClientAddr { ip: IpAddress::V4(x) }).ipv6() == mapped_v6(x),
        (ClientAddr { ip: IpAddress::V6(mapped_v6(x)) }).ipv4() == Some(x),
{
}

/// Resolution depends on the values that a context holds and on nothing else:
/// two contexts with the same peer, the same chain and the same platform
/// address resolve alike, so that resolving twice gives the same answer.
pub proof fn lemma_resolve_repeatable(a: RequestAddressContext, b: RequestAddressContext)
    requires
        a.peer == b.peer,
        a.chain() == b.chain(),
        a.platform_ip == b.platform_ip,
    ensures
        a.resolved() == b.resolved(),
{
}

/// A peer with a global address is the answer, whatever the chain and the
/// platform say.
pub proof fn lemma_global_peer_wins(ctx: RequestAddressContext)
    requires
        ctx.peer is Some,
        !is_local(ctx.peer->0),
    ensures
        ctx.resolved() == ctx.peer,
{
}

/// Resolution fails exactly where the peer is absent, the chain is absent or
/// yields no candidate, and the platform offers nothing.
pub proof fn lemma_unresolved(ctx: RequestAddressContext)
    ensures
        ctx.resolved() is None <==> ctx.peer is None && ctx.platform_ip is None && (ctx.chain()
            is None || chain_candidate(ctx.chain()->0) is None),
{
}

proof fn lemma_scan_source(s: Seq<char>, i: int, end: int, found: Option<IpAddress>)
    requires
        0 <= i <= end <= s.len(),
        end == s.len() || s[end] == ',',
        forall|k: int| i <= k < end ==> s[k] != ',',
    ensures
        chain_scan(s, i, end, found) == found || (chain_scan(s, i, end, found) is Some
            && spelled_in(s, chain_scan(s, i, end, found)->0)),
    decreases i,
{
    if i <= 0 {
        if token_addr(s, 0, end) is Some {
            assert(is_token(s, 0, end));
        }
    } else if s[i - 1] == ',' {
        match token_addr(s, i, end) {
            Some(ip) => {
                assert(is_token(s, i, end));
                if is_local(ip) {
                    lemma_scan_source(s, i - 1, i - 1, Some(ip));
                }
            },
            None => {},
        }
    } else {
        lemma_scan_source(s, i - 1, end, found);
    }
}

/// The candidate of a chain is an address that one of its tokens spells.
pub proof fn lemma_candidate_is_spelled(s: Seq<char>)
    ensures
        chain_candidate(s) is Some ==> spelled_in(s, chain_candidate(s)->0),
{
    lemma_scan_source(s, s.len() as int, s.len() as int, None);
}

/// The resolver makes up no address: what it returns is the peer, the
/// platform's address, or an address that a token of the chain spells.
pub proof fn lemma_resolved_from_inputs(ctx: RequestAddressContext)
    ensures
        ctx.resolved() is Some ==> ctx.resolved() == ctx.peer || ctx.resolved() == ctx.platform_ip
            || (ctx.chain() is Some && spelled_in(ctx.chain()->0, ctx.resolved()->0)),
{
    if ctx.chain() is Some {
        lemma_candidate_is_spelled(ctx.chain()->0);
    }
}

proof fn lemma_scan_default(s: Seq<char>, i: int, end: int, found: Option<IpAddress>)
    requires
        0 <= i <= end <= s.len(),
    ensures
        chain_scan(s, i, end, found) == match chain_scan(s, i, end, None) {
            Some(ip) => Some(ip),
            None => found,
        },
        found is Some ==> chain_scan(s, i, end, found) is Some,
    decreases i,
{
    if i <= 0 {
    } else if s[i - 1] == ',' {
        match token_addr(s, i, end) {
            Some(ip) => {
                lemma_scan_default(s, i - 1, i - 1, Some(ip));
            },
            None => {},
        }
    } else {
        lemma_scan_default(s, i - 1, end, found);
    }
}

proof fn lemma_scan_prefix(s: Seq<char>, t: Seq<char>, i: int, end: int, found: Option<IpAddress>)
    requires
        0 <= i <= end <= s.len() <= t.len(),
        s == t.subrange(0, s.len() as int),
    ensures
        chain_scan(s, i, end, found) == chain_scan(t, i, end, found),
    decreases i,
{
    assert forall|lo: int| 0 <= lo <= end implies token_addr(s, lo, end) == token_addr(
        t,
        lo,
        end,
    ) by {
        assert(s.subrange(lo, end) =~= t.subrange(lo, end));
    }
    if i <= 0 {
    } else if s[i - 1] == ',' {
        match token_addr(s, i, end) {
            Some(ip) => {
                if is_local(ip) {
                    lemma_scan_prefix(s, t, i - 1, i - 1, Some(ip));
                }
            },
            None => {},
        }
    } else {
        lemma_scan_prefix(s, t, i - 1, end, found);
    }
}

proof fn lemma_scan_last_token(s: Seq<char>, i: int, k: int)
    requires
        0 <= k <= i <= s.len(),
        forall|j: int| k <= j < s.len() ==> s[j] != ',',
        k == 0 || s[k - 1] == ',',
    ensures
        chain_scan(s, i, s.len() as int, None) == chain_scan(s, k, s.len() as int, None),
    decreases i,
{
    if i > k {
        lemma_scan_last_token(s, i - 1, k);
    }
}

/// A chain of one token yields the address that the token spells.
pub proof fn lemma_single_token(s: Seq<char>)
    requires
        forall|j: int| 0 <= j < s.len() ==> s[j] != ',',
    ensures
        chain_candidate(s) == ip_text(trimmed(s)),
{
    lemma_scan_last_token(s, s.len() as int, 0);
    assert(s.subrange(0, s.len() as int) =~= s);
}

/// The walk, token by token. Of a chain that ends in the token `last` behind
/// the chain `rest` and a comma: where `last` spells no address there is no
/// candidate; where it spells a global address that is the candidate; where it
/// spells a local address the candidate is that of `rest`, or the local
/// address itself where `rest` has none.
pub proof fn lemma_token_by_token(rest: Seq<char>, last: Seq<char>)
    requires
        forall|j: int| 0 <= j < last.len() ==> last[j] != ',',
    ensures
        chain_candidate(rest + seq![','] + last) == match ip_text(trimmed(last)) {
            None => None,
            Some(ip) => if !is_local(ip) {
                Some(ip)
            } else {
                match chain_candidate(rest) {
                    Some(earlier) => Some(earlier),
                    None => Some(ip),
                }
            },
        },
{
    let s = rest + seq![','] + last;
    let k = rest.len() as int + 1;
    let n = s.len() as int;
    assert(s[k - 1] == ',');
    assert forall|j: int| k <= j < n implies s[j] != ',' by {
        assert(s[j] == last[j - k]);
    }
    lemma_scan_last_token(s, n, k);
    assert(s.subrange(k, n) =~= last);
    match ip_text(trimmed(last)) {
        Some(ip) => {
            if is_local(ip) {
                assert(rest =~= s.subrange(0, k - 1));
                lemma_scan_default(s, k - 1, k - 1, Some(ip));
                lemma_scan_prefix(rest, s, k - 1, k - 1, None);
            }
        },
        None => {},
    }
}

} // verus!
