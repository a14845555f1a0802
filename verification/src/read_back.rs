//! Writing an address out and reading it back gives the same address.

use vstd::prelude::*;
use crate::addr::{embedded_v4, embeds_v4, IpAddress, Ipv4Address, Ipv6Address};
use crate::render::{
    dec_text, digit_char, hex_text, ipv4_string, ipv6_string, joined,
    longest_zero_run, segments_of, zero_run,
};
use crate::text::{
    dec_at, dot_octet_at, group_at, groups_from, hex_at, hex_digit, ip_text, ipv4_at, ipv4_text,
    ipv6_of, ipv6_text, octet_at, GroupRun,
};

verus! {

/// Whether `s` holds no dot.
pub open spec fn no_dot(s: Seq<char>) -> bool {
    forall|k: int| 0 <= k < s.len() ==> s[k] != '.'
}

proof fn lemma_digit_values()
    ensures
        forall|d: int| 0 <= d < 16 ==> hex_digit(#[trigger] digit_char(d)) == Some(d),
        forall|d: int| 0 <= d < 10 ==> 48 <= #[trigger] digit_char(d) as int <= 57,
        forall|d: int| 0 <= d < 16 ==> #[trigger] digit_char(d) != '.' && digit_char(d) != ':',
{
}

proof fn lemma_octet_reads_back(s: Seq<char>, i: int, n: u8)
    requires
        0 <= i,
        i + dec_text(n as int).len() <= s.len(),
        s.subrange(i, i + dec_text(n as int).len()) == dec_text(n as int),
        !dec_at(s, i + dec_text(n as int).len()),
    ensures
        octet_at(s, i) == Some((n, i + dec_text(n as int).len())),
{
    let t = dec_text(n as int);
    let part = s.subrange(i, i + t.len());
    assert(part[0] == s[i]);
    if n >= 10 {
        assert(part[1] == s[i + 1]);
    }
    if n >= 100 {
        assert(part[2] == s[i + 2]);
    }
}

proof fn lemma_dot_octet_reads_back(s: Seq<char>, i: int, n: u8)
    requires
        0 <= i,
        i + 1 + dec_text(n as int).len() <= s.len(),
        s[i] == '.',
        s.subrange(i + 1, i + 1 + dec_text(n as int).len()) == dec_text(n as int),
        !dec_at(s, i + 1 + dec_text(n as int).len()),
    ensures
        dot_octet_at(s, i) == Some((n, i + 1 + dec_text(n as int).len())),
{
    lemma_octet_reads_back(s, i + 1, n);
}

proof fn lemma_ipv4_reads_back_at(s: Seq<char>, i: int, x: Ipv4Address)
    requires
        0 <= i <= s.len(),
        s.subrange(i, s.len() as int) == ipv4_string(x),
    ensures
        ipv4_at(s, i) == Some((x, s.len() as int)),
{
    let t = ipv4_string(x);
    let a = dec_text(x.a as int);
    let b = dec_text(x.b as int);
    let c = dec_text(x.c as int);
    let d = dec_text(x.d as int);
    let i1 = i + a.len();
    let i2 = i1 + 1 + b.len();
    let i3 = i2 + 1 + c.len();
    let i4 = i3 + 1 + d.len();
    assert(t.len() == i4 - i);
    assert(s.len() == i4);
    assert forall|m: int| i <= m < s.len() implies #[trigger] s[m] == t[m - i] by {
        assert(s.subrange(i, s.len() as int)[m - i] == s[m]);
    }
    assert(s.subrange(i, i1) =~= a);
    assert(s.subrange(i1 + 1, i2) =~= b);
    assert(s.subrange(i2 + 1, i3) =~= c);
    assert(s.subrange(i3 + 1, i4) =~= d);
    assert(s[i1] == t[i1 - i]);
    assert(s[i2] == t[i2 - i]);
    assert(s[i3] == t[i3 - i]);
    lemma_octet_reads_back(s, i, x.a);
    lemma_dot_octet_reads_back(s, i1, x.b);
    lemma_dot_octet_reads_back(s, i2, x.c);
    lemma_dot_octet_reads_back(s, i3, x.d);
}

/// An IPv4 address that is written out and read back is the same address.
pub proof fn lemma_ipv4_reads_back(x: Ipv4Address)
    ensures
        ipv4_text(ipv4_string(x)) == Some(x),
        ip_text(ipv4_string(x)) == Some(IpAddress::V4(x)),
{
    let s = ipv4_string(x);
    assert(s.subrange(0, s.len() as int) =~= s);
    lemma_ipv4_reads_back_at(s, 0, x);
}

proof fn lemma_octet_is_canonical(s: Seq<char>, i: int)
    requires
        octet_at(s, i) is Some,
    ensures
        ({
            let (v, n) = octet_at(s, i)->0;
            i < n <= s.len() && s.subrange(i, n) == dec_text(v as int)
        }),
{
    lemma_digit_values();
    let (v, n) = octet_at(s, i)->0;
    assert(s.subrange(i, n) =~= dec_text(v as int));
}

proof fn lemma_dot_octet_is_canonical(s: Seq<char>, i: int)
    requires
        dot_octet_at(s, i) is Some,
    ensures
        ({
            let (v, n) = dot_octet_at(s, i)->0;
            i + 1 < n <= s.len() && s.subrange(i, n) == seq!['.'] + dec_text(v as int)
        }),
{
    lemma_octet_is_canonical(s, i + 1);
    let (v, n) = dot_octet_at(s, i)->0;
    assert(s.subrange(i, n) =~= seq!['.'] + s.subrange(i + 1, n));
}

proof fn lemma_four_parts(
    s: Seq<char>,
    i1: int,
    i2: int,
    i3: int,
    a: Seq<char>,
    b: Seq<char>,
    c: Seq<char>,
    d: Seq<char>,
)
    requires
        0 <= i1 <= i2 <= i3 <= s.len(),
        s.subrange(0, i1) == a,
        s.subrange(i1, i2) == seq!['.'] + b,
        s.subrange(i2, i3) == seq!['.'] + c,
        s.subrange(i3, s.len() as int) == seq!['.'] + d,
    ensures
        s == a + seq!['.'] + b + seq!['.'] + c + seq!['.'] + d,
{
    let whole = s.subrange(0, i1) + s.subrange(i1, i2) + s.subrange(i2, i3) + s.subrange(
        i3,
        s.len() as int,
    );
    assert(s =~= whole);
    assert(whole =~= a + seq!['.'] + b + seq!['.'] + c + seq!['.'] + d);
}

proof fn lemma_ipv4_is_canonical(s: Seq<char>, x: Ipv4Address)
    requires
        ipv4_text(s) == Some(x),
    ensures
        s == ipv4_string(x),
{
    let (a, i1) = octet_at(s, 0)->0;
    let (b, i2) = dot_octet_at(s, i1)->0;
    let (c, i3) = dot_octet_at(s, i2)->0;
    let (d, i4) = dot_octet_at(s, i3)->0;
    assert(i4 == s.len());
    lemma_octet_is_canonical(s, 0);
    lemma_dot_octet_is_canonical(s, i1);
    lemma_dot_octet_is_canonical(s, i2);
    lemma_dot_octet_is_canonical(s, i3);
    lemma_four_parts(
        s,
        i1,
        i2,
        i3,
        dec_text(a as int),
        dec_text(b as int),
        dec_text(c as int),
        dec_text(d as int),
    );
}

/// The dotted decimal notation is unique: a text spells an IPv4 address
/// exactly where it is the address written out.
pub proof fn lemma_ipv4_text_is_unique(s: Seq<char>, x: Ipv4Address)
    ensures
        ipv4_text(s) == Some(x) <==> s == ipv4_string(x),
{
    if s == ipv4_string(x) {
        lemma_ipv4_reads_back(x);
    }
    if ipv4_text(s) == Some(x) {
        lemma_ipv4_is_canonical(s, x);
    }
}

proof fn lemma_group_reads_back(s: Seq<char>, j: int, v: u16)
    requires
        0 <= j,
        j + hex_text(v as int).len() <= s.len(),
        s.subrange(j, j + hex_text(v as int).len()) == hex_text(v as int),
        !hex_at(s, j + hex_text(v as int).len()),
    ensures
        group_at(s, j) == Some((v, j + hex_text(v as int).len())),
{
    lemma_digit_values();
    let t = hex_text(v as int);
    let part = s.subrange(j, j + t.len());
    assert(part[0] == s[j]);
    if v >= 0x10 {
        assert(part[1] == s[j + 1]);
    }
    if v >= 0x100 {
        assert(part[2] == s[j + 2]);
    }
    if v >= 0x1000 {
        assert(part[3] == s[j + 3]);
    }
}

proof fn lemma_no_dot_no_ipv4(s: Seq<char>, j: int)
    requires
        no_dot(s),
    ensures
        ipv4_at(s, j) is None,
{
}

proof fn lemma_joined_no_dot(g: Seq<u16>)
    ensures
        no_dot(joined(g)),
    decreases g.len(),
{
    lemma_digit_values();
    if g.len() >= 2 {
        lemma_joined_no_dot(g.drop_last());
    }
}

proof fn lemma_joined_prefix(g: Seq<u16>, k: int)
    requires
        0 <= k <= g.len(),
    ensures
        joined(g.take(k)).len() <= joined(g).len(),
        joined(g).subrange(0, joined(g.take(k)).len() as int) == joined(g.take(k)),
    decreases g.len(),
{
    if k == g.len() {
        assert(g.take(k) =~= g);
        assert(joined(g).subrange(0, joined(g).len() as int) =~= joined(g));
    } else {
        let d = g.drop_last();
        assert(g.take(k) =~= d.take(k));
        lemma_joined_prefix(d, k);
        let n = joined(d.take(k)).len() as int;
        if g.len() == 1 {
            assert(joined(g).subrange(0, n) =~= joined(g.take(k)));
        } else {
            assert(joined(g).subrange(0, n) =~= joined(d).subrange(0, n));
        }
    }
}

proof fn lemma_groups_read_back(s: Seq<char>, start: int, gs: Seq<u16>, k: int, limit: nat)
    requires
        no_dot(s),
        0 <= start,
        0 <= k <= gs.len() <= limit,
        start + joined(gs).len() <= s.len(),
        s.subrange(start, start + joined(gs).len()) == joined(gs),
        start + joined(gs).len() == s.len() || (start + joined(gs).len() + 1 < s.len() && s[start
            + joined(gs).len()] == ':' && s[start + joined(gs).len() + 1] == ':'),
    ensures
        groups_from(s, start + joined(gs.take(k)).len(), gs.take(k), limit) == (GroupRun {
            groups: gs,
            next: start + joined(gs).len(),
            dotted: false,
        }),
    decreases gs.len() - k,
{
    lemma_digit_values();
    let e = start + joined(gs).len();
    let acc = gs.take(k);
    let p = start + joined(acc).len();
    lemma_joined_prefix(gs, k);
    lemma_no_dot_no_ipv4(s, p);
    lemma_no_dot_no_ipv4(s, p + 1);
    if k == gs.len() {
        assert(acc =~= gs);
        assert(!hex_at(s, e));
        assert(!hex_at(s, e + 1));
    } else {
        let nxt = gs.take(k + 1);
        lemma_joined_prefix(gs, k + 1);
        assert(nxt.drop_last() =~= acc);
        assert(nxt.last() == gs[k]);
        let h = hex_text(gs[k] as int);
        let j = if k == 0 {
            p
        } else {
            p + 1
        };
        let q = j + h.len();
        assert(q == start + joined(nxt).len());
        assert forall|i: int| 0 <= i < joined(nxt).len() implies s[start + i] == joined(nxt)[i] by {
            assert(s.subrange(start, e)[i] == s[start + i]);
            assert(joined(gs).subrange(0, joined(nxt).len() as int)[i] == joined(gs)[i]);
        }
        if k > 0 {
            assert(joined(nxt)[p - start] == ':');
            assert(s[p] == ':');
        }
        assert forall|i: int| 0 <= i < h.len() implies s[j + i] == h[i] by {
            assert(s[start + (j - start + i)] == joined(nxt)[j - start + i]);
        }
        assert(s.subrange(j, q) =~= h);
        if k + 1 < gs.len() {
            let nn = gs.take(k + 2);
            lemma_joined_prefix(gs, k + 2);
            assert(nn.drop_last() =~= nxt);
            assert(joined(nn)[q - start] == ':');
            assert(s.subrange(start, e)[q - start] == s[q]);
            assert(joined(gs).subrange(0, joined(nn).len() as int)[q - start] == joined(gs)[q
                - start]);
            assert(s[q] == ':');
        } else {
            assert(nxt =~= gs);
        }
        assert(!hex_at(s, q));
        lemma_group_reads_back(s, j, gs[k]);
        assert(acc.push(gs[k]) =~= nxt);
        lemma_groups_read_back(s, start, gs, k + 1, limit);
    }
}

proof fn lemma_zero_run(g: Seq<u16>, k: int)
    requires
        0 <= k <= g.len(),
    ensures
        k + zero_run(g, k) <= g.len(),
        forall|i: int| k <= i < k + zero_run(g, k) ==> g[i] == 0,
    decreases g.len() - k,
{
    if k < g.len() && g[k] == 0 {
        lemma_zero_run(g, k + 1);
    }
}

proof fn lemma_longest_zero_run(g: Seq<u16>, k: int)
    requires
        0 <= k <= g.len(),
    ensures
        k <= longest_zero_run(g, k) <= g.len(),
    decreases g.len() - k,
{
    if k < g.len() {
        lemma_longest_zero_run(g, k + 1);
    }
}

proof fn lemma_plain_reads_back(x: Ipv6Address)
    requires
        !embeds_v4(x),
        zero_run(segments_of(x), longest_zero_run(segments_of(x), 0)) < 2,
    ensures
        ipv6_text(ipv6_string(x)) == Some(x),
        ipv4_text(ipv6_string(x)) is None,
{
    let g = segments_of(x);
    let s = joined(g);
    lemma_joined_no_dot(g);
    lemma_no_dot_no_ipv4(s, 0);
    assert(s.subrange(0, s.len() as int) =~= s);
    lemma_groups_read_back(s, 0, g, 0, 8);
    assert(g.take(0) =~= Seq::<u16>::empty());
    assert(joined(g.take(0)).len() == 0);
}

proof fn lemma_short_reads_back(x: Ipv6Address)
    requires
        !embeds_v4(x),
        zero_run(segments_of(x), longest_zero_run(segments_of(x), 0)) >= 2,
    ensures
        ipv6_text(ipv6_string(x)) == Some(x),
        ipv4_text(ipv6_string(x)) is None,
{
    let g = segments_of(x);
    let k = longest_zero_run(g, 0);
    let n = zero_run(g, k) as int;
    lemma_longest_zero_run(g, 0);
    lemma_zero_run(g, k);
    let head = g.subrange(0, k);
    let tail = g.subrange(k + n, 8);
    let s = joined(head) + seq![':', ':'] + joined(tail);
    let e = joined(head).len() as int;
    lemma_joined_no_dot(head);
    lemma_joined_no_dot(tail);
    assert(no_dot(s));
    lemma_no_dot_no_ipv4(s, 0);
    assert(s.subrange(0, e) =~= joined(head));
    assert(s[e] == ':');
    assert(s[e + 1] == ':');
    lemma_groups_read_back(s, 0, head, 0, 8);
    assert(head.take(0) =~= Seq::<u16>::empty());
    assert(joined(head.take(0)).len() == 0);
    assert(s.subrange(e + 2, e + 2 + joined(tail).len()) =~= joined(tail));
    lemma_groups_read_back(s, e + 2, tail, 0, (7 - k) as nat);
    assert(tail.take(0) =~= Seq::<u16>::empty());
    assert(joined(tail.take(0)).len() == 0);
    assert(ipv6_of(head, tail) == x);
}

proof fn lemma_mapped_reads_back(x: Ipv6Address)
    requires
        embeds_v4(x),
    ensures
        ipv6_text(ipv6_string(x)) == Some(x),
        ipv4_text(ipv6_string(x)) is None,
{
    let v4 = embedded_v4(x);
    let pre = seq![':', ':', 'f', 'f', 'f', 'f', ':'];
    let s = pre + ipv4_string(v4);
    assert(s[0] == ':' && s[1] == ':' && s[2] == 'f' && s[3] == 'f' && s[4] == 'f' && s[5] == 'f'
        && s[6] == ':');
    assert(s.subrange(7, s.len() as int) =~= ipv4_string(v4));
    lemma_ipv4_reads_back_at(s, 7, v4);
    let none = Seq::<u16>::empty();
    assert(octet_at(s, 0) is None);
    assert(group_at(s, 0) is None);
    let head = groups_from(s, 0, none, 8);
    assert(head == GroupRun { groups: none, next: 0, dotted: false });
    assert(octet_at(s, 2) is None);
    assert(group_at(s, 2) == Some((0xFFFFu16, 6int)));
    let one = none.push(0xFFFFu16);
    let last = groups_from(s, 6, one, 7);
    assert(last.next == s.len() && last.dotted && last.groups.len() == 3);
    let tail = groups_from(s, 2, none, 7);
    assert(tail == last);
    assert(ipv6_of(none, tail.groups) == x);
}

/// An IPv6 address that is written out and read back is the same address.
pub proof fn lemma_ipv6_reads_back(x: Ipv6Address)
    ensures
        ipv6_text(ipv6_string(x)) == Some(x),
        ip_text(ipv6_string(x)) == Some(IpAddress::V6(x)),
{
    if embeds_v4(x) {
        lemma_mapped_reads_back(x);
    } else if zero_run(segments_of(x), longest_zero_run(segments_of(x), 0)) >= 2 {
        lemma_short_reads_back(x);
    } else {
        lemma_plain_reads_back(x);
    }
}

} // verus!
