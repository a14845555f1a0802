//! Addresses in standard textual notation: dotted decimal for IPv4, colon
//! separated hexadecimal groups for IPv6, with one optional `::` and an
//! optional dotted IPv4 tail.

use vstd::prelude::*;
use crate::addr::{join_bytes, segment_of, IpAddress, Ipv4Address, Ipv6Address};

verus! {

/// Whether index `i` of `s` holds the character `c`.
pub open spec fn char_at(s: Seq<char>, i: int, c: char) -> bool {
    0 <= i < s.len() && s[i] == c
}

/// Whether index `i` of `s` holds a decimal digit.
pub open spec fn dec_at(s: Seq<char>, i: int) -> bool {
    0 <= i < s.len() && 48 <= s[i] as int <= 57
}

/// The value of the decimal digit at index `i`.
pub open spec fn dec_val(s: Seq<char>, i: int) -> int {
    s[i] as int - 48
}

/// The value of a hexadecimal digit of either case.
pub open spec fn hex_digit(c: char) -> Option<int> {
    let n = c as int;
    if 48 <= n <= 57 {
        Some(n - 48)
    } else if 97 <= n <= 102 {
        Some(n - 87)
    } else if 65 <= n <= 70 {
        Some(n - 55)
    } else {
        None
    }
}

/// Whether index `i` of `s` holds a hexadecimal digit.
pub open spec fn hex_at(s: Seq<char>, i: int) -> bool {
    0 <= i < s.len() && hex_digit(s[i]) is Some
}

/// The value of the hexadecimal digit at index `i`.
pub open spec fn hex_val(s: Seq<char>, i: int) -> int {
    hex_digit(s[i])->0
}

/// The decimal octet that starts at index `i`, with the index after it. The
/// octet is the whole run of digits there: one to three of them, without a
/// leading zero unless the run is the single digit `0`, and at most 255.
pub open spec fn octet_at(s: Seq<char>, i: int) -> Option<(u8, int)> {
    if !dec_at(s, i) {
        None
    } else if !dec_at(s, i + 1) {
        Some((dec_val(s, i) as u8, i + 1))
    } else if dec_val(s, i) == 0 {
        None
    } else if !dec_at(s, i + 2) {
        Some(((10 * dec_val(s, i) + dec_val(s, i + 1)) as u8, i + 2))
    } else if dec_at(s, i + 3) {
        None
    } else {
        let v = 100 * dec_val(s, i) + 10 * dec_val(s, i + 1) + dec_val(s, i + 2);
        if v <= 255 {
            Some((v as u8, i + 3))
        } else {
            None
        }
    }
}

/// A dot at index `i` and the octet behind it.
pub open spec fn dot_octet_at(s: Seq<char>, i: int) -> Option<(u8, int)> {
    if char_at(s, i, '.') {
        octet_at(s, i + 1)
    } else {
        None
    }
}

/// The dotted IPv4 address that starts at index `i`, with the index after it.
pub open spec fn ipv4_at(s: Seq<char>, i: int) -> Option<(Ipv4Address, int)> {
    match octet_at(s, i) {
        Some((a, i1)) => match dot_octet_at(s, i1) {
            Some((b, i2)) => match dot_octet_at(s, i2) {
                Some((c, i3)) => match dot_octet_at(s, i3) {
                    Some((d, i4)) => Some((Ipv4Address { a, b, c, d }, i4)),
                    None => None,
                },
                None => None,
            },
            None => None,
        },
        None => None,
    }
}

/// The IPv4 address that the whole of `s` spells.
pub open spec fn ipv4_text(s: Seq<char>) -> Option<Ipv4Address> {
    match ipv4_at(s, 0) {
        Some((x, n)) => if n == s.len() {
            Some(x)
        } else {
            None
        },
        None => None,
    }
}

/// The hexadecimal group that starts at index `i`, with the index after it.
/// The group is the whole run of hexadecimal digits there: one to four.
pub open spec fn group_at(s: Seq<char>, i: int) -> Option<(u16, int)> {
    if !hex_at(s, i) {
        None
    } else if !hex_at(s, i + 1) {
        Some((hex_val(s, i) as u16, i + 1))
    } else if !hex_at(s, i + 2) {
        Some(((16 * hex_val(s, i) + hex_val(s, i + 1)) as u16, i + 2))
    } else if !hex_at(s, i + 3) {
        Some(((256 * hex_val(s, i) + 16 * hex_val(s, i + 1) + hex_val(s, i + 2)) as u16, i + 3))
    } else if !hex_at(s, i + 4) {
        Some(
            (
                (4096 * hex_val(s, i) + 256 * hex_val(s, i + 1) + 16 * hex_val(s, i + 2) + hex_val(
                    s,
                    i + 3,
                )) as u16,
                i + 4,
            ),
        )
    } else {
        None
    }
}

/// A run of groups: the segments read, the index after them, and whether the
/// run ended in a dotted IPv4 address.
pub struct GroupRun {
    pub groups: Seq<u16>,
    pub next: int,
    pub dotted: bool,
}

/// Reads groups from index `i` on, after the groups `acc`, up to `limit`
/// groups in all. Each group but the first of the run follows a colon. Where
/// two groups or more are still free, a dotted IPv4 address is taken as two
/// groups and ends the run. The run also ends where no further group stands.
pub open spec fn groups_from(s: Seq<char>, i: int, acc: Seq<u16>, limit: nat) -> GroupRun
    decreases limit - acc.len(),
{
    let stop = GroupRun { groups: acc, next: i, dotted: false };
    let j = if acc.len() == 0 {
        i
    } else {
        i + 1
    };
    if acc.len() >= limit {
        stop
    } else if acc.len() > 0 && !char_at(s, i, ':') {
        stop
    } else if acc.len() + 1 < limit && ipv4_at(s, j) is Some {
        let (x, n) = ipv4_at(s, j)->0;
        GroupRun {
            groups: acc.push(segment_of(x.a, x.b)).push(segment_of(x.c, x.d)),
            next: n,
            dotted: true,
        }
    } else {
        match group_at(s, j) {
            Some((g, n)) => groups_from(s, n, acc.push(g), limit),
            None => stop,
        }
    }
}

/// Segment `k` of the address whose first groups are `head` and whose last
/// groups are `tail`, with zeros between them.
pub open spec fn spliced(head: Seq<u16>, tail: Seq<u16>, k: int) -> u16 {
    if k < head.len() {
        head[k]
    } else if k >= 8 - tail.len() {
        tail[k - (8 - tail.len())]
    } else {
        0
    }
}

/// The address whose first groups are `head` and whose last groups are `tail`.
pub open spec fn ipv6_of(head: Seq<u16>, tail: Seq<u16>) -> Ipv6Address {
    Ipv6Address {
        s0: spliced(head, tail, 0),
        s1: spliced(head, tail, 1),
        s2: spliced(head, tail, 2),
        s3: spliced(head, tail, 3),
        s4: spliced(head, tail, 4),
        s5: spliced(head, tail, 5),
        s6: spliced(head, tail, 6),
        s7: spliced(head, tail, 7),
    }
}

/// The IPv6 address that the whole of `s` spells: eight groups, or fewer
/// groups with one `::` that stands for the zero segments that are missing (at
/// least one). A dotted IPv4 address may stand for the last two groups.
pub open spec fn ipv6_text(s: Seq<char>) -> Option<Ipv6Address> {
    let head = groups_from(s, 0, Seq::empty(), 8);
    if head.groups.len() == 8 {
        if head.next == s.len() {
            Some(ipv6_of(head.groups, Seq::empty()))
        } else {
            None
        }
    } else if head.dotted || !char_at(s, head.next, ':') || !char_at(s, head.next + 1, ':') {
        None
    } else {
        let tail = groups_from(
            s,
            head.next + 2,
            Seq::empty(),
            (7 - head.groups.len()) as nat,
        );
        if tail.next == s.len() {
            Some(ipv6_of(head.groups, tail.groups))
        } else {
            None
        }
    }
}

/// The address that the whole of `s` spells, in either notation.
pub open spec fn ip_text(s: Seq<char>) -> Option<IpAddress> {
    match ipv4_text(s) {
        Some(x) => Some(IpAddress::V4(x)),
        None => match ipv6_text(s) {
            Some(x) => Some(IpAddress::V6(x)),
            None => None,
        },
    }
}

fn is_char_at(s: &Vec<char>, i: usize, c: char) -> (r: bool)
    ensures
        r == char_at(s@, i as int, c),
        r ==> i < usize::MAX,
{
    i < s.len() && s[i] == c
}

fn hex_digit_of(c: char) -> (r: Option<u16>)
    ensures
        r is Some == hex_digit(c) is Some,
        r is Some ==> r->0 == hex_digit(c)->0 && r->0 <= 15,
{
    match c {
        '0' => Some(0),
        '1' => Some(1),
        '2' => Some(2),
        '3' => Some(3),
        '4' => Some(4),
        '5' => Some(5),
        '6' => Some(6),
        '7' => Some(7),
        '8' => Some(8),
        '9' => Some(9),
        'a' | 'A' => Some(10),
        'b' | 'B' => Some(11),
        'c' | 'C' => Some(12),
        'd' | 'D' => Some(13),
        'e' | 'E' => Some(14),
        'f' | 'F' => Some(15),
        _ => None,
    }
}

fn is_dec_at(s: &Vec<char>, i: usize) -> (r: bool)
    ensures
        r == dec_at(s@, i as int),
        r ==> i < usize::MAX,
{
    i < s.len() && '0' <= s[i] && s[i] <= '9'
}

fn dec_value(s: &Vec<char>, i: usize) -> (r: u16)
    requires
        dec_at(s@, i as int),
    ensures
        r == dec_val(s@, i as int),
        r <= 9,
{
    match hex_digit_of(s[i]) {
        Some(v) => v,
        None => 0,
    }
}

fn hex_value_at(s: &Vec<char>, i: usize) -> (r: Option<u16>)
    ensures
        r is Some == hex_at(s@, i as int),
        r is Some ==> r->0 == hex_val(s@, i as int) && r->0 <= 15 && i < usize::MAX,
{
    if i < s.len() {
        hex_digit_of(s[i])
    } else {
        None
    }
}

fn read_octet(s: &Vec<char>, i: usize) -> (r: Option<(u8, usize)>)
    ensures
        match r {
            Some((v, n)) => octet_at(s@, i as int) == Some((v, n as int)) && i < n <= s.len(),
            None => octet_at(s@, i as int) is None,
        },
{
    if !is_dec_at(s, i) {
        return None;
    }
    let d0: u16 = dec_value(s, i);
    if !is_dec_at(s, i + 1) {
        return Some((d0 as u8, i + 1));
    }
    if d0 == 0 {
        return None;
    }
    let d1: u16 = dec_value(s, i + 1);
    if !is_dec_at(s, i + 2) {
        return Some(((10 * d0 + d1) as u8, i + 2));
    }
    if is_dec_at(s, i + 3) {
        return None;
    }
    let d2: u16 = dec_value(s, i + 2);
    let v: u16 = 100 * d0 + 10 * d1 + d2;
    if v <= 255 {
        Some((v as u8, i + 3))
    } else {
        None
    }
}

fn read_dot_octet(s: &Vec<char>, i: usize) -> (r: Option<(u8, usize)>)
    ensures
        match r {
            Some((v, n)) => dot_octet_at(s@, i as int) == Some((v, n as int)) && i < n <= s.len(),
            None => dot_octet_at(s@, i as int) is None,
        },
{
    if is_char_at(s, i, '.') {
        read_octet(s, i + 1)
    } else {
        None
    }
}

fn read_ipv4(s: &Vec<char>, i: usize) -> (r: Option<(Ipv4Address, usize)>)
    ensures
        match r {
            Some((x, n)) => ipv4_at(s@, i as int) == Some((x, n as int)) && i < n <= s.len(),
            None => ipv4_at(s@, i as int) is None,
        },
{
    let (a, i1) = match read_octet(s, i) {
        Some(p) => p,
        None => { return None; },
    };
    let (b, i2) = match read_dot_octet(s, i1) {
        Some(p) => p,
        None => { return None; },
    };
    let (c, i3) = match read_dot_octet(s, i2) {
        Some(p) => p,
        None => { return None; },
    };
    let (d, i4) = match read_dot_octet(s, i3) {
        Some(p) => p,
        None => { return None; },
    };
    Some((Ipv4Address { a, b, c, d }, i4))
}

fn read_group(s: &Vec<char>, i: usize) -> (r: Option<(u16, usize)>)
    ensures
        match r {
            Some((g, n)) => group_at(s@, i as int) == Some((g, n as int)) && i < n <= s.len(),
            None => group_at(s@, i as int) is None,
        },
{
    let h0: u16 = match hex_value_at(s, i) {
        Some(h) => h,
        None => { return None; },
    };
    let h1: u16 = match hex_value_at(s, i + 1) {
        Some(h) => h,
        None => { return Some((h0, i + 1)); },
    };
    let h2: u16 = match hex_value_at(s, i + 2) {
        Some(h) => h,
        None => { return Some((16 * h0 + h1, i + 2)); },
    };
    let h3: u16 = match hex_value_at(s, i + 3) {
        Some(h) => h,
        None => { return Some((256 * h0 + 16 * h1 + h2, i + 3)); },
    };
    if hex_value_at(s, i + 4).is_some() {
        None
    } else {
        Some((4096 * h0 + 256 * h1 + 16 * h2 + h3, i + 4))
    }
}

fn read_groups(s: &Vec<char>, start: usize, limit: usize) -> (r: (Vec<u16>, usize, bool))
    requires
        start <= s.len(),
        limit <= 8,
    ensures
        groups_from(s@, start as int, Seq::empty(), limit as nat) == (GroupRun {
            groups: r.0@,
            next: r.1 as int,
            dotted: r.2,
        }),
        r.0.len() <= limit,
        start <= r.1 <= s.len(),
{
    let mut acc: Vec<u16> = Vec::new();
    let mut i: usize = start;
    loop
        invariant
            start <= i <= s.len(),
            acc.len() <= limit <= 8,
            groups_from(s@, start as int, Seq::empty(), limit as nat) == groups_from(
                s@,
                i as int,
                acc@,
                limit as nat,
            ),
        decreases limit - acc.len(),
    {
        if acc.len() >= limit {
            return (acc, i, false);
        }
        let mut j: usize = i;
        if acc.len() > 0 {
            if !is_char_at(s, i, ':') {
                return (acc, i, false);
            }
            j = i + 1;
        }
        if acc.len() + 1 < limit {
            match read_ipv4(s, j) {
                Some((x, n)) => {
                    acc.push(join_bytes(x.a, x.b));
                    acc.push(join_bytes(x.c, x.d));
                    return (acc, n, true);
                },
                None => {},
            }
        }
        match read_group(s, j) {
            Some((g, n)) => {
                acc.push(g);
                i = n;
            },
            None => {
                return (acc, i, false);
            },
        }
    }
}

fn splice_at(head: &Vec<u16>, tail: &Vec<u16>, k: usize) -> (r: u16)
    requires
        head.len() + tail.len() <= 8,
        k < 8,
    ensures
        r == spliced(head@, tail@, k as int),
{
    if k < head.len() {
        head[k]
    } else if k >= 8 - tail.len() {
        tail[k - (8 - tail.len())]
    } else {
        0
    }
}

fn splice(head: &Vec<u16>, tail: &Vec<u16>) -> (r: Ipv6Address)
    requires
        head.len() + tail.len() <= 8,
    ensures
        r == ipv6_of(head@, tail@),
{
    Ipv6Address {
        s0: splice_at(head, tail, 0),
        s1: splice_at(head, tail, 1),
        s2: splice_at(head, tail, 2),
        s3: splice_at(head, tail, 3),
        s4: splice_at(head, tail, 4),
        s5: splice_at(head, tail, 5),
        s6: splice_at(head, tail, 6),
        s7: splice_at(head, tail, 7),
    }
}

/// Parses the whole of `s` as a dotted IPv4 address.
pub fn parse_ipv4_chars(s: &Vec<char>) -> (r: Option<Ipv4Address>)
    ensures
        r == ipv4_text(s@),
{
    match read_ipv4(s, 0) {
        Some((x, n)) => if n == s.len() {
            Some(x)
        } else {
            None
        },
        None => None,
    }
}

/// Parses the whole of `s` as an IPv6 address.
pub fn parse_ipv6_chars(s: &Vec<char>) -> (r: Option<Ipv6Address>)
    ensures
        r == ipv6_text(s@),
{
    let (head, next, dotted) = read_groups(s, 0, 8);
    if head.len() == 8 {
        if next == s.len() {
            let none: Vec<u16> = Vec::new();
            Some(splice(&head, &none))
        } else {
            None
        }
    } else if dotted || !is_char_at(s, next, ':') || !is_char_at(s, next + 1, ':') {
        None
    } else {
        let (tail, end, _) = read_groups(s, next + 2, 7 - head.len());
        if end == s.len() {
            Some(splice(&head, &tail))
        } else {
            None
        }
    }
}

/// Parses the whole of `s` as an address: IPv4 where it is one, else IPv6.
pub fn parse_ip_chars(s: &Vec<char>) -> (r: Option<IpAddress>)
    ensures
        r == ip_text(s@),
{
    match parse_ipv4_chars(s) {
        Some(x) => Some(IpAddress::V4(x)),
        None => match parse_ipv6_chars(s) {
            Some(x) => Some(IpAddress::V6(x)),
            None => None,
        },
    }
}

/// The characters of `text`, in order.
pub fn chars_of(text: &str) -> (r: Vec<char>)
    ensures
        r@ == text@,
{
    broadcast use vstd::string::axiom_spec_iter;

    let mut out: Vec<char> = Vec::new();
    for c in it: text.chars()
        invariant
            it.seq() == text@,
            out@ == text@.take(it.index()),
    {
        out.push(c);
        assert(out@ =~= text@.take(it.index() + 1));
    }
    assert(out@ =~= text@);
    out
}

/// Parses `text` as an address. `Some` exactly where the whole text spells
/// one.
pub fn parse_ip(text: &str) -> (r: Option<IpAddress>)
    ensures
        r == ip_text(text@),
{
    let s = chars_of(text);
    parse_ip_chars(&s)
}

} // verus!
