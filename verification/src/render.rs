//! Addresses written out in standard textual notation.

use vstd::prelude::*;
use crate::addr::{embedded_v4, embeds_v4, Ipv4Address, Ipv6Address};
use crate::resolve::ClientAddr;

verus! {

/// The lower case character of the digit `d`, decimal or hexadecimal.
pub open spec fn digit_char(d: int) -> char {
    if d == 0 {
        '0'
    } else if d == 1 {
        '1'
    } else if d == 2 {
        '2'
    } else if d == 3 {
        '3'
    } else if d == 4 {
        '4'
    } else if d == 5 {
        '5'
    } else if d == 6 {
        '6'
    } else if d == 7 {
        '7'
    } else if d == 8 {
        '8'
    } else if d == 9 {
        '9'
    } else if d == 10 {
        'a'
    } else if d == 11 {
        'b'
    } else if d == 12 {
        'c'
    } else if d == 13 {
        'd'
    } else if d == 14 {
        'e'
    } else {
        'f'
    }
}

/// An octet in decimal, without leading zeros.
pub open spec fn dec_text(n: int) -> Seq<char> {
    if n < 10 {
        seq![digit_char(n)]
    } else if n < 100 {
        seq![digit_char(n / 10), digit_char(n % 10)]
    } else {
        seq![digit_char(n / 100), digit_char(n / 10 % 10), digit_char(n % 10)]
    }
}

/// A segment in lower case hexadecimal, without leading zeros.
pub open spec fn hex_text(n: int) -> Seq<char> {
    if n < 0x10 {
        seq![digit_char(n)]
    } else if n < 0x100 {
        seq![digit_char(n / 16), digit_char(n % 16)]
    } else if n < 0x1000 {
        seq![digit_char(n / 256), digit_char(n / 16 % 16), digit_char(n % 16)]
    } else {
        seq![
            digit_char(n / 4096),
            digit_char(n / 256 % 16),
            digit_char(n / 16 % 16),
            digit_char(n % 16),
        ]
    }
}

/// An IPv4 address in dotted decimal.
pub open spec fn ipv4_string(x: Ipv4Address) -> Seq<char> {
    dec_text(x.a as int) + seq!['.'] + dec_text(x.b as int) + seq!['.'] + dec_text(x.c as int)
        + seq!['.'] + dec_text(x.d as int)
}

/// The segments of an address, first to last.
pub open spec fn segments_of(x: Ipv6Address) -> Seq<u16> {
    seq![x.s0, x.s1, x.s2, x.s3, x.s4, x.s5, x.s6, x.s7]
}

/// The groups `g` in hexadecimal with a colon between neighbours.
pub open spec fn joined(g: Seq<u16>) -> Seq<char>
    decreases g.len(),
{
    if g.len() == 0 {
        Seq::empty()
    } else if g.len() == 1 {
        hex_text(g[0] as int)
    } else {
        joined(g.drop_last()) + seq![':'] + hex_text(g.last() as int)
    }
}

/// The length of the run of zero segments that starts at index `k`.
pub open spec fn zero_run(g: Seq<u16>, k: int) -> nat
    decreases g.len() - k,
{
    if 0 <= k < g.len() && g[k] == 0 {
        1 + zero_run(g, k + 1)
    } else {
        0
    }
}

/// The index from `k` on at which the longest run of zero segments starts; the
/// first such index where several runs are the longest.
pub open spec fn longest_zero_run(g: Seq<u16>, k: int) -> int
    decreases g.len() - k,
{
    if k >= g.len() {
        g.len() as int
    } else {
        let rest = longest_zero_run(g, k + 1);
        if zero_run(g, k) >= zero_run(g, rest) {
            k
        } else {
            rest
        }
    }
}

/// An IPv6 address in its shortest form: an IPv4-mapped address with a dotted
/// tail; any other with its longest run of two or more zero segments, the
/// first of them where several are the longest, written as `::`.
pub open spec fn ipv6_string(x: Ipv6Address) -> Seq<char> {
    let g = segments_of(x);
    let k = longest_zero_run(g, 0);
    let n = zero_run(g, k);
    if embeds_v4(x) {
        seq![':', ':', 'f', 'f', 'f', 'f', ':'] + ipv4_string(embedded_v4(x))
    } else if n >= 2 {
        joined(g.subrange(0, k)) + seq![':', ':'] + joined(g.subrange(k + n, 8))
    } else {
        joined(g)
    }
}

fn digit_str(d: u16) -> (r: &'static str)
    requires
        d < 16,
    ensures
        r@ == seq![digit_char(d as int)],
{
    proof {
        reveal_strlit("0");
        reveal_strlit("1");
        reveal_strlit("2");
        reveal_strlit("3");
        reveal_strlit("4");
        reveal_strlit("5");
        reveal_strlit("6");
        reveal_strlit("7");
        reveal_strlit("8");
        reveal_strlit("9");
        reveal_strlit("a");
        reveal_strlit("b");
        reveal_strlit("c");
        reveal_strlit("d");
        reveal_strlit("e");
        reveal_strlit("f");
    }
    let r = if d == 0 {
        "0"
    } else if d == 1 {
        "1"
    } else if d == 2 {
        "2"
    } else if d == 3 {
        "3"
    } else if d == 4 {
        "4"
    } else if d == 5 {
        "5"
    } else if d == 6 {
        "6"
    } else if d == 7 {
        "7"
    } else if d == 8 {
        "8"
    } else if d == 9 {
        "9"
    } else if d == 10 {
        "a"
    } else if d == 11 {
        "b"
    } else if d == 12 {
        "c"
    } else if d == 13 {
        "d"
    } else if d == 14 {
        "e"
    } else {
        "f"
    };
    assert(r@ =~= seq![digit_char(d as int)]);
    r
}

fn push_digit(out: &mut String, d: u16)
    requires
        d < 16,
    ensures
        final(out)@ == old(out)@.push(digit_char(d as int)),
{
    out.append(digit_str(d));
    assert(out@ =~= old(out)@.push(digit_char(d as int)));
}

fn push_dec(out: &mut String, n: u8)
    ensures
        final(out)@ == old(out)@ + dec_text(n as int),
{
    let v: u16 = n as u16;
    if v >= 100 {
        push_digit(out, v / 100);
    }
    if v >= 10 {
        push_digit(out, v / 10 % 10);
    }
    push_digit(out, v % 10);
    assert(out@ =~= old(out)@ + dec_text(n as int));
}

fn push_hex(out: &mut String, v: u16)
    ensures
        final(out)@ == old(out)@ + hex_text(v as int),
{
    if v >= 0x1000 {
        push_digit(out, v / 4096);
    }
    if v >= 0x100 {
        push_digit(out, v / 256 % 16);
    }
    if v >= 0x10 {
        push_digit(out, v / 16 % 16);
    }
    push_digit(out, v % 16);
    assert(out@ =~= old(out)@ + hex_text(v as int));
}

fn push_ipv4(out: &mut String, x: &Ipv4Address)
    ensures
        final(out)@ == old(out)@ + ipv4_string(*x),
{
    proof {
        reveal_strlit(".");
    }
    push_dec(out, x.a);
    out.append(".");
    push_dec(out, x.b);
    out.append(".");
    push_dec(out, x.c);
    out.append(".");
    push_dec(out, x.d);
    assert(out@ =~= old(out)@ + ipv4_string(*x));
}

fn push_joined(out: &mut String, g: &[u16; 8], lo: usize, hi: usize)
    requires
        lo <= hi <= 8,
    ensures
        final(out)@ == old(out)@ + joined(g@.subrange(lo as int, hi as int)),
{
    let mut k: usize = lo;
    while k < hi
        invariant
            lo <= k <= hi <= 8,
            out@ == old(out)@ + joined(g@.subrange(lo as int, k as int)),
        decreases hi - k,
    {
        let ghost before = out@;
        if k > lo {
            proof {
                reveal_strlit(":");
            }
            out.append(":");
            assert(out@ =~= before + seq![':']);
        }
        let ghost mid = out@;
        push_hex(out, g[k]);
        assert(out@ == mid + hex_text(g@[k as int] as int));
        proof {
            let next = g@.subrange(lo as int, k as int + 1);
            assert(next.drop_last() =~= g@.subrange(lo as int, k as int));
            assert(next.last() == g@[k as int]);
            assert(next.len() == k + 1 - lo);
            if k > lo {
                assert(joined(next) == joined(next.drop_last()) + seq![':'] + hex_text(
                    next.last() as int,
                ));
                assert(before =~= old(out)@ + joined(next.drop_last()));
            } else {
                assert(joined(next) == hex_text(next[0] as int));
                assert(before =~= old(out)@);
            }
            assert(out@ =~= old(out)@ + joined(next));
        }
        k += 1;
    }
}

fn find_zero_run(g: &[u16; 8]) -> (r: (usize, usize))
    ensures
        r.0 == longest_zero_run(g@, 0),
        r.1 == zero_run(g@, r.0 as int),
        r.0 + r.1 <= 8,
{
    let mut k: usize = 8;
    let mut run: usize = 0;
    let mut best: usize = 8;
    let mut best_len: usize = 0;
    while k > 0
        invariant
            k <= 8,
            run == zero_run(g@, k as int),
            best == longest_zero_run(g@, k as int),
            best_len == zero_run(g@, best as int),
            k <= best <= 8,
            k + run <= 8,
            best + best_len <= 8,
        decreases k,
    {
        k -= 1;
        if g[k] == 0 {
            run += 1;
        } else {
            run = 0;
        }
        if run >= best_len {
            best = k;
            best_len = run;
        }
    }
    (best, best_len)
}

/// Writes `x` in dotted decimal.
pub fn ipv4_to_string(x: &Ipv4Address) -> (r: String)
    ensures
        r@ == ipv4_string(*x),
{
    let mut out = String::new();
    push_ipv4(&mut out, x);
    assert(out@ =~= ipv4_string(*x));
    out
}

/// Writes `x` in its shortest form.
pub fn ipv6_to_string(x: &Ipv6Address) -> (r: String)
    ensures
        r@ == ipv6_string(*x),
{
    let mut out = String::new();
    match x.to_ipv4_mapped() {
        Some(v4) => {
            proof {
                reveal_strlit("::ffff:");
            }
            out.append("::ffff:");
            assert(out@ =~= seq![':', ':', 'f', 'f', 'f', 'f', ':']);
            push_ipv4(&mut out, &v4);
            return out;
        },
        None => {},
    }
    let g = x.segments();
    assert(g@ =~= segments_of(*x));
    let (k, n) = find_zero_run(&g);
    if n >= 2 {
        proof {
            reveal_strlit("::");
        }
        push_joined(&mut out, &g, 0, k);
        out.append("::");
        push_joined(&mut out, &g, k + n, 8);
        assert(out@ =~= joined(g@.subrange(0, k as int)) + seq![':', ':'] + joined(
            g@.subrange(k + n, 8),
        ));
    } else {
        push_joined(&mut out, &g, 0, 8);
        assert(g@.subrange(0, 8) =~= g@);
        assert(out@ =~= joined(g@));
    }
    out
}

impl ClientAddr {
    /// The address as IPv4 in dotted decimal, where it has such a form.
    pub fn get_ipv4_string(&self) -> (r: Option<String>)
        ensures
            r is Some == self.ipv4() is Some,
            r is Some ==> r->0@ == ipv4_string(self.ipv4()->0),
    {
        match self.get_ipv4() {
            Some(x) => Some(ipv4_to_string(&x)),
            None => None,
        }
    }

    /// The address as IPv6 in its shortest form.
    pub fn get_ipv6_string(&self) -> (r: String)
        ensures
            r@ == ipv6_string(self.ipv6()),
    {
        let x = self.get_ipv6();
        ipv6_to_string(&x)
    }
}

} // verus!
