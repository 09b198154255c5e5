//! Socket addresses of the remote machines that directories are synced to.

use vstd::prelude::*;
use crate::text::{decimal, hexadecimal, number_to_text};

verus! {

/// A remote socket address: an IPv4 address and port, or an IPv6 address,
/// port, flow label and scope id. Two addresses are equal when all of
/// these agree.
#[derive(Clone, Copy, Debug, PartialEq, Eq, Structural)]
pub enum RemoteAddr {
    V4 { ip4: u32, port: u16 },
    V6 { ip6: u128, port: u16, flowinfo: u32, scope_id: u32 },
}

impl RemoteAddr {
    pub open spec fn port_of(self) -> u16 {
        match self {
            RemoteAddr::V4 { port, .. } => port,
            RemoteAddr::V6 { port, .. } => port,
        }
    }

    /// The port number of the address.
    pub fn port(&self) -> (p: u16)
        ensures
            p == self.port_of(),
    {
        match self {
            RemoteAddr::V4 { port, .. } => *port,
            RemoteAddr::V6 { port, .. } => *port,
        }
    }

    /// Whether the two addresses are equal.
    pub fn same_as(&self, other: &RemoteAddr) -> (r: bool)
        ensures
            r == (*self == *other),
    {
        *self == *other
    }
}

/// The `count` lowest digits of `n` in base `base`, the most significant first.
pub open spec fn digits_in_base(n: u128, count: nat, base: u128) -> Seq<u128>
    decreases count,
{
    if count == 0 {
        Seq::empty()
    } else {
        digits_in_base(n / base, (count - 1) as nat, base).push(n % base)
    }
}

/// Four octets in dotted decimal.
pub open spec fn dotted(o: Seq<u128>) -> Seq<char> {
    decimal(o[0] as nat) + seq!['.'] + decimal(o[1] as nat) + seq!['.'] + decimal(o[2] as nat)
        + seq!['.'] + decimal(o[3] as nat)
}

/// An IPv4 address in dotted decimal.
pub open spec fn ipv4_text(ip: u32) -> Seq<char> {
    dotted(digits_in_base(ip as u128, 4, 256))
}

/// Segments in hexadecimal, separated by colons.
pub open spec fn join_hex(s: Seq<u128>) -> Seq<char>
    decreases s.len(),
{
    if s.len() == 0 {
        Seq::empty()
    } else if s.len() == 1 {
        hexadecimal(s[0] as nat)
    } else {
        join_hex(s.drop_last()) + seq![':'] + hexadecimal(s.last() as nat)
    }
}

/// How many zero segments follow one another from position `i` on.
pub open spec fn zero_run(s: Seq<u128>, i: int) -> nat
    decreases s.len() - i,
{
    if i < 0 || i >= s.len() || s[i] != 0 {
        0
    } else {
        1 + zero_run(s, i + 1)
    }
}

/// Where, from position `i` on, the first of the longest runs of zero
/// segments starts, and its length.
pub open spec fn longest_zero_run(s: Seq<u128>, i: int) -> (int, nat)
    decreases s.len() - i,
{
    if i < 0 || i >= s.len() {
        (s.len() as int, 0)
    } else {
        let rest = longest_zero_run(s, i + 1);
        if zero_run(s, i) >= rest.1 {
            (i, zero_run(s, i))
        } else {
            rest
        }
    }
}

/// The eight segments of an IPv6 address.
pub open spec fn ipv6_segments(ip: u128) -> Seq<u128> {
    digits_in_base(ip, 8, 65536)
}

/// The address is an IPv4 address mapped into IPv6: five zero segments,
/// then `ffff`.
pub open spec fn is_ipv4_mapped(s: Seq<u128>) -> bool {
    s[0] == 0 && s[1] == 0 && s[2] == 0 && s[3] == 0 && s[4] == 0 && s[5] == 0xffff
}

/// An IPv6 address as text: a mapped IPv4 address as `::ffff:` and its
/// dotted form; otherwise the segments in hexadecimal, with the first of
/// the longest runs of at least two zero segments written as `::`.
pub open spec fn ipv6_text(ip: u128) -> Seq<char> {
    let s = ipv6_segments(ip);
    if is_ipv4_mapped(s) {
        seq![':', ':', 'f', 'f', 'f', 'f', ':'] + dotted(
            seq![s[6] / 256, s[6] % 256, s[7] / 256, s[7] % 256],
        )
    } else {
        let (start, len) = longest_zero_run(s, 0);
        if len > 1 {
            join_hex(s.take(start)) + seq![':', ':'] + join_hex(s.skip(start + len))
        } else {
            join_hex(s)
        }
    }
}

/// A socket address as text: `ip:port` for IPv4; for IPv6 the address in
/// brackets, followed by `%` and the scope id when that is not zero, then
/// `:port`.
pub open spec fn addr_text(a: RemoteAddr) -> Seq<char> {
    match a {
        RemoteAddr::V4 { ip4, port } => ipv4_text(ip4) + seq![':'] + decimal(port as nat),
        RemoteAddr::V6 { ip6, port, scope_id, .. } => seq!['['] + ipv6_text(ip6) + (if scope_id
            == 0 {
            Seq::empty()
        } else {
            seq!['%'] + decimal(scope_id as nat)
        }) + seq![']', ':'] + decimal(port as nat),
    }
}

fn digits_of(n: u128, count: usize, base: u128) -> (r: Vec<u128>)
    requires
        base > 0,
    ensures
        r@ == digits_in_base(n, count as nat, base),
        r@.len() == count,
        forall|i: int| 0 <= i < count ==> #[trigger] r@[i] < base,
    decreases count,
{
    if count == 0 {
        Vec::new()
    } else {
        let mut v = digits_of(n / base, count - 1, base);
        v.push(n % base);
        v
    }
}

fn dotted_text(o: &Vec<u128>) -> (r: String)
    requires
        o@.len() == 4,
    ensures
        r@ == dotted(o@),
{
    proof {
        reveal_strlit(".");
    }
    number_to_text(o[0], 10).concat(".").concat(number_to_text(o[1], 10).as_str()).concat(
        ".",
    ).concat(number_to_text(o[2], 10).as_str()).concat(".").concat(
        number_to_text(o[3], 10).as_str(),
    )
}

fn join_hex_text(s: &Vec<u128>, from: usize, to: usize) -> (r: String)
    requires
        from <= to <= s@.len(),
    ensures
        r@ == join_hex(s@.subrange(from as int, to as int)),
{
    proof {
        reveal_strlit(":");
    }
    let mut r = String::new();
    let mut i = from;
    assert(s@.subrange(from as int, from as int) =~= Seq::<u128>::empty());
    while i < to
        invariant
            from <= i <= to <= s@.len(),
            r@ == join_hex(s@.subrange(from as int, i as int)),
        decreases to - i,
    {
        let ghost next = s@.subrange(from as int, i as int + 1);
        assert(next.drop_last() =~= s@.subrange(from as int, i as int));
        if i == from {
            assert(next =~= seq![s@[i as int]]);
            r = number_to_text(s[i], 16);
        } else {
            assert(next.len() >= 2);
            assert(next.last() == s@[i as int]);
            proof {
                reveal_strlit(":");
            }
            assert(":"@ =~= seq![':']);
            r = r.concat(":").concat(number_to_text(s[i], 16).as_str());
            assert(r@ =~= join_hex(next));
        }
        i = i + 1;
    }
    r
}

/// The text of an IPv6 address.
fn ipv6_to_text(ip: u128) -> (r: String)
    ensures
        r@ == ipv6_text(ip),
{
    let s = digits_of(ip, 8, 65536);
    if s[0] == 0 && s[1] == 0 && s[2] == 0 && s[3] == 0 && s[4] == 0 && s[5] == 0xffff {
        let mut o: Vec<u128> = Vec::new();
        o.push(s[6] / 256);
        o.push(s[6] % 256);
        o.push(s[7] / 256);
        o.push(s[7] % 256);
        proof {
            reveal_strlit("::ffff:");
        }
        let r = String::from_str("::ffff:").concat(dotted_text(&o).as_str());
        assert(o@ =~= seq![s@[6] / 256, s@[6] % 256, s@[7] / 256, s@[7] % 256]);
        return r;
    }
    let mut i: usize = 8;
    let mut run: usize = 0;
    let mut start: usize = 8;
    let mut len: usize = 0;
    while i > 0
        invariant
            s@.len() == 8,
            0 <= i <= 8,
            run == zero_run(s@, i as int),
            (start as int, len as nat) == longest_zero_run(s@, i as int),
            run <= 8 - i,
            len <= 8,
            start <= 8,
            start + len <= 8,
        decreases i,
    {
        i = i - 1;
        if s[i] == 0 {
            run = run + 1;
        } else {
            run = 0;
        }
        if run >= len {
            start = i;
            len = run;
        }
    }
    if len > 1 {
        proof {
            reveal_strlit("::");
        }
        let r = join_hex_text(&s, 0, start).concat("::").concat(
            join_hex_text(&s, start + len, 8).as_str(),
        );
        assert(s@.subrange(0, start as int) =~= s@.take(start as int));
        assert(s@.subrange(start + len, 8) =~= s@.skip(start + len));
        r
    } else {
        let r = join_hex_text(&s, 0, 8);
        assert(s@.subrange(0, 8) =~= s@);
        r
    }
}

impl RemoteAddr {
    /// The address as text, as socket addresses are displayed.
    pub fn to_text(&self) -> (r: String)
        ensures
            r@ == addr_text(*self),
    {
        match self {
            RemoteAddr::V4 { ip4, port } => {
                let o = digits_of(*ip4 as u128, 4, 256);
                proof {
                    reveal_strlit(":");
                }
                dotted_text(&o).concat(":").concat(number_to_text(*port as u128, 10).as_str())
            },
            RemoteAddr::V6 { ip6, port, scope_id, .. } => {
                proof {
                    reveal_strlit("[");
                    reveal_strlit("%");
                    reveal_strlit("]:");
                }
                let mut r = String::from_str("[").concat(ipv6_to_text(*ip6).as_str());
                if *scope_id != 0 {
                    r = r.concat("%").concat(number_to_text(*scope_id as u128, 10).as_str());
                }
                let r = r.concat("]:").concat(number_to_text(*port as u128, 10).as_str());
                r
            },
        }
    }
}

} // verus!
