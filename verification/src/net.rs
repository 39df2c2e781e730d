//! Internet addresses as plain values, and their textual form.
//!
//! The textual form is the usual one: dotted decimal for IPv4; for IPv6 lower
//! case hexadecimal groups with the first longest run of two or more zero
//! groups written as `::`, and `::ffff:a.b.c.d` for an IPv4-mapped address. A
//! socket address is the address, a colon and the port, with an IPv6 address
//! in square brackets.

use vstd::prelude::*;
use crate::text::{decimal, hexadecimal, push_decimal, push_hexadecimal};

verus! {

/// An IPv4 address: four octets, most significant first.
#[derive(Clone, Copy, Debug, PartialEq, Eq, Structural)]
pub struct Ipv4Addr {
    pub a: u8,
    pub b: u8,
    pub c: u8,
    pub d: u8,
}

/// An IPv6 address: eight 16-bit groups, most significant first.
#[derive(Clone, Copy, Debug, PartialEq, Eq)]
pub struct Ipv6Addr {
    pub segments: [u16; 8],
}

/// An address of either family.
#[derive(Clone, Copy, Debug, PartialEq, Eq)]
pub enum IpAddr {
    V4(Ipv4Addr),
    V6(Ipv6Addr),
}

/// An address and a port.
#[derive(Clone, Copy, Debug, PartialEq, Eq)]
pub struct SocketAddr {
    pub ip: IpAddr,
    pub port: u16,
}

/// `127.0.0.1`.
pub open spec fn localhost_v4() -> Ipv4Addr {
    Ipv4Addr { a: 127, b: 0, c: 0, d: 1 }
}

/// `0.0.0.0`.
pub open spec fn unspecified_v4() -> Ipv4Addr {
    Ipv4Addr { a: 0, b: 0, c: 0, d: 0 }
}

/// `::1`.
pub open spec fn localhost_v6() -> Ipv6Addr {
    Ipv6Addr { segments: [0u16, 0u16, 0u16, 0u16, 0u16, 0u16, 0u16, 1u16] }
}

/// `::`.
pub open spec fn unspecified_v6() -> Ipv6Addr {
    Ipv6Addr { segments: [0u16, 0u16, 0u16, 0u16, 0u16, 0u16, 0u16, 0u16] }
}

/// The IPv4 address whose 32 bits are `bits`, most significant octet first.
pub open spec fn ipv4_of_bits(bits: u32) -> Ipv4Addr {
    Ipv4Addr {
        a: (bits / 0x100_0000) as u8,
        b: (bits / 0x1_0000 % 256) as u8,
        c: (bits / 0x100 % 256) as u8,
        d: (bits % 256) as u8,
    }
}

/// The dotted-decimal text of an IPv4 address.
pub open spec fn ipv4_text(ip: Ipv4Addr) -> Seq<u8> {
    decimal(ip.a as nat) + seq![46u8] + decimal(ip.b as nat) + seq![46u8] + decimal(ip.c as nat)
        + seq![46u8] + decimal(ip.d as nat)
}

/// The groups `groups[from..to]` in hexadecimal, with a colon between two
/// neighbours.
pub open spec fn groups_text(groups: Seq<u16>, from: int, to: int) -> Seq<u8>
    decreases to - from,
{
    if from >= to {
        Seq::empty()
    } else if from + 1 == to {
        hexadecimal(groups[from] as nat)
    } else {
        groups_text(groups, from, to - 1) + seq![58u8] + hexadecimal(groups[to - 1] as nat)
    }
}

/// The run of zero groups that ends just before `upto`: its length.
pub open spec fn zero_run_ending(groups: Seq<u16>, upto: int) -> int
    decreases upto,
{
    if upto <= 0 || groups[upto - 1] != 0 {
        0
    } else {
        zero_run_ending(groups, upto - 1) + 1
    }
}

/// The first longest run of zero groups within `groups[..upto]`, as its start
/// and its length; `(0, 0)` where there is no zero group.
pub open spec fn longest_zero_run(groups: Seq<u16>, upto: int) -> (int, int)
    decreases upto,
{
    if upto <= 0 {
        (0, 0)
    } else {
        let before = longest_zero_run(groups, upto - 1);
        let here = zero_run_ending(groups, upto);
        if here > before.1 {
            (upto - here, here)
        } else {
            before
        }
    }
}

/// Whether the groups `groups[from..to]` are all zero.
pub open spec fn all_zero(groups: Seq<u16>, from: int, to: int) -> bool {
    forall|i: int| from <= i < to ==> #[trigger] groups[i] == 0
}

/// The run that ends just before `upto` holds zeros only, and cannot be made
/// longer to the left.
pub proof fn lemma_zero_run_ending(groups: Seq<u16>, upto: int)
    requires
        0 <= upto <= groups.len(),
    ensures
        0 <= zero_run_ending(groups, upto) <= upto,
        all_zero(groups, upto - zero_run_ending(groups, upto), upto),
        forall|from: int|
            0 <= from <= upto && all_zero(groups, from, upto) ==> upto - from <= zero_run_ending(
                groups,
                upto,
            ),
    decreases upto,
{
    if upto > 0 && groups[upto - 1] == 0 {
        lemma_zero_run_ending(groups, upto - 1);
        let shorter = zero_run_ending(groups, upto - 1);
        assert forall|from: int| 0 <= from <= upto && all_zero(groups, from, upto) implies upto
            - from <= shorter + 1 by {
            if from < upto {
                assert(all_zero(groups, from, upto - 1));
            }
        }
    } else if upto > 0 {
        assert forall|from: int| 0 <= from <= upto && all_zero(groups, from, upto) implies upto
            - from <= 0 by {
            if from < upto {
                assert(groups[upto - 1] == 0);
            }
        }
    }
}

/// The run that the text leaves out is a run of zeros within the address, no
/// run of zeros is longer, and none of the same length begins before it.
pub proof fn lemma_longest_zero_run(groups: Seq<u16>, upto: int)
    requires
        0 <= upto <= groups.len(),
    ensures
        0 <= longest_zero_run(groups, upto).0,
        0 <= longest_zero_run(groups, upto).1,
        longest_zero_run(groups, upto).0 + longest_zero_run(groups, upto).1 <= upto,
        all_zero(
            groups,
            longest_zero_run(groups, upto).0,
            longest_zero_run(groups, upto).0 + longest_zero_run(groups, upto).1,
        ),
        forall|from: int, to: int|
            0 <= from < to <= upto && #[trigger] all_zero(groups, from, to) ==> to - from
                < longest_zero_run(groups, upto).1 || (to - from == longest_zero_run(groups, upto).1
                && from >= longest_zero_run(groups, upto).0),
    decreases upto,
{
    if upto > 0 {
        lemma_longest_zero_run(groups, upto - 1);
        lemma_zero_run_ending(groups, upto);
        let before = longest_zero_run(groups, upto - 1);
        let here = zero_run_ending(groups, upto);
        let best = longest_zero_run(groups, upto);
        assert forall|from: int, to: int|
            0 <= from < to <= upto && #[trigger] all_zero(groups, from, to) implies to - from
            < best.1 || (to - from == best.1 && from >= best.0) by {
            if to == upto {
                assert(to - from <= here);
                if here <= before.1 && to - from == before.1 {
                    // A run of the same length that ends earlier begins earlier.
                    assert(before.0 + before.1 <= upto - 1);
                }
            }
        }
    }
}

/// Whether the address is an IPv4 address mapped into IPv6 (`::ffff:a.b.c.d`).
pub open spec fn is_ipv4_mapped(groups: Seq<u16>) -> bool {
    groups[0] == 0 && groups[1] == 0 && groups[2] == 0 && groups[3] == 0 && groups[4] == 0
        && groups[5] == 0xffff
}

/// The IPv4 address held in the last two groups.
pub open spec fn embedded_ipv4(groups: Seq<u16>) -> Ipv4Addr {
    Ipv4Addr {
        a: (groups[6] / 256) as u8,
        b: (groups[6] % 256) as u8,
        c: (groups[7] / 256) as u8,
        d: (groups[7] % 256) as u8,
    }
}

/// The text `::ffff:`.
pub open spec fn mapped_prefix() -> Seq<u8> {
    seq![58u8, 58u8, 102u8, 102u8, 102u8, 102u8, 58u8]
}

/// The text of an IPv6 address.
pub open spec fn ipv6_text(ip: Ipv6Addr) -> Seq<u8> {
    let groups = ip.segments@;
    let run = longest_zero_run(groups, 8);
    if is_ipv4_mapped(groups) {
        mapped_prefix() + ipv4_text(embedded_ipv4(groups))
    } else if run.1 >= 2 {
        groups_text(groups, 0, run.0) + seq![58u8, 58u8] + groups_text(groups, run.0 + run.1, 8)
    } else {
        groups_text(groups, 0, 8)
    }
}

/// The text of an address of either family.
pub open spec fn ip_text(ip: IpAddr) -> Seq<u8> {
    match ip {
        IpAddr::V4(v4) => ipv4_text(v4),
        IpAddr::V6(v6) => ipv6_text(v6),
    }
}

/// The text of a socket address.
pub open spec fn socket_text(addr: SocketAddr) -> Seq<u8> {
    match addr.ip {
        IpAddr::V4(v4) => ipv4_text(v4) + seq![58u8] + decimal(addr.port as nat),
        IpAddr::V6(v6) => seq![91u8] + ipv6_text(v6) + seq![93u8, 58u8] + decimal(
            addr.port as nat,
        ),
    }
}

/// The 32 bits of an IPv4 address as a number.
pub open spec fn ipv4_bits(ip: Ipv4Addr) -> int {
    ip.a * 0x100_0000 + ip.b * 0x1_0000 + ip.c * 0x100 + ip.d
}

/// The first `n` groups of an IPv6 address as a number in base 65536.
pub open spec fn groups_value(groups: Seq<u16>, n: int) -> int
    decreases n,
{
    if n <= 0 {
        0
    } else {
        groups_value(groups, n - 1) * 0x1_0000 + groups[n - 1]
    }
}

/// 65536 to the power `n`.
pub open spec fn group_power(n: int) -> int
    decreases n,
{
    if n <= 0 {
        1
    } else {
        group_power(n - 1) * 0x1_0000
    }
}

/// The place of an address in the order of all addresses: every IPv4 address
/// comes before every IPv6 address, and within a family the addresses stand
/// by their value.
pub open spec fn rank(ip: IpAddr) -> int {
    match ip {
        IpAddr::V4(v4) => ipv4_bits(v4),
        IpAddr::V6(v6) => 0x1_0000_0000 + groups_value(v6.segments@, 8),
    }
}

/// The first `n` groups stay below 65536 to the power `n`.
pub proof fn lemma_groups_value_bound(groups: Seq<u16>, n: int)
    requires
        0 <= n <= groups.len(),
    ensures
        0 <= groups_value(groups, n) < group_power(n),
    decreases n,
{
    if n > 0 {
        lemma_groups_value_bound(groups, n - 1);
    }
}

impl Ipv4Addr {
    /// The address `a.b.c.d`.
    pub fn new(a: u8, b: u8, c: u8, d: u8) -> (ip: Ipv4Addr)
        ensures
            ip == (Ipv4Addr { a, b, c, d }),
    {
        Ipv4Addr { a, b, c, d }
    }

    /// `127.0.0.1`.
    pub fn localhost() -> (ip: Ipv4Addr)
        ensures
            ip == localhost_v4(),
    {
        Ipv4Addr { a: 127, b: 0, c: 0, d: 1 }
    }

    /// `0.0.0.0`.
    pub fn unspecified() -> (ip: Ipv4Addr)
        ensures
            ip == unspecified_v4(),
    {
        Ipv4Addr { a: 0, b: 0, c: 0, d: 0 }
    }

    /// The four octets, most significant first.
    pub fn octets(&self) -> (out: [u8; 4])
        ensures
            out@ == seq![self.a, self.b, self.c, self.d],
    {
        let out: [u8; 4] = [self.a, self.b, self.c, self.d];
        assert(out@ =~= seq![self.a, self.b, self.c, self.d]);
        out
    }

    /// The address whose 32 bits are `bits`, most significant octet first.
    pub fn from_bits(bits: u32) -> (ip: Ipv4Addr)
        ensures
            ip == ipv4_of_bits(bits),
    {
        Ipv4Addr {
            a: (bits / 0x100_0000) as u8,
            b: (bits / 0x1_0000 % 256) as u8,
            c: (bits / 0x100 % 256) as u8,
            d: (bits % 256) as u8,
        }
    }

    /// The 32 bits of the address, most significant octet first.
    pub fn to_bits(&self) -> (bits: u32)
        ensures
            bits == ipv4_bits(*self),
            ipv4_of_bits(bits) == *self,
    {
        let bits: u32 = self.a as u32 * 0x100_0000 + self.b as u32 * 0x1_0000 + self.c as u32
            * 0x100 + self.d as u32;
        proof {
            let upper = self.a as int * 0x1_0000 + self.b as int * 0x100 + self.c as int;
            assert(bits as int == upper * 0x100 + self.d as int);
            assert(bits as int % 256 == self.d as int);
            assert(bits as int / 0x100 == upper);
            let top = self.a as int * 0x100 + self.b as int;
            assert(upper == top * 0x100 + self.c as int);
            assert(upper % 256 == self.c as int);
            assert(bits as int / 0x1_0000 == top);
            assert(top % 256 == self.b as int);
            assert(bits as int / 0x100_0000 == self.a as int);
        }
        bits
    }

    /// Appends the dotted-decimal text of the address.
    pub fn write_text(&self, out: &mut Vec<u8>)
        ensures
            final(out)@ == old(out)@ + ipv4_text(*self),
    {
        push_decimal(out, self.a as u64);
        out.push(46);
        push_decimal(out, self.b as u64);
        out.push(46);
        push_decimal(out, self.c as u64);
        out.push(46);
        push_decimal(out, self.d as u64);
        assert(out@ =~= old(out)@ + ipv4_text(*self));
    }
}

impl Ipv6Addr {
    /// The address with the given groups, most significant first.
    pub fn new(segments: [u16; 8]) -> (ip: Ipv6Addr)
        ensures
            ip.segments == segments,
    {
        Ipv6Addr { segments }
    }

    /// `::1`.
    pub fn localhost() -> (ip: Ipv6Addr)
        ensures
            ip == localhost_v6(),
    {
        let segments: [u16; 8] = [0, 0, 0, 0, 0, 0, 0, 1];
        assert(segments =~= localhost_v6().segments);
        Ipv6Addr { segments }
    }

    /// `::`.
    pub fn unspecified() -> (ip: Ipv6Addr)
        ensures
            ip == unspecified_v6(),
    {
        let segments: [u16; 8] = [0, 0, 0, 0, 0, 0, 0, 0];
        assert(segments =~= unspecified_v6().segments);
        Ipv6Addr { segments }
    }

    /// The 128 bits of the address as a number.
    pub fn to_bits(&self) -> (bits: u128)
        ensures
            bits == groups_value(self.segments@, 8),
    {
        let mut bits: u128 = 0;
        let mut i: usize = 0;
        while i < 8
            invariant
                i <= 8,
                bits == groups_value(self.segments@, i as int),
                bits < group_power(i as int),
            decreases 8 - i,
        {
            proof {
                reveal_with_fuel(group_power, 9);
            }
            bits = bits * 0x1_0000 + self.segments[i] as u128;
            i += 1;
        }
        bits
    }

    /// Whether two addresses are the same.
    pub fn same(&self, other: &Ipv6Addr) -> (out: bool)
        ensures
            out == (*self == *other),
    {
        let mut i: usize = 0;
        while i < 8
            invariant
                i <= 8,
                forall|j: int| 0 <= j < i ==> self.segments@[j] == other.segments@[j],
            decreases 8 - i,
        {
            if self.segments[i] != other.segments[i] {
                return false;
            }
            i += 1;
        }
        assert(self.segments =~= other.segments);
        true
    }

    /// Appends the groups `segments[from..to]`, colon-separated.
    fn write_groups(&self, out: &mut Vec<u8>, from: usize, to: usize)
        requires
            from <= to <= 8,
        ensures
            final(out)@ == old(out)@ + groups_text(self.segments@, from as int, to as int),
    {
        let mut i: usize = from;
        while i < to
            invariant
                from <= i <= to <= 8,
                out@ == old(out)@ + groups_text(self.segments@, from as int, i as int),
            decreases to - i,
        {
            if i > from {
                out.push(58);
            }
            push_hexadecimal(out, self.segments[i] as u64);
            assert(out@ =~= old(out)@ + groups_text(self.segments@, from as int, i + 1));
            i += 1;
        }
    }

    /// The first longest run of zero groups: its start and its length.
    fn zero_run(&self) -> (run: (usize, usize))
        ensures
            (run.0 as int, run.1 as int) == longest_zero_run(self.segments@, 8),
            run.0 + run.1 <= 8,
    {
        let mut best_start: usize = 0;
        let mut best_len: usize = 0;
        let mut current: usize = 0;
        let mut i: usize = 0;
        while i < 8
            invariant
                i <= 8,
                current == zero_run_ending(self.segments@, i as int),
                current <= i,
                (best_start as int, best_len as int) == longest_zero_run(self.segments@, i as int),
                best_start + best_len <= i,
            decreases 8 - i,
        {
            if self.segments[i] == 0 {
                current += 1;
            } else {
                current = 0;
            }
            i += 1;
            if current > best_len {
                best_start = i - current;
                best_len = current;
            }
        }
        (best_start, best_len)
    }

    /// Appends the text of the address.
    pub fn write_text(&self, out: &mut Vec<u8>)
        ensures
            final(out)@ == old(out)@ + ipv6_text(*self),
    {
        let s = &self.segments;
        if s[0] == 0 && s[1] == 0 && s[2] == 0 && s[3] == 0 && s[4] == 0 && s[5] == 0xffff {
            out.push(58);
            out.push(58);
            out.push(102);
            out.push(102);
            out.push(102);
            out.push(102);
            out.push(58);
            let v4 = Ipv4Addr {
                a: (s[6] / 256) as u8,
                b: (s[6] % 256) as u8,
                c: (s[7] / 256) as u8,
                d: (s[7] % 256) as u8,
            };
            assert(v4 == embedded_ipv4(self.segments@));
            assert(out@ =~= old(out)@ + mapped_prefix());
            v4.write_text(out);
            assert(out@ =~= old(out)@ + ipv6_text(*self));
        } else {
            let run = self.zero_run();
            if run.1 >= 2 {
                self.write_groups(out, 0, run.0);
                out.push(58);
                out.push(58);
                self.write_groups(out, run.0 + run.1, 8);
                assert(out@ =~= old(out)@ + ipv6_text(*self));
            } else {
                self.write_groups(out, 0, 8);
            }
        }
    }
}

impl IpAddr {
    /// Appends the text of the address.
    pub fn write_text(&self, out: &mut Vec<u8>)
        ensures
            final(out)@ == old(out)@ + ip_text(*self),
    {
        match self {
            IpAddr::V4(v4) => v4.write_text(out),
            IpAddr::V6(v6) => v6.write_text(out),
        }
    }

    /// Whether the address comes after `other` in the order of addresses.
    pub fn outranks(&self, other: &IpAddr) -> (out: bool)
        ensures
            out == (rank(*self) > rank(*other)),
    {
        match (self, other) {
            (IpAddr::V4(x), IpAddr::V4(y)) => x.to_bits() > y.to_bits(),
            (IpAddr::V6(x), IpAddr::V6(y)) => x.to_bits() > y.to_bits(),
            (IpAddr::V6(x), IpAddr::V4(y)) => {
                proof {
                    lemma_groups_value_bound(x.segments@, 8);
                }
                true
            },
            (IpAddr::V4(x), IpAddr::V6(y)) => {
                proof {
                    lemma_groups_value_bound(y.segments@, 8);
                }
                false
            },
        }
    }
}

impl SocketAddr {
    /// The socket address of `ip` and `port`.
    pub fn new(ip: IpAddr, port: u16) -> (addr: SocketAddr)
        ensures
            addr.ip == ip,
            addr.port == port,
    {
        SocketAddr { ip, port }
    }

    /// Appends the text of the socket address.
    pub fn write_text(&self, out: &mut Vec<u8>)
        ensures
            final(out)@ == old(out)@ + socket_text(*self),
    {
        match &self.ip {
            IpAddr::V4(v4) => {
                v4.write_text(out);
                out.push(58);
                push_decimal(out, self.port as u64);
                assert(out@ =~= old(out)@ + socket_text(*self));
            },
            IpAddr::V6(v6) => {
                out.push(91);
                v6.write_text(out);
                out.push(93);
                out.push(58);
                push_decimal(out, self.port as u64);
                assert(out@ =~= old(out)@ + socket_text(*self));
            },
        }
    }

    /// Whether two socket addresses are the same address and port.
    pub fn same(&self, other: &SocketAddr) -> (out: bool)
        ensures
            out == (*self == *other),
    {
        if self.port != other.port {
            return false;
        }
        match (&self.ip, &other.ip) {
            (IpAddr::V4(x), IpAddr::V4(y)) => x.a == y.a && x.b == y.b && x.c == y.c && x.d == y.d,
            (IpAddr::V6(x), IpAddr::V6(y)) => x.same(y),
            _ => false,
        }
    }
}

} // verus!
