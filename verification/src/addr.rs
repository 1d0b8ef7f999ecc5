//! Internet addresses, and how they are written.

use crate::text::{decimal, decimal_text, join, joined, numeral, numeral_text, text, texts};
use vstd::prelude::*;
use vstd::string::*;

verus! {

/// An internet address by its number.
#[derive(Debug, Clone, Copy, PartialEq, Eq, Structural)]
pub enum IpAddress {
    V4(u32),
    V6(u128),
}

/// An internet address with a port. One of the second family also has the label of a flow and the
/// number of the zone that its address belongs to, which are zero where there is none.
#[derive(Debug, Clone, Copy, PartialEq, Eq, Structural)]
pub enum SocketAddress {
    V4 { ip: u32, port: u16 },
    V6 { ip: u128, port: u16, flow: u32, scope: u32 },
}

/// The number whose digits in base `base` are `digits`, most significant first.
pub open spec fn digits_number(digits: Seq<nat>, base: nat) -> nat
    decreases digits.len(),
{
    if digits.len() == 0 {
        0
    } else {
        digits_number(digits.drop_last(), base) * base + digits.last()
    }
}

/// The last `count` digits of `n` in base `base`, most significant first.
pub open spec fn low_digits(n: nat, base: nat, count: nat) -> Seq<nat>
    decreases count,
{
    if count == 0 {
        Seq::empty()
    } else {
        low_digits(n / base, base, (count - 1) as nat).push(n % base)
    }
}

/// Four numerals with a dot between each and the next.
pub open spec fn dotted(octets: Seq<nat>) -> Seq<char> {
    decimal(octets[0]) + "."@ + decimal(octets[1]) + "."@ + decimal(octets[2]) + "."@ + decimal(
        octets[3],
    )
}

/// How many of the digits from `from` on are zero before the first that is not.
pub open spec fn zero_run(groups: Seq<nat>, from: int) -> nat
    decreases groups.len() - from,
{
    if 0 <= from < groups.len() && groups[from] == 0 {
        zero_run(groups, from + 1) + 1
    } else {
        0
    }
}

/// Where the first of the longest runs of zeros starts, among the starts below `n`.
pub open spec fn longest_zero_run(groups: Seq<nat>, n: nat) -> nat
    decreases n,
{
    if n <= 1 {
        0
    } else {
        let before = longest_zero_run(groups, (n - 1) as nat);
        if zero_run(groups, n - 1) > zero_run(groups, before as int) {
            (n - 1) as nat
        } else {
            before
        }
    }
}

/// Groups of an address in hexadecimal with a colon between each and the next.
pub open spec fn colon_separated(groups: Seq<nat>) -> Seq<char> {
    joined(groups.map_values(|g: nat| numeral(g, 16)), ":"@)
}

/// An address of the second family: the mapped addresses of the first family keep their dotted
/// form, and otherwise the first of the longest runs of at least two zero groups is left out.
pub open spec fn v6_text(n: nat) -> Seq<char> {
    let groups = low_digits(n, 65536, 8);
    if n / 0x1_0000_0000 == 0xffff {
        "::ffff:"@ + dotted(low_digits(n % 0x1_0000_0000, 256, 4))
    } else {
        let start = longest_zero_run(groups, 8);
        let len = zero_run(groups, start as int);
        if len >= 2 {
            colon_separated(groups.take(start as int)) + "::"@ + colon_separated(
                groups.skip((start + len) as int),
            )
        } else {
            colon_separated(groups)
        }
    }
}

impl IpAddress {
    /// How the address is written.
    pub open spec fn written(self) -> Seq<char> {
        match self {
            IpAddress::V4(n) => dotted(low_digits(n as nat, 256, 4)),
            IpAddress::V6(n) => v6_text(n as nat),
        }
    }
}

impl SocketAddress {
    /// An address with a port, of no flow and no zone.
    pub open spec fn plain(ip: IpAddress, port: u16) -> SocketAddress {
        match ip {
            IpAddress::V4(n) => SocketAddress::V4 { ip: n, port },
            IpAddress::V6(n) => SocketAddress::V6 { ip: n, port, flow: 0, scope: 0 },
        }
    }

    /// How the address and its port are written: with its zone, where it has one, and without its
    /// flow.
    pub open spec fn written(self) -> Seq<char> {
        match self {
            SocketAddress::V4 { ip, port } => IpAddress::V4(ip).written() + ":"@ + decimal(
                port as nat,
            ),
            SocketAddress::V6 { ip, port, flow, scope } => if scope == 0 {
                "["@ + IpAddress::V6(ip).written() + "]:"@ + decimal(port as nat)
            } else {
                "["@ + IpAddress::V6(ip).written() + "%"@ + decimal(scope as nat) + "]:"@ + decimal(
                    port as nat,
                )
            },
        }
    }
}

fn dotted_text(n: u32) -> (r: String)
    ensures
        r@ == dotted(low_digits(n as nat, 256, 4)),
{
    proof {
        reveal_with_fuel(low_digits, 5);
    }
    let mut out = decimal_text((n / 256 / 256 / 256 % 256) as u64);
    out.append(".");
    let b = decimal_text((n / 256 / 256 % 256) as u64);
    out.append(b.as_str());
    out.append(".");
    let c = decimal_text((n / 256 % 256) as u64);
    out.append(c.as_str());
    out.append(".");
    let d = decimal_text((n % 256) as u64);
    out.append(d.as_str());
    out
}

/// The groups of an address as numbers.
pub open spec fn naturals(list: Seq<u16>) -> Seq<nat> {
    list.map_values(|g: u16| g as nat)
}

fn groups_of(n: u128, count: u8) -> (r: Vec<u16>)
    ensures
        naturals(r@) == low_digits(n as nat, 65536, count as nat),
        r@.len() == count,
    decreases count,
{
    if count == 0 {
        let out: Vec<u16> = Vec::new();
        proof {
            assert(naturals(out@) =~= low_digits(n as nat, 65536, 0));
        }
        out
    } else {
        let mut out = groups_of(n / 65536, count - 1);
        let ghost before = out@;
        out.push((n % 65536) as u16);
        proof {
            assert(naturals(out@) =~= naturals(before).push((n % 65536) as nat));
        }
        out
    }
}

fn zero_run_length(groups: &Vec<u16>, from: usize) -> (r: usize)
    requires
        from <= groups@.len(),
    ensures
        r == zero_run(naturals(groups@), from as int),
        r <= groups@.len() - from,
    decreases groups@.len() - from,
{
    if from < groups.len() && groups[from] == 0 {
        zero_run_length(groups, from + 1) + 1
    } else {
        0
    }
}

fn longest_start(groups: &Vec<u16>, n: usize) -> (r: usize)
    requires
        n <= groups@.len(),
    ensures
        r == longest_zero_run(naturals(groups@), n as nat),
        r <= groups@.len(),
    decreases n,
{
    if n <= 1 {
        0
    } else {
        let before = longest_start(groups, n - 1);
        if zero_run_length(groups, n - 1) > zero_run_length(groups, before) {
            n - 1
        } else {
            before
        }
    }
}

fn groups_text(groups: &Vec<u16>, from: usize, to: usize) -> (r: String)
    requires
        from <= to <= groups@.len(),
    ensures
        r@ == colon_separated(naturals(groups@).subrange(from as int, to as int)),
{
    let mut items: Vec<String> = Vec::new();
    let mut i: usize = from;
    while i < to
        invariant
            from <= i <= to <= groups@.len(),
            items@.len() == i - from,
            forall|j: int|
                0 <= j < items@.len() ==> (#[trigger] items@[j])@ == numeral(
                    groups@[from + j] as nat,
                    16,
                ),
        decreases to - i,
    {
        items.push(numeral_text(groups[i] as u64, 16));
        i = i + 1;
    }
    proof {
        assert(texts(items@) =~= naturals(groups@).subrange(from as int, to as int).map_values(
            |g: nat| numeral(g, 16),
        ));
    }
    join(&items, ":")
}

impl IpAddress {
    /// How the address is written.
    pub fn to_text(&self) -> (r: String)
        ensures
            r@ == self.written(),
    {
        match self {
            IpAddress::V4(n) => dotted_text(*n),
            IpAddress::V6(n) => {
                let n: u128 = *n;
                if n / 0x1_0000_0000 == 0xffff {
                    let mut out = text("::ffff:");
                    let low = dotted_text((n % 0x1_0000_0000) as u32);
                    out.append(low.as_str());
                    return out;
                }
                let groups = groups_of(n, 8);
                let start = longest_start(&groups, 8);
                let len = zero_run_length(&groups, start);
                let ghost all = naturals(groups@);
                proof {
                    assert(all.take(start as int) =~= all.subrange(0, start as int));
                    assert(all.skip(start + len) =~= all.subrange(start + len, 8));
                    assert(all =~= all.subrange(0, 8));
                }
                if len >= 2 {
                    let mut out = groups_text(&groups, 0, start);
                    out.append("::");
                    let tail = groups_text(&groups, start + len, 8);
                    out.append(tail.as_str());
                    out
                } else {
                    groups_text(&groups, 0, 8)
                }
            },
        }
    }
}

impl SocketAddress {
    /// An address with a port, of no flow and no zone.
    pub fn new(ip: IpAddress, port: u16) -> (r: Self)
        ensures
            r == SocketAddress::plain(ip, port),
    {
        match ip {
            IpAddress::V4(n) => SocketAddress::V4 { ip: n, port },
            IpAddress::V6(n) => SocketAddress::V6 { ip: n, port, flow: 0, scope: 0 },
        }
    }

    /// How the address and its port are written.
    pub fn to_text(&self) -> (r: String)
        ensures
            r@ == self.written(),
    {
        match self {
            SocketAddress::V4 { ip, port } => {
                let mut out = IpAddress::V4(*ip).to_text();
                out.append(":");
                let port = decimal_text(*port as u64);
                out.append(port.as_str());
                out
            },
            SocketAddress::V6 { ip, port, flow: _, scope } => {
                let mut out = text("[");
                let ip = IpAddress::V6(*ip).to_text();
                out.append(ip.as_str());
                if *scope != 0 {
                    out.append("%");
                    let zone = decimal_text(*scope as u64);
                    out.append(zone.as_str());
                }
                out.append("]:");
                let port = decimal_text(*port as u64);
                out.append(port.as_str());
                out
            },
        }
    }
}

} // verus!
