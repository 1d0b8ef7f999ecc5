//! What holds of how all addresses are written: as short as can be, and with what belongs to them.

use crate::addr::{
    colon_separated, longest_zero_run, low_digits, zero_run, IpAddress, SocketAddress,
};
use crate::text::{decimal, joined, numeral};
use vstd::prelude::*;
use vstd::string::*;

verus! {

/// The eight groups of an address of the second family.
pub open spec fn groups_of_address(n: u128) -> Seq<nat> {
    low_digits(n as nat, 65536, 8)
}

/// Groups in hexadecimal with a colon between each and the next.
pub open spec fn with_colons(groups: Seq<nat>) -> Seq<char> {
    joined(Seq::new(groups.len(), |i: int| numeral(groups[i], 16)), ":"@)
}

/// Whether all groups of a run are zero.
pub open spec fn is_zero_run(groups: Seq<nat>, start: int, len: int) -> bool {
    &&& 0 <= start
    &&& 0 <= len
    &&& start + len <= groups.len()
    &&& forall|i: int| start <= i < start + len ==> #[trigger] groups[i] == 0
}

proof fn lemma_separated(groups: Seq<nat>)
    ensures
        colon_separated(groups) == with_colons(groups),
{
    assert(groups.map_values(|g: nat| numeral(g, 16)) =~= Seq::new(
        groups.len(),
        |i: int| numeral(groups[i], 16),
    ));
}

proof fn lemma_run(groups: Seq<nat>, from: int)
    requires
        0 <= from <= groups.len(),
    ensures
        is_zero_run(groups, from, zero_run(groups, from) as int),
    decreases groups.len() - from,
{
    if from < groups.len() && groups[from] == 0 {
        lemma_run(groups, from + 1);
    }
}

proof fn lemma_run_is_whole(groups: Seq<nat>, from: int, len: int)
    requires
        is_zero_run(groups, from, len),
    ensures
        zero_run(groups, from) >= len,
    decreases len,
{
    if len > 0 {
        assert(groups[from] == 0);
        lemma_run_is_whole(groups, from + 1, len - 1);
    }
}

proof fn lemma_longest(groups: Seq<nat>, n: nat, s: int)
    requires
        0 <= s < n,
    ensures
        ({
            let best = longest_zero_run(groups, n);
            &&& best < n
            &&& zero_run(groups, s) <= zero_run(groups, best as int)
            &&& s < best ==> zero_run(groups, s) < zero_run(groups, best as int)
        }),
    decreases n,
{
    if n > 1 {
        if s < n - 1 {
            lemma_longest(groups, (n - 1) as nat, s);
        } else {
            lemma_longest(groups, (n - 1) as nat, 0);
        }
    }
}

proof fn lemma_eight(n: u128)
    ensures
        groups_of_address(n).len() == 8,
{
    reveal_with_fuel(low_digits, 9);
}

/// An address of the second family is written in groups of hexadecimal digits with colons between
/// them. The first of the longest runs of two or more zero groups is left out.
pub proof fn the_first_longest_run_of_zeros_is_left_out(n: u128, start: int, len: int)
    requires
        n as nat / 0x1_0000_0000 != 0xffff,
        len >= 2,
        is_zero_run(groups_of_address(n), start, len),
        forall|s: int, l: int| #[trigger]
            is_zero_run(groups_of_address(n), s, l) ==> l < len || (l == len && s >= start),
    ensures
        ({
            let groups = groups_of_address(n);
            IpAddress::V6(n).written() == with_colons(groups.take(start)) + "::"@ + with_colons(
                groups.skip(start + len),
            )
        }),
{
    let groups = groups_of_address(n);
    lemma_eight(n);
    lemma_run_is_whole(groups, start, len);
    lemma_run(groups, start);
    assert(zero_run(groups, start) == len);
    lemma_longest(groups, 8, start);
    let best = longest_zero_run(groups, 8) as int;
    lemma_run(groups, best);
    assert(is_zero_run(groups, best, zero_run(groups, best) as int));
    assert(best == start);
    lemma_separated(groups.take(start));
    lemma_separated(groups.skip(start + len));
}

/// An address of the second family without two zero groups in a row is written with all its groups.
pub proof fn all_groups_are_written_where_no_zeros_run(n: u128)
    requires
        n as nat / 0x1_0000_0000 != 0xffff,
        forall|i: int|
            0 <= i < 7 ==> !(#[trigger] groups_of_address(n)[i] == 0 && groups_of_address(n)[i + 1]
                == 0),
    ensures
        IpAddress::V6(n).written() == with_colons(groups_of_address(n)),
{
    let groups = groups_of_address(n);
    lemma_eight(n);
    let best = longest_zero_run(groups, 8) as int;
    lemma_longest(groups, 8, 0);
    lemma_run(groups, best);
    if zero_run(groups, best) >= 2 {
        assert(groups[best] == 0);
        assert(groups[best + 1] == 0);
    }
    lemma_separated(groups);
}

/// An address of the first family is written as four numbers with dots between them, and one of the
/// second family that stands for it keeps that form.
pub proof fn addresses_of_the_first_family_have_dots(n: u32, mapped: u128)
    requires
        mapped == 0xffff_0000_0000 + n,
    ensures
        ({
            let octets = low_digits(n as nat, 256, 4);
            let written = decimal(octets[0]) + "."@ + decimal(octets[1]) + "."@ + decimal(octets[2])
                + "."@ + decimal(octets[3]);
            &&& IpAddress::V4(n).written() == written
            &&& IpAddress::V6(mapped).written() == "::ffff:"@ + written
        }),
{
    assert(mapped as nat / 0x1_0000_0000 == 0xffff);
    assert(mapped as nat % 0x1_0000_0000 == n as nat);
}

/// An address with a port is written with the port behind a colon. One of the second family stands
/// in brackets, with its zone where it has one.
pub proof fn ports_stand_behind_a_colon(
    first: u32,
    second: u128,
    port: u16,
    flow: u32,
    scope: u32,
)
    ensures
        (SocketAddress::V4 { ip: first, port }).written() == IpAddress::V4(first).written() + ":"@
            + decimal(port as nat),
        (SocketAddress::V6 { ip: second, port, flow, scope: 0 }).written() == "["@ + IpAddress::V6(
            second,
        ).written() + "]:"@ + decimal(port as nat),
        scope != 0 ==> (SocketAddress::V6 { ip: second, port, flow, scope }).written() == "["@
            + IpAddress::V6(second).written() + "%"@ + decimal(scope as nat) + "]:"@ + decimal(
            port as nat,
        ),
{
}

} // verus!
