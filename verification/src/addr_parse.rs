//! Reading internet addresses from text.

use crate::addr::{digits_number, naturals, IpAddress};
use crate::text::{all_digits, chars_of, digits_value, parse_unsigned, pieces, split_on, text_of};
use vstd::arithmetic::power::pow;
use vstd::prelude::*;
use vstd::string::*;

verus! {

/// A row of one to `max_len` digits, without a sign.
pub open spec fn short_digits(s: Seq<char>, radix: nat, max_len: nat) -> bool {
    1 <= s.len() <= max_len && all_digits(s, radix)
}

/// A number below 256 in decimal, of at most three digits and without a leading zero.
pub open spec fn octet(s: Seq<char>) -> Option<nat> {
    if short_digits(s, 10, 3) && (s.len() == 1 || s[0] != '0') && digits_value(s, 10) <= 255 {
        Some(digits_value(s, 10))
    } else {
        None
    }
}

/// A group of one to four hexadecimal digits.
pub open spec fn hex_group(s: Seq<char>) -> Option<nat> {
    if short_digits(s, 16, 4) {
        Some(digits_value(s, 16))
    } else {
        None
    }
}

/// Four octets with a dot between each and the next.
pub open spec fn dotted_quad(s: Seq<char>) -> Option<Seq<nat>> {
    let p = pieces(s, '.');
    if p.len() == 4 && octet(p[0]) is Some && octet(p[1]) is Some && octet(p[2]) is Some && octet(
        p[3],
    ) is Some {
        Some(seq![octet(p[0])->0, octet(p[1])->0, octet(p[2])->0, octet(p[3])->0])
    } else {
        None
    }
}

/// The groups that the last piece of an address stands for: a dotted quad counts as two.
pub open spec fn last_groups(s: Seq<char>, quad_allowed: bool) -> Option<Seq<nat>> {
    match hex_group(s) {
        Some(g) => Some(seq![g]),
        None => match dotted_quad(s) {
            Some(q) => if quad_allowed {
                Some(seq![q[0] * 256 + q[1], q[2] * 256 + q[3]])
            } else {
                None
            },
            None => None,
        },
    }
}

/// The groups that pieces of an address stand for; only the last may be a dotted quad.
pub open spec fn piece_groups(parts: Seq<Seq<char>>, quad_allowed: bool) -> Option<Seq<nat>> {
    if parts.len() == 0 {
        Some(Seq::empty())
    } else if (exists|i: int|
        0 <= i < parts.len() - 1 && hex_group(#[trigger] parts[i]) is None) {
        None
    } else {
        match last_groups(parts.last(), quad_allowed) {
            Some(last) => Some(
                parts.drop_last().map_values(|p: Seq<char>| hex_group(p)->0) + last,
            ),
            None => None,
        }
    }
}

/// The groups of a part of an address without a double colon.
pub open spec fn part_groups(s: Seq<char>, quad_allowed: bool) -> Option<Seq<nat>> {
    if s.len() == 0 {
        Some(Seq::empty())
    } else {
        piece_groups(pieces(s, ':'), quad_allowed)
    }
}

/// Where the first double colon at or after `from` stands.
pub open spec fn double_colon(s: Seq<char>, from: int) -> Option<int>
    decreases s.len() - from,
{
    if from < 0 || from + 1 >= s.len() {
        None
    } else if s[from] == ':' && s[from + 1] == ':' {
        Some(from)
    } else {
        double_colon(s, from + 1)
    }
}

/// The eight groups of an address of the second family. A double colon stands for at least one
/// group of zero.
pub open spec fn v6_groups(s: Seq<char>) -> Option<Seq<nat>> {
    match double_colon(s, 0) {
        None => match part_groups(s, true) {
            Some(g) => if g.len() == 8 {
                Some(g)
            } else {
                None
            },
            None => None,
        },
        Some(k) => match (part_groups(s.take(k), false), part_groups(s.skip(k + 2), true)) {
            (Some(head), Some(tail)) => if head.len() + tail.len() <= 7 {
                Some(
                    head + Seq::new((8 - head.len() - tail.len()) as nat, |i: int| 0nat) + tail,
                )
            } else {
                None
            },
            _ => None,
        },
    }
}

/// The address that a text denotes.
pub open spec fn address_value(s: Seq<char>) -> Option<IpAddress> {
    match dotted_quad(s) {
        Some(q) => Some(IpAddress::V4(digits_number(q, 256) as u32)),
        None => match v6_groups(s) {
            Some(g) => Some(IpAddress::V6(digits_number(g, 65536) as u128)),
            None => None,
        },
    }
}

fn parse_short_digits(s: &str, radix: u64, max_len: usize) -> (r: Option<u64>)
    requires
        2 <= radix <= 16,
        max_len <= 4,
    ensures
        match r {
            Some(n) => short_digits(s@, radix as nat, max_len as nat) && n == digits_value(
                s@,
                radix as nat,
            ) && n < 65536,
            None => !short_digits(s@, radix as nat, max_len as nat),
        },
{
    let chars = chars_of(s);
    if chars.len() == 0 || chars.len() > max_len {
        return None;
    }
    proof {
        lemma_few_digits(s@, radix as nat);
    }
    if chars[0] == '+' {
        return None;
    }
    parse_unsigned(s, radix, 65535)
}

/// A row of at most four digits stands for a number below 65536.
proof fn lemma_few_digits(s: Seq<char>, radix: nat)
    requires
        s.len() <= 4,
        2 <= radix <= 16,
    ensures
        all_digits(s, radix) ==> digits_value(s, radix) <= 65535,
        s.len() > 0 && s[0] == '+' ==> !all_digits(s, radix),
{
    reveal_with_fuel(digits_value, 5);
    if all_digits(s, radix) {
        lemma_digits_bound(s, radix);
    }
}

spec fn sixteen_to(n: nat) -> nat
    decreases n,
{
    if n == 0 {
        1
    } else {
        16 * sixteen_to((n - 1) as nat)
    }
}

proof fn lemma_digits_bound(s: Seq<char>, radix: nat)
    requires
        2 <= radix <= 16,
        all_digits(s, radix),
    ensures
        digits_value(s, radix) < sixteen_to(s.len()),
        s.len() <= 4 ==> sixteen_to(s.len()) <= 65536,
    decreases s.len(),
{
    reveal_with_fuel(sixteen_to, 6);
    if s.len() > 0 {
        assert(forall|i: int| 0 <= i < s.drop_last().len() ==> s.drop_last()[i] == s[i]);
        lemma_digits_bound(s.drop_last(), radix);
        let v = digits_value(s.drop_last(), radix);
        let b = sixteen_to((s.len() - 1) as nat);
        assert(v * radix + radix <= b * 16) by (nonlinear_arith)
            requires
                v + 1 <= b,
                radix <= 16,
        ;
    }
}

fn parse_octet(s: &str) -> (r: Option<u16>)
    ensures
        match octet(s@) {
            Some(n) => r == Some(n as u16) && n <= 255,
            None => r is None,
        },
{
    let chars = chars_of(s);
    match parse_short_digits(s, 10, 3) {
        Some(n) => {
            if n > 255 || (chars.len() > 1 && chars[0] == '0') {
                None
            } else {
                Some(n as u16)
            }
        },
        None => None,
    }
}

fn parse_dotted_quad(s: &str) -> (r: Option<(u16, u16, u16, u16)>)
    ensures
        match dotted_quad(s@) {
            Some(q) => {
                &&& r matches Some((a, b, c, d))
                &&& q == seq![a as nat, b as nat, c as nat, d as nat]
                &&& a <= 255 && b <= 255 && c <= 255 && d <= 255
            },
            None => r is None,
        },
{
    let parts = split_on(s, '.');
    proof {
        assert(forall|i: int|
            0 <= i < parts@.len() ==> #[trigger] parts@[i]@ == pieces(s@, '.')[i]);
        assert(parts@.len() == pieces(s@, '.').len());
    }
    if parts.len() != 4 {
        return None;
    }
    match (
        parse_octet(parts[0].as_str()),
        parse_octet(parts[1].as_str()),
        parse_octet(parts[2].as_str()),
        parse_octet(parts[3].as_str()),
    ) {
        (Some(a), Some(b), Some(c), Some(d)) => Some((a, b, c, d)),
        _ => None,
    }
}

fn parse_groups(s: &str, quad_allowed: bool) -> (r: Option<Vec<u16>>)
    ensures
        match part_groups(s@, quad_allowed) {
            Some(g) => r matches Some(v) && naturals(v@) == g,
            None => r is None,
        },
{
    let chars = chars_of(s);
    if chars.len() == 0 {
        let out: Vec<u16> = Vec::new();
        proof {
            assert(naturals(out@) =~= Seq::<nat>::empty());
        }
        return Some(out);
    }
    let parts = split_on(s, ':');
    let ghost all = pieces(s@, ':');
    proof {
        assert(forall|i: int| 0 <= i < parts@.len() ==> #[trigger] parts@[i]@ == all[i]);
        assert(parts@.len() == all.len());
    }
    let mut out: Vec<u16> = Vec::new();
    let mut i: usize = 0;
    while i < parts.len() - 1
        invariant
            parts@.len() == all.len(),
            parts@.len() >= 1,
            i <= parts@.len() - 1,
            forall|j: int| 0 <= j < parts@.len() ==> #[trigger] parts@[j]@ == all[j],
            s@.len() > 0,
            all == pieces(s@, ':'),
            out@.len() == i,
            forall|j: int|
                0 <= j < i ==> hex_group(#[trigger] all[j]) == Some(out@[j] as nat),
        decreases parts@.len() - i,
    {
        match parse_short_digits(parts[i].as_str(), 16, 4) {
            Some(n) => {
                out.push(n as u16);
            },
            None => {
                proof {
                    assert(hex_group(all[i as int]) is None);
                }
                return None;
            },
        }
        i = i + 1;
    }
    let last = parts[parts.len() - 1].as_str();
    let ghost front = all.drop_last().map_values(|p: Seq<char>| hex_group(p)->0);
    proof {
        assert(naturals(out@) =~= front);
    }
    match parse_short_digits(last, 16, 4) {
        Some(n) => {
            out.push(n as u16);
            proof {
                assert(naturals(out@) =~= front + seq![n as nat]);
            }
            Some(out)
        },
        None => {
            if !quad_allowed {
                return None;
            }
            match parse_dotted_quad(last) {
                Some((a, b, c, d)) => {
                    out.push(a * 256 + b);
                    out.push(c * 256 + d);
                    proof {
                        assert(naturals(out@) =~= front + seq![
                            (a * 256 + b) as nat,
                            (c * 256 + d) as nat,
                        ]);
                    }
                    Some(out)
                },
                None => None,
            }
        },
    }
}

fn find_double_colon(chars: &Vec<char>) -> (r: Option<usize>)
    ensures
        match double_colon(chars@, 0) {
            Some(k) => r matches Some(i) && i == k && i + 2 <= chars@.len(),
            None => r is None,
        },
{
    let mut i: usize = 0;
    while i < chars.len() && i + 1 < chars.len()
        invariant
            i <= chars@.len(),
            double_colon(chars@, 0) == double_colon(chars@, i as int),
        decreases chars@.len() - i,
    {
        if chars[i] == ':' && chars[i + 1] == ':' {
            return Some(i);
        }
        i = i + 1;
    }
    None
}

proof fn lemma_groups_bound(g: Seq<nat>)
    requires
        forall|i: int| 0 <= i < g.len() ==> #[trigger] g[i] < 65536,
    ensures
        digits_number(g, 65536) < pow(65536, g.len()),
    decreases g.len(),
{
    reveal(pow);
    if g.len() > 0 {
        assert(forall|i: int| 0 <= i < g.drop_last().len() ==> g.drop_last()[i] == g[i]);
        lemma_groups_bound(g.drop_last());
    }
}

fn number_of_groups(groups: &Vec<u16>) -> (r: u128)
    requires
        groups@.len() == 8,
    ensures
        r == digits_number(naturals(groups@), 65536),
{
    let mut n: u128 = 0;
    let mut i: usize = 0;
    let ghost all = naturals(groups@);
    while i < groups.len()
        invariant
            groups@.len() == 8,
            all == naturals(groups@),
            i <= 8,
            n == digits_number(all.take(i as int), 65536),
        decreases 8 - i,
    {
        proof {
            let t = all.take(i + 1);
            assert(t.drop_last() =~= all.take(i as int));
            lemma_groups_bound(t);
            assert(pow(65536, t.len()) <= 0x1_0000_0000_0000_0000_0000_0000_0000_0000) by {
                vstd::arithmetic::power::lemma_pow_increases(65536, t.len(), 8);
                reveal_with_fuel(pow, 9);
            }
        }
        n = n * 65536 + groups[i] as u128;
        i = i + 1;
    }
    proof {
        assert(all.take(8) =~= all);
    }
    n
}

fn parse_v6(s: &str) -> (r: Option<u128>)
    ensures
        match v6_groups(s@) {
            Some(g) => r matches Some(n) && n == digits_number(g, 65536),
            None => r is None,
        },
{
    let chars = chars_of(s);
    match find_double_colon(&chars) {
        None => {
            match parse_groups(s, true) {
                Some(groups) => {
                    if groups.len() == 8 {
                        Some(number_of_groups(&groups))
                    } else {
                        None
                    }
                },
                None => None,
            }
        },
        Some(k) => {
            let total: usize = chars.len();
            let head_text = text_of(&chars, 0, k);
            let tail_text = text_of(&chars, k + 2, total);
            proof {
                assert(s@.take(k as int) =~= s@.subrange(0, k as int));
                assert(s@.skip(k + 2) =~= s@.subrange(k + 2, s@.len() as int));
            }
            match (
                parse_groups(head_text.as_str(), false),
                parse_groups(tail_text.as_str(), true),
            ) {
                (Some(head), Some(tail)) => {
                    if head.len() > 7 || tail.len() > 7 - head.len() {
                        return None;
                    }
                    let mut all: Vec<u16> = head;
                    let ghost h = all@;
                    let zeros: usize = 8 - all.len() - tail.len();
                    let mut i: usize = 0;
                    while i < zeros
                        invariant
                            i <= zeros,
                            all@ == h + Seq::new(i as nat, |j: int| 0u16),
                        decreases zeros - i,
                    {
                        all.push(0);
                        i = i + 1;
                        proof {
                            assert(all@ =~= h + Seq::new(i as nat, |j: int| 0u16));
                        }
                    }
                    let mut i: usize = 0;
                    while i < tail.len()
                        invariant
                            i <= tail@.len(),
                            all@ == h + Seq::new(zeros as nat, |j: int| 0u16) + tail@.take(
                                i as int,
                            ),
                        decreases tail@.len() - i,
                    {
                        all.push(tail[i]);
                        i = i + 1;
                        proof {
                            assert(all@ =~= h + Seq::new(zeros as nat, |j: int| 0u16) + tail@.take(
                                i as int,
                            ));
                        }
                    }
                    proof {
                        assert(naturals(all@) =~= naturals(h) + Seq::new(
                            zeros as nat,
                            |j: int| 0nat,
                        ) + naturals(tail@));
                    }
                    Some(number_of_groups(&all))
                },
                _ => None,
            }
        },
    }
}

/// Reads an address of either family.
pub fn parse_address(s: &str) -> (r: Option<IpAddress>)
    ensures
        r == address_value(s@),
{
    match parse_dotted_quad(s) {
        Some((a, b, c, d)) => {
            let n: u32 = ((a as u32 * 256 + b as u32) * 256 + c as u32) * 256 + d as u32;
            proof {
                reveal_with_fuel(digits_number, 5);
                let q = seq![a as nat, b as nat, c as nat, d as nat];
                assert(q.drop_last() =~= seq![a as nat, b as nat, c as nat]);
                assert(q.drop_last().drop_last() =~= seq![a as nat, b as nat]);
                assert(q.drop_last().drop_last().drop_last() =~= seq![a as nat]);
                assert(q.drop_last().drop_last().drop_last().drop_last() =~= Seq::<nat>::empty());
                assert(n == digits_number(q, 256));
            }
            Some(IpAddress::V4(n))
        },
        None => match parse_v6(s) {
            Some(n) => Some(IpAddress::V6(n)),
            None => None,
        },
    }
}

} // verus!
