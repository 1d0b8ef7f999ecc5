//! What holds of all addresses: each is read back from how it is written.

use crate::addr::{
    colon_separated, digits_number, dotted, longest_zero_run, low_digits, v6_text, zero_run,
    IpAddress,
};
use crate::addr_parse::{
    address_value, dotted_quad, double_colon, hex_group, last_groups, octet, part_groups,
    piece_groups, v6_groups,
};
use crate::text::{all_digits, decimal, digit_of, numeral, pieces};
use crate::text_laws::{
    is_one_word, is_plain, is_plain_digit, lacks, numerals_stand_for_their_numbers,
    pieces_come_apart, small_numerals_are_short,
};
use vstd::arithmetic::power::pow;
use vstd::prelude::*;
use vstd::string::*;

verus! {

/// The digits of a number stand for it, and each is below the base.
#[verifier::rlimit(40)]
pub proof fn digits_stand_for_their_number(n: nat, base: nat, count: nat)
    requires
        base >= 2,
        n < pow(base as int, count),
    ensures
        digits_number(low_digits(n, base, count), base) == n,
        low_digits(n, base, count).len() == count,
        forall|i: int| 0 <= i < count ==> #[trigger] low_digits(n, base, count)[i] < base,
    decreases count,
{
    reveal(pow);
    if count > 0 {
        let m = (count - 1) as nat;
        vstd::arithmetic::div_mod::lemma_fundamental_div_mod(n as int, base as int);
        vstd::arithmetic::div_mod::lemma_mod_bound(n as int, base as int);
        let front = low_digits(n / base, base, m);
        let limit = pow(base as int, m);
        assert(n / base < limit) by (nonlinear_arith)
            requires
                n < base * limit,
                n == base * (n / base) + n % base,
                n % base >= 0,
                base >= 2,
        ;
        digits_stand_for_their_number(n / base, base, m);
        let all = low_digits(n, base, count);
        assert(all.drop_last() =~= front);
        assert(all.last() == n % base);
        assert((n / base) * base + n % base == n) by (nonlinear_arith)
            requires
                n == base * (n / base) + n % base,
        ;
    }
}

proof fn lemma_octet(n: nat)
    requires
        n < 256,
    ensures
        octet(decimal(n)) == Some(n),
        is_plain(decimal(n)),
        decimal(n).len() > 0,
{
    numerals_stand_for_their_numbers(n, 10);
    small_numerals_are_short(n);
}

proof fn lemma_hex_group(n: nat)
    requires
        n < 65536,
    ensures
        hex_group(numeral(n, 16)) == Some(n),
        is_plain(numeral(n, 16)),
        numeral(n, 16).len() > 0,
{
    numerals_stand_for_their_numbers(n, 16);
    small_numerals_are_short(n);
}

/// Whether a text could stand in an address: its characters are digits, dots and colons.
pub open spec fn is_addressy(s: Seq<char>) -> bool {
    forall|i: int|
        0 <= i < s.len() ==> is_plain_digit(#[trigger] s[i]) || s[i] == '.' || s[i] == ':'
}

#[verifier::rlimit(40)]
proof fn lemma_dotted(octets: Seq<nat>)
    requires
        octets.len() == 4,
        forall|i: int| 0 <= i < 4 ==> #[trigger] octets[i] < 256,
    ensures
        dotted_quad(dotted(octets)) == Some(octets),
        is_addressy(dotted(octets)),
        lacks(dotted(octets), ':'),
        dotted(octets).len() > 0,
        hex_group(dotted(octets)) is None,
{
    reveal_strlit(".");
    assert("."@ =~= seq!['.']);
    let a = decimal(octets[0]);
    let b = decimal(octets[1]);
    let c = decimal(octets[2]);
    let d = decimal(octets[3]);
    lemma_octet(octets[0]);
    lemma_octet(octets[1]);
    lemma_octet(octets[2]);
    lemma_octet(octets[3]);
    pieces_come_apart(Seq::empty(), a, '.');
    let ab = a + seq!['.'] + b;
    pieces_come_apart(a, b, '.');
    let abc = ab + seq!['.'] + c;
    pieces_come_apart(ab, c, '.');
    let s = abc + seq!['.'] + d;
    pieces_come_apart(abc, d, '.');
    assert(dotted(octets) =~= s);
    assert(pieces(s, '.') =~= seq![a, b, c, d]);
    assert(dotted_quad(s)->0 =~= octets);
    assert(s[a.len() as int] == '.');
    assert(!all_digits(s, 16)) by {
        assert(digit_of(s[a.len() as int]) == 36);
    }
}

proof fn lemma_not_a_quad(s: Seq<char>, colon: int)
    requires
        0 <= colon < s.len(),
        s[colon] == ':',
        forall|i: int| 0 <= i < colon ==> #[trigger] s[i] != '.',
    ensures
        dotted_quad(s) is None,
{
    lemma_first_piece(s, s.len() as int, colon);
    let p = pieces(s, '.');
    if octet(p[0]) is Some {
        assert(p[0][colon] == ':');
        assert(digit_of(p[0][colon]) == 36);
    }
}

#[verifier::rlimit(40)]
proof fn lemma_first_piece(s: Seq<char>, n: int, colon: int)
    requires
        0 <= colon < n <= s.len(),
        forall|i: int| 0 <= i <= colon ==> #[trigger] s[i] != '.',
    ensures
        pieces(s.take(n), '.').len() > 0,
        pieces(s.take(n), '.')[0].len() > colon,
        pieces(s.take(n), '.')[0][colon] == s[colon],
        n == s.len() ==> pieces(s, '.') == pieces(s.take(n), '.'),
    decreases n,
{
    let t = s.take(n);
    if n == s.len() {
        assert(t =~= s);
    }
    if n == colon + 1 {
        assert forall|i: int| 0 <= i < t.len() implies #[trigger] t[i] != '.' by {
            assert(s[i] != '.');
        }
        pieces_come_apart(Seq::empty(), t, '.');
        assert(seq![t][0] == t);
    } else {
        lemma_first_piece(s, n - 1, colon);
        assert(t.drop_last() =~= s.take(n - 1));
        let before = pieces(s.take(n - 1), '.');
        if t.last() != '.' {
            let after = before.drop_last().push(before.last().push(t.last()));
            if before.len() > 1 {
                assert(after[0] == before[0]);
            } else {
                assert(after[0] == before.last().push(t.last()));
            }
        } else {
            assert(before.push(Seq::empty())[0] == before[0]);
        }
    }
}

/// The numerals of groups.
spec fn numerals(groups: Seq<nat>) -> Seq<Seq<char>> {
    groups.map_values(|g: nat| numeral(g, 16))
}

/// Whether no two colons stand side by side in a text, nor one at its start or its end.
spec fn is_parted(s: Seq<char>) -> bool {
    &&& s.len() > 0
    &&& s[0] != ':'
    &&& s.last() != ':'
    &&& forall|i: int| 0 <= i < s.len() - 1 ==> !(#[trigger] s[i] == ':' && s[i + 1] == ':')
}

#[verifier::rlimit(40)]
proof fn lemma_colon_separated(groups: Seq<nat>)
    requires
        groups.len() > 0,
        forall|i: int| 0 <= i < groups.len() ==> #[trigger] groups[i] < 65536,
    ensures
        pieces(colon_separated(groups), ':') == numerals(groups),
        is_parted(colon_separated(groups)),
        lacks(colon_separated(groups), '.'),
        is_addressy(colon_separated(groups)),
    decreases groups.len(),
{
    reveal_strlit(":");
    assert(":"@ =~= seq![':']);
    let s = colon_separated(groups);
    let last = groups.last();
    assert(groups[groups.len() - 1] < 65536);
    lemma_hex_group(last);
    let w = numeral(last, 16);
    let list = groups.map_values(|g: nat| numeral(g, 16));
    assert(list =~= numerals(groups));
    assert(list.last() == w);
    if groups.len() == 1 {
        assert(s =~= w);
        pieces_come_apart(Seq::empty(), w, ':');
        assert(numerals(groups) =~= seq![w]);
    } else {
        let front = groups.drop_last();
        assert forall|i: int| 0 <= i < front.len() implies #[trigger] front[i] < 65536 by {
            assert(groups[i] < 65536);
        }
        lemma_colon_separated(front);
        let a = colon_separated(front);
        assert(list.drop_last() =~= front.map_values(|g: nat| numeral(g, 16)));
        assert(s =~= a + seq![':'] + w);
        pieces_come_apart(a, w, ':');
        assert(numerals(groups) =~= numerals(front).push(w));
        assert forall|i: int| 0 <= i < s.len() - 1 implies !(#[trigger] s[i] == ':' && s[i + 1]
            == ':') by {
            if i < a.len() - 1 {
                assert(s[i] == a[i] && s[i + 1] == a[i + 1]);
            } else if i == a.len() - 1 {
                assert(s[i] == a.last());
            } else {
                assert(s[i + 1] == w[i - a.len()]);
            }
        }
        assert(s[0] == a[0]);
        assert(s.last() == w.last());
        assert(is_plain_digit(w[w.len() - 1]));
    }
}

#[verifier::rlimit(40)]
proof fn lemma_part_groups(groups: Seq<nat>, quad_allowed: bool)
    requires
        forall|i: int| 0 <= i < groups.len() ==> #[trigger] groups[i] < 65536,
    ensures
        part_groups(colon_separated(groups), quad_allowed) == Some(groups),
{
    let s = colon_separated(groups);
    if groups.len() == 0 {
        assert(groups.map_values(|g: nat| numeral(g, 16)).len() == 0);
        assert(s.len() == 0);
        assert(groups =~= Seq::<nat>::empty());
    } else {
        lemma_colon_separated(groups);
        let parts = numerals(groups);
        assert forall|i: int| 0 <= i < parts.len() implies hex_group(#[trigger] parts[i]) == Some(
            groups[i],
        ) by {
            lemma_hex_group(groups[i]);
        }
        assert(parts.last() == parts[parts.len() - 1]);
        assert(last_groups(parts.last(), quad_allowed) == Some(seq![groups.last()]));
        assert(parts.drop_last().map_values(|p: Seq<char>| hex_group(p)->0) + seq![groups.last()]
            =~= groups) by {
            let front = parts.drop_last().map_values(|p: Seq<char>| hex_group(p)->0);
            assert forall|i: int| 0 <= i < front.len() implies front[i] == groups[i] by {
                assert(hex_group(parts[i]) == Some(groups[i]));
            }
        }
        assert(piece_groups(parts, quad_allowed) == Some(groups));
    }
}

proof fn lemma_no_double_colon(s: Seq<char>, from: int)
    requires
        0 <= from,
        forall|i: int| 0 <= i < s.len() - 1 ==> !(#[trigger] s[i] == ':' && s[i + 1] == ':'),
    ensures
        double_colon(s, from) is None,
    decreases s.len() - from,
{
    if from + 1 < s.len() {
        assert(!(s[from] == ':' && s[from + 1] == ':'));
        lemma_no_double_colon(s, from + 1);
    }
}

proof fn lemma_first_double_colon(s: Seq<char>, from: int, k: int)
    requires
        0 <= from <= k,
        k + 1 < s.len(),
        s[k] == ':',
        s[k + 1] == ':',
        forall|i: int| 0 <= i < k ==> !(#[trigger] s[i] == ':' && s[i + 1] == ':'),
    ensures
        double_colon(s, from) == Some(k),
    decreases k - from,
{
    if from < k {
        assert(!(s[from] == ':' && s[from + 1] == ':'));
        lemma_first_double_colon(s, from + 1, k);
    }
}

proof fn lemma_zero_run(groups: Seq<nat>, from: int)
    requires
        0 <= from <= groups.len(),
    ensures
        from + zero_run(groups, from) <= groups.len(),
        forall|i: int| from <= i < from + zero_run(groups, from) ==> #[trigger] groups[i] == 0,
    decreases groups.len() - from,
{
    if from < groups.len() && groups[from] == 0 {
        lemma_zero_run(groups, from + 1);
    }
}

proof fn lemma_longest_start(groups: Seq<nat>, n: nat)
    requires
        n <= groups.len(),
    ensures
        longest_zero_run(groups, n) < n || longest_zero_run(groups, n) == 0,
    decreases n,
{
    if n > 1 {
        lemma_longest_start(groups, (n - 1) as nat);
    }
}

#[verifier::rlimit(60)]
#[verifier::spinoff_prover]
proof fn lemma_groups_read_back(groups: Seq<nat>)
    requires
        groups.len() == 8,
        forall|i: int| 0 <= i < 8 ==> #[trigger] groups[i] < 65536,
    ensures
        ({
            let start = longest_zero_run(groups, 8);
            let len = zero_run(groups, start as int);
            let s = if len >= 2 {
                colon_separated(groups.take(start as int)) + "::"@ + colon_separated(
                    groups.skip((start + len) as int),
                )
            } else {
                colon_separated(groups)
            };
            &&& v6_groups(s) == Some(groups)
            &&& lacks(s, '.')
            &&& is_addressy(s)
            &&& s.len() > 0
        }),
{
    let start = longest_zero_run(groups, 8) as int;
    let len = zero_run(groups, start) as int;
    lemma_longest_start(groups, 8);
    lemma_zero_run(groups, start);
    if len >= 2 {
        reveal_strlit("::");
        assert("::"@ =~= seq![':', ':']);
        let left = groups.take(start);
        let right = groups.skip(start + len);
        assert forall|i: int| 0 <= i < left.len() implies #[trigger] left[i] < 65536 by {
            assert(groups[i] < 65536);
        }
        assert forall|i: int| 0 <= i < right.len() implies #[trigger] right[i] < 65536 by {
            assert(groups[start + len + i] < 65536);
        }
        let a = colon_separated(left);
        let b = colon_separated(right);
        let s = a + "::"@ + b;
        let k = a.len() as int;
        if left.len() > 0 {
            lemma_colon_separated(left);
        } else {
            assert(left.map_values(|g: nat| numeral(g, 16)).len() == 0);
        }
        if right.len() > 0 {
            lemma_colon_separated(right);
        } else {
            assert(right.map_values(|g: nat| numeral(g, 16)).len() == 0);
        }
        assert forall|i: int| 0 <= i < k implies !(#[trigger] s[i] == ':' && s[i + 1] == ':') by {
            if i < k - 1 {
                assert(s[i] == a[i] && s[i + 1] == a[i + 1]);
            } else {
                assert(s[i] == a.last());
            }
        }
        lemma_first_double_colon(s, 0, k);
        assert(s.take(k) =~= a);
        assert(s.skip(k + 2) =~= b);
        lemma_part_groups(left, false);
        lemma_part_groups(right, true);
        assert(left + Seq::new((8 - left.len() - right.len()) as nat, |i: int| 0nat) + right
            =~= groups);
        assert(lacks(s, '.'));
        assert(is_addressy(s));
    } else {
        lemma_colon_separated(groups);
        lemma_no_double_colon(colon_separated(groups), 0);
        lemma_part_groups(groups, true);
    }
}

proof fn lemma_one_piece(s: Seq<char>)
    requires
        lacks(s, '.'),
    ensures
        dotted_quad(s) is None,
{
    pieces_come_apart(Seq::empty(), s, '.');
    assert(pieces(s, '.').len() == 1);
}

proof fn lemma_ffff()
    ensures
        hex_group(seq!['f', 'f', 'f', 'f']) == Some(0xffffnat),
{
    let f = seq!['f', 'f', 'f', 'f'];
    reveal_with_fuel(crate::text::digits_value, 5);
    assert(f.drop_last() =~= seq!['f', 'f', 'f']);
    assert(seq!['f', 'f', 'f'].drop_last() =~= seq!['f', 'f']);
    assert(seq!['f', 'f'].drop_last() =~= seq!['f']);
    assert(seq!['f'].drop_last() =~= Seq::<char>::empty());
    assert(all_digits(f, 16));
}

#[verifier::rlimit(40)]
proof fn lemma_mapped_tail(q: Seq<nat>)
    requires
        q.len() == 4,
        forall|i: int| 0 <= i < 4 ==> #[trigger] q[i] < 256,
    ensures
        part_groups(seq!['f', 'f', 'f', 'f'] + seq![':'] + dotted(q), true) == Some(
            seq![0xffffnat, (q[0] * 256 + q[1]) as nat, (q[2] * 256 + q[3]) as nat],
        ),
{
    let f = seq!['f', 'f', 'f', 'f'];
    let d = dotted(q);
    lemma_dotted(q);
    lemma_ffff();
    let tail = f + seq![':'] + d;
    pieces_come_apart(Seq::empty(), f, ':');
    pieces_come_apart(f, d, ':');
    let parts = pieces(tail, ':');
    assert(parts =~= seq![f, d]);
    let high = (q[0] * 256 + q[1]) as nat;
    let rest = (q[2] * 256 + q[3]) as nat;
    assert(parts.last() == d);
    assert(last_groups(d, true) == Some(seq![high, rest]));
    assert forall|i: int| 0 <= i < parts.len() - 1 implies hex_group(#[trigger] parts[i])
        is Some by {
        assert(parts[i] == f);
    }
    let groups = seq![0xffffnat, high, rest];
    let front = parts.drop_last().map_values(|p: Seq<char>| hex_group(p)->0);
    assert(front.len() == 1);
    assert(front[0] == hex_group(parts[0])->0);
    assert(front + seq![high, rest] =~= groups);
}

proof fn lemma_mapped_number(n: nat, q: Seq<nat>, all: Seq<nat>)
    requires
        n / 0x1_0000_0000 == 0xffff,
        q.len() == 4,
        digits_number(q, 256) == n % 0x1_0000_0000,
        all == seq![
            0nat,
            0,
            0,
            0,
            0,
            0xffff,
            (q[0] * 256 + q[1]) as nat,
            (q[2] * 256 + q[3]) as nat,
        ],
    ensures
        digits_number(all, 65536) == n,
{
    lemma_eight(all);
    lemma_four(q);
}

#[verifier::rlimit(40)]
proof fn lemma_mapped(n: nat)
    requires
        n / 0x1_0000_0000 == 0xffff,
    ensures
        address_value(v6_text(n)) == Some(IpAddress::V6(n as u128)),
        is_addressy(v6_text(n)),
        v6_text(n).len() > 0,
{
    let low = (n % 0x1_0000_0000) as nat;
    let q = low_digits(low, 256, 4);
    assert(pow(256, 4) == 0x1_0000_0000) by {
        reveal_with_fuel(pow, 5);
    }
    digits_stand_for_their_number(low, 256, 4);
    assert forall|i: int| 0 <= i < 4 implies #[trigger] q[i] < 256 by {
        assert(low_digits(low, 256, 4)[i] < 256);
    }
    lemma_dotted(q);
    let d = dotted(q);
    reveal_strlit("::ffff:");
    assert("::ffff:"@ =~= seq![':', ':', 'f', 'f', 'f', 'f', ':']);
    let s = "::ffff:"@ + d;
    assert(v6_text(n) == s);
    lemma_not_a_quad(s, 0);
    lemma_first_double_colon(s, 0, 0);
    assert(s.take(0) =~= Seq::<char>::empty());
    let tail = s.skip(2);
    assert(tail =~= seq!['f', 'f', 'f', 'f'] + seq![':'] + d);
    lemma_mapped_tail(q);
    let groups = seq![0xffffnat, (q[0] * 256 + q[1]) as nat, (q[2] * 256 + q[3]) as nat];
    let none = Seq::<nat>::empty();
    let all = none + Seq::new(5, |i: int| 0nat) + groups;
    assert(all =~= seq![0nat, 0, 0, 0, 0, 0xffff, groups[1], groups[2]]);
    assert(v6_groups(s) == Some(all));
    lemma_mapped_number(n, q, all);
}

proof fn lemma_four(q: Seq<nat>)
    requires
        q.len() == 4,
    ensures
        digits_number(q, 256) == ((q[0] * 256 + q[1]) * 256 + q[2]) * 256 + q[3],
{
    reveal_with_fuel(digits_number, 5);
    let a = q.drop_last();
    let b = a.drop_last();
    let c = b.drop_last();
    assert(c.drop_last().len() == 0);
}

proof fn lemma_eight(g: Seq<nat>)
    requires
        g.len() == 8,
        g[0] == 0,
        g[1] == 0,
        g[2] == 0,
        g[3] == 0,
        g[4] == 0,
    ensures
        digits_number(g, 65536) == (g[5] * 65536 + g[6]) * 65536 + g[7],
{
    reveal_with_fuel(digits_number, 9);
    let a = g.drop_last();
    let b = a.drop_last();
    let c = b.drop_last();
    let d = c.drop_last();
    let e = d.drop_last();
    let f = e.drop_last();
    let h = f.drop_last();
    assert(h.drop_last().len() == 0);
}

/// Every address is read back from how it is written. What is written is one word.
#[verifier::rlimit(40)]
pub proof fn addresses_are_read_back(ip: IpAddress)
    ensures
        address_value(ip.written()) == Some(ip),
        is_addressy(ip.written()),
        is_one_word(ip.written()),
{
    match ip {
        IpAddress::V4(n) => {
            assert(pow(256, 4) == 0x1_0000_0000) by {
                reveal_with_fuel(pow, 5);
            }
            let q = low_digits(n as nat, 256, 4);
            digits_stand_for_their_number(n as nat, 256, 4);
            assert forall|i: int| 0 <= i < 4 implies #[trigger] q[i] < 256 by {
                assert(low_digits(n as nat, 256, 4)[i] < 256);
            }
            lemma_dotted(q);
        },
        IpAddress::V6(n) => {
            let m = n as nat;
            if m / 0x1_0000_0000 == 0xffff {
                lemma_mapped(m);
            } else {
                assert(pow(65536, 8) == 0x1_0000_0000_0000_0000_0000_0000_0000_0000) by {
                    reveal_with_fuel(pow, 9);
                }
                let g = low_digits(m, 65536, 8);
                digits_stand_for_their_number(m, 65536, 8);
                assert forall|i: int| 0 <= i < 8 implies #[trigger] g[i] < 65536 by {
                    assert(low_digits(m, 65536, 8)[i] < 65536);
                }
                lemma_groups_read_back(g);
                lemma_one_piece(v6_text(m));
            }
        },
    }
}

/// Different addresses are written differently.
pub proof fn addresses_are_told_apart(a: IpAddress, b: IpAddress)
    requires
        a.written() == b.written(),
    ensures
        a == b,
{
    addresses_are_read_back(a);
    addresses_are_read_back(b);
}

} // verus!
