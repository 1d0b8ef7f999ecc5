//! What holds of all texts: numerals are read back as the numbers they were written for, and texts
//! that were put together come apart into the same pieces.

use crate::text::{
    after_prefix, all_digits, decimal, digit_char, digit_of, digits_value, hex_bytes, is_space,
    joined, lowered, numeral, pieces, unsigned, without_plus, words,
};
use vstd::prelude::*;

verus! {

/// Whether every character of a text is a digit of a number in lower case.
pub open spec fn is_plain(s: Seq<char>) -> bool {
    forall|i: int| 0 <= i < s.len() ==> is_plain_digit(#[trigger] s[i])
}

/// Whether a character is a decimal digit or one of the first six letters in lower case.
pub open spec fn is_plain_digit(c: char) -> bool {
    '0' <= c <= '9' || 'a' <= c <= 'f'
}

/// A digit stands for the number that it was written for.
pub proof fn digits_are_read_back(d: nat)
    requires
        d < 16,
    ensures
        digit_of(digit_char(d)) == d,
        is_plain_digit(digit_char(d)),
        d > 0 ==> digit_char(d) != '0',
{
}

/// A numeral stands for the number that it was written for, has no other characters than digits of
/// its base, and starts with a zero only where it is the zero.
#[verifier::rlimit(40)]
pub proof fn numerals_stand_for_their_numbers(n: nat, radix: nat)
    requires
        2 <= radix <= 16,
    ensures
        numeral(n, radix).len() > 0,
        is_plain(numeral(n, radix)),
        all_digits(numeral(n, radix), radix),
        digits_value(numeral(n, radix), radix) == n,
        n > 0 ==> numeral(n, radix)[0] != '0',
    decreases n,
{
    let s = numeral(n, radix);
    if n < radix {
        digits_are_read_back(n);
        assert(s.drop_last() =~= Seq::<char>::empty());
        let zero = digits_value(s.drop_last(), radix);
        assert(zero * radix == 0) by (nonlinear_arith)
            requires
                zero == 0,
        ;
        assert(s.last() == digit_char(n));
    } else {
        vstd::arithmetic::div_mod::lemma_div_decreases(n as int, radix as int);
        vstd::arithmetic::div_mod::lemma_mod_bound(n as int, radix as int);
        vstd::arithmetic::div_mod::lemma_fundamental_div_mod(n as int, radix as int);
        assert(n / radix > 0) by (nonlinear_arith)
            requires
                n >= radix,
                radix >= 2,
        ;
        numerals_stand_for_their_numbers(n / radix, radix);
        digits_are_read_back(n % radix);
        let front = numeral(n / radix, radix);
        assert(s.drop_last() =~= front);
        assert(s.last() == digit_char(n % radix));
        assert(digits_value(s, radix) == digits_value(front, radix) * radix + n % radix);
        assert((n / radix) * radix + n % radix == n) by (nonlinear_arith)
            requires
                n == radix * (n / radix) + n % radix,
        ;
        assert(s[0] == front[0]);
    }
}

/// A number that was written is read back, where it is not too large.
pub proof fn numerals_are_read_back(n: nat, radix: nat, max: nat)
    requires
        2 <= radix <= 16,
    ensures
        unsigned(numeral(n, radix), radix, max) == (if n <= max {
            Some(n)
        } else {
            None
        }),
{
    numerals_stand_for_their_numbers(n, radix);
    let s = numeral(n, radix);
    assert(is_plain_digit(s[0]));
    assert(without_plus(s) == s);
}

/// Different numbers have different numerals.
pub proof fn numerals_tell_numbers_apart(a: nat, b: nat, radix: nat)
    requires
        2 <= radix <= 16,
        numeral(a, radix) == numeral(b, radix),
    ensures
        a == b,
{
    numerals_stand_for_their_numbers(a, radix);
    numerals_stand_for_their_numbers(b, radix);
}

/// The numeral of a small number is short.
pub proof fn small_numerals_are_short(n: nat)
    ensures
        n < 256 ==> decimal(n).len() <= 3,
        n < 10 ==> decimal(n).len() == 1,
        n < 65536 ==> numeral(n, 16).len() <= 4,
{
    reveal_with_fuel(numeral, 5);
}

/// Whether a text holds no white space.
pub open spec fn is_one_word(s: Seq<char>) -> bool {
    s.len() > 0 && forall|i: int| 0 <= i < s.len() ==> !is_space(#[trigger] s[i])
}

#[verifier::rlimit(40)]
proof fn lemma_words_grow(a: Seq<char>, w: Seq<char>)
    requires
        is_one_word(w),
        a.len() == 0 || is_space(a.last()),
    ensures
        words(a + w) == words(a).push(w),
    decreases w.len(),
{
    let s = a + w;
    if w.len() == 1 {
        assert(s.drop_last() =~= a);
        assert(w =~= seq![w[0]]);
        assert(s.last() == w[0]);
        if a.len() > 0 {
            assert(s[s.len() - 2] == a.last());
        }
    } else {
        let front = w.drop_last();
        assert forall|i: int| 0 <= i < front.len() implies !is_space(#[trigger] front[i]) by {
            assert(!is_space(w[i]));
        }
        lemma_words_grow(a, front);
        assert(s.drop_last() =~= a + front);
        assert(s.last() == w.last());
        assert(!is_space(w[w.len() - 1]));
        assert(s[s.len() - 2] == w[w.len() - 2]);
        let before = words(a).push(front);
        assert(before.drop_last() =~= words(a));
        assert(front.push(w.last()) =~= w);
    }
}

/// A word that stands behind a space is one word more, and nothing else changes.
pub proof fn words_come_apart(a: Seq<char>, w: Seq<char>)
    requires
        is_one_word(w),
    ensures
        words(w) == seq![w],
        words(a + seq![' '] + w) == words(a).push(w),
{
    let none = Seq::<char>::empty();
    lemma_words_grow(none, w);
    assert(none + w =~= w);
    assert(words(none) == Seq::<Seq<char>>::empty());
    assert(Seq::<Seq<char>>::empty().push(w) =~= seq![w]);
    let spaced = a + seq![' '];
    assert(spaced.last() == ' ');
    assert(spaced.drop_last() =~= a);
    lemma_words_grow(spaced, w);
}

/// Whether a text does not hold a character.
pub open spec fn lacks(s: Seq<char>, c: char) -> bool {
    forall|i: int| 0 <= i < s.len() ==> #[trigger] s[i] != c
}

#[verifier::rlimit(40)]
proof fn lemma_pieces_grow(a: Seq<char>, w: Seq<char>, sep: char)
    requires
        lacks(w, sep),
    ensures
        pieces(a, sep).len() > 0,
        pieces(a + w, sep) == pieces(a, sep).drop_last().push(pieces(a, sep).last() + w),
    decreases w.len(),
{
    lemma_some_piece(a, sep);
    let s = a + w;
    if w.len() == 0 {
        assert(s =~= a);
        assert(pieces(a, sep).last() + w =~= pieces(a, sep).last());
        assert(pieces(a, sep).drop_last().push(pieces(a, sep).last()) =~= pieces(a, sep));
    } else {
        let front = w.drop_last();
        assert forall|i: int| 0 <= i < front.len() implies #[trigger] front[i] != sep by {
            assert(w[i] != sep);
        }
        lemma_pieces_grow(a, front, sep);
        assert(s.drop_last() =~= a + front);
        assert(s.last() == w.last());
        assert(w[w.len() - 1] != sep);
        let p = pieces(a, sep);
        let before = p.drop_last().push(p.last() + front);
        assert(before.drop_last() =~= p.drop_last());
        assert((p.last() + front).push(w.last()) =~= p.last() + w);
    }
}

proof fn lemma_some_piece(s: Seq<char>, sep: char)
    ensures
        pieces(s, sep).len() > 0,
    decreases s.len(),
{
    if s.len() > 0 {
        lemma_some_piece(s.drop_last(), sep);
    }
}

/// A piece that stands behind a separator is one piece more, and nothing else changes.
#[verifier::rlimit(40)]
pub proof fn pieces_come_apart(a: Seq<char>, w: Seq<char>, sep: char)
    requires
        lacks(w, sep),
    ensures
        pieces(w, sep) == seq![w],
        pieces(a + seq![sep] + w, sep) == pieces(a, sep).push(w),
{
    let none = Seq::<char>::empty();
    lemma_pieces_grow(none, w, sep);
    assert(none + w =~= w);
    assert(pieces(none, sep) == seq![none]);
    assert(pieces(none, sep).drop_last().push(none + w) =~= seq![w]);
    let parted = a + seq![sep];
    assert(parted.last() == sep);
    assert(parted.drop_last() =~= a);
    lemma_pieces_grow(parted, w, sep);
    let p = pieces(a, sep).push(none);
    assert(pieces(parted, sep) == p);
    assert(p.drop_last() =~= pieces(a, sep));
    assert(p.last() + w =~= w);
}

/// Only the capitals of ASCII are made small, each to its own small letter; all else stays, and
/// what is small already is unchanged.
pub proof fn only_capitals_are_made_small(s: Seq<char>)
    ensures
        lowered(s).len() == s.len(),
        forall|i: int|
            0 <= i < s.len() ==> #[trigger] lowered(s)[i] == (if 'A' <= s[i] <= 'Z' {
                ((s[i] as nat) + 'a' as nat - 'A' as nat) as char
            } else {
                s[i]
            }),
        lowered(lowered(s)) == lowered(s),
{
    assert(lowered(lowered(s)) =~= lowered(s));
}

/// Spaces, tabs and line ends are white space, and no visible character of ASCII is.
pub proof fn visible_characters_are_no_white_space(c: char)
    ensures
        is_space(' '),
        is_space('\t'),
        is_space('\n'),
        is_space('\r'),
        33 <= c as nat <= 126 ==> !is_space(c),
        (c as nat) < 9 ==> !is_space(c),
{
}

/// Every byte is written as two digits, the higher one first, and is read back from them.
#[verifier::rlimit(40)]
pub proof fn bytes_are_two_digits(bytes: Seq<u8>)
    ensures
        hex_bytes(bytes).len() == 2 * bytes.len(),
        forall|i: int|
            0 <= i < bytes.len() ==> {
                &&& digit_of(hex_bytes(bytes)[2 * i]) < 16
                &&& digit_of(hex_bytes(bytes)[2 * i + 1]) < 16
                &&& digit_of(hex_bytes(bytes)[2 * i]) * 16 + digit_of(hex_bytes(bytes)[2 * i + 1])
                    == #[trigger] bytes[i]
            },
{
    assert forall|i: int| 0 <= i < bytes.len() implies {
        &&& digit_of(hex_bytes(bytes)[2 * i]) < 16
        &&& digit_of(hex_bytes(bytes)[2 * i + 1]) < 16
        &&& digit_of(hex_bytes(bytes)[2 * i]) * 16 + digit_of(hex_bytes(bytes)[2 * i + 1])
            == #[trigger] bytes[i]
    } by {
        digits_are_read_back((bytes[i] / 16) as nat);
        digits_are_read_back((bytes[i] % 16) as nat);
        assert((2 * i) / 2 == i && (2 * i) % 2 == 0);
        assert((2 * i + 1) / 2 == i && (2 * i + 1) % 2 == 1);
    }
}

/// Texts are joined in their order with what stands between them, and with nothing before the first
/// or behind the last.
pub proof fn texts_are_joined_in_order(list: Seq<Seq<char>>, next: Seq<char>, sep: Seq<char>)
    ensures
        joined(Seq::empty(), sep) == Seq::<char>::empty(),
        joined(seq![next], sep) == next,
        list.len() > 0 ==> joined(list.push(next), sep) == joined(list, sep) + sep + next,
{
    if list.len() > 0 {
        assert(list.push(next).drop_last() =~= list);
    }
}

/// What follows a prefix is all that is left of a text that starts with it, and nothing follows in
/// a text that does not.
pub proof fn prefixes_are_taken_off(prefix: Seq<char>, rest: Seq<char>, s: Seq<char>)
    ensures
        after_prefix(prefix + rest, prefix) == Some(rest),
        after_prefix(s, prefix) matches Some(after) ==> s == prefix + after,
{
    assert((prefix + rest).subrange(0, prefix.len() as int) =~= prefix);
    assert((prefix + rest).skip(prefix.len() as int) =~= rest);
    if prefix.is_prefix_of(s) {
        assert(s =~= prefix + s.skip(prefix.len() as int));
    }
}

} // verus!
