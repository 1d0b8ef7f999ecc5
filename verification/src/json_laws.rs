//! What holds of all texts that are written as JSON: they are read back as they were.

use crate::json::{
    bool_json, escaped, escaped_char, optional_number, optional_string, quoted, serde_char,
    serde_chars, serde_string,
};
use crate::text::{decimal, digit_char, digit_of};
use crate::text_laws::digits_are_read_back;
use vstd::prelude::*;
use vstd::string::*;

verus! {

/// The character that stands behind a backslash, where it is one of those that stand for another.
pub open spec fn meant_by(c: char) -> Option<char> {
    if c == '"' {
        Some('"')
    } else if c == '\\' {
        Some('\\')
    } else if c == 'n' {
        Some('\n')
    } else if c == 'r' {
        Some('\r')
    } else if c == 't' {
        Some('\t')
    } else if c == 'b' {
        Some(8nat as char)
    } else if c == 'f' {
        Some(12nat as char)
    } else {
        None
    }
}

/// A text with a character before it.
pub open spec fn headed(c: char, rest: Option<Seq<char>>) -> Option<Seq<char>> {
    match rest {
        Some(rest) => Some(seq![c] + rest),
        None => None,
    }
}

/// The text that the inside of a JSON string stands for. There is none where a quotation mark or a
/// control character stands bare, or a backslash stands before what it cannot stand before.
pub open spec fn read_back(s: Seq<char>) -> Option<Seq<char>>
    decreases s.len(),
{
    if s.len() == 0 {
        Some(Seq::empty())
    } else if s[0] == '"' || (s[0] as nat) < 32 {
        None
    } else if s[0] != '\\' {
        headed(s[0], read_back(s.skip(1)))
    } else if s.len() >= 2 && meant_by(s[1]) is Some {
        headed(meant_by(s[1])->0, read_back(s.skip(2)))
    } else if s.len() >= 6 && s[1] == 'u' && s[2] == '0' && s[3] == '0' && digit_of(s[4]) < 8
        && digit_of(s[5]) < 16 {
        headed((digit_of(s[4]) * 16 + digit_of(s[5])) as char, read_back(s.skip(6)))
    } else {
        None
    }
}

#[verifier::rlimit(40)]
proof fn lemma_escaped_char(c: char, rest: Seq<char>)
    ensures
        read_back(escaped_char(c) + rest) == headed(c, read_back(rest)),
{
    let one = escaped_char(c);
    let all = one + rest;
    assert(all.skip(one.len() as int) =~= rest);
    if (c as nat) < 32 && c != '\n' && c != '\r' && c != '\t' {
        let n = c as nat;
        digits_are_read_back(n / 16);
        digits_are_read_back(n % 16);
        assert(all[4] == digit_char(n / 16));
        assert(all[5] == digit_char(n % 16));
        assert((n / 16) * 16 + n % 16 == n);
    }
}

#[verifier::rlimit(40)]
proof fn lemma_escaped_from_the_front(c: char, rest: Seq<char>)
    ensures
        escaped(seq![c] + rest) == escaped_char(c) + escaped(rest),
    decreases rest.len(),
{
    let all = seq![c] + rest;
    if rest.len() == 0 {
        assert(all.drop_last() =~= Seq::<char>::empty());
        assert(all.last() == c);
        assert(escaped(all.drop_last()) =~= Seq::<char>::empty());
        assert(escaped(all) =~= escaped_char(c) + escaped(rest));
    } else {
        let front = rest.drop_last();
        lemma_escaped_from_the_front(c, front);
        assert(all.drop_last() =~= seq![c] + front);
        assert(all.last() == rest.last());
        assert(escaped(all) =~= escaped_char(c) + escaped(rest));
    }
}

/// A text that is written inside a JSON string is read back as it was, so that no quotation mark and
/// no control character of it stands bare, and different texts are written differently.
#[verifier::rlimit(40)]
pub proof fn written_texts_are_read_back(s: Seq<char>)
    ensures
        read_back(escaped(s)) == Some(s),
    decreases s.len(),
{
    if s.len() > 0 {
        let rest = s.skip(1);
        written_texts_are_read_back(rest);
        assert(seq![s[0]] + rest =~= s);
        lemma_escaped_from_the_front(s[0], rest);
        lemma_escaped_char(s[0], escaped(rest));
        assert(seq![s[0]] + rest =~= s);
    } else {
        assert(s =~= Seq::<char>::empty());
    }
}

proof fn lemma_serde_char(c: char, rest: Seq<char>)
    ensures
        read_back(serde_char(c) + rest) == headed(c, read_back(rest)),
{
    let one = serde_char(c);
    let all = one + rest;
    assert(all.skip(one.len() as int) =~= rest);
    lemma_escaped_char(c, rest);
}

#[verifier::rlimit(40)]
proof fn lemma_serde_from_the_front(c: char, rest: Seq<char>)
    ensures
        serde_chars(seq![c] + rest) == serde_char(c) + serde_chars(rest),
    decreases rest.len(),
{
    let all = seq![c] + rest;
    if rest.len() == 0 {
        assert(all.drop_last() =~= Seq::<char>::empty());
        assert(all.last() == c);
        assert(serde_chars(all.drop_last()) =~= Seq::<char>::empty());
        assert(serde_chars(all) =~= serde_char(c) + serde_chars(rest));
    } else {
        let front = rest.drop_last();
        lemma_serde_from_the_front(c, front);
        assert(all.drop_last() =~= seq![c] + front);
        assert(all.last() == rest.last());
        assert(serde_chars(all) =~= serde_char(c) + serde_chars(rest));
    }
}

/// A text in an envelope is read back as it was.
#[verifier::rlimit(40)]
pub proof fn enveloped_texts_are_read_back(s: Seq<char>)
    ensures
        read_back(serde_chars(s)) == Some(s),
    decreases s.len(),
{
    if s.len() > 0 {
        let rest = s.skip(1);
        enveloped_texts_are_read_back(rest);
        assert(seq![s[0]] + rest =~= s);
        lemma_serde_from_the_front(s[0], rest);
        lemma_serde_char(s[0], serde_chars(rest));
        assert(seq![s[0]] + rest =~= s);
    } else {
        assert(s =~= Seq::<char>::empty());
    }
}

/// A JSON string stands between two quotation marks, and what stands between them is read back as
/// the text.
pub proof fn strings_stand_between_quotation_marks(s: Seq<char>)
    ensures
        quoted(s).len() >= 2,
        quoted(s).first() == '"',
        quoted(s).last() == '"',
        read_back(quoted(s).subrange(1, quoted(s).len() - 1)) == Some(s),
        serde_string(s).len() >= 2,
        serde_string(s).first() == '"',
        serde_string(s).last() == '"',
        read_back(serde_string(s).subrange(1, serde_string(s).len() - 1)) == Some(s),
{
    reveal_strlit("\"");
    written_texts_are_read_back(s);
    enveloped_texts_are_read_back(s);
    assert(quoted(s).subrange(1, quoted(s).len() - 1) =~= escaped(s));
    assert(serde_string(s).subrange(1, serde_string(s).len() - 1) =~= serde_chars(s));
}

/// What is missing is written as `null`, which no text and no number is; truth values are told
/// apart.
pub proof fn missing_values_are_null(s: Seq<char>, n: u64)
    ensures
        optional_string(None) == "null"@,
        optional_number(None) == "null"@,
        optional_string(Some(s)) == quoted(s),
        optional_string(Some(s)) != "null"@,
        optional_number(Some(n)) == decimal(n as nat),
        bool_json(true) == "true"@,
        bool_json(false) == "false"@,
        bool_json(true) != bool_json(false),
{
    reveal_strlit("null");
    reveal_strlit("true");
    reveal_strlit("false");
    strings_stand_between_quotation_marks(s);
    assert("null"@[0] == 'n');
    assert("true"@.len() == 4 && "false"@.len() == 5);
}

} // verus!
