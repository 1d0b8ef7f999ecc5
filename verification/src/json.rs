//! Pieces of JSON text.

use crate::text::{chars_of, decimal, decimal_text, digit, digit_char, join, joined, text, texts};
use vstd::prelude::*;
use vstd::string::*;

verus! {

/// One character inside a JSON string: quotes, backslashes and control characters are escaped.
pub open spec fn escaped_char(c: char) -> Seq<char> {
    if c == '"' {
        seq!['\\', '"']
    } else if c == '\\' {
        seq!['\\', '\\']
    } else if c == '\n' {
        seq!['\\', 'n']
    } else if c == '\r' {
        seq!['\\', 'r']
    } else if c == '\t' {
        seq!['\\', 't']
    } else if (c as nat) < 32 {
        seq!['\\', 'u', '0', '0', digit_char(c as nat / 16), digit_char(c as nat % 16)]
    } else {
        seq![c]
    }
}

/// The inside of the JSON string that stands for a text.
pub open spec fn escaped(s: Seq<char>) -> Seq<char>
    decreases s.len(),
{
    if s.len() == 0 {
        Seq::empty()
    } else {
        escaped(s.drop_last()) + escaped_char(s.last())
    }
}

fn put_escaped_char(out: &mut String, c: char)
    ensures
        final(out)@ == old(out)@ + escaped_char(c),
{
    let ghost before = out@;
    if c == '"' {
        out.push('\\');
        out.push('"');
    } else if c == '\\' {
        out.push('\\');
        out.push('\\');
    } else if c == '\n' {
        out.push('\\');
        out.push('n');
    } else if c == '\r' {
        out.push('\\');
        out.push('r');
    } else if c == '\t' {
        out.push('\\');
        out.push('t');
    } else if (c as u32) < 32 {
        let n: u8 = c as u8;
        out.push('\\');
        out.push('u');
        out.push('0');
        out.push('0');
        out.push(digit(n / 16));
        out.push(digit(n % 16));
    } else {
        out.push(c);
    }
    proof {
        assert(out@ =~= before + escaped_char(c));
    }
}

/// The inside of the JSON string that stands for a text.
pub fn escape_json_string(s: &str) -> (r: String)
    ensures
        r@ == escaped(s@),
{
    let chars = chars_of(s);
    let mut out = String::new();
    let mut i: usize = 0;
    proof {
        assert(out@ =~= escaped(s@.take(0)));
    }
    while i < chars.len()
        invariant
            chars@ == s@,
            i <= chars@.len(),
            out@ == escaped(s@.take(i as int)),
        decreases chars@.len() - i,
    {
        put_escaped_char(&mut out, chars[i]);
        i = i + 1;
        proof {
            assert(s@.take(i as int).drop_last() =~= s@.take(i - 1));
        }
    }
    proof {
        assert(s@.take(s@.len() as int) =~= s@);
    }
    out
}

/// Appends the inside of the JSON string that stands for a text.
pub fn put_escaped(out: &mut String, s: &str)
    ensures
        final(out)@ == old(out)@ + escaped(s@),
{
    let e = escape_json_string(s);
    out.append(e.as_str());
}

/// Appends a decimal numeral.
pub fn put_number(out: &mut String, n: u64)
    ensures
        final(out)@ == old(out)@ + decimal(n as nat),
{
    let d = decimal_text(n);
    out.append(d.as_str());
}

/// The JSON text of a truth value.
pub open spec fn bool_json(b: bool) -> Seq<char> {
    if b {
        "true"@
    } else {
        "false"@
    }
}

/// Appends a truth value.
pub fn put_bool(out: &mut String, b: bool)
    ensures
        final(out)@ == old(out)@ + bool_json(b),
{
    if b {
        out.append("true");
    } else {
        out.append("false");
    }
}

/// A text as a JSON string.
pub open spec fn quoted(s: Seq<char>) -> Seq<char> {
    "\""@ + escaped(s) + "\""@
}

/// A text as a JSON string.
pub fn quote(s: &str) -> (r: String)
    ensures
        r@ == quoted(s@),
{
    let mut out = text("\"");
    put_escaped(&mut out, s);
    out.append("\"");
    out
}

/// A text that may be missing, as a JSON string or `null`.
pub open spec fn optional_string(value: Option<Seq<char>>) -> Seq<char> {
    match value {
        Some(s) => quoted(s),
        None => "null"@,
    }
}

/// The characters of a text that may be missing.
pub open spec fn optional_view(value: Option<String>) -> Option<Seq<char>> {
    match value {
        Some(s) => Some(s@),
        None => None,
    }
}

/// A text that may be missing, as a JSON string or `null`.
pub fn optional_string_json(value: Option<&str>) -> (r: String)
    ensures
        r@ == optional_string(
            match value {
                Some(s) => Some(s@),
                None => None,
            },
        ),
{
    match value {
        Some(s) => quote(s),
        None => text("null"),
    }
}

/// Appends a text that may be missing.
pub fn put_optional_string(out: &mut String, value: &Option<String>)
    ensures
        final(out)@ == old(out)@ + optional_string(optional_view(*value)),
{
    let s = match value {
        Some(s) => optional_string_json(Some(s.as_str())),
        None => optional_string_json(None),
    };
    out.append(s.as_str());
}

/// A number that may be missing, as a numeral or `null`.
pub open spec fn optional_number(value: Option<u64>) -> Seq<char> {
    match value {
        Some(n) => decimal(n as nat),
        None => "null"@,
    }
}

/// A number that may be missing, as a numeral or `null`.
pub fn optional_u64_json(value: Option<u64>) -> (r: String)
    ensures
        r@ == optional_number(value),
{
    match value {
        Some(n) => decimal_text(n),
        None => text("null"),
    }
}

/// Appends a number that may be missing.
pub fn put_optional_number(out: &mut String, value: Option<u64>)
    ensures
        final(out)@ == old(out)@ + optional_number(value),
{
    let s = optional_u64_json(value);
    out.append(s.as_str());
}

/// The elements of a JSON array of strings, without its brackets.
pub open spec fn quoted_list(list: Seq<Seq<char>>) -> Seq<char> {
    joined(list.map_values(|s: Seq<char>| quoted(s)), ","@)
}

/// Appends the elements of a JSON array of strings, without its brackets.
pub fn put_quoted_list(out: &mut String, list: &Vec<String>)
    ensures
        final(out)@ == old(out)@ + quoted_list(texts(list@)),
{
    let mut items: Vec<String> = Vec::new();
    let mut i: usize = 0;
    while i < list.len()
        invariant
            i <= list@.len(),
            items@.len() == i,
            forall|j: int| 0 <= j < i ==> (#[trigger] items@[j])@ == quoted(list@[j]@),
        decreases list@.len() - i,
    {
        items.push(quote(list[i].as_str()));
        i = i + 1;
    }
    let all = join(&items, ",");
    proof {
        assert(texts(items@) =~= texts(list@).map_values(|s: Seq<char>| quoted(s)));
    }
    out.append(all.as_str());
}

/// One character inside a string that `serde_json` writes: two control characters more than in
/// [`escaped_char`] have an escape of their own.
pub open spec fn serde_char(c: char) -> Seq<char> {
    if (c as nat) == 8 {
        seq!['\\', 'b']
    } else if (c as nat) == 12 {
        seq!['\\', 'f']
    } else {
        escaped_char(c)
    }
}

/// The inside of the string that `serde_json` writes for a text.
pub open spec fn serde_chars(s: Seq<char>) -> Seq<char>
    decreases s.len(),
{
    if s.len() == 0 {
        Seq::empty()
    } else {
        serde_chars(s.drop_last()) + serde_char(s.last())
    }
}

/// The string that `serde_json` writes for a text.
pub open spec fn serde_string(s: Seq<char>) -> Seq<char> {
    "\""@ + serde_chars(s) + "\""@
}

/// Trusted: `serde_json::to_string` on a string slice. It writes into memory and does not fail:
/// between two quotation marks, each character as [`serde_char`] says.
#[verifier::external_body]
pub(crate) fn serde_string_text(s: &str) -> (r: String)
    ensures
        r@ == serde_string(s@),
{
    serde_json::to_string(s).unwrap_or_default()
}

/// Appends the string that `serde_json` writes for a text.
pub fn put_serde_string(out: &mut String, s: &str)
    ensures
        final(out)@ == old(out)@ + serde_string(s@),
{
    let written = serde_string_text(s);
    out.append(written.as_str());
}

} // verus!
