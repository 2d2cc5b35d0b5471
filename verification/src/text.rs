//! Small helpers for building and reading strings character by character.

use vstd::prelude::*;
use vstd::utf8::{decode_utf8, valid_utf8};

use crate::runtime::encode_utf16;

verus! {

/// Copy the characters of a string slice into a vector.
pub fn str_chars(s: &str) -> (res: Vec<char>)
    ensures
        res@ == s@,
{
    let mut res: Vec<char> = Vec::new();
    for c in it: s.chars()
        invariant
            res@ == it.seq().take(it.index()),
    {
        res.push(c);
    }
    res
}

/// The bytes as a string, when they are valid UTF-8; this is `String::from_utf8`, whose
/// documentation promises an error exactly for bytes that are not valid UTF-8, and otherwise
/// the string they encode.
#[verifier::external_body]
pub fn string_from_utf8(bytes: Vec<u8>) -> (res: Option<String>)
    ensures
        res is Some <==> valid_utf8(bytes@),
        res matches Some(s) ==> s@ == decode_utf8(bytes@),
{
    String::from_utf8(bytes).ok()
}

/// The string whose UTF-16 encoding is `units`, when they are valid UTF-16; this is
/// `String::from_utf16`, whose documentation promises an error exactly when the units hold
/// invalid data, and otherwise the string they encode.
#[verifier::external_body]
pub fn string_from_utf16(units: &[u16]) -> (res: Option<String>)
    ensures
        res matches Some(s) ==> encode_utf16(s@) == units@,
        res is None ==> forall|s: Seq<char>| encode_utf16(s) != units@,
{
    String::from_utf16(units).ok()
}

/// Append one character to a string; this is `String::push`.
#[verifier::external_body]
pub fn push_char(s: &mut String, c: char)
    ensures
        final(s)@ == old(s)@.push(c),
{
    s.push(c)
}

/// Build a string holding `chars[start..end]`.
pub fn string_from_chars(chars: &Vec<char>, start: usize, end: usize) -> (res: String)
    requires
        start <= end <= chars.len(),
    ensures
        res@ == chars@.subrange(start as int, end as int),
{
    let mut res = String::new();
    let mut i = start;
    while i < end
        invariant
            start <= i <= end <= chars.len(),
            res@ == chars@.subrange(start as int, i as int),
        decreases end - i,
    {
        push_char(&mut res, chars[i]);
        i += 1;
    }
    res
}

/// Append every character of `chars` to `s`.
pub fn push_all(s: &mut String, chars: &Vec<char>)
    ensures
        final(s)@ == old(s)@ + chars@,
{
    let mut i: usize = 0;
    while i < chars.len()
        invariant
            i <= chars.len(),
            s@ == old(s)@ + chars@.subrange(0, i as int),
        decreases chars.len() - i,
    {
        push_char(s, chars[i]);
        i += 1;
    }
}

/// A string with the given characters.
pub fn string_of(chars: &Vec<char>) -> (res: String)
    ensures
        res@ == chars@,
{
    let mut res = String::new();
    push_all(&mut res, chars);
    res
}

/// The sequence `s` with every occurrence of `from` replaced by `to`.
pub open spec fn replace_char(s: Seq<char>, from: char, to: char) -> Seq<char> {
    Seq::new(s.len(), |i: int| if s[i] == from { to } else { s[i] })
}

/// The characters of `s`, with every `from` replaced by `to`, appended to `out`.
pub fn push_replaced(out: &mut String, s: &String, from: char, to: char)
    ensures
        final(out)@ == old(out)@ + replace_char(s@, from, to),
{
    let chars = str_chars(s.as_str());
    let mut i: usize = 0;
    while i < chars.len()
        invariant
            i <= chars.len(),
            chars@ == s@,
            out@ == old(out)@ + replace_char(s@, from, to).subrange(0, i as int),
        decreases chars.len() - i,
    {
        let c = chars[i];
        if c == from {
            push_char(out, to);
        } else {
            push_char(out, c);
        }
        proof {
            assert(replace_char(s@, from, to).subrange(0, i + 1) =~= replace_char(s@, from, to).subrange(0, i as int).push(
                replace_char(s@, from, to)[i as int],
            ));
        }
        i += 1;
    }
    proof {
        assert(replace_char(s@, from, to).subrange(0, chars@.len() as int) =~= replace_char(s@, from, to));
    }
}

/// Copy a string; its characters are kept.
pub fn copy_string(s: &String) -> (res: String)
    ensures
        res@ == s@,
{
    s.clone()
}

} // verus!
