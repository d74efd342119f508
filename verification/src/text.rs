//! Words as sequences of characters, and what the crate takes on trust
//! about the text functions of the standard library that it calls.

use vstd::prelude::*;

verus! {

/// The upper-case form of a word, as the standard library computes it.
///
/// The mapping follows the Unicode case tables and may change the number
/// of characters, so it is left undefined here: proofs know it by name only.
pub uninterp spec fn uppercase(s: Seq<char>) -> Seq<char>;

/// `str::to_uppercase` returns the upper-case equivalent of the slice as
/// a new `String`. The contract only names that result: the same text
/// always maps to the same text.
pub assume_specification[ str::to_uppercase ](s: &str) -> (r: String)
    ensures
        r@ == uppercase(s@),
;

/// The ASCII upper-case form of a character: `a` to `z` become `A` to `Z`,
/// every other character stays.
pub open spec fn ascii_upper(c: char) -> char {
    if 'a' <= c && c <= 'z' {
        ((c as u32) - 32) as char
    } else {
        c
    }
}

/// The ASCII lower-case form of a character: `A` to `Z` become `a` to `z`,
/// every other character stays.
pub open spec fn ascii_lower(c: char) -> char {
    if 'A' <= c && c <= 'Z' {
        ((c as u32) + 32) as char
    } else {
        c
    }
}

/// A word with each character in its ASCII upper-case form.
pub open spec fn ascii_uppercase(s: Seq<char>) -> Seq<char> {
    Seq::new(s.len(), |i: int| ascii_upper(s[i]))
}

/// A word with each character in its ASCII lower-case form.
pub open spec fn ascii_lowercase(s: Seq<char>) -> Seq<char> {
    Seq::new(s.len(), |i: int| ascii_lower(s[i]))
}

/// `str::to_ascii_uppercase` returns a copy of the slice in which the ASCII
/// letters `a` to `z` are mapped to `A` to `Z` and all other characters are
/// unchanged.
pub assume_specification[ str::to_ascii_uppercase ](s: &str) -> (r: String)
    ensures
        r@ == ascii_uppercase(s@),
;

/// `str::to_ascii_lowercase` returns a copy of the slice in which the ASCII
/// letters `A` to `Z` are mapped to `a` to `z` and all other characters are
/// unchanged.
pub assume_specification[ str::to_ascii_lowercase ](s: &str) -> (r: String)
    ensures
        r@ == ascii_lowercase(s@),
;

/// `char::to_ascii_uppercase` maps the ASCII letters `a` to `z` to `A` to
/// `Z` and leaves every other character unchanged.
pub assume_specification[ char::to_ascii_uppercase ](c: &char) -> (r: char)
    ensures
        r == ascii_upper(*c),
;

/// Whether `code` is the code point of a character: at most `0x10FFFF` and
/// not a surrogate.
pub open spec fn is_char_code(code: u32) -> bool {
    code <= 0xD7FF || (0xE000 <= code && code <= 0x10FFFF)
}

/// `char::from_u32` converts a code point to its character and returns
/// `None` for a number that is no code point of a character.
pub assume_specification[ core::char::from_u32 ](code: u32) -> (r: Option<char>)
    ensures
        r == if is_char_code(code) {
            Some(code as char)
        } else {
            None::<char>
        },
;

/// `String::push` appends the character to the end of the string.
pub assume_specification[ String::push ](s: &mut String, c: char)
    ensures
        final(s)@ == old(s)@.push(c),
;

/// `str::eq`, the `PartialEq` of string slices, tells whether the two hold
/// the same characters in the same order.
pub assume_specification[ <str as PartialEq>::eq ](a: &str, b: &str) -> (same: bool)
    ensures
        same == (a@ == b@),
;

/// Whether a character is white space in the sense of Unicode.
pub uninterp spec fn whitespace(c: char) -> bool;

/// `char::is_whitespace` tells whether the character has the Unicode
/// property `White_Space`. The contract only names that answer.
pub assume_specification[ char::is_whitespace ](c: char) -> (b: bool)
    ensures
        b == whitespace(c),
;

/// The characters of `s`, in order.
pub fn chars_of(s: &str) -> (v: Vec<char>)
    ensures
        v@ == s@,
{
    let mut v: Vec<char> = Vec::new();
    for c in it: s.chars()
        invariant
            it.seq() == s@,
            v@ == it.seq().take(it.index() as int),
    {
        v.push(c);
    }
    v
}

} // verus!
