//! Specifications for the string operations of the standard library that
//! names and paths go through.

use vstd::prelude::*;

verus! {

/// The ASCII lower-case form of one character: `A` to `Z` become `a` to `z`,
/// every other character stays.
pub open spec fn ascii_lower_char(c: char) -> char {
    if 'A' <= c && c <= 'Z' {
        ((c as int) + 32) as char
    } else {
        c
    }
}

/// The ASCII lower-case form of a string, character by character.
pub open spec fn ascii_lower(s: Seq<char>) -> Seq<char> {
    Seq::new(s.len(), |i: int| ascii_lower_char(s[i]))
}

/// Lowering twice is lowering once.
pub proof fn lemma_ascii_lower_idempotent(s: Seq<char>)
    ensures
        ascii_lower(ascii_lower(s)) == ascii_lower(s),
{
    assert forall|i: int| 0 <= i < s.len() implies ascii_lower_char(ascii_lower_char(s[i]))
        == ascii_lower_char(s[i]) by {
        let c = s[i];
        if 'A' <= c && c <= 'Z' {
            assert(((c as int) + 32) as char as int == (c as int) + 32);
        }
    }
    assert(ascii_lower(ascii_lower(s)) =~= ascii_lower(s));
}

/// `str::to_ascii_lowercase` of the standard library: a copy of the string
/// in which the ASCII letters `A` to `Z` are replaced by `a` to `z` and
/// every other character is kept.
#[verifier::external_body]
pub(crate) fn to_ascii_lowercase(s: &str) -> (lower: String)
    ensures
        lower@ == ascii_lower(s@),
{
    s.to_ascii_lowercase()
}

/// Equality of two string slices, `str::eq` of the standard library: true
/// exactly when both hold the same characters.
#[verifier::external_body]
pub(crate) fn str_eq(a: &str, b: &str) -> (same: bool)
    ensures
        same == (a@ == b@),
{
    a == b
}

/// `str::contains` of the standard library with a character as the pattern:
/// true exactly when the character occurs in the string.
#[verifier::external_body]
pub(crate) fn str_contains_char(s: &str, c: char) -> (found: bool)
    ensures
        found == s@.contains(c),
{
    s.contains(c)
}

/// `String::from_utf8` of the standard library: the string that the bytes
/// encode, and `None` where they are not UTF-8.
#[verifier::external_body]
pub(crate) fn string_from_utf8(bytes: Vec<u8>) -> (text: Option<String>)
    ensures
        match text {
            Some(text) => vstd::utf8::valid_utf8(bytes@) && text@ == vstd::utf8::decode_utf8(bytes@),
            None => !vstd::utf8::valid_utf8(bytes@),
        },
{
    String::from_utf8(bytes).ok()
}

} // verus!
