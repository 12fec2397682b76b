//! Small bridges to the standard library's text operations that vstd gives
//! no specification for.

use vstd::prelude::*;

verus! {

/// Relies on String::push: appends exactly the one character.
#[verifier::external_body]
pub fn push_char(s: &mut String, c: char)
    ensures
        final(s)@ == old(s)@.push(c),
{
    s.push(c);
}

/// Relies on char::from_u32: returns the character with scalar value `v`
/// exactly when `v` is a Unicode scalar value (not a surrogate, at most
/// 0x10FFFF).
#[verifier::external_body]
pub fn char_from_u32(v: u32) -> (r: Option<char>)
    ensures
        r is Some <==> vstd::utf8::is_scalar(v),
        r is Some ==> r->0 as u32 == v,
{
    char::from_u32(v)
}

/// Relies on str::from_utf8: decodes exactly the valid UTF-8 byte
/// sequences, to the character sequence that `decode_utf8` describes.
#[verifier::external_body]
pub fn string_from_utf8(b: &Vec<u8>) -> (r: Option<String>)
    ensures
        r is Some <==> vstd::utf8::valid_utf8(b@),
        r is Some ==> r->0@ == vstd::utf8::decode_utf8(b@),
{
    match core::str::from_utf8(b.as_slice()) {
        Ok(s) => Some(s.to_owned()),
        Err(_) => None,
    }
}

/// Whether a character has the Unicode White_Space property: a fact of the
/// character alone, named here and settled by the standard library.
pub uninterp spec fn is_whitespace_char(c: char) -> bool;

/// Whether a character is Unicode alphanumeric: a fact of the character
/// alone, named here and settled by the standard library.
pub uninterp spec fn is_alphanumeric_char(c: char) -> bool;

/// Relies on char::is_whitespace: the White_Space property of `c`.
#[verifier::external_body]
pub fn char_is_whitespace(c: char) -> (r: bool)
    ensures
        r == is_whitespace_char(c),
{
    c.is_whitespace()
}

/// Relies on char::is_alphanumeric: the Alphabetic-or-digit property of
/// `c`.
#[verifier::external_body]
pub fn char_is_alphanumeric(c: char) -> (r: bool)
    ensures
        r == is_alphanumeric_char(c),
{
    c.is_alphanumeric()
}

} // verus!
