//! Character classification and case folding.
//!
//! The tokenizer's scanning rules are defined over a handful of character
//! classes (whitespace, letters, digits, upper/lower case) and over Unicode
//! case folding.  Those classes are decided by the standard library's Unicode
//! tables; the functions here wrap the standard calls and give each class a
//! name that the rest of the crate's specifications use.  Within ASCII the
//! classes are pinned down exactly.

use vstd::prelude::*;

verus! {

/// Whether `char::is_whitespace` holds of `c` (the Unicode `White_Space` property).
pub uninterp spec fn is_ws_char(c: char) -> bool;

/// Whether `char::is_uppercase` holds of `c`.
pub uninterp spec fn is_upper_char(c: char) -> bool;

/// Whether `char::is_lowercase` holds of `c`.
pub uninterp spec fn is_lower_char(c: char) -> bool;

/// Whether `char::is_alphabetic` holds of `c`.
pub uninterp spec fn is_alpha_char(c: char) -> bool;

/// Whether `char::is_numeric` holds of `c`.
pub uninterp spec fn is_digit_char(c: char) -> bool;

/// What `str::to_lowercase` returns for a string with these characters.
pub uninterp spec fn lower_of(s: Seq<char>) -> Seq<char>;

/// Relies on `char::is_whitespace`: true exactly for characters with the
/// Unicode `White_Space` property, which within ASCII are space, tab and the
/// line-break controls.
#[verifier::external_body]
pub fn char_is_whitespace(c: char) -> (r: bool)
    ensures
        r == is_ws_char(c),
        (c as u32) < 128 ==> (r <==> (c == ' ' || c == '\t' || c == '\n' || c == '\r'
            || c == '\u{b}' || c == '\u{c}')),
{
    c.is_whitespace()
}

/// Relies on `char::is_uppercase`: true exactly for characters in the Unicode
/// `Uppercase` category, which within ASCII are `A` to `Z`.
#[verifier::external_body]
pub fn char_is_uppercase(c: char) -> (r: bool)
    ensures
        r == is_upper_char(c),
        (c as u32) < 128 ==> (r <==> (65 <= c as u32 && c as u32 <= 90)),
{
    c.is_uppercase()
}

/// Relies on `char::is_lowercase`: true exactly for characters in the Unicode
/// `Lowercase` category, which within ASCII are `a` to `z`.
#[verifier::external_body]
pub fn char_is_lowercase(c: char) -> (r: bool)
    ensures
        r == is_lower_char(c),
        (c as u32) < 128 ==> (r <==> (97 <= c as u32 && c as u32 <= 122)),
{
    c.is_lowercase()
}

/// Relies on `char::is_alphabetic`: true exactly for characters in the Unicode
/// `Alphabetic` category, which within ASCII are the letters.
#[verifier::external_body]
pub fn char_is_alphabetic(c: char) -> (r: bool)
    ensures
        r == is_alpha_char(c),
        (c as u32) < 128 ==> (r <==> (65 <= c as u32 && c as u32 <= 90)
            || (97 <= c as u32 && c as u32 <= 122)),
{
    c.is_alphabetic()
}

/// Relies on `char::is_numeric`: true exactly for characters in the Unicode
/// numeric categories, which within ASCII are `0` to `9`.
#[verifier::external_body]
pub fn char_is_numeric(c: char) -> (r: bool)
    ensures
        r == is_digit_char(c),
        (c as u32) < 128 ==> (r <==> (48 <= c as u32 && c as u32 <= 57)),
{
    c.is_numeric()
}

/// Relies on `str::to_lowercase`: the result is the Unicode lowercase mapping
/// of the input, a function of the input characters alone; an empty input
/// gives an empty result.
#[verifier::external_body]
pub fn lowercase(s: &str) -> (r: String)
    ensures
        r@ == lower_of(s@),
        s@.len() == 0 ==> r@.len() == 0,
{
    s.to_lowercase()
}

} // verus!
