//! Codepoint classification: the character predicates the scanning rules
//! consult. Letter and Number follow the exact Unicode general category
//! groups L and N; whitespace is the Unicode `White_Space` property.

use vstd::prelude::*;

verus! {

/// Whether a codepoint's Unicode general category is in group L
/// (Lu, Ll, Lt, Lm, Lo). The category table is not restated here; the
/// predicate is given meaning by the contract of `is_letter` alone.
pub uninterp spec fn is_letter_char(c: char) -> bool;

/// Whether a codepoint's Unicode general category is in group N
/// (Nd, Nl, No). The category table is not restated here; the predicate is
/// given meaning by the contract of `is_number` alone.
pub uninterp spec fn is_number_char(c: char) -> bool;

/// Whether a codepoint has the Unicode `White_Space` property, as decided
/// by `char::is_whitespace`.
pub uninterp spec fn is_whitespace_char(c: char) -> bool;

/// Relies on `char::is_whitespace` from std: returns whether the codepoint
/// has the Unicode `White_Space` property.
pub assume_specification[ char::is_whitespace ](c: char) -> (r: bool)
    ensures
        r == is_whitespace_char(c),
;

/// A newline for the scanner's purposes: carriage return or line feed only.
pub open spec fn is_newline_char(c: char) -> bool {
    c == '\n' || c == '\r'
}

/// An "other" character for the scanner's purposes: neither whitespace,
/// nor a Letter, nor a Number (punctuation, symbols, and the like).
pub open spec fn is_other_char(c: char) -> bool {
    !is_whitespace_char(c) && !is_letter_char(c) && !is_number_char(c)
}

/// Non-newline whitespace: whitespace that is not carriage return/line feed.
pub open spec fn is_nonnl_ws_char(c: char) -> bool {
    is_whitespace_char(c) && !is_newline_char(c)
}

/// Relies on `onig::Regex::new` and `onig::Regex::is_match`: the pattern
/// `\A\p{L}\z` matches a one-character string exactly when that character's
/// Unicode general category is in group L (Lu, Ll, Lt, Lm, Lo). The result
/// depends on the character alone. `Regex::new` cannot fail on this fixed,
/// well-formed pattern.
#[verifier::external_body]
pub(crate) fn is_letter(c: char) -> (r: bool)
    ensures
        r == is_letter_char(c),
{
    let mut buf = [0u8; 4];
    let s: &str = c.encode_utf8(&mut buf);
    onig::Regex::new(r"\A\p{L}\z").unwrap().is_match(s)
}

/// Relies on `onig::Regex::new` and `onig::Regex::is_match`: the pattern
/// `\A\p{N}\z` matches a one-character string exactly when that character's
/// Unicode general category is in group N (Nd, Nl, No). The result depends
/// on the character alone. `Regex::new` cannot fail on this fixed,
/// well-formed pattern.
#[verifier::external_body]
pub(crate) fn is_number(c: char) -> (r: bool)
    ensures
        r == is_number_char(c),
{
    let mut buf = [0u8; 4];
    let s: &str = c.encode_utf8(&mut buf);
    onig::Regex::new(r"\A\p{N}\z").unwrap().is_match(s)
}

/// Whether the codepoint is a newline (carriage return or line feed).
pub fn is_newline(c: char) -> (r: bool)
    ensures
        r == is_newline_char(c),
{
    c == '\n' || c == '\r'
}

/// Whether the codepoint is an "other" character: not whitespace, not a
/// Letter, not a Number.
pub(crate) fn is_other(c: char) -> (r: bool)
    ensures
        r == is_other_char(c),
{
    !c.is_whitespace() && !is_letter(c) && !is_number(c)
}

/// Whether the codepoint is whitespace but not a newline.
pub(crate) fn is_nonnl_ws(c: char) -> (r: bool)
    ensures
        r == is_nonnl_ws_char(c),
{
    c.is_whitespace() && !is_newline(c)
}

} // verus!
