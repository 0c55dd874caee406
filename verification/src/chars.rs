use vstd::prelude::*;

verus! {

// Character classification used by both lexers.
//
// The executable classification comes from std's `char` methods. The Unicode
// properties behind `is_whitespace`, `is_alphabetic` and `is_numeric` are
// large tables, so each is named by an uninterpreted spec function; the
// lexing specifications only need the classification to be a fixed function
// of the character. `is_alphanumeric` and `is_ascii_punctuation` have small
// documented definitions and are stated exactly.

/// Whether `c` has the Unicode `White_Space` property.
pub uninterp spec fn is_unicode_whitespace(c: char) -> bool;

/// Whether `c` has the Unicode `Alphabetic` property.
pub uninterp spec fn is_unicode_alphabetic(c: char) -> bool;

/// Whether `c` is in a Unicode numeric general category (`Nd`, `Nl`, `No`).
pub uninterp spec fn is_unicode_numeric(c: char) -> bool;

/// A character is alphanumeric exactly when it is alphabetic or numeric;
/// this is how std documents `char::is_alphanumeric`.
pub open spec fn is_unicode_alphanumeric(c: char) -> bool {
    is_unicode_alphabetic(c) || is_unicode_numeric(c)
}

/// The four ASCII punctuation ranges: `!..=/`, `:..=@`, `[..=`` ` `` and
/// `{..=~`, as std documents `char::is_ascii_punctuation`.
pub open spec fn is_ascii_punct(c: char) -> bool {
    ||| 0x21 <= c as u32 && c as u32 <= 0x2f
    ||| 0x3a <= c as u32 && c as u32 <= 0x40
    ||| 0x5b <= c as u32 && c as u32 <= 0x60
    ||| 0x7b <= c as u32 && c as u32 <= 0x7e
}

/// Relies on `char::is_whitespace`: true exactly for characters with the
/// Unicode `White_Space` property, a function of the character alone.
pub assume_specification[ char::is_whitespace ](c: char) -> (r: bool)
    ensures
        r == is_unicode_whitespace(c),
;

/// Relies on `char::is_alphabetic`: true exactly for characters with the
/// Unicode `Alphabetic` property, a function of the character alone.
pub assume_specification[ char::is_alphabetic ](c: char) -> (r: bool)
    ensures
        r == is_unicode_alphabetic(c),
;

/// Relies on `char::is_numeric`: true exactly for characters in a Unicode
/// numeric general category, a function of the character alone.
pub assume_specification[ char::is_numeric ](c: char) -> (r: bool)
    ensures
        r == is_unicode_numeric(c),
;

/// Relies on `char::is_alphanumeric`, documented as the disjunction of
/// `char::is_alphabetic` and `char::is_numeric`.
pub assume_specification[ char::is_alphanumeric ](c: char) -> (r: bool)
    ensures
        r == is_unicode_alphanumeric(c),
;

/// Relies on `char::is_ascii_punctuation`, documented as exactly the four
/// ASCII punctuation ranges stated by `is_ascii_punct`.
pub assume_specification[ char::is_ascii_punctuation ](c: &char) -> (r: bool)
    ensures
        r == is_ascii_punct(*c),
;

/// Relies on `String::push`: appends one character to the string.
#[verifier::external_body]
pub(crate) fn push_char(s: &mut String, c: char)
    ensures
        final(s)@ == old(s)@.push(c),
{
    s.push(c);
}

} // verus!
