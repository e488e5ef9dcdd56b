//! The byte classes of restricted names.
//!
//! Registered media types have type and subtype names of the form
//!
//! ```text
//! restricted-name       = restricted-name-first *126restricted-name-chars
//! restricted-name-first = ALPHA / DIGIT
//! restricted-name-chars = ALPHA / DIGIT / "!" / "#" /
//!                         "$" / "&" / "-" / "^" / "_" / "." / "+"
//! ```
//!
//! which is narrower than the tokens that HTTP allows.
use vstd::prelude::*;

verus! {

/// A letter or a digit.
pub open spec fn is_alphanumeric(c: u8) -> bool {
    (0x30 <= c <= 0x39) || (0x41 <= c <= 0x5a) || (0x61 <= c <= 0x7a)
}

/// A byte that may follow the first one of a restricted name: a letter, a
/// digit, or one of `!#$&-^_.+`.
pub open spec fn is_restricted_name_byte(c: u8) -> bool {
    is_alphanumeric(c) || c == 0x21 || c == 0x23 || c == 0x24 || c == 0x26 || c == 0x2d || c
        == 0x5e || c == 0x5f || c == 0x2e || c == 0x2b
}

/// Whether the byte may open a restricted name.
pub fn is_restricted_name_first_char(c: u8) -> (r: bool)
    ensures
        r == is_alphanumeric(c),
{
    (c >= 0x30 && c <= 0x39) || (c >= 0x41 && c <= 0x5a) || (c >= 0x61 && c <= 0x7a)
}

/// Whether the byte may stand in a restricted name, behind its first byte.
pub fn is_restricted_name_char(c: u8) -> (r: bool)
    ensures
        r == is_restricted_name_byte(c),
{
    is_restricted_name_first_char(c) || c == 0x21 || c == 0x23 || c == 0x24 || c == 0x26 || c
        == 0x2b || c == 0x2d || c == 0x2e || c == 0x5e || c == 0x5f
}

/// Whether the byte may stand in a quoted string of a registered media
/// type: anything from the space on but DEL.
pub fn is_restricted_quoted_char(c: u8) -> (r: bool)
    ensures
        r == (c > 31 && c != 127),
{
    c > 31 && c != 127
}

} // verus!
