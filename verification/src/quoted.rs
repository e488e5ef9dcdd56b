//! Quoted strings, as the `quoted_string` crate reads them.
//!
//! A parameter value is a token or a quoted string. The content of a quoted
//! string is what stands between the quotes, with each backslash dropped and
//! the character behind it kept.
use vstd::prelude::*;
use vstd::string::StringSliceAdditionalSpecFns;
use vstd::utf8::is_char_boundary;

verus! {

/// What is left of a representation when the surrounding quotes are taken
/// off: a text that starts with a quote loses its first and its last
/// character; any other text is kept whole.
pub open spec fn strip_quotes(q: Seq<char>) -> Seq<char> {
    if q.len() > 0 && q[0] == '"' {
        if q.len() >= 2 {
            q.subrange(1, q.len() - 1)
        } else {
            seq![]
        }
    } else {
        q
    }
}

/// The text with each quoted pair replaced by the character behind its
/// backslash. A backslash at the very end stands for itself.
pub open spec fn unescape(c: Seq<char>) -> Seq<char>
    decreases c.len(),
{
    if c.len() == 0 {
        seq![]
    } else if c[0] == '\\' {
        if c.len() >= 2 {
            seq![c[1]] + unescape(c.skip(2))
        } else {
            seq!['\\']
        }
    } else {
        seq![c[0]] + unescape(c.skip(1))
    }
}

/// The content that a representation stands for.
pub open spec fn content(q: Seq<char>) -> Seq<char> {
    unescape(strip_quotes(q))
}

/// The content of a quoted string; a text that does not start with a quote
/// is its own content, backslashes included.
pub open spec fn unquoted(q: Seq<char>) -> Seq<char> {
    if q.len() > 0 && q[0] == '"' {
        content(q)
    } else {
        q
    }
}

/// The ASCII lower case equivalent of a character.
pub open spec fn lower_char(c: char) -> char {
    if 'A' <= c <= 'Z' {
        ((c as u32) + 32) as char
    } else {
        c
    }
}

/// A text with every character folded to ASCII lower case.
pub open spec fn lower_chars(s: Seq<char>) -> Seq<char> {
    Seq::new(s.len(), |i: int| lower_char(s[i]))
}

/// Whether the quotes can be taken off a text: where it starts with a quote
/// and has a second byte, its last byte starts a character.
pub open spec fn strippable(b: Seq<u8>) -> bool {
    b.len() >= 2 && b[0] == 0x22 ==> is_char_boundary(b, b.len() - 1)
}

/// `quoted_string::ContentChars`: an iterator over the characters of the
/// content of a quoted string. Nothing is known of what is inside it but
/// the characters that it yields.
#[verifier::external_type_specification]
#[verifier::external_body]
pub struct ExContentChars<'a>(quoted_string::ContentChars<'a>);

/// The characters that a `ContentChars` yields, from first to last.
pub uninterp spec fn yielded(c: quoted_string::ContentChars) -> Seq<char>;

/// `ContentChars::from_string_unchecked`: an iterator over the content of a
/// quoted string, or of one whose quotes were taken off already. It cuts the
/// first and the last byte off a text that starts with a quote, which
/// panics where the last byte does not start a character; the characters it
/// then yields are those of the rest, each backslash dropped and the
/// character behind it kept.
#[verifier::external_body]
pub(crate) fn content_chars<'a>(quoted: &'a str) -> (r: quoted_string::ContentChars<'a>)
    requires
        strippable(quoted.spec_bytes()),
    ensures
        yielded(r) == content(quoted@),
{
    quoted_string::ContentChars::from_string_unchecked(quoted)
}

/// `ContentChars == ContentChars`: whether both yield the same characters.
#[verifier::external_body]
pub(crate) fn content_eq(
    left: &quoted_string::ContentChars,
    right: &quoted_string::ContentChars,
) -> (r: bool)
    ensures
        r == (yielded(*left) == yielded(*right)),
{
    left == right
}

/// `ContentChars::eq_ignore_ascii_case` with a `ContentChars`: whether both
/// yield the same characters, up to ASCII case.
#[verifier::external_body]
pub(crate) fn content_eq_ignore_ascii_case(
    left: &quoted_string::ContentChars,
    right: &quoted_string::ContentChars,
) -> (r: bool)
    ensures
        r == (lower_chars(yielded(*left)) == lower_chars(yielded(*right))),
{
    quoted_string::AsciiCaseInsensitiveEq::eq_ignore_ascii_case(left, right)
}

/// `ContentChars == str`: whether the characters yielded are those of the
/// string.
#[verifier::external_body]
pub(crate) fn content_eq_str(left: &quoted_string::ContentChars, right: &str) -> (r: bool)
    ensures
        r == (yielded(*left) == right@),
{
    left == right
}

/// `ContentChars::eq_ignore_ascii_case` with a `str`: whether the
/// characters yielded are those of the string, up to ASCII case.
#[verifier::external_body]
pub(crate) fn content_eq_str_ignore_ascii_case(
    left: &quoted_string::ContentChars,
    right: &str,
) -> (r: bool)
    ensures
        r == (lower_chars(yielded(*left)) == lower_chars(right@)),
{
    quoted_string::AsciiCaseInsensitiveEq::eq_ignore_ascii_case(left, right)
}

/// `quoted_string::unquote_unchecked`: the content of a quoted string, as
/// a string of its own where a quoted pair had to be replaced; a text that
/// does not start with a quote is handed back as it is. It cuts as
/// `ContentChars::from_string_unchecked` does.
#[verifier::external_body]
pub(crate) fn unquote<'a>(quoted: &'a str) -> (r: std::borrow::Cow<'a, str>)
    requires
        strippable(quoted.spec_bytes()),
    ensures
        r@ == unquoted(quoted@),
{
    quoted_string::unquote_unchecked(quoted)
}

} // verus!
