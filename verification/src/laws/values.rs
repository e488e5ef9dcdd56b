//! The equality of parameter values that are tokens.
use crate::mime_parse::constants::names::CHARSET;
use crate::mime_parse::grammar::{is_token_byte, lit};
use crate::mime_parse::text::{eq_ignore_case, lower, lower_seq};
use crate::quoted::{content, lower_char, lower_chars, strip_quotes, unescape};
use crate::value::value_of;
use vstd::prelude::*;
use vstd::utf8::{
    decode_utf8, encode_utf8, encode_utf8_decode_utf8, is_ascii_chars, is_ascii_chars_encode_utf8,
};

verus! {

/// Whether a value is a token: token bytes only.
pub open spec fn is_token_text(b: Seq<u8>) -> bool {
    forall|i: int| 0 <= i < b.len() ==> is_token_byte(#[trigger] b[i])
}

/// The characters of ASCII bytes.
pub open spec fn ascii_chars(b: Seq<u8>) -> Seq<char> {
    Seq::new(b.len(), |i: int| b[i] as char)
}

/// ASCII bytes are the text of their characters.
pub proof fn lemma_decode_ascii(b: Seq<u8>)
    requires
        forall|i: int| 0 <= i < b.len() ==> #[trigger] b[i] < 0x80,
    ensures
        decode_utf8(b) == ascii_chars(b),
{
    let c = ascii_chars(b);
    assert(is_ascii_chars(c)) by {
        assert forall|i: int| 0 <= i < c.len() implies '\0' <= #[trigger] c[i] <= '\u{7f}' by {
            assert(b[i] < 0x80);
        }
    }
    is_ascii_chars_encode_utf8(c);
    assert(encode_utf8(c) =~= b) by {
        assert forall|i: int| 0 <= i < b.len() implies encode_utf8(c)[i] == b[i] by {
            assert(c[i] as u8 == encode_utf8(c)[i]);
            assert(b[i] < 0x80);
        }
    }
    encode_utf8_decode_utf8(c);
}

/// A text without backslash holds no quoted pair.
pub proof fn lemma_unescape_plain(c: Seq<char>)
    requires
        forall|i: int| 0 <= i < c.len() ==> #[trigger] c[i] != '\\',
    ensures
        unescape(c) == c,
    decreases c.len(),
{
    if c.len() > 0 {
        assert(c[0] != '\\');
        let rest = c.skip(1);
        assert forall|i: int| 0 <= i < rest.len() implies #[trigger] rest[i] != '\\' by {
            assert(rest[i] == c[i + 1]);
        }
        lemma_unescape_plain(rest);
        assert(seq![c[0]] + rest =~= c);
    } else {
        assert(unescape(c) =~= c);
    }
}

/// The content of a token is the token.
pub proof fn lemma_token_content(b: Seq<u8>)
    requires
        is_token_text(b),
    ensures
        content(decode_utf8(b)) == ascii_chars(b),
{
    let c = ascii_chars(b);
    assert forall|i: int| 0 <= i < b.len() implies #[trigger] b[i] < 0x80 by {
        assert(is_token_byte(b[i]));
    }
    lemma_decode_ascii(b);
    assert forall|i: int| 0 <= i < c.len() implies #[trigger] c[i] != '\\' && c[i] != '"' by {
        assert(is_token_byte(b[i]));
    }
    if c.len() > 0 {
        assert(c[0] != '"');
    }
    assert(strip_quotes(c) == c);
    lemma_unescape_plain(c);
}

/// Value case: two values of one name that are tokens are equal exactly if
/// they are the same bytes; under the name `charset`, exactly if they are
/// the same up to ASCII case.
pub proof fn law_token_values(name: Seq<u8>, x: Seq<u8>, y: Seq<u8>)
    requires
        is_token_text(x),
        is_token_text(y),
    ensures
        value_of((name, x)).eq_value(value_of((name, y))) == if name == lit(CHARSET) {
            eq_ignore_case(x, y)
        } else {
            x == y
        },
{
    lemma_token_content(x);
    lemma_token_content(y);
    let cx = ascii_chars(x);
    let cy = ascii_chars(y);
    if name == lit(CHARSET) {
        if lower_chars(cx) == lower_chars(cy) {
            assert(lower_chars(cx).len() == lower_chars(cy).len());
            assert forall|i: int| 0 <= i < x.len() implies lower(x[i]) == lower(y[i]) by {
                assert(is_token_byte(x[i]) && is_token_byte(y[i]));
                assert(lower_chars(cx)[i] == lower_chars(cy)[i]);
                lemma_lower_char(x[i]);
                lemma_lower_char(y[i]);
            }
            assert(lower_seq(x) =~= lower_seq(y));
        }
        if lower_seq(x) == lower_seq(y) {
            assert(lower_seq(x).len() == lower_seq(y).len());
            assert forall|i: int| 0 <= i < cx.len() implies lower_char(cx[i]) == lower_char(
                cy[i],
            ) by {
                assert(is_token_byte(x[i]) && is_token_byte(y[i]));
                assert(lower_seq(x)[i] == lower_seq(y)[i]);
                lemma_lower_char(x[i]);
                lemma_lower_char(y[i]);
            }
            assert(lower_chars(cx) =~= lower_chars(cy));
        }
    } else {
        if cx == cy {
            assert(cx.len() == cy.len());
            assert forall|i: int| 0 <= i < x.len() implies x[i] == y[i] by {
                assert(cx[i] == cy[i]);
            }
            assert(x =~= y);
        }
    }
}

/// Folding an ASCII byte folds its character.
proof fn lemma_lower_char(b: u8)
    requires
        b < 0x80,
    ensures
        lower_char(b as char) == lower(b) as char,
{
}

} // verus!
