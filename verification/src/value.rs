//! Parameter values.
use crate::mime_parse::constants::names::CHARSET;
use crate::mime_parse::grammar::lit;
use crate::mime_parse::parsed::pair_ok;
use crate::mime_parse::text::{
    bytes_eq, bytes_eq_ignore_case, eq_ignore_case, lemma_ascii, lemma_cut_is_boundary,
};
use crate::mime_parse::{Mime, MimeView};
use crate::quoted::{
    content, content_chars, content_eq, content_eq_ignore_ascii_case, content_eq_str,
    content_eq_str_ignore_ascii_case, lower_chars, strippable, unquote, unquoted,
};
use std::borrow::Cow;
use vstd::prelude::*;
use vstd::std_specs::cmp::PartialEqSpecImpl;
use vstd::std_specs::convert::FromSpecImpl;
use vstd::string::StringSliceAdditionalSpecFns;
use vstd::utf8::{decode_utf8, encode_utf8, encode_utf8_decode_utf8, encode_utf8_valid_utf8};

verus! {

/// A parameter value section of a `MediaType` or `MediaRange`.
///
/// Except for the `charset` parameter, parameters are compared case-sensitive.
#[derive(Clone, Copy, Debug)]
pub struct Value<'a> {
    source: &'a str,
    ascii_case_insensitive: bool,
}

/// The mathematical value of a [`Value`].
pub ghost struct ValueView {
    /// The representation: the value as the text holds it, quotes and
    /// backslashes included.
    pub repr: Seq<char>,
    /// Whether the value is compared up to ASCII case.
    pub insensitive: bool,
}

impl ValueView {
    /// Whether the representation starts with a quote.
    pub open spec fn is_quoted(self) -> bool {
        self.repr.len() > 0 && self.repr[0] == '"'
    }

    /// Equality of two values: of their contents, up to ASCII case where
    /// one of the two is compared so.
    pub open spec fn eq_value(self, other: ValueView) -> bool {
        if self.insensitive || other.insensitive {
            lower_chars(content(self.repr)) == lower_chars(content(other.repr))
        } else {
            content(self.repr) == content(other.repr)
        }
    }

    /// Equality of a value and a text: a quoted value is equal to its
    /// content; any other value is equal to its representation.
    pub open spec fn eq_str(self, other: Seq<char>) -> bool {
        if self.is_quoted() {
            if self.insensitive {
                lower_chars(content(self.repr)) == lower_chars(other)
            } else {
                content(self.repr) == other
            }
        } else if self.insensitive {
            eq_ignore_case(encode_utf8(self.repr), encode_utf8(other))
        } else {
            self.repr == other
        }
    }
}

/// The value of a parameter: its bytes as characters, compared up to ASCII
/// case where the name is `charset`.
pub open spec fn value_of(p: (Seq<u8>, Seq<u8>)) -> ValueView {
    ValueView { repr: decode_utf8(p.1), insensitive: p.0 == lit(CHARSET) }
}

/// The value of the first parameter from index `from` on with the given
/// name.
pub open spec fn find_value(ps: Seq<(Seq<u8>, Seq<u8>)>, name: Seq<u8>, from: int) -> Option<
    ValueView,
>
    decreases ps.len() - from,
{
    if from < 0 || from >= ps.len() {
        None
    } else if ps[from].0 == name {
        Some(value_of(ps[from]))
    } else {
        find_value(ps, name, from + 1)
    }
}

/// A value whose quotes can be taken off: one that starts with a quote ends
/// with an ASCII byte.
pub open spec fn quote_closed(b: Seq<u8>) -> bool {
    b.len() >= 2 && b[0] == 0x22 ==> b[b.len() - 1] < 0x80
}

/// The values of a well-formed media type can have their quotes taken off.
pub proof fn lemma_values_closed(v: MimeView)
    requires
        v.wf(),
    ensures
        forall|i: int| 0 <= i < v.params().len() ==> quote_closed(#[trigger] v.params()[i].1),
{
    reveal_strlit("utf-8");
    lemma_ascii("utf-8");
    assert forall|i: int| 0 <= i < v.params().len() implies quote_closed(
        #[trigger] v.params()[i].1,
    ) by {
        if !(v.params is Utf8) {
            assert(pair_ok(v.bytes, v.end(), v.params.pairs()[i]));
        }
    }
}

/// The parameters of a media type with their values, in the order of the
/// text.
pub fn params(mime: &Mime) -> (r: Vec<(&str, Value<'_>)>)
    ensures
        r@.len() == mime@.params().len(),
        forall|i: int|
            0 <= i < r@.len() ==> (#[trigger] r@[i]).0.spec_bytes() == mime@.params()[i].0
                && r@[i].1@ == value_of(mime@.params()[i]),
{
    let mut it = mime.params();
    let mut out: Vec<(&str, Value<'_>)> = Vec::new();
    let ghost all = mime@.params();
    proof {
        use_type_invariant(mime);
        lemma_values_closed(mime@);
    }
    loop
        invariant
            all == mime@.params(),
            out@.len() <= all.len(),
            it@ == all.skip(out@.len() as int),
            forall|i: int| 0 <= i < all.len() ==> quote_closed(#[trigger] all[i].1),
            forall|i: int|
                0 <= i < out@.len() ==> (#[trigger] out@[i]).0.spec_bytes() == all[i].0
                    && out@[i].1@ == value_of(all[i]),
        ensures
            out@.len() == all.len(),
        decreases all.len() - out@.len(),
    {
        match it.next() {
            Some((name, value)) => {
                proof {
                    let k = out@.len() as int;
                    assert(all.skip(k).len() > 0);
                    assert(all.skip(k)[0] == all[k]);
                    assert(all.skip(k).drop_first() =~= all.skip(k + 1));
                    assert(value.spec_bytes() == all[k].1);
                    assert(quote_closed(all[k].1));
                    lemma_closed_strippable(value);
                    encode_utf8_decode_utf8(value@);
                }
                out.push((name, Value::new(value).for_name(name)));
            },
            None => {
                break;
            },
        }
    }
    out
}

/// The value of the first parameter of a media type whose name is `key`,
/// byte for byte.
pub fn param<'a>(mime: &'a Mime, key: &str) -> (r: Option<Value<'a>>)
    ensures
        match find_value(mime@.params(), key.spec_bytes(), 0) {
            Some(v) => r matches Some(x) && x@ == v,
            None => r is None,
        },
{
    let mut it = mime.params();
    let ghost all = mime@.params();
    let ghost mut k: int = 0;
    proof {
        use_type_invariant(mime);
        lemma_values_closed(mime@);
    }
    loop
        invariant
            all == mime@.params(),
            0 <= k <= all.len(),
            it@ == all.skip(k),
            forall|i: int| 0 <= i < all.len() ==> quote_closed(#[trigger] all[i].1),
            find_value(all, key.spec_bytes(), 0) == find_value(all, key.spec_bytes(), k),
        decreases all.len() - k,
    {
        match it.next() {
            Some((name, value)) => {
                proof {
                    assert(all.skip(k)[0] == all[k]);
                    assert(all.skip(k).drop_first() =~= all.skip(k + 1));
                }
                if bytes_eq(key.as_bytes(), name.as_bytes()) {
                    proof {
                        lemma_closed_strippable(value);
                        encode_utf8_decode_utf8(value@);
                    }
                    return Some(Value::new(value).for_name(name));
                }
                proof {
                    k = k + 1;
                }
            },
            None => {
                return None;
            },
        }
    }
}

/// A text that ends with an ASCII byte can have its quotes taken off.
pub proof fn lemma_closed_strippable(s: &str)
    requires
        quote_closed(s.spec_bytes()),
    ensures
        strippable(s.spec_bytes()),
{
    let b = s.spec_bytes();
    if b.len() >= 2 && b[0] == 0x22 {
        encode_utf8_valid_utf8(s@);
        lemma_cut_is_boundary(b, b.len() - 1);
    }
}

/// A `Value` usable for a charset parameter: `utf-8`, compared up to ASCII
/// case.
pub fn utf_8() -> (r: Value<'static>)
    ensures
        r@ == (ValueView { repr: "utf-8"@, insensitive: true }),
{
    proof {
        reveal_strlit("utf-8");
        lemma_ascii("utf-8");
    }
    Value { source: "utf-8", ascii_case_insensitive: true }
}

impl<'a> View for Value<'a> {
    type V = ValueView;

    closed spec fn view(&self) -> ValueView {
        ValueView { repr: self.source@, insensitive: self.ascii_case_insensitive }
    }
}

impl<'a> Value<'a> {
    #[verifier::type_invariant]
    closed spec fn inv(&self) -> bool {
        strippable(self.source.spec_bytes())
    }

    /// A value with the given representation, compared case-sensitive.
    pub fn new(source: &'a str) -> (r: Self)
        requires
            strippable(source.spec_bytes()),
        ensures
            r@ == (ValueView { repr: source@, insensitive: false }),
    {
        Value { source, ascii_case_insensitive: false }
    }

    /// A value with the given representation, compared case-sensitive, if
    /// the quotes can be taken off it: a text that starts with a quote and
    /// ends in the midst of a character is no value.
    pub fn try_new(source: &'a str) -> (r: Option<Self>)
        ensures
            r is Some == strippable(source.spec_bytes()),
            r matches Some(v) ==> v@ == (ValueView { repr: source@, insensitive: false }),
    {
        let b = source.as_bytes();
        if b.len() >= 2 && b[0] == 0x22 && !source.is_char_boundary(b.len() - 1) {
            None
        } else {
            Some(Value::new(source))
        }
    }

    /// The value as that of the parameter `name`: compared up to ASCII case
    /// if the name is `charset`.
    pub fn for_name(self, name: &str) -> (r: Self)
        ensures
            r@ == (ValueView { repr: self@.repr, insensitive: name.spec_bytes() == lit(CHARSET) }),
    {
        proof {
            use_type_invariant(&self);
        }
        Value {
            source: self.source,
            ascii_case_insensitive: bytes_eq(name.as_bytes(), CHARSET.as_bytes()),
        }
    }

    /// Returns the underlying representation.
    ///
    /// The underlying representation differs from the content,
    /// as it can contain quotes surrounding the content and
    /// quoted-pairs, even if non of them are necessary to
    /// represent the content.
    ///
    /// For example the representation `r#""a\"\ b""#` corresponds
    /// to the content `r#""a" b"#`. Another semantically  equivalent
    /// (i.e. with the same content) representation  is `r#""a\" b""`
    pub fn as_str_repr(&self) -> (r: &'a str)
        ensures
            r@ == self@.repr,
    {
        self.source
    }

    /// Returns the content of this instance.
    ///
    /// It differs to the representation in that it will remove the
    /// quotation marks from the quoted string and will "unquote"
    /// quoted pairs.
    pub fn to_content(&self) -> (r: Cow<'a, str>)
        ensures
            r@ == unquoted(self@.repr),
    {
        proof {
            use_type_invariant(self);
        }
        unquote(self.source)
    }

    /// The representation as an owned string.
    pub fn to_string(&self) -> (r: String)
        ensures
            r@ == self@.repr,
    {
        self.source.to_owned()
    }

    /// Whether the value is equal to a text: a quoted value by its content,
    /// any other value by its representation.
    pub fn eq_str(&self, other: &str) -> (r: bool)
        ensures
            r == self@.eq_str(other@),
    {
        proof {
            use_type_invariant(self);
            encode_utf8_decode_utf8(self.source@);
            encode_utf8_decode_utf8(other@);
        }
        if !self.source.is_empty() && self.source.get_char(0) == '"' {
            let content_chars = content_chars(self.source);
            if self.ascii_case_insensitive {
                content_eq_str_ignore_ascii_case(&content_chars, other)
            } else {
                content_eq_str(&content_chars, other)
            }
        } else if self.ascii_case_insensitive {
            bytes_eq_ignore_case(self.source.as_bytes(), other.as_bytes())
        } else {
            bytes_eq(self.source.as_bytes(), other.as_bytes())
        }
    }

    /// Whether two values are equal: by their contents, up to ASCII case
    /// where one of the two is compared so.
    pub fn eq_value(&self, other: &Value<'_>) -> (r: bool)
        ensures
            r == self@.eq_value(other@),
    {
        proof {
            use_type_invariant(self);
            use_type_invariant(other);
        }
        let left_content_chars = content_chars(self.source);
        let right_content_chars = content_chars(other.source);
        if self.ascii_case_insensitive || other.ascii_case_insensitive {
            content_eq_ignore_ascii_case(&left_content_chars, &right_content_chars)
        } else {
            content_eq(&left_content_chars, &right_content_chars)
        }
    }
}

impl<'a> From<Value<'a>> for Cow<'a, str> {
    /// The content of the value.
    fn from(value: Value<'a>) -> (r: Cow<'a, str>)
        ensures
            r@ == unquoted(value@.repr),
    {
        value.to_content()
    }
}

impl<'a> FromSpecImpl<Value<'a>> for Cow<'a, str> {
    /// Only the text of the result is stated, by `from` itself: two strings
    /// of one text need not be one value, so no value is given here.
    open spec fn obeys_from_spec() -> bool {
        false
    }

    open spec fn from_spec(value: Value<'a>) -> Cow<'a, str> {
        arbitrary()
    }
}

impl<'a, 'b> PartialEq<Value<'b>> for Value<'a> {
    fn eq(&self, other: &Value<'b>) -> (r: bool) {
        self.eq_value(other)
    }
}

impl<'a, 'b> PartialEqSpecImpl<Value<'b>> for Value<'a> {
    open spec fn obeys_eq_spec() -> bool {
        true
    }

    open spec fn eq_spec(&self, other: &Value<'b>) -> bool {
        self@.eq_value(other@)
    }
}

impl<'a> PartialEq<str> for Value<'a> {
    fn eq(&self, other: &str) -> (r: bool) {
        self.eq_str(other)
    }
}

impl<'a> PartialEqSpecImpl<str> for Value<'a> {
    open spec fn obeys_eq_spec() -> bool {
        true
    }

    open spec fn eq_spec(&self, other: &str) -> bool {
        self@.eq_str(other@)
    }
}

impl<'a, 'b> PartialEq<&'b str> for Value<'a> {
    fn eq(&self, other: &&'b str) -> (r: bool) {
        self.eq_str(*other)
    }
}

impl<'a, 'b> PartialEqSpecImpl<&'b str> for Value<'a> {
    open spec fn obeys_eq_spec() -> bool {
        true
    }

    open spec fn eq_spec(&self, other: &&'b str) -> bool {
        self@.eq_str(other@)
    }
}

impl<'a, 'b> PartialEq<Value<'b>> for &'a str {
    fn eq(&self, other: &Value<'b>) -> (r: bool) {
        other.eq_str(*self)
    }
}

impl<'a, 'b> PartialEqSpecImpl<Value<'b>> for &'a str {
    open spec fn obeys_eq_spec() -> bool {
        true
    }

    open spec fn eq_spec(&self, other: &Value<'b>) -> bool {
        other@.eq_str(self@)
    }
}

impl<'a> PartialEq<Value<'a>> for str {
    fn eq(&self, other: &Value<'a>) -> (r: bool) {
        other.eq_str(self)
    }
}

impl<'a> PartialEqSpecImpl<Value<'a>> for str {
    open spec fn obeys_eq_spec() -> bool {
        true
    }

    open spec fn eq_spec(&self, other: &Value<'a>) -> bool {
        other@.eq_str(self@)
    }
}

} // verus!
