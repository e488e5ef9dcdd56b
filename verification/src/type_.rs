//! Exact media types.
use crate::cmp::{mime_eq, mime_eq_spec, str_eq, str_eq_spec};
use crate::error::InvalidMime;
use crate::mime_parse::grammar::parse_spec;
use crate::mime_parse::text::string_bytes;
use crate::mime_parse::{Mime, MimeView, Parse, ParseError, Parser};
use crate::value::{find_value, value_of, Value};
use std::str::FromStr;
use vstd::prelude::*;
use vstd::std_specs::cmp::PartialEqSpecImpl;
use vstd::string::StringSliceAdditionalSpecFns;

verus! {

/// A parsed media type (or "MIME").
///
/// A `MediaType` represents an exact format type. The HTTP `Accept` header
/// can include "media ranges", which can match multiple media types. Those
/// "media ranges" should be represented as `MediaRange`.
#[derive(Debug)]
pub struct MediaType {
    pub(crate) mime: Mime,
}

impl View for MediaType {
    type V = MimeView;

    closed spec fn view(&self) -> MimeView {
        self.mime@
    }
}

impl Clone for MediaType {
    fn clone(&self) -> (r: Self)
        ensures
            r@ == self@,
    {
        MediaType { mime: self.mime.clone() }
    }
}

/// Whether a result is the one that the grammar gives for an exact type.
pub open spec fn type_parsed_as(
    r: Result<MediaType, InvalidMime>,
    spec: Result<MimeView, ParseError>,
) -> bool {
    match spec {
        Ok(v) => r matches Ok(m) && m@ == v,
        Err(e) => r matches Err(x) && x.cause() == e,
    }
}

impl MediaType {
    /// The parsed value behind the media type.
    pub closed spec fn mime(&self) -> Mime {
        self.mime
    }

    /// The value of a media type is that of the parsed value behind it.
    pub proof fn lemma_mime(&self)
        ensures
            self.mime()@ == self@,
    {
    }

    /// The parsed value behind the media type.
    pub(crate) fn into_mime(self) -> (r: Mime)
        ensures
            r == self.mime(),
    {
        self.mime
    }

    /// The media type that a parsed value stands for.
    pub(crate) fn of_mime(mime: Mime) -> (r: Self)
        ensures
            r@ == mime@,
    {
        MediaType { mime }
    }

    /// The media type that a parsed value stands for: one that was parsed
    /// as an exact type.
    pub fn private_from_proc_macro(mime: Mime) -> (r: Self)
        ensures
            r@ == mime@,
    {
        MediaType { mime }
    }

    /// Parse a string as a `MediaType`.
    ///
    /// # Errors
    ///
    /// Returns an error if the source is not a valid media type.
    pub fn parse<P: Parse>(source: P) -> (r: Result<Self, InvalidMime>)
        ensures
            type_parsed_as(r, parse_spec(source.text(), false)),
    {
        match Parser::cannot_range().parse(source) {
            Ok(mime) => Ok(MediaType { mime }),
            Err(e) => Err(InvalidMime::new(e)),
        }
    }

    /// Get the top level media type for this `MediaType`.
    pub fn type_(&self) -> (r: &str)
        ensures
            r.spec_bytes() == self@.type_(),
    {
        self.mime.type_()
    }

    /// Get the subtype of this `MediaType`.
    pub fn subtype(&self) -> (r: &str)
        ensures
            r.spec_bytes() == self@.subtype(),
    {
        self.mime.subtype()
    }

    /// Get an optional +suffix for this `MediaType`.
    pub fn suffix(&self) -> (r: Option<&str>)
        ensures
            match self@.suffix() {
                Some(x) => r matches Some(y) && y.spec_bytes() == x,
                None => r is None,
            },
    {
        self.mime.suffix()
    }

    /// Look up a parameter by name.
    pub fn param<'a>(&'a self, attr: &str) -> (r: Option<Value<'a>>)
        ensures
            match find_value(self@.params(), attr.spec_bytes(), 0) {
                Some(v) => r matches Some(x) && x@ == v,
                None => r is None,
            },
    {
        crate::value::param(&self.mime, attr)
    }

    /// Returns the parameters, in the order of the text.
    pub fn params(&self) -> (r: Vec<(&str, Value<'_>)>)
        ensures
            r@.len() == self@.params().len(),
            forall|i: int|
                0 <= i < r@.len() ==> (#[trigger] r@[i]).0.spec_bytes() == self@.params()[i].0
                    && r@[i].1@ == value_of(self@.params()[i]),
    {
        crate::value::params(&self.mime)
    }

    /// Returns true if the media type has at last one parameter.
    pub fn has_params(&self) -> (r: bool)
        ensures
            r == self@.has_params(),
    {
        self.mime.has_params()
    }

    /// Transforms the media type into its non-parametrized form.
    pub fn without_params(self) -> (r: Self)
        ensures
            r@ == self@.without_params(),
    {
        MediaType { mime: self.mime.without_params() }
    }

    /// The whole text, as an owned string.
    pub fn to_string(&self) -> (r: String)
        ensures
            string_bytes(&r) == self@.bytes,
    {
        self.mime.to_string()
    }
}

impl PartialEq for MediaType {
    fn eq(&self, other: &MediaType) -> (r: bool) {
        mime_eq(&self.mime, &other.mime)
    }
}

impl PartialEqSpecImpl for MediaType {
    open spec fn obeys_eq_spec() -> bool {
        true
    }

    open spec fn eq_spec(&self, other: &MediaType) -> bool {
        mime_eq_spec(self@, other@)
    }
}

impl PartialEq<str> for MediaType {
    fn eq(&self, s: &str) -> (r: bool) {
        str_eq(&self.mime, s, false)
    }
}

impl PartialEqSpecImpl<str> for MediaType {
    open spec fn obeys_eq_spec() -> bool {
        true
    }

    open spec fn eq_spec(&self, s: &str) -> bool {
        str_eq_spec(self@, s.spec_bytes(), false)
    }
}

impl<'a> PartialEq<&'a str> for MediaType {
    fn eq(&self, s: &&'a str) -> (r: bool) {
        str_eq(&self.mime, *s, false)
    }
}

impl<'a> PartialEqSpecImpl<&'a str> for MediaType {
    open spec fn obeys_eq_spec() -> bool {
        true
    }

    open spec fn eq_spec(&self, s: &&'a str) -> bool {
        str_eq_spec(self@, s.spec_bytes(), false)
    }
}

impl<'a> PartialEq<MediaType> for &'a str {
    fn eq(&self, mt: &MediaType) -> (r: bool) {
        str_eq(&mt.mime, *self, false)
    }
}

impl<'a> PartialEqSpecImpl<MediaType> for &'a str {
    open spec fn obeys_eq_spec() -> bool {
        true
    }

    open spec fn eq_spec(&self, mt: &MediaType) -> bool {
        str_eq_spec(mt@, self.spec_bytes(), false)
    }
}

impl PartialEq<MediaType> for str {
    fn eq(&self, mt: &MediaType) -> (r: bool) {
        str_eq(&mt.mime, self, false)
    }
}

impl PartialEqSpecImpl<MediaType> for str {
    open spec fn obeys_eq_spec() -> bool {
        true
    }

    open spec fn eq_spec(&self, mt: &MediaType) -> bool {
        str_eq_spec(mt@, self.spec_bytes(), false)
    }
}

impl AsRef<str> for MediaType {
    /// The whole text.
    fn as_ref(&self) -> (r: &str)
        ensures
            r.spec_bytes() == self@.bytes,
    {
        self.mime.as_ref()
    }
}

impl FromStr for MediaType {
    type Err = InvalidMime;

    fn from_str(s: &str) -> (r: Result<MediaType, InvalidMime>)
        ensures
            type_parsed_as(r, parse_spec(s.spec_bytes(), false)),
    {
        MediaType::parse(s)
    }
}

} // verus!
