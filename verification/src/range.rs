//! Media ranges.
use crate::cmp::{mime_eq, mime_eq_spec, str_eq, str_eq_spec};
use crate::error::InvalidMime;
use crate::mime_parse::constants::names::STAR;
use crate::mime_parse::grammar::{lit, parse_spec};
use crate::mime_parse::text::{bytes_eq, string_bytes};
use crate::mime_parse::{Mime, MimeView, Parse, ParseError, Parser};
use crate::type_::MediaType;
use crate::value::{find_value, value_of, Value};
use std::str::FromStr;
use vstd::prelude::*;
use vstd::std_specs::cmp::PartialEqSpecImpl;
use vstd::std_specs::convert::FromSpecImpl;
use vstd::string::StringSliceAdditionalSpecFns;

verus! {

/// A parsed media range used to match media types.
///
/// Commonly found in the HTTP `Accept` header, these are used for agents
/// to indicate general classes of content that they can understand.
#[derive(Debug)]
pub struct MediaRange {
    pub(crate) mime: Mime,
}

impl View for MediaRange {
    type V = MimeView;

    closed spec fn view(&self) -> MimeView {
        self.mime@
    }
}

impl Clone for MediaRange {
    fn clone(&self) -> (r: Self)
        ensures
            r@ == self@,
    {
        MediaRange { mime: self.mime.clone() }
    }
}

/// Whether a result is the one that the grammar gives for a range.
pub open spec fn range_parsed_as(
    r: Result<MediaRange, InvalidMime>,
    spec: Result<MimeView, ParseError>,
) -> bool {
    match spec {
        Ok(v) => r matches Ok(m) && m@ == v,
        Err(e) => r matches Err(x) && x.cause() == e,
    }
}

/// Whether `b` has a parameter of the name of `p`, byte for byte, and the
/// first one of that name has a value equal to that of `p`.
pub open spec fn has_param(b: MimeView, p: (Seq<u8>, Seq<u8>)) -> bool {
    match find_value(b.params(), p.0, 0) {
        Some(v) => v.eq_value(value_of(p)),
        None => false,
    }
}

/// Whether a media type has every parameter of a range, but for `q`, with an
/// equal value.
pub open spec fn matches_params_spec(range: MimeView, mt: MimeView) -> bool {
    forall|i: int|
        0 <= i < range.params().len() ==> (#[trigger] range.params()[i]).0 == lit("q")
            || has_param(mt, range.params()[i])
}

/// Whether a range matches a media type: the type is `*` or that of the
/// media type, byte for byte; so is the subtype; and the media type has the
/// parameters of the range.
pub open spec fn matches_spec(range: MimeView, mt: MimeView) -> bool {
    &&& range.type_() == lit(STAR) || (range.type_() == mt.type_() && (range.subtype() == lit(STAR)
        || range.subtype() == mt.subtype()))
    &&& matches_params_spec(range, mt)
}

impl MediaRange {
    /// The range that a parsed value stands for.
    pub(crate) fn of_mime(mime: Mime) -> (r: Self)
        ensures
            r@ == mime@,
    {
        MediaRange { mime }
    }

    /// Parse a string as a `MediaRange`.
    ///
    /// # Errors
    ///
    /// Returns an error if the source is not a valid media range.
    pub fn parse<P: Parse>(source: P) -> (r: Result<Self, InvalidMime>)
        ensures
            range_parsed_as(r, parse_spec(source.text(), true)),
    {
        match Parser::can_range().parse(source) {
            Ok(mime) => Ok(MediaRange { mime }),
            Err(e) => Err(InvalidMime::new(e)),
        }
    }

    /// Get the top level media type for this `MediaRange`.
    pub fn type_(&self) -> (r: &str)
        ensures
            r.spec_bytes() == self@.type_(),
    {
        self.mime.type_()
    }

    /// Get the subtype of this `MediaRange`.
    pub fn subtype(&self) -> (r: &str)
        ensures
            r.spec_bytes() == self@.subtype(),
    {
        self.mime.subtype()
    }

    /// Get an optional +suffix for this `MediaRange`.
    pub fn suffix(&self) -> (r: Option<&str>)
        ensures
            match self@.suffix() {
                Some(x) => r matches Some(y) && y.spec_bytes() == x,
                None => r is None,
            },
    {
        self.mime.suffix()
    }

    /// Checks if this `MediaRange` matches a specific `MediaType`.
    pub fn matches(&self, mt: &MediaType) -> (r: bool)
        ensures
            r == matches_spec(self@, mt@),
    {
        let type_ = self.type_();

        if bytes_eq(type_.as_bytes(), STAR.as_bytes()) {
            return self.matches_params(mt);
        }
        if !bytes_eq(type_.as_bytes(), mt.type_().as_bytes()) {
            return false;
        }
        let subtype = self.subtype();

        if bytes_eq(subtype.as_bytes(), STAR.as_bytes()) {
            return self.matches_params(mt);
        }
        if !bytes_eq(subtype.as_bytes(), mt.subtype().as_bytes()) {
            return false;
        }
        // type and subtype are the same, last thing to do is check
        // that the MediaType contains all this range's parameters...

        self.matches_params(mt)
    }

    fn matches_params(&self, mt: &MediaType) -> (r: bool)
        ensures
            r == matches_params_spec(self@, mt@),
    {
        let ps = self.params();
        let mut i: usize = 0;
        while i < ps.len()
            invariant
                i <= ps@.len(),
                ps@.len() == self@.params().len(),
                forall|k: int|
                    0 <= k < ps@.len() ==> (#[trigger] ps@[k]).0.spec_bytes()
                        == self@.params()[k].0 && ps@[k].1@ == value_of(self@.params()[k]),
                forall|k: int|
                    0 <= k < i ==> (#[trigger] self@.params()[k]).0 == lit("q") || has_param(
                        mt@,
                        self@.params()[k],
                    ),
            decreases ps@.len() - i,
        {
            let (name, value) = ps[i];
            if !bytes_eq(name.as_bytes(), "q".as_bytes()) {
                let ghost p = self@.params()[i as int];
                match mt.param(name) {
                    Some(found) => {
                        if !found.eq_value(&value) {
                            assert(!(p.0 == lit("q") || has_param(mt@, p)));
                            return false;
                        }
                    },
                    None => {
                        assert(!(p.0 == lit("q") || has_param(mt@, p)));
                        return false;
                    },
                }
            }
            i += 1;
        }
        true
    }

    /// Look up a parameter by name.
    pub fn param<'a>(&'a self, attr: &str) -> (r: Option<Value<'a>>)
        ensures
            match find_value(self@.params(), attr.spec_bytes(), 0) {
                Some(v) => r matches Some(x) && x@ == v,
                None => r is None,
            },
    {
        crate::value::param(&self.mime, attr)
    }

    /// Returns the parameters, in the order of the text.
    pub fn params(&self) -> (r: Vec<(&str, Value<'_>)>)
        ensures
            r@.len() == self@.params().len(),
            forall|i: int|
                0 <= i < r@.len() ==> (#[trigger] r@[i]).0.spec_bytes() == self@.params()[i].0
                    && r@[i].1@ == value_of(self@.params()[i]),
    {
        crate::value::params(&self.mime)
    }

    /// Returns true if the media type has at last one parameter.
    pub fn has_params(&self) -> (r: bool)
        ensures
            r == self@.has_params(),
    {
        self.mime.has_params()
    }

    /// The whole text, as an owned string.
    pub fn to_string(&self) -> (r: String)
        ensures
            string_bytes(&r) == self@.bytes,
    {
        self.mime.to_string()
    }
}

/// Any `MediaType` can freely be a `MediaRange`.
impl From<MediaType> for MediaRange {
    fn from(mt: MediaType) -> (r: MediaRange) {
        MediaRange { mime: mt.into_mime() }
    }
}

impl FromSpecImpl<MediaType> for MediaRange {
    open spec fn obeys_from_spec() -> bool {
        true
    }

    open spec fn from_spec(mt: MediaType) -> MediaRange {
        MediaRange::of(mt)
    }
}

impl MediaRange {
    /// The range that matches one media type.
    pub closed spec fn of(mt: MediaType) -> MediaRange {
        MediaRange { mime: mt.mime() }
    }

    /// The range of a media type has its value.
    pub proof fn lemma_of(mt: MediaType)
        ensures
            MediaRange::of(mt)@ == mt@,
    {
        mt.lemma_mime();
    }
}

impl PartialEq for MediaRange {
    fn eq(&self, other: &MediaRange) -> (r: bool) {
        mime_eq(&self.mime, &other.mime)
    }
}

impl PartialEqSpecImpl for MediaRange {
    open spec fn obeys_eq_spec() -> bool {
        true
    }

    open spec fn eq_spec(&self, other: &MediaRange) -> bool {
        mime_eq_spec(self@, other@)
    }
}

impl PartialEq<str> for MediaRange {
    fn eq(&self, s: &str) -> (r: bool) {
        str_eq(&self.mime, s, true)
    }
}

impl PartialEqSpecImpl<str> for MediaRange {
    open spec fn obeys_eq_spec() -> bool {
        true
    }

    open spec fn eq_spec(&self, s: &str) -> bool {
        str_eq_spec(self@, s.spec_bytes(), true)
    }
}

impl<'a> PartialEq<&'a str> for MediaRange {
    fn eq(&self, s: &&'a str) -> (r: bool) {
        str_eq(&self.mime, *s, true)
    }
}

impl<'a> PartialEqSpecImpl<&'a str> for MediaRange {
    open spec fn obeys_eq_spec() -> bool {
        true
    }

    open spec fn eq_spec(&self, s: &&'a str) -> bool {
        str_eq_spec(self@, s.spec_bytes(), true)
    }
}

impl<'a> PartialEq<MediaRange> for &'a str {
    fn eq(&self, mr: &MediaRange) -> (r: bool) {
        str_eq(&mr.mime, *self, true)
    }
}

impl<'a> PartialEqSpecImpl<MediaRange> for &'a str {
    open spec fn obeys_eq_spec() -> bool {
        true
    }

    open spec fn eq_spec(&self, mr: &MediaRange) -> bool {
        str_eq_spec(mr@, self.spec_bytes(), true)
    }
}

impl PartialEq<MediaRange> for str {
    fn eq(&self, mr: &MediaRange) -> (r: bool) {
        str_eq(&mr.mime, self, true)
    }
}

impl PartialEqSpecImpl<MediaRange> for str {
    open spec fn obeys_eq_spec() -> bool {
        true
    }

    open spec fn eq_spec(&self, mr: &MediaRange) -> bool {
        str_eq_spec(mr@, self.spec_bytes(), true)
    }
}

impl AsRef<str> for MediaRange {
    /// The whole text.
    fn as_ref(&self) -> (r: &str)
        ensures
            r.spec_bytes() == self@.bytes,
    {
        self.mime.as_ref()
    }
}

impl FromStr for MediaRange {
    type Err = InvalidMime;

    fn from_str(s: &str) -> (r: Result<MediaRange, InvalidMime>)
        ensures
            range_parsed_as(r, parse_spec(s.spec_bytes(), true)),
    {
        MediaRange::parse(s)
    }
}

} // verus!
