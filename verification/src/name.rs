//! Names of types, subtypes and parameters.
use crate::mime_parse::text::{bytes_eq, bytes_eq_ignore_case, eq_ignore_case, string_bytes};
use vstd::prelude::*;
use vstd::std_specs::cmp::PartialEqSpecImpl;
use vstd::std_specs::convert::FromSpecImpl;
use vstd::string::StringSliceAdditionalSpecFns;

verus! {

/// A name section of a `Mime`.
///
/// For instance, for the Mime `image/svg+xml`, it contains 3 `Name`s,
/// `image`, `svg`, and `xml`.
///
/// A `Name` is compared with a string case insensitive.
#[derive(Clone, Copy, Debug, PartialOrd, Ord, Hash)]
pub struct Name<'a> {
    /// The underlying str slice. Two names are equal if their slices are,
    /// byte for byte, so names that are to be compared are kept in lower
    /// case.
    pub(crate) source: &'a str,
}

impl<'a> View for Name<'a> {
    type V = Seq<u8>;

    /// The bytes of the name.
    closed spec fn view(&self) -> Seq<u8> {
        self.source.spec_bytes()
    }
}

impl<'a> Name<'a> {
    /// The string slice behind the name.
    pub closed spec fn text(self) -> &'a str {
        self.source
    }

    /// The string slice behind the name holds the bytes of the name.
    pub proof fn lemma_text(self)
        ensures
            self.text().spec_bytes() == self@,
    {
    }

    /// The name that a string slice holds.
    pub fn new(source: &'a str) -> (r: Self)
        ensures
            r@ == source.spec_bytes(),
    {
        Name { source }
    }

    /// Get the value of this `Name` as a string.
    ///
    /// Note that the borrow is not tied to `&self` but the `'a` lifetime,
    /// allowing the string to outlive `Name`.
    pub fn as_str(&self) -> (r: &'a str)
        ensures
            r.spec_bytes() == self@,
    {
        self.source
    }

    /// The name as an owned string.
    pub fn to_string(&self) -> (r: String)
        ensures
            string_bytes(&r) == self@,
    {
        self.source.to_owned()
    }
}

impl<'a> AsRef<str> for Name<'a> {
    /// The name as a string slice.
    fn as_ref(&self) -> (r: &str)
        ensures
            r.spec_bytes() == self@,
    {
        self.source
    }
}

impl<'a> From<Name<'a>> for &'a str {
    fn from(name: Name<'a>) -> (r: &'a str) {
        name.source
    }
}

impl<'a> FromSpecImpl<Name<'a>> for &'a str {
    open spec fn obeys_from_spec() -> bool {
        true
    }

    open spec fn from_spec(name: Name<'a>) -> &'a str {
        name.text()
    }
}

impl<'a> PartialEq for Name<'a> {
    fn eq(&self, other: &Name<'a>) -> (r: bool) {
        bytes_eq(self.source.as_bytes(), other.source.as_bytes())
    }
}

impl<'a> PartialEqSpecImpl for Name<'a> {
    open spec fn obeys_eq_spec() -> bool {
        true
    }

    open spec fn eq_spec(&self, other: &Name<'a>) -> bool {
        self@ == other@
    }
}

impl<'a> Eq for Name<'a> {

}

impl<'a> PartialEq<str> for Name<'a> {
    fn eq(&self, other: &str) -> (r: bool) {
        bytes_eq_ignore_case(self.source.as_bytes(), other.as_bytes())
    }
}

impl<'a> PartialEqSpecImpl<str> for Name<'a> {
    open spec fn obeys_eq_spec() -> bool {
        true
    }

    open spec fn eq_spec(&self, other: &str) -> bool {
        eq_ignore_case(self@, other.spec_bytes())
    }
}

impl<'a, 'b> PartialEq<&'b str> for Name<'a> {
    fn eq(&self, other: &&'b str) -> (r: bool) {
        bytes_eq_ignore_case(self.source.as_bytes(), other.as_bytes())
    }
}

impl<'a, 'b> PartialEqSpecImpl<&'b str> for Name<'a> {
    open spec fn obeys_eq_spec() -> bool {
        true
    }

    open spec fn eq_spec(&self, other: &&'b str) -> bool {
        eq_ignore_case(self@, other.spec_bytes())
    }
}

impl<'a> PartialEq<Name<'a>> for str {
    fn eq(&self, other: &Name<'a>) -> (r: bool) {
        bytes_eq_ignore_case(other.source.as_bytes(), self.as_bytes())
    }
}

impl<'a> PartialEqSpecImpl<Name<'a>> for str {
    open spec fn obeys_eq_spec() -> bool {
        true
    }

    open spec fn eq_spec(&self, other: &Name<'a>) -> bool {
        eq_ignore_case(other@, self.spec_bytes())
    }
}

impl<'a, 'b> PartialEq<Name<'a>> for &'b str {
    fn eq(&self, other: &Name<'a>) -> (r: bool) {
        bytes_eq_ignore_case(other.source.as_bytes(), self.as_bytes())
    }
}

impl<'a, 'b> PartialEqSpecImpl<Name<'a>> for &'b str {
    open spec fn obeys_eq_spec() -> bool {
        true
    }

    open spec fn eq_spec(&self, other: &Name<'a>) -> bool {
        eq_ignore_case(other@, self.spec_bytes())
    }
}

} // verus!
