//! What a text that can be parsed has to offer.
use vstd::prelude::*;
use vstd::string::StringSliceAdditionalSpecFns;

verus! {

/// A borrowed text.
pub trait Sealed {
    /// The bytes of the text.
    spec fn text(&self) -> Seq<u8>;

    /// The text as a string slice.
    fn as_str(&self) -> (r: &str)
        ensures
            r.spec_bytes() == self.text(),
    ;
}

} // verus!
