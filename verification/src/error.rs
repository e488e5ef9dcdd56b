//! The error of this crate.
use crate::mime_parse::display::message;
use crate::mime_parse::ParseError;
use vstd::prelude::*;
use vstd::string::StringExecFns;

verus! {

/// An error type representing an invalid `MediaType` or `MediaRange`.
#[derive(Debug)]
pub struct InvalidMime {
    pub(crate) inner: ParseError,
}

impl InvalidMime {
    /// How the scan failed.
    pub closed spec fn cause(&self) -> ParseError {
        self.inner
    }

    /// The error for a failed scan.
    pub(crate) fn new(inner: ParseError) -> (r: Self)
        ensures
            r.cause() == inner,
    {
        InvalidMime { inner }
    }

    /// How the scan failed.
    pub fn parse_error(&self) -> (r: &ParseError)
        ensures
            *r == self.cause(),
    {
        &self.inner
    }

    /// The message of the error.
    pub fn to_string(&self) -> (r: String)
        ensures
            r@ == "invalid MIME: "@ + message(self.cause()),
    {
        let mut out = String::from_str("invalid MIME: ");
        out.append(self.inner.to_string().as_str());
        out
    }
}

} // verus!
