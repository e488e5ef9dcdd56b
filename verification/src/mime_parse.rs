//! The parsed representation of a media type and the scanner that builds it.
//!
//! A [`Mime`] keeps the text it was parsed from (or the entry of the table of
//! well-known media types that the text names) together with the byte offsets
//! of its parts, so that the type, the subtype, the suffix and the parameters
//! are sub-slices of that text and nothing is parsed twice.
pub mod constants;
pub mod display;
pub mod grammar;
pub mod parsed;
pub mod rfc7231;
mod sealed;
pub mod text;
pub mod wellformed;

pub use parsed::{
    Byte, Indexed, IndexedPair, InternParams, Mime, MimeView, ParamShape, ParamSource, Params,
    Parse, ParseError, Parser, Source,
};
