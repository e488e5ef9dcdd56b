//! Media types from string literals.
//!
//! A literal is parsed as an exact media type with at most one parameter.
use crate::mime_parse::display::message;
use crate::mime_parse::grammar::parse_spec;
use crate::mime_parse::{Mime, MimeView, ParamSource, ParseError, Parser};
use crate::type_::MediaType;
use vstd::prelude::*;
use vstd::string::{StringExecFns, StringSliceAdditionalSpecFns};

verus! {

/// Whether a result is the one that a literal is to give: the value that
/// the grammar gives for an exact type, if it has at most one parameter;
/// else a message that says why there is none.
pub open spec fn literal_as(r: Result<MimeView, String>, spec: Result<MimeView, ParseError>) -> bool {
    match spec {
        Ok(v) => if v.params.count() <= 1 {
            r matches Ok(m) && m == v
        } else {
            r matches Err(msg) && msg@ == "multiple parameters not supported yet"@
        },
        Err(e) => r matches Err(msg) && msg@ == "invalid MediaType: "@ + message(e),
    }
}

/// The views of the values in a result.
pub open spec fn mime_views(r: Result<Mime, String>) -> Result<MimeView, String> {
    match r {
        Ok(m) => Ok(m@),
        Err(e) => Err(e),
    }
}

/// The views of the values in a result.
pub open spec fn type_views(r: Result<MediaType, String>) -> Result<MimeView, String> {
    match r {
        Ok(m) => Ok(m@),
        Err(e) => Err(e),
    }
}

/// Parses a literal as an exact media type with at most one parameter.
pub fn parse_mime_lit(value: &str) -> (r: Result<Mime, String>)
    ensures
        literal_as(mime_views(r), parse_spec(value.spec_bytes(), false)),
{
    let mime = Parser::cannot_range().parse(value);

    match mime {
        Ok(mime) => {
            proof {
                use_type_invariant(&mime);
            }
            let few = match mime.private_params_source() {
                ParamSource::Empty => true,
                ParamSource::Utf8(_) => true,
                ParamSource::One(_, _) => true,
                _ => false,
            };
            if few {
                Ok(mime)
            } else {
                Err(String::from_str("multiple parameters not supported yet"))
            }
        },
        Err(err) => {
            let mut msg = String::from_str("invalid MediaType: ");
            msg.append(err.to_string().as_str());
            Err(msg)
        },
    }
}

/// The media type that a literal stands for.
pub fn media_type(value: &str) -> (r: Result<MediaType, String>)
    ensures
        literal_as(type_views(r), parse_spec(value.spec_bytes(), false)),
{
    match parse_mime_lit(value) {
        Ok(mime) => Ok(MediaType::private_from_proc_macro(mime)),
        Err(msg) => Err(msg),
    }
}

} // verus!
