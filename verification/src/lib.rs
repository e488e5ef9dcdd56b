//! Media types (MIME) and media ranges for HTTP contexts.
//!
//! A [`MediaType`] is a concrete description of some content, such as
//! `text/plain`; a [`MediaRange`] is a range of types that an agent is
//! willing to receive, such as `text/*`. Both are thin layers over the
//! parsed value of [`mime_parse`], whose scanner, interning table, accessors
//! and equality relation are stated as contracts over the bytes of the text.
use vstd::prelude::*;
use vstd::string::StringSliceAdditionalSpecFns;

pub mod cmp;
pub mod constants;
pub mod error;
pub mod laws;
pub mod literal;
pub mod mime_parse;
pub mod name;
pub mod parse;
pub mod quoted;
pub mod range;
pub mod type_;
pub mod value;

pub use self::constants::{
    text_plain, text_plain_utf_8, text_html, text_html_utf_8, text_css, text_css_utf_8,
    text_javascript, text_xml, text_event_stream, text_csv, text_csv_utf_8,
    text_tab_separated_values, text_tab_separated_values_utf_8, text_vcard, image_jpeg,
    image_gif, image_png, image_bmp, image_svg, font_woff, font_woff2, application_json,
    application_javascript, application_javascript_utf_8, application_www_form_urlencoded,
    application_octet_stream, application_msgpack, application_pdf, application_dns, star_star,
    text_star, image_star, video_star, audio_star,
};
pub use self::error::InvalidMime;
pub use self::literal::media_type;
pub use self::mime_parse::constants::names::{
    APPLICATION, AUDIO, BASIC, BMP, BOUNDARY, CHARSET, CSS, CSV, EVENT_STREAM, FONT, FORM_DATA,
    GIF, HTML, IMAGE, JAVASCRIPT, JPEG, JSON, MESSAGE, MODEL, MP4, MPEG, MSGPACK, MULTIPART,
    OCTET_STREAM, OGG, PDF, PLAIN, PNG, STAR, SVG, TAB_SEPARATED_VALUES, TEXT, VCARD, VIDEO,
    WOFF, WOFF2, WWW_FORM_URLENCODED, XML,
};
pub use self::name::Name;
pub use self::range::MediaRange;
pub use self::type_::MediaType;
pub use self::value::{utf_8, Value};

verus! {

/// Whether the text holds no ASCII upper case letter.
pub fn is_ascii_lowercase(s: &str) -> (r: bool)
    ensures
        r == (forall|i: int|
            0 <= i < s.spec_bytes().len() ==> !(0x41 <= #[trigger] s.spec_bytes()[i] <= 0x5a)),
{
    let b = s.as_bytes();
    let mut i: usize = 0;
    while i < b.len()
        invariant
            i <= b@.len(),
            b@ == s.spec_bytes(),
            forall|k: int| 0 <= k < i ==> !(0x41 <= #[trigger] b@[k] <= 0x5a),
        decreases b@.len() - i,
    {
        if b[i] >= 0x41 && b[i] <= 0x5a {
            return false;
        }
        i += 1;
    }
    true
}

} // verus!
