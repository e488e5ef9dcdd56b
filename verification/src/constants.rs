//! The well-known media types and media ranges, ready made.
use crate::mime_parse::constants;
use crate::mime_parse::constants::atom_view;
use crate::range::MediaRange;
use crate::type_::MediaType;
use vstd::prelude::*;

verus! {

/// A `MediaType` representing `"text/plain"`.
pub fn text_plain() -> (r: MediaType)
    ensures
        r@ == atom_view(1),
{
    MediaType::of_mime(constants::text_plain())
}

/// A `MediaType` representing `"text/plain; charset=utf-8"`.
pub fn text_plain_utf_8() -> (r: MediaType)
    ensures
        r@ == atom_view(2),
{
    MediaType::of_mime(constants::text_plain_utf_8())
}

/// A `MediaType` representing `"text/html"`.
pub fn text_html() -> (r: MediaType)
    ensures
        r@ == atom_view(3),
{
    MediaType::of_mime(constants::text_html())
}

/// A `MediaType` representing `"text/html; charset=utf-8"`.
pub fn text_html_utf_8() -> (r: MediaType)
    ensures
        r@ == atom_view(4),
{
    MediaType::of_mime(constants::text_html_utf_8())
}

/// A `MediaType` representing `"text/css"`.
pub fn text_css() -> (r: MediaType)
    ensures
        r@ == atom_view(5),
{
    MediaType::of_mime(constants::text_css())
}

/// A `MediaType` representing `"text/css; charset=utf-8"`.
pub fn text_css_utf_8() -> (r: MediaType)
    ensures
        r@ == atom_view(6),
{
    MediaType::of_mime(constants::text_css_utf_8())
}

/// A `MediaType` representing `"text/javascript"`.
pub fn text_javascript() -> (r: MediaType)
    ensures
        r@ == atom_view(7),
{
    MediaType::of_mime(constants::text_javascript())
}

/// A `MediaType` representing `"text/xml"`.
pub fn text_xml() -> (r: MediaType)
    ensures
        r@ == atom_view(8),
{
    MediaType::of_mime(constants::text_xml())
}

/// A `MediaType` representing `"text/event-stream"`.
pub fn text_event_stream() -> (r: MediaType)
    ensures
        r@ == atom_view(9),
{
    MediaType::of_mime(constants::text_event_stream())
}

/// A `MediaType` representing `"text/csv"`.
pub fn text_csv() -> (r: MediaType)
    ensures
        r@ == atom_view(10),
{
    MediaType::of_mime(constants::text_csv())
}

/// A `MediaType` representing `"text/csv; charset=utf-8"`.
pub fn text_csv_utf_8() -> (r: MediaType)
    ensures
        r@ == atom_view(11),
{
    MediaType::of_mime(constants::text_csv_utf_8())
}

/// A `MediaType` representing `"text/tab-separated-values"`.
pub fn text_tab_separated_values() -> (r: MediaType)
    ensures
        r@ == atom_view(12),
{
    MediaType::of_mime(constants::text_tab_separated_values())
}

/// A `MediaType` representing `"text/tab-separated-values; charset=utf-8"`.
pub fn text_tab_separated_values_utf_8() -> (r: MediaType)
    ensures
        r@ == atom_view(13),
{
    MediaType::of_mime(constants::text_tab_separated_values_utf_8())
}

/// A `MediaType` representing `"text/vcard"`.
pub fn text_vcard() -> (r: MediaType)
    ensures
        r@ == atom_view(14),
{
    MediaType::of_mime(constants::text_vcard())
}

/// A `MediaType` representing `"image/jpeg"`.
pub fn image_jpeg() -> (r: MediaType)
    ensures
        r@ == atom_view(15),
{
    MediaType::of_mime(constants::image_jpeg())
}

/// A `MediaType` representing `"image/gif"`.
pub fn image_gif() -> (r: MediaType)
    ensures
        r@ == atom_view(16),
{
    MediaType::of_mime(constants::image_gif())
}

/// A `MediaType` representing `"image/png"`.
pub fn image_png() -> (r: MediaType)
    ensures
        r@ == atom_view(17),
{
    MediaType::of_mime(constants::image_png())
}

/// A `MediaType` representing `"image/bmp"`.
pub fn image_bmp() -> (r: MediaType)
    ensures
        r@ == atom_view(18),
{
    MediaType::of_mime(constants::image_bmp())
}

/// A `MediaType` representing `"image/svg+xml"`.
pub fn image_svg() -> (r: MediaType)
    ensures
        r@ == atom_view(19),
{
    MediaType::of_mime(constants::image_svg())
}

/// A `MediaType` representing `"font/woff"`.
pub fn font_woff() -> (r: MediaType)
    ensures
        r@ == atom_view(20),
{
    MediaType::of_mime(constants::font_woff())
}

/// A `MediaType` representing `"font/woff2"`.
pub fn font_woff2() -> (r: MediaType)
    ensures
        r@ == atom_view(21),
{
    MediaType::of_mime(constants::font_woff2())
}

/// A `MediaType` representing `"application/json"`.
pub fn application_json() -> (r: MediaType)
    ensures
        r@ == atom_view(22),
{
    MediaType::of_mime(constants::application_json())
}

/// A `MediaType` representing `"application/javascript"`.
pub fn application_javascript() -> (r: MediaType)
    ensures
        r@ == atom_view(23),
{
    MediaType::of_mime(constants::application_javascript())
}

/// A `MediaType` representing `"application/javascript; charset=utf-8"`.
pub fn application_javascript_utf_8() -> (r: MediaType)
    ensures
        r@ == atom_view(24),
{
    MediaType::of_mime(constants::application_javascript_utf_8())
}

/// A `MediaType` representing `"application/x-www-form-urlencoded"`.
pub fn application_www_form_urlencoded() -> (r: MediaType)
    ensures
        r@ == atom_view(25),
{
    MediaType::of_mime(constants::application_www_form_urlencoded())
}

/// A `MediaType` representing `"application/octet-stream"`.
pub fn application_octet_stream() -> (r: MediaType)
    ensures
        r@ == atom_view(26),
{
    MediaType::of_mime(constants::application_octet_stream())
}

/// A `MediaType` representing `"application/msgpack"`.
pub fn application_msgpack() -> (r: MediaType)
    ensures
        r@ == atom_view(27),
{
    MediaType::of_mime(constants::application_msgpack())
}

/// A `MediaType` representing `"application/pdf"`.
pub fn application_pdf() -> (r: MediaType)
    ensures
        r@ == atom_view(28),
{
    MediaType::of_mime(constants::application_pdf())
}

/// A `MediaType` representing `"application/dns-message"`.
pub fn application_dns() -> (r: MediaType)
    ensures
        r@ == atom_view(29),
{
    MediaType::of_mime(constants::application_dns())
}

/// A `MediaRange` representing `"*/*"`.
pub fn star_star() -> (r: MediaRange)
    ensures
        r@ == atom_view(30),
{
    MediaRange::of_mime(constants::star_star())
}

/// A `MediaRange` representing `"text/*"`.
pub fn text_star() -> (r: MediaRange)
    ensures
        r@ == atom_view(31),
{
    MediaRange::of_mime(constants::text_star())
}

/// A `MediaRange` representing `"image/*"`.
pub fn image_star() -> (r: MediaRange)
    ensures
        r@ == atom_view(32),
{
    MediaRange::of_mime(constants::image_star())
}

/// A `MediaRange` representing `"video/*"`.
pub fn video_star() -> (r: MediaRange)
    ensures
        r@ == atom_view(33),
{
    MediaRange::of_mime(constants::video_star())
}

/// A `MediaRange` representing `"audio/*"`.
pub fn audio_star() -> (r: MediaRange)
    ensures
        r@ == atom_view(34),
{
    MediaRange::of_mime(constants::audio_star())
}

} // verus!
