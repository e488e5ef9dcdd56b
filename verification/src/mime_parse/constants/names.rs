//! The names of common types, subtypes and parameters.
use vstd::prelude::*;

verus! {

/// The string literal `"*"`.
pub const STAR: &'static str = "*";

/// The string literal `"text"`.
pub const TEXT: &'static str = "text";

/// The string literal `"image"`.
pub const IMAGE: &'static str = "image";

/// The string literal `"audio"`.
pub const AUDIO: &'static str = "audio";

/// The string literal `"video"`.
pub const VIDEO: &'static str = "video";

/// The string literal `"application"`.
pub const APPLICATION: &'static str = "application";

/// The string literal `"multipart"`.
pub const MULTIPART: &'static str = "multipart";

/// The string literal `"message"`.
pub const MESSAGE: &'static str = "message";

/// The string literal `"model"`.
pub const MODEL: &'static str = "model";

/// The string literal `"font"`.
pub const FONT: &'static str = "font";

/// The string literal `"plain"`.
pub const PLAIN: &'static str = "plain";

/// The string literal `"html"`.
pub const HTML: &'static str = "html";

/// The string literal `"xml"`.
pub const XML: &'static str = "xml";

/// The string literal `"javascript"`.
pub const JAVASCRIPT: &'static str = "javascript";

/// The string literal `"css"`.
pub const CSS: &'static str = "css";

/// The string literal `"csv"`.
pub const CSV: &'static str = "csv";

/// The string literal `"event-stream"`.
pub const EVENT_STREAM: &'static str = "event-stream";

/// The string literal `"vcard"`.
pub const VCARD: &'static str = "vcard";

/// The string literal `"tab-separated-values"`.
pub const TAB_SEPARATED_VALUES: &'static str = "tab-separated-values";

/// The string literal `"json"`.
pub const JSON: &'static str = "json";

/// The string literal `"x-www-form-urlencoded"`.
pub const WWW_FORM_URLENCODED: &'static str = "x-www-form-urlencoded";

/// The string literal `"msgpack"`.
pub const MSGPACK: &'static str = "msgpack";

/// The string literal `"octet-stream"`.
pub const OCTET_STREAM: &'static str = "octet-stream";

/// The string literal `"pdf"`.
pub const PDF: &'static str = "pdf";

/// The string literal `"woff"`.
pub const WOFF: &'static str = "woff";

/// The string literal `"woff2"`.
pub const WOFF2: &'static str = "woff2";

/// The string literal `"form-data"`.
pub const FORM_DATA: &'static str = "form-data";

/// The string literal `"bmp"`.
pub const BMP: &'static str = "bmp";

/// The string literal `"gif"`.
pub const GIF: &'static str = "gif";

/// The string literal `"jpeg"`.
pub const JPEG: &'static str = "jpeg";

/// The string literal `"png"`.
pub const PNG: &'static str = "png";

/// The string literal `"svg+xml"`.
pub const SVG: &'static str = "svg+xml";

/// The string literal `"basic"`.
pub const BASIC: &'static str = "basic";

/// The string literal `"mpeg"`.
pub const MPEG: &'static str = "mpeg";

/// The string literal `"mp4"`.
pub const MP4: &'static str = "mp4";

/// The string literal `"ogg"`.
pub const OGG: &'static str = "ogg";

/// The string literal `"charset"`.
pub const CHARSET: &'static str = "charset";

/// The string literal `"boundary"`.
pub const BOUNDARY: &'static str = "boundary";

/// The string literal `"dns-message"`.
pub const DNS_MESSAGE: &'static str = "dns-message";

} // verus!
