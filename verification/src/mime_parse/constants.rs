//! The table of well-known media types and ranges.
//!
//! Each entry has a small identity of its own, other than 0, so that two
//! values that both name an entry are equal exactly if the identities are.
use super::grammar::lit;
use super::text::{lower_seq, range_eq, string_bytes};
use super::parsed::{InternParams, Mime, MimeView, ParamShape, ParamSource, Source};
use vstd::prelude::*;
use vstd::string::StringSliceAdditionalSpecFns;

pub mod entries;
pub mod names;

pub use entries::{
    atom_entry_ok, lemma_atom_entry, lemma_atom_found, lemma_atom_own_names, lemma_name_lengths,
};

use names::{
    APPLICATION, AUDIO, BMP, CSS, CSV, DNS_MESSAGE, EVENT_STREAM, FONT, GIF, HTML, IMAGE,
    JAVASCRIPT, JPEG, JSON, MSGPACK, OCTET_STREAM, PDF, PLAIN, PNG, STAR, SVG,
    TAB_SEPARATED_VALUES, TEXT, VCARD, VIDEO, WOFF, WOFF2, WWW_FORM_URLENCODED, XML,
};

verus! {

/// The number of entries; their identities are `1..=ATOM_COUNT`.
pub const ATOM_COUNT: u8 = 34;

/// The text of the entry with the given identity.
pub open spec fn atom_text(id: u8) -> &'static str {
    match id {
        1 => "text/plain",
        2 => "text/plain; charset=utf-8",
        3 => "text/html",
        4 => "text/html; charset=utf-8",
        5 => "text/css",
        6 => "text/css; charset=utf-8",
        7 => "text/javascript",
        8 => "text/xml",
        9 => "text/event-stream",
        10 => "text/csv",
        11 => "text/csv; charset=utf-8",
        12 => "text/tab-separated-values",
        13 => "text/tab-separated-values; charset=utf-8",
        14 => "text/vcard",
        15 => "image/jpeg",
        16 => "image/gif",
        17 => "image/png",
        18 => "image/bmp",
        19 => "image/svg+xml",
        20 => "font/woff",
        21 => "font/woff2",
        22 => "application/json",
        23 => "application/javascript",
        24 => "application/javascript; charset=utf-8",
        25 => "application/x-www-form-urlencoded",
        26 => "application/octet-stream",
        27 => "application/msgpack",
        28 => "application/pdf",
        29 => "application/dns-message",
        30 => "*/*",
        31 => "text/*",
        32 => "image/*",
        33 => "video/*",
        34 => "audio/*",
        _ => "",
    }
}

/// The offset of the `/` in the entry with the given identity.
pub open spec fn atom_slash(id: u8) -> u16 {
    if 1 <= id <= 14 || id == 20 || id == 21 || id == 31 {
        4
    } else if 15 <= id <= 19 || 32 <= id <= 34 {
        5
    } else if 22 <= id <= 29 {
        11
    } else {
        1
    }
}

/// The offset of the `+` in the entry with the given identity.
pub open spec fn atom_plus(id: u8) -> Option<u16> {
    if id == 19 {
        Some(9u16)
    } else {
        None
    }
}

/// The parameters of the entry with the given identity: none, or
/// `charset=utf-8`.
pub open spec fn atom_params(id: u8) -> ParamShape {
    match id {
        2 => ParamShape::Utf8(10),
        4 => ParamShape::Utf8(9),
        6 => ParamShape::Utf8(8),
        11 => ParamShape::Utf8(8),
        13 => ParamShape::Utf8(25),
        24 => ParamShape::Utf8(22),
        _ => ParamShape::Empty,
    }
}

/// The entry with the given identity, as a parsed value.
pub open spec fn atom_view(id: u8) -> MimeView {
    MimeView {
        atom: id,
        owned: false,
        bytes: lit(atom_text(id)),
        slash: atom_slash(id),
        plus: atom_plus(id),
        params: atom_params(id),
    }
}

/// The identity of the entry without parameters that has the given type and
/// subtype, byte for byte; 0 if there is none.
pub open spec fn atom_no_params(top: Seq<u8>, sub: Seq<u8>) -> u8 {
    if top == lit(TEXT) {
        if sub == lit(STAR) {
            31
        } else if sub == lit(CSS) {
            5
        } else if sub == lit(XML) {
            8
        } else if sub == lit(CSV) {
            10
        } else if sub == lit(HTML) {
            3
        } else if sub == lit(PLAIN) {
            1
        } else if sub == lit(VCARD) {
            14
        } else if sub == lit(JAVASCRIPT) {
            7
        } else if sub == lit(EVENT_STREAM) {
            9
        } else if sub == lit(TAB_SEPARATED_VALUES) {
            12
        } else {
            0
        }
    } else if top == lit(FONT) {
        if sub == lit(WOFF) {
            20
        } else if sub == lit(WOFF2) {
            21
        } else {
            0
        }
    } else if top == lit(IMAGE) {
        if sub == lit(STAR) {
            32
        } else if sub == lit(PNG) {
            17
        } else if sub == lit(GIF) {
            16
        } else if sub == lit(BMP) {
            18
        } else if sub == lit(JPEG) {
            15
        } else if sub == lit(SVG) {
            19
        } else {
            0
        }
    } else if top == lit(VIDEO) {
        if sub == lit(STAR) {
            33
        } else {
            0
        }
    } else if top == lit(AUDIO) {
        if sub == lit(STAR) {
            34
        } else {
            0
        }
    } else if top == lit(APPLICATION) {
        if sub == lit(PDF) {
            28
        } else if sub == lit(JSON) {
            22
        } else if sub == lit(MSGPACK) {
            27
        } else if sub == lit(JAVASCRIPT) {
            23
        } else if sub == lit(DNS_MESSAGE) {
            29
        } else if sub == lit(OCTET_STREAM) {
            26
        } else if sub == lit(WWW_FORM_URLENCODED) {
            25
        } else {
            0
        }
    } else {
        0
    }
}

/// The identity of the entry with the single parameter `charset=utf-8` that
/// has the given type and subtype, byte for byte; 0 if there is none.
pub open spec fn atom_charset_utf8(top: Seq<u8>, sub: Seq<u8>) -> u8 {
    if top == lit(TEXT) {
        if sub == lit(PLAIN) {
            2
        } else if sub == lit(HTML) {
            4
        } else if sub == lit(CSS) {
            6
        } else if sub == lit(CSV) {
            11
        } else if sub == lit(TAB_SEPARATED_VALUES) {
            13
        } else {
            0
        }
    } else if top == lit(APPLICATION) {
        if sub == lit(JAVASCRIPT) {
            24
        } else {
            0
        }
    } else {
        0
    }
}

/// The identity and the bytes of the source that stands for the text `s`: an
/// entry of the table where the text names one, else the text itself, folded
/// to ASCII lower case, with identity 0.
pub open spec fn interned(id: u8, s: Seq<u8>) -> (u8, Seq<u8>) {
    if id != 0 {
        (id, lit(atom_text(id)))
    } else {
        (0u8, lower_seq(s))
    }
}

/// Whether a source is the one that stands for an identity and its bytes:
/// the entry of the table with its text where the identity is that of one,
/// else an owned string of the bytes.
pub open spec fn source_is(r: Source, spec: (u8, Seq<u8>)) -> bool {
    if spec.0 != 0 {
        r == Source::Atom(spec.0, atom_text(spec.0))
    } else {
        r matches Source::Dynamic(d) && string_bytes(&d) == spec.1
    }
}

/// The source for a text without parameters, whose `/` is at `slash`.
pub open spec fn intern_no_params_spec(s: Seq<u8>, slash: int) -> (u8, Seq<u8>) {
    interned(atom_no_params(s.subrange(0, slash), s.subrange(slash + 1, s.len() as int)), s)
}

/// The source for a text whose one parameter is `charset=utf-8`, behind the
/// separator at `semicolon`.
pub open spec fn intern_charset_utf8_spec(s: Seq<u8>, slash: int, semicolon: int) -> (
    u8,
    Seq<u8>,
) {
    interned(atom_charset_utf8(s.subrange(0, slash), s.subrange(slash + 1, semicolon)), s)
}

/// The source for a text, by the kind of its parameters.
pub open spec fn intern_spec(s: Seq<u8>, slash: int, params: InternParams) -> (u8, Seq<u8>) {
    match params {
        InternParams::Utf8(semicolon) => intern_charset_utf8_spec(s, slash, semicolon as int),
        InternParams::Bare => intern_no_params_spec(s, slash),
    }
}

/// The bytes `; charset=utf-8`, as they end an entry with that parameter.
pub open spec fn utf8_tail() -> Seq<u8> {
    lit("; charset=utf-8")
}

/// The type of the entry with the given identity.
pub open spec fn atom_top(id: u8) -> &'static str {
    if 1 <= id <= 14 || id == 31 {
        TEXT
    } else if 15 <= id <= 19 || id == 32 {
        IMAGE
    } else if id == 20 || id == 21 {
        FONT
    } else if 22 <= id <= 29 {
        APPLICATION
    } else if id == 33 {
        VIDEO
    } else if id == 34 {
        AUDIO
    } else {
        STAR
    }
}

/// The subtype of the entry with the given identity.
pub open spec fn atom_sub(id: u8) -> &'static str {
    match id {
        1 => PLAIN,
        2 => PLAIN,
        3 => HTML,
        4 => HTML,
        5 => CSS,
        6 => CSS,
        7 => JAVASCRIPT,
        8 => XML,
        9 => EVENT_STREAM,
        10 => CSV,
        11 => CSV,
        12 => TAB_SEPARATED_VALUES,
        13 => TAB_SEPARATED_VALUES,
        14 => VCARD,
        15 => JPEG,
        16 => GIF,
        17 => PNG,
        18 => BMP,
        19 => SVG,
        20 => WOFF,
        21 => WOFF2,
        22 => JSON,
        23 => JAVASCRIPT,
        24 => JAVASCRIPT,
        25 => WWW_FORM_URLENCODED,
        26 => OCTET_STREAM,
        27 => MSGPACK,
        28 => PDF,
        29 => DNS_MESSAGE,
        _ => STAR,
    }
}

/// The bytes of the entry with the given identity, put together from its
/// type, its subtype and its parameter.
pub open spec fn atom_bytes(id: u8) -> Seq<u8> {
    let essence = lit(atom_top(id)) + seq![0x2fu8] + lit(atom_sub(id));
    if atom_params(id) is Utf8 {
        essence + utf8_tail()
    } else {
        essence
    }
}

/// The table of well-known media types.
pub struct Atoms;

impl Atoms {
    /// The source that stands for the table entry with the given identity.
    pub fn entry(id: u8) -> (r: Source)
        requires
            1 <= id <= ATOM_COUNT,
        ensures
            r == Source::Atom(id, atom_text(id)),
    {
        let text: &'static str = match id {
            1 => "text/plain",
            2 => "text/plain; charset=utf-8",
            3 => "text/html",
            4 => "text/html; charset=utf-8",
            5 => "text/css",
            6 => "text/css; charset=utf-8",
            7 => "text/javascript",
            8 => "text/xml",
            9 => "text/event-stream",
            10 => "text/csv",
            11 => "text/csv; charset=utf-8",
            12 => "text/tab-separated-values",
            13 => "text/tab-separated-values; charset=utf-8",
            14 => "text/vcard",
            15 => "image/jpeg",
            16 => "image/gif",
            17 => "image/png",
            18 => "image/bmp",
            19 => "image/svg+xml",
            20 => "font/woff",
            21 => "font/woff2",
            22 => "application/json",
            23 => "application/javascript",
            24 => "application/javascript; charset=utf-8",
            25 => "application/x-www-form-urlencoded",
            26 => "application/octet-stream",
            27 => "application/msgpack",
            28 => "application/pdf",
            29 => "application/dns-message",
            30 => "*/*",
            31 => "text/*",
            32 => "image/*",
            33 => "video/*",
            _ => "audio/*",
        };
        Source::Atom(id, text)
    }

    /// The source for a text: the table entry that it names, byte for byte,
    /// else an owned copy in lower case.
    pub fn intern(s: &str, slash: u16, params: InternParams) -> (r: Source)
        requires
            slash < s.spec_bytes().len(),
            params matches InternParams::Utf8(semicolon) ==> slash < semicolon
                <= s.spec_bytes().len(),
        ensures
            source_is(r, intern_spec(s.spec_bytes(), slash as int, params)),
            (r.atom_id(), r.bytes()) == intern_spec(s.spec_bytes(), slash as int, params),
    {
        let slash = slash as usize;
        match params {
            InternParams::Utf8(semicolon) => Atoms::intern_charset_utf8(s, slash, semicolon),
            InternParams::Bare => Atoms::intern_no_params(s, slash),
        }
    }

    /// The source for a text whose one parameter is `charset=utf-8`, behind
    /// the separator at `semicolon`.
    pub fn intern_charset_utf8(s: &str, slash: usize, semicolon: usize) -> (r: Source)
        requires
            slash < semicolon <= s.spec_bytes().len(),
        ensures
            source_is(
                r,
                intern_charset_utf8_spec(s.spec_bytes(), slash as int, semicolon as int),
            ),
            (r.atom_id(), r.bytes()) == intern_charset_utf8_spec(
                s.spec_bytes(),
                slash as int,
                semicolon as int,
            ),
    {
        let b = s.as_bytes();
        if range_eq(b, 0, slash, TEXT) {
            if range_eq(b, slash + 1, semicolon, PLAIN) {
                return Atoms::entry(2);
            }
            if range_eq(b, slash + 1, semicolon, HTML) {
                return Atoms::entry(4);
            }
            if range_eq(b, slash + 1, semicolon, CSS) {
                return Atoms::entry(6);
            }
            if range_eq(b, slash + 1, semicolon, CSV) {
                return Atoms::entry(11);
            }
            if range_eq(b, slash + 1, semicolon, TAB_SEPARATED_VALUES) {
                return Atoms::entry(13);
            }
        }
        if range_eq(b, 0, slash, APPLICATION) {
            if range_eq(b, slash + 1, semicolon, JAVASCRIPT) {
                proof {
                    lemma_name_lengths();
                }
                return Atoms::entry(24);
            }
        }
        proof {
            lemma_name_lengths();
        }
        Atoms::dynamic(s)
    }

    /// The source for a text without parameters.
    pub fn intern_no_params(s: &str, slash: usize) -> (r: Source)
        requires
            slash < s.spec_bytes().len(),
        ensures
            source_is(r, intern_no_params_spec(s.spec_bytes(), slash as int)),
            (r.atom_id(), r.bytes()) == intern_no_params_spec(s.spec_bytes(), slash as int),
    {
        let id = Atoms::find_no_params(s.as_bytes(), slash);
        if id != 0 {
            Atoms::entry(id)
        } else {
            Atoms::dynamic(s)
        }
    }

    /// The identity of the table entry without parameters that the text
    /// names, or 0. The table is searched by the length of the type, then by
    /// the length of the subtype, so that at most three names are compared.
    #[verifier::rlimit(50)]
    pub fn find_no_params(b: &[u8], slash: usize) -> (id: u8)
        requires
            slash < b@.len(),
        ensures
            id == atom_no_params(b@.subrange(0, slash as int), b@.subrange(slash + 1, b@.len() as int)),
            id <= ATOM_COUNT,
    {
        let to = b.len();
        let from = slash + 1;
        let sub_len = to - from;
        proof {
            lemma_name_lengths();
        }
        let ghost sub = b@.subrange(from as int, to as int);
        match slash {
            4 => {
                if range_eq(b, 0, slash, TEXT) {
                    match sub_len {
                        1 => {
                            if b[from] == 0x2a {
                                assert(sub =~= lit(STAR));
                                return 31;
                            }
                        },
                        3 => {
                            if range_eq(b, from, to, CSS) {
                                return 5;
                            }
                            if range_eq(b, from, to, XML) {
                                return 8;
                            }
                            if range_eq(b, from, to, CSV) {
                                return 10;
                            }
                        },
                        4 => {
                            if range_eq(b, from, to, HTML) {
                                return 3;
                            }
                        },
                        5 => {
                            if range_eq(b, from, to, PLAIN) {
                                return 1;
                            }
                            if range_eq(b, from, to, VCARD) {
                                return 14;
                            }
                        },
                        10 => {
                            if range_eq(b, from, to, JAVASCRIPT) {
                                return 7;
                            }
                        },
                        12 => {
                            if range_eq(b, from, to, EVENT_STREAM) {
                                return 9;
                            }
                        },
                        20 => {
                            if range_eq(b, from, to, TAB_SEPARATED_VALUES) {
                                return 12;
                            }
                        },
                        _ => (),
                    }
                } else if range_eq(b, 0, slash, FONT) {
                    match sub_len {
                        4 => {
                            if range_eq(b, from, to, WOFF) {
                                return 20;
                            }
                        },
                        5 => {
                            if range_eq(b, from, to, WOFF2) {
                                return 21;
                            }
                        },
                        _ => (),
                    }
                }
            },
            5 => {
                if range_eq(b, 0, slash, IMAGE) {
                    match sub_len {
                        1 => {
                            if b[from] == 0x2a {
                                assert(sub =~= lit(STAR));
                                return 32;
                            }
                        },
                        3 => {
                            if range_eq(b, from, to, PNG) {
                                return 17;
                            }
                            if range_eq(b, from, to, GIF) {
                                return 16;
                            }
                            if range_eq(b, from, to, BMP) {
                                return 18;
                            }
                        },
                        4 => {
                            if range_eq(b, from, to, JPEG) {
                                return 15;
                            }
                        },
                        7 => {
                            if range_eq(b, from, to, SVG) {
                                return 19;
                            }
                        },
                        _ => (),
                    }
                } else if range_eq(b, 0, slash, VIDEO) {
                    match sub_len {
                        1 => {
                            if b[from] == 0x2a {
                                assert(sub =~= lit(STAR));
                                return 33;
                            }
                        },
                        _ => (),
                    }
                } else if range_eq(b, 0, slash, AUDIO) {
                    match sub_len {
                        1 => {
                            if b[from] == 0x2a {
                                assert(sub =~= lit(STAR));
                                return 34;
                            }
                        },
                        _ => (),
                    }
                }
            },
            11 => {
                if range_eq(b, 0, slash, APPLICATION) {
                    match sub_len {
                        3 => {
                            if range_eq(b, from, to, PDF) {
                                return 28;
                            }
                        },
                        4 => {
                            if range_eq(b, from, to, JSON) {
                                return 22;
                            }
                        },
                        7 => {
                            if range_eq(b, from, to, MSGPACK) {
                                return 27;
                            }
                        },
                        10 => {
                            if range_eq(b, from, to, JAVASCRIPT) {
                                return 23;
                            }
                        },
                        11 => {
                            if range_eq(b, from, to, DNS_MESSAGE) {
                                return 29;
                            }
                        },
                        12 => {
                            if range_eq(b, from, to, OCTET_STREAM) {
                                return 26;
                            }
                        },
                        21 => {
                            if range_eq(b, from, to, WWW_FORM_URLENCODED) {
                                return 25;
                            }
                        },
                        _ => (),
                    }
                }
            },
            _ => (),
        }
        assert(sub.len() == 1 && sub[0] != 0x2a ==> sub != lit(STAR));
        0
    }

    /// An owned copy of the text in ASCII lower case.
    pub fn dynamic(s: &str) -> (r: Source)
        ensures
            r matches Source::Dynamic(d) && string_bytes(&d) == lower_seq(s.spec_bytes()),
    {
        Source::Dynamic(s.to_ascii_lowercase())
    }
}

/// The table entry with the given identity, as a parsed value.
pub fn atom(id: u8) -> (r: Mime)
    requires
        1 <= id <= ATOM_COUNT,
    ensures
        r@ == atom_view(id),
{
    proof {
        lemma_atom_entry(id);
    }
    let slash: u16 = if id <= 14 || id == 20 || id == 21 || id == 31 {
        4
    } else if id <= 19 || (32 <= id && id <= 34) {
        5
    } else if id <= 29 {
        11
    } else {
        1
    };
    let plus: Option<u16> = if id == 19 {
        Some(9)
    } else {
        None
    };
    let params = match id {
        2 => ParamSource::Utf8(10),
        4 => ParamSource::Utf8(9),
        6 => ParamSource::Utf8(8),
        11 => ParamSource::Utf8(8),
        13 => ParamSource::Utf8(25),
        24 => ParamSource::Utf8(22),
        _ => ParamSource::Empty,
    };
    Mime::private_from_proc_macro(Atoms::entry(id), slash, plus, params)
}

/// `text/plain`
pub fn text_plain() -> (r: Mime)
    ensures
        r@ == atom_view(1),
{
    atom(1)
}

/// `text/plain; charset=utf-8`
pub fn text_plain_utf_8() -> (r: Mime)
    ensures
        r@ == atom_view(2),
{
    atom(2)
}

/// `text/html`
pub fn text_html() -> (r: Mime)
    ensures
        r@ == atom_view(3),
{
    atom(3)
}

/// `text/html; charset=utf-8`
pub fn text_html_utf_8() -> (r: Mime)
    ensures
        r@ == atom_view(4),
{
    atom(4)
}

/// `text/css`
pub fn text_css() -> (r: Mime)
    ensures
        r@ == atom_view(5),
{
    atom(5)
}

/// `text/css; charset=utf-8`
pub fn text_css_utf_8() -> (r: Mime)
    ensures
        r@ == atom_view(6),
{
    atom(6)
}

/// `text/javascript`
pub fn text_javascript() -> (r: Mime)
    ensures
        r@ == atom_view(7),
{
    atom(7)
}

/// `text/xml`
pub fn text_xml() -> (r: Mime)
    ensures
        r@ == atom_view(8),
{
    atom(8)
}

/// `text/event-stream`
pub fn text_event_stream() -> (r: Mime)
    ensures
        r@ == atom_view(9),
{
    atom(9)
}

/// `text/csv`
pub fn text_csv() -> (r: Mime)
    ensures
        r@ == atom_view(10),
{
    atom(10)
}

/// `text/csv; charset=utf-8`
pub fn text_csv_utf_8() -> (r: Mime)
    ensures
        r@ == atom_view(11),
{
    atom(11)
}

/// `text/tab-separated-values`
pub fn text_tab_separated_values() -> (r: Mime)
    ensures
        r@ == atom_view(12),
{
    atom(12)
}

/// `text/tab-separated-values; charset=utf-8`
pub fn text_tab_separated_values_utf_8() -> (r: Mime)
    ensures
        r@ == atom_view(13),
{
    atom(13)
}

/// `text/vcard`
pub fn text_vcard() -> (r: Mime)
    ensures
        r@ == atom_view(14),
{
    atom(14)
}

/// `image/jpeg`
pub fn image_jpeg() -> (r: Mime)
    ensures
        r@ == atom_view(15),
{
    atom(15)
}

/// `image/gif`
pub fn image_gif() -> (r: Mime)
    ensures
        r@ == atom_view(16),
{
    atom(16)
}

/// `image/png`
pub fn image_png() -> (r: Mime)
    ensures
        r@ == atom_view(17),
{
    atom(17)
}

/// `image/bmp`
pub fn image_bmp() -> (r: Mime)
    ensures
        r@ == atom_view(18),
{
    atom(18)
}

/// `image/svg+xml`
pub fn image_svg() -> (r: Mime)
    ensures
        r@ == atom_view(19),
{
    atom(19)
}

/// `font/woff`
pub fn font_woff() -> (r: Mime)
    ensures
        r@ == atom_view(20),
{
    atom(20)
}

/// `font/woff2`
pub fn font_woff2() -> (r: Mime)
    ensures
        r@ == atom_view(21),
{
    atom(21)
}

/// `application/json`
pub fn application_json() -> (r: Mime)
    ensures
        r@ == atom_view(22),
{
    atom(22)
}

/// `application/javascript`
pub fn application_javascript() -> (r: Mime)
    ensures
        r@ == atom_view(23),
{
    atom(23)
}

/// `application/javascript; charset=utf-8`
pub fn application_javascript_utf_8() -> (r: Mime)
    ensures
        r@ == atom_view(24),
{
    atom(24)
}

/// `application/x-www-form-urlencoded`
pub fn application_www_form_urlencoded() -> (r: Mime)
    ensures
        r@ == atom_view(25),
{
    atom(25)
}

/// `application/octet-stream`
pub fn application_octet_stream() -> (r: Mime)
    ensures
        r@ == atom_view(26),
{
    atom(26)
}

/// `application/msgpack`
pub fn application_msgpack() -> (r: Mime)
    ensures
        r@ == atom_view(27),
{
    atom(27)
}

/// `application/pdf`
pub fn application_pdf() -> (r: Mime)
    ensures
        r@ == atom_view(28),
{
    atom(28)
}

/// `application/dns-message`
pub fn application_dns() -> (r: Mime)
    ensures
        r@ == atom_view(29),
{
    atom(29)
}

/// `*/*`
pub fn star_star() -> (r: Mime)
    ensures
        r@ == atom_view(30),
{
    atom(30)
}

/// `text/*`
pub fn text_star() -> (r: Mime)
    ensures
        r@ == atom_view(31),
{
    atom(31)
}

/// `image/*`
pub fn image_star() -> (r: Mime)
    ensures
        r@ == atom_view(32),
{
    atom(32)
}

/// `video/*`
pub fn video_star() -> (r: Mime)
    ensures
        r@ == atom_view(33),
{
    atom(33)
}

/// `audio/*`
pub fn audio_star() -> (r: Mime)
    ensures
        r@ == atom_view(34),
{
    atom(34)
}

} // verus!
