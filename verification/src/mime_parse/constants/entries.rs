//! What holds of the entries of the table.
use super::names::{
    APPLICATION, AUDIO, BMP, CSS, CSV, DNS_MESSAGE, EVENT_STREAM, FONT, GIF, HTML, IMAGE,
    JAVASCRIPT, JPEG, JSON, MSGPACK, OCTET_STREAM, PDF, PLAIN, PNG, STAR, SVG,
    TAB_SEPARATED_VALUES, TEXT, VCARD, VIDEO, WOFF, WOFF2, WWW_FORM_URLENCODED, XML,
};
use super::{
    atom_bytes, atom_charset_utf8, atom_no_params, atom_params, atom_sub, atom_text, atom_top,
    atom_view, utf8_tail, ATOM_COUNT,
};
use crate::mime_parse::parsed::{MimeView, ParamShape};
use crate::mime_parse::grammar::{is_token_byte, lemma_first_plus_is, lit};
use crate::mime_parse::text::{lemma_ascii, lower};
use vstd::prelude::*;

verus! {

/// What holds of a table entry: its text is its type, a `/`, its subtype
/// and its parameter, in lower case; its offsets are those of that text;
/// its type and its subtype are tokens, or `*`.
pub open spec fn atom_entry_ok(id: u8) -> bool {
    &&& atom_view(id).bytes == atom_bytes(id)
    &&& entry_ok(atom_view(id), lit(atom_top(id)), lit(atom_sub(id)), id == 30, id >= 30)
}

/// A name of the table: token bytes in lower case, with no `+` behind the
/// first byte.
pub open spec fn is_name(n: Seq<u8>) -> bool {
    &&& forall|i: int| 0 <= i < n.len() ==> is_token_byte(#[trigger] n[i]) && n[i] == lower(n[i])
    &&& forall|i: int| 1 <= i < n.len() ==> #[trigger] n[i] != 0x2b
}

/// The types of the table are names.
proof fn lemma_type_names()
    ensures
        is_name(lit(TEXT)),
        is_name(lit(FONT)),
        is_name(lit(IMAGE)),
        is_name(lit(VIDEO)),
        is_name(lit(AUDIO)),
        is_name(lit(APPLICATION)),
{
    reveal_strlit("text");
    lemma_ascii(TEXT);
    reveal_strlit("font");
    lemma_ascii(FONT);
    reveal_strlit("image");
    lemma_ascii(IMAGE);
    reveal_strlit("video");
    lemma_ascii(VIDEO);
    reveal_strlit("audio");
    lemma_ascii(AUDIO);
    reveal_strlit("application");
    lemma_ascii(APPLICATION);
}

/// The subtypes of the table are names, but for `svg+xml`, which has a
/// `+` as its fourth byte and nowhere else.
proof fn lemma_subtype_names_0()
    ensures
        is_name(lit(PLAIN)),
        is_name(lit(HTML)),
        is_name(lit(XML)),
        is_name(lit(JAVASCRIPT)),
        is_name(lit(CSS)),
        is_name(lit(CSV)),
{
    reveal_strlit("plain");
    lemma_ascii(PLAIN);
    reveal_strlit("html");
    lemma_ascii(HTML);
    reveal_strlit("xml");
    lemma_ascii(XML);
    reveal_strlit("javascript");
    lemma_ascii(JAVASCRIPT);
    reveal_strlit("css");
    lemma_ascii(CSS);
    reveal_strlit("csv");
    lemma_ascii(CSV);
}

proof fn lemma_subtype_names_1()
    ensures
        is_name(lit(EVENT_STREAM)),
        is_name(lit(VCARD)),
        is_name(lit(TAB_SEPARATED_VALUES)),
        is_name(lit(JSON)),
        is_name(lit(WWW_FORM_URLENCODED)),
        is_name(lit(MSGPACK)),
{
    reveal_strlit("event-stream");
    lemma_ascii(EVENT_STREAM);
    reveal_strlit("vcard");
    lemma_ascii(VCARD);
    reveal_strlit("tab-separated-values");
    lemma_ascii(TAB_SEPARATED_VALUES);
    reveal_strlit("json");
    lemma_ascii(JSON);
    reveal_strlit("x-www-form-urlencoded");
    lemma_ascii(WWW_FORM_URLENCODED);
    reveal_strlit("msgpack");
    lemma_ascii(MSGPACK);
}

proof fn lemma_subtype_names_2()
    ensures
        is_name(lit(OCTET_STREAM)),
        is_name(lit(PDF)),
        is_name(lit(WOFF)),
        is_name(lit(WOFF2)),
        is_name(lit(BMP)),
        is_name(lit(GIF)),
{
    reveal_strlit("octet-stream");
    lemma_ascii(OCTET_STREAM);
    reveal_strlit("pdf");
    lemma_ascii(PDF);
    reveal_strlit("woff");
    lemma_ascii(WOFF);
    reveal_strlit("woff2");
    lemma_ascii(WOFF2);
    reveal_strlit("bmp");
    lemma_ascii(BMP);
    reveal_strlit("gif");
    lemma_ascii(GIF);
}

proof fn lemma_subtype_names_3()
    ensures
        is_name(lit(JPEG)),
        is_name(lit(PNG)),
        forall|i: int|
            0 <= i < lit(SVG).len() ==> is_token_byte(#[trigger] lit(SVG)[i]) && lit(SVG)[i]
                == lower(lit(SVG)[i]),
        forall|i: int| 0 <= i < lit(SVG).len() ==> (#[trigger] lit(SVG)[i] == 0x2b) == (i == 3),
        is_name(lit(DNS_MESSAGE)),
{
    reveal_strlit("jpeg");
    lemma_ascii(JPEG);
    reveal_strlit("png");
    lemma_ascii(PNG);
    reveal_strlit("svg+xml");
    lemma_ascii(SVG);
    reveal_strlit("dns-message");
    lemma_ascii(DNS_MESSAGE);
}

/// The text of every table entry is its type, a `/`, its subtype and its
/// parameter.
proof fn lemma_atom_text(id: u8)
    requires
        1 <= id <= ATOM_COUNT,
    ensures
        lit(atom_text(id)) == atom_bytes(id),
{
    if id <= 7 {
        lemma_atom_text_0(id);
    } else if id <= 14 {
        lemma_atom_text_1(id);
    } else if id <= 21 {
        lemma_atom_text_2(id);
    } else if id <= 29 {
        lemma_atom_text_3(id);
    } else {
        lemma_atom_text_4(id);
    }
}

#[verifier::rlimit(50)]
proof fn lemma_atom_text_0(id: u8)
    requires
        1 <= id <= 7,
    ensures
        lit(atom_text(id)) == atom_bytes(id),
{
    reveal_strlit("; charset=utf-8");
    lemma_ascii("; charset=utf-8");
    if id == 1 {
        reveal_strlit("text/plain");
        lemma_ascii("text/plain");
        reveal_strlit("text");
        lemma_ascii(TEXT);
        reveal_strlit("plain");
        lemma_ascii(PLAIN);
        assert(lit("text/plain") =~= atom_bytes(1));
    } else if id == 2 {
        reveal_strlit("text/plain; charset=utf-8");
        lemma_ascii("text/plain; charset=utf-8");
        reveal_strlit("text");
        lemma_ascii(TEXT);
        reveal_strlit("plain");
        lemma_ascii(PLAIN);
        assert(lit("text/plain; charset=utf-8") =~= atom_bytes(2));
    } else if id == 3 {
        reveal_strlit("text/html");
        lemma_ascii("text/html");
        reveal_strlit("text");
        lemma_ascii(TEXT);
        reveal_strlit("html");
        lemma_ascii(HTML);
        assert(lit("text/html") =~= atom_bytes(3));
    } else if id == 4 {
        reveal_strlit("text/html; charset=utf-8");
        lemma_ascii("text/html; charset=utf-8");
        reveal_strlit("text");
        lemma_ascii(TEXT);
        reveal_strlit("html");
        lemma_ascii(HTML);
        assert(lit("text/html; charset=utf-8") =~= atom_bytes(4));
    } else if id == 5 {
        reveal_strlit("text/css");
        lemma_ascii("text/css");
        reveal_strlit("text");
        lemma_ascii(TEXT);
        reveal_strlit("css");
        lemma_ascii(CSS);
        assert(lit("text/css") =~= atom_bytes(5));
    } else if id == 6 {
        reveal_strlit("text/css; charset=utf-8");
        lemma_ascii("text/css; charset=utf-8");
        reveal_strlit("text");
        lemma_ascii(TEXT);
        reveal_strlit("css");
        lemma_ascii(CSS);
        assert(lit("text/css; charset=utf-8") =~= atom_bytes(6));
    } else {
        reveal_strlit("text/javascript");
        lemma_ascii("text/javascript");
        reveal_strlit("text");
        lemma_ascii(TEXT);
        reveal_strlit("javascript");
        lemma_ascii(JAVASCRIPT);
        assert(lit("text/javascript") =~= atom_bytes(7));
    }
}

#[verifier::rlimit(50)]
proof fn lemma_atom_text_1(id: u8)
    requires
        8 <= id <= 14,
    ensures
        lit(atom_text(id)) == atom_bytes(id),
{
    reveal_strlit("; charset=utf-8");
    lemma_ascii("; charset=utf-8");
    if id == 8 {
        reveal_strlit("text/xml");
        lemma_ascii("text/xml");
        reveal_strlit("text");
        lemma_ascii(TEXT);
        reveal_strlit("xml");
        lemma_ascii(XML);
        assert(lit("text/xml") =~= atom_bytes(8));
    } else if id == 9 {
        reveal_strlit("text/event-stream");
        lemma_ascii("text/event-stream");
        reveal_strlit("text");
        lemma_ascii(TEXT);
        reveal_strlit("event-stream");
        lemma_ascii(EVENT_STREAM);
        assert(lit("text/event-stream") =~= atom_bytes(9));
    } else if id == 10 {
        reveal_strlit("text/csv");
        lemma_ascii("text/csv");
        reveal_strlit("text");
        lemma_ascii(TEXT);
        reveal_strlit("csv");
        lemma_ascii(CSV);
        assert(lit("text/csv") =~= atom_bytes(10));
    } else if id == 11 {
        reveal_strlit("text/csv; charset=utf-8");
        lemma_ascii("text/csv; charset=utf-8");
        reveal_strlit("text");
        lemma_ascii(TEXT);
        reveal_strlit("csv");
        lemma_ascii(CSV);
        assert(lit("text/csv; charset=utf-8") =~= atom_bytes(11));
    } else if id == 12 {
        reveal_strlit("text/tab-separated-values");
        lemma_ascii("text/tab-separated-values");
        reveal_strlit("text");
        lemma_ascii(TEXT);
        reveal_strlit("tab-separated-values");
        lemma_ascii(TAB_SEPARATED_VALUES);
        assert(lit("text/tab-separated-values") =~= atom_bytes(12));
    } else if id == 13 {
        reveal_strlit("text/tab-separated-values; charset=utf-8");
        lemma_ascii("text/tab-separated-values; charset=utf-8");
        reveal_strlit("text");
        lemma_ascii(TEXT);
        reveal_strlit("tab-separated-values");
        lemma_ascii(TAB_SEPARATED_VALUES);
        assert(lit("text/tab-separated-values; charset=utf-8") =~= atom_bytes(13));
    } else {
        reveal_strlit("text/vcard");
        lemma_ascii("text/vcard");
        reveal_strlit("text");
        lemma_ascii(TEXT);
        reveal_strlit("vcard");
        lemma_ascii(VCARD);
        assert(lit("text/vcard") =~= atom_bytes(14));
    }
}

#[verifier::rlimit(50)]
proof fn lemma_atom_text_2(id: u8)
    requires
        15 <= id <= 21,
    ensures
        lit(atom_text(id)) == atom_bytes(id),
{
    reveal_strlit("; charset=utf-8");
    lemma_ascii("; charset=utf-8");
    if id == 15 {
        reveal_strlit("image/jpeg");
        lemma_ascii("image/jpeg");
        reveal_strlit("image");
        lemma_ascii(IMAGE);
        reveal_strlit("jpeg");
        lemma_ascii(JPEG);
        assert(lit("image/jpeg") =~= atom_bytes(15));
    } else if id == 16 {
        reveal_strlit("image/gif");
        lemma_ascii("image/gif");
        reveal_strlit("image");
        lemma_ascii(IMAGE);
        reveal_strlit("gif");
        lemma_ascii(GIF);
        assert(lit("image/gif") =~= atom_bytes(16));
    } else if id == 17 {
        reveal_strlit("image/png");
        lemma_ascii("image/png");
        reveal_strlit("image");
        lemma_ascii(IMAGE);
        reveal_strlit("png");
        lemma_ascii(PNG);
        assert(lit("image/png") =~= atom_bytes(17));
    } else if id == 18 {
        reveal_strlit("image/bmp");
        lemma_ascii("image/bmp");
        reveal_strlit("image");
        lemma_ascii(IMAGE);
        reveal_strlit("bmp");
        lemma_ascii(BMP);
        assert(lit("image/bmp") =~= atom_bytes(18));
    } else if id == 19 {
        reveal_strlit("image/svg+xml");
        lemma_ascii("image/svg+xml");
        reveal_strlit("image");
        lemma_ascii(IMAGE);
        reveal_strlit("svg+xml");
        lemma_ascii(SVG);
        assert(lit("image/svg+xml") =~= atom_bytes(19));
    } else if id == 20 {
        reveal_strlit("font/woff");
        lemma_ascii("font/woff");
        reveal_strlit("font");
        lemma_ascii(FONT);
        reveal_strlit("woff");
        lemma_ascii(WOFF);
        assert(lit("font/woff") =~= atom_bytes(20));
    } else {
        reveal_strlit("font/woff2");
        lemma_ascii("font/woff2");
        reveal_strlit("font");
        lemma_ascii(FONT);
        reveal_strlit("woff2");
        lemma_ascii(WOFF2);
        assert(lit("font/woff2") =~= atom_bytes(21));
    }
}

#[verifier::rlimit(50)]
proof fn lemma_atom_text_3(id: u8)
    requires
        22 <= id <= 29,
    ensures
        lit(atom_text(id)) == atom_bytes(id),
{
    reveal_strlit("; charset=utf-8");
    lemma_ascii("; charset=utf-8");
    if id == 22 {
        reveal_strlit("application/json");
        lemma_ascii("application/json");
        reveal_strlit("application");
        lemma_ascii(APPLICATION);
        reveal_strlit("json");
        lemma_ascii(JSON);
        assert(lit("application/json") =~= atom_bytes(22));
    } else if id == 23 {
        reveal_strlit("application/javascript");
        lemma_ascii("application/javascript");
        reveal_strlit("application");
        lemma_ascii(APPLICATION);
        reveal_strlit("javascript");
        lemma_ascii(JAVASCRIPT);
        assert(lit("application/javascript") =~= atom_bytes(23));
    } else if id == 24 {
        reveal_strlit("application/javascript; charset=utf-8");
        lemma_ascii("application/javascript; charset=utf-8");
        reveal_strlit("application");
        lemma_ascii(APPLICATION);
        reveal_strlit("javascript");
        lemma_ascii(JAVASCRIPT);
        assert(lit("application/javascript; charset=utf-8") =~= atom_bytes(24));
    } else if id == 25 {
        reveal_strlit("application/x-www-form-urlencoded");
        lemma_ascii("application/x-www-form-urlencoded");
        reveal_strlit("application");
        lemma_ascii(APPLICATION);
        reveal_strlit("x-www-form-urlencoded");
        lemma_ascii(WWW_FORM_URLENCODED);
        assert(lit("application/x-www-form-urlencoded") =~= atom_bytes(25));
    } else if id == 26 {
        reveal_strlit("application/octet-stream");
        lemma_ascii("application/octet-stream");
        reveal_strlit("application");
        lemma_ascii(APPLICATION);
        reveal_strlit("octet-stream");
        lemma_ascii(OCTET_STREAM);
        assert(lit("application/octet-stream") =~= atom_bytes(26));
    } else if id == 27 {
        reveal_strlit("application/msgpack");
        lemma_ascii("application/msgpack");
        reveal_strlit("application");
        lemma_ascii(APPLICATION);
        reveal_strlit("msgpack");
        lemma_ascii(MSGPACK);
        assert(lit("application/msgpack") =~= atom_bytes(27));
    } else if id == 28 {
        reveal_strlit("application/pdf");
        lemma_ascii("application/pdf");
        reveal_strlit("application");
        lemma_ascii(APPLICATION);
        reveal_strlit("pdf");
        lemma_ascii(PDF);
        assert(lit("application/pdf") =~= atom_bytes(28));
    } else {
        reveal_strlit("application/dns-message");
        lemma_ascii("application/dns-message");
        reveal_strlit("application");
        lemma_ascii(APPLICATION);
        reveal_strlit("dns-message");
        lemma_ascii(DNS_MESSAGE);
        assert(lit("application/dns-message") =~= atom_bytes(29));
    }
}

#[verifier::rlimit(50)]
proof fn lemma_atom_text_4(id: u8)
    requires
        30 <= id <= 34,
    ensures
        lit(atom_text(id)) == atom_bytes(id),
{
    reveal_strlit("; charset=utf-8");
    lemma_ascii("; charset=utf-8");
    if id == 30 {
        reveal_strlit("*/*");
        lemma_ascii("*/*");
        reveal_strlit("*");
        lemma_ascii(STAR);
        assert(lit("*/*") =~= atom_bytes(30));
    } else if id == 31 {
        reveal_strlit("text/*");
        lemma_ascii("text/*");
        reveal_strlit("text");
        lemma_ascii(TEXT);
        reveal_strlit("*");
        lemma_ascii(STAR);
        assert(lit("text/*") =~= atom_bytes(31));
    } else if id == 32 {
        reveal_strlit("image/*");
        lemma_ascii("image/*");
        reveal_strlit("image");
        lemma_ascii(IMAGE);
        reveal_strlit("*");
        lemma_ascii(STAR);
        assert(lit("image/*") =~= atom_bytes(32));
    } else if id == 33 {
        reveal_strlit("video/*");
        lemma_ascii("video/*");
        reveal_strlit("video");
        lemma_ascii(VIDEO);
        reveal_strlit("*");
        lemma_ascii(STAR);
        assert(lit("video/*") =~= atom_bytes(33));
    } else {
        reveal_strlit("audio/*");
        lemma_ascii("audio/*");
        reveal_strlit("audio");
        lemma_ascii(AUDIO);
        reveal_strlit("*");
        lemma_ascii(STAR);
        assert(lit("audio/*") =~= atom_bytes(34));
    }
}

/// What holds of a value whose text is a type, a `/`, a subtype and, at
/// will, `; charset=utf-8`.
pub open spec fn entry_ok(v: MimeView, top: Seq<u8>, sub: Seq<u8>, any_type: bool, any_sub: bool) -> bool {
    &&& v.structured()
    &&& v.slash == top.len()
    &&& v.end() == v.slash + 1 + sub.len()
    &&& v.slash + 1 < v.end()
    &&& forall|i: int| 0 <= i < v.bytes.len() ==> #[trigger] v.bytes[i] == lower(v.bytes[i])
    &&& !any_type ==> forall|i: int| 0 <= i < v.slash ==> is_token_byte(#[trigger] v.bytes[i])
    &&& if !any_sub {
        forall|i: int| v.slash < i < v.end() ==> is_token_byte(#[trigger] v.bytes[i])
    } else {
        sub == seq![0x2au8]
    }
}

/// Whether a sequence is the one byte `*`, or else a name.
spec fn star_or_name(n: Seq<u8>, star: bool) -> bool {
    if star {
        n == seq![0x2au8]
    } else {
        n.len() > 0 && forall|i: int|
            0 <= i < n.len() ==> is_token_byte(#[trigger] n[i]) && n[i] == lower(n[i])
    }
}

/// A value put together from a type, a subtype and a parameter is well
/// structured.
proof fn lemma_entry(v: MimeView, top: Seq<u8>, sub: Seq<u8>, any_type: bool, any_sub: bool)
    requires
        star_or_name(top, any_type),
        star_or_name(sub, any_sub),
        top.len() + sub.len() < 0x1000,
        v.slash == top.len(),
        v.plus matches Some(p) ==> top.len() + 1 < p < top.len() + 1 + sub.len() && sub[p
            - top.len() - 1] == 0x2b,
        forall|i: int|
            1 <= i < sub.len() && #[trigger] sub[i] == 0x2b ==> (v.plus matches Some(p) && p
                <= top.len() + 1 + i),
        match v.params {
            ParamShape::Empty => v.bytes == top + seq![0x2fu8] + sub,
            ParamShape::Utf8(i) => v.bytes == top + seq![0x2fu8] + sub + utf8_tail() && i
                == top.len() + 1 + sub.len(),
            _ => false,
        },
    ensures
        entry_ok(v, top, sub, any_type, any_sub),
{
    reveal_strlit("; charset=utf-8");
    lemma_ascii("; charset=utf-8");
    let b = v.bytes;
    let slash = v.slash as int;
    let end = v.end();
    assert forall|i: int| 0 <= i < b.len() implies #[trigger] b[i] == lower(b[i]) && b[i] < 0x80
        && (i < slash && !any_type ==> is_token_byte(b[i])) && (slash < i < end && !any_sub
        ==> is_token_byte(b[i])) by {
        if i < slash {
            assert(b[i] == top[i]);
        } else if i == slash {
        } else if i < end {
            assert(b[i] == sub[i - slash - 1]);
        } else {
            assert(b[i] == utf8_tail()[i - end]);
        }
    }
    assert forall|i: int| slash + 1 < i < end implies b[i] == sub[i - slash - 1] by {}
    match v.plus {
        Some(p) => {
            assert(b[p as int] == sub[p - slash - 1]);
            assert forall|i: int| slash + 2 <= i < p implies b[i] != 0x2b by {
                assert(b[i] == sub[i - slash - 1]);
            }
        },
        None => {
            assert forall|i: int| slash + 2 <= i < end implies b[i] != 0x2b by {
                assert(b[i] == sub[i - slash - 1]);
            }
        },
    }
    lemma_first_plus_is(b, slash + 2, end, v.plus);
    assert(b[slash] == 0x2f);
    if v.params is Utf8 {
        assert(b[end] == utf8_tail()[0]);
    }
}

proof fn lemma_atom_entry_0(id: u8)
    requires
        1 <= id <= 7,
    ensures
        atom_entry_ok(id),
{
    lemma_atom_text(id);
    lemma_name_lengths();
    lemma_type_names();
    lemma_subtype_names_0();
    let v = atom_view(id);
    if id == 1 {
        lemma_entry(v, lit(TEXT), lit(PLAIN), false, false);
    } else if id == 2 {
        lemma_entry(v, lit(TEXT), lit(PLAIN), false, false);
    } else if id == 3 {
        lemma_entry(v, lit(TEXT), lit(HTML), false, false);
    } else if id == 4 {
        lemma_entry(v, lit(TEXT), lit(HTML), false, false);
    } else if id == 5 {
        lemma_entry(v, lit(TEXT), lit(CSS), false, false);
    } else if id == 6 {
        lemma_entry(v, lit(TEXT), lit(CSS), false, false);
    } else {
        lemma_entry(v, lit(TEXT), lit(JAVASCRIPT), false, false);
    }
}

proof fn lemma_atom_entry_1(id: u8)
    requires
        8 <= id <= 14,
    ensures
        atom_entry_ok(id),
{
    lemma_atom_text(id);
    lemma_name_lengths();
    lemma_type_names();
    lemma_subtype_names_0();
    lemma_subtype_names_1();
    let v = atom_view(id);
    if id == 8 {
        lemma_entry(v, lit(TEXT), lit(XML), false, false);
    } else if id == 9 {
        lemma_entry(v, lit(TEXT), lit(EVENT_STREAM), false, false);
    } else if id == 10 {
        lemma_entry(v, lit(TEXT), lit(CSV), false, false);
    } else if id == 11 {
        lemma_entry(v, lit(TEXT), lit(CSV), false, false);
    } else if id == 12 {
        lemma_entry(v, lit(TEXT), lit(TAB_SEPARATED_VALUES), false, false);
    } else if id == 13 {
        lemma_entry(v, lit(TEXT), lit(TAB_SEPARATED_VALUES), false, false);
    } else {
        lemma_entry(v, lit(TEXT), lit(VCARD), false, false);
    }
}

proof fn lemma_atom_entry_2(id: u8)
    requires
        15 <= id <= 21,
    ensures
        atom_entry_ok(id),
{
    lemma_atom_text(id);
    lemma_name_lengths();
    lemma_type_names();
    lemma_subtype_names_2();
    lemma_subtype_names_3();
    let v = atom_view(id);
    if id == 15 {
        lemma_entry(v, lit(IMAGE), lit(JPEG), false, false);
    } else if id == 16 {
        lemma_entry(v, lit(IMAGE), lit(GIF), false, false);
    } else if id == 17 {
        lemma_entry(v, lit(IMAGE), lit(PNG), false, false);
    } else if id == 18 {
        lemma_entry(v, lit(IMAGE), lit(BMP), false, false);
    } else if id == 19 {
        lemma_entry(v, lit(IMAGE), lit(SVG), false, false);
    } else if id == 20 {
        lemma_entry(v, lit(FONT), lit(WOFF), false, false);
    } else {
        lemma_entry(v, lit(FONT), lit(WOFF2), false, false);
    }
}

proof fn lemma_atom_entry_3(id: u8)
    requires
        22 <= id <= 29,
    ensures
        atom_entry_ok(id),
{
    lemma_atom_text(id);
    lemma_name_lengths();
    lemma_type_names();
    lemma_subtype_names_0();
    lemma_subtype_names_1();
    lemma_subtype_names_2();
    lemma_subtype_names_3();
    let v = atom_view(id);
    if id == 22 {
        lemma_entry(v, lit(APPLICATION), lit(JSON), false, false);
    } else if id == 23 {
        lemma_entry(v, lit(APPLICATION), lit(JAVASCRIPT), false, false);
    } else if id == 24 {
        lemma_entry(v, lit(APPLICATION), lit(JAVASCRIPT), false, false);
    } else if id == 25 {
        lemma_entry(v, lit(APPLICATION), lit(WWW_FORM_URLENCODED), false, false);
    } else if id == 26 {
        lemma_entry(v, lit(APPLICATION), lit(OCTET_STREAM), false, false);
    } else if id == 27 {
        lemma_entry(v, lit(APPLICATION), lit(MSGPACK), false, false);
    } else if id == 28 {
        lemma_entry(v, lit(APPLICATION), lit(PDF), false, false);
    } else {
        lemma_entry(v, lit(APPLICATION), lit(DNS_MESSAGE), false, false);
    }
}

proof fn lemma_atom_entry_4(id: u8)
    requires
        30 <= id <= 34,
    ensures
        atom_entry_ok(id),
{
    lemma_atom_text(id);
    lemma_name_lengths();
    lemma_type_names();
    let v = atom_view(id);
    if id == 30 {
        lemma_entry(v, lit(STAR), lit(STAR), true, true);
    } else if id == 31 {
        lemma_entry(v, lit(TEXT), lit(STAR), false, true);
    } else if id == 32 {
        lemma_entry(v, lit(IMAGE), lit(STAR), false, true);
    } else if id == 33 {
        lemma_entry(v, lit(VIDEO), lit(STAR), false, true);
    } else {
        lemma_entry(v, lit(AUDIO), lit(STAR), false, true);
    }
}

/// Every table entry is well formed, and its text is made of its names.
pub proof fn lemma_atom_entry(id: u8)
    requires
        1 <= id <= ATOM_COUNT,
    ensures
        atom_entry_ok(id),
        atom_view(id).wf(),
{
    if id <= 7 {
        lemma_atom_entry_0(id);
    } else if id <= 14 {
        lemma_atom_entry_1(id);
    } else if id <= 21 {
        lemma_atom_entry_2(id);
    } else if id <= 29 {
        lemma_atom_entry_3(id);
    } else {
        lemma_atom_entry_4(id);
    }
}

/// An entry that the table yields for a type and a subtype has these as its
/// names, and the parameters that were asked for.
pub proof fn lemma_atom_found(top: Seq<u8>, sub: Seq<u8>)
    ensures
        ({
            let id = atom_no_params(top, sub);
            id != 0 ==> 1 <= id <= ATOM_COUNT && id != 30 && top == lit(atom_top(id)) && sub == lit(
                atom_sub(id),
            ) && atom_params(id) is Empty
        }),
        ({
            let id = atom_charset_utf8(top, sub);
            id != 0 ==> 1 <= id <= ATOM_COUNT && top == lit(atom_top(id)) && sub == lit(
                atom_sub(id),
            ) && atom_params(id) is Utf8
        }),
{
}

/// Every entry is found in the table under its own type and subtype.
#[verifier::rlimit(50)]
pub proof fn lemma_atom_own_names(id: u8)
    requires
        1 <= id <= ATOM_COUNT,
        id != 30,
    ensures
        atom_params(id) is Empty ==> atom_no_params(lit(atom_top(id)), lit(atom_sub(id))) == id,
        atom_params(id) is Utf8 ==> atom_charset_utf8(lit(atom_top(id)), lit(atom_sub(id))) == id,
{
    lemma_name_lengths();
}

/// The lengths of the names that the table is made of, and the bytes by
/// which names of one length differ.
#[verifier::rlimit(50)]
pub proof fn lemma_name_lengths()
    ensures
        lit(STAR) == seq![0x2au8],
        lit(TEXT).len() == 4,
        lit(FONT).len() == 4,
        lit(IMAGE).len() == 5,
        lit(VIDEO).len() == 5,
        lit(AUDIO).len() == 5,
        lit(APPLICATION).len() == 11,
        lit(CSS).len() == 3,
        lit(XML).len() == 3,
        lit(CSV).len() == 3,
        lit(HTML).len() == 4,
        lit(PLAIN).len() == 5,
        lit(VCARD).len() == 5,
        lit(JAVASCRIPT).len() == 10,
        lit(EVENT_STREAM).len() == 12,
        lit(TAB_SEPARATED_VALUES).len() == 20,
        lit(WOFF).len() == 4,
        lit(WOFF2).len() == 5,
        lit(PNG).len() == 3,
        lit(GIF).len() == 3,
        lit(BMP).len() == 3,
        lit(JPEG).len() == 4,
        lit(SVG).len() == 7,
        lit(PDF).len() == 3,
        lit(JSON).len() == 4,
        lit(MSGPACK).len() == 7,
        lit(DNS_MESSAGE).len() == 11,
        lit(OCTET_STREAM).len() == 12,
        lit(WWW_FORM_URLENCODED).len() == 21,
        lit(TEXT)[0] == 0x74,
        lit(FONT)[0] == 0x66,
        lit(IMAGE)[0] == 0x69,
        lit(VIDEO)[0] == 0x76,
        lit(AUDIO)[0] == 0x61,
        lit(CSS)[0] == 0x63,
        lit(CSS)[2] == 0x73,
        lit(XML)[0] == 0x78,
        lit(CSV)[0] == 0x63,
        lit(CSV)[2] == 0x76,
        lit(PLAIN)[0] == 0x70,
        lit(VCARD)[0] == 0x76,
        lit(PNG)[0] == 0x70,
        lit(GIF)[0] == 0x67,
        lit(BMP)[0] == 0x62,
{
    reveal_strlit("*");
    reveal_strlit("text");
    reveal_strlit("font");
    reveal_strlit("image");
    reveal_strlit("video");
    reveal_strlit("audio");
    reveal_strlit("application");
    reveal_strlit("css");
    reveal_strlit("xml");
    reveal_strlit("csv");
    reveal_strlit("html");
    reveal_strlit("plain");
    reveal_strlit("vcard");
    reveal_strlit("javascript");
    reveal_strlit("event-stream");
    reveal_strlit("tab-separated-values");
    reveal_strlit("woff");
    reveal_strlit("woff2");
    reveal_strlit("png");
    reveal_strlit("gif");
    reveal_strlit("bmp");
    reveal_strlit("jpeg");
    reveal_strlit("svg+xml");
    reveal_strlit("pdf");
    reveal_strlit("json");
    reveal_strlit("msgpack");
    reveal_strlit("dns-message");
    reveal_strlit("octet-stream");
    reveal_strlit("x-www-form-urlencoded");
    lemma_ascii(STAR);
    lemma_ascii(TEXT);
    lemma_ascii(FONT);
    lemma_ascii(IMAGE);
    lemma_ascii(VIDEO);
    lemma_ascii(AUDIO);
    lemma_ascii(APPLICATION);
    lemma_ascii(CSS);
    lemma_ascii(XML);
    lemma_ascii(CSV);
    lemma_ascii(HTML);
    lemma_ascii(PLAIN);
    lemma_ascii(VCARD);
    lemma_ascii(JAVASCRIPT);
    lemma_ascii(EVENT_STREAM);
    lemma_ascii(TAB_SEPARATED_VALUES);
    lemma_ascii(WOFF);
    lemma_ascii(WOFF2);
    lemma_ascii(PNG);
    lemma_ascii(GIF);
    lemma_ascii(BMP);
    lemma_ascii(JPEG);
    lemma_ascii(SVG);
    lemma_ascii(PDF);
    lemma_ascii(JSON);
    lemma_ascii(MSGPACK);
    lemma_ascii(DNS_MESSAGE);
    lemma_ascii(OCTET_STREAM);
    lemma_ascii(WWW_FORM_URLENCODED);
    assert(lit(STAR) =~= seq![0x2au8]);
}

} // verus!
