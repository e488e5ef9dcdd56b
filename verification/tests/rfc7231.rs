use mime::mime_parse::rfc7231::is_token;
use mime::mime_parse::{Mime, ParseError, Parser};

fn parse(src: &str) -> Result<Mime, ParseError> {
    Parser::can_range().parse(src)
}

#[test]
fn rfc7231_test_lookup_tables() {
    for i in 0..=255u8 {
        let should = match i {
            b'a'..=b'z'
            | b'A'..=b'Z'
            | b'0'..=b'9'
            | b'!'
            | b'#'
            | b'$'
            | b'%'
            | b'&'
            | b'\''
            | b'+'
            | b'-'
            | b'.'
            | b'^'
            | b'_'
            | b'`'
            | b'|'
            | b'~' => true,
            _ => false,
        };
        assert_eq!(is_token(i), should, "{:?} ({}) should be {}", i as char, i, should);
    }
}

#[test]
fn text_plain() {
    let mime = parse("text/plain").unwrap();
    assert_eq!(mime.type_(), "text");
    assert_eq!(mime.subtype(), "plain");
    assert!(!mime.has_params());
    assert_eq!(mime.as_ref(), "text/plain");
}

#[test]
fn text_plain_uppercase() {
    let mime = parse("TEXT/PLAIN").unwrap();
    assert_eq!(mime.type_(), "text");
    assert_eq!(mime.subtype(), "plain");
    assert!(!mime.has_params());
    assert_eq!(mime.as_ref(), "text/plain");
}

#[test]
fn text_plain_charset_utf8() {
    let mime = parse("text/plain; charset=utf-8").unwrap();
    assert_eq!(mime.type_(), "text");
    assert_eq!(mime.subtype(), "plain");
    assert_eq!(mime.param("charset"), Some("utf-8"));
    assert_eq!(mime.as_ref(), "text/plain; charset=utf-8");
}

#[test]
fn text_plain_charset_utf8_uppercase() {
    let mime = parse("TEXT/PLAIN; CHARSET=UTF-8").unwrap();
    assert_eq!(mime.type_(), "text");
    assert_eq!(mime.subtype(), "plain");
    assert_eq!(mime.param("charset"), Some("utf-8"));
    assert_eq!(mime.as_ref(), "text/plain; charset=utf-8");
}

#[test]
fn text_plain_charset_utf8_quoted() {
    let mime = parse("text/plain; charset=\"utf-8\"").unwrap();
    assert_eq!(mime.type_(), "text");
    assert_eq!(mime.subtype(), "plain");
    assert_eq!(mime.param("charset"), Some("\"utf-8\""));
    assert_eq!(mime.as_ref(), "text/plain; charset=\"utf-8\"");
}

#[test]
fn text_plain_charset_utf8_extra() {
    let mime = parse("text/plain; charset=utf-8; foo=bar").unwrap();
    assert_eq!(mime.type_(), "text");
    assert_eq!(mime.subtype(), "plain");
    assert_eq!(mime.param("charset"), Some("utf-8"));
    assert_eq!(mime.param("foo"), Some("bar"));
    assert_eq!(mime.as_ref(), "text/plain; charset=utf-8; foo=bar");
}

#[test]
fn text_plain_charset_utf8_extra_uppercase() {
    let mime = parse("TEXT/PLAIN; CHARSET=UTF-8; FOO=BAR").unwrap();
    assert_eq!(mime.type_(), "text");
    assert_eq!(mime.subtype(), "plain");
    assert_eq!(mime.param("charset"), Some("utf-8"));
    assert_eq!(mime.param("foo"), Some("BAR"));
    assert_eq!(mime.as_ref(), "text/plain; charset=utf-8; foo=BAR");
}

#[test]
fn charset_utf8_extra_spaces() {
    let mime = parse("text/plain  ;  charset=utf-8  ;  foo=bar").unwrap();
    assert_eq!(mime.type_(), "text");
    assert_eq!(mime.subtype(), "plain");
    assert_eq!(mime.param("charset"), Some("utf-8"));
    assert_eq!(mime.param("foo"), Some("bar"));
    assert_eq!(mime.as_ref(), "text/plain  ;  charset=utf-8  ;  foo=bar");
}

#[test]
fn subtype_space_before_params() {
    let mime = parse("text/plain ; charset=utf-8").unwrap();
    assert_eq!(mime.type_(), "text");
    assert_eq!(mime.subtype(), "plain");
    assert_eq!(mime.param("charset"), Some("utf-8"));
}

#[test]
fn params_space_before_semi() {
    let mime = parse("text/plain; charset=utf-8 ; foo=bar").unwrap();
    assert_eq!(mime.type_(), "text");
    assert_eq!(mime.subtype(), "plain");
    assert_eq!(mime.param("charset"), Some("utf-8"));
}

#[test]
fn param_value_empty_quotes() {
    let mime = parse("audio/wave; codecs=\"\"").unwrap();
    assert_eq!(mime.as_ref(), "audio/wave; codecs=\"\"");
}

#[test]
fn semi_colon_but_empty_params() {
    static CASES: &'static [&'static str] = &[
        "text/event-stream;",
        "text/event-stream; ",
        "text/event-stream;       ",
        "text/event-stream ; ",
    ];

    for &case in CASES {
        let mime = parse(case).expect(case);
        assert_eq!(mime.type_(), "text", "case = {:?}", case);
        assert_eq!(mime.subtype(), "event-stream", "case = {:?}", case);
        assert!(!mime.has_params(), "case = {:?}", case);
        assert_eq!(mime.as_ref(), "text/event-stream", "case = {:?}", case);
    }
}

// parse errors

#[test]
fn error_type_spaces() {
    parse("te xt/plain").unwrap_err();
}

#[test]
fn error_type_lf() {
    parse("te\nxt/plain").unwrap_err();
}

#[test]
fn error_type_cr() {
    parse("te\rxt/plain").unwrap_err();
}

#[test]
fn error_subtype_spaces() {
    parse("text/plai n").unwrap_err();
}

#[test]
fn error_subtype_crlf() {
    parse("text/\r\nplain").unwrap_err();
}

#[test]
fn error_param_name_crlf() {
    parse("text/plain;\r\ncharset=utf-8").unwrap_err();
}

#[test]
fn error_param_value_quoted_crlf() {
    parse("text/plain;charset=\"\r\nutf-8\"").unwrap_err();
}

#[test]
fn error_param_space_before_equals() {
    parse("text/plain; charset =utf-8").unwrap_err();
}

#[test]
fn error_param_space_after_equals() {
    parse("text/plain; charset= utf-8").unwrap_err();
}
