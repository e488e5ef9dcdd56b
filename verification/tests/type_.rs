use mime::{
    text_event_stream, text_plain, text_plain_utf_8, utf_8, MediaType, BOUNDARY, CHARSET,
    EVENT_STREAM, PLAIN, TEXT, XML,
};

#[test]
fn test_size_of() {
    assert!(
        std::mem::size_of::<MediaType>() < 100,
        "just to be warned if the size grows suddenly"
    );

    assert_eq!(
        std::mem::size_of::<MediaType>(),
        std::mem::size_of::<Option<MediaType>>(),
        "option size optimization"
    );
}

#[test]
fn test_type_() {
    assert_eq!(text_plain().type_(), TEXT);
}

#[test]
fn test_subtype() {
    assert_eq!(text_plain().subtype(), PLAIN);
    assert_eq!(text_plain_utf_8().subtype(), PLAIN);
    let mime = MediaType::parse("text/html+xml").unwrap();
    assert_eq!(mime.subtype(), "html+xml");
}

#[test]
fn test_matching() {
    match (text_plain().type_(), text_plain().subtype()) {
        (TEXT, PLAIN) => (),
        _ => unreachable!(),
    }
}

#[test]
fn test_suffix() {
    assert_eq!(text_plain().suffix(), None);
    let mime = MediaType::parse("text/html+xml").unwrap();
    assert_eq!(mime.suffix(), Some(XML));
}

#[test]
fn test_mime_fmt() {
    let mime = text_plain();
    assert_eq!(mime.to_string(), "text/plain");
    let mime = text_plain_utf_8();
    assert_eq!(mime.to_string(), "text/plain; charset=utf-8");
}

#[test]
fn test_media_type_from_str() {
    assert_eq!(MediaType::parse("text/plain").unwrap(), text_plain());
    assert_eq!(MediaType::parse("TEXT/PLAIN").unwrap(), text_plain());
    assert_eq!(MediaType::parse("text/plain; charset=utf-8").unwrap(), text_plain_utf_8());
    assert_eq!(MediaType::parse("text/plain;charset=\"utf-8\"").unwrap(), text_plain_utf_8());

    // quotes + semi colon
    MediaType::parse("text/plain;charset=\"utf-8\"; foo=bar").unwrap();
    MediaType::parse("text/plain;charset=\"utf-8\" ; foo=bar").unwrap();

    let upper = MediaType::parse("TEXT/PLAIN").unwrap();
    assert_eq!(upper, text_plain());
    assert_eq!(upper.type_(), TEXT);
    assert_eq!(upper.subtype(), PLAIN);

    let extended = MediaType::parse("TEXT/PLAIN; CHARSET=UTF-8; FOO=BAR").unwrap();
    assert_eq!(extended, "text/plain; charset=utf-8; foo=BAR");
    assert_eq!(extended.param("charset").unwrap(), "utf-8");
    assert_eq!(extended.param("foo").unwrap(), "BAR");

    MediaType::parse("multipart/form-data; boundary=--------foobar").unwrap();

    // empty quotes
    MediaType::parse("audo/wave; codecs=\"\"").expect("param value with empty quotes");

    // parse errors
    MediaType::parse("f o o / bar").unwrap_err();
    MediaType::parse("text\n/plain").unwrap_err();
    MediaType::parse("text\r/plain").unwrap_err();
    MediaType::parse("text/\r\nplain").unwrap_err();
    MediaType::parse("text/plain;\r\ncharset=utf-8").unwrap_err();
    MediaType::parse("text/plain; charset=\r\nutf-8").unwrap_err();
    MediaType::parse("text/plain; charset=\"\r\nutf-8\"").unwrap_err();
}

#[test]
fn test_from_str_empty_parameter_list() {
    static CASES: &'static [&'static str] =
        &["text/event-stream;", "text/event-stream; ", "text/event-stream;       "];

    for &case in CASES {
        let mime = MediaType::parse(case).expect(case);
        assert_eq!(mime, text_event_stream(), "case = {:?}", case);
        assert_eq!(mime.type_(), TEXT, "case = {:?}", case);
        assert_eq!(mime.subtype(), EVENT_STREAM, "case = {:?}", case);
        assert!(!mime.has_params(), "case = {:?}", case);
    }
}

#[test]
fn test_parse_too_long() {
    let mut source = vec![b'a'; ::std::u16::MAX as usize];
    source[5] = b'/';

    let mut s = String::from_utf8(source).unwrap();

    MediaType::parse(&s).expect("parses AT max length");

    s.push('a');
    MediaType::parse(&s).expect_err("errors OVER max length");
}

#[test]
fn test_case_sensitive_values() {
    let mime = MediaType::parse("multipart/form-data; charset=BASE64; boundary=ABCDEFG").unwrap();
    assert_eq!(mime.param(CHARSET).unwrap(), "bAsE64");
    assert_eq!(mime.param(BOUNDARY).unwrap(), "ABCDEFG");
    assert_eq!(mime.param(BOUNDARY).unwrap().as_str_repr(), "ABCDEFG");
    assert_ne!(mime.param(BOUNDARY).unwrap(), "abcdefg");
}

#[test]
fn test_get_param() {
    assert_eq!(text_plain().param("charset"), None);
    assert_eq!(text_plain().param("baz"), None);

    assert_eq!(text_plain_utf_8().param("charset"), Some(utf_8()));
    assert_eq!(text_plain_utf_8().param("baz"), None);

    let mime = MediaType::parse("text/plain; charset=utf-8; foo=bar").unwrap();
    assert_eq!(mime.param(CHARSET).unwrap(), "utf-8");
    assert_eq!(mime.param("foo").unwrap(), "bar");
    assert_eq!(mime.param("baz"), None);

    let mime = MediaType::parse("text/plain;charset=\"utf-8\"").unwrap();
    assert_eq!(mime.param(CHARSET), Some(utf_8()));
}

#[test]
fn test_mime_with_dquote_quoted_pair() {
    let mime = MediaType::parse(r#"application/x-custom; title="the \" char""#).unwrap();
    assert_eq!(mime.param("title").unwrap(), "the \" char");
}

#[test]
fn test_params() {
    let mime = text_plain();
    let mut params = mime.params().into_iter();
    assert_eq!(params.next(), None);

    let mime = MediaType::parse("text/plain; charset=utf-8; foo=bar").unwrap();
    let mut params = mime.params().into_iter();
    assert_eq!(params.next(), Some((CHARSET, utf_8())));

    let (second_param_left, second_param_right) = params.next().unwrap();
    assert_eq!(second_param_left, "foo");
    assert_eq!(second_param_right, "bar");

    assert_eq!(params.next(), None);
}

#[test]
fn test_has_params() {
    let mime = text_plain();
    assert_eq!(mime.has_params(), false);

    let mime = MediaType::parse("text/plain; charset=utf-8").unwrap();
    assert_eq!(mime.has_params(), true);

    let mime = MediaType::parse("text/plain; charset=utf-8; foo=bar").unwrap();
    assert_eq!(mime.has_params(), true);
}

#[test]
fn test_mime_with_utf8_values() {
    let mime = MediaType::parse(r#"application/x-custom; param="Straße""#).unwrap();
    assert_eq!(mime.param("param").unwrap(), "Straße");
}

#[test]
fn test_mime_with_multiple_plus() {
    let mime = MediaType::parse(r#"application/x-custom+bad+suffix"#).unwrap();
    assert_eq!(mime.type_(), "application");
    assert_eq!(mime.subtype(), "x-custom+bad+suffix");
    // the first `+` marks the suffix; a later one is part of it
    assert_eq!(mime.suffix().unwrap(), "bad+suffix");
}

#[test]
fn test_mime_param_with_empty_quoted_string() {
    let mime = MediaType::parse(r#"application/x-custom;param="""#).unwrap();
    assert_eq!(mime.param("param").unwrap(), "");
}

#[test]
fn test_mime_param_with_tab() {
    let mime = MediaType::parse("application/x-custom;param=\"\t\"").unwrap();
    assert_eq!(mime.param("param").unwrap(), "\t");
}

#[test]
fn test_mime_param_with_quoted_tab() {
    let mime = MediaType::parse("application/x-custom;param=\"\\\t\"").unwrap();
    assert_eq!(mime.param("param").unwrap(), "\t");
}

#[test]
fn test_reject_tailing_half_quoted_pair() {
    let mime = MediaType::parse(r#"application/x-custom;param="\""#);
    assert!(mime.is_err());
}

#[test]
fn test_parameter_eq_is_order_independent() {
    let mime_a = MediaType::parse(r#"application/x-custom; param1=a; param2=b"#).unwrap();
    let mime_b = MediaType::parse(r#"application/x-custom; param2=b; param1=a"#).unwrap();
    assert_eq!(mime_a, mime_b);
}

#[test]
fn test_parameter_eq_is_order_independent_with_str() {
    let mime_a = MediaType::parse(r#"application/x-custom; param1=a; param2=b"#).unwrap();
    let mime_b = r#"application/x-custom; param2=b; param1=a"#;
    assert_eq!(mime_a, mime_b);
}

#[test]
fn test_name_eq_is_case_insensitive() {
    let mime1 = MediaType::parse(r#"text/x-custom; abc=a"#).unwrap();
    let mime2 = MediaType::parse(r#"text/x-custom; aBc=a"#).unwrap();
    assert_eq!(mime1, mime2);
}

#[test]
fn test_media_type_parse_star_fails() {
    MediaType::parse("*/*").expect_err("star/star");
    MediaType::parse("image/*").expect_err("image/star");
    MediaType::parse("text/*; charset=utf-8; q=0.9").expect_err("text/star;q");
}

#[test]
fn test_cmp_params_not_equal() {
    let mime1 = MediaType::parse("text/plain; aaa=bbb").unwrap();
    let mime2 = MediaType::parse("text/plain; ccc=ddd").unwrap();

    assert_ne!(mime1, mime2);
}

#[test]
fn media_type_without_params() {
    let html_xml_utf8 = MediaType::parse("text/html+xml; charset=utf-8").unwrap();
    assert!(html_xml_utf8.has_params());

    let html_xml = html_xml_utf8.without_params();
    assert!(!html_xml.has_params());
    assert_eq!(html_xml, "text/html+xml");
    assert_eq!(html_xml.suffix(), Some("xml"));

    let plain = text_plain_utf_8().without_params();
    assert_eq!(plain, text_plain());
    assert_eq!(plain.as_ref(), "text/plain");

    let same = text_plain().without_params();
    assert_eq!(same.as_ref(), "text/plain");
}

#[test]
fn media_type_eq_str_both_ways() {
    let mt = MediaType::parse("text/plain; charset=utf-8").unwrap();
    assert!(mt == *"TEXT/PLAIN; CHARSET=UTF-8");
    assert!(*"text/plain; charset=utf-8" == mt);
    assert!("text/plain; charset=utf-8" == mt);
    assert!(mt != "text/plain");
    assert!(mt != "garbage");
    assert!(text_plain() == "text/plain;");
    assert!(text_plain() != "text/*");
    assert!(mt.clone() == mt);
}
