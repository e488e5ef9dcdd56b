use mime::is_ascii_lowercase;
use mime::mime_parse::constants::{self, Atoms};
use mime::mime_parse::parsed::{lower_ascii_with_params, range};
use mime::mime_parse::rfc7231::{as_u16, is_restricted_quoted_char, params_from_str};
use mime::mime_parse::text::{bytes_eq, bytes_eq_ignore_case, range_eq, slice, to_lower};
use mime::mime_parse::{InternParams, Mime, ParamSource, ParseError, Parser, Source};

fn parse(src: &str) -> Mime {
    Parser::can_range().parse(src).unwrap()
}

#[test]
fn offsets() {
    let mime = parse("image/svg+xml; a=1");
    assert_eq!(mime.private_subtype_offset(), 5);
    assert_eq!(mime.private_suffix_offset(), Some(9));
    assert_eq!(mime.essence(), "image/svg+xml");
    assert_eq!(mime.as_ref(), "image/svg+xml; a=1");
    match mime.private_params_source() {
        ParamSource::One(semi, ((a, b), (c, d))) => {
            assert_eq!((*semi, *a, *b, *c, *d), (13, 15, 16, 17, 18));
        },
        other => panic!("expected one parameter, got {:?}", other),
    }
}

#[test]
fn the_first_plus_marks_the_suffix() {
    let mime = parse("application/x-custom+bad+suffix");
    assert_eq!(mime.private_suffix_offset(), Some(20));
    assert_eq!(mime.suffix(), Some("bad+suffix"));
    // a `+` that opens the subtype marks nothing
    let mime = parse("text/+xml");
    assert_eq!(mime.private_suffix_offset(), None);
    assert_eq!(mime.suffix(), None);
    assert_eq!(mime.subtype(), "+xml");
    let mime = parse("text/+a+b");
    assert_eq!(mime.suffix(), Some("b"));
    // the suffix ends where the parameters start
    let mime = parse("text/a+b; c=d+e");
    assert_eq!(mime.suffix(), Some("b"));
    let mime = parse("text/a+");
    assert_eq!(mime.suffix(), Some(""));
}

#[test]
fn an_empty_subtype_is_an_error() {
    assert!(matches!(Parser::can_range().parse("text/"), Err(ParseError::MissingSlash)));
    assert!(matches!(Parser::cannot_range().parse("text/"), Err(ParseError::MissingSlash)));
    assert!(matches!(
        Parser::cannot_range().parse("text/;a=b"),
        Err(ParseError::InvalidToken { pos: 5, .. })
    ));
    assert!(matches!(
        Parser::cannot_range().parse("text/ a=b"),
        Err(ParseError::InvalidToken { pos: 5, .. })
    ));
    assert!(Parser::cannot_range().parse("text/p").is_ok());
}

#[test]
fn shapes() {
    assert!(matches!(parse("a/b").private_params_source(), ParamSource::Empty));
    assert!(matches!(parse("a/b;").private_params_source(), ParamSource::Empty));
    assert!(matches!(parse("a/b; charset=utf-8").private_params_source(), ParamSource::Utf8(3)));
    assert!(matches!(parse("a/b;;CHARSET=UTF-8").private_params_source(), ParamSource::Utf8(3)));
    assert!(matches!(parse("a/b ;charset=utf-8").private_params_source(), ParamSource::Utf8(3)));
    // one byte too far behind the separator, or quoted: an ordinary parameter
    assert!(matches!(parse("a/b;charset=utf-8").private_params_source(), ParamSource::One(..)));
    assert!(matches!(parse("a/b;  charset=utf-8").private_params_source(), ParamSource::One(..)));
    assert!(
        matches!(parse("a/b; charset=\"utf-8\"").private_params_source(), ParamSource::One(..))
    );
    assert!(matches!(parse("a/b; charset=utf-16").private_params_source(), ParamSource::One(..)));
    match parse("a/b; charset=utf-8; x=y").private_params_source() {
        ParamSource::Two(3, charset, other) => {
            assert_eq!(*charset, ((5, 12), (13, 18)));
            assert_eq!(*other, ((20, 21), (22, 23)));
        },
        other => panic!("expected two parameters, got {:?}", other),
    }
    assert!(matches!(parse("a/b; x=y; charset=utf-8").private_params_source(), ParamSource::Two(..)));
    match parse("a/b; x=y; charset=utf-8; z=\"\"").private_params_source() {
        ParamSource::Custom(3, pairs) => {
            assert_eq!(pairs.len(), 3);
            assert_eq!(pairs[2], ((25, 26), (27, 29)));
        },
        other => panic!("expected three parameters, got {:?}", other),
    }
    match parse("a/b; a=1; b=2; c=3; d=4").private_params_source() {
        ParamSource::Custom(3, pairs) => assert_eq!(pairs.len(), 4),
        other => panic!("expected four parameters, got {:?}", other),
    }
}

#[test]
fn params_cursor() {
    let mime = parse("a/b; x=1; charset=UTF-8; y=\"2 3\"");
    let mut params = mime.params();
    assert_eq!(params.size_hint(), (3, Some(3)));
    assert_eq!(params.next(), Some(("x", "1")));
    assert_eq!(params.size_hint(), (2, Some(2)));
    assert_eq!(params.next(), Some(("charset", "utf-8")));
    assert_eq!(params.next(), Some(("y", "\"2 3\"")));
    assert_eq!(params.size_hint(), (0, Some(0)));
    assert_eq!(params.next(), None);
    assert_eq!(params.next(), None);

    // the words of `charset=utf-8` do not come from the text
    let mime = parse("a/b;;CHARSET=UTF-8");
    let mut params = mime.params();
    assert_eq!(params.size_hint(), (1, Some(1)));
    assert_eq!(params.next(), Some(("charset", "utf-8")));
    assert_eq!(params.next(), None);

    let mime = parse("a/b; x=1; y=2");
    let mut params = mime.params();
    assert_eq!(params.size_hint(), (2, Some(2)));
    assert_eq!(params.next(), Some(("x", "1")));
    assert_eq!(params.next(), Some(("y", "2")));
    assert_eq!(params.next(), None);
}

#[test]
fn param_finds_the_first_of_a_name() {
    let mime = parse("a/b; x=1; X=2; y=3");
    assert_eq!(mime.param("x"), Some("1"));
    assert_eq!(mime.param("y"), Some("3"));
    // names are kept in lower case and looked up byte for byte
    assert_eq!(mime.param("X"), None);
    assert_eq!(mime.param(""), None);
}

#[test]
fn parameters_separated_by_spaces() {
    let mime = parse("a/b x=y z=w");
    assert_eq!(mime.essence(), "a/b");
    assert_eq!(mime.param("x"), Some("y"));
    assert_eq!(mime.param("z"), Some("w"));
    let mime = parse("a/b; x=\"y\"z=w");
    assert_eq!(mime.param("x"), Some("\"y\""));
    assert_eq!(mime.param("z"), Some("w"));
    let mime = parse("a/b; x=");
    assert_eq!(mime.param("x"), Some(""));
}

#[test]
fn without_params() {
    let mime = parse("TEXT/Plain; a=1").without_params();
    assert_eq!(mime.as_ref(), "text/plain");
    assert_ne!(mime.private_atom(), 0);
    assert!(!mime.has_params());

    let mime = parse("a/b+c; a=1; b=2; c=3").without_params();
    assert_eq!(mime.as_ref(), "a/b+c");
    assert_eq!(mime.private_atom(), 0);
    assert_eq!(mime.suffix(), Some("c"));

    let mime = parse("text/*; q=1").without_params();
    assert_eq!(mime.as_ref(), "text/*");
    assert_eq!(mime.private_atom(), constants::text_star().private_atom());
}

#[test]
fn interning() {
    let source = Atoms::intern("text/plain", 4, InternParams::Bare);
    assert!(matches!(source, Source::Atom(1, "text/plain")));
    let source = Atoms::intern("TEXT/plain", 4, InternParams::Bare);
    assert!(matches!(&source, Source::Dynamic(s) if s == "text/plain"));
    let source = Atoms::intern_no_params("application/x-www-form-urlencoded", 11);
    assert!(matches!(source, Source::Atom(25, "application/x-www-form-urlencoded")));
    let source = Atoms::intern_no_params("application/X", 11);
    assert!(matches!(&source, Source::Dynamic(s) if s == "application/x"));
    assert_eq!(Atoms::find_no_params(b"video/*", 5), 33);
    assert_eq!(Atoms::find_no_params(b"video/x", 5), 0);
    assert_eq!(Atoms::find_no_params(b"model/*", 5), 0);

    // what follows the subtype of a table entry with `charset=utf-8` is
    // not looked at
    let source = Atoms::intern("text/html;;CHARSET=UTF-8", 4, InternParams::Utf8(9));
    assert!(matches!(source, Source::Atom(4, "text/html; charset=utf-8")));
    let source = Atoms::intern_charset_utf8("application/javascript; charset=utf-8", 11, 22);
    assert!(matches!(source, Source::Atom(24, _)));
    let source = Atoms::intern_charset_utf8("text/xml; Charset=utf-8", 4, 8);
    assert!(matches!(&source, Source::Dynamic(s) if s == "text/xml; charset=utf-8"));
    assert_eq!(source.as_ref(), "text/xml; charset=utf-8");

    // a text that names no entry is an owned copy, also where it looks
    // like one of another type
    let source = Atoms::intern_no_params("audio/png", 5);
    assert!(matches!(&source, Source::Dynamic(s) if s == "audio/png"));
    let source = Atoms::intern_no_params("image/PNG", 5);
    assert!(matches!(&source, Source::Dynamic(s) if s == "image/png"));
    let source = Atoms::intern_charset_utf8("text/xml; charset=utf-8", 4, 8);
    assert!(matches!(&source, Source::Dynamic(s) if s == "text/xml; charset=utf-8"));
    let source = Atoms::intern_charset_utf8("image/png; charset=utf-8", 5, 9);
    assert!(matches!(&source, Source::Dynamic(s) if s == "image/png; charset=utf-8"));

    let source = Atoms::dynamic("A/B; C=D");
    assert!(matches!(&source, Source::Dynamic(s) if s == "a/b; c=d"));
    let source = Atoms::entry(30);
    assert!(matches!(source.clone(), Source::Atom(30, "*/*")));
}

#[test]
fn every_table_entry_parses_to_itself() {
    for id in 1..=constants::ATOM_COUNT {
        let entry = constants::atom(id);
        assert_eq!(entry.private_atom(), id);
        let parsed = parse(entry.as_ref());
        assert_eq!(parsed.private_atom(), id, "{:?}", entry.as_ref());
        assert_eq!(parsed.private_subtype_offset(), entry.private_subtype_offset());
        assert_eq!(parsed.private_suffix_offset(), entry.private_suffix_offset());
        assert_eq!(parsed.has_params(), entry.has_params());
        assert_eq!(parsed.essence(), entry.essence());
        assert_eq!(parsed.as_ref(), entry.as_ref());
        if id < 30 {
            let exact = Parser::cannot_range().parse(entry.as_ref()).unwrap();
            assert_eq!(exact.private_atom(), id);
        }
        let slash = entry.as_ref().as_bytes()[entry.private_subtype_offset() as usize];
        assert_eq!(slash, b'/');
        if let ParamSource::Utf8(semicolon) = entry.private_params_source() {
            assert_eq!(&entry.as_ref()[*semicolon as usize..], "; charset=utf-8");
            assert_eq!(entry.param("charset"), Some("utf-8"));
        } else {
            assert!(!entry.as_ref().contains(';'));
        }
    }
    assert_eq!(constants::image_svg().suffix(), Some("xml"));
    assert_eq!(constants::star_star().as_ref(), "*/*");
    assert_eq!(constants::application_dns().subtype(), "dns-message");
}

#[test]
fn lowering_with_params() {
    let s = "A/B; CHARSET=UTF-16; X=Y";
    let pairs = [((5, 12), (13, 19)), ((21, 22), (23, 24))];
    assert_eq!(lower_ascii_with_params(s, 3, &pairs), "a/b; charset=utf-16; x=Y");
    assert_eq!(lower_ascii_with_params(s, 3, &pairs[1..]), "a/b; CHARSET=UTF-16; x=Y");
    assert_eq!(lower_ascii_with_params(s, 0, &[]), s);
    // the ranges need not be those of a scan: they may adjoin, overlap or
    // be empty, and a value is folded only under the name `charset`
    assert_eq!(lower_ascii_with_params("ABCDEF", 0, &[((0, 2), (2, 4))]), "abCDEF");
    assert_eq!(lower_ascii_with_params("ABCDEF", 1, &[((3, 3), (0, 6))]), "aBCDEF");
    assert_eq!(lower_ascii_with_params("CHARSETXY", 0, &[((0, 7), (7, 9))]), "charsetxy");
    assert_eq!(lower_ascii_with_params("CHARSETXY", 0, &[((0, 7), (5, 9))]), "charsetxy");
    assert_eq!(lower_ascii_with_params("CHARSETSXY", 0, &[((0, 8), (8, 10))]), "charsetsXY");
    assert_eq!(lower_ascii_with_params("A/\u{c4}; X=\"\u{c4}B\"", 4, &[((6, 7), (8, 13))]),
        "a/\u{c4}; x=\"\u{c4}B\"");
}

#[test]
fn scanning_parameters_alone() {
    assert!(matches!(params_from_str("a/b;", 3), Ok(ParamSource::Empty)));
    assert!(matches!(params_from_str("a/b; ;; ", 3), Ok(ParamSource::Empty)));
    assert!(matches!(params_from_str("a/b; x=y", 3), Ok(ParamSource::One(3, ((5, 6), (7, 8))))));
    assert!(params_from_str("a/b; x", 3).is_err());
}

#[test]
fn byte_helpers() {
    assert_eq!(to_lower(b'A'), b'a');
    assert_eq!(to_lower(b'Z'), b'z');
    assert_eq!(to_lower(b'@'), b'@');
    assert_eq!(to_lower(b'['), b'[');
    assert_eq!(to_lower(b'a'), b'a');
    assert_eq!(to_lower(0xc4), 0xc4);
    assert!(bytes_eq(b"abc", b"abc"));
    assert!(!bytes_eq(b"abc", b"abd"));
    assert!(!bytes_eq(b"abc", b"ab"));
    assert!(bytes_eq(b"", b""));
    assert!(bytes_eq_ignore_case(b"aBc-1", b"AbC-1"));
    assert!(!bytes_eq_ignore_case(b"a[c", b"a{c"));
    assert!(!bytes_eq_ignore_case(b"abc", b"abcd"));
    assert!(range_eq(b"text/plain", 5, 10, "plain"));
    assert!(!range_eq(b"text/plain", 5, 10, "plai"));
    assert!(!range_eq(b"text/plain", 5, 10, "Plain"));
    assert!(range_eq(b"text/plain", 4, 4, ""));
    assert_eq!(slice("text/plain", 5, 10), "plain");
    assert_eq!(slice("text/plain", 0, 4), "text");
    assert_eq!(slice("a/\u{e4};x", 0, 4), "a/\u{e4}");
    assert_eq!(slice("abc", 3, 3), "");
    assert_eq!(range((3, 7)), 3..7);
    assert_eq!(as_u16(65_535), 65_535u16);
    assert!(is_restricted_quoted_char(9));
    assert!(!is_restricted_quoted_char(10));
    assert!(is_restricted_quoted_char(b' '));
    assert!(!is_restricted_quoted_char(127));
    assert!(is_restricted_quoted_char(200));
    assert!(is_ascii_lowercase("text/plain; x=1"));
    assert!(!is_ascii_lowercase("text/Plain"));
    assert!(is_ascii_lowercase("stra\u{df}e"));
    assert!(is_ascii_lowercase(""));
}

#[test]
fn clones_are_equal() {
    let mime = parse("a/b; x=1; y=2; z=3");
    let copy = mime.clone();
    assert_eq!(copy.as_ref(), mime.as_ref());
    assert_eq!(copy.private_subtype_offset(), mime.private_subtype_offset());
    assert_eq!(copy.param("z"), Some("3"));
    let shape = mime.private_params_source().clone();
    assert!(matches!(shape, ParamSource::Custom(3, ref pairs) if pairs.len() == 3));
}
