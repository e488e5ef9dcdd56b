use mime::mime_parse::{Byte, Mime, ParseError, Parser};
use mime::{InvalidMime, MediaRange, MediaType};

fn exact(src: &str) -> Result<Mime, ParseError> {
    Parser::cannot_range().parse(src)
}

fn range(src: &str) -> Result<Mime, ParseError> {
    Parser::can_range().parse(src)
}

fn invalid_token(r: Result<Mime, ParseError>) -> (usize, u8) {
    match r.unwrap_err() {
        ParseError::InvalidToken { pos, byte } => (pos, byte.0),
        other => panic!("expected an invalid token, got {:?}", other),
    }
}

#[test]
fn missing_slash() {
    assert!(matches!(exact("text").unwrap_err(), ParseError::MissingSlash));
    assert!(matches!(exact("").unwrap_err(), ParseError::MissingSlash));
    // a text that ends right behind the `/` lacks its subtype
    assert!(matches!(exact("text/").unwrap_err(), ParseError::MissingSlash));
    assert!(matches!(range("text/").unwrap_err(), ParseError::MissingSlash));
}

#[test]
fn missing_equal() {
    assert!(matches!(exact("a/b; x").unwrap_err(), ParseError::MissingEqual));
    assert!(matches!(exact("a/b; x=1; yz").unwrap_err(), ParseError::MissingEqual));
    // a space ends the subtype, and what follows is read as a parameter
    assert!(matches!(exact("text/plai n").unwrap_err(), ParseError::MissingEqual));
}

#[test]
fn missing_quote() {
    assert!(matches!(exact("a/b; x=\"abc").unwrap_err(), ParseError::MissingQuote));
    assert!(matches!(exact("a/b; x=\"").unwrap_err(), ParseError::MissingQuote));
    assert!(matches!(exact("a/b; x=\"abc\\").unwrap_err(), ParseError::MissingQuote));
    assert!(matches!(exact("a/b; x=\"abc\\\"").unwrap_err(), ParseError::MissingQuote));
}

#[test]
fn invalid_token_says_where_and_what() {
    assert_eq!(invalid_token(exact("te xt/plain")), (2, b' '));
    assert_eq!(invalid_token(exact("/plain")), (0, b'/'));
    assert_eq!(invalid_token(exact("text/plai\tn")), (9, b'\t'));
    assert_eq!(invalid_token(exact("text/;x=1")), (5, b';'));
    assert_eq!(invalid_token(exact("text/plain; =1")), (12, b'='));
    assert_eq!(invalid_token(exact("text/plain; charset =utf-8")), (19, b' '));
    assert_eq!(invalid_token(exact("text/plain; charset= utf-8")), (20, b' '));
    assert_eq!(invalid_token(exact("text/plain; x=;")), (14, b';'));
    assert_eq!(invalid_token(exact("text/plain; x=\"a\nb\"")), (16, b'\n'));
    assert_eq!(invalid_token(exact("text/plain; x=\"a\\\nb\"")), (17, b'\n'));
    assert_eq!(invalid_token(exact("text/pl\u{e4}in")), (7, 0xc3));
    assert_eq!(invalid_token(exact("a/b/c")), (3, b'/'));
}

#[test]
fn invalid_token_for_stars() {
    // an exact type takes no star
    assert_eq!(invalid_token(exact("image/*")), (6, b'*'));
    assert_eq!(invalid_token(exact("*/plain")), (0, b'*'));
    // a range takes a star as the whole subtype only
    assert_eq!(invalid_token(range("text/*plain")), (6, b'p'));
    assert_eq!(invalid_token(range("text/* ;q=1")), (6, b' '));
    assert_eq!(invalid_token(range("text/pl*in")), (7, b'*'));
    assert_eq!(invalid_token(range("*/plain")), (0, b'*'));
    assert!(range("text/*;q=1").is_ok());
    assert!(range("text/*").is_ok());
}

#[test]
fn invalid_range() {
    assert!(matches!(exact("*/*").unwrap_err(), ParseError::InvalidRange));
    assert!(range("*/*").is_ok());
    // only the very text `*/*` is the range of that name
    assert_eq!(invalid_token(range("*/*;q=1")), (0, b'*'));
}

#[test]
fn too_long() {
    let mut s = String::from("a/");
    while s.len() < 65_535 {
        s.push('b');
    }
    assert!(exact(&s).is_ok());
    s.push('b');
    assert!(matches!(exact(&s).unwrap_err(), ParseError::TooLong));
    // the length is looked at first
    let mut bad = String::from(" ");
    while bad.len() < 65_536 {
        bad.push(' ');
    }
    assert!(matches!(exact(&bad).unwrap_err(), ParseError::TooLong));
}

#[test]
fn messages() {
    assert_eq!(
        ParseError::MissingSlash.to_string(),
        "a slash (/) was missing between the type and subtype"
    );
    assert_eq!(
        ParseError::MissingEqual.to_string(),
        "an equals sign (=) was missing between a parameter and its value"
    );
    assert_eq!(
        ParseError::MissingQuote.to_string(),
        "a quote (\") was missing from a parameter value"
    );
    assert_eq!(ParseError::InvalidRange.to_string(), "unexpected asterisk");
    assert_eq!(ParseError::TooLong.to_string(), "the string is too long");
    assert_eq!(
        ParseError::InvalidToken { pos: 2, byte: Byte(b' ') }.to_string(),
        "invalid token, ' ' at position 2"
    );
    assert_eq!(
        ParseError::InvalidToken { pos: 65_534, byte: Byte(0xc3) }.to_string(),
        "invalid token, '\\xc3' at position 65534"
    );
    assert_eq!(
        ParseError::InvalidToken { pos: 0, byte: Byte(b'\n') }.to_string(),
        "invalid token, '\\n' at position 0"
    );
    assert_eq!(ParseError::InvalidToken { pos: 10, byte: Byte(1) }.description(), "invalid token");
}

#[test]
fn escaped_bytes() {
    assert_eq!(Byte(b'\n').escaped(), "'\\n'");
    assert_eq!(Byte(b'\r').escaped(), "'\\r'");
    assert_eq!(Byte(b'\t').escaped(), "'\\t'");
    assert_eq!(Byte(b'\\').escaped(), "'\\'");
    assert_eq!(Byte(0).escaped(), "'\\0'");
    assert_eq!(Byte(b' ').escaped(), "' '");
    assert_eq!(Byte(b'a').escaped(), "'a'");
    assert_eq!(Byte(b'\'').escaped(), "'''");
    assert_eq!(Byte(0x7f).escaped(), "'\u{7f}'");
    assert_eq!(Byte(0x01).escaped(), "'\\x01'");
    assert_eq!(Byte(0x1f).escaped(), "'\\x1f'");
    assert_eq!(Byte(0x80).escaped(), "'\\x80'");
    assert_eq!(Byte(0xff).escaped(), "'\\xff'");
}

#[test]
fn invalid_mime() {
    let err: InvalidMime = MediaType::parse("text").unwrap_err();
    assert!(matches!(err.parse_error(), ParseError::MissingSlash));
    assert_eq!(
        err.to_string(),
        "invalid MIME: a slash (/) was missing between the type and subtype"
    );
    let err = MediaRange::parse("text/*plain").unwrap_err();
    assert_eq!(err.to_string(), "invalid MIME: invalid token, 'p' at position 6");
    let err = "*/*".parse::<MediaType>().unwrap_err();
    assert_eq!(err.to_string(), "invalid MIME: unexpected asterisk");
}
