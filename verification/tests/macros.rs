use mime::{media_type, text_plain, text_plain_utf_8, utf_8, MediaType};
use mime::{CHARSET, FORM_DATA, MULTIPART, PLAIN, TEXT, XML};

#[test]
fn media_type_atom() {
    let a = media_type("text/plain").unwrap();
    let b = media_type("text/plain").unwrap();

    assert_eq!(a, text_plain());
    assert_eq!(b, text_plain());
    assert_eq!(a, b);
}

#[test]
fn media_type_custom() {
    let foo = media_type("text/foo").unwrap();
    assert_eq!(foo.type_(), TEXT);
    assert_eq!(foo.subtype(), "foo");
    assert_eq!(foo.suffix(), None);
    assert!(!foo.has_params());

    let parsed = MediaType::parse("text/foo").unwrap();
    assert_eq!(foo, parsed);

    let foo2 = media_type("text/foo").unwrap();
    assert_eq!(foo, foo2);

    let bar = media_type("text/bar").unwrap();
    assert_ne!(foo, bar);
}

#[test]
fn media_type_suffix() {
    let svg = media_type("image/svg+xml").unwrap();
    assert_eq!(svg.type_(), "image");
    assert_eq!(svg.subtype(), "svg+xml");
    assert_eq!(svg.suffix(), Some(XML));
    assert!(!svg.has_params());
}

#[test]
fn media_type_atom_utf8() {
    let utf8 = media_type("text/plain; charset=utf-8").unwrap();
    assert_eq!(utf8.type_(), TEXT);
    assert_eq!(utf8.subtype(), PLAIN);
    assert_eq!(utf8.suffix(), None);
    assert_eq!(utf8.param(CHARSET), Some(utf_8()));
    assert_eq!(utf8, text_plain_utf_8());
}

#[test]
fn media_type_one_param() {
    let mt = media_type("multipart/form-data; boundary=AbCd").unwrap();
    assert_eq!(mt.type_(), MULTIPART);
    assert_eq!(mt.subtype(), FORM_DATA);
    assert_eq!(mt.suffix(), None);
    assert_eq!(mt.param("boundary").unwrap(), "AbCd");
}

#[test]
fn media_type_lowercase() {
    let mt = media_type("MULTIPART/FORM-DATA; BOUNDARY=AbCd").unwrap();
    assert_eq!(mt.to_string(), "multipart/form-data; boundary=AbCd");
}

#[test]
fn media_type_literal_rejects_ranges() {
    assert_eq!(
        media_type("text/*").unwrap_err(),
        "invalid MediaType: invalid token, '*' at position 5"
    );
    assert_eq!(media_type("*/*").unwrap_err(), "invalid MediaType: unexpected asterisk");
}

#[test]
fn media_type_literal_rejects_two_parameters() {
    assert_eq!(
        media_type("multipart/form-data; boundary=abcd; two=2").unwrap_err(),
        "multiple parameters not supported yet"
    );
    assert!(media_type("text/plain; charset=utf-8").is_ok());
    assert!(media_type("text/plain; one=1").is_ok());
}
