use mime::mime_parse::{Mime, ParseError, Parser};
use mime::{text_plain, MediaRange, MediaType};

fn exact(src: &str) -> Mime {
    Parser::cannot_range().parse(src).unwrap()
}

#[test]
fn round_trip_folds_names_and_keeps_values() {
    let mime = exact("TEXT/Plain+XML; Foo=Bar; CHARSET=UTF-16; x=\"Q;q\"");
    assert_eq!(mime.to_string(), "text/plain+xml; foo=Bar; charset=utf-16; x=\"Q;q\"");

    let mime = exact("A/B;X=Y");
    assert_eq!(mime.to_string(), "a/b;x=Y");

    let mime = exact("Text/HTML; Charset=UTF-8");
    assert_eq!(mime.to_string(), "text/html; charset=utf-8");

    let mime = exact("x/y;;CHARSET=Utf-8 ;");
    assert_eq!(mime.to_string(), "x/y;;charset=utf-8 ;");
}

#[test]
fn round_trip_does_not_keep_an_empty_parameter_list() {
    assert_eq!(exact("text/plain;").to_string(), "text/plain");
    assert_eq!(exact("a/b ; ").to_string(), "a/b");
}

#[test]
fn round_trip_does_not_keep_another_spelling_of_a_table_entry() {
    assert_eq!(exact("text/plain;;charset=utf-8").to_string(), "text/plain; charset=utf-8");
    assert_eq!(exact("text/css; charset=utf-8;").to_string(), "text/css; charset=utf-8");
    assert_eq!(exact("text/csv ;CHARSET=UTF-8").to_string(), "text/csv; charset=utf-8");
}

#[test]
fn idempotence() {
    let cases = [
        "text/plain",
        "TEXT/PLAIN",
        "text/plain;",
        "Text/Plain; Charset=UTF-8",
        "text/plain;;charset=utf-8",
        "x/y; CHARSET=utf-8",
        "multipart/form-data; boundary=ABCDEFG",
        "a/b; x=1; y=2; z=\"3\"",
        "image/svg+xml",
        "a/b x=y",
        "a/b; x=1; x=2",
        "a/b; X=1; x=1; charset=A; CHARSET=a",
    ];
    for case in cases {
        let first = MediaType::parse(case).unwrap();
        let second = MediaType::parse(first.to_string().as_str()).unwrap();
        assert_eq!(second, first, "case = {:?}", case);
    }
    let any = MediaRange::parse("*/*").unwrap();
    assert_eq!(MediaRange::parse(any.to_string().as_str()).unwrap(), any);
}

#[test]
fn a_name_may_stand_twice() {
    let twice = MediaType::parse("a/b; x=1; x=2").unwrap();
    assert_eq!(twice, twice.clone());
    let second = MediaType::parse(twice.to_string().as_str()).unwrap();
    assert_eq!(second, twice);
    assert_eq!(twice, second);
    assert_eq!(twice, MediaType::parse("a/b; x=2; x=1").unwrap());

    // each parameter counts as often as it stands
    let same = MediaType::parse("a/b; x=1; x=1").unwrap();
    let other = MediaType::parse("a/b; x=1; y=2").unwrap();
    assert_eq!(same, same.clone());
    assert_ne!(same, other);
    assert_ne!(other, same);
    assert_ne!(same, twice);
    assert_ne!(twice, same);
    assert_ne!(
        MediaType::parse("a/b; x=1; x=1; y=2").unwrap(),
        MediaType::parse("a/b; x=1; y=2; y=2").unwrap()
    );
    assert_eq!(
        MediaType::parse("a/b; x=1; y=2; x=1").unwrap(),
        MediaType::parse("a/b; y=2; x=\"1\"; x=1").unwrap()
    );
}

#[test]
fn equality_is_symmetric() {
    let texts = [
        "a/b",
        "a/b; x=1",
        "a/b; x=1; x=1",
        "a/b; x=1; y=2",
        "a/b; y=2; x=1",
        "a/b; charset=UTF-8",
        "a/b; charset=utf-8",
        "a/b; charset=utf-8; x=1",
        "text/plain",
        "text/plain; charset=utf-8",
        "TEXT/PLAIN;  charset=utf-8",
    ];
    for s in texts {
        for t in texts {
            let a = MediaType::parse(s).unwrap();
            let b = MediaType::parse(t).unwrap();
            assert_eq!(a == b, b == a, "{:?} and {:?}", s, t);
        }
        let a = MediaType::parse(s).unwrap();
        assert_eq!(a, a.clone(), "{:?}", s);
    }
}

#[test]
fn equality_is_transitive() {
    let texts = [
        "text/plain",
        "TEXT/PLAIN",
        "Text/Plain;",
        "text/plain; charset=utf-8",
        "TEXT/plain;;CHARSET=UTF-8",
        "text/plain;charset=\"utf-8\"",
        "a/b; x=1; y=2",
        "A/B; Y=2; X=1",
        "a/b; x=1; x=1",
    ];
    for s in texts {
        for t in texts {
            for u in texts {
                let a = MediaType::parse(s).unwrap();
                let b = MediaType::parse(t).unwrap();
                let c = MediaType::parse(u).unwrap();
                if a == b && b == c {
                    assert_eq!(a, c, "{:?}, {:?} and {:?}", s, t, u);
                }
            }
        }
    }
    assert_eq!(
        MediaType::parse("text/plain;charset=\"utf-8\"").unwrap(),
        MediaType::parse("TEXT/plain;;CHARSET=UTF-8").unwrap()
    );
}

#[test]
fn case_insensitivity() {
    assert_eq!(MediaType::parse("TEXT/PLAIN").unwrap(), MediaType::parse("text/plain").unwrap());
    assert_eq!(
        MediaType::parse("text/plain;CHARSET=UTF-8").unwrap(),
        MediaType::parse("text/plain;charset=utf-8").unwrap()
    );
    assert_eq!(
        MediaType::parse("a/b; X=1").unwrap(),
        MediaType::parse("A/B; x=1").unwrap()
    );
}

#[test]
fn parameter_order_independence() {
    assert_eq!(
        MediaType::parse("a/b; x=1; y=2").unwrap(),
        MediaType::parse("a/b; y=2; x=1").unwrap()
    );
    assert_eq!(
        MediaType::parse("a/b; x=1; y=2; z=3").unwrap(),
        MediaType::parse("a/b; z=3; x=1; y=2").unwrap()
    );
    assert_ne!(
        MediaType::parse("a/b; x=1; y=2").unwrap(),
        MediaType::parse("a/b; x=1; y=2; z=3").unwrap()
    );
}

#[test]
fn value_case_sensitivity() {
    assert_ne!(MediaType::parse("a/b; x=AB").unwrap(), MediaType::parse("a/b; x=ab").unwrap());
    assert_eq!(
        MediaType::parse("a/b; charset=AB").unwrap(),
        MediaType::parse("a/b; charset=ab").unwrap()
    );
    assert_eq!(
        MediaType::parse("a/b; x=\"AB\"").unwrap(),
        MediaType::parse("a/b; x=AB").unwrap()
    );
}

#[test]
fn wildcard_gating() {
    let err = Parser::cannot_range().parse("*/*").unwrap_err();
    assert!(matches!(err, ParseError::InvalidRange));

    let any = MediaRange::parse("*/*").unwrap();
    let plain = MediaType::parse("text/plain").unwrap();
    assert!(any.matches(&plain));
    assert_ne!(any, MediaRange::from(plain));
}

#[test]
fn atom_fast_path() {
    let a = Parser::cannot_range().parse("text/plain; charset=utf-8").unwrap();
    let b = Parser::cannot_range().parse("text/plain; charset=utf-8").unwrap();
    assert_ne!(a.private_atom(), 0);
    assert_eq!(a.private_atom(), b.private_atom());

    // a text that names no entry has identity 0
    let c = Parser::cannot_range().parse("text/plain; charset=utf-16").unwrap();
    assert_eq!(c.private_atom(), 0);
    let d = Parser::cannot_range().parse("TEXT/PLAIN").unwrap();
    assert_eq!(d.private_atom(), 0);
    // and is still equal to the entry that it names up to case
    assert_eq!(MediaType::parse("TEXT/PLAIN").unwrap(), text_plain());
}

#[test]
fn scenarios() {
    let mime = exact("text/plain");
    assert_eq!(mime.type_(), "text");
    assert_eq!(mime.subtype(), "plain");
    assert!(!mime.has_params());
    assert_eq!(mime.params().size_hint(), (0, Some(0)));

    let mime = exact("image/svg+xml");
    assert_eq!(mime.type_(), "image");
    assert_eq!(mime.subtype(), "svg+xml");
    assert_eq!(mime.suffix(), Some("xml"));

    let mime = MediaType::parse("multipart/form-data; boundary=ABCDEFG").unwrap();
    let params = mime.params();
    assert_eq!(params.len(), 1);
    assert_eq!(params[0].0, "boundary");
    assert_eq!(params[0].1.as_str_repr(), "ABCDEFG");

    assert_eq!(MediaType::parse("text/plain;").unwrap(), MediaType::parse("text/plain").unwrap());

    let mime = MediaType::parse("a/b; p=\"x\\\"y\"").unwrap();
    assert_eq!(mime.param("p").unwrap().to_content(), "x\"y");
    assert_eq!(mime.param("p").unwrap(), "x\"y");
}
