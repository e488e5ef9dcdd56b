use mime::{
    image_gif, star_star, text_html, text_html_utf_8, text_plain, text_plain_utf_8, text_star,
    MediaRange, MediaType,
};

#[test]
fn media_range_from_str() {
    // exact types
    assert_eq!(MediaRange::parse("text/plain").unwrap(), MediaRange::from(text_plain()));

    // stars
    let any = "*/*".parse::<MediaRange>().unwrap();
    assert_eq!(any, "*/*");
    assert_eq!(any, star_star());
    assert_eq!("image/*".parse::<MediaRange>().unwrap(), "image/*");
    assert_eq!("text/*; charset=utf-8".parse::<MediaRange>().unwrap(), "text/*; charset=utf-8");

    // bad stars
    MediaRange::parse("text/*plain").unwrap_err();
}

#[test]
fn media_range_matches() {
    assert!(star_star().matches(&text_plain()), "*/* matches everything");

    assert!(text_star().matches(&text_plain()), "text/* matches text/plain");
    assert!(text_star().matches(&text_html()), "text/* matches text/html");
    assert!(text_star().matches(&text_html_utf_8()), "text/* matches text/html; charset=utf-8");

    assert!(!text_star().matches(&image_gif()), "text/* doesn't match image/gif");
}

#[test]
fn media_range_matches_params() {
    let text_any_utf8 = MediaRange::parse("text/*; charset=utf-8").unwrap();

    assert!(text_any_utf8.matches(&text_plain_utf_8()));
    assert!(text_any_utf8.matches(&text_html_utf_8()));

    assert!(!text_any_utf8.matches(&text_html()));

    let many_params = MediaType::parse("text/plain; charset=utf-8; foo=bar").unwrap();
    assert!(text_any_utf8.matches(&many_params));

    let text_plain = MediaRange::parse("text/plain").unwrap();
    assert!(text_plain.matches(&many_params));
}

#[test]
fn media_range_matches_skips_q() {
    let range = MediaRange::parse("text/*; q=0.8").unwrap();

    assert!(range.matches(&text_plain_utf_8()));
    assert!(range.matches(&text_html_utf_8()));

    let range = MediaRange::parse("text/*; charset=utf-8; q=0.8").unwrap();

    assert!(range.matches(&text_plain_utf_8()));
    assert!(range.matches(&text_html_utf_8()));
    assert!(!range.matches(&text_html()));
}

#[test]
fn media_range_accessors() {
    let range = MediaRange::parse("image/svg+xml; a=1; b=2").unwrap();
    assert_eq!(range.type_(), "image");
    assert_eq!(range.subtype(), "svg+xml");
    assert_eq!(range.suffix(), Some("xml"));
    assert!(range.has_params());
    assert_eq!(range.param("b").unwrap(), "2");
    assert!(range.param("c").is_none());
    let params = range.params();
    assert_eq!(params.len(), 2);
    assert_eq!(params[0].0, "a");
    assert_eq!(params[0].1, "1");
    assert_eq!(params[1].0, "b");
    assert_eq!(range.as_ref(), "image/svg+xml; a=1; b=2");
    assert_eq!(range.to_string(), "image/svg+xml; a=1; b=2");

    let any = star_star();
    assert_eq!(any.type_(), "*");
    assert_eq!(any.subtype(), "*");
    assert_eq!(any.suffix(), None);
    assert!(!any.has_params());
}

#[test]
fn media_range_does_not_match_other_subtype_or_value() {
    let range = MediaRange::parse("text/plain; format=flowed").unwrap();
    assert!(!range.matches(&text_html()));
    assert!(!range.matches(&text_plain()));
    assert!(range.matches(&MediaType::parse("text/plain; format=flowed").unwrap()));
    assert!(!range.matches(&MediaType::parse("text/plain; format=fixed").unwrap()));
    assert!(!range.matches(&MediaType::parse("text/plain; format=FLOWED").unwrap()));
}
