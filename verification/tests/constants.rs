use mime::constants;
use mime::mime_parse::constants::names;
use mime::{InvalidMime, MediaRange, MediaType, Value};

fn assert_send_sync<T: Send + Sync>() {}

#[test]
fn types_are_send_and_sync() {
    assert_send_sync::<InvalidMime>();
    assert_send_sync::<MediaRange>();
    assert_send_sync::<MediaType>();
    assert_send_sync::<Value>();
}

#[test]
fn media_type_constants_hold_no_asterisk() {
    let all = [
        constants::text_plain(),
        constants::text_plain_utf_8(),
        constants::text_html(),
        constants::text_html_utf_8(),
        constants::text_css(),
        constants::text_css_utf_8(),
        constants::text_javascript(),
        constants::text_xml(),
        constants::text_event_stream(),
        constants::text_csv(),
        constants::text_csv_utf_8(),
        constants::text_tab_separated_values(),
        constants::text_tab_separated_values_utf_8(),
        constants::text_vcard(),
        constants::image_jpeg(),
        constants::image_gif(),
        constants::image_png(),
        constants::image_bmp(),
        constants::image_svg(),
        constants::font_woff(),
        constants::font_woff2(),
        constants::application_json(),
        constants::application_javascript(),
        constants::application_javascript_utf_8(),
        constants::application_www_form_urlencoded(),
        constants::application_octet_stream(),
        constants::application_msgpack(),
        constants::application_pdf(),
        constants::application_dns(),
    ];
    for constant in &all {
        assert!(!constant.as_ref().contains('*'), "{:?} contains an asterisk", constant);
        let parsed = MediaType::parse(constant.as_ref()).unwrap();
        assert_eq!(&parsed, constant);
        assert_eq!(parsed.type_(), constant.type_());
        assert_eq!(parsed.subtype(), constant.subtype());
        assert_eq!(parsed.suffix(), constant.suffix());
    }
    for (i, a) in all.iter().enumerate() {
        for (j, b) in all.iter().enumerate() {
            assert_eq!(a == b, i == j, "{:?} and {:?}", a, b);
        }
    }
}

#[test]
fn media_range_constants() {
    let all = [
        (constants::star_star(), "*/*"),
        (constants::text_star(), "text/*"),
        (constants::image_star(), "image/*"),
        (constants::video_star(), "video/*"),
        (constants::audio_star(), "audio/*"),
    ];
    for (constant, text) in &all {
        assert_eq!(constant.as_ref(), *text);
        assert_eq!(&MediaRange::parse(*text).unwrap(), constant);
        assert_eq!(constant.subtype(), "*");
    }
    assert!(constants::image_star().matches(&constants::image_jpeg()));
    assert!(constants::image_star().matches(&constants::image_png()));
    assert!(!constants::image_star().matches(&constants::text_plain()));
}

#[test]
fn names_are_in_lower_case() {
    let all = [
        names::STAR,
        names::TEXT,
        names::IMAGE,
        names::AUDIO,
        names::VIDEO,
        names::APPLICATION,
        names::MULTIPART,
        names::MESSAGE,
        names::MODEL,
        names::FONT,
        names::PLAIN,
        names::HTML,
        names::XML,
        names::JAVASCRIPT,
        names::CSS,
        names::CSV,
        names::EVENT_STREAM,
        names::VCARD,
        names::TAB_SEPARATED_VALUES,
        names::JSON,
        names::WWW_FORM_URLENCODED,
        names::MSGPACK,
        names::OCTET_STREAM,
        names::PDF,
        names::WOFF,
        names::WOFF2,
        names::FORM_DATA,
        names::BMP,
        names::GIF,
        names::JPEG,
        names::PNG,
        names::SVG,
        names::BASIC,
        names::MPEG,
        names::MP4,
        names::OGG,
        names::CHARSET,
        names::BOUNDARY,
        names::DNS_MESSAGE,
    ];
    for name in all {
        assert_eq!(name.to_ascii_lowercase(), name);
        assert!(mime::is_ascii_lowercase(name));
    }
}
