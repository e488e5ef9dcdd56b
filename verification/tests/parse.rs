use mime::parse::{is_restricted_name_char, is_restricted_name_first_char, is_restricted_quoted_char};

#[test]
fn parse_test_lookup_tables() {
    for i in 0..=255u8 {
        let valid = is_restricted_name_first_char(i);
        let should = match i {
            b'a'..=b'z' | b'A'..=b'Z' | b'0'..=b'9' => true,
            _ => false,
        };
        assert_eq!(valid, should, "{:?} ({}) should be {}", i as char, i, should);
    }
    for i in 0..=255u8 {
        let valid = is_restricted_name_char(i);
        let should = match i {
            b'a'..=b'z'
            | b'A'..=b'Z'
            | b'0'..=b'9'
            | b'!'
            | b'#'
            | b'$'
            | b'&'
            | b'-'
            | b'^'
            | b'.'
            | b'+'
            | b'_' => true,
            _ => false,
        };
        assert_eq!(valid, should, "{:?} ({}) should be {}", i as char, i, should);
    }
}

#[test]
fn restricted_quoted_chars() {
    assert!(!is_restricted_quoted_char(9));
    assert!(!is_restricted_quoted_char(31));
    assert!(is_restricted_quoted_char(b' '));
    assert!(is_restricted_quoted_char(b'"'));
    assert!(!is_restricted_quoted_char(127));
    assert!(is_restricted_quoted_char(128));
    assert!(is_restricted_quoted_char(255));
}
