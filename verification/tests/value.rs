use mime::Value;
use std::borrow::Cow;
use std::cmp::PartialEq;
use std::fmt::Debug;

fn bidi_eq<A: Debug + PartialEq<B>, B: Debug + PartialEq<A>>(left: A, right: B) {
    assert_eq!(left, right);
    assert_eq!(right, left);
}

fn bidi_ne<A: Debug + PartialEq<B>, B: Debug + PartialEq<A>>(left: A, right: B) {
    assert_ne!(left, right);
    assert_ne!(right, left);
}

fn sensitive(source: &str) -> Value<'_> {
    Value::new(source)
}

fn insensitive(source: &str) -> Value<'_> {
    Value::new(source).for_name("charset")
}

#[test]
fn test_value_eq_str() {
    let value = sensitive("abc");
    let value_quoted = sensitive("\"abc\"");
    let value_quoted_with_esacpes = sensitive("\"a\\bc\"");

    bidi_eq(value, "abc");
    bidi_ne(value, "\"abc\"");
    bidi_ne(value, "\"a\\bc\"");

    bidi_eq(value_quoted, "abc");
    bidi_ne(value_quoted, "\"abc\"");
    bidi_ne(value_quoted, "\"a\\bc\"");

    bidi_eq(value_quoted_with_esacpes, "abc");
    bidi_ne(value_quoted_with_esacpes, "\"abc\"");
    bidi_ne(value_quoted_with_esacpes, "\"a\\bc\"");

    assert_ne!(value, "aBc");
    assert_ne!(value_quoted, "aBc");
    assert_ne!(value_quoted_with_esacpes, "aBc");
}

#[test]
fn test_value_eq_str_ascii_case_insensitive() {
    let value = insensitive("abc");
    let value_quoted = insensitive("\"abc\"");
    let value_quoted_with_esacpes = insensitive("\"a\\bc\"");

    //1st. all case sensitive checks which still apply
    bidi_eq(value, "abc");
    bidi_ne(value, "\"abc\"");
    bidi_ne(value, "\"a\\bc\"");

    bidi_eq(value_quoted, "abc");
    bidi_ne(value_quoted, "\"abc\"");
    bidi_ne(value_quoted, "\"a\\bc\"");

    bidi_eq(value_quoted_with_esacpes, "abc");
    bidi_ne(value_quoted_with_esacpes, "\"abc\"");
    bidi_ne(value_quoted_with_esacpes, "\"a\\bc\"");

    //2nd the case insensitive check
    bidi_eq(value, "aBc");
    bidi_ne(value, "\"aBc\"");
    bidi_ne(value, "\"a\\Bc\"");

    bidi_eq(value_quoted, "aBc");
    bidi_ne(value_quoted, "\"aBc\"");
    bidi_ne(value_quoted, "\"a\\Bc\"");

    bidi_eq(value_quoted_with_esacpes, "aBc");
    bidi_ne(value_quoted_with_esacpes, "\"aBc\"");
    bidi_ne(value_quoted_with_esacpes, "\"a\\Bc\"");
}

#[test]
fn test_value_eq_value() {
    let value = sensitive("abc");
    let value_quoted = sensitive("\"abc\"");
    let value_quoted_with_esacpes = sensitive("\"a\\bc\"");
    assert_eq!(value, value);
    assert_eq!(value_quoted, value_quoted);
    assert_eq!(value_quoted_with_esacpes, value_quoted_with_esacpes);

    bidi_eq(value, value_quoted);
    bidi_eq(value, value_quoted_with_esacpes);
    bidi_eq(value_quoted, value_quoted_with_esacpes);
}

#[test]
fn test_value_eq_value_case_insensitive() {
    let value = insensitive("Abc");
    let value_quoted = insensitive("\"aBc\"");
    let value_quoted_with_esacpes = insensitive("\"a\\bC\"");
    assert_eq!(value, value);
    assert_eq!(value_quoted, value_quoted);
    assert_eq!(value_quoted_with_esacpes, value_quoted_with_esacpes);

    bidi_eq(value, value_quoted);
    bidi_eq(value, value_quoted_with_esacpes);
    bidi_eq(value_quoted, value_quoted_with_esacpes);
}

#[test]
fn test_value_eq_value_mixed_case_sensitivity() {
    let value = insensitive("Abc");
    let value_quoted = sensitive("\"aBc\"");
    let value_quoted_with_esacpes = sensitive("\"a\\bC\"");

    bidi_eq(value, value_quoted);
    bidi_eq(value, value_quoted_with_esacpes);

    //both are ascii case insensitive
    bidi_ne(value_quoted, value_quoted_with_esacpes);
}

#[test]
fn test_as_str_repr() {
    let value = Value::new("\"ab cd\"");
    assert_eq!(value, "ab cd");
    assert_eq!(value.as_str_repr(), "\"ab cd\"");
}

#[test]
fn test_to_content_not_quoted() {
    let value = Value::new("abc");
    assert_eq!(value.to_content(), Cow::Borrowed("abc"));
}

#[test]
fn test_to_content_quoted_simple() {
    let value = Value::new("\"ab cd\"");
    assert_eq!(value.to_content(), Cow::Borrowed("ab cd"));
}

#[test]
fn test_to_content_with_quoted_pair() {
    let value = Value::new("\"ab\\\"cd\"");
    assert_eq!(value, "ab\"cd");
    let expected: Cow<'static, str> = Cow::Owned("ab\"cd".into());
    assert_eq!(value.to_content(), expected);
}

#[test]
fn value_content_keeps_backslash_of_unquoted_text() {
    // the content of a text without quotes is the text itself
    let value = Value::new("a\\b");
    assert_eq!(value.to_content(), "a\\b");
    assert_eq!(value.to_string(), "a\\b");
    // two values are compared by what their iterators yield
    assert_eq!(value, Value::new("ab"));
}

#[test]
fn value_of_single_quote_is_empty() {
    let value = Value::new("\"");
    assert_eq!(value, "");
    assert_eq!(value.to_content(), "");
    assert_eq!(value, Value::new("\"\""));
}

#[test]
fn value_with_trailing_half_pair() {
    let value = Value::new("\"a\\\"");
    assert_eq!(value.to_content(), "a\\");
    assert_eq!(value, "a\\");
}

#[test]
fn try_new_tests_whether_the_quotes_can_be_taken_off() {
    assert!(Value::try_new("abc").is_some());
    assert!(Value::try_new("").is_some());
    assert!(Value::try_new("\"").is_some());
    assert!(Value::try_new("\"abc\"").is_some());
    assert!(Value::try_new("\"abc").is_some());
    assert!(Value::try_new("\"a\u{e9}\"").is_some());
    assert!(Value::try_new("a\u{e9}").is_some());
    // a text that starts with a quote and ends in the midst of a character
    assert!(Value::try_new("\"\u{e9}").is_none());
    assert!(Value::try_new("\"abc\u{20ac}").is_none());

    let value = Value::try_new("\"ab cd\"").unwrap();
    assert_eq!(value.as_str_repr(), "\"ab cd\"");
    assert_eq!(value, "ab cd");
    assert_ne!(value, "AB CD");
}

#[test]
fn value_into_cow() {
    let content: Cow<str> = Value::new("\"ab\\\"cd\"").into();
    assert_eq!(content, "ab\"cd");
    let content: Cow<str> = Cow::from(Value::new("abc"));
    assert_eq!(content, Cow::Borrowed("abc"));
    let content: Cow<str> = Value::new("\"ab cd\"").into();
    assert_eq!(content, "ab cd");
}
