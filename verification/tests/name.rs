use mime::{MediaType, Name};
use std::collections::HashSet;
use std::str::FromStr;

#[test]
fn test_name_eq_str() {
    let param = Name::new("ABC");

    assert_eq!(param, param);
    assert_eq!(param, "ABC");
    assert_eq!("ABC", param);
    assert_eq!(param, "abc");
    assert_eq!("abc", param);
}

#[test]
fn test_name_eq_name() {
    let mime1 = MediaType::from_str(r#"text/x-custom; abc=a"#).unwrap();
    let mime2 = MediaType::from_str(r#"text/x-custom; aBc=a"#).unwrap();
    let param1 = Name::new(mime1.params().into_iter().next().unwrap().0);
    let param2 = Name::new(mime2.params().into_iter().next().unwrap().0);

    assert_eq!(param1, param2);
}

#[test]
fn name_as_str_and_inequality() {
    let name = Name::new("charset");
    assert_eq!(name.as_str(), "charset");
    assert_eq!(name.as_ref(), "charset");
    assert_eq!(name.to_string(), "charset");
    assert_ne!(name, Name::new("CHARSET"));
    assert_ne!(name, "charse");
    assert_ne!(name, "boundary");
    assert_eq!(<&str>::from(name), "charset");
}

#[test]
fn names_are_ordered_and_hashed_by_their_text() {
    assert!(Name::new("audio") < Name::new("text"));
    assert!(Name::new("text") <= Name::new("text"));
    assert!(Name::new("Text") < Name::new("text"));
    let mut set = HashSet::new();
    set.insert(Name::new("text"));
    assert!(set.contains(&Name::new("text")));
    assert!(!set.contains(&Name::new("TEXT")));
}
