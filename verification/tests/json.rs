use plexus_core::json::{put_entry, Json};

fn filled(entries: Vec<(&str, u64)>) -> Vec<(String, Json)> {
    let mut out: Vec<(String, Json)> = Vec::new();
    for (k, v) in entries {
        put_entry(&mut out, k, Json::Unsigned(v));
    }
    out
}

#[test]
fn what_is_put_is_read() {
    let object = Json::Object(filled(vec![("b", 1), ("a", 2), ("b", 3)]));
    assert_eq!(object.get("a"), Some(&Json::Unsigned(2)));
    assert_eq!(object.get("b"), Some(&Json::Unsigned(3)));
    assert_eq!(object.get("c"), None);
    assert_eq!(Json::Array(vec![]).get("a"), None);
}

#[test]
fn the_order_of_putting_does_not_show() {
    assert_eq!(filled(vec![("b", 1), ("a", 2), ("c", 3)]), filled(vec![("c", 3), ("b", 1), ("a", 2)]));
}

#[test]
fn keys_stand_in_order() {
    let keys: Vec<String> = filled(vec![("b", 1), ("", 0), ("ab", 2), ("\u{e9}", 4), ("a", 3)])
        .into_iter()
        .map(|(k, _)| k)
        .collect();
    assert_eq!(keys, vec!["", "a", "ab", "b", "\u{e9}"]);
}

#[test]
fn a_copy_says_the_same() {
    let value = Json::Array(vec![Json::Null, Json::Object(filled(vec![("a", 1)])), Json::text("x"), Json::Negative(-1)]);
    assert_eq!(value.clone(), value);
    assert_eq!(Json::text("x").as_text(), Some("x"));
    assert_eq!(Json::Null.as_text(), None);
    assert_eq!(
        Json::text_array(&vec!["a".to_string(), "b".to_string()]),
        Json::Array(vec![Json::text("a"), Json::text("b")])
    );
}
