use notes_core::metadata::{name_lt, ExtraFields, JsonValue};

#[test]
fn setting_a_field_again_replaces_its_value_in_place() {
    let mut extra = ExtraFields::new();
    extra.insert("mood".to_string(), JsonValue::Str("a".to_string()));
    extra.insert("level".to_string(), JsonValue::Int(2));
    extra.insert("mood".to_string(), JsonValue::Str("b".to_string()));
    assert_eq!(extra.len(), 2);
    assert_eq!(extra.get("mood").and_then(|v| v.as_str()), Some("b"));
    assert!(matches!(extra.get("level"), Some(JsonValue::Int(2))));
    assert!(extra.get("missing").is_none());
}

#[test]
fn only_string_values_have_text() {
    assert_eq!(JsonValue::Str("x".to_string()).as_str(), Some("x"));
    assert_eq!(JsonValue::Bool(true).as_str(), None);
    assert_eq!(JsonValue::Array(Vec::new()).as_str(), None);
}

#[test]
fn fields_are_kept_in_order_of_name() {
    let mut extra = ExtraFields::new();
    for name in ["zeta", "alpha", "mid", "alphabet", "Zulu", "été"] {
        extra.insert(name.to_string(), JsonValue::Bool(true));
    }
    extra.insert("alpha".to_string(), JsonValue::Int(1));
    let names: Vec<&str> = extra.entries().iter().map(|(k, _)| k.as_str()).collect();
    assert_eq!(names, vec!["Zulu", "alpha", "alphabet", "mid", "zeta", "été"]);
    let mut sorted: Vec<&str> = names.clone();
    sorted.sort();
    assert_eq!(names, sorted);
    assert!(matches!(extra.get("alpha"), Some(JsonValue::Int(1))));
}

#[test]
fn names_compare_as_strings_do() {
    for (a, b) in [("a", "b"), ("ab", "abc"), ("", "a"), ("B", "a"), ("z", "é"), ("abc", "abd"), ("x", "x")] {
        assert_eq!(name_lt(a, b), a < b, "{a} < {b}");
        assert_eq!(name_lt(b, a), b < a, "{b} < {a}");
    }
}
