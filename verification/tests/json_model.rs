use funding_bot::json::{clone_json, compare_keys, to_json_string, write_quoted, JsonMap, JsonValue, KeyOrder};

#[test]
fn keys_compare_by_code_point() {
    assert_eq!(compare_keys("a", "b"), KeyOrder::Less);
    assert_eq!(compare_keys("ab", "a"), KeyOrder::Greater);
    assert_eq!(compare_keys("Z", "a"), KeyOrder::Less);
    assert_eq!(compare_keys("é", "z"), KeyOrder::Greater);
    assert_eq!(compare_keys("", ""), KeyOrder::Equal);
}

#[test]
fn insert_keeps_order_and_replaces() {
    let mut m = JsonMap::new();
    m.insert("b".into(), JsonValue::Int(1));
    m.insert("a".into(), JsonValue::Int(2));
    m.insert("b".into(), JsonValue::Int(3));
    assert_eq!(m.len(), 2);
    assert_eq!(m.get("b"), Some(&JsonValue::Int(3)));
    assert_eq!(m.get("c"), None);
    assert_eq!(to_json_string(&JsonValue::Object(m)), r#"{"a":2,"b":3}"#);
}

#[test]
fn numbers_and_literals() {
    let v = JsonValue::Array(vec![
        JsonValue::Int(-42),
        JsonValue::Int(i64::MIN),
        JsonValue::UInt(u64::MAX),
        JsonValue::Null,
        JsonValue::Bool(false),
        JsonValue::Array(vec![]),
        JsonValue::Object(JsonMap::new()),
    ]);
    assert_eq!(
        to_json_string(&v),
        "[-42,-9223372036854775808,18446744073709551615,null,false,[],{}]"
    );
}

#[test]
fn keys_order_like_btreemap() {
    let keys = ["β", "b", "B", "_", "aa", "a", "Ω"];
    let mut m = JsonMap::new();
    let mut reference = serde_json::Map::new();
    for (i, k) in keys.iter().enumerate() {
        m.insert(k.to_string(), JsonValue::UInt(i as u64));
        reference.insert(k.to_string(), serde_json::Value::from(i as u64));
    }
    assert_eq!(
        to_json_string(&JsonValue::Object(m)),
        serde_json::to_string(&serde_json::Value::Object(reference)).unwrap()
    );
}

#[test]
fn clone_has_same_text() {
    let mut m = JsonMap::new();
    m.insert("x".into(), JsonValue::Array(vec![JsonValue::Str("q\"".into())]));
    let v = JsonValue::Object(m);
    let c = clone_json(&v);
    assert_eq!(c, v);
    assert_eq!(to_json_string(&c), r#"{"x":["q\""]}"#);
}

#[test]
fn string_literals_are_serde_json_s() {
    for s in ["", "plain", "q\"uote", "back\\slash", "tab\tnl\ncr\r", "\u{1}\u{1f}\u{7f}", "é€😀", "</script>"] {
        let mut out = String::from(">");
        write_quoted(s, &mut out);
        assert_eq!(out, format!(">{}", serde_json::to_string(s).unwrap()));
        assert_ne!(&out[1..], s);
        assert_eq!(to_json_string(&JsonValue::Str(s.to_string())), serde_json::to_string(s).unwrap());
    }
}
