use octos_agent::json::{copy_json, estimate_json_size, to_text, Json, JsonMember};

fn num(n: &str) -> Json {
    Json::Number(n.to_string())
}

fn text(s: &str) -> Json {
    Json::Str(s.to_string())
}

fn member(key: &str, value: Json) -> JsonMember {
    JsonMember { key: key.to_string(), value }
}

#[test]
fn test_null() {
    assert_eq!(estimate_json_size(&Json::Null), 4);
}

#[test]
fn test_bool() {
    assert_eq!(estimate_json_size(&Json::Bool(true)), 4);
    assert_eq!(estimate_json_size(&Json::Bool(false)), 5);
}

#[test]
fn test_number() {
    assert_eq!(estimate_json_size(&num("42")), 2);
    assert_eq!(estimate_json_size(&num("2.72")), 4);
}

#[test]
fn test_string_simple() {
    assert_eq!(estimate_json_size(&text("hello")), 7);
}

#[test]
fn test_string_with_escapes() {
    assert_eq!(estimate_json_size(&text("a\"b")), 6);
    assert_eq!(estimate_json_size(&text("a\nb")), 6);
}

#[test]
fn test_empty_array() {
    assert_eq!(estimate_json_size(&Json::Array(Vec::new())), 2);
}

#[test]
fn test_array_with_elements() {
    assert_eq!(estimate_json_size(&Json::Array(vec![num("1"), num("2"), num("3")])), 7);
}

#[test]
fn test_empty_object() {
    assert_eq!(estimate_json_size(&Json::Object(Vec::new())), 2);
}

#[test]
fn test_object_with_fields() {
    assert_eq!(estimate_json_size(&Json::Object(vec![member("a", num("1"))])), 7);
}

#[test]
fn test_nested_structure() {
    let v = Json::Object(vec![member("x", Json::Array(vec![num("1"), num("2")]))]);
    assert_eq!(estimate_json_size(&v), 11);
}

#[test]
fn every_counted_escape_adds_one() {
    assert_eq!(estimate_json_size(&text("\\")), 4);
    assert_eq!(estimate_json_size(&text("\r")), 4);
    assert_eq!(estimate_json_size(&text("\t")), 4);
    assert_eq!(estimate_json_size(&text("\u{8}")), 3);
}

#[test]
fn width_is_counted_in_bytes() {
    assert_eq!(estimate_json_size(&text("é")), 4);
    assert_eq!(estimate_json_size(&text("日")), 5);
    assert_eq!(estimate_json_size(&text("🦀")), 6);
}

#[test]
fn texts_are_quoted_as_serde_json_does() {
    for s in ["", "plain", "a\"b\\c", "\n\r\t\u{8}\u{c}", "\u{1}\u{1f}\u{7f}", "日本 🦀"] {
        let expected = serde_json::to_string(&s).unwrap();
        assert_eq!(to_text(&text(s)), expected);
    }
}

#[test]
fn values_are_written_without_blanks() {
    let v = Json::Object(vec![
        member("a", Json::Array(vec![num("1"), Json::Null, Json::Bool(true)])),
        member("b", Json::Object(Vec::new())),
        member("c\"", text("x")),
    ]);
    assert_eq!(to_text(&v), "{\"a\":[1,null,true],\"b\":{},\"c\\\"\":\"x\"}");
    assert_eq!(to_text(&copy_json(&v)), to_text(&v));
}

#[test]
fn the_estimate_is_the_written_size_of_ordinary_values() {
    let v = Json::Object(vec![
        member("key", text("line\nnext \"quoted\" \\ tab\t")),
        member("list", Json::Array(vec![num("-1.5e3"), Json::Bool(false), text("é日🦀")])),
        member("empty", Json::Array(Vec::new())),
    ]);
    assert_eq!(estimate_json_size(&v), to_text(&v).len());
}
