use workq::payload::{i64_to_string, render_json, u64_to_string, JsonValue};

fn render(v: &JsonValue) -> String {
    render_json(v)
}

#[test]
fn numbers_render_in_decimal() {
    assert_eq!(u64_to_string(0), "0");
    assert_eq!(u64_to_string(42), "42");
    assert_eq!(u64_to_string(18446744073709551615), "18446744073709551615");
    assert_eq!(i64_to_string(0), "0");
    assert_eq!(i64_to_string(-1), "-1");
    assert_eq!(i64_to_string(9223372036854775807), "9223372036854775807");
    assert_eq!(i64_to_string(-9223372036854775808), "-9223372036854775808");
}

#[test]
fn scalars_render_like_serde() {
    assert_eq!(render(&JsonValue::Null), "null");
    assert_eq!(render(&JsonValue::Bool(true)), "true");
    assert_eq!(render(&JsonValue::Bool(false)), "false");
    assert_eq!(render(&JsonValue::Int(-37)), "-37");
    assert_eq!(render(&JsonValue::Str("plain".to_string())), "\"plain\"");
    assert_eq!(
        serde_json::to_string(&serde_json::Value::String("plain".to_string())).unwrap(),
        "\"plain\""
    );
}

#[test]
fn escapes_match_serde() {
    let tricky = "a\"b\\c\nd\re\tf\u{8}g\u{c}h\u{1f}i";
    let ours = render(&JsonValue::Str(tricky.to_string()));
    let theirs = serde_json::to_string(&serde_json::Value::String(tricky.to_string())).unwrap();
    assert_eq!(ours, theirs);
}

#[test]
fn arrays_and_objects_render_compact() {
    let arr = JsonValue::Arr(vec![
        JsonValue::Int(1),
        JsonValue::Str("two".to_string()),
        JsonValue::Arr(vec![]),
        JsonValue::Null,
    ]);
    assert_eq!(render(&arr), "[1,\"two\",[],null]");

    let o = JsonValue::Obj(vec![
        ("job".to_string(), JsonValue::Str("parse".to_string())),
        ("id".to_string(), JsonValue::Int(1)),
        ("tags".to_string(), JsonValue::Arr(vec![JsonValue::Str("x".to_string())])),
    ]);
    assert_eq!(render(&o), "{\"job\":\"parse\",\"id\":1,\"tags\":[\"x\"]}");
    assert_eq!(render(&JsonValue::Obj(vec![])), "{}");
}

#[test]
fn nested_value_round_trips_through_serde() {
    let o = JsonValue::Obj(vec![
        ("name".to_string(), JsonValue::Str("line\none".to_string())),
        ("n".to_string(), JsonValue::Int(-5)),
        ("ok".to_string(), JsonValue::Bool(false)),
        ("inner".to_string(), JsonValue::Obj(vec![(
            "xs".to_string(),
            JsonValue::Arr(vec![JsonValue::Int(1), JsonValue::Int(2)]),
        )])),
    ]);
    let text = render(&o);
    let parsed: serde_json::Value = serde_json::from_str(&text).unwrap();
    assert_eq!(parsed["name"], serde_json::Value::String("line\none".to_string()));
    assert_eq!(parsed["n"], serde_json::Value::from(-5i64));
    assert_eq!(parsed["ok"], serde_json::Value::Bool(false));
    assert_eq!(parsed["inner"]["xs"][1], serde_json::Value::from(2i64));
}
