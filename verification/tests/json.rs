use gpui_agentic_http::json::Json;

fn value(text: &str) -> serde_json::Value {
    serde_json::from_str(text).unwrap()
}

const EVERYTHING: &str = r#"{"a": [null, true, false, 0, -1, 2.5, 18446744073709551615, "é\"\\\u0007"],
    "b": {"": {}, "c": []}, "d": "𝄞"}"#;

#[test]
fn a_value_survives_the_way_there_and_back() {
    let value = value(EVERYTHING);
    assert_eq!(Json::from_value(&value).to_value(), value);
    assert_eq!(Json::parse(EVERYTHING).unwrap().to_value(), value);
    assert_eq!(Json::parse(EVERYTHING).unwrap().clone().to_value(), value);
}

#[test]
fn texts_are_those_of_the_json_crate() {
    let value = value(EVERYTHING);
    let json = Json::from_value(&value);
    assert_eq!(json.render(), value.to_string());
    assert_eq!(json.serialize().unwrap(), serde_json::to_string(&value).unwrap());
    assert_eq!(Json::integer(-32601).render(), "-32601");
    assert_eq!(Json::integer(i64::MIN).to_value(), serde_json::Value::from(i64::MIN));
}

#[test]
fn a_bad_text_is_an_error_with_the_parsers_message() {
    for text in ["", "{", "nul", "[1,]", "{\"a\" 1}", "1 2"] {
        let expected = serde_json::from_str::<serde_json::Value>(text).unwrap_err().to_string();
        assert_eq!(Json::parse(text).unwrap_err(), expected);
    }
}

#[test]
fn a_later_field_replaces_an_earlier_one() {
    let json = Json::object()
        .with("k", Json::text("first"))
        .with("other", Json::Null)
        .with("k", Json::text("second"));
    assert_eq!(json.text_at("k", ""), "second");
    assert_eq!(json.to_value(), value(r#"{"k": "second", "other": null}"#));
    assert_eq!(json.render(), r#"{"k":"second","other":null}"#);
}

#[test]
fn fields_are_found_in_objects_alone() {
    let json = Json::parse(r#"{"list": [1, 2], "text": "t", "null": null}"#).unwrap();
    assert_eq!(json.items_at("list").len(), 2);
    assert_eq!(json.items_at("list")[1].render(), "2");
    assert_eq!(json.items_at("text").len(), 0);
    assert_eq!(json.items_at("missing").len(), 0);
    assert_eq!(json.text_at("text", "default"), "t");
    assert_eq!(json.text_at("list", "default"), "default");
    assert_eq!(json.text_at("missing", "default"), "default");
    assert!(json.field("null").is_some());
    assert!(json.field("missing").is_none());
    assert_eq!(json.copy_at("missing").to_value(), serde_json::Value::Null);
    assert_eq!(json.copy_at("list").render(), "[1,2]");
    assert!(Json::list(vec![Json::Bool(true)]).field("0").is_none());
    assert_eq!(Json::text("x").items_at("x").len(), 0);
}

/// Text, nesting below the parser's limit and 64-bit integers read back.
#[test]
fn a_rendered_value_reads_back_from_one_line() {
    let mut deep = Json::list(vec![
        Json::integer(i64::MIN),
        Json::integer(i64::MAX),
        Json::integer(0),
        Json::parse("18446744073709551615").unwrap(),
        Json::text("line\nbreak \u{1f600} \u{7} \"quoted\" \\"),
        Json::Bool(false),
        Json::Null,
    ]);
    for level in 0..126 {
        deep = if level % 2 == 0 {
            Json::object().with("k\n", deep)
        } else {
            Json::list(vec![deep])
        };
    }
    let text = deep.render();
    assert!(!text.contains('\n'));
    assert_eq!(Json::parse(&text).unwrap().to_value(), deep.to_value());
    let sent = deep.serialize().unwrap();
    assert_eq!(Json::parse(&sent).unwrap().to_value(), deep.to_value());
    assert!(Json::parse(&Json::list(vec![deep]).render()).is_err());
}

#[test]
fn simple_values_are_rendered_as_words_and_digits() {
    assert_eq!(Json::Null.render(), "null");
    assert_eq!(Json::Bool(true).render(), "true");
    assert_eq!(Json::Bool(false).render(), "false");
    let numbers = [0, 7, -7, 42, 1000, -32601, i64::MAX, i64::MIN];
    for number in numbers {
        assert_eq!(Json::integer(number).render(), number.to_string());
    }
    assert_eq!(Json::parse("18446744073709551615").unwrap().render(), u64::MAX.to_string());
}

#[test]
fn an_integer_can_be_had_from_its_number() {
    let integer = |text: &str| Json::parse(text).unwrap().as_integer();
    assert_eq!(integer("42"), Some(42));
    assert_eq!(integer("-9223372036854775808"), Some(i64::MIN as i128));
    assert_eq!(integer("18446744073709551615"), Some(u64::MAX as i128));
    for text in ["18446744073709551616", "-9223372036854775809", "1.0", "1e2", "-0"] {
        assert_eq!(integer(text), None, "{text}");
    }
    for text in ["null", "true", "\"1\"", "[1]", "{}"] {
        assert_eq!(integer(text), None, "{text}");
    }
    assert_eq!(Json::integer(-5).as_integer(), Some(-5));
}
