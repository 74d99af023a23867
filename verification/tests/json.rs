use zigbee2mqtt_operator::double::Double;
use zigbee2mqtt_operator::json::{
    array_text, entry_text, object_text, to_text, JsonObject, JsonValue, Number, Real,
};

fn text(value: &str) -> JsonValue {
    JsonValue::Text(value.to_owned())
}

fn number(value: u64) -> JsonValue {
    JsonValue::Number(Number::PosInt(value))
}

fn float(value: f64, json: &str) -> JsonValue {
    JsonValue::Number(Number::Float(Real {
        value: Double::from_bits(value.to_bits()).unwrap(),
        display: value.to_string(),
        json: json.to_owned(),
    }))
}

fn object(entries: Vec<(&str, JsonValue)>) -> JsonObject {
    let mut object = JsonObject::new();
    for (key, value) in entries {
        object.insert(key.to_owned(), value);
    }
    object
}

#[test]
fn documents_are_compact() {
    let value = JsonValue::Object(object(vec![
        ("list", JsonValue::Array(vec![JsonValue::Null, JsonValue::Bool(true), number(12)])),
        ("negative", JsonValue::Number(Number::NegInt(-305))),
        ("float", float(1.5, "1.5")),
        ("nested", JsonValue::Object(object(vec![]))),
        ("empty", JsonValue::Array(vec![])),
        ("off", JsonValue::Bool(false)),
    ]));
    assert_eq!(
        to_text(&value),
        r#"{"empty":[],"float":1.5,"list":[null,true,12],"negative":-305,"nested":{},"off":false}"#,
    );
}

#[test]
fn strings_are_escaped() {
    assert_eq!(to_text(&text("plain")), "\"plain\"");
    assert_eq!(to_text(&text("a\"b\\c\n\u{1}é")), "\"a\\\"b\\\\c\\n\\u0001é\"");
    assert_eq!(
        to_text(&JsonValue::Object(object(vec![("a\"b", text("x"))]))),
        "{\"a\\\"b\":\"x\"}",
    );
}

#[test]
fn largest_numbers_are_shown() {
    assert_eq!(to_text(&number(u64::MAX)), "18446744073709551615");
    assert_eq!(
        to_text(&JsonValue::Number(Number::NegInt(i64::MIN))),
        "-9223372036854775808",
    );
    assert_eq!(to_text(&number(0)), "0");
}

#[test]
fn keys_are_ordered_and_unique() {
    let mut entries = object(vec![("b", number(2)), ("a", number(1)), ("c", number(3))]);
    entries.insert("b".to_owned(), number(20));
    entries.insert("aa".to_owned(), number(4));
    let keys: Vec<&String> = (0..entries.len()).map(|i| entries.key(i)).collect();
    assert_eq!(keys, vec!["a", "aa", "b", "c"]);
    assert_eq!(entries.get("b"), Some(&number(20)));
    assert_eq!(entries.get("c"), Some(&number(3)));
    assert!(entries.get("d").is_none());
    assert_eq!(entries.find("aa"), Some(1));
}

#[test]
fn replacing_keeps_the_key() {
    let mut entries = object(vec![("a", number(1)), ("b", number(2))]);
    entries.replace(0, text("x"));
    assert_eq!(entries.get("a"), Some(&text("x")));
    assert_eq!(entries.get("b"), Some(&number(2)));
}

#[test]
fn integers_differ_from_floats() {
    assert_ne!(number(25), float(25.0, "25.0"));
    assert_eq!(float(25.0, "25.0"), float(25.0, "2.5e1"));
    assert_eq!(float(0.0, "0.0"), float(-0.0, "-0.0"));
    assert_ne!(number(1), JsonValue::Number(Number::NegInt(-1)));
}

#[test]
fn equality_looks_at_contents() {
    let value = JsonValue::Array(vec![text("a"), JsonValue::Object(object(vec![("k", number(1))]))]);
    assert_eq!(value, value.clone());
    assert_ne!(value, JsonValue::Array(vec![text("a")]));
    assert_ne!(
        JsonValue::Object(object(vec![("k", number(1))])),
        JsonValue::Object(object(vec![("l", number(1))])),
    );
    assert_ne!(JsonValue::Null, JsonValue::Bool(false));
}

#[test]
fn numbers_become_doubles() {
    let half = Double::from_bits(0.5f64.to_bits()).unwrap();
    match float(0.5, "0.5") {
        JsonValue::Number(n) => assert!(n.to_double().equals(half)),
        _ => unreachable!(),
    }
    let big = Double::from_bits((u64::MAX as f64).to_bits()).unwrap();
    assert!(Number::PosInt(u64::MAX).to_double().equals(big));
    let low = Double::from_bits((-7f64).to_bits()).unwrap();
    assert!(Number::NegInt(-7).to_double().equals(low));
}

#[test]
fn documents_are_put_together() {
    let parts = vec!["1".to_owned(), "\"a\"".to_owned()];
    assert_eq!(array_text(&parts), "[1,\"a\"]");
    assert_eq!(array_text(&vec![]), "[]");
    let entries = vec![entry_text("\"k\"", "1"), entry_text("\"l\"", "null")];
    assert_eq!(object_text(&entries), "{\"k\":1,\"l\":null}");
}
