use zigbee2mqtt_operator::double::Double;
use zigbee2mqtt_operator::error::Error;
use zigbee2mqtt_operator::json::{JsonObject, JsonValue, Number, Real};
use zigbee2mqtt_operator::mqtt::exposes::{
    choice_message, either_message, preset_message, toggle_message, Access, Bag, Binary, Composite,
    DeviceCapabilitiesSchema, DeviceOptionsSchema, Enum, GroupOptionsSchema, List, ListItem, Numeric,
    Preset, Processor, PropertyHolder, Schema, Specific, Step, Text, WithProperty,
};
use zigbee2mqtt_operator::with_source::ValueWithSource;

fn text(value: &str) -> JsonValue {
    JsonValue::Text(value.to_owned())
}

fn integer(value: i64) -> JsonValue {
    if value < 0 {
        JsonValue::Number(Number::NegInt(value))
    } else {
        JsonValue::Number(Number::PosInt(value as u64))
    }
}

fn real_number(value: f64) -> Real {
    Real {
        value: Double::from_bits(value.to_bits()).unwrap(),
        display: value.to_string(),
        json: serde_json::Value::from(value).to_string(),
    }
}

fn float(value: f64) -> JsonValue {
    JsonValue::Number(Number::Float(real_number(value)))
}

fn boolean(value: bool) -> JsonValue {
    JsonValue::Bool(value)
}

fn array(items: Vec<JsonValue>) -> JsonValue {
    JsonValue::Array(items)
}

fn object(entries: Vec<(&str, JsonValue)>) -> JsonValue {
    let mut object = JsonObject::new();
    for (key, value) in entries {
        object.insert(key.to_owned(), value);
    }
    JsonValue::Object(object)
}

fn step_of(start: f64, step: f64) -> Step {
    Step {
        value: Double::from_bits(step.to_bits()).unwrap(),
        display: step.to_string(),
        one_step: (start + step).to_string(),
        two_steps: (start + step * 2.0).to_string(),
        off_step: (start + step * 1.5).to_string(),
    }
}

fn preset(name: &str, value: f64) -> Preset {
    Preset {
        name: name.to_owned(),
        description: String::new(),
        value: real_number(value),
    }
}

fn process<P: Processor>(
    schema: &P,
    value: JsonValue,
) -> Result<JsonValue, (String, Option<String>)> {
    let value = ValueWithSource::new(value, Some("root".to_owned()));
    schema.process(value).map_err(|err| match err.error() {
        Error::InvalidResource { message, .. } => (message.clone(), err.source().clone()),
        err => panic!("unexpected error: {err:?}"),
    })
}

fn assert_ok<P: Processor>(schema: &P, value: JsonValue, expected: JsonValue) {
    assert_eq!(process(schema, value), Ok(expected));
}

fn assert_roundtrip<P: Processor>(schema: &P, values: Vec<JsonValue>) {
    for value in values {
        assert_ok(schema, value.clone(), value);
    }
}

fn assert_err_at<P: Processor>(schema: &P, values: Vec<JsonValue>, message: &str, path: &str) {
    for value in values {
        assert_eq!(
            process(schema, value),
            Err((message.to_owned(), Some(format!("root{path}")))),
        );
    }
}

fn assert_err<P: Processor>(schema: &P, values: Vec<JsonValue>, message: &str) {
    assert_err_at(schema, values, message, "");
}

fn on_off() -> Binary {
    Binary {
        value_on: text("ON"),
        value_off: text("OFF"),
        value_toggle: Some(text("TOGGLE")),
        ..Binary::default()
    }
}

#[test]
fn accept_on_off() {
    assert_roundtrip(&on_off(), vec![text("ON"), text("OFF")]);
}

#[test]
fn reject_toggle() {
    assert_err(
        &on_off(),
        vec![text("TOGGLE")],
        r#"This will toggle the state on every reconcile. Use "ON" or "OFF" instead."#,
    );
}

#[test]
fn reject_other() {
    assert_err(
        &on_off(),
        vec![text("INVALID"), integer(10), boolean(true), array(vec![text("ON")])],
        r#"Must be either "ON" or "OFF"."#,
    );
}

#[test]
fn unrestricted() {
    let schema = Numeric::default();
    assert_roundtrip(&schema, vec![integer(-50), integer(0), integer(50)]);
    assert_err(
        &schema,
        vec![text("50"), boolean(true), array(vec![integer(10)])],
        "Must be a number.",
    );
}

#[test]
fn min() {
    let schema = Numeric { value_min: Some(real_number(10.0)), ..Numeric::default() };
    assert_roundtrip(&schema, vec![integer(10), integer(50)]);
    assert_err(
        &schema,
        vec![integer(-50), integer(0), float(9.9)],
        "Must be at least 10.",
    );
}

#[test]
fn max() {
    let schema = Numeric { value_max: Some(real_number(10.0)), ..Numeric::default() };
    assert_roundtrip(&schema, vec![integer(-50), integer(0), float(9.9), integer(10)]);
    assert_err(&schema, vec![float(10.1), integer(50)], "Must be at most 10.");
}

#[test]
fn min_max() {
    let schema = Numeric {
        value_min: Some(real_number(10.0)),
        value_max: Some(real_number(100.0)),
        ..Numeric::default()
    };
    assert_roundtrip(&schema, vec![integer(10), integer(50), integer(100)]);
    assert_err(
        &schema,
        vec![integer(0), integer(110)],
        "Must be between 10 and 100 (inclusive).",
    );
}

#[test]
fn step() {
    let schema = Numeric {
        value_min: Some(real_number(1.0)),
        value_step: Some(step_of(1.0, 2.0)),
        ..Numeric::default()
    };
    assert_roundtrip(&schema, vec![integer(13)]);
    assert_err(&schema, vec![integer(0)], "Must be at least 1.");
    assert_err(
        &schema,
        vec![integer(2), integer(4)],
        "Must be 1 plus any number of steps of 2 (e.g. 3, 5, but not 4).",
    );
}

#[test]
fn step_without_minimum_starts_at_zero() {
    let schema = Numeric {
        value_step: Some(step_of(0.0, 0.25)),
        ..Numeric::default()
    };
    assert_roundtrip(&schema, vec![integer(0), float(0.75), float(-1.5), integer(7)]);
    assert_err(
        &schema,
        vec![float(0.3)],
        "Must be 0 plus any number of steps of 0.25 (e.g. 0.25, 0.5, but not 0.375).",
    );
}

#[test]
fn step_of_zero_accepts_nothing() {
    let schema = Numeric {
        value_step: Some(step_of(0.0, 0.0)),
        ..Numeric::default()
    };
    assert_err(
        &schema,
        vec![integer(0), integer(1)],
        "Must be 0 plus any number of steps of 0 (e.g. 0, 0, but not 0).",
    );
}

#[test]
fn presets() {
    let schema = Numeric {
        presets: vec![preset("default", 25.0), preset("previous", -1.0)],
        ..Numeric::default()
    };
    assert_roundtrip(&schema, vec![integer(0), integer(25)]);
    assert_ok(&schema, text("default"), float(25.0));
    assert_ok(&schema, text("previous"), float(-1.0));
    assert_err(
        &schema,
        vec![text("invalid"), boolean(true), array(vec![text("default")])],
        r#"Must be a number or one of the presets: ["default","previous"]."#,
    );
}

#[test]
fn preset_ignores_range() {
    let schema = Numeric {
        value_min: Some(real_number(0.0)),
        presets: vec![preset("previous", -1.0), preset("previous", -2.0)],
        ..Numeric::default()
    };
    assert_ok(&schema, text("previous"), float(-1.0));
    assert_err(&schema, vec![integer(-1)], "Must be at least 0.");
}

#[test]
fn process_enum() {
    let schema = Enum {
        values: vec![text("RED"), text("GREEN"), text("BLUE")],
        ..Enum::default()
    };
    assert_roundtrip(&schema, vec![text("RED"), text("BLUE")]);
    assert_err(
        &schema,
        vec![text("CYAN"), integer(10), boolean(true), array(vec![text("GREEN")])],
        r#"Must be one of ["RED","GREEN","BLUE"]."#,
    );
}

#[test]
fn process_text() {
    let schema = Text::default();
    assert_roundtrip(&schema, vec![text("HELLO")]);
    assert_err(
        &schema,
        vec![integer(10), boolean(true), array(vec![text("WORLD")])],
        "Must be a string.",
    );
}

#[test]
fn string() {
    let schema = List::default();
    assert_roundtrip(&schema, vec![array(vec![text("HELLO"), text("WORLD")])]);
    assert_err_at(
        &schema,
        vec![
            array(vec![integer(10), text("HELLO")]),
            array(vec![boolean(true), text("HELLO")]),
        ],
        "Must be a string.",
        "[0]",
    );
    assert_err_at(
        &schema,
        vec![
            array(vec![text("HELLO"), array(vec![text("WORLD")])]),
            array(vec![text("HELLO"), JsonValue::Null]),
        ],
        "Must be a string.",
        "[1]",
    );
}

fn numbers() -> List {
    List {
        item_type: Box::new(ListItem::Numeric(Numeric::default())),
        ..List::default()
    }
}

#[test]
fn numeric() {
    let schema = numbers();
    assert_roundtrip(&schema, vec![array(vec![integer(10), integer(20)])]);
    assert_err_at(
        &schema,
        vec![
            array(vec![text("HELLO"), integer(10)]),
            array(vec![JsonValue::Null, integer(10)]),
        ],
        "Must be a number.",
        "[0]",
    );
}

#[test]
fn exposes_min() {
    let schema = List { length_min: Some(1), ..numbers() };
    assert_roundtrip(
        &schema,
        vec![array(vec![integer(1)]), array(vec![integer(1), integer(2), integer(3)])],
    );
    assert_err(&schema, vec![array(vec![])], "Must have at least 1 item(s).");
}

#[test]
fn exposes_max() {
    let schema = List { length_max: Some(2), ..numbers() };
    assert_roundtrip(
        &schema,
        vec![array(vec![integer(1)]), array(vec![integer(1), integer(2)])],
    );
    assert_err(
        &schema,
        vec![array(vec![integer(1), integer(2), integer(3)])],
        "Must have at most 2 item(s).",
    );
}

#[test]
fn exposes_min_max() {
    let schema = List { length_min: Some(1), length_max: Some(3), ..numbers() };
    assert_roundtrip(&schema, vec![array(vec![integer(1)])]);
    assert_roundtrip(&schema, vec![array(vec![integer(1), integer(2)])]);
    assert_err(
        &schema,
        vec![
            array(vec![]),
            array(vec![integer(1), integer(2), integer(3), integer(4)]),
        ],
        "Must have between 1 and 3 items (inclusive).",
    );
}

#[test]
fn list_must_be_array() {
    assert_err(&numbers(), vec![integer(1), text("1")], "Must be an array.");
}

#[test]
fn process_bag() {
    let schema = Bag::default();
    assert_roundtrip(&schema, vec![object(vec![("foo", integer(1)), ("bar", integer(2))])]);
    assert_err(
        &schema,
        vec![integer(10), boolean(true), text("HELLO"), array(vec![integer(10)])],
        "Must be an object.",
    );
}

fn capabilities() -> DeviceCapabilitiesSchema {
    DeviceCapabilitiesSchema::from(vec![
        Schema::Numeric(WithProperty {
            property: "num".to_owned(),
            type_: Numeric {
                presets: vec![preset("default", 25.0)],
                ..Numeric::default()
            },
        }),
        Schema::Text(WithProperty {
            property: "text".to_owned(),
            type_: Text::default(),
        }),
        Schema::Composite(WithProperty {
            property: "nested".to_owned(),
            type_: Composite {
                features: vec![Schema::Binary(WithProperty {
                    property: "binary".to_owned(),
                    type_: Binary {
                        value_on: boolean(true),
                        value_off: boolean(false),
                        ..Binary::default()
                    },
                })],
                ..Composite::default()
            },
        }),
        Schema::Specific(Specific {
            features: vec![Schema::Enum(WithProperty {
                property: "enum".to_owned(),
                type_: Enum {
                    values: vec![text("RED"), text("GREEN"), text("BLUE")],
                    ..Enum::default()
                },
            })],
            ..Specific::default()
        }),
        Schema::Bag(WithProperty {
            property: "bag".to_owned(),
            type_: Bag::default(),
        }),
    ])
}

#[test]
fn basic() {
    assert_roundtrip(
        &capabilities(),
        vec![object(vec![
            ("num", integer(15)),
            ("text", text("HELLO")),
            ("nested", object(vec![("binary", boolean(false))])),
            ("enum", text("BLUE")),
        ])],
    );
    assert_err(
        &capabilities(),
        vec![integer(10), boolean(true), text("HELLO")],
        "Must be an object.",
    );
}

#[test]
fn error_path_toplevel() {
    assert_err_at(
        &capabilities(),
        vec![object(vec![("num", text("five"))])],
        r#"Must be a number or one of the presets: ["default"]."#,
        ".num",
    );
}

#[test]
fn error_path_nested_capability() {
    assert_err_at(
        &capabilities(),
        vec![object(vec![("nested", object(vec![("binary", text("maybe"))]))])],
        "Must be either true or false.",
        ".nested.binary",
    );
}

#[test]
fn error_path_misspelt() {
    assert_err_at(
        &capabilities(),
        vec![object(vec![("nesed", object(vec![("binary", text("maybe"))]))])],
        "Unknown property.",
        ".nesed",
    );
}

#[test]
fn error_path_nested_specific() {
    assert_err_at(
        &capabilities(),
        vec![object(vec![("enum", text("CYAN"))])],
        r#"Must be one of ["RED","GREEN","BLUE"]."#,
        ".enum",
    );
}

#[test]
fn transform() {
    assert_ok(
        &capabilities(),
        object(vec![
            ("text", text("HELLO")),
            ("num", text("default")),
            ("enum", text("BLUE")),
        ]),
        object(vec![
            ("text", text("HELLO")),
            ("num", float(25.0)),
            ("enum", text("BLUE")),
        ]),
    );
}

#[test]
fn null() {
    // Null value indicates a field should be reset to default.
    assert_roundtrip(
        &capabilities(),
        vec![object(vec![("num", JsonValue::Null)])],
    );
}

#[test]
fn unknown_toplevel() {
    assert_err_at(
        &capabilities(),
        vec![object(vec![("unknown", integer(10))])],
        "Unknown property.",
        ".unknown",
    );
}

#[test]
fn unknown_nested() {
    assert_err_at(
        &capabilities(),
        vec![object(vec![("nested", object(vec![("unknown", integer(10))]))])],
        "Unknown property.",
        ".nested.unknown",
    );
}

#[test]
fn unknown_nested_bag() {
    assert_roundtrip(
        &capabilities(),
        vec![object(vec![("bag", object(vec![("foo", integer(10))]))])],
    );
}

#[test]
fn unknown_null() {
    // Null value should be permitted for unknown fields so that these can be unset if they are somehow set by an outside process.
    assert_roundtrip(
        &capabilities(),
        vec![object(vec![("unknown", JsonValue::Null)])],
    );
}

#[test]
fn device_options_common() {
    let schema = DeviceOptionsSchema::from(vec![]);
    assert_roundtrip(
        &schema,
        vec![object(vec![
            ("description", text("Example")),
            ("retain", boolean(true)),
        ])],
    );
    assert_err_at(
        &schema,
        vec![object(vec![("unknown", integer(10))])],
        "Unknown property.",
        ".unknown",
    );
}

#[test]
fn device_options_limits() {
    let schema = DeviceOptionsSchema::default();
    assert_roundtrip(
        &schema,
        vec![object(vec![
            ("qos", integer(2)),
            ("retention", integer(7)),
            ("debounce", float(1.5)),
            ("debounce_ignore", array(vec![text("state")])),
            ("homeassistant", object(vec![("name", text("x"))])),
        ])],
    );
    assert_err_at(
        &schema,
        vec![object(vec![("qos", integer(3))])],
        "Must be between 0 and 2 (inclusive).",
        ".qos",
    );
    assert_err_at(
        &schema,
        vec![object(vec![("qos", float(0.5))])],
        "Must be 0 plus any number of steps of 1 (e.g. 1, 2, but not 1.5).",
        ".qos",
    );
    assert_err_at(
        &schema,
        vec![object(vec![("retention", float(1.5))])],
        "Must be 1 plus any number of steps of 1 (e.g. 2, 3, but not 2.5).",
        ".retention",
    );
    assert_err_at(
        &schema,
        vec![object(vec![("filtered_cache", array(vec![text("a"), integer(1)]))])],
        "Must be a string.",
        ".filtered_cache[1]",
    );
}

#[test]
fn group_options_choices() {
    let schema = GroupOptionsSchema::default();
    assert_roundtrip(
        &schema,
        vec![object(vec![
            ("off_state", text("last_member_state")),
            ("transition", float(0.5)),
            ("optimistic", boolean(false)),
        ])],
    );
    assert_err_at(
        &schema,
        vec![object(vec![("off_state", text("never"))])],
        r#"Must be one of ["all_members_off","last_member_state"]."#,
        ".off_state",
    );
    assert_err_at(
        &schema,
        vec![object(vec![("transition", integer(-1))])],
        "Must be at least 0.",
        ".transition",
    );
}

#[test]
fn first_unknown_property_in_order_of_keys() {
    assert_err_at(
        &capabilities(),
        vec![object(vec![("zzz", integer(1)), ("aaa", integer(1)), ("num", text("five"))])],
        "Unknown property.",
        ".aaa",
    );
}

#[test]
fn all_null_object_is_unchanged() {
    assert_roundtrip(
        &capabilities(),
        vec![object(vec![
            ("num", JsonValue::Null),
            ("nested", JsonValue::Null),
            ("enum", JsonValue::Null),
            ("else", JsonValue::Null),
        ])],
    );
}

#[test]
fn processing_changes_values_only() {
    let result = process(
        &capabilities(),
        object(vec![("num", text("default")), ("bag", object(vec![]))]),
    );
    match result {
        Ok(JsonValue::Object(object)) => {
            assert_eq!(object.len(), 2);
            assert_eq!(object.key(0), "bag");
            assert_eq!(object.key(1), "num");
        }
        other => panic!("unexpected result: {other:?}"),
    }
}

#[test]
fn unknown_source_stays_unknown() {
    let schema = Text::default();
    let error = schema.process(ValueWithSource::from(integer(1))).unwrap_err();
    assert_eq!(*error.source(), None);
    assert!(!error.published());
}

#[test]
fn properties_of_specific_types_are_known() {
    let specific = Specific {
        features: vec![Schema::Text(WithProperty {
            property: "state".to_owned(),
            type_: Text::default(),
        })],
        ..Specific::default()
    };
    assert!(specific.knows_property("state"));
    assert!(!specific.knows_property("other"));
    assert!(specific.features.knows_property("state"));
    let schema = Schema::Specific(specific);
    assert!(schema.knows_property("state"));
    assert!(!schema.knows_property("stat"));
}

#[test]
fn messages_show_values_as_they_are_given() {
    assert_eq!(
        toggle_message("1", "0"),
        "This will toggle the state on every reconcile. Use 1 or 0 instead.",
    );
    assert_eq!(either_message("1", "0"), "Must be either 1 or 0.");
    assert_eq!(choice_message("[1,2]"), "Must be one of [1,2].");
    assert_eq!(
        preset_message("[\"a\"]"),
        "Must be a number or one of the presets: [\"a\"].",
    );
}

#[test]
fn access_keeps_known_bits() {
    assert_eq!(Access::from_bits_truncate(0b1111_0101).bits(), 0b101);
    assert_eq!(Access::default().bits(), 0);
    assert_eq!(Access::PUBLISH | Access::SET | Access::GET, 7);
}

#[test]
fn properties_are_processed_separately() {
    assert_ok(
        &capabilities(),
        object(vec![("num", text("default"))]),
        object(vec![("num", float(25.0))]),
    );
    assert_ok(
        &capabilities(),
        object(vec![("num", text("default")), ("text", text("default"))]),
        object(vec![("num", float(25.0)), ("text", text("default"))]),
    );
}

#[test]
fn only_presets_are_replaced() {
    let schema = List {
        item_type: Box::new(ListItem::Numeric(Numeric {
            presets: vec![preset("default", 25.0)],
            ..Numeric::default()
        })),
        ..List::default()
    };
    assert_ok(
        &schema,
        array(vec![integer(1), text("default"), float(2.5)]),
        array(vec![integer(1), float(25.0), float(2.5)]),
    );
}

#[test]
fn wrapped_schemas_process_their_property() {
    let wrapped = WithProperty { property: "state".to_owned(), type_: on_off() };
    assert_ok(
        &wrapped,
        object(vec![("state", text("ON")), ("other", text("x"))]),
        object(vec![("state", text("ON")), ("other", text("x"))]),
    );
    assert_ok(
        &wrapped,
        object(vec![("state", JsonValue::Null)]),
        object(vec![("state", JsonValue::Null)]),
    );
    assert_ok(&wrapped, object(vec![]), object(vec![]));
    assert_err(&wrapped, vec![text("ON")], "Must be an object.");
    let value = ValueWithSource::new(
        object(vec![("state", text("maybe"))]),
        Some("root".to_owned()),
    );
    let error = wrapped.process(value).unwrap_err();
    assert_eq!(error.source().as_deref(), Some("root.state"));
}
