//! Check values against the schemas provided in Zigbee2MQTT.
//!
//! Based on <https://www.zigbee2mqtt.io/guide/usage/exposes.html> and <https://github.com/Koenkk/zigbee-herdsman-converters/blob/master/src/lib/exposes.ts>.
//!
//! Note that these even though these links only mention exposed values the same schemas are used for
//! device options.

use vstd::arithmetic::power2::*;
use vstd::prelude::*;

use crate::double;
use crate::double::Double;
use crate::error::{Error, ErrorWithMeta};
use crate::json;
use crate::json::{JsonObject, JsonValue, Number, Real};
use crate::text;
use crate::with_source;
use crate::with_source::ValueWithSource;

verus! {

/// A bitmask defining what actions can be performed on the value.
#[derive(Clone, Copy, Debug, PartialEq, Eq, Structural)]
pub struct Access {
    bits: u8,
}

impl Access {
    /// The property can be found in the published state of this device.
    pub const PUBLISH: u8 = 1;

    /// The property can be set with a `/set` command.
    pub const SET: u8 = 2;

    /// The property can be retrieved with a `/get` command.
    ///
    /// If this is set the `PUBLISH` flag should also be set.
    pub const GET: u8 = 4;

    /// The bits of the mask.
    pub closed spec fn mask(self) -> u8 {
        self.bits
    }

    /// The mask made of the known bits of a number.
    pub fn from_bits_truncate(value: u8) -> (r: Access)
        ensures
            r.mask() == value % 8,
    {
        Access { bits: value % 8 }
    }

    /// The bits of the mask.
    pub fn bits(self) -> (r: u8)
        ensures
            r == self.mask(),
    {
        self.bits
    }
}

/// Inner struct for [`Schema::Binary`].
#[derive(Debug)]
pub struct Binary {
    /// The name of the property.
    pub name: String,
    /// A human-readable version of the name.
    pub label: Option<String>,
    /// A description of the property.
    pub description: Option<String>,
    /// The actions that are available for this value.
    pub access: Access,
    /// The endpoint that the value is exposed on.
    pub endpoint: Option<String>,
    /// The value to be used for the 'on' state.
    pub value_on: JsonValue,
    /// The value to be used for the 'off' state.
    pub value_off: JsonValue,
    /// The value to use to toggle between the 'on' and 'off' states.
    ///
    /// This is only for set actions, returning this from a get would make no sense.
    ///
    /// Using this value with this operator would cause the value to toggle on every reconcile and
    /// should not be permitted.
    pub value_toggle: Option<JsonValue>,
}

/// The distance between the numbers that are accepted, with the texts that a message needs.
#[derive(Debug)]
pub struct Step {
    /// The step size.
    pub value: Double,
    /// How the step size reads.
    pub display: String,
    /// How the start plus one step reads.
    pub one_step: String,
    /// How the start plus two steps reads.
    pub two_steps: String,
    /// How the start plus one and a half steps reads.
    pub off_step: String,
}

/// Inner struct for [`Schema::Numeric`].
#[derive(Debug)]
pub struct Numeric {
    /// The name of the property.
    pub name: String,
    /// A human-readable version of the name.
    pub label: Option<String>,
    /// A description of the property.
    pub description: Option<String>,
    /// The actions that are available for this value.
    pub access: Access,
    /// The endpoint that the value is exposed on.
    pub endpoint: Option<String>,
    /// The minimum value (inclusive).
    pub value_min: Option<Real>,
    /// The maximum value (inclusive).
    pub value_max: Option<Real>,
    /// The step size.
    pub value_step: Option<Step>,
    /// The human-readable unit to display after the value.
    pub unit: Option<String>,
    /// A list of values with specific meanings.
    pub presets: Vec<Preset>,
}

/// A predefined value with a specific meaning.
#[derive(Debug)]
pub struct Preset {
    /// The name of the preset.
    pub name: String,
    /// A description of the preset.
    pub description: String,
    /// The value that the preset stands for.
    pub value: Real,
}

/// Inner struct for [`Schema::Enum`].
#[derive(Debug)]
pub struct Enum {
    /// The name of the property.
    pub name: String,
    /// A human-readable version of the name.
    pub label: Option<String>,
    /// A description of the property.
    pub description: Option<String>,
    /// The actions that are available for this value.
    pub access: Access,
    /// The endpoint that the value is exposed on.
    pub endpoint: Option<String>,
    /// The allowed values.
    pub values: Vec<JsonValue>,
}

/// Inner struct for [`Schema::Text`].
#[derive(Debug)]
pub struct Text {
    /// The name of the property.
    pub name: String,
    /// A human-readable version of the name.
    pub label: Option<String>,
    /// A description of the property.
    pub description: Option<String>,
    /// The actions that are available for this value.
    pub access: Access,
    /// The endpoint that the value is exposed on.
    pub endpoint: Option<String>,
}

/// Inner struct for [`Schema::List`].
#[derive(Debug)]
pub struct List {
    /// The name of the property.
    pub name: String,
    /// A human-readable version of the name.
    pub label: Option<String>,
    /// A description of the property.
    pub description: Option<String>,
    /// The actions that are available for this value.
    pub access: Access,
    /// The endpoint that the value is exposed on.
    pub endpoint: Option<String>,
    /// The mimimum number of items (inclusive).
    pub length_min: Option<usize>,
    /// The maximum number of items (inclusive).
    pub length_max: Option<usize>,
    /// The type of the contained item.
    pub item_type: Box<ListItem>,
}

/// Inner struct for [`Schema::Bag`].
#[derive(Debug)]
pub struct Bag {
    /// The name of the property.
    pub name: String,
    /// A human-readable version of the name.
    pub label: Option<String>,
    /// A description of the property.
    pub description: Option<String>,
    /// The actions that are available for this value.
    pub access: Access,
    /// The endpoint that the value is exposed on.
    pub endpoint: Option<String>,
}

/// Inner struct for [`Schema::Composite`].
#[derive(Debug)]
pub struct Composite {
    /// The name of the property.
    pub name: String,
    /// A human-readable version of the name.
    pub label: Option<String>,
    /// A description of the property.
    pub description: Option<String>,
    /// The actions that are available for this value.
    pub access: Option<Access>,
    /// The endpoint that the value is exposed on.
    pub endpoint: Option<String>,
    /// The nested properties.
    pub features: Vec<Schema>,
}

/// Inner struct for [`Schema::Specific`].
#[derive(Debug)]
pub struct Specific {
    /// The endpoint that the value is exposed on.
    pub endpoint: Option<String>,
    /// The nested properties.
    pub features: Vec<Schema>,
}

/// Wrapper for a schema struct that is attached to specific property of an object.
#[derive(Debug)]
pub struct WithProperty<T> {
    /// The property of the object.
    pub property: String,
    /// The schema of the value of the property.
    pub type_: T,
}

/// Definition of a value that is exposed by a Zigbee2MQTT device.
///
/// The primary moniker used for this in Zigbee2MQTT is `exposes`, when nested they're called
/// `features` instead. We'll use schema in this module, in part because in addition to exposed values
/// they're also used for device options.
#[derive(Debug)]
pub enum Schema {
    /// A binary value.
    Binary(WithProperty<Binary>),
    /// A numeric value.
    Numeric(WithProperty<Numeric>),
    /// An enum value.
    Enum(WithProperty<Enum>),
    /// A textual value.
    Text(WithProperty<Text>),
    /// A list of values of a single type.
    List(WithProperty<List>),
    /// A nested map with predefined keys/properties.
    Composite(WithProperty<Composite>),
    /// Specific types.
    ///
    /// These define a list of related properties. Each type has some restrictions on what fields it
    /// must/can contain, but since we're just consuming the schema this is of little consequence to
    /// us.
    ///
    /// These appear similar to composite, but unlike composite these _don't_ define a nested object.
    /// Instead all contained features exist on the same level as their parent. Because of this they
    /// lack most attributes that the rest of the schema types have as these are defined on the
    /// contained features.
    Specific(Specific),
    /// An object with undefined contents.
    ///
    /// This exists purely for the `homeassistant` option, as we don't have a definition for this, so
    /// we have no options option than to just accept any arbitrary object.
    Bag(WithProperty<Bag>),
}

/// The value types that can be used in a list.
///
/// This is `Schema` with the following changes:
/// - remove the `property` key as list items cannot define their own property, they exist in the
///   property that the list is exposed as
/// - exclude specific types as the features within it would end up directly in the list which result
///   in the same issue.
#[derive(Debug)]
pub enum ListItem {
    /// A binary value.
    Binary(Binary),
    /// A numeric value.
    Numeric(Numeric),
    /// An enum value.
    Enum(Enum),
    /// A textual value.
    Text(Text),
    /// A list of values of a single type.
    List(List),
    /// A nested map with predefined keys/properties.
    Composite(Composite),
}

/// Why a value was rejected, and where.
#[verifier::ext_equal]
pub struct Failure {
    /// The human-readable message.
    pub message: Seq<char>,
    /// The source of the value that was rejected, if known.
    pub path: Option<Seq<char>>,
}

/// Whether the outcome of processing a value is the expected one.
pub open spec fn agrees(
    outcome: Result<JsonValue, ErrorWithMeta>,
    expected: Result<json::Json, Failure>,
) -> bool {
    match (outcome, expected) {
        (Ok(value), Ok(model)) => value@ == model,
        (Err(error), Err(failure)) => error@ == (crate::error::ErrorWithMetaModel {
            error: crate::error::ErrorModel::InvalidResource {
                field_path: ""@,
                message: failure.message,
            },
            source: failure.path,
            published: false,
        }),
        _ => false,
    }
}

fn invalid<T>(message: String, value: &ValueWithSource<T>) -> (r: ErrorWithMeta)
    ensures
        agrees(Err(r), Err(Failure { message: message@, path: value.path() })),
{
    Error::InvalidResource { field_path: "".to_owned(), message }.caused_by(value)
}

/// The message for a value that toggles the state.
pub open spec fn toggle_note(on: Seq<char>, off: Seq<char>) -> Seq<char> {
    "This will toggle the state on every reconcile. Use "@ + on + " or "@ + off + " instead."@
}

/// See [`toggle_note`]. The values are given as they read in a document.
pub fn toggle_message(on: &str, off: &str) -> (r: String)
    ensures
        r@ == toggle_note(on@, off@),
{
    "This will toggle the state on every reconcile. Use ".to_owned().concat(on).concat(
        " or ",
    ).concat(off).concat(" instead.")
}

/// The message for a value that is neither of two.
pub open spec fn either_note(on: Seq<char>, off: Seq<char>) -> Seq<char> {
    "Must be either "@ + on + " or "@ + off + "."@
}

/// See [`either_note`]. The values are given as they read in a document.
pub fn either_message(on: &str, off: &str) -> (r: String)
    ensures
        r@ == either_note(on@, off@),
{
    "Must be either ".to_owned().concat(on).concat(" or ").concat(off).concat(".")
}

/// The message for a value that isn't in a list.
pub open spec fn choice_note(values: Seq<char>) -> Seq<char> {
    "Must be one of "@ + values + "."@
}

/// See [`choice_note`]. The list is given as it reads in a document.
pub fn choice_message(values: &str) -> (r: String)
    ensures
        r@ == choice_note(values@),
{
    "Must be one of ".to_owned().concat(values).concat(".")
}

/// The message for a value that is neither a number nor the name of a preset.
pub open spec fn preset_note(names: Seq<char>) -> Seq<char> {
    "Must be a number or one of the presets: "@ + names + "."@
}

/// See [`preset_note`]. The list of names is given as it reads in a document.
pub fn preset_message(names: &str) -> (r: String)
    ensures
        r@ == preset_note(names@),
{
    "Must be a number or one of the presets: ".to_owned().concat(names).concat(".")
}

/// What comes of a value for a [`Binary`].
pub open spec fn binary_result(
    schema: Binary,
    value: json::Json,
    path: Option<Seq<char>>,
) -> Result<json::Json, Failure> {
    let on = json::compact(schema.value_on@);
    let off = json::compact(schema.value_off@);
    if json::same(value, schema.value_on@) || json::same(value, schema.value_off@) {
        Ok(value)
    } else if schema.value_toggle matches Some(toggle) && json::same(value, toggle@) {
        Err(Failure { message: toggle_note(on, off), path })
    } else {
        Err(Failure { message: either_note(on, off), path })
    }
}

fn process_binary(schema: &Binary, value: ValueWithSource<JsonValue>) -> (r: Result<
    JsonValue,
    ErrorWithMeta,
>)
    ensures
        agrees(r, binary_result(*schema, value.inner()@, value.path())),
{
    if *value.value() == schema.value_on || *value.value() == schema.value_off {
        return Ok(value.take());
    }
    let on = json::to_text(&schema.value_on);
    let off = json::to_text(&schema.value_off);
    match &schema.value_toggle {
        Some(toggle) => {
            if *value.value() == *toggle {
                return Err(invalid(toggle_message(on.as_str(), off.as_str()), &value));
            }
        },
        None => {},
    }
    Err(invalid(either_message(on.as_str(), off.as_str()), &value))
}

/// The index of the first preset with the given name.
pub open spec fn preset_index(presets: Seq<Preset>, name: Seq<char>) -> Option<int>
    decreases presets.len(),
{
    if presets.len() == 0 {
        None
    } else {
        match preset_index(presets.drop_last(), name) {
            Some(i) => Some(i),
            None => if presets.last().name@ == name {
                Some(presets.len() - 1)
            } else {
                None
            },
        }
    }
}

/// The names of presets, as a list of strings.
pub open spec fn preset_names(presets: Seq<Preset>) -> Seq<json::Json> {
    presets.map_values(|preset: Preset| json::Json::Text(preset.name@))
}

/// The number that the text of a value names.
pub open spec fn named_preset(schema: Numeric, value: json::Json) -> Option<json::NumberModel> {
    match value {
        json::Json::Text(name) => match preset_index(schema.presets@, name) {
            Some(i) => Some(json::Number::Float(schema.presets@[i].value)@),
            None => None,
        },
        _ => None,
    }
}

/// The message for a number that is out of range; none if it is in range.
pub open spec fn range_note(schema: Numeric, number: int) -> Option<Seq<char>> {
    match (schema.value_min, schema.value_max) {
        (Some(min), Some(max)) => if number < min.value.scaled() || number > max.value.scaled() {
            Some(
                "Must be between "@ + min.display@ + " and "@ + max.display@ + " (inclusive)."@,
            )
        } else {
            None
        },
        (Some(min), None) => if number < min.value.scaled() {
            Some("Must be at least "@ + min.display@ + "."@)
        } else {
            None
        },
        (None, Some(max)) => if number > max.value.scaled() {
            Some("Must be at most "@ + max.display@ + "."@)
        } else {
            None
        },
        (None, None) => None,
    }
}

/// The message for a number that isn't a whole number of steps away from the start; none if it is.
pub open spec fn step_note(schema: Numeric, number: int) -> Option<Seq<char>> {
    match schema.value_step {
        Some(step) => {
            let (start, start_text) = match schema.value_min {
                Some(min) => (min.value.scaled(), min.display@),
                None => (0, "0"@),
            };
            if double::on_grid(number, start, step.value.scaled()) {
                None
            } else {
                Some(
                    "Must be "@ + start_text + " plus any number of steps of "@ + step.display@
                        + " (e.g. "@ + step.one_step@ + ", "@ + step.two_steps@ + ", but not "@
                        + step.off_step@ + ")."@,
                )
            }
        },
        None => None,
    }
}

/// What comes of a value for a [`Numeric`].
pub open spec fn numeric_result(
    schema: Numeric,
    value: json::Json,
    path: Option<Seq<char>>,
) -> Result<json::Json, Failure> {
    match named_preset(schema, value) {
        Some(number) => Ok(json::Json::Number(number)),
        None => match value {
            json::Json::Number(n) => {
                let number = json::number_scaled(n);
                match range_note(schema, number) {
                    Some(message) => Err(Failure { message, path }),
                    None => match step_note(schema, number) {
                        Some(message) => Err(Failure { message, path }),
                        None => Ok(value),
                    },
                }
            },
            _ => if schema.presets@.len() == 0 {
                Err(Failure { message: "Must be a number."@, path })
            } else {
                Err(
                    Failure {
                        message: preset_note(
                            json::compact(json::Json::Array(preset_names(schema.presets@))),
                        ),
                        path,
                    },
                )
            },
        },
    }
}

fn find_preset(presets: &Vec<Preset>, name: &str) -> (r: Option<usize>)
    ensures
        match r {
            Some(i) => preset_index(presets@, name@) == Some(i as int) && i < presets@.len(),
            None => preset_index(presets@, name@) is None,
        },
{
    let mut i: usize = 0;
    let mut found: Option<usize> = None;
    proof {
        assert(presets@.take(0) =~= Seq::empty());
    }
    while i < presets.len()
        invariant
            i <= presets@.len(),
            match found {
                Some(k) => {
                    &&& preset_index(presets@.take(i as int), name@) == Some(k as int)
                    &&& k < i
                },
                None => preset_index(presets@.take(i as int), name@) is None,
            },
        decreases presets@.len() - i,
    {
        proof {
            assert(presets@.take(i + 1).drop_last() =~= presets@.take(i as int));
        }
        if found.is_none() && text::same_text(presets[i].name.as_str(), name) {
            found = Some(i);
        }
        i = i + 1;
    }
    proof {
        assert(presets@.take(presets@.len() as int) =~= presets@);
    }
    found
}

fn list_preset_names(presets: &Vec<Preset>) -> (r: JsonValue)
    ensures
        r@ == json::Json::Array(preset_names(presets@)),
{
    let mut names: Vec<JsonValue> = Vec::new();
    for i in 0..presets.len()
        invariant
            names@.len() == i,
            forall|j: int|
                0 <= j < i ==> (#[trigger] names@[j])@ == json::Json::Text(presets@[j].name@),
    {
        names.push(JsonValue::Text(presets[i].name.clone()));
    }
    let r = JsonValue::Array(names);
    proof {
        assert(r@->Array_0 =~= preset_names(presets@));
    }
    r
}

fn check_range(schema: &Numeric, number: Double) -> (r: Option<String>)
    ensures
        with_source::path_of(r) == range_note(*schema, number.scaled()),
{
    match (&schema.value_min, &schema.value_max) {
        (Some(min), Some(max)) => {
            if number.less_than(min.value) || max.value.less_than(number) {
                Some(
                    "Must be between ".to_owned().concat(min.display.as_str()).concat(
                        " and ",
                    ).concat(max.display.as_str()).concat(" (inclusive)."),
                )
            } else {
                None
            }
        },
        (Some(min), None) => {
            if number.less_than(min.value) {
                Some("Must be at least ".to_owned().concat(min.display.as_str()).concat("."))
            } else {
                None
            }
        },
        (None, Some(max)) => {
            if max.value.less_than(number) {
                Some("Must be at most ".to_owned().concat(max.display.as_str()).concat("."))
            } else {
                None
            }
        },
        (None, None) => None,
    }
}

fn check_step(schema: &Numeric, number: Double) -> (r: Option<String>)
    ensures
        with_source::path_of(r) == step_note(*schema, number.scaled()),
{
    match &schema.value_step {
        Some(step) => {
            // Steps are taken from the min value, so a range of 11-31 with steps of 2 accepts 11, 13,
            // 15, etc.
            let (start, start_text) = match &schema.value_min {
                Some(min) => (min.value, min.display.as_str()),
                None => (Double::zero(), "0"),
            };
            if number.is_on_grid(start, step.value) {
                None
            } else {
                Some(
                    "Must be ".to_owned().concat(start_text).concat(
                        " plus any number of steps of ",
                    ).concat(step.display.as_str()).concat(" (e.g. ").concat(
                        step.one_step.as_str(),
                    ).concat(", ").concat(step.two_steps.as_str()).concat(", but not ").concat(
                        step.off_step.as_str(),
                    ).concat(")."),
                )
            }
        },
        None => None,
    }
}

fn process_numeric(schema: &Numeric, value: ValueWithSource<JsonValue>) -> (r: Result<
    JsonValue,
    ErrorWithMeta,
>)
    ensures
        agrees(r, numeric_result(*schema, value.inner()@, value.path())),
{
    // Instead of a numeric value the name of a preset can be used. Check this first so we can treat
    // it as a number after this point.
    if let JsonValue::Text(name) = value.value() {
        if let Some(i) = find_preset(&schema.presets, name.as_str()) {
            return Ok(JsonValue::Number(Number::Float(schema.presets[i].value.clone())));
        }
    }
    let number = match value.value() {
        JsonValue::Number(n) => n.to_double(),
        _ => {
            return if schema.presets.len() == 0 {
                Err(invalid("Must be a number.".to_owned(), &value))
            } else {
                let names = json::to_text(&list_preset_names(&schema.presets));
                Err(invalid(preset_message(names.as_str()), &value))
            };
        },
    };
    match check_range(schema, number) {
        Some(message) => {
            return Err(invalid(message, &value));
        },
        None => {},
    }
    match check_step(schema, number) {
        Some(message) => {
            return Err(invalid(message, &value));
        },
        None => {},
    }
    Ok(value.take())
}

/// The models of values.
pub open spec fn models(values: Seq<JsonValue>) -> Seq<json::Json> {
    values.map_values(|value: JsonValue| value@)
}

/// What comes of a value for an [`Enum`].
pub open spec fn enum_result(
    schema: Enum,
    value: json::Json,
    path: Option<Seq<char>>,
) -> Result<json::Json, Failure> {
    if exists|i: int| 0 <= i < schema.values@.len() && json::same(
        #[trigger] schema.values@[i]@,
        value,
    ) {
        Ok(value)
    } else {
        Err(
            Failure {
                message: choice_note(json::compact(json::Json::Array(models(schema.values@)))),
                path,
            },
        )
    }
}

fn process_enum(schema: &Enum, value: ValueWithSource<JsonValue>) -> (r: Result<
    JsonValue,
    ErrorWithMeta,
>)
    ensures
        agrees(r, enum_result(*schema, value.inner()@, value.path())),
{
    for i in 0..schema.values.len()
        invariant
            forall|j: int|
                0 <= j < i ==> !json::same(#[trigger] schema.values@[j]@, value.inner()@),
    {
        if schema.values[i] == *value.value() {
            return Ok(value.take());
        }
    }
    let all = JsonValue::Array(copy_values(&schema.values));
    Err(invalid(choice_message(json::to_text(&all).as_str()), &value))
}

fn copy_values(values: &Vec<JsonValue>) -> (r: Vec<JsonValue>)
    ensures
        models(r@) == models(values@),
        json::Json::Array(models(values@)) == JsonValue::Array(r)@,
{
    let mut out: Vec<JsonValue> = Vec::new();
    for i in 0..values.len()
        invariant
            out@.len() == i,
            forall|j: int| 0 <= j < i ==> (#[trigger] out@[j])@ == values@[j]@,
    {
        out.push(values[i].clone());
    }
    proof {
        assert(models(out@) =~= models(values@));
        assert(JsonValue::Array(out)@->Array_0 =~= models(values@));
    }
    out
}

/// What comes of a value for a [`Text`].
pub open spec fn text_result(value: json::Json, path: Option<Seq<char>>) -> Result<
    json::Json,
    Failure,
> {
    if value is Text {
        Ok(value)
    } else {
        Err(Failure { message: "Must be a string."@, path })
    }
}

fn process_text(value: ValueWithSource<JsonValue>) -> (r: Result<JsonValue, ErrorWithMeta>)
    ensures
        agrees(r, text_result(value.inner()@, value.path())),
{
    if let JsonValue::Text(_) = value.value() {
        Ok(value.take())
    } else {
        Err(invalid("Must be a string.".to_owned(), &value))
    }
}

/// What comes of a value for a [`Bag`].
pub open spec fn bag_result(value: json::Json, path: Option<Seq<char>>) -> Result<
    json::Json,
    Failure,
> {
    if value is Object {
        Ok(value)
    } else {
        Err(Failure { message: "Must be an object."@, path })
    }
}

fn process_bag(value: ValueWithSource<JsonValue>) -> (r: Result<JsonValue, ErrorWithMeta>)
    ensures
        agrees(r, bag_result(value.inner()@, value.path())),
{
    if let JsonValue::Object(_) = value.value() {
        Ok(value.take())
    } else {
        Err(invalid("Must be an object.".to_owned(), &value))
    }
}

/// The message for a list that has too few or too many items; none if its length is right.
pub open spec fn length_note(schema: List, length: nat) -> Option<Seq<char>> {
    match (schema.length_min, schema.length_max) {
        (Some(min), Some(max)) => if length < min || length > max {
            Some(
                "Must have between "@ + text::decimal(min as nat) + " and "@ + text::decimal(
                    max as nat,
                ) + " items (inclusive)."@,
            )
        } else {
            None
        },
        (Some(min), None) => if length < min {
            Some("Must have at least "@ + text::decimal(min as nat) + " item(s)."@)
        } else {
            None
        },
        (None, Some(max)) => if length > max {
            Some("Must have at most "@ + text::decimal(max as nat) + " item(s)."@)
        } else {
            None
        },
        (None, None) => None,
    }
}

fn check_length(schema: &List, length: usize) -> (r: Option<String>)
    ensures
        with_source::path_of(r) == length_note(*schema, length as nat),
{
    match (schema.length_min, schema.length_max) {
        (Some(min), Some(max)) => {
            if length < min || length > max {
                Some(
                    "Must have between ".to_owned().concat(
                        text::decimal_text(min as u64).as_str(),
                    ).concat(" and ").concat(text::decimal_text(max as u64).as_str()).concat(
                        " items (inclusive).",
                    ),
                )
            } else {
                None
            }
        },
        (Some(min), None) => {
            if length < min {
                Some(
                    "Must have at least ".to_owned().concat(
                        text::decimal_text(min as u64).as_str(),
                    ).concat(" item(s)."),
                )
            } else {
                None
            }
        },
        (None, Some(max)) => {
            if length > max {
                Some(
                    "Must have at most ".to_owned().concat(
                        text::decimal_text(max as u64).as_str(),
                    ).concat(" item(s)."),
                )
            } else {
                None
            }
        },
        (None, None) => None,
    }
}

/// What comes of the items of a list: each of them processed, up to the first that is rejected.
pub open spec fn items_result(
    schema: ListItem,
    items: Seq<json::Json>,
    path: Option<Seq<char>>,
) -> Result<Seq<json::Json>, Failure>
    decreases schema, items.len() + 1,
{
    if items.len() == 0 {
        Ok(Seq::empty())
    } else {
        match items_result(schema, items.drop_last(), path) {
            Ok(done) => match item_result(
                schema,
                items.last(),
                with_source::item_path(path, (items.len() - 1) as nat),
            ) {
                Ok(item) => Ok(done.push(item)),
                Err(failure) => Err(failure),
            },
            Err(failure) => Err(failure),
        }
    }
}

/// What comes of an item of a list.
pub open spec fn item_result(
    schema: ListItem,
    value: json::Json,
    path: Option<Seq<char>>,
) -> Result<json::Json, Failure>
    decreases schema, 0nat,
{
    match schema {
        ListItem::Binary(inner) => binary_result(inner, value, path),
        ListItem::Numeric(inner) => numeric_result(inner, value, path),
        ListItem::Enum(inner) => enum_result(inner, value, path),
        ListItem::Text(_) => text_result(value, path),
        ListItem::List(inner) => list_result(inner, value, path),
        ListItem::Composite(inner) => composite_result(inner, value, path),
    }
}

/// What comes of a value for a [`List`].
pub open spec fn list_result(
    schema: List,
    value: json::Json,
    path: Option<Seq<char>>,
) -> Result<json::Json, Failure>
    decreases schema, 0nat,
{
    match value {
        json::Json::Array(items) => match length_note(schema, items.len()) {
            Some(message) => Err(Failure { message, path }),
            None => match items_result(*schema.item_type, items, path) {
                Ok(done) => Ok(json::Json::Array(done)),
                Err(failure) => Err(failure),
            },
        },
        _ => Err(Failure { message: "Must be an array."@, path }),
    }
}

/// Whether a property with the given name is known to a part of the schema.
pub open spec fn knows(schema: Schema, name: Seq<char>) -> bool
    decreases schema, 0nat,
{
    match schema {
        Schema::Binary(inner) => inner.property@ == name,
        Schema::Numeric(inner) => inner.property@ == name,
        Schema::Enum(inner) => inner.property@ == name,
        Schema::Text(inner) => inner.property@ == name,
        Schema::List(inner) => inner.property@ == name,
        Schema::Composite(inner) => inner.property@ == name,
        Schema::Specific(inner) => any_knows(inner.features@, name),
        Schema::Bag(inner) => inner.property@ == name,
    }
}

/// Whether a property with the given name is known to one of several schemas.
pub open spec fn any_knows(schemas: Seq<Schema>, name: Seq<char>) -> bool
    decreases schemas, 0nat,
{
    exists|i: int| 0 <= i < schemas.len() && knows(#[trigger] schemas[i], name)
}

/// The index of the first entry that is set without being known to the schema.
pub open spec fn first_unknown(
    schemas: Seq<Schema>,
    entries: Seq<(Seq<char>, json::Json)>,
) -> Option<int>
    decreases entries.len(),
{
    if entries.len() == 0 {
        None
    } else {
        match first_unknown(schemas, entries.drop_last()) {
            Some(i) => Some(i),
            None => if !any_knows(schemas, entries.last().0) && entries.last().1 !is Null {
                Some(entries.len() - 1)
            } else {
                None
            },
        }
    }
}

/// What comes of a value that must be an object with the properties of the given schemas.
pub open spec fn object_result(
    schemas: Seq<Schema>,
    value: json::Json,
    path: Option<Seq<char>>,
) -> Result<json::Json, Failure>
    decreases schemas, 1nat,
{
    match value {
        json::Json::Object(entries) => match first_unknown(schemas, entries) {
            Some(i) => Err(
                Failure {
                    message: "Unknown property."@,
                    path: with_source::entry_path(path, entries[i].0),
                },
            ),
            None => features_result(schemas, value, path),
        },
        _ => Err(Failure { message: "Must be an object."@, path }),
    }
}

/// What comes of a value for a [`Composite`].
pub open spec fn composite_result(
    schema: Composite,
    value: json::Json,
    path: Option<Seq<char>>,
) -> Result<json::Json, Failure>
    decreases schema, 0nat,
{
    object_result(schema.features@, value, path)
}

/// What comes of a value for several schemas, each of which gets what the one before left.
pub open spec fn features_result(
    schemas: Seq<Schema>,
    value: json::Json,
    path: Option<Seq<char>>,
) -> Result<json::Json, Failure>
    decreases schemas, 0nat,
{
    if schemas.len() == 0 {
        Ok(value)
    } else {
        match features_result(schemas.drop_last(), value, path) {
            Ok(next) => schema_result(schemas.last(), next, path),
            Err(failure) => Err(failure),
        }
    }
}

/// The property that a schema is attached to.
pub open spec fn property_of(schema: Schema) -> Seq<char> {
    match schema {
        Schema::Binary(inner) => inner.property@,
        Schema::Numeric(inner) => inner.property@,
        Schema::Enum(inner) => inner.property@,
        Schema::Text(inner) => inner.property@,
        Schema::List(inner) => inner.property@,
        Schema::Composite(inner) => inner.property@,
        Schema::Specific(_) => Seq::empty(),
        Schema::Bag(inner) => inner.property@,
    }
}

/// What comes of the value of the property that a schema is attached to.
pub open spec fn property_result(
    schema: Schema,
    value: json::Json,
    path: Option<Seq<char>>,
) -> Result<json::Json, Failure>
    decreases schema, 0nat,
{
    match schema {
        Schema::Binary(inner) => binary_result(inner.type_, value, path),
        Schema::Numeric(inner) => numeric_result(inner.type_, value, path),
        Schema::Enum(inner) => enum_result(inner.type_, value, path),
        Schema::Text(_) => text_result(value, path),
        Schema::List(inner) => list_result(inner.type_, value, path),
        Schema::Composite(inner) => composite_result(inner.type_, value, path),
        Schema::Specific(inner) => features_result(inner.features@, value, path),
        Schema::Bag(_) => bag_result(value, path),
    }
}

/// What comes of an object for a schema: the property that the schema is attached to is processed,
/// unless it is missing or null, and the others are left alone.
pub open spec fn schema_result(
    schema: Schema,
    value: json::Json,
    path: Option<Seq<char>>,
) -> Result<json::Json, Failure>
    decreases schema, 1nat,
{
    if schema is Specific {
        property_result(schema, value, path)
    } else {
        match value {
            json::Json::Object(entries) => match json::position(entries, property_of(schema)) {
                None => Ok(value),
                Some(i) => if entries[i].1 is Null {
                    Ok(value)
                } else {
                    match property_result(
                        schema,
                        entries[i].1,
                        with_source::extended(path, "."@ + property_of(schema)),
                    ) {
                        Ok(result) => Ok(
                            json::Json::Object(entries.update(i, (entries[i].0, result))),
                        ),
                        Err(failure) => Err(failure),
                    }
                },
            },
            _ => Err(Failure { message: "Must be an object."@, path }),
        }
    }
}

fn process_list(schema: &List, value: ValueWithSource<JsonValue>) -> (r: Result<
    JsonValue,
    ErrorWithMeta,
>)
    ensures
        agrees(r, list_result(*schema, value.inner()@, value.path())),
    decreases schema, 0nat,
{
    let (inner, source) = value.split();
    match inner {
        JsonValue::Array(items) => {
            match check_length(schema, items.len()) {
                Some(message) => {
                    return Err(invalid(message, &source));
                },
                None => {},
            }
            let ghost all = models(items@);
            proof {
                assert(inner@->Array_0 =~= all);
            }
            let mut iterator = source.with_value(items).into_iter();
            let mut new_items: Vec<JsonValue> = Vec::new();
            proof {
                assert(all.take(0) =~= Seq::empty());
                assert(models(new_items@) =~= Seq::empty());
                assert(models(iterator.rest()) =~= all.skip(0));
            }
            loop
                invariant
                    iterator.path() == source.path(),
                    iterator.position() <= all.len(),
                    models(iterator.rest()) == all.skip(iterator.position() as int),
                    items_result(
                        *schema.item_type,
                        all.take(iterator.position() as int),
                        source.path(),
                    ) == Ok::<Seq<json::Json>, Failure>(models(new_items@)),
                    inner@ == json::Json::Array(all),
                    source.path() == value.path(),
                    value.inner()@ == inner@,
                    length_note(*schema, all.len()) is None,
                ensures
                    items_result(*schema.item_type, all, source.path()) == Ok::<
                        Seq<json::Json>,
                        Failure,
                    >(models(new_items@)),
                decreases iterator.rest().len(),
            {
                let ghost at = iterator.position() as int;
                let ghost before = iterator.rest();
                let ghost made = new_items@;
                match iterator.next() {
                    None => {
                        proof {
                            assert(models(before).len() == 0);
                            assert(all.take(at) =~= all);
                        }
                        break;
                    },
                    Some(item) => {
                        proof {
                            assert(models(before).len() == before.len());
                            assert(all.skip(at).len() == all.len() - at);
                            assert(models(before)[0] == all.skip(at)[0]);
                            assert(all.take(at + 1).drop_last() =~= all.take(at));
                            assert(all.take(at + 1).last() == all[at]);
                            assert forall|k: int| 0 <= k < iterator.rest().len() implies models(
                                iterator.rest(),
                            )[k] == all.skip(at + 1)[k] by {
                                assert(iterator.rest()[k] == before[k + 1]);
                                assert(models(before)[k + 1] == all.skip(at)[k + 1]);
                            }
                            assert(models(iterator.rest()) =~= all.skip(at + 1));
                        }
                        match process_item(&schema.item_type, item) {
                            Ok(new_item) => {
                                let ghost shown = new_item@;
                                new_items.push(new_item);
                                proof {
                                    assert(models(new_items@) =~= models(made).push(shown));
                                }
                            },
                            Err(error) => {
                                proof {
                                    lemma_items_error(
                                        *schema.item_type,
                                        all,
                                        source.path(),
                                        at + 1,
                                    );
                                }
                                return Err(error);
                            },
                        }
                    },
                }
            }
            let r = JsonValue::Array(new_items);
            proof {
                assert(r@->Array_0 =~= models(new_items@));
            }
            Ok(r)
        },
        _ => Err(invalid("Must be an array.".to_owned(), &source)),
    }
}

proof fn lemma_items_error(
    schema: ListItem,
    items: Seq<json::Json>,
    path: Option<Seq<char>>,
    n: int,
)
    requires
        0 <= n <= items.len(),
        items_result(schema, items.take(n), path) is Err,
    ensures
        items_result(schema, items, path) == items_result(schema, items.take(n), path),
    decreases items.len(),
{
    if n == items.len() {
        assert(items.take(n) =~= items);
    } else {
        assert(items.drop_last().take(n) =~= items.take(n));
        lemma_items_error(schema, items.drop_last(), path, n);
    }
}

fn process_item(schema: &ListItem, value: ValueWithSource<JsonValue>) -> (r: Result<
    JsonValue,
    ErrorWithMeta,
>)
    ensures
        agrees(r, item_result(*schema, value.inner()@, value.path())),
    decreases schema, 0nat,
{
    match schema {
        ListItem::Binary(inner) => process_binary(inner, value),
        ListItem::Numeric(inner) => process_numeric(inner, value),
        ListItem::Enum(inner) => process_enum(inner, value),
        ListItem::Text(_) => process_text(value),
        ListItem::List(inner) => process_list(inner, value),
        ListItem::Composite(inner) => process_composite(inner, value),
    }
}

fn schema_knows(schema: &Schema, name: &str) -> (r: bool)
    ensures
        r == knows(*schema, name@),
    decreases schema, 0nat,
{
    match schema {
        Schema::Binary(inner) => text::same_text(inner.property.as_str(), name),
        Schema::Numeric(inner) => text::same_text(inner.property.as_str(), name),
        Schema::Enum(inner) => text::same_text(inner.property.as_str(), name),
        Schema::Text(inner) => text::same_text(inner.property.as_str(), name),
        Schema::List(inner) => text::same_text(inner.property.as_str(), name),
        Schema::Composite(inner) => text::same_text(inner.property.as_str(), name),
        Schema::Specific(inner) => features_know(&inner.features, name),
        Schema::Bag(inner) => text::same_text(inner.property.as_str(), name),
    }
}

fn features_know(schemas: &Vec<Schema>, name: &str) -> (r: bool)
    ensures
        r == any_knows(schemas@, name@),
    decreases schemas, 0nat,
{
    for i in 0..schemas.len()
        invariant
            forall|j: int| 0 <= j < i ==> !knows(#[trigger] schemas@[j], name@),
    {
        if schema_knows(&schemas[i], name) {
            return true;
        }
    }
    false
}

fn find_unknown(schemas: &Vec<Schema>, object: &JsonObject) -> (r: Option<usize>)
    ensures
        match r {
            Some(i) => first_unknown(schemas@, object@) == Some(i as int) && i < object@.len(),
            None => first_unknown(schemas@, object@) is None,
        },
{
    let count: usize = object.len();
    let mut found: Option<usize> = None;
    proof {
        assert(object@.take(0) =~= Seq::empty());
    }
    for i in 0..count
        invariant
            count == object@.len(),
            match found {
                Some(k) => {
                    &&& first_unknown(schemas@, object@.take(i as int)) == Some(k as int)
                    &&& k < i
                },
                None => first_unknown(schemas@, object@.take(i as int)) is None,
            },
    {
        proof {
            assert(object@.take(i + 1).drop_last() =~= object@.take(i as int));
        }
        if found.is_none() {
            let unset = match object.value(i) {
                JsonValue::Null => true,
                _ => false,
            };
            if !unset && !features_know(schemas, object.key(i).as_str()) {
                found = Some(i);
            }
        }
    }
    proof {
        assert(object@.take(object@.len() as int) =~= object@);
    }
    found
}

fn process_composite(schema: &Composite, value: ValueWithSource<JsonValue>) -> (r: Result<
    JsonValue,
    ErrorWithMeta,
>)
    ensures
        agrees(r, composite_result(*schema, value.inner()@, value.path())),
    decreases schema, 0nat,
{
    match value.value() {
        JsonValue::Object(object) => {
            match find_unknown(&schema.features, object) {
                Some(i) => {
                    let suffix = ".".to_owned().concat(object.key(i).as_str());
                    proof {
                        if let Some(p) = value.path() {
                            assert(p + ("."@ + object@[i as int].0) =~= p + "."@
                                + object@[i as int].0);
                        }
                    }
                    let unknown = value.sub((), suffix.as_str());
                    return Err(invalid("Unknown property.".to_owned(), &unknown));
                },
                None => {},
            }
        },
        _ => {
            return Err(invalid("Must be an object.".to_owned(), &value));
        },
    }
    process_features(&schema.features, value)
}

fn process_features(schemas: &Vec<Schema>, value: ValueWithSource<JsonValue>) -> (r: Result<
    JsonValue,
    ErrorWithMeta,
>)
    ensures
        agrees(r, features_result(schemas@, value.inner()@, value.path())),
    decreases schemas, 0nat,
{
    let ghost start = value.inner()@;
    let ghost path = value.path();
    let mut current = value;
    proof {
        assert(schemas@.take(0) =~= Seq::empty());
    }
    for i in 0..schemas.len()
        invariant
            current.path() == path,
            value.inner()@ == start,
            value.path() == path,
            features_result(schemas@.take(i as int), start, path) == Ok::<json::Json, Failure>(
                current.inner()@,
            ),
    {
        proof {
            assert(schemas@.take(i + 1).drop_last() =~= schemas@.take(i as int));
        }
        let (inner, source) = current.split();
        match process_schema(&schemas[i], source.with_value(inner)) {
            Ok(next) => {
                current = source.with_value(next);
            },
            Err(error) => {
                proof {
                    lemma_features_error(schemas@, start, path, i + 1);
                }
                return Err(error);
            },
        }
    }
    proof {
        assert(schemas@.take(schemas@.len() as int) =~= schemas@);
    }
    Ok(current.take())
}

proof fn lemma_features_error(
    schemas: Seq<Schema>,
    value: json::Json,
    path: Option<Seq<char>>,
    n: int,
)
    requires
        0 <= n <= schemas.len(),
        features_result(schemas.take(n), value, path) is Err,
    ensures
        features_result(schemas, value, path) == features_result(schemas.take(n), value, path),
    decreases schemas.len(),
{
    if n == schemas.len() {
        assert(schemas.take(n) =~= schemas);
    } else {
        assert(schemas.drop_last().take(n) =~= schemas.take(n));
        lemma_features_error(schemas.drop_last(), value, path, n);
    }
}

fn schema_property(schema: &Schema) -> (r: &str)
    ensures
        r@ == property_of(*schema),
{
    proof {
        reveal_strlit("");
        assert(""@ =~= Seq::empty());
    }
    match schema {
        Schema::Binary(inner) => inner.property.as_str(),
        Schema::Numeric(inner) => inner.property.as_str(),
        Schema::Enum(inner) => inner.property.as_str(),
        Schema::Text(inner) => inner.property.as_str(),
        Schema::List(inner) => inner.property.as_str(),
        Schema::Composite(inner) => inner.property.as_str(),
        Schema::Specific(_) => "",
        Schema::Bag(inner) => inner.property.as_str(),
    }
}

fn process_property(schema: &Schema, value: ValueWithSource<JsonValue>) -> (r: Result<
    JsonValue,
    ErrorWithMeta,
>)
    ensures
        agrees(r, property_result(*schema, value.inner()@, value.path())),
    decreases schema, 0nat,
{
    match schema {
        Schema::Binary(inner) => process_binary(&inner.type_, value),
        Schema::Numeric(inner) => process_numeric(&inner.type_, value),
        Schema::Enum(inner) => process_enum(&inner.type_, value),
        Schema::Text(_) => process_text(value),
        Schema::List(inner) => process_list(&inner.type_, value),
        Schema::Composite(inner) => process_composite(&inner.type_, value),
        Schema::Specific(inner) => process_features(&inner.features, value),
        Schema::Bag(_) => process_bag(value),
    }
}

/// How the property of an object is processed.
enum PropertyStep {
    /// There is nothing to process.
    Settled(Result<JsonValue, ErrorWithMeta>),
    /// The value of the property is processed.
    Process { object: JsonObject, index: usize, item: ValueWithSource<JsonValue> },
}

fn begin_property(property: &str, value: ValueWithSource<JsonValue>) -> (r: PropertyStep)
    ensures
        match (value.inner()@, r) {
            (json::Json::Object(entries), PropertyStep::Settled(settled)) => {
                &&& agrees(settled, Ok(value.inner()@))
                &&& match json::position(entries, property@) {
                    Some(i) => entries[i].1 is Null,
                    None => true,
                }
            },
            (
                json::Json::Object(entries),
                PropertyStep::Process { object, index, item },
            ) => {
                &&& object@ == entries
                &&& json::position(entries, property@) == Some(index as int)
                &&& index < entries.len()
                &&& item.inner()@ == entries[index as int].1
                &&& !(item.inner()@ is Null)
                &&& item.path() == with_source::extended(value.path(), "."@ + property@)
            },
            (_, PropertyStep::Settled(settled)) => agrees(
                settled,
                Err(Failure { message: "Must be an object."@, path: value.path() }),
            ),
            (_, _) => false,
        },
{
    let (inner, source) = value.split();
    match inner {
        JsonValue::Object(object) => {
            let index = match object.find(property) {
                None => {
                    return PropertyStep::Settled(Ok(JsonValue::Object(object)));
                },
                Some(index) => index,
            };
            proof {
                json::position_finds(object@, property@);
            }
            let item = match object.value(index) {
                // Null value indicates unset/reset, so this is always valid.
                JsonValue::Null => {
                    return PropertyStep::Settled(Ok(JsonValue::Object(object)));
                },
                item => item.clone(),
            };
            let suffix = ".".to_owned().concat(property);
            let item = source.sub(item, suffix.as_str());
            PropertyStep::Process { object, index, item }
        },
        _ => PropertyStep::Settled(Err(invalid("Must be an object.".to_owned(), &source))),
    }
}

fn process_schema(schema: &Schema, value: ValueWithSource<JsonValue>) -> (r: Result<
    JsonValue,
    ErrorWithMeta,
>)
    ensures
        agrees(r, schema_result(*schema, value.inner()@, value.path())),
    decreases schema, 1nat,
{
    if let Schema::Specific(_) = schema {
        return process_property(schema, value);
    }
    match begin_property(schema_property(schema), value) {
        PropertyStep::Settled(settled) => settled,
        PropertyStep::Process { mut object, index, item } => match process_property(schema, item) {
            Ok(result) => {
                object.replace(index, result);
                Ok(JsonValue::Object(object))
            },
            Err(error) => Err(error),
        },
    }
}

/// Whether a path is another one or below it.
pub open spec fn at_or_below(path: Option<Seq<char>>, top: Option<Seq<char>>) -> bool {
    match (path, top) {
        (Some(p), Some(t)) => t.len() <= p.len() && p.take(t.len() as int) == t,
        (None, None) => true,
        _ => false,
    }
}

proof fn lemma_below_extended(path: Option<Seq<char>>, suffix: Seq<char>, lower: Option<Seq<char>>)
    requires
        at_or_below(lower, with_source::extended(path, suffix)),
    ensures
        at_or_below(lower, path),
{
    if let Some(p) = path {
        assert((p + suffix).take(p.len() as int) =~= p);
        assert(lower->0.take((p + suffix).len() as int).take(p.len() as int) =~= lower->0.take(
            p.len() as int,
        ));
    }
}

proof fn lemma_item_path_extends(path: Option<Seq<char>>, index: nat)
    ensures
        with_source::item_path(path, index) == with_source::extended(
            path,
            "["@ + text::decimal(index) + "]"@,
        ),
{
    if let Some(p) = path {
        assert(p + "["@ + text::decimal(index) + "]"@ =~= p + ("["@ + text::decimal(index) + "]"@));
    }
}

proof fn lemma_below_itself(path: Option<Seq<char>>, suffix: Seq<char>)
    ensures
        at_or_below(path, path),
        at_or_below(with_source::extended(path, suffix), path),
        at_or_below(with_source::entry_path(path, suffix), path),
{
    if let Some(p) = path {
        assert(p.take(p.len() as int) =~= p);
        assert((p + suffix).take(p.len() as int) =~= p);
        assert((p + "."@ + suffix).take(p.len() as int) =~= p);
    }
}

/// A rejected value is reported at the path of the value, or below it.
pub proof fn failure_is_located(schema: Schema, value: json::Json, path: Option<Seq<char>>)
    ensures
        schema_result(schema, value, path) matches Err(failure) ==> at_or_below(
            failure.path,
            path,
        ),
    decreases schema, 1nat,
{
    lemma_below_itself(path, Seq::empty());
    if schema is Specific {
        property_failure_is_located(schema, value, path);
    } else if let json::Json::Object(entries) = value {
        if let Some(i) = json::position(entries, property_of(schema)) {
            let suffix = "."@ + property_of(schema);
            let inner = with_source::extended(path, suffix);
            property_failure_is_located(schema, entries[i].1, inner);
            if let Err(failure) = property_result(schema, entries[i].1, inner) {
                lemma_below_extended(path, suffix, failure.path);
            }
        }
    }
}

proof fn property_failure_is_located(schema: Schema, value: json::Json, path: Option<Seq<char>>)
    ensures
        property_result(schema, value, path) matches Err(failure) ==> at_or_below(
            failure.path,
            path,
        ),
    decreases schema, 0nat,
{
    lemma_below_itself(path, Seq::empty());
    match schema {
        Schema::List(inner) => list_failure_is_located(inner.type_, value, path),
        Schema::Composite(inner) => object_failure_is_located(inner.type_.features@, value, path),
        Schema::Specific(inner) => features_failure_is_located(inner.features@, value, path),
        _ => {},
    }
}

proof fn features_failure_is_located(
    schemas: Seq<Schema>,
    value: json::Json,
    path: Option<Seq<char>>,
)
    ensures
        features_result(schemas, value, path) matches Err(failure) ==> at_or_below(
            failure.path,
            path,
        ),
    decreases schemas, 0nat,
{
    if schemas.len() > 0 {
        features_failure_is_located(schemas.drop_last(), value, path);
        if let Ok(next) = features_result(schemas.drop_last(), value, path) {
            failure_is_located(schemas.last(), next, path);
        }
    }
}

/// A value that is rejected for an object is reported at the path of the value, or below it.
pub proof fn object_failure_is_located(
    schemas: Seq<Schema>,
    value: json::Json,
    path: Option<Seq<char>>,
)
    ensures
        object_result(schemas, value, path) matches Err(failure) ==> at_or_below(
            failure.path,
            path,
        ),
    decreases schemas, 1nat,
{
    lemma_below_itself(path, Seq::empty());
    if let json::Json::Object(entries) = value {
        if let Some(i) = first_unknown(schemas, entries) {
            lemma_below_itself(path, entries[i].0);
        }
        features_failure_is_located(schemas, value, path);
    }
}

proof fn list_failure_is_located(schema: List, value: json::Json, path: Option<Seq<char>>)
    ensures
        list_result(schema, value, path) matches Err(failure) ==> at_or_below(failure.path, path),
    decreases schema, 0nat,
{
    lemma_below_itself(path, Seq::empty());
    if let json::Json::Array(items) = value {
        items_failure_is_located(*schema.item_type, items, path);
    }
}

proof fn items_failure_is_located(
    schema: ListItem,
    items: Seq<json::Json>,
    path: Option<Seq<char>>,
)
    ensures
        items_result(schema, items, path) matches Err(failure) ==> at_or_below(
            failure.path,
            path,
        ),
    decreases schema, items.len() + 1,
{
    if items.len() > 0 {
        items_failure_is_located(schema, items.drop_last(), path);
        let index = (items.len() - 1) as nat;
        let inner = with_source::item_path(path, index);
        item_failure_is_located(schema, items.last(), inner);
        if let Err(failure) = item_result(schema, items.last(), inner) {
            lemma_item_path_extends(path, index);
            lemma_below_extended(path, "["@ + text::decimal(index) + "]"@, failure.path);
        }
    }
}

proof fn item_failure_is_located(schema: ListItem, value: json::Json, path: Option<Seq<char>>)
    ensures
        item_result(schema, value, path) matches Err(failure) ==> at_or_below(failure.path, path),
    decreases schema, 0nat,
{
    lemma_below_itself(path, Seq::empty());
    match schema {
        ListItem::List(inner) => list_failure_is_located(inner, value, path),
        ListItem::Composite(inner) => object_failure_is_located(inner.features@, value, path),
        _ => {},
    }
}

/// Whether two lists of entries have the same keys in the same order.
pub open spec fn same_keys(
    a: Seq<(Seq<char>, json::Json)>,
    b: Seq<(Seq<char>, json::Json)>,
) -> bool {
    a.len() == b.len() && forall|i: int| 0 <= i < a.len() ==> (#[trigger] a[i]).0 == b[i].0
}

/// Processing an object keeps its keys: it changes no more than values.
pub proof fn processing_keeps_keys(
    schemas: Seq<Schema>,
    entries: Seq<(Seq<char>, json::Json)>,
    path: Option<Seq<char>>,
)
    ensures
        features_result(schemas, json::Json::Object(entries), path) matches Ok(result) ==> (
        result matches json::Json::Object(after) && same_keys(entries, after)),
    decreases schemas, 0nat,
{
    if schemas.len() > 0 {
        processing_keeps_keys(schemas.drop_last(), entries, path);
        if let Ok(next) = features_result(schemas.drop_last(), json::Json::Object(entries), path) {
            let between = next->Object_0;
            match schemas.last() {
                Schema::Specific(inner) => {
                    processing_keeps_keys(inner.features@, between, path);
                    assert(property_result(schemas.last(), next, path) == features_result(
                        inner.features@,
                        next,
                        path,
                    ));
                    assert(schema_result(schemas.last(), next, path) == property_result(
                        schemas.last(),
                        next,
                        path,
                    ));
                },
                schema => {
                    json::position_finds(between, property_of(schema));
                },
            }
        }
    }
}

/// Whether a value is the same as before, apart from texts that have become numbers.
pub open spec fn kept(before: json::Json, after: json::Json) -> bool
    decreases before,
{
    match (before, after) {
        (json::Json::Text(_), json::Json::Number(_)) => true,
        (json::Json::Array(x), json::Json::Array(y)) => {
            &&& x.len() == y.len()
            &&& forall|i: int| 0 <= i < x.len() ==> kept(#[trigger] x[i], y[i])
        },
        (json::Json::Object(x), json::Json::Object(y)) => {
            &&& x.len() == y.len()
            &&& forall|i: int|
                0 <= i < x.len() ==> (#[trigger] x[i]).0 == y[i].0 && kept(x[i].1, y[i].1)
        },
        _ => before == after,
    }
}

proof fn lemma_kept_itself(value: json::Json)
    ensures
        kept(value, value),
    decreases value,
{
    match value {
        json::Json::Array(x) => {
            assert forall|i: int| 0 <= i < x.len() implies kept(#[trigger] x[i], x[i]) by {
                lemma_kept_itself(x[i]);
            }
        },
        json::Json::Object(x) => {
            assert forall|i: int| 0 <= i < x.len() implies (#[trigger] x[i]).0 == x[i].0 && kept(
                x[i].1,
                x[i].1,
            ) by {
                lemma_kept_itself(x[i].1);
            }
        },
        _ => {},
    }
}

proof fn lemma_kept_twice(a: json::Json, b: json::Json, c: json::Json)
    requires
        kept(a, b),
        kept(b, c),
    ensures
        kept(a, c),
    decreases a,
{
    match (a, b, c) {
        (json::Json::Array(x), json::Json::Array(y), json::Json::Array(z)) => {
            assert forall|i: int| 0 <= i < x.len() implies kept(#[trigger] x[i], z[i]) by {
                assert(kept(x[i], y[i]));
                assert(kept(y[i], z[i]));
                lemma_kept_twice(x[i], y[i], z[i]);
            }
        },
        (json::Json::Object(x), json::Json::Object(y), json::Json::Object(z)) => {
            assert forall|i: int| 0 <= i < x.len() implies (#[trigger] x[i]).0 == z[i].0 && kept(
                x[i].1,
                z[i].1,
            ) by {
                assert(x[i].0 == y[i].0);
                assert(y[i].0 == z[i].0);
                lemma_kept_twice(x[i].1, y[i].1, z[i].1);
            }
        },
        _ => {},
    }
}

/// Processing leaves an accepted value as it is, apart from names of presets, which become numbers.
pub proof fn accepted_value_is_kept(schema: Schema, value: json::Json, path: Option<Seq<char>>)
    ensures
        schema_result(schema, value, path) matches Ok(result) ==> kept(value, result),
    decreases schema, 1nat,
{
    lemma_kept_itself(value);
    if schema is Specific {
        property_value_is_kept(schema, value, path);
    } else if let json::Json::Object(entries) = value {
        if let Some(i) = json::position(entries, property_of(schema)) {
            json::position_finds(entries, property_of(schema));
            let inner = with_source::extended(path, "."@ + property_of(schema));
            property_value_is_kept(schema, entries[i].1, inner);
            if let Ok(result) = property_result(schema, entries[i].1, inner) {
                let after = entries.update(i, (entries[i].0, result));
                assert forall|j: int| 0 <= j < entries.len() implies (#[trigger] entries[j]).0
                    == after[j].0 && kept(entries[j].1, after[j].1) by {
                    lemma_kept_itself(entries[j].1);
                }
            }
        }
    }
}

proof fn property_value_is_kept(schema: Schema, value: json::Json, path: Option<Seq<char>>)
    ensures
        property_result(schema, value, path) matches Ok(result) ==> kept(value, result),
    decreases schema, 0nat,
{
    lemma_kept_itself(value);
    match schema {
        Schema::List(inner) => list_value_is_kept(inner.type_, value, path),
        Schema::Composite(inner) => object_value_is_kept(inner.type_.features@, value, path),
        Schema::Specific(inner) => features_value_is_kept(inner.features@, value, path),
        _ => {},
    }
}

proof fn features_value_is_kept(schemas: Seq<Schema>, value: json::Json, path: Option<Seq<char>>)
    ensures
        features_result(schemas, value, path) matches Ok(result) ==> kept(value, result),
    decreases schemas, 0nat,
{
    lemma_kept_itself(value);
    if schemas.len() > 0 {
        features_value_is_kept(schemas.drop_last(), value, path);
        if let Ok(next) = features_result(schemas.drop_last(), value, path) {
            accepted_value_is_kept(schemas.last(), next, path);
            if let Ok(result) = schema_result(schemas.last(), next, path) {
                lemma_kept_twice(value, next, result);
            }
        }
    }
}

/// Processing leaves an accepted object as it is, apart from names of presets, which become numbers.
pub proof fn object_value_is_kept(schemas: Seq<Schema>, value: json::Json, path: Option<Seq<char>>)
    ensures
        object_result(schemas, value, path) matches Ok(result) ==> kept(value, result),
    decreases schemas, 1nat,
{
    features_value_is_kept(schemas, value, path);
}

proof fn list_value_is_kept(schema: List, value: json::Json, path: Option<Seq<char>>)
    ensures
        list_result(schema, value, path) matches Ok(result) ==> kept(value, result),
    decreases schema, 0nat,
{
    if let json::Json::Array(items) = value {
        items_values_are_kept(*schema.item_type, items, path);
    }
}

proof fn items_values_are_kept(
    schema: ListItem,
    items: Seq<json::Json>,
    path: Option<Seq<char>>,
)
    ensures
        items_result(schema, items, path) matches Ok(done) ==> {
            &&& done.len() == items.len()
            &&& forall|i: int| 0 <= i < items.len() ==> kept(#[trigger] items[i], done[i])
        },
    decreases schema, items.len() + 1,
{
    if items.len() > 0 {
        items_values_are_kept(schema, items.drop_last(), path);
        let inner = with_source::item_path(path, (items.len() - 1) as nat);
        item_value_is_kept(schema, items.last(), inner);
        if let Ok(done) = items_result(schema, items, path) {
            assert forall|i: int| 0 <= i < items.len() implies kept(#[trigger] items[i], done[i]) by {
                if i < items.len() - 1 {
                    assert(items.drop_last()[i] == items[i]);
                }
            }
        }
    }
}

proof fn item_value_is_kept(schema: ListItem, value: json::Json, path: Option<Seq<char>>)
    ensures
        item_result(schema, value, path) matches Ok(result) ==> kept(value, result),
    decreases schema, 0nat,
{
    lemma_kept_itself(value);
    match schema {
        ListItem::List(inner) => list_value_is_kept(inner, value, path),
        ListItem::Composite(inner) => object_value_is_kept(inner.features@, value, path),
        _ => {},
    }
}

/// Whether all values of an object are null.
pub open spec fn all_null(entries: Seq<(Seq<char>, json::Json)>) -> bool {
    forall|i: int| 0 <= i < entries.len() ==> (#[trigger] entries[i]).1 is Null
}

/// A null value indicates that a property should be reset, so this is accepted for every property,
/// known or not, and is left as it is.
pub proof fn null_is_accepted(
    schemas: Seq<Schema>,
    entries: Seq<(Seq<char>, json::Json)>,
    path: Option<Seq<char>>,
)
    requires
        all_null(entries),
    ensures
        object_result(schemas, json::Json::Object(entries), path) == Ok::<json::Json, Failure>(
            json::Json::Object(entries),
        ),
{
    null_is_known(schemas, entries);
    null_is_kept(schemas, entries, path);
}

proof fn null_is_known(schemas: Seq<Schema>, entries: Seq<(Seq<char>, json::Json)>)
    requires
        all_null(entries),
    ensures
        first_unknown(schemas, entries) is None,
    decreases entries.len(),
{
    if entries.len() > 0 {
        assert forall|i: int| 0 <= i < entries.drop_last().len() implies (
        #[trigger] entries.drop_last()[i]).1 is Null by {
            assert(entries[i].1 is Null);
        }
        assert(entries[entries.len() - 1].1 is Null);
        null_is_known(schemas, entries.drop_last());
    }
}

proof fn null_is_kept(
    schemas: Seq<Schema>,
    entries: Seq<(Seq<char>, json::Json)>,
    path: Option<Seq<char>>,
)
    requires
        all_null(entries),
    ensures
        features_result(schemas, json::Json::Object(entries), path) == Ok::<json::Json, Failure>(
            json::Json::Object(entries),
        ),
    decreases schemas, 0nat,
{
    if schemas.len() > 0 {
        null_is_kept(schemas.drop_last(), entries, path);
        match schemas.last() {
            Schema::Specific(inner) => {
                let value = json::Json::Object(entries);
                null_is_kept(inner.features@, entries, path);
                assert(property_result(schemas.last(), value, path) == features_result(
                    inner.features@,
                    value,
                    path,
                ));
                assert(schema_result(schemas.last(), value, path) == property_result(
                    schemas.last(),
                    value,
                    path,
                ));
            },
            schema => {
                let value = json::Json::Object(entries);
                json::position_finds(entries, property_of(schema));
                if let Some(i) = json::position(entries, property_of(schema)) {
                    assert(entries[i].1 is Null);
                }
                assert(schema_result(schema, value, path) == Ok::<json::Json, Failure>(value));
            },
        }
    }
}

/// An object is accepted only if every property that it sets is known.
pub proof fn accepted_properties_are_known(
    schemas: Seq<Schema>,
    entries: Seq<(Seq<char>, json::Json)>,
    path: Option<Seq<char>>,
    i: int,
)
    requires
        object_result(schemas, json::Json::Object(entries), path) is Ok,
        0 <= i < entries.len(),
    ensures
        any_knows(schemas, entries[i].0) || entries[i].1 is Null,
{
    unknown_is_found(schemas, entries, i);
}

proof fn unknown_is_found(schemas: Seq<Schema>, entries: Seq<(Seq<char>, json::Json)>, i: int)
    requires
        first_unknown(schemas, entries) is None,
        0 <= i < entries.len(),
    ensures
        any_knows(schemas, entries[i].0) || entries[i].1 is Null,
    decreases entries.len(),
{
    if i < entries.len() - 1 {
        unknown_is_found(schemas, entries.drop_last(), i);
    }
}

/// What comes of the value of a property for a schema, looked at by itself.
pub open spec fn single_result(
    schema: Schema,
    key: Seq<char>,
    value: json::Json,
    path: Option<Seq<char>>,
) -> Result<json::Json, Failure>
    decreases schema, 1nat,
{
    match schema {
        Schema::Specific(inner) => value_result(inner.features@, key, value, path),
        _ => if property_of(schema) == key && value !is Null {
            property_result(schema, value, with_source::extended(path, "."@ + key))
        } else {
            Ok(value)
        },
    }
}

/// What comes of the value of a property for several schemas, looked at by itself.
pub open spec fn value_result(
    schemas: Seq<Schema>,
    key: Seq<char>,
    value: json::Json,
    path: Option<Seq<char>>,
) -> Result<json::Json, Failure>
    decreases schemas, 0nat,
{
    if schemas.len() == 0 {
        Ok(value)
    } else {
        match value_result(schemas.drop_last(), key, value, path) {
            Ok(next) => single_result(schemas.last(), key, next, path),
            Err(failure) => Err(failure),
        }
    }
}

/// Whether each value of an object comes out as it would by itself.
pub open spec fn separately(
    schemas: Seq<Schema>,
    entries: Seq<(Seq<char>, json::Json)>,
    after: Seq<(Seq<char>, json::Json)>,
    path: Option<Seq<char>>,
) -> bool {
    &&& same_keys(entries, after)
    &&& forall|i: int|
        0 <= i < entries.len() ==> value_result(
            schemas,
            (#[trigger] entries[i]).0,
            entries[i].1,
            path,
        ) == Ok::<json::Json, Failure>(after[i].1)
}

/// Whether each value of an object is accepted by itself.
pub open spec fn each_accepted(
    schemas: Seq<Schema>,
    entries: Seq<(Seq<char>, json::Json)>,
    path: Option<Seq<char>>,
) -> bool {
    forall|i: int|
        0 <= i < entries.len() ==> value_result(
            schemas,
            (#[trigger] entries[i]).0,
            entries[i].1,
            path,
        ) is Ok
}

pub(crate) proof fn lemma_same_keys_increase(
    a: Seq<(Seq<char>, json::Json)>,
    b: Seq<(Seq<char>, json::Json)>,
)
    requires
        json::keys_increase(a),
        same_keys(a, b),
    ensures
        json::keys_increase(b),
{
    assert forall|i: int, j: int| 0 <= i < j < b.len() implies text::precedes(
        (#[trigger] b[i]).0,
        (#[trigger] b[j]).0,
    ) by {
        assert(a[i].0 == b[i].0);
        assert(a[j].0 == b[j].0);
    }
}

proof fn lemma_single(
    schema: Schema,
    entries: Seq<(Seq<char>, json::Json)>,
    path: Option<Seq<char>>,
)
    requires
        json::keys_increase(entries),
    ensures
        schema_result(schema, json::Json::Object(entries), path) matches Ok(result) ==> (
        result matches json::Json::Object(after) && same_keys(entries, after) && forall|i: int|
            0 <= i < entries.len() ==> single_result(
                schema,
                (#[trigger] entries[i]).0,
                entries[i].1,
                path,
            ) == Ok::<json::Json, Failure>(after[i].1)),
        (forall|i: int|
            0 <= i < entries.len() ==> single_result(
                schema,
                (#[trigger] entries[i]).0,
                entries[i].1,
                path,
            ) is Ok) ==> schema_result(schema, json::Json::Object(entries), path) is Ok,
    decreases schema, 1nat,
{
    let value = json::Json::Object(entries);
    match schema {
        Schema::Specific(inner) => {
            assert(schema_result(schema, value, path) == property_result(schema, value, path));
            assert(property_result(schema, value, path) == features_result(
                inner.features@,
                value,
                path,
            ));
            lemma_separately(inner.features@, entries, path);
            if forall|i: int|
                0 <= i < entries.len() ==> single_result(
                    schema,
                    (#[trigger] entries[i]).0,
                    entries[i].1,
                    path,
                ) is Ok {
                assert forall|i: int| 0 <= i < entries.len() implies value_result(
                    inner.features@,
                    (#[trigger] entries[i]).0,
                    entries[i].1,
                    path,
                ) is Ok by {
                    assert(single_result(schema, entries[i].0, entries[i].1, path) is Ok);
                }
                assert(each_accepted(inner.features@, entries, path));
            }
        },
        _ => {
            let key = property_of(schema);
            json::position_finds(entries, key);
            match json::position(entries, key) {
                None => {
                    assert(schema_result(schema, value, path) == Ok::<json::Json, Failure>(value));
                },
                Some(at) => {
                    assert forall|i: int| 0 <= i < entries.len() && i != at implies (
                    #[trigger] entries[i]).0 != key by {
                        if entries[i].0 == key {
                            json::position_unique(entries, key, i);
                        }
                    }
                    assert(entries[at].0 == key);
                },
            }
        },
    }
}

pub(crate) proof fn lemma_separately(
    schemas: Seq<Schema>,
    entries: Seq<(Seq<char>, json::Json)>,
    path: Option<Seq<char>>,
)
    requires
        json::keys_increase(entries),
    ensures
        features_result(schemas, json::Json::Object(entries), path) matches Ok(result) ==> (
        result matches json::Json::Object(after) && separately(schemas, entries, after, path)),
        each_accepted(schemas, entries, path) ==> features_result(
            schemas,
            json::Json::Object(entries),
            path,
        ) is Ok,
    decreases schemas, 0nat,
{
    if schemas.len() > 0 {
        let front = schemas.drop_last();
        let last = schemas.last();
        lemma_separately(front, entries, path);
        if each_accepted(schemas, entries, path) {
            assert forall|i: int| 0 <= i < entries.len() implies value_result(
                front,
                (#[trigger] entries[i]).0,
                entries[i].1,
                path,
            ) is Ok by {
                assert(value_result(schemas, entries[i].0, entries[i].1, path) is Ok);
            }
            assert(each_accepted(front, entries, path));
        }
        if let Ok(next) = features_result(front, json::Json::Object(entries), path) {
            let between = next->Object_0;
            lemma_same_keys_increase(entries, between);
            lemma_single(last, between, path);
            if each_accepted(schemas, entries, path) {
                assert forall|i: int| 0 <= i < between.len() implies single_result(
                    last,
                    (#[trigger] between[i]).0,
                    between[i].1,
                    path,
                ) is Ok by {
                    assert(value_result(schemas, entries[i].0, entries[i].1, path) is Ok);
                    assert(value_result(front, entries[i].0, entries[i].1, path) == Ok::<
                        json::Json,
                        Failure,
                    >(between[i].1));
                }
            }
            if let Ok(result) = schema_result(last, next, path) {
                let after = result->Object_0;
                assert forall|i: int| 0 <= i < entries.len() implies value_result(
                    schemas,
                    (#[trigger] entries[i]).0,
                    entries[i].1,
                    path,
                ) == Ok::<json::Json, Failure>(after[i].1) && entries[i].0 == after[i].0 by {
                    assert(between[i].0 == entries[i].0);
                }
            }
        }
    }
}

proof fn lemma_known_part(
    schemas: Seq<Schema>,
    whole: Seq<(Seq<char>, json::Json)>,
    part: Seq<(Seq<char>, json::Json)>,
)
    requires
        first_unknown(schemas, whole) is None,
        forall|i: int| 0 <= i < part.len() ==> json::lookup(whole, (#[trigger] part[i]).0) == Some(
            part[i].1,
        ),
    ensures
        first_unknown(schemas, part) is None,
    decreases part.len(),
{
    if part.len() > 0 {
        let front = part.drop_last();
        assert forall|i: int| 0 <= i < front.len() implies json::lookup(
            whole,
            (#[trigger] front[i]).0,
        ) == Some(front[i].1) by {
            assert(part[i] == front[i]);
        }
        lemma_known_part(schemas, whole, front);
        let (key, value) = part[part.len() - 1];
        json::position_finds(whole, key);
        unknown_is_found(schemas, whole, json::position(whole, key)->0);
    }
}

/// Properties are processed separately: a part of an accepted object is accepted too, and what comes
/// of its properties is what comes of them in the whole object.
pub proof fn properties_are_separate(
    schemas: Seq<Schema>,
    whole: Seq<(Seq<char>, json::Json)>,
    part: Seq<(Seq<char>, json::Json)>,
    path: Option<Seq<char>>,
)
    requires
        json::keys_increase(whole),
        json::keys_increase(part),
        object_result(schemas, json::Json::Object(whole), path) is Ok,
        forall|i: int| 0 <= i < part.len() ==> json::lookup(whole, (#[trigger] part[i]).0) == Some(
            part[i].1,
        ),
    ensures
        object_result(schemas, json::Json::Object(whole), path) matches Ok(json::Json::Object(all))
            && (object_result(schemas, json::Json::Object(part), path) matches Ok(
            json::Json::Object(after),
        ) && same_keys(part, after) && forall|i: int|
            0 <= i < part.len() ==> json::lookup(all, (#[trigger] after[i]).0) == Some(after[i].1)),
{
    lemma_known_part(schemas, whole, part);
    lemma_separately(schemas, whole, path);
    lemma_separately(schemas, part, path);
    let all = features_result(schemas, json::Json::Object(whole), path)->Ok_0->Object_0;
    assert forall|i: int| 0 <= i < part.len() implies value_result(
        schemas,
        (#[trigger] part[i]).0,
        part[i].1,
        path,
    ) is Ok by {
        json::position_finds(whole, part[i].0);
        let k = json::position(whole, part[i].0)->0;
        assert(whole[k].0 == part[i].0 && whole[k].1 == part[i].1);
    }
    assert(each_accepted(schemas, part, path));
    let after = features_result(schemas, json::Json::Object(part), path)->Ok_0->Object_0;
    lemma_same_keys_increase(whole, all);
    assert forall|i: int| 0 <= i < part.len() implies json::lookup(all, (#[trigger] after[i]).0)
        == Some(after[i].1) by {
        assert(part[i].0 == after[i].0);
        json::position_finds(whole, part[i].0);
        let k = json::position(whole, part[i].0)->0;
        assert(whole[k].0 == part[i].0 && whole[k].1 == part[i].1);
        assert(all[k].0 == whole[k].0);
        json::position_unique(all, after[i].0, k);
    }
}

/// A number is accepted only if it is in range and on the grid of steps, and it is left as it is.
pub proof fn accepted_number_is_in_range(
    schema: Numeric,
    number: json::NumberModel,
    path: Option<Seq<char>>,
)
    ensures
        ({
            let n = json::number_scaled(number);
            let value = json::Json::Number(number);
            &&& numeric_result(schema, value, path) is Ok <==> {
                &&& schema.value_min matches Some(min) ==> min.value.scaled() <= n
                &&& schema.value_max matches Some(max) ==> n <= max.value.scaled()
                &&& schema.value_step matches Some(step) ==> double::on_grid(
                    n,
                    match schema.value_min {
                        Some(min) => min.value.scaled(),
                        None => 0,
                    },
                    step.value.scaled(),
                )
            }
            &&& numeric_result(schema, value, path) matches Ok(result) ==> result == value
        }),
{
}

/// Trait to check whether a property is defined.
pub trait PropertyHolder {
    /// Whether a property with the given name is known to this part of the schema.
    spec fn has_property(&self, name: Seq<char>) -> bool;

    /// Check whether a property with the given name is known to this part of the schema.
    fn knows_property(&self, name: &str) -> (r: bool)
        ensures
            r == self.has_property(name@),
    ;
}

impl PropertyHolder for Schema {
    open spec fn has_property(&self, name: Seq<char>) -> bool {
        knows(*self, name)
    }

    fn knows_property(&self, name: &str) -> (r: bool) {
        schema_knows(self, name)
    }
}

impl PropertyHolder for Specific {
    open spec fn has_property(&self, name: Seq<char>) -> bool {
        any_knows(self.features@, name)
    }

    fn knows_property(&self, name: &str) -> (r: bool) {
        features_know(&self.features, name)
    }
}

impl<T> PropertyHolder for WithProperty<T> {
    open spec fn has_property(&self, name: Seq<char>) -> bool {
        self.property@ == name
    }

    fn knows_property(&self, name: &str) -> (r: bool) {
        text::same_text(self.property.as_str(), name)
    }
}

impl PropertyHolder for Vec<Schema> {
    open spec fn has_property(&self, name: Seq<char>) -> bool {
        any_knows(self@, name)
    }

    fn knows_property(&self, name: &str) -> (r: bool) {
        features_know(self, name)
    }
}

/// Trait to process a value
pub trait Processor {
    /// What comes of a value: what is to be used in its place, or why it is rejected.
    spec fn outcome(&self, value: json::Json, path: Option<Seq<char>>) -> Result<
        json::Json,
        Failure,
    >;

    /// Process the value, validating it matches the schema, and transforming it as needed.
    ///
    /// The caller _must_ use the returned value (which may be different from the input).
    fn process(&self, value: ValueWithSource<JsonValue>) -> (r: Result<JsonValue, ErrorWithMeta>)
        ensures
            agrees(r, self.outcome(value.inner()@, value.path())),
    ;
}

impl Processor for Binary {
    open spec fn outcome(&self, value: json::Json, path: Option<Seq<char>>) -> Result<
        json::Json,
        Failure,
    > {
        binary_result(*self, value, path)
    }

    fn process(&self, value: ValueWithSource<JsonValue>) -> (r: Result<JsonValue, ErrorWithMeta>) {
        process_binary(self, value)
    }
}

impl Processor for Numeric {
    open spec fn outcome(&self, value: json::Json, path: Option<Seq<char>>) -> Result<
        json::Json,
        Failure,
    > {
        numeric_result(*self, value, path)
    }

    fn process(&self, value: ValueWithSource<JsonValue>) -> (r: Result<JsonValue, ErrorWithMeta>) {
        process_numeric(self, value)
    }
}

impl Processor for Enum {
    open spec fn outcome(&self, value: json::Json, path: Option<Seq<char>>) -> Result<
        json::Json,
        Failure,
    > {
        enum_result(*self, value, path)
    }

    fn process(&self, value: ValueWithSource<JsonValue>) -> (r: Result<JsonValue, ErrorWithMeta>) {
        process_enum(self, value)
    }
}

impl Processor for Text {
    open spec fn outcome(&self, value: json::Json, path: Option<Seq<char>>) -> Result<
        json::Json,
        Failure,
    > {
        text_result(value, path)
    }

    fn process(&self, value: ValueWithSource<JsonValue>) -> (r: Result<JsonValue, ErrorWithMeta>) {
        process_text(value)
    }
}

impl Processor for List {
    open spec fn outcome(&self, value: json::Json, path: Option<Seq<char>>) -> Result<
        json::Json,
        Failure,
    > {
        list_result(*self, value, path)
    }

    fn process(&self, value: ValueWithSource<JsonValue>) -> (r: Result<JsonValue, ErrorWithMeta>) {
        process_list(self, value)
    }
}

impl Processor for Composite {
    open spec fn outcome(&self, value: json::Json, path: Option<Seq<char>>) -> Result<
        json::Json,
        Failure,
    > {
        composite_result(*self, value, path)
    }

    fn process(&self, value: ValueWithSource<JsonValue>) -> (r: Result<JsonValue, ErrorWithMeta>) {
        process_composite(self, value)
    }
}

impl Processor for Specific {
    open spec fn outcome(&self, value: json::Json, path: Option<Seq<char>>) -> Result<
        json::Json,
        Failure,
    > {
        features_result(self.features@, value, path)
    }

    fn process(&self, value: ValueWithSource<JsonValue>) -> (r: Result<JsonValue, ErrorWithMeta>) {
        process_features(&self.features, value)
    }
}

impl Processor for Bag {
    open spec fn outcome(&self, value: json::Json, path: Option<Seq<char>>) -> Result<
        json::Json,
        Failure,
    > {
        bag_result(value, path)
    }

    fn process(&self, value: ValueWithSource<JsonValue>) -> (r: Result<JsonValue, ErrorWithMeta>) {
        process_bag(value)
    }
}

impl<T: Processor> Processor for WithProperty<T> {
    open spec fn outcome(&self, value: json::Json, path: Option<Seq<char>>) -> Result<
        json::Json,
        Failure,
    > {
        match value {
            json::Json::Object(entries) => match json::position(entries, self.property@) {
                None => Ok(value),
                Some(i) => if entries[i].1 is Null {
                    Ok(value)
                } else {
                    match self.type_.outcome(
                        entries[i].1,
                        with_source::extended(path, "."@ + self.property@),
                    ) {
                        Ok(result) => Ok(
                            json::Json::Object(entries.update(i, (entries[i].0, result))),
                        ),
                        Err(failure) => Err(failure),
                    }
                },
            },
            _ => Err(Failure { message: "Must be an object."@, path }),
        }
    }

    fn process(&self, value: ValueWithSource<JsonValue>) -> (r: Result<JsonValue, ErrorWithMeta>) {
        match begin_property(self.property.as_str(), value) {
            PropertyStep::Settled(settled) => settled,
            PropertyStep::Process { mut object, index, item } => match self.type_.process(item) {
                Ok(result) => {
                    object.replace(index, result);
                    Ok(JsonValue::Object(object))
                },
                Err(error) => Err(error),
            },
        }
    }
}

/// A schema does what the wrapped schema that it holds does.
pub proof fn schemas_act_as_held(schema: Schema, value: json::Json, path: Option<Seq<char>>)
    ensures
        schema.outcome(value, path) == match schema {
            Schema::Binary(held) => held.outcome(value, path),
            Schema::Numeric(held) => held.outcome(value, path),
            Schema::Enum(held) => held.outcome(value, path),
            Schema::Text(held) => held.outcome(value, path),
            Schema::List(held) => held.outcome(value, path),
            Schema::Composite(held) => held.outcome(value, path),
            Schema::Specific(held) => held.outcome(value, path),
            Schema::Bag(held) => held.outcome(value, path),
        },
{
}

impl Processor for Schema {
    open spec fn outcome(&self, value: json::Json, path: Option<Seq<char>>) -> Result<
        json::Json,
        Failure,
    > {
        schema_result(*self, value, path)
    }

    fn process(&self, value: ValueWithSource<JsonValue>) -> (r: Result<JsonValue, ErrorWithMeta>) {
        process_schema(self, value)
    }
}

impl Processor for ListItem {
    open spec fn outcome(&self, value: json::Json, path: Option<Seq<char>>) -> Result<
        json::Json,
        Failure,
    > {
        item_result(*self, value, path)
    }

    fn process(&self, value: ValueWithSource<JsonValue>) -> (r: Result<JsonValue, ErrorWithMeta>) {
        process_item(self, value)
    }
}

impl Processor for Vec<Schema> {
    open spec fn outcome(&self, value: json::Json, path: Option<Seq<char>>) -> Result<
        json::Json,
        Failure,
    > {
        features_result(self@, value, path)
    }

    fn process(&self, value: ValueWithSource<JsonValue>) -> (r: Result<JsonValue, ErrorWithMeta>) {
        process_features(self, value)
    }
}

impl Default for Access {
    fn default() -> (r: Self)
        ensures
            r.mask() == 0,
    {
        Access { bits: 0 }
    }
}

/// Whether the describing fields of a schema are all left empty.
pub open spec fn undescribed(
    name: String,
    label: Option<String>,
    description: Option<String>,
    access: Access,
    endpoint: Option<String>,
) -> bool {
    &&& name@ == Seq::<char>::empty()
    &&& label is None
    &&& description is None
    &&& access.mask() == 0
    &&& endpoint is None
}

impl Default for Binary {
    fn default() -> (r: Self)
        ensures
            undescribed(r.name, r.label, r.description, r.access, r.endpoint),
            r.value_on@ == json::Json::Null,
            r.value_off@ == json::Json::Null,
            r.value_toggle is None,
    {
        Binary {
            name: String::new(),
            label: None,
            description: None,
            access: Access::default(),
            endpoint: None,
            value_on: JsonValue::Null,
            value_off: JsonValue::Null,
            value_toggle: None,
        }
    }
}

impl Default for Numeric {
    fn default() -> (r: Self)
        ensures
            undescribed(r.name, r.label, r.description, r.access, r.endpoint),
            r.value_min is None,
            r.value_max is None,
            r.value_step is None,
            r.unit is None,
            r.presets@ == Seq::<Preset>::empty(),
    {
        Numeric {
            name: String::new(),
            label: None,
            description: None,
            access: Access::default(),
            endpoint: None,
            value_min: None,
            value_max: None,
            value_step: None,
            unit: None,
            presets: Vec::new(),
        }
    }
}

impl Default for Enum {
    fn default() -> (r: Self)
        ensures
            undescribed(r.name, r.label, r.description, r.access, r.endpoint),
            r.values@ == Seq::<JsonValue>::empty(),
    {
        Enum {
            name: String::new(),
            label: None,
            description: None,
            access: Access::default(),
            endpoint: None,
            values: Vec::new(),
        }
    }
}

impl Default for Text {
    fn default() -> (r: Self)
        ensures
            undescribed(r.name, r.label, r.description, r.access, r.endpoint),
    {
        Text {
            name: String::new(),
            label: None,
            description: None,
            access: Access::default(),
            endpoint: None,
        }
    }
}

impl Default for List {
    fn default() -> (r: Self)
        ensures
            undescribed(r.name, r.label, r.description, r.access, r.endpoint),
            r.length_min is None,
            r.length_max is None,
            *r.item_type is Text,
    {
        List {
            name: String::new(),
            label: None,
            description: None,
            access: Access::default(),
            endpoint: None,
            length_min: None,
            length_max: None,
            item_type: Box::new(ListItem::default()),
        }
    }
}

impl Default for Bag {
    fn default() -> (r: Self)
        ensures
            undescribed(r.name, r.label, r.description, r.access, r.endpoint),
    {
        Bag {
            name: String::new(),
            label: None,
            description: None,
            access: Access::default(),
            endpoint: None,
        }
    }
}

impl Default for ListItem {
    fn default() -> (r: Self)
        ensures
            r is Text,
    {
        ListItem::Text(Text::default())
    }
}

impl Default for Composite {
    fn default() -> (r: Self)
        ensures
            r.name@ == Seq::<char>::empty(),
            r.label is None,
            r.description is None,
            r.access is None,
            r.endpoint is None,
            r.features@ == Seq::<Schema>::empty(),
    {
        Composite {
            name: String::new(),
            label: None,
            description: None,
            access: None,
            endpoint: None,
            features: Vec::new(),
        }
    }
}

impl Default for Specific {
    fn default() -> (r: Self)
        ensures
            r.endpoint is None,
            r.features@ == Seq::<Schema>::empty(),
    {
        Specific { endpoint: None, features: Vec::new() }
    }
}

/// Whether a schema is for a boolean property.
pub open spec fn is_boolean(schema: Schema, property: Seq<char>) -> bool {
    schema matches Schema::Binary(inner) && inner.property@ == property
        && inner.type_.value_on@ == json::Json::Bool(true) && inner.type_.value_off@
        == json::Json::Bool(false) && inner.type_.value_toggle is None
}

fn boolean(property: &str) -> (r: Schema)
    ensures
        is_boolean(r, property@),
{
    Schema::Binary(
        WithProperty {
            property: property.to_owned(),
            type_: Binary {
                value_on: JsonValue::Bool(true),
                value_off: JsonValue::Bool(false),
                ..Binary::default()
            },
        },
    )
}

/// Whether a schema is for a property that is a list of strings.
pub open spec fn is_string_list(schema: Schema, property: Seq<char>) -> bool {
    schema matches Schema::List(inner) && inner.property@ == property
        && inner.type_.length_min is None && inner.type_.length_max is None
        && *inner.type_.item_type is Text
}

fn string_list(property: &str) -> (r: Schema)
    ensures
        is_string_list(r, property@),
{
    Schema::List(WithProperty { property: property.to_owned(), type_: List::default() })
}

/// Whether a limit is the given whole number.
pub open spec fn is_limit(limit: Option<Real>, n: Option<nat>) -> bool {
    match (limit, n) {
        (Some(x), Some(n)) => {
            &&& x.value.scaled() == n * pow2(1074)
            &&& x.display@ == text::decimal(n)
        },
        (None, None) => true,
        _ => false,
    }
}

/// Whether a schema is for a number with the given limits.
pub open spec fn is_numeric(
    schema: Schema,
    property: Seq<char>,
    min: Option<nat>,
    max: Option<nat>,
) -> bool {
    schema matches Schema::Numeric(inner) && inner.property@ == property && is_limit(
        inner.type_.value_min,
        min,
    ) && is_limit(inner.type_.value_max, max) && inner.type_.presets@.len() == 0
}

/// Whether the numbers that a schema accepts are all the whole ones from the start on.
pub open spec fn has_unit_step(schema: Schema, start: nat) -> bool {
    schema matches Schema::Numeric(inner) && inner.type_.value_step matches Some(step)
        && step.value.scaled() == pow2(1074) && step.display@ == text::decimal(1)
        && step.one_step@ == text::decimal(start + 1) && step.two_steps@ == text::decimal(start + 2)
        && step.off_step@ == text::decimal(start + 1) + ".5"@
}

fn whole(n: u32) -> (r: Real)
    ensures
        r.value.scaled() == n * pow2(1074),
        r.display@ == text::decimal(n as nat),
{
    proof {
        double::lemma_rounded_exact(n as nat, 1074);
        let p = pow2(1074);
        assert(n * p >= 0) by (nonlinear_arith)
            requires
                n >= 0,
                p >= 0,
        ;
    }
    let display = text::decimal_text(n as u64);
    let json = display.clone().concat(".0");
    Real { value: Double::from_u64(n as u64), display, json }
}

fn unit_step(start: u32) -> (r: Step)
    requires
        start < 1000,
    ensures
        r.value.scaled() == pow2(1074),
        r.display@ == text::decimal(1),
        r.one_step@ == text::decimal((start + 1) as nat),
        r.two_steps@ == text::decimal((start + 2) as nat),
        r.off_step@ == text::decimal((start + 1) as nat) + ".5"@,
{
    let one = whole(1);
    proof {
        assert(1 * pow2(1074) == pow2(1074));
    }
    Step {
        value: one.value,
        display: one.display,
        one_step: text::decimal_text((start + 1) as u64),
        two_steps: text::decimal_text((start + 2) as u64),
        off_step: text::decimal_text((start + 1) as u64).concat(".5"),
    }
}

fn numeric(property: &str, min: Option<u32>, max: Option<u32>, step: Option<Step>) -> (r: Schema)
    ensures
        is_numeric(
            r,
            property@,
            match min {
                Some(n) => Some(n as nat),
                None => None,
            },
            match max {
                Some(n) => Some(n as nat),
                None => None,
            },
        ),
        r matches Schema::Numeric(inner) && inner.type_.value_step == step,
{
    Schema::Numeric(
        WithProperty {
            property: property.to_owned(),
            type_: Numeric {
                value_min: match min {
                    Some(n) => Some(whole(n)),
                    None => None,
                },
                value_max: match max {
                    Some(n) => Some(whole(n)),
                    None => None,
                },
                value_step: step,
                ..Numeric::default()
            },
        },
    )
}

/// Whether a schema is for a numeric property without steps.
pub open spec fn has_no_step(schema: Schema) -> bool {
    schema matches Schema::Numeric(inner) && inner.type_.value_step is None
}

/// The [common device options](https://www.zigbee2mqtt.io/guide/configuration/devices-groups.html#common-device-options).
pub open spec fn are_common_device_options(schemas: Seq<Schema>) -> bool {
    &&& schemas.len() == 12
    &&& schemas[0] matches Schema::Text(inner) && inner.property@ == "description"@
    &&& is_boolean(schemas[1], "retain"@)
    &&& is_boolean(schemas[2], "disabled"@)
    &&& is_numeric(schemas[3], "retention"@, Some(1), None) && has_unit_step(schemas[3], 1)
    &&& is_numeric(schemas[4], "qos"@, Some(0), Some(2)) && has_unit_step(schemas[4], 0)
    &&& schemas[5] matches Schema::Bag(inner) && inner.property@ == "homeassistant"@
    &&& is_numeric(schemas[6], "debounce"@, Some(1), None) && has_no_step(schemas[6])
    &&& is_string_list(schemas[7], "debounce_ignore"@)
    &&& is_string_list(schemas[8], "filtered_attributes"@)
    &&& is_string_list(schemas[9], "filtered_cache"@)
    &&& is_boolean(schemas[10], "optimistic"@)
    &&& is_string_list(schemas[11], "filtered_optimistic"@)
}

/// See [`are_common_device_options`].
pub fn common_device_options() -> (r: Vec<Schema>)
    ensures
        are_common_device_options(r@),
{
    let mut options: Vec<Schema> = Vec::new();
    options.push(
        Schema::Text(WithProperty { property: "description".to_owned(), type_: Text::default() }),
    );
    options.push(boolean("retain"));
    options.push(boolean("disabled"));
    options.push(numeric("retention", Some(1), None, Some(unit_step(1))));
    options.push(numeric("qos", Some(0), Some(2), Some(unit_step(0))));
    options.push(
        Schema::Bag(WithProperty { property: "homeassistant".to_owned(), type_: Bag::default() }),
    );
    options.push(numeric("debounce", Some(1), None, None));
    options.push(string_list("debounce_ignore"));
    options.push(string_list("filtered_attributes"));
    options.push(string_list("filtered_cache"));
    options.push(boolean("optimistic"));
    options.push(string_list("filtered_optimistic"));
    options
}

/// The [group options](https://www.zigbee2mqtt.io/guide/usage/groups.html#configuration).
pub open spec fn are_group_options(schemas: Seq<Schema>) -> bool {
    &&& schemas.len() == 4
    &&& is_boolean(schemas[0], "retain"@)
    &&& is_numeric(schemas[1], "transition"@, Some(0), None) && has_no_step(schemas[1])
    &&& is_boolean(schemas[2], "optimistic"@)
    &&& schemas[3] matches Schema::Enum(inner) && inner.property@ == "off_state"@ && models(
        inner.type_.values@,
    ) == seq![json::Json::Text("all_members_off"@), json::Json::Text("last_member_state"@)]
}

/// See [`are_group_options`].
pub fn group_options() -> (r: Vec<Schema>)
    ensures
        are_group_options(r@),
{
    let mut values: Vec<JsonValue> = Vec::new();
    values.push(JsonValue::Text("all_members_off".to_owned()));
    values.push(JsonValue::Text("last_member_state".to_owned()));
    proof {
        assert(models(values@) =~= seq![
            json::Json::Text("all_members_off"@),
            json::Json::Text("last_member_state"@),
        ]);
    }
    let mut options: Vec<Schema> = Vec::new();
    options.push(boolean("retain"));
    options.push(numeric("transition", Some(0), None, None));
    options.push(boolean("optimistic"));
    options.push(
        Schema::Enum(
            WithProperty {
                property: "off_state".to_owned(),
                type_: Enum { values, ..Enum::default() },
            },
        ),
    );
    options
}

/// A schema for a whole configuration, which is an object.
pub trait ToplevelSchema: Processor {
    /// The schemas of the properties of the configuration.
    spec fn properties(&self) -> Seq<Schema>;

    /// Processing a configuration is processing an object with the given properties.
    proof fn processes_object(&self, value: json::Json, path: Option<Seq<char>>)
        ensures
            self.outcome(value, path) == object_result(self.properties(), value, path),
    ;
}

/// Schema for device options.
#[derive(Debug)]
pub struct DeviceOptionsSchema(Composite);

impl DeviceOptionsSchema {
    /// The schemas of all properties.
    pub closed spec fn features(self) -> Seq<Schema> {
        self.0.features@
    }

    /// The options of a device, together with those that every device has.
    pub fn from(features: Vec<Schema>) -> (r: Self)
        ensures
            r.features().take(features@.len() as int) == features@,
            are_common_device_options(r.features().skip(features@.len() as int)),
    {
        let ghost given = features@;
        let mut features = features;
        let mut extra: Vec<Schema> = common_device_options();
        let ghost added = extra@;
        features.append(&mut extra);
        let r = DeviceOptionsSchema(Composite { features, ..Composite::default() });
        proof {
            assert(r.features().take(given.len() as int) =~= given);
            assert(r.features().skip(given.len() as int) =~= added);
        }
        r
    }
}

impl Default for DeviceOptionsSchema {
    fn default() -> (r: Self)
        ensures
            are_common_device_options(r.features()),
    {
        let r = DeviceOptionsSchema::from(Vec::new());
        proof {
            assert(r.features().skip(0) =~= r.features());
        }
        r
    }
}

impl ToplevelSchema for DeviceOptionsSchema {
    open spec fn properties(&self) -> Seq<Schema> {
        self.features()
    }

    proof fn processes_object(&self, value: json::Json, path: Option<Seq<char>>) {
    }
}

impl Processor for DeviceOptionsSchema {
    open spec fn outcome(&self, value: json::Json, path: Option<Seq<char>>) -> Result<
        json::Json,
        Failure,
    > {
        object_result(self.features(), value, path)
    }

    fn process(&self, value: ValueWithSource<JsonValue>) -> (r: Result<JsonValue, ErrorWithMeta>) {
        process_composite(&self.0, value)
    }
}

/// Schema for device capabilities.
#[derive(Debug)]
pub struct DeviceCapabilitiesSchema(Composite);

impl DeviceCapabilitiesSchema {
    /// The schemas of all properties.
    pub closed spec fn features(self) -> Seq<Schema> {
        self.0.features@
    }

    /// The capabilities of a device.
    pub fn from(features: Vec<Schema>) -> (r: Self)
        ensures
            r.features() == features@,
    {
        DeviceCapabilitiesSchema(Composite { features, ..Composite::default() })
    }
}

impl Default for DeviceCapabilitiesSchema {
    fn default() -> (r: Self)
        ensures
            r.features() == Seq::<Schema>::empty(),
    {
        DeviceCapabilitiesSchema::from(Vec::new())
    }
}

impl ToplevelSchema for DeviceCapabilitiesSchema {
    open spec fn properties(&self) -> Seq<Schema> {
        self.features()
    }

    proof fn processes_object(&self, value: json::Json, path: Option<Seq<char>>) {
    }
}

impl Processor for DeviceCapabilitiesSchema {
    open spec fn outcome(&self, value: json::Json, path: Option<Seq<char>>) -> Result<
        json::Json,
        Failure,
    > {
        object_result(self.features(), value, path)
    }

    fn process(&self, value: ValueWithSource<JsonValue>) -> (r: Result<JsonValue, ErrorWithMeta>) {
        process_composite(&self.0, value)
    }
}

/// Schema for group options.
#[derive(Debug)]
pub struct GroupOptionsSchema(Composite);

impl GroupOptionsSchema {
    /// The schemas of all properties.
    pub closed spec fn features(self) -> Seq<Schema> {
        self.0.features@
    }

    /// The given options, together with those that every group has.
    pub fn from(features: Vec<Schema>) -> (r: Self)
        ensures
            r.features().take(features@.len() as int) == features@,
            are_group_options(r.features().skip(features@.len() as int)),
    {
        let ghost given = features@;
        let mut features = features;
        let mut extra: Vec<Schema> = group_options();
        let ghost added = extra@;
        features.append(&mut extra);
        let r = GroupOptionsSchema(Composite { features, ..Composite::default() });
        proof {
            assert(r.features().take(given.len() as int) =~= given);
            assert(r.features().skip(given.len() as int) =~= added);
        }
        r
    }
}

impl Default for GroupOptionsSchema {
    fn default() -> (r: Self)
        ensures
            are_group_options(r.features()),
    {
        let r = GroupOptionsSchema::from(Vec::new());
        proof {
            assert(r.features().skip(0) =~= r.features());
        }
        r
    }
}

impl ToplevelSchema for GroupOptionsSchema {
    open spec fn properties(&self) -> Seq<Schema> {
        self.features()
    }

    proof fn processes_object(&self, value: json::Json, path: Option<Seq<char>>) {
    }
}

impl Processor for GroupOptionsSchema {
    open spec fn outcome(&self, value: json::Json, path: Option<Seq<char>>) -> Result<
        json::Json,
        Failure,
    > {
        object_result(self.features(), value, path)
    }

    fn process(&self, value: ValueWithSource<JsonValue>) -> (r: Result<JsonValue, ErrorWithMeta>) {
        process_composite(&self.0, value)
    }
}

} // verus!
