//! What holds of the processing of values, whatever the schema.

use vstd::prelude::*;

use super::exposes;
use super::exposes::{
    Bag, Binary, Composite, Enum, Failure, List, ListItem, Numeric, Processor, PropertyHolder,
    Schema, Specific, Text, WithProperty,
};
use crate::double;
use crate::json;
use crate::text;
use crate::with_source;

verus! {

/// A schema that is attached to a property knows this property and no other.
pub proof fn attached_schema_knows_its_property(schema: Schema, name: Seq<char>)
    ensures
        match schema {
            Schema::Binary(held) => schema.has_property(name) <==> held.property@ == name,
            Schema::Numeric(held) => schema.has_property(name) <==> held.property@ == name,
            Schema::Enum(held) => schema.has_property(name) <==> held.property@ == name,
            Schema::Text(held) => schema.has_property(name) <==> held.property@ == name,
            Schema::List(held) => schema.has_property(name) <==> held.property@ == name,
            Schema::Composite(held) => schema.has_property(name) <==> held.property@ == name,
            Schema::Bag(held) => schema.has_property(name) <==> held.property@ == name,
            Schema::Specific(_) => true,
        },
{
}

/// Several schemas, and in the same way a specific type that has them as its features, know the
/// properties that one of them knows, wherever it stands, and no other.
pub proof fn features_are_all_known(features: Vec<Schema>, specific: Specific, name: Seq<char>)
    requires
        specific.features == features,
    ensures
        features.has_property(name) <==> exists|i: int|
            0 <= i < features@.len() && (#[trigger] features@[i]).has_property(name),
        specific.has_property(name) <==> exists|i: int|
            0 <= i < features@.len() && (#[trigger] features@[i]).has_property(name),
        Schema::Specific(specific).has_property(name) <==> exists|i: int|
            0 <= i < features@.len() && (#[trigger] features@[i]).has_property(name),
{
    let one = Schema::Specific(specific);
    assert(exposes::knows(one, name) == exposes::any_knows(features@, name));
    if exists|i: int| 0 <= i < features@.len() && exposes::knows(#[trigger] features@[i], name) {
        let i = choose|i: int|
            0 <= i < features@.len() && exposes::knows(#[trigger] features@[i], name);
        assert(features@[i].has_property(name));
    }
    if exists|i: int| 0 <= i < features@.len() && (#[trigger] features@[i]).has_property(name) {
        let i = choose|i: int|
            0 <= i < features@.len() && (#[trigger] features@[i]).has_property(name);
        assert(exposes::knows(features@[i], name));
    }
}

/// Whether a schema is among others, or within a specific type that is.
pub open spec fn holds_leaf(schemas: Seq<Schema>, leaf: Schema) -> bool
    decreases schemas,
{
    exists|i: int|
        0 <= i < schemas.len() && match #[trigger] schemas[i] {
            Schema::Specific(inner) => holds_leaf(inner.features@, leaf),
            other => other == leaf,
        }
}

/// The properties that schemas know are those of the schemas that are attached to a property, be it
/// directly or within specific types.
pub proof fn known_properties_are_those_of_leaves(schemas: Seq<Schema>, name: Seq<char>)
    ensures
        exposes::any_knows(schemas, name) <==> exists|leaf: Schema| #[trigger]
            holds_leaf(schemas, leaf) && exposes::knows(leaf, name),
    decreases schemas,
{
    if exposes::any_knows(schemas, name) {
        let i = choose|i: int|
            0 <= i < schemas.len() && exposes::knows(#[trigger] schemas[i], name);
        match schemas[i] {
            Schema::Specific(inner) => {
                known_properties_are_those_of_leaves(inner.features@, name);
                let leaf = choose|leaf: Schema| #[trigger]
                    holds_leaf(inner.features@, leaf) && exposes::knows(leaf, name);
                assert(holds_leaf(schemas, leaf));
            },
            other => {
                assert(holds_leaf(schemas, other));
            },
        }
    }
    if exists|leaf: Schema| #[trigger] holds_leaf(schemas, leaf) && exposes::knows(leaf, name) {
        let leaf = choose|leaf: Schema| #[trigger]
            holds_leaf(schemas, leaf) && exposes::knows(leaf, name);
        let i = choose|i: int|
            0 <= i < schemas.len() && match #[trigger] schemas[i] {
                Schema::Specific(inner) => holds_leaf(inner.features@, leaf),
                other => other == leaf,
            };
        match schemas[i] {
            Schema::Specific(inner) => {
                known_properties_are_those_of_leaves(inner.features@, name);
                assert(exposes::any_knows(inner.features@, name));
            },
            _ => {},
        }
        assert(exposes::knows(schemas[i], name));
    }
}

/// A binary value is accepted if and only if it equals one of the two values of the schema, and is left
/// as it is. The rejection says so if it is the value that toggles.
pub proof fn binary_accepts_two_values(schema: Binary, value: json::Json, path: Option<Seq<char>>)
    ensures
        schema.outcome(value, path) is Ok <==> json::same(value, schema.value_on@) || json::same(
            value,
            schema.value_off@,
        ),
        schema.outcome(value, path) matches Ok(result) ==> result == value,
        schema.outcome(value, path) matches Err(failure) ==> {
            let on = json::compact(schema.value_on@);
            let off = json::compact(schema.value_off@);
            let toggles = schema.value_toggle is Some && json::same(value, schema.value_toggle->0@);
            &&& failure.path == path
            &&& toggles ==> failure.message
                == "This will toggle the state on every reconcile. Use "@ + on + " or "@ + off
                + " instead."@
            &&& !toggles ==> failure.message == "Must be either "@ + on + " or "@ + off + "."@
        },
{
}

proof fn lemma_preset(presets: Seq<exposes::Preset>, name: Seq<char>)
    ensures
        match exposes::preset_index(presets, name) {
            Some(i) => {
                &&& 0 <= i < presets.len()
                &&& presets[i].name@ == name
                &&& forall|j: int| 0 <= j < i ==> (#[trigger] presets[j]).name@ != name
            },
            None => forall|j: int| 0 <= j < presets.len() ==> (#[trigger] presets[j]).name@ != name,
        },
    decreases presets.len(),
{
    if presets.len() > 0 {
        let front = presets.drop_last();
        lemma_preset(front, name);
        assert(forall|j: int| 0 <= j < front.len() ==> #[trigger] front[j] == presets[j]);
        match exposes::preset_index(front, name) {
            Some(i) => {
                assert(presets[i] == front[i]);
                assert forall|j: int| 0 <= j < i implies (#[trigger] presets[j]).name@ != name by {
                    assert(front[j] == presets[j]);
                }
            },
            None => {
                assert forall|j: int| 0 <= j < front.len() implies (
                #[trigger] presets[j]).name@ != name by {
                    assert(front[j] == presets[j]);
                }
            },
        }
    }
}

/// A text is accepted as a number if and only if it is the name of a preset, of which the first one
/// counts, and becomes the number of this preset, whatever the range and the steps.
pub proof fn presets_become_their_number(
    schema: Numeric,
    name: Seq<char>,
    path: Option<Seq<char>>,
)
    ensures
        schema.outcome(json::Json::Text(name), path) is Ok <==> exists|i: int|
            0 <= i < schema.presets@.len() && (#[trigger] schema.presets@[i]).name@ == name,
        forall|i: int|
            0 <= i < schema.presets@.len() && (#[trigger] schema.presets@[i]).name@ == name && (
            forall|j: int| 0 <= j < i ==> (#[trigger] schema.presets@[j]).name@ != name)
                ==> schema.outcome(json::Json::Text(name), path) == Ok::<json::Json, Failure>(
                json::Json::Number(
                    json::NumberModel::Float {
                        scaled: schema.presets@[i].value.value.scaled(),
                        json: schema.presets@[i].value.json@,
                    },
                ),
            ),
{
    lemma_preset(schema.presets@, name);
    let found = exposes::preset_index(schema.presets@, name);
    assert forall|i: int|
        0 <= i < schema.presets@.len() && (#[trigger] schema.presets@[i]).name@ == name && (forall|
            j: int,
        |
            0 <= j < i ==> (#[trigger] schema.presets@[j]).name@ != name) implies found == Some(
        i,
    ) by {
        let k = found->0;
        if k < i {
            assert(schema.presets@[k].name@ == name);
        }
        if i < k {
            assert(schema.presets@[i].name@ != name);
        }
    }
    if let Some(k) = found {
        assert(schema.presets@[k].name@ == name);
    }
}

/// What is neither a number nor a text is never accepted as a number.
pub proof fn other_values_are_no_numbers(
    schema: Numeric,
    value: json::Json,
    path: Option<Seq<char>>,
)
    requires
        !(value is Number),
        !(value is Text),
    ensures
        schema.outcome(value, path) is Err,
        schema.outcome(value, path)->Err_0.path == path,
{
}

/// A number is accepted if and only if it is within the limits that there are and a whole number of
/// steps away from the lower limit, or from zero without one, and is left as it is.
pub proof fn numbers_are_within_limits(
    schema: Numeric,
    number: json::NumberModel,
    path: Option<Seq<char>>,
)
    ensures
        ({
            let n = json::number_scaled(number);
            let start = if schema.value_min is Some {
                schema.value_min->0.value.scaled()
            } else {
                0
            };
            let outcome = schema.outcome(json::Json::Number(number), path);
            &&& outcome is Ok <==> {
                &&& schema.value_min is Some ==> n >= schema.value_min->0.value.scaled()
                &&& schema.value_max is Some ==> n <= schema.value_max->0.value.scaled()
                &&& schema.value_step is Some ==> double::on_grid(
                    n,
                    start,
                    schema.value_step->0.value.scaled(),
                )
            }
            &&& outcome matches Ok(result) ==> result == json::Json::Number(number)
            &&& outcome matches Err(failure) ==> failure.path == path
        }),
{
}

/// A value is accepted as one of several if and only if it equals one of them, wherever this one
/// stands, and is left as it is.
pub proof fn enum_accepts_its_values(schema: Enum, value: json::Json, path: Option<Seq<char>>)
    ensures
        schema.outcome(value, path) is Ok <==> exists|i: int|
            0 <= i < schema.values@.len() && json::same(#[trigger] schema.values@[i]@, value),
        schema.outcome(value, path) matches Ok(result) ==> result == value,
        schema.outcome(value, path) matches Err(failure) ==> failure.path == path,
{
}

/// Texts are accepted as text and objects as bags, whatever they hold, and nothing else is. They are
/// left as they are.
pub proof fn texts_and_bags_are_left(
    plain: Text,
    bag: Bag,
    value: json::Json,
    path: Option<Seq<char>>,
)
    ensures
        plain.outcome(value, path) == if value is Text {
            Ok::<json::Json, Failure>(value)
        } else {
            Err(Failure { message: "Must be a string."@, path })
        },
        bag.outcome(value, path) == if value is Object {
            Ok::<json::Json, Failure>(value)
        } else {
            Err(Failure { message: "Must be an object."@, path })
        },
{
}

/// Items of a list are located by their index in brackets, and entries of a map by their key after a
/// dot.
pub proof fn parts_are_located(p: Seq<char>, i: nat, key: Seq<char>)
    ensures
        with_source::item_path(Some(p), i) == Some(p + "["@ + text::decimal(i) + "]"@),
        with_source::entry_path(Some(p), key) == Some(p + "."@ + key),
        with_source::item_path(None, i) is None,
        with_source::entry_path(None, key) is None,
{
}

proof fn lemma_items(schema: ListItem, items: Seq<json::Json>, path: Option<Seq<char>>)
    ensures
        match exposes::items_result(schema, items, path) {
            Ok(done) => {
                &&& done.len() == items.len()
                &&& forall|i: int|
                    0 <= i < items.len() ==> schema.outcome(
                        #[trigger] items[i],
                        with_source::item_path(path, i as nat),
                    ) == Ok::<json::Json, Failure>(done[i])
            },
            Err(failure) => exists|i: int|
                0 <= i < items.len() && schema.outcome(
                    #[trigger] items[i],
                    with_source::item_path(path, i as nat),
                ) == Err::<json::Json, Failure>(failure) && forall|j: int|
                    0 <= j < i ==> schema.outcome(
                        #[trigger] items[j],
                        with_source::item_path(path, j as nat),
                    ) is Ok,
        },
    decreases items.len(),
{
    if items.len() > 0 {
        let front = items.drop_last();
        lemma_items(schema, front, path);
        assert(forall|i: int| 0 <= i < front.len() ==> #[trigger] front[i] == items[i]);
        match exposes::items_result(schema, front, path) {
            Ok(done) => {
                assert forall|i: int| 0 <= i < front.len() implies schema.outcome(
                    #[trigger] items[i],
                    with_source::item_path(path, i as nat),
                ) == Ok::<json::Json, Failure>(done[i]) by {
                    assert(front[i] == items[i]);
                }
                let last = items.len() - 1;
                assert(items[last] == items.last());
            },
            Err(failure) => {
                let i = choose|i: int|
                    0 <= i < front.len() && schema.outcome(
                        #[trigger] front[i],
                        with_source::item_path(path, i as nat),
                    ) == Err::<json::Json, Failure>(failure) && forall|j: int|
                        0 <= j < i ==> schema.outcome(
                            #[trigger] front[j],
                            with_source::item_path(path, j as nat),
                        ) is Ok;
                assert(items[i] == front[i]);
                assert forall|j: int| 0 <= j < i implies schema.outcome(
                    #[trigger] items[j],
                    with_source::item_path(path, j as nat),
                ) is Ok by {
                    assert(front[j] == items[j]);
                }
            },
        }
    }
}

/// A list is accepted if and only if it has a right number of items each of which is accepted by
/// itself, and what comes of it are the items as they come out by themselves. Otherwise the list is
/// rejected, or the first item that is rejected by itself.
pub proof fn lists_are_processed_item_by_item(
    schema: List,
    value: json::Json,
    path: Option<Seq<char>>,
)
    ensures
        ({
            let outcome = schema.outcome(value, path);
            &&& outcome is Ok <==> {
                &&& value is Array
                &&& schema.length_min is Some ==> value->Array_0.len() >= schema.length_min->0
                &&& schema.length_max is Some ==> value->Array_0.len() <= schema.length_max->0
                &&& forall|i: int|
                    0 <= i < value->Array_0.len() ==> schema.item_type.outcome(
                        #[trigger] value->Array_0[i],
                        with_source::item_path(path, i as nat),
                    ) is Ok
            }
            &&& outcome matches Ok(result) ==> {
                &&& result is Array
                &&& result->Array_0.len() == value->Array_0.len()
                &&& forall|i: int|
                    0 <= i < value->Array_0.len() ==> schema.item_type.outcome(
                        #[trigger] value->Array_0[i],
                        with_source::item_path(path, i as nat),
                    ) == Ok::<json::Json, Failure>(result->Array_0[i])
            }
            &&& outcome matches Err(failure) ==> failure.path == path || exists|i: int|
                0 <= i < value->Array_0.len() && schema.item_type.outcome(
                    #[trigger] value->Array_0[i],
                    with_source::item_path(path, i as nat),
                ) == Err::<json::Json, Failure>(failure) && forall|j: int|
                    0 <= j < i ==> schema.item_type.outcome(
                        #[trigger] value->Array_0[j],
                        with_source::item_path(path, j as nat),
                    ) is Ok
        }),
{
    if let json::Json::Array(items) = value {
        lemma_items(*schema.item_type, items, path);
    }
}

/// An item of a list is processed as the schema for the items says.
pub proof fn items_act_as_held(schema: ListItem, value: json::Json, path: Option<Seq<char>>)
    ensures
        schema.outcome(value, path) == match schema {
            ListItem::Binary(held) => held.outcome(value, path),
            ListItem::Numeric(held) => held.outcome(value, path),
            ListItem::Enum(held) => held.outcome(value, path),
            ListItem::Text(held) => held.outcome(value, path),
            ListItem::List(held) => held.outcome(value, path),
            ListItem::Composite(held) => held.outcome(value, path),
        },
{
}

/// What is attached to a property processes the value of this property by itself, at the path of the
/// property, unless it is missing or null. All other properties are left as they are.
pub proof fn attached_schema_processes_its_property<T: Processor>(
    schema: WithProperty<T>,
    entries: Seq<(Seq<char>, json::Json)>,
    path: Option<Seq<char>>,
    other: Seq<char>,
)
    requires
        json::keys_increase(entries),
        other != schema.property@,
    ensures
        ({
            let outcome = schema.outcome(json::Json::Object(entries), path);
            let before = json::lookup(entries, schema.property@);
            let below = match path {
                Some(p) => Some(p + ("."@ + schema.property@)),
                None => None,
            };
            &&& before is None || before == Some(json::Json::Null) ==> outcome == Ok::<
                json::Json,
                Failure,
            >(json::Json::Object(entries))
            &&& before is Some && before != Some(json::Json::Null) ==> match schema.type_.outcome(
                before->0,
                below,
            ) {
                Ok(result) => {
                    &&& outcome is Ok
                    &&& outcome->Ok_0 is Object
                    &&& json::lookup(outcome->Ok_0->Object_0, schema.property@) == Some(result)
                    &&& json::lookup(outcome->Ok_0->Object_0, other) == json::lookup(entries, other)
                },
                Err(failure) => outcome == Err::<json::Json, Failure>(failure),
            }
        }),
{
    let outcome = schema.outcome(json::Json::Object(entries), path);
    let key = schema.property@;
    json::position_finds(entries, key);
    json::position_finds(entries, other);
    if let Some(at) = json::position(entries, key) {
        if let Ok(json::Json::Object(after)) = outcome {
            assert(after.len() == entries.len());
            assert(forall|i: int| 0 <= i < after.len() ==> (#[trigger] after[i]).0 == entries[i].0);
            exposes::lemma_same_keys_increase(entries, after);
            json::position_unique(after, key, at);
            json::position_finds(after, other);
            if let Some(k) = json::position(entries, other) {
                assert(after[k].0 == other);
                json::position_unique(after, other, k);
            }
            if let Some(k) = json::position(after, other) {
                assert(entries[k].0 == other);
            }
        }
    }
}

/// A schema that is attached to a property accepts nothing but objects.
pub proof fn attached_schema_needs_object<T: Processor>(
    schema: WithProperty<T>,
    value: json::Json,
    path: Option<Seq<char>>,
)
    requires
        !(value is Object),
    ensures
        schema.outcome(value, path) == Err::<json::Json, Failure>(
            Failure { message: "Must be an object."@, path },
        ),
{
}

/// Schemas are applied one after the other, each of them to what the ones before left.
pub proof fn schemas_are_applied_in_turn(
    first: Seq<Schema>,
    second: Seq<Schema>,
    value: json::Json,
    path: Option<Seq<char>>,
)
    ensures
        exposes::features_result(first + second, value, path) == match exposes::features_result(
            first,
            value,
            path,
        ) {
            Ok(next) => exposes::features_result(second, next, path),
            Err(failure) => Err(failure),
        },
    decreases second.len(),
{
    if second.len() == 0 {
        assert(first + second =~= first);
    } else {
        assert((first + second).drop_last() =~= first + second.drop_last());
        assert((first + second).last() == second.last());
        schemas_are_applied_in_turn(first, second.drop_last(), value, path);
    }
}

/// Without a schema a value is left as it is, and with one it is processed by this one.
pub proof fn single_schema_is_applied(schema: Schema, value: json::Json, path: Option<Seq<char>>)
    ensures
        exposes::features_result(Seq::empty(), value, path) == Ok::<json::Json, Failure>(value),
        exposes::features_result(seq![schema], value, path) == schema.outcome(value, path),
{
    assert(seq![schema].drop_last() =~= Seq::<Schema>::empty());
    assert(exposes::features_result(Seq::empty(), value, path) == Ok::<json::Json, Failure>(value));
}

/// A specific type, and a list of schemas, process a value with each of their schemas.
pub proof fn features_are_all_applied(
    features: Vec<Schema>,
    specific: Specific,
    value: json::Json,
    path: Option<Seq<char>>,
)
    requires
        specific.features == features,
    ensures
        features.outcome(value, path) == exposes::features_result(features@, value, path),
        specific.outcome(value, path) == exposes::features_result(features@, value, path),
        Schema::Specific(specific).outcome(value, path) == exposes::features_result(
            features@,
            value,
            path,
        ),
{
    let schema = Schema::Specific(specific);
    assert(exposes::schema_result(schema, value, path) == exposes::property_result(
        schema,
        value,
        path,
    ));
}

proof fn lemma_first_unknown(schemas: Seq<Schema>, entries: Seq<(Seq<char>, json::Json)>)
    ensures
        match exposes::first_unknown(schemas, entries) {
            Some(i) => {
                &&& 0 <= i < entries.len()
                &&& !exposes::any_knows(schemas, entries[i].0) && !(entries[i].1 is Null)
                &&& forall|j: int|
                    0 <= j < i ==> exposes::any_knows(schemas, (#[trigger] entries[j]).0)
                        || entries[j].1 is Null
            },
            None => forall|j: int|
                0 <= j < entries.len() ==> exposes::any_knows(schemas, (#[trigger] entries[j]).0)
                    || entries[j].1 is Null,
        },
    decreases entries.len(),
{
    if entries.len() > 0 {
        let front = entries.drop_last();
        lemma_first_unknown(schemas, front);
        assert(forall|j: int| 0 <= j < front.len() ==> #[trigger] front[j] == entries[j]);
        match exposes::first_unknown(schemas, front) {
            Some(i) => {
                assert(entries[i] == front[i]);
                assert forall|j: int| 0 <= j < i implies exposes::any_knows(
                    schemas,
                    (#[trigger] entries[j]).0,
                ) || entries[j].1 is Null by {
                    assert(front[j] == entries[j]);
                }
            },
            None => {
                assert forall|j: int| 0 <= j < front.len() implies exposes::any_knows(
                    schemas,
                    (#[trigger] entries[j]).0,
                ) || entries[j].1 is Null by {
                    assert(front[j] == entries[j]);
                }
            },
        }
    }
}

/// An object is accepted if and only if each property that it sets is known to the schema, and its
/// features accept it. The first property that is set without being known is reported.
pub proof fn objects_have_known_properties(
    schema: Composite,
    entries: Seq<(Seq<char>, json::Json)>,
    path: Option<Seq<char>>,
)
    ensures
        ({
            let value = json::Json::Object(entries);
            let outcome = schema.outcome(value, path);
            &&& (forall|i: int|
                0 <= i < entries.len() ==> schema.features.has_property((#[trigger] entries[i]).0)
                    || entries[i].1 is Null) ==> outcome == schema.features.outcome(value, path)
            &&& forall|i: int|
                0 <= i < entries.len() && !schema.features.has_property((#[trigger] entries[i]).0)
                    && !(entries[i].1 is Null) && (forall|j: int|
                    0 <= j < i ==> schema.features.has_property((#[trigger] entries[j]).0)
                        || entries[j].1 is Null) ==> outcome == Err::<json::Json, Failure>(
                    Failure {
                        message: "Unknown property."@,
                        path: match path {
                            Some(p) => Some(p + "."@ + entries[i].0),
                            None => None,
                        },
                    },
                )
        }),
{
    lemma_first_unknown(schema.features@, entries);
    let found = exposes::first_unknown(schema.features@, entries);
    if let Some(k) = found {
        assert(!schema.features.has_property(entries[k].0));
        assert forall|i: int|
            0 <= i < entries.len() && !schema.features.has_property((#[trigger] entries[i]).0) && !(
            entries[i].1 is Null) && (forall|j: int|
                0 <= j < i ==> schema.features.has_property((#[trigger] entries[j]).0)
                    || entries[j].1 is Null) implies i == k by {
            if k < i {
                assert(schema.features.has_property(entries[k].0));
            }
        }
    } else {
        assert forall|i: int| 0 <= i < entries.len() implies schema.features.has_property(
            (#[trigger] entries[i]).0,
        ) || entries[i].1 is Null by {
            assert(exposes::any_knows(schema.features@, entries[i].0) || entries[i].1 is Null);
        }
    }
}

/// A value other than an object is rejected where an object is needed.
pub proof fn composites_need_objects(schema: Composite, value: json::Json, path: Option<Seq<char>>)
    requires
        !(value is Object),
    ensures
        schema.outcome(value, path) == Err::<json::Json, Failure>(
            Failure { message: "Must be an object."@, path },
        ),
{
}

proof fn lemma_leaves_accept(
    schemas: Seq<Schema>,
    entries: Seq<(Seq<char>, json::Json)>,
    path: Option<Seq<char>>,
)
    requires
        forall|leaf: Schema| #[trigger]
            holds_leaf(schemas, leaf) ==> leaf.outcome(json::Json::Object(entries), path) == Ok::<
                json::Json,
                Failure,
            >(json::Json::Object(entries)),
    ensures
        exposes::features_result(schemas, json::Json::Object(entries), path) == Ok::<
            json::Json,
            Failure,
        >(json::Json::Object(entries)),
    decreases schemas,
{
    let value = json::Json::Object(entries);
    if schemas.len() > 0 {
        let front = schemas.drop_last();
        let last = schemas.last();
        assert(schemas[schemas.len() - 1] == last);
        assert forall|leaf: Schema| #[trigger] holds_leaf(front, leaf) implies leaf.outcome(
            value,
            path,
        ) == Ok::<json::Json, Failure>(value) by {
            let i = choose|i: int|
                0 <= i < front.len() && match #[trigger] front[i] {
                    Schema::Specific(inner) => holds_leaf(inner.features@, leaf),
                    other => other == leaf,
                };
            assert(schemas[i] == front[i]);
            assert(holds_leaf(schemas, leaf));
        }
        lemma_leaves_accept(front, entries, path);
        match last {
            Schema::Specific(inner) => {
                assert forall|leaf: Schema| #[trigger]
                    holds_leaf(inner.features@, leaf) implies leaf.outcome(value, path) == Ok::<
                    json::Json,
                    Failure,
                >(value) by {
                    assert(holds_leaf(schemas, leaf));
                }
                lemma_leaves_accept(inner.features@, entries, path);
                features_are_all_applied(inner.features, inner, value, path);
                assert(exposes::schema_result(last, value, path) == last.outcome(value, path));
            },
            other => {
                assert(holds_leaf(schemas, other));
                assert(other.outcome(value, path) == exposes::schema_result(other, value, path));
            },
        }
    }
}

/// An object is accepted as it is if each property that it sets belongs to a schema that is attached
/// to it, be it directly or within specific types, and all of these accept the object as it is.
pub proof fn leaves_decide_acceptance(
    schema: Composite,
    entries: Seq<(Seq<char>, json::Json)>,
    path: Option<Seq<char>>,
)
    requires
        forall|i: int|
            0 <= i < entries.len() ==> (#[trigger] entries[i]).1 is Null || exists|leaf: Schema|
                #[trigger]
                holds_leaf(schema.features@, leaf) && leaf.has_property(entries[i].0),
        forall|leaf: Schema| #[trigger]
            holds_leaf(schema.features@, leaf) ==> leaf.outcome(json::Json::Object(entries), path)
                == Ok::<json::Json, Failure>(json::Json::Object(entries)),
    ensures
        schema.outcome(json::Json::Object(entries), path) == Ok::<json::Json, Failure>(
            json::Json::Object(entries),
        ),
{
    assert forall|i: int| 0 <= i < entries.len() implies schema.features.has_property(
        (#[trigger] entries[i]).0,
    ) || entries[i].1 is Null by {
        known_properties_are_those_of_leaves(schema.features@, entries[i].0);
        if !(entries[i].1 is Null) {
            let leaf = choose|leaf: Schema| #[trigger]
                holds_leaf(schema.features@, leaf) && leaf.has_property(entries[i].0);
            assert(exposes::knows(leaf, entries[i].0));
        }
    }
    objects_have_known_properties(schema, entries, path);
    lemma_leaves_accept(schema.features@, entries, path);
}

proof fn lemma_untouched(
    schemas: Seq<Schema>,
    key: Seq<char>,
    value: json::Json,
    path: Option<Seq<char>>,
)
    requires
        !exposes::any_knows(schemas, key),
    ensures
        exposes::value_result(schemas, key, value, path) == Ok::<json::Json, Failure>(value),
    decreases schemas,
{
    if schemas.len() > 0 {
        let front = schemas.drop_last();
        let last = schemas.last();
        assert(!exposes::any_knows(front, key)) by {
            if exposes::any_knows(front, key) {
                let i = choose|i: int| 0 <= i < front.len() && exposes::knows(#[trigger] front[i], key);
                assert(schemas[i] == front[i]);
            }
        }
        lemma_untouched(front, key, value, path);
        assert(!exposes::knows(schemas[schemas.len() - 1], key));
        match last {
            Schema::Specific(inner) => {
                lemma_untouched(inner.features@, key, value, path);
                assert(exposes::single_result(last, key, value, path) == exposes::value_result(
                    inner.features@,
                    key,
                    value,
                    path,
                ));
            },
            _ => {
                assert(exposes::single_result(last, key, value, path) == Ok::<json::Json, Failure>(
                    value,
                ));
            },
        }
    }
}

proof fn lemma_leaf_rejects(
    schemas: Seq<Schema>,
    leaf: Schema,
    key: Seq<char>,
    value: json::Json,
    path: Option<Seq<char>>,
)
    requires
        holds_leaf(schemas, leaf),
        exposes::knows(leaf, key),
        !(leaf is Specific),
        exposes::single_result(leaf, key, value, path) is Err,
        forall|other: Schema| #[trigger]
            holds_leaf(schemas, other) && exposes::knows(other, key) ==> other == leaf,
    ensures
        exposes::value_result(schemas, key, value, path) is Err,
    decreases schemas,
{
    let front = schemas.drop_last();
    let last = schemas.last();
    assert(schemas[schemas.len() - 1] == last);
    assert forall|other: Schema| #[trigger]
        holds_leaf(front, other) && exposes::knows(other, key) implies other == leaf by {
        let i = choose|i: int|
            0 <= i < front.len() && match #[trigger] front[i] {
                Schema::Specific(inner) => holds_leaf(inner.features@, other),
                one => one == other,
            };
        assert(schemas[i] == front[i]);
        assert(holds_leaf(schemas, other));
    }
    if holds_leaf(front, leaf) {
        lemma_leaf_rejects(front, leaf, key, value, path);
    } else {
        assert(!exposes::any_knows(front, key)) by {
            known_properties_are_those_of_leaves(front, key);
        }
        lemma_untouched(front, key, value, path);
        let i = choose|i: int|
            0 <= i < schemas.len() && match #[trigger] schemas[i] {
                Schema::Specific(inner) => holds_leaf(inner.features@, leaf),
                one => one == leaf,
            };
        if i < front.len() {
            assert(front[i] == schemas[i]);
            assert(holds_leaf(front, leaf));
        }
        if let Schema::Specific(inner) = last {
            assert forall|other: Schema| #[trigger]
                holds_leaf(inner.features@, other) && exposes::knows(other, key) implies other
                == leaf by {
                assert(holds_leaf(schemas, other));
            }
            lemma_leaf_rejects(inner.features@, leaf, key, value, path);
            assert(exposes::single_result(last, key, value, path) == exposes::value_result(
                inner.features@,
                key,
                value,
                path,
            ));
        }
    }
}

/// An object is rejected if the only schema that is attached to one of its properties rejects it,
/// wherever this schema stands.
pub proof fn leaves_decide_rejection(
    schema: Composite,
    leaf: Schema,
    entries: Seq<(Seq<char>, json::Json)>,
    path: Option<Seq<char>>,
    i: int,
)
    requires
        json::keys_increase(entries),
        0 <= i < entries.len(),
        !(leaf is Specific),
        holds_leaf(schema.features@, leaf),
        leaf.has_property(entries[i].0),
        forall|other: Schema| #[trigger]
            holds_leaf(schema.features@, other) && other.has_property(entries[i].0) ==> other
                == leaf,
        leaf.outcome(json::Json::Object(entries), path) is Err,
    ensures
        schema.outcome(json::Json::Object(entries), path) is Err,
{
    let key = entries[i].0;
    json::position_unique(entries, key, i);
    assert(exposes::property_of(leaf) == key);
    assert(leaf.outcome(json::Json::Object(entries), path) == exposes::schema_result(
        leaf,
        json::Json::Object(entries),
        path,
    ));
    assert(exposes::single_result(leaf, key, entries[i].1, path) is Err);
    assert forall|other: Schema| #[trigger]
        holds_leaf(schema.features@, other) && exposes::knows(other, key) implies other == leaf by {
        assert(other.has_property(key));
    }
    lemma_leaf_rejects(schema.features@, leaf, key, entries[i].1, path);
    exposes::lemma_separately(schema.features@, entries, path);
    objects_have_known_properties(schema, entries, path);
}

proof fn lemma_single_property(
    schema: Schema,
    key: Seq<char>,
    value: json::Json,
    path: Option<Seq<char>>,
)
    requires
        !(schema is Specific),
        exposes::knows(schema, key),
    ensures
        schema.outcome(json::Json::Object(seq![(key, value)]), path) is Ok <==> value is Null
            || exposes::property_result(
            schema,
            value,
            with_source::extended(path, "."@ + key),
        ) is Ok,
{
    let entries = seq![(key, value)];
    json::position_finds(entries, key);
    assert(entries[0].0 == key);
    assert(exposes::property_of(schema) == key);
    assert(schema.outcome(json::Json::Object(entries), path) == exposes::schema_result(
        schema,
        json::Json::Object(entries),
        path,
    ));
}

proof fn lemma_option_names()
    ensures
        "description"@.len() == 11,
        "retain"@.len() == 6,
        "disabled"@.len() == 8,
        "retention"@.len() == 9,
        "qos"@.len() == 3,
        "homeassistant"@.len() == 13,
        "debounce"@.len() == 8,
        "debounce_ignore"@.len() == 15,
        "filtered_attributes"@.len() == 19,
        "filtered_cache"@.len() == 14,
        "optimistic"@.len() == 10,
        "filtered_optimistic"@.len() == 19,
        "transition"@.len() == 10,
        "off_state"@.len() == 9,
        "disabled"@ != "debounce"@,
        "filtered_attributes"@ != "filtered_optimistic"@,
        "transition"@ != "optimistic"@,
{
    reveal_strlit("description");
    reveal_strlit("retain");
    reveal_strlit("disabled");
    reveal_strlit("retention");
    reveal_strlit("qos");
    reveal_strlit("homeassistant");
    reveal_strlit("debounce");
    reveal_strlit("debounce_ignore");
    reveal_strlit("filtered_attributes");
    reveal_strlit("filtered_cache");
    reveal_strlit("optimistic");
    reveal_strlit("filtered_optimistic");
    reveal_strlit("transition");
    reveal_strlit("off_state");
    assert("disabled"@[1] != "debounce"@[1]);
    assert("filtered_attributes"@[9] != "filtered_optimistic"@[9]);
    assert("transition"@[0] != "optimistic"@[0]);
}

/// The properties that every device has are these, and no others.
pub proof fn device_options_are_known(schemas: Seq<Schema>, name: Seq<char>)
    requires
        exposes::are_common_device_options(schemas),
    ensures
        exposes::any_knows(schemas, name) <==> {
            ||| name == "description"@
            ||| name == "retain"@
            ||| name == "disabled"@
            ||| name == "retention"@
            ||| name == "qos"@
            ||| name == "homeassistant"@
            ||| name == "debounce"@
            ||| name == "debounce_ignore"@
            ||| name == "filtered_attributes"@
            ||| name == "filtered_cache"@
            ||| name == "optimistic"@
            ||| name == "filtered_optimistic"@
        },
{
    assert(exposes::knows(schemas[0], name) == (name == "description"@));
    assert(exposes::knows(schemas[1], name) == (name == "retain"@));
    assert(exposes::knows(schemas[2], name) == (name == "disabled"@));
    assert(exposes::knows(schemas[3], name) == (name == "retention"@));
    assert(exposes::knows(schemas[4], name) == (name == "qos"@));
    assert(exposes::knows(schemas[5], name) == (name == "homeassistant"@));
    assert(exposes::knows(schemas[6], name) == (name == "debounce"@));
    assert(exposes::knows(schemas[7], name) == (name == "debounce_ignore"@));
    assert(exposes::knows(schemas[8], name) == (name == "filtered_attributes"@));
    assert(exposes::knows(schemas[9], name) == (name == "filtered_cache"@));
    assert(exposes::knows(schemas[10], name) == (name == "optimistic"@));
    assert(exposes::knows(schemas[11], name) == (name == "filtered_optimistic"@));
}

/// The properties that every group has are these, and no others.
pub proof fn group_options_are_known(schemas: Seq<Schema>, name: Seq<char>)
    requires
        exposes::are_group_options(schemas),
    ensures
        exposes::any_knows(schemas, name) <==> {
            ||| name == "retain"@
            ||| name == "transition"@
            ||| name == "optimistic"@
            ||| name == "off_state"@
        },
{
    assert(exposes::knows(schemas[0], name) == (name == "retain"@));
    assert(exposes::knows(schemas[1], name) == (name == "transition"@));
    assert(exposes::knows(schemas[2], name) == (name == "optimistic"@));
    assert(exposes::knows(schemas[3], name) == (name == "off_state"@));
}

proof fn lemma_boolean(schema: Schema, key: Seq<char>, value: json::Json, path: Option<Seq<char>>)
    requires
        exposes::is_boolean(schema, key),
    ensures
        exposes::property_result(schema, value, path) is Ok <==> value is Bool,
{
    let inner = schema->Binary_0.type_;
    assert(exposes::property_result(schema, value, path) == exposes::binary_result(
        inner,
        value,
        path,
    ));
}

proof fn lemma_string_list(
    schema: Schema,
    key: Seq<char>,
    value: json::Json,
    path: Option<Seq<char>>,
)
    requires
        exposes::is_string_list(schema, key),
    ensures
        exposes::property_result(schema, value, path) is Ok <==> value is Array && forall|i: int|
            0 <= i < value->Array_0.len() ==> #[trigger] value->Array_0[i] is Text,
{
    let inner = schema->List_0.type_;
    assert(exposes::property_result(schema, value, path) == exposes::list_result(
        inner,
        value,
        path,
    ));
    lists_are_processed_item_by_item(inner, value, path);
    if let json::Json::Array(items) = value {
        assert forall|i: int| 0 <= i < items.len() implies (inner.item_type.outcome(
            #[trigger] items[i],
            with_source::item_path(path, i as nat),
        ) is Ok <==> items[i] is Text) by {}
    }
}

/// Which values are accepted for the properties that every device has, apart from numbers: a
/// description is a text, what is on or off is a boolean, the filters are lists of texts, and anything
/// goes for Home Assistant as long as it is an object. Every one of them can be reset.
pub proof fn device_options_accept(
    schemas: Seq<Schema>,
    i: int,
    key: Seq<char>,
    value: json::Json,
    path: Option<Seq<char>>,
)
    requires
        exposes::are_common_device_options(schemas),
        0 <= i < schemas.len(),
        schemas[i].has_property(key),
        !(value is Number),
    ensures
        schemas[i].outcome(json::Json::Object(seq![(key, value)]), path) is Ok <==> {
            ||| value is Null
            ||| key == "description"@ && value is Text
            ||| (key == "retain"@ || key == "disabled"@ || key == "optimistic"@) && value is Bool
            ||| key == "homeassistant"@ && value is Object
            ||| (key == "debounce_ignore"@ || key == "filtered_attributes"@ || key
                == "filtered_cache"@ || key == "filtered_optimistic"@) && value is Array && forall|
                j: int,
            |
                0 <= j < value->Array_0.len() ==> #[trigger] value->Array_0[j] is Text
        },
{
    lemma_option_names();
    let schema = schemas[i];
    let below = with_source::extended(path, "."@ + key);
    lemma_single_property(schema, key, value, path);
    if exposes::is_boolean(schema, key) {
        lemma_boolean(schema, key, value, below);
    } else if exposes::is_string_list(schema, key) {
        lemma_string_list(schema, key, value, below);
    }
    if let Schema::Numeric(held) = schema {
        assert(exposes::preset_index(held.type_.presets@, value->Text_0) is None);
        assert(exposes::numeric_result(held.type_, value, below) is Err);
    }
}

/// Which values are accepted for the properties that every group has, apart from numbers.
pub proof fn group_options_accept(
    schemas: Seq<Schema>,
    i: int,
    key: Seq<char>,
    value: json::Json,
    path: Option<Seq<char>>,
)
    requires
        exposes::are_group_options(schemas),
        0 <= i < schemas.len(),
        schemas[i].has_property(key),
        !(value is Number),
    ensures
        schemas[i].outcome(json::Json::Object(seq![(key, value)]), path) is Ok <==> {
            ||| value is Null
            ||| (key == "retain"@ || key == "optimistic"@) && value is Bool
            ||| key == "off_state"@ && (value == json::Json::Text("all_members_off"@) || value
                == json::Json::Text("last_member_state"@))
        },
{
    lemma_option_names();
    let schema = schemas[i];
    let below = with_source::extended(path, "."@ + key);
    lemma_single_property(schema, key, value, path);
    if exposes::is_boolean(schema, key) {
        lemma_boolean(schema, key, value, below);
    }
    match schema {
        Schema::Numeric(held) => {
            assert(exposes::preset_index(held.type_.presets@, value->Text_0) is None);
            assert(exposes::numeric_result(held.type_, value, below) is Err);
        },
        Schema::Enum(held) => {
            let values = held.type_.values@;
            let expected = seq![
                json::Json::Text("all_members_off"@),
                json::Json::Text("last_member_state"@),
            ];
            assert(exposes::models(values) == expected);
            assert(exposes::models(values).len() == 2);
            assert(exposes::models(values)[0] == values[0]@);
            assert(exposes::models(values)[1] == values[1]@);
            assert(exposes::property_result(schema, value, below) == exposes::enum_result(
                held.type_,
                value,
                below,
            ));
            if value == expected[0] {
                assert(json::same(values[0]@, value));
            }
            if value == expected[1] {
                assert(json::same(values[1]@, value));
            }
        },
        _ => {},
    }
}

proof fn lemma_whole(n: nat, start: nat)
    requires
        n < 0x20_0000_0000_0000,
        start <= 1,
    ensures
        ({
            let p = vstd::arithmetic::power2::pow2(1074) as int;
            &&& p > 0
            &&& double::rounded_signed(n * p) == n * p
            &&& n >= start ==> double::on_grid(n * p, start * p, p)
        }),
{
    let p = vstd::arithmetic::power2::pow2(1074) as int;
    vstd::arithmetic::power2::lemma_pow2_pos(1074);
    double::lemma_rounded_exact(n, 1074);
    assert(n * p >= 0) by (nonlinear_arith)
        requires
            p > 0,
            n >= 0,
    ;
    if n >= start {
        let d = n - start;
        vstd::arithmetic::div_mod::lemma_mod_multiples_basic(d, p);
        assert(d * p == n * p - start * p) by (nonlinear_arith)
            requires
                d == n - start,
        ;
        vstd::arithmetic::power2::lemma2_to64_rest();
        vstd::arithmetic::power2::lemma_pow2_adds(53, 1074);
        vstd::arithmetic::power2::lemma_pow2_strictly_increases(1127, 2098);
        assert(0 <= d * p < 0x20_0000_0000_0000 * p) by (nonlinear_arith)
            requires
                0 <= d < 0x20_0000_0000_0000,
                p > 0,
        ;
        double::exact_distances_are_multiples(n * p, start * p, p, d as nat, 1074);
    }
}

proof fn lemma_numeric_option(
    schema: Schema,
    key: Seq<char>,
    min: nat,
    max: Option<nat>,
    n: u64,
    path: Option<Seq<char>>,
)
    requires
        exposes::is_numeric(schema, key, Some(min), max),
        exposes::has_unit_step(schema, min) || exposes::has_no_step(schema),
        min <= 1,
        n < 0x20_0000_0000_0000,
    ensures
        schema.outcome(
            json::Json::Object(seq![(key, json::Json::Number(json::NumberModel::PosInt(n)))]),
            path,
        ) is Ok <==> n >= min && (max is Some ==> n <= max->0),
{
    let number = json::NumberModel::PosInt(n);
    let value = json::Json::Number(number);
    let inner = schema->Numeric_0.type_;
    let p = vstd::arithmetic::power2::pow2(1074) as int;
    lemma_whole(n as nat, min);
    lemma_single_property(schema, key, value, path);
    let below = with_source::extended(path, "."@ + key);
    assert(exposes::property_result(schema, value, below) == exposes::numeric_result(
        inner,
        value,
        below,
    ));
    numbers_are_within_limits(inner, number, below);
    assert(inner.outcome(value, below) == exposes::numeric_result(inner, value, below));
    assert(json::number_scaled(number) == n * p);
    assert((n * p >= min * p) == (n >= min)) by (nonlinear_arith)
        requires
            p > 0,
    ;
    if let Some(limit) = max {
        assert((n * p <= limit * p) == (n <= limit)) by (nonlinear_arith)
            requires
                p > 0,
        ;
    }
}

/// The whole numbers that are accepted for the properties of every device that are numbers: the
/// quality of service has three levels, and retention and debouncing take at least one second.
pub proof fn device_numbers_accept(
    schemas: Seq<Schema>,
    i: int,
    key: Seq<char>,
    n: u64,
    path: Option<Seq<char>>,
)
    requires
        exposes::are_common_device_options(schemas),
        0 <= i < schemas.len(),
        schemas[i].has_property(key),
        n < 0x20_0000_0000_0000,
    ensures
        ({
            let value = json::Json::Number(json::NumberModel::PosInt(n));
            let accepted = schemas[i].outcome(json::Json::Object(seq![(key, value)]), path) is Ok;
            &&& key == "qos"@ ==> (accepted <==> n <= 2)
            &&& key == "retention"@ ==> (accepted <==> n >= 1)
            &&& key == "debounce"@ ==> (accepted <==> n >= 1)
        }),
{
    lemma_option_names();
    if key == "qos"@ {
        assert(i == 4);
        lemma_numeric_option(schemas[4], key, 0, Some(2), n, path);
    } else if key == "retention"@ {
        assert(i == 3);
        lemma_numeric_option(schemas[3], key, 1, None, n, path);
    } else if key == "debounce"@ {
        assert(i == 6);
        lemma_numeric_option(schemas[6], key, 1, None, n, path);
    }
}

/// Every whole number is accepted as the time that a transition takes.
pub proof fn group_numbers_accept(
    schemas: Seq<Schema>,
    i: int,
    n: u64,
    path: Option<Seq<char>>,
)
    requires
        exposes::are_group_options(schemas),
        0 <= i < schemas.len(),
        schemas[i].has_property("transition"@),
        n < 0x20_0000_0000_0000,
    ensures
        schemas[i].outcome(
            json::Json::Object(
                seq![("transition"@, json::Json::Number(json::NumberModel::PosInt(n)))],
            ),
            path,
        ) is Ok,
{
    lemma_option_names();
    assert(i == 1);
    lemma_numeric_option(schemas[1], "transition"@, 0, None, n, path);
}

/// The message about a number that is out of range names the limits that there are, and the message
/// about one that is between two steps names the start, the step, and examples. The range comes first.
pub proof fn rejected_numbers_learn_the_limits(
    schema: Numeric,
    number: json::NumberModel,
    path: Option<Seq<char>>,
)
    requires
        schema.outcome(json::Json::Number(number), path) is Err,
    ensures
        ({
            let n = json::number_scaled(number);
            let message = schema.outcome(json::Json::Number(number), path)->Err_0.message;
            let low = schema.value_min is Some && n < schema.value_min->0.value.scaled();
            let high = schema.value_max is Some && n > schema.value_max->0.value.scaled();
            let min = schema.value_min->0.display@;
            let max = schema.value_max->0.display@;
            &&& (low || high) && schema.value_min is Some && schema.value_max is Some ==> message
                == "Must be between "@ + min + " and "@ + max + " (inclusive)."@
            &&& low && schema.value_max is None ==> message == "Must be at least "@ + min + "."@
            &&& high && schema.value_min is None ==> message == "Must be at most "@ + max + "."@
            &&& !low && !high ==> schema.value_step is Some && message == "Must be "@ + (
            if schema.value_min is Some {
                min
            } else {
                "0"@
            }) + " plus any number of steps of "@ + schema.value_step->0.display@ + " (e.g. "@
                + schema.value_step->0.one_step@ + ", "@ + schema.value_step->0.two_steps@
                + ", but not "@ + schema.value_step->0.off_step@ + ")."@
        }),
{
}

/// The message about a value that is no number names the presets in their order, if there are any.
pub proof fn rejected_values_learn_the_presets(
    schema: Numeric,
    value: json::Json,
    path: Option<Seq<char>>,
    names: Seq<json::Json>,
)
    requires
        !(value is Number),
        schema.outcome(value, path) is Err,
        names.len() == schema.presets@.len(),
        forall|i: int|
            0 <= i < names.len() ==> #[trigger] names[i] == json::Json::Text(
                schema.presets@[i].name@,
            ),
    ensures
        schema.outcome(value, path)->Err_0.path == path,
        names.len() == 0 ==> schema.outcome(value, path)->Err_0.message == "Must be a number."@,
        names.len() > 0 ==> schema.outcome(value, path)->Err_0.message
            == "Must be a number or one of the presets: "@ + json::compact(json::Json::Array(names))
            + "."@,
{
    assert(exposes::preset_names(schema.presets@) =~= names);
}

/// The message about a value that isn't one of several names all of them, in their order.
pub proof fn rejected_values_learn_the_choices(
    schema: Enum,
    value: json::Json,
    path: Option<Seq<char>>,
    choices: Seq<json::Json>,
)
    requires
        schema.outcome(value, path) is Err,
        choices.len() == schema.values@.len(),
        forall|i: int| 0 <= i < choices.len() ==> #[trigger] choices[i] == schema.values@[i]@,
    ensures
        schema.outcome(value, path)->Err_0.message == "Must be one of "@ + json::compact(
            json::Json::Array(choices),
        ) + "."@,
{
    assert(exposes::models(schema.values@) =~= choices);
}

/// What isn't a list is rejected as such, and the message about a list with a wrong number of items
/// names the limits that there are.
pub proof fn rejected_lists_learn_the_limits(
    schema: List,
    value: json::Json,
    path: Option<Seq<char>>,
)
    ensures
        ({
            let length = value->Array_0.len();
            let outcome = schema.outcome(value, path);
            let low = schema.length_min is Some && length < schema.length_min->0;
            let high = schema.length_max is Some && length > schema.length_max->0;
            let min = text::decimal(schema.length_min->0 as nat);
            let max = text::decimal(schema.length_max->0 as nat);
            &&& !(value is Array) ==> outcome == Err::<json::Json, Failure>(
                Failure { message: "Must be an array."@, path },
            )
            &&& value is Array && (low || high) ==> outcome is Err && outcome->Err_0.path == path
            &&& value is Array && (low || high) && schema.length_min is Some && schema.length_max
                is Some ==> outcome->Err_0.message == "Must have between "@ + min + " and "@ + max
                + " items (inclusive)."@
            &&& value is Array && low && schema.length_max is None ==> outcome->Err_0.message
                == "Must have at least "@ + min + " item(s)."@
            &&& value is Array && high && schema.length_min is None ==> outcome->Err_0.message
                == "Must have at most "@ + max + " item(s)."@
        }),
{
}

} // verus!
