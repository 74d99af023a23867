//! What the handlers have in common.

use vstd::prelude::*;

use crate::error;
use crate::error::{Error, ErrorWithMeta};
use crate::event_manager;
use crate::event_manager::{EventCore, EventType};
use crate::json;
use crate::json::{JsonObject, JsonValue, Number};
use crate::mqtt::exposes;
use crate::mqtt::exposes::ToplevelSchema;
use crate::text;
use crate::with_source;
use crate::with_source::ValueWithSource;

verus! {

/// Track the latest version of a retained message on a topic.
#[derive(Debug)]
pub struct TopicTracker<T> {
    value: Option<T>,
}

/// What to do after looking for a message that has been received already.
#[derive(Debug)]
pub enum TrackerStep<T> {
    /// The latest version is known.
    Done(Result<T, Error>),
    /// Nothing has been received yet, so wait for a message.
    Wait,
}

impl<T: Clone> TopicTracker<T> {
    /// The latest version, if one has been received.
    pub closed spec fn latest(self) -> Option<T> {
        self.value
    }

    /// Create a tracker that has received nothing yet.
    pub fn new() -> (r: Self)
        ensures
            r.latest() is None,
    {
        TopicTracker { value: None }
    }

    /// Get the latest version, given the message that has been received since the last time, if any.
    pub fn get(&mut self, received: Option<Result<T, Error>>) -> (r: TrackerStep<T>)
        ensures
            match received {
                Some(Ok(value)) => {
                    &&& final(self).latest() == Some(value)
                    &&& r matches TrackerStep::Done(Ok(copy)) && cloned(value, copy)
                },
                Some(Err(error)) => {
                    &&& final(self).latest() == old(self).latest()
                    &&& r == TrackerStep::<T>::Done(Err(error))
                },
                None => {
                    &&& final(self).latest() == old(self).latest()
                    &&& match old(self).latest() {
                        Some(value) => r matches TrackerStep::Done(Ok(copy)) && cloned(value, copy),
                        None => r is Wait,
                    }
                },
            },
    {
        match received {
            Some(Ok(value)) => {
                let copy: T = value.clone();
                self.value = Some(value);
                TrackerStep::Done(Ok(copy))
            },
            Some(Err(error)) => TrackerStep::Done(Err(error)),
            None => match &self.value {
                Some(value) => TrackerStep::Done(Ok(value.clone())),
                None => TrackerStep::Wait,
            },
        }
    }

    /// Get the latest version after having waited for a message.
    pub fn get_waited(&mut self, waited: Result<T, Error>) -> (r: Result<T, Error>)
        ensures
            r == waited,
            match waited {
                Ok(value) => final(self).latest() matches Some(copy) && cloned(value, copy),
                Err(_) => final(self).latest() == old(self).latest(),
            },
    {
        match waited {
            Ok(value) => {
                let copy: T = value.clone();
                self.value = Some(copy);
                Ok(value)
            },
            Err(error) => Err(error),
        }
    }
}

/// How many responses to a request are kept until they are read.
pub const RESPONSE_CAPACITY: usize = 8;

/// The topic that requests are published to.
///
/// See <https://www.zigbee2mqtt.io/guide/usage/mqtt_topics_and_messages.html#zigbee2mqtt-bridge-request>.
pub fn request_topic(name: &str) -> (r: String)
    ensures
        r@ == "bridge/request/"@ + name@,
{
    "bridge/request/".to_owned().concat(name)
}

/// The topic that responses to requests are published to.
pub fn response_topic(name: &str) -> (r: String)
    ensures
        r@ == "bridge/response/"@ + name@,
{
    "bridge/response/".to_owned().concat(name)
}

/// The response to a bridge request.
#[derive(Debug)]
pub enum RequestResponse<T> {
    /// The request succeeded.
    Success {
        /// What came of the request.
        data: T,
    },
    /// The request failed.
    Error {
        /// Why the request failed.
        error: String,
    },
}

impl<V> RequestResponse<V> {
    /// The response as a result.
    pub fn convert(self) -> (r: Result<V, Error>)
        ensures
            match self {
                RequestResponse::Success { data } => r == Ok::<V, Error>(data),
                RequestResponse::Error { error } => r == Err::<V, Error>(
                    Error::Zigbee2MQTTError(error),
                ),
            },
    {
        match self {
            RequestResponse::Success { data } => Ok(data),
            RequestResponse::Error { error } => Err(Error::Zigbee2MQTTError(error)),
        }
    }
}

/// What becomes of a response: one that isn't related to the request is skipped, others end the
/// request. An error has the source of the part of the request that caused it.
pub open spec fn answers<V>(
    r: Option<Result<V, ErrorWithMeta>>,
    response: RequestResponse<V>,
    related: bool,
    source: Option<Seq<char>>,
) -> bool {
    if related {
        match response {
            RequestResponse::Success { data } => r == Some(Ok::<V, ErrorWithMeta>(data)),
            RequestResponse::Error { error } => r matches Some(Err(e)) && e@ == (
            error::ErrorWithMetaModel {
                error: error::ErrorModel::Zigbee2MQTTError(error@),
                source,
                published: false,
            }),
        }
    } else {
        r is None
    }
}

/// End a request with a response, whose cause is unknown if it is an error.
pub fn accept<V>(response: RequestResponse<V>) -> (r: Option<Result<V, ErrorWithMeta>>)
    ensures
        answers(r, response, true, None),
{
    match response.convert() {
        Ok(data) => Some(Ok(data)),
        Err(error) => Some(Err(error.unknown_cause())),
    }
}

/// End a request with a response, which was caused by the given value if it is an error.
pub fn accept_caused_by<V, T>(response: RequestResponse<V>, value: &ValueWithSource<T>) -> (r:
    Option<Result<V, ErrorWithMeta>>)
    ensures
        answers(r, response, true, value.path()),
{
    match response.convert() {
        Ok(data) => Some(Ok(data)),
        Err(error) => Some(Err(error.caused_by(value))),
    }
}

/// The document for an object with the given properties, in the order in which they are given.
pub open spec fn properties_document(properties: Seq<(&'static str, JsonValue)>) -> json::Json {
    json::Json::Object(
        properties.map_values(|property: (&'static str, JsonValue)| (property.0@, property.1@)),
    )
}

pub(crate) fn properties_message(properties: &Vec<(&'static str, JsonValue)>) -> (r: String)
    ensures
        r@ == json::compact(properties_document(properties@)),
{
    let mut parts: Vec<String> = Vec::new();
    let ghost all = properties_document(properties@)->Object_0;
    proof {
        assert(all.take(0) =~= Seq::empty());
        assert(text::texts(parts@) =~= Seq::empty());
    }
    for i in 0..properties.len()
        invariant
            all == properties_document(properties@)->Object_0,
            text::texts(parts@) == json::entry_texts(all.take(i as int)),
    {
        let ghost before = parts@;
        let key = json::quoted_text(properties[i].0);
        let value = json::to_text(&properties[i].1);
        let part = json::entry_text(key.as_str(), value.as_str());
        parts.push(part);
        proof {
            assert(all.take(i + 1).drop_last() =~= all.take(i as int));
            assert(all.take(i + 1).last() == all[i as int]);
            assert(text::texts(parts@) =~= text::texts(before).push(part@));
        }
    }
    proof {
        assert(all.take(all.len() as int) =~= all);
    }
    json::object_text(&parts)
}

/// The document for a number.
pub open spec fn number_document(n: usize) -> json::Json {
    json::Json::Number(json::NumberModel::PosInt(n as u64))
}

pub(crate) fn number_value(n: usize) -> (r: JsonValue)
    ensures
        r@ == number_document(n),
{
    JsonValue::Number(Number::PosInt(n as u64))
}

/// The message for an object with two properties.
pub(crate) fn message_of_two(
    first: &'static str,
    first_value: JsonValue,
    second: &'static str,
    second_value: JsonValue,
) -> (r: String)
    ensures
        r@ == json::compact(
            json::Json::Object(seq![(first@, first_value@), (second@, second_value@)]),
        ),
{
    let mut properties: Vec<(&'static str, JsonValue)> = Vec::new();
    properties.push((first, first_value));
    properties.push((second, second_value));
    proof {
        assert(properties_document(properties@)->Object_0 =~= seq![
            (first@, first_value@),
            (second@, second_value@),
        ]);
    }
    properties_message(&properties)
}

/// The document for a request to rename a device or a group.
pub open spec fn rename_document(
    from: json::Json,
    to: Seq<char>,
    homeassistant_rename: bool,
) -> json::Json {
    json::Json::Object(
        seq![
            ("from"@, from),
            ("to"@, json::Json::Text(to)),
            ("homeassistant_rename"@, json::Json::Bool(homeassistant_rename)),
        ],
    )
}

pub(crate) fn rename_message(from: JsonValue, to: &str, homeassistant_rename: bool) -> (r: String)
    ensures
        r@ == json::compact(rename_document(from@, to@, homeassistant_rename)),
{
    let mut properties: Vec<(&'static str, JsonValue)> = Vec::new();
    properties.push(("from", from));
    properties.push(("to", JsonValue::Text(to.to_owned())));
    properties.push(("homeassistant_rename", JsonValue::Bool(homeassistant_rename)));
    proof {
        assert(properties_document(properties@)->Object_0 =~= rename_document(
            from@,
            to@,
            homeassistant_rename,
        )->Object_0);
    }
    properties_message(&properties)
}

/// The document for a request that sets options.
pub open spec fn options_document(
    id: json::Json,
    options: Seq<(Seq<char>, json::Json)>,
) -> json::Json {
    json::Json::Object(seq![("id"@, id), ("options"@, json::Json::Object(options))])
}

pub(crate) fn options_message(id: JsonValue, options: &Configuration) -> (r: String)
    ensures
        r@ == json::compact(options_document(id@, options@)),
{
    message_of_two("id", id, "options", JsonValue::Object(options.clone()))
}

/// Whether an error message mentions a name, which it then has in quotes.
pub open spec fn mentions(message: Seq<char>, name: Seq<char>) -> bool {
    text::occurs_in("'"@ + name + "'"@, message)
}

/// See [`mentions`].
pub fn message_mentions(message: &str, name: &str) -> (r: bool)
    ensures
        r == mentions(message@, name@),
{
    let quoted = "'".to_owned().concat(name).concat("'");
    text::text_contains(message, quoted.as_str())
}

/// A type of bridge request.
pub trait BridgeRequestType {
    /// What is asked for.
    type Request;

    /// What comes of a request that succeeds.
    type Response;

    /// The name of the request.
    spec fn request_name() -> Seq<char>;

    /// The document that is sent for a request.
    spec fn document(request: Self::Request) -> json::Json;

    /// Whether a response is related to a request.
    spec fn is_related(
        request: Self::Request,
        response: RequestResponse<Self::Response>,
    ) -> bool;

    /// The source of the part of a request that caused it to fail.
    spec fn blame(request: Self::Request, response: RequestResponse<Self::Response>) -> Option<
        Seq<char>,
    >;

    /// The name of the request.
    fn name() -> (r: &'static str)
        ensures
            r@ == Self::request_name(),
    ;

    /// The message to send for a request.
    fn message(request: &Self::Request) -> (r: String)
        ensures
            r@ == json::compact(Self::document(*request)),
    ;

    /// Process a response, which is skipped if it isn't related to the request.
    fn process_response(
        request: &Self::Request,
        response: RequestResponse<Self::Response>,
    ) -> (r: Option<Result<Self::Response, ErrorWithMeta>>)
        ensures
            answers(
                r,
                response,
                Self::is_related(*request, response),
                Self::blame(*request, response),
            ),
    ;
}

/// The configuration of a device or group.
pub type Configuration = JsonObject;

/// A category of configuration.
pub trait ConfigurationManagerInner {
    /// The (singular) name of the category of configuration being managed.
    spec fn category() -> Seq<char>;

    /// Whether to set a property which is currently set but missing from the new configuration to
    /// null.
    spec fn clears(key: Seq<char>) -> bool;

    /// The (singular) name of the category of configuration being managed.
    fn name() -> (r: &'static str)
        ensures
            r@ == Self::category(),
    ;

    /// Whether to set a property which is currently set but missing from the new configuration to
    /// null.
    fn clear_property(key: &str) -> (r: bool)
        ensures
            r == Self::clears(key@),
    ;
}

/// A property that differs between two configurations.
#[derive(Debug)]
pub struct Difference {
    /// The property.
    pub key: String,
    /// How the wanted value reads.
    pub wanted: String,
    /// How the actual value reads.
    pub actual: String,
}

/// The model of a [`Difference`].
#[verifier::ext_equal]
pub struct DifferenceModel {
    /// See [`Difference::key`].
    pub key: Seq<char>,
    /// See [`Difference::wanted`].
    pub wanted: Seq<char>,
    /// See [`Difference::actual`].
    pub actual: Seq<char>,
}

impl View for Difference {
    type V = DifferenceModel;

    open spec fn view(&self) -> DifferenceModel {
        DifferenceModel { key: self.key@, wanted: self.wanted@, actual: self.actual@ }
    }
}

/// Whether a value is missing or null, both of which stand for the default value.
pub open spec fn is_default(value: Option<json::Json>) -> bool {
    value is None || value == Some(json::Json::Null)
}

/// Whether two values are the same, or both stand for the default value.
pub open spec fn agree(wanted: Option<json::Json>, actual: Option<json::Json>) -> bool {
    if is_default(wanted) || is_default(actual) {
        is_default(wanted) && is_default(actual)
    } else {
        json::same(wanted->0, actual->0)
    }
}

/// How a value reads.
pub open spec fn shown(value: Option<json::Json>) -> Seq<char> {
    if is_default(value) {
        "default value"@
    } else {
        json::compact(value->0)
    }
}

/// The differences between a wanted configuration and the actual one, in the order of the
/// properties. Properties that aren't part of the wanted configuration don't matter.
pub open spec fn differences(
    wanted: Seq<(Seq<char>, json::Json)>,
    actual: Seq<(Seq<char>, json::Json)>,
) -> Seq<DifferenceModel>
    decreases wanted.len(),
{
    if wanted.len() == 0 {
        Seq::empty()
    } else {
        let before = differences(wanted.drop_last(), actual);
        let (key, value) = wanted.last();
        let current = json::lookup(actual, key);
        if agree(Some(value), current) {
            before
        } else {
            before.push(
                DifferenceModel { key, wanted: shown(Some(value)), actual: shown(current) },
            )
        }
    }
}

/// The models of differences.
pub open spec fn difference_models(list: Seq<Difference>) -> Seq<DifferenceModel> {
    list.map_values(|difference: Difference| difference@)
}

/// There are no differences if and only if every wanted property has the wanted value.
pub proof fn no_differences_means_agreement(
    wanted: Seq<(Seq<char>, json::Json)>,
    actual: Seq<(Seq<char>, json::Json)>,
)
    ensures
        differences(wanted, actual).len() == 0 <==> forall|i: int|
            0 <= i < wanted.len() ==> agree(
                Some((#[trigger] wanted[i]).1),
                json::lookup(actual, wanted[i].0),
            ),
    decreases wanted.len(),
{
    if wanted.len() > 0 {
        let rest = wanted.drop_last();
        no_differences_means_agreement(rest, actual);
        if differences(wanted, actual).len() == 0 {
            assert forall|i: int| 0 <= i < wanted.len() implies agree(
                Some((#[trigger] wanted[i]).1),
                json::lookup(actual, wanted[i].0),
            ) by {
                if i < wanted.len() - 1 {
                    assert(rest[i] == wanted[i]);
                }
            }
        } else if forall|i: int|
            0 <= i < wanted.len() ==> agree(
                Some((#[trigger] wanted[i]).1),
                json::lookup(actual, wanted[i].0),
            ) {
            assert forall|i: int| 0 <= i < rest.len() implies agree(
                Some((#[trigger] rest[i]).1),
                json::lookup(actual, rest[i].0),
            ) by {
                assert(rest[i] == wanted[i]);
            }
            assert(wanted[wanted.len() - 1] == wanted.last());
        }
    }
}

/// A configuration doesn't differ from itself.
pub proof fn configuration_agrees_with_itself(entries: Seq<(Seq<char>, json::Json)>)
    requires
        json::keys_increase(entries),
    ensures
        differences(entries, entries).len() == 0,
{
    assert forall|i: int| 0 <= i < entries.len() implies agree(
        Some((#[trigger] entries[i]).1),
        json::lookup(entries, entries[i].0),
    ) by {
        json::position_unique(entries, entries[i].0, i);
        json::same_reflexive(entries[i].1);
    }
    no_differences_means_agreement(entries, entries);
}

fn is_null(value: &JsonValue) -> (r: bool)
    ensures
        r == (value@ is Null),
{
    match value {
        JsonValue::Null => true,
        _ => false,
    }
}

fn show(value: Option<&JsonValue>) -> (r: String)
    ensures
        r@ == shown(
            match value {
                Some(v) => Some(v@),
                None => None,
            },
        ),
{
    match value {
        Some(v) => if is_null(v) {
            "default value".to_owned()
        } else {
            json::to_text(v)
        },
        None => "default value".to_owned(),
    }
}

/// See [`differences`].
pub fn find_differences(wanted: &Configuration, actual: &Configuration) -> (r: Vec<Difference>)
    ensures
        difference_models(r@) == differences(wanted@, actual@),
{
    let mut found: Vec<Difference> = Vec::new();
    let count: usize = wanted.len();
    proof {
        assert(wanted@.take(0) =~= Seq::empty());
        assert(difference_models(found@) =~= Seq::empty());
    }
    for i in 0..count
        invariant
            count == wanted@.len(),
            difference_models(found@) == differences(wanted@.take(i as int), actual@),
    {
        proof {
            assert(wanted@.take(i + 1).drop_last() =~= wanted@.take(i as int));
            assert(wanted@.take(i + 1).last() == wanted@[i as int]);
        }
        let key = wanted.key(i);
        let value = wanted.value(i);
        let current = actual.get(key.as_str());
        let same = match current {
            Some(other) => if is_null(value) || is_null(other) {
                is_null(value) && is_null(other)
            } else {
                *value == *other
            },
            None => is_null(value),
        };
        if !same {
            let difference = Difference {
                key: key.clone(),
                wanted: show(Some(value)),
                actual: show(current),
            };
            let ghost before = found@;
            let ghost seen = difference@;
            found.push(difference);
            proof {
                assert(difference_models(found@) =~= difference_models(before).push(seen));
            }
        }
    }
    proof {
        assert(wanted@.take(wanted@.len() as int) =~= wanted@);
    }
    found
}

/// A configuration with null for the properties of the current one that are to be cleared.
pub open spec fn with_resets<M: ConfigurationManagerInner>(
    wanted: Seq<(Seq<char>, json::Json)>,
    current: Seq<(Seq<char>, json::Json)>,
) -> Seq<(Seq<char>, json::Json)>
    decreases current.len(),
{
    if current.len() == 0 {
        wanted
    } else {
        let before = with_resets::<M>(wanted, current.drop_last());
        let key = current.last().0;
        if M::clears(key) && json::position(before, key) is None {
            json::inserted(before, key, json::Json::Null)
        } else {
            before
        }
    }
}

proof fn lemma_resets_ordered<M: ConfigurationManagerInner>(
    wanted: Seq<(Seq<char>, json::Json)>,
    current: Seq<(Seq<char>, json::Json)>,
)
    requires
        json::keys_increase(wanted),
    ensures
        json::keys_increase(with_resets::<M>(wanted, current)),
    decreases current.len(),
{
    if current.len() > 0 {
        lemma_resets_ordered::<M>(wanted, current.drop_last());
        json::inserted_keeps_order(
            with_resets::<M>(wanted, current.drop_last()),
            current.last().0,
            json::Json::Null,
        );
    }
}

/// What is wanted is kept. Properties that are currently set are reset if they aren't wanted and can
/// be cleared. No other property is added.
pub proof fn resets_clear_unwanted<M: ConfigurationManagerInner>(
    wanted: Seq<(Seq<char>, json::Json)>,
    current: Seq<(Seq<char>, json::Json)>,
    key: Seq<char>,
)
    requires
        json::keys_increase(wanted),
    ensures
        json::lookup(with_resets::<M>(wanted, current), key) == match json::lookup(wanted, key) {
            Some(value) => Some(value),
            None => if M::clears(key) && json::position(current, key) is Some {
                Some(json::Json::Null)
            } else {
                None
            },
        },
    decreases current.len(),
{
    if current.len() > 0 {
        let rest = current.drop_last();
        resets_clear_unwanted::<M>(wanted, rest, key);
        lemma_resets_ordered::<M>(wanted, rest);
        let before = with_resets::<M>(wanted, rest);
        json::inserted_is_found(before, current.last().0, json::Json::Null, key);
    }
}

/// Once a configuration has been applied there is nothing left to do: if the result has the wanted
/// values, and no further property that would be cleared, then planning to update it again doesn't
/// change anything.
pub proof fn applied_configuration_is_settled<M: ConfigurationManagerInner, P: ToplevelSchema>(
    schema: P,
    wanted: Seq<(Seq<char>, json::Json)>,
    current: Seq<(Seq<char>, json::Json)>,
    applied: Seq<(Seq<char>, json::Json)>,
    result: Seq<(Seq<char>, json::Json)>,
    path: Option<Seq<char>>,
)
    requires
        json::keys_increase(wanted),
        schema.outcome(json::Json::Object(with_resets::<M>(wanted, current)), path) == Ok::<
            json::Json,
            exposes::Failure,
        >(json::Json::Object(applied)),
        differences(applied, result).len() == 0,
        forall|i: int|
            0 <= i < result.len() && M::clears((#[trigger] result[i]).0) ==> json::position(
                applied,
                result[i].0,
            ) is Some,
    ensures
        schema.outcome(json::Json::Object(with_resets::<M>(wanted, result)), path) matches Ok(
            json::Json::Object(again),
        ) && differences(again, result).len() == 0,
{
    let whole = with_resets::<M>(wanted, current);
    let part = with_resets::<M>(wanted, result);
    schema.processes_object(json::Json::Object(whole), path);
    schema.processes_object(json::Json::Object(part), path);
    lemma_resets_ordered::<M>(wanted, current);
    lemma_resets_ordered::<M>(wanted, result);
    exposes::processing_keeps_keys(schema.properties(), whole, path);
    assert forall|i: int| 0 <= i < part.len() implies json::lookup(whole, (#[trigger] part[i]).0)
        == Some(part[i].1) by {
        let key = part[i].0;
        json::position_unique(part, key, i);
        resets_clear_unwanted::<M>(wanted, current, key);
        resets_clear_unwanted::<M>(wanted, result, key);
        if json::lookup(wanted, key) is None {
            json::position_finds(result, key);
            let at = json::position(result, key)->0;
            assert(M::clears(result[at].0));
            json::position_finds(applied, key);
            let k = json::position(applied, key)->0;
            assert(whole[k].0 == applied[k].0);
            json::position_unique(whole, key, k);
        }
    }
    exposes::properties_are_separate(schema.properties(), whole, part, path);
    let again = schema.outcome(json::Json::Object(part), path)->Ok_0->Object_0;
    no_differences_means_agreement(applied, result);
    assert forall|i: int| 0 <= i < again.len() implies agree(
        Some((#[trigger] again[i]).1),
        json::lookup(result, again[i].0),
    ) by {
        json::position_finds(applied, again[i].0);
        let k = json::position(applied, again[i].0)->0;
        assert(part[i].0 == again[i].0);
        assert(applied[k].0 == again[i].0 && applied[k].1 == again[i].1);
    }
    no_differences_means_agreement(again, result);
}

fn insert_resets<M: ConfigurationManagerInner>(
    configuration: &mut Configuration,
    current: &Configuration,
)
    ensures
        final(configuration)@ == with_resets::<M>(old(configuration)@, current@),
{
    let ghost start = configuration@;
    let count: usize = current.len();
    proof {
        assert(current@.take(0) =~= Seq::empty());
    }
    for i in 0..count
        invariant
            count == current@.len(),
            configuration@ == with_resets::<M>(start, current@.take(i as int)),
    {
        proof {
            assert(current@.take(i + 1).drop_last() =~= current@.take(i as int));
            assert(current@.take(i + 1).last() == current@[i as int]);
        }
        let key = current.key(i);
        if M::clear_property(key.as_str()) && configuration.find(key.as_str()).is_none() {
            configuration.insert(key.clone(), JsonValue::Null);
        }
    }
    proof {
        assert(current@.take(current@.len() as int) =~= current@);
    }
}

/// The note about a property that is going to be set.
pub open spec fn change_note(name: Seq<char>, difference: DifferenceModel) -> Seq<char> {
    "setting "@ + name + " "@ + difference.key + " to "@ + difference.wanted + " (previously "@
        + difference.actual + ")"@
}

/// The note about a property that doesn't have the value that it was set to.
pub open spec fn mismatch_note(name: Seq<char>, difference: DifferenceModel) -> Seq<char> {
    "unexpected result of setting "@ + name + " "@ + difference.key + ", expected "@
        + difference.wanted + " but got "@ + difference.actual
}

/// The events about properties that are going to be set.
pub open spec fn change_events(
    name: Seq<char>,
    list: Seq<DifferenceModel>,
    path: Option<Seq<char>>,
) -> Seq<event_manager::EventCoreModel> {
    list.map_values(
        |difference: DifferenceModel|
            event_manager::reconciling(
                change_note(name, difference),
                EventType::Normal,
                with_source::entry_path(path, difference.key),
            ),
    )
}

/// The events about properties that don't have the value that they were set to.
pub open spec fn mismatch_events(
    name: Seq<char>,
    list: Seq<DifferenceModel>,
    path: Option<Seq<char>>,
) -> Seq<event_manager::EventCoreModel> {
    list.map_values(
        |difference: DifferenceModel|
            event_manager::reconciling(
                mismatch_note(name, difference),
                EventType::Warning,
                with_source::entry_path(path, difference.key),
            ),
    )
}

/// The models of events.
pub open spec fn event_models(events: Seq<EventCore>) -> Seq<event_manager::EventCoreModel> {
    events.map_values(|event: EventCore| event@)
}

fn path_of_key(configuration: &ValueWithSource<Configuration>, key: &str) -> (r: Option<String>)
    ensures
        with_source::path_of(r) == with_source::entry_path(configuration.path(), key@),
{
    match configuration.source() {
        Some(source) => Some(source.clone().concat(".").concat(key)),
        None => None,
    }
}

fn report_changes(
    name: &str,
    list: &Vec<Difference>,
    configuration: &ValueWithSource<Configuration>,
) -> (r: Vec<EventCore>)
    ensures
        event_models(r@) == change_events(
            name@,
            difference_models(list@),
            configuration.path(),
        ),
{
    let mut events: Vec<EventCore> = Vec::new();
    let ghost expected = change_events(name@, difference_models(list@), configuration.path());
    for i in 0..list.len()
        invariant
            expected == change_events(name@, difference_models(list@), configuration.path()),
            events@.len() == i,
            forall|j: int| 0 <= j < i ==> (#[trigger] events@[j])@ == expected[j],
    {
        let difference = &list[i];
        let note = "setting ".to_owned().concat(name).concat(" ").concat(
            difference.key.as_str(),
        ).concat(" to ").concat(difference.wanted.as_str()).concat(" (previously ").concat(
            difference.actual.as_str(),
        ).concat(")");
        let path = path_of_key(configuration, difference.key.as_str());
        events.push(event_manager::reconciling_event(note, EventType::Normal, path));
    }
    proof {
        assert(event_models(events@) =~= expected);
    }
    events
}

fn report_mismatches(
    name: &str,
    list: &Vec<Difference>,
    configuration: &ValueWithSource<Configuration>,
) -> (r: Vec<EventCore>)
    ensures
        event_models(r@) == mismatch_events(
            name@,
            difference_models(list@),
            configuration.path(),
        ),
{
    let mut events: Vec<EventCore> = Vec::new();
    let ghost expected = mismatch_events(name@, difference_models(list@), configuration.path());
    for i in 0..list.len()
        invariant
            expected == mismatch_events(name@, difference_models(list@), configuration.path()),
            events@.len() == i,
            forall|j: int| 0 <= j < i ==> (#[trigger] events@[j])@ == expected[j],
    {
        let difference = &list[i];
        let note = "unexpected result of setting ".to_owned().concat(name).concat(" ").concat(
            difference.key.as_str(),
        ).concat(", expected ").concat(difference.wanted.as_str()).concat(" but got ").concat(
            difference.actual.as_str(),
        );
        let path = path_of_key(configuration, difference.key.as_str());
        events.push(event_manager::reconciling_event(note, EventType::Warning, path));
    }
    proof {
        assert(event_models(events@) =~= expected);
    }
    events
}

/// What is to be done to update a configuration.
#[derive(Debug)]
pub struct SyncPlan {
    /// The configuration to apply. If there are no events to publish it is applied already.
    pub configuration: ValueWithSource<Configuration>,
    /// The events to publish before the configuration is applied, one for each property that is
    /// going to change.
    pub events: Vec<EventCore>,
}

/// First part of updating a configuration: decide what is to be changed.
pub fn plan_sync<M: ConfigurationManagerInner, P: ToplevelSchema>(
    current: &Configuration,
    configuration: ValueWithSource<Configuration>,
    schema: &P,
) -> (r: Result<SyncPlan, ErrorWithMeta>)
    ensures
        ({
            let path = configuration.path();
            let wanted = with_resets::<M>(configuration.inner()@, current@);
            let processed = schema.outcome(json::Json::Object(wanted), path);
            match (r, processed) {
                (Ok(plan), Ok(json::Json::Object(entries))) => {
                    &&& plan.configuration.inner()@ == entries
                    &&& plan.configuration.path() == path
                    &&& event_models(plan.events@) == change_events(
                        M::category(),
                        differences(entries, current@),
                        path,
                    )
                },
                (Err(error), Err(failure)) => exposes::agrees(Err(error), Err(failure)),
                _ => false,
            }
        }),
{
    let (mut wanted, source) = configuration.split();
    insert_resets::<M>(&mut wanted, current);
    let value = JsonValue::Object(wanted);
    proof {
        schema.processes_object(value@, source.path());
        exposes::processing_keeps_keys(schema.properties(), wanted@, source.path());
    }
    match schema.process(source.with_value(value)) {
        Ok(JsonValue::Object(processed)) => {
            let configuration = source.with_value(processed);
            let list = find_differences(configuration.value(), current);
            let events = report_changes(M::name(), &list, &configuration);
            Ok(SyncPlan { configuration, events })
        },
        Ok(other) => {
            proof {
                assert(false);
            }
            Err(
                Error::ActionFailed(
                    "processing configuration yielded non-object".to_owned(),
                    None,
                ).caused_by(&source),
            )
        },
        Err(error) => Err(error),
    }
}

/// Second part of updating a configuration: verify that the result of applying it is what was wanted.
/// The events are to be published, whether this succeeds or not.
pub fn verify_sync<M: ConfigurationManagerInner>(
    configuration: &ValueWithSource<Configuration>,
    result: &Configuration,
) -> (r: (Result<(), ErrorWithMeta>, Vec<EventCore>))
    ensures
        ({
            let mismatches = differences(configuration.inner()@, result@);
            &&& event_models(r.1@) == mismatch_events(
                M::category(),
                mismatches,
                configuration.path(),
            )
            &&& r.0 is Ok <==> mismatches.len() == 0
            &&& r.0 matches Err(e) ==> e@ == (error::ErrorWithMetaModel {
                error: error::ErrorModel::InvalidResource {
                    field_path: ""@,
                    message: "failed to set at least one "@ + M::category(),
                },
                source: configuration.path(),
                published: true,
            })
        }),
{
    let list = find_differences(configuration.value(), result);
    let events = report_mismatches(M::name(), &list, configuration);
    proof {
        assert(difference_models(list@).len() == list@.len());
    }
    if list.len() == 0 {
        (Ok(()), events)
    } else {
        let message = "failed to set at least one ".to_owned().concat(M::name());
        let error = Error::InvalidResource { field_path: "".to_owned(), message };
        (Err(error.caused_by(configuration).mark_published()), events)
    }
}

} // verus!
