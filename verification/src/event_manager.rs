//! Kubernetes events that report what happened to a resource.

use vstd::prelude::*;

use crate::json;
use crate::json::JsonValue;
use crate::text;
use crate::with_source;

verus! {

/// A reference to a Kubernetes resource.
#[derive(Debug)]
pub struct ObjectReference {
    /// The API version of the resource.
    pub api_version: Option<String>,
    /// The part of the resource that is meant.
    pub field_path: Option<String>,
    /// The kind of the resource.
    pub kind: Option<String>,
    /// The name of the resource.
    pub name: Option<String>,
    /// The namespace of the resource.
    pub namespace: Option<String>,
    /// The version of the resource.
    pub resource_version: Option<String>,
    /// The unique identifier of the resource.
    pub uid: Option<String>,
}

impl Clone for ObjectReference {
    fn clone(&self) -> (r: Self)
        ensures
            r == *self,
    {
        ObjectReference {
            api_version: self.api_version.clone(),
            field_path: self.field_path.clone(),
            kind: self.kind.clone(),
            name: self.name.clone(),
            namespace: self.namespace.clone(),
            resource_version: self.resource_version.clone(),
            uid: self.uid.clone(),
        }
    }
}

/// The type of an event.
#[derive(Clone, Copy, Debug, PartialEq, Eq, Hash, Structural)]
pub enum EventType {
    /// Something went as expected.
    Normal,
    /// Something went wrong.
    Warning,
}

impl Default for EventType {
    fn default() -> (r: Self)
        ensures
            r == EventType::Normal,
    {
        EventType::Normal
    }
}

/// The name of a type of event.
pub open spec fn event_type_text(type_: EventType) -> Seq<char> {
    match type_ {
        EventType::Normal => "Normal"@,
        EventType::Warning => "Warning"@,
    }
}

impl EventType {
    /// The name of this type.
    pub fn name(self) -> (r: String)
        ensures
            r@ == event_type_text(self),
    {
        match self {
            EventType::Normal => "Normal".to_owned(),
            EventType::Warning => "Warning".to_owned(),
        }
    }
}

/// Subset of a k8s event containing only the fields that a state change is expected to provide.
#[derive(Debug)]
pub struct EventCore {
    /// What action was taken/failed. Machine-readable, at most 128 characters.
    pub action: String,
    /// Description of the status of this operation. human-readable, at most 1kB, optional.
    pub note: Option<String>,
    /// Why the action was taken. Human-readable, at most 128 characters.
    /// It looks like this is usually a single PascalCase word.
    pub reason: String,
    /// The type of this event.
    pub type_: EventType,
    /// As [`ObjectReference::field_path`].
    pub field_path: Option<String>,
}

/// The model of an [`EventCore`].
#[verifier::ext_equal]
pub struct EventCoreModel {
    /// See [`EventCore::action`].
    pub action: Seq<char>,
    /// See [`EventCore::note`].
    pub note: Option<Seq<char>>,
    /// See [`EventCore::reason`].
    pub reason: Seq<char>,
    /// See [`EventCore::type_`].
    pub type_: EventType,
    /// See [`EventCore::field_path`].
    pub field_path: Option<Seq<char>>,
}

impl View for EventCore {
    type V = EventCoreModel;

    open spec fn view(&self) -> EventCoreModel {
        EventCoreModel {
            action: self.action@,
            note: with_source::path_of(self.note),
            reason: self.reason@,
            type_: self.type_,
            field_path: with_source::path_of(self.field_path),
        }
    }
}

impl Clone for EventCore {
    fn clone(&self) -> (r: Self)
        ensures
            r == *self,
    {
        EventCore {
            action: self.action.clone(),
            note: self.note.clone(),
            reason: self.reason.clone(),
            type_: self.type_,
            field_path: self.field_path.clone(),
        }
    }
}

impl Default for EventCore {
    fn default() -> (r: Self)
        ensures
            r@ == (EventCoreModel {
                action: Seq::empty(),
                note: None,
                reason: Seq::empty(),
                type_: EventType::Normal,
                field_path: None,
            }),
    {
        EventCore {
            action: String::new(),
            note: None,
            reason: String::new(),
            type_: EventType::default(),
            field_path: None,
        }
    }
}

fn same_optional(a: &Option<String>, b: &Option<String>) -> (r: bool)
    ensures
        r == (with_source::path_of(*a) == with_source::path_of(*b)),
{
    match (a, b) {
        (Some(x), Some(y)) => text::same_text(x.as_str(), y.as_str()),
        (None, None) => true,
        _ => false,
    }
}

impl PartialEq for EventCore {
    fn eq(&self, other: &Self) -> (r: bool) {
        text::same_text(self.action.as_str(), other.action.as_str()) && same_optional(
            &self.note,
            &other.note,
        ) && text::same_text(self.reason.as_str(), other.reason.as_str()) && self.type_
            == other.type_ && same_optional(&self.field_path, &other.field_path)
    }
}

impl vstd::std_specs::cmp::PartialEqSpecImpl for EventCore {
    open spec fn obeys_eq_spec() -> bool {
        true
    }

    open spec fn eq_spec(&self, other: &Self) -> bool {
        self@ == other@
    }
}

/// The event of a reconciliation.
pub open spec fn reconciling(
    note: Seq<char>,
    type_: EventType,
    field_path: Option<Seq<char>>,
) -> EventCoreModel {
    EventCoreModel {
        action: "Reconciling"@,
        note: Some(note),
        reason: "Created"@,
        type_,
        field_path,
    }
}

/// Create the event of a reconciliation.
pub fn reconciling_event(note: String, type_: EventType, field_path: Option<String>) -> (r:
    EventCore)
    ensures
        r@ == reconciling(note@, type_, with_source::path_of(field_path)),
{
    EventCore {
        action: "Reconciling".to_owned(),
        note: Some(note),
        reason: "Created".to_owned(),
        type_,
        field_path,
    }
}

/// A moment in time, in microseconds since the start of 1970.
#[derive(Clone, Copy, Debug, PartialEq, Eq, Structural)]
pub struct MicroTime(pub i64);

/// Repetitions of an event.
#[derive(Clone, Copy, Debug, PartialEq, Eq, Structural)]
pub struct EventSeries {
    /// How often the event has happened.
    pub count: i32,
    /// When the event was last seen.
    pub last_observed_time: MicroTime,
}

/// A Kubernetes event. Fields that are never set are left out.
#[derive(Debug)]
pub struct Event {
    /// The name of the event.
    pub name: String,
    /// The namespace of the event.
    pub namespace: Option<String>,
    /// See [`EventCore::action`].
    pub action: String,
    /// When the event was first seen.
    pub event_time: MicroTime,
    /// See [`EventCore::note`].
    pub note: Option<String>,
    /// See [`EventCore::reason`].
    pub reason: String,
    /// The resource that the event is about.
    pub regarding: ObjectReference,
    /// The name of the controller that reports the event.
    pub reporting_controller: String,
    /// The name of the instance that reports the event.
    pub reporting_instance: String,
    /// Repetitions of the event.
    pub series: Option<EventSeries>,
    /// The name of the type of the event.
    pub type_: String,
}

/// The lower-case version of a text.
pub uninterp spec fn lowercase(s: Seq<char>) -> Seq<char>;

/// `str::to_lowercase`, whose result is named [`lowercase`].
#[verifier::external_body]
fn lowercase_text(s: &str) -> (r: String)
    ensures
        r@ == lowercase(s@),
{
    s.to_lowercase()
}

/// The 64-bit `MetroHash` of a text.
pub uninterp spec fn metro_hash(s: Seq<char>) -> u64;

/// `fasthash::metro::hash64` of the UTF-8 encoding of a text, which is named [`metro_hash`]. Which of
/// the 64-bit variants of the algorithm that is was decided when `fasthash` was built.
#[verifier::external_body]
fn hash_text(s: &str) -> (r: u64)
    ensures
        r == metro_hash(s@),
{
    fasthash::metro::hash64(s)
}

/// The value for a text that may be missing.
pub open spec fn optional_text(s: Option<String>) -> json::Json {
    match s {
        Some(s) => json::Json::Text(s@),
        None => json::Json::Null,
    }
}

/// What identifies an event: two events about the same resource that say the same have the same
/// identity.
pub open spec fn event_identity(regarding: ObjectReference, core: EventCore) -> json::Json {
    json::Json::Array(
        seq![
            optional_text(regarding.api_version),
            optional_text(regarding.kind),
            optional_text(regarding.namespace),
            optional_text(regarding.name),
            json::Json::Text(core.action@),
            optional_text(core.note),
            json::Json::Text(core.reason@),
            json::Json::Text(event_type_text(core.type_)),
        ],
    )
}

fn optional_value(s: &Option<String>) -> (r: JsonValue)
    ensures
        r@ == optional_text(*s),
{
    match s {
        Some(s) => JsonValue::Text(s.clone()),
        None => JsonValue::Null,
    }
}

/// See [`event_identity`].
pub fn identify_event(regarding: &ObjectReference, core: &EventCore) -> (r: JsonValue)
    ensures
        r@ == event_identity(*regarding, *core),
{
    let mut parts: Vec<JsonValue> = Vec::new();
    parts.push(optional_value(&regarding.api_version));
    parts.push(optional_value(&regarding.kind));
    parts.push(optional_value(&regarding.namespace));
    parts.push(optional_value(&regarding.name));
    parts.push(JsonValue::Text(core.action.clone()));
    parts.push(optional_value(&core.note));
    parts.push(JsonValue::Text(core.reason.clone()));
    parts.push(JsonValue::Text(core.type_.name()));
    let r = JsonValue::Array(parts);
    proof {
        assert(r@->Array_0.len() == 8);
        assert(forall|i: int| 0 <= i < 8 ==> #[trigger] r@->Array_0[i] == parts@[i]@);
        assert(r@->Array_0 =~= event_identity(*regarding, *core)->Array_0);
    }
    r
}

/// The name of the event with the given hash about a resource of the given kind.
pub open spec fn event_name(kind: Seq<char>, hash: u64) -> Seq<char> {
    "zigbee2mqtt-"@ + kind + "-"@ + text::decimal(hash as nat)
}

/// See [`event_name`].
pub fn name_event(kind: &str, hash: u64) -> (r: String)
    ensures
        r@ == event_name(kind@, hash),
{
    "zigbee2mqtt-".to_owned().concat(kind).concat("-").concat(text::decimal_text(hash).as_str())
}

impl Event {
    /// Create an event with the given name.
    pub fn named(
        name: String,
        regarding: ObjectReference,
        core: EventCore,
        now: MicroTime,
        instance: &str,
    ) -> (r: Event)
        ensures
            r.name == name,
            r.namespace == regarding.namespace,
            r.action == core.action,
            r.event_time == now,
            r.note == core.note,
            r.reason == core.reason,
            r.regarding == (ObjectReference { field_path: core.field_path, ..regarding }),
            r.reporting_controller@ == "zigbee2mqtt-operator"@,
            r.reporting_instance@ == instance@,
            r.series is None,
            r.type_@ == event_type_text(core.type_),
    {
        let type_ = core.type_.name();
        let namespace = regarding.namespace.clone();
        Event {
            name,
            namespace,
            action: core.action,
            event_time: now,
            note: core.note,
            reason: core.reason,
            regarding: ObjectReference { field_path: core.field_path, ..regarding },
            reporting_controller: "zigbee2mqtt-operator".to_owned(),
            reporting_instance: instance.to_owned(),
            series: None,
            type_,
        }
    }
}

/// Extra functionality for events.
pub trait EventExt: Sized {
    /// Create an event about a resource. The kind of the resource must be known.
    fn create(
        regarding: ObjectReference,
        core: EventCore,
        now: MicroTime,
        instance: &str,
    ) -> (r: Self)
        requires
            regarding.kind is Some,
    ;
}

impl EventExt for Event {
    fn create(
        regarding: ObjectReference,
        core: EventCore,
        now: MicroTime,
        instance: &str,
    ) -> (r: Self)
        ensures
            r.name@ == event_name(
                lowercase(regarding.kind->0@),
                metro_hash(json::compact(event_identity(regarding, core))),
            ),
            r.namespace == regarding.namespace,
            r.action == core.action,
            r.event_time == now,
            r.note == core.note,
            r.reason == core.reason,
            r.regarding == (ObjectReference { field_path: core.field_path, ..regarding }),
            r.reporting_controller@ == "zigbee2mqtt-operator"@,
            r.reporting_instance@ == instance@,
            r.series is None,
            r.type_@ == event_type_text(core.type_),
    {
        let identity = json::to_text(&identify_event(&regarding, &core));
        let hash: u64 = hash_text(identity.as_str());
        let kind = match &regarding.kind {
            Some(kind) => lowercase_text(kind.as_str()),
            None => String::new(),
        };
        Event::named(name_event(kind.as_str(), hash), regarding, core, now, instance)
    }
}

/// The series of an event after it has happened once more.
pub open spec fn repeated(series: Option<EventSeries>, now: MicroTime) -> EventSeries {
    EventSeries {
        count: match series {
            Some(s) => (s.count + 1) as i32,
            None => 2,
        },
        last_observed_time: now,
    }
}

/// Count an event that exists already once more.
pub fn repeat_event(series: Option<EventSeries>, now: MicroTime) -> (r: EventSeries)
    requires
        series matches Some(s) ==> s.count < i32::MAX,
    ensures
        r == repeated(series, now),
{
    match series {
        Some(s) => EventSeries { count: s.count + 1, last_observed_time: now },
        None => EventSeries { count: 2, last_observed_time: now },
    }
}

/// What to do with an event that is to be published.
#[derive(Debug)]
pub enum Publication {
    /// The event is new.
    Create(Event),
    /// The event exists already, and gets a new series.
    Update(EventSeries),
}

/// Publishes events about one resource.
#[derive(Debug)]
pub struct EventManager {
    id: String,
    regarding: ObjectReference,
}

impl EventManager {
    #[verifier::type_invariant]
    spec fn has_kind(self) -> bool {
        self.regarding.kind is Some
    }

    /// The resource that the events are about.
    pub closed spec fn resource(self) -> ObjectReference {
        self.regarding
    }

    /// The identifier of the resource.
    pub closed spec fn identifier(self) -> Seq<char> {
        self.id@
    }

    /// Create a manager for events about the given resource.
    pub fn new(id: String, regarding: ObjectReference) -> (r: Self)
        requires
            regarding.kind is Some,
        ensures
            r.resource() == regarding,
            r.identifier() == id@,
    {
        EventManager { id, regarding }
    }

    /// The identifier of the resource.
    pub fn id(&self) -> (r: &str)
        ensures
            r@ == self.identifier(),
    {
        self.id.as_str()
    }

    /// The event to publish. An event with its name may exist already, see
    /// [`EventManager::publish_nolog`].
    pub fn publish(&self, core: EventCore, now: MicroTime, instance: &str) -> (r: Event)
        ensures
            self.resource().kind matches Some(kind) && r.name@ == event_name(
                lowercase(kind@),
                metro_hash(json::compact(event_identity(self.resource(), core))),
            ),
            r.namespace == self.resource().namespace,
            r.action == core.action,
            r.event_time == now,
            r.note == core.note,
            r.reason == core.reason,
            r.regarding == (ObjectReference { field_path: core.field_path, ..self.resource() }),
            r.reporting_controller@ == "zigbee2mqtt-operator"@,
            r.reporting_instance@ == instance@,
            r.series is None,
            r.type_@ == event_type_text(core.type_),
    {
        proof {
            use_type_invariant(self);
        }
        Event::create(self.regarding.clone(), core, now, instance)
    }

    /// Decide what to do with an event, given the series of the event that has its name, if there is
    /// such an event.
    pub fn publish_nolog(new_event: Event, existing: Option<Option<EventSeries>>) -> (r:
        Publication)
        requires
            existing matches Some(Some(series)) ==> series.count < i32::MAX,
        ensures
            match existing {
                Some(series) => r == Publication::Update(repeated(series, new_event.event_time)),
                None => r == Publication::Create(new_event),
            },
    {
        match existing {
            Some(series) => Publication::Update(repeat_event(series, new_event.event_time)),
            None => Publication::Create(new_event),
        }
    }
}

/// The series of an event that has been published at the given times.
pub open spec fn series_after(times: Seq<MicroTime>) -> Option<EventSeries>
    decreases times.len(),
{
    if times.len() <= 1 {
        None
    } else {
        Some(repeated(series_after(times.drop_last()), times.last()))
    }
}

/// An event that is published repeatedly counts how often this was done, and keeps the time at which
/// it was last done.
pub proof fn publications_are_counted(times: Seq<MicroTime>)
    requires
        2 <= times.len() <= i32::MAX,
    ensures
        series_after(times) == Some(
            EventSeries { count: times.len() as i32, last_observed_time: times.last() },
        ),
    decreases times.len(),
{
    if times.len() > 2 {
        publications_are_counted(times.drop_last());
    } else {
        assert(series_after(times.drop_last()) is None);
    }
}

/// What decides the name of an event is the resource that it is about and what it says: the part of
/// the resource that is meant has no influence, nor has the time.
pub proof fn event_name_ignores_field_path(
    regarding: ObjectReference,
    core: EventCore,
    path: Option<String>,
    other: Option<String>,
)
    ensures
        event_identity(ObjectReference { field_path: path, ..regarding }, core) == event_identity(
            regarding,
            EventCore { field_path: other, ..core },
        ),
{
}

} // verus!
