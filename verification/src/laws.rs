//! What holds of errors, of events, and of the names and paths in them.

use vstd::prelude::*;
use vstd::std_specs::cmp::*;

use crate::crds;
use crate::crds::{
    Device, DeviceStatus, Group, GroupStatus, InstanceStatus, Instanced, SecretKeyRef,
};
use crate::error;
use crate::error::{Error, ErrorModel};
use crate::event_manager;
use crate::event_manager::{EventCore, EventSeries, EventType, MicroTime, ObjectReference};
use crate::ext;
use crate::ext::{ResourceLocalExt, ResourceName};
use crate::json;
use crate::mqtt::subscription;
use crate::status_manager::StatusManager;
use crate::text;
use crate::with_source;
use crate::ObjectReferenceLocalExt;

verus! {

/// The message of an error tells what kind of error it is and what its own message is. Where the error
/// is about a path or a topic it names that too, and a cause that is known comes at the end, except for
/// actions that failed.
pub proof fn messages_tell_what_happened(error: Error)
    ensures
        match error {
            Error::FinalizerError(e) => error::message_of(error@) == "Finalizer error: "@
                + e.display@,
            Error::InvalidResource { field_path, message } => error::message_of(error@)
                == "Invalid resource at "@ + field_path@ + ": "@ + message@,
            Error::MQTTError(message, Some(e)) => error::message_of(error@) == "MQTT error: "@
                + message@ + ": "@ + e.debug@,
            Error::MQTTError(message, None) => error::message_of(error@) == "MQTT error: "@
                + message@,
            Error::Zigbee2MQTTError(message) => error::message_of(error@) == "Zigbee2MQTT error: "@
                + message@,
            Error::SubscriptionError { topic, message, source: Some(e) } => error::message_of(
                error@,
            ) == "Subscription error on topic "@ + topic@ + ": "@ + message@ + ": "@ + e.debug@,
            Error::SubscriptionError { topic, message, source: None } => error::message_of(error@)
                == "Subscription error on topic "@ + topic@ + ": "@ + message@,
            Error::ManagerShutDown(Some(e)) => error::message_of(error@)
                == "Manager has been shut down"@ + ": "@ + error::description(e@),
            Error::ManagerShutDown(None) => error::message_of(error@)
                == "Manager has been shut down"@,
            Error::InvariantFailed(message, Some(e)) => error::message_of(error@)
                == "Invariant failed: "@ + message@ + ": "@ + error::description(e@),
            Error::InvariantFailed(message, None) => error::message_of(error@)
                == "Invariant failed: "@ + message@,
            Error::ActionFailed(message, _) => error::message_of(error@) == "Action failed: "@
                + message@,
        },
{
    reveal_strlit("");
    reveal_with_fuel(error::error_model, 2);
    reveal_with_fuel(error::optional_model, 2);
    let expected = error::message_of(error@);
    match error {
        Error::MQTTError(message, Some(e)) => {
            assert(expected =~= "MQTT error: "@ + message@ + ": "@ + e.debug@);
        },
        Error::SubscriptionError { topic, message, source: Some(e) } => {
            assert(expected =~= "Subscription error on topic "@ + topic@ + ": "@ + message@ + ": "@
                + e.debug@);
        },
        Error::ManagerShutDown(Some(e)) => {
            assert(expected =~= "Manager has been shut down"@ + ": "@ + error::description(e@));
        },
        Error::InvariantFailed(message, Some(e)) => {
            assert(expected =~= "Invariant failed: "@ + message@ + ": "@ + error::description(e@));
        },
        _ => {},
    }
}

/// The technical description of an error starts with its kind and has all of its parts, also those of
/// an error inside of it.
pub proof fn descriptions_are_complete(error: Error)
    ensures
        match error {
            Error::FinalizerError(e) => error::description(error@) == "FinalizerError("@ + e.debug@
                + ")"@,
            Error::InvalidResource { field_path, message } => error::description(error@)
                == "InvalidResource { field_path: "@ + error::described(field_path@)
                + ", message: "@ + error::described(message@) + " }"@,
            Error::MQTTError(message, Some(e)) => error::description(error@) == "MQTTError("@
                + error::described(message@) + ", "@ + "Some("@ + e.debug@ + ")"@ + ")"@,
            Error::MQTTError(message, None) => error::description(error@) == "MQTTError("@
                + error::described(message@) + ", "@ + "None"@ + ")"@,
            Error::Zigbee2MQTTError(message) => error::description(error@) == "Zigbee2MQTTError("@
                + error::described(message@) + ")"@,
            Error::SubscriptionError { topic, message, source: Some(e) } => error::description(
                error@,
            ) == "SubscriptionError { topic: "@ + error::described(topic@) + ", message: "@
                + error::described(message@) + ", source: "@ + "Some("@ + e.debug@ + ")"@ + " }"@,
            Error::SubscriptionError { topic, message, source: None } => error::description(error@)
                == "SubscriptionError { topic: "@ + error::described(topic@) + ", message: "@
                + error::described(message@) + ", source: "@ + "None"@ + " }"@,
            Error::ManagerShutDown(Some(e)) => error::description(error@) == "ManagerShutDown("@
                + "Some("@ + error::description(e@) + ")"@ + ")"@,
            Error::ManagerShutDown(None) => error::description(error@) == "ManagerShutDown("@
                + "None"@ + ")"@,
            Error::InvariantFailed(message, Some(e)) => error::description(error@)
                == "InvariantFailed("@ + error::described(message@) + ", "@ + "Some("@
                + error::description(e@) + ")"@ + ")"@,
            Error::InvariantFailed(message, None) => error::description(error@)
                == "InvariantFailed("@ + error::described(message@) + ", "@ + "None"@ + ")"@,
            Error::ActionFailed(message, Some(e)) => error::description(error@) == "ActionFailed("@
                + error::described(message@) + ", "@ + "Some("@ + e.debug@ + ")"@ + ")"@,
            Error::ActionFailed(message, None) => error::description(error@) == "ActionFailed("@
                + error::described(message@) + ", "@ + "None"@ + ")"@,
        },
{
    reveal_with_fuel(error::error_model, 3);
    reveal_with_fuel(error::optional_model, 3);
    reveal_with_fuel(error::description, 3);
    reveal_with_fuel(error::optional_description, 3);
    match error {
        Error::ManagerShutDown(Some(e)) => {
            assert(error::optional_model(Some(e)) == Some(Box::new(e@)));
        },
        Error::InvariantFailed(message, Some(e)) => {
            assert(error::optional_model(Some(e)) == Some(Box::new(e@)));
        },
        _ => {},
    }
}

/// The model of an error leaves nothing out.
pub proof fn errors_are_modelled_in_full(error: Error)
    ensures
        match error {
            Error::FinalizerError(e) => error@ == ErrorModel::FinalizerError(e@) && e@.display
                == e.display@ && e@.debug == e.debug@,
            Error::InvalidResource { field_path, message } => error@ == (
            ErrorModel::InvalidResource { field_path: field_path@, message: message@ }),
            Error::MQTTError(message, Some(e)) => error@ == ErrorModel::MQTTError(
                message@,
                Some(e@),
            ),
            Error::MQTTError(message, None) => error@ == ErrorModel::MQTTError(message@, None),
            Error::Zigbee2MQTTError(message) => error@ == ErrorModel::Zigbee2MQTTError(message@),
            Error::SubscriptionError { topic, message, source: Some(e) } => error@ == (
            ErrorModel::SubscriptionError {
                topic: topic@,
                message: message@,
                source: Some(e@),
            }),
            Error::SubscriptionError { topic, message, source: None } => error@ == (
            ErrorModel::SubscriptionError { topic: topic@, message: message@, source: None }),
            Error::ManagerShutDown(Some(e)) => error@ == ErrorModel::ManagerShutDown(
                Some(Box::new(e@)),
            ),
            Error::ManagerShutDown(None) => error@ == ErrorModel::ManagerShutDown(None),
            Error::InvariantFailed(message, Some(e)) => error@ == ErrorModel::InvariantFailed(
                message@,
                Some(Box::new(e@)),
            ),
            Error::InvariantFailed(message, None) => error@ == ErrorModel::InvariantFailed(
                message@,
                None,
            ),
            Error::ActionFailed(message, Some(e)) => error@ == ErrorModel::ActionFailed(
                message@,
                Some(e@),
            ),
            Error::ActionFailed(message, None) => error@ == ErrorModel::ActionFailed(
                message@,
                None,
            ),
        },
{
    reveal_with_fuel(error::error_model, 2);
    reveal_with_fuel(error::optional_model, 2);
}

/// Only the path of an error is changed when it is moved below another path, and only of an error that
/// has one: the other path comes before it. Moving it twice is the same as moving it below both paths.
/// The event is published at the path of the error, or else at the other one.
pub proof fn errors_are_moved_below_paths(error: ErrorModel, path: Seq<char>, outer: Seq<char>)
    ensures
        ({
            let moved = error::relocated(error, path);
            &&& error is InvalidResource <==> moved is InvalidResource
            &&& error is InvalidResource ==> moved->InvalidResource_message
                == error->InvalidResource_message && moved->field_path == path + error->field_path
                && error::event_path(error, path) == moved->field_path
            &&& !(error is InvalidResource) ==> moved == error && error::event_path(error, path)
                == path
            &&& error::relocated(moved, outer) == error::relocated(error, outer + path)
        }),
{
    if error is InvalidResource {
        assert(outer + (path + error->field_path) =~= outer + path + error->field_path);
    }
}

/// What an event says is compared in full.
pub proof fn events_are_compared_in_full(a: EventCore, b: EventCore)
    ensures
        PartialEqSpec::eq_spec(&a, &b) <==> {
            &&& a.action@ == b.action@
            &&& a.reason@ == b.reason@
            &&& a.type_ == b.type_
            &&& a.note is Some <==> b.note is Some
            &&& a.note is Some ==> a.note->0@ == b.note->0@
            &&& a.field_path is Some <==> b.field_path is Some
            &&& a.field_path is Some ==> a.field_path->0@ == b.field_path->0@
        },
{
}

/// The event about a reconciliation has the note, the type and the path that it is made from, and is
/// always about a reconciliation.
pub proof fn reconciliations_are_reported(
    note: Seq<char>,
    type_: EventType,
    field_path: Option<Seq<char>>,
)
    ensures
        ({
            let event = event_manager::reconciling(note, type_, field_path);
            &&& event.note == Some(note)
            &&& event.type_ == type_
            &&& event.field_path == field_path
            &&& event.action == "Reconciling"@
            &&& event.reason == "Created"@
        }),
{
}

proof fn lemma_types(a: EventType, b: EventType)
    ensures
        event_manager::event_type_text(a) == event_manager::event_type_text(b) <==> a == b,
{
    reveal_strlit("Normal");
    reveal_strlit("Warning");
    assert("Normal"@.len() == 6);
    assert("Warning"@.len() == 7);
}

/// The types of events have the names that Kubernetes knows.
pub proof fn event_types_have_names(type_: EventType)
    ensures
        event_manager::event_type_text(type_) == "Warning"@ <==> type_ == EventType::Warning,
        event_manager::event_type_text(type_) == "Normal"@ <==> type_ == EventType::Normal,
{
    lemma_types(type_, EventType::Warning);
    lemma_types(type_, EventType::Normal);
}

proof fn lemma_optional(a: Option<String>, b: Option<String>)
    ensures
        event_manager::optional_text(a) == event_manager::optional_text(b) <==> (a is Some <==> b
            is Some) && (a is Some ==> a->0@ == b->0@),
{
}

/// Two events have the same identity if and only if they are about the same resource and say the same.
/// The kind, the version, the namespace and the name make the resource, and neither the part of it that
/// is meant nor its revision matters.
pub proof fn events_are_identified(
    regarding: ObjectReference,
    core: EventCore,
    other_regarding: ObjectReference,
    other: EventCore,
)
    ensures
        event_manager::event_identity(regarding, core) == event_manager::event_identity(
            other_regarding,
            other,
        ) <==> {
            let r = regarding;
            let o = other_regarding;
            &&& (r.api_version is Some <==> o.api_version is Some) && (r.api_version is Some
                ==> r.api_version->0@ == o.api_version->0@)
            &&& (r.kind is Some <==> o.kind is Some) && (r.kind is Some ==> r.kind->0@
                == o.kind->0@)
            &&& (r.namespace is Some <==> o.namespace is Some) && (r.namespace is Some
                ==> r.namespace->0@ == o.namespace->0@)
            &&& (r.name is Some <==> o.name is Some) && (r.name is Some ==> r.name->0@
                == o.name->0@)
            &&& (core.note is Some <==> other.note is Some) && (core.note is Some
                ==> core.note->0@ == other.note->0@)
            &&& core.action@ == other.action@
            &&& core.reason@ == other.reason@
            &&& core.type_ == other.type_
        },
{
    let a = event_manager::event_identity(regarding, core)->Array_0;
    let b = event_manager::event_identity(other_regarding, other)->Array_0;
    lemma_types(core.type_, other.type_);
    lemma_optional(regarding.api_version, other_regarding.api_version);
    lemma_optional(regarding.kind, other_regarding.kind);
    lemma_optional(regarding.namespace, other_regarding.namespace);
    lemma_optional(regarding.name, other_regarding.name);
    lemma_optional(core.note, other.note);
    if a == b {
        assert(a[0] == b[0] && a[1] == b[1] && a[2] == b[2] && a[3] == b[3]);
        assert(a[4] == b[4] && a[5] == b[5] && a[6] == b[6] && a[7] == b[7]);
    }
}

/// A text that may be missing is the text if it is there, and null otherwise.
pub proof fn missing_texts_are_null(s: Option<String>)
    ensures
        s is None ==> event_manager::optional_text(s) == json::Json::Null,
        s is Some ==> event_manager::optional_text(s) == json::Json::Text(s->0@),
{
}

/// Events about resources of one kind have the same name if and only if they have the same hash. The
/// name starts with the kind.
pub proof fn event_names_follow_hashes(kind: Seq<char>, hash: u64, other: u64)
    ensures
        event_manager::event_name(kind, hash) == event_manager::event_name(kind, other) <==> hash
            == other,
        ("zigbee2mqtt-"@ + kind + "-"@).is_prefix_of(event_manager::event_name(kind, hash)),
        text::parsed(
            event_manager::event_name(kind, hash).skip(
                ("zigbee2mqtt-"@ + kind + "-"@).len() as int,
            ),
        ) == Some(hash),
{
    let start = "zigbee2mqtt-"@ + kind + "-"@;
    text::notation_is_read_back(hash);
    text::notation_is_read_back(other);
    assert(event_manager::event_name(kind, hash).skip(start.len() as int) =~= text::decimal(
        hash as nat,
    ));
    assert(event_manager::event_name(kind, other).skip(start.len() as int) =~= text::decimal(
        other as nat,
    ));
    assert(event_manager::event_name(kind, hash).take(start.len() as int) =~= start);
}

/// An event that happens again has happened once more than before, now. An event without repetitions
/// has happened once before.
pub proof fn repetitions_are_counted(series: Option<EventSeries>, now: MicroTime)
    requires
        series matches Some(s) ==> s.count < i32::MAX,
    ensures
        event_manager::repeated(series, now).last_observed_time == now,
        event_manager::repeated(series, now).count == 1 + match series {
            Some(s) => s.count as int,
            None => 1,
        },
{
}

/// The name of a resource tells what it is: with namespaces that have no slash, two resources have the
/// same full name if and only if they are in the same namespace and have the same name. Without a
/// namespace the full name is the name.
pub proof fn full_names_are_unique(
    namespace: Seq<char>,
    name: Seq<char>,
    other_namespace: Seq<char>,
    other: Seq<char>,
)
    requires
        !namespace.contains('/'),
        !other_namespace.contains('/'),
    ensures
        ext::full_name(Some(namespace), name) == ext::full_name(Some(other_namespace), other)
            <==> namespace == other_namespace && name == other,
        ext::full_name(None, name) == name,
        ext::full_name(Some(namespace), name) == namespace + seq!['/'] + name,
{
    reveal_strlit("/");
    assert("/"@ =~= seq!['/']);
    let a = ext::full_name(Some(namespace), name);
    let b = ext::full_name(Some(other_namespace), other);
    let n = namespace.len() as int;
    let m = other_namespace.len() as int;
    if a == b {
        assert(a[n] == '/');
        assert(b[m] == '/');
        if n < m {
            assert(b[n] == other_namespace[n]);
        }
        if m < n {
            assert(a[m] == namespace[m]);
        }
        assert(a.take(n) =~= namespace);
        assert(b.take(m) =~= other_namespace);
        assert(a.skip(n + 1) =~= name);
        assert(b.skip(m + 1) =~= other);
    }
}

/// What a resource is called has the parts that it was given.
pub proof fn names_have_their_parts(resource: ResourceName, reference: ObjectReference)
    ensures
        resource.parts().0 == resource.api_version@,
        resource.parts().1 == resource.kind@,
        resource.parts().2 is Some <==> resource.namespace is Some,
        resource.namespace is Some ==> resource.parts().2 == Some(resource.namespace->0@),
        resource.parts().3 == resource.name@,
        reference.parts().0 is Some <==> reference.api_version is Some,
        reference.api_version is Some ==> reference.parts().0 == Some(reference.api_version->0@),
        reference.parts().1 is Some <==> reference.kind is Some,
        reference.kind is Some ==> reference.parts().1 == Some(reference.kind->0@),
        reference.parts().2 is Some <==> reference.namespace is Some,
        reference.namespace is Some ==> reference.parts().2 == Some(reference.namespace->0@),
        reference.parts().3 is Some <==> reference.name is Some,
        reference.name is Some ==> reference.parts().3 == Some(reference.name->0@),
{
}

/// The path of a part is known if and only if that of the whole is, and starts with it. Different items
/// of a list and different entries of a map have different paths.
pub proof fn parts_have_their_own_paths(
    path: Option<Seq<char>>,
    i: u64,
    j: u64,
    key: Seq<char>,
    other: Seq<char>,
)
    ensures
        with_source::item_path(path, i as nat) is Some <==> path is Some,
        with_source::entry_path(path, key) is Some <==> path is Some,
        with_source::extended(path, key) is Some <==> path is Some,
        path is Some ==> {
            &&& with_source::item_path(path, i as nat) == with_source::item_path(path, j as nat)
                <==> i == j
            &&& with_source::entry_path(path, key) == with_source::entry_path(path, other) <==> key
                == other
            &&& with_source::extended(path, key) == with_source::extended(path, other) <==> key
                == other
            &&& with_source::extended(path, key) == Some(path->0 + key)
            &&& with_source::entry_path(path, key) == with_source::extended(path, "."@ + key)
            &&& with_source::item_path(path, i as nat) == with_source::extended(
                path,
                "["@ + text::decimal(i as nat) + "]"@,
            )
        },
{
    if let Some(p) = path {
        reveal_strlit("[");
        reveal_strlit("]");
        reveal_strlit(".");
        text::notation_is_read_back(i);
        text::notation_is_read_back(j);
        let a = p + "["@ + text::decimal(i as nat) + "]"@;
        let b = p + "["@ + text::decimal(j as nat) + "]"@;
        assert(a.subrange((p.len() + 1) as int, a.len() - 1) =~= text::decimal(i as nat));
        assert(b.subrange((p.len() + 1) as int, b.len() - 1) =~= text::decimal(j as nat));
        assert((p + "."@ + key).skip((p.len() + 1) as int) =~= key);
        assert((p + "."@ + other).skip((p.len() + 1) as int) =~= other);
        assert((p + key).skip(p.len() as int) =~= key);
        assert((p + other).skip(p.len() as int) =~= other);
        assert(p + ("."@ + key) =~= p + "."@ + key);
        assert(p + ("["@ + text::decimal(i as nat) + "]"@) =~= a);
    }
}

/// The path that a source says is the source, and none if there is no source.
pub proof fn paths_are_sources(source: Option<String>)
    ensures
        source is Some ==> with_source::path_of(source) == Some(source->0@),
        source is None ==> with_source::path_of(source) is None,
{
}

/// A reference to a secret means the namespace that it says, whatever the resource is in. Only without
/// one it means that of the resource.
pub proof fn own_namespaces_come_first(reference: SecretKeyRef, namespace: Option<Seq<char>>)
    ensures
        reference.namespace is Some ==> crds::secret_namespace(reference, namespace) == Some(
            reference.namespace->0@,
        ),
        reference.namespace is None ==> crds::secret_namespace(reference, namespace) == namespace,
{
}

/// A device and a group belong to the instance that they name.
pub proof fn instances_are_named(device: Device, group: Group)
    ensures
        device.instance_name() == device.spec.instance@,
        group.instance_name() == group.spec.instance@,
{
}

/// The status of an instance is updated if and only if there is none yet, or anything in it changes.
pub proof fn changes_to_instances_are_published(manager: StatusManager<InstanceStatus>)
    ensures
        <InstanceStatus as PartialEqSpec>::obeys_eq_spec(),
        manager.outdated() <==> (manager.published() is None || manager.published()->0.broker
            != manager.wanted().broker || manager.published()->0.zigbee2mqtt
            != manager.wanted().zigbee2mqtt),
{
}

/// The status of a device is updated if and only if there is none yet, or anything in it changes.
pub proof fn changes_to_devices_are_published(manager: StatusManager<DeviceStatus>)
    ensures
        <DeviceStatus as PartialEqSpec>::obeys_eq_spec(),
        manager.outdated() <==> (manager.published() is None || manager.published()->0.exists
            != manager.wanted().exists || manager.published()->0.synced
            != manager.wanted().synced),
{
}

/// The status of a group is updated if and only if there is none yet, or anything in it changes.
pub proof fn changes_to_groups_are_published(manager: StatusManager<GroupStatus>)
    ensures
        <GroupStatus as PartialEqSpec>::obeys_eq_spec(),
        manager.outdated() <==> (manager.published() is None || manager.published()->0.exists
            != manager.wanted().exists || manager.published()->0.synced != manager.wanted().synced
            || manager.published()->0.id != manager.wanted().id),
{
}

/// An error is the outcome of waiting for items, however many came before it and whatever comes after
/// it.
pub proof fn errors_end_the_waiting<V>(
    first: V,
    items: Seq<V>,
    error: Error,
    rest: Seq<Option<Result<V, Error>>>,
)
    ensures
        subscription::last_outcome(
            first,
            items.map_values(|item: V| Some(Ok::<V, Error>(item))).push(
                Some(Err::<V, Error>(error)),
            ) + rest,
        ) == Some(Err::<V, Error>(error)),
    decreases items.len(),
{
    let events = items.map_values(|item: V| Some(Ok::<V, Error>(item))).push(
        Some(Err::<V, Error>(error)),
    ) + rest;
    if items.len() > 0 {
        errors_end_the_waiting(items[0], items.drop_first(), error, rest);
        assert(events.drop_first() =~= items.drop_first().map_values(
            |item: V| Some(Ok::<V, Error>(item)),
        ).push(Some(Err::<V, Error>(error))) + rest);
    }
}

/// As long as only items come the waiting goes on.
pub proof fn items_continue_the_waiting<V>(first: V, items: Seq<V>)
    ensures
        subscription::last_outcome(
            first,
            items.map_values(|item: V| Some(Ok::<V, Error>(item))),
        ) is None,
    decreases items.len(),
{
    let events = items.map_values(|item: V| Some(Ok::<V, Error>(item)));
    if items.len() > 0 {
        items_continue_the_waiting(items[0], items.drop_first());
        assert(events.drop_first() =~= items.drop_first().map_values(
            |item: V| Some(Ok::<V, Error>(item)),
        ));
    }
}

/// The error of a subscription names its topic and what is wrong, and has no cause.
pub proof fn subscriptions_are_named(topic: Seq<char>, message: Seq<char>)
    ensures
        subscription::subscription_error(topic, message) == (ErrorModel::SubscriptionError {
            topic,
            message,
            source: None,
        }),
{
}

/// Unless configured otherwise, failures are retried before anything else is looked at again, and nothing
/// is waited for longer than that.
pub proof fn failures_are_retried_sooner()
    ensures
        crate::DEFAULT_TIMEOUT == 5,
        crate::DEFAULT_RECONCILE_INTERVAL == 60,
        crate::DEFAULT_RECONCILE_INTERVAL_FAILURE == 15,
        0 < crate::DEFAULT_TIMEOUT < crate::DEFAULT_RECONCILE_INTERVAL_FAILURE
            < crate::DEFAULT_RECONCILE_INTERVAL,
{
}

} // verus!
