use zigbee2mqtt_operator::event_manager::{
    identify_event, name_event, reconciling_event, repeat_event, Event, EventCore, EventExt,
    EventManager, EventSeries, EventType, MicroTime, ObjectReference, Publication,
};
use zigbee2mqtt_operator::ext::{join_name, ResourceLocalExt, ResourceName};
use zigbee2mqtt_operator::json::to_text;
use zigbee2mqtt_operator::status_manager::StatusManager;
use zigbee2mqtt_operator::ObjectReferenceLocalExt;

fn regarding() -> ObjectReference {
    ObjectReference {
        api_version: Some("zigbee2mqtt.org/v1".to_owned()),
        field_path: Some("old".to_owned()),
        kind: Some("Device".to_owned()),
        name: Some("lamp".to_owned()),
        namespace: Some("home".to_owned()),
        resource_version: Some("7".to_owned()),
        uid: Some("u".to_owned()),
    }
}

fn sample() -> EventCore {
    reconciling_event("note".to_owned(), EventType::Warning, Some("spec.a".to_owned()))
}

const IDENTITY: &str =
    r#"["zigbee2mqtt.org/v1","Device","home","lamp","Reconciling","note","Created","Warning"]"#;

#[test]
fn identity_is_a_list() {
    assert_eq!(to_text(&identify_event(&regarding(), &sample())), IDENTITY);
    let bare = ObjectReference { namespace: None, ..regarding() };
    let quiet = EventCore { note: None, type_: EventType::Normal, ..sample() };
    assert_eq!(
        to_text(&identify_event(&bare, &quiet)),
        r#"["zigbee2mqtt.org/v1","Device",null,"lamp","Reconciling",null,"Created","Normal"]"#,
    );
}

#[test]
fn names_are_made_of_kind_and_hash() {
    let event = Event::create(regarding(), sample(), MicroTime(5), "pod");
    let hash = fasthash::metro::hash64(IDENTITY);
    assert_eq!(event.name, format!("zigbee2mqtt-device-{hash}"));
    assert_eq!(event.name, name_event("device", hash));
    assert_eq!(name_event("group", 0), "zigbee2mqtt-group-0");
}

#[test]
fn event_describes_what_happened() {
    let event = Event::create(regarding(), sample(), MicroTime(5), "pod");
    assert_eq!(event.namespace.as_deref(), Some("home"));
    assert_eq!(event.action, "Reconciling");
    assert_eq!(event.event_time, MicroTime(5));
    assert_eq!(event.note.as_deref(), Some("note"));
    assert_eq!(event.reason, "Created");
    assert_eq!(event.regarding.field_path.as_deref(), Some("spec.a"));
    assert_eq!(event.regarding.uid.as_deref(), Some("u"));
    assert_eq!(event.regarding.resource_version.as_deref(), Some("7"));
    assert_eq!(event.reporting_controller, "zigbee2mqtt-operator");
    assert_eq!(event.reporting_instance, "pod");
    assert!(event.series.is_none());
    assert_eq!(event.type_, "Warning");
}

#[test]
fn name_ignores_field_path_and_time() {
    let other = EventCore { field_path: None, ..sample() };
    assert_eq!(
        Event::create(regarding(), sample(), MicroTime(5), "pod").name,
        Event::create(regarding(), other, MicroTime(6), "other").name,
    );
    let louder = EventCore { note: Some("Note".to_owned()), ..sample() };
    assert_ne!(
        Event::create(regarding(), sample(), MicroTime(5), "pod").name,
        Event::create(regarding(), louder, MicroTime(5), "pod").name,
    );
}

#[test]
fn repetitions_are_counted() {
    let first = repeat_event(None, MicroTime(1));
    assert_eq!(first, EventSeries { count: 2, last_observed_time: MicroTime(1) });
    let second = repeat_event(Some(first), MicroTime(9));
    assert_eq!(second, EventSeries { count: 3, last_observed_time: MicroTime(9) });
}

#[test]
fn manager_creates_or_updates() {
    let manager = EventManager::new("id".to_owned(), regarding());
    assert_eq!(manager.id(), "id");
    let event = manager.publish(sample(), MicroTime(3), "pod");
    let name = event.name.clone();
    match EventManager::publish_nolog(event, None) {
        Publication::Create(event) => assert_eq!(event.name, name),
        other => panic!("unexpected publication: {other:?}"),
    }
    let event = manager.publish(sample(), MicroTime(4), "pod");
    match EventManager::publish_nolog(event, Some(None)) {
        Publication::Update(series) => {
            assert_eq!(series, EventSeries { count: 2, last_observed_time: MicroTime(4) })
        }
        other => panic!("unexpected publication: {other:?}"),
    }
    let event = manager.publish(sample(), MicroTime(5), "pod");
    let existing = EventSeries { count: 7, last_observed_time: MicroTime(1) };
    match EventManager::publish_nolog(event, Some(Some(existing))) {
        Publication::Update(series) => assert_eq!(series.count, 8),
        other => panic!("unexpected publication: {other:?}"),
    }
}

#[test]
fn event_cores_compare_by_contents() {
    assert_eq!(sample(), sample().clone());
    assert_ne!(sample(), EventCore { field_path: None, ..sample() });
    assert_ne!(sample(), EventCore::default());
    assert_eq!(EventCore::default().type_, EventType::Normal);
    assert_eq!(EventCore::default().note, None);
}

#[test]
fn references_have_names() {
    assert_eq!(ObjectReferenceLocalExt::full_name(&regarding()), "home/lamp");
    assert_eq!(
        ObjectReferenceLocalExt::id(&regarding()),
        "zigbee2mqtt.org/v1/Device/home/lamp",
    );
    let bare = ObjectReference { namespace: None, ..regarding() };
    assert_eq!(ObjectReferenceLocalExt::full_name(&bare), "lamp");
}

#[test]
fn resources_have_names() {
    let name = ResourceName {
        api_version: "v1".to_owned(),
        kind: "Group".to_owned(),
        namespace: Some("home".to_owned()),
        name: "all".to_owned(),
    };
    assert_eq!(name.kind_with_version(), "v1/Group");
    assert_eq!(ResourceLocalExt::full_name(&name), "home/all");
    assert_eq!(ResourceLocalExt::id(&name), "v1/Group/home/all");
    assert_eq!(join_name(None, "x"), "x");
}

#[test]
fn status_is_updated_once() {
    let mut manager =
        StatusManager::new("id".to_owned(), "name".to_owned(), Some(1), 0);
    assert_eq!(manager.id(), "id");
    assert_eq!(manager.name(), "name");
    assert_eq!(*manager.get(), 1);
    assert!(!manager.sync());
    manager.set(2);
    assert!(manager.sync());
    assert!(!manager.sync());
    manager.update(|status| status + 1);
    assert_eq!(*manager.get(), 3);
    assert!(manager.sync());
}

#[test]
fn missing_status_is_created() {
    let mut manager =
        StatusManager::new("id".to_owned(), "name".to_owned(), None, 9);
    assert_eq!(*manager.get(), 9);
    assert!(manager.sync());
    assert!(!manager.sync());
}

#[test]
fn five_publications() {
    let mut series = None;
    for time in 1..5 {
        series = Some(repeat_event(series, MicroTime(time)));
    }
    assert_eq!(series, Some(EventSeries { count: 5, last_observed_time: MicroTime(4) }));
}
