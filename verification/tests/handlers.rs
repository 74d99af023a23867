use std::sync::Arc;

use zigbee2mqtt_operator::error::{Error, ErrorWithMeta};
use zigbee2mqtt_operator::event_manager::{EventCore, EventType};
use zigbee2mqtt_operator::json::{JsonObject, JsonValue, Number};
use zigbee2mqtt_operator::mqtt::exposes::{
    DeviceCapabilitiesSchema, DeviceOptionsSchema, GroupOptionsSchema, Schema, Text, WithProperty,
};
use zigbee2mqtt_operator::mqtt::handlers;
use zigbee2mqtt_operator::mqtt::handlers::device::{
    check_device, log_error, BridgeDevice, BridgeDeviceDefinition, BridgeDeviceType,
    BridgeDevicesTracker, CapabilitiesEvent, CapabilitiesLogResponse, CapabilitiesLogResponseMeta,
    CapabilitiesManager, CapabilitiesStep, OptionsManager, OptionsResponse, RenameResponse,
    Renamer,
};
use zigbee2mqtt_operator::mqtt::handlers::group;
use zigbee2mqtt_operator::mqtt::handlers::group::{BridgeGroup, BridgeGroupsTracker};
use zigbee2mqtt_operator::mqtt::handlers::lib::{
    accept, accept_caused_by, find_differences, message_mentions, plan_sync, request_topic,
    response_topic, verify_sync, BridgeRequestType, ConfigurationManagerInner, RequestResponse,
    TopicTracker, TrackerStep,
};
use zigbee2mqtt_operator::mqtt::handlers::misc::{
    BridgeExtensionsPayloadItem, BridgeExtensionsTracker, BridgeInfoConfig, BridgeInfoPayload,
    BridgeInfoTracker, ExtensionInstallRequest, ExtensionInstaller, HealthChecker,
    HealthcheckResponse, Restarter,
};
use zigbee2mqtt_operator::with_source::ValueWithSource;

fn owned(text: &str) -> String {
    text.to_owned()
}

fn sourced<T>(value: T, source: &str) -> ValueWithSource<T> {
    ValueWithSource::new(value, Some(source.to_owned()))
}

fn text(value: &str) -> JsonValue {
    JsonValue::Text(owned(value))
}

fn number(value: u64) -> JsonValue {
    JsonValue::Number(Number::PosInt(value))
}

fn object(entries: Vec<(&str, JsonValue)>) -> JsonObject {
    let mut object = JsonObject::new();
    for (key, value) in entries {
        object.insert(key.to_owned(), value);
    }
    object
}

fn failed<T>(error: &str) -> RequestResponse<T> {
    RequestResponse::Error { error: owned(error) }
}

fn blamed<T>(response: Option<Result<T, ErrorWithMeta>>) -> Option<String> {
    match response {
        Some(Err(error)) => error.source().clone(),
        Some(Ok(_)) => panic!("unexpected success"),
        None => panic!("unexpected skip"),
    }
}

fn event(note: &str, type_: EventType, path: Option<&str>) -> EventCore {
    EventCore {
        action: owned("Reconciling"),
        note: Some(owned(note)),
        reason: owned("Created"),
        type_,
        field_path: path.map(owned),
    }
}

fn device(address: &str, interview_completed: bool, supported: bool) -> BridgeDevice {
    BridgeDevice {
        ieee_address: owned(address),
        friendly_name: format!("name of {address}"),
        interview_completed,
        type_: BridgeDeviceType::Router,
        supported,
        definition: None,
    }
}

#[test]
fn tracker_keeps_the_latest() {
    let mut tracker = TopicTracker::new();
    assert!(matches!(tracker.get(None), TrackerStep::Wait));
    assert_eq!(tracker.get_waited(Ok(1)).unwrap(), 1);
    assert!(matches!(tracker.get(None), TrackerStep::Done(Ok(1))));
    assert!(matches!(tracker.get(Some(Ok(2))), TrackerStep::Done(Ok(2))));
    let error = Error::ManagerShutDown(None);
    assert!(matches!(tracker.get(Some(Err(error))), TrackerStep::Done(Err(_))));
    assert!(tracker.get_waited(Err(Error::ManagerShutDown(None))).is_err());
    assert!(matches!(tracker.get(None), TrackerStep::Done(Ok(2))));
}

#[test]
fn requests_have_topics() {
    assert_eq!(request_topic("group/add"), "bridge/request/group/add");
    assert_eq!(response_topic("group/add"), "bridge/response/group/add");
    assert_eq!(BridgeInfoTracker::topic(), "bridge/info");
    assert_eq!(BridgeDevicesTracker::topic(), "bridge/devices");
    assert_eq!(BridgeGroupsTracker::topic(), "bridge/groups");
    assert_eq!(BridgeExtensionsTracker::topic(), "bridge/extensions");
}

#[test]
fn requests_have_names() {
    assert_eq!(<HealthChecker as BridgeRequestType>::name(), "health_check");
    assert_eq!(<Restarter as BridgeRequestType>::name(), "restart");
    assert_eq!(<ExtensionInstaller as BridgeRequestType>::name(), "extension/save");
    assert_eq!(<Renamer as BridgeRequestType>::name(), "device/rename");
    assert_eq!(<handlers::DeviceRenamer as BridgeRequestType>::name(), "device/rename");
    assert_eq!(<OptionsManager as BridgeRequestType>::name(), "device/options");
    assert_eq!(<group::Creator as BridgeRequestType>::name(), "group/add");
    assert_eq!(<group::Deletor as BridgeRequestType>::name(), "group/remove");
    assert_eq!(<group::Renamer as BridgeRequestType>::name(), "group/rename");
    assert_eq!(<group::MemberAdder as BridgeRequestType>::name(), "group/members/add");
    assert_eq!(<group::MemberRemover as BridgeRequestType>::name(), "group/members/remove");
    assert_eq!(<group::OptionsSetter as BridgeRequestType>::name(), "group/options");
    assert_eq!(<group::OptionsUnsetter as BridgeRequestType>::name(), "group/unset-options");
}

#[test]
fn responses_become_results() {
    assert_eq!(RequestResponse::Success { data: 1 }.convert().unwrap(), 1);
    assert_eq!(
        failed::<u8>("e").convert().unwrap_err().message(),
        "Zigbee2MQTT error: e",
    );
    assert_eq!(accept(RequestResponse::Success { data: 1 }).unwrap().unwrap(), 1);
    assert_eq!(blamed(accept(failed::<u8>("e"))), None);
    let value = sourced(1, "spec.a");
    assert_eq!(blamed(accept_caused_by(failed::<u8>("e"), &value)), Some(owned("spec.a")));
    assert!(message_mentions("group '1' is gone", "1"));
    assert!(!message_mentions("group '12' is gone", "1"));
}

#[test]
fn unrelated_responses_are_skipped() {
    let request = Renamer::request("0x1", "new");
    assert_eq!(request.from, "0x1");
    assert!(request.homeassistant_rename);
    let renamed = |to: &str| RequestResponse::Success { data: RenameResponse { to: owned(to) } };
    assert!(Renamer::process_response(&request, renamed("other")).is_none());
    assert_eq!(
        Renamer::process_response(&request, renamed("new")).unwrap().unwrap().to,
        "new",
    );
    let in_use = "friendly_name 'new' is already in use";
    assert!(Renamer::process_response(&request, failed("x 'other'")).is_none());
    assert_eq!(blamed(Renamer::process_response(&request, failed("x 'new' y"))), None);
    assert!(handlers::DeviceRenamer::process_response(&request, failed("x 'new' y")).is_none());
    assert_eq!(
        blamed(handlers::DeviceRenamer::process_response(&request, failed(in_use))),
        None,
    );
    assert!(handlers::DeviceRenamer::process_response(&request, renamed("other")).is_none());
}

#[test]
fn options_of_devices_are_requested() {
    let manager = OptionsManager::new(owned("0x1"));
    let request = manager.request(&object(vec![("retain", JsonValue::Bool(true))]));
    assert_eq!(request.id, "0x1");
    assert_eq!(request.options.get("retain"), Some(&JsonValue::Bool(true)));
    let answer = |id: &str| RequestResponse::Success {
        data: OptionsResponse { id: owned(id), to: object(vec![]) },
    };
    assert!(OptionsManager::process_response(&request, answer("0x2")).is_none());
    assert!(OptionsManager::process_response(&request, answer("0x1")).unwrap().is_ok());
    assert!(OptionsManager::process_response(&request, failed("'0x2'")).is_none());
    assert_eq!(blamed(OptionsManager::process_response(&request, failed("'0x1'"))), None);
}

#[test]
fn groups_are_created() {
    let request = group::CreateRequest {
        id: sourced(Some(12), "spec.id"),
        friendly_name: sourced(owned("lights"), "spec.friendly_name"),
    };
    let created = |name: &str| RequestResponse::Success {
        data: group::CreateResponse { id: 12, friendly_name: owned(name) },
    };
    assert!(group::Creator::process_response(&request, created("other")).is_none());
    assert_eq!(
        group::Creator::process_response(&request, created("lights")).unwrap().unwrap().id,
        12,
    );
    assert_eq!(
        blamed(group::Creator::process_response(&request, failed("'12' and 'lights'"))),
        Some(owned("spec.id")),
    );
    assert_eq!(
        blamed(group::Creator::process_response(&request, failed("'lights' in use"))),
        Some(owned("spec.friendly_name")),
    );
    assert!(group::Creator::process_response(&request, failed("12 and lights")).is_none());
}

#[test]
fn groups_are_deleted() {
    let request = group::DeleteRequest { id: sourced(12, "status.id") };
    let deleted = |id| RequestResponse::Success { data: group::DeleteResponse { id } };
    assert!(group::Deletor::process_response(&request, deleted(1)).is_none());
    assert!(group::Deletor::process_response(&request, deleted(12)).unwrap().is_ok());
    assert_eq!(
        blamed(group::Deletor::process_response(&request, failed("{\"groupid\":12,..."))),
        Some(owned("status.id")),
    );
    assert!(group::Deletor::process_response(&request, failed("'12'")).is_none());
}

#[test]
fn groups_are_renamed() {
    let request = group::Renamer::request(
        sourced(12, "status.id"),
        sourced(owned("lights"), "spec.friendly_name"),
    );
    assert!(request.homeassistant_rename);
    let renamed =
        |to: &str| RequestResponse::Success { data: group::RenameResponse { to: owned(to) } };
    assert!(group::Renamer::process_response(&request, renamed("other")).is_none());
    assert!(group::Renamer::process_response(&request, renamed("lights")).unwrap().is_ok());
    assert_eq!(
        blamed(group::Renamer::process_response(&request, failed("'12'"))),
        Some(owned("status.id")),
    );
    assert_eq!(
        blamed(group::Renamer::process_response(&request, failed("'lights'"))),
        Some(owned("spec.friendly_name")),
    );
    assert!(group::Renamer::process_response(&request, failed("'x'")).is_none());
}

#[test]
fn members_are_changed() {
    let request = group::MemberRequest {
        group: sourced(12, "status.id"),
        device: sourced(owned("0x1"), "spec.members[0]"),
    };
    let changed = |group, device: &str| RequestResponse::Success {
        data: group::MemberResponse { group, device: owned(device) },
    };
    assert!(group::MemberAdder::process_response(&request, changed(12, "0x2")).is_none());
    assert!(group::MemberAdder::process_response(&request, changed(1, "0x1")).is_none());
    assert!(group::MemberAdder::process_response(&request, changed(12, "0x1")).unwrap().is_ok());
    assert_eq!(
        blamed(group::MemberRemover::process_response(&request, failed("'12' '0x1'"))),
        Some(owned("status.id")),
    );
    assert_eq!(
        blamed(group::MemberRemover::process_response(&request, failed("'0x1'"))),
        Some(owned("spec.members[0]")),
    );
    assert!(group::MemberRemover::process_response(&request, failed("0x1")).is_none());
}

#[test]
fn options_of_groups_are_changed() {
    let set = group::OptionsSetRequest {
        id: sourced(12, "status.id"),
        options: sourced(object(vec![]), "spec.options"),
    };
    let unset = group::OptionsUnsetRequest {
        id: sourced(12, "status.id"),
        paths: sourced(vec![owned("retain")], "spec.options"),
    };
    let changed = |id| RequestResponse::Success {
        data: group::OptionsChangeResponse { id, to: object(vec![]) },
    };
    assert!(group::OptionsSetter::process_response(&set, changed(1)).is_none());
    assert!(group::OptionsSetter::process_response(&set, changed(12)).unwrap().is_ok());
    assert_eq!(
        blamed(group::OptionsSetter::process_response(&set, failed("'12'"))),
        Some(owned("status.id")),
    );
    assert!(group::OptionsUnsetter::process_response(&unset, failed("'1'")).is_none());
    assert!(group::OptionsUnsetter::process_response(&unset, changed(12)).unwrap().is_ok());
}

#[test]
fn other_requests_take_any_response() {
    let nothing = object(vec![]);
    let healthy = RequestResponse::Success { data: HealthcheckResponse { healthy: true } };
    assert!(HealthChecker::process_response(&nothing, healthy).unwrap().is_ok());
    let done = || RequestResponse::Success { data: object(vec![]) };
    assert!(Restarter::process_response(&nothing, done()).unwrap().is_ok());
    let request = ExtensionInstallRequest { name: "e.js", code: "code" };
    assert!(ExtensionInstaller::process_response(&request, done()).unwrap().is_ok());
    assert_eq!(blamed(ExtensionInstaller::process_response(&request, failed("e"))), None);
}

#[test]
fn health_is_judged() {
    assert!(HealthChecker::get(HealthcheckResponse { healthy: true }).is_ok());
    assert_eq!(
        HealthChecker::get(HealthcheckResponse { healthy: false })
            .unwrap_err()
            .error()
            .message(),
        "Action failed: received unhealthy response",
    );
}

#[test]
fn devices_are_found() {
    let devices = vec![
        device("0x1", false, true),
        device("0x2", true, false),
        device("0x3", true, true),
    ];
    let message = |address: &str| {
        BridgeDevicesTracker::get_device(&devices, address).unwrap_err().describe()
    };
    assert_eq!(
        BridgeDevicesTracker::get_device(&devices, "0x3").unwrap().friendly_name,
        "name of 0x3",
    );
    assert_eq!(
        message("0x1"),
        "ActionFailed(\"device with ieee_address 0x1 is still being added to Zigbee2MQTT\", None)",
    );
    assert_eq!(
        message("0x2"),
        "InvalidResource { field_path: \"\", message: \"device is not supported by Zigbee2MQTT\" }",
    );
    assert_eq!(
        message("0x4"),
        "InvalidResource { field_path: \"\", message: \"device is not known to Zigbee2MQTT\" }",
    );
    assert!(check_device("0x1", Some((true, true))).is_ok());
    assert!(check_device("0x1", None).is_err());
    let mut tracker = BridgeDevicesTracker(TopicTracker::new());
    assert_eq!(tracker.0.get_waited(Ok(Arc::new(devices))).unwrap().len(), 3);
}

#[test]
fn known_devices_are_found() {
    let devices = vec![
        handlers::BridgeDevice {
            ieee_address: owned("0x1"),
            friendly_name: owned("first"),
            interview_completed: true,
            supported: true,
        },
        handlers::BridgeDevice {
            ieee_address: owned("0x1"),
            friendly_name: owned("second"),
            interview_completed: false,
            supported: true,
        },
    ];
    assert_eq!(handlers::get_device(&devices, "0x1").unwrap().friendly_name, "first");
    assert!(handlers::get_device(&devices, "0x2").is_err());
}

#[test]
fn groups_are_found() {
    let groups = vec![
        BridgeGroup { id: 1, friendly_name: owned("a"), members: vec![] },
        BridgeGroup { id: 2, friendly_name: owned("b"), members: vec![] },
        BridgeGroup { id: 2, friendly_name: owned("a"), members: vec![] },
    ];
    assert_eq!(BridgeGroupsTracker::get_by_id(&groups, 2), Some(1));
    assert_eq!(BridgeGroupsTracker::get_by_id(&groups, 3), None);
    assert_eq!(BridgeGroupsTracker::get_by_friendly_name(&groups, "a"), Some(0));
    assert_eq!(BridgeGroupsTracker::get_by_friendly_name(&groups, "c"), None);
}

#[test]
fn configured_options_are_found() {
    let info = BridgeInfoPayload {
        config: BridgeInfoConfig {
            devices: vec![(owned("0x1"), object(vec![("a", number(1))]))],
            groups: vec![(12, object(vec![("b", number(2))]))],
        },
        restart_required: false,
    };
    let config = info.clone().config;
    assert_eq!(config.get_device_options("0x1").get("a"), Some(&number(1)));
    assert_eq!(config.get_device_options("0x2").len(), 0);
    assert_eq!(config.get_group_options(12).get("b"), Some(&number(2)));
    assert_eq!(config.get_group_options(1).len(), 0);
    let item = BridgeExtensionsPayloadItem { name: owned("n"), code: owned("c") };
    assert_eq!(item.clone().code, "c");
}

#[test]
fn categories_of_configuration() {
    assert_eq!(<OptionsManager as ConfigurationManagerInner>::name(), "option");
    assert!(OptionsManager::clear_property("retain"));
    assert!(!OptionsManager::clear_property("friendly_name"));
    assert_eq!(CapabilitiesManager::name(), "capability");
    assert!(!CapabilitiesManager::clear_property("state"));
    assert_eq!(group::OptionsManager::name(), "option");
    assert!(group::OptionsManager::clear_property("retain"));
    for key in ["ID", "friendly_name", "devices"] {
        assert!(!group::OptionsManager::clear_property(key));
    }
    assert_eq!(*group::OptionsManager::new(sourced(3, "status.id")).id.value(), 3);
}

#[test]
fn missing_values_are_defaults() {
    let wanted = object(vec![
        ("a", JsonValue::Null),
        ("b", JsonValue::Null),
        ("c", number(1)),
        ("d", number(1)),
        ("e", number(1)),
        ("f", JsonValue::Null),
    ]);
    let actual = object(vec![
        ("a", JsonValue::Null),
        ("c", number(1)),
        ("d", text("x")),
        ("f", number(2)),
        ("g", number(2)),
    ]);
    let found: Vec<(String, String, String)> = find_differences(&wanted, &actual)
        .into_iter()
        .map(|d| (d.key, d.wanted, d.actual))
        .collect();
    assert_eq!(
        found,
        vec![
            (owned("d"), owned("1"), owned("\"x\"")),
            (owned("e"), owned("1"), owned("default value")),
            (owned("f"), owned("default value"), owned("2")),
        ],
    );
    assert!(find_differences(&actual, &actual).is_empty());
}

#[test]
fn unwanted_options_are_reset() {
    let current = object(vec![
        ("description", text("old")),
        ("friendly_name", text("name")),
        ("retain", JsonValue::Bool(true)),
        ("qos", number(1)),
    ]);
    let wanted = object(vec![("qos", number(1)), ("retain", JsonValue::Bool(false))]);
    let plan = plan_sync::<OptionsManager, DeviceOptionsSchema>(
        &current,
        sourced(wanted, "spec.options"),
        &DeviceOptionsSchema::default(),
    )
    .unwrap();
    assert_eq!(plan.configuration.source().map(String::as_str), Some("spec.options"));
    assert_eq!(
        JsonValue::Object(plan.configuration.take()),
        JsonValue::Object(object(vec![
            ("description", JsonValue::Null),
            ("qos", number(1)),
            ("retain", JsonValue::Bool(false)),
        ])),
    );
    assert_eq!(
        plan.events,
        vec![
            event(
                "setting option description to default value (previously \"old\")",
                EventType::Normal,
                Some("spec.options.description"),
            ),
            event(
                "setting option retain to false (previously true)",
                EventType::Normal,
                Some("spec.options.retain"),
            ),
        ],
    );
}

#[test]
fn nothing_to_do_means_no_events() {
    let current = object(vec![("retain", JsonValue::Bool(true)), ("ID", number(3))]);
    let wanted = object(vec![("retain", JsonValue::Bool(true))]);
    let plan = plan_sync::<group::OptionsManager, GroupOptionsSchema>(
        &current,
        sourced(wanted, "spec.options"),
        &GroupOptionsSchema::default(),
    )
    .unwrap();
    assert!(plan.events.is_empty());
}

#[test]
fn invalid_options_are_refused() {
    let wanted = object(vec![("unknown", number(1))]);
    let error = plan_sync::<OptionsManager, DeviceOptionsSchema>(
        &object(vec![]),
        sourced(wanted, "spec.options"),
        &DeviceOptionsSchema::default(),
    )
    .unwrap_err();
    assert_eq!(error.source().as_deref(), Some("spec.options.unknown"));
    assert_eq!(error.error().message(), "Invalid resource at : Unknown property.");
}

#[test]
fn results_are_verified() {
    let wanted = sourced(
        object(vec![("a", number(1)), ("b", JsonValue::Null)]),
        "spec.capabilities",
    );
    let (result, events) = verify_sync::<CapabilitiesManager>(
        &wanted,
        &object(vec![("a", number(1)), ("c", number(1))]),
    );
    assert!(result.is_ok());
    assert!(events.is_empty());
    let (result, events) =
        verify_sync::<CapabilitiesManager>(&wanted, &object(vec![("a", number(2))]));
    let error = result.unwrap_err();
    assert!(error.published());
    assert_eq!(error.source().as_deref(), Some("spec.capabilities"));
    assert_eq!(
        error.error().message(),
        "Invalid resource at : failed to set at least one capability",
    );
    assert_eq!(
        events,
        vec![event(
            "unexpected result of setting capability a, expected 1 but got 2",
            EventType::Warning,
            Some("spec.capabilities.a"),
        )],
    );
}

#[test]
fn capabilities_are_read_and_written() {
    let manager = CapabilitiesManager::new(owned("0x1"), owned("lamp"));
    assert_eq!(manager.topic("get"), "lamp/get");
    assert_eq!(CapabilitiesManager::get_message(), r#"{"state":""}"#);
    assert_eq!(
        CapabilitiesManager::set_message(&object(vec![("state", text("ON"))])),
        r#"{"state":"ON"}"#,
    );
    let run = |event| manager.run("set", event);
    assert!(matches!(run(CapabilitiesEvent::HalfTimeout), CapabilitiesStep::Resend));
    assert!(matches!(run(CapabilitiesEvent::Resent(Ok(()))), CapabilitiesStep::Wait));
    let stopped = Error::ManagerShutDown(None);
    assert!(matches!(
        run(CapabilitiesEvent::Resent(Err(stopped))),
        CapabilitiesStep::Done(Err(_))
    ));
    let state = object(vec![("state", text("ON"))]);
    match run(CapabilitiesEvent::Device(Ok(state.clone()))) {
        CapabilitiesStep::Done(result) => {
            assert_eq!(JsonValue::Object(result.unwrap()), JsonValue::Object(state))
        }
        other => panic!("unexpected step: {other:?}"),
    }
}

fn ended(step: CapabilitiesStep) -> String {
    match step {
        CapabilitiesStep::Done(Err(error)) => error.message(),
        other => panic!("unexpected step: {other:?}"),
    }
}

#[test]
fn capabilities_can_fail() {
    let manager = CapabilitiesManager::new(owned("0x1"), owned("lamp"));
    let log = |name: &str| CapabilitiesLogResponse {
        message: owned("it \"broke\""),
        meta: CapabilitiesLogResponseMeta { friendly_name: owned(name) },
    };
    assert_eq!(
        ended(manager.run("set", CapabilitiesEvent::Timeout)),
        "Zigbee2MQTT error: timeout while attempting to set current state of device lamp",
    );
    assert_eq!(
        ended(manager.run("get", CapabilitiesEvent::Log(Ok(log("lamp"))))),
        "Zigbee2MQTT error: error while attempting to get current state of device lamp: \"it \\\"broke\\\"\"",
    );
    assert!(matches!(
        manager.run("get", CapabilitiesEvent::Log(Ok(log("other")))),
        CapabilitiesStep::Wait
    ));
    assert_eq!(
        log_error("get", "lamp", "m"),
        "error while attempting to get current state of device lamp: m",
    );
}

#[test]
fn schemas_have_defaults() {
    let default = BridgeDeviceDefinition::default();
    let wanted = || sourced(object(vec![("state", text("ON"))]), "spec.capabilities");
    let plain = device("0x1", true, true);
    let schema = CapabilitiesManager::schema(&plain, &default);
    assert!(plan_sync::<CapabilitiesManager, DeviceCapabilitiesSchema>(
        &object(vec![]),
        wanted(),
        schema,
    )
    .is_err());
    let defined = BridgeDevice {
        definition: Some(BridgeDeviceDefinition {
            options: DeviceOptionsSchema::default(),
            exposes: DeviceCapabilitiesSchema::from(vec![Schema::Text(WithProperty {
                property: owned("state"),
                type_: Text::default(),
            })]),
        }),
        ..device("0x1", true, true)
    };
    let schema = CapabilitiesManager::schema(&defined, &default);
    assert!(plan_sync::<CapabilitiesManager, DeviceCapabilitiesSchema>(
        &object(vec![]),
        wanted(),
        schema,
    )
    .is_ok());
    let options = OptionsManager::schema(&plain, &default);
    assert!(plan_sync::<OptionsManager, DeviceOptionsSchema>(
        &object(vec![]),
        sourced(object(vec![("retain", JsonValue::Bool(true))]), "spec.options"),
        options,
    )
    .is_ok());
}

fn sent<T: BridgeRequestType>(request: &T::Request) -> String {
    T::message(request)
}

#[test]
fn requests_about_devices_are_documents() {
    assert_eq!(
        sent::<Renamer>(&Renamer::request("0x1", "new")),
        r#"{"from":"0x1","to":"new","homeassistant_rename":true}"#,
    );
    assert_eq!(
        sent::<handlers::DeviceRenamer>(&Renamer::request("0x1", "new")),
        r#"{"from":"0x1","homeassistant_rename":true,"to":"new"}"#,
    );
    let options = object(vec![("retain", JsonValue::Bool(true)), ("qos", JsonValue::Null)]);
    assert_eq!(
        sent::<OptionsManager>(&OptionsManager::new(owned("0x1")).request(&options)),
        r#"{"id":"0x1","options":{"qos":null,"retain":true}}"#,
    );
}

#[test]
fn requests_about_groups_are_documents() {
    let create = |id| group::CreateRequest {
        id: ValueWithSource::from(id),
        friendly_name: ValueWithSource::from(owned("lights")),
    };
    assert_eq!(
        sent::<group::Creator>(&create(Some(12))),
        r#"{"id":12,"friendly_name":"lights"}"#,
    );
    assert_eq!(
        sent::<group::Creator>(&create(None)),
        r#"{"id":null,"friendly_name":"lights"}"#,
    );
    let id = || ValueWithSource::from(12);
    assert_eq!(sent::<group::Deletor>(&group::DeleteRequest { id: id() }), r#"{"id":12}"#);
    assert_eq!(
        sent::<group::Renamer>(&group::Renamer::request(id(), ValueWithSource::from(owned("l")))),
        r#"{"from":12,"to":"l","homeassistant_rename":true}"#,
    );
    let member = group::MemberRequest { group: id(), device: ValueWithSource::from(owned("0x1")) };
    assert_eq!(sent::<group::MemberAdder>(&member), r#"{"group":12,"device":"0x1"}"#);
    assert_eq!(sent::<group::MemberRemover>(&member), r#"{"group":12,"device":"0x1"}"#);
    let set = group::OptionsSetRequest {
        id: id(),
        options: ValueWithSource::from(object(vec![("qos", number(1))])),
    };
    assert_eq!(sent::<group::OptionsSetter>(&set), r#"{"id":12,"options":{"qos":1}}"#);
    let unset = group::OptionsUnsetRequest {
        id: id(),
        paths: ValueWithSource::from(vec![owned("qos"), owned("retain")]),
    };
    assert_eq!(
        sent::<group::OptionsUnsetter>(&unset),
        r#"{"id":12,"paths":["qos","retain"]}"#,
    );
}

#[test]
fn other_requests_are_documents() {
    assert_eq!(sent::<HealthChecker>(&object(vec![])), "{}");
    assert_eq!(sent::<Restarter>(&object(vec![])), "{}");
    let request = ExtensionInstallRequest { name: "e.js", code: "\"use strict\"" };
    assert_eq!(
        sent::<ExtensionInstaller>(&request),
        r#"{"name":"e.js","code":"\"use strict\""}"#,
    );
}

#[test]
fn applied_options_are_settled() {
    let wanted = || {
        sourced(
            object(vec![("qos", number(1)), ("retain", JsonValue::Bool(false))]),
            "spec.options",
        )
    };
    let current = object(vec![("description", text("old")), ("friendly_name", text("name"))]);
    let schema = DeviceOptionsSchema::default();
    let plan =
        plan_sync::<OptionsManager, DeviceOptionsSchema>(&current, wanted(), &schema).unwrap();
    assert_eq!(plan.events.len(), 3);
    let mut result = object(vec![("friendly_name", text("name"))]);
    let configuration = plan.configuration.take();
    for i in 0..configuration.len() {
        result.insert(configuration.key(i).clone(), configuration.value(i).clone());
    }
    let again =
        plan_sync::<OptionsManager, DeviceOptionsSchema>(&result, wanted(), &schema).unwrap();
    assert!(again.events.is_empty());
}
