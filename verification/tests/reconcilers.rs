use zigbee2mqtt_operator::crds::{
    Device, DeviceSpec, DeviceStatus, Group, GroupSpec, GroupStatus, Instance,
    InstanceHandleUnmanaged, InstanceSpec, InstanceStatus,
};
use zigbee2mqtt_operator::error::Error;
use zigbee2mqtt_operator::event_manager::EventType;
use zigbee2mqtt_operator::json::{JsonObject, JsonValue};
use zigbee2mqtt_operator::mqtt::handlers::device::{BridgeDevice, BridgeDeviceType};
use zigbee2mqtt_operator::mqtt::handlers::group::{BridgeGroup, BridgeGroupMember};
use zigbee2mqtt_operator::mqtt::manager::{ConnectionStatus, Status, Z2MStatus};
use zigbee2mqtt_operator::reconcilers::device::{advance_device_status, DeviceProgress};
use zigbee2mqtt_operator::reconcilers::group::{advance_group_status, GroupProgress};
use zigbee2mqtt_operator::reconcilers::instance::{
    delete_device_error, disconnected_status, get_manager, process_unmanaged, report_status,
    restart_if_needed, setup_manager, start_timeout, use_credentials, InstanceTrackStatus,
    InstanceTracker, ManagerAccess, SetupStep, UnmanagedQueue, UnmanagedStep, UpdateStep,
};
use zigbee2mqtt_operator::with_source::ValueWithSource;

fn owned(text: &str) -> String {
    text.to_owned()
}

fn device(friendly_name: Option<&str>) -> Device {
    let mut options = JsonObject::new();
    options.insert(owned("retain"), JsonValue::Bool(true));
    Device {
        spec: DeviceSpec {
            instance: owned("main"),
            ieee_address: owned("0x1"),
            friendly_name: friendly_name.map(owned),
            options: Some(options),
            capabilities: None,
        },
        status: None,
    }
}

fn group(id: Option<usize>, status: Option<usize>, members: Option<Vec<&str>>) -> Group {
    Group {
        spec: GroupSpec {
            instance: owned("main"),
            friendly_name: owned("lights"),
            id,
            members: members.map(|list| list.into_iter().map(owned).collect()),
            options: None,
        },
        status: status.map(|id| GroupStatus { exists: None, synced: None, id: Some(id) }),
    }
}

fn bridge_group(id: usize, friendly_name: &str) -> BridgeGroup {
    BridgeGroup { id, friendly_name: owned(friendly_name), members: vec![] }
}

fn bridge_device(address: &str, name: &str) -> BridgeDevice {
    BridgeDevice {
        ieee_address: owned(address),
        friendly_name: owned(name),
        interview_completed: true,
        type_: BridgeDeviceType::EndDevice,
        supported: true,
        definition: None,
    }
}

fn members(list: Vec<&str>) -> Vec<BridgeGroupMember> {
    list.into_iter().map(|address| BridgeGroupMember { ieee_address: owned(address) }).collect()
}

#[test]
fn device_status_advances() {
    let mut status = DeviceStatus { exists: Some(true), synced: Some(true) };
    status = advance_device_status(status, DeviceProgress::Started);
    assert_eq!(status, DeviceStatus { exists: None, synced: None });
    status = advance_device_status(status, DeviceProgress::Connected);
    assert_eq!(status, DeviceStatus { exists: Some(false), synced: None });
    status = advance_device_status(status, DeviceProgress::Exists);
    assert_eq!(status, DeviceStatus { exists: Some(true), synced: Some(false) });
    status = advance_device_status(status, DeviceProgress::Synced);
    assert_eq!(status, DeviceStatus { exists: Some(true), synced: Some(true) });
}

#[test]
fn devices_are_named() {
    let named = device(Some("lamp"));
    assert_eq!(named.wanted_name().source().map(String::as_str), Some("spec.friendly_name"));
    assert!(named.sync_name("lamp").is_none());
    let event = named.sync_name("0x1").unwrap();
    assert_eq!(event.note.as_deref(), Some("updating friendly name to lamp (previously 0x1)"));
    assert_eq!(event.type_, EventType::Normal);
    assert_eq!(event.field_path, None);
    let unnamed = device(None);
    assert_eq!(unnamed.wanted_name().source().map(String::as_str), Some("spec.ieee_address"));
    assert!(unnamed.sync_name("0x1").is_none());
    assert_eq!(unnamed.ieee_address().take(), "0x1");
}

#[test]
fn only_given_configuration_is_managed() {
    let options = device(None).wanted_options().unwrap();
    assert_eq!(options.source().map(String::as_str), Some("spec.options"));
    assert_eq!(options.value().get("retain"), Some(&JsonValue::Bool(true)));
    assert!(device(None).wanted_capabilities().is_none());
    assert!(group(None, None, None).wanted_options().is_none());
}

#[test]
fn group_status_advances() {
    let mut status = GroupStatus { exists: None, synced: None, id: Some(3) };
    status = advance_group_status(status, GroupProgress::Started);
    assert_eq!(status, GroupStatus { exists: None, synced: None, id: None });
    status = advance_group_status(status, GroupProgress::Connected);
    assert_eq!(status, GroupStatus { exists: Some(false), synced: None, id: None });
    status = advance_group_status(status, GroupProgress::Exists(4));
    assert_eq!(status, GroupStatus { exists: Some(true), synced: Some(false), id: Some(4) });
    status = advance_group_status(status, GroupProgress::Synced);
    assert_eq!(status, GroupStatus { exists: Some(true), synced: Some(true), id: Some(4) });
}

#[test]
fn group_numbers_have_sources() {
    let id = group(Some(1), Some(2), None).get_id().unwrap();
    assert_eq!(id.source().map(String::as_str), Some("status.id"));
    assert_eq!(id.take(), 2);
    let id = group(Some(1), None, None).get_id().unwrap();
    assert_eq!(id.source().map(String::as_str), Some("spec.id"));
    assert_eq!(id.take(), 1);
    assert!(group(None, None, None).get_id().is_none());
    assert_eq!(group(Some(1), None, None).wanted_id().take(), Some(1));
    assert_eq!(group(None, Some(2), None).cleanup().unwrap().take(), 2);
    assert!(group(Some(1), None, None).cleanup().is_none());
}

#[test]
fn groups_are_looked_for() {
    let groups = vec![bridge_group(1, "a"), bridge_group(2, "lights")];
    let found = group(None, Some(2), None).find_by_id(&groups).unwrap();
    assert_eq!(found.info.friendly_name, "lights");
    assert_eq!(found.id.source().map(String::as_str), Some("status.id"));
    assert!(group(None, None, None).find_by_id(&groups).is_none());
    assert!(group(None, Some(3), None).find_by_id(&groups).is_none());
    let found = group(None, Some(3), None).find_by_name(&groups).unwrap();
    assert_eq!(found.id.take(), 2);
    assert!(group(Some(5), None, None).find_by_name(&groups).is_none());
    let found = group(None, Some(1), None).find_existing(&groups).unwrap();
    assert_eq!(found.info.friendly_name, "a");
    let found = group(None, Some(3), None).find_existing(&groups).unwrap();
    assert_eq!(found.info.friendly_name, "lights");
    assert!(group(Some(5), None, None).find_existing(&groups).is_none());
    assert_eq!(Group::find_created(&groups, 1).unwrap().info.friendly_name, "a");
    assert_eq!(
        Group::find_created(&groups, 7).unwrap_err().error().message(),
        "Action failed: failed to find or create group",
    );
}

#[test]
fn groups_are_recreated_or_renamed() {
    let event = group(Some(1), None, None).sync_existence(2).unwrap();
    assert_eq!(event.reason, "Changed");
    assert_eq!(event.note.as_deref(), Some("id changed, deleting and recreating group"));
    assert_eq!(event.field_path.as_deref(), Some("spec.id"));
    assert!(group(Some(1), None, None).sync_existence(1).is_none());
    assert!(group(None, None, None).sync_existence(1).is_none());
    let name = group(None, None, None).sync_name(&bridge_group(1, "a")).unwrap();
    assert_eq!(name.source().map(String::as_str), Some("spec.friendly_name"));
    assert_eq!(name.take(), "lights");
    assert!(group(None, None, None).sync_name(&bridge_group(1, "lights")).is_none());
}

#[test]
fn members_become_the_wanted_ones() {
    let devices = vec![
        bridge_device("0x1", "one"),
        bridge_device("0x2", "two"),
        bridge_device("0x3", "three"),
    ];
    let wanted = group(None, None, Some(vec!["two", "0x3", "three"]));
    let plan = wanted
        .sync_members(&devices, &members(vec!["0x1", "0x2", "0x9", "0x1"]))
        .unwrap();
    let removed: Vec<&str> = plan.remove.iter().map(|c| c.device.value().as_str()).collect();
    assert_eq!(removed, vec!["0x1", "0x9"]);
    assert_eq!(
        plan.remove[0].event.note.as_deref(),
        Some("removing device 0x1 from group"),
    );
    assert_eq!(plan.remove[0].event.field_path.as_deref(), Some("spec.members"));
    assert!(plan.remove[0].device.source().is_none());
    assert_eq!(plan.add.len(), 1);
    assert_eq!(plan.add[0].device.value(), "0x3");
    assert_eq!(plan.add[0].device.source().map(String::as_str), Some("spec.members[1]"));
    assert_eq!(plan.add[0].event.note.as_deref(), Some("adding device 0x3 to group"));
    assert_eq!(plan.add[0].event.field_path.as_deref(), Some("spec.members[1]"));
    assert_eq!(plan.add[0].event.reason, "Changed");
}

#[test]
fn members_must_be_known() {
    let devices = vec![bridge_device("0x1", "one")];
    let error = group(None, None, Some(vec!["one", "two", "three"]))
        .sync_members(&devices, &members(vec![]))
        .unwrap_err();
    assert_eq!(error.source().as_deref(), Some("spec.members[1]"));
    assert_eq!(
        error.error().message(),
        "Action failed: cannot find device with ieee_address or friendly_name 'two'",
    );
    let plan = group(None, None, None).sync_members(&devices, &members(vec!["0x9"])).unwrap();
    assert!(plan.remove.is_empty());
    assert!(plan.add.is_empty());
}

#[test]
fn reports_change_the_status() {
    let healthy = InstanceStatus { broker: true, zigbee2mqtt: Some(true) };
    let connected = InstanceStatus { broker: true, zigbee2mqtt: Some(false) };
    let disconnected = InstanceStatus { broker: false, zigbee2mqtt: None };
    let of = |status| Status::ConnectionStatus(status);
    assert_eq!(report_status(healthy, &of(ConnectionStatus::Active)), connected);
    assert_eq!(report_status(healthy, &of(ConnectionStatus::Pending)), healthy);
    assert_eq!(report_status(healthy, &of(ConnectionStatus::Closed)), disconnected);
    assert_eq!(report_status(healthy, &of(ConnectionStatus::Failed(owned("f")))), disconnected);
    assert_eq!(report_status(disconnected, &Status::Z2MStatus(Z2MStatus::HealthOk)), healthy);
    assert_eq!(
        report_status(healthy, &Status::Z2MStatus(Z2MStatus::HealthError(owned("e")))),
        connected,
    );
}

#[test]
fn managers_are_tracked() {
    let mut tracker: InstanceTracker<u8> = InstanceTracker::new();
    assert!(matches!(tracker.get("a"), InstanceTrackStatus::Missing));
    tracker.insert("a", None);
    assert!(matches!(tracker.get("a"), InstanceTrackStatus::Pending));
    tracker.insert("a", Some(1));
    assert!(matches!(tracker.get("a"), InstanceTrackStatus::Ready(1)));
    tracker.update(&vec![owned("a"), owned("b")], 10);
    assert!(matches!(tracker.get("a"), InstanceTrackStatus::Ready(1)));
    assert!(matches!(tracker.get("b"), InstanceTrackStatus::Pending));
    tracker.update(&vec![owned("b")], 20);
    assert!(matches!(tracker.get("a"), InstanceTrackStatus::Missing));
    tracker.insert("b", Some(2));
    assert_eq!(tracker.remove("b"), Some(2));
    assert_eq!(tracker.remove("b"), None);
    assert!(matches!(tracker.get("b"), InstanceTrackStatus::Missing));
}

#[test]
fn instances_are_listed_now_and_then() {
    let mut tracker: InstanceTracker<u8> = InstanceTracker::new();
    assert_eq!(tracker.needs_update(0, 0, 5), UpdateStep::List);
    tracker.update(&vec![], 10);
    assert_eq!(tracker.needs_update(9, 12, 5), UpdateStep::Retry);
    assert_eq!(tracker.needs_update(10, 12, 5), UpdateStep::Give);
    assert_eq!(tracker.needs_update(11, 14, 5), UpdateStep::Give);
    assert_eq!(tracker.needs_update(11, 15, 5), UpdateStep::List);
}

#[test]
fn managers_are_used() {
    let name = ValueWithSource::new(owned("home/main"), Some(owned("spec.instance")));
    assert!(matches!(
        get_manager(InstanceTrackStatus::Ready(1), &name),
        Ok(ManagerAccess::Use(1))
    ));
    assert!(matches!(
        get_manager::<u8>(InstanceTrackStatus::Pending, &name),
        Ok(ManagerAccess::Postpone)
    ));
    let error = get_manager::<u8>(InstanceTrackStatus::Missing, &name).unwrap_err();
    assert_eq!(error.source().as_deref(), Some("spec.instance"));
    assert_eq!(error.error().message(), "Invalid resource at : instance does not exist");
}

#[test]
fn managers_are_set_up() {
    assert!(matches!(setup_manager::<u8>(None), SetupStep::Create));
    assert!(matches!(setup_manager(Some((1, Ok(true)))), SetupStep::Keep(1)));
    assert!(matches!(setup_manager(Some((1, Ok(false)))), SetupStep::Keep(1)));
    let stopped = Err(Error::ManagerShutDown(None));
    assert!(matches!(setup_manager(Some((1, stopped))), SetupStep::Replace(1)));
    assert_eq!(
        start_timeout().message(),
        "Action failed: timeout while starting manager instance",
    );
    assert_eq!(disconnected_status(), InstanceStatus { broker: false, zigbee2mqtt: None });
}

#[test]
fn managers_end_up_in_their_place() {
    let mut tracker: InstanceTracker<u8> = InstanceTracker::new();
    tracker.insert("other", Some(9));

    // A new instance is pending until its manager has been started.
    assert_eq!(tracker.register("a"), None);
    assert!(matches!(tracker.get("a"), InstanceTrackStatus::Pending));
    assert!(matches!(tracker.begin_setup("a", None), SetupStep::Create));
    assert!(matches!(tracker.get("a"), InstanceTrackStatus::Pending));
    assert!(matches!(tracker.finish_setup("a", Some(Ok(1))), Ok(1)));
    assert!(matches!(tracker.get("a"), InstanceTrackStatus::Ready(1)));

    // A manager that takes over the options is kept.
    assert_eq!(tracker.register("a"), Some(1));
    assert!(matches!(tracker.begin_setup("a", Some((1, Ok(true)))), SetupStep::Keep(1)));
    assert!(matches!(tracker.get("a"), InstanceTrackStatus::Ready(1)));

    // One that doesn't is replaced, and is gone even if no other one can be started.
    let stopped = || Err(Error::ManagerShutDown(None));
    assert!(matches!(
        tracker.begin_setup("a", Some((1, stopped()))),
        SetupStep::Replace(1)
    ));
    assert!(matches!(tracker.get("a"), InstanceTrackStatus::Pending));
    let failed = Error::ActionFailed(owned("e"), None).unknown_cause();
    let error = tracker.finish_setup("a", Some(Err(failed))).unwrap_err();
    assert_eq!(error.error().message(), "Action failed: e");
    assert!(matches!(tracker.get("a"), InstanceTrackStatus::Pending));
    let error = tracker.finish_setup("a", None).unwrap_err();
    assert_eq!(
        error.error().message(),
        "Action failed: timeout while starting manager instance",
    );
    assert!(matches!(tracker.get("a"), InstanceTrackStatus::Pending));
    assert!(matches!(tracker.get("other"), InstanceTrackStatus::Ready(9)));
}

#[test]
fn credentials_need_both_parts() {
    let failed = |text: &str| Err(Error::ActionFailed(owned(text), None));
    let found = use_credentials(Ok(owned("u")), Ok(owned("p"))).unwrap();
    assert_eq!(found, (owned("u"), owned("p")));
    let error = use_credentials(failed("a"), failed("b")).unwrap_err();
    assert_eq!(error.source().as_deref(), Some("spec.credentials.username"));
    assert_eq!(error.error().message(), "Action failed: a");
    let error = use_credentials(Ok(owned("u")), failed("b")).unwrap_err();
    assert_eq!(error.source().as_deref(), Some("spec.credentials.password"));
    assert_eq!(error.error().message(), "Action failed: b");
}

fn instance_with(devices: InstanceHandleUnmanaged, groups: InstanceHandleUnmanaged) -> Instance {
    Instance {
        spec: InstanceSpec {
            host: owned("broker"),
            port: 1884,
            credentials: None,
            base_topic: owned("base"),
            unmanaged_devices: devices,
            unmanaged_groups: groups,
        },
        status: None,
    }
}

fn handled(mut queue: UnmanagedQueue) -> Vec<(usize, String, bool)> {
    let mut all = vec![];
    loop {
        match queue.next(Ok(())) {
            UnmanagedStep::Handle(unmanaged) => {
                all.push((unmanaged.index, unmanaged.event.note.unwrap(), unmanaged.delete));
            }
            UnmanagedStep::Done => return all,
            UnmanagedStep::Failed(error) => panic!("unexpected failure: {error:?}"),
        }
    }
}

#[test]
fn unmanaged_resources_are_reported() {
    let resources = || {
        vec![
            (device(None), Some(owned("home"))),
            (
                Device {
                    spec: DeviceSpec { ieee_address: owned("0x2"), ..device(None).spec },
                    status: None,
                },
                Some(owned("away")),
            ),
        ]
    };
    let known = vec![bridge_device("0x1", "one"), bridge_device("0x2", "two")];
    let ignore =
        instance_with(InstanceHandleUnmanaged::Ignore, InstanceHandleUnmanaged::Delete);
    assert!(handled(process_unmanaged(&ignore, "home/main", &resources(), &known)).is_empty());
    let inform =
        instance_with(InstanceHandleUnmanaged::Inform, InstanceHandleUnmanaged::Delete);
    assert_eq!(
        handled(process_unmanaged(&inform, "home/main", &resources(), &known)),
        vec![(
            1,
            owned("Zigbee2MQTT has Device 0x2 (name 'two') which is not defined in K8s."),
            false,
        )],
    );
    assert_eq!(
        delete_device_error().error().message(),
        "Action failed: deleting of unmanaged devices in Zigbee2MQTT is not supported",
    );
}

#[test]
fn unmanaged_resources_are_deleted() {
    let instance =
        instance_with(InstanceHandleUnmanaged::Ignore, InstanceHandleUnmanaged::Delete);
    let resources = vec![(group(None, Some(2), None), None), (group(None, None, None), None)];
    let known = vec![bridge_group(1, "a"), bridge_group(2, "b"), bridge_group(3, "c")];
    let queue = || process_unmanaged(&instance, "main", &resources, &known);
    assert_eq!(
        handled(queue()),
        vec![
            (
                0,
                owned("Zigbee2MQTT has Group 1 (name 'a') which is not defined in K8s, deleting."),
                true,
            ),
            (
                2,
                owned("Zigbee2MQTT has Group 3 (name 'c') which is not defined in K8s, deleting."),
                true,
            ),
        ],
    );
    let mut queue = queue();
    assert!(matches!(queue.next(Ok(())), UnmanagedStep::Handle(_)));
    let failed = Error::ActionFailed(owned("e"), None).unknown_cause();
    match queue.next(Err(failed)) {
        UnmanagedStep::Failed(error) => {
            assert_eq!(error.error().message(), "Action failed: e");
        }
        other => panic!("unexpected step: {other:?}"),
    }
}

#[test]
fn restart_is_announced() {
    assert!(restart_if_needed(false).is_none());
    assert_eq!(
        restart_if_needed(true).unwrap().note.as_deref(),
        Some("Zigbee2MQTT requested restart, doing so now. Any reconcile actions on this instance during this restart will fail."),
    );
}

#[test]
fn instances_become_options() {
    let instance =
        instance_with(InstanceHandleUnmanaged::Ignore, InstanceHandleUnmanaged::Ignore);
    let options =
        instance.to_options(owned("home/main"), Some((owned("u"), owned("p"))));
    assert_eq!(options.client_id, "home/main");
    assert_eq!(options.host.source().map(String::as_str), Some("spec.host"));
    assert_eq!(*options.port, 1884);
    assert_eq!(options.base_topic.value(), "base");
    assert!(options.tls.is_none());
    let credentials = options.credentials.transpose().unwrap().take();
    assert_eq!(credentials.username.value(), "u");
    assert_eq!(
        credentials.password.source().map(String::as_str),
        Some("spec.credentials.password"),
    );
    assert!(instance.to_options(owned("x"), None).credentials.is_none());
}
