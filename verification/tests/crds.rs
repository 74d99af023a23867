use zigbee2mqtt_operator::crds::{
    default_instance, default_instance_base_topic, default_instance_port, use_secret, Device,
    DeviceSpec, DeviceStatus, Group, GroupSpec, GroupStatus, Instance, InstanceHandleUnmanaged,
    InstanceSpec, InstanceStatus, Instanced, SecretData, SecretKeyRef, Value, ValueSource,
};
use zigbee2mqtt_operator::error::ForeignError;
use zigbee2mqtt_operator::instance::{password_path, report_plainly, username_path};
use zigbee2mqtt_operator::mqtt::manager::{ConnectionStatus, Status, Z2MStatus};

fn reference(namespace: Option<&str>) -> SecretKeyRef {
    SecretKeyRef {
        namespace: namespace.map(str::to_owned),
        name: "secret".to_owned(),
        key: "password".to_owned(),
    }
}

fn secret(namespace: Option<&str>) -> Value {
    Value::Secret { secret_key_ref: reference(namespace) }
}

fn instance() -> Instance {
    Instance {
        spec: InstanceSpec {
            host: "broker".to_owned(),
            port: 1884,
            credentials: None,
            base_topic: "base".to_owned(),
            unmanaged_devices: InstanceHandleUnmanaged::Inform,
            unmanaged_groups: InstanceHandleUnmanaged::Inform,
        },
        status: None,
    }
}

#[test]
fn defaults() {
    assert_eq!(default_instance_port(), 1883);
    assert_eq!(default_instance_base_topic(), "zigbee2mqtt");
    assert_eq!(default_instance(), "default");
    assert_eq!(InstanceStatus::default(), InstanceStatus { broker: false, zigbee2mqtt: None });
    assert_eq!(DeviceStatus::default(), DeviceStatus { exists: None, synced: None });
    assert_eq!(GroupStatus::default(), GroupStatus { exists: None, synced: None, id: None });
}

#[test]
fn inline_values_are_given() {
    match Value::Inline("x".to_owned()).get(None, "id") {
        Ok(ValueSource::Inline(value)) => assert_eq!(value, "x"),
        other => panic!("unexpected source: {other:?}"),
    }
}

#[test]
fn secrets_are_in_a_namespace() {
    match secret(Some("own")).get(Some("parent"), "id") {
        Ok(ValueSource::Secret { namespace, name }) => {
            assert_eq!(namespace, "own");
            assert_eq!(name, "secret");
        }
        other => panic!("unexpected source: {other:?}"),
    }
    match secret(None).get(Some("parent"), "id") {
        Ok(ValueSource::Secret { namespace, .. }) => assert_eq!(namespace, "parent"),
        other => panic!("unexpected source: {other:?}"),
    }
    assert_eq!(
        secret(None).get(None, "id").unwrap_err().message(),
        "Invalid resource at .namespace: parent resource id does not have a namespace, so reference must specify namespace",
    );
}

#[test]
fn secrets_hold_text() {
    let found = SecretData::Found("pässword".as_bytes().to_vec());
    assert_eq!(reference(None).get(found).unwrap(), "pässword");
    assert_eq!(reference(None).get(SecretData::Found(vec![])).unwrap(), "");
}

#[test]
fn secrets_can_be_wrong() {
    assert_eq!(
        reference(None).get(SecretData::Found(vec![0x61, 0xff])).unwrap_err().describe(),
        "ActionFailed(\"failed to parse secret data\", Some(Utf8Error { valid_up_to: 1, error_len: Some(1) }))",
    );
    assert_eq!(
        reference(None).get(SecretData::Missing).unwrap_err().message(),
        "Invalid resource at .key: secret does not have data with password",
    );
    let cause = ForeignError { display: "d".to_owned(), debug: "D".to_owned() };
    assert_eq!(
        reference(None).get(SecretData::Unavailable(cause.clone())).unwrap_err().describe(),
        "ActionFailed(\"failed to get secret\", Some(D))",
    );
    assert_eq!(use_secret(Ok("x".to_owned())).unwrap(), "x");
    assert_eq!(
        use_secret(Err(cause)).unwrap_err().describe(),
        "ActionFailed(\"failed to parse secret data\", Some(D))",
    );
}

#[test]
fn resources_belong_to_instances() {
    let device = Device {
        spec: DeviceSpec {
            instance: "main".to_owned(),
            ieee_address: "0x1".to_owned(),
            friendly_name: None,
            options: None,
            capabilities: None,
        },
        status: None,
    };
    let name = device.get_instance_fullname(Some("home"));
    assert_eq!(name.source().map(String::as_str), Some("spec.instance"));
    assert_eq!(name.take(), "home/main");
    let group = Group {
        spec: GroupSpec {
            instance: "main".to_owned(),
            friendly_name: "g".to_owned(),
            id: None,
            members: None,
            options: None,
        },
        status: None,
    };
    assert_eq!(group.get_instance_fullname(None).take(), "main");
}

#[test]
fn instances_have_options() {
    let options = instance().to_mqtt_options(
        "home/main".to_owned(),
        Some(("u".to_owned(), "p".to_owned())),
    );
    assert_eq!(options.base_topic, "base");
    assert_eq!(options.connection.id, "home/main");
    assert_eq!(options.connection.host, "broker");
    assert_eq!(options.connection.port, 1884);
    let credentials = options.connection.credentials.unwrap();
    assert_eq!(credentials.username, "u");
    assert_eq!(credentials.password, "p");
    assert!(instance().to_mqtt_options("x".to_owned(), None).connection.credentials.is_none());
    assert_eq!(username_path(), "spec.credentials.username");
    assert_eq!(password_path(), "spec.credentials.password");
}

#[test]
fn plain_reports() {
    let unknown = InstanceStatus { broker: false, zigbee2mqtt: None };
    let healthy = InstanceStatus { broker: true, zigbee2mqtt: Some(true) };
    let connected = Status::ConnectionStatus(ConnectionStatus::Active);
    assert_eq!(
        report_plainly(unknown, &connected),
        InstanceStatus { broker: true, zigbee2mqtt: None },
    );
    let pending = Status::ConnectionStatus(ConnectionStatus::Pending);
    assert_eq!(report_plainly(healthy, &pending), healthy);
    for status in [
        ConnectionStatus::Inactive,
        ConnectionStatus::Closed,
        ConnectionStatus::Failed("f".to_owned()),
        ConnectionStatus::Refused("r".to_owned()),
    ] {
        assert_eq!(
            report_plainly(healthy, &Status::ConnectionStatus(status)),
            InstanceStatus { broker: false, zigbee2mqtt: Some(false) },
        );
    }
    assert_eq!(report_plainly(unknown, &Status::Z2MStatus(Z2MStatus::HealthOk)), healthy);
    assert_eq!(
        report_plainly(healthy, &Status::Z2MStatus(Z2MStatus::HealthError("e".to_owned()))),
        InstanceStatus { broker: true, zigbee2mqtt: Some(false) },
    );
}
