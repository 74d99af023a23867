//! Reconcile logic for [`Instance`], without what needs Zigbee2MQTT.

use vstd::prelude::*;

use crate::crds::{Instance, InstanceStatus};
use crate::mqtt::manager::{ConnectionStatus, Status, Z2MStatus};
use crate::mqtt::mqtt::{MQTTCredentials, MQTTOptions};

verus! {

/// How long to wait until an instance is looked at again, in seconds.
pub const REQUEUE: u64 = 15;

/// How long to wait until an instance that is deleted is looked at again, in seconds.
pub const REQUEUE_CLEANUP: u64 = 300;

/// How long a manager may take to start, in seconds.
pub const START_TIMEOUT: u64 = 30;

/// The path of the user name of an instance.
pub fn username_path() -> (r: &'static str)
    ensures
        r@ == "spec.credentials.username"@,
{
    "spec.credentials.username"
}

/// The path of the password of an instance.
pub fn password_path() -> (r: &'static str)
    ensures
        r@ == "spec.credentials.password"@,
{
    "spec.credentials.password"
}

/// How to connect to the broker of an instance, and where Zigbee2MQTT is found there.
pub struct InstanceOptions {
    /// How to connect to the broker.
    pub connection: MQTTOptions,
    /// The topic below which Zigbee2MQTT publishes.
    pub base_topic: String,
}

impl Instance {
    /// How to reach Zigbee2MQTT, given the name of the instance and the credentials, if there are any.
    pub fn to_mqtt_options(&self, full_name: String, credentials: Option<(String, String)>) -> (r:
        InstanceOptions)
        ensures
            r.base_topic@ == self.spec.base_topic@,
            r.connection.id == full_name,
            r.connection.host@ == self.spec.host@,
            r.connection.port == self.spec.port,
            match (r.connection.credentials, credentials) {
                (Some(c), Some((username, password))) => c.username == username && c.password
                    == password,
                (None, None) => true,
                _ => false,
            },
    {
        InstanceOptions {
            connection: MQTTOptions {
                id: full_name,
                host: self.spec.host.clone(),
                port: self.spec.port,
                credentials: match credentials {
                    Some((username, password)) => Some(MQTTCredentials { username, password }),
                    None => None,
                },
            },
            base_topic: self.spec.base_topic.clone(),
        }
    }
}

/// The status of an instance after something was reported about it. Without a report about its
/// health Zigbee2MQTT counts as not reachable.
pub open spec fn reported_plainly(status: InstanceStatus, event: Status) -> InstanceStatus {
    match event {
        Status::ConnectionStatus(ConnectionStatus::Active) => InstanceStatus {
            broker: true,
            ..status
        },
        Status::ConnectionStatus(ConnectionStatus::Pending) => status,
        Status::ConnectionStatus(_) => InstanceStatus { broker: false, zigbee2mqtt: Some(false) },
        Status::Z2MStatus(Z2MStatus::HealthOk) => InstanceStatus {
            broker: true,
            zigbee2mqtt: Some(true),
        },
        Status::Z2MStatus(Z2MStatus::HealthError(_)) => InstanceStatus {
            zigbee2mqtt: Some(false),
            ..status
        },
    }
}

/// See [`reported_plainly`].
pub fn report_plainly(status: InstanceStatus, event: &Status) -> (r: InstanceStatus)
    ensures
        r == reported_plainly(status, *event),
{
    match event {
        Status::ConnectionStatus(ConnectionStatus::Active) => InstanceStatus {
            broker: true,
            zigbee2mqtt: status.zigbee2mqtt,
        },
        Status::ConnectionStatus(ConnectionStatus::Pending) => status,
        Status::ConnectionStatus(_) => InstanceStatus { broker: false, zigbee2mqtt: Some(false) },
        Status::Z2MStatus(Z2MStatus::HealthOk) => InstanceStatus {
            broker: true,
            zigbee2mqtt: Some(true),
        },
        Status::Z2MStatus(Z2MStatus::HealthError(_)) => InstanceStatus {
            broker: status.broker,
            zigbee2mqtt: Some(false),
        },
    }
}

} // verus!
