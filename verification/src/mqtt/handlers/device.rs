//! Devices: what is known about them, their names, their options and their capabilities.

use std::sync::Arc;

use vstd::prelude::*;

use super::lib;
use super::lib::{
    accept, message_mentions, options_message, rename_message, BridgeRequestType, Configuration,
    ConfigurationManagerInner, RequestResponse, TopicTracker,
};
use crate::error;
use crate::error::{Error, ErrorWithMeta};
use crate::json;
use crate::json::JsonValue;
use crate::mqtt::exposes::{DeviceCapabilitiesSchema, DeviceOptionsSchema};
use crate::text;

verus! {

/// Type of a bridge device.
///
/// From <https://www.zigbee2mqtt.io/advanced/zigbee/01_zigbee_network.html>.
#[derive(Clone, Copy, Debug, PartialEq, Eq, Structural)]
pub enum BridgeDeviceType {
    /// End devices do not route traffic. They may also sleep, which makes end devices a suitable
    /// choice for battery operated devices. An end device only has one parent, either the coordinator
    /// or a router, generally the closest device when it was paired. All communications to and from
    /// the end device is via their parent.
    EndDevice,
    /// Routers are responsible for routing traffic between different nodes. Routers may not sleep. As
    /// such, routers are not a suitable choice for battery operated devices. Routers are also
    /// responsible for receiving and storing messages intended for their children. In addition to
    /// this, routers guard the network. They are responsible for allowing new nodes to join the
    /// network.
    Router,
    /// A coordinator is a special router. In addition to all of the router capabilities, the
    /// coordinator is responsible for forming the network. To do that, it must select the appropriate
    /// channel, PAN ID, and extended network address. It is also responsible for selecting the
    /// security mode of the network.
    ///
    /// Every network always has exactly one of these.
    Coordinator,
    /// Unknown type of device.
    Other,
}

/// What a device offers.
#[derive(Debug)]
pub struct BridgeDeviceDefinition {
    /// The options of the device.
    pub options: DeviceOptionsSchema,
    /// The capabilities of the device.
    pub exposes: DeviceCapabilitiesSchema,
}

impl Default for BridgeDeviceDefinition {
    fn default() -> (r: Self)
        ensures
            crate::mqtt::exposes::are_common_device_options(r.options.features()),
            r.exposes.features() == Seq::<crate::mqtt::exposes::Schema>::empty(),
    {
        BridgeDeviceDefinition {
            options: DeviceOptionsSchema::default(),
            exposes: DeviceCapabilitiesSchema::default(),
        }
    }
}

/// A device that Zigbee2MQTT knows.
#[derive(Debug)]
pub struct BridgeDevice {
    /// The address of the device.
    pub ieee_address: String,
    /// The name of the device.
    pub friendly_name: String,
    /// Whether Zigbee2MQTT has finished adding the device.
    pub interview_completed: bool,
    /// The type of the device.
    pub type_: BridgeDeviceType,
    /// Whether Zigbee2MQTT supports the device.
    pub supported: bool,
    /// What the device offers, if this is known.
    pub definition: Option<BridgeDeviceDefinition>,
}

/// The devices that Zigbee2MQTT knows.
pub type BridgeDevicesPayload = Vec<BridgeDevice>;

/// Track bridge device topic.
#[derive(Debug)]
pub struct BridgeDevicesTracker(pub TopicTracker<Arc<BridgeDevicesPayload>>);

/// Whether a device can be managed: none if it can, or else why not.
pub open spec fn device_problem(
    ieee_address: Seq<char>,
    device: Option<(bool, bool)>,
) -> Option<error::ErrorModel> {
    match device {
        Some((interview_completed, supported)) => if !interview_completed {
            Some(
                error::ErrorModel::ActionFailed(
                    "device with ieee_address "@ + ieee_address
                        + " is still being added to Zigbee2MQTT"@,
                    None,
                ),
            )
        } else if !supported {
            Some(
                error::ErrorModel::InvalidResource {
                    field_path: Seq::empty(),
                    message: "device is not supported by Zigbee2MQTT"@,
                },
            )
        } else {
            None
        },
        None => Some(
            error::ErrorModel::InvalidResource {
                field_path: Seq::empty(),
                message: "device is not known to Zigbee2MQTT"@,
            },
        ),
    }
}

/// Check whether a device can be managed, given whether it has been added completely and whether it
/// is supported, or nothing if there is no such device.
pub fn check_device(ieee_address: &str, device: Option<(bool, bool)>) -> (r: Result<(), Error>)
    ensures
        match r {
            Ok(_) => device_problem(ieee_address@, device) is None,
            Err(e) => device_problem(ieee_address@, device) == Some(e@),
        },
{
    match device {
        Some((interview_completed, supported)) => {
            if !interview_completed {
                Err(
                    Error::ActionFailed(
                        "device with ieee_address ".to_owned().concat(ieee_address).concat(
                            " is still being added to Zigbee2MQTT",
                        ),
                        None,
                    ),
                )
            } else if !supported {
                Err(
                    Error::InvalidResource {
                        field_path: String::new(),
                        message: "device is not supported by Zigbee2MQTT".to_owned(),
                    },
                )
            } else {
                Ok(())
            }
        },
        None => Err(unknown_device(ieee_address)),
    }
}

pub(crate) fn unknown_device(ieee_address: &str) -> (r: Error)
    ensures
        device_problem(ieee_address@, None) == Some(r@),
{
    Error::InvalidResource {
        field_path: String::new(),
        message: "device is not known to Zigbee2MQTT".to_owned(),
    }
}

/// The index of the first device with the given address.
pub open spec fn device_index(devices: Seq<BridgeDevice>, ieee_address: Seq<char>) -> Option<int>
    decreases devices.len(),
{
    if devices.len() == 0 {
        None
    } else {
        match device_index(devices.drop_last(), ieee_address) {
            Some(i) => Some(i),
            None => if devices.last().ieee_address@ == ieee_address {
                Some(devices.len() - 1)
            } else {
                None
            },
        }
    }
}

/// What matters of a device for whether it can be managed.
pub open spec fn device_state(devices: Seq<BridgeDevice>, index: Option<int>) -> Option<
    (bool, bool),
> {
    match index {
        Some(i) => Some((devices[i].interview_completed, devices[i].supported)),
        None => None,
    }
}

impl BridgeDevicesTracker {
    /// The topic.
    pub fn topic() -> (r: &'static str)
        ensures
            r@ == "bridge/devices"@,
    {
        "bridge/devices"
    }

    fn find(devices: &BridgeDevicesPayload, ieee_address: &str) -> (r: Option<usize>)
        ensures
            match r {
                Some(i) => i < devices@.len() && device_index(devices@, ieee_address@) == Some(
                    i as int,
                ),
                None => device_index(devices@, ieee_address@) is None,
            },
    {
        let mut found: Option<usize> = None;
        proof {
            assert(devices@.take(0) =~= Seq::empty());
        }
        for i in 0..devices.len()
            invariant
                match found {
                    Some(k) => k < i && device_index(devices@.take(i as int), ieee_address@)
                        == Some(k as int),
                    None => device_index(devices@.take(i as int), ieee_address@) is None,
                },
        {
            proof {
                assert(devices@.take(i + 1).drop_last() =~= devices@.take(i as int));
            }
            if found.is_none() && text::same_text(devices[i].ieee_address.as_str(), ieee_address) {
                found = Some(i);
            }
        }
        proof {
            assert(devices@.take(devices@.len() as int) =~= devices@);
        }
        found
    }

    /// Get the device with the given address.
    pub fn get_device<'a>(devices: &'a BridgeDevicesPayload, ieee_address: &str) -> (r: Result<
        &'a BridgeDevice,
        Error,
    >)
        ensures
            ({
                let index = device_index(devices@, ieee_address@);
                let problem = device_problem(ieee_address@, device_state(devices@, index));
                match r {
                    Ok(device) => problem is None && (index matches Some(i) && *device
                        == devices@[i]),
                    Err(e) => problem == Some(e@),
                }
            }),
    {
        match Self::find(devices, ieee_address) {
            Some(i) => {
                let device = &devices[i];
                match check_device(
                    ieee_address,
                    Some((device.interview_completed, device.supported)),
                ) {
                    Ok(_) => Ok(device),
                    Err(error) => Err(error),
                }
            },
            None => Err(unknown_device(ieee_address)),
        }
    }
}

/// Rename devices.
#[derive(Debug)]
pub struct Renamer;

/// A request to rename a device.
#[derive(Debug)]
pub struct RenameRequest {
    /// The address of the device.
    pub from: String,
    /// The new name of the device.
    pub to: String,
    /// Whether to rename the device in Home Assistant too.
    pub homeassistant_rename: bool,
}

/// A device that was renamed.
#[derive(Debug)]
pub struct RenameResponse {
    /// The new name of the device.
    pub to: String,
}

impl Renamer {
    /// The request to give a device a new name.
    pub fn request(ieee_address: &str, friendly_name: &str) -> (r: RenameRequest)
        ensures
            r.from@ == ieee_address@,
            r.to@ == friendly_name@,
            r.homeassistant_rename,
    {
        RenameRequest {
            from: ieee_address.to_owned(),
            to: friendly_name.to_owned(),
            homeassistant_rename: true,
        }
    }
}

impl BridgeRequestType for Renamer {
    type Request = RenameRequest;

    type Response = RenameResponse;

    open spec fn request_name() -> Seq<char> {
        "device/rename"@
    }

    open spec fn document(request: RenameRequest) -> json::Json {
        lib::rename_document(
            json::Json::Text(request.from@),
            request.to@,
            request.homeassistant_rename,
        )
    }

    open spec fn is_related(
        request: RenameRequest,
        response: RequestResponse<RenameResponse>,
    ) -> bool {
        match response {
            RequestResponse::Success { data } => data.to@ == request.to@,
            RequestResponse::Error { error } => lib::mentions(error@, request.to@),
        }
    }

    open spec fn blame(
        request: RenameRequest,
        response: RequestResponse<RenameResponse>,
    ) -> Option<Seq<char>> {
        None
    }

    fn name() -> (r: &'static str) {
        "device/rename"
    }

    fn message(request: &RenameRequest) -> (r: String) {
        rename_message(
            JsonValue::Text(request.from.clone()),
            request.to.as_str(),
            request.homeassistant_rename,
        )
    }

    fn process_response(request: &RenameRequest, response: RequestResponse<RenameResponse>) -> (r:
        Option<Result<RenameResponse, ErrorWithMeta>>) {
        let related = match &response {
            RequestResponse::Success { data } => text::same_text(
                data.to.as_str(),
                request.to.as_str(),
            ),
            RequestResponse::Error { error } => message_mentions(
                error.as_str(),
                request.to.as_str(),
            ),
        };
        if related {
            accept(response)
        } else {
            None
        }
    }
}

/// Manage device options.
#[derive(Debug)]
pub struct OptionsManager {
    /// The address of the device.
    pub ieee_address: String,
}

/// A request to set options of a device.
#[derive(Debug)]
pub struct OptionsRequest {
    /// The address of the device.
    pub id: String,
    /// The options to set.
    pub options: Configuration,
}

/// The options of a device after a change.
#[derive(Debug)]
pub struct OptionsResponse {
    /// The address of the device.
    pub id: String,
    /// The options.
    pub to: Configuration,
}

impl OptionsManager {
    /// Create a manager for the options of a device.
    pub fn new(ieee_address: String) -> (r: Self)
        ensures
            r.ieee_address == ieee_address,
    {
        OptionsManager { ieee_address }
    }

    /// The request to set options.
    pub fn request(&self, configuration: &Configuration) -> (r: OptionsRequest)
        ensures
            r.id@ == self.ieee_address@,
            r.options@ == configuration@,
    {
        OptionsRequest { id: self.ieee_address.clone(), options: configuration.clone() }
    }

    /// The schema of the options of a device, or the default one if it isn't known.
    pub fn schema<'a>(device: &'a BridgeDevice, default: &'a BridgeDeviceDefinition) -> (r:
        &'a DeviceOptionsSchema)
        ensures
            *r == match device.definition {
                Some(definition) => definition.options,
                None => default.options,
            },
    {
        match &device.definition {
            Some(definition) => &definition.options,
            None => &default.options,
        }
    }
}

impl ConfigurationManagerInner for OptionsManager {
    open spec fn category() -> Seq<char> {
        "option"@
    }

    open spec fn clears(key: Seq<char>) -> bool {
        key != "friendly_name"@
    }

    fn name() -> (r: &'static str) {
        "option"
    }

    fn clear_property(key: &str) -> (r: bool) {
        !text::same_text(key, "friendly_name")
    }
}

impl BridgeRequestType for OptionsManager {
    type Request = OptionsRequest;

    type Response = OptionsResponse;

    open spec fn request_name() -> Seq<char> {
        "device/options"@
    }

    open spec fn document(request: OptionsRequest) -> json::Json {
        lib::options_document(json::Json::Text(request.id@), request.options@)
    }

    open spec fn is_related(
        request: OptionsRequest,
        response: RequestResponse<OptionsResponse>,
    ) -> bool {
        match response {
            RequestResponse::Success { data } => data.id@ == request.id@,
            RequestResponse::Error { error } => lib::mentions(error@, request.id@),
        }
    }

    open spec fn blame(
        request: OptionsRequest,
        response: RequestResponse<OptionsResponse>,
    ) -> Option<Seq<char>> {
        None
    }

    fn name() -> (r: &'static str) {
        "device/options"
    }

    fn message(request: &OptionsRequest) -> (r: String) {
        options_message(JsonValue::Text(request.id.clone()), &request.options)
    }

    fn process_response(request: &OptionsRequest, response: RequestResponse<OptionsResponse>) -> (r:
        Option<Result<OptionsResponse, ErrorWithMeta>>) {
        let related = match &response {
            RequestResponse::Success { data } => text::same_text(
                data.id.as_str(),
                request.id.as_str(),
            ),
            RequestResponse::Error { error } => message_mentions(
                error.as_str(),
                request.id.as_str(),
            ),
        };
        if related {
            accept(response)
        } else {
            None
        }
    }
}

/// Manage device capabilities.
#[derive(Debug)]
pub struct CapabilitiesManager {
    /// The address of the device.
    pub ieee_address: String,
    /// The name of the device.
    pub friendly_name: String,
}

/// A message on the log of the bridge.
#[derive(Debug)]
pub struct CapabilitiesLogResponse {
    /// The message.
    pub message: String,
    /// What the message is about.
    pub meta: CapabilitiesLogResponseMeta,
}

/// What a message on the log of the bridge is about.
#[derive(Debug)]
pub struct CapabilitiesLogResponseMeta {
    /// The name of the device.
    pub friendly_name: String,
}

/// Something that happens while capabilities are read or written.
#[derive(Debug)]
pub enum CapabilitiesEvent {
    /// Half the timeout has elapsed.
    HalfTimeout,
    /// The message was sent again.
    Resent(Result<(), Error>),
    /// The timeout has elapsed.
    Timeout,
    /// The device has published its state.
    Device(Result<Configuration, Error>),
    /// A message has appeared on the log of the bridge.
    Log(Result<CapabilitiesLogResponse, Error>),
}

/// What to do next while capabilities are read or written.
#[derive(Debug)]
pub enum CapabilitiesStep {
    /// Send the message again, and then wait for something else to happen.
    Resend,
    /// Wait for something else to happen.
    Wait,
    /// Reading or writing has ended.
    Done(Result<Configuration, Error>),
}

/// The error that ends an action on the capabilities of a device after too much time.
pub open spec fn timeout_note(verb: Seq<char>, friendly_name: Seq<char>) -> Seq<char> {
    "timeout while attempting to "@ + verb + " current state of device "@ + friendly_name
}

/// The error that ends an action on the capabilities of a device that Zigbee2MQTT has logged an error
/// for.
pub open spec fn log_note(verb: Seq<char>, friendly_name: Seq<char>, message: Seq<char>) -> Seq<
    char,
> {
    "error while attempting to "@ + verb + " current state of device "@ + friendly_name + ": "@
        + message
}

/// See [`log_note`]. The message that was logged is given as it reads in a technical description.
pub fn log_error(verb: &str, friendly_name: &str, message: &str) -> (r: String)
    ensures
        r@ == log_note(verb@, friendly_name@, message@),
{
    "error while attempting to ".to_owned().concat(verb).concat(
        " current state of device ",
    ).concat(friendly_name).concat(": ").concat(message)
}

/// What comes next after something has happened.
pub open spec fn capabilities_follow(
    friendly_name: Seq<char>,
    verb: Seq<char>,
    event: CapabilitiesEvent,
    step: CapabilitiesStep,
) -> bool {
    match event {
        CapabilitiesEvent::HalfTimeout => step is Resend,
        CapabilitiesEvent::Resent(Ok(_)) => step is Wait,
        CapabilitiesEvent::Resent(Err(e)) => step == CapabilitiesStep::Done(Err(e)),
        CapabilitiesEvent::Timeout => step matches CapabilitiesStep::Done(Err(e)) && e@
            == error::ErrorModel::Zigbee2MQTTError(timeout_note(verb, friendly_name)),
        CapabilitiesEvent::Device(result) => step == CapabilitiesStep::Done(result),
        CapabilitiesEvent::Log(Ok(log)) => if log.meta.friendly_name@ == friendly_name {
            step matches CapabilitiesStep::Done(Err(e)) && e@ == error::ErrorModel::Zigbee2MQTTError(
                log_note(verb, friendly_name, error::described(log.message@)),
            )
        } else {
            step is Wait
        },
        CapabilitiesEvent::Log(Err(e)) => step == CapabilitiesStep::Done(Err(e)),
    }
}

impl CapabilitiesManager {
    /// Create a manager for the capabilities of a device.
    pub fn new(ieee_address: String, friendly_name: String) -> (r: Self)
        ensures
            r.ieee_address == ieee_address,
            r.friendly_name == friendly_name,
    {
        CapabilitiesManager { ieee_address, friendly_name }
    }

    /// The topic that the request to read or write capabilities is published to.
    pub fn topic(&self, verb: &str) -> (r: String)
        ensures
            r@ == self.friendly_name@ + "/"@ + verb@,
    {
        self.friendly_name.clone().concat("/").concat(verb)
    }

    /// Decide what comes next after something has happened.
    ///
    /// If the action succeeds this is returned on the device's topic, but if it fails an error is
    /// logged on the bridge log and nothing appears on the device's topic. Some of the errors don't
    /// have any device identification, so if the action results in an error of this type this will
    /// end in a timeout. Occasionally Zigbee2MQTT appears to miss a message, so it is sent again once
    /// half the timeout has elapsed.
    pub fn run(&self, verb: &str, event: CapabilitiesEvent) -> (r: CapabilitiesStep)
        ensures
            capabilities_follow(self.friendly_name@, verb@, event, r),
    {
        match event {
            CapabilitiesEvent::HalfTimeout => CapabilitiesStep::Resend,
            CapabilitiesEvent::Resent(Ok(_)) => CapabilitiesStep::Wait,
            CapabilitiesEvent::Resent(Err(error)) => CapabilitiesStep::Done(Err(error)),
            CapabilitiesEvent::Timeout => {
                let message = "timeout while attempting to ".to_owned().concat(verb).concat(
                    " current state of device ",
                ).concat(self.friendly_name.as_str());
                CapabilitiesStep::Done(Err(Error::Zigbee2MQTTError(message)))
            },
            CapabilitiesEvent::Device(result) => CapabilitiesStep::Done(result),
            CapabilitiesEvent::Log(Ok(log)) => {
                if text::same_text(
                    log.meta.friendly_name.as_str(),
                    self.friendly_name.as_str(),
                ) {
                    let message = error::describe_text(log.message.as_str());
                    CapabilitiesStep::Done(
                        Err(
                            Error::Zigbee2MQTTError(
                                log_error(verb, self.friendly_name.as_str(), message.as_str()),
                            ),
                        ),
                    )
                } else {
                    CapabilitiesStep::Wait
                }
            },
            CapabilitiesEvent::Log(Err(error)) => CapabilitiesStep::Done(Err(error)),
        }
    }

    /// The message that asks for the current state.
    pub fn get_message() -> (r: &'static str)
        ensures
            r@ == "{\"state\":\"\"}"@,
    {
        "{\"state\":\"\"}"
    }

    /// The message that sets the state.
    pub fn set_message(configuration: &Configuration) -> (r: String)
        ensures
            r@ == json::compact(json::Json::Object(configuration@)),
    {
        json::to_text(&JsonValue::Object(configuration.clone()))
    }

    /// The schema of the capabilities of a device, or the default one if it isn't known.
    pub fn schema<'a>(device: &'a BridgeDevice, default: &'a BridgeDeviceDefinition) -> (r:
        &'a DeviceCapabilitiesSchema)
        ensures
            *r == match device.definition {
                Some(definition) => definition.exposes,
                None => default.exposes,
            },
    {
        match &device.definition {
            Some(definition) => &definition.exposes,
            None => &default.exposes,
        }
    }
}

impl ConfigurationManagerInner for CapabilitiesManager {
    open spec fn category() -> Seq<char> {
        "capability"@
    }

    open spec fn clears(key: Seq<char>) -> bool {
        false
    }

    fn name() -> (r: &'static str) {
        "capability"
    }

    fn clear_property(key: &str) -> (r: bool) {
        false
    }
}

} // verus!
