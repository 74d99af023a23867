//! Requests to Zigbee2MQTT, and what it publishes about its state.

pub mod device;
pub mod group;
pub mod laws;
pub mod lib;
pub mod misc;

pub use device::{
    BridgeDevicesTracker, CapabilitiesManager as DeviceCapabilitiesManager,
    OptionsManager as DeviceOptionsManager,
};
pub use group::{
    BridgeGroup, BridgeGroupsTracker, Creator as GroupCreator, Deletor as GroupDeletor,
    MemberAdder as GroupMemberAdder, MemberRemover as GroupMemberRemover,
    OptionsManager as GroupOptionsManager, Renamer as GroupRenamer,
};
pub use misc::{
    BridgeExtensionsTracker, BridgeInfoConfig, BridgeInfoPayload, BridgeInfoTracker,
    ExtensionInstaller, HealthChecker, Restarter,
};

use vstd::prelude::*;

use crate::error;
use crate::error::{Error, ErrorWithMeta};
use crate::json;
use crate::json::JsonValue;
use crate::text;
use device::{check_device, RenameRequest, RenameResponse};
use lib::{accept, properties_message, BridgeRequestType, Configuration, RequestResponse};

verus! {

/// Something that is asked of Zigbee2MQTT.
pub trait Handler: Sized {
    /// What comes of it.
    type Result;
}

impl Handler for HealthChecker {
    type Result = ();
}

impl Handler for BridgeInfoTracker {
    type Result = BridgeInfoPayload;
}

impl Handler for DeviceRenamer {
    type Result = ();
}

impl Handler for DeviceOptionsManager {
    type Result = Configuration;
}

impl Handler for DeviceCapabilitiesManager {
    type Result = Configuration;
}

/// What matters of a device for whether it can be managed.
#[derive(Debug)]
pub struct BridgeDevice {
    /// The address of the device.
    pub ieee_address: String,
    /// The name of the device.
    pub friendly_name: String,
    /// Whether Zigbee2MQTT has finished adding the device.
    pub interview_completed: bool,
    /// Whether Zigbee2MQTT supports the device.
    pub supported: bool,
}

/// The first device with the given address.
pub open spec fn known_device(devices: Seq<BridgeDevice>, ieee_address: Seq<char>) -> Option<
    BridgeDevice,
>
    decreases devices.len(),
{
    if devices.len() == 0 {
        None
    } else if devices[0].ieee_address@ == ieee_address {
        Some(devices[0])
    } else {
        known_device(devices.drop_first(), ieee_address)
    }
}

/// Get the device with the given address.
pub fn get_device<'a>(devices: &'a Vec<BridgeDevice>, ieee_address: &str) -> (r: Result<
    &'a BridgeDevice,
    Error,
>)
    ensures
        ({
            let device = known_device(devices@, ieee_address@);
            let problem = device::device_problem(
                ieee_address@,
                match device {
                    Some(d) => Some((d.interview_completed, d.supported)),
                    None => None,
                },
            );
            match r {
                Ok(d) => problem is None && device == Some(*d),
                Err(e) => problem == Some(e@),
            }
        }),
{
    let mut i: usize = 0;
    proof {
        assert(devices@.skip(0) =~= devices@);
    }
    while i < devices.len()
        invariant
            i <= devices@.len(),
            known_device(devices@, ieee_address@) == known_device(
                devices@.skip(i as int),
                ieee_address@,
            ),
        decreases devices@.len() - i,
    {
        let device = &devices[i];
        proof {
            assert(devices@.skip(i as int)[0] == devices@[i as int]);
            assert(devices@.skip(i as int).drop_first() =~= devices@.skip(i + 1));
        }
        if text::same_text(device.ieee_address.as_str(), ieee_address) {
            return match check_device(
                ieee_address,
                Some((device.interview_completed, device.supported)),
            ) {
                Ok(_) => Ok(device),
                Err(error) => Err(error),
            };
        }
        i = i + 1;
    }
    Err(device::unknown_device(ieee_address))
}

/// Zigbee2MQTT device rename request. A response is only related to the request if it is about the
/// new name being in use already.
#[derive(Debug)]
pub struct DeviceRenamer;

/// The error for a name that is in use already.
pub open spec fn name_in_use(friendly_name: Seq<char>) -> Seq<char> {
    "friendly_name '"@ + friendly_name + "' is already in use"@
}

impl BridgeRequestType for DeviceRenamer {
    type Request = RenameRequest;

    type Response = RenameResponse;

    open spec fn request_name() -> Seq<char> {
        "device/rename"@
    }

    open spec fn document(request: RenameRequest) -> json::Json {
        json::Json::Object(
            seq![
                ("from"@, json::Json::Text(request.from@)),
                ("homeassistant_rename"@, json::Json::Bool(request.homeassistant_rename)),
                ("to"@, json::Json::Text(request.to@)),
            ],
        )
    }

    open spec fn is_related(
        request: RenameRequest,
        response: RequestResponse<RenameResponse>,
    ) -> bool {
        match response {
            RequestResponse::Success { data } => data.to@ == request.to@,
            RequestResponse::Error { error } => error@ == name_in_use(request.to@),
        }
    }

    open spec fn blame(
        request: RenameRequest,
        response: RequestResponse<RenameResponse>,
    ) -> Option<Seq<char>> {
        None
    }

    fn name() -> (r: &'static str) {
        "device/rename"
    }

    fn message(request: &RenameRequest) -> (r: String) {
        let mut properties: Vec<(&'static str, JsonValue)> = Vec::new();
        properties.push(("from", JsonValue::Text(request.from.clone())));
        properties.push(("homeassistant_rename", JsonValue::Bool(request.homeassistant_rename)));
        properties.push(("to", JsonValue::Text(request.to.clone())));
        proof {
            assert(lib::properties_document(properties@)->Object_0 =~= Self::document(
                *request,
            )->Object_0);
        }
        properties_message(&properties)
    }

    fn process_response(request: &RenameRequest, response: RequestResponse<RenameResponse>) -> (r:
        Option<Result<RenameResponse, ErrorWithMeta>>) {
        let related = match &response {
            RequestResponse::Success { data } => text::same_text(
                data.to.as_str(),
                request.to.as_str(),
            ),
            RequestResponse::Error { error } => {
                let expected = "friendly_name '".to_owned().concat(request.to.as_str()).concat(
                    "' is already in use",
                );
                text::same_text(error.as_str(), expected.as_str())
            },
        };
        if related {
            accept(response)
        } else {
            None
        }
    }
}

} // verus!
