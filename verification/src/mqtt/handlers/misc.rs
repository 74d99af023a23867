//! The bridge itself: its state, its health and its extensions.

use vstd::prelude::*;

use super::lib::{
    accept, message_of_two, BridgeRequestType, Configuration, RequestResponse, TopicTracker,
};
use crate::error;
use crate::error::{Error, ErrorWithMeta};
use crate::json;
use crate::json::{JsonObject, JsonValue};
use crate::text;

verus! {

/// Track bridge info topic.
#[derive(Debug)]
pub struct BridgeInfoTracker(pub TopicTracker<BridgeInfoPayload>);

impl BridgeInfoTracker {
    /// The topic.
    pub fn topic() -> (r: &'static str)
        ensures
            r@ == "bridge/info"@,
    {
        "bridge/info"
    }
}

/// The state of the bridge.
#[derive(Debug)]
pub struct BridgeInfoPayload {
    /// The configuration of Zigbee2MQTT.
    pub config: BridgeInfoConfig,
    /// Whether Zigbee2MQTT has to be restarted for its configuration to take effect.
    pub restart_required: bool,
}

/// The configuration of Zigbee2MQTT, as far as it is needed.
#[derive(Debug)]
pub struct BridgeInfoConfig {
    /// The options of devices, by their address.
    pub devices: Vec<(String, Configuration)>,
    /// The options of groups, by their number.
    pub groups: Vec<(usize, Configuration)>,
}

impl Clone for BridgeInfoConfig {
    fn clone(&self) -> (r: Self)
        ensures
            r.devices@.len() == self.devices@.len(),
            forall|i: int|
                0 <= i < self.devices@.len() ==> (#[trigger] r.devices@[i]).0@ == self.devices@[i].0@
                    && r.devices@[i].1@ == self.devices@[i].1@,
            r.groups@.len() == self.groups@.len(),
            forall|i: int|
                0 <= i < self.groups@.len() ==> (#[trigger] r.groups@[i]).0 == self.groups@[i].0
                    && r.groups@[i].1@ == self.groups@[i].1@,
    {
        let mut devices: Vec<(String, Configuration)> = Vec::new();
        for i in 0..self.devices.len()
            invariant
                devices@.len() == i,
                forall|j: int|
                    0 <= j < i ==> (#[trigger] devices@[j]).0@ == self.devices@[j].0@
                        && devices@[j].1@ == self.devices@[j].1@,
        {
            devices.push((self.devices[i].0.clone(), self.devices[i].1.clone()));
        }
        let mut groups: Vec<(usize, Configuration)> = Vec::new();
        for i in 0..self.groups.len()
            invariant
                groups@.len() == i,
                forall|j: int|
                    0 <= j < i ==> (#[trigger] groups@[j]).0 == self.groups@[j].0 && groups@[j].1@
                        == self.groups@[j].1@,
        {
            groups.push((self.groups[i].0, self.groups[i].1.clone()));
        }
        BridgeInfoConfig { devices, groups }
    }
}

impl Clone for BridgeInfoPayload {
    fn clone(&self) -> (r: Self)
        ensures
            r.restart_required == self.restart_required,
            cloned(self.config, r.config),
    {
        BridgeInfoPayload {
            config: self.config.clone(),
            restart_required: self.restart_required,
        }
    }
}

/// The options of the first device with the given address; none of them are set if it has none.
pub open spec fn options_of_device(
    devices: Seq<(String, Configuration)>,
    ieee_address: Seq<char>,
) -> Seq<(Seq<char>, json::Json)>
    decreases devices.len(),
{
    if devices.len() == 0 {
        Seq::empty()
    } else if devices[0].0@ == ieee_address {
        devices[0].1@
    } else {
        options_of_device(devices.drop_first(), ieee_address)
    }
}

/// The options of the first group with the given number; none of them are set if it has none.
pub open spec fn options_of_group(groups: Seq<(usize, Configuration)>, id: usize) -> Seq<
    (Seq<char>, json::Json),
>
    decreases groups.len(),
{
    if groups.len() == 0 {
        Seq::empty()
    } else if groups[0].0 == id {
        groups[0].1@
    } else {
        options_of_group(groups.drop_first(), id)
    }
}

impl BridgeInfoConfig {
    /// Get the options of a device.
    pub fn get_device_options(&self, ieee_address: &str) -> (r: Configuration)
        ensures
            r@ == options_of_device(self.devices@, ieee_address@),
    {
        let mut i: usize = 0;
        proof {
            assert(self.devices@.skip(0) =~= self.devices@);
        }
        while i < self.devices.len()
            invariant
                i <= self.devices@.len(),
                options_of_device(self.devices@, ieee_address@) == options_of_device(
                    self.devices@.skip(i as int),
                    ieee_address@,
                ),
            decreases self.devices@.len() - i,
        {
            if text::same_text(self.devices[i].0.as_str(), ieee_address) {
                return self.devices[i].1.clone();
            }
            proof {
                assert(self.devices@.skip(i as int).drop_first() =~= self.devices@.skip(i + 1));
            }
            i = i + 1;
        }
        JsonObject::new()
    }

    /// Get the options of a group.
    pub fn get_group_options(&self, id: usize) -> (r: Configuration)
        ensures
            r@ == options_of_group(self.groups@, id),
    {
        let mut i: usize = 0;
        proof {
            assert(self.groups@.skip(0) =~= self.groups@);
        }
        while i < self.groups.len()
            invariant
                i <= self.groups@.len(),
                options_of_group(self.groups@, id) == options_of_group(
                    self.groups@.skip(i as int),
                    id,
                ),
            decreases self.groups@.len() - i,
        {
            if self.groups[i].0 == id {
                return self.groups[i].1.clone();
            }
            proof {
                assert(self.groups@.skip(i as int).drop_first() =~= self.groups@.skip(i + 1));
            }
            i = i + 1;
        }
        JsonObject::new()
    }
}

/// Healthcheck requests.
#[derive(Debug)]
pub struct HealthChecker;

/// The health of the bridge.
#[derive(Debug)]
pub struct HealthcheckResponse {
    /// Whether the bridge is healthy.
    pub healthy: bool,
}

impl HealthChecker {
    /// Judge the response to a healthcheck.
    pub fn get(data: HealthcheckResponse) -> (r: Result<(), ErrorWithMeta>)
        ensures
            r is Ok <==> data.healthy,
            r matches Err(e) ==> e@ == (error::ErrorWithMetaModel {
                error: error::ErrorModel::ActionFailed("received unhealthy response"@, None),
                source: None,
                published: false,
            }),
    {
        if data.healthy {
            Ok(())
        } else {
            Err(
                Error::ActionFailed(
                    "received unhealthy response".to_owned(),
                    None,
                ).unknown_cause(),
            )
        }
    }
}

impl BridgeRequestType for HealthChecker {
    type Request = JsonObject;

    type Response = HealthcheckResponse;

    open spec fn request_name() -> Seq<char> {
        "health_check"@
    }

    open spec fn document(request: JsonObject) -> json::Json {
        json::Json::Object(request@)
    }

    open spec fn is_related(
        request: JsonObject,
        response: RequestResponse<HealthcheckResponse>,
    ) -> bool {
        true
    }

    open spec fn blame(
        request: JsonObject,
        response: RequestResponse<HealthcheckResponse>,
    ) -> Option<Seq<char>> {
        None
    }

    fn name() -> (r: &'static str) {
        "health_check"
    }

    fn message(request: &JsonObject) -> (r: String) {
        json::to_text(&JsonValue::Object(request.clone()))
    }

    fn process_response(request: &JsonObject, response: RequestResponse<HealthcheckResponse>) -> (r:
        Option<Result<HealthcheckResponse, ErrorWithMeta>>) {
        accept(response)
    }
}

/// Restart Zigbee2MQTT.
#[derive(Debug)]
pub struct Restarter;

impl BridgeRequestType for Restarter {
    type Request = JsonObject;

    type Response = JsonObject;

    open spec fn request_name() -> Seq<char> {
        "restart"@
    }

    open spec fn document(request: JsonObject) -> json::Json {
        json::Json::Object(request@)
    }

    open spec fn is_related(request: JsonObject, response: RequestResponse<JsonObject>) -> bool {
        true
    }

    open spec fn blame(request: JsonObject, response: RequestResponse<JsonObject>) -> Option<
        Seq<char>,
    > {
        None
    }

    fn name() -> (r: &'static str) {
        "restart"
    }

    fn message(request: &JsonObject) -> (r: String) {
        json::to_text(&JsonValue::Object(request.clone()))
    }

    fn process_response(request: &JsonObject, response: RequestResponse<JsonObject>) -> (r: Option<
        Result<JsonObject, ErrorWithMeta>,
    >) {
        accept(response)
    }
}

/// The extensions that are installed.
pub type BridgeExtensionsPayload = Vec<BridgeExtensionsPayloadItem>;

/// An extension that is installed.
#[derive(Debug)]
pub struct BridgeExtensionsPayloadItem {
    /// The name of the extension.
    pub name: String,
    /// The code of the extension.
    pub code: String,
}

impl Clone for BridgeExtensionsPayloadItem {
    fn clone(&self) -> (r: Self)
        ensures
            r == *self,
    {
        BridgeExtensionsPayloadItem { name: self.name.clone(), code: self.code.clone() }
    }
}

/// Track bridge extensions topic.
#[derive(Debug)]
pub struct BridgeExtensionsTracker(pub TopicTracker<BridgeExtensionsPayload>);

impl BridgeExtensionsTracker {
    /// The topic.
    pub fn topic() -> (r: &'static str)
        ensures
            r@ == "bridge/extensions"@,
    {
        "bridge/extensions"
    }
}

/// Install an extension script.
#[derive(Debug)]
pub struct ExtensionInstaller;

/// A request to install an extension.
#[derive(Debug)]
pub struct ExtensionInstallRequest {
    /// The name of the extension.
    pub name: &'static str,
    /// The code of the extension.
    pub code: &'static str,
}

impl BridgeRequestType for ExtensionInstaller {
    type Request = ExtensionInstallRequest;

    type Response = JsonObject;

    open spec fn request_name() -> Seq<char> {
        "extension/save"@
    }

    open spec fn document(request: ExtensionInstallRequest) -> json::Json {
        json::Json::Object(
            seq![
                ("name"@, json::Json::Text(request.name@)),
                ("code"@, json::Json::Text(request.code@)),
            ],
        )
    }

    open spec fn is_related(
        request: ExtensionInstallRequest,
        response: RequestResponse<JsonObject>,
    ) -> bool {
        true
    }

    open spec fn blame(
        request: ExtensionInstallRequest,
        response: RequestResponse<JsonObject>,
    ) -> Option<Seq<char>> {
        None
    }

    fn name() -> (r: &'static str) {
        "extension/save"
    }

    fn message(request: &ExtensionInstallRequest) -> (r: String) {
        message_of_two(
            "name",
            JsonValue::Text(request.name.to_owned()),
            "code",
            JsonValue::Text(request.code.to_owned()),
        )
    }

    fn process_response(
        request: &ExtensionInstallRequest,
        response: RequestResponse<JsonObject>,
    ) -> (r: Option<Result<JsonObject, ErrorWithMeta>>) {
        accept(response)
    }
}

} // verus!
