//! Definitions of the resources managed by this operator.

use vstd::prelude::*;
use vstd::utf8::*;

use crate::error;
use crate::error::{Error, ForeignError};
use crate::ext;
use crate::json::JsonObject;
use crate::with_source::ValueWithSource;

verus! {

/// What to do with devices or groups that Zigbee2MQTT knows, but that are not defined as resources.
#[derive(Clone, Copy, Debug, PartialEq, Eq, Structural)]
pub enum InstanceHandleUnmanaged {
    /// Nothing.
    Ignore,
    /// Report them.
    Inform,
    /// Report and delete them.
    Delete,
}

/// A Zigbee2MQTT instance.
#[derive(Debug)]
pub struct InstanceSpec {
    /// The host of the MQTT broker.
    pub host: String,
    /// The port of the MQTT broker. Defaults to 1883.
    pub port: u16,
    /// The credentials to authenticate with.
    pub credentials: Option<InstanceSpecCredentials>,
    /// The base topic. Should match the mqtt.base_topic option of the Zigbee2MQTT instance. Defaults
    /// to the default used by Zigbee2MQTT ('zigbee2mqtt').
    pub base_topic: String,
    /// What to do with devices that are not defined.
    pub unmanaged_devices: InstanceHandleUnmanaged,
    /// What to do with groups that are not defined.
    pub unmanaged_groups: InstanceHandleUnmanaged,
}

/// The credentials of an instance.
#[derive(Debug)]
pub struct InstanceSpecCredentials {
    /// The username to authenticate with.
    pub username: Value,
    /// The password to authenticate with.
    pub password: Value,
}

/// The status of an instance.
#[derive(Clone, Copy, Debug)]
pub struct InstanceStatus {
    /// Whether there is an active connection with the MQTT broker.
    pub broker: bool,
    /// Whether zigbee2mqtt is reachable and healthy, if this is known.
    pub zigbee2mqtt: Option<bool>,
}

impl PartialEq for InstanceStatus {
    fn eq(&self, other: &Self) -> (r: bool) {
        self.broker == other.broker && self.zigbee2mqtt == other.zigbee2mqtt
    }
}

impl vstd::std_specs::cmp::PartialEqSpecImpl for InstanceStatus {
    open spec fn obeys_eq_spec() -> bool {
        true
    }

    open spec fn eq_spec(&self, other: &Self) -> bool {
        *self == *other
    }
}

impl Default for InstanceStatus {
    fn default() -> (r: Self)
        ensures
            r == (InstanceStatus { broker: false, zigbee2mqtt: None }),
    {
        InstanceStatus { broker: false, zigbee2mqtt: None }
    }
}

/// The port of the broker if none is given.
pub fn default_instance_port() -> (r: u16)
    ensures
        r == 1883,
{
    1883
}

/// The base topic if none is given.
pub fn default_instance_base_topic() -> (r: String)
    ensures
        r@ == "zigbee2mqtt"@,
{
    "zigbee2mqtt".to_owned()
}

/// The instance that a device or a group belongs to if none is given.
pub fn default_instance() -> (r: String)
    ensures
        r@ == "default"@,
{
    "default".to_owned()
}

/// A Zigbee2MQTT device.
///
/// See <https://www.zigbee2mqtt.io/guide/configuration/devices-groups.html#devices-and-groups>.
#[derive(Debug)]
pub struct DeviceSpec {
    /// The instance this device belongs to. Defaults to 'default'.
    pub instance: String,
    /// The device address.
    pub ieee_address: String,
    /// Friendly name.
    pub friendly_name: Option<String>,
    /// The authorative options for the device.
    ///
    /// This is a combination of the common settings and the device specific settings, without
    /// `friendly_name`.
    ///
    /// Note that unset/null and `{}` are different; the former will not manage options for this
    /// device at all while the latter will set all options to their default values.
    pub options: Option<JsonObject>,
    /// Capabilities to set.
    pub capabilities: Option<JsonObject>,
}

/// The status of a device.
#[derive(Clone, Copy, Debug)]
pub struct DeviceStatus {
    /// Whether the device is present.
    pub exists: Option<bool>,
    /// Whether the device is in the desired state.
    pub synced: Option<bool>,
}

impl PartialEq for DeviceStatus {
    fn eq(&self, other: &Self) -> (r: bool) {
        self.exists == other.exists && self.synced == other.synced
    }
}

impl vstd::std_specs::cmp::PartialEqSpecImpl for DeviceStatus {
    open spec fn obeys_eq_spec() -> bool {
        true
    }

    open spec fn eq_spec(&self, other: &Self) -> bool {
        *self == *other
    }
}

impl Default for DeviceStatus {
    fn default() -> (r: Self)
        ensures
            r == (DeviceStatus { exists: None, synced: None }),
    {
        DeviceStatus { exists: None, synced: None }
    }
}

/// A Zigbee2MQTT group.
///
/// See <https://www.zigbee2mqtt.io/guide/usage/groups.html>.
#[derive(Debug)]
pub struct GroupSpec {
    /// The instance this group belongs to. Defaults to 'default'.
    pub instance: String,
    /// The name of the group.
    pub friendly_name: String,
    /// The ID of the group.
    ///
    /// If not provided a random id will be generated for the group.
    pub id: Option<usize>,
    /// The members of the group, by their address or name. Members aren't managed if this isn't
    /// provided.
    pub members: Option<Vec<String>>,
    /// The options of the group. Options aren't managed if this isn't provided.
    pub options: Option<JsonObject>,
}

/// The status of a group.
#[derive(Clone, Copy, Debug)]
pub struct GroupStatus {
    /// Whether the group exist.
    pub exists: Option<bool>,
    /// Whether the group is in the desired state.
    pub synced: Option<bool>,
    /// The group's ID.
    pub id: Option<usize>,
}

impl PartialEq for GroupStatus {
    fn eq(&self, other: &Self) -> (r: bool) {
        self.exists == other.exists && self.synced == other.synced && self.id == other.id
    }
}

impl vstd::std_specs::cmp::PartialEqSpecImpl for GroupStatus {
    open spec fn obeys_eq_spec() -> bool {
        true
    }

    open spec fn eq_spec(&self, other: &Self) -> bool {
        *self == *other
    }
}

impl Default for GroupStatus {
    fn default() -> (r: Self)
        ensures
            r == (GroupStatus { exists: None, synced: None, id: None }),
    {
        GroupStatus { exists: None, synced: None, id: None }
    }
}

/// An instance, with its status.
#[derive(Debug)]
pub struct Instance {
    /// What is wanted.
    pub spec: InstanceSpec,
    /// What is known.
    pub status: Option<InstanceStatus>,
}

/// A device, with its status.
#[derive(Debug)]
pub struct Device {
    /// What is wanted.
    pub spec: DeviceSpec,
    /// What is known.
    pub status: Option<DeviceStatus>,
}

/// A group, with its status.
#[derive(Debug)]
pub struct Group {
    /// What is wanted.
    pub spec: GroupSpec,
    /// What is known.
    pub status: Option<GroupStatus>,
}

/// A resource that belongs to an instance.
pub trait Instanced {
    /// The name of the instance that the resource belongs to.
    spec fn instance_name(&self) -> Seq<char>;

    /// Get the full name of the instance that the resource belongs to, which is in the namespace of
    /// the resource.
    fn get_instance_fullname(&self, namespace: Option<&str>) -> (r: ValueWithSource<String>)
        ensures
            r.inner()@ == ext::full_name(
                match namespace {
                    Some(n) => Some(n@),
                    None => None,
                },
                self.instance_name(),
            ),
            r.path() == Some("spec.instance"@),
    ;
}

impl Instanced for Device {
    open spec fn instance_name(&self) -> Seq<char> {
        self.spec.instance@
    }

    fn get_instance_fullname(&self, namespace: Option<&str>) -> (r: ValueWithSource<String>) {
        ValueWithSource::new(
            ext::join_name(namespace, self.spec.instance.as_str()),
            Some("spec.instance".to_owned()),
        )
    }
}

impl Instanced for Group {
    open spec fn instance_name(&self) -> Seq<char> {
        self.spec.instance@
    }

    fn get_instance_fullname(&self, namespace: Option<&str>) -> (r: ValueWithSource<String>) {
        ValueWithSource::new(
            ext::join_name(namespace, self.spec.instance.as_str()),
            Some("spec.instance".to_owned()),
        )
    }
}

/// A value that can be indirect, like environment variables.
#[derive(Debug)]
pub enum Value {
    /// The value itself.
    Inline(String),
    /// Where the value is.
    Secret {
        /// The secret that holds the value.
        secret_key_ref: SecretKeyRef,
    },
}

/// A part of a secret.
#[derive(Debug)]
pub struct SecretKeyRef {
    /// The namespace of the secret. Defaults to that of the resource that refers to it.
    pub namespace: Option<String>,
    /// The name of the secret.
    pub name: String,
    /// The key in the secret.
    pub key: String,
}

/// Where to get a value from.
#[derive(Debug)]
pub enum ValueSource {
    /// This is the value.
    Inline(String),
    /// The value is in the secret with the given namespace and name, see [`SecretKeyRef::get`].
    Secret {
        /// The namespace of the secret.
        namespace: String,
        /// The name of the secret.
        name: String,
    },
}

/// The namespace of the secret that a reference means: the one that it specifies, or else that of the
/// resource that it is part of.
pub open spec fn secret_namespace(
    reference: SecretKeyRef,
    namespace: Option<Seq<char>>,
) -> Option<Seq<char>> {
    match reference.namespace {
        Some(own) => Some(own@),
        None => namespace,
    }
}

impl Value {
    /// Get the current value, or find out where it is.
    ///
    /// # Errors
    ///
    /// Will return [`Error`] if the value contains a reference that cannot be resolved.
    pub fn get(&self, namespace: Option<&str>, id: &str) -> (r: Result<ValueSource, Error>)
        ensures
            match *self {
                Value::Inline(value) => r matches Ok(ValueSource::Inline(v)) && v@ == value@,
                Value::Secret { secret_key_ref: reference } => match secret_namespace(
                    reference,
                    match namespace {
                        Some(n) => Some(n@),
                        None => None,
                    },
                ) {
                    Some(expected) => r matches Ok(ValueSource::Secret { namespace: n, name })
                        && n@ == expected && name@ == reference.name@,
                    None => r matches Err(e) && e@ == (error::ErrorModel::InvalidResource {
                        field_path: ".namespace"@,
                        message: "parent resource "@ + id@
                            + " does not have a namespace, so reference must specify namespace"@,
                    }),
                },
            },
    {
        match self {
            Value::Inline(value) => Ok(ValueSource::Inline(value.clone())),
            Value::Secret { secret_key_ref: reference } => {
                let namespace = match (&reference.namespace, namespace) {
                    (Some(own), _) => own.clone(),
                    (None, Some(parent)) => parent.to_owned(),
                    (None, None) => {
                        return Err(
                            Error::InvalidResource {
                                field_path: ".namespace".to_owned(),
                                message: "parent resource ".to_owned().concat(id).concat(
                                    " does not have a namespace, so reference must specify namespace",
                                ),
                            },
                        );
                    },
                };
                Ok(ValueSource::Secret { namespace, name: reference.name.clone() })
            },
        }
    }
}

/// Why bytes aren't the UTF-8 encoding of a text.
pub uninterp spec fn utf8_error(bytes: Seq<u8>) -> error::ForeignErrorModel;

/// `str::from_utf8`: the text that bytes are the UTF-8 encoding of. The error, if they aren't, is named
/// [`utf8_error`].
#[verifier::external_body]
fn text_of_bytes(bytes: &Vec<u8>) -> (r: Result<String, ForeignError>)
    ensures
        match r {
            Ok(text) => valid_utf8(bytes@) && text@ == decode_utf8(bytes@),
            Err(e) => !valid_utf8(bytes@) && e@ == utf8_error(bytes@),
        },
{
    match std::str::from_utf8(bytes) {
        Ok(text) => Ok(text.to_owned()),
        Err(err) => Err(ForeignError { display: err.to_string(), debug: format!("{err:?}") }),
    }
}

/// Use the outcome of decoding the data of a secret.
pub fn use_secret(decoded: Result<String, ForeignError>) -> (r: Result<String, Error>)
    ensures
        match decoded {
            Ok(text) => r == Ok::<String, Error>(text),
            Err(cause) => r matches Err(e) && e@ == error::ErrorModel::ActionFailed(
                "failed to parse secret data"@,
                Some(cause@),
            ),
        },
{
    match decoded {
        Ok(text) => Ok(text),
        Err(cause) => Err(
            Error::ActionFailed("failed to parse secret data".to_owned(), Some(cause)),
        ),
    }
}

/// What was found in a secret.
#[derive(Debug)]
pub enum SecretData {
    /// The secret could not be read.
    Unavailable(ForeignError),
    /// The secret doesn't have the key.
    Missing,
    /// The data for the key.
    Found(Vec<u8>),
}

impl SecretKeyRef {
    /// Get the value from what was found in the secret.
    pub fn get(&self, data: SecretData) -> (r: Result<String, Error>)
        ensures
            match data {
                SecretData::Unavailable(cause) => r matches Err(e) && e@
                    == error::ErrorModel::ActionFailed("failed to get secret"@, Some(cause@)),
                SecretData::Missing => r matches Err(e) && e@ == (
                error::ErrorModel::InvalidResource {
                    field_path: ".key"@,
                    message: "secret does not have data with "@ + self.key@,
                }),
                SecretData::Found(bytes) => if valid_utf8(bytes@) {
                    r matches Ok(text) && text@ == decode_utf8(bytes@)
                } else {
                    r matches Err(e) && e@ == error::ErrorModel::ActionFailed(
                        "failed to parse secret data"@,
                        Some(utf8_error(bytes@)),
                    )
                },
            },
    {
        match data {
            SecretData::Unavailable(cause) => Err(
                Error::ActionFailed("failed to get secret".to_owned(), Some(cause)),
            ),
            SecretData::Missing => Err(
                Error::InvalidResource {
                    field_path: ".key".to_owned(),
                    message: "secret does not have data with ".to_owned().concat(
                        self.key.as_str(),
                    ),
                },
            ),
            SecretData::Found(bytes) => use_secret(text_of_bytes(&bytes)),
        }
    }
}

} // verus!
