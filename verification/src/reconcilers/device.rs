//! Reconcile logic for [`Device`].

use vstd::prelude::*;

use crate::crds::{Device, DeviceStatus};
use crate::event_manager;
use crate::event_manager::{EventCore, EventType};
use crate::mqtt::handlers::lib::Configuration;
use crate::text;
use crate::with_source::ValueWithSource;

verus! {

/// How far the reconciliation of a device has come.
#[derive(Clone, Copy, Debug, PartialEq, Eq, Structural)]
pub enum DeviceProgress {
    /// It has started.
    Started,
    /// The instance is ready.
    Connected,
    /// The device exists.
    Exists,
    /// The device is in the desired state.
    Synced,
}

/// The status of a device after the reconciliation has come this far.
pub open spec fn device_progress(status: DeviceStatus, progress: DeviceProgress) -> DeviceStatus {
    match progress {
        DeviceProgress::Started => DeviceStatus { exists: None, synced: None },
        DeviceProgress::Connected => DeviceStatus { exists: Some(false), ..status },
        DeviceProgress::Exists => DeviceStatus { exists: Some(true), synced: Some(false) },
        DeviceProgress::Synced => DeviceStatus { synced: Some(true), ..status },
    }
}

/// See [`device_progress`].
pub fn advance_device_status(status: DeviceStatus, progress: DeviceProgress) -> (r: DeviceStatus)
    ensures
        r == device_progress(status, progress),
{
    match progress {
        DeviceProgress::Started => DeviceStatus { exists: None, synced: None },
        DeviceProgress::Connected => DeviceStatus { exists: Some(false), ..status },
        DeviceProgress::Exists => DeviceStatus { exists: Some(true), synced: Some(false) },
        DeviceProgress::Synced => DeviceStatus { synced: Some(true), ..status },
    }
}

/// The name that a device is to have, with its source: its address if no name is given.
pub open spec fn wanted_device_name(device: Device) -> (Seq<char>, Seq<char>) {
    match device.spec.friendly_name {
        Some(name) => (name@, "spec.friendly_name"@),
        None => (device.spec.ieee_address@, "spec.ieee_address"@),
    }
}

impl Device {
    /// The address of the device.
    pub fn ieee_address(&self) -> (r: ValueWithSource<String>)
        ensures
            r.inner()@ == self.spec.ieee_address@,
            r.path() == Some("spec.ieee_address"@),
    {
        ValueWithSource::new(
            self.spec.ieee_address.clone(),
            Some("spec.ieee_address".to_owned()),
        )
    }

    /// The name that the device is to have.
    pub fn wanted_name(&self) -> (r: ValueWithSource<String>)
        ensures
            r.inner()@ == wanted_device_name(*self).0,
            r.path() == Some(wanted_device_name(*self).1),
    {
        match &self.spec.friendly_name {
            Some(name) => ValueWithSource::new(name.clone(), Some("spec.friendly_name".to_owned())),
            None => self.ieee_address(),
        }
    }

    /// The event about a device that has to be renamed, given its current name; none if its name is
    /// right.
    pub fn sync_name(&self, current: &str) -> (r: Option<EventCore>)
        ensures
            ({
                let wanted = wanted_device_name(*self).0;
                if current@ == wanted {
                    r is None
                } else {
                    r matches Some(event) && event@ == event_manager::reconciling(
                        "updating friendly name to "@ + wanted + " (previously "@ + current@ + ")"@,
                        EventType::Normal,
                        None,
                    )
                }
            }),
    {
        let wanted = self.wanted_name();
        if text::same_text(current, wanted.value().as_str()) {
            return None;
        }
        let note = "updating friendly name to ".to_owned().concat(wanted.value().as_str()).concat(
            " (previously ",
        ).concat(current).concat(")");
        Some(event_manager::reconciling_event(note, EventType::Normal, None))
    }

    /// The options that the device is to have, if they are managed.
    pub fn wanted_options(&self) -> (r: Option<ValueWithSource<Configuration>>)
        ensures
            match (r, self.spec.options) {
                (Some(options), Some(wanted)) => options.inner()@ == wanted@ && options.path()
                    == Some("spec.options"@),
                (None, None) => true,
                _ => false,
            },
    {
        match &self.spec.options {
            Some(options) => Some(
                ValueWithSource::new(options.clone(), Some("spec.options".to_owned())),
            ),
            None => None,
        }
    }

    /// The capabilities that the device is to have, if they are managed.
    pub fn wanted_capabilities(&self) -> (r: Option<ValueWithSource<Configuration>>)
        ensures
            match (r, self.spec.capabilities) {
                (Some(capabilities), Some(wanted)) => capabilities.inner()@ == wanted@
                    && capabilities.path() == Some("spec.capabilities"@),
                (None, None) => true,
                _ => false,
            },
    {
        match &self.spec.capabilities {
            Some(capabilities) => Some(
                ValueWithSource::new(capabilities.clone(), Some("spec.capabilities".to_owned())),
            ),
            None => None,
        }
    }
}

} // verus!
