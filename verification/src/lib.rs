//! A Kubernetes operator to manage resources on Zigbee2MQTT instances.
//!
//! This library holds the decisions of the operator: which values are valid, what has to be changed,
//! what is reported, and what follows an event. Talking to Kubernetes and to the MQTT broker is left
//! to the application.

pub mod crds;
pub mod double;
pub mod error;
pub mod event_manager;
pub mod ext;
pub mod instance;
pub mod json;
pub mod laws;
pub mod mqtt;
pub mod reconcilers;
pub mod status_manager;
pub mod text;
pub mod with_source;

pub use event_manager::EventCore;

use vstd::prelude::*;

use error::Error;
use event_manager::ObjectReference;

verus! {

/// The timeout for responses/messages from Zigbee2MQTT if none is configured, in seconds.
pub const DEFAULT_TIMEOUT: u64 = 5;

/// The maximum interval between reconciles of resources if none is configured, in seconds.
///
/// Changes to the K8S resource will immediately trigger a reconcile regardless of this interval, so
/// this only dictates how quickly changes made on the Zigbee2MQTT side will be reconciled.
pub const DEFAULT_RECONCILE_INTERVAL: u64 = 60;

/// The maximum time to wait after a failed reconcile attempt before retrying if none is configured, in
/// seconds.
///
/// Changes to the K8s resource will immediately trigger a reconcile, so this is only important for
/// cases where the failure is temporary and the reconcile can succeed on a retry, not for cases where
/// the resource is invalid in some way.
pub const DEFAULT_RECONCILE_INTERVAL_FAILURE: u64 = 15;

/// The number of seconds that is configured, or the default. None if what is configured isn't a
/// number.
pub fn configured_seconds(configured: Option<&str>, default: u64) -> (r: Option<u64>)
    ensures
        r == match configured {
            Some(value) => text::parsed(value@),
            None => Some(default),
        },
{
    match configured {
        Some(value) => text::parse_number(value),
        None => Some(default),
    }
}

/// The number of seconds to wait after a failure: the one that is configured for this, or else the one
/// for any interval, or the default. None if what is configured isn't a number.
pub fn failure_seconds(failure: Option<&str>, interval: Option<&str>) -> (r: Option<u64>)
    ensures
        r == match (failure, interval) {
            (Some(value), _) => text::parsed(value@),
            (None, Some(value)) => text::parsed(value@),
            (None, None) => Some(DEFAULT_RECONCILE_INTERVAL_FAILURE),
        },
{
    match failure {
        Some(value) => configured_seconds(Some(value), DEFAULT_RECONCILE_INTERVAL_FAILURE),
        None => configured_seconds(interval, DEFAULT_RECONCILE_INTERVAL_FAILURE),
    }
}

/// The error for a task that is expected to run forever and that has stopped.
pub fn background_task_error(name: &str, result: Result<(), Error>) -> (r: Error)
    ensures
        match result {
            Ok(_) => r@ == error::ErrorModel::InvariantFailed(name@ + " closed"@, None),
            Err(cause) => r@ == error::ErrorModel::InvariantFailed(
                name@ + " encountered an error"@,
                Some(Box::new(cause@)),
            ),
        },
{
    match result {
        Ok(_) => Error::InvariantFailed(name.to_owned().concat(" closed"), None),
        Err(cause) => Error::InvariantFailed(
            name.to_owned().concat(" encountered an error"),
            Some(Box::new(cause)),
        ),
    }
}

/// Utility functions for [`ObjectReference`]s.
pub trait ObjectReferenceLocalExt {
    /// The parts of the reference: API version, kind, namespace and name.
    spec fn parts(&self) -> (
        Option<Seq<char>>,
        Option<Seq<char>>,
        Option<Seq<char>>,
        Option<Seq<char>>,
    );

    /// Get the name including the namespace for this resource.
    fn full_name(&self) -> (r: String)
        requires
            self.parts().3 is Some,
        ensures
            r@ == ext::full_name(self.parts().2, self.parts().3->0),
    ;

    /// Get a string that uniquely represent this resouce in the form of
    /// `{api_version}/{kind}/{full_name}`.
    fn id(&self) -> (r: String)
        requires
            self.parts().0 is Some,
            self.parts().1 is Some,
            self.parts().3 is Some,
        ensures
            r@ == self.parts().0->0 + "/"@ + self.parts().1->0 + "/"@ + ext::full_name(
                self.parts().2,
                self.parts().3->0,
            ),
    ;
}

impl ObjectReferenceLocalExt for ObjectReference {
    open spec fn parts(&self) -> (
        Option<Seq<char>>,
        Option<Seq<char>>,
        Option<Seq<char>>,
        Option<Seq<char>>,
    ) {
        (
            with_source::path_of(self.api_version),
            with_source::path_of(self.kind),
            with_source::path_of(self.namespace),
            with_source::path_of(self.name),
        )
    }

    fn full_name(&self) -> (r: String) {
        let name = match &self.name {
            Some(name) => name.as_str(),
            None => "",
        };
        match &self.namespace {
            Some(namespace) => ext::join_name(Some(namespace.as_str()), name),
            None => ext::join_name(None, name),
        }
    }

    fn id(&self) -> (r: String) {
        let api_version = match &self.api_version {
            Some(version) => version.clone(),
            None => String::new(),
        };
        let kind = match &self.kind {
            Some(kind) => kind.as_str(),
            None => "",
        };
        api_version.concat("/").concat(kind).concat("/").concat(self.full_name().as_str())
    }
}

} // verus!
